//! Rectangles with whole-number sides.

use vstd::prelude::*;

verus! {

/// A rectangle given by its sides.
#[derive(Clone, Copy, Debug, PartialEq, Eq, Structural)]
pub struct Rectangle {
    pub height: u32,
    pub width: u32,
}

impl Rectangle {
    /// The area; the product must fit a `u32`.
    pub fn area(&self) -> (r: u32)
        requires
            self.width * self.height <= u32::MAX,
        ensures
            r == self.width * self.height,
    {
        self.width * self.height
    }

    /// Whether `other` fits strictly inside this rectangle, unrotated.
    pub fn can_hold(&self, other: &Rectangle) -> (r: bool)
        ensures
            r == (self.width > other.width && self.height > other.height),
    {
        self.width > other.width && self.height > other.height
    }

    /// The square with sides of `size`.
    pub fn square(size: u32) -> (r: Rectangle)
        ensures
            r.width == size,
            r.height == size,
    {
        Rectangle { width: size, height: size }
    }
}

} // verus!
