//! A restaurant laid out as a module tree: the front of house seats guests,
//! and the menu's types show what is public and what is not.

use vstd::prelude::*;

pub mod hosting;

verus! {

/// Seats a party: it goes on the waiting list twice over, once by an
/// absolute path and once by a relative one.
pub fn eat_at_restaurant() {
    crate::restaurant::hosting::add_to_waitlist();
    hosting::add_to_waitlist();
}

/// A breakfast order: the guest picks the toast, the kitchen picks the
/// seasonal fruit, which stays private.
#[allow(dead_code)]
pub struct Breakfast {
    pub toast: String,
    seasonal_fruit: String,
}

/// Starters on the menu; every variant of a public enum is public.
#[derive(Clone, Copy, Debug, PartialEq, Eq, Structural)]
pub enum Appetizer {
    Soup,
    Salad,
}

} // verus!
