//! Coins and their values, and adding one under an `Option`.

use vstd::prelude::*;

verus! {

/// The state on the back of a quarter.
#[derive(Clone, Copy, Debug, PartialEq, Eq, Structural)]
pub enum UsState {
    California,
    Chicago,
    Connecticut,
}

/// A coin; a quarter carries the state it was minted for.
#[derive(Clone, Copy, Debug, PartialEq, Eq, Structural)]
pub enum Coin {
    Penny,
    Nickel,
    Dime,
    Quarter(UsState),
}

/// What a coin is worth, in cents.
pub open spec fn cents_of(coin: Coin) -> u8 {
    match coin {
        Coin::Penny => 1,
        Coin::Nickel => 5,
        Coin::Dime => 10,
        Coin::Quarter(_) => 25,
    }
}

impl Coin {
    /// What this coin is worth, in cents.
    pub fn to_cents(&self) -> (r: u8)
        ensures
            r == cents_of(*self),
    {
        match self {
            Coin::Penny => 1,
            Coin::Nickel => 5,
            Coin::Dime => 10,
            Coin::Quarter(_) => 25,
        }
    }
}

/// Adds one to a present value and passes an absent one through.
pub fn inc(x: Option<i32>) -> (r: Option<i32>)
    requires
        x != Some(i32::MAX),
    ensures
        r == match x {
            Some(n) => Some((n + 1) as i32),
            None => None::<i32>,
        },
{
    match x {
        Some(n) => Some(n + 1),
        None => None,
    }
}

} // verus!
