//! A number-guessing game whose rules are verified, with a few small
//! companions: Fibonacci numbers, rectangles, coins, the first word of a
//! text, and a restaurant laid out as a module tree.

pub mod coins;
pub mod fibonacci;
pub mod game;
pub mod input;
pub mod restaurant;
pub mod shapes;
pub mod words;

pub use crate::restaurant::hosting;
pub use crate::restaurant::{eat_at_restaurant, Appetizer, Breakfast};
