use guessing_game::coins::{inc, Coin, UsState};
use guessing_game::shapes::Rectangle;
use guessing_game::words::first_word;

#[test]
fn rectangle_area_and_holding() {
    let rect1 = Rectangle { width: 30, height: 50 };
    assert_eq!(rect1.area(), 1500);
    let small = Rectangle { width: 1, height: 1 };
    assert!(rect1.can_hold(&small));
    assert!(!small.can_hold(&rect1));
    assert!(!rect1.can_hold(&rect1));
    assert!(!rect1.can_hold(&Rectangle { width: 10, height: 50 }));
}

#[test]
fn square_has_equal_sides() {
    let sq = Rectangle::square(4);
    assert_eq!(sq, Rectangle { width: 4, height: 4 });
    assert_eq!(sq.area(), 16);
    assert_eq!(Rectangle::square(65535).area(), 4294836225);
}

#[test]
fn coin_values() {
    assert_eq!(Coin::Penny.to_cents(), 1);
    assert_eq!(Coin::Nickel.to_cents(), 5);
    assert_eq!(Coin::Dime.to_cents(), 10);
    assert_eq!(Coin::Quarter(UsState::California).to_cents(), 25);
    assert_eq!(Coin::Quarter(UsState::Connecticut).to_cents(), 25);
}

#[test]
fn inc_option() {
    assert_eq!(inc(Some(5)), Some(6));
    assert_eq!(inc(None), None);
    assert_eq!(inc(Some(-1)), Some(0));
    assert_eq!(inc(Some(i32::MAX - 1)), Some(i32::MAX));
}

#[test]
fn first_word_stops_at_space() {
    assert_eq!(first_word("the first word of this string is the!"), "the");
    assert_eq!(first_word("single"), "single");
    assert_eq!(first_word(""), "");
    assert_eq!(first_word(" leading"), "");
    assert_eq!(first_word("héllo wörld"), "héllo");
}
