use guessing_game::{eat_at_restaurant, hosting, Appetizer};

#[test]
fn seating_runs() {
    hosting::add_to_waitlist();
    eat_at_restaurant();
}

#[test]
fn appetizers_are_distinct() {
    let order = Appetizer::Soup;
    assert_eq!(order, Appetizer::Soup);
    assert_ne!(order, Appetizer::Salad);
}
