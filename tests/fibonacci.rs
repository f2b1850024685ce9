use guessing_game::fibonacci::{fib_iterator, nth_fib_num, LARGEST_I32_FIB_INDEX};

#[test]
fn first_fibonacci_numbers() {
    let expected = [1, 1, 2, 3, 5, 8, 13, 21, 34, 55];
    for (k, v) in expected.iter().enumerate() {
        assert_eq!(nth_fib_num(k as i32 + 1), *v);
    }
}

#[test]
fn thirty_seventh_fibonacci_number() {
    assert_eq!(nth_fib_num(37), 24157817);
}

#[test]
fn largest_fibonacci_number_in_i32() {
    assert_eq!(nth_fib_num(LARGEST_I32_FIB_INDEX), 1836311903);
}

#[test]
fn walk_from_other_pairs() {
    assert_eq!(fib_iterator((2, 3), 1), 3);
    assert_eq!(fib_iterator((2, 3), 3), 8);
    assert_eq!(fib_iterator((0, 1), 5), 5);
    assert_eq!(fib_iterator((-1, 1), 4), 1);
}
