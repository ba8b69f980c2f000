//! Tests of the list combinator and the minimal one-cell entity.

use reactive_tree::combinators::flatten_vec;
use reactive_tree::square::MyStruct;

#[test]
fn unwrapping_test() {
}

#[test]
fn flatten_keeps_order() {
    let input: Vec<Vec<i32>> = vec![vec![1, 2], vec![], vec![3], vec![4, 5, 6]];
    assert_eq!(flatten_vec(input), vec![1, 2, 3, 4, 5, 6]);
}

#[test]
fn flatten_of_empty_is_empty() {
    let input: Vec<Vec<u8>> = Vec::new();
    assert_eq!(flatten_vec(input), Vec::<u8>::new());
    let nested: Vec<Vec<u8>> = vec![vec![], vec![]];
    assert_eq!(flatten_vec(nested), Vec::<u8>::new());
}

#[test]
fn square_derives_from_current_cell() {
    let s = MyStruct::new(3);
    assert_eq!(s.a(), 3);
    assert_eq!(s.a_squared(), 9);
    let big = MyStruct::new(u64::MAX);
    assert_eq!(big.a_squared(), (u64::MAX as u128) * (u64::MAX as u128));
}
