use seed_gen::{
    five_rands, gen_lift2, gen_pure, gen_sequence, rand, rand_even, rand_letter, rand_odd, rand_pair,
    rand_pure, three_rand_letters,
};

#[test]
fn it_works() {
    assert_eq!(2 + 2, 4);
}

#[test]
fn first_seed() {
    assert_eq!(rand(1), (1, 2));
    assert_eq!(rand(5), (5, 6));
}

#[test]
fn test_rand_letter() {
    assert_eq!(rand_letter(1), ('a', 2));
    assert_eq!(rand_letter(5), ('e', 6));
}

#[test]
fn test_five_rands() {
    assert_eq!(five_rands(), vec!(1, 2, 3, 4, 5));
}

#[test]
fn test_three_rand_letters() {
    assert_eq!(three_rand_letters(), "abc");
}

#[test]
fn test_even_rands() {
    assert_eq!(rand_even(3), (6, 4));
}

#[test]
fn test_odd_rands() {
    assert_eq!(rand_odd(3), (7, 4));
}

#[test]
fn test_rand_pair() {
    assert_eq!(rand_pair(1), (('a', 2), 3));
    assert_eq!(rand_pair(2), (('b', 3), 4));
}

#[test]
fn test_rand_pure() {
    assert_eq!(rand_pure(1), (1, 1));
    assert_eq!(rand_pure(2), (2, 1));
}

#[test]
fn test_gen_pure() {
    assert_eq!(gen_pure(1)(1), (1, 2));
    assert_eq!(gen_pure(2)(1), (2, 2));
    assert_eq!(gen_pure(3)(2), (3, 3));
}

#[test]
fn test_gen_lift2() {
    let (res, seed) = gen_lift2(seed_gen::letter::concat, rand_odd, rand_even)(0);
    assert_eq!(String::from(res), "ab");
    assert_eq!(seed, 2);
}

#[test]
fn test_gen_sequence() {
    let gs = vec![rand, rand, rand, rand, rand];
    assert_eq!(vec![1, 2, 3, 4, 5], gen_sequence(gs)(1).0);
}

// The seed runs through the generators in order: from seed 2 the even
// generator sees the seeds 2, 3, 4, 5 and 6.
#[test]
fn test_gen_even_sequence() {
    let gs = vec![rand_even, rand_even, rand_even, rand_even, rand_even];
    assert_eq!(vec![4, 6, 8, 10, 12], gen_sequence(gs)(2).0);
}
