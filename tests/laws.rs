use seed_gen::{
    gen_apply, gen_pure, gen_sequence, general_pair, i_to_a, map_gen, map_rand, rand, rand_even,
    rand_letter, rand_odd, rand_pair,
};

#[test]
fn rand_hands_back_seed_and_next() {
    for s in [0u32, 1, 7, 1000, u32::MAX - 1] {
        assert_eq!(rand(s), (s, s + 1));
    }
}

#[test]
fn even_and_odd_follow_rand() {
    for s in [0u32, 1, 9, 0x7FFF_FFFF] {
        let (base, next) = rand(s);
        assert_eq!(rand_even(s), (2 * base, next));
        assert_eq!(rand_odd(s), (2 * base + 1, next));
    }
}

#[test]
fn general_pair_threads_the_seed() {
    assert_eq!(general_pair(rand_letter, rand)(1), (('a', 2), 3));
    assert_eq!(general_pair(rand, rand_even)(4), ((4, 10), 6));
}

#[test]
fn generators_repeat_on_the_same_seed() {
    assert_eq!(rand(42), rand(42));
    assert_eq!(rand_even(42), rand_even(42));
    assert_eq!(rand_odd(42), rand_odd(42));
    assert_eq!(rand_letter(3), rand_letter(3));
    assert_eq!(rand_pair(3), rand_pair(3));
    let pair = general_pair(rand_letter, rand_odd);
    assert_eq!(pair(7), pair(7));
    let seq = gen_sequence(vec![rand, rand, rand]);
    assert_eq!(seq(10), seq(10));
}

#[test]
fn map_identity_gives_the_generator_back() {
    for s in [0u32, 5, 100] {
        assert_eq!(map_gen(rand, |v: u32| v)(s), rand(s));
        assert_eq!(map_gen(rand_letter, |c: char| c)(s), rand_letter(s));
    }
    assert_eq!(map_rand(('q', 9), |c: char| c), ('q', 9));
}

#[test]
fn map_changes_the_value_only() {
    assert_eq!(map_rand((3u32, 8), |v: u32| v + 10), (13, 8));
    assert_eq!(map_gen(rand, |v: u32| v * 3)(5), (15, 6));
}

#[test]
fn gen_pure_ignores_the_seed_value() {
    assert_eq!(gen_pure(9)(0), (9, 1));
    assert_eq!(gen_pure(9)(100), (9, 101));
}

#[test]
fn gen_apply_runs_function_then_value() {
    let gen_f = map_gen(rand, |a: u32| move |b: u32| a * 10 + b);
    assert_eq!(gen_apply(gen_f, rand)(1), (12, 3));
    let gen_g = map_gen(rand, |a: u32| move |b: u32| a * 100 + b);
    assert_eq!(gen_apply(gen_g, rand_even)(4), (410, 6));
}

#[test]
fn gen_sequence_of_nothing_keeps_the_seed() {
    let gs: Vec<fn(u32) -> (u32, u32)> = vec![];
    assert_eq!(gen_sequence(gs)(7), (vec![], 7));
}

#[test]
fn gen_sequence_ends_on_the_last_seed() {
    let gs = vec![rand_odd, rand_odd, rand_odd];
    assert_eq!(gen_sequence(gs)(0), (vec![1, 3, 5], 3));
}

#[test]
fn letters_by_position() {
    assert_eq!(i_to_a(1), 'a');
    assert_eq!(i_to_a(2), 'b');
    assert_eq!(i_to_a(26), 'z');
    assert_eq!(i_to_a(0), '`');
    assert_eq!(i_to_a(27), '{');
}

#[test]
fn letters_fall_back_to_nul() {
    assert_eq!(i_to_a(0xD800 - 96), '\0');
    assert_eq!(i_to_a(0xDFFF - 96), '\0');
    assert_eq!(i_to_a(0x10FFFF - 96 + 1), '\0');
    assert_eq!(i_to_a(u32::MAX), '\0');
    assert_eq!(i_to_a(0x10FFFF - 96), '\u{10FFFF}');
}

#[test]
fn concat_joins_two_letters() {
    assert_eq!(seed_gen::letter::concat(1, 2), "ab");
    assert_eq!(seed_gen::letter::concat(26, 3), "zc");
    assert_eq!(seed_gen::letter::concat(u32::MAX, 1), "\0a");
}
