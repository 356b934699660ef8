//! A deterministic seed-threading generator and combinators over it.
//!
//! A generator is a function from a seed to a pair of a value and the next
//! seed. The base generator `rand` hands back its seed as the value and
//! advances the seed by one; the combinators build new generators that thread
//! the seed through the generators they are made of, left to right.
use vstd::prelude::*;

pub mod generator;
pub mod laws;
pub mod letter;

pub use generator::{
    five_rands, gen_apply, gen_lift2, gen_pure, gen_sequence, general_pair, map_gen, map_rand, rand,
    rand_even, rand_letter, rand_odd, rand_pair, rand_pure, three_rand_letters, Rand, Seed,
};
pub use letter::i_to_a;
