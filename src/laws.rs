//! Laws that relate the generators and combinators to one another.
use vstd::prelude::*;

use crate::generator::{
    deterministic, map_yields, mapped, rand, rand_even, rand_letter, rand_odd, rand_pair, Rand, Seed,
};

verus! {

/// On every seed, the even generator gives twice the value of the base
/// generator and the odd one twice it plus one, and both hand on the seed
/// that the base generator hands on.
pub proof fn lemma_even_odd_follow_rand(s: Seed, base: Rand<u32>, even: Rand<u32>, odd: Rand<u32>)
    requires
        rand.ensures((s,), base),
        rand_even.ensures((s,), even),
        rand_odd.ensures((s,), odd),
    ensures
        even.0 == 2 * base.0,
        odd.0 == 2 * base.0 + 1,
        even.1 == base.1,
        odd.1 == base.1,
{
}

/// Each generator of the library gives one and the same result whenever it
/// runs on the same seed.
pub proof fn lemma_generators_deterministic()
    ensures
        deterministic(&rand),
        deterministic(&rand_even),
        deterministic(&rand_odd),
        deterministic(&rand_letter),
        deterministic(&rand_pair),
{
}

/// Mapping the identity over a step gives that step back.
pub proof fn lemma_map_rand_identity<T, F: Fn(T) -> T>(r: Rand<T>, f: F, out: Rand<T>)
    requires
        forall|t: T, u: T| #[trigger] f.ensures((t,), u) ==> u == t,
        mapped(r, f, out),
    ensures
        out == r,
{
}

/// Every result of mapping the identity over a generator is a result of the
/// generator itself on the same seed.
pub proof fn lemma_map_gen_identity<T, G: Fn(Seed) -> Rand<T>, F: Fn(T) -> T>(g: G, f: F, s: Seed, out: Rand<T>)
    requires
        forall|t: T, u: T| #[trigger] f.ensures((t,), u) ==> u == t,
        map_yields(&g, &f, s, out),
    ensures
        g.ensures((s,), out),
{
    let x = choose|x: Rand<T>| #[trigger] g.ensures((s,), x) && mapped(x, f, out);
    assert(out == x);
}

} // verus!
