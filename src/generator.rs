//! The base generator, the value transform, and the combinators.
use vstd::prelude::*;

use crate::letter::{i_to_a, lemma_letter_of_code, letter, push_char};

verus! {

/// The state that a generator consumes and advances.
pub type Seed = u32;

/// What one step of a generator hands back: a value and the next seed.
pub type Rand<T> = (T, Seed);

/// The largest seed that `rand_even` and `rand_odd` accept: twice it, plus
/// one, still fits in a seed.
pub const HALF_SEED_MAX: u32 = 0x7FFF_FFFF;

/// Every result of `g` on a seed is the same result.
pub open spec fn deterministic<T, G: Fn(Seed) -> Rand<T>>(g: &G) -> bool {
    forall|s: Seed, x: Rand<T>, y: Rand<T>|
        #[trigger] (*g).ensures((s,), x) && #[trigger] (*g).ensures((s,), y) ==> x == y
}

/// Every result of `f` on a value is the same result.
pub open spec fn fn_deterministic<T, U, F: FnOnce(T) -> U>(f: &F) -> bool {
    forall|t: T, u: U, w: U| #[trigger] (*f).ensures((t,), u) && #[trigger] (*f).ensures((t,), w) ==> u == w
}

/// Every result of the two-argument `f` on two values is the same result.
pub open spec fn fn2_deterministic<T, U, V, F: Fn(T, U) -> V>(f: &F) -> bool {
    forall|p: (T, U), v: V, w: V| #[trigger] (*f).ensures(p, v) && #[trigger] (*f).ensures(p, w) ==> v == w
}

/// `r` with `f` applied to its value and its seed kept.
pub open spec fn mapped<T, U, F: Fn(T) -> U>(r: Rand<T>, f: F, out: Rand<U>) -> bool {
    f.ensures((r.0,), out.0) && out.1 == r.1
}

/// `g` runs on `s`, and `f` on every value that it may give there.
pub open spec fn map_runs<T, U, G: Fn(Seed) -> Rand<T>, F: Fn(T) -> U>(g: &G, f: &F, s: Seed) -> bool {
    (*g).requires((s,)) && forall|x: Rand<T>| #[trigger] (*g).ensures((s,), x) ==> (*f).requires((x.0,))
}

/// `out` is a result of `g` on `s` with `f` applied to its value.
pub open spec fn map_yields<T, U, G: Fn(Seed) -> Rand<T>, F: Fn(T) -> U>(
    g: &G,
    f: &F,
    s: Seed,
    out: Rand<U>,
) -> bool {
    exists|x: Rand<T>| #[trigger] (*g).ensures((s,), x) && mapped(x, *f, out)
}

/// `first` runs on `s`, and `second` on every seed that `first` may hand on.
pub open spec fn pair_runs<A, B, GA: Fn(Seed) -> Rand<A>, GB: Fn(Seed) -> Rand<B>>(
    first: &GA,
    second: &GB,
    s: Seed,
) -> bool {
    (*first).requires((s,)) && forall|x: Rand<A>| #[trigger] (*first).ensures((s,), x) ==> (*second).requires((x.1,))
}

/// `out` pairs a result of `first` on `s` with a result of `second` on the
/// seed that `first` handed on, and ends on the seed that `second` handed on.
pub open spec fn pair_yields<A, B, GA: Fn(Seed) -> Rand<A>, GB: Fn(Seed) -> Rand<B>>(
    first: &GA,
    second: &GB,
    s: Seed,
    out: Rand<(A, B)>,
) -> bool {
    exists|x: Rand<A>, y: Rand<B>|
        #[trigger] (*first).ensures((s,), x) && #[trigger] (*second).ensures((x.1,), y) && out == ((x.0, y.0), y.1)
}

/// `gen_f` runs on `s`, `gen_t` on every seed that it may hand on, and every
/// function that `gen_f` may give there on every value that `gen_t` may give.
pub open spec fn apply_runs<T, U, F: FnOnce(T) -> U, GF: Fn(Seed) -> Rand<F>, GT: Fn(Seed) -> Rand<T>>(
    gen_f: &GF,
    gen_t: &GT,
    s: Seed,
) -> bool {
    &&& (*gen_f).requires((s,))
    &&& forall|x: Rand<F>| #[trigger] (*gen_f).ensures((s,), x) ==> {
        &&& (*gen_t).requires((x.1,))
        &&& forall|y: Rand<T>| #[trigger] (*gen_t).ensures((x.1,), y) ==> x.0.requires((y.0,))
    }
}

/// `out` holds what a function given by `gen_f` on `s` returns on a value that
/// `gen_t` gave on the seed that `gen_f` handed on, with the seed that `gen_t`
/// handed on.
pub open spec fn apply_yields<T, U, F: FnOnce(T) -> U, GF: Fn(Seed) -> Rand<F>, GT: Fn(Seed) -> Rand<T>>(
    gen_f: &GF,
    gen_t: &GT,
    s: Seed,
    out: Rand<U>,
) -> bool {
    exists|x: Rand<F>, y: Rand<T>|
        #[trigger] (*gen_f).ensures((s,), x) && #[trigger] (*gen_t).ensures((x.1,), y) && x.0.ensures((y.0,), out.0)
            && out.1 == y.1
}

/// `f` accepts the two arguments `p`.
pub open spec fn takes<T, U, V, F: Fn(T, U) -> V>(f: &F, p: (T, U)) -> bool {
    (*f).requires(p)
}

/// `v` is a result of `f` on the two arguments `p`.
pub open spec fn gives<T, U, V, F: Fn(T, U) -> V>(f: &F, p: (T, U), v: V) -> bool {
    (*f).ensures(p, v)
}

/// `first` runs on `s`, `second` on every seed that it may hand on, and `f`
/// on every two values that they may give there.
pub open spec fn lift2_runs<T, U, V, F: Fn(T, U) -> V, GT: Fn(Seed) -> Rand<T>, GU: Fn(Seed) -> Rand<U>>(
    f: &F,
    first: &GT,
    second: &GU,
    s: Seed,
) -> bool {
    &&& (*first).requires((s,))
    &&& forall|x: Rand<T>| #[trigger] (*first).ensures((s,), x) ==> {
        &&& (*second).requires((x.1,))
        &&& forall|y: Rand<U>| #[trigger] (*second).ensures((x.1,), y) ==> (*f).requires((x.0, y.0))
    }
}

/// `out` holds what `f` returns on a value of `first` on `s` and a value of
/// `second` on the seed that `first` handed on, with the seed that `second`
/// handed on.
pub open spec fn lift2_yields<T, U, V, F: Fn(T, U) -> V, GT: Fn(Seed) -> Rand<T>, GU: Fn(Seed) -> Rand<U>>(
    f: &F,
    first: &GT,
    second: &GU,
    s: Seed,
    out: Rand<V>,
) -> bool {
    exists|x: Rand<T>, y: Rand<U>|
        #[trigger] (*first).ensures((s,), x) && #[trigger] (*second).ensures((x.1,), y) && (*f).ensures((x.0, y.0), out.0)
            && out.1 == y.1
}

/// Each generator of `gs` in turn runs on the seed that the one before it may
/// hand on, the first on `s`.
pub open spec fn sequence_runs<T, G: Fn(Seed) -> Rand<T>>(gs: Seq<G>, s: Seed) -> bool
    decreases gs.len(),
{
    gs.len() > 0 ==> {
        &&& gs[0].requires((s,))
        &&& forall|x: Rand<T>| #[trigger] gs[0].ensures((s,), x) ==> sequence_runs(gs.drop_first(), x.1)
    }
}

/// Generator `i` of `gs`, run on `seeds[i]`, may give `vals[i]` and hand on
/// `seeds[i + 1]`.
pub open spec fn threads<T, G: Fn(Seed) -> Rand<T>>(gs: Seq<G>, seeds: Seq<Seed>, vals: Seq<T>) -> bool {
    &&& seeds.len() == gs.len() + 1
    &&& vals.len() == gs.len()
    &&& forall|i: int| #![trigger gs[i]] 0 <= i < gs.len() ==> gs[i].ensures((seeds[i],), (vals[i], seeds[i + 1]))
}

/// Running the generators of `gs` in order, each on the seed that the one
/// before it handed on and the first on `s`, may give the values `vals` and
/// end on the seed `end`.
pub open spec fn sequence_yields<T, G: Fn(Seed) -> Rand<T>>(gs: Seq<G>, s: Seed, vals: Seq<T>, end: Seed) -> bool {
    exists|seeds: Seq<Seed>| #[trigger] threads(gs, seeds, vals) && seeds[0] == s && seeds.last() == end
}

/// The base generator: the seed is the value, and the next seed is one more.
pub fn rand(seed: Seed) -> (r: Rand<u32>)
    requires
        seed < u32::MAX,
    ensures
        r.0 == seed,
        r.1 == seed + 1,
{
    (seed, seed + 1)
}

/// Applies `f` to the value of a step, keeping its seed.
pub fn map_rand<T, U, F: Fn(T) -> U>(r: Rand<T>, f: F) -> (out: Rand<U>)
    requires
        f.requires((r.0,)),
    ensures
        mapped(r, f, out),
{
    (f(r.0), r.1)
}

/// The generator that runs `g` and applies `f` to its value, passing the seed
/// that `g` handed on through unchanged.
pub fn map_gen<T, U, G: Fn(Seed) -> Rand<T>, F: Fn(T) -> U>(g: G, f: F) -> (r: impl Fn(Seed) -> Rand<U>)
    ensures
        forall|s: Seed| map_runs(&g, &f, s) ==> #[trigger] r.requires((s,)),
        forall|s: Seed, out: Rand<U>| #[trigger] r.ensures((s,), out) ==> map_yields(&g, &f, s, out),
        deterministic(&g) && fn_deterministic(&f) ==> deterministic(&r),
{
    let r = move |s: Seed| -> (out: Rand<U>)
        requires
            map_runs(&g, &f, s),
        ensures
            map_yields(&g, &f, s, out),
    {
        let (v, seed) = g(s);
        (f(v), seed)
    };
    assert(deterministic(&g) && fn_deterministic(&f) ==> deterministic(&r)) by {
        if deterministic(&g) && fn_deterministic(&f) {
            assert forall|s: Seed, x: Rand<U>, y: Rand<U>|
                #[trigger] r.ensures((s,), x) && #[trigger] r.ensures((s,), y) implies x == y by {
                let gx = choose|gx: Rand<T>| #[trigger] g.ensures((s,), gx) && mapped(gx, f, x);
                let gy = choose|gy: Rand<T>| #[trigger] g.ensures((s,), gy) && mapped(gy, f, y);
                assert(gx == gy);
            }
        }
    }
    r
}

/// Twice the base generator's value, with its seed.
pub fn rand_even(seed: Seed) -> (r: Rand<u32>)
    requires
        seed <= HALF_SEED_MAX,
    ensures
        r.0 == 2 * seed,
        r.1 == seed + 1,
{
    let double = |v: u32| -> (w: u32)
        requires
            v <= HALF_SEED_MAX,
        ensures
            w == 2 * v,
    { v * 2 };
    let g = map_gen(rand, double);
    g(seed)
}

/// Twice the base generator's value plus one, with its seed.
pub fn rand_odd(seed: Seed) -> (r: Rand<u32>)
    requires
        seed <= HALF_SEED_MAX,
    ensures
        r.0 == 2 * seed + 1,
        r.1 == seed + 1,
{
    let double_plus_one = |v: u32| -> (w: u32)
        requires
            v <= HALF_SEED_MAX,
        ensures
            w == 2 * v + 1,
    { v * 2 + 1 };
    let g = map_gen(rand, double_plus_one);
    g(seed)
}

/// The letter at the position of the base generator's value, with its seed.
pub fn rand_letter(seed: Seed) -> (r: Rand<char>)
    requires
        seed < u32::MAX,
    ensures
        r.0 == letter(seed),
        r.1 == seed + 1,
{
    let g = map_gen(rand, i_to_a);
    g(seed)
}

/// The generator that runs `gena` on its seed, then `genb` on the seed that
/// `gena` handed on, and pairs their values with the seed that `genb` handed on.
pub fn general_pair<A, B, GA: Fn(Seed) -> Rand<A>, GB: Fn(Seed) -> Rand<B>>(gena: GA, genb: GB) -> (r: impl Fn(Seed) -> Rand<(A, B)>)
    ensures
        forall|s: Seed| pair_runs(&gena, &genb, s) ==> #[trigger] r.requires((s,)),
        forall|s: Seed, out: Rand<(A, B)>| #[trigger] r.ensures((s,), out) ==> pair_yields(&gena, &genb, s, out),
        deterministic(&gena) && deterministic(&genb) ==> deterministic(&r),
{
    let r = move |s: Seed| -> (out: Rand<(A, B)>)
        requires
            pair_runs(&gena, &genb, s),
        ensures
            pair_yields(&gena, &genb, s, out),
    {
        let (a, seed_a) = gena(s);
        let (b, seed_b) = genb(seed_a);
        ((a, b), seed_b)
    };
    assert(deterministic(&gena) && deterministic(&genb) ==> deterministic(&r)) by {
        if deterministic(&gena) && deterministic(&genb) {
            assert forall|s: Seed, x: Rand<(A, B)>, y: Rand<(A, B)>|
                #[trigger] r.ensures((s,), x) && #[trigger] r.ensures((s,), y) implies x == y by {
                let (xa, xb) = choose|xa: Rand<A>, xb: Rand<B>|
                    #[trigger] gena.ensures((s,), xa) && #[trigger] genb.ensures((xa.1,), xb) && x == ((xa.0, xb.0), xb.1);
                let (ya, yb) = choose|ya: Rand<A>, yb: Rand<B>|
                    #[trigger] gena.ensures((s,), ya) && #[trigger] genb.ensures((ya.1,), yb) && y == ((ya.0, yb.0), yb.1);
                assert(xa == ya);
                assert(xb == yb);
            }
        }
    }
    r
}

/// A letter and then a value of the base generator, threading the seed.
pub fn rand_pair(seed: Seed) -> (r: Rand<(char, u32)>)
    requires
        seed < u32::MAX - 1,
    ensures
        r.0.0 == letter(seed),
        r.0.1 == seed + 1,
        r.1 == seed + 2,
{
    let g = general_pair(rand_letter, rand);
    g(seed)
}

/// A plain value as a step, with the fixed seed 1: it consumes no seed.
pub fn rand_pure<T>(t: T) -> (r: Rand<T>)
    ensures
        r.0 == t,
        r.1 == 1,
{
    (t, 1)
}

/// The generator that advances the seed as the base generator does and gives
/// `v` whatever the seed.
pub fn gen_pure(v: u32) -> (r: impl Fn(Seed) -> Rand<u32>)
    ensures
        forall|s: Seed| s < u32::MAX ==> #[trigger] r.requires((s,)),
        forall|s: Seed, out: Rand<u32>| #[trigger] r.ensures((s,), out) ==> out.0 == v && out.1 == s + 1,
        deterministic(&r),
{
    let constant = move |_t: u32| -> (w: u32)
        ensures
            w == v,
    { v };
    map_gen(rand, constant)
}

/// The generator that runs `gen_f` on its seed for a function, then `gen_t` on
/// the seed that `gen_f` handed on for a value, and applies the one to the
/// other, with the seed that `gen_t` handed on.
pub fn gen_apply<T, U, F: FnOnce(T) -> U, GF: Fn(Seed) -> Rand<F>, GT: Fn(Seed) -> Rand<T>>(gen_f: GF, gen_t: GT) -> (r: impl Fn(Seed) -> Rand<U>)
    ensures
        forall|s: Seed| apply_runs(&gen_f, &gen_t, s) ==> #[trigger] r.requires((s,)),
        forall|s: Seed, out: Rand<U>| #[trigger] r.ensures((s,), out) ==> apply_yields(&gen_f, &gen_t, s, out),
        deterministic(&gen_f) && deterministic(&gen_t)
            && (forall|s: Seed, x: Rand<F>| #[trigger] gen_f.ensures((s,), x) ==> fn_deterministic(&x.0))
            ==> deterministic(&r),
{
    let r = move |s: Seed| -> (out: Rand<U>)
        requires
            apply_runs(&gen_f, &gen_t, s),
        ensures
            apply_yields(&gen_f, &gen_t, s, out),
    {
        let (func, seed1) = gen_f(s);
        let (a, seed2) = gen_t(seed1);
        (func(a), seed2)
    };
    assert(deterministic(&gen_f) && deterministic(&gen_t)
        && (forall|s: Seed, x: Rand<F>| #[trigger] gen_f.ensures((s,), x) ==> fn_deterministic(&x.0))
        ==> deterministic(&r)) by {
        if deterministic(&gen_f) && deterministic(&gen_t)
            && (forall|s: Seed, x: Rand<F>| #[trigger] gen_f.ensures((s,), x) ==> fn_deterministic(&x.0)) {
            assert forall|s: Seed, x: Rand<U>, y: Rand<U>|
                #[trigger] r.ensures((s,), x) && #[trigger] r.ensures((s,), y) implies x == y by {
                let (xf, xt) = choose|xf: Rand<F>, xt: Rand<T>|
                    #[trigger] gen_f.ensures((s,), xf) && #[trigger] gen_t.ensures((xf.1,), xt)
                        && xf.0.ensures((xt.0,), x.0) && x.1 == xt.1;
                let (yf, yt) = choose|yf: Rand<F>, yt: Rand<T>|
                    #[trigger] gen_f.ensures((s,), yf) && #[trigger] gen_t.ensures((yf.1,), yt)
                        && yf.0.ensures((yt.0,), y.0) && y.1 == yt.1;
                assert(xf == yf);
                assert(xt == yt);
                assert(fn_deterministic(&xf.0));
            }
        }
    }
    r
}

/// The generator that runs `t` on its seed, then `u` on the seed that `t`
/// handed on, and combines their values with `f`, with the seed that `u`
/// handed on.
pub fn gen_lift2<T, U, V, F: Fn(T, U) -> V, GT: Fn(Seed) -> Rand<T>, GU: Fn(Seed) -> Rand<U>>(
    f: F,
    t: GT,
    u: GU,
) -> (r: impl Fn(Seed) -> Rand<V>)
    ensures
        forall|s: Seed| lift2_runs(&f, &t, &u, s) ==> #[trigger] r.requires((s,)),
        forall|s: Seed, out: Rand<V>| #[trigger] r.ensures((s,), out) ==> lift2_yields(&f, &t, &u, s, out),
        deterministic(&t) && deterministic(&u) && fn2_deterministic(&f) ==> deterministic(&r),
{
    let ghost (f0, t0, u0) = (f, t, u);
    let both = general_pair(t, u);
    let combine = move |p: (T, U)| -> (v: V)
        requires
            takes(&f, p),
        ensures
            gives(&f, p, v),
    { f(p.0, p.1) };
    let r = map_gen(both, combine);
    assert forall|s: Seed| lift2_runs(&f0, &t0, &u0, s) implies #[trigger] r.requires((s,)) by {
        assert(pair_runs(&t0, &u0, s));
        assert forall|x: Rand<(T, U)>| #[trigger] both.ensures((s,), x) implies combine.requires((x.0,)) by {
            let (xa, xb) = choose|xa: Rand<T>, xb: Rand<U>|
                #[trigger] t0.ensures((s,), xa) && #[trigger] u0.ensures((xa.1,), xb) && x == ((xa.0, xb.0), xb.1);
        }
    }
    assert forall|s: Seed, out: Rand<V>| #[trigger] r.ensures((s,), out) implies lift2_yields(&f0, &t0, &u0, s, out) by {
        let x = choose|x: Rand<(T, U)>| #[trigger] both.ensures((s,), x) && mapped(x, combine, out);
        let (xa, xb) = choose|xa: Rand<T>, xb: Rand<U>|
            #[trigger] t0.ensures((s,), xa) && #[trigger] u0.ensures((xa.1,), xb) && x == ((xa.0, xb.0), xb.1);
        assert(f0.ensures((xa.0, xb.0), out.0));
    }
    assert(fn2_deterministic(&f0) ==> fn_deterministic(&combine)) by {
        if fn2_deterministic(&f0) {
            assert forall|p: (T, U), v: V, w: V|
                #[trigger] combine.ensures((p,), v) && #[trigger] combine.ensures((p,), w) implies v == w by {
                assert(f0.ensures(p, v) && f0.ensures(p, w));
            }
        }
    }
    r
}

/// Two runs of deterministic generators from one seed agree on the first `k`
/// values and on seed `k`.
proof fn lemma_threads_agree_upto<T, G: Fn(Seed) -> Rand<T>>(
    gs: Seq<G>,
    seeds1: Seq<Seed>,
    vals1: Seq<T>,
    seeds2: Seq<Seed>,
    vals2: Seq<T>,
    k: int,
)
    requires
        0 <= k <= gs.len(),
        forall|i: int| 0 <= i < gs.len() ==> deterministic(&#[trigger] gs[i]),
        threads(gs, seeds1, vals1),
        threads(gs, seeds2, vals2),
        seeds1[0] == seeds2[0],
    ensures
        seeds1[k] == seeds2[k],
        forall|m: int| 0 <= m < k ==> vals1[m] == vals2[m],
    decreases k,
{
    if k > 0 {
        let j = k - 1;
        lemma_threads_agree_upto(gs, seeds1, vals1, seeds2, vals2, j);
        assert(deterministic(&gs[j]));
        assert(gs[j].ensures((seeds1[j],), (vals1[j], seeds1[j + 1])));
        assert(gs[j].ensures((seeds2[j],), (vals2[j], seeds2[j + 1])));
    }
}

/// Two runs of deterministic generators from one seed agree on every seed and
/// value.
proof fn lemma_threads_agree<T, G: Fn(Seed) -> Rand<T>>(
    gs: Seq<G>,
    seeds1: Seq<Seed>,
    vals1: Seq<T>,
    seeds2: Seq<Seed>,
    vals2: Seq<T>,
)
    requires
        forall|i: int| 0 <= i < gs.len() ==> deterministic(&#[trigger] gs[i]),
        threads(gs, seeds1, vals1),
        threads(gs, seeds2, vals2),
        seeds1[0] == seeds2[0],
    ensures
        seeds1 == seeds2,
        vals1 == vals2,
{
    assert forall|k: int| 0 <= k < seeds1.len() implies seeds1[k] == seeds2[k] by {
        lemma_threads_agree_upto(gs, seeds1, vals1, seeds2, vals2, k);
    }
    lemma_threads_agree_upto(gs, seeds1, vals1, seeds2, vals2, gs.len() as int);
    assert(seeds1 =~= seeds2);
    assert(vals1 =~= vals2);
}

/// The generator that runs the generators of `v` in order, each on the seed
/// that the one before it handed on and the first on its own seed, and
/// collects their values in that order, with the seed that the last handed on.
pub fn gen_sequence<T, G: Fn(Seed) -> Rand<T>>(v: Vec<G>) -> (r: impl Fn(Seed) -> Rand<Vec<T>>)
    ensures
        forall|s: Seed| sequence_runs(v@, s) ==> #[trigger] r.requires((s,)),
        forall|s: Seed, out: Rand<Vec<T>>| #[trigger] r.ensures((s,), out) ==> sequence_yields(v@, s, out.0@, out.1),
        (forall|i: int| 0 <= i < v.len() ==> deterministic(&#[trigger] v@[i])) ==> forall|s: Seed, x: Rand<Vec<T>>, y: Rand<Vec<T>>|
            #[trigger] r.ensures((s,), x) && #[trigger] r.ensures((s,), y) ==> x.0@ == y.0@ && x.1 == y.1,
{
    let ghost gs = v@;
    let r = move |s: Seed| -> (out: Rand<Vec<T>>)
        requires
            sequence_runs(v@, s),
        ensures
            sequence_yields(v@, s, out.0@, out.1),
    {
        let n = v.len();
        let mut vals: Vec<T> = Vec::new();
        let mut seed: Seed = s;
        let ghost mut seeds: Seq<Seed> = seq![s];
        let mut i: usize = 0;
        assert(v@.subrange(0, n as int) =~= v@);
        while i < n
            invariant
                n == v.len(),
                i <= n,
                seeds.len() == i + 1,
                vals@.len() == i,
                seeds[0] == s,
                seeds[i as int] == seed,
                forall|j: int| 0 <= j < i ==> #[trigger] v@[j].ensures((seeds[j],), (vals@[j], seeds[j + 1])),
                sequence_runs(v@.subrange(i as int, n as int), seed),
            decreases n - i,
        {
            proof {
                let rest = v@.subrange(i as int, n as int);
                assert(rest[0] == v@[i as int]);
                assert(rest.drop_first() =~= v@.subrange(i + 1, n as int));
            }
            let g = &v[i];
            let (val, next) = g(seed);
            vals.push(val);
            seed = next;
            proof {
                seeds = seeds.push(seed);
            }
            i = i + 1;
        }
        proof {
            assert(threads(v@, seeds, vals@));
        }
        (vals, seed)
    };
    assert forall|s: Seed, x: Rand<Vec<T>>, y: Rand<Vec<T>>|
        (forall|i: int| 0 <= i < gs.len() ==> deterministic(&#[trigger] gs[i]))
            && #[trigger] r.ensures((s,), x) && #[trigger] r.ensures((s,), y) implies x.0@ == y.0@ && x.1 == y.1 by {
        let sx = choose|sx: Seq<Seed>| #[trigger] threads(gs, sx, x.0@) && sx[0] == s && sx.last() == x.1;
        let sy = choose|sy: Seq<Seed>| #[trigger] threads(gs, sy, y.0@) && sy[0] == s && sy.last() == y.1;
        lemma_threads_agree(gs, sx, x.0@, sy, y.0@);
    }
    r
}

/// The values of five steps of the base generator, threading the seed from 1.
pub fn five_rands() -> (r: Vec<u32>)
    ensures
        r@ == seq![1u32, 2, 3, 4, 5],
{
    let mut seed: Seed = 1;
    let mut rands: Vec<u32> = Vec::new();
    let mut i: usize = 0;
    while i < 5
        invariant
            i <= 5,
            seed == i + 1,
            rands@.len() == i,
            forall|j: int| 0 <= j < i ==> rands@[j] == j + 1,
        decreases 5 - i,
    {
        let (val, new_seed) = rand(seed);
        seed = new_seed;
        rands.push(val);
        i = i + 1;
    }
    assert(rands@ =~= seq![1u32, 2, 3, 4, 5]);
    rands
}

/// The letters of three steps of `rand_letter`, threading the seed from 1.
pub fn three_rand_letters() -> (r: String)
    ensures
        r@ == seq!['a', 'b', 'c'],
{
    let mut seed: Seed = 1;
    let mut letters = String::new();
    let mut i: usize = 0;
    while i < 3
        invariant
            i <= 3,
            seed == i + 1,
            letters@.len() == i,
            forall|j: int| 0 <= j < i ==> letters@[j] == letter((j + 1) as u32),
        decreases 3 - i,
    {
        let (val, new_seed) = rand_letter(seed);
        seed = new_seed;
        push_char(&mut letters, val);
        i = i + 1;
    }
    proof {
        lemma_letter_of_code(1, 'a');
        lemma_letter_of_code(2, 'b');
        lemma_letter_of_code(3, 'c');
    }
    assert(letters@ =~= seq!['a', 'b', 'c']);
    letters
}

} // verus!
