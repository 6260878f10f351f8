//! Arithmetic as doubles do it, on whole numbers.
//!
//! A double holds 53 significant bits. A result with more of them becomes the
//! nearest number that has no more, and halfway between two of them the one
//! whose last bit is zero. A number here is counted in units so small, `ONE` of
//! them to one, that quotients of 32-bit numbers keep all their bits.

use vstd::arithmetic::power2::{lemma2_to64, lemma_pow2_pos, lemma_pow2_unfold, pow2};
use vstd::prelude::*;

verus! {

/// One, in units.
pub const ONE: u128 = 0x20_0000_0000_0000_0000_0000;

/// Numbers below this have no more than 53 bits.
pub const BITS_53: u128 = 0x20_0000_0000_0000;

/// The whole number nearest to `p / q`, and halfway the even one.
pub open spec fn ties_even(p: int, q: int) -> int {
    let f = p / q;
    let r = p % q;
    if 2 * r < q || 2 * r == q && f % 2 == 0 {
        f
    } else {
        f + 1
    }
}

/// `p / q` with 53 significant bits.
pub open spec fn nearest(p: int, q: int) -> int
    decreases p - q,
{
    if q <= 0 || p < q * BITS_53 {
        ties_even(p, q)
    } else {
        2 * nearest(p, 2 * q)
    }
}

proof fn lemma_ties(p: int, q: int)
    requires
        0 <= p,
        0 < q,
    ensures
        2 * p - q <= 2 * (q * ties_even(p, q)) <= 2 * p + q,
        0 <= ties_even(p, q),
{
    let f = p / q;
    vstd::arithmetic::div_mod::lemma_fundamental_div_mod(p, q);
    vstd::arithmetic::div_mod::lemma_mod_bound(p, q);
    vstd::arithmetic::div_mod::lemma_div_pos_is_pos(p, q);
    assert(q * (f + 1) == q * f + q) by (nonlinear_arith);
}

/// Rounding is off by no more than one part in 2^53.
pub proof fn law_rounding_is_close(p: int, q: int)
    requires
        0 < q,
        q * 0x10_0000_0000_0000 <= p,
    ensures
        p * (BITS_53 - 1) <= BITS_53 * (q * nearest(p, q)) <= p * (BITS_53 + 1),
        0 <= nearest(p, q),
    decreases p - q,
{
    if p < q * BITS_53 {
        lemma_ties(p, q);
    } else {
        law_rounding_is_close(p, 2 * q);
        assert((2 * q) * nearest(p, 2 * q) == q * (2 * nearest(p, 2 * q))) by (nonlinear_arith);
    }
}

/// What has 53 significant bits stays as it is.
pub proof fn law_short_numbers_are_kept(a: int, q: int, k: nat)
    requires
        0 <= a < BITS_53,
        0 < q,
    ensures
        nearest(a * pow2(k) * q, q) == a * pow2(k),
    decreases k,
{
    let p = a * pow2(k) * q;
    lemma_pow2_pos(k);
    if p < q * BITS_53 {
        vstd::arithmetic::div_mod::lemma_mod_multiples_basic(a * pow2(k), q);
        vstd::arithmetic::div_mod::lemma_div_by_multiple(a * pow2(k), q);
    } else {
        if k == 0 {
            lemma2_to64();
            assert(a * 1 * q < q * BITS_53) by (nonlinear_arith)
                requires
                    a < BITS_53,
                    0 < q,
            ;
        }
        lemma_pow2_unfold(k);
        let half = pow2((k - 1) as nat) as int;
        assert(p == a * half * (2 * q) && a * pow2(k) == 2 * (a * half)) by (nonlinear_arith)
            requires
                p == a * pow2(k) * q,
                pow2(k) == 2 * half,
        ;
        law_short_numbers_are_kept(a, 2 * q, (k - 1) as nat);
    }
}

proof fn lemma_ties_doubled(p: int, q: int)
    requires
        0 <= p,
        0 < q,
    ensures
        ties_even(2 * p, 2 * q) == ties_even(p, q),
{
    let f = p / q;
    let r = p % q;
    vstd::arithmetic::div_mod::lemma_fundamental_div_mod(p, q);
    vstd::arithmetic::div_mod::lemma_mod_bound(p, q);
    assert(2 * p == f * (2 * q) + 2 * r) by (nonlinear_arith)
        requires
            p == q * f + r,
    ;
    vstd::arithmetic::div_mod::lemma_fundamental_div_mod_converse(2 * p, 2 * q, f, 2 * r);
}

proof fn lemma_nearest_of_same(p: int, q: int)
    requires
        0 <= p,
        0 < q,
    ensures
        nearest(2 * p, 2 * q) == nearest(p, q),
    decreases p - q,
{
    if p < q * BITS_53 {
        lemma_ties_doubled(p, q);
    } else {
        lemma_nearest_of_same(p, 2 * q);
    }
}

/// A large number and its multiple by a power of two round alike.
pub proof fn lemma_nearest_scaled(p: int, q: int, k: nat)
    requires
        0 < q,
        q * 0x10_0000_0000_0000 <= p,
    ensures
        nearest(pow2(k) * p, q) == pow2(k) * nearest(p, q),
    decreases k,
{
    lemma_pow2_pos(k);
    if k == 0 {
        lemma2_to64();
    } else {
        lemma_pow2_unfold(k);
        let half = pow2((k - 1) as nat) as int;
        lemma_pow2_pos((k - 1) as nat);
        lemma_nearest_scaled(p, q, (k - 1) as nat);
        let m = half * p;
        assert(p <= m) by (nonlinear_arith)
            requires
                1 <= half,
                0 <= p,
                m == half * p,
        ;
        assert(pow2(k) * p == 2 * m && pow2(k) * nearest(p, q) == 2 * (half * nearest(p, q)))
            by (nonlinear_arith)
            requires
                pow2(k) == 2 * half,
                m == half * p,
        ;
        lemma_nearest_of_same(m, q);
    }
}

/// A number that is large enough rounds to a multiple of a power of two.
pub proof fn lemma_nearest_divides(p: int, q: int, k: nat)
    requires
        0 < q,
        q * pow2(k) * 0x10_0000_0000_0000 <= p,
    ensures
        nearest(p, q) == pow2(k) * nearest(p, q * pow2(k)),
    decreases k,
{
    lemma_pow2_pos(k);
    if k == 0 {
        lemma2_to64();
        assert(q * 1 == q && 1 * nearest(p, q) == nearest(p, q)) by (nonlinear_arith);
    } else {
        lemma_pow2_unfold(k);
        let half = pow2((k - 1) as nat) as int;
        lemma_pow2_pos((k - 1) as nat);
        assert(q * pow2(k) == (2 * q) * half && 2 * q <= q * pow2(k)) by (nonlinear_arith)
            requires
                pow2(k) == 2 * half,
                1 <= half,
                0 < q,
        ;
        lemma_nearest_divides(p, 2 * q, (k - 1) as nat);
        let n = nearest(p, q * pow2(k));
        assert(2 * (half * n) == pow2(k) * n) by (nonlinear_arith)
            requires
                pow2(k) == 2 * half,
        ;
    }
}

/// `p / q` with 53 significant bits.
pub fn round_quotient(p: u128, q: u128) -> (r: u128)
    requires
        0 < q <= 0x4000_0000_0000_0000_0000_0000_0000_0000,
        p <= 0x3fff_ffff_ffff_ffff_ffff_ffff_ffff_ffff,
    ensures
        r == nearest(p as int, q as int),
{
    let mut d: u128 = q;
    let mut u: u128 = 1;
    assert(q * 1 == q) by (nonlinear_arith);
    while p / d >= BITS_53
        invariant
            0 < q <= d <= 0x4000_0000_0000_0000_0000_0000_0000_0000,
            p <= 0x3fff_ffff_ffff_ffff_ffff_ffff_ffff_ffff,
            d == q * u,
            1 <= u <= d,
            u == 1 || d <= p,
            nearest(p as int, q as int) == u * nearest(p as int, d as int),
        decreases p - d,
    {
        proof {
            vstd::arithmetic::div_mod::lemma_fundamental_div_mod(p as int, d as int);
            assert(d * BITS_53 <= p) by (nonlinear_arith)
                requires
                    p == d * (p as int / d as int) + p as int % d as int,
                    p as int / d as int >= BITS_53,
                    p as int % d as int >= 0,
                    d > 0,
            ;
            let n = nearest(p as int, 2 * d);
            assert(u * (2 * n) == (2 * u) * n && q * (2 * u) == 2 * (q * u)) by (nonlinear_arith);
        }
        d = d * 2;
        u = u * 2;
    }
    proof {
        vstd::arithmetic::div_mod::lemma_fundamental_div_mod(p as int, d as int);
        vstd::arithmetic::div_mod::lemma_mod_bound(p as int, d as int);
        assert(p < d * BITS_53) by (nonlinear_arith)
            requires
                p == d * (p as int / d as int) + p as int % d as int,
                p as int / d as int <= BITS_53 - 1,
                (p as int % d as int) < d,
                d > 0,
        ;
    }
    let f: u128 = p / d;
    let r: u128 = p % d;
    let t: u128 = if 2 * r < d || 2 * r == d && f % 2 == 0 {
        f
    } else {
        f + 1
    };
    assert(t * u <= 0x8000_0000_0000_0000_0000_0000_0000_0000) by {
        if u > 1 {
            assert(f * u <= p && t * u <= f * u + u) by (nonlinear_arith)
                requires
                    f * d <= p,
                    u <= d,
                    t <= f + 1,
                    0 <= f,
                    0 <= u,
            ;
        } else {
            assert(t * 1 == t) by (nonlinear_arith);
        }
    }
    assert(t * u == u * t) by (nonlinear_arith);
    t * u
}

/// How many units some seconds and nanoseconds are, as a double.
pub open spec fn seconds(secs: u32, nanos: u32) -> int {
    nearest(secs * ONE + nearest(nanos * ONE, 1_000_000_000), 1)
}

/// How many bytes a link carries in a time, a fraction of one not counted.
pub open spec fn bytes_in(bps: u32, time: int) -> int {
    nearest(bps * time, 8) / (ONE as int)
}

/// A quotient is rounded to a whole number that is no further from it than
/// half, and to the even one of the two where both are that far.
pub proof fn law_quotients_go_to_the_nearest(p: int, q: int)
    requires
        0 <= p,
        0 < q,
    ensures
        ({
            let t = ties_even(p, q);
            &&& 2 * (q * t) - q <= 2 * p <= 2 * (q * t) + q
            &&& 2 * (q * t) + q == 2 * p || 2 * (q * t) - q == 2 * p ==> t % 2 == 0
        }),
{
    let f = p / q;
    let r = p % q;
    assert(p == q * f + r && 0 <= r < q) by {
        vstd::arithmetic::div_mod::lemma_fundamental_div_mod(p, q);
        vstd::arithmetic::div_mod::lemma_mod_bound(p, q);
    }
    assert(q * (f + 1) == q * f + q) by (nonlinear_arith);
}

/// A number keeps 53 bits: below 2^53 it goes to the nearest whole number, from
/// there on each doubling of its size makes the steps twice as wide.
pub proof fn law_doubles_keep_53_bits(p: int, q: int)
    requires
        0 <= p,
        0 < q,
    ensures
        p < 0x20_0000_0000_0000 * q ==> nearest(p, q) == ties_even(p, q),
        p >= 0x20_0000_0000_0000 * q ==> nearest(p, q) == 2 * nearest(p, 2 * q),
{
}

/// Whole seconds are what they are, 2^85 units each.
pub proof fn law_whole_seconds_are_exact(secs: u32)
    ensures
        seconds(secs, 0) == secs * pow2(85),
{
    lemma2_to64();
    vstd::arithmetic::power2::lemma_pow2_adds(64, 21);
    assert(pow2(85) == ONE);
    law_short_numbers_are_kept(0, 1_000_000_000, 0);
    assert(0 * pow2(0) * 1_000_000_000 == 0) by (nonlinear_arith);
    assert(nearest(0, 1_000_000_000) == 0);
    law_short_numbers_are_kept(secs as int, 1, 85);
    assert(secs * pow2(85) * 1 == secs * pow2(85)) by (nonlinear_arith);
}

} // verus!
