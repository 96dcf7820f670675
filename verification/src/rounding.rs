//! Arithmetic on doubles in integers: what the nearest double of a quotient, a
//! product or a sum is.
//!
//! A number is a count of units that are a power of two. From 2^52 units on a
//! double has 53 significant bits and is a multiple of a power of two; below, every
//! count of units is one.

use vstd::arithmetic::power2::pow2;
use vstd::prelude::*;

verus! {

/// A double has this many different significands, 2^53.
pub const SIGNIFICANDS: u128 = 9_007_199_254_740_992;

/// The quotient to the nearest number, a half to the even one.
pub open spec fn half_even(n: nat, d: nat) -> nat {
    let q = n / d;
    let r = n % d;
    if 2 * r > d || (2 * r == d && q % 2 == 1) {
        q + 1
    } else {
        q
    }
}

/// How often a number has to be halved until it has no more than 53 bits.
pub open spec fn halvings(q: nat) -> nat
    decreases q,
{
    if q < SIGNIFICANDS {
        0
    } else {
        1 + halvings(q / 2)
    }
}

/// The double nearest to a quotient, in units: of the multiples of the power of two
/// that leaves 53 bits, the nearest one, and of two the even one.
pub open spec fn nearest_double(n: nat, d: nat) -> nat {
    let p = pow2(halvings(n / d));
    half_even(n, d * p) * p
}

/// After its halvings a number has at most 53 bits, and not fewer if there were any.
pub proof fn lemma_halvings(q: nat)
    ensures
        q < SIGNIFICANDS * pow2(halvings(q)),
        halvings(q) > 0 ==> SIGNIFICANDS * pow2(halvings(q)) <= 2 * q,
        pow2(halvings(q)) >= 1,
        halvings(q) == 0 ==> pow2(halvings(q)) == 1,
    decreases q,
{
    vstd::arithmetic::power2::lemma2_to64();
    if q >= SIGNIFICANDS {
        let h = halvings(q / 2);
        lemma_halvings(q / 2);
        vstd::arithmetic::power2::lemma_pow2_unfold(h + 1);
        assert(pow2((h + 1) as nat) == 2 * pow2(h));
        let p = pow2(h) as int;
        assert(SIGNIFICANDS * (2 * p) == 2 * (SIGNIFICANDS * p)) by (nonlinear_arith);
        if h == 0 {
            assert(SIGNIFICANDS * (2 * p) <= 2 * q);
        }
    }
}

/// More bits need more halvings.
proof fn lemma_halvings_grow(a: nat, b: nat)
    requires
        a <= b,
    ensures
        halvings(a) <= halvings(b),
    decreases b,
{
    if a >= SIGNIFICANDS {
        lemma_halvings_grow(a / 2, b / 2);
    }
}

/// How many halvings a number needs is plain from its size.
pub proof fn lemma_halvings_are(q: nat, h: nat)
    requires
        h > 0 ==> SIGNIFICANDS * pow2(h) <= 2 * q,
        q < SIGNIFICANDS * pow2(h),
    ensures
        halvings(q) == h,
    decreases q,
{
    vstd::arithmetic::power2::lemma2_to64();
    if h == 0 {
        assert(pow2(h) == 1);
    } else {
        let g = (h - 1) as nat;
        vstd::arithmetic::power2::lemma_pow2_unfold(h);
        vstd::arithmetic::power2::lemma_pow2_pos(g);
        let p = pow2(g) as int;
        assert(SIGNIFICANDS * (2 * p) == 2 * (SIGNIFICANDS * p)) by (nonlinear_arith);
        assert(SIGNIFICANDS * p >= SIGNIFICANDS) by (nonlinear_arith)
            requires
                p >= 1,
        ;
        assert(q >= SIGNIFICANDS);
        if g > 0 {
            vstd::arithmetic::power2::lemma_pow2_unfold(g);
            let o = pow2((g - 1) as nat) as int;
            assert(SIGNIFICANDS * (2 * o) == 2 * (SIGNIFICANDS * o)) by (nonlinear_arith);
            assert(2 * (q / 2) >= SIGNIFICANDS * p);
        }
        lemma_halvings_are(q / 2, g);
    }
}

/// A rounded quotient lies within half a divisor of the quotient.
proof fn lemma_half_even(n: nat, d: nat)
    requires
        d > 0,
    ensures
        n / d <= half_even(n, d) <= n / d + 1,
        2 * (half_even(n, d) * d) <= 2 * n + d,
{
    vstd::arithmetic::div_mod::lemma_fundamental_div_mod(n as int, d as int);
    let q = (n / d) as int;
    assert((q + 1) * d == q * d + d) by (nonlinear_arith);
    assert(d * q == q * d) by (nonlinear_arith);
}

/// A larger number is not rounded to a smaller one.
proof fn lemma_half_even_grows(a: nat, b: nat, d: nat)
    requires
        d > 0,
        a <= b,
    ensures
        half_even(a, d) <= half_even(b, d),
{
    vstd::arithmetic::div_mod::lemma_fundamental_div_mod(a as int, d as int);
    vstd::arithmetic::div_mod::lemma_fundamental_div_mod(b as int, d as int);
    vstd::arithmetic::div_mod::lemma_div_is_ordered(a as int, b as int, d as int);
    lemma_half_even(a, d);
    lemma_half_even(b, d);
}

/// Dividing by a product is dividing twice.
proof fn lemma_div_twice(n: nat, d: nat, p: nat)
    requires
        d > 0,
        p > 0,
    ensures
        n / (d * p) == (n / d) / p,
        d * p > 0,
{
    assert(d * p > 0) by (nonlinear_arith)
        requires
            d > 0,
            p > 0,
    ;
    vstd::arithmetic::div_mod::lemma_div_denominator(n as int, d as int, p as int);
}

/// A quotient is rounded up by at most half of what lies between two doubles.
pub proof fn lemma_rounds_up_little(n: nat, d: nat, limit: nat)
    requires
        d > 0,
        n / d < limit,
        limit >= SIGNIFICANDS,
    ensures
        2 * (nearest_double(n, d) * d) * SIGNIFICANDS <= 2 * n * SIGNIFICANDS + 2 * limit * d,
{
    let q = n / d;
    let p = pow2(halvings(q));
    lemma_halvings(q);
    lemma_div_twice(n, d, p);
    lemma_half_even(n, d * p);
    let h = half_even(n, d * p);
    assert((h * p) * d == h * (d * p)) by (nonlinear_arith);
    assert(SIGNIFICANDS * p <= 2 * limit) by {
        if halvings(q) == 0 {
            assert(p == 1);
        }
    }
    let s = SIGNIFICANDS as int;
    assert(2 * (h * (d * p)) * s <= (2 * n + d * p) * s) by (nonlinear_arith)
        requires
            2 * (h * (d * p)) <= 2 * n + d * p,
            s >= 0,
    ;
    assert((2 * n + d * p) * s == 2 * n * s + d * (s * p)) by (nonlinear_arith);
    assert(d * (s * p) <= d * (2 * limit)) by (nonlinear_arith)
        requires
            s * p <= 2 * limit,
            d >= 0,
    ;
    assert(d * (2 * limit) == 2 * limit * d) by (nonlinear_arith);
}

/// A larger quotient is not rounded to a smaller double.
pub proof fn lemma_nearest_grows(a: nat, b: nat, d: nat)
    requires
        d > 0,
        a <= b,
    ensures
        nearest_double(a, d) <= nearest_double(b, d),
{
    let qa = a / d;
    let qb = b / d;
    vstd::arithmetic::div_mod::lemma_div_is_ordered(a as int, b as int, d as int);
    let sa = halvings(qa);
    let sb = halvings(qb);
    let pa = pow2(sa);
    let pb = pow2(sb);
    lemma_halvings_grow(qa, qb);
    lemma_halvings(qa);
    lemma_halvings(qb);
    lemma_div_twice(a, d, pa);
    lemma_div_twice(b, d, pb);
    let ha = half_even(a, d * pa);
    let hb = half_even(b, d * pb);
    if sa == sb {
        lemma_half_even_grows(a, b, d * pa);
        assert(ha * pa <= hb * pa) by (nonlinear_arith)
            requires
                ha <= hb,
                pa >= 0,
        ;
    } else {
        let s = SIGNIFICANDS as int;
        // The smaller one is rounded to at most the next power of two.
        lemma_half_even(a, d * pa);
        vstd::arithmetic::div_mod::lemma_fundamental_div_mod(qa as int, pa as int);
        assert(qa / pa < s) by (nonlinear_arith)
            requires
                qa < s * pa,
                qa == pa * (qa / pa) + qa % pa,
                0 <= qa % pa,
                pa > 0,
        ;
        assert(ha * pa <= s * pa) by (nonlinear_arith)
            requires
                ha <= s,
                pa >= 0,
        ;
        // The larger one to at least its own.
        vstd::arithmetic::power2::lemma_pow2_strictly_increases(sa, sb);
        vstd::arithmetic::power2::lemma_pow2_unfold(sb);
        if sa < sb - 1 {
            vstd::arithmetic::power2::lemma_pow2_strictly_increases(sa, (sb - 1) as nat);
        }
        assert(2 * pa <= pb);
        lemma_half_even(b, d * pb);
        vstd::arithmetic::div_mod::lemma_fundamental_div_mod(qb as int, pb as int);
        assert(2 * (qb / pb) + 2 > s) by (nonlinear_arith)
            requires
                s * pb <= 2 * qb,
                qb == pb * (qb / pb) + qb % pb,
                qb % pb < pb,
                pb > 0,
        ;
        assert(2 * hb >= s);
        assert(2 * (hb * pb) >= s * pb) by (nonlinear_arith)
            requires
                2 * hb >= s,
                pb >= 0,
        ;
        assert(s * pb >= 2 * (s * pa)) by (nonlinear_arith)
            requires
                2 * pa <= pb,
                s >= 0,
        ;
    }
}

/// The double nearest to a quotient, in units.
pub fn round_to_double(n: u128, d: u128) -> (r: u128)
    requires
        d > 0,
        n < 0x1_0000_0000_0000_0000_0000_0000_0000,
        d < 0x1_0000_0000,
    ensures
        r == nearest_double(n as nat, d as nat),
{
    let ghost whole = (n / d) as nat;
    let mut q: u128 = n / d;
    let mut p: u128 = 1;
    let ghost mut k: nat = 0;
    proof {
        vstd::arithmetic::power2::lemma2_to64();
        vstd::arithmetic::div_mod::lemma_div_is_ordered_by_denominator(n as int, 1, d as int);
    }
    while q >= SIGNIFICANDS
        invariant
            whole <= n,
            p == pow2(k),
            p >= 1,
            q * p <= whole,
            k == 0 ==> p == 1 && q == whole,
            k > 0 ==> 2 * q + 1 >= SIGNIFICANDS,
            halvings(whole) == k + halvings(q as nat),
            n < 0x1_0000_0000_0000_0000_0000_0000_0000,
        decreases q,
    {
        proof {
            vstd::arithmetic::power2::lemma_pow2_unfold((k + 1) as nat);
            let h = q / 2;
            assert(h * (2 * p) <= q * p) by (nonlinear_arith)
                requires
                    2 * h <= q,
                    p >= 0,
            ;
            assert(2 * p <= h * (2 * p)) by (nonlinear_arith)
                requires
                    h >= 1,
                    p >= 0,
            ;
            k = k + 1;
        }
        q = q / 2;
        p = p * 2;
    }
    proof {
        assert(halvings(q as nat) == 0);
        lemma_halvings(whole);
        lemma_div_twice(n as nat, d as nat, p as nat);
        assert(p <= 0x10_0000_0000_0000_0000) by {
            if k > 0 {
                assert(SIGNIFICANDS * p <= 2 * whole);
            }
        }
        assert(d * p < 0x1_0000_0000 * 0x10_0000_0000_0000_0001) by (nonlinear_arith)
            requires
                0 < d < 0x1_0000_0000,
                0 < p <= 0x10_0000_0000_0000_0000,
        ;
        lemma_half_even(n as nat, (d * p) as nat);
        vstd::arithmetic::div_mod::lemma_fundamental_div_mod(whole as int, p as int);
        assert(whole / (p as nat) < SIGNIFICANDS) by (nonlinear_arith)
            requires
                whole < SIGNIFICANDS * p,
                whole == p * (whole / (p as nat)) + whole % (p as nat),
                0 <= whole % (p as nat),
                p > 0,
        ;
        assert(SIGNIFICANDS * p <= SIGNIFICANDS * 0x10_0000_0000_0000_0000) by (nonlinear_arith)
            requires
                p <= 0x10_0000_0000_0000_0000,
        ;
    }
    let step: u128 = d * p;
    let whole_steps: u128 = n / step;
    let rest: u128 = n % step;
    let rounded: u128 = if rest > step - rest || (rest == step - rest && whole_steps % 2 == 1) {
        whole_steps + 1
    } else {
        whole_steps
    };
    proof {
        assert(rounded * p <= SIGNIFICANDS * p) by (nonlinear_arith)
            requires
                rounded <= SIGNIFICANDS,
                p >= 0,
        ;
    }
    rounded * p
}

/// A quotient is rounded down by at most half of what lies between two doubles.
pub proof fn lemma_rounds_down_little(n: nat, d: nat, limit: nat)
    requires
        d > 0,
        n / d < limit,
        limit >= SIGNIFICANDS,
    ensures
        2 * n * SIGNIFICANDS <= 2 * (nearest_double(n, d) * d) * SIGNIFICANDS + 2 * limit * d,
{
    let q = n / d;
    let p = pow2(halvings(q));
    lemma_halvings(q);
    lemma_div_twice(n, d, p);
    let e = d * p;
    vstd::arithmetic::div_mod::lemma_fundamental_div_mod(n as int, e as int);
    let h = half_even(n, e);
    let k = (n / e) as int;
    assert((k + 1) * e == k * e + e) by (nonlinear_arith);
    assert(e * k == k * e) by (nonlinear_arith);
    assert(2 * n <= 2 * (h * e) + e);
    assert((h * p) * d == h * (d * p)) by (nonlinear_arith);
    assert(SIGNIFICANDS * p <= 2 * limit) by {
        if halvings(q) == 0 {
            assert(p == 1);
        }
    }
    let s = SIGNIFICANDS as int;
    assert(2 * n * s <= (2 * (h * e) + e) * s) by (nonlinear_arith)
        requires
            2 * n <= 2 * (h * e) + e,
            s >= 0,
    ;
    assert((2 * (h * e) + d * p) * s == 2 * (h * e) * s + d * (s * p)) by (nonlinear_arith);
    assert(d * (s * p) <= d * (2 * limit)) by (nonlinear_arith)
        requires
            s * p <= 2 * limit,
            d >= 0,
    ;
    assert(d * (2 * limit) == 2 * limit * d) by (nonlinear_arith);
}

/// A quotient is rounded to a multiple of the power of two that leaves 53 bits. No
/// multiple is nearer, and where two are equally near it is the even one.
pub proof fn law_the_nearest_double_is_taken(n: u128, d: u128, r: u128, h: nat) -> (m: nat)
    requires
        d > 0,
        call_ensures(round_to_double, (n, d), r),
        (n / d) < 9_007_199_254_740_992 * pow2(h),
        h > 0 ==> 9_007_199_254_740_992 * pow2(h) <= 2 * (n / d),
    ensures
        r == m * pow2(h),
        2 * (m * (d * pow2(h))) <= 2 * n + d * pow2(h),
        2 * n <= 2 * (m * (d * pow2(h))) + d * pow2(h),
        2 * n == 2 * (m * (d * pow2(h))) + d * pow2(h) ==> m % 2 == 0,
        2 * (m * (d * pow2(h))) == 2 * n + d * pow2(h) ==> m % 2 == 0,
{
    let p = pow2(h);
    vstd::arithmetic::power2::lemma_pow2_pos(h);
    lemma_halvings_are((n / d) as nat, h);
    lemma_div_twice(n as nat, d as nat, p);
    let e = (d * p) as nat;
    vstd::arithmetic::div_mod::lemma_fundamental_div_mod(n as int, e as int);
    let m = half_even(n as nat, e);
    let k = (n as nat / e) as int;
    assert((k + 1) * e == k * e + e) by (nonlinear_arith);
    assert(e * k == k * e) by (nonlinear_arith);
    m
}

/// A quotient that is a whole number of less than 54 bits is its own double.
pub proof fn law_small_numbers_are_doubles(n: u128, r: u128)
    requires
        n < 9_007_199_254_740_992,
        call_ensures(round_to_double, (n, 1u128), r),
    ensures
        r == n,
{
    vstd::arithmetic::power2::lemma2_to64();
    assert(n / 1 == n);
    assert(halvings(n as nat) == 0);
    assert(half_even(n as nat, 1) == n);
}

} // verus!
