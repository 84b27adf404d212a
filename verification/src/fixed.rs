//! Fixed-point arithmetic on unsigned quantities.
//!
//! A quantity is a `u64` counting units of `1 / ONE`, so `ONE` itself stands
//! for the real number one. Weights (probabilities, albedos, blend factors)
//! lie in `[0, ONE]`. Every operation rounds towards zero, and its contract
//! says so exactly.

use vstd::prelude::*;

verus! {

/// The fixed-point representation of the real number one.
pub const ONE: u64 = 0x1_0000_0000;

/// `value * weight`, rounded down to a whole number of units.
pub open spec fn product(value: int, weight: int) -> int {
    value * weight / (ONE as int)
}

/// `part / whole`, rounded down to a whole number of units.
pub open spec fn quotient(part: int, whole: int) -> int {
    part * (ONE as int) / whole
}

/// The point a fraction `weight` of the way from `from` to `to`.
pub open spec fn blend(from: int, to: int, weight: int) -> int {
    product(from, ONE - weight) + product(to, weight)
}

/// Whether `root` is the largest integer whose square does not exceed `n`.
pub open spec fn is_sqrt(root: int, n: int) -> bool {
    &&& 0 <= root
    &&& root * root <= n
    &&& n < (root + 1) * (root + 1)
}

/// The integer square root of `n`.
pub open spec fn root(n: int) -> int {
    choose|r: int| is_sqrt(r, n)
}

/// A product with a weight never exceeds the value, and the two extreme
/// weights give nothing and everything.
pub proof fn lemma_product_bounds(value: int, weight: int)
    requires
        0 <= value,
        0 <= weight <= ONE,
    ensures
        0 <= product(value, weight) <= value,
        product(value, 0) == 0,
        product(value, ONE as int) == value,
        product(ONE as int, weight) == weight,
{
    assert(0 <= value * weight <= value * (ONE as int)) by (nonlinear_arith)
        requires
            0 <= value,
            0 <= weight <= ONE,
    ;
    assert((ONE as int) * weight == weight * (ONE as int)) by (nonlinear_arith);
}

/// Multiplies a quantity by a weight.
pub fn scale(value: u64, weight: u64) -> (r: u64)
    requires
        weight <= ONE,
    ensures
        r == product(value as int, weight as int),
        r <= value,
{
    proof {
        lemma_product_bounds(value as int, weight as int);
    }
    let wide: u128 = (value as u128) * (weight as u128);
    (wide / (ONE as u128)) as u64
}

/// Divides a quantity by one that is at least as large.
pub fn ratio(part: u64, whole: u64) -> (r: u64)
    requires
        0 < whole,
        part <= whole,
    ensures
        r == quotient(part as int, whole as int),
        r <= ONE,
{
    proof {
        lemma_quotient_bounds(part as int, whole as int);
    }
    let wide: u128 = (part as u128) * (ONE as u128);
    (wide / (whole as u128)) as u64
}

/// A part of a whole is a weight.
pub proof fn lemma_quotient_bounds(part: int, whole: int)
    requires
        0 <= part <= whole,
        0 < whole,
    ensures
        0 <= quotient(part, whole) <= ONE,
        quotient(whole, whole) == ONE,
        quotient(0, whole) == 0,
{
    let one = ONE as int;
    vstd::arithmetic::div_mod::lemma_div_is_ordered(part * one, whole * one, whole);
    vstd::arithmetic::div_mod::lemma_div_multiples_vanish(one, whole);
}

/// Interpolates linearly between two quantities.
pub fn mix(from: u64, to: u64, weight: u64) -> (r: u64)
    requires
        weight <= ONE,
    ensures
        r == blend(from as int, to as int, weight as int),
        from <= to ==> from <= r + 1 && r <= to,
        to <= from ==> to <= r + 1 && r <= from,
{
    proof {
        lemma_blend_bounds(from as int, to as int, weight as int);
    }
    let kept: u64 = scale(from, ONE - weight);
    let gained: u64 = scale(to, weight);
    kept + gained
}

/// A blend lies between its two ends, up to one unit lost in rounding, and
/// the two extreme weights give the ends themselves.
pub proof fn lemma_blend_bounds(from: int, to: int, weight: int)
    requires
        0 <= from,
        0 <= to,
        0 <= weight <= ONE,
    ensures
        from <= to ==> from - 1 <= blend(from, to, weight) <= to,
        to <= from ==> to - 1 <= blend(from, to, weight) <= from,
        blend(from, to, 0) == from,
        blend(from, to, ONE as int) == to,
{
    let one = ONE as int;
    let a = from * (one - weight);
    let b = to * weight;
    // The sum of the two products, before the floors, lies between the
    // ends.
    if from <= to {
        assert(from * one <= a + b <= to * one) by (nonlinear_arith)
            requires
                a == from * (one - weight),
                b == to * weight,
                0 <= from <= to,
                0 <= weight <= one,
        ;
    }
    if to <= from {
        assert(to * one <= a + b <= from * one) by (nonlinear_arith)
            requires
                a == from * (one - weight),
                b == to * weight,
                0 <= to <= from,
                0 <= weight <= one,
        ;
    }
}

/// The integer square root.
pub fn sqrt(n: u128) -> (r: u64)
    ensures
        is_sqrt(r as int, n as int),
        r == root(n as int),
{
    let mut low: u128 = 0;
    let mut high: u128 = 0x1_0000_0000_0000_0000;
    while high - low > 1
        invariant
            low < high <= 0x1_0000_0000_0000_0000,
            low * low <= n,
            n < high * high,
        decreases high - low,
    {
        let middle: u128 = low + (high - low) / 2;
        assert(middle * middle <= 0xffff_ffff_ffff_ffff * 0xffff_ffff_ffff_ffff) by (nonlinear_arith)
            requires
                0 <= middle <= 0xffff_ffff_ffff_ffff,
        ;
        if middle * middle <= n {
            low = middle;
        } else {
            high = middle;
        }
    }
    proof {
        lemma_root_is(low as int, n as int);
    }
    low as u64
}

/// Whatever has the defining property of the square root is the root.
pub proof fn lemma_root_is(r: int, n: int)
    requires
        is_sqrt(r, n),
    ensures
        root(n) == r,
{
    let chosen = root(n);
    lemma_sqrt_monotonic(r, n, chosen, n);
    lemma_sqrt_monotonic(chosen, n, r, n);
}

/// A square root is unique, and it grows with its argument.
pub proof fn lemma_sqrt_monotonic(a: int, n: int, b: int, m: int)
    requires
        is_sqrt(a, n),
        is_sqrt(b, m),
        n <= m,
    ensures
        a <= b,
{
    if a > b {
        assert((b + 1) * (b + 1) <= a * a) by (nonlinear_arith)
            requires
                0 <= b,
                b + 1 <= a,
        ;
    }
}

/// Every natural number has an integer square root.
pub proof fn lemma_root_exists(n: int)
    requires
        0 <= n,
    ensures
        is_sqrt(root(n), n),
{
    assert(n < (n + 1) * (n + 1)) by (nonlinear_arith)
        requires
            0 <= n,
    ;
    lemma_root_below(n, n + 1);
}

/// The search for the square root of `n` from `bound` downwards finds it.
proof fn lemma_root_below(n: int, bound: int)
    requires
        0 <= n,
        0 < bound,
        n < bound * bound,
    ensures
        is_sqrt(root(n), n),
    decreases bound,
{
    let below = bound - 1;
    if below * below <= n {
        assert(is_sqrt(below, n));
    } else {
        lemma_root_below(n, below);
    }
}

} // verus!
