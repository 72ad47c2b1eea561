use vstd::prelude::*;

verus! {

/// The value a contract has on one date.
///
/// Values are exact integers, counted in whatever smallest unit the caller
/// prices in. The evaluator never rounds: a sum, product or negation is
/// either exact or reported as an overflow.
pub type RandomVariable = i64;

/// The largest magnitude a value held in a value process can have.
///
/// The bound is symmetric, so that every value held has a negation that can
/// be held too.
pub const LIMIT: i64 = 9_223_372_036_854_775_807;

/// `v` can be held in a value process.
pub open spec fn in_range(v: int) -> bool {
    -LIMIT <= v <= LIMIT
}

/// The larger of two integers.
pub open spec fn larger(a: int, b: int) -> int {
    if a >= b {
        a
    } else {
        b
    }
}

/// Whether `v` can be held in a value process.
pub fn fits(v: RandomVariable) -> (r: bool)
    ensures
        r == in_range(v as int),
{
    v >= -LIMIT
}

/// The exact sum of `a` and `b`, or `None` where it cannot be held.
pub fn checked_sum(a: RandomVariable, b: RandomVariable) -> (r: Option<RandomVariable>)
    ensures
        match r {
            Some(s) => in_range(a + b) && s == a + b,
            None => !in_range(a + b),
        },
{
    let wide: i128 = a as i128 + b as i128;
    if wide < -(LIMIT as i128) || wide > LIMIT as i128 {
        None
    } else {
        Some(wide as i64)
    }
}

/// The exact product of `a` and `b`, or `None` where it cannot be held.
pub fn checked_product(a: RandomVariable, b: RandomVariable) -> (r: Option<RandomVariable>)
    ensures
        match r {
            Some(p) => in_range(a * b) && p == a * b,
            None => !in_range(a * b),
        },
{
    proof {
        lemma_product_bound(a as int, b as int);
    }
    let wide: i128 = (a as i128) * (b as i128);
    if wide < -(LIMIT as i128) || wide > LIMIT as i128 {
        None
    } else {
        Some(wide as i64)
    }
}

/// The negation of a value that can be held; it can be held as well.
pub fn negation(v: RandomVariable) -> (r: RandomVariable)
    requires
        in_range(v as int),
    ensures
        r == -v,
        in_range(r as int),
{
    -v
}

/// The larger of `a` and `b`.
pub fn maximum(a: RandomVariable, b: RandomVariable) -> (r: RandomVariable)
    ensures
        r == larger(a as int, b as int),
{
    if a >= b {
        a
    } else {
        b
    }
}

/// The product of two 64-bit integers has a magnitude of at most 2^126.
proof fn lemma_product_bound(a: int, b: int)
    requires
        -0x8000_0000_0000_0000 <= a <= 0x8000_0000_0000_0000,
        -0x8000_0000_0000_0000 <= b <= 0x8000_0000_0000_0000,
    ensures
        -0x4000_0000_0000_0000_0000_0000_0000_0000 <= a * b
            <= 0x4000_0000_0000_0000_0000_0000_0000_0000,
{
    assert(-0x4000_0000_0000_0000_0000_0000_0000_0000 <= a * b
        <= 0x4000_0000_0000_0000_0000_0000_0000_0000) by (nonlinear_arith)
        requires
            -0x8000_0000_0000_0000 <= a <= 0x8000_0000_0000_0000,
            -0x8000_0000_0000_0000 <= b <= 0x8000_0000_0000_0000,
    ;
}

} // verus!
