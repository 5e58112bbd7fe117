//! Arithmetic on token amounts: 128-bit signed integers, refused on overflow, divided
//! towards zero.
use vstd::prelude::*;

verus! {

/// `x` can be held by an `i128`.
pub open spec fn fits(x: int) -> bool {
    i128::MIN <= x <= i128::MAX
}

/// The quotient of `a` by `b`, rounded towards zero.
pub open spec fn quotient(a: int, b: int) -> int {
    if a >= 0 && b > 0 {
        a / b
    } else if a < 0 && b < 0 {
        (-a) / (-b)
    } else if a < 0 {
        -((-a) / b)
    } else {
        -(a / (-b))
    }
}

/// What is left of `a` after `quotient(a, b)`; it has the sign of `a`.
pub open spec fn rest(a: int, b: int) -> int {
    if a >= 0 && b > 0 {
        a % b
    } else if a < 0 && b < 0 {
        -((-a) % (-b))
    } else if a < 0 {
        -((-a) % b)
    } else {
        a % (-b)
    }
}

/// `a * b / c`, where the product and the quotient are held by an `i128` and `c` is not zero.
pub open spec fn scaled(a: int, b: int, c: int) -> Option<i128> {
    if c == 0 || !fits(a * b) || !fits(quotient(a * b, c)) {
        None
    } else {
        Some(quotient(a * b, c) as i128)
    }
}

/// `a + b`, where it is held by an `i128`.
pub open spec fn sum(a: int, b: int) -> Option<i128> {
    if fits(a + b) {
        Some((a + b) as i128)
    } else {
        None
    }
}

/// The smaller of two amounts.
pub open spec fn smaller(a: int, b: int) -> int {
    if a <= b {
        a
    } else {
        b
    }
}

/// The ledger that is `wait` ledgers after `ledger`, or the last one that there can be.
pub open spec fn ledger_after(ledger: u32, wait: u32) -> u32 {
    if ledger + wait > u32::MAX {
        u32::MAX
    } else {
        (ledger + wait) as u32
    }
}

/// How many ledgers `later` is after `earlier`: none where it is not.
pub open spec fn ledgers_between(earlier: u32, later: u32) -> u32 {
    if later >= earlier {
        (later - earlier) as u32
    } else {
        0
    }
}

/// `base` to the power of `exponent`.
pub open spec fn power(base: int, exponent: nat) -> int
    decreases exponent,
{
    if exponent == 0 {
        1
    } else {
        base * power(base, (exponent - 1) as nat)
    }
}

/// Multiplies and divides an amount.
pub fn mul_div(a: i128, b: i128, c: i128) -> (r: Option<i128>)
    ensures
        r == scaled(a as int, b as int, c as int),
{
    match a.checked_mul(b) {
        Some(product) => product.checked_div(c),
        None => None,
    }
}

} // verus!
