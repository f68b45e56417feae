use vstd::prelude::*;
use vstd::arithmetic::div_mod::lemma_fundamental_div_mod;
use vstd::arithmetic::div_mod::lemma_fundamental_div_mod_converse;

verus! {

proof fn lemma_floor_div_negative(a: int, d: int)
    requires
        a < 0,
        d > 0,
    ensures
        (-1 - a) / d == -(a / d) - 1,
{
    lemma_fundamental_div_mod(a, d);
    let q = a / d;
    let r = a % d;
    assert(-1 - a == (-q - 1) * d + (d - 1 - r)) by (nonlinear_arith)
        requires
            a == d * q + r,
    ;
    lemma_fundamental_div_mod_converse(-1 - a, d, -q - 1, d - 1 - r);
}

/// Division rounding towards negative infinity.
pub fn floor_div(a: i64, d: i64) -> (r: i64)
    requires
        d > 0,
    ensures
        r == a as int / d as int,
{
    if a >= 0 {
        a / d
    } else {
        proof {
            lemma_floor_div_negative(a as int, d as int);
        }
        let q = (-1 - a) / d;
        -q - 1
    }
}

/// Division rounding towards negative infinity, on 128-bit integers.
pub fn floor_div_wide(a: i128, d: i128) -> (r: i128)
    requires
        d > 0,
    ensures
        r == a as int / d as int,
{
    if a >= 0 {
        a / d
    } else {
        proof {
            lemma_floor_div_negative(a as int, d as int);
        }
        let q = (-1 - a) / d;
        -q - 1
    }
}

} // verus!
