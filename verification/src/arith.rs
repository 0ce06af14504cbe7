//! Integer division that rounds down.

use vstd::prelude::*;

verus! {

/// The quotient of `a` by a positive `b`, rounded down.
pub fn floor_div(a: i64, b: i64) -> (r: i64)
    requires
        b > 0,
    ensures
        r == a as int / b as int,
{
    if a >= 0 {
        a / b
    } else {
        let m: i64 = -(a + 1);
        let q: i64 = m / b;
        assert(-(q as int) - 1 == a as int / b as int) by (nonlinear_arith)
            requires
                b > 0,
                a < 0,
                m == -(a + 1),
                q == m as int / b as int,
        ;
        assert(q <= m) by (nonlinear_arith)
            requires
                b > 0,
                m >= 0,
                q == m as int / b as int,
        ;
        -q - 1
    }
}

/// The remainder of `a` by a positive `b`, never negative.
pub fn floor_mod(a: i64, b: i64) -> (r: i64)
    requires
        b > 0,
    ensures
        r == a as int % b as int,
        0 <= r < b,
{
    if a >= 0 {
        a % b
    } else {
        let m: i64 = -(a + 1);
        let k: i64 = m % b;
        proof {
            let q = m as int / b as int;
            vstd::arithmetic::div_mod::lemma_fundamental_div_mod(m as int, b as int);
            assert(a == (-q - 1) * b + (b - 1 - k)) by (nonlinear_arith)
                requires
                    m == b * q + k,
                    m == -(a + 1),
            ;
            vstd::arithmetic::div_mod::lemma_fundamental_div_mod_converse(
                a as int,
                b as int,
                -q - 1,
                b - 1 - k,
            );
        }
        b - 1 - k
    }
}

} // verus!
