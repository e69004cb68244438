//! Arithmetic on fixed-point amounts that the machine's operators do not
//! give directly.

use vstd::arithmetic::div_mod::{
    lemma_div_is_ordered, lemma_div_multiples_vanish, lemma_fundamental_div_mod,
    lemma_fundamental_div_mod_converse,
};
use vstd::prelude::*;

verus! {

/// The quotient of `a` by a positive `d`, rounded towards minus infinity.
/// It lies between nothing and `a`.
pub fn floor_div(a: i128, d: i128) -> (q: i128)
    requires
        d > 0,
    ensures
        q == a as int / d as int,
        a >= 0 ==> 0 <= q <= a,
        a < 0 ==> a <= q < 0,
{
    if a >= 0 {
        assert(0 <= a as int / d as int <= a) by (nonlinear_arith)
            requires
                a >= 0,
                d > 0,
        ;
        a / d
    } else {
        let n: i128 = -(a + 1);
        let below: i128 = n / d;
        proof {
            lemma_fundamental_div_mod(n as int, d as int);
            let r = d - 1 - (n as int % d as int);
            assert(a as int == (-(below as int) - 1) * d + r) by (nonlinear_arith)
                requires
                    n as int == d * (n as int / d as int) + (n as int % d as int),
                    below as int == n as int / d as int,
                    n as int == -(a as int + 1),
                    r == d - 1 - (n as int % d as int),
            ;
            lemma_fundamental_div_mod_converse(a as int, d as int, -(below as int) - 1, r);
            assert(0 <= below <= n) by (nonlinear_arith)
                requires
                    n >= 0,
                    d > 0,
                    below as int == n as int / d as int,
            ;
        }
        -below - 1
    }
}

/// The average of two costs, weighted by the sizes `held` and `added` and
/// rounded down. It lies between nothing and the larger of the two.
pub fn weighted_cost(held: i128, basis: i64, added: i64, price: i64) -> (cost: i64)
    requires
        0 < held <= 0x8000_0000_0000_0000,
        0 < added,
        0 <= basis,
        0 <= price,
    ensures
        cost == (held * basis + added * price) / (held + added),
        0 <= cost,
        cost <= basis || cost <= price,
{
    let top: i128 = if basis < price {
        price as i128
    } else {
        basis as i128
    };
    let size: i128 = held + added as i128;
    assert(0 <= held * basis <= held * top && 0 <= added * price <= added * top && held * top
        + added * top == size * top && size * top
        <= 0x7FFF_FFFF_FFFF_FFFE_8000_0000_0000_0001) by (nonlinear_arith)
        requires
            0 < held,
            0 < added,
            0 <= basis <= top,
            0 <= price <= top,
            size == held + added,
            size <= 0xFFFF_FFFF_FFFF_FFFF,
            top <= 0x7FFF_FFFF_FFFF_FFFF,
    ;
    let sum: i128 = held * basis as i128 + added as i128 * price as i128;
    let cost: i128 = sum / size;
    proof {
        lemma_div_is_ordered(sum as int, size * top, size as int);
        lemma_div_multiples_vanish(top as int, size as int);
        lemma_div_is_ordered(0, sum as int, size as int);
    }
    cost as i64
}

} // verus!
