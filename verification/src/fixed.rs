//! Fixed-point scalar arithmetic.
//!
//! Every quantity the policy works with — weights, biases, activations,
//! probabilities, rewards, returns — is a signed fixed-point number: an `i64`
//! counting raw units of one millionth.  `FX_ONE` raw units equal 1.0.
//!
//! Addition and multiplication are checked: an operation whose exact result
//! does not fit in `i64` returns `None`, and callers treat that as the
//! numeric-instability condition.  Multiplication of two fixed-point numbers
//! divides the wide product by `FX_ONE`, truncating toward zero.

use vstd::prelude::*;

verus! {

/// Raw units per 1.0.
pub const FX_ONE: i64 = 1_000_000;

/// Whether a mathematical integer fits in `i64`.
pub open spec fn in_i64(x: int) -> bool {
    i64::MIN <= x <= i64::MAX
}

/// Division by a positive divisor, truncating toward zero.
pub open spec fn div_trunc(x: int, d: int) -> int
    recommends
        d > 0,
{
    if x >= 0 {
        x / d
    } else {
        -((-x) / d)
    }
}

/// Exact value of the fixed-point product of `a` and `b`.
pub open spec fn fx_mul_v(a: int, b: int) -> int {
    div_trunc(a * b, FX_ONE as int)
}

/// Checked fixed-point product: `None` when the result leaves `i64`.
pub open spec fn cmul(a: int, b: int) -> Option<int> {
    if in_i64(fx_mul_v(a, b)) {
        Some(fx_mul_v(a, b))
    } else {
        None
    }
}

/// Checked sum: `None` when the result leaves `i64`.
pub open spec fn cadd(a: int, b: int) -> Option<int> {
    if in_i64(a + b) {
        Some(a + b)
    } else {
        None
    }
}

/// Checked negation: `None` only for `i64::MIN`.
pub open spec fn cneg(a: int) -> Option<int> {
    if in_i64(-a) {
        Some(-a)
    } else {
        None
    }
}

/// An executable checked result, read as its mathematical value.
pub open spec fn lift(r: Option<i64>) -> Option<int> {
    match r {
        Some(v) => Some(v as int),
        None => None,
    }
}

/// Checked fixed-point addition.
pub fn fx_add(a: i64, b: i64) -> (r: Option<i64>)
    ensures
        lift(r) == cadd(a as int, b as int),
{
    a.checked_add(b)
}

/// Checked negation.
pub fn fx_neg(a: i64) -> (r: Option<i64>)
    ensures
        lift(r) == cneg(a as int),
{
    (0i64).checked_sub(a)
}

/// Checked fixed-point multiplication: the wide product of `a` and `b`
/// divided by `FX_ONE`, truncated toward zero.
pub fn fx_mul(a: i64, b: i64) -> (r: Option<i64>)
    ensures
        lift(r) == cmul(a as int, b as int),
{
    let neg: bool = (a < 0) != (b < 0);
    let am: u128 = if a >= 0 {
        a as u128
    } else {
        (-(a as i128)) as u128
    };
    let bm: u128 = if b >= 0 {
        b as u128
    } else {
        (-(b as i128)) as u128
    };
    proof {
        assert(am == if a as int >= 0 { a as int } else { -(a as int) });
        assert(bm == if b as int >= 0 { b as int } else { -(b as int) });
        assert(am <= 0x8000_0000_0000_0000u128);
        assert(bm <= 0x8000_0000_0000_0000u128);
        assert(am * bm <= 0x8000_0000_0000_0000u128 * 0x8000_0000_0000_0000u128)
            by (nonlinear_arith)
            requires
                am <= 0x8000_0000_0000_0000u128,
                bm <= 0x8000_0000_0000_0000u128,
        ;
    }
    let p: u128 = (am * bm) / (FX_ONE as u128);
    proof {
        if neg {
            assert((a as int) * (b as int) == -((am as int) * (bm as int))) by (nonlinear_arith)
                requires
                    am == if a as int >= 0 { a as int } else { -(a as int) },
                    bm == if b as int >= 0 { b as int } else { -(b as int) },
                    ((a as int) < 0) != ((b as int) < 0),
            ;
        } else {
            assert((a as int) * (b as int) == (am as int) * (bm as int)) by (nonlinear_arith)
                requires
                    am == if a as int >= 0 { a as int } else { -(a as int) },
                    bm == if b as int >= 0 { b as int } else { -(b as int) },
                    !(((a as int) < 0) != ((b as int) < 0)),
            ;
        }
        assert(p == ((am * bm) as int) / (FX_ONE as int));
    }
    if p == 0 {
        proof {
            assert(fx_mul_v(a as int, b as int) == 0);
        }
        Some(0)
    } else if neg {
        if p <= 0x8000_0000_0000_0000u128 {
            let r128: i128 = -(p as i128);
            proof {
                assert(fx_mul_v(a as int, b as int) == -(p as int));
                assert(i64::MIN <= r128 <= i64::MAX);
            }
            Some(r128 as i64)
        } else {
            proof {
                assert(fx_mul_v(a as int, b as int) == -(p as int));
                assert(!in_i64(-(p as int)));
            }
            None
        }
    } else {
        if p <= i64::MAX as u128 {
            proof {
                assert(fx_mul_v(a as int, b as int) == p as int);
            }
            Some(p as i64)
        } else {
            proof {
                assert(fx_mul_v(a as int, b as int) == p as int);
            }
            None
        }
    }
}

/// A sequence of executable scalars, read as mathematical integers.
pub open spec fn s2i(s: Seq<i64>) -> Seq<int> {
    s.map_values(|x: i64| x as int)
}

/// The first `n` terms of the fixed-point dot product of `x` and `w`,
/// summed left to right.
pub open spec fn dot_v(x: Seq<int>, w: Seq<int>, n: int) -> int
    decreases n,
{
    if n <= 0 {
        0
    } else {
        dot_v(x, w, n - 1) + fx_mul_v(x[n - 1], w[n - 1])
    }
}

/// Whether every product and every partial sum of the first `n` dot-product
/// terms stays inside `i64`.
pub open spec fn dot_ok(x: Seq<int>, w: Seq<int>, n: int) -> bool
    decreases n,
{
    n <= 0 || (dot_ok(x, w, n - 1) && in_i64(fx_mul_v(x[n - 1], w[n - 1])) && in_i64(dot_v(x, w, n)))
}

/// A dot product that stays in range stays in range on every prefix.
pub proof fn lemma_dot_ok_prefix(x: Seq<int>, w: Seq<int>, n1: int, n2: int)
    requires
        n1 <= n2,
    ensures
        dot_ok(x, w, n2) ==> dot_ok(x, w, n1),
    decreases n2 - n1,
{
    if n1 < n2 {
        lemma_dot_ok_prefix(x, w, n1 + 1, n2);
    }
}

/// The sigmoid activation in fixed point: value one half at zero and slope
/// one quarter there — matching the logistic curve's value and derivative at
/// the origin — then linear until it saturates, strictly inside (0, 1).
pub open spec fn activation_v(x: int) -> int {
    if x <= -2 * (FX_ONE as int) {
        1
    } else if x >= 2 * (FX_ONE as int) {
        (FX_ONE - 1) as int
    } else {
        let y = (x + 2 * (FX_ONE as int)) / 4;
        if y < 1 {
            1
        } else if y > (FX_ONE - 1) as int {
            (FX_ONE - 1) as int
        } else {
            y
        }
    }
}

/// Sigmoid activation, applied to a node's pre-activation sum.
pub fn activation(x: i64) -> (r: i64)
    ensures
        r == activation_v(x as int),
        0 < r < FX_ONE,
{
    if x <= -2 * FX_ONE {
        1
    } else if x >= 2 * FX_ONE {
        FX_ONE - 1
    } else {
        let y: u64 = ((x + 2 * FX_ONE) as u64) / 4;
        proof {
            assert(y == (x as int + 2 * (FX_ONE as int)) / 4);
        }
        if y < 1 {
            1
        } else if y > (FX_ONE - 1) as u64 {
            FX_ONE - 1
        } else {
            y as i64
        }
    }
}

} // verus!
