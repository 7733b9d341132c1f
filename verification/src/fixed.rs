//! Fixed-point numerics: 16.16 (`Fixed`) and 2.14 (`F2Dot14`) values.
//!
//! `Fixed::mul_div` computes `self * a / b` with 64-bit intermediate
//! precision and truncation toward zero; that rounding is part of its
//! contract and of the scalar computation built on it.

use vstd::prelude::*;

verus! {

/// Integer division truncated toward zero (the rounding of machine division).
pub open spec fn trunc_div(a: int, b: int) -> int
    recommends
        b != 0,
{
    if (a >= 0) == (b >= 0) {
        abs_int(a) / abs_int(b)
    } else {
        -(abs_int(a) / abs_int(b))
    }
}

/// The absolute value of a mathematical integer.
pub open spec fn abs_int(a: int) -> int {
    if a >= 0 {
        a
    } else {
        -a
    }
}

/// Truncated division stays within `[0, x]` whenever the multiplier `a` is no
/// larger in magnitude than the divisor `b` and carries the same sign.
pub proof fn lemma_trunc_div_scale(x: int, a: int, b: int)
    requires
        0 <= x,
        b != 0,
        a * b >= 0,
        abs_int(a) <= abs_int(b),
    ensures
        0 <= trunc_div(x * a, b) <= x,
{
    let p = x * a;
    let m = abs_int(a);
    let n = abs_int(b);
    assert(abs_int(p) == x * m) by (nonlinear_arith)
        requires
            p == x * a,
            0 <= x,
            m == (if a >= 0 {
                a
            } else {
                -a
            }),
    ;
    assert(x * m <= x * n) by (nonlinear_arith)
        requires
            0 <= x,
            m <= n,
    ;
    vstd::arithmetic::div_mod::lemma_multiply_divide_le(abs_int(p), n, x);
    vstd::arithmetic::div_mod::lemma_div_pos_is_pos(abs_int(p), n);
    if x == 0 || a == 0 {
        assert(p == 0) by (nonlinear_arith)
            requires
                p == x * a,
                x == 0 || a == 0,
        ;
        vstd::arithmetic::div_mod::lemma_div_of0(n);
    } else if a > 0 {
        assert(b > 0) by (nonlinear_arith)
            requires
                a * b >= 0,
                a > 0,
                b != 0,
        ;
        assert(p > 0) by (nonlinear_arith)
            requires
                p == x * a,
                x > 0,
                a > 0,
        ;
        assert(trunc_div(p, b) == abs_int(p) / n);
    } else {
        assert(b < 0) by (nonlinear_arith)
            requires
                a * b >= 0,
                a < 0,
                b != 0,
        ;
        assert(p < 0) by (nonlinear_arith)
            requires
                p == x * a,
                x > 0,
                a < 0,
        ;
        assert(trunc_div(p, b) == abs_int(p) / n);
    }
}

/// Negating the dividend negates a truncated quotient.
pub proof fn lemma_trunc_div_neg(p: int, b: int)
    requires
        b != 0,
    ensures
        trunc_div(-p, b) == -trunc_div(p, b),
{
    assert(abs_int(-p) == abs_int(p));
    if p == 0 {
        assert(abs_int(0) / abs_int(b) == 0) by {
            vstd::arithmetic::div_mod::lemma_div_of0(abs_int(b));
        }
    }
}

/// Truncated division scales magnitudes: with `|a| <= |b|` of one sign, the
/// quotient of `x * a` by `b` is no larger in magnitude than `x`.
pub proof fn lemma_trunc_div_scale_signed(x: int, a: int, b: int)
    requires
        b != 0,
        a * b >= 0,
        abs_int(a) <= abs_int(b),
    ensures
        abs_int(trunc_div(x * a, b)) <= abs_int(x),
        x >= 0 ==> 0 <= trunc_div(x * a, b) <= x,
        x < 0 ==> x <= trunc_div(x * a, b) <= 0,
{
    if x >= 0 {
        lemma_trunc_div_scale(x, a, b);
    } else {
        lemma_trunc_div_scale(-x, a, b);
        assert((-x) * a == -(x * a)) by (nonlinear_arith);
        lemma_trunc_div_neg(x * a, b);
    }
}

/// Dividing an exact multiple is exact: `(x * b) / b == x`.
pub proof fn lemma_trunc_div_exact(x: int, b: int)
    requires
        b != 0,
    ensures
        trunc_div(x * b, b) == x,
{
    let p = x * b;
    assert(abs_int(p) == abs_int(x) * abs_int(b)) by (nonlinear_arith)
        requires
            p == x * b,
    ;
    assert(abs_int(p) / abs_int(b) == abs_int(x)) by {
        vstd::arithmetic::div_mod::lemma_div_by_multiple(abs_int(x), abs_int(b));
    }
    if x == 0 {
        assert(p == 0) by (nonlinear_arith)
            requires
                p == x * b,
                x == 0,
        ;
    } else if x > 0 {
        assert((p >= 0) == (b >= 0)) by (nonlinear_arith)
            requires
                p == x * b,
                x > 0,
                b != 0,
        ;
    } else {
        assert((p >= 0) != (b >= 0)) by (nonlinear_arith)
            requires
                p == x * b,
                x < 0,
                b != 0,
        ;
    }
}

/// Machine division of 32-bit integers: the quotient truncated toward zero.
pub fn div_i32(a: i32, b: i32) -> (r: i32)
    requires
        b != 0,
        !(a == i32::MIN && b == -1),
    ensures
        r == trunc_div(a as int, b as int),
{
    let am: u32 = if a >= 0 {
        a as u32
    } else {
        (-(a as i64)) as u32
    };
    let bm: u32 = if b >= 0 {
        b as u32
    } else {
        (-(b as i64)) as u32
    };
    let q: u32 = am / bm;
    proof {
        assert(am == abs_int(a as int) && bm == abs_int(b as int));
        vstd::arithmetic::div_mod::lemma_div_is_ordered(am as int, am as int, bm as int);
        vstd::arithmetic::div_mod::lemma_div_nonincreasing(am as int, bm as int);
    }
    if (a >= 0) == (b >= 0) {
        proof {
            if a >= 0 {
                assert(q <= am <= i32::MAX);
            } else if a > i32::MIN {
                assert(q <= am <= i32::MAX);
            } else {
                assert(b < 0 && b != -1);
                assert(bm >= 2);
                assert(q <= am / 2) by {
                    vstd::arithmetic::div_mod::lemma_div_is_ordered_by_denominator(
                        am as int,
                        2,
                        bm as int,
                    );
                }
            }
            assert(trunc_div(a as int, b as int) == q as int);
        }
        q as i32
    } else {
        proof {
            assert(trunc_div(a as int, b as int) == -(q as int));
        }
        (-(q as i64)) as i32
    }
}

/// A signed 32-bit fixed-point number with 16 fractional bits.
#[derive(Clone, Copy, Debug, PartialEq, Eq, Structural)]
pub struct Fixed {
    bits: i32,
}

impl View for Fixed {
    type V = i32;

    closed spec fn view(&self) -> i32 {
        self.bits
    }
}

impl Fixed {
    /// The value with the given raw bit pattern.
    pub fn from_bits(bits: i32) -> (r: Fixed)
        ensures
            r@ == bits,
    {
        Fixed { bits }
    }

    /// The raw bit pattern.
    pub fn to_bits(self) -> (r: i32)
        ensures
            r == self@,
    {
        self.bits
    }

    /// `self * a / b` with 64-bit intermediate precision, truncated toward
    /// zero.
    pub fn mul_div(self, a: Fixed, b: Fixed) -> (r: Fixed)
        requires
            b@ != 0,
            i32::MIN <= trunc_div(self@ as int * a@ as int, b@ as int) <= i32::MAX,
        ensures
            r@ == trunc_div(self@ as int * a@ as int, b@ as int),
    {
        proof {
            assert(i64::MIN <= self@ as int * a@ as int <= i64::MAX) by (nonlinear_arith)
                requires
                    i32::MIN <= self@ <= i32::MAX,
                    i32::MIN <= a@ <= i32::MAX,
            ;
        }
        let p: i64 = self.bits as i64 * a.bits as i64;
        let pm: u64 = if p >= 0 {
            p as u64
        } else {
            assert(p > i64::MIN) by {
                assert(self@ as int * a@ as int > i64::MIN) by (nonlinear_arith)
                    requires
                        i32::MIN <= self@ <= i32::MAX,
                        i32::MIN <= a@ <= i32::MAX,
                ;
            }
            (-p) as u64
        };
        let bm: u64 = if b.bits >= 0 {
            b.bits as u64
        } else {
            (-(b.bits as i64)) as u64
        };
        let q: u64 = pm / bm;
        assert(pm == abs_int(p as int) && bm == abs_int(b@ as int));
        assert(q == abs_int(p as int) / abs_int(b@ as int));
        if (p >= 0) == (b.bits >= 0) {
            assert(trunc_div(self@ as int * a@ as int, b@ as int) == q as int);
            Fixed { bits: q as i32 }
        } else {
            assert(trunc_div(self@ as int * a@ as int, b@ as int) == -(q as int));
            let qi: i64 = -(q as i64);
            Fixed { bits: qi as i32 }
        }
    }
}

/// A signed 16-bit fixed-point number with 14 fractional bits, used for
/// normalized axis coordinates.
#[derive(Clone, Copy, Debug, PartialEq, Eq, Structural)]
pub struct F2Dot14 {
    bits: i16,
}

impl View for F2Dot14 {
    type V = i16;

    closed spec fn view(&self) -> i16 {
        self.bits
    }
}

/// The `Fixed` bit pattern of an `F2Dot14` value (a shift left by two).
pub open spec fn to_fixed_spec(v: i16) -> int {
    v as int * 4
}

impl F2Dot14 {
    /// The value with the given raw bit pattern.
    pub fn from_bits(bits: i16) -> (r: F2Dot14)
        ensures
            r@ == bits,
    {
        F2Dot14 { bits }
    }

    /// The raw bit pattern.
    pub fn to_bits(self) -> (r: i16)
        ensures
            r == self@,
    {
        self.bits
    }

    /// The same value as 16.16 fixed point.
    pub fn to_fixed(self) -> (r: Fixed)
        ensures
            r@ == to_fixed_spec(self@),
    {
        Fixed { bits: self.bits as i32 * 4 }
    }
}

} // verus!
