//! Saturating fixed-point scalars.
//!
//! A scalar is stored as a raw `i64` counting steps of `1/FX_ONE`, so the
//! value `1.0` is the raw integer `FX_ONE`.  Every arithmetic result is
//! clamped ("saturated") into `[-FX_MAX, FX_MAX]`, which keeps each
//! operation total and panic-free; products and quotients truncate toward
//! zero.  The spec functions below pin each operation down exactly.

use vstd::prelude::*;
use vstd::arithmetic::div_mod::{lemma_div_is_ordered, lemma_div_pos_is_pos};
use vstd::arithmetic::mul::{lemma_mul_inequality, lemma_mul_nonnegative};

verus! {

/// Raw units per 1.0.
pub const FX_ONE: i64 = 65536;

/// Largest raw magnitude a scalar may carry; arithmetic saturates here.
pub const FX_MAX: i64 = 0x4000_0000_0000;

/// A fixed-point scalar: `raw` counts steps of `1/FX_ONE`.
#[derive(Clone, Copy, PartialEq, Eq, Structural, Debug)]
pub struct Fx {
    pub raw: i64,
}

/// The raw magnitude every well-formed scalar stays within.
pub open spec fn fx_wf(x: int) -> bool {
    -FX_MAX <= x <= FX_MAX
}

/// Clamp a mathematical integer into the representable raw range.
pub open spec fn sat_i(x: int) -> int {
    if x > FX_MAX {
        FX_MAX as int
    } else if x < -FX_MAX {
        -FX_MAX as int
    } else {
        x
    }
}

pub open spec fn abs_i(x: int) -> int {
    if x < 0 {
        -x
    } else {
        x
    }
}

/// Raw value of the saturating sum.
pub open spec fn fx_add_v(a: int, b: int) -> int {
    sat_i(a + b)
}

/// Raw value of the saturating difference.
pub open spec fn fx_sub_v(a: int, b: int) -> int {
    sat_i(a - b)
}

/// Raw value of the negation.
pub open spec fn fx_neg_v(a: int) -> int {
    sat_i(-a)
}

/// Raw value of the saturating product: magnitudes multiply, the scale is
/// divided back out truncating toward zero, and the sign follows the signs
/// of the operands.
pub open spec fn fx_mul_v(a: int, b: int) -> int {
    let m = abs_i(a) * abs_i(b) / (FX_ONE as int);
    if (a < 0) == (b < 0) {
        sat_i(m)
    } else {
        sat_i(-m)
    }
}

/// Raw value of the saturating quotient, truncating toward zero.
pub open spec fn fx_div_v(a: int, b: int) -> int {
    let m = abs_i(a) * (FX_ONE as int) / abs_i(b);
    if (a < 0) == (b < 0) {
        sat_i(m)
    } else {
        sat_i(-m)
    }
}

/// Integer square root, `floor(sqrt(n))` for `n >= 0`.
pub open spec fn isqrt(n: int) -> int
    decreases n,
{
    if n < 2 {
        if n < 0 {
            0
        } else {
            n
        }
    } else {
        let s = 2 * isqrt(n / 4);
        if (s + 1) * (s + 1) <= n {
            s + 1
        } else {
            s
        }
    }
}

/// Raw value of the square root of a non-negative scalar:
/// `r/FX_ONE == floor_to_scale(sqrt(a/FX_ONE))`, i.e. `isqrt` of the raw
/// value brought up to scale.
pub open spec fn fx_sqrt_v(a: int) -> int {
    isqrt(a * (FX_ONE as int))
}

/// `isqrt(n)` really is the integer square root.
pub proof fn lemma_isqrt(n: int)
    requires
        n >= 0,
    ensures
        isqrt(n) >= 0,
        isqrt(n) * isqrt(n) <= n,
        n < (isqrt(n) + 1) * (isqrt(n) + 1),
    decreases n,
{
    if n < 2 {
        if n == 0 {
            assert(isqrt(n) == 0);
            assert(isqrt(n) * isqrt(n) <= n);
            assert(n < (isqrt(n) + 1) * (isqrt(n) + 1));
        } else {
            assert(isqrt(n) == 1);
            assert(isqrt(n) * isqrt(n) <= n);
            assert(n < (isqrt(n) + 1) * (isqrt(n) + 1));
        }
    } else {
        lemma_isqrt(n / 4);
        let r = isqrt(n / 4);
        assert(4 * (n / 4) <= n < 4 * (n / 4) + 4);
        assert((2 * r) * (2 * r) == 4 * (r * r)) by (nonlinear_arith);
        assert((2 * r + 2) * (2 * r + 2) == 4 * ((r + 1) * (r + 1))) by (nonlinear_arith);
        assert(4 * (r * r) <= 4 * (n / 4));
        assert(4 * (n / 4) + 4 <= 4 * ((r + 1) * (r + 1)));
        assert((2 * r) * (2 * r) <= n);
        assert(n < (2 * r + 2) * (2 * r + 2));
        if (2 * r + 1) * (2 * r + 1) <= n {
            assert(isqrt(n) == 2 * r + 1);
            assert(isqrt(n) * isqrt(n) <= n);
            assert(n < (isqrt(n) + 1) * (isqrt(n) + 1));
        } else {
            assert(isqrt(n) == 2 * r);
            assert(isqrt(n) * isqrt(n) <= n);
            assert(n < (isqrt(n) + 1) * (isqrt(n) + 1));
        }
    }
}

/// Clamp a raw `i64` into the well-formed range.
fn clamp_raw(s: i64) -> (r: i64)
    ensures
        r as int == sat_i(s as int),
        fx_wf(r as int),
{
    if s > FX_MAX {
        FX_MAX
    } else if s < -FX_MAX {
        -FX_MAX
    } else {
        s
    }
}

/// Magnitude of a well-formed raw value.
fn abs_u(a: i64) -> (r: u64)
    requires
        fx_wf(a as int),
    ensures
        r as int == abs_i(a as int),
{
    if a < 0 {
        (-a) as u64
    } else {
        a as u64
    }
}

/// Reattach a sign to a non-negative magnitude and saturate.
fn sat_signed(neg: bool, m: u128) -> (r: i64)
    ensures
        r as int == if neg {
            sat_i(-(m as int))
        } else {
            sat_i(m as int)
        },
        fx_wf(r as int),
{
    let c: u128 = if m > FX_MAX as u128 {
        FX_MAX as u128
    } else {
        m
    };
    let v = c as i64;
    if neg {
        -v
    } else {
        v
    }
}

/// Recursive integer square root on machine words.
fn isqrt_u64(n: u64) -> (r: u64)
    ensures
        r as int == isqrt(n as int),
    decreases n,
{
    if n < 2 {
        n
    } else {
        let h = isqrt_u64(n / 4);
        proof {
            lemma_isqrt(n as int / 4);
            assert(h as int * h as int <= n as int / 4);
            assert(h <= 0x1_0000_0000u64) by (nonlinear_arith)
                requires
                    h as int * h as int <= n as int / 4,
                    n as int / 4 < 0x1_0000_0000_0000_0000,
            ;
        }
        let s = 2 * h;
        proof {
            assert((s + 1) as int * (s + 1) as int <= 0x2_0000_0001 * 0x2_0000_0001)
                by (nonlinear_arith)
                requires
                    0 <= s as int <= 0x2_0000_0000,
            ;
        }
        let sq: u128 = ((s + 1) as u128) * ((s + 1) as u128);
        proof {
            assert(sq == (s + 1) as int * (s + 1) as int);
        }
        if sq <= n as u128 {
            s + 1
        } else {
            s
        }
    }
}

impl Fx {
    /// Raw values a scalar produced by this module always stays within.
    pub open spec fn wf(self) -> bool {
        fx_wf(self.raw as int)
    }

    /// The scalar 0.
    pub fn zero() -> (r: Fx)
        ensures
            r.raw == 0,
            r.wf(),
    {
        Fx { raw: 0 }
    }

    /// The scalar 1.
    pub fn one() -> (r: Fx)
        ensures
            r.raw == FX_ONE,
            r.wf(),
    {
        Fx { raw: FX_ONE }
    }

    /// Build a scalar from a raw step count, saturating it into range.
    pub fn from_raw(raw: i64) -> (r: Fx)
        ensures
            r.raw as int == sat_i(raw as int),
            r.wf(),
    {
        Fx { raw: clamp_raw(raw) }
    }

    /// Build a scalar holding the integer `v`, saturating it into range.
    pub fn from_int(v: i64) -> (r: Fx)
        ensures
            r.raw as int == sat_i(v * FX_ONE),
            r.wf(),
    {
        let w: i128 = (v as i128) * (FX_ONE as i128);
        let c: i128 = if w > FX_MAX as i128 {
            FX_MAX as i128
        } else if w < -(FX_MAX as i128) {
            -(FX_MAX as i128)
        } else {
            w
        };
        Fx { raw: c as i64 }
    }

    /// Saturating sum.
    pub fn add(self, rhs: Fx) -> (r: Fx)
        requires
            self.wf(),
            rhs.wf(),
        ensures
            r.wf(),
            r.raw as int == fx_add_v(self.raw as int, rhs.raw as int),
    {
        Fx { raw: clamp_raw(self.raw + rhs.raw) }
    }

    /// Saturating difference.
    pub fn sub(self, rhs: Fx) -> (r: Fx)
        requires
            self.wf(),
            rhs.wf(),
        ensures
            r.wf(),
            r.raw as int == fx_sub_v(self.raw as int, rhs.raw as int),
    {
        Fx { raw: clamp_raw(self.raw - rhs.raw) }
    }

    /// Negation.
    pub fn neg(self) -> (r: Fx)
        requires
            self.wf(),
        ensures
            r.wf(),
            r.raw as int == fx_neg_v(self.raw as int),
    {
        Fx { raw: clamp_raw(-self.raw) }
    }

    /// Saturating product, truncating toward zero.
    pub fn mul(self, rhs: Fx) -> (r: Fx)
        requires
            self.wf(),
            rhs.wf(),
        ensures
            r.wf(),
            r.raw as int == fx_mul_v(self.raw as int, rhs.raw as int),
    {
        let neg = (self.raw < 0) != (rhs.raw < 0);
        let ua = abs_u(self.raw);
        let ub = abs_u(rhs.raw);
        proof {
            assert(ua as int * ub as int <= FX_MAX as int * FX_MAX as int) by (nonlinear_arith)
                requires
                    0 <= ua as int <= FX_MAX as int,
                    0 <= ub as int <= FX_MAX as int,
            ;
        }
        let p: u128 = (ua as u128) * (ub as u128);
        let m = p / (FX_ONE as u128);
        Fx { raw: sat_signed(neg, m) }
    }

    /// Saturating quotient, truncating toward zero.
    pub fn div(self, rhs: Fx) -> (r: Fx)
        requires
            self.wf(),
            rhs.wf(),
            rhs.raw != 0,
        ensures
            r.wf(),
            r.raw as int == fx_div_v(self.raw as int, rhs.raw as int),
    {
        let neg = (self.raw < 0) != (rhs.raw < 0);
        let ua = abs_u(self.raw);
        let ub = abs_u(rhs.raw);
        proof {
            assert(ua as int * 65536 <= 0x4000_0000_0000 * 65536) by (nonlinear_arith)
                requires
                    0 <= ua as int <= 0x4000_0000_0000,
            ;
        }
        let p: u128 = (ua as u128) * (FX_ONE as u128);
        let m = p / (ub as u128);
        Fx { raw: sat_signed(neg, m) }
    }

    /// Square root of a non-negative scalar; the result is the largest
    /// representable scalar whose square does not exceed the argument.
    pub fn sqrt(self) -> (r: Fx)
        requires
            self.wf(),
            self.raw >= 0,
        ensures
            r.wf(),
            r.raw >= 0,
            r.raw as int == fx_sqrt_v(self.raw as int),
    {
        proof {
            assert(self.raw as int * 65536 <= 0x4000_0000_0000 * 65536) by (nonlinear_arith)
                requires
                    0 <= self.raw as int <= 0x4000_0000_0000,
            ;
        }
        let n: u64 = (self.raw as u64) * (FX_ONE as u64);
        let s = isqrt_u64(n);
        proof {
            lemma_isqrt(n as int);
            assert(s as int * s as int <= n as int);
            assert(s as int <= 0x4000_0000_0000) by (nonlinear_arith)
                requires
                    0 <= s as int,
                    s as int * s as int <= n as int,
                    n as int <= 0x4000_0000_0000 * 65536,
            ;
        }
        Fx { raw: s as i64 }
    }

    /// Absolute value.
    pub fn abs(self) -> (r: Fx)
        requires
            self.wf(),
        ensures
            r.wf(),
            r.raw as int == abs_i(self.raw as int),
    {
        if self.raw < 0 {
            Fx { raw: -self.raw }
        } else {
            self
        }
    }
}

/// Division by a positive scalar preserves order of the numerators.
pub proof fn lemma_fx_div_mono(n1: int, n2: int, d: int)
    requires
        n1 <= n2,
        d > 0,
    ensures
        fx_div_v(n1, d) <= fx_div_v(n2, d),
{
    let s = FX_ONE as int;
    if n1 >= 0 {
        lemma_mul_inequality(n1, n2, s);
        lemma_mul_nonnegative(n1, s);
        lemma_div_is_ordered(n1 * s, n2 * s, abs_i(d));
        lemma_div_pos_is_pos(n1 * s, abs_i(d));
    } else if n2 < 0 {
        lemma_mul_inequality(-n2, -n1, s);
        lemma_mul_nonnegative(-n2, s);
        lemma_div_is_ordered((-n2) * s, (-n1) * s, abs_i(d));
        lemma_div_pos_is_pos((-n2) * s, abs_i(d));
        assert(abs_i(n1) * s == (-n1) * s);
        assert(abs_i(n2) * s == (-n2) * s);
    } else {
        lemma_mul_nonnegative(-n1, s);
        lemma_mul_nonnegative(n2, s);
        lemma_div_pos_is_pos((-n1) * s, abs_i(d));
        lemma_div_pos_is_pos(n2 * s, abs_i(d));
        assert(abs_i(n1) * s == (-n1) * s);
    }
}

/// Scaling by a factor in the unit interval does not increase a
/// non-negative scalar.
pub proof fn lemma_fx_mul_le_right(a: int, b: int)
    requires
        0 <= a <= FX_ONE,
        0 <= b,
    ensures
        0 <= fx_mul_v(a, b) <= b,
{
    assert(abs_i(a) * abs_i(b) >= 0) by (nonlinear_arith)
        requires
            abs_i(a) >= 0,
            abs_i(b) >= 0,
    ;
    assert(abs_i(a) * abs_i(b) <= 65536 * abs_i(b)) by (nonlinear_arith)
        requires
            0 <= abs_i(a) <= 65536,
            abs_i(b) >= 0,
    ;
    lemma_div_pos_is_pos(abs_i(a) * abs_i(b), FX_ONE as int);
    lemma_div_is_ordered(abs_i(a) * abs_i(b), 65536 * abs_i(b), FX_ONE as int);
    assert((65536 * abs_i(b)) / (FX_ONE as int) == abs_i(b));
}

/// Multiplying by zero gives zero.
pub proof fn lemma_fx_mul_zero(a: int)
    ensures
        fx_mul_v(a, 0) == 0,
        fx_mul_v(0, a) == 0,
{
    let m = abs_i(a);
    assert(m * 0 == 0) by (nonlinear_arith);
    assert(0 * m == 0) by (nonlinear_arith);
    assert(abs_i(0) == 0);
    assert(0int / (FX_ONE as int) == 0);
}

/// Multiplication of scalars does not depend on the operand order.
pub proof fn lemma_fx_mul_comm(a: int, b: int)
    ensures
        fx_mul_v(a, b) == fx_mul_v(b, a),
{
    assert(abs_i(a) * abs_i(b) == abs_i(b) * abs_i(a)) by (nonlinear_arith);
}

/// Negating a difference swaps its operands.
pub proof fn lemma_fx_sub_antisym(a: int, b: int)
    ensures
        fx_neg_v(fx_sub_v(a, b)) == fx_sub_v(b, a),
{
}

} // verus!
