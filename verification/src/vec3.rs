//! Three-component fixed-point vectors, used interchangeably as geometric
//! vectors, points and RGB colors.  The mathematical model of a vector is
//! `V3i`, the triple of raw scalar values; every operation's contract says
//! exactly which `V3i` comes out.

use vstd::prelude::*;
use crate::fx::{
    Fx, FX_ONE, FX_MAX, fx_wf, fx_add_v, fx_sub_v, fx_neg_v, fx_mul_v, fx_div_v, fx_sqrt_v,
    abs_i, isqrt, lemma_isqrt, lemma_fx_mul_comm, lemma_fx_sub_antisym, lemma_fx_mul_zero,
};
use crate::rng::RandomSource;

verus! {

/// The model of a vector: its three raw scalar values.
pub ghost struct V3i {
    pub x: int,
    pub y: int,
    pub z: int,
}

pub open spec fn vwf(a: V3i) -> bool {
    fx_wf(a.x) && fx_wf(a.y) && fx_wf(a.z)
}

pub open spec fn v3i(x: int, y: int, z: int) -> V3i {
    V3i { x: x, y: y, z: z }
}

pub open spec fn vadd_v(a: V3i, b: V3i) -> V3i {
    V3i { x: fx_add_v(a.x, b.x), y: fx_add_v(a.y, b.y), z: fx_add_v(a.z, b.z) }
}

pub open spec fn vsub_v(a: V3i, b: V3i) -> V3i {
    V3i { x: fx_sub_v(a.x, b.x), y: fx_sub_v(a.y, b.y), z: fx_sub_v(a.z, b.z) }
}

pub open spec fn vneg_v(a: V3i) -> V3i {
    V3i { x: fx_neg_v(a.x), y: fx_neg_v(a.y), z: fx_neg_v(a.z) }
}

/// Component-wise product.
pub open spec fn vmul_v(a: V3i, b: V3i) -> V3i {
    V3i { x: fx_mul_v(a.x, b.x), y: fx_mul_v(a.y, b.y), z: fx_mul_v(a.z, b.z) }
}

/// Scaling by a scalar.
pub open spec fn vscale_v(a: V3i, t: int) -> V3i {
    V3i { x: fx_mul_v(a.x, t), y: fx_mul_v(a.y, t), z: fx_mul_v(a.z, t) }
}

/// Component-wise quotient.
pub open spec fn vdiv_v(a: V3i, b: V3i) -> V3i {
    V3i { x: fx_div_v(a.x, b.x), y: fx_div_v(a.y, b.y), z: fx_div_v(a.z, b.z) }
}

/// Division by a scalar.
pub open spec fn vdivs_v(a: V3i, t: int) -> V3i {
    V3i { x: fx_div_v(a.x, t), y: fx_div_v(a.y, t), z: fx_div_v(a.z, t) }
}

pub open spec fn dot_v(a: V3i, b: V3i) -> int {
    fx_add_v(fx_add_v(fx_mul_v(a.x, b.x), fx_mul_v(a.y, b.y)), fx_mul_v(a.z, b.z))
}

pub open spec fn cross_v(a: V3i, b: V3i) -> V3i {
    V3i {
        x: fx_sub_v(fx_mul_v(a.y, b.z), fx_mul_v(a.z, b.y)),
        y: fx_sub_v(fx_mul_v(a.z, b.x), fx_mul_v(a.x, b.z)),
        z: fx_sub_v(fx_mul_v(a.x, b.y), fx_mul_v(a.y, b.x)),
    }
}

pub open spec fn len2_v(a: V3i) -> int {
    dot_v(a, a)
}

pub open spec fn len_v(a: V3i) -> int {
    fx_sqrt_v(len2_v(a))
}

/// Normalization: each component divided by the length.
pub open spec fn unit_v(a: V3i) -> V3i {
    vdivs_v(a, len_v(a))
}

/// A color whose channels all lie in the unit interval `[0, 1]`.
pub open spec fn color_wf(a: V3i) -> bool {
    0 <= a.x <= FX_ONE && 0 <= a.y <= FX_ONE && 0 <= a.z <= FX_ONE
}

/// The degenerate-direction test: true exactly when every component is
/// below one raw step in magnitude, i.e. exactly zero.
pub open spec fn near_zero_v(a: V3i) -> bool {
    a.x == 0 && a.y == 0 && a.z == 0
}

/// A 3-component fixed-point vector (also a point, also an RGB color).
#[derive(Clone, Copy, PartialEq, Eq, Structural, Debug)]
pub struct Vec3 {
    pub x: Fx,
    pub y: Fx,
    pub z: Fx,
}

impl View for Vec3 {
    type V = V3i;

    open spec fn view(&self) -> V3i {
        V3i { x: self.x.raw as int, y: self.y.raw as int, z: self.z.raw as int }
    }
}

/// A square of a scalar is non-negative and in range, so a squared length
/// is too.
pub proof fn lemma_len2_bounds(a: V3i)
    ensures
        0 <= len2_v(a) <= FX_MAX,
{
    assert(abs_i(a.x) * abs_i(a.x) >= 0) by (nonlinear_arith);
    assert(abs_i(a.y) * abs_i(a.y) >= 0) by (nonlinear_arith);
    assert(abs_i(a.z) * abs_i(a.z) >= 0) by (nonlinear_arith);
}

/// A positive squared length gives a positive length.
pub proof fn lemma_len_pos(a: V3i)
    requires
        len2_v(a) > 0,
    ensures
        0 < len_v(a) <= FX_MAX,
{
    lemma_len2_bounds(a);
    lemma_isqrt(len2_v(a) * (FX_ONE as int));
    let r = isqrt(len2_v(a) * (FX_ONE as int));
    assert(len2_v(a) * (FX_ONE as int) >= 65536) by (nonlinear_arith)
        requires
            len2_v(a) >= 1,
            FX_ONE == 65536,
    ;
    if r == 0 {
        assert((r + 1) * (r + 1) == 1) by (nonlinear_arith)
            requires
                r == 0,
        ;
        assert(false);
    }
    assert(r * r <= len2_v(a) * (FX_ONE as int));
    assert(len2_v(a) * (FX_ONE as int) <= 0x4000_0000_0000 * 65536) by (nonlinear_arith)
        requires
            len2_v(a) <= 0x4000_0000_0000,
            FX_ONE == 65536,
    ;
    assert(r <= 0x4000_0000_0000) by (nonlinear_arith)
        requires
            r >= 0,
            r * r <= 0x4000_0000_0000 * 65536,
    ;
}

impl Vec3 {
    pub open spec fn wf(self) -> bool {
        vwf(self@)
    }

    pub fn new(x: Fx, y: Fx, z: Fx) -> (r: Vec3)
        ensures
            r@ == v3i(x.raw as int, y.raw as int, z.raw as int),
            x.wf() && y.wf() && z.wf() ==> r.wf(),
    {
        Vec3 { x, y, z }
    }

    /// The zero vector (origin; black as a color).
    pub fn zero() -> (r: Vec3)
        ensures
            r@ == v3i(0, 0, 0),
            r.wf(),
    {
        Vec3 { x: Fx::zero(), y: Fx::zero(), z: Fx::zero() }
    }

    pub fn neg(self) -> (r: Vec3)
        requires
            self.wf(),
        ensures
            r.wf(),
            r@ == vneg_v(self@),
    {
        Vec3 { x: self.x.neg(), y: self.y.neg(), z: self.z.neg() }
    }

    pub fn add(self, rhs: Vec3) -> (r: Vec3)
        requires
            self.wf(),
            rhs.wf(),
        ensures
            r.wf(),
            r@ == vadd_v(self@, rhs@),
    {
        Vec3 { x: self.x.add(rhs.x), y: self.y.add(rhs.y), z: self.z.add(rhs.z) }
    }

    pub fn sub(self, rhs: Vec3) -> (r: Vec3)
        requires
            self.wf(),
            rhs.wf(),
        ensures
            r.wf(),
            r@ == vsub_v(self@, rhs@),
    {
        Vec3 { x: self.x.sub(rhs.x), y: self.y.sub(rhs.y), z: self.z.sub(rhs.z) }
    }

    /// Component-wise product (color attenuation).
    pub fn mul(self, rhs: Vec3) -> (r: Vec3)
        requires
            self.wf(),
            rhs.wf(),
        ensures
            r.wf(),
            r@ == vmul_v(self@, rhs@),
    {
        Vec3 { x: self.x.mul(rhs.x), y: self.y.mul(rhs.y), z: self.z.mul(rhs.z) }
    }

    /// Component-wise quotient; every component of the divisor must be
    /// nonzero.
    pub fn div(self, rhs: Vec3) -> (r: Vec3)
        requires
            self.wf(),
            rhs.wf(),
            rhs@.x != 0,
            rhs@.y != 0,
            rhs@.z != 0,
        ensures
            r.wf(),
            r@ == vdiv_v(self@, rhs@),
    {
        Vec3 { x: self.x.div(rhs.x), y: self.y.div(rhs.y), z: self.z.div(rhs.z) }
    }

    /// Compound addition.
    pub fn add_assign(&mut self, rhs: Vec3)
        requires
            old(self).wf(),
            rhs.wf(),
        ensures
            final(self).wf(),
            final(self)@ == vadd_v(old(self)@, rhs@),
    {
        *self = self.add(rhs);
    }

    /// Compound scaling by a scalar.
    pub fn mul_assign(&mut self, t: Fx)
        requires
            old(self).wf(),
            t.wf(),
        ensures
            final(self).wf(),
            final(self)@ == vscale_v(old(self)@, t.raw as int),
    {
        *self = self.mul_s(t);
    }

    /// Compound division by a (nonzero) scalar.
    pub fn div_assign(&mut self, t: Fx)
        requires
            old(self).wf(),
            t.wf(),
            t.raw != 0,
        ensures
            final(self).wf(),
            final(self)@ == vdivs_v(old(self)@, t.raw as int),
    {
        *self = self.div_s(t);
    }

    /// Scaling by a scalar.
    pub fn mul_s(self, t: Fx) -> (r: Vec3)
        requires
            self.wf(),
            t.wf(),
        ensures
            r.wf(),
            r@ == vscale_v(self@, t.raw as int),
    {
        Vec3 { x: self.x.mul(t), y: self.y.mul(t), z: self.z.mul(t) }
    }

    /// Division by a scalar.
    pub fn div_s(self, t: Fx) -> (r: Vec3)
        requires
            self.wf(),
            t.wf(),
            t.raw != 0,
        ensures
            r.wf(),
            r@ == vdivs_v(self@, t.raw as int),
    {
        Vec3 { x: self.x.div(t), y: self.y.div(t), z: self.z.div(t) }
    }

    pub fn length_squared(self) -> (r: Fx)
        requires
            self.wf(),
        ensures
            r.wf(),
            r.raw as int == len2_v(self@),
            r.raw >= 0,
    {
        proof {
            lemma_len2_bounds(self@);
        }
        self.x.mul(self.x).add(self.y.mul(self.y)).add(self.z.mul(self.z))
    }

    pub fn length(self) -> (r: Fx)
        requires
            self.wf(),
        ensures
            r.wf(),
            r.raw as int == len_v(self@),
            r.raw >= 0,
    {
        self.length_squared().sqrt()
    }

    /// Normalization; the caller guarantees the vector is not degenerate.
    pub fn unit_vector(v: Vec3) -> (r: Vec3)
        requires
            v.wf(),
            len2_v(v@) > 0,
        ensures
            r.wf(),
            r@ == unit_v(v@),
    {
        proof {
            lemma_len_pos(v@);
        }
        let len = v.length();
        v.div_s(len)
    }

    /// True exactly when every component is below one raw step in
    /// magnitude, i.e. the vector is exactly zero.
    pub fn near_zero(&self) -> (r: bool)
        ensures
            r == near_zero_v(self@),
    {
        self.x.raw == 0 && self.y.raw == 0 && self.z.raw == 0
    }

    /// Each component uniform in `[0, 1)`.
    pub fn random(rng: &mut RandomSource) -> (r: Vec3)
        ensures
            r.wf(),
            0 <= r@.x < FX_ONE,
            0 <= r@.y < FX_ONE,
            0 <= r@.z < FX_ONE,
    {
        let x = rng.next_unit();
        let y = rng.next_unit();
        let z = rng.next_unit();
        Vec3 { x, y, z }
    }

    /// Each component uniform in `[min, max)`.
    pub fn random_range(rng: &mut RandomSource, min: Fx, max: Fx) -> (r: Vec3)
        requires
            min.wf(),
            max.wf(),
            min.raw <= max.raw,
        ensures
            r.wf(),
            min.raw <= r@.x <= max.raw,
            min.raw <= r@.y <= max.raw,
            min.raw <= r@.z <= max.raw,
    {
        let x = rng.next_range(min, max);
        let y = rng.next_range(min, max);
        let z = rng.next_range(min, max);
        Vec3 { x, y, z }
    }

    /// Rejection-sample a point inside the unit ball: draw from the cube
    /// `[-1,1)^3` until the squared length is below 1.  The try count is
    /// bounded to guarantee termination; the fallback (reached with
    /// vanishing probability) is a fixed interior point.
    pub fn random_in_unit_sphere(rng: &mut RandomSource) -> (r: Vec3)
        ensures
            r.wf(),
            len2_v(r@) < FX_ONE,
    {
        let one = Fx::one();
        let minus_one = one.neg();
        let mut tries: u64 = 64;
        while tries > 0
            invariant
                one.wf(),
                one.raw == FX_ONE,
                minus_one.wf(),
                minus_one.raw == -FX_ONE,
            decreases tries,
        {
            tries = tries - 1;
            let p = Vec3::random_range(rng, minus_one, one);
            let l2 = p.length_squared();
            if l2.raw < FX_ONE {
                return p;
            }
        }
        let f = Vec3::zero();
        proof {
            lemma_fx_mul_zero(0);
            assert(len2_v(f@) == 0);
        }
        f
    }

    /// A random point on the unit sphere's surface: the normalization of a
    /// unit-ball sample.  Samples of squared length below 0.1 are rejected
    /// like the out-of-ball ones: normalizing them would lose precision,
    /// and rejection by radius is isotropic, so directions stay uniform.
    pub fn random_unit_vector(rng: &mut RandomSource) -> (r: Vec3)
        ensures
            r.wf(),
            exists|p: V3i| vwf(p) && 6554 <= len2_v(p) <= FX_ONE && r@ == #[trigger] unit_v(p),
    {
        let mut tries: u64 = 64;
        while tries > 0
            invariant
                true,
            decreases tries,
        {
            tries = tries - 1;
            let p = Vec3::random_in_unit_sphere(rng);
            let l2 = p.length_squared();
            if l2.raw >= 6554 {
                let u = Vec3::unit_vector(p);
                proof {
                    assert(u@ == unit_v(p@));
                }
                return u;
            }
        }
        let axis = Vec3 { x: Fx { raw: FX_ONE }, y: Fx { raw: 0 }, z: Fx { raw: 0 } };
        proof {
            lemma_fx_mul_zero(0);
            assert(abs_i(FX_ONE as int) == FX_ONE as int);
            assert(abs_i(FX_ONE as int) * abs_i(FX_ONE as int) == 65536 * 65536) by (nonlinear_arith)
                requires
                    abs_i(FX_ONE as int) == 65536,
            ;
            assert(fx_mul_v(FX_ONE as int, FX_ONE as int) == FX_ONE);
            assert(len2_v(axis@) == FX_ONE);
        }
        let u = Vec3::unit_vector(axis);
        proof {
            assert(u@ == unit_v(axis@));
        }
        u
    }

    /// Rejection-sample a point inside the unit disk in the z = 0 plane,
    /// for lens-aperture offsets; bounded tries as above.
    pub fn random_in_unit_disk(rng: &mut RandomSource) -> (r: Vec3)
        ensures
            r.wf(),
            len2_v(r@) < FX_ONE,
            r@.z == 0,
    {
        let one = Fx::one();
        let minus_one = one.neg();
        let mut tries: u64 = 64;
        while tries > 0
            invariant
                one.wf(),
                one.raw == FX_ONE,
                minus_one.wf(),
                minus_one.raw == -FX_ONE,
            decreases tries,
        {
            tries = tries - 1;
            let x = rng.next_range(minus_one, one);
            let y = rng.next_range(minus_one, one);
            let p = Vec3 { x, y, z: Fx { raw: 0 } };
            let l2 = p.length_squared();
            if l2.raw < FX_ONE {
                return p;
            }
        }
        let f = Vec3::zero();
        proof {
            lemma_fx_mul_zero(0);
            assert(len2_v(f@) == 0);
        }
        f
    }
}

impl Default for Vec3 {
    /// The zero vector.
    fn default() -> (r: Vec3)
        ensures
            r@ == v3i(0, 0, 0),
            r.wf(),
    {
        Vec3::zero()
    }
}

pub fn dot(u: Vec3, v: Vec3) -> (r: Fx)
    requires
        u.wf(),
        v.wf(),
    ensures
        r.wf(),
        r.raw as int == dot_v(u@, v@),
{
    u.x.mul(v.x).add(u.y.mul(v.y)).add(u.z.mul(v.z))
}

pub fn cross(u: Vec3, v: Vec3) -> (r: Vec3)
    requires
        u.wf(),
        v.wf(),
    ensures
        r.wf(),
        r@ == cross_v(u@, v@),
{
    Vec3 {
        x: u.y.mul(v.z).sub(u.z.mul(v.y)),
        y: u.z.mul(v.x).sub(u.x.mul(v.z)),
        z: u.x.mul(v.y).sub(u.y.mul(v.x)),
    }
}

/// Law: the dot product does not depend on the operand order.
pub proof fn lemma_dot_comm(a: V3i, b: V3i)
    ensures
        dot_v(a, b) == dot_v(b, a),
{
    lemma_fx_mul_comm(a.x, b.x);
    lemma_fx_mul_comm(a.y, b.y);
    lemma_fx_mul_comm(a.z, b.z);
}

/// Law: swapping the operands of the cross product negates it.
pub proof fn lemma_cross_antisym(a: V3i, b: V3i)
    ensures
        cross_v(b, a) == vneg_v(cross_v(a, b)),
{
    lemma_fx_mul_comm(a.y, b.z);
    lemma_fx_mul_comm(a.z, b.y);
    lemma_fx_mul_comm(a.z, b.x);
    lemma_fx_mul_comm(a.x, b.z);
    lemma_fx_mul_comm(a.x, b.y);
    lemma_fx_mul_comm(a.y, b.x);
    lemma_fx_sub_antisym(fx_mul_v(a.y, b.z), fx_mul_v(a.z, b.y));
    lemma_fx_sub_antisym(fx_mul_v(a.z, b.x), fx_mul_v(a.x, b.z));
    lemma_fx_sub_antisym(fx_mul_v(a.x, b.y), fx_mul_v(a.y, b.x));
}

/// Law: the squared length is the dot product of a vector with itself.
pub proof fn lemma_len2_is_dot(a: V3i)
    ensures
        len2_v(a) == dot_v(a, a),
{
}

} // verus!

