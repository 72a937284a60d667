//! The camera model: an orthonormal frame derived once from look-from /
//! look-at / up, a viewport sized by the vertical field of view and the
//! aspect ratio, scaled to the focus plane, and a lens radius for
//! depth-of-field sampling.

use vstd::prelude::*;
use crate::fx::{Fx, FX_ONE, fx_wf, fx_add_v, fx_sub_v, fx_mul_v, fx_div_v, abs_i};
use crate::vec3::{Vec3, V3i, vwf, vadd_v, vsub_v, vscale_v, vdivs_v, cross_v, unit_v, len2_v, cross};
use crate::ray::{Ray, RayV};
use crate::rng::RandomSource;

verus! {

/// Pi in raw scalar units.
pub const FX_PI: i64 = 205887;

/// Degrees to radians: multiply by pi, divide by 180.
pub open spec fn deg2rad_v(deg: int) -> int {
    fx_div_v(fx_mul_v(deg, FX_PI as int), 180 * FX_ONE)
}

pub fn degrees_to_radians(degrees: Fx) -> (r: Fx)
    requires
        degrees.wf(),
    ensures
        r.wf(),
        r.raw as int == deg2rad_v(degrees.raw as int),
{
    degrees.mul(Fx { raw: FX_PI }).div(Fx { raw: 180 * FX_ONE })
}

/// Sine by its degree-5 Taylor polynomial: `x - x^3/6 + x^5/120`.
pub open spec fn sin_v(x: int) -> int {
    let x2 = fx_mul_v(x, x);
    let x3 = fx_mul_v(x2, x);
    let x5 = fx_mul_v(x3, x2);
    fx_add_v(fx_sub_v(x, fx_div_v(x3, 6 * FX_ONE)), fx_div_v(x5, 120 * FX_ONE))
}

/// Cosine by its degree-4 Taylor polynomial: `1 - x^2/2 + x^4/24`.
pub open spec fn cos_v(x: int) -> int {
    let x2 = fx_mul_v(x, x);
    let x4 = fx_mul_v(x2, x2);
    fx_add_v(fx_sub_v(FX_ONE as int, fx_div_v(x2, 2 * FX_ONE)), fx_div_v(x4, 24 * FX_ONE))
}

/// Tangent as the quotient of the two polynomials.
pub open spec fn tan_v(x: int) -> int {
    fx_div_v(sin_v(x), cos_v(x))
}

/// On `[0, pi/2]` (raw `[0, 102944]`) the cosine polynomial stays
/// positive, so the tangent's division is defined for half-angles of any
/// field of view below 180 degrees.  The bound comes from the polynomial
/// itself: `1 - u/2 + u^2/24` (in `u = x^2`) dips no lower than about
/// 0.02 at the right end, which survives the truncation losses.
pub proof fn lemma_cos_pos(x: int)
    requires
        0 <= x <= 102944,
    ensures
        cos_v(x) > 0,
{
    let u = fx_mul_v(x, x);
    assert(abs_i(x) * abs_i(x) <= 102944 * 102944) by (nonlinear_arith)
        requires
            0 <= abs_i(x) <= 102944,
    ;
    assert(abs_i(x) * abs_i(x) >= 0) by (nonlinear_arith);
    assert(0 <= u <= 161704);
    let t2 = fx_div_v(u, 2 * FX_ONE);
    assert(abs_i(2 * FX_ONE) == 131072);
    assert(abs_i(u) * (FX_ONE as int) == 65536 * u) by (nonlinear_arith)
        requires
            abs_i(u) == u,
            FX_ONE as int == 65536,
    ;
    assert(0 <= t2 <= 80852);
    assert(2 * t2 <= u);
    let x4 = fx_mul_v(u, u);
    assert(abs_i(u) * abs_i(u) >= 0) by (nonlinear_arith);
    assert(abs_i(u) * abs_i(u) <= 161704 * 161704) by (nonlinear_arith)
        requires
            0 <= abs_i(u) <= 161704,
    ;
    assert(0 <= x4 <= 398991);
    assert(65536 * x4 + 65535 >= abs_i(u) * abs_i(u));
    let t4 = fx_div_v(x4, 24 * FX_ONE);
    assert(abs_i(24 * FX_ONE) == 1572864);
    assert(abs_i(x4) * (FX_ONE as int) == 65536 * x4) by (nonlinear_arith)
        requires
            abs_i(x4) == x4,
            FX_ONE as int == 65536,
    ;
    assert(0 <= t4 <= 16700);
    assert(1572864 * t4 + 1572863 >= 65536 * x4);
    assert(24 * 65536 * 65536 - 12 * 65536 * u + abs_i(u) * abs_i(u) >= 24 * 65536 * 1300)
        by (nonlinear_arith)
        requires
            0 <= u <= 161704,
            abs_i(u) == u,
    ;
    assert(1572864 * t2 <= 786432 * u);
    assert(1572864 * t4 >= 65536 * x4 - 1572863);
    assert(65536 * x4 >= abs_i(u) * abs_i(u) - 65535);
    assert(abs_i(u) * abs_i(u) >= 786432 * u - 24 * 65536 * 65536 + 24 * 65536 * 1300);
    assert(1572864 * (65536 - t2 + t4) > 0);
    assert(cos_v(x) == fx_add_v(fx_sub_v(FX_ONE as int, t2), t4));
    assert(cos_v(x) > 0);
}

fn sin_poly(x: Fx) -> (r: Fx)
    requires
        x.wf(),
    ensures
        r.wf(),
        r.raw as int == sin_v(x.raw as int),
{
    let x2 = x.mul(x);
    let x3 = x2.mul(x);
    let x5 = x3.mul(x2);
    x.sub(x3.div(Fx { raw: 6 * FX_ONE })).add(x5.div(Fx { raw: 120 * FX_ONE }))
}

fn cos_poly(x: Fx) -> (r: Fx)
    requires
        x.wf(),
    ensures
        r.wf(),
        r.raw as int == cos_v(x.raw as int),
{
    let x2 = x.mul(x);
    let x4 = x2.mul(x2);
    Fx::one().sub(x2.div(Fx { raw: 2 * FX_ONE })).add(x4.div(Fx { raw: 24 * FX_ONE }))
}

fn tangent(x: Fx) -> (r: Fx)
    requires
        x.wf(),
        0 <= x.raw <= 102944,
    ensures
        r.wf(),
        r.raw as int == tan_v(x.raw as int),
{
    proof {
        lemma_cos_pos(x.raw as int);
    }
    sin_poly(x).div(cos_poly(x))
}

/// The model of a camera: the frame and viewport the constructor derives.
pub ghost struct CameraV {
    pub origin: V3i,
    pub horizontal: V3i,
    pub vertical: V3i,
    pub lower_left: V3i,
    pub u: V3i,
    pub v: V3i,
    pub lens_radius: int,
}

pub open spec fn camera_wf(c: CameraV) -> bool {
    vwf(c.origin) && vwf(c.horizontal) && vwf(c.vertical) && vwf(c.lower_left) && vwf(c.u) && vwf(
        c.v,
    ) && fx_wf(c.lens_radius)
}

/// Everything the constructor computes, as one derivation from its seven
/// parameters.
pub open spec fn camera_v(
    lookfrom: V3i,
    lookat: V3i,
    vup: V3i,
    vfov: int,
    aspect_ratio: int,
    aperture: int,
    focus_dist: int,
) -> CameraV {
    let theta = deg2rad_v(vfov);
    let half_theta = fx_div_v(theta, 2 * FX_ONE);
    let h = tan_v(half_theta);
    let viewport_height = fx_mul_v(2 * FX_ONE, h);
    let viewport_width = fx_mul_v(aspect_ratio, viewport_height);
    let w = unit_v(vsub_v(lookfrom, lookat));
    let u = unit_v(cross_v(vup, w));
    let v = cross_v(w, u);
    let horizontal = vscale_v(u, fx_mul_v(focus_dist, viewport_width));
    let vertical = vscale_v(v, fx_mul_v(focus_dist, viewport_height));
    let lower_left = vsub_v(
        vsub_v(vsub_v(lookfrom, vdivs_v(horizontal, 2 * FX_ONE)), vdivs_v(vertical, 2 * FX_ONE)),
        vscale_v(w, focus_dist),
    );
    CameraV {
        origin: lookfrom,
        horizontal: horizontal,
        vertical: vertical,
        lower_left: lower_left,
        u: u,
        v: v,
        lens_radius: fx_div_v(aperture, 2 * FX_ONE),
    }
}

/// The ray aimed from image-plane coordinates `(s, t)`, given the lens
/// sample `p` that blurs the origin for depth of field.
pub open spec fn get_ray_v(c: CameraV, s: int, t: int, p: V3i) -> RayV {
    let rd = vscale_v(p, c.lens_radius);
    let offset = vadd_v(vscale_v(c.u, rd.x), vscale_v(c.v, rd.y));
    RayV {
        orig: vadd_v(c.origin, offset),
        dir: vsub_v(
            vsub_v(
                vadd_v(vadd_v(c.lower_left, vscale_v(c.horizontal, s)), vscale_v(c.vertical, t)),
                c.origin,
            ),
            offset,
        ),
    }
}

/// A camera: derived basis and viewport, all cached at construction.
#[derive(Clone, Copy, PartialEq, Eq, Structural, Debug)]
pub struct Camera {
    pub origin: Vec3,
    pub horizontal: Vec3,
    pub vertical: Vec3,
    pub lower_left_corner: Vec3,
    pub lens_radius: Fx,
    pub u: Vec3,
    pub v: Vec3,
}

impl View for Camera {
    type V = CameraV;

    open spec fn view(&self) -> CameraV {
        CameraV {
            origin: self.origin@,
            horizontal: self.horizontal@,
            vertical: self.vertical@,
            lower_left: self.lower_left_corner@,
            u: self.u@,
            v: self.v@,
            lens_radius: self.lens_radius.raw as int,
        }
    }
}

/// The half field-of-view angle in radians stays within the cosine
/// polynomial's positive range for any field of view below 180 degrees.
proof fn lemma_half_theta_bound(vfov: int)
    requires
        0 < vfov < 180 * FX_ONE,
    ensures
        0 <= fx_div_v(deg2rad_v(vfov), 2 * FX_ONE) <= 102944,
{
    let m1 = fx_mul_v(vfov, FX_PI as int);
    assert(abs_i(FX_PI as int) == 205887);
    assert(abs_i(vfov) * abs_i(FX_PI as int) <= 11796480 * 205887) by (nonlinear_arith)
        requires
            0 <= abs_i(vfov) <= 11796480,
            abs_i(FX_PI as int) == 205887,
    ;
    assert(abs_i(vfov) * abs_i(FX_PI as int) >= 0) by (nonlinear_arith)
        requires
            abs_i(vfov) >= 0,
            abs_i(FX_PI as int) >= 0,
    ;
    assert(0 <= m1 <= 37059660);
    let rad = fx_div_v(m1, 180 * FX_ONE);
    assert(abs_i(180 * FX_ONE) == 11796480);
    assert(abs_i(m1) * (FX_ONE as int) <= 37059660 * 65536) by (nonlinear_arith)
        requires
            0 <= abs_i(m1) <= 37059660,
            FX_ONE as int == 65536,
    ;
    assert(abs_i(m1) * (FX_ONE as int) >= 0) by (nonlinear_arith)
        requires
            abs_i(m1) >= 0,
            FX_ONE as int == 65536,
    ;
    assert(0 <= rad <= 205887);
    let half = fx_div_v(rad, 2 * FX_ONE);
    assert(abs_i(2 * FX_ONE) == 131072);
    assert(abs_i(rad) * (FX_ONE as int) <= 205887 * 65536) by (nonlinear_arith)
        requires
            0 <= abs_i(rad) <= 205887,
            FX_ONE as int == 65536,
    ;
    assert(abs_i(rad) * (FX_ONE as int) >= 0) by (nonlinear_arith)
        requires
            abs_i(rad) >= 0,
            FX_ONE as int == 65536,
    ;
    assert(0 <= half <= 102944);
}

impl Camera {
    pub open spec fn wf(self) -> bool {
        camera_wf(self@)
    }

    /// Derive the frame and viewport from the seven camera parameters.
    /// The field of view must be in (0, 180) degrees (outside it the
    /// tangent of the half-angle has no value), look-from must differ
    /// from look-at, and the up vector must not be parallel to the view
    /// direction.
    pub fn new(
        lookfrom: Vec3,
        lookat: Vec3,
        vup: Vec3,
        vfov: Fx,
        aspect_ratio: Fx,
        aperture: Fx,
        focus_dist: Fx,
    ) -> (cam: Camera)
        requires
            lookfrom.wf(),
            lookat.wf(),
            vup.wf(),
            vfov.wf(),
            aspect_ratio.wf(),
            aperture.wf(),
            focus_dist.wf(),
            0 < vfov.raw < 180 * FX_ONE,
            len2_v(vsub_v(lookfrom@, lookat@)) > 0,
            len2_v(cross_v(vup@, unit_v(vsub_v(lookfrom@, lookat@)))) > 0,
        ensures
            cam.wf(),
            cam@ == camera_v(
                lookfrom@,
                lookat@,
                vup@,
                vfov.raw as int,
                aspect_ratio.raw as int,
                aperture.raw as int,
                focus_dist.raw as int,
            ),
    {
        proof {
            lemma_half_theta_bound(vfov.raw as int);
        }
        let two = Fx { raw: 2 * FX_ONE };
        let theta = degrees_to_radians(vfov);
        let half_theta = theta.div(two);
        let h = tangent(half_theta);
        let viewport_height = two.mul(h);
        let viewport_width = aspect_ratio.mul(viewport_height);

        let w = Vec3::unit_vector(lookfrom.sub(lookat));
        let u = Vec3::unit_vector(cross(vup, w));
        let v = cross(w, u);

        let origin = lookfrom;
        let horizontal = u.mul_s(focus_dist.mul(viewport_width));
        let vertical = v.mul_s(focus_dist.mul(viewport_height));
        let lower_left_corner = origin.sub(horizontal.div_s(two)).sub(vertical.div_s(two)).sub(
            w.mul_s(focus_dist),
        );

        let lens_radius = aperture.div(two);
        Camera { origin, horizontal, vertical, lower_left_corner, lens_radius, u, v }
    }

    /// The checked constructor: screens the parameters a verified caller
    /// cannot easily establish by proof -- the field-of-view range, a
    /// non-degenerate view direction, and an up vector off the view axis
    /// -- and derives the camera exactly when they hold.
    pub fn try_new(
        lookfrom: Vec3,
        lookat: Vec3,
        vup: Vec3,
        vfov: Fx,
        aspect_ratio: Fx,
        aperture: Fx,
        focus_dist: Fx,
    ) -> (r: Option<Camera>)
        requires
            lookfrom.wf(),
            lookat.wf(),
            vup.wf(),
            vfov.wf(),
            aspect_ratio.wf(),
            aperture.wf(),
            focus_dist.wf(),
        ensures
            match r {
                Some(cam) => cam.wf() && cam@ == camera_v(
                    lookfrom@,
                    lookat@,
                    vup@,
                    vfov.raw as int,
                    aspect_ratio.raw as int,
                    aperture.raw as int,
                    focus_dist.raw as int,
                ),
                None => !(0 < vfov.raw < 180 * FX_ONE) || len2_v(vsub_v(lookfrom@, lookat@)) == 0
                    || len2_v(cross_v(vup@, unit_v(vsub_v(lookfrom@, lookat@)))) == 0,
            },
    {
        if vfov.raw <= 0 || vfov.raw >= 180 * FX_ONE {
            return None;
        }
        let d = lookfrom.sub(lookat);
        if d.length_squared().raw == 0 {
            return None;
        }
        let w = Vec3::unit_vector(d);
        let c = cross(vup, w);
        if c.length_squared().raw == 0 {
            return None;
        }
        Some(Camera::new(lookfrom, lookat, vup, vfov, aspect_ratio, aperture, focus_dist))
    }

    /// The view ray for image-plane coordinates `(s, t)`, its origin
    /// jittered across the lens aperture: it matches `get_ray_v` for some
    /// unit-disk sample.
    pub fn get_ray(&self, s: Fx, t: Fx, rng: &mut RandomSource) -> (r: Ray)
        requires
            self.wf(),
            s.wf(),
            t.wf(),
        ensures
            r.wf(),
            exists|p: V3i|
                vwf(p) && len2_v(p) < FX_ONE && p.z == 0 && r@ == #[trigger] get_ray_v(
                    self@,
                    s.raw as int,
                    t.raw as int,
                    p,
                ),
    {
        let sample = Vec3::random_in_unit_disk(rng);
        let rd = sample.mul_s(self.lens_radius);
        let offset = self.u.mul_s(rd.x).add(self.v.mul_s(rd.y));
        let dir = self.lower_left_corner.add(self.horizontal.mul_s(s)).add(
            self.vertical.mul_s(t),
        ).sub(self.origin).sub(offset);
        let r = Ray::new(self.origin.add(offset), dir);
        proof {
            assert(r@ == get_ray_v(self@, s.raw as int, t.raw as int, sample@));
        }
        r
    }
}

} // verus!
