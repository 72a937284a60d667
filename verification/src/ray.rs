//! Rays: an origin point plus a direction vector, with the
//! point-at-parameter evaluator.  Directions need not be normalized, and
//! `t` may be any scalar; callers constrain valid ranges.

use vstd::prelude::*;
use crate::fx::Fx;
use crate::vec3::{Vec3, V3i, v3i, vwf, vadd_v, vscale_v};

verus! {

/// The model of a ray.
pub ghost struct RayV {
    pub orig: V3i,
    pub dir: V3i,
}

pub open spec fn ray_wf(r: RayV) -> bool {
    vwf(r.orig) && vwf(r.dir)
}

/// The point at parameter `t`: origin + direction * t.
pub open spec fn ray_at_v(r: RayV, t: int) -> V3i {
    vadd_v(r.orig, vscale_v(r.dir, t))
}

#[derive(Clone, Copy, PartialEq, Eq, Structural, Debug)]
pub struct Ray {
    pub origin: Vec3,
    pub direction: Vec3,
}

impl View for Ray {
    type V = RayV;

    open spec fn view(&self) -> RayV {
        RayV { orig: self.origin@, dir: self.direction@ }
    }
}

impl Ray {
    pub open spec fn wf(self) -> bool {
        ray_wf(self@)
    }

    pub fn new(origin: Vec3, direction: Vec3) -> (r: Ray)
        ensures
            r@.orig == origin@,
            r@.dir == direction@,
            origin.wf() && direction.wf() ==> r.wf(),
    {
        Ray { origin, direction }
    }

    pub fn at(self, t: Fx) -> (p: Vec3)
        requires
            self.wf(),
            t.wf(),
        ensures
            p.wf(),
            p@ == ray_at_v(self@, t.raw as int),
    {
        self.origin.add(self.direction.mul_s(t))
    }
}

impl Default for Ray {
    /// The degenerate ray resting at the origin.
    fn default() -> (r: Ray)
        ensures
            r@.orig == v3i(0, 0, 0),
            r@.dir == v3i(0, 0, 0),
            r.wf(),
    {
        Ray { origin: Vec3::zero(), direction: Vec3::zero() }
    }
}

} // verus!
