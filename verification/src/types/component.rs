//! A bare sphere without material or trace bounds: the intersection test
//! alone, answering with the smaller quadratic root.

use vstd::prelude::*;

use crate::components::ray::{ray_wf, Ray, RayV, BOUND_DIR};
use crate::fx::{fxdiv, fxmul, fxsqrt, lemma_fxmul_bound, Fx};
use crate::types::vec3::{
    bounded3, dot3, lemma_dot3_bound, lemma_fxsqrt_bound, lensq3, subv, Vec3, Vec3V,
};

verus! {

/// Magnitude bound on the step counts of a center (16384 units).
pub const BOUND_BARE_CENTER: i128 = 70368744177664;

/// Magnitude bound on the step count of a radius (16384 units).
pub const BOUND_BARE_RADIUS: i128 = 70368744177664;

/// The bare intersection answer: the smaller root of the quadratic, or
/// nothing when the discriminant is negative.
pub open spec fn component_hit(center: Vec3V, radius: int, r: RayV) -> Option<int> {
    let oc = subv(r.origin, center);
    let a = lensq3(r.direction);
    let b = dot3(oc, r.direction);
    let c = lensq3(oc) - fxmul(radius, radius);
    let disc = fxmul(b, b) - fxmul(a, c);
    if disc < 0 {
        None
    } else {
        Some(fxdiv(-b - fxsqrt(disc), a))
    }
}

/// Mathematical image of a bare sphere.
pub ghost struct BareSphereV {
    pub center: Vec3V,
    pub radius: int,
}

/// A bare sphere that fits the representable scene box.
pub open spec fn bare_sphere_wf(s: BareSphereV) -> bool {
    &&& bounded3(s.center, BOUND_BARE_CENTER as int)
    &&& 0 < s.radius <= BOUND_BARE_RADIUS as int
}

/// A sphere reduced to its geometry.
#[derive(Clone, Copy, Debug)]
pub struct Sphere {
    pub d_center: Vec3,
    pub d_radius: Fx,
}

impl View for Sphere {
    type V = BareSphereV;

    open spec fn view(&self) -> BareSphereV {
        BareSphereV { center: self.d_center@, radius: self.d_radius@ }
    }
}

impl Sphere {
    /// A sphere must have positive radius; construction fails otherwise,
    /// it never clamps.
    pub fn new(center: &Vec3, radius: Fx) -> (r: Result<Sphere, &'static str>)
        ensures
            (r is Ok) == (radius@ > 0),
            r is Ok ==> r->Ok_0.d_center@ == center@ && r->Ok_0.d_radius@ == radius@,
    {
        if radius.le(Fx::zero()) {
            return Err("Sphere radius must be greater than 0");
        }
        Ok(Sphere { d_center: *center, d_radius: radius })
    }

    pub fn center(&self) -> (r: &Vec3)
        ensures
            r@ == self.d_center@,
    {
        &self.d_center
    }

    pub fn radius(&self) -> (r: Fx)
        ensures
            r@ == self.d_radius@,
    {
        self.d_radius
    }

    /// The smaller root of the intersection quadratic along `ray`, or
    /// nothing when the ray's line misses the sphere. The root may be
    /// negative: this test has no trace interval.
    pub fn intersects_ray(&self, ray: &Ray) -> (r: Option<Fx>)
        requires
            bounded3(self.d_center@, BOUND_BARE_CENTER as int),
            0 < self.d_radius@ <= BOUND_BARE_RADIUS as int,
            ray_wf(ray@),
            lensq3(ray@.direction) >= 1,
        ensures
            (r is Some) == (component_hit(self.d_center@, self.d_radius@, ray@) is Some),
            r is Some ==> r->0@ == component_hit(self.d_center@, self.d_radius@, ray@)->0,
    {
        let ray_trace = (*ray.origin()).sub(*self.center());
        proof {
            lemma_dot3_bound(ray@.direction, ray@.direction, BOUND_DIR as int, BOUND_DIR as int);
            lemma_dot3_bound(ray_trace@, ray@.direction, 211106232532992, BOUND_DIR as int);
            lemma_dot3_bound(ray_trace@, ray_trace@, 211106232532992, 211106232532992);
            lemma_fxmul_bound(self.d_radius@, self.d_radius@, BOUND_BARE_RADIUS as int,
                BOUND_BARE_RADIUS as int);
        }
        let a = ray.direction().len_squared();
        let b = ray_trace.dot(ray.direction());
        let c = ray_trace.len_squared().sub(self.radius().mul(self.radius()));
        proof {
            lemma_fxmul_bound(b@, b@, 5188146770730811392, 5188146770730811392);
            lemma_fxmul_bound(a@, c@, 864691128455135232, 32281802129091715072);
        }
        let discriminant = b.mul(b).sub(a.mul(c));
        if discriminant.lt(Fx::zero()) {
            None
        } else {
            proof {
                lemma_fxsqrt_bound(discriminant@, 7493989779944505344);
            }
            let sd = discriminant.sqrt();
            Some(b.neg().sub(sd).div(a))
        }
    }
}

} // verus!
