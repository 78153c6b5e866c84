//! Spheres, the one primitive, with the quadratic intersection test.

use vstd::prelude::*;

use crate::components::ray::{ray_at, ray_wf, Ray, RayV, BOUND_DIR, BOUND_POINT, BOUND_TRACE};
use crate::fx::{
    fxdiv, fxmul, fxsqrt, lemma_fxmul_bound, Fx, ONE_BITS,
};
use crate::types::hit_record::{hit_wf, HitRecord, HitRecordV};
use crate::types::material::{material_wf, Material};
use crate::types::vec3::{
    bounded3, dot3, lemma_dot3_bound, lemma_fxsqrt_bound, lensq3, negv, subv, Vec3, Vec3V,
};

verus! {

/// Magnitude bound on the step counts of a sphere center (16384 units).
pub const BOUND_CENTER: i128 = 70368744177664;

/// Magnitude bound on the step count of a sphere radius (16384 units).
pub const BOUND_RADIUS: i128 = 70368744177664;

/// Mathematical image of a sphere.
pub ghost struct SphereV {
    pub center: Vec3V,
    pub radius: int,
    pub material: Material,
}

/// A sphere that fits the representable scene box, with a positive radius
/// and meaningful material parameters.
pub open spec fn sphere_wf(s: SphereV) -> bool {
    &&& bounded3(s.center, BOUND_CENTER as int)
    &&& 0 < s.radius <= BOUND_RADIUS as int
    &&& material_wf(s.material)
}

/// The hit record built at trace distance `root`: the world point, the
/// outward normal `(point - center) / radius`, and the front-face
/// orientation. A hit whose point or normal falls outside the representable
/// box is reported as a miss.
pub open spec fn sphere_hit_at(s: SphereV, r: RayV, root: int) -> Option<HitRecordV> {
    let point = ray_at(r, root);
    let out = Vec3V {
        x: fxdiv(point.x - s.center.x, s.radius),
        y: fxdiv(point.y - s.center.y, s.radius),
        z: fxdiv(point.z - s.center.z, s.radius),
};
    if bounded3(point, BOUND_POINT as int) && bounded3(out, 2 * ONE_BITS as int) {
        let front = dot3(r.direction, out) < 0;
        Some(
            HitRecordV {
                trace: root,
                point: point,
                normal: if front {
                    out
                } else {
                    negv(out)
                },
                front_face: front,
                material: s.material,
            },
        )
    } else {
        None
    }
}

/// The intersection test: solve the quadratic, take the smaller root if it
/// lies in `[min_trace, max_trace]`, retry the larger root, and build the
/// hit record at the accepted root.
pub open spec fn sphere_hit(s: SphereV, r: RayV, min_trace: int, max_trace: int) -> Option<
    HitRecordV,
> {
    let oc = subv(r.origin, s.center);
    let a = lensq3(r.direction);
    let b = dot3(oc, r.direction);
    let c = lensq3(oc) - fxmul(s.radius, s.radius);
    let disc = fxmul(b, b) - fxmul(a, c);
    if disc < 0 {
        None
    } else {
        let sd = fxsqrt(disc);
        let root1 = fxdiv(-b - sd, a);
        if !(root1 < min_trace || max_trace < root1) {
            sphere_hit_at(s, r, root1)
        } else {
            let root2 = fxdiv(-b + sd, a);
            if !(root2 < min_trace || max_trace < root2) {
                sphere_hit_at(s, r, root2)
            } else {
                None
            }
        }
    }
}

/// A sphere: center, radius and the material on its surface.
#[derive(Clone, Copy, Debug)]
pub struct Sphere {
    pub d_center: Vec3,
    pub d_radius: Fx,
    pub d_material: Material,
}

impl View for Sphere {
    type V = SphereV;

    open spec fn view(&self) -> SphereV {
        SphereV { center: self.d_center@, radius: self.d_radius@, material: self.d_material }
    }
}

impl Sphere {
    /// A sphere must have positive radius; construction fails otherwise,
    /// it never clamps.
    pub fn new(center: &Vec3, radius: Fx, material: Material) -> (r: Result<
        Sphere,
        &'static str,
    >)
        ensures
            (r is Ok) == (radius@ > 0),
            r is Ok ==> r->Ok_0@ == (SphereV { center: center@, radius: radius@, material }),
    {
        if radius.le(Fx::zero()) {
            return Err("Sphere radius must be greater than 0");
        }
        Ok(Sphere { d_center: *center, d_radius: radius, d_material: material })
    }

    pub fn center(&self) -> (r: &Vec3)
        ensures
            r@ == self@.center,
    {
        &self.d_center
    }

    pub fn radius(&self) -> (r: Fx)
        ensures
            r@ == self@.radius,
    {
        self.d_radius
    }

    /// Intersect `ray` with this sphere over `[min_trace, max_trace]`,
    /// returning the nearest admissible hit.
    pub fn intersects_ray(&self, ray: &Ray, min_trace: Fx, max_trace: Fx) -> (r: Option<HitRecord>)
        requires
            sphere_wf(self@),
            ray_wf(ray@),
            lensq3(ray@.direction) >= 1,
            -(BOUND_TRACE as int) <= min_trace@ <= BOUND_TRACE as int,
            -(BOUND_TRACE as int) <= max_trace@ <= BOUND_TRACE as int,
        ensures
            (r is Some) == (sphere_hit(self@, ray@, min_trace@, max_trace@) is Some),
            r is Some ==> r->0@ == sphere_hit(self@, ray@, min_trace@, max_trace@)->0,
            r is Some ==> hit_wf(r->0@) && r->0@.material == self@.material && min_trace@ <= r->0@.trace
                <= max_trace@,
    {
        let ray_trace = (*ray.origin()).sub(*self.center());
        proof {
            lemma_dot3_bound(ray@.direction, ray@.direction, BOUND_DIR as int, BOUND_DIR as int);
            lemma_dot3_bound(ray_trace@, ray@.direction, 211106232532992, BOUND_DIR as int);
            lemma_dot3_bound(ray_trace@, ray_trace@, 211106232532992, 211106232532992);
            lemma_fxmul_bound(self@.radius, self@.radius, BOUND_RADIUS as int,
                BOUND_RADIUS as int);
        }
        let a = ray.direction().len_squared();
        let b = ray_trace.dot(ray.direction());
        let c = ray_trace.len_squared().sub(self.radius().mul(self.radius()));
        proof {
            lemma_fxmul_bound(b@, b@, 5188146770730811392, 5188146770730811392);
            lemma_fxmul_bound(a@, c@, 864691128455135232, 32281802129091715072);
        }
        let discriminant = b.mul(b).sub(a.mul(c));
        if discriminant.lt(Fx::zero()) {
            return None;
        }

        let sd = discriminant.sqrt();
        proof {
            lemma_fxsqrt_bound(discriminant@, 7493989779944505344);
        }
        let mut root = b.neg().sub(sd).div(a);
        if root.lt(min_trace) || max_trace.lt(root) {
            root = b.neg().add(sd).div(a);
            if root.lt(min_trace) || max_trace.lt(root) {
                return None;
            }
        }

        proof {
            lemma_fxmul_bound(ray@.direction.x, root@, BOUND_DIR as int, BOUND_TRACE as int);
            lemma_fxmul_bound(ray@.direction.y, root@, BOUND_DIR as int, BOUND_TRACE as int);
            lemma_fxmul_bound(ray@.direction.z, root@, BOUND_DIR as int, BOUND_TRACE as int);
        }
        let point = ray.at(root);
        let diff = point.sub(*self.center());
        let outward = Vec3::new(
            diff.x().div(self.radius()),
            diff.y().div(self.radius()),
            diff.z().div(self.radius()),
        );
        if !point.in_bounds(BOUND_POINT) || !outward.in_bounds(8589934592) {
            return None;
        }

        let mut hit_record = HitRecord::new(root, point, outward, false, &self.d_material);
        hit_record.set_face_normal(ray, &outward);
        Some(hit_record)
    }
}

} // verus!
