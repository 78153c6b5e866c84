//! The transient result of an intersection test.

use vstd::prelude::*;

use crate::components::ray::{Ray, BOUND_POINT, BOUND_TRACE};
use crate::fx::{Fx, ONE_BITS};
use crate::types::material::Material;
use crate::types::vec3::{bounded3, dot3, negv, Vec3, Vec3V, BOUND_COARSE};

verus! {

pub type Point3 = Vec3;

/// Mathematical image of a hit record.
pub ghost struct HitRecordV {
    pub trace: int,
    pub point: Vec3V,
    pub normal: Vec3V,
    pub front_face: bool,
    pub material: Material,
}

/// A hit whose trace, point and oriented normal stay within the
/// representable scene box; every hit an intersection test hands out
/// satisfies this.
pub open spec fn hit_wf(h: HitRecordV) -> bool {
    &&& -(BOUND_TRACE as int) <= h.trace <= BOUND_TRACE as int
    &&& bounded3(h.point, BOUND_POINT as int)
    &&& bounded3(h.normal, 2 * ONE_BITS as int)
}

/// Result of an intersection test: trace distance, world point, oriented
/// normal, the front-face flag, and the material at the hit point.
#[derive(Clone, Copy, Debug)]
pub struct HitRecord {
    pub d_trace: Fx,
    pub d_point: Point3,
    pub d_normal: Vec3,
    pub d_front_face: bool,
    pub d_material: Material,
}

impl View for HitRecord {
    type V = HitRecordV;

    open spec fn view(&self) -> HitRecordV {
        HitRecordV {
            trace: self.d_trace@,
            point: self.d_point@,
            normal: self.d_normal@,
            front_face: self.d_front_face,
            material: self.d_material,
        }
    }
}

impl HitRecord {
    pub fn new(trace: Fx, point: Point3, normal: Vec3, front_face: bool, material: &Material) -> (r:
        HitRecord)
        ensures
            r@ == (HitRecordV {
                trace: trace@,
                point: point@,
                normal: normal@,
                front_face,
                material: *material,
            }),
    {
        HitRecord {
            d_trace: trace,
            d_point: point,
            d_normal: normal,
            d_front_face: front_face,
            d_material: *material,
        }
    }

    /// Orient the stored normal against the incoming ray: the front-face
    /// flag records whether the outward normal already opposed it.
    pub fn set_face_normal(&mut self, ray: &Ray, outward_normal: &Vec3)
        requires
            bounded3(ray@.direction, BOUND_COARSE as int),
            bounded3(outward_normal@, BOUND_COARSE as int),
        ensures
            final(self)@.front_face == (dot3(ray@.direction, outward_normal@) < 0),
            final(self)@.normal == if dot3(ray@.direction, outward_normal@) < 0 {
                outward_normal@
            } else {
                negv(outward_normal@)
            },
            final(self)@.trace == old(self)@.trace,
            final(self)@.point == old(self)@.point,
            final(self)@.material == old(self)@.material,
    {
        let d = ray.direction().dot(outward_normal);
        self.d_front_face = d.lt(Fx::zero());
        self.d_normal = if self.d_front_face {
            *outward_normal
        } else {
            outward_normal.neg()
        };
    }

    pub fn trace(&self) -> (r: Fx)
        ensures
            r@ == self@.trace,
    {
        self.d_trace
    }

    pub fn point(&self) -> (r: &Point3)
        ensures
            r@ == self@.point,
    {
        &self.d_point
    }

    pub fn normal(&self) -> (r: &Vec3)
        ensures
            r@ == self@.normal,
    {
        &self.d_normal
    }

    pub fn is_front_facing(&self) -> (r: bool)
        ensures
            r == self@.front_face,
    {
        self.d_front_face
    }

    pub fn material(&self) -> (r: &Material)
        ensures
            r == self@.material,
    {
        &self.d_material
    }
}

} // verus!
