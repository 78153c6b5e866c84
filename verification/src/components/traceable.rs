//! The scene: a group of spheres resolved to the nearest hit by a linear
//! scan that narrows the admissible trace interval as it goes.

use vstd::prelude::*;

use crate::components::ray::{ray_wf, Ray, RayV, BOUND_TRACE};
use crate::components::sphere::{sphere_hit, sphere_wf, Sphere, SphereV};
use crate::fx::Fx;
use crate::types::hit_record::{hit_wf, HitRecord, HitRecordV};
use crate::types::material::material_wf;
use crate::types::vec3::lensq3;

verus! {

/// The view of an optional hit record.
pub open spec fn opt_hit_view(o: Option<HitRecord>) -> Option<HitRecordV> {
    match o {
        Some(h) => Some(h@),
        None => None,
    }
}

/// Every member fits the representable scene box.
pub open spec fn group_wf(objs: Seq<SphereV>) -> bool {
    forall|i: int| 0 <= i < objs.len() ==> sphere_wf(#[trigger] objs[i])
}

/// The scan state after some members were tried: `closest` is the narrowed
/// upper trace bound and `acc` the best hit so far.
pub open spec fn group_scan(
    objs: Seq<SphereV>,
    r: RayV,
    min_trace: int,
    closest: int,
    acc: Option<HitRecordV>,
) -> Option<HitRecordV>
    decreases objs.len(),
{
    if objs.len() == 0 {
        acc
    } else {
        let h = sphere_hit(objs[0], r, min_trace, closest);
        if h is Some {
            group_scan(objs.skip(1), r, min_trace, h->0.trace, Some(h->0))
        } else {
            group_scan(objs.skip(1), r, min_trace, closest, acc)
        }
    }
}

/// The overall nearest hit of the group over `[min_trace, max_trace]`.
pub open spec fn group_hit(objs: Seq<SphereV>, r: RayV, min_trace: int, max_trace: int) -> Option<
    HitRecordV,
> {
    if objs.len() == 0 {
        None
    } else {
        group_scan(objs, r, min_trace, max_trace, None)
    }
}

/// An ordered collection of spheres; the render result does not depend on
/// the order.
pub struct TraceableGroup {
    pub objects: Vec<Sphere>,
}

impl View for TraceableGroup {
    type V = Seq<SphereV>;

    open spec fn view(&self) -> Seq<SphereV> {
        self.objects@.map_values(|s: Sphere| s@)
    }
}

impl TraceableGroup {
    /// Remove every member.
    pub fn clear(&mut self)
        ensures
            final(self)@.len() == 0,
    {
        self.objects.clear();
    }

    /// Append a member.
    pub fn add(&mut self, object: Sphere)
        ensures
            final(self)@ == old(self)@.push(object@),
    {
        self.objects.push(object);
        proof {
            assert(self@ =~= old(self)@.push(object@));
        }
    }

    /// The nearest hit among all members, or nothing. The scan keeps the
    /// closest trace found so far as the upper bound for later members, so
    /// nearest-hit-wins needs no sort.
    pub fn intersects_ray(&self, ray: &Ray, min_trace: Fx, max_trace: Fx) -> (r: Option<HitRecord>)
        requires
            group_wf(self@),
            ray_wf(ray@),
            lensq3(ray@.direction) >= 1,
            -(BOUND_TRACE as int) <= min_trace@ <= BOUND_TRACE as int,
            -(BOUND_TRACE as int) <= max_trace@ <= BOUND_TRACE as int,
        ensures
            opt_hit_view(r) == group_hit(self@, ray@, min_trace@, max_trace@),
            r is Some ==> hit_wf(r->0@) && material_wf(r->0@.material) && min_trace@ <= r->0@.trace
                <= max_trace@,
    {
        if self.objects.len() == 0 {
            return None;
        }

        let mut hit_record: Option<HitRecord> = None;

        let mut any_intersect = false;
        let mut closest_intersect = max_trace;

        let mut i: usize = 0;
        proof {
            assert(self@.skip(0) =~= self@);
        }
        while i < self.objects.len()
            invariant
                0 <= i <= self.objects.len(),
                self@.len() == self.objects@.len(),
                group_wf(self@),
                ray_wf(ray@),
                lensq3(ray@.direction) >= 1,
                -(BOUND_TRACE as int) <= min_trace@ <= BOUND_TRACE as int,
                -(BOUND_TRACE as int) <= max_trace@ <= BOUND_TRACE as int,
                closest_intersect@ <= max_trace@,
                -(BOUND_TRACE as int) <= closest_intersect@ <= BOUND_TRACE as int,
                any_intersect == (hit_record is Some),
                hit_record is Some ==> hit_wf(hit_record->0@) && material_wf(
                    hit_record->0@.material,
                ) && min_trace@ <= hit_record->0@.trace <= max_trace@ && closest_intersect@
                    == hit_record->0@.trace,
                !any_intersect ==> closest_intersect@ == max_trace@,
                group_scan(
                    self@.skip(i as int),
                    ray@,
                    min_trace@,
                    closest_intersect@,
                    opt_hit_view(hit_record),
                ) == group_scan(self@, ray@, min_trace@, max_trace@, None),
            decreases self.objects.len() - i,
        {
            let object = &self.objects[i];
            proof {
                assert(self@[i as int] == object@);
                assert(sphere_wf(self@[i as int]));
                assert(self@.skip(i as int)[0] == self@[i as int]);
                assert(self@.skip(i as int).skip(1) =~= self@.skip(i as int + 1));
            }
            let this_hit_record = object.intersects_ray(ray, min_trace, closest_intersect);
            if this_hit_record.is_some() {
                any_intersect = true;
                closest_intersect = this_hit_record.as_ref().unwrap().trace();

                hit_record = this_hit_record;
            }
            i = i + 1;
        }

        return if any_intersect {
            hit_record
        } else {
            None
        };
    }
}

} // verus!
