//! Algebraic laws of the vector arithmetic and the intersection engine,
//! proved once over all inputs.

use vstd::prelude::*;

use crate::components::ray::RayV;
use crate::components::sphere::{sphere_hit, SphereV};
use crate::components::traceable::{group_hit, group_scan};
use crate::fx::{
    fxdiv, fxmul, fxsqrt, lemma_fxmul_one, lemma_tdiv, lemma_tdiv_monotone, tdiv, ONE_BITS, SCALE,
};
use crate::types::component::component_hit;
use crate::types::hit_record::HitRecordV;
use crate::types::vec3::{
    addv, cross3, dot3, lemma_fxsqrt_zero, lemma_lensq_nonneg, lemma_square_nonneg, lensq3,
    scalev, subv, unitv, zerov, Vec3V,
};

verus! {

/// Scaling by one returns the vector unchanged.
pub proof fn lemma_scaled_one(v: Vec3V)
    ensures
        scalev(v, ONE_BITS as int) == v,
{
    lemma_fxmul_one(v.x);
    lemma_fxmul_one(v.y);
    lemma_fxmul_one(v.z);
}

/// Scaling by zero returns the zero vector.
pub proof fn lemma_scaled_zero(v: Vec3V)
    ensures
        scalev(v, 0) == zerov(),
{
    assert(v.x * 0 == 0 && v.y * 0 == 0 && v.z * 0 == 0) by (nonlinear_arith);
}

/// One component of the linearity law: multiplying a scalar by a sum of
/// factors agrees with the sum of the products to within one grid step.
proof fn lemma_fxmul_add_within_step(x: int, a: int, b: int)
    ensures
        -1 <= fxmul(x, a + b) - (fxmul(x, a) + fxmul(x, b)) <= 1,
{
    let p = x * a;
    let q = x * b;
    assert(x * (a + b) == p + q) by (nonlinear_arith)
        requires
            p == x * a,
            q == x * b,
    ;
    lemma_tdiv(p, SCALE as int);
    lemma_tdiv(q, SCALE as int);
    lemma_tdiv(p + q, SCALE as int);
    assert(-1 <= tdiv(p + q, SCALE as int) - (tdiv(p, SCALE as int) + tdiv(q, SCALE as int))
        <= 1) by (nonlinear_arith)
        requires
            p >= 0 ==> 0 <= tdiv(p, SCALE as int) && (SCALE as int) * tdiv(p, SCALE as int) <= p
                && p < (SCALE as int) * (tdiv(p, SCALE as int) + 1),
            p < 0 ==> tdiv(p, SCALE as int) <= 0 && (SCALE as int) * tdiv(p, SCALE as int) >= p
                && p > (SCALE as int) * (tdiv(p, SCALE as int) - 1),
            q >= 0 ==> 0 <= tdiv(q, SCALE as int) && (SCALE as int) * tdiv(q, SCALE as int) <= q
                && q < (SCALE as int) * (tdiv(q, SCALE as int) + 1),
            q < 0 ==> tdiv(q, SCALE as int) <= 0 && (SCALE as int) * tdiv(q, SCALE as int) >= q
                && q > (SCALE as int) * (tdiv(q, SCALE as int) - 1),
            p + q >= 0 ==> 0 <= tdiv(p + q, SCALE as int) && (SCALE as int) * tdiv(
                p + q,
                SCALE as int,
            ) <= p + q && p + q < (SCALE as int) * (tdiv(p + q, SCALE as int) + 1),
            p + q < 0 ==> tdiv(p + q, SCALE as int) <= 0 && (SCALE as int) * tdiv(
                p + q,
                SCALE as int,
            ) >= p + q && p + q > (SCALE as int) * (tdiv(p + q, SCALE as int) - 1),
    ;
}

/// Scaling is linear to within one grid step per component:
/// `v.scaled(a + b)` and `v.scaled(a) + v.scaled(b)` agree up to the
/// truncation of each product.
pub proof fn lemma_scaled_linear(v: Vec3V, a: int, b: int)
    ensures
        -1 <= scalev(v, a + b).x - addv(scalev(v, a), scalev(v, b)).x <= 1,
        -1 <= scalev(v, a + b).y - addv(scalev(v, a), scalev(v, b)).y <= 1,
        -1 <= scalev(v, a + b).z - addv(scalev(v, a), scalev(v, b)).z <= 1,
{
    lemma_fxmul_add_within_step(v.x, a, b);
    lemma_fxmul_add_within_step(v.y, a, b);
    lemma_fxmul_add_within_step(v.z, a, b);
}

/// The dot product of a vector with itself is its squared length, exactly.
pub proof fn lemma_dot_self_is_len_squared(v: Vec3V)
    ensures
        dot3(v, v) == lensq3(v),
{
}

/// The cross product of a vector with itself is the zero vector, exactly.
pub proof fn lemma_cross_self_is_zero(v: Vec3V)
    ensures
        cross3(v, v) == zerov(),
{
    assert(v.y * v.z == v.z * v.y && v.z * v.x == v.x * v.z && v.x * v.y == v.y * v.x)
        by (nonlinear_arith);
}

/// A vector with a component of at least one square-root grid step has a
/// squared length visible on the grid, so its unit vector is defined.
pub proof fn lemma_unit_vector_defined(v: Vec3V)
    requires
        v.x >= 65536 || v.x <= -65536 || v.y >= 65536 || v.y <= -65536 || v.z >= 65536 || v.z
            <= -65536,
    ensures
        lensq3(v) >= 1,
{
    lemma_square_nonneg(v.x);
    lemma_square_nonneg(v.y);
    lemma_square_nonneg(v.z);
    if v.x >= 65536 || v.x <= -65536 {
        lemma_big_square(v.x);
    } else if v.y >= 65536 || v.y <= -65536 {
        lemma_big_square(v.y);
    } else {
        lemma_big_square(v.z);
    }
}

/// The zero vector's squared length is zero, so its unit vector is not
/// defined.
pub proof fn lemma_unit_vector_of_zero_undefined()
    ensures
        lensq3(zerov()) == 0,
{
    assert((0int) * 0 == 0) by (nonlinear_arith);
}

/// A component of at least one square-root grid step contributes at least
/// one step to the squared length.
proof fn lemma_big_square(x: int)
    requires
        x >= 65536 || x <= -65536,
    ensures
        fxmul(x, x) >= 1,
{
    assert(x * x >= (SCALE as int)) by (nonlinear_arith)
        requires
            x >= 65536 || x <= -65536,
    ;
    lemma_tdiv(x * x, SCALE as int);
    assert(tdiv(x * x, SCALE as int) >= 1) by (nonlinear_arith)
        requires
            x * x >= SCALE as int,
            x * x < (SCALE as int) * (tdiv(x * x, SCALE as int) + 1),
    ;
}

/// Step count of the tolerance (about `1e-5`) within which a unit vector's
/// squared length equals one.
pub const UNIT_NORM_TOL_BITS: i128 = 42950;

/// One component's contribution to the unit-norm bound: the grid square of
/// the divided component sits within `(5 * SCALE + 1) * l^2` of the exact
/// square, once everything is brought over the common denominator
/// `SCALE * l^2`.
proof fn lemma_unit_norm_component(x: int, sq: int, q: int, l: int)
    requires
        sq == fxmul(x, x),
        sq <= q,
        l >= 268435456,
        l * l <= q * (SCALE as int),
        q * (SCALE as int) < (l + 1) * (l + 1),
    ensures
        x * x * ((SCALE as int) * (SCALE as int)) - (5 * (SCALE as int) + 1) * (l * l) <= fxmul(
            fxdiv(x, l),
            fxdiv(x, l),
        ) * ((SCALE as int) * (l * l)),
        fxmul(fxdiv(x, l), fxdiv(x, l)) * ((SCALE as int) * (l * l)) <= x * x * ((SCALE as int) * (
        SCALE as int)) + (5 * (SCALE as int) + 1) * (l * l),
{
    assert(x * x >= 0) by (nonlinear_arith);
    lemma_tdiv(x * x, SCALE as int);
    assert(x * x < 4 * (l * l)) by (nonlinear_arith)
        requires
            x * x < (SCALE as int) * (sq + 1),
            sq <= q,
            q * (SCALE as int) < (l + 1) * (l + 1),
            l >= 268435456,
    ;
    assert(-2 * l < x < 2 * l) by (nonlinear_arith)
        requires
            x * x < 4 * (l * l),
            l >= 1,
    ;
    let u = fxdiv(x, l);
    lemma_tdiv(x * (SCALE as int), l);
    let e = x * (SCALE as int) - u * l;
    assert(-l < e < l) by (nonlinear_arith)
        requires
            e == x * (SCALE as int) - tdiv(x * (SCALE as int), l) * l,
            u == tdiv(x * (SCALE as int), l),
            l >= 1,
            x * (SCALE as int) >= 0 ==> 0 <= u && l * u <= x * (SCALE as int) && x * (
            SCALE as int) < l * (u + 1),
            x * (SCALE as int) < 0 ==> u <= 0 && l * u >= x * (SCALE as int) && x * (SCALE as int)
                > l * (u - 1),
    ;
    assert((u * l) * (u * l) - x * x * ((SCALE as int) * (SCALE as int)) <= 4 * (SCALE as int) * (l
        * l) + l * l && x * x * ((SCALE as int) * (SCALE as int)) - (u * l) * (u * l) <= 4 * (
    SCALE as int) * (l * l) + l * l) by (nonlinear_arith)
        requires
            u * l == x * (SCALE as int) - e,
            -l < e < l,
            -2 * l < x < 2 * l,
            l >= 1,
    ;
    assert(u * u >= 0) by (nonlinear_arith);
    lemma_tdiv(u * u, SCALE as int);
    let su = fxmul(u, u);
    assert(x * x * ((SCALE as int) * (SCALE as int)) - (5 * (SCALE as int) + 1) * (l * l) <= su * ((
    SCALE as int) * (l * l)) && su * ((SCALE as int) * (l * l)) <= x * x * ((SCALE as int) * (
    SCALE as int)) + (5 * (SCALE as int) + 1) * (l * l)) by (nonlinear_arith)
        requires
            su == tdiv(u * u, SCALE as int),
            u * u >= 0,
            0 <= su && (SCALE as int) * su <= u * u && u * u < (SCALE as int) * (su + 1),
            (u * l) * (u * l) - x * x * ((SCALE as int) * (SCALE as int)) <= 4 * (SCALE as int) * (
            l * l) + l * l,
            x * x * ((SCALE as int) * (SCALE as int)) - (u * l) * (u * l) <= 4 * (SCALE as int) * (
            l * l) + l * l,
            l >= 1,
    ;
}

/// A unit vector's squared length is one to within about `1e-5`, for any
/// vector of length at least one sixteenth of a unit. (Vectors barely above
/// the grid's resolution can miss this tolerance: their components are too
/// coarse for the division by the length.)
pub proof fn lemma_unit_vector_norm(v: Vec3V)
    requires
        crate::types::vec3::bounded3(v, crate::types::vec3::BOUND_COARSE as int),
        lensq3(v) >= 16777216,
    ensures
        -(UNIT_NORM_TOL_BITS as int) <= lensq3(unitv(v)) - (ONE_BITS as int),
        lensq3(unitv(v)) - (ONE_BITS as int) <= UNIT_NORM_TOL_BITS as int,
{
    let q = lensq3(v);
    let l = crate::types::vec3::len3(v);
    assert(q * (SCALE as int) >= 16777216 * (SCALE as int)) by (nonlinear_arith)
        requires
            q >= 16777216,
    ;
    crate::fx::lemma_isqrt(q * (SCALE as int));
    assert(l >= 268435456) by (nonlinear_arith)
        requires
            l >= 0,
            q * (SCALE as int) < (l + 1) * (l + 1),
            q * (SCALE as int) >= 16777216 * (SCALE as int),
    ;
    lemma_square_nonneg(v.x);
    lemma_square_nonneg(v.y);
    lemma_square_nonneg(v.z);
    lemma_unit_norm_component(v.x, fxmul(v.x, v.x), q, l);
    lemma_unit_norm_component(v.y, fxmul(v.y, v.y), q, l);
    lemma_unit_norm_component(v.z, fxmul(v.z, v.z), q, l);
    assert(v.x * v.x >= 0 && v.y * v.y >= 0 && v.z * v.z >= 0) by (nonlinear_arith);
    lemma_tdiv(v.x * v.x, SCALE as int);
    lemma_tdiv(v.y * v.y, SCALE as int);
    lemma_tdiv(v.z * v.z, SCALE as int);
    let a = v.x * v.x + v.y * v.y + v.z * v.z;
    assert((SCALE as int) * q <= a && a < (SCALE as int) * q + 3 * (SCALE as int));
    let t = lensq3(unitv(v));
    assert(a * ((SCALE as int) * (SCALE as int)) - 3 * ((5 * (SCALE as int) + 1) * (l * l)) <= t * (
    (SCALE as int) * (l * l)) && t * ((SCALE as int) * (l * l)) <= a * ((SCALE as int) * (
    SCALE as int)) + 3 * ((5 * (SCALE as int) + 1) * (l * l))) by (nonlinear_arith)
        requires
            t == fxmul(fxdiv(v.x, l), fxdiv(v.x, l)) + fxmul(fxdiv(v.y, l), fxdiv(v.y, l)) + fxmul(
                fxdiv(v.z, l),
                fxdiv(v.z, l),
            ),
            a == v.x * v.x + v.y * v.y + v.z * v.z,
            v.x * v.x * ((SCALE as int) * (SCALE as int)) - (5 * (SCALE as int) + 1) * (l * l)
                <= fxmul(fxdiv(v.x, l), fxdiv(v.x, l)) * ((SCALE as int) * (l * l)) <= v.x * v.x * (
            (SCALE as int) * (SCALE as int)) + (5 * (SCALE as int) + 1) * (l * l),
            v.y * v.y * ((SCALE as int) * (SCALE as int)) - (5 * (SCALE as int) + 1) * (l * l)
                <= fxmul(fxdiv(v.y, l), fxdiv(v.y, l)) * ((SCALE as int) * (l * l)) <= v.y * v.y * (
            (SCALE as int) * (SCALE as int)) + (5 * (SCALE as int) + 1) * (l * l),
            v.z * v.z * ((SCALE as int) * (SCALE as int)) - (5 * (SCALE as int) + 1) * (l * l)
                <= fxmul(fxdiv(v.z, l), fxdiv(v.z, l)) * ((SCALE as int) * (l * l)) <= v.z * v.z * (
            (SCALE as int) * (SCALE as int)) + (5 * (SCALE as int) + 1) * (l * l),
    ;
    assert(((ONE_BITS as int) - (UNIT_NORM_TOL_BITS as int)) * ((SCALE as int) * (l * l)) <= t * ((
    SCALE as int) * (l * l)) && t * ((SCALE as int) * (l * l)) <= ((ONE_BITS as int) + (
    UNIT_NORM_TOL_BITS as int)) * ((SCALE as int) * (l * l))) by (nonlinear_arith)
        requires
            a * ((SCALE as int) * (SCALE as int)) - 3 * ((5 * (SCALE as int) + 1) * (l * l)) <= t
                * ((SCALE as int) * (l * l)),
            t * ((SCALE as int) * (l * l)) <= a * ((SCALE as int) * (SCALE as int)) + 3 * ((5 * (
            SCALE as int) + 1) * (l * l)),
            (SCALE as int) * q <= a && a < (SCALE as int) * q + 3 * (SCALE as int),
            l * l <= q * (SCALE as int),
            q * (SCALE as int) < (l + 1) * (l + 1),
            l >= 268435456,
    ;
    assert((ONE_BITS as int) - (UNIT_NORM_TOL_BITS as int) <= t && t <= (ONE_BITS as int) + (
    UNIT_NORM_TOL_BITS as int)) by (nonlinear_arith)
        requires
            ((ONE_BITS as int) - (UNIT_NORM_TOL_BITS as int)) * ((SCALE as int) * (l * l)) <= t * (
            (SCALE as int) * (l * l)),
            t * ((SCALE as int) * (l * l)) <= ((ONE_BITS as int) + (UNIT_NORM_TOL_BITS as int)) * (
            (SCALE as int) * (l * l)),
            l >= 1,
    ;
}

/// A ray whose origin is a sphere's center always intersects it: the
/// discriminant of the quadratic is never negative from inside.
pub proof fn lemma_ray_from_center_always_hits(center: Vec3V, radius: int, r: RayV)
    requires
        r.origin == center,
    ensures
        component_hit(center, radius, r) is Some,
{
    let oc = subv(r.origin, center);
    assert(oc == zerov());
    assert(lensq3(oc) == 0 && dot3(oc, r.direction) == 0) by {
        assert((0int) * 0 == 0) by (nonlinear_arith);
        assert(0 * r.direction.x == 0 && 0 * r.direction.y == 0 && 0 * r.direction.z == 0)
            by (nonlinear_arith);
    }
    let sq = fxmul(radius, radius);
    lemma_square_nonneg(radius);
    lemma_lensq_nonneg(r.direction);
    let a = lensq3(r.direction);
    assert(a * (-sq) == -(a * sq) && a * sq >= 0) by (nonlinear_arith)
        requires
            a >= 0,
            sq >= 0,
    ;
    lemma_tdiv(a * sq, SCALE as int);
    assert(fxmul(a, 0 - sq) <= 0);
}

/// A tangential ray, whose discriminant vanishes, meets the sphere in a
/// single root: the two candidate roots of the quadratic coincide.
pub proof fn lemma_tangential_single_root(b: int, a: int)
    ensures
        fxdiv(-b - fxsqrt(0), a) == fxdiv(-b + fxsqrt(0), a),
{
    lemma_fxsqrt_zero(0);
}

/// The trace of a sphere hit lies in the interval it was searched in.
proof fn lemma_sphere_hit_trace_range(s: SphereV, r: RayV, tmin: int, tmax: int)
    ensures
        sphere_hit(s, r, tmin, tmax) is Some ==> tmin <= sphere_hit(s, r, tmin, tmax)->0.trace
            <= tmax,
{
}

/// Narrowing the upper end of the trace interval keeps a hit that lies
/// within it, and turns a hit beyond it (or a miss) into a miss.
proof fn lemma_sphere_hit_narrow(s: SphereV, r: RayV, tmin: int, tmax: int, c: int)
    requires
        lensq3(r.direction) >= 1,
        c <= tmax,
    ensures
        sphere_hit(s, r, tmin, tmax) is None ==> sphere_hit(s, r, tmin, c) is None,
        sphere_hit(s, r, tmin, tmax) is Some && sphere_hit(s, r, tmin, tmax)->0.trace <= c
            ==> sphere_hit(s, r, tmin, c) == sphere_hit(s, r, tmin, tmax),
        sphere_hit(s, r, tmin, tmax) is Some && sphere_hit(s, r, tmin, tmax)->0.trace > c
            ==> sphere_hit(s, r, tmin, c) is None,
{
    let oc = subv(r.origin, s.center);
    let a = lensq3(r.direction);
    let b = dot3(oc, r.direction);
    let cc = lensq3(oc) - fxmul(s.radius, s.radius);
    let disc = fxmul(b, b) - fxmul(a, cc);
    if disc >= 0 {
        lemma_fxsqrt_zero(disc);
        let sd = fxsqrt(disc);
        assert((-b - sd) * (SCALE as int) <= (-b + sd) * (SCALE as int)) by (nonlinear_arith)
            requires
                sd >= 0,
        ;
        lemma_tdiv_monotone((-b - sd) * (SCALE as int), (-b + sd) * (SCALE as int), a);
        assert(fxdiv(-b - sd, a) <= fxdiv(-b + sd, a));
    }
}

/// Where a nearest hit's trace comes from, member by member.
pub open spec fn nearest_trace(ha: Option<HitRecordV>, hb: Option<HitRecordV>) -> Option<int> {
    match (ha, hb) {
        (Option::Some(x), Option::Some(y)) => Some(
            if x.trace <= y.trace {
                x.trace
            } else {
                y.trace
            },
        ),
        (Option::Some(x), Option::None) => Some(x.trace),
        (Option::None, Option::Some(y)) => Some(y.trace),
        (Option::None, Option::None) => Option::None,
    }
}

proof fn lemma_group_pair_half(a: SphereV, b: SphereV, r: RayV, tmin: int, tmax: int)
    requires
        lensq3(r.direction) >= 1,
    ensures
        (group_hit(seq![a, b], r, tmin, tmax) is Some) == (sphere_hit(a, r, tmin, tmax) is Some
            || sphere_hit(b, r, tmin, tmax) is Some),
        group_hit(seq![a, b], r, tmin, tmax) is Some ==> Some(
            group_hit(seq![a, b], r, tmin, tmax)->0.trace,
        ) == nearest_trace(sphere_hit(a, r, tmin, tmax), sphere_hit(b, r, tmin, tmax)),
{
    let s = seq![a, b];
    let ha = sphere_hit(a, r, tmin, tmax);
    let hb = sphere_hit(b, r, tmin, tmax);
    assert(s.len() == 2 && s[0] == a && s[1] == b);
    assert(s.skip(1) =~= seq![b]);
    assert(seq![b].skip(1) =~= Seq::<SphereV>::empty());
    lemma_sphere_hit_trace_range(a, r, tmin, tmax);
    lemma_sphere_hit_trace_range(b, r, tmin, tmax);
    assert(seq![b][0] == b);
    if ha is Some {
        lemma_sphere_hit_narrow(b, r, tmin, tmax, ha->0.trace);
        let hbn = sphere_hit(b, r, tmin, ha->0.trace);
        assert(group_scan(s, r, tmin, tmax, Option::None) == group_scan(
            seq![b],
            r,
            tmin,
            ha->0.trace,
            Some(ha->0),
        ));
        if hbn is Some {
            assert(group_scan(seq![b], r, tmin, ha->0.trace, Some(ha->0)) == group_scan(
                Seq::<SphereV>::empty(),
                r,
                tmin,
                hbn->0.trace,
                Some(hbn->0),
            ));
            assert(group_scan(s, r, tmin, tmax, Option::None) == Some(hbn->0));
        } else {
            assert(group_scan(seq![b], r, tmin, ha->0.trace, Some(ha->0)) == group_scan(
                Seq::<SphereV>::empty(),
                r,
                tmin,
                ha->0.trace,
                Some(ha->0),
            ));
            assert(group_scan(s, r, tmin, tmax, Option::None) == Some(ha->0));
        }
    } else {
        assert(group_scan(s, r, tmin, tmax, Option::None) == group_scan(
            seq![b],
            r,
            tmin,
            tmax,
            Option::None,
        ));
        if hb is Some {
            assert(group_scan(seq![b], r, tmin, tmax, Option::None) == group_scan(
                Seq::<SphereV>::empty(),
                r,
                tmin,
                hb->0.trace,
                Some(hb->0),
            ));
            assert(group_scan(s, r, tmin, tmax, Option::None) == Some(hb->0));
        } else {
            assert(group_scan(seq![b], r, tmin, tmax, Option::None) == group_scan(
                Seq::<SphereV>::empty(),
                r,
                tmin,
                tmax,
                Option::None,
            ));
            assert(group_scan(s, r, tmin, tmax, Option::None) is None);
        }
    }
}

/// The smallest trace among the members' standalone answers over the full
/// interval.
pub open spec fn nearest_member_trace(objs: Seq<SphereV>, r: RayV, tmin: int, tmax: int) -> Option<
    int,
>
    decreases objs.len(),
{
    if objs.len() == 0 {
        Option::None
    } else {
        let rest = nearest_member_trace(objs.skip(1), r, tmin, tmax);
        match sphere_hit(objs[0], r, tmin, tmax) {
            Option::Some(h) => match rest {
                Option::Some(t) => Some(
                    if h.trace <= t {
                        h.trace
                    } else {
                        t
                    },
                ),
                Option::None => Some(h.trace),
            },
            Option::None => rest,
        }
    }
}

/// The smaller of an accumulated hit's trace and a candidate trace.
pub open spec fn combined_trace(acc: Option<HitRecordV>, n: Option<int>) -> Option<int> {
    match (acc, n) {
        (Option::Some(a), Option::Some(t)) => Some(
            if a.trace <= t {
                a.trace
            } else {
                t
            },
        ),
        (Option::Some(a), Option::None) => Some(a.trace),
        (Option::None, Option::Some(t)) => Some(t),
        (Option::None, Option::None) => Option::None,
    }
}

proof fn lemma_group_scan_nearest(
    objs: Seq<SphereV>,
    r: RayV,
    tmin: int,
    tmax: int,
    closest: int,
    acc: Option<HitRecordV>,
)
    requires
        lensq3(r.direction) >= 1,
        acc is Some ==> acc->0.trace == closest && closest <= tmax,
        acc is None ==> closest == tmax,
    ensures
        (group_scan(objs, r, tmin, closest, acc) is Some) == (acc is Some || nearest_member_trace(
            objs,
            r,
            tmin,
            tmax,
        ) is Some),
        group_scan(objs, r, tmin, closest, acc) is Some ==> Some(
            group_scan(objs, r, tmin, closest, acc)->0.trace,
        ) == combined_trace(acc, nearest_member_trace(objs, r, tmin, tmax)),
    decreases objs.len(),
{
    if objs.len() == 0 {
    } else {
        let h0 = sphere_hit(objs[0], r, tmin, tmax);
        let h0n = sphere_hit(objs[0], r, tmin, closest);
        lemma_sphere_hit_trace_range(objs[0], r, tmin, tmax);
        lemma_sphere_hit_narrow(objs[0], r, tmin, tmax, closest);
        if h0n is Some {
            lemma_group_scan_nearest(objs.skip(1), r, tmin, tmax, h0n->0.trace, Some(h0n->0));
        } else {
            lemma_group_scan_nearest(objs.skip(1), r, tmin, tmax, closest, acc);
        }
    }
}

/// Nearest-hit-wins, for a scene of any size: the group reports a hit if
/// and only if some member does, and the reported trace distance is the
/// smallest among the members' standalone answers. The order of the members
/// cannot change that distance.
pub proof fn lemma_group_nearest_hit(objs: Seq<SphereV>, r: RayV, tmin: int, tmax: int)
    requires
        lensq3(r.direction) >= 1,
        objs.len() > 0,
    ensures
        (group_hit(objs, r, tmin, tmax) is Some) == (nearest_member_trace(
            objs,
            r,
            tmin,
            tmax,
        ) is Some),
        group_hit(objs, r, tmin, tmax) is Some ==> Some(group_hit(objs, r, tmin, tmax)->0.trace)
            == nearest_member_trace(objs, r, tmin, tmax),
{
    lemma_group_scan_nearest(objs, r, tmin, tmax, tmax, Option::None);
}

/// The nearest hit of a two-member scene: the group answers if and only if
/// one of the members does, its trace distance is the smaller of the two
/// members' standalone answers, and none of that depends on the insertion
/// order.
pub proof fn lemma_group_pair_order_independent(
    a: SphereV,
    b: SphereV,
    r: RayV,
    tmin: int,
    tmax: int,
)
    requires
        lensq3(r.direction) >= 1,
    ensures
        (group_hit(seq![a, b], r, tmin, tmax) is Some) == (sphere_hit(a, r, tmin, tmax) is Some
            || sphere_hit(b, r, tmin, tmax) is Some),
        (group_hit(seq![b, a], r, tmin, tmax) is Some) == (sphere_hit(a, r, tmin, tmax) is Some
            || sphere_hit(b, r, tmin, tmax) is Some),
        group_hit(seq![a, b], r, tmin, tmax) is Some ==> Some(
            group_hit(seq![a, b], r, tmin, tmax)->0.trace,
        ) == nearest_trace(sphere_hit(a, r, tmin, tmax), sphere_hit(b, r, tmin, tmax)),
        group_hit(seq![b, a], r, tmin, tmax) is Some ==> Some(
            group_hit(seq![b, a], r, tmin, tmax)->0.trace,
        ) == nearest_trace(sphere_hit(a, r, tmin, tmax), sphere_hit(b, r, tmin, tmax)),
{
    lemma_group_pair_half(a, b, r, tmin, tmax);
    lemma_group_pair_half(b, a, r, tmin, tmax);
}

} // verus!
