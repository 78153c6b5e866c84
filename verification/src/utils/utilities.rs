//! Scalar helpers and the randomness source.
//!
//! Randomness enters the library in exactly one place, `random_u64`; every
//! derived sampler is verified against its stated range for whatever word
//! that call hands back.

use vstd::prelude::*;

use crate::fx::{fxmul, lemma_fxmul_bound, lemma_tdiv, lemma_tdiv_bound, tdiv, Fx, ONE_BITS, SCALE};
use crate::types::vec3::{
    bounded3, dot3, lensq3, negv, unitv, Vec3, Vec3V, BOUND_COARSE,
};

verus! {

/// Step count of pi.
pub const PI_BITS: i128 = 13493037704;

/// Clamp `x` into `[min, max]`.
pub fn clamp(x: Fx, min: Fx, max: Fx) -> (r: Fx)
    ensures
        r@ == clamped(x@, min@, max@),
{
    if x.lt(min) {
        min
    } else if max.lt(x) {
        max
    } else {
        x
    }
}

/// `x` clamped into `[min, max]`.
pub open spec fn clamped(x: int, min: int, max: int) -> int {
    if x < min {
        min
    } else if x > max {
        max
    } else {
        x
    }
}

/// Degrees converted to radians: `d * pi / 180`.
pub fn degrees_to_radians(degrees: Fx) -> (r: Fx)
    requires
        -(BOUND_COARSE as int) <= degrees@ <= BOUND_COARSE as int,
    ensures
        r@ == crate::fx::fxdiv(fxmul(degrees@, PI_BITS as int), 180 * ONE_BITS as int),
{
    proof {
        lemma_fxmul_bound(degrees@, PI_BITS as int, BOUND_COARSE as int, PI_BITS as int);
    }
    let scaled = degrees.mul(Fx::from_bits(PI_BITS));
    scaled.div(Fx::from_int(180))
}

/// Relies on rand::random: draws one word from the thread-local generator.
/// Nothing is assumed about the value.
#[verifier::external_body]
fn random_u64() -> u64 {
    rand::random::<u64>()
}

/// A scalar in `[0, 1)`, drawn from the randomness source.
pub fn random_fx() -> (r: Fx)
    ensures
        0 <= r@ < ONE_BITS as int,
{
    let raw = random_u64();
    let bits = (raw % 4294967296u64) as i128;
    Fx::from_bits(bits)
}

/// A scalar in `[min_inclusive, max_exclusive)`, drawn from the randomness
/// source.
pub fn random_fx_between(min_inclusive: Fx, max_exclusive: Fx) -> (r: Fx)
    requires
        min_inclusive@ < max_exclusive@,
        -(BOUND_COARSE as int) <= min_inclusive@,
        max_exclusive@ <= BOUND_COARSE as int,
    ensures
        min_inclusive@ <= r@ < max_exclusive@,
{
    let span = max_exclusive.sub(min_inclusive);
    let u = random_fx();
    proof {
        lemma_fxmul_bound(span@, u@, 2 * BOUND_COARSE as int, ONE_BITS as int);
        lemma_tdiv_bound(span@ * u@, SCALE as int);
        assert(0 <= fxmul(span@, u@) < span@) by (nonlinear_arith)
            requires
                span@ >= 1,
                0 <= u@ < SCALE as int,
                fxmul(span@, u@) == tdiv(span@ * u@, SCALE as int),
                span@ * u@ >= 0 ==> tdiv(span@ * u@, SCALE as int) >= 0 && tdiv(
                    span@ * u@,
                    SCALE as int,
                ) * (SCALE as int) <= span@ * u@,
        ;
    }
    min_inclusive.add(span.mul(u))
}

/// A point strictly inside the unit sphere whose squared length does not
/// vanish on the grid, found by rejection sampling.
pub fn random_point_in_unit_sphere() -> (r: Vec3)
    ensures
        bounded3(r@, ONE_BITS as int),
        0 < lensq3(r@) < ONE_BITS as int,
{
    let lo = Fx::from_int(-1);
    let hi = Fx::from_int(1);
    let mut tries: u64 = 18446744073709551615;
    while tries > 0
        invariant
            lo@ == -(ONE_BITS as int),
            hi@ == ONE_BITS as int,
        decreases tries,
    {
        let candidate = Vec3::random_between(lo, hi);
        let q = candidate.len_squared();
        if q.bits() > 0 && q.bits() < crate::fx::ONE_BITS {
            return candidate;
        }
        tries = tries - 1;
    }
    // Rejection sampling accepts a draw with probability above one half, so
    // this point is unreachable in any real run; it keeps the sampler total.
    Vec3::new(Fx::from_bits(ONE_BITS / 2), Fx::zero(), Fx::zero())
}

/// A unit vector pointing in a direction drawn from the randomness source.
pub fn random_unit_vector() -> (r: Vec3)
    ensures
        bounded3(r@, 2 * ONE_BITS as int),
        exists|p: Vec3V| 0 < lensq3(p) < ONE_BITS as int && r@ == unitv(p),
{
    let p = random_point_in_unit_sphere();
    let u = p.unit_vector();
    proof {
        assert(0 < lensq3(p@) < ONE_BITS as int && u->Ok_0@ == unitv(p@));
    }
    u.unwrap()
}

/// A point inside the unit sphere lying in the hemisphere on the same side
/// as `normal`.
pub fn random_point_in_hemisphere(normal: &Vec3) -> (r: Vec3)
    requires
        bounded3(normal@, BOUND_COARSE as int),
    ensures
        bounded3(r@, ONE_BITS as int),
        0 < lensq3(r@) < ONE_BITS as int,
        dot3(r@, normal@) >= 0,
{
    let p = random_point_in_unit_sphere();
    let d = p.dot(normal);
    if d.bits() >= 0 {
        p
    } else {
        proof {
            lemma_negv_products(p@, normal@);
            lemma_negv_lensq(p@);
        }
        p.neg()
    }
}

/// Negating a vector negates its dot product with any other vector.
proof fn lemma_negv_products(a: Vec3V, b: Vec3V)
    ensures
        dot3(negv(a), b) == -dot3(a, b),
{
    lemma_tdiv(a.x * b.x, SCALE as int);
    lemma_tdiv(a.y * b.y, SCALE as int);
    lemma_tdiv(a.z * b.z, SCALE as int);
    assert((-a.x) * b.x == -(a.x * b.x)) by (nonlinear_arith);
    assert((-a.y) * b.y == -(a.y * b.y)) by (nonlinear_arith);
    assert((-a.z) * b.z == -(a.z * b.z)) by (nonlinear_arith);
}

/// Negating a vector preserves its squared length.
proof fn lemma_negv_lensq(a: Vec3V)
    ensures
        lensq3(negv(a)) == lensq3(a),
{
    assert((-a.x) * (-a.x) == a.x * a.x) by (nonlinear_arith);
    assert((-a.y) * (-a.y) == a.y * a.y) by (nonlinear_arith);
    assert((-a.z) * (-a.z) == a.z * a.z) by (nonlinear_arith);
}

} // verus!
