//! Three-component vector over the fixed-point scalar, used as a free
//! vector, as a point and as a color.

use vstd::prelude::*;

use crate::fx::{
    fxdiv, fxmul, fxsqrt, lemma_fxmul_bound, lemma_isqrt, lemma_tdiv_bound, tdiv, Fx, ONE_BITS,
    SCALE,
};

verus! {

/// Mathematical image of a vector: the three step counts.
pub ghost struct Vec3V {
    pub x: int,
    pub y: int,
    pub z: int,
}

/// Every component's step count has magnitude at most `m`.
pub open spec fn bounded3(v: Vec3V, m: int) -> bool {
    -m <= v.x <= m && -m <= v.y <= m && -m <= v.z <= m
}

/// Component-wise sum.
pub open spec fn addv(a: Vec3V, b: Vec3V) -> Vec3V {
    Vec3V { x: a.x + b.x, y: a.y + b.y, z: a.z + b.z }
}

/// Component-wise difference.
pub open spec fn subv(a: Vec3V, b: Vec3V) -> Vec3V {
    Vec3V { x: a.x - b.x, y: a.y - b.y, z: a.z - b.z }
}

/// Component-wise negation.
pub open spec fn negv(a: Vec3V) -> Vec3V {
    Vec3V { x: -a.x, y: -a.y, z: -a.z }
}

/// Component-wise product (color attenuation).
pub open spec fn mulv(a: Vec3V, b: Vec3V) -> Vec3V {
    Vec3V { x: fxmul(a.x, b.x), y: fxmul(a.y, b.y), z: fxmul(a.z, b.z) }
}

/// Scalar multiple.
pub open spec fn scalev(a: Vec3V, k: int) -> Vec3V {
    Vec3V { x: fxmul(a.x, k), y: fxmul(a.y, k), z: fxmul(a.z, k) }
}

/// Dot product.
pub open spec fn dot3(a: Vec3V, b: Vec3V) -> int {
    fxmul(a.x, b.x) + fxmul(a.y, b.y) + fxmul(a.z, b.z)
}

/// Squared length: the dot product of a vector with itself.
pub open spec fn lensq3(a: Vec3V) -> int {
    dot3(a, a)
}

/// Length: square root of the squared length on the grid.
pub open spec fn len3(a: Vec3V) -> int {
    fxsqrt(lensq3(a))
}

/// Cross product.
pub open spec fn cross3(a: Vec3V, b: Vec3V) -> Vec3V {
    Vec3V {
        x: fxmul(a.y, b.z) - fxmul(a.z, b.y),
        y: fxmul(a.z, b.x) - fxmul(a.x, b.z),
        z: fxmul(a.x, b.y) - fxmul(a.y, b.x),
    }
}

/// The zero vector.
pub open spec fn zerov() -> Vec3V {
    Vec3V { x: 0, y: 0, z: 0 }
}

/// Unit vector: each component divided by the length.
pub open spec fn unitv(a: Vec3V) -> Vec3V {
    let l = len3(a);
    Vec3V { x: fxdiv(a.x, l), y: fxdiv(a.y, l), z: fxdiv(a.z, l) }
}

/// Mirror reflection about a surface normal: `v - 2 (v . n) n`.
pub open spec fn reflectv(v: Vec3V, n: Vec3V) -> Vec3V {
    subv(v, scalev(n, fxmul(2 * ONE_BITS as int, dot3(v, n))))
}

/// Refraction by Snell's law, decomposed into the component perpendicular
/// to the normal and the component parallel to it.
pub open spec fn refractv(v: Vec3V, n: Vec3V, ior: int) -> Vec3V {
    let d = dot3(v, n);
    let cos = if -d <= ONE_BITS as int {
        -d
    } else {
        ONE_BITS as int
    };
    let orth = scalev(addv(v, scalev(n, cos)), ior);
    let k = ONE_BITS as int - lensq3(orth);
    let kabs = if k >= 0 {
        k
    } else {
        -k
    };
    addv(orth, scalev(n, -fxsqrt(kabs)))
}

/// Step count of a scatter-direction threshold of about `1e-8` units,
/// below which a component counts as vanishing.
pub const NEARLY_EPS_BITS: i128 = 43;

/// All components within the vanishing threshold of `t`.
pub open spec fn nearly3(v: Vec3V, t: int) -> bool {
    &&& -(NEARLY_EPS_BITS as int) < v.x - t < NEARLY_EPS_BITS as int
    &&& -(NEARLY_EPS_BITS as int) < v.y - t < NEARLY_EPS_BITS as int
    &&& -(NEARLY_EPS_BITS as int) < v.z - t < NEARLY_EPS_BITS as int
}

/// Coarse magnitude bound under which all component arithmetic of a single
/// operation stays within `i128`.
pub const BOUND_COARSE: i128 = 4611686018427387904;

/// Magnitude bound of two units, ample for unit directions and oriented
/// normals.
pub const BOUND_UNIT: i128 = 8589934592;

/// Magnitude bound on a relative index of refraction (four units).
pub const BOUND_IOR: i128 = 17179869184;

/// Magnitude bound on a reflected direction computed from inputs within
/// `BOUND_UNIT`.
pub const BOUND_REFLECT: i128 = 274877906944;

/// Magnitude bound on a refracted direction computed from inputs within
/// `BOUND_UNIT` and an index within `BOUND_IOR`.
pub const BOUND_REFRACT: i128 = 2199023255552;

/// A square on the grid is never negative.
pub proof fn lemma_square_nonneg(a: int)
    ensures
        fxmul(a, a) >= 0,
{
    assert(a * a >= 0) by (nonlinear_arith);
    lemma_tdiv_bound(a * a, SCALE as int);
}

/// A squared length is never negative.
pub proof fn lemma_lensq_nonneg(v: Vec3V)
    ensures
        lensq3(v) >= 0,
{
    lemma_square_nonneg(v.x);
    lemma_square_nonneg(v.y);
    lemma_square_nonneg(v.z);
}

/// The grid square root is zero exactly on zero.
pub proof fn lemma_fxsqrt_zero(x: int)
    requires
        x >= 0,
    ensures
        fxsqrt(x) >= 0,
        (fxsqrt(x) == 0) <==> (x == 0),
{
    assert(x * (SCALE as int) >= 0) by (nonlinear_arith)
        requires
            x >= 0,
    ;
    lemma_isqrt(x * (SCALE as int));
    let r = fxsqrt(x);
    if x == 0 {
        assert(r * r <= 0);
        assert(r == 0) by (nonlinear_arith)
            requires
                r >= 0,
                r * r <= 0,
        ;
    } else {
        assert(x * (SCALE as int) >= SCALE as int) by (nonlinear_arith)
            requires
                x >= 1,
        ;
        if r == 0 {
            assert(x * (SCALE as int) < (0 + 1) * (0 + 1));
            assert(false);
        }
    }
}

/// A dot product of vectors bounded by `m` and `n` is bounded by
/// `3 m n / SCALE`.
pub proof fn lemma_dot3_bound(a: Vec3V, b: Vec3V, m: int, n: int)
    requires
        bounded3(a, m),
        bounded3(b, n),
        m >= 0,
        n >= 0,
    ensures
        -3 * (m * n) <= dot3(a, b) * (SCALE as int) <= 3 * (m * n),
{
    lemma_fxmul_bound(a.x, b.x, m, n);
    lemma_fxmul_bound(a.y, b.y, m, n);
    lemma_fxmul_bound(a.z, b.z, m, n);
}

/// The grid square root of a positive quantity is at least one grid step of
/// the square-root scale.
pub proof fn lemma_fxsqrt_pos(x: int)
    requires
        x >= 1,
    ensures
        fxsqrt(x) >= 65536,
{
    assert(x * (SCALE as int) >= SCALE as int) by (nonlinear_arith)
        requires
            x >= 1,
    ;
    lemma_isqrt(x * (SCALE as int));
    let r = fxsqrt(x);
    assert(r >= 65536) by (nonlinear_arith)
        requires
            r >= 0,
            x * (SCALE as int) < (r + 1) * (r + 1),
            x * (SCALE as int) >= SCALE as int,
    ;
}

/// An upper bound on the grid square root from a square upper bound on the
/// radicand.
pub proof fn lemma_fxsqrt_bound(x: int, c: int)
    requires
        0 <= x,
        c >= 0,
        x * (SCALE as int) < c * c,
    ensures
        0 <= fxsqrt(x) < c,
{
    assert(x * (SCALE as int) >= 0) by (nonlinear_arith)
        requires
            x >= 0,
    ;
    lemma_isqrt(x * (SCALE as int));
    let r = fxsqrt(x);
    assert(r < c) by (nonlinear_arith)
        requires
            r >= 0,
            c >= 0,
            r * r <= x * (SCALE as int),
            x * (SCALE as int) < c * c,
    ;
}

/// A unit vector's components never exceed two units: the length computed on
/// the grid cannot underestimate a component by more than a factor of two.
pub proof fn lemma_unit_bounded(v: Vec3V)
    requires
        bounded3(v, BOUND_COARSE as int),
        lensq3(v) >= 1,
    ensures
        bounded3(unitv(v), 2 * ONE_BITS as int),
{
    let q = lensq3(v);
    let l = len3(v);
    lemma_fxsqrt_pos(q);
    assert(q * (SCALE as int) >= SCALE as int) by (nonlinear_arith)
        requires
            q >= 1,
    ;
    lemma_isqrt(q * (SCALE as int));
    lemma_square_nonneg(v.x);
    lemma_square_nonneg(v.y);
    lemma_square_nonneg(v.z);
    lemma_unit_component(v.x, fxmul(v.x, v.x), q, l);
    lemma_unit_component(v.y, fxmul(v.y, v.y), q, l);
    lemma_unit_component(v.z, fxmul(v.z, v.z), q, l);
}

/// One component of the unit-vector bound: if `sq` is the grid square of
/// `x`, `q >= sq` and `l` is the grid square root of `q`, then dividing
/// `x` by `l` on the grid yields at most two units.
proof fn lemma_unit_component(x: int, sq: int, q: int, l: int)
    requires
        sq == fxmul(x, x),
        q >= sq,
        l >= 65536,
        q * (SCALE as int) < (l + 1) * (l + 1),
    ensures
        -2 * (ONE_BITS as int) <= fxdiv(x, l) <= 2 * (ONE_BITS as int),
{
    assert(x * x >= 0) by (nonlinear_arith);
    lemma_tdiv_bound(x * x, SCALE as int);
    assert(sq * (SCALE as int) >= x * x - (SCALE as int) + 1) by (nonlinear_arith)
        requires
            sq == tdiv(x * x, SCALE as int),
            x * x >= 0,
            sq >= 0,
            sq * (SCALE as int) <= x * x,
            x * x < (SCALE as int) * (sq + 1),
    ;
    assert(x * x < 4 * (l * l)) by (nonlinear_arith)
        requires
            x * x - (SCALE as int) + 1 <= sq * (SCALE as int),
            sq * (SCALE as int) <= q * (SCALE as int),
            q * (SCALE as int) < (l + 1) * (l + 1),
            l >= 65536,
    ;
    assert(-(2 * l) < x < 2 * l) by (nonlinear_arith)
        requires
            x * x < 4 * (l * l),
            l >= 1,
    ;
    lemma_tdiv_bound(x * (SCALE as int), l);
    assert(-2 * (ONE_BITS as int) <= tdiv(x * (SCALE as int), l) <= 2 * (ONE_BITS as int))
        by (nonlinear_arith)
        requires
            l >= 1,
            -(2 * l) < x < 2 * l,
            x * (SCALE as int) >= 0 ==> tdiv(x * (SCALE as int), l) >= 0 && tdiv(
                x * (SCALE as int),
                l,
            ) * l <= x * (SCALE as int),
            x * (SCALE as int) < 0 ==> tdiv(x * (SCALE as int), l) <= 0 && tdiv(
                x * (SCALE as int),
                l,
            ) * l >= x * (SCALE as int),
    ;
}

/// Vector of three fixed-point scalars.
#[derive(Clone, Copy, PartialEq, Eq, Structural, Debug)]
pub struct Vec3 {
    pub d_x: Fx,
    pub d_y: Fx,
    pub d_z: Fx,
}

impl View for Vec3 {
    type V = Vec3V;

    open spec fn view(&self) -> Vec3V {
        Vec3V { x: self.d_x@, y: self.d_y@, z: self.d_z@ }
    }
}

impl Vec3 {
    /// Create a new Vec3 with the given coordinates.
    pub fn new(x: Fx, y: Fx, z: Fx) -> (r: Vec3)
        ensures
            r@ == (Vec3V { x: x@, y: y@, z: z@ }),
    {
        Vec3 { d_x: x, d_y: y, d_z: z }
    }

    /// Create a new Vec3 copying fields from the given Vec3.
    pub fn copy(v: &Vec3) -> (r: Vec3)
        ensures
            r@ == v@,
    {
        Vec3 { d_x: v.d_x, d_y: v.d_y, d_z: v.d_z }
    }

    pub fn x(&self) -> (r: Fx)
        ensures
            r@ == self@.x,
    {
        self.d_x
    }

    pub fn y(&self) -> (r: Fx)
        ensures
            r@ == self@.y,
    {
        self.d_y
    }

    pub fn z(&self) -> (r: Fx)
        ensures
            r@ == self@.z,
    {
        self.d_z
    }

    /// Replace the first component.
    pub fn set_x(&mut self, v: Fx)
        ensures
            final(self)@ == (Vec3V { x: v@, ..old(self)@ }),
    {
        self.d_x = v;
    }

    /// Replace the second component.
    pub fn set_y(&mut self, v: Fx)
        ensures
            final(self)@ == (Vec3V { y: v@, ..old(self)@ }),
    {
        self.d_y = v;
    }

    /// Replace the third component.
    pub fn set_z(&mut self, v: Fx)
        ensures
            final(self)@ == (Vec3V { z: v@, ..old(self)@ }),
    {
        self.d_z = v;
    }

    /// A vector with each component drawn from `[0, 1)`.
    pub fn random() -> (r: Vec3)
        ensures
            0 <= r@.x < ONE_BITS as int,
            0 <= r@.y < ONE_BITS as int,
            0 <= r@.z < ONE_BITS as int,
    {
        Vec3 {
            d_x: crate::utils::utilities::random_fx(),
            d_y: crate::utils::utilities::random_fx(),
            d_z: crate::utils::utilities::random_fx(),
        }
    }

    /// A vector with each component drawn from
    /// `[min_inclusive, max_exclusive)`.
    pub fn random_between(min_inclusive: Fx, max_exclusive: Fx) -> (r: Vec3)
        requires
            min_inclusive@ < max_exclusive@,
            -(BOUND_COARSE as int) <= min_inclusive@,
            max_exclusive@ <= BOUND_COARSE as int,
        ensures
            min_inclusive@ <= r@.x < max_exclusive@,
            min_inclusive@ <= r@.y < max_exclusive@,
            min_inclusive@ <= r@.z < max_exclusive@,
    {
        Vec3 {
            d_x: crate::utils::utilities::random_fx_between(min_inclusive, max_exclusive),
            d_y: crate::utils::utilities::random_fx_between(min_inclusive, max_exclusive),
            d_z: crate::utils::utilities::random_fx_between(min_inclusive, max_exclusive),
        }
    }

    /// Squared length.
    pub fn len_squared(&self) -> (r: Fx)
        requires
            bounded3(self@, BOUND_COARSE as int),
        ensures
            r@ == lensq3(self@),
            r@ >= 0,
    {
        proof {
            lemma_fxmul_bound(self@.x, self@.x, BOUND_COARSE as int, BOUND_COARSE as int);
            lemma_fxmul_bound(self@.y, self@.y, BOUND_COARSE as int, BOUND_COARSE as int);
            lemma_fxmul_bound(self@.z, self@.z, BOUND_COARSE as int, BOUND_COARSE as int);
            lemma_lensq_nonneg(self@);
        }
        self.d_x.mul(self.d_x).add(self.d_y.mul(self.d_y)).add(self.d_z.mul(self.d_z))
    }

    /// Length.
    pub fn len(&self) -> (r: Fx)
        requires
            bounded3(self@, BOUND_COARSE as int),
        ensures
            r@ == len3(self@),
            r@ >= 0,
    {
        let sq = self.len_squared();
        proof {
            lemma_fxmul_bound(self@.x, self@.x, BOUND_COARSE as int, BOUND_COARSE as int);
            lemma_fxmul_bound(self@.y, self@.y, BOUND_COARSE as int, BOUND_COARSE as int);
            lemma_fxmul_bound(self@.z, self@.z, BOUND_COARSE as int, BOUND_COARSE as int);
        }
        sq.sqrt()
    }

    /// Multiply every component in place by `factor`.
    pub fn scale(&mut self, factor: Fx)
        requires
            bounded3(old(self)@, BOUND_COARSE as int),
            -(BOUND_COARSE as int) <= factor@ <= BOUND_COARSE as int,
        ensures
            final(self)@ == scalev(old(self)@, factor@),
    {
        proof {
            lemma_fxmul_bound(old(self)@.x, factor@, BOUND_COARSE as int, BOUND_COARSE as int);
            lemma_fxmul_bound(old(self)@.y, factor@, BOUND_COARSE as int, BOUND_COARSE as int);
            lemma_fxmul_bound(old(self)@.z, factor@, BOUND_COARSE as int, BOUND_COARSE as int);
        }
        self.d_x = self.d_x.mul(factor);
        self.d_y = self.d_y.mul(factor);
        self.d_z = self.d_z.mul(factor);
    }

    /// The vector with every component multiplied by `factor`.
    pub fn scaled(&self, factor: Fx) -> (r: Vec3)
        requires
            bounded3(self@, BOUND_COARSE as int),
            -(BOUND_COARSE as int) <= factor@ <= BOUND_COARSE as int,
        ensures
            r@ == scalev(self@, factor@),
    {
        proof {
            lemma_fxmul_bound(self@.x, factor@, BOUND_COARSE as int, BOUND_COARSE as int);
            lemma_fxmul_bound(self@.y, factor@, BOUND_COARSE as int, BOUND_COARSE as int);
            lemma_fxmul_bound(self@.z, factor@, BOUND_COARSE as int, BOUND_COARSE as int);
        }
        Vec3 {
            d_x: self.d_x.mul(factor),
            d_y: self.d_y.mul(factor),
            d_z: self.d_z.mul(factor),
        }
    }

    /// The unit vector in this vector's direction; fails on a vector whose
    /// squared length vanishes on the grid.
    pub fn unit_vector(&self) -> (r: Result<Vec3, &'static str>)
        requires
            bounded3(self@, BOUND_COARSE as int),
        ensures
            r is Ok <==> lensq3(self@) != 0,
            r is Ok ==> r->Ok_0@ == unitv(self@),
            r is Ok ==> bounded3(r->Ok_0@, 2 * ONE_BITS as int),
    {
        let length = self.len();
        proof {
            lemma_lensq_nonneg(self@);
            lemma_fxsqrt_zero(lensq3(self@));
            if lensq3(self@) != 0 {
                lemma_unit_bounded(self@);
            }
        }
        if length.bits() == 0 {
            return Err("Null vector does not have a unit vector");
        }
        Ok(Vec3 {
            d_x: self.d_x.div(length),
            d_y: self.d_y.div(length),
            d_z: self.d_z.div(length),
        })
    }

    /// Dot product.
    pub fn dot(&self, rhs: &Vec3) -> (r: Fx)
        requires
            bounded3(self@, BOUND_COARSE as int),
            bounded3(rhs@, BOUND_COARSE as int),
        ensures
            r@ == dot3(self@, rhs@),
    {
        proof {
            lemma_fxmul_bound(self@.x, rhs@.x, BOUND_COARSE as int, BOUND_COARSE as int);
            lemma_fxmul_bound(self@.y, rhs@.y, BOUND_COARSE as int, BOUND_COARSE as int);
            lemma_fxmul_bound(self@.z, rhs@.z, BOUND_COARSE as int, BOUND_COARSE as int);
        }
        self.d_x.mul(rhs.d_x).add(self.d_y.mul(rhs.d_y)).add(self.d_z.mul(rhs.d_z))
    }

    /// Cross product.
    pub fn cross(&self, rhs: &Vec3) -> (r: Vec3)
        requires
            bounded3(self@, BOUND_COARSE as int),
            bounded3(rhs@, BOUND_COARSE as int),
        ensures
            r@ == cross3(self@, rhs@),
    {
        proof {
            lemma_fxmul_bound(self@.x, rhs@.x, BOUND_COARSE as int, BOUND_COARSE as int);
            lemma_fxmul_bound(self@.x, rhs@.y, BOUND_COARSE as int, BOUND_COARSE as int);
            lemma_fxmul_bound(self@.x, rhs@.z, BOUND_COARSE as int, BOUND_COARSE as int);
            lemma_fxmul_bound(self@.y, rhs@.x, BOUND_COARSE as int, BOUND_COARSE as int);
            lemma_fxmul_bound(self@.y, rhs@.y, BOUND_COARSE as int, BOUND_COARSE as int);
            lemma_fxmul_bound(self@.y, rhs@.z, BOUND_COARSE as int, BOUND_COARSE as int);
            lemma_fxmul_bound(self@.z, rhs@.x, BOUND_COARSE as int, BOUND_COARSE as int);
            lemma_fxmul_bound(self@.z, rhs@.y, BOUND_COARSE as int, BOUND_COARSE as int);
            lemma_fxmul_bound(self@.z, rhs@.z, BOUND_COARSE as int, BOUND_COARSE as int);
        }
        Vec3 {
            d_x: self.d_y.mul(rhs.d_z).sub(self.d_z.mul(rhs.d_y)),
            d_y: self.d_z.mul(rhs.d_x).sub(self.d_x.mul(rhs.d_z)),
            d_z: self.d_x.mul(rhs.d_y).sub(self.d_y.mul(rhs.d_x)),
        }
    }

    /// Mirror reflection about `normal`: `v - 2 (v . n) n`.
    pub fn reflect(&self, normal: &Vec3) -> (r: Vec3)
        requires
            bounded3(self@, BOUND_UNIT as int),
            bounded3(normal@, BOUND_UNIT as int),
        ensures
            r@ == reflectv(self@, normal@),
            bounded3(r@, BOUND_REFLECT as int),
    {
        proof {
            lemma_dot3_bound(self@, normal@, BOUND_UNIT as int, BOUND_UNIT as int);
            lemma_fxmul_bound(2 * ONE_BITS as int, dot3(self@, normal@), 2 * ONE_BITS as int,
                51539607552);
            lemma_fxmul_bound(normal@.x, fxmul(2 * ONE_BITS as int, dot3(self@, normal@)),
                BOUND_UNIT as int, 103079215104);
            lemma_fxmul_bound(normal@.y, fxmul(2 * ONE_BITS as int, dot3(self@, normal@)),
                BOUND_UNIT as int, 103079215104);
            lemma_fxmul_bound(normal@.z, fxmul(2 * ONE_BITS as int, dot3(self@, normal@)),
                BOUND_UNIT as int, 103079215104);
        }
        let d = self.dot(normal);
        let twice = Fx::from_int(2).mul(d);
        let v = *self;
        v.sub(normal.scaled(twice))
    }

    /// Refraction of this direction at a surface with the given normal and
    /// relative index of refraction, by Snell's law.
    pub fn refract(&self, normal: &Vec3, relative_ior: Fx) -> (r: Vec3)
        requires
            bounded3(self@, BOUND_UNIT as int),
            bounded3(normal@, BOUND_UNIT as int),
            0 <= relative_ior@ <= BOUND_IOR as int,
        ensures
            r@ == refractv(self@, normal@, relative_ior@),
            bounded3(r@, BOUND_REFRACT as int),
    {
        let one = Fx::one();
        proof {
            lemma_dot3_bound(self@, normal@, BOUND_UNIT as int, BOUND_UNIT as int);
        }
        let cos_theta = self.dot(normal).neg().min(one);
        proof {
            lemma_fxmul_bound(normal@.x, cos_theta@, BOUND_UNIT as int, 51539607552);
            lemma_fxmul_bound(normal@.y, cos_theta@, BOUND_UNIT as int, 51539607552);
            lemma_fxmul_bound(normal@.z, cos_theta@, BOUND_UNIT as int, 51539607552);
        }
        let shifted = (*self).add(normal.scaled(cos_theta));
        proof {
            lemma_fxmul_bound(shifted@.x, relative_ior@, 111669149696, BOUND_IOR as int);
            lemma_fxmul_bound(shifted@.y, relative_ior@, 111669149696, BOUND_IOR as int);
            lemma_fxmul_bound(shifted@.z, relative_ior@, 111669149696, BOUND_IOR as int);
        }
        let ray_out_orth = shifted.scaled(relative_ior);
        let k = one.sub(ray_out_orth.len_squared()).abs();
        proof {
            lemma_fxmul_bound(ray_out_orth@.x, ray_out_orth@.x, 446676598784, 446676598784);
            lemma_fxmul_bound(ray_out_orth@.y, ray_out_orth@.y, 446676598784, 446676598784);
            lemma_fxmul_bound(ray_out_orth@.z, ray_out_orth@.z, 446676598784, 446676598784);
            lemma_fxsqrt_bound(k@, 858993459200);
            lemma_fxmul_bound(normal@.x, -fxsqrt(k@), BOUND_UNIT as int, 858993459200);
            lemma_fxmul_bound(normal@.y, -fxsqrt(k@), BOUND_UNIT as int, 858993459200);
            lemma_fxmul_bound(normal@.z, -fxsqrt(k@), BOUND_UNIT as int, 858993459200);
        }
        let ray_out_prll = normal.scaled(k.sqrt().neg());
        ray_out_orth.add(ray_out_prll)
    }

    /// The zero vector.
    pub fn zero_vec() -> (r: Vec3)
        ensures
            r@ == zerov(),
    {
        Vec3 { d_x: Fx::zero(), d_y: Fx::zero(), d_z: Fx::zero() }
    }

    /// The all-ones vector.
    pub fn ones_vec() -> (r: Vec3)
        ensures
            r@ == (Vec3V {
                x: ONE_BITS as int,
                y: ONE_BITS as int,
                z: ONE_BITS as int,
            }),
    {
        Vec3 { d_x: Fx::one(), d_y: Fx::one(), d_z: Fx::one() }
    }

    /// Unary minus.
    pub fn neg(self) -> (r: Vec3)
        requires
            bounded3(self@, i128::MAX as int),
        ensures
            r@ == negv(self@),
    {
        Vec3 { d_x: self.d_x.neg(), d_y: self.d_y.neg(), d_z: self.d_z.neg() }
    }

    /// Component-wise sum.
    pub fn add(self, rhs: Vec3) -> (r: Vec3)
        requires
            i128::MIN <= self@.x + rhs@.x <= i128::MAX,
            i128::MIN <= self@.y + rhs@.y <= i128::MAX,
            i128::MIN <= self@.z + rhs@.z <= i128::MAX,
        ensures
            r@ == addv(self@, rhs@),
    {
        Vec3 {
            d_x: self.d_x.add(rhs.d_x),
            d_y: self.d_y.add(rhs.d_y),
            d_z: self.d_z.add(rhs.d_z),
        }
    }

    /// Add `rhs` in place.
    pub fn add_assign(&mut self, rhs: Vec3)
        requires
            i128::MIN <= old(self)@.x + rhs@.x <= i128::MAX,
            i128::MIN <= old(self)@.y + rhs@.y <= i128::MAX,
            i128::MIN <= old(self)@.z + rhs@.z <= i128::MAX,
        ensures
            final(self)@ == addv(old(self)@, rhs@),
    {
        self.d_x = self.d_x.add(rhs.d_x);
        self.d_y = self.d_y.add(rhs.d_y);
        self.d_z = self.d_z.add(rhs.d_z);
    }

    /// Component-wise difference.
    pub fn sub(self, rhs: Vec3) -> (r: Vec3)
        requires
            i128::MIN <= self@.x - rhs@.x <= i128::MAX,
            i128::MIN <= self@.y - rhs@.y <= i128::MAX,
            i128::MIN <= self@.z - rhs@.z <= i128::MAX,
        ensures
            r@ == subv(self@, rhs@),
    {
        Vec3 {
            d_x: self.d_x.sub(rhs.d_x),
            d_y: self.d_y.sub(rhs.d_y),
            d_z: self.d_z.sub(rhs.d_z),
        }
    }

    /// Subtract `rhs` in place.
    pub fn sub_assign(&mut self, rhs: Vec3)
        requires
            i128::MIN <= old(self)@.x - rhs@.x <= i128::MAX,
            i128::MIN <= old(self)@.y - rhs@.y <= i128::MAX,
            i128::MIN <= old(self)@.z - rhs@.z <= i128::MAX,
        ensures
            final(self)@ == subv(old(self)@, rhs@),
    {
        self.d_x = self.d_x.sub(rhs.d_x);
        self.d_y = self.d_y.sub(rhs.d_y);
        self.d_z = self.d_z.sub(rhs.d_z);
    }

    /// Component-wise product.
    pub fn mul(self, rhs: Vec3) -> (r: Vec3)
        requires
            bounded3(self@, BOUND_COARSE as int),
            bounded3(rhs@, BOUND_COARSE as int),
        ensures
            r@ == mulv(self@, rhs@),
    {
        proof {
            lemma_fxmul_bound(self@.x, rhs@.x, BOUND_COARSE as int, BOUND_COARSE as int);
            lemma_fxmul_bound(self@.y, rhs@.y, BOUND_COARSE as int, BOUND_COARSE as int);
            lemma_fxmul_bound(self@.z, rhs@.z, BOUND_COARSE as int, BOUND_COARSE as int);
        }
        Vec3 {
            d_x: self.d_x.mul(rhs.d_x),
            d_y: self.d_y.mul(rhs.d_y),
            d_z: self.d_z.mul(rhs.d_z),
        }
    }

    /// Whether every component's magnitude stays within `m` steps.
    pub fn in_bounds(&self, m: i128) -> (r: bool)
        requires
            m >= 0,
        ensures
            r == bounded3(self@, m as int),
    {
        -m <= self.d_x.bits && self.d_x.bits <= m && -m <= self.d_y.bits && self.d_y.bits <= m
            && -m <= self.d_z.bits && self.d_z.bits <= m
    }

    /// All components within the vanishing threshold of `target`.
    pub fn is_nearly(&self, target: Fx) -> (r: bool)
        requires
            bounded3(self@, BOUND_COARSE as int),
            -(BOUND_COARSE as int) <= target@ <= BOUND_COARSE as int,
        ensures
            r == nearly3(self@, target@),
    {
        let e = Fx::from_bits(NEARLY_EPS_BITS);
        self.d_x.sub(target).abs().lt(e) && self.d_y.sub(target).abs().lt(e) && self.d_z.sub(
            target,
        ).abs().lt(e)
    }

    /// All components within the vanishing threshold of zero.
    pub fn is_nearly_zero(&self) -> (r: bool)
        requires
            bounded3(self@, BOUND_COARSE as int),
        ensures
            r == nearly3(self@, 0),
    {
        self.is_nearly(Fx::zero())
    }
}

} // verus!
