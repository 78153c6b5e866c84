//! Fixed-point scalar type underlying all geometry.
//!
//! A quantity is stored as an `i128` count of steps of size `1 / SCALE`,
//! so the represented value of `Fx { bits }` is `bits / SCALE`. All
//! arithmetic is exact integer arithmetic with truncation toward zero,
//! which the contracts state precisely over the raw step counts.

use vstd::prelude::*;

verus! {

/// Number of steps per unit: the represented value of a scalar is
/// `bits / SCALE`.
pub const SCALE: i128 = 4294967296;

/// One unit, as a step count.
pub const ONE_BITS: i128 = 4294967296;

/// Division truncating toward zero, as Rust's `/` computes it on signed
/// integers (ghost `/` alone is Euclidean).
pub open spec fn tdiv(x: int, d: int) -> int {
    if x == 0 {
        0
    } else if x > 0 && d > 0 {
        x / d
    } else if x < 0 && d < 0 {
        (x * -1) / (d * -1)
    } else if x < 0 {
        ((x * -1) / d) * -1
    } else {
        (x / (d * -1)) * -1
    }
}

/// Step count of the product of two scalars given by step counts.
pub open spec fn fxmul(a: int, b: int) -> int {
    tdiv(a * b, SCALE as int)
}

/// Step count of the quotient of two scalars given by step counts.
pub open spec fn fxdiv(a: int, b: int) -> int {
    tdiv(a * (SCALE as int), b)
}

/// `r` is the integer square root of `x`.
pub open spec fn is_isqrt(x: int, r: int) -> bool {
    r >= 0 && r * r <= x && x < (r + 1) * (r + 1)
}

/// Integer square root (floor of the real square root).
pub open spec fn isqrt(x: int) -> int {
    choose|r: int| #[trigger] is_isqrt(x, r)
}

/// Step count of the square root of the scalar with step count `x`.
pub open spec fn fxsqrt(x: int) -> int {
    isqrt(x * (SCALE as int))
}

/// Flipping the sign of the divisor flips the sign of the quotient.
pub proof fn lemma_tdiv_neg_divisor(x: int, d: int)
    requires
        d <= -1,
    ensures
        tdiv(x, d) == -tdiv(x, -d),
{
}

/// Basic shape of truncating division for a positive divisor.
pub proof fn lemma_tdiv(x: int, d: int)
    by (nonlinear_arith)
    requires
        d >= 1,
    ensures
        x >= 0 ==> 0 <= tdiv(x, d) && d * tdiv(x, d) <= x && x < d * (tdiv(x, d) + 1),
        x < 0 ==> tdiv(x, d) <= 0 && d * tdiv(x, d) >= x && x > d * (tdiv(x, d) - 1),
        tdiv(-x, d) == -tdiv(x, d),
{
}

/// Truncating division by a positive divisor shrinks magnitudes:
/// `|tdiv(x, d)| * d` never exceeds `|x|`.
pub proof fn lemma_tdiv_bound(x: int, d: int)
    requires
        d >= 1,
    ensures
        tdiv(x, d) * d <= x || -(tdiv(x, d) * d) <= -x,
        x >= 0 ==> tdiv(x, d) >= 0 && tdiv(x, d) * d <= x,
        x < 0 ==> tdiv(x, d) <= 0 && tdiv(x, d) * d >= x,
        tdiv(x, d) <= if x >= 0 { x } else { 0 },
        tdiv(x, d) >= if x < 0 { x } else { 0 },
{
    lemma_tdiv(x, d);
    assert(x >= 0 ==> tdiv(x, d) * d <= x && tdiv(x, d) <= x) by (nonlinear_arith)
        requires
            d >= 1,
            x >= 0 ==> 0 <= tdiv(x, d) && d * tdiv(x, d) <= x,
    ;
    assert(x < 0 ==> tdiv(x, d) * d >= x && tdiv(x, d) >= x) by (nonlinear_arith)
        requires
            d >= 1,
            x < 0 ==> tdiv(x, d) <= 0 && d * tdiv(x, d) >= x,
    ;
}

/// A product bound: if the factors are bounded in magnitude and the bound
/// product stays in range, the scaled product is bounded accordingly.
pub proof fn lemma_fxmul_bound(a: int, b: int, m: int, n: int)
    requires
        -m <= a <= m,
        -n <= b <= n,
        m >= 0,
        n >= 0,
    ensures
        -(m * n) <= a * b <= m * n,
        -(m * n) <= fxmul(a, b) * (SCALE as int) <= m * n,
        fxmul(a, b) * (SCALE as int) <= a * b || fxmul(a, b) * (SCALE as int) <= -(a * b),
{
    assert(-(m * n) <= a * b <= m * n) by (nonlinear_arith)
        requires
            -m <= a <= m,
            -n <= b <= n,
            m >= 0,
            n >= 0,
    ;
    lemma_tdiv_bound(a * b, SCALE as int);
    assert(-(m * n) <= fxmul(a, b) * (SCALE as int) <= m * n) by (nonlinear_arith)
        requires
            -(m * n) <= a * b <= m * n,
            a * b >= 0 ==> fxmul(a, b) >= 0 && fxmul(a, b) * (SCALE as int) <= a * b,
            a * b < 0 ==> fxmul(a, b) <= 0 && fxmul(a, b) * (SCALE as int) >= a * b,
    ;
}

/// Truncating division by a positive divisor is monotone.
pub proof fn lemma_tdiv_monotone(x: int, y: int, d: int)
    requires
        x <= y,
        d >= 1,
    ensures
        tdiv(x, d) <= tdiv(y, d),
{
    lemma_tdiv(x, d);
    lemma_tdiv(y, d);
    assert(tdiv(x, d) <= tdiv(y, d)) by (nonlinear_arith)
        requires
            x <= y,
            d >= 1,
            x >= 0 ==> 0 <= tdiv(x, d) && d * tdiv(x, d) <= x && x < d * (tdiv(x, d) + 1),
            x < 0 ==> tdiv(x, d) <= 0 && d * tdiv(x, d) >= x && x > d * (tdiv(x, d) - 1),
            y >= 0 ==> 0 <= tdiv(y, d) && d * tdiv(y, d) <= y && y < d * (tdiv(y, d) + 1),
            y < 0 ==> tdiv(y, d) <= 0 && d * tdiv(y, d) >= y && y > d * (tdiv(y, d) - 1),
    ;
}

/// Multiplying by one is exact on the grid.
pub proof fn lemma_fxmul_one(x: int)
    ensures
        fxmul(ONE_BITS as int, x) == x,
        fxmul(x, ONE_BITS as int) == x,
{
    if x >= 0 {
        vstd::arithmetic::div_mod::lemma_div_multiples_vanish(x, SCALE as int);
        assert((SCALE as int) * x == x * (SCALE as int)) by (nonlinear_arith);
    } else {
        vstd::arithmetic::div_mod::lemma_div_multiples_vanish(-x, SCALE as int);
        assert((SCALE as int) * (-x) == -(x * (SCALE as int)) && (SCALE as int) * (-x) == -((
        SCALE as int) * x)) by (nonlinear_arith);
    }
}

/// A quotient bound: dividing a quantity of magnitude at most `m` by a
/// divisor of at least `c` yields at most `m * SCALE / c` in magnitude.
pub proof fn lemma_fxdiv_bound(a: int, b: int, m: int, c: int)
    requires
        -m <= a <= m,
        m >= 0,
        b >= c,
        c >= 1,
    ensures
        -(m * (SCALE as int)) <= fxdiv(a, b) * c <= m * (SCALE as int),
        c >= SCALE as int ==> -m <= fxdiv(a, b) <= m,
        a >= 0 ==> fxdiv(a, b) >= 0,
        a < 0 ==> fxdiv(a, b) <= 0,
{
    lemma_tdiv_bound(a * (SCALE as int), b);
    assert(a >= 0 ==> a * (SCALE as int) >= 0 && a * (SCALE as int) <= m * (SCALE as int))
        by (nonlinear_arith)
        requires
            a <= m,
    ;
    assert(a < 0 ==> a * (SCALE as int) < 0 && a * (SCALE as int) >= -(m * (SCALE as int)))
        by (nonlinear_arith)
        requires
            -m <= a,
    ;
    let q = tdiv(a * (SCALE as int), b);
    assert(-(m * (SCALE as int)) <= q * c <= m * (SCALE as int)) by (nonlinear_arith)
        requires
            b >= c >= 1,
            a * (SCALE as int) >= 0 ==> q >= 0 && q * b <= a * (SCALE as int) && a * (
            SCALE as int) <= m * (SCALE as int),
            a * (SCALE as int) < 0 ==> q <= 0 && q * b >= a * (SCALE as int) && a * (SCALE as int)
                >= -(m * (SCALE as int)),
    ;
    if c >= SCALE as int {
        assert(-m <= q <= m) by (nonlinear_arith)
            requires
                c >= SCALE as int,
                m >= 0,
                -(m * (SCALE as int)) <= q * c <= m * (SCALE as int),
        ;
    }
}

proof fn lemma_isqrt_exists(x: int)
    requires
        x >= 0,
    ensures
        exists|r: int| is_isqrt(x, r),
    decreases x,
{
    if x == 0 {
        assert(is_isqrt(0, 0)) by (nonlinear_arith);
    } else {
        lemma_isqrt_exists(x - 1);
        let r = choose|r: int| #[trigger] is_isqrt(x - 1, r);
        if (r + 1) * (r + 1) <= x {
            assert(is_isqrt(x, r + 1)) by (nonlinear_arith)
                requires
                    r >= 0,
                    r * r <= x - 1,
                    x - 1 < (r + 1) * (r + 1),
                    (r + 1) * (r + 1) <= x,
            ;
        } else {
            assert(is_isqrt(x, r));
        }
    }
}

proof fn lemma_isqrt_unique(x: int, r1: int, r2: int)
    by (nonlinear_arith)
    requires
        is_isqrt(x, r1),
        is_isqrt(x, r2),
    ensures
        r1 == r2,
{
}

/// The integer square root of a nonnegative number satisfies its defining
/// inequalities.
pub proof fn lemma_isqrt(x: int)
    requires
        x >= 0,
    ensures
        is_isqrt(x, isqrt(x)),
        isqrt(x) >= 0,
        isqrt(x) * isqrt(x) <= x,
        x < (isqrt(x) + 1) * (isqrt(x) + 1),
{
    lemma_isqrt_exists(x);
}

/// Fixed-point scalar: the represented value is `bits / SCALE`.
#[derive(Clone, Copy, PartialEq, Eq, Structural, Debug)]
pub struct Fx {
    pub bits: i128,
}

impl View for Fx {
    type V = int;

    open spec fn view(&self) -> int {
        self.bits as int
    }
}

impl Fx {
    /// The scalar with the given step count.
    pub fn from_bits(bits: i128) -> (r: Fx)
        ensures
            r@ == bits,
    {
        Fx { bits }
    }

    /// The step count of this scalar.
    pub fn bits(self) -> (r: i128)
        ensures
            r == self@,
    {
        self.bits
    }

    /// The scalar representing the given small integer exactly.
    pub fn from_int(v: i64) -> (r: Fx)
        ensures
            r@ == v * (SCALE as int),
    {
        Fx { bits: (v as i128) * SCALE }
    }

    /// Zero.
    pub fn zero() -> (r: Fx)
        ensures
            r@ == 0,
    {
        Fx { bits: 0 }
    }

    /// One.
    pub fn one() -> (r: Fx)
        ensures
            r@ == ONE_BITS,
    {
        Fx { bits: ONE_BITS }
    }

    /// Sum of two scalars.
    pub fn add(self, rhs: Fx) -> (r: Fx)
        requires
            i128::MIN <= self@ + rhs@ <= i128::MAX,
        ensures
            r@ == self@ + rhs@,
    {
        Fx { bits: self.bits + rhs.bits }
    }

    /// Difference of two scalars.
    pub fn sub(self, rhs: Fx) -> (r: Fx)
        requires
            i128::MIN <= self@ - rhs@ <= i128::MAX,
        ensures
            r@ == self@ - rhs@,
    {
        Fx { bits: self.bits - rhs.bits }
    }

    /// Negation.
    pub fn neg(self) -> (r: Fx)
        requires
            self@ != i128::MIN,
        ensures
            r@ == -self@,
    {
        Fx { bits: -self.bits }
    }

    /// Magnitude.
    pub fn abs(self) -> (r: Fx)
        requires
            self@ != i128::MIN,
        ensures
            r@ == if self@ >= 0 { self@ } else { -self@ },
    {
        if self.bits >= 0 {
            self
        } else {
            Fx { bits: -self.bits }
        }
    }

    /// Product of two scalars, truncated toward zero to the grid.
    pub fn mul(self, rhs: Fx) -> (r: Fx)
        requires
            i128::MIN <= self@ * rhs@ <= i128::MAX,
        ensures
            r@ == fxmul(self@, rhs@),
    {
        let p: i128 = self.bits * rhs.bits;
        proof {
            lemma_tdiv_bound(p as int, SCALE as int);
        }
        let q = p.checked_div(SCALE);
        Fx { bits: q.unwrap() }
    }

    /// Quotient of two scalars, truncated toward zero to the grid.
    pub fn div(self, rhs: Fx) -> (r: Fx)
        requires
            rhs@ != 0,
            -(i128::MAX as int) <= self@ * (SCALE as int) <= i128::MAX as int,
        ensures
            r@ == fxdiv(self@, rhs@),
    {
        let p: i128 = self.bits * SCALE;
        proof {
            if rhs@ >= 1 {
                lemma_tdiv_bound(p as int, rhs@);
                assert(i128::MIN <= tdiv(p as int, rhs@) <= i128::MAX);
            } else {
                lemma_tdiv_neg_divisor(p as int, rhs@);
                lemma_tdiv_bound(p as int, -rhs@);
                assert(i128::MIN <= tdiv(p as int, rhs@) <= i128::MAX);
            }
        }
        let q = p.checked_div(rhs.bits);
        Fx { bits: q.unwrap() }
    }

    /// Square root on the grid: the step count of the result is the integer
    /// square root of `bits * SCALE`, so a perfect square of a whole number
    /// of units is exact.
    pub fn sqrt(self) -> (r: Fx)
        requires
            0 <= self@,
            self@ * (SCALE as int) <= i128::MAX,
        ensures
            r@ == fxsqrt(self@),
            r@ >= 0,
    {
        let y: u128 = (self.bits as u128) * (SCALE as u128);
        let mut lo: u128 = 0;
        let mut hi: u128 = 18446744073709551616;
        proof {
            assert((y as int) < (hi as int) * (hi as int)) by (nonlinear_arith)
                requires
                    y as int <= i128::MAX,
                    hi == 18446744073709551616,
            ;
        }
        while lo + 1 < hi
            invariant
                lo < hi <= 18446744073709551616,
                (lo as int) * (lo as int) <= y as int,
                (y as int) < (hi as int) * (hi as int),
            decreases hi - lo,
        {
            let mid = lo + (hi - lo) / 2;
            proof {
                assert(mid * mid <= u128::MAX) by (nonlinear_arith)
                    requires
                        mid < 18446744073709551616,
                ;
            }
            if mid * mid <= y {
                lo = mid;
            } else {
                hi = mid;
            }
        }
        proof {
            assert(is_isqrt(y as int, lo as int));
            lemma_isqrt(y as int);
            lemma_isqrt_unique(y as int, lo as int, isqrt(y as int));
        }
        Fx { bits: lo as i128 }
    }

    /// The smaller of two scalars.
    pub fn min(self, rhs: Fx) -> (r: Fx)
        ensures
            r@ == if self@ <= rhs@ {
                self@
            } else {
                rhs@
            },
    {
        if self.bits <= rhs.bits {
            self
        } else {
            rhs
        }
    }

    /// Strict comparison.
    pub fn lt(self, rhs: Fx) -> (r: bool)
        ensures
            r == (self@ < rhs@),
    {
        self.bits < rhs.bits
    }

    /// Non-strict comparison.
    pub fn le(self, rhs: Fx) -> (r: bool)
        ensures
            r == (self@ <= rhs@),
    {
        self.bits <= rhs.bits
    }
}

} // verus!
