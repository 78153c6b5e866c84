//! Colors are vectors: channels `x`, `y`, `z` stand for red, green, blue.

use vstd::prelude::*;

use crate::fx::{fxdiv, fxmul, lemma_fxmul_bound, lemma_fxmul_one,
    lemma_tdiv, lemma_tdiv_bound, tdiv, Fx, ONE_BITS, SCALE};
use crate::types::vec3::{bounded3, Vec3, Vec3V, BOUND_COARSE};
use crate::utils::utilities::{clamp, clamped};

verus! {

pub type Color = Vec3;

/// Step count of the clamp ceiling for a pixel channel (about 0.999).
pub const CLAMP_MAX_BITS: i128 = 4290672328;

/// Magnitude bound on a channel of any color the integrator produces
/// (three units).
pub const BOUND_COLOR: i128 = 12884901888;

/// Full-transmission white.
pub fn color_white() -> (c: Color)
    ensures
        c@ == (Vec3V { x: ONE_BITS as int, y: ONE_BITS as int, z: ONE_BITS as int }),
{
    Vec3::new(Fx::one(), Fx::one(), Fx::one())
}

/// Absorption black.
pub fn color_black() -> (c: Color)
    ensures
        c@ == (Vec3V { x: 0, y: 0, z: 0 }),
{
    Vec3::new(Fx::zero(), Fx::zero(), Fx::zero())
}

/// The grid power `b^n` computed by repeated grid multiplication, each step
/// truncated to the grid.
pub open spec fn fxpow(b: int, n: nat) -> int
    decreases n,
{
    if n <= 1 {
        b
    } else {
        fxmul(fxpow(b, (n - 1) as nat), b)
    }
}

/// `r` is the grid `n`-th root of `x`: the largest scalar whose grid power
/// does not exceed `x`.
pub open spec fn is_fxroot(x: int, n: nat, r: int) -> bool {
    &&& 0 <= r <= ONE_BITS as int
    &&& fxpow(r, n) <= x
    &&& x < fxpow(r + 1, n)
}

/// The grid `n`-th root.
pub open spec fn fxroot(x: int, n: nat) -> int {
    choose|r: int| #[trigger] is_fxroot(x, n, r)
}

/// An 8-bit pixel channel: the accumulated channel is averaged over the
/// samples, raised to `1 / gamma` on the grid, clamped to `[0, 0.999]` and
/// mapped to `floor(256 * channel)`. The average is clamped into the same
/// range before the root as well, which pins colors beyond white to the
/// ceiling just as the final clamp would.
pub open spec fn pixel_channel(c: int, samples: int, gamma: nat) -> int {
    let scaled = fxdiv(c, samples * SCALE as int);
    let pre = clamped(scaled, 0, CLAMP_MAX_BITS as int);
    let root = fxroot(pre, gamma);
    tdiv(256 * clamped(root, 0, CLAMP_MAX_BITS as int), SCALE as int)
}

/// Grid powers of bases in `[0, 1]` stay in `[0, 1]`.
proof fn lemma_fxpow_range(b: int, n: nat)
    requires
        0 <= b <= ONE_BITS as int,
        n >= 1,
    ensures
        0 <= fxpow(b, n) <= ONE_BITS as int,
    decreases n,
{
    if n > 1 {
        lemma_fxpow_range(b, (n - 1) as nat);
        let y = fxpow(b, (n - 1) as nat);
        assert(0 <= y * b) by (nonlinear_arith)
            requires
                0 <= y && 0 <= b,
        ;
        lemma_fxmul_bound(y, b, ONE_BITS as int, ONE_BITS as int);
        lemma_tdiv_bound(y * b, SCALE as int);
    }
}

/// Grid powers are monotone in the base over `[0, 1 + one step]`.
proof fn lemma_fxpow_mono(a: int, b: int, n: nat)
    requires
        0 <= a <= b,
        b <= ONE_BITS as int + 1,
        n >= 1,
    ensures
        fxpow(a, n) <= fxpow(b, n),
        0 <= fxpow(a, n),
    decreases n,
{
    if n <= 1 {
    } else {
        lemma_fxpow_mono(a, b, (n - 1) as nat);
        let ya = fxpow(a, (n - 1) as nat);
        let yb = fxpow(b, (n - 1) as nat);
        assert(0 <= ya * a <= yb * b) by (nonlinear_arith)
            requires
                0 <= ya <= yb,
                0 <= a <= b,
        ;
        lemma_tdiv_bound(ya * a, SCALE as int);
        lemma_tdiv_bound(yb * b, SCALE as int);
        assert(tdiv(ya * a, SCALE as int) <= tdiv(yb * b, SCALE as int)) by (nonlinear_arith)
            requires
                0 <= ya * a <= yb * b,
                tdiv(ya * a, SCALE as int) >= 0,
                tdiv(yb * b, SCALE as int) >= 0,
                tdiv(ya * a, SCALE as int) * (SCALE as int) <= ya * a,
                ya * a < (SCALE as int) * (tdiv(ya * a, SCALE as int) + 1),
                tdiv(yb * b, SCALE as int) * (SCALE as int) <= yb * b,
                yb * b < (SCALE as int) * (tdiv(yb * b, SCALE as int) + 1),
        ;
        lemma_tdiv(ya * a, SCALE as int);
        lemma_tdiv(yb * b, SCALE as int);
    }
}

/// The grid power of one is one.
proof fn lemma_fxpow_one(n: nat)
    requires
        n >= 1,
    ensures
        fxpow(ONE_BITS as int, n) == ONE_BITS as int,
    decreases n,
{
    if n > 1 {
        lemma_fxpow_one((n - 1) as nat);
        lemma_fxmul_one(ONE_BITS as int);
    }
}

/// The grid root is unique.
proof fn lemma_fxroot_unique(x: int, n: nat, r1: int, r2: int)
    requires
        n >= 1,
        is_fxroot(x, n, r1),
        is_fxroot(x, n, r2),
    ensures
        r1 == r2,
{
    if r1 < r2 {
        lemma_fxpow_mono(r1 + 1, r2, n);
    }
    if r2 < r1 {
        lemma_fxpow_mono(r2 + 1, r1, n);
    }
}

/// The grid power `b^n`, by repeated grid multiplication.
fn fxpow_exec(b: Fx, n: u64) -> (r: Fx)
    requires
        0 <= b@ <= ONE_BITS as int,
        n >= 1,
    ensures
        r@ == fxpow(b@, n as nat),
        0 <= r@ <= ONE_BITS as int,
{
    let mut y = b;
    let mut k: u64 = 1;
    while k < n
        invariant
            1 <= k <= n,
            0 <= b@ <= ONE_BITS as int,
            y@ == fxpow(b@, k as nat),
            0 <= y@ <= ONE_BITS as int,
        decreases n - k,
    {
        proof {
            assert(0 <= y@ * b@) by (nonlinear_arith)
                requires
                    0 <= y@ && 0 <= b@,
            ;
            lemma_fxmul_bound(y@, b@, ONE_BITS as int, ONE_BITS as int);
            lemma_tdiv_bound(y@ * b@, SCALE as int);
        }
        y = y.mul(b);
        k = k + 1;
    }
    y
}

/// The grid `n`-th root of `x`, by bisection on the grid power.
fn fxroot_exec(x: Fx, n: u64) -> (r: Fx)
    requires
        0 <= x@ < ONE_BITS as int,
        n >= 1,
    ensures
        r@ == fxroot(x@, n as nat),
        is_fxroot(x@, n as nat, r@),
{
    let mut lo = Fx::zero();
    let mut hi = Fx::one();
    proof {
        lemma_fxpow_one(n as nat);
        lemma_zero_pow(n as nat);
    }
    while lo.bits() + 1 < hi.bits()
        invariant
            n >= 1,
            0 <= lo@ < hi@ <= ONE_BITS as int,
            fxpow(lo@, n as nat) <= x@,
            x@ < fxpow(hi@, n as nat),
        decreases hi@ - lo@,
    {
        let half_gap = (((hi.bits() - lo.bits()) as u128) / 2) as i128;
        let mid = Fx::from_bits(lo.bits() + half_gap);
        let y = fxpow_exec(mid, n);
        if y.le(x) {
            lo = mid;
        } else {
            hi = mid;
        }
    }
    proof {
        assert(is_fxroot(x@, n as nat, lo@));
        let w = choose|r: int| #[trigger] is_fxroot(x@, n as nat, r);
        lemma_fxroot_unique(x@, n as nat, lo@, w);
    }
    lo
}

/// The grid power of zero is zero.
proof fn lemma_zero_pow(n: nat)
    requires
        n >= 1,
    ensures
        fxpow(0, n) == 0,
    decreases n,
{
    if n > 1 {
        lemma_zero_pow((n - 1) as nat);
    }
}

/// Serialize one accumulated pixel color: average over the samples, apply
/// the `1 / gamma` power, clamp each channel to `[0, 0.999]` and map it to
/// an 8-bit value by `floor(256 * channel)`.
pub fn pixel_triplet(color: &Color, samples_per_pixel: u64, gamma: u64) -> (r: (u64, u64, u64))
    requires
        1 <= samples_per_pixel <= 1048576,
        gamma >= 1,
        bounded3(color@, BOUND_COARSE as int),
    ensures
        r.0 == pixel_channel(color@.x, samples_per_pixel as int, gamma as nat),
        r.1 == pixel_channel(color@.y, samples_per_pixel as int, gamma as nat),
        r.2 == pixel_channel(color@.z, samples_per_pixel as int, gamma as nat),
        r.0 <= 255 && r.1 <= 255 && r.2 <= 255,
{
    (
        pixel_channel_exec(color.x(), samples_per_pixel, gamma),
        pixel_channel_exec(color.y(), samples_per_pixel, gamma),
        pixel_channel_exec(color.z(), samples_per_pixel, gamma),
    )
}

/// One channel of `pixel_triplet`.
fn pixel_channel_exec(c: Fx, samples_per_pixel: u64, gamma: u64) -> (r: u64)
    requires
        1 <= samples_per_pixel <= 1048576,
        gamma >= 1,
        -(BOUND_COARSE as int) <= c@ <= BOUND_COARSE as int,
    ensures
        r == pixel_channel(c@, samples_per_pixel as int, gamma as nat),
        r <= 255,
{
    let samples = Fx::from_int(samples_per_pixel as i64);
    let scaled = c.div(samples);
    let ceiling = Fx::from_bits(CLAMP_MAX_BITS);
    let pre = clamp(scaled, Fx::zero(), ceiling);
    let root = fxroot_exec(pre, gamma);
    let cl = clamp(root, Fx::zero(), ceiling);
    let wide: i128 = 256 * cl.bits();
    proof {
        lemma_tdiv_bound(wide as int, SCALE as int);
        crate::fx::lemma_tdiv(wide as int, SCALE as int);
        assert(tdiv(wide as int, SCALE as int) <= 255) by (nonlinear_arith)
            requires
                0 <= wide as int <= 256 * (CLAMP_MAX_BITS as int),
                tdiv(wide as int, SCALE as int) >= 0,
                tdiv(wide as int, SCALE as int) * (SCALE as int) <= wide as int,
        ;
    }
    let q = wide.checked_div(SCALE).unwrap();
    q as u64
}

} // verus!
