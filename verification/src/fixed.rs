//! The fixed-point scalar domain.
//!
//! A scalar is an `i64` holding its value times `SCALE`.  All operations
//! truncate toward zero and saturate symmetrically at `FX_MAX` / `-FX_MAX`,
//! so every operation is total and its result is stated exactly by a spec
//! function.  With `SCALE` set to one billion, one raw unit of a time value
//! is one nanosecond, which is the unit in which velocity damping is applied.

use vstd::arithmetic::div_mod::lemma_div_by_multiple;
use vstd::arithmetic::div_mod::lemma_div_is_strictly_smaller;
use vstd::arithmetic::div_mod::lemma_div_non_zero;
use vstd::arithmetic::div_mod::lemma_div_pos_is_pos;
use vstd::prelude::*;

verus! {

/// Scale factor of the fixed-point representation: raw value `SCALE` is 1.0.
pub const SCALE: i64 = 1_000_000_000;

/// Largest representable raw value; the smallest is its negation, so that
/// negation never overflows and saturation is symmetric.
pub const FX_MAX: i64 = 9_223_372_036_854_775_807;

/// A raw value the operations can produce: `i64::MIN` is excluded.
pub open spec fn fx_in_range(x: int) -> bool {
    -(FX_MAX as int) <= x <= FX_MAX as int
}

/// Symmetric saturation to the representable range.
pub open spec fn clip(x: int) -> int {
    if x > FX_MAX as int {
        FX_MAX as int
    } else if x < -(FX_MAX as int) {
        -(FX_MAX as int)
    } else {
        x
    }
}

pub open spec fn abs_val(x: int) -> int {
    if x >= 0 {
        x
    } else {
        -x
    }
}

/// Division truncating toward zero, total: division by zero gives zero.
pub open spec fn tdiv(x: int, d: int) -> int {
    if d == 0 {
        0
    } else if (x >= 0) == (d >= 0) {
        abs_val(x) / abs_val(d)
    } else {
        -(abs_val(x) / abs_val(d))
    }
}

/// Saturating fixed-point addition.
pub open spec fn fx_add_s(a: int, b: int) -> int {
    clip(a + b)
}

/// Saturating fixed-point subtraction.
pub open spec fn fx_sub_s(a: int, b: int) -> int {
    clip(a - b)
}

/// Saturating fixed-point negation.
pub open spec fn fx_neg_s(a: int) -> int {
    clip(-a)
}

/// Saturating fixed-point multiplication, truncating toward zero.
pub open spec fn fx_mul_s(a: int, b: int) -> int {
    clip(tdiv(a * b, SCALE as int))
}

/// Saturating fixed-point division, truncating toward zero; zero divisor
/// gives zero.
pub open spec fn fx_div_s(a: int, b: int) -> int {
    clip(tdiv(a * (SCALE as int), b))
}

/// Saturating product of a plain integer count with a fixed-point scalar.
pub open spec fn fx_scale_s(k: int, x: int) -> int {
    clip(k * x)
}

pub open spec fn is_sqrt(x: int, r: int) -> bool {
    0 <= r && r * r <= x && x < (r + 1) * (r + 1)
}

/// The integer square root: the unique `r >= 0` with `r^2 <= x < (r+1)^2`.
pub open spec fn sqrt_floor(x: int) -> int {
    choose|r: int| is_sqrt(x, r)
}

/// Fixed-point square root; nonpositive inputs give zero.
pub open spec fn fx_sqrt_s(a: int) -> int {
    if a <= 0 {
        0
    } else {
        sqrt_floor(a * (SCALE as int))
    }
}

/// Fixed-point power with a plain integer exponent, by repeated
/// multiplication.
pub open spec fn fx_pow_s(x: int, n: nat) -> int
    decreases n,
{
    if n == 0 {
        SCALE as int
    } else {
        fx_mul_s(fx_pow_s(x, (n - 1) as nat), x)
    }
}

/// A velocity after `n` rounds of damping: each round multiplies by the
/// retention factor `m` once, so `n` counts nanoseconds of simulated time.
pub open spec fn damp_iter_s(v: int, m: int, n: nat) -> int
    decreases n,
{
    if n == 0 {
        v
    } else {
        fx_mul_s(damp_iter_s(v, m, (n - 1) as nat), m)
    }
}

pub fn fx_clip(x: i128) -> (r: i64)
    ensures
        r as int == clip(x as int),
{
    if x > FX_MAX as i128 {
        FX_MAX
    } else if x < -(FX_MAX as i128) {
        -FX_MAX
    } else {
        x as i64
    }
}

pub fn fx_add(a: i64, b: i64) -> (r: i64)
    ensures
        r as int == fx_add_s(a as int, b as int),
{
    fx_clip(a as i128 + b as i128)
}

pub fn fx_sub(a: i64, b: i64) -> (r: i64)
    ensures
        r as int == fx_sub_s(a as int, b as int),
{
    fx_clip(a as i128 - b as i128)
}

pub fn fx_neg(a: i64) -> (r: i64)
    ensures
        r as int == fx_neg_s(a as int),
{
    fx_clip(-(a as i128))
}

pub fn fx_scale(k: i64, x: i64) -> (r: i64)
    ensures
        r as int == fx_scale_s(k as int, x as int),
{
    proof {
        lemma_i64_product_bounded(k as int, x as int);
    }
    fx_clip((k as i128) * (x as i128))
}

proof fn lemma_i64_product_bounded(a: int, b: int)
    requires
        -0x8000_0000_0000_0000 <= a <= 0x7fff_ffff_ffff_ffff,
        -0x8000_0000_0000_0000 <= b <= 0x7fff_ffff_ffff_ffff,
    ensures
        -0x4000_0000_0000_0000_0000_0000_0000_0000 <= a * b
            <= 0x4000_0000_0000_0000_0000_0000_0000_0000,
{
    assert(-0x4000_0000_0000_0000_0000_0000_0000_0000 <= a * b
        <= 0x4000_0000_0000_0000_0000_0000_0000_0000) by (nonlinear_arith)
        requires
            -0x8000_0000_0000_0000 <= a <= 0x7fff_ffff_ffff_ffff,
            -0x8000_0000_0000_0000 <= b <= 0x7fff_ffff_ffff_ffff;
}

pub fn fx_mul(a: i64, b: i64) -> (r: i64)
    ensures
        r as int == fx_mul_s(a as int, b as int),
{
    proof {
        lemma_i64_product_bounded(a as int, b as int);
    }
    let prod: i128 = (a as i128) * (b as i128);
    let neg: bool = prod < 0;
    let mag: u128 = if neg {
        (-prod) as u128
    } else {
        prod as u128
    };
    let q: u128 = mag / (SCALE as u128);
    proof {
        assert(mag as int == abs_val(prod as int));
        assert(q as int == abs_val(prod as int) / (SCALE as int));
        lemma_div_pos_is_pos(mag as int, SCALE as int);
    }
    let qc: u128 = if q > FX_MAX as u128 {
        FX_MAX as u128
    } else {
        q
    };
    if neg {
        -(qc as i64)
    } else {
        qc as i64
    }
}

pub fn fx_div(a: i64, b: i64) -> (r: i64)
    ensures
        r as int == fx_div_s(a as int, b as int),
{
    if b == 0 {
        return 0;
    }
    proof {
        lemma_i64_product_bounded(a as int, SCALE as int);
        if a < 0 {
            assert((a as int) * (SCALE as int) < 0) by (nonlinear_arith)
                requires
                    a < 0i64;
        }
        if a > 0 {
            assert((a as int) * (SCALE as int) > 0) by (nonlinear_arith)
                requires
                    a > 0i64;
        }
    }
    let num: i128 = (a as i128) * (SCALE as i128);
    let neg: bool = (a < 0) != (b < 0);
    let magn: u128 = if num < 0 {
        (-num) as u128
    } else {
        num as u128
    };
    let magd: u128 = if b < 0 {
        (-(b as i128)) as u128
    } else {
        (b as i128) as u128
    };
    let q: u128 = magn / magd;
    proof {
        assert(magn as int == abs_val(num as int));
        assert(magd as int == abs_val(b as int));
        assert(q as int == abs_val(num as int) / abs_val(b as int));
        lemma_div_pos_is_pos(magn as int, magd as int);
    }
    let qc: u128 = if q > FX_MAX as u128 {
        FX_MAX as u128
    } else {
        q
    };
    if neg {
        -(qc as i64)
    } else {
        qc as i64
    }
}

proof fn lemma_sqrt_floor_unique(x: int, r: int)
    requires
        is_sqrt(x, r),
    ensures
        sqrt_floor(x) == r,
{
    assert(is_sqrt(x, sqrt_floor(x)));
    let r2 = sqrt_floor(x);
    if r2 < r {
        assert(r2 * r2 <= x && x < (r2 + 1) * (r2 + 1));
        assert((r2 + 1) * (r2 + 1) <= r * r) by (nonlinear_arith)
            requires
                0 <= r2,
                r2 < r;
        assert(false);
    }
    if r < r2 {
        assert((r + 1) * (r + 1) <= r2 * r2) by (nonlinear_arith)
            requires
                0 <= r,
                r < r2;
        assert(false);
    }
}

pub fn fx_sqrt(a: i64) -> (r: i64)
    ensures
        r as int == fx_sqrt_s(a as int),
{
    if a <= 0 {
        return 0;
    }
    proof {
        assert((a as int) * (SCALE as int) < 0x8000_0000_0000 * 0x8000_0000_0000)
            by (nonlinear_arith)
            requires
                0 < (a as int) && (a as int) <= 0x7fff_ffff_ffff_ffff;
    }
    let x: u128 = (a as u128) * (SCALE as u128);
    let mut lo: u128 = 0;
    let mut hi: u128 = 0x8000_0000_0000;
    while lo + 1 < hi
        invariant
            lo < hi <= 0x8000_0000_0000,
            lo * lo <= x,
            x < hi * hi,
        decreases hi - lo,
    {
        proof {
            lemma_div_non_zero((hi - lo) as int, 2);
            lemma_div_is_strictly_smaller((hi - lo) as int, 2);
        }
        let mid: u128 = lo + (hi - lo) / 2;
        proof {
            assert(mid * mid < 0x8000_0000_0000 * 0x8000_0000_0000) by (nonlinear_arith)
                requires
                    0 <= (mid as int),
                    (mid as int) < 0x8000_0000_0000;
        }
        let sq: u128 = mid * mid;
        if sq <= x {
            lo = mid;
        } else {
            hi = mid;
        }
    }
    proof {
        assert(is_sqrt(x as int, lo as int));
        lemma_sqrt_floor_unique(x as int, lo as int);
    }
    lo as i64
}

pub fn fx_pow(x: i64, n: u64) -> (r: i64)
    ensures
        r as int == fx_pow_s(x as int, n as nat),
{
    let mut acc: i64 = SCALE;
    let mut t: u64 = 0;
    while t < n
        invariant
            t <= n,
            acc as int == fx_pow_s(x as int, t as nat),
        decreases n - t,
    {
        acc = fx_mul(acc, x);
        t = t + 1;
    }
    acc
}

/// Applies `n` rounds of damping by the retention factor `m` to `v`.
pub fn fx_damp(v: i64, m: i64, n: u64) -> (r: i64)
    ensures
        r as int == damp_iter_s(v as int, m as int, n as nat),
{
    let mut acc: i64 = v;
    let mut t: u64 = 0;
    while t < n
        invariant
            t <= n,
            acc as int == damp_iter_s(v as int, m as int, t as nat),
        decreases n - t,
    {
        acc = fx_mul(acc, m);
        t = t + 1;
    }
    acc
}

/// Multiplying an in-range value by one is exact.
pub proof fn lemma_fx_mul_one(v: int)
    requires
        fx_in_range(v),
    ensures
        fx_mul_s(v, SCALE as int) == v,
{
    if v >= 0 {
        lemma_div_by_multiple(v, SCALE as int);
        assert(abs_val(v * (SCALE as int)) == v * (SCALE as int)) by (nonlinear_arith)
            requires
                v >= 0;
    } else {
        lemma_div_by_multiple(-v, SCALE as int);
        assert(v * (SCALE as int) < 0 && abs_val(v * (SCALE as int)) == (-v) * (SCALE as int))
            by (nonlinear_arith)
            requires
                v < 0;
    }
}

/// Multiplication by zero gives exactly zero.
pub proof fn lemma_fx_mul_zero(a: int)
    ensures
        fx_mul_s(a, 0) == 0,
        fx_mul_s(0, a) == 0,
{
    assert(a * 0 == 0) by (nonlinear_arith);
    assert(0int / (SCALE as int) == 0) by (nonlinear_arith);
}

/// The sign of a truncating product agrees with the sign of the exact
/// product.
pub proof fn lemma_fx_mul_sign(a: int, b: int)
    ensures
        a * b >= 0 ==> fx_mul_s(a, b) >= 0,
        a * b <= 0 ==> fx_mul_s(a, b) <= 0,
{
    let p = a * b;
    if p >= 0 {
        lemma_div_pos_is_pos(p, SCALE as int);
    } else {
        lemma_div_pos_is_pos(-p, SCALE as int);
    }
}

/// The chosen root really is the floor square root for any nonnegative
/// argument: a witness exists, by induction.
pub proof fn lemma_sqrt_floor_is_sqrt(x: int)
    requires
        x >= 0,
    ensures
        is_sqrt(x, sqrt_floor(x)),
    decreases x,
{
    if x == 0 {
        assert(is_sqrt(0, 0));
    } else {
        lemma_sqrt_floor_is_sqrt(x - 1);
        let r = sqrt_floor(x - 1);
        if x < (r + 1) * (r + 1) {
            assert(is_sqrt(x, r));
        } else {
            assert(x == (r + 1) * (r + 1));
            assert((r + 1) * (r + 1) < (r + 2) * (r + 2)) by (nonlinear_arith)
                requires
                    r >= 0;
            assert(is_sqrt(x, r + 1));
        }
    }
}

/// A nonpositive numerator over a nonnegative divisor gives a nonpositive
/// quotient.
pub proof fn lemma_fx_div_nonpos(a: int, b: int)
    requires
        a <= 0,
        b >= 0,
    ensures
        fx_div_s(a, b) <= 0,
{
    if b != 0 {
        assert(a * (SCALE as int) <= 0) by (nonlinear_arith)
            requires
                a <= 0;
        lemma_div_pos_is_pos(abs_val(a * (SCALE as int)), b);
    }
}

/// A zero numerator gives exactly zero, whatever the divisor.
pub proof fn lemma_fx_div_zero(b: int)
    ensures
        fx_div_s(0, b) == 0,
{
    assert(0 * (SCALE as int) == 0) by (nonlinear_arith);
    if b != 0 {
        vstd::arithmetic::div_mod::lemma_div_of0(abs_val(b));
    }
}

/// A quotient of nonnegative values is nonnegative.
pub proof fn lemma_fx_div_nonneg(a: int, b: int)
    requires
        a >= 0,
        b >= 0,
    ensures
        fx_div_s(a, b) >= 0,
{
    if b != 0 {
        assert(a * (SCALE as int) >= 0) by (nonlinear_arith)
            requires
                a >= 0;
        lemma_div_pos_is_pos(a * (SCALE as int), b);
    }
}

/// Damping at retention factor one is the identity: the velocity after the
/// damping pass equals the velocity before it, for any number of rounds.
pub proof fn lemma_damping_identity(v: int, n: nat)
    requires
        fx_in_range(v),
    ensures
        damp_iter_s(v, SCALE as int, n) == v,
    decreases n,
{
    if n > 0 {
        lemma_damping_identity(v, (n - 1) as nat);
        lemma_fx_mul_one(v);
    }
}

/// Damping composes additively in elapsed simulated time: `a` rounds
/// followed by `b` rounds equals `a + b` rounds in one pass.
pub proof fn lemma_damping_compose(v: int, m: int, a: nat, b: nat)
    ensures
        damp_iter_s(damp_iter_s(v, m, a), m, b) == damp_iter_s(v, m, a + b),
    decreases b,
{
    if b > 0 {
        lemma_damping_compose(v, m, a, (b - 1) as nat);
    }
}

/// A power of a zero base is zero for any positive exponent.
pub proof fn lemma_fx_pow_zero_base(n: nat)
    requires
        n >= 1,
    ensures
        fx_pow_s(0, n) == 0,
    decreases n,
{
    if n > 1 {
        lemma_fx_pow_zero_base((n - 1) as nat);
    }
    lemma_fx_mul_zero(fx_pow_s(0, (n - 1) as nat));
}

/// Saturation is symmetric, so negation commutes with it.
pub proof fn lemma_clip_neg(x: int)
    ensures
        clip(-x) == -clip(x),
{
}

} // verus!
