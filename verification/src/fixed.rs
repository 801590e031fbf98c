//! Saturating fixed-point arithmetic on `i64`.
//!
//! A fixed-point value `v: i64` represents the real number `v / ONE`.
//! Multiplication and division rescale by `ONE` and truncate toward zero;
//! every operation saturates at `i64::MIN` / `i64::MAX` instead of
//! overflowing, so all operations here are total (no verified function in
//! this crate can panic).

use vstd::prelude::*;

use crate::constants::ONE;

verus! {

/// Absolute value of a mathematical integer.
pub open spec fn iabs(x: int) -> int {
    if x < 0 {
        -x
    } else {
        x
    }
}

/// Saturation of a mathematical integer into the `i64` range.
pub open spec fn sat64(x: int) -> int {
    if x > i64::MAX as int {
        i64::MAX as int
    } else if x < i64::MIN as int {
        i64::MIN as int
    } else {
        x
    }
}

/// Division truncating toward zero (the rounding of Rust's `/` on signed
/// integers), stated via Euclidean division of the magnitudes.
pub open spec fn tdiv(a: int, b: int) -> int {
    let q = iabs(a) / iabs(b);
    if (a < 0) != (b < 0) {
        -q
    } else {
        q
    }
}

/// Saturating addition.
pub open spec fn sadd_s(a: i64, b: i64) -> i64 {
    sat64(a + b) as i64
}

/// Saturating subtraction.
pub open spec fn ssub_s(a: i64, b: i64) -> i64 {
    sat64(a - b) as i64
}

/// Saturating fixed-point multiplication: `(a * b) / ONE`, truncated toward
/// zero.
pub open spec fn fmul_s(a: i64, b: i64) -> i64 {
    sat64(tdiv(a * b, ONE as int)) as i64
}

/// Saturating fixed-point division: `(a * ONE) / b`, truncated toward zero.
/// Only meaningful for `b != 0`.
pub open spec fn fdiv_s(a: i64, b: i64) -> i64 {
    sat64(tdiv(a * ONE, b as int)) as i64
}

/// The integer square root of a natural number, as a recursive definition:
/// the largest `r` with `r * r <= n`.
pub open spec fn isqrt_s(n: nat) -> nat
    decreases n,
{
    if n == 0 {
        0
    } else {
        let r = isqrt_s((n - 1) as nat);
        if (r + 1) * (r + 1) <= n {
            r + 1
        } else {
            r
        }
    }
}

/// `isqrt_s(n)` is indeed the integer square root of `n`.
pub proof fn lemma_isqrt_bounds(n: nat)
    ensures
        isqrt_s(n) * isqrt_s(n) <= n,
        n < (isqrt_s(n) + 1) * (isqrt_s(n) + 1),
    decreases n,
{
    if n == 0 {
        assert(isqrt_s(n) == 0);
        assert(n < (isqrt_s(n) + 1) * (isqrt_s(n) + 1)) by (nonlinear_arith)
            requires
                n == 0,
                isqrt_s(n) == 0,
        ;
    } else {
        lemma_isqrt_bounds((n - 1) as nat);
        let r = isqrt_s((n - 1) as nat);
        assert(r * r <= n - 1);
        assert(n - 1 < (r + 1) * (r + 1));
        if (r + 1) * (r + 1) <= n {
            assert(isqrt_s(n) == r + 1);
            assert(n == (r + 1) * (r + 1));
            assert((r + 1) * (r + 1) < (r + 2) * (r + 2)) by (nonlinear_arith);
            assert((isqrt_s(n) + 1) * (isqrt_s(n) + 1) == (r + 2) * (r + 2))
                by (nonlinear_arith)
                requires
                    isqrt_s(n) == r + 1,
            ;
        } else {
            assert(isqrt_s(n) == r);
            assert((isqrt_s(n) + 1) * (isqrt_s(n) + 1) == (r + 1) * (r + 1))
                by (nonlinear_arith)
                requires
                    isqrt_s(n) == r,
            ;
        }
    }
}

/// The integer square root is unique.
pub proof fn lemma_isqrt_unique(n: nat, r: nat)
    requires
        r * r <= n,
        n < (r + 1) * (r + 1),
    ensures
        r == isqrt_s(n),
{
    let q = isqrt_s(n);
    lemma_isqrt_bounds(n);
    if r < q {
        assert((r + 1) * (r + 1) <= q * q) by (nonlinear_arith)
            requires
                r + 1 <= q,
        ;
    }
    if q < r {
        assert((q + 1) * (q + 1) <= r * r) by (nonlinear_arith)
            requires
                q + 1 <= r,
        ;
    }
}

/// Fixed-point square root: the representation of `sqrt(d / ONE)` is
/// `isqrt(d * ONE)`. Defined as `0` for non-positive inputs.
pub open spec fn sqrt_fp_s(d: i64) -> i64 {
    if d <= 0 {
        0
    } else {
        isqrt_s((d * ONE) as nat) as i64
    }
}

/// Fixed-point exponentiation by a natural exponent (left-to-right product
/// of `n` copies of `b`, starting from `ONE`).
pub open spec fn pow_fp_s(b: i64, n: nat) -> i64
    decreases n,
{
    if n == 0 {
        ONE
    } else {
        fmul_s(pow_fp_s(b, (n - 1) as nat), b)
    }
}

/// Non-negative part: `max(0, x)`.
pub open spec fn max0_s(x: i64) -> i64 {
    if x < 0 {
        0
    } else {
        x
    }
}

/// Fixed-point multiplication of non-negative values is non-negative.
pub proof fn lemma_fmul_nonneg(a: i64, b: i64)
    requires
        a >= 0,
        b >= 0,
    ensures
        fmul_s(a, b) >= 0,
{
    assert(a * b >= 0) by (nonlinear_arith)
        requires
            a >= 0,
            b >= 0,
    ;
    assert(iabs(a * b) / iabs(ONE as int) >= 0) by (nonlinear_arith)
        requires
            iabs(a * b) >= 0,
            iabs(ONE as int) > 0,
    ;
}

/// Fixed-point division of a non-negative value by a positive one is
/// non-negative.
pub proof fn lemma_fdiv_nonneg(a: i64, b: i64)
    requires
        a >= 0,
        b > 0,
    ensures
        fdiv_s(a, b) >= 0,
{
    assert(iabs(a * ONE) / iabs(b as int) >= 0) by (nonlinear_arith)
        requires
            iabs(a * ONE) >= 0,
            iabs(b as int) > 0,
    ;
}

/// Magnitude of an `i64` as a `u128`.
fn abs64(a: i64) -> (m: u128)
    ensures
        m as int == iabs(a as int),
{
    if a >= 0 {
        a as u128
    } else {
        (-(a as i128)) as u128
    }
}

/// Saturating conversion of a signed magnitude back into an `i64`.
fn from_mag(m: u128, neg: bool) -> (r: i64)
    ensures
        r as int == sat64(
            if neg {
                -(m as int)
            } else {
                m as int
            },
        ),
{
    if neg {
        if m >= 9223372036854775808u128 {
            i64::MIN
        } else {
            -(m as i64)
        }
    } else {
        if m > 9223372036854775807u128 {
            i64::MAX
        } else {
            m as i64
        }
    }
}

/// Saturation of an `i128` into the `i64` range.
fn clamp_i128(s: i128) -> (r: i64)
    ensures
        r as int == sat64(s as int),
{
    if s > i64::MAX as i128 {
        i64::MAX
    } else if s < i64::MIN as i128 {
        i64::MIN
    } else {
        s as i64
    }
}

/// Saturating addition.
pub fn sadd(a: i64, b: i64) -> (r: i64)
    ensures
        r == sadd_s(a, b),
{
    let s: i128 = a as i128 + b as i128;
    clamp_i128(s)
}

/// Saturating subtraction.
pub fn ssub(a: i64, b: i64) -> (r: i64)
    ensures
        r == ssub_s(a, b),
{
    let s: i128 = a as i128 - b as i128;
    clamp_i128(s)
}

/// Saturating fixed-point multiplication.
pub fn fmul(a: i64, b: i64) -> (r: i64)
    ensures
        r == fmul_s(a, b),
{
    let neg: bool = (a < 0) != (b < 0);
    let ma: u128 = abs64(a);
    let mb: u128 = abs64(b);
    proof {
        assert(ma * mb <= 0x8000_0000_0000_0000u128 * 0x8000_0000_0000_0000u128)
            by (nonlinear_arith)
            requires
                ma <= 0x8000_0000_0000_0000u128,
                mb <= 0x8000_0000_0000_0000u128,
        ;
        assert(iabs(a as int) * iabs(b as int) == iabs((a as int) * (b as int)))
            by (nonlinear_arith);
        if neg {
            assert((a as int) * (b as int) <= 0) by (nonlinear_arith)
                requires
                    (a as int <= 0 && b as int >= 0) || (a as int >= 0 && b as int <= 0),
            ;
        } else {
            assert((a as int) * (b as int) >= 0) by (nonlinear_arith)
                requires
                    (a as int >= 0 && b as int >= 0) || (a as int <= 0 && b as int <= 0),
            ;
        }
    }
    let p: u128 = ma * mb;
    let m: u128 = p / (ONE as u128);
    proof {
        lemma_mag_div_is_tdiv(a as int * b as int, ONE as int, m as int, neg);
    }
    from_mag(m, neg)
}

/// Saturating fixed-point division, truncated toward zero.
pub fn fdiv(a: i64, b: i64) -> (r: i64)
    requires
        b != 0,
    ensures
        r == fdiv_s(a, b),
{
    let neg: bool = (a < 0) != (b < 0);
    let ma: u128 = abs64(a);
    let mb: u128 = abs64(b);
    proof {
        assert(ma <= 0x8000_0000_0000_0000u128);
        assert(ONE as u128 == 65536u128);
    }
    let p: u128 = ma * 65536u128;
    proof {
        assert(iabs(a as int) * iabs(ONE as int) == iabs((a as int) * (ONE as int)))
            by (nonlinear_arith);
    }
    let m: u128 = p / mb;
    proof {
        lemma_mag_div_is_tdiv(a as int * ONE as int, b as int, m as int, neg);
    }
    from_mag(m, neg)
}

/// Euclidean division of magnitudes implements truncation toward zero, with
/// the quotient's sign applied afterwards.
proof fn lemma_mag_div_is_tdiv(num: int, den: int, m: int, neg: bool)
    requires
        den != 0,
        m == iabs(num) / iabs(den),
        neg ==> (num <= 0 && den > 0) || (num >= 0 && den < 0),
        !neg ==> (num >= 0 && den > 0) || (num <= 0 && den < 0),
    ensures
        (if neg {
            -m
        } else {
            m
        }) == tdiv(num, den),
{
    if num == 0 {
        assert(iabs(num) == 0);
        assert(0int / iabs(den) == 0) by (nonlinear_arith)
            requires
                iabs(den) > 0,
        ;
    }
}

/// Integer square root of a `u128`.
pub fn isqrt(x: u128) -> (r: u64)
    ensures
        (r as int) * (r as int) <= x as int,
        (x as int) < (r as int + 1) * (r as int + 1),
{
    let mut lo: u128 = 0;
    let mut hi: u128 = 0x1_0000_0000_0000_0000u128;
    proof {
        assert((x as int) < 0x1_0000_0000_0000_0000int * 0x1_0000_0000_0000_0000int);
    }
    while lo + 1 < hi
        invariant
            lo < hi <= 0x1_0000_0000_0000_0000u128,
            (lo as int) * (lo as int) <= x as int,
            (x as int) < (hi as int) * (hi as int),
        decreases hi - lo,
    {
        let gap: u128 = hi - lo;
        let mid: u128 = lo + gap / 2;
        proof {
            assert(gap / 2 >= 1 && gap / 2 < gap) by (nonlinear_arith)
                requires
                    gap >= 2,
            ;
            assert(mid * mid < 0x1_0000_0000_0000_0000u128 * 0x1_0000_0000_0000_0000u128)
                by (nonlinear_arith)
                requires
                    mid < 0x1_0000_0000_0000_0000u128,
            ;
        }
        let sq: u128 = mid * mid;
        if sq <= x {
            lo = mid;
        } else {
            hi = mid;
        }
    }
    proof {
        assert(hi == lo + 1);
    }
    lo as u64
}

/// Fixed-point square root.
pub fn sqrt_fp(d: i64) -> (r: i64)
    requires
        d >= 0,
    ensures
        r == sqrt_fp_s(d),
{
    if d <= 0 {
        0
    } else {
        proof {
            assert((d as u128) <= 0x8000_0000_0000_0000u128);
            assert(ONE as u128 == 65536u128);
        }
        let p: u128 = (d as u128) * 65536u128;
        let r: u64 = isqrt(p);
        proof {
            lemma_isqrt_unique(p as nat, r as nat);
            assert((r as int) * (r as int) <= p as int);
            assert(p as int <= 0x8000_0000_0000_0000_0000int);
            assert(r as int <= 0x1_0000_0000_0000i64 as int) by (nonlinear_arith)
                requires
                    (r as int) * (r as int) <= 0x8000_0000_0000_0000_0000int,
                    r as int >= 0,
            ;
        }
        r as i64
    }
}

/// Fixed-point exponentiation.
pub fn pow_fp(b: i64, n: u32) -> (r: i64)
    ensures
        r == pow_fp_s(b, n as nat),
{
    let mut r: i64 = ONE;
    let mut k: u32 = 0;
    while k < n
        invariant
            k <= n,
            r == pow_fp_s(b, k as nat),
        decreases n - k,
    {
        r = fmul(r, b);
        k = k + 1;
    }
    r
}

/// The world coordinate of the center of pixel cell `i` out of `n` on the
/// segment from `min` to `max`: `min + ((2*i + 1) * (max - min)) / (2*n)`,
/// the fixed-point counterpart of `(i + 0.5) * (max - min) / n + min`.
pub open spec fn lerp_coord_s(min: i64, max: i64, i: int, n: int) -> i64 {
    sadd_s(min, sat64(tdiv((2 * i + 1) * ssub_s(max, min), 2 * n)) as i64)
}

/// The world coordinate of the center of pixel cell `idx` out of `count`.
pub fn lerp_coord(min: i64, max: i64, idx: u32, count: u32) -> (r: i64)
    requires
        idx < count,
    ensures
        r == lerp_coord_s(min, max, idx as int, count as int),
{
    let diff: i64 = ssub(max, min);
    let neg: bool = diff < 0;
    let md: u128 = abs64(diff);
    let kk: u128 = 2 * (idx as u128) + 1;
    proof {
        assert(kk * md <= 0x2_0000_0000u128 * 0x8000_0000_0000_0000u128) by (nonlinear_arith)
            requires
                kk <= 0x2_0000_0000u128,
                md <= 0x8000_0000_0000_0000u128,
        ;
    }
    let num: u128 = kk * md;
    let den: u128 = 2 * (count as u128);
    let m: u128 = num / den;
    proof {
        let ni: int = (2 * (idx as int) + 1) * (diff as int);
        if diff >= 0 {
            assert(ni >= 0 && (2 * (idx as int) + 1) * iabs(diff as int) == ni)
                by (nonlinear_arith)
                requires
                    diff as int >= 0,
                    idx as int >= 0,
                    iabs(diff as int) == diff as int,
                    ni == (2 * (idx as int) + 1) * (diff as int),
            ;
        } else {
            assert(ni <= 0 && (2 * (idx as int) + 1) * iabs(diff as int) == -ni)
                by (nonlinear_arith)
                requires
                    (diff as int) < 0,
                    idx as int >= 0,
                    iabs(diff as int) == -(diff as int),
                    ni == (2 * (idx as int) + 1) * (diff as int),
            ;
        }
        assert(num as int == iabs(ni));
        lemma_mag_div_is_tdiv(ni, 2 * (count as int), m as int, neg);
    }
    let off: i64 = from_mag(m, neg);
    sadd(min, off)
}

/// Non-negative part: `max(0, x)`.
pub fn max0(x: i64) -> (r: i64)
    ensures
        r == max0_s(x),
{
    if x < 0 {
        0
    } else {
        x
    }
}

} // verus!
