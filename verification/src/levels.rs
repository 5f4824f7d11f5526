//! Level adjustment: a "levels" contrast stretch with gamma correction,
//! applied to the V channel of HSV after blending.
//!
//! The stretch maps a value `v` to `0` at or below the low threshold, to `1`
//! at or above the high threshold, and to `((v - min) / (max - min))^(1 /
//! gamma)` in between. Gamma is carried in hundredths, and the fractional
//! power is evaluated in fixed point at scale [`LEVEL_SCALE`]: the exponent
//! `100 / gamma_centi` is split into its integer part and sixteen binary
//! digits of its fractional part; the integer part is an iterated product
//! and each fractional digit contributes an iterated square root of the
//! base. Every factor is monotone in the base and each rounding loses at
//! most one scale unit, so the adjustment is monotone and the thresholds
//! are hit exactly.

use crate::frac::{lemma_div_below, lemma_div_mono, lemma_div_nonneg, Frac};
use vstd::prelude::*;

verus! {

/// The fixed-point scale of the adjusted value.
pub const LEVEL_SCALE: u64 = 65536;

/// Fixed-point product at scale [`LEVEL_SCALE`], rounded down.
pub open spec fn fix_mul(a: int, b: int) -> int {
    a * b / 65536
}

/// `n`-fold fixed-point product of `x / LEVEL_SCALE`.
pub open spec fn pow_int(x: int, n: nat) -> int
    decreases n,
{
    if n == 0 {
        65536
    } else {
        fix_mul(x, pow_int(x, (n - 1) as nat))
    }
}

/// The largest `r <= k` with `r * r <= n` (zero if there is none).
pub open spec fn isqrt_upto(n: int, k: nat) -> int
    decreases k,
{
    if k == 0 {
        0
    } else if k * k <= n {
        k as int
    } else {
        isqrt_upto(n, (k - 1) as nat)
    }
}

/// The square root of a fixed-point value at scale [`LEVEL_SCALE`]:
/// `floor(sqrt(x * LEVEL_SCALE))`, so the scale is preserved.
pub open spec fn fix_sqrt_spec(x: int) -> int {
    isqrt_upto(x * 65536, 65536)
}

/// Folds the fractional binary digits of the exponent `r / gc` into the
/// accumulator: at each of the `k` remaining steps the root is square-rooted
/// once more (so it holds `base^(2^-step)`), and where the digit is one the
/// accumulator picks the factor up.
pub open spec fn frac_pow(acc: int, root: int, r: int, gc: int, k: nat) -> int
    decreases k,
{
    if k == 0 {
        acc
    } else {
        let root2 = fix_sqrt_spec(root);
        if 2 * r >= gc {
            frac_pow(fix_mul(acc, root2), root2, 2 * r - gc, gc, (k - 1) as nat)
        } else {
            frac_pow(acc, root2, 2 * r, gc, (k - 1) as nat)
        }
    }
}

/// `x^(100 / gc)` in fixed point: the integer part of the exponent as an
/// iterated product, sixteen binary digits of its fractional part from
/// iterated square roots.
pub open spec fn gamma_pow(x: int, gc: int) -> int {
    frac_pow(pow_int(x, (100int / gc) as nat), x, 100int % gc, gc, 16)
}

/// `v` lies at or below the low threshold.
pub open spec fn adj_low(v: Frac, min_level: u8) -> bool {
    255 * v.num <= min_level * v.den
}

/// `v` lies at or above the high threshold.
pub open spec fn adj_high(v: Frac, max_level: u8) -> bool {
    255 * v.num >= max_level * v.den
}

/// The stretch ratio `(v - min) / (max - min)` as a fixed-point value at
/// scale [`LEVEL_SCALE`], rounded down.
pub open spec fn adj_ratio(v: Frac, min_level: u8, max_level: u8) -> int {
    (255 * v.num - min_level * v.den) * 65536 / ((max_level - min_level) * v.den)
}

/// The adjusted value: zero at or below the low threshold, one at or above
/// the high threshold, the gamma-corrected stretch in between.
pub open spec fn adjust_spec(v: Frac, min_level: u8, max_level: u8, gamma_centi: u16) -> Frac {
    if adj_low(v, min_level) {
        Frac { num: 0, den: 65536 }
    } else if adj_high(v, max_level) {
        Frac { num: 65536, den: 65536 }
    } else {
        Frac {
            num: gamma_pow(adj_ratio(v, min_level, max_level), gamma_centi as int) as u64,
            den: 65536,
        }
    }
}

/// The fixed-point product stays within `[0, LEVEL_SCALE]` and is monotone
/// in both factors.
pub proof fn lemma_fix_mul(a1: int, a2: int, b1: int, b2: int)
    requires
        0 <= a1 <= a2 <= 65536,
        0 <= b1 <= b2 <= 65536,
    ensures
        0 <= fix_mul(a1, b1) <= fix_mul(a2, b2) <= 65536,
{
    assert(0 <= a1 * b1 <= a2 * b2 <= 65536 * 65536) by (nonlinear_arith)
        requires
            0 <= a1 <= a2 <= 65536,
            0 <= b1 <= b2 <= 65536,
    ;
    lemma_div_nonneg(a1 * b1, 65536);
    lemma_div_mono(a1 * b1, a2 * b2, 65536);
    lemma_div_mono(a2 * b2, 65536int * 65536, 65536);
}

/// The iterated product stays within `[0, LEVEL_SCALE]` and is monotone in
/// the base.
pub proof fn lemma_pow_int(x1: int, x2: int, n: nat)
    requires
        0 <= x1 <= x2 <= 65536,
    ensures
        0 <= pow_int(x1, n) <= pow_int(x2, n) <= 65536,
    decreases n,
{
    if n > 0 {
        lemma_pow_int(x1, x2, (n - 1) as nat);
        lemma_fix_mul(x1, x2, pow_int(x1, (n - 1) as nat), pow_int(x2, (n - 1) as nat));
    }
}

/// What [`isqrt_upto`] returns: the largest root not above the cap.
pub proof fn lemma_isqrt_upto(n: int, k: nat)
    requires
        0 <= n,
    ensures
        0 <= isqrt_upto(n, k) <= k,
        isqrt_upto(n, k) * isqrt_upto(n, k) <= n,
        forall|j: int| isqrt_upto(n, k) < j <= k ==> #[trigger] (j * j) > n,
    decreases k,
{
    if k > 0 && !(k * k <= n) {
        lemma_isqrt_upto(n, (k - 1) as nat);
    }
}

/// The bounded square root is monotone.
pub proof fn lemma_isqrt_upto_mono(n1: int, n2: int, k: nat)
    requires
        0 <= n1 <= n2,
    ensures
        isqrt_upto(n1, k) <= isqrt_upto(n2, k),
{
    lemma_isqrt_upto(n1, k);
    lemma_isqrt_upto(n2, k);
    let r1 = isqrt_upto(n1, k);
    let r2 = isqrt_upto(n2, k);
    if r2 < r1 {
        assert(r1 * r1 > n2);
        assert(r1 * r1 <= n1);
        assert(false);
    }
}

/// The fixed-point square root stays within `[0, LEVEL_SCALE]` and is
/// monotone.
pub proof fn lemma_fix_sqrt(x1: int, x2: int)
    requires
        0 <= x1 <= x2 <= 65536,
    ensures
        0 <= fix_sqrt_spec(x1) <= fix_sqrt_spec(x2) <= 65536,
{
    assert(0 <= x1 * 65536 <= x2 * 65536) by (nonlinear_arith)
        requires
            0 <= x1 <= x2,
    ;
    lemma_isqrt_upto_mono(x1 * 65536, x2 * 65536, 65536);
    lemma_isqrt_upto(x1 * 65536, 65536);
    lemma_isqrt_upto(x2 * 65536, 65536);
}

/// The fractional-digit fold stays within `[0, LEVEL_SCALE]` and is monotone
/// in the accumulator and the root.
pub proof fn lemma_frac_pow(acc1: int, acc2: int, root1: int, root2: int, r: int, gc: int, k: nat)
    requires
        0 <= acc1 <= acc2 <= 65536,
        0 <= root1 <= root2 <= 65536,
    ensures
        0 <= frac_pow(acc1, root1, r, gc, k) <= frac_pow(acc2, root2, r, gc, k) <= 65536,
    decreases k,
{
    if k > 0 {
        lemma_fix_sqrt(root1, root2);
        let s1 = fix_sqrt_spec(root1);
        let s2 = fix_sqrt_spec(root2);
        if 2 * r >= gc {
            lemma_fix_mul(acc1, acc2, s1, s2);
            lemma_frac_pow(
                fix_mul(acc1, s1),
                fix_mul(acc2, s2),
                s1,
                s2,
                2 * r - gc,
                gc,
                (k - 1) as nat,
            );
        } else {
            lemma_frac_pow(acc1, acc2, s1, s2, 2 * r, gc, (k - 1) as nat);
        }
    }
}

/// The gamma power stays within `[0, LEVEL_SCALE]` and is monotone in the
/// base.
pub proof fn lemma_gamma_pow(x1: int, x2: int, gc: int)
    requires
        0 <= x1 <= x2 <= 65536,
        1 <= gc,
    ensures
        0 <= gamma_pow(x1, gc) <= gamma_pow(x2, gc) <= 65536,
{
    lemma_pow_int(x1, x2, (100int / gc) as nat);
    lemma_frac_pow(
        pow_int(x1, (100int / gc) as nat),
        pow_int(x2, (100int / gc) as nat),
        x1,
        x2,
        100int % gc,
        gc,
        16,
    );
}

/// Computes the fixed-point square root.
fn fix_sqrt(x: u64) -> (r: u64)
    requires
        x <= 65536,
    ensures
        r == fix_sqrt_spec(x as int),
        r <= 65536,
{
    let n: u64 = x * 65536;
    let mut lo: u64 = 0;
    let mut hi: u64 = 65536;
    while lo < hi
        invariant
            lo <= hi <= 65536,
            n == x * 65536,
            x <= 65536,
            lo * lo <= n,
            forall|j: int| hi < j <= 65536 ==> #[trigger] (j * j) > n,
        decreases hi - lo,
    {
        let mid: u64 = lo + (hi - lo + 1) / 2;
        assert(lo < mid <= hi);
        proof {
            assert((mid as int) * (mid as int) <= 0x1_0000_0000) by (nonlinear_arith)
                requires
                    mid <= 65536,
            ;
        }
        if mid * mid <= n {
            lo = mid;
        } else {
            proof {
                assert forall|j: int| mid - 1 < j <= 65536 implies #[trigger] (j * j) > n by {
                    if j <= hi {
                        assert(mid * mid <= j * j) by (nonlinear_arith)
                            requires
                                0 <= mid <= j,
                        ;
                    }
                }
            }
            hi = mid - 1;
        }
    }
    proof {
        lemma_isqrt_upto(n as int, 65536);
        let rs = isqrt_upto(n as int, 65536);
        if lo < rs {
            assert((lo + 1) * (lo + 1) <= rs * rs) by (nonlinear_arith)
                requires
                    0 <= lo + 1 <= rs,
            ;
        }
        if rs < lo {
            assert(lo * lo > n);
        }
    }
    lo
}

/// Adjusts the levels of a normalized value `v`.
///
/// Values at or below `min_level / 255` become exactly 0; values at or above
/// `max_level / 255` become exactly 1; values in between are stretched and
/// raised to the power `1 / gamma`, where `gamma` is `gamma_centi / 100`.
pub fn adjust(v: Frac, min_level: u8, max_level: u8, gamma_centi: u16) -> (res: Frac)
    requires
        v.ok(),
        v.den <= 0x1_0000,
        min_level < max_level,
        gamma_centi >= 1,
    ensures
        res == adjust_spec(v, min_level, max_level, gamma_centi),
        res.ok(),
        res.den == LEVEL_SCALE,
{
    let vd: u64 = v.den;
    proof {
        assert((min_level as int) * (v.den as int) <= 255 * 0x1_0000 && (max_level as int) * (
        v.den as int) <= 255 * 0x1_0000) by (nonlinear_arith)
            requires
                v.den <= 0x1_0000,
        ;
    }
    if 255 * v.num <= (min_level as u64) * vd {
        Frac::new(0, LEVEL_SCALE)
    } else if 255 * v.num >= (max_level as u64) * vd {
        Frac::new(LEVEL_SCALE, LEVEL_SCALE)
    } else {
        proof {
            assert(((max_level - min_level) as int) * (v.den as int) == (max_level as int) * (
            v.den as int) - (min_level as int) * (v.den as int)) by (nonlinear_arith)
                requires
                    min_level < max_level,
            ;
        }
        let a: u64 = 255 * v.num - (min_level as u64) * vd;
        let b: u64 = ((max_level - min_level) as u64) * vd;
        assert(1 <= a);
        assert(a < b);
        assert(a * 65536 < b * 65536 && b * 65536 <= 255 * 0x1_0000 * 65536) by (nonlinear_arith)
            requires
                1 <= a < b <= 255 * 0x1_0000,
        ;
        let x: u64 = (a * 65536) / b;
        proof {
            lemma_div_nonneg(a as int * 65536, b as int);
            lemma_div_below(a as int * 65536, b as int, 65536);
        }
        let gc: u64 = gamma_centi as u64;
        let i0: u64 = 100 / gc;
        let mut acc: u64 = 65536;
        let mut i: u64 = 0;
        while i < i0
            invariant
                x <= 65536,
                acc <= 65536,
                i <= i0,
                acc == pow_int(x as int, i as nat),
            decreases i0 - i,
        {
            proof {
                lemma_pow_int(x as int, x as int, i as nat);
                lemma_fix_mul(x as int, x as int, acc as int, acc as int);
            }
            acc = (x * acc) / 65536;
            i = i + 1;
        }
        let ghost target = gamma_pow(x as int, gamma_centi as int);
        let mut root: u64 = x;
        let mut r: u64 = 100 % gc;
        let mut k: u64 = 0;
        while k < 16
            invariant
                gamma_centi >= 1,
                gc == gamma_centi as u64,
                x <= 65536,
                acc <= 65536,
                root <= 65536,
                r < gc,
                k <= 16,
                target == frac_pow(acc as int, root as int, r as int, gc as int, (16 - k) as nat),
            decreases 16 - k,
        {
            let root2: u64 = fix_sqrt(root);
            if 2 * r >= gc {
                proof {
                    lemma_fix_mul(acc as int, acc as int, root2 as int, root2 as int);
                }
                acc = (acc * root2) / 65536;
                r = 2 * r - gc;
            } else {
                r = 2 * r;
            }
            root = root2;
            k = k + 1;
        }
        Frac::new(acc, LEVEL_SCALE)
    }
}

/// Monotonicity law: for one configuration, the adjustment is monotonically
/// non-decreasing in `v`, and it maps the low threshold exactly to zero and
/// the high threshold exactly to one.
pub proof fn lemma_adjust_monotone(
    v1: Frac,
    v2: Frac,
    min_level: u8,
    max_level: u8,
    gc: u16,
)
    requires
        v1.ok(),
        v2.ok(),
        v1.den == v2.den,
        v1.num <= v2.num,
        min_level < max_level,
        gc >= 1,
    ensures
        adjust_spec(v1, min_level, max_level, gc).num <= adjust_spec(v2, min_level, max_level, gc).num,
        255 * v1.num == min_level * v1.den ==> adjust_spec(v1, min_level, max_level, gc).num == 0,
        255 * v1.num == max_level * v1.den ==> adjust_spec(v1, min_level, max_level, gc).num
            == LEVEL_SCALE,
{
    let vd = v1.den as int;
    assert(min_level * vd < max_level * vd) by (nonlinear_arith)
        requires
            min_level < max_level,
            vd >= 1,
    ;
    if adj_low(v1, min_level) {
    } else {
        assert(!adj_low(v2, min_level));
        if adj_high(v1, max_level) {
            assert(adj_high(v2, max_level));
        } else if adj_high(v2, max_level) {
            let x1 = adj_ratio(v1, min_level, max_level);
            lemma_adj_ratio_bounds(v1, min_level, max_level);
            lemma_gamma_pow(x1, x1, gc as int);
        } else {
            let x1 = adj_ratio(v1, min_level, max_level);
            let x2 = adj_ratio(v2, min_level, max_level);
            lemma_adj_ratio_bounds(v1, min_level, max_level);
            lemma_adj_ratio_bounds(v2, min_level, max_level);
            let a1 = 255 * v1.num - min_level * vd;
            let a2 = 255 * v2.num - min_level * vd;
            let b = (max_level - min_level) * vd;
            assert((max_level - min_level) * vd >= 1 && (max_level - min_level) * vd == max_level
                * vd - min_level * vd) by (nonlinear_arith)
                requires
                    min_level < max_level,
                    vd >= 1,
            ;
            assert(a1 * 65536 <= a2 * 65536) by (nonlinear_arith)
                requires
                    a1 <= a2,
            ;
            lemma_div_mono(a1 * 65536, a2 * 65536, b);
            lemma_gamma_pow(x1, x2, gc as int);
        }
    }
}

/// The stretch ratio of a value strictly between the thresholds lies within
/// `[0, LEVEL_SCALE]`.
pub proof fn lemma_adj_ratio_bounds(v: Frac, min_level: u8, max_level: u8)
    requires
        v.ok(),
        min_level < max_level,
        !adj_low(v, min_level),
        !adj_high(v, max_level),
    ensures
        0 <= adj_ratio(v, min_level, max_level) <= 65536,
{
    let vd = v.den as int;
    assert((max_level - min_level) * vd >= 1 && (max_level - min_level) * vd == max_level * vd
        - min_level * vd) by (nonlinear_arith)
        requires
            min_level < max_level,
            vd >= 1,
    ;
    let a = 255 * v.num - min_level * vd;
    let b = (max_level - min_level) * vd;
    assert(a * 65536 <= b * 65536) by (nonlinear_arith)
        requires
            0 <= a <= b,
    ;
    lemma_div_nonneg(a * 65536, b);
    lemma_div_mono(a * 65536, b * 65536, b);
    assert(b * 65536 == 65536 * b) by (nonlinear_arith);
    vstd::arithmetic::div_mod::lemma_div_multiples_vanish(65536, b);
}

} // verus!
