//! Pure RGB ↔ HSV color-space conversion on exact unit fractions.
//!
//! All channels are normalized to `[0, 1]`. The conversion follows the
//! classic formulation: `v` is the channel maximum, `s = (max - min) / max`,
//! and the hue is computed from the sector of the dominant channel, reduced
//! so that `h` lies in `[0, 1)` (an achromatic pixel gets hue 0 by
//! convention).

use crate::frac::{eq_val, Frac};
use vstd::prelude::*;

verus! {

/// Maximum of three integers.
pub open spec fn max3(a: int, b: int, c: int) -> int {
    if a >= b && a >= c {
        a
    } else if b >= c {
        b
    } else {
        c
    }
}

/// Minimum of three integers.
pub open spec fn min3(a: int, b: int, c: int) -> int {
    if a <= b && a <= c {
        a
    } else if b <= c {
        b
    } else {
        c
    }
}

/// Numerator of six times the hue, over the denominator
/// `6 * (max - min)`, already reduced into `[0, 6 * (max - min))`.
/// The sector is selected by comparing the input channels to the channel
/// maximum, red first, as the classic conversion does.
pub open spec fn hue6_num(rn: int, gn: int, bn: int) -> int {
    let maxn = max3(rn, gn, bn);
    let minn = min3(rn, gn, bn);
    let m = maxn - minn;
    if rn == maxn {
        if gn >= bn {
            gn - bn
        } else {
            6 * m - (bn - gn)
        }
    } else if gn == maxn {
        2 * m + bn - rn
    } else {
        4 * m + rn - gn
    }
}

/// The HSV triple of an RGB triple with a common denominator `d`:
/// `v = max / d`, `s = (max - min) / max`, `h = hue6 / (6 * (max - min))`,
/// and `(0, 0, v)` for an achromatic input.
pub open spec fn rgb_to_hsv_spec(r: Frac, g: Frac, b: Frac) -> (Frac, Frac, Frac) {
    let d = r.den;
    let maxn = max3(r.num as int, g.num as int, b.num as int);
    let minn = min3(r.num as int, g.num as int, b.num as int);
    if maxn == minn {
        (Frac { num: 0, den: 1 }, Frac { num: 0, den: 1 }, Frac { num: maxn as u64, den: d })
    } else {
        let m = maxn - minn;
        (
            Frac { num: hue6_num(r.num as int, g.num as int, b.num as int) as u64, den: (6 * m) as u64 },
            Frac { num: m as u64, den: maxn as u64 },
            Frac { num: maxn as u64, den: d },
        )
    }
}

/// The RGB triple of an HSV triple: for a chromatic input, sector
/// `i = floor(6h) mod 6` and fractional part `f` select among the classic
/// `p = v (1 - s)`, `q = v (1 - s f)`, `t = v (1 - s (1 - f))` expansions,
/// kept as exact fractions; an input with `s = 0` gives `(v, v, v)`.
pub open spec fn hsv_to_rgb_spec(h: Frac, s: Frac, v: Frac) -> (Frac, Frac, Frac) {
    if s.num == 0 {
        (v, v, v)
    } else {
        let i = (6 * h.num as int / h.den as int) % 6;
        let f6 = (6 * h.num as int) % h.den as int;
        let pd = (v.den * s.den) as u64;
        let qd = (v.den * s.den * h.den) as u64;
        let p = Frac { num: (v.num * (s.den - s.num)) as u64, den: pd };
        let q = Frac { num: (v.num as int * (s.den as int * h.den as int - s.num as int * f6)) as u64, den: qd };
        let t = Frac {
            num: (v.num as int * (s.den as int * h.den as int - s.num as int * (h.den as int - f6))) as u64,
            den: qd,
        };
        if i == 0 {
            (v, t, p)
        } else if i == 1 {
            (q, v, p)
        } else if i == 2 {
            (p, v, t)
        } else if i == 3 {
            (p, q, v)
        } else if i == 4 {
            (t, p, v)
        } else {
            (v, p, q)
        }
    }
}

/// Bounds for the chromatic sector expansion: with a common denominator
/// `d <= 0x1_0000`, every numerator and denominator that
/// `hsv_to_rgb_spec` builds from the output of `rgb_to_hsv_spec` stays far
/// below `u64::MAX`, and the subtractions stay non-negative.
proof fn lemma_sector_bounds(d: int, maxn: int, minn: int, rm: int) by (nonlinear_arith)
    requires
        1 <= d <= 0x1_0000,
        0 <= minn < maxn <= d,
        0 <= rm < maxn - minn,
    ensures
        0 <= maxn * (maxn - (maxn - minn)) <= d * maxn,
        0 < d * maxn <= 0x1_0000_0000,
        0 < (d * maxn) * (6 * (maxn - minn)) < 0x8_0000_0000_0000,
        (maxn - minn) * (6 * rm) <= maxn * (6 * (maxn - minn)),
        (maxn - minn) * (6 * (maxn - minn) - 6 * rm) <= maxn * (6 * (maxn - minn)),
        0 <= maxn * (maxn * (6 * (maxn - minn)) - (maxn - minn) * (6 * rm)) <= (d * maxn) * (6 * (
        maxn - minn)),
        0 <= maxn * (maxn * (6 * (maxn - minn)) - (maxn - minn) * (6 * (maxn - minn) - 6 * rm)) <= (
        d * maxn) * (6 * (maxn - minn)),
{
}

/// The algebraic heart of the round trip: over a common denominator `d`,
/// the sector expansion values `p`, `q` and `t` denote exactly
/// `min / d`, `(max - rm) / d` and `(min + rm) / d`, where `rm` is the
/// remainder of the hue-sector numerator modulo `max - min`.
proof fn lemma_sector_identities(d: int, maxn: int, minn: int, rm: int) by (nonlinear_arith)
    ensures
        maxn * (maxn - (maxn - minn)) * d == minn * (d * maxn),
        maxn * (maxn * (6 * (maxn - minn)) - (maxn - minn) * (6 * rm)) * d == (maxn - rm) * ((d
            * maxn) * (6 * (maxn - minn))),
        maxn * (maxn * (6 * (maxn - minn)) - (maxn - minn) * (6 * (maxn - minn) - 6 * rm)) * d == (
        minn + rm) * ((d * maxn) * (6 * (maxn - minn))),
{
}

/// `0 <= a <= b` and `0 <= c <= d` give `a * c <= b * d`.
proof fn lemma_mul_le(a: int, b: int, c: int, d: int) by (nonlinear_arith)
    requires
        0 <= a <= b,
        0 <= c <= d,
    ensures
        a * c <= b * d,
{
}

/// Converts a normalized RGB value to HSV.
///
/// The three channels must share one denominator (one pixel, one scale).
pub fn rgb_to_hsv(r: Frac, g: Frac, b: Frac) -> (res: (Frac, Frac, Frac))
    requires
        r.ok(),
        g.ok(),
        b.ok(),
        r.den == g.den,
        g.den == b.den,
        r.den <= 0x1_0000,
    ensures
        res == rgb_to_hsv_spec(r, g, b),
        res.0.ok(),
        res.1.ok(),
        res.2.ok(),
        res.0.den <= 6 * r.den,
        res.1.den <= r.den,
        res.2.den <= r.den,
{
    let maxn: u64 = if r.num >= g.num && r.num >= b.num {
        r.num
    } else if g.num >= b.num {
        g.num
    } else {
        b.num
    };
    let minn: u64 = if r.num <= g.num && r.num <= b.num {
        r.num
    } else if g.num <= b.num {
        g.num
    } else {
        b.num
    };
    if maxn == minn {
        (Frac::new(0, 1), Frac::new(0, 1), Frac::new(maxn, r.den))
    } else {
        let m: u64 = maxn - minn;
        let hue6: u64 = if r.num == maxn {
            if g.num >= b.num {
                g.num - b.num
            } else {
                6 * m - (b.num - g.num)
            }
        } else if g.num == maxn {
            2 * m + b.num - r.num
        } else {
            4 * m + r.num - g.num
        };
        (Frac::new(hue6, 6 * m), Frac::new(m, maxn), Frac::new(maxn, r.den))
    }
}

/// Converts an HSV value back to normalized RGB.
pub fn hsv_to_rgb(h: Frac, s: Frac, v: Frac) -> (res: (Frac, Frac, Frac))
    requires
        h.ok(),
        s.ok(),
        v.ok(),
        h.den <= 0x6_0000,
        s.den <= 0x1_0000,
        v.den <= 0x1_0000,
    ensures
        res == hsv_to_rgb_spec(h, s, v),
        res.0.ok(),
        res.1.ok(),
        res.2.ok(),
        res.0.den <= v.den * s.den * h.den,
        res.1.den <= v.den * s.den * h.den,
        res.2.den <= v.den * s.den * h.den,
{
    if s.num == 0 {
        proof {
            lemma_mul_le(1, s.den as int, 1, h.den as int);
            lemma_mul_le(v.den as int, v.den as int, 1, (s.den * h.den) as int);
            assert((v.den * s.den) * h.den == v.den * (s.den * h.den)) by (nonlinear_arith);
        }
        (v, v, v)
    } else {
        let i: u64 = (6 * h.num / h.den) % 6;
        let f6: u64 = (6 * h.num) % h.den;
        assert(f6 < h.den);
        proof {
            lemma_mul_le(s.den as int, 0x1_0000, h.den as int, 0x6_0000);
            lemma_mul_le(v.den as int, 0x1_0000, s.den as int, 0x1_0000);
            lemma_mul_le(v.den as int, 0x1_0000, (s.den * h.den) as int, 0x6_0000_0000);
        }
        let sdhd: u64 = s.den * h.den;
        let pd: u64 = v.den * s.den;
        let qd: u64 = v.den * sdhd;
        proof {
            lemma_mul_le(1, s.den as int, 1, h.den as int);
            lemma_mul_le(s.num as int, s.den as int, f6 as int, h.den as int);
            lemma_mul_le(s.num as int, s.den as int, (h.den - f6) as int, h.den as int);
            lemma_mul_le(v.num as int, v.den as int, (s.den * h.den - s.num * f6) as int, sdhd as int);
            lemma_mul_le(v.num as int, v.den as int, (s.den * h.den - s.num * (h.den - f6)) as int, sdhd as int);
            lemma_mul_le(v.num as int, v.den as int, (s.den - s.num) as int, s.den as int);
            lemma_mul_le(1, v.den as int, 1, (s.den * h.den) as int);
            lemma_mul_le(1, v.den as int, 1, s.den as int);
        }
        let p = Frac::new(v.num * (s.den - s.num), pd);
        let q = Frac::new(v.num * (sdhd - s.num * f6), qd);
        let t = Frac::new(v.num * (sdhd - s.num * (h.den - f6)), qd);
        let res = if i == 0 {
            (v, t, p)
        } else if i == 1 {
            (q, v, p)
        } else if i == 2 {
            (p, v, t)
        } else if i == 3 {
            (p, q, v)
        } else if i == 4 {
            (t, p, v)
        } else {
            (v, p, q)
        };
        proof {
            lemma_mul_le(1, s.den as int, 1, h.den as int);
            lemma_mul_le(v.den as int, v.den as int, 1, (s.den * h.den) as int);
            assert((v.den * s.den) * h.den == v.den * (s.den * h.den)) by (nonlinear_arith);
            lemma_mul_le(pd as int, pd as int, 1, h.den as int);
        }
        res
    }
}

/// Round-trip law: converting a normalized RGB value to HSV and back
/// reproduces exactly the input values (as rationals). At the achromatic
/// boundary the hue is conventionally 0, and the value channel alone already
/// restores the three equal channels.
pub proof fn lemma_hsv_round_trip(r: Frac, g: Frac, b: Frac)
    requires
        r.ok(),
        g.ok(),
        b.ok(),
        r.den == g.den,
        g.den == b.den,
        r.den <= 0x1_0000,
    ensures
        ({
            let (h, s, v) = rgb_to_hsv_spec(r, g, b);
            let (r2, g2, b2) = hsv_to_rgb_spec(h, s, v);
            eq_val(r2, r) && eq_val(g2, g) && eq_val(b2, b)
        }),
{
    let d = r.den as int;
    let rn = r.num as int;
    let gn = g.num as int;
    let bn = b.num as int;
    let maxn = max3(rn, gn, bn);
    let minn = min3(rn, gn, bn);
    if maxn == minn {
        assert(rn == maxn && gn == maxn && bn == maxn);
    } else {
        let m = maxn - minn;
        let hn = hue6_num(rn, gn, bn);
        let (h, s, v) = rgb_to_hsv_spec(r, g, b);
        // Identify the sector and the remainder of the hue numerator.
        let (q6, rm): (int, int) = if rn == maxn {
            if gn >= bn {
                if gn - bn < m {
                    (0, gn - bn)
                } else {
                    (1, 0)
                }
            } else {
                (5, m - (bn - gn))
            }
        } else if gn == maxn {
            if bn < rn {
                (1, m - (rn - bn))
            } else if bn < maxn {
                (2, bn - rn)
            } else {
                (3, 0)
            }
        } else {
            if rn < gn {
                (3, m - (gn - rn))
            } else {
                (4, rn - gn)
            }
        };
        assert(0 <= rm < m);
        assert(hn == q6 * m + rm);
        assert(6 * hn == q6 * (6 * m) + 6 * rm) by (nonlinear_arith)
            requires
                hn == q6 * m + rm,
        ;
        vstd::arithmetic::div_mod::lemma_fundamental_div_mod_converse(
            6 * hn,
            6 * m,
            q6,
            6 * rm,
        );
        assert(6 * h.num as int / h.den as int == q6);
        assert((6 * h.num as int) % h.den as int == 6 * rm);
        assert(q6 % 6 == q6);
        lemma_sector_bounds(d, maxn, minn, rm);
        lemma_sector_identities(d, maxn, minn, rm);
        let (r2, g2, b2) = hsv_to_rgb_spec(h, s, v);
        if rn == maxn {
            if gn >= bn {
                assert(minn == bn);
                if gn - bn < m {
                    // Sector 0: (v, t, p); t restores green, p restores blue.
                    assert(eq_val(g2, g));
                    assert(eq_val(b2, b));
                } else {
                    // Sector 1 with zero fraction: green equals the maximum.
                    assert(gn == maxn);
                    assert(eq_val(r2, r));
                    assert(eq_val(b2, b));
                }
            } else {
                // Sector 5: (v, p, q); p restores green, q restores blue.
                assert(minn == gn);
                assert(eq_val(g2, g));
                assert(eq_val(b2, b));
            }
        } else if gn == maxn {
            if bn < rn {
                // Sector 1: (q, v, p).
                assert(minn == bn);
                assert(eq_val(r2, r));
                assert(eq_val(b2, b));
            } else if bn < maxn {
                // Sector 2: (p, v, t).
                assert(minn == rn);
                assert(eq_val(r2, r));
                assert(eq_val(b2, b));
            } else {
                // Sector 3 with zero fraction: blue equals the maximum.
                assert(minn == rn);
                assert(eq_val(r2, r));
                assert(eq_val(b2, b));
            }
        } else {
            assert(bn == maxn);
            if rn < gn {
                // Sector 3: (p, q, v).
                assert(minn == rn);
                assert(eq_val(r2, r));
                assert(eq_val(g2, g));
            } else {
                // Sector 4: (t, p, v).
                assert(minn == gn);
                assert(eq_val(r2, r));
                assert(eq_val(g2, g));
            }
        }
    }
}

} // verus!
