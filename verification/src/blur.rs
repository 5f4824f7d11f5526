//! A large-radius blur and channel inversion.
//!
//! The blur is three iterated box blurs of radius 8 (17-tap windows, edges
//! replicated, each pass run along both axes), a standard Gaussian-class
//! approximation. Iterating box blurs keeps the arithmetic exact: each tap
//! window of a constant image averages back to the same constant.

use crate::raster::{lemma_rgb_idx_bounds, rgb_idx, RgbImg};
use vstd::prelude::*;

verus! {

/// Clamps an index into `[0, hi]`.
pub open spec fn clamp_idx(v: int, hi: int) -> int {
    if v < 0 {
        0
    } else if v > hi {
        hi
    } else {
        v
    }
}

/// The `t`-th of the 17 taps of the blur window around `(x, y)`, read along
/// the horizontal or the vertical axis, with edges replicated.
pub open spec fn tap(
    f: spec_fn(int, int, int) -> u8,
    w: int,
    h: int,
    x: int,
    y: int,
    c: int,
    t: int,
    horiz: bool,
) -> u8 {
    if horiz {
        f(clamp_idx(x + t - 8, w - 1), y, c)
    } else {
        f(x, clamp_idx(y + t - 8, h - 1), c)
    }
}

/// The sum of the first `k` taps of the window around `(x, y)`.
pub open spec fn win_sum(
    f: spec_fn(int, int, int) -> u8,
    w: int,
    h: int,
    x: int,
    y: int,
    c: int,
    k: nat,
    horiz: bool,
) -> int
    decreases k,
{
    if k == 0 {
        0
    } else {
        win_sum(f, w, h, x, y, c, (k - 1) as nat, horiz) + tap(
            f,
            w,
            h,
            x,
            y,
            c,
            (k - 1) as int,
            horiz,
        )
    }
}

/// One box pass: every channel becomes the rounded mean of its 17-tap
/// window.
pub open spec fn box_pass(f: spec_fn(int, int, int) -> u8, w: int, h: int, horiz: bool) -> spec_fn(
    int,
    int,
    int,
) -> u8 {
    |x: int, y: int, c: int| ((win_sum(f, w, h, x, y, c, 17, horiz) + 8) / 17) as u8
}

/// The whole blur: three box blurs, each run along both axes.
pub open spec fn blur_fn(f: spec_fn(int, int, int) -> u8, w: int, h: int) -> spec_fn(
    int,
    int,
    int,
) -> u8 {
    let p1 = box_pass(f, w, h, true);
    let p2 = box_pass(p1, w, h, false);
    let p3 = box_pass(p2, w, h, true);
    let p4 = box_pass(p3, w, h, false);
    let p5 = box_pass(p4, w, h, true);
    box_pass(p5, w, h, false)
}

/// The channels of an image as a function of coordinates.
pub open spec fn chan_fn(img: RgbImg) -> spec_fn(int, int, int) -> u8 {
    |x: int, y: int, c: int| img.chan(x, y, c)
}

/// A window sum of `k` byte taps stays within `[0, 255 k]`.
pub proof fn lemma_win_sum_bounds(
    f: spec_fn(int, int, int) -> u8,
    w: int,
    h: int,
    x: int,
    y: int,
    c: int,
    k: nat,
    horiz: bool,
)
    ensures
        0 <= win_sum(f, w, h, x, y, c, k, horiz) <= 255 * k,
    decreases k,
{
    if k > 0 {
        lemma_win_sum_bounds(f, w, h, x, y, c, (k - 1) as nat, horiz);
    }
}

/// Window sums only read in-bounds coordinates, so two channel functions
/// that agree inside the image have equal window sums there.
pub proof fn lemma_win_sum_congruence(
    f1: spec_fn(int, int, int) -> u8,
    f2: spec_fn(int, int, int) -> u8,
    w: int,
    h: int,
    x: int,
    y: int,
    c: int,
    k: nat,
    horiz: bool,
)
    requires
        0 <= x < w,
        0 <= y < h,
        forall|xx: int, yy: int| 0 <= xx < w && 0 <= yy < h ==> #[trigger] f1(xx, yy, c)
            == f2(xx, yy, c),
    ensures
        win_sum(f1, w, h, x, y, c, k, horiz) == win_sum(f2, w, h, x, y, c, k, horiz),
    decreases k,
{
    if k > 0 {
        lemma_win_sum_congruence(f1, f2, w, h, x, y, c, (k - 1) as nat, horiz);
    }
}

/// Rows already finished lie below the write position of the current row.
proof fn lemma_rgb_idx_row_below(w: int, xx: int, yy: int, cc: int, y: int) by (nonlinear_arith)
    requires
        0 <= xx < w,
        0 <= yy < y,
        0 <= cc < 3,
    ensures
        0 <= rgb_idx(w, xx, yy, cc) < 3 * (y * w),
{
}

/// Runs one box pass over the image, along one axis.
pub fn box_blur_pass(src: &RgbImg, horiz: bool) -> (dst: RgbImg)
    requires
        src.wf(),
    ensures
        dst.wf(),
        dst.width == src.width,
        dst.height == src.height,
        forall|x: int, y: int, c: int|
            0 <= x < src.width && 0 <= y < src.height && 0 <= c < 3 ==> dst.chan(x, y, c)
                == box_pass(chan_fn(*src), src.width as int, src.height as int, horiz)(x, y, c),
{
    let w: u32 = src.width;
    let h: u32 = src.height;
    let ghost f = chan_fn(*src);
    let ghost wi = w as int;
    let ghost hi = h as int;
    let mut data: Vec<u8> = Vec::new();
    let mut y: u32 = 0;
    while y < h
        invariant
            src.wf(),
            w == src.width,
            h == src.height,
            f == chan_fn(*src),
            wi == w as int,
            hi == h as int,
            y <= h,
            data@.len() == 3 * ((y as int) * wi),
            forall|xx: int, yy: int, cc: int|
                0 <= xx < wi && 0 <= yy < y && 0 <= cc < 3 ==> data@[rgb_idx(wi, xx, yy, cc)]
                    == box_pass(f, wi, hi, horiz)(xx, yy, cc),
        decreases h - y,
    {
        let mut x: u32 = 0;
        while x < w
            invariant
                src.wf(),
                w == src.width,
                h == src.height,
                f == chan_fn(*src),
                wi == w as int,
                hi == h as int,
                y < h,
                x <= w,
                data@.len() == 3 * ((y as int) * wi + x as int),
                forall|xx: int, yy: int, cc: int|
                    0 <= xx < wi && 0 <= yy < y && 0 <= cc < 3 ==> data@[rgb_idx(wi, xx, yy, cc)]
                        == box_pass(f, wi, hi, horiz)(xx, yy, cc),
                forall|xx: int, cc: int|
                    0 <= xx < x && 0 <= cc < 3 ==> data@[rgb_idx(wi, xx, y as int, cc)]
                        == box_pass(f, wi, hi, horiz)(xx, y as int, cc),
            decreases w - x,
        {
            let mut c: u32 = 0;
            while c < 3
                invariant
                    src.wf(),
                    w == src.width,
                    h == src.height,
                    f == chan_fn(*src),
                    wi == w as int,
                    hi == h as int,
                    y < h,
                    x < w,
                    c <= 3,
                    data@.len() == 3 * ((y as int) * wi + x as int) + c as int,
                    forall|xx: int, yy: int, cc: int|
                        0 <= xx < wi && 0 <= yy < y && 0 <= cc < 3 ==> data@[rgb_idx(
                            wi,
                            xx,
                            yy,
                            cc,
                        )] == box_pass(f, wi, hi, horiz)(xx, yy, cc),
                    forall|xx: int, cc: int|
                        0 <= xx < x && 0 <= cc < 3 ==> data@[rgb_idx(wi, xx, y as int, cc)]
                            == box_pass(f, wi, hi, horiz)(xx, y as int, cc),
                    forall|cc: int|
                        0 <= cc < c ==> data@[rgb_idx(wi, x as int, y as int, cc)] == box_pass(
                            f,
                            wi,
                            hi,
                            horiz,
                        )(x as int, y as int, cc),
                decreases 3 - c,
            {
                let mut sum: u32 = 0;
                let mut t: u32 = 0;
                while t < 17
                    invariant
                        src.wf(),
                        w == src.width,
                        h == src.height,
                        f == chan_fn(*src),
                        wi == w as int,
                        hi == h as int,
                        y < h,
                        x < w,
                        c < 3,
                        t <= 17,
                        sum <= 255 * t,
                        sum == win_sum(f, wi, hi, x as int, y as int, c as int, t as nat, horiz),
                    decreases 17 - t,
                {
                    let sample: u8 = if horiz {
                        let pos: u64 = x as u64 + t as u64;
                        let xi: u64 = if pos >= 8 {
                            if pos - 8 > (w - 1) as u64 {
                                (w - 1) as u64
                            } else {
                                pos - 8
                            }
                        } else {
                            0
                        };
                        src.get(xi as u32, y, c)
                    } else {
                        let pos: u64 = y as u64 + t as u64;
                        let yi: u64 = if pos >= 8 {
                            if pos - 8 > (h - 1) as u64 {
                                (h - 1) as u64
                            } else {
                                pos - 8
                            }
                        } else {
                            0
                        };
                        src.get(x, yi as u32, c)
                    };
                    assert(sample == tap(f, wi, hi, x as int, y as int, c as int, t as int, horiz));
                    sum = sum + sample as u32;
                    t = t + 1;
                }
                let val: u8 = ((sum + 8) / 17) as u8;
                assert(val == box_pass(f, wi, hi, horiz)(x as int, y as int, c as int));
                proof {
                    lemma_rgb_idx_bounds(wi, hi, x as int, y as int, c as int);
                    assert forall|xx: int, yy: int, cc: int|
                        0 <= xx < wi && 0 <= yy < y && 0 <= cc < 3 implies rgb_idx(wi, xx, yy, cc)
                        < 3 * ((y as int) * wi) by {
                        lemma_rgb_idx_row_below(wi, xx, yy, cc, y as int);
                    }
                }
                data.push(val);
                c = c + 1;
            }
            x = x + 1;
        }
        proof {
            assert forall|xx: int, yy: int, cc: int|
                0 <= xx < wi && 0 <= yy < y + 1 && 0 <= cc < 3 implies data@[rgb_idx(
                wi,
                xx,
                yy,
                cc,
            )] == box_pass(f, wi, hi, horiz)(xx, yy, cc) by {
                lemma_rgb_idx_row_below(wi, xx, yy, cc, y as int + 1);
            }
            assert(3 * (((y + 1) as int) * wi) == 3 * ((y as int) * wi + wi)) by (nonlinear_arith);
        }
        y = y + 1;
    }
    proof {
        assert(data@.len() == 3 * (wi * hi)) by (nonlinear_arith)
            requires
                data@.len() == 3 * ((hi) * wi),
        ;
    }
    RgbImg { width: w, height: h, data }
}

/// Blurs the image: three box blurs of radius 8, each along both axes.
pub fn gaussian_blur(src: &RgbImg) -> (dst: RgbImg)
    requires
        src.wf(),
    ensures
        dst.wf(),
        dst.width == src.width,
        dst.height == src.height,
        forall|x: int, y: int, c: int|
            0 <= x < src.width && 0 <= y < src.height && 0 <= c < 3 ==> dst.chan(x, y, c)
                == blur_fn(chan_fn(*src), src.width as int, src.height as int)(x, y, c),
{
    let ghost wi = src.width as int;
    let ghost hi = src.height as int;
    let ghost f = chan_fn(*src);
    let b1 = box_blur_pass(src, true);
    let b2 = box_blur_pass(&b1, false);
    let b3 = box_blur_pass(&b2, true);
    let b4 = box_blur_pass(&b3, false);
    let b5 = box_blur_pass(&b4, true);
    let b6 = box_blur_pass(&b5, false);
    proof {
        let p1 = box_pass(f, wi, hi, true);
        let p2 = box_pass(p1, wi, hi, false);
        let p3 = box_pass(p2, wi, hi, true);
        let p4 = box_pass(p3, wi, hi, false);
        let p5 = box_pass(p4, wi, hi, true);
        let p6 = box_pass(p5, wi, hi, false);
        assert forall|x: int, y: int, c: int|
            0 <= x < wi && 0 <= y < hi && 0 <= c < 3 implies #[trigger] b2.chan(x, y, c) == p2(
            x,
            y,
            c,
        ) by {
            lemma_win_sum_congruence(chan_fn(b1), p1, wi, hi, x, y, c, 17, false);
        }
        assert forall|x: int, y: int, c: int|
            0 <= x < wi && 0 <= y < hi && 0 <= c < 3 implies #[trigger] b3.chan(x, y, c) == p3(
            x,
            y,
            c,
        ) by {
            lemma_win_sum_congruence(chan_fn(b2), p2, wi, hi, x, y, c, 17, true);
        }
        assert forall|x: int, y: int, c: int|
            0 <= x < wi && 0 <= y < hi && 0 <= c < 3 implies #[trigger] b4.chan(x, y, c) == p4(
            x,
            y,
            c,
        ) by {
            lemma_win_sum_congruence(chan_fn(b3), p3, wi, hi, x, y, c, 17, false);
        }
        assert forall|x: int, y: int, c: int|
            0 <= x < wi && 0 <= y < hi && 0 <= c < 3 implies #[trigger] b5.chan(x, y, c) == p5(
            x,
            y,
            c,
        ) by {
            lemma_win_sum_congruence(chan_fn(b4), p4, wi, hi, x, y, c, 17, true);
        }
        assert forall|x: int, y: int, c: int|
            0 <= x < wi && 0 <= y < hi && 0 <= c < 3 implies #[trigger] b6.chan(x, y, c) == p6(
            x,
            y,
            c,
        ) by {
            lemma_win_sum_congruence(chan_fn(b5), p5, wi, hi, x, y, c, 17, false);
        }
    }
    b6
}

/// Inverts every channel of the image.
pub fn invert(src: &RgbImg) -> (dst: RgbImg)
    requires
        src.wf(),
    ensures
        dst.wf(),
        dst.width == src.width,
        dst.height == src.height,
        forall|x: int, y: int, c: int|
            0 <= x < src.width && 0 <= y < src.height && 0 <= c < 3 ==> dst.chan(x, y, c) == 255
                - src.chan(x, y, c),
{
    let w: u32 = src.width;
    let h: u32 = src.height;
    let ghost wi = w as int;
    let ghost hi = h as int;
    let mut data: Vec<u8> = Vec::new();
    let mut y: u32 = 0;
    while y < h
        invariant
            src.wf(),
            w == src.width,
            h == src.height,
            wi == w as int,
            hi == h as int,
            y <= h,
            data@.len() == 3 * ((y as int) * wi),
            forall|xx: int, yy: int, cc: int|
                0 <= xx < wi && 0 <= yy < y && 0 <= cc < 3 ==> data@[rgb_idx(wi, xx, yy, cc)] == 255
                    - src.chan(xx, yy, cc),
        decreases h - y,
    {
        let mut x: u32 = 0;
        while x < w
            invariant
                src.wf(),
                w == src.width,
                h == src.height,
                wi == w as int,
                hi == h as int,
                y < h,
                x <= w,
                data@.len() == 3 * ((y as int) * wi + x as int),
                forall|xx: int, yy: int, cc: int|
                    0 <= xx < wi && 0 <= yy < y && 0 <= cc < 3 ==> data@[rgb_idx(wi, xx, yy, cc)]
                        == 255 - src.chan(xx, yy, cc),
                forall|xx: int, cc: int|
                    0 <= xx < x && 0 <= cc < 3 ==> data@[rgb_idx(wi, xx, y as int, cc)] == 255
                        - src.chan(xx, y as int, cc),
            decreases w - x,
        {
            let mut c: u32 = 0;
            while c < 3
                invariant
                    src.wf(),
                    w == src.width,
                    h == src.height,
                    wi == w as int,
                    hi == h as int,
                    y < h,
                    x < w,
                    c <= 3,
                    data@.len() == 3 * ((y as int) * wi + x as int) + c as int,
                    forall|xx: int, yy: int, cc: int|
                        0 <= xx < wi && 0 <= yy < y && 0 <= cc < 3 ==> data@[rgb_idx(
                            wi,
                            xx,
                            yy,
                            cc,
                        )] == 255 - src.chan(xx, yy, cc),
                    forall|xx: int, cc: int|
                        0 <= xx < x && 0 <= cc < 3 ==> data@[rgb_idx(wi, xx, y as int, cc)] == 255
                            - src.chan(xx, y as int, cc),
                    forall|cc: int|
                        0 <= cc < c ==> data@[rgb_idx(wi, x as int, y as int, cc)] == 255
                            - src.chan(x as int, y as int, cc),
                decreases 3 - c,
            {
                let sample: u8 = src.get(x, y, c);
                proof {
                    lemma_rgb_idx_bounds(wi, hi, x as int, y as int, c as int);
                    assert forall|xx: int, yy: int, cc: int|
                        0 <= xx < wi && 0 <= yy < y && 0 <= cc < 3 implies rgb_idx(wi, xx, yy, cc)
                        < 3 * ((y as int) * wi) by {
                        lemma_rgb_idx_row_below(wi, xx, yy, cc, y as int);
                    }
                }
                data.push(255 - sample);
                c = c + 1;
            }
            x = x + 1;
        }
        proof {
            assert forall|xx: int, yy: int, cc: int|
                0 <= xx < wi && 0 <= yy < y + 1 && 0 <= cc < 3 implies data@[rgb_idx(
                wi,
                xx,
                yy,
                cc,
            )] == 255 - src.chan(xx, yy, cc) by {
                lemma_rgb_idx_row_below(wi, xx, yy, cc, y as int + 1);
            }
            assert(3 * (((y + 1) as int) * wi) == 3 * ((y as int) * wi + wi)) by (nonlinear_arith);
        }
        y = y + 1;
    }
    proof {
        assert(data@.len() == 3 * (wi * hi)) by (nonlinear_arith)
            requires
                data@.len() == 3 * ((hi) * wi),
        ;
    }
    RgbImg { width: w, height: h, data }
}

} // verus!
