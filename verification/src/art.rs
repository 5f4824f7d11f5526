//! The ASCII-art generator: the decoded source image, the per-run tunables,
//! and the processor that runs the transform pipeline.

use crate::blur::{blur_fn, chan_fn, gaussian_blur, invert};
use crate::color::{hsv_to_rgb, hsv_to_rgb_spec, rgb_to_hsv, rgb_to_hsv_spec};
use crate::frac::{lemma_div_mono, Frac};
use crate::glyph::{glyph_char, glyph_index, glyph_table, glyphs};
use crate::imageops::{decode_rgb, decoded_rgb, lanczos3_resized, lanczos_resize};
use crate::levels::{adjust, adjust_spec};
use crate::raster::{
    gray_idx, lemma_gray_idx_bounds, lemma_gray_idx_row_below, GrayImg, RgbImg,
};
use vstd::prelude::*;

verus! {

/// Default low level threshold.
pub const DEFAULT_MIN_LEVEL: u8 = 78;

/// Default high level threshold.
pub const DEFAULT_MAX_LEVEL: u8 = 125;

/// Default gamma, in hundredths (0.78).
pub const DEFAULT_GAMMA_CENTI: u16 = 78;

/// Working width cap: wider sources are clamped to this before the pipeline
/// runs, to bound its cost.
pub const MAX_WIDTH: u32 = 500;

/// The errors of a generator run.
#[derive(Debug, PartialEq, Eq, Structural, Clone, Copy)]
pub enum ArtError {
    /// The input bytes are not a valid supported raster image.
    Decode,
    /// The host failed to register a deferred task.
    Scheduling,
    /// A collaborator failed while consuming a stage's output.
    Presentation,
}

/// `a * c / b`, rounded to the nearest integer (half away from zero):
/// the paired dimension under an aspect ratio `b : c`.
pub open spec fn round_ratio(a: int, b: int, c: int) -> int {
    (2 * a * c + b) / (2 * b)
}

/// [`round_ratio`] clamped up to 1, so a dimension never vanishes.
pub open spec fn fitted_dim(a: int, b: int, c: int) -> int {
    if round_ratio(a, b, c) < 1 {
        1
    } else {
        round_ratio(a, b, c)
    }
}

/// For `1 <= a <= b` the rounded ratio stays within `[0, c]`.
pub proof fn lemma_round_ratio_le(a: int, b: int, c: int)
    requires
        1 <= a <= b,
        1 <= c,
    ensures
        0 <= round_ratio(a, b, c) <= c,
        1 <= fitted_dim(a, b, c) <= c,
{
    assert(0 <= 2 * a * c + b && 2 * a * c + b <= 2 * b * c + b) by (nonlinear_arith)
        requires
            1 <= a <= b,
            1 <= c,
    ;
    crate::frac::lemma_div_nonneg(2 * a * c + b, 2 * b);
    lemma_div_mono(2 * a * c + b, 2 * b * c + b, 2 * b);
    assert(2 * b * c + b == c * (2 * b) + b) by (nonlinear_arith);
    vstd::arithmetic::div_mod::lemma_fundamental_div_mod_converse(2 * b * c + b, 2 * b, c, b);
}

/// Aspect-ratio law for the dimension setters: for a requested dimension `a`
/// strictly under the source's `b` (paired with `c`), the recomputed paired
/// dimension differs from the exact ratio `a * c / b` by at most one, i.e.
/// `|fitted * b - a * c| <= b`.
pub proof fn lemma_fitted_dim_aspect(a: int, b: int, c: int)
    requires
        1 <= a <= b,
        1 <= c,
    ensures
        -b <= fitted_dim(a, b, c) * b - a * c <= b,
{
    let r = round_ratio(a, b, c);
    vstd::arithmetic::div_mod::lemma_fundamental_div_mod(2 * a * c + b, 2 * b);
    vstd::arithmetic::div_mod::lemma_mod_bound(2 * a * c + b, 2 * b);
    assert(2 * b * r <= 2 * a * c + b < 2 * b * r + 2 * b) by (nonlinear_arith)
        requires
            1 <= b,
            2 * a * c + b == (2 * b) * r + (2 * a * c + b) % (2 * b),
            0 <= (2 * a * c + b) % (2 * b) < 2 * b,
    ;
    if r < 1 {
        // The ratio rounds to zero, and the dimension is clamped to one:
        // the exact ratio is below one half, so still within one.
        crate::frac::lemma_div_nonneg(2 * a * c + b, 2 * b);
        assert(r == 0);
        assert(2 * a * c + b < 2 * b) by (nonlinear_arith)
            requires
                2 * a * c + b < 2 * b * r + 2 * b,
                r == 0,
        ;
        assert(0 <= 2 * a * c) by (nonlinear_arith)
            requires
                1 <= a,
                1 <= c,
        ;
        assert(fitted_dim(a, b, c) == 1);
        assert(-b <= 1 * b - a * c <= b) by (nonlinear_arith)
            requires
                0 <= 2 * a * c,
                2 * a * c + b < 2 * b,
        ;
    } else {
        assert(fitted_dim(a, b, c) == r);
        assert(-b <= r * b - a * c <= b) by (nonlinear_arith)
            requires
                2 * b * r <= 2 * a * c + b < 2 * b * r + 2 * b,
    ;
    }
}

/// The generator: the decoded source image, the level thresholds, the gamma
/// and the stored target dimensions.
///
/// The invariant [`AsciiArtGenerator::wf`] ties the fields together; mutate
/// the tunables through the setters, which keep it.
pub struct AsciiArtGenerator {
    /// Low level threshold; luminance at or below it maps to black.
    pub min_level: u8,
    /// High level threshold; luminance at or above it maps to white.
    pub max_level: u8,
    /// Gamma of the level stretch, in hundredths.
    pub gamma_centi: u16,
    /// Target width of the art, in glyphs.
    pub width: u32,
    /// Stored target height; the pipeline corrects it for the glyph cell
    /// aspect ratio.
    pub height: u32,
    /// The decoded source image, never mutated.
    pub img: RgbImg,
}

impl AsciiArtGenerator {
    /// The configuration invariant: valid level window, positive gamma, and
    /// target dimensions between one and the source dimensions.
    pub open spec fn wf(&self) -> bool {
        &&& self.img.wf()
        &&& 1 <= self.img.width
        &&& 1 <= self.img.height
        &&& 1 <= self.width <= self.img.width
        &&& 1 <= self.height <= self.img.height
        &&& self.min_level < self.max_level
        &&& 1 <= self.gamma_centi
    }

    /// Creates a generator from encoded image bytes, with default tunables.
    ///
    /// Fails exactly when the bytes do not decode to an image with at least
    /// one pixel. A source wider than [`MAX_WIDTH`] starts clamped to it,
    /// with the height refitted to the aspect ratio.
    pub fn from_bytes(bytes: &[u8]) -> (res: Result<AsciiArtGenerator, ArtError>)
        ensures
            (res matches Ok(g) ==> {
                &&& decoded_rgb(bytes@) matches Some(d)
                &&& g.wf()
                &&& g.img.width as int == d.width
                &&& g.img.height as int == d.height
                &&& g.img.data@ == d.data
                &&& g.min_level == DEFAULT_MIN_LEVEL
                &&& g.max_level == DEFAULT_MAX_LEVEL
                &&& g.gamma_centi == DEFAULT_GAMMA_CENTI
                &&& g.width as int == if d.width > MAX_WIDTH { MAX_WIDTH as int } else { d.width }
                &&& g.height as int == if d.width > MAX_WIDTH {
                    fitted_dim(MAX_WIDTH as int, d.width, d.height)
                } else {
                    d.height
                }
            }),
            (res matches Err(e) ==> {
                &&& e == ArtError::Decode
                &&& match decoded_rgb(bytes@) {
                    Some(d) => d.width < 1 || d.height < 1,
                    None => true,
                }
            }),
    {
        let img = match decode_rgb(bytes) {
            Ok(img) => img,
            Err(_) => {
                return Err(ArtError::Decode);
            },
        };
        if img.width == 0 || img.height == 0 {
            return Err(ArtError::Decode);
        }
        let mut gen = AsciiArtGenerator {
            min_level: DEFAULT_MIN_LEVEL,
            max_level: DEFAULT_MAX_LEVEL,
            gamma_centi: DEFAULT_GAMMA_CENTI,
            width: img.width,
            height: img.height,
            img,
        };
        if gen.width > MAX_WIDTH {
            let _h: u32 = gen.set_width(MAX_WIDTH);
        }
        Ok(gen)
    }

    /// Sets the target width and returns the new height.
    ///
    /// A no-op returning the current height when the requested width is not
    /// strictly smaller than the source width (no upscaling), or when it is
    /// zero; otherwise the height is refitted from the source aspect ratio.
    pub fn set_width(&mut self, width: u32) -> (h: u32)
        requires
            old(self).wf(),
        ensures
            final(self).wf(),
            h == final(self).height,
            final(self).img == old(self).img,
            final(self).min_level == old(self).min_level,
            final(self).max_level == old(self).max_level,
            final(self).gamma_centi == old(self).gamma_centi,
            (width >= old(self).img.width || width == 0) ==> *final(self) == *old(self),
            (1 <= width < old(self).img.width) ==> {
                &&& final(self).width == width
                &&& final(self).height as int == fitted_dim(
                    width as int,
                    old(self).img.width as int,
                    old(self).img.height as int,
                )
            },
    {
        if width >= self.img.width || width == 0 {
            return self.height;
        }
        let w = width as u128;
        let sw = self.img.width as u128;
        let sh = self.img.height as u128;
        proof {
            assert(2 * (w as int) * (sh as int) <= 2 * 0xffff_ffff * 0xffff_ffff)
                by (nonlinear_arith)
                requires
                    0 <= w <= 0xffff_ffff,
                    0 <= sh <= 0xffff_ffff,
            ;
        }
        let r: u128 = (2 * w * sh + sw) / (2 * sw);
        proof {
            lemma_round_ratio_le(width as int, self.img.width as int, self.img.height as int);
        }
        let fitted: u32 = if r < 1 {
            1
        } else {
            r as u32
        };
        self.width = width;
        self.height = fitted;
        self.height
    }

    /// Sets the target height and returns the new width.
    ///
    /// A no-op returning the current width when the requested height is not
    /// strictly smaller than the source height, or when it is zero;
    /// otherwise the width is refitted from the source aspect ratio.
    pub fn set_height(&mut self, height: u32) -> (w: u32)
        requires
            old(self).wf(),
        ensures
            final(self).wf(),
            w == final(self).width,
            final(self).img == old(self).img,
            final(self).min_level == old(self).min_level,
            final(self).max_level == old(self).max_level,
            final(self).gamma_centi == old(self).gamma_centi,
            (height >= old(self).img.height || height == 0) ==> *final(self) == *old(self),
            (1 <= height < old(self).img.height) ==> {
                &&& final(self).height == height
                &&& final(self).width as int == fitted_dim(
                    height as int,
                    old(self).img.height as int,
                    old(self).img.width as int,
                )
            },
    {
        if height >= self.img.height || height == 0 {
            return self.width;
        }
        let h = height as u128;
        let sw = self.img.width as u128;
        let sh = self.img.height as u128;
        proof {
            assert(2 * (h as int) * (sw as int) <= 2 * 0xffff_ffff * 0xffff_ffff)
                by (nonlinear_arith)
                requires
                    0 <= h <= 0xffff_ffff,
                    0 <= sw <= 0xffff_ffff,
            ;
        }
        let r: u128 = (2 * h * sw + sh) / (2 * sh);
        proof {
            lemma_round_ratio_le(height as int, self.img.height as int, self.img.width as int);
        }
        let fitted: u32 = if r < 1 {
            1
        } else {
            r as u32
        };
        self.height = height;
        self.width = fitted;
        self.width
    }

    /// Sets the level window; rejected (and unchanged) unless
    /// `min_level < max_level`.
    pub fn set_levels(&mut self, min_level: u8, max_level: u8) -> (ok: bool)
        requires
            old(self).wf(),
        ensures
            final(self).wf(),
            ok <==> min_level < max_level,
            ok ==> *final(self) == (AsciiArtGenerator { min_level, max_level, ..*old(self) }),
            !ok ==> *final(self) == *old(self),
    {
        if min_level < max_level {
            self.min_level = min_level;
            self.max_level = max_level;
            true
        } else {
            false
        }
    }

    /// Returns the processor which generates the artwork; it borrows the
    /// generator, so the configuration cannot change mid-run.
    pub fn processor(&self) -> (p: Processor<'_>)
        ensures
            p.gen == self,
    {
        Processor { gen: self }
    }

    /// Sets the gamma, in hundredths; rejected (and unchanged) when zero.
    pub fn set_gamma_centi(&mut self, gamma_centi: u16) -> (ok: bool)
        requires
            old(self).wf(),
        ensures
            final(self).wf(),
            ok <==> gamma_centi >= 1,
            ok ==> *final(self) == (AsciiArtGenerator { gamma_centi, ..*old(self) }),
            !ok ==> *final(self) == *old(self),
    {
        if gamma_centi >= 1 {
            self.gamma_centi = gamma_centi;
            true
        } else {
            false
        }
    }
}

/// Relies on `alloc::string::String::push`: appends the character to the
/// string.
pub assume_specification[ String::push ](s: &mut String, c: char)
    ensures
        final(s)@ == old(s)@.push(c),
;

/// The height corrected for the glyph cell: glyphs render about 6 pixels
/// wide and 11 high, so the pixel height is `round(h * 6 / 11)`, clamped up
/// to one.
pub open spec fn corrected_height(h: int) -> int {
    if (12 * h + 11) / 22 < 1 {
        1
    } else {
        (12 * h + 11) / 22
    }
}

/// Two channel bytes blended at the fixed one-half ratio, normalized.
pub open spec fn blend_frac(c1: u8, c2: u8) -> Frac {
    Frac { num: (c1 + c2) as u64, den: 510 }
}

/// The luminance of an RGB byte triple (Rec. 709 weights, rounded).
pub open spec fn luma_byte(r: int, g: int, b: int) -> int {
    (2126 * r + 7152 * g + 722 * b + 5000) / 10000
}

/// The blend-and-adjust result for one pixel: the two source pixels are
/// averaged per channel, converted to HSV, the V channel is level-adjusted,
/// the result converted back to RGB, rounded to bytes and reduced to its
/// luminance.
pub open spec fn sketch_luma(
    a_r: u8,
    a_g: u8,
    a_b: u8,
    f_r: u8,
    f_g: u8,
    f_b: u8,
    min_level: u8,
    max_level: u8,
    gamma_centi: u16,
) -> int {
    let (h, s, v) = rgb_to_hsv_spec(
        blend_frac(a_r, f_r),
        blend_frac(a_g, f_g),
        blend_frac(a_b, f_b),
    );
    let v2 = adjust_spec(v, min_level, max_level, gamma_centi);
    let (r2, g2, b2) = hsv_to_rgb_spec(h, s, v2);
    luma_byte(r2.round255(), g2.round255(), b2.round255())
}

/// The output byte of [`sketch_luma`] for one pixel.
pub open spec fn is_sketch_luma(
    a_r: u8,
    a_g: u8,
    a_b: u8,
    f_r: u8,
    f_g: u8,
    f_b: u8,
    min_level: u8,
    max_level: u8,
    gamma_centi: u16,
    out: u8,
) -> bool {
    out == sketch_luma(a_r, a_g, a_b, f_r, f_g, f_b, min_level, max_level, gamma_centi)
}

/// Computes the blend-and-adjust result for one pixel.
fn sketch_pixel(
    a_r: u8,
    a_g: u8,
    a_b: u8,
    f_r: u8,
    f_g: u8,
    f_b: u8,
    min_level: u8,
    max_level: u8,
    gamma_centi: u16,
) -> (out: u8)
    requires
        min_level < max_level,
        gamma_centi >= 1,
    ensures
        is_sketch_luma(a_r, a_g, a_b, f_r, f_g, f_b, min_level, max_level, gamma_centi, out),
{
    let cr = Frac::new(a_r as u64 + f_r as u64, 510);
    let cg = Frac::new(a_g as u64 + f_g as u64, 510);
    let cb = Frac::new(a_b as u64 + f_b as u64, 510);
    let (h, s, v) = rgb_to_hsv(cr, cg, cb);
    let v2 = adjust(v, min_level, max_level, gamma_centi);
    let (r2, g2, b2) = hsv_to_rgb(h, s, v2);
    proof {
        assert((v2.den as int) * (s.den as int) * (h.den as int) < 0x20_0000_0000_0000)
            by (nonlinear_arith)
            requires
                v2.den == 65536,
                0 <= s.den <= 510,
                0 <= h.den <= 3060,
        ;
    }
    let rb = r2.to_byte();
    let gb = g2.to_byte();
    let bb = b2.to_byte();
    let num: u32 = 2126 * (rb as u32) + 7152 * (gb as u32) + 722 * (bb as u32) + 5000;
    let lum: u32 = num / 10000;
    proof {
        lemma_div_mono(num as int, 2555000, 10000);
        crate::frac::lemma_div_nonneg(num as int, 10000);
        let (hs, ss, vs) = rgb_to_hsv_spec(
            blend_frac(a_r, f_r),
            blend_frac(a_g, f_g),
            blend_frac(a_b, f_b),
        );
        assert(h == hs && s == ss && v == vs);
        assert(v2 == adjust_spec(vs, min_level, max_level, gamma_centi));
        let (r2s, g2s, b2s) = hsv_to_rgb_spec(hs, ss, v2);
        assert(r2 == r2s && g2 == g2s && b2 == b2s);
        assert(lum == luma_byte(r2s.round255(), g2s.round255(), b2s.round255()));
    }
    lum as u8
}

/// The processor which actually generates the art. It borrows the generator,
/// which therefore stays unchanged for the whole run.
pub struct Processor<'a> {
    /// The generator this processor reads.
    pub gen: &'a AsciiArtGenerator,
}

impl<'a> Processor<'a> {
    /// Resizes the source image to the stored target width and the
    /// glyph-cell-corrected target height, with Lanczos3 resampling.
    pub fn resize(&self) -> (out: RgbImg)
        requires
            self.gen.wf(),
        ensures
            out.wf(),
            out.width == self.gen.width,
            out.height as int == corrected_height(self.gen.height as int),
            out.data@ == lanczos3_resized(
                self.gen.img.data@,
                self.gen.img.width as int,
                self.gen.img.height as int,
                out.width as int,
                out.height as int,
            ),
    {
        let h64: u64 = (12 * (self.gen.height as u64) + 11) / 22;
        proof {
            crate::frac::lemma_div_below(
                12 * (self.gen.height as int) + 11,
                22,
                self.gen.height as int + 1,
            );
            crate::frac::lemma_div_nonneg(12 * (self.gen.height as int) + 11, 22);
        }
        let ch: u32 = if h64 < 1 {
            1
        } else {
            h64 as u32
        };
        lanczos_resize(&self.gen.img, self.gen.width, ch)
    }

    /// Applies the large-radius blur and inverts all channels. The result is
    /// the soft "edge-lit" foreground layer blended over the resized image.
    pub fn blur_and_invert(&self, img: &RgbImg) -> (out: RgbImg)
        requires
            img.wf(),
        ensures
            out.wf(),
            out.width == img.width,
            out.height == img.height,
            forall|x: int, y: int, c: int|
                0 <= x < img.width && 0 <= y < img.height && 0 <= c < 3 ==> out.chan(x, y, c)
                    == 255 - blur_fn(chan_fn(*img), img.width as int, img.height as int)(x, y, c),
    {
        let blurred = gaussian_blur(img);
        invert(&blurred)
    }

    /// Blends the two stage images at the fixed one-half ratio, adjusts the
    /// levels of each blended pixel, and reduces it to its luminance.
    pub fn blend_and_adjust(&self, actual: &RgbImg, fg: &RgbImg) -> (out: GrayImg)
        requires
            self.gen.wf(),
            actual.wf(),
            fg.wf(),
            fg.width == actual.width,
            fg.height == actual.height,
        ensures
            out.wf(),
            out.width == actual.width,
            out.height == actual.height,
            forall|x: int, y: int|
                0 <= x < actual.width && 0 <= y < actual.height ==> is_sketch_luma(
                    actual.chan(x, y, 0),
                    actual.chan(x, y, 1),
                    actual.chan(x, y, 2),
                    fg.chan(x, y, 0),
                    fg.chan(x, y, 1),
                    fg.chan(x, y, 2),
                    self.gen.min_level,
                    self.gen.max_level,
                    self.gen.gamma_centi,
                    out.pixel(x, y),
                ),
    {
        let w: u32 = actual.width;
        let h: u32 = actual.height;
        let ghost wi = w as int;
        let mut data: Vec<u8> = Vec::new();
        let mut y: u32 = 0;
        while y < h
            invariant
                self.gen.wf(),
                actual.wf(),
                fg.wf(),
                w == actual.width,
                h == actual.height,
                fg.width == w,
                fg.height == h,
                wi == w as int,
                y <= h,
                data@.len() == (y as int) * wi,
                forall|xx: int, yy: int|
                    0 <= xx < wi && 0 <= yy < y ==> is_sketch_luma(
                        actual.chan(xx, yy, 0),
                        actual.chan(xx, yy, 1),
                        actual.chan(xx, yy, 2),
                        fg.chan(xx, yy, 0),
                        fg.chan(xx, yy, 1),
                        fg.chan(xx, yy, 2),
                        self.gen.min_level,
                        self.gen.max_level,
                        self.gen.gamma_centi,
                        data@[gray_idx(wi, xx, yy)],
                    ),
            decreases h - y,
        {
            let mut x: u32 = 0;
            while x < w
                invariant
                    self.gen.wf(),
                    actual.wf(),
                    fg.wf(),
                    w == actual.width,
                    h == actual.height,
                    fg.width == w,
                    fg.height == h,
                    wi == w as int,
                    y < h,
                    x <= w,
                    data@.len() == (y as int) * wi + x as int,
                    forall|xx: int, yy: int|
                        0 <= xx < wi && 0 <= yy < y ==> is_sketch_luma(
                            actual.chan(xx, yy, 0),
                            actual.chan(xx, yy, 1),
                            actual.chan(xx, yy, 2),
                            fg.chan(xx, yy, 0),
                            fg.chan(xx, yy, 1),
                            fg.chan(xx, yy, 2),
                            self.gen.min_level,
                            self.gen.max_level,
                            self.gen.gamma_centi,
                            data@[gray_idx(wi, xx, yy)],
                        ),
                    forall|xx: int|
                        0 <= xx < x ==> is_sketch_luma(
                            actual.chan(xx, y as int, 0),
                            actual.chan(xx, y as int, 1),
                            actual.chan(xx, y as int, 2),
                            fg.chan(xx, y as int, 0),
                            fg.chan(xx, y as int, 1),
                            fg.chan(xx, y as int, 2),
                            self.gen.min_level,
                            self.gen.max_level,
                            self.gen.gamma_centi,
                            data@[gray_idx(wi, xx, y as int)],
                        ),
                decreases w - x,
            {
                let px = sketch_pixel(
                    actual.get(x, y, 0),
                    actual.get(x, y, 1),
                    actual.get(x, y, 2),
                    fg.get(x, y, 0),
                    fg.get(x, y, 1),
                    fg.get(x, y, 2),
                    self.gen.min_level,
                    self.gen.max_level,
                    self.gen.gamma_centi,
                );
                proof {
                    lemma_gray_idx_bounds(wi, h as int, x as int, y as int);
                    assert forall|xx: int, yy: int|
                        0 <= xx < wi && 0 <= yy < y implies gray_idx(wi, xx, yy) < (y as int)
                        * wi by {
                        lemma_gray_idx_row_below(wi, xx, yy, y as int);
                    }
                }
                data.push(px);
                x = x + 1;
            }
            proof {
                assert forall|xx: int, yy: int|
                    0 <= xx < wi && 0 <= yy < y + 1 implies gray_idx(wi, xx, yy) < ((y + 1) as int)
                    * wi by {
                    lemma_gray_idx_row_below(wi, xx, yy, y as int + 1);
                }
                assert(((y + 1) as int) * wi == (y as int) * wi + wi) by (nonlinear_arith);
            }
            y = y + 1;
        }
        proof {
            assert((h as int) * wi == wi * (h as int)) by (nonlinear_arith);
        }
        GrayImg { width: w, height: h, data }
    }

    /// Maps each luminance pixel to its glyph and returns one string per
    /// row.
    pub fn generate_from_img(&self, img: &GrayImg) -> (rows: Vec<String>)
        requires
            img.wf(),
        ensures
            rows@.len() == img.height as int,
            forall|y: int| 0 <= y < img.height ==> (#[trigger] rows@[y])@.len() == img.width as int,
            forall|y: int, x: int|
                #![trigger rows@[y]@[x]]
                0 <= y < img.height && 0 <= x < img.width ==> rows@[y]@[x] == glyph_char(
                    img.pixel(x, y),
                ),
    {
        let table = glyph_table();
        let mut rows: Vec<String> = Vec::new();
        let mut y: u32 = 0;
        while y < img.height
            invariant
                img.wf(),
                table@ == glyphs(),
                y <= img.height,
                rows@.len() == y as int,
                forall|yy: int| 0 <= yy < y ==> (#[trigger] rows@[yy])@.len() == img.width as int,
                forall|yy: int, x: int|
                    #![trigger rows@[yy]@[x]]
                    0 <= yy < y && 0 <= x < img.width ==> rows@[yy]@[x] == glyph_char(
                        img.pixel(x, yy),
                    ),
            decreases img.height - y,
        {
            let mut line = String::new();
            let mut x: u32 = 0;
            while x < img.width
                invariant
                    img.wf(),
                    table@ == glyphs(),
                    y < img.height,
                    x <= img.width,
                    line@.len() == x as int,
                    forall|xx: int|
                        0 <= xx < x ==> line@[xx] == glyph_char(img.pixel(xx, y as int)),
                decreases img.width - x,
            {
                let p = img.get(x, y);
                let i = glyph_index(p);
                let glyph: char = table[i];
                line.push(glyph);
                x = x + 1;
            }
            rows.push(line);
            y = y + 1;
        }
        rows
    }
}

} // verus!
