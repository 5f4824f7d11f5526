//! Owned pixel buffers: an RGB image with three bytes per pixel in row-major
//! order, and a single-channel luminance image.

use vstd::prelude::*;

verus! {

/// An RGB image: `data` holds `3 * width * height` bytes, three per pixel,
/// rows first.
pub struct RgbImg {
    pub width: u32,
    pub height: u32,
    pub data: Vec<u8>,
}

/// A luminance image: `data` holds `width * height` bytes, one per pixel,
/// rows first.
pub struct GrayImg {
    pub width: u32,
    pub height: u32,
    pub data: Vec<u8>,
}

/// The flat index of channel `c` of pixel `(x, y)` in a row-major RGB buffer
/// of width `w`.
pub open spec fn rgb_idx(w: int, x: int, y: int, c: int) -> int {
    3 * (y * w + x) + c
}

/// Index arithmetic for a row-major RGB buffer stays within the buffer.
pub proof fn lemma_rgb_idx_bounds(w: int, h: int, x: int, y: int, c: int) by (nonlinear_arith)
    requires
        0 <= x < w,
        0 <= y < h,
        0 <= c < 3,
    ensures
        0 <= y * w,
        y * w + x < w * h,
        0 <= rgb_idx(w, x, y, c) < 3 * (w * h),
        0 <= rgb_idx(w, x, y, c) < 3 * w * h,
{
}

/// The flat index of pixel `(x, y)` in a row-major single-channel buffer of
/// width `w`.
pub open spec fn gray_idx(w: int, x: int, y: int) -> int {
    y * w + x
}

/// Index arithmetic for a row-major single-channel buffer stays within the
/// buffer.
pub proof fn lemma_gray_idx_bounds(w: int, h: int, x: int, y: int) by (nonlinear_arith)
    requires
        0 <= x < w,
        0 <= y < h,
    ensures
        0 <= y * w,
        0 <= gray_idx(w, x, y) < w * h,
{
}

/// Pixels of rows already finished lie below the write position of the
/// current row in a single-channel buffer.
pub proof fn lemma_gray_idx_row_below(w: int, xx: int, yy: int, y: int) by (nonlinear_arith)
    requires
        0 <= xx < w,
        0 <= yy < y,
    ensures
        0 <= gray_idx(w, xx, yy) < y * w,
{
}

impl RgbImg {
    /// The buffer length matches the dimensions.
    pub open spec fn wf(&self) -> bool {
        self.data@.len() == 3 * (self.width as int * self.height as int)
    }

    /// The byte of channel `c` of pixel `(x, y)`.
    pub open spec fn chan(&self, x: int, y: int, c: int) -> u8 {
        self.data@[rgb_idx(self.width as int, x, y, c)]
    }

    /// Builds an image from a raw buffer; fails when the length does not
    /// match the dimensions.
    pub fn from_raw(width: u32, height: u32, data: Vec<u8>) -> (res: Option<RgbImg>)
        ensures
            match res {
                Some(img) => {
                    &&& img.wf()
                    &&& img.width == width
                    &&& img.height == height
                    &&& img.data@ == data@
                },
                None => data@.len() != 3 * (width as int * height as int),
            },
    {
        proof {
            assert(3 * (width as int) * (height as int) == 3 * ((width as int) * (height as int))
                && 3 * (width as int) * (height as int) <= 3 * 0xffff_ffff * 0xffff_ffff)
                by (nonlinear_arith)
                requires
                    width <= 0xffff_ffffu32,
                    height <= 0xffff_ffffu32,
            ;
        }
        let need: u128 = 3 * (width as u128) * (height as u128);
        if data.len() as u128 == need {
            Some(RgbImg { width, height, data })
        } else {
            None
        }
    }

    /// Reads channel `c` of pixel `(x, y)`.
    pub fn get(&self, x: u32, y: u32, c: u32) -> (r: u8)
        requires
            self.wf(),
            x < self.width,
            y < self.height,
            c < 3,
        ensures
            r == self.chan(x as int, y as int, c as int),
    {
        proof {
            lemma_rgb_idx_bounds(
                self.width as int,
                self.height as int,
                x as int,
                y as int,
                c as int,
            );
        }
        let len: usize = self.data.len();
        assert((3 * ((y as int) * (self.width as int) + (x as int)) + (c as int)) < (len as int));
        let w = self.width as usize;
        self.data[3 * ((y as usize) * w + (x as usize)) + (c as usize)]
    }
}

impl GrayImg {
    /// The buffer length matches the dimensions.
    pub open spec fn wf(&self) -> bool {
        self.data@.len() == self.width as int * self.height as int
    }

    /// The luminance byte of pixel `(x, y)`.
    pub open spec fn pixel(&self, x: int, y: int) -> u8 {
        self.data@[gray_idx(self.width as int, x, y)]
    }

    /// Reads the luminance of pixel `(x, y)`.
    pub fn get(&self, x: u32, y: u32) -> (r: u8)
        requires
            self.wf(),
            x < self.width,
            y < self.height,
        ensures
            r == self.pixel(x as int, y as int),
    {
        proof {
            lemma_gray_idx_bounds(self.width as int, self.height as int, x as int, y as int);
        }
        let len: usize = self.data.len();
        assert(((y as int) * (self.width as int) + (x as int)) < (len as int));
        let w = self.width as usize;
        self.data[(y as usize) * w + (x as usize)]
    }
}

} // verus!
