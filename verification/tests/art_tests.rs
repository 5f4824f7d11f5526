use ascii_art::art::{ArtError, AsciiArtGenerator};
use ascii_art::raster::{GrayImg, RgbImg};
use std::io::Cursor;

/// Encodes a small RGB image as PNG bytes.
fn png_bytes(width: u32, height: u32, pixels: Vec<u8>) -> Vec<u8> {
    let buf = image::RgbImage::from_raw(width, height, pixels).expect("buffer size");
    let mut bytes: Vec<u8> = Vec::new();
    image::DynamicImage::ImageRgb8(buf)
        .write_to(&mut Cursor::new(&mut bytes), image::ImageFormat::Png)
        .expect("png encode");
    bytes
}

fn solid(width: u32, height: u32, rgb: [u8; 3]) -> Vec<u8> {
    let mut pixels = Vec::new();
    for _ in 0..width * height {
        pixels.extend_from_slice(&rgb);
    }
    png_bytes(width, height, pixels)
}

#[test]
fn from_bytes_decodes_dimensions_and_pixels() {
    let bytes = png_bytes(2, 2, vec![1, 2, 3, 4, 5, 6, 7, 8, 9, 10, 11, 12]);
    let gen = AsciiArtGenerator::from_bytes(&bytes).expect("decode");
    assert_eq!(gen.img.width, 2);
    assert_eq!(gen.img.height, 2);
    assert_eq!(gen.img.data, vec![1, 2, 3, 4, 5, 6, 7, 8, 9, 10, 11, 12]);
    assert_eq!(gen.width, 2);
    assert_eq!(gen.height, 2);
    assert_eq!(gen.min_level, 78);
    assert_eq!(gen.max_level, 125);
    assert_eq!(gen.gamma_centi, 78);
}

#[test]
fn from_bytes_rejects_garbage() {
    let res = AsciiArtGenerator::from_bytes(&[1, 2, 3, 4, 5]);
    assert!(matches!(res, Err(ArtError::Decode)));
}

#[test]
fn wide_sources_are_clamped_to_max_width() {
    // 600 x 10 source: width clamps to 500, height refits to round(500/60).
    let bytes = solid(600, 10, [0, 0, 0]);
    let gen = AsciiArtGenerator::from_bytes(&bytes).expect("decode");
    assert_eq!(gen.width, 500);
    assert_eq!(gen.height, 8); // round(500 * 10 / 600) = round(8.33)
}

#[test]
fn set_width_refits_height() {
    let bytes = solid(10, 5, [9, 9, 9]);
    let mut gen = AsciiArtGenerator::from_bytes(&bytes).expect("decode");
    let h = gen.set_width(5);
    assert_eq!(h, 3); // round(5 * 5 / 10) = round(2.5) = 3 (half away from zero)
    assert_eq!(gen.width, 5);
    assert_eq!(gen.height, 3);
}

#[test]
fn set_width_at_or_above_source_is_a_noop() {
    let bytes = solid(10, 5, [9, 9, 9]);
    let mut gen = AsciiArtGenerator::from_bytes(&bytes).expect("decode");
    let h = gen.set_width(10);
    assert_eq!(h, 5);
    assert_eq!(gen.width, 10);
    let h = gen.set_width(250);
    assert_eq!(h, 5);
    assert_eq!(gen.width, 10);
}

#[test]
fn set_width_aspect_stays_within_one_row() {
    let bytes = solid(123, 77, [0, 0, 0]);
    let mut gen = AsciiArtGenerator::from_bytes(&bytes).expect("decode");
    for w in 1..123u32 {
        let h = gen.set_width(w);
        let exact = w as f64 * 77.0 / 123.0;
        assert!((h as f64 - exact).abs() <= 1.0, "width {w}: height {h} vs {exact}");
    }
}

#[test]
fn set_height_refits_width() {
    let bytes = solid(10, 6, [9, 9, 9]);
    let mut gen = AsciiArtGenerator::from_bytes(&bytes).expect("decode");
    let w = gen.set_height(3);
    assert_eq!(w, 5); // round(3 * 10 / 6) = 5
    assert_eq!(gen.height, 3);
    assert_eq!(gen.width, 5);
    // At or above the source height: no-op.
    let w = gen.set_height(6);
    assert_eq!(w, 5);
    assert_eq!(gen.height, 3);
}

#[test]
fn set_levels_validates_the_window() {
    let bytes = solid(2, 2, [0, 0, 0]);
    let mut gen = AsciiArtGenerator::from_bytes(&bytes).expect("decode");
    assert!(gen.set_levels(10, 240));
    assert_eq!((gen.min_level, gen.max_level), (10, 240));
    assert!(!gen.set_levels(240, 10));
    assert_eq!((gen.min_level, gen.max_level), (10, 240));
    assert!(!gen.set_levels(50, 50));
    assert!(gen.set_gamma_centi(100));
    assert_eq!(gen.gamma_centi, 100);
    assert!(!gen.set_gamma_centi(0));
    assert_eq!(gen.gamma_centi, 100);
}

#[test]
fn resize_of_solid_image_keeps_the_color() {
    let bytes = solid(4, 4, [10, 20, 30]);
    let gen = AsciiArtGenerator::from_bytes(&bytes).expect("decode");
    let out = gen.processor().resize();
    assert_eq!(out.width, 4);
    assert_eq!(out.height, 2); // round(4 * 6 / 11) = round(2.18) = 2
    for y in 0..2 {
        for x in 0..4 {
            let px = [out.get(x, y, 0), out.get(x, y, 1), out.get(x, y, 2)];
            for (c, want) in px.iter().zip([10u8, 20, 30].iter()) {
                assert!(
                    (*c as i32 - *want as i32).abs() <= 1,
                    "resized pixel {px:?} strays from the constant"
                );
            }
        }
    }
}

#[test]
fn blur_and_invert_of_solid_black_is_solid_white() {
    let gen_bytes = solid(2, 2, [0, 0, 0]);
    let gen = AsciiArtGenerator::from_bytes(&gen_bytes).expect("decode");
    let img = RgbImg::from_raw(3, 2, vec![0; 18]).expect("raw");
    let out = gen.processor().blur_and_invert(&img);
    assert_eq!((out.width, out.height), (3, 2));
    assert_eq!(out.data, vec![255u8; 18]);
}

#[test]
fn blend_of_black_layers_gives_densest_glyph_rows() {
    // Both layers black: the blend stays black, far below the low level
    // threshold, so the luminance is zero and the glyph the densest.
    let gen_bytes = solid(2, 2, [0, 0, 0]);
    let gen = AsciiArtGenerator::from_bytes(&gen_bytes).expect("decode");
    let a = RgbImg::from_raw(2, 1, vec![0; 6]).expect("raw");
    let f = RgbImg::from_raw(2, 1, vec![0; 6]).expect("raw");
    let out = gen.processor().blend_and_adjust(&a, &f);
    assert_eq!((out.width, out.height), (2, 1));
    assert_eq!(out.data, vec![0u8, 0]);
    let rows = gen.processor().generate_from_img(&out);
    assert_eq!(rows, vec!["HH".to_string()]);
}

#[test]
fn blend_of_opposite_layers_exceeds_default_max_level() {
    // A black pixel under a white foreground blends to one half, which lies
    // above the default high threshold 125/255, so it comes out white.
    let gen_bytes = solid(2, 2, [0, 0, 0]);
    let gen = AsciiArtGenerator::from_bytes(&gen_bytes).expect("decode");
    let a = RgbImg::from_raw(1, 1, vec![0, 0, 0]).expect("raw");
    let f = RgbImg::from_raw(1, 1, vec![255, 255, 255]).expect("raw");
    let out = gen.processor().blend_and_adjust(&a, &f);
    assert_eq!(out.data, vec![255u8]);
}

#[test]
fn widened_level_window_keeps_midtones() {
    // With a wide level window and gamma 1, a mid-gray blend stays a
    // mid-gray, so the glyph is neither the densest nor the sparsest.
    let gen_bytes = solid(2, 2, [0, 0, 0]);
    let mut gen = AsciiArtGenerator::from_bytes(&gen_bytes).expect("decode");
    assert!(gen.set_levels(10, 240));
    assert!(gen.set_gamma_centi(100));
    let a = RgbImg::from_raw(1, 1, vec![100, 100, 100]).expect("raw");
    let f = RgbImg::from_raw(1, 1, vec![100, 100, 100]).expect("raw");
    let out = gen.processor().blend_and_adjust(&a, &f);
    let lum = out.data[0];
    assert!(90 <= lum && lum <= 110, "expected a midtone, got {lum}");
    let rows = gen.processor().generate_from_img(&out);
    let glyph = rows[0].chars().next().unwrap();
    assert!(glyph != 'H' && glyph != ' ', "expected a midtone glyph, got {glyph:?}");
}

#[test]
fn generate_from_img_maps_each_luminance() {
    let gen_bytes = solid(2, 2, [0, 0, 0]);
    let gen = AsciiArtGenerator::from_bytes(&gen_bytes).expect("decode");
    let img = GrayImg { width: 3, height: 2, data: vec![0, 128, 255, 255, 128, 0] };
    let rows = gen.processor().generate_from_img(&img);
    // index(128) = floor((188 * 128 + 255) / 510) = 47 -> 'j'
    assert_eq!(rows, vec!["Hj ".to_string(), " jH".to_string()]);
}
