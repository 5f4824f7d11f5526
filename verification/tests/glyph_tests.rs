use ascii_art::glyph::{glyph_index, glyph_table, GLYPH_COUNT};

#[test]
fn table_has_95_entries_densest_first() {
    let t = glyph_table();
    assert_eq!(t.len(), GLYPH_COUNT);
    assert_eq!(t[0], 'H');
    assert_eq!(t[94], ' ');
}

#[test]
fn black_maps_to_densest_glyph() {
    assert_eq!(glyph_index(0), 0);
    assert_eq!(glyph_table()[glyph_index(0)], 'H');
}

#[test]
fn white_maps_to_whitespace() {
    assert_eq!(glyph_index(255), 94);
    assert_eq!(glyph_table()[glyph_index(255)], ' ');
}

#[test]
fn index_matches_nearest_rounding() {
    for p in 0..=255u32 {
        let expect = ((p as f64 / 255.0) * 94.0 + 0.5).floor() as usize;
        assert_eq!(glyph_index(p as u8), expect, "index of {p}");
    }
}

#[test]
fn mapping_is_pure_and_monotone() {
    // Identical luminance always gives the identical glyph, and lower
    // luminance never gives a sparser (higher-indexed) glyph.
    let mut last: usize = 0;
    for p in 0..=255u32 {
        let i1 = glyph_index(p as u8);
        let i2 = glyph_index(p as u8);
        assert_eq!(i1, i2);
        assert!(i1 >= last, "mapping not monotone at {p}");
        last = i1;
    }
}
