//! The glyph table: a fixed ordered list of printable characters, pre-ranked
//! offline by the pixel density of their rendering, and the mapping from a
//! normalized luminance byte to a glyph.

use vstd::prelude::*;

verus! {

/// Number of glyphs in the table.
pub const GLYPH_COUNT: usize = 95;

/// The glyphs, ordered from densest (index 0) to sparsest (index 94, a space).
/// The density ranking was precomputed offline from rendered system fonts and
/// never changes at runtime.
pub open spec fn glyphs() -> Seq<char> {
    seq![
        'H', '$', 'd', 'g', 'q', '0', 'p', 'R', '8', 'b', 'h', 'k', 'B', 'D', 'N', 'Q',
        'U', '5', '6', '9', '@', 'A', 'K', 'y', 'E', 'G', 'O', 'Z', '2', '4', '#', 'a',
        'f', 'u', 'M', 'P', 'S', '3', '%', 'l', 't', 'x', 'W', 'X', 'Y', '1', '&', 'j',
        'n', 's', 'z', 'C', '7', 'e', 'i', 'm', 'o', 'w', 'F', 'L', 'T', 'V', '[', ']',
        'r', 'J', 'c', 'I', '{', '}', 'v', '(', ')', '?', '!', '<', '>', '*', '+', '/',
        '=', '\\', '^', '|', '"', ';', '_', '~', '-', '\'', ',', ':', '`', '.', ' ',
    ]
}

/// The glyph index for a luminance byte `p`: the nearest integer to
/// `(p / 255) * (GLYPH_COUNT - 1)`, i.e. `floor((188 * p + 255) / 510)`.
pub open spec fn glyph_index_spec(p: u8) -> int {
    (188 * p + 255) / 510
}

/// The glyph chosen for a luminance byte `p`.
pub open spec fn glyph_char(p: u8) -> char {
    glyphs()[glyph_index_spec(p)]
}

/// Glyph mapping is a pure function of the luminance byte — equal
/// luminances always map to the same glyph — and it is monotonic: a lower
/// luminance never maps to a strictly sparser (higher-indexed) glyph than a
/// higher luminance does.
pub proof fn lemma_glyph_index_monotone(p1: u8, p2: u8)
    requires
        p1 <= p2,
    ensures
        glyph_index_spec(p1) <= glyph_index_spec(p2),
        p1 == p2 ==> glyph_char(p1) == glyph_char(p2),
{
    assert(188 * p1 + 255 <= 188 * p2 + 255);
    vstd::arithmetic::div_mod::lemma_div_is_ordered(
        188 * p1 + 255,
        188 * p2 + 255,
        510,
    );
}

/// The glyph index stays within the table.
pub proof fn lemma_glyph_index_in_range(p: u8)
    ensures
        0 <= glyph_index_spec(p) < GLYPH_COUNT,
{
    assert(188 * p + 255 <= 48195);
    vstd::arithmetic::div_mod::lemma_div_is_ordered(188 * p + 255, 48195int, 510);
    assert(48195int / 510 == 94);
}

/// Builds the glyph table as a vector, densest glyph first.
pub fn glyph_table() -> (t: Vec<char>)
    ensures
        t@ == glyphs(),
{
    let t: Vec<char> = vec![
        'H', '$', 'd', 'g', 'q', '0', 'p', 'R', '8', 'b', 'h', 'k', 'B', 'D', 'N', 'Q',
        'U', '5', '6', '9', '@', 'A', 'K', 'y', 'E', 'G', 'O', 'Z', '2', '4', '#', 'a',
        'f', 'u', 'M', 'P', 'S', '3', '%', 'l', 't', 'x', 'W', 'X', 'Y', '1', '&', 'j',
        'n', 's', 'z', 'C', '7', 'e', 'i', 'm', 'o', 'w', 'F', 'L', 'T', 'V', '[', ']',
        'r', 'J', 'c', 'I', '{', '}', 'v', '(', ')', '?', '!', '<', '>', '*', '+', '/',
        '=', '\\', '^', '|', '"', ';', '_', '~', '-', '\'', ',', ':', '`', '.', ' ',
    ];
    proof {
        assert(t@ =~= glyphs());
    }
    t
}

/// Computes the glyph index for a luminance byte.
pub fn glyph_index(p: u8) -> (i: usize)
    ensures
        i == glyph_index_spec(p),
        i < GLYPH_COUNT,
{
    proof {
        lemma_glyph_index_in_range(p);
    }
    (188 * (p as usize) + 255) / 510
}

} // verus!
