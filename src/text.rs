//! Cells as text: each cell mask becomes one Braille character, rows of
//! cells become lines.
use vstd::prelude::*;

verus! {

/// First code point of the Unicode Braille Patterns block: the blank cell.
pub const BRAILLE_BASE: u32 = 0x2800;

/// The Braille character whose raised dots are the set bits of `mask`.
pub open spec fn glyph(mask: u8) -> char {
    (BRAILLE_BASE + mask) as char
}

/// What cell `i` contributes to the text: its character, after a line
/// break where it opens a row of `cell_width` cells.
pub open spec fn cell_text(cells: Seq<u8>, cell_width: nat, i: int) -> Seq<char> {
    if i % (cell_width as int) == 0 {
        seq!['\n', glyph(cells[i])]
    } else {
        seq![glyph(cells[i])]
    }
}

/// The text of the first `n` cells.
pub open spec fn cells_text(cells: Seq<u8>, cell_width: nat, n: nat) -> Seq<char>
    decreases n,
{
    if n == 0 {
        Seq::empty()
    } else {
        cells_text(cells, cell_width, (n - 1) as nat) + cell_text(
            cells,
            cell_width,
            n - 1,
        )
    }
}

/// Relies on `char::from_u32`: a value that is a Unicode scalar value gives
/// the char of that value, any other gives `None`.
pub assume_specification[ char::from_u32 ](i: u32) -> (r: Option<char>)
    ensures
        r is Some <==> (i <= 0x10FFFF && !(0xD800 <= i && i <= 0xDFFF)),
        r is Some ==> r->0 == i as char,
;

/// Relies on `String::push`: the char is appended at the end of the string.
pub assume_specification[ String::push ](s: &mut String, ch: char)
    ensures
        final(s)@ == old(s)@.push(ch),
;

/// The Braille character for a cell mask.
pub fn glyph_of(mask: u8) -> (c: char)
    ensures
        c == glyph(mask),
{
    match char::from_u32(BRAILLE_BASE + mask as u32) {
        Some(c) => c,
        // Never taken: every code point of the Braille block is a scalar value.
        None => ' ',
    }
}

} // verus!
