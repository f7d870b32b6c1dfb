//! Where each pixel of a Braille cell lives in the cell's mask.
use vstd::prelude::*;

verus! {

/// The mask bit of the dot at column `dx` (0 or 1) and row `dy` (0 to 3) of
/// a Braille cell, in the standard Braille dot ordering: dots 1, 2, 3 and 7
/// down the left column, dots 4, 5, 6 and 8 down the right one.
pub open spec fn dot_bit(dx: nat, dy: nat) -> u8 {
    if dx == 0 {
        if dy == 0 {
            0x01
        } else if dy == 1 {
            0x02
        } else if dy == 2 {
            0x04
        } else {
            0x40
        }
    } else {
        if dy == 0 {
            0x08
        } else if dy == 1 {
            0x10
        } else if dy == 2 {
            0x20
        } else {
            0x80
        }
    }
}

/// The mask bit that pixel `(x, y)` addresses within its cell.
pub open spec fn pixel_bit(x: nat, y: nat) -> u8 {
    dot_bit(x % 2, y % 4)
}

/// Whether `b` is one of the eight single-bit masks of a `u8`.
pub open spec fn is_single_bit(b: u8) -> bool {
    b == 0x01 || b == 0x02 || b == 0x04 || b == 0x08 || b == 0x10 || b == 0x20 || b == 0x40
        || b == 0x80
}

/// Computes the mask bit of pixel `(x, y)`.
pub fn pixel_bit_of(x: usize, y: usize) -> (r: u8)
    ensures
        r == pixel_bit(x as nat, y as nat),
{
    let dx: usize = x % 2;
    let dy: usize = y % 4;
    if dx == 0 {
        if dy == 0 {
            0x01
        } else if dy == 1 {
            0x02
        } else if dy == 2 {
            0x04
        } else {
            0x40
        }
    } else {
        if dy == 0 {
            0x08
        } else if dy == 1 {
            0x10
        } else if dy == 2 {
            0x20
        } else {
            0x80
        }
    }
}

/// Every dot of a cell has a bit of its own.
pub proof fn lemma_dot_bit_single(dx: nat, dy: nat)
    ensures
        is_single_bit(dot_bit(dx, dy)),
{
}

/// Two distinct single-bit masks share no bit.
pub proof fn lemma_single_bits_disjoint(a: u8, b: u8)
    requires
        is_single_bit(a),
        is_single_bit(b),
        a != b,
    ensures
        a & b == 0,
{
    assert(a & b == 0) by (bit_vector)
        requires
            a == 0x01 || a == 0x02 || a == 0x04 || a == 0x08 || a == 0x10 || a == 0x20 || a
                == 0x40 || a == 0x80,
            b == 0x01 || b == 0x02 || b == 0x04 || b == 0x08 || b == 0x10 || b == 0x20 || b
                == 0x40 || b == 0x80,
            a != b,
    ;
}

/// Setting bit `b` of `c` lights it and leaves every bit disjoint from it.
pub proof fn lemma_or_bit(c: u8, b: u8, o: u8)
    requires
        is_single_bit(b),
    ensures
        (c | b) & b != 0,
        (c | b) | b == c | b,
        b & o == 0 ==> (c | b) & o == c & o,
{
    assert((c | b) & b != 0 && (c | b) | b == c | b && (b & o == 0 ==> (c | b) & o == c & o))
        by (bit_vector)
        requires
            b != 0,
    ;
}

/// Clearing bit `b` of `c` darkens it and leaves every bit disjoint from it.
pub proof fn lemma_and_not_bit(c: u8, b: u8, o: u8)
    ensures
        (c & !b) & b == 0,
        b & o == 0 ==> (c & !b) & o == c & o,
{
    assert((c & !b) & b == 0 && (b & o == 0 ==> (c & !b) & o == c & o)) by (bit_vector);
}

/// Flipping bit `b` of `c` inverts it, leaves every bit disjoint from it, and
/// flipping it again restores `c`.
pub proof fn lemma_xor_bit(c: u8, b: u8, o: u8)
    requires
        is_single_bit(b),
    ensures
        ((c ^ b) & b != 0) == (c & b == 0),
        (c ^ b) ^ b == c,
        b & o == 0 ==> (c ^ b) & o == c & o,
{
    assert(((c ^ b) & b != 0) == (c & b == 0) && (c ^ b) ^ b == c && (b & o == 0 ==> (c ^ b) & o
        == c & o)) by (bit_vector)
        requires
            b == 0x01 || b == 0x02 || b == 0x04 || b == 0x08 || b == 0x10 || b == 0x20 || b
                == 0x40 || b == 0x80,
    ;
}

} // verus!
