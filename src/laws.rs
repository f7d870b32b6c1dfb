//! Laws that relate the canvas operations to one another.
use vstd::prelude::*;

use crate::canvas::{CanvasError, CanvasModel};
use crate::dots::{
    is_single_bit, lemma_and_not_bit, lemma_dot_bit_single, lemma_or_bit,
    lemma_single_bits_disjoint, lemma_xor_bit, pixel_bit,
};

verus! {

/// Writing `v` to cell `i` stores it there, keeps every other cell's mask,
/// and leaves cell `i` addressable.
pub proof fn lemma_with_mask(m: CanvasModel, i: nat, v: u8)
    ensures
        i < m.with_mask(i, v).cells.len(),
        m.with_mask(i, v).mask_at(i) == v,
        forall|j: nat| j != i ==> #[trigger] m.with_mask(i, v).mask_at(j) == m.mask_at(j),
        m.with_mask(i, v).cell_width == m.cell_width,
        m.with_mask(i, v).cell_height == m.cell_height,
{
}

/// A write that puts back the mask a stored cell already holds changes
/// nothing.
pub proof fn lemma_with_same_mask(m: CanvasModel, i: nat)
    requires
        i < m.cells.len(),
    ensures
        m.with_mask(i, m.mask_at(i)) == m,
{
    assert(m.with_mask(i, m.mask_at(i)).cells =~= m.cells);
}

/// Two writes to one cell amount to the last of them.
pub proof fn lemma_with_mask_twice(m: CanvasModel, i: nat, v: u8, w: u8)
    ensures
        m.with_mask(i, v).with_mask(i, w) == m.with_mask(i, w),
{
    assert(m.with_mask(i, v).with_mask(i, w).cells =~= m.with_mask(i, w).cells);
}

/// A pixel is lit in a canvas whose masks differ from those of another only
/// in cell `i`, on bits outside `bit`, exactly when it is lit in the other,
/// unless it is the pixel of bit `bit` in cell `i`.
proof fn lemma_other_pixel(m: CanvasModel, n: CanvasModel, i: nat, bit: u8, x: nat, y: nat)
    requires
        is_single_bit(bit),
        n.cell_width == m.cell_width,
        forall|j: nat| j != i ==> #[trigger] n.mask_at(j) == m.mask_at(j),
        forall|o: u8| bit & o == 0 ==> #[trigger] (n.mask_at(i) & o) == m.mask_at(i) & o,
        m.index_of(x, y) != i || pixel_bit(x, y) != bit,
    ensures
        n.is_lit(x, y) == m.is_lit(x, y),
{
    let b = pixel_bit(x, y);
    lemma_dot_bit_single(x % 2, y % 4);
    if m.index_of(x, y) == i {
        lemma_single_bits_disjoint(bit, b);
        assert(n.mask_at(i) & b == m.mask_at(i) & b);
    }
}

/// After `set(x, y)` the pixel reads as lit, whatever it held before, and a
/// second `set(x, y)` changes nothing.
pub proof fn lemma_set_then_get(m: CanvasModel, x: nat, y: nat)
    ensures
        m.after_set(x, y).read(x, y) == Ok::<bool, CanvasError>(true),
        m.after_set(x, y).after_set(x, y) == m.after_set(x, y),
{
    let i = m.index_of(x, y);
    let b = pixel_bit(x, y);
    let v = m.mask_at(i) | b;
    lemma_dot_bit_single(x % 2, y % 4);
    lemma_with_mask(m, i, v);
    lemma_or_bit(m.mask_at(i), b, 0);
    lemma_with_mask_twice(m, i, v, v | b);
}

/// Toggling pixel `(x, y)` twice leaves it as it was; where its cell was
/// stored, the whole canvas is as it was and the pixel reads as before.
pub proof fn lemma_toggle_twice(m: CanvasModel, x: nat, y: nat)
    ensures
        m.after_toggle(x, y).after_toggle(x, y).is_lit(x, y) == m.is_lit(x, y),
        m.index_of(x, y) < m.cells.len() ==> m.after_toggle(x, y).after_toggle(x, y) == m,
        m.index_of(x, y) < m.cells.len() ==> m.after_toggle(x, y).after_toggle(x, y).read(x, y)
            == m.read(x, y),
{
    let i = m.index_of(x, y);
    let b = pixel_bit(x, y);
    let v = m.mask_at(i) ^ b;
    lemma_dot_bit_single(x % 2, y % 4);
    lemma_with_mask(m, i, v);
    lemma_xor_bit(m.mask_at(i), b, 0);
    lemma_with_mask_twice(m, i, v, v ^ b);
    lemma_with_mask(m, i, v ^ b);
    if i < m.cells.len() {
        lemma_with_same_mask(m, i);
    }
}

/// After `clear()` no pixel is lit and every read is `OutOfRange`.
pub proof fn lemma_clear_then_get(m: CanvasModel, x: nat, y: nat)
    ensures
        !m.after_clear().is_lit(x, y),
        m.after_clear().read(x, y) == Err::<bool, CanvasError>(CanvasError::OutOfRange),
{
    assert(0u8 & pixel_bit(x, y) == 0) by (bit_vector);
}

/// A canvas that holds no cell answers every read with `OutOfRange`.
pub proof fn lemma_empty_get(m: CanvasModel, x: nat, y: nat)
    requires
        m.cells.len() == 0,
    ensures
        m.read(x, y) == Err::<bool, CanvasError>(CanvasError::OutOfRange),
{
}

/// `unset(x, y)` darkens pixel `(x, y)` and no other pixel.
pub proof fn lemma_unset_keeps_others(m: CanvasModel, x: nat, y: nat, x2: nat, y2: nat)
    requires
        m.index_of(x2, y2) != m.index_of(x, y) || pixel_bit(x2, y2) != pixel_bit(x, y),
    ensures
        !m.after_unset(x, y).is_lit(x, y),
        m.after_unset(x, y).is_lit(x2, y2) == m.is_lit(x2, y2),
{
    let i = m.index_of(x, y);
    let b = pixel_bit(x, y);
    lemma_dot_bit_single(x % 2, y % 4);
    lemma_with_mask(m, i, m.mask_at(i) & !b);
    lemma_and_not_bit(m.mask_at(i), b, 0);
    assert forall|o: u8| b & o == 0 implies #[trigger] (m.after_unset(x, y).mask_at(i) & o)
        == m.mask_at(i) & o by {
        lemma_and_not_bit(m.mask_at(i), b, o);
    }
    lemma_other_pixel(m, m.after_unset(x, y), i, b, x2, y2);
}

/// `set(x, y)` then `unset(x, y)` leaves pixel `(x, y)` dark and readable as
/// `false`, and every pixel that shares neither its cell nor its dot as it
/// was before the `set`.
pub proof fn lemma_set_then_unset(m: CanvasModel, x: nat, y: nat, x2: nat, y2: nat)
    requires
        m.index_of(x2, y2) != m.index_of(x, y) || pixel_bit(x2, y2) != pixel_bit(x, y),
    ensures
        m.after_set(x, y).after_unset(x, y).read(x, y) == Ok::<bool, CanvasError>(false),
        m.after_set(x, y).after_unset(x, y).is_lit(x2, y2) == m.is_lit(x2, y2),
{
    let i = m.index_of(x, y);
    let b = pixel_bit(x, y);
    let s = m.after_set(x, y);
    lemma_dot_bit_single(x % 2, y % 4);
    lemma_with_mask(m, i, m.mask_at(i) | b);
    assert forall|o: u8| b & o == 0 implies #[trigger] (s.mask_at(i) & o) == m.mask_at(i) & o by {
        lemma_or_bit(m.mask_at(i), b, o);
    }
    lemma_other_pixel(m, s, i, b, x2, y2);
    lemma_unset_keeps_others(s, x, y, x2, y2);
    lemma_with_mask(s, i, s.mask_at(i) & !b);
}

} // verus!
