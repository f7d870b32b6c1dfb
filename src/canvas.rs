//! The canvas: a growable grid of Braille cell masks addressed by pixel.
use vstd::prelude::*;

use crate::dots::{pixel_bit, pixel_bit_of};
use crate::text::{cells_text, glyph_of};

verus! {

/// Why a canvas operation failed.
#[derive(Debug, Clone, Copy, PartialEq, Eq, Structural)]
pub enum CanvasError {
    /// A read addressed a cell that has not been stored yet.
    OutOfRange,
    /// The requested pixel size leaves no whole cell in one direction.
    InvalidDimensions,
}

/// What a canvas holds, as mathematical values.
pub ghost struct CanvasModel {
    /// One dot mask per cell, in flat index order.
    pub cells: Seq<u8>,
    /// Cells per row of text.
    pub cell_width: nat,
    /// Rows of cells asked for at construction; kept as a hint only.
    pub cell_height: nat,
}

impl CanvasModel {
    /// The flat index of the cell that holds pixel `(x, y)`: `x / 2` rows of
    /// `cell_width` cells, then `y / 4` cells into the row.
    pub open spec fn index_of(self, x: nat, y: nat) -> nat {
        (x / 2) * self.cell_width + y / 4
    }

    /// The mask of cell `i`; a cell that is not stored reads as empty.
    pub open spec fn mask_at(self, i: nat) -> u8 {
        if i < self.cells.len() {
            self.cells[i as int]
        } else {
            0
        }
    }

    /// Whether pixel `(x, y)` is lit; pixels of unstored cells are dark.
    pub open spec fn is_lit(self, x: nat, y: nat) -> bool {
        self.mask_at(self.index_of(x, y)) & pixel_bit(x, y) != 0
    }

    /// The canvas with cell `i` holding `v`, the cells grown with empty masks
    /// up to and including `i` where they were shorter.
    pub open spec fn with_mask(self, i: nat, v: u8) -> CanvasModel {
        let n = self.cells.len();
        CanvasModel {
            cells: Seq::new(
                if i < n {
                    n
                } else {
                    i + 1
                },
                |k: int|
                    if k == i {
                        v
                    } else if k < n {
                        self.cells[k]
                    } else {
                        0u8
                    },
            ),
            ..self
        }
    }

    /// The canvas after lighting pixel `(x, y)`.
    pub open spec fn after_set(self, x: nat, y: nat) -> CanvasModel {
        let i = self.index_of(x, y);
        self.with_mask(i, self.mask_at(i) | pixel_bit(x, y))
    }

    /// The canvas after darkening pixel `(x, y)`, and only that pixel.
    pub open spec fn after_unset(self, x: nat, y: nat) -> CanvasModel {
        let i = self.index_of(x, y);
        self.with_mask(i, self.mask_at(i) & !pixel_bit(x, y))
    }

    /// The canvas after flipping pixel `(x, y)`.
    pub open spec fn after_toggle(self, x: nat, y: nat) -> CanvasModel {
        let i = self.index_of(x, y);
        self.with_mask(i, self.mask_at(i) ^ pixel_bit(x, y))
    }

    /// The canvas with every cell discarded and its dimensions kept.
    pub open spec fn after_clear(self) -> CanvasModel {
        CanvasModel { cells: Seq::empty(), ..self }
    }

    /// What reading pixel `(x, y)` gives: whether it is lit where its cell is
    /// stored, `OutOfRange` where it is not.
    pub open spec fn read(self, x: nat, y: nat) -> Result<bool, CanvasError> {
        if self.index_of(x, y) < self.cells.len() {
            Ok(self.is_lit(x, y))
        } else {
            Err(CanvasError::OutOfRange)
        }
    }

    /// The text of the canvas: each cell as its Braille character, with a
    /// line break before every cell that opens a row.
    pub open spec fn text(self) -> Seq<char> {
        cells_text(self.cells, self.cell_width, self.cells.len())
    }

    /// Whether a write to pixel `(x, y)` keeps its cell index addressable.
    pub open spec fn can_write(self, x: nat, y: nat) -> bool {
        self.index_of(x, y) < usize::MAX
    }
}

/// A canvas that draws on a terminal with Braille characters, one cell of
/// two by four pixels per character.
///
/// Pixels may be set outside the dimensions given at construction: the
/// stored cells grow to reach them.
#[derive(Debug, Clone, PartialEq, Eq)]
pub struct Canvas {
    chars: Vec<u8>,
    width: usize,
    height: usize,
}

impl View for Canvas {
    type V = CanvasModel;

    closed spec fn view(&self) -> CanvasModel {
        CanvasModel {
            cells: self.chars@,
            cell_width: self.width as nat,
            cell_height: self.height as nat,
        }
    }
}

impl Canvas {
    /// Creates an empty canvas for `width` by `height` pixels: rows of
    /// `width / 2` cells, `height / 4` rows.
    pub fn new(width: usize, height: usize) -> (r: Canvas)
        ensures
            r@.cells == Seq::<u8>::empty(),
            r@.cell_width == width as nat / 2,
            r@.cell_height == height as nat / 4,
    {
        Canvas { chars: Vec::new(), width: width / 2, height: height / 4 }
    }

    /// Creates an empty canvas as `new` does, or fails with
    /// `InvalidDimensions` where `width` is under 2 or `height` under 4, which
    /// would leave rows or columns without a single cell.
    pub fn try_new(width: usize, height: usize) -> (r: Result<Canvas, CanvasError>)
        ensures
            r is Err <==> (width < 2 || height < 4),
            r is Err ==> r == Err::<Canvas, CanvasError>(CanvasError::InvalidDimensions),
            r matches Ok(c) ==> {
                &&& c@.cells == Seq::<u8>::empty()
                &&& c@.cell_width == width as nat / 2
                &&& c@.cell_height == height as nat / 4
                &&& c@.cell_width > 0
                &&& c@.cell_height > 0
            },
    {
        if width < 2 || height < 4 {
            Err(CanvasError::InvalidDimensions)
        } else {
            Ok(Canvas::new(width, height))
        }
    }

    /// Cells per row of text.
    pub fn cell_width(&self) -> (r: usize)
        ensures
            r as nat == self@.cell_width,
    {
        self.width
    }

    /// Rows of cells asked for at construction.
    pub fn cell_height(&self) -> (r: usize)
        ensures
            r as nat == self@.cell_height,
    {
        self.height
    }

    /// How many cells are stored.
    pub fn cell_count(&self) -> (r: usize)
        ensures
            r as nat == self@.cells.len(),
    {
        self.chars.len()
    }

    /// The mask of cell `i`, or `None` where it is not stored.
    pub fn cell(&self, i: usize) -> (r: Option<u8>)
        ensures
            r == (if (i as nat) < self@.cells.len() {
                Some(self@.cells[i as int])
            } else {
                None::<u8>
            }),
    {
        if i < self.chars.len() {
            Some(self.chars[i])
        } else {
            None
        }
    }

    /// Discards every cell; the dimensions stay.
    pub fn clear(&mut self)
        ensures
            final(self)@ == old(self)@.after_clear(),
    {
        self.chars.clear();
    }

    /// The flat index of the cell of pixel `(x, y)`.
    fn cell_index(&self, x: usize, y: usize) -> (r: usize)
        requires
            self@.can_write(x as nat, y as nat),
        ensures
            r as nat == self@.index_of(x as nat, y as nat),
    {
        let row: usize = x / 2;
        let col: usize = y / 4;
        row * self.width + col
    }

    /// Stores `v` as the mask of cell `i`, growing the cells with empty masks
    /// up to and including `i` where they are shorter.
    fn store(&mut self, i: usize, v: u8)
        requires
            i < usize::MAX,
        ensures
            final(self)@ == old(self)@.with_mask(i as nat, v),
    {
        while self.chars.len() <= i
            invariant
                i < usize::MAX,
                self.width == old(self).width,
                self.height == old(self).height,
                self.chars@.len() <= i + 1 || self.chars@ == old(self).chars@,
                self.chars@.len() >= old(self).chars@.len(),
                forall|k: int|
                    0 <= k < self.chars@.len() ==> #[trigger] self.chars@[k] == if k < old(
                        self,
                    ).chars@.len() {
                        old(self).chars@[k]
                    } else {
                        0u8
                    },
            decreases i + 1 - self.chars@.len(),
        {
            self.chars.push(0);
        }
        self.chars.set(i, v);
        assert(self@.cells =~= old(self)@.with_mask(i as nat, v).cells);
    }

    /// The mask of cell `i`, empty where the cell is not stored.
    fn mask_at(&self, i: usize) -> (r: u8)
        ensures
            r == self@.mask_at(i as nat),
    {
        if i < self.chars.len() {
            self.chars[i]
        } else {
            0
        }
    }

    /// Lights pixel `(x, y)`, growing the canvas to reach its cell.
    pub fn set(&mut self, x: usize, y: usize)
        requires
            old(self)@.can_write(x as nat, y as nat),
        ensures
            final(self)@ == old(self)@.after_set(x as nat, y as nat),
    {
        let i = self.cell_index(x, y);
        let m = self.mask_at(i);
        self.store(i, m | pixel_bit_of(x, y));
    }

    /// Darkens pixel `(x, y)` and leaves the other pixels of its cell as they
    /// were, growing the canvas to reach its cell.
    pub fn unset(&mut self, x: usize, y: usize)
        requires
            old(self)@.can_write(x as nat, y as nat),
        ensures
            final(self)@ == old(self)@.after_unset(x as nat, y as nat),
    {
        let i = self.cell_index(x, y);
        let m = self.mask_at(i);
        self.store(i, m & !pixel_bit_of(x, y));
    }

    /// Flips pixel `(x, y)`, growing the canvas to reach its cell.
    pub fn toggle(&mut self, x: usize, y: usize)
        requires
            old(self)@.can_write(x as nat, y as nat),
        ensures
            final(self)@ == old(self)@.after_toggle(x as nat, y as nat),
    {
        let i = self.cell_index(x, y);
        let m = self.mask_at(i);
        self.store(i, m ^ pixel_bit_of(x, y));
    }

    /// Whether pixel `(x, y)` is lit; `OutOfRange` where its cell has not
    /// been stored.
    pub fn get(&self, x: usize, y: usize) -> (r: Result<bool, CanvasError>)
        ensures
            r == self@.read(x as nat, y as nat),
    {
        let bit = pixel_bit_of(x, y);
        let row: usize = x / 2;
        let col: usize = y / 4;
        let index = match row.checked_mul(self.width) {
            Some(p) => p.checked_add(col),
            None => None,
        };
        match index {
            Some(i) => {
                if i < self.chars.len() {
                    Ok(self.chars[i] & bit != 0)
                } else {
                    Err(CanvasError::OutOfRange)
                }
            },
            None => {
                // The stored length fits in a usize; the index does not.
                let stored = self.chars.len();
                assert(self@.index_of(x as nat, y as nat) > usize::MAX) by (nonlinear_arith)
                    requires
                        row * self.width > usize::MAX || row * self.width + col > usize::MAX,
                        self@.index_of(x as nat, y as nat) == row * self.width + col,
                ;
                assert(stored < self@.index_of(x as nat, y as nat));
                Err(CanvasError::OutOfRange)
            },
        }
    }

    /// The canvas as text: one Braille character per cell, and a line break
    /// before every cell that opens a row of `cell_width` cells, the first
    /// included.
    pub fn render(&self) -> (r: String)
        requires
            self@.cells.len() == 0 || self@.cell_width > 0,
        ensures
            r@ == self@.text(),
    {
        let mut out = String::new();
        let mut i: usize = 0;
        while i < self.chars.len()
            invariant
                self.chars@.len() == 0 || self.width > 0,
                i <= self.chars@.len(),
                out@ == cells_text(self.chars@, self.width as nat, i as nat),
            decreases self.chars@.len() - i,
        {
            if i % self.width == 0 {
                out.push('\n');
            }
            out.push(glyph_of(self.chars[i]));
            i += 1;
        }
        out
    }
}

} // verus!
