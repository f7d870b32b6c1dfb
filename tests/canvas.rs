use braille::{Canvas, CanvasError};

#[test]
fn new_derives_cell_dimensions() {
    let c = Canvas::new(4, 4);
    assert_eq!(c.cell_width(), 2);
    assert_eq!(c.cell_height(), 1);
    assert_eq!(c.cell_count(), 0);
    let odd = Canvas::new(7, 11);
    assert_eq!(odd.cell_width(), 3);
    assert_eq!(odd.cell_height(), 2);
}

#[test]
fn two_pixels_share_a_cell() {
    let mut c = Canvas::new(4, 4);
    c.set(0, 0);
    assert_eq!(c.cell(0), Some(0x01));
    c.set(1, 0);
    assert_eq!(c.cell(0), Some(0x09));
    assert_eq!(c.cell_count(), 1);
    assert_eq!(c.get(0, 0), Ok(true));
    assert_eq!(c.get(1, 0), Ok(true));
    assert_eq!(c.get(0, 1), Ok(false));
}

#[test]
fn dot_table_matches_braille_ordering() {
    let expected: [[u8; 2]; 4] = [[0x01, 0x08], [0x02, 0x10], [0x04, 0x20], [0x40, 0x80]];
    for dy in 0..4usize {
        for dx in 0..2usize {
            let mut c = Canvas::new(4, 4);
            c.set(dx, dy);
            assert_eq!(c.cell(0), Some(expected[dy][dx]));
        }
    }
}

#[test]
fn flat_index_is_row_times_width_plus_column() {
    let mut c = Canvas::new(6, 8);
    // x = 4 is row 2, y = 5 is column 1: index 2 * 3 + 1 = 7.
    c.set(4, 5);
    assert_eq!(c.cell_count(), 8);
    for i in 0..7usize {
        assert_eq!(c.cell(i), Some(0));
    }
    assert_eq!(c.cell(7), Some(0x02));
    assert_eq!(c.cell(8), None);
}

#[test]
fn set_is_idempotent() {
    let mut c = Canvas::new(4, 8);
    c.set(3, 6);
    assert_eq!(c.get(3, 6), Ok(true));
    let once = c.clone();
    c.set(3, 6);
    assert_eq!(c.get(3, 6), Ok(true));
    assert!(c == once);
}

#[test]
fn set_lights_whatever_was_there() {
    let mut c = Canvas::new(4, 4);
    c.toggle(0, 0);
    c.set(0, 0);
    assert_eq!(c.get(0, 0), Ok(true));
    c.unset(0, 0);
    c.set(0, 0);
    assert_eq!(c.get(0, 0), Ok(true));
}

#[test]
fn toggle_twice_restores() {
    let mut c = Canvas::new(4, 4);
    c.set(1, 2);
    let before = c.clone();
    c.toggle(1, 2);
    assert_eq!(c.get(1, 2), Ok(false));
    c.toggle(1, 2);
    assert_eq!(c.get(1, 2), Ok(true));
    assert!(c == before);
    c.toggle(0, 3);
    assert_eq!(c.get(0, 3), Ok(true));
    c.toggle(0, 3);
    assert_eq!(c.get(0, 3), Ok(false));
    assert!(c == before);
}

#[test]
fn toggle_on_unstored_cell_lights_it() {
    let mut c = Canvas::new(4, 4);
    c.toggle(0, 4);
    assert_eq!(c.cell_count(), 2);
    assert_eq!(c.cell(0), Some(0));
    assert_eq!(c.get(0, 4), Ok(true));
}

#[test]
fn clear_empties_storage() {
    let mut c = Canvas::new(4, 4);
    c.set(0, 0);
    c.set(3, 7);
    c.clear();
    assert_eq!(c.cell_count(), 0);
    assert_eq!(c.get(0, 0), Err(CanvasError::OutOfRange));
    assert_eq!(c.get(3, 7), Err(CanvasError::OutOfRange));
    assert_eq!(c.cell_width(), 2);
    assert_eq!(c.cell_height(), 1);
}

#[test]
fn unset_keeps_neighbours() {
    let mut c = Canvas::new(4, 4);
    c.set(1, 0);
    c.set(0, 3);
    c.set(0, 0);
    c.unset(0, 0);
    assert_eq!(c.get(0, 0), Ok(false));
    assert_eq!(c.get(1, 0), Ok(true));
    assert_eq!(c.get(0, 3), Ok(true));
    assert_eq!(c.cell(0), Some(0x08 | 0x40));
}

#[test]
fn unset_on_unstored_cell_grows_dark() {
    let mut c = Canvas::new(4, 4);
    c.unset(2, 0);
    assert_eq!(c.cell_count(), 3);
    assert_eq!(c.get(2, 0), Ok(false));
}

#[test]
fn fresh_canvas_reads_out_of_range() {
    let c = Canvas::new(4, 4);
    assert_eq!(c.get(0, 0), Err(CanvasError::OutOfRange));
    assert_eq!(c.get(1, 3), Err(CanvasError::OutOfRange));
    assert_eq!(c.get(100, 200), Err(CanvasError::OutOfRange));
    assert_eq!(c.get(usize::MAX, usize::MAX), Err(CanvasError::OutOfRange));
}

#[test]
fn read_beyond_stored_cells_is_out_of_range() {
    let mut c = Canvas::new(4, 4);
    c.set(0, 0);
    assert_eq!(c.get(0, 4), Err(CanvasError::OutOfRange));
    assert_eq!(c.get(usize::MAX, 0), Err(CanvasError::OutOfRange));
}

#[test]
fn render_wraps_rows() {
    let mut c = Canvas::new(4, 4);
    c.set(0, 0);
    c.set(0, 5);
    c.set(2, 0);
    c.set(2, 1);
    assert_eq!(c.cell(0), Some(1));
    assert_eq!(c.cell(1), Some(2));
    assert_eq!(c.cell(2), Some(3));
    assert_eq!(c.render(), "\n\u{2801}\u{2802}\n\u{2803}");
}

#[test]
fn render_full_and_empty_cells() {
    let mut c = Canvas::new(2, 4);
    for y in 0..4usize {
        for x in 0..2usize {
            c.set(x, y);
        }
    }
    c.unset(0, 4);
    assert_eq!(c.render(), "\n\u{28FF}\n\u{2800}");
}

#[test]
fn render_of_empty_canvas_is_empty() {
    let c = Canvas::new(4, 4);
    assert_eq!(c.render(), "");
}

#[test]
fn try_new_rejects_cellless_dimensions() {
    assert_eq!(Canvas::try_new(1, 4), Err(CanvasError::InvalidDimensions));
    assert_eq!(Canvas::try_new(2, 3), Err(CanvasError::InvalidDimensions));
    assert_eq!(Canvas::try_new(0, 0), Err(CanvasError::InvalidDimensions));
    let c = Canvas::try_new(2, 4).unwrap();
    assert_eq!(c.cell_width(), 1);
    assert_eq!(c.cell_height(), 1);
    assert_eq!(c.cell_count(), 0);
}

#[test]
fn zero_width_canvas_still_stores() {
    let mut c = Canvas::new(0, 0);
    c.set(0, 4);
    assert_eq!(c.cell_count(), 2);
    assert_eq!(c.get(0, 4), Ok(true));
}

#[test]
fn render_of_empty_zero_width_canvas_is_empty() {
    let c = Canvas::new(0, 0);
    assert_eq!(c.cell_width(), 0);
    assert_eq!(c.render(), "");
}
