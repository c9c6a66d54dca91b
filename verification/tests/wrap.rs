use ped::buffer::Buffer;
use ped::wrap::{Align, WrappingRenderer};

const TEXT: &str = "The quick brown fox jumps over the lazy dog\nsecond\nthird\n";

fn buffer_at(pos: usize) -> Buffer {
    let mut buf = Buffer::new();
    buf.insert_str(TEXT);
    buf.set_pos(pos);
    buf
}

#[test]
fn moving_up_and_down_keeps_the_column() {
    let buf = buffer_at(0);
    let mut r = WrappingRenderer::new(&buf, 20, 4, 16);
    assert_eq!(r.cursor_point(), ped::size::Point::new(1, 4));
    assert_eq!(r.move_down(&buf, 1, false), 1);
    assert_eq!(r.get_pos(), 36);
    assert_eq!(r.move_down(&buf, 1, false), 1);
    assert_eq!(r.get_pos(), 48);
    assert_eq!(r.move_down(&buf, 1, false), 1);
    assert_eq!(r.get_pos(), 55);
    assert_eq!(r.top_row(), 16);
    assert_eq!(r.cursor_point().row, 3);
    assert_eq!(r.move_up(&buf, 1, false), 1);
    assert_eq!(r.get_pos(), 48);
    assert_eq!(r.cursor_point().row, 2);
    r.move_end(&buf);
    assert_eq!(r.get_pos(), 50);
    r.move_start(&buf);
    assert_eq!(r.get_pos(), 44);
    assert_eq!(r.move_down(&buf, 9, false), 2);
    assert_eq!(r.get_pos(), 57);
    assert_eq!(r.move_down(&buf, 1, false), 0);
}

#[test]
fn wrapped_rows_place_the_cursor() {
    let buf = buffer_at(0);
    let mut r = WrappingRenderer::new(&buf, 0, 4, 16);
    // Row 1 of the long line starts at 16, so position 20 is column 4 there.
    r.move_to(&buf, 20, Align::Auto);
    assert_eq!(r.get_pos(), 20);
    assert_eq!(r.cursor_point().row, 1);
    assert_eq!(r.cursor_point().col, 4);
    // The third row of the long line holds its end; "second" starts row 3.
    r.move_to(&buf, 45, Align::Auto);
    assert_eq!(r.cursor_point().row, 3);
    assert_eq!(r.cursor_point().col, 1);
    assert_eq!(r.top_row(), 0);
}

#[test]
fn moving_below_the_display_scrolls() {
    let buf = buffer_at(0);
    let mut r = WrappingRenderer::new(&buf, 0, 2, 16);
    r.move_to(&buf, 51, Align::Auto);
    // "third" starts at 51, four rows down: the display keeps it on its last row.
    assert_eq!(r.cursor_point().row, 1);
    assert_eq!(r.top_row(), 44);
    r.move_to(&buf, 0, Align::Auto);
    assert_eq!(r.cursor_point().row, 0);
    assert_eq!(r.top_row(), 0);
}

#[test]
fn alignment_asks_for_a_row() {
    let buf = buffer_at(0);
    let mut r = WrappingRenderer::new(&buf, 0, 5, 16);
    r.move_to(&buf, 51, Align::Center);
    assert_eq!(r.cursor_point().row, 2);
    assert_eq!(r.top_row(), 32);
    r.move_to(&buf, 200, Align::Top);
    assert_eq!(r.get_pos(), 57);
    assert_eq!(r.top_row(), 57);
    assert_eq!(r.cursor_point(), ped::size::Point::new(0, 0));
}

#[test]
fn scrolling_moves_the_top_row_and_keeps_the_cursor_shown() {
    let buf = buffer_at(0);
    let mut r = WrappingRenderer::new(&buf, 0, 3, 16);
    assert!(r.scroll_up(&buf));
    assert_eq!((r.top_row(), r.get_pos()), (16, 16));
    assert_eq!(r.cursor_point(), ped::size::Point::new(0, 0));
    assert!(r.scroll_up(&buf));
    assert!(r.scroll_up(&buf));
    assert_eq!((r.top_row(), r.get_pos()), (44, 44));
    // Rows 51 and 57 follow; a third does not, so the display stays.
    assert!(!r.scroll_up(&buf));
    assert_eq!((r.top_row(), r.get_pos()), (44, 44));
    assert!(r.scroll_down(&buf));
    assert_eq!((r.top_row(), r.get_pos(), r.cursor_point().row), (32, 44, 1));
    assert!(r.scroll_down(&buf));
    assert_eq!((r.top_row(), r.get_pos(), r.cursor_point().row), (16, 44, 2));
    // The cursor sits on the bottom row, so it moves up with the text.
    assert!(r.scroll_down(&buf));
    assert_eq!((r.top_row(), r.get_pos(), r.cursor_point().row), (0, 32, 2));
    assert!(!r.scroll_down(&buf));
    assert_eq!(r.top_row(), 0);
}

#[test]
fn scrolling_keeps_the_column_where_the_row_allows() {
    let buf = buffer_at(0);
    let mut r = WrappingRenderer::new(&buf, 5, 3, 16);
    assert!(r.scroll_up(&buf));
    assert_eq!(r.get_pos(), 21);
    assert!(r.scroll_up(&buf));
    assert_eq!(r.get_pos(), 37);
    assert!(r.scroll_up(&buf));
    assert_eq!(r.get_pos(), 49);
    assert_eq!(r.cursor_point(), ped::size::Point::new(0, 5));
}
