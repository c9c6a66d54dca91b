use ped::buffer::Buffer;
use ped::document::{Document, Focus};
use ped::size::{Point, Size};
use ped::window::Window;

const TEXT: &str = "The quick brown fox jumps over the lazy dog\nsecond\nthird\n";

fn document() -> Document {
    let mut buf = Buffer::new();
    buf.insert_str(TEXT);
    buf.set_pos(0);
    // Three rows of text, the window's last row being its banner.
    Document::new(buf, Window::new(Point::new(0, 0), Size::new(4, 16)))
}

fn state(d: &Document) -> (usize, usize, Point) {
    (d.get_pos(), d.top_row(), d.get_cursor())
}

#[test]
fn moves_left_and_right_cross_wrapped_rows() {
    let mut d = document();
    assert_eq!(state(&d), (0, 0, Point::new(0, 0)));
    d.move_left();
    assert_eq!(state(&d), (0, 0, Point::new(0, 0)));
    d.move_down();
    assert_eq!(state(&d), (16, 0, Point::new(1, 0)));
    d.move_left();
    assert_eq!(state(&d), (15, 0, Point::new(0, 15)));
    d.move_right();
    assert_eq!(state(&d), (16, 0, Point::new(1, 0)));
    d.move_end();
    assert_eq!(d.get_pos(), 31);
    d.move_beg();
    assert_eq!(d.get_pos(), 16);
}

#[test]
fn moving_left_off_the_top_row_scrolls_the_display() {
    let mut d = document();
    d.scroll_up();
    assert_eq!(state(&d), (16, 16, Point::new(0, 0)));
    d.move_left();
    assert_eq!(state(&d), (15, 0, Point::new(0, 15)));
    d.move_up();
    assert_eq!(state(&d), (15, 0, Point::new(0, 15)));
}

#[test]
fn pages_and_ends_of_the_text() {
    let mut d = document();
    d.move_bottom();
    assert_eq!(state(&d), (57, 44, Point::new(2, 0)));
    d.move_top();
    assert_eq!(state(&d), (0, 0, Point::new(0, 0)));
    d.move_page_down();
    assert_eq!(state(&d), (44, 44, Point::new(0, 0)));
    d.move_page_up();
    assert_eq!(state(&d), (0, 0, Point::new(0, 0)));
    d.move_down();
    d.move_down();
    d.move_down();
    // The cursor was on the bottom row, so the display follows it.
    assert_eq!(state(&d), (44, 16, Point::new(2, 0)));
    d.align_cursor(Focus::Row(9));
    assert_eq!(state(&d), (44, 16, Point::new(2, 0)));
    d.align_cursor(Focus::Auto);
    assert_eq!(state(&d), (44, 32, Point::new(1, 0)));
    d.scroll_down();
    assert_eq!(state(&d), (44, 16, Point::new(2, 0)));
}

#[test]
fn inserting_moves_the_cursor_past_the_text() {
    let mut d = document();
    assert!(d.insert_char('>').is_ok());
    assert!(d.insert(&vec!['<', ' ']).is_ok());
    assert_eq!(state(&d), (3, 0, Point::new(0, 3)));
    let b = d.buffer();
    let head: String = b.copy(0, 5).into_iter().collect();
    assert_eq!(head, ">< Th");
}

#[test]
fn rendering_shows_the_rows_from_the_top() {
    let mut d = document();
    d.move_bottom();
    let st = ped::render::Style { theme: ped::config::Theme::default(), eol: false, spotlight: false, margin: false };
    let g = d.render(&st);
    assert_eq!(g.len(), 3);
    let text = |i: usize| g[i].iter().map(|c| c.value).collect::<String>();
    assert_eq!(text(0), "second          ");
    assert_eq!(text(1), "third           ");
    assert_eq!(text(2), "                ");
}
