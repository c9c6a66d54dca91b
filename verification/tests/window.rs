use ped::size::{Point, Size};
use ped::source::Source;
use ped::window::{calc_areas, left_parts, Banner, Window};

fn chars(s: &str) -> Vec<char> {
    s.chars().collect()
}

#[test]
fn banner_areas_by_width() {
    assert_eq!(calc_areas(15), (None, None));
    assert_eq!(calc_areas(16), (Some((1, 15)), None));
    assert_eq!(calc_areas(39), (Some((1, 38)), None));
    assert_eq!(calc_areas(40), (Some((1, 16)), Some((17, 39))));
    assert_eq!(calc_areas(80), (Some((1, 56)), Some((57, 79))));
}

#[test]
fn left_area_shortens_source() {
    let (src, syn) = left_parts(&chars("~/a/b/c.rs"), &chars("c.rs"), &chars("rust"), 20);
    assert_eq!((src, syn), (chars("~/a/b/c.rs"), chars("rust")));
    let (src, syn) = left_parts(&chars("~/a/b/c.rs"), &chars("c.rs"), &chars("rust"), 12);
    assert_eq!((src, syn), (chars("c.rs"), chars("rust")));
    let (src, syn) = left_parts(&chars("~/a/b/c.rs"), &chars("c.rs"), &chars("rust"), 8);
    assert_eq!((src, syn), (chars("c.rs"), vec![]));
    let (src, syn) = left_parts(&chars("@verylongname"), &chars("@verylongname"), &chars(""), 8);
    assert_eq!((src, syn), (chars("...gname"), vec![]));
}

#[test]
fn window_maps_points_to_canvas() {
    let w = Window::new(Point::new(5, 0), Size::new(10, 80));
    assert_eq!(w.point_on_canvas(Point::new(5, 3)), Some(Point::new(0, 3)));
    assert_eq!(w.point_on_canvas(Point::new(13, 79)), Some(Point::new(8, 79)));
    assert_eq!(w.point_on_canvas(Point::new(14, 0)), None);
    assert_eq!(w.point_on_canvas(Point::new(4, 0)), None);
    assert!(Window::zombie().is_zombie());
    assert!(!w.is_zombie());
}

#[test]
fn banner_shows_source_modes_and_location() {
    let mut b = Banner::new(Point::new(23, 0), 80, 60, 237, 254, 180, 208);
    b.set_source(&Source::as_file("/home/me/x.rs", None), "/home/me");
    b.set_syntax("rust");
    b.set_eol(false);
    b.set_tab(true);
    b.set_char(Some('a'));
    b.set_location(Point::new(9, 4));
    b.draw();
    let out = b.send();
    assert!(out.contains("~/x.rs"));
    assert!(out.contains("rust"));
    assert!(out.contains("0061"));
    assert!(out.contains("10"));
    b.redraw();
    b.focus(true);
    assert!(b.send().len() > 0);
}
