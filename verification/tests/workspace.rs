use ped::color::Color;
use ped::size::{Point, Size};
use ped::workspace::{Placement, Workspace};

fn ids(w: &Workspace) -> Vec<u32> {
    w.views().iter().map(|v| v.id).collect()
}

fn rows(w: &Workspace) -> Vec<(u32, u32)> {
    w.views().iter().map(|v| (v.origin.row, v.size.rows)).collect()
}

#[test]
fn single_view_fills_workspace() {
    let w = Workspace::new(24, 80, Color::new(1, 2));
    assert_eq!(ids(&w), vec![0]);
    assert_eq!(rows(&w), vec![(0, 23)]);
    assert_eq!(w.views()[0].size, Size::new(23, 80));
    assert_eq!(w.shared_region(), (Point::new(23, 0), Size::new(1, 80)));
}

#[test]
fn size_is_held_to_minimum() {
    let w = Workspace::new(1, 1, Color::new(0, 0));
    assert_eq!(w.size(), Size::new(3, 2));
    assert_eq!(rows(&w), vec![(0, 2)]);
}

#[test]
fn views_share_rows_top_first() {
    let mut w = Workspace::new(24, 80, Color::new(0, 0));
    assert_eq!(w.open_view(Placement::Bottom), Some(1));
    assert_eq!(rows(&w), vec![(0, 12), (12, 11)]);
    assert_eq!(w.open_view(Placement::Top), Some(2));
    assert_eq!(ids(&w), vec![2, 0, 1]);
    assert_eq!(rows(&w), vec![(0, 8), (8, 8), (16, 7)]);
    assert_eq!(w.open_view(Placement::Below(0)), Some(3));
    assert_eq!(ids(&w), vec![2, 0, 3, 1]);
    assert_eq!(w.open_view(Placement::Above(1)), Some(4));
    assert_eq!(ids(&w), vec![2, 0, 3, 4, 1]);
}

#[test]
fn too_many_views_refused() {
    let mut w = Workspace::new(7, 80, Color::new(0, 0));
    assert_eq!(w.open_view(Placement::Bottom), Some(1));
    assert_eq!(w.open_view(Placement::Bottom), Some(2));
    assert_eq!(w.open_view(Placement::Bottom), None);
    assert_eq!(ids(&w), vec![0, 1, 2]);
}

#[test]
fn close_selects_view_above() {
    let mut w = Workspace::new(24, 80, Color::new(0, 0));
    w.open_view(Placement::Bottom);
    w.open_view(Placement::Bottom);
    assert_eq!(w.close_view(1), Some(0));
    assert_eq!(ids(&w), vec![0, 2]);
    assert_eq!(w.close_view(0), Some(2));
    assert_eq!(w.close_view(2), None);
    assert_eq!(ids(&w), vec![2]);
}

#[test]
fn neighbours_wrap_around() {
    let mut w = Workspace::new(24, 80, Color::new(0, 0));
    w.open_view(Placement::Bottom);
    w.open_view(Placement::Bottom);
    assert_eq!(w.above_view(0).id, 2);
    assert_eq!(w.below_view(2).id, 0);
    assert_eq!(w.below_view(0).id, 1);
    assert_eq!(w.top_view().id, 0);
    assert_eq!(w.bottom_view().id, 2);
    assert_eq!(w.get_view(1).id, 1);
    assert!(w.find_view(9).is_none());
}

#[test]
fn resize_closes_from_bottom_keeping_one() {
    let mut w = Workspace::new(24, 80, Color::new(0, 0));
    w.open_view(Placement::Bottom);
    w.open_view(Placement::Bottom);
    assert!(w.resize(24, 80, 0).is_none());
    let removed = w.resize(5, 80, 2).expect("size changed");
    assert_eq!(removed, vec![1]);
    assert_eq!(ids(&w), vec![0, 2]);
    assert_eq!(rows(&w), vec![(0, 2), (2, 2)]);
    let removed = w.resize(4, 40, 0).expect("size changed");
    assert_eq!(removed, vec![2]);
    assert_eq!(ids(&w), vec![0]);
}

#[test]
fn locate_points_on_canvases() {
    let mut w = Workspace::new(24, 80, Color::new(0, 0));
    w.open_view(Placement::Bottom);
    assert_eq!(w.locate_view(Point::new(3, 5)), Some((0, Point::new(3, 5))));
    assert_eq!(w.locate_view(Point::new(11, 5)), None);
    assert_eq!(w.locate_view(Point::new(13, 79)), Some((1, Point::new(1, 79))));
    assert_eq!(w.locate_view(Point::new(23, 0)), None);
}

#[test]
fn clearing_shared_region_output() {
    let w = Workspace::new(4, 3, Color::new(7, 8));
    assert_eq!(w.clear_shared(), "\x1b[4;1H\x1b[38;5;7m\x1b[48;5;8m   ");
}
