use ped::color::Color;
use ped::input::{Directive, InputEditor};
use ped::key::{Ctrl, Key, Shift};
use ped::size::Point;
use ped::user::{list_completer, null_completer, yes_no_completer};

fn editor() -> InputEditor {
    InputEditor::new(Color::new(1, 0), Color::new(2, 0), Color::new(3, 0))
}

#[test]
fn calc_sizes_of_areas() {
    assert_eq!(InputEditor::calc_sizes(80, "Save?"), (6, 74));
    assert_eq!(InputEditor::calc_sizes(5, "Save?"), (3, 2));
    assert_eq!(InputEditor::calc_sizes(0, ""), (0, 2));
    assert_eq!(InputEditor::calc_sizes(3, "ab"), (0, 3));
}

#[test]
fn edit_and_move() {
    let mut e = editor();
    let mut c = null_completer();
    e.enable("find:", &mut c, Point::new(20, 0), 40);
    for ch in "helo".chars() {
        assert!(e.process_key(&Key::Char(ch), &mut c) == Directive::Continue);
    }
    assert_eq!(e.value(), "helo");
    e.process_key(&Key::Left(Shift::Off, Ctrl::Off), &mut c);
    e.process_key(&Key::Char('l'), &mut c);
    assert_eq!(e.value(), "hello");
    e.process_key(&Key::Control(1), &mut c);
    e.process_key(&Key::Control(4), &mut c);
    assert_eq!(e.value(), "ello");
    e.process_key(&Key::Control(5), &mut c);
    e.process_key(&Key::Control(127), &mut c);
    assert_eq!(e.value(), "ell");
    e.process_key(&Key::Control(2), &mut c);
    e.process_key(&Key::Control(11), &mut c);
    assert_eq!(e.value(), "el");
    e.process_key(&Key::Control(10), &mut c);
    assert_eq!(e.value(), "");
    assert!(e.process_key(&Key::Function(1), &mut c) == Directive::Ignore);
    assert!(e.process_key(&Key::Control(7), &mut c) == Directive::Cancel);
    assert!(e.process_key(&Key::Control(13), &mut c) == Directive::Accept);
    let out = e.send();
    assert!(out.contains("find:"));
}

#[test]
fn accept_through_completer() {
    let mut e = editor();
    let mut c = yes_no_completer();
    e.enable("Quit?", &mut c, Point::new(0, 0), 20);
    e.process_key(&Key::Char('x'), &mut c);
    assert!(e.process_key(&Key::Control(13), &mut c) == Directive::Continue);
    e.process_key(&Key::Control(127), &mut c);
    e.process_key(&Key::Char('Y'), &mut c);
    assert!(e.process_key(&Key::Control(13), &mut c) == Directive::Accept);
    assert_eq!(e.value(), "y");
}

#[test]
fn suggestion_replaces_input() {
    let mut e = editor();
    let mut c = list_completer(vec!["alpha".to_string(), "beta".to_string()]);
    e.enable("pick:", &mut c, Point::new(0, 0), 30);
    e.process_key(&Key::Char('b'), &mut c);
    e.process_key(&Key::Control(9), &mut c);
    assert_eq!(e.value(), "beta");
}

#[test]
fn disable_clears_input() {
    let mut e = editor();
    let mut c = null_completer();
    e.enable("x", &mut c, Point::new(0, 0), 10);
    e.process_key(&Key::Char('a'), &mut c);
    e.disable();
    assert_eq!(e.value(), "");
}

#[test]
fn applied_suggestion_replaces_input_or_keeps_it() {
    let mut e = editor();
    let mut c = null_completer();
    e.enable("x:", &mut c, Point::new(0, 0), 30);
    e.process_key(&Key::Char('a'), &mut c);
    e.apply_suggestion(None, Some(" (hint)".to_string()));
    assert_eq!(e.value(), "a");
    e.apply_suggestion(Some("abc".to_string()), None);
    assert_eq!(e.value(), "abc");
    // The cursor went to the end of the replacement.
    e.process_key(&Key::Char('d'), &mut c);
    assert_eq!(e.value(), "abcd");
}

#[test]
fn reverse_tab_suggests_backward() {
    let mut e = editor();
    let mut c = list_completer(vec!["alpha".to_string(), "beta".to_string(), "gamma".to_string()]);
    e.enable("pick:", &mut c, Point::new(0, 0), 30);
    e.process_key(&Key::Char('a'), &mut c);
    assert!(e.process_key(&Key::Control(9), &mut c) == Directive::Continue);
    assert_eq!(e.value(), "alpha");
    assert!(e.process_key(&Key::ReverseTab, &mut c) == Directive::Continue);
    assert_eq!(e.value(), "gamma");
}
