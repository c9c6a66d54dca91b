use ped::buffer::Buffer;
use ped::editor::Editor;

fn text(e: &Editor) -> String {
    let b = e.buffer();
    b.copy(0, b.size()).iter().collect()
}

fn editor() -> Editor {
    Editor::new(None, false, false, 4, false, None)
}

#[test]
fn typed_characters_undo_together() {
    let mut e = editor();
    e.insert_char('a');
    e.insert_char('b');
    e.insert_char('c');
    assert_eq!(text(&e), "abc");
    assert_eq!(e.pos(), 3);
    assert!(e.is_dirty());
    assert!(e.undo());
    assert_eq!(text(&e), "");
    assert_eq!(e.pos(), 0);
    assert!(!e.undo());
    assert!(e.redo());
    assert_eq!(text(&e), "abc");
    assert!(!e.redo());
}

#[test]
fn insert_then_remove_undone_in_order() {
    let mut e = editor();
    e.insert_str("hello world");
    e.move_to(5);
    let removed = e.remove_after();
    assert_eq!(removed, vec![' ']);
    assert_eq!(text(&e), "helloworld");
    let removed = e.remove_before();
    assert_eq!(removed, vec!['o']);
    assert_eq!(text(&e), "hellworld");
    assert!(e.undo());
    assert_eq!(text(&e), "helloworld");
    assert!(e.undo());
    assert_eq!(text(&e), "hello world");
    assert!(e.undo());
    assert_eq!(text(&e), "");
    assert!(e.redo());
    assert!(e.redo());
    assert_eq!(text(&e), "helloworld");
}

#[test]
fn new_change_clears_redo() {
    let mut e = editor();
    e.insert_str("ab");
    assert!(e.undo());
    e.insert_char('x');
    assert!(!e.redo());
    assert_eq!(text(&e), "x");
}

#[test]
fn readonly_editor_reports_immutable() {
    let mut buf = Buffer::new();
    buf.insert_str("fixed");
    buf.set_pos(0);
    let e = Editor::new(Some(buf), true, false, 4, false, None);
    assert!(!e.is_mutable());
    assert_eq!(text(&e), "fixed");
    assert_eq!(e.pos(), 0);
    assert!(!e.is_dirty());
}

#[test]
fn soft_tabs_fill_to_stop() {
    let mut e = editor();
    e.insert_str("ab");
    e.insert_tab();
    assert_eq!(text(&e), "ab  ");
    e.set_tab(true);
    e.insert_tab();
    assert_eq!(text(&e), "ab  \t");
}

#[test]
fn mark_selection_removed() {
    let mut e = editor();
    e.insert_str("one two three");
    e.move_to(4);
    e.set_hard_mark();
    e.move_to(8);
    let mark = e.clear_mark().expect("mark expected");
    let removed = e.remove_mark(mark);
    assert_eq!(removed.iter().collect::<String>(), "two ");
    assert_eq!(text(&e), "one three");
    assert!(e.undo());
    assert_eq!(text(&e), "one two three");
}

#[test]
fn word_movement() {
    let mut e = editor();
    e.insert_str("alpha beta  gamma");
    e.move_top();
    e.move_forward_word();
    assert_eq!(e.pos(), 6);
    e.move_forward_word();
    assert_eq!(e.pos(), 12);
    e.move_backward_word();
    assert_eq!(e.pos(), 6);
    e.move_bottom();
    assert_eq!(e.pos(), 17);
}
