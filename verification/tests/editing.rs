use ped::error::Error;
use ped::clip::Scope;
use ped::color::Color;
use ped::ed::{
    dirty_editors, is_dirty_file, is_ephemeral, is_file, next_unattached_editor, path_of, prev_unattached_editor,
    source_of, unattached_editors,
};
use ped::editor::Editor;
use ped::env::{Environment, SCRATCH_ID};
use ped::op::{
    close_other_windows, close_window, copy, copy_to, cut, cut_global, describe_editor, eol_mode, insert_char,
    insert_line, insert_tab, is_ready, kill_window, move_backward, move_backward_select, move_bottom,
    move_forward_word, move_top, next_editor, paste, paste_global, perform, prev_editor, redo, remove_after,
    remove_before, remove_end, remove_start, save_file, select_editor, set_mark, tab_mode, undo, Action, Ask,
    perform_on_display, track_vertical,
};
use ped::wrap::WrappingRenderer;
use ped::config::Configuration;
use ped::key::Key;
use ped::op::{perform_help, perform_on_view, search_next, toggle_help};
use ped::question::Search;
use ped::size::Point;
use ped::source::Source;
use ped::workspace::{Placement, Workspace};

fn env() -> Environment {
    Environment::new(Workspace::new(24, 80, Color::new(1, 2)), false, 4)
}

fn text(env: &Environment) -> String {
    let b = env.get_active_editor().buffer();
    b.copy(0, b.size()).into_iter().collect()
}

fn typed(env: &mut Environment, s: &str) {
    for c in s.chars() {
        assert!(insert_char(env, c).is_none());
    }
}

fn echo(r: Option<Action>) -> String {
    match r {
        Some(Action::Echo(t)) => t,
        _ => panic!("echo expected"),
    }
}

fn file_editor(path: &str) -> Editor {
    let mut e = Editor::new(None, false, false, 4, false, None);
    e.set_source(Source::as_file(path, None));
    e
}

#[test]
fn typing_and_moving() {
    let mut env = env();
    typed(&mut env, "hello world");
    assert_eq!(text(&env), "hello world");
    move_top(&mut env);
    assert_eq!(env.get_active_editor().pos(), 0);
    move_forward_word(&mut env);
    assert_eq!(env.get_active_editor().pos(), 6);
    move_backward(&mut env);
    assert_eq!(env.get_active_editor().pos(), 5);
    move_bottom(&mut env);
    assert_eq!(env.get_active_editor().pos(), 11);
}

#[test]
fn undo_and_redo_say_when_nothing_is_left() {
    let mut env = env();
    assert_eq!(echo(undo(&mut env)), "nothing to undo");
    typed(&mut env, "abc");
    assert!(undo(&mut env).is_none());
    assert_eq!(text(&env), "");
    assert!(redo(&mut env).is_none());
    assert_eq!(text(&env), "abc");
    assert_eq!(echo(redo(&mut env)), "nothing to redo");
}

#[test]
fn selection_cut_goes_to_clipboard() {
    let mut env = env();
    typed(&mut env, "one two");
    move_backward_select(&mut env);
    move_backward_select(&mut env);
    move_backward_select(&mut env);
    assert!(cut(&mut env).is_none());
    assert_eq!(text(&env), "one ");
    assert_eq!(env.clipboard().get_text(), Some(vec!['t', 'w', 'o']));
    assert!(paste(&mut env).is_none());
    assert!(paste(&mut env).is_none());
    assert_eq!(text(&env), "one twotwo");
}

#[test]
fn cut_without_selection_takes_line() {
    let mut env = env();
    typed(&mut env, "first\nsecond\nthird");
    move_top(&mut env);
    assert!(cut(&mut env).is_none());
    assert_eq!(text(&env), "second\nthird");
    assert_eq!(env.clipboard().get_text(), Some("first\n".chars().collect::<Vec<_>>()));
    match cut_global(&mut env) {
        Some(Action::ToClipboard(t)) => assert_eq!(t, "second\n".chars().collect::<Vec<_>>()),
        _ => panic!("clipboard action expected"),
    }
    assert_eq!(text(&env), "third");
}

#[test]
fn copy_keeps_text() {
    let mut env = env();
    typed(&mut env, "abc\ndef");
    assert!(copy(&mut env).is_none());
    assert_eq!(env.clipboard().get_text(), Some(vec!['d', 'e', 'f']));
    set_mark(&mut env);
    move_top(&mut env);
    match copy_to(&mut env, Scope::Global) {
        Some(Action::ToClipboard(t)) => assert_eq!(t, "abc\ndef".chars().collect::<Vec<_>>()),
        _ => panic!("clipboard action expected"),
    }
    assert_eq!(text(&env), "abc\ndef");
    assert!(matches!(paste_global(&mut env), Some(Action::FromClipboard)));
}

#[test]
fn removals_around_cursor() {
    let mut env = env();
    typed(&mut env, "abc def\nxyz");
    move_top(&mut env);
    move_forward_word(&mut env);
    assert!(remove_after(&mut env).is_none());
    assert_eq!(text(&env), "abc ef\nxyz");
    assert!(remove_start(&mut env).is_none());
    assert_eq!(text(&env), "ef\nxyz");
    assert!(remove_end(&mut env).is_none());
    assert_eq!(text(&env), "xyz");
    move_bottom(&mut env);
    assert!(remove_before(&mut env).is_none());
    assert_eq!(text(&env), "xy");
}

#[test]
fn tabs_and_lines() {
    let mut env = env();
    typed(&mut env, "ab");
    assert!(insert_tab(&mut env).is_none());
    assert_eq!(text(&env), "ab  ");
    assert!(insert_line(&mut env).is_none());
    assert_eq!(echo(tab_mode(&mut env)), "hard tabs enabled");
    assert!(insert_tab(&mut env).is_none());
    assert_eq!(text(&env), "ab  \n\t");
    assert_eq!(echo(tab_mode(&mut env)), "soft tabs enabled");
    assert_eq!(echo(eol_mode(&mut env)), "EOL mode set to CRLF");
    assert_eq!(echo(eol_mode(&mut env)), "EOL mode set to LF");
}

#[test]
fn describe_shows_cursor_character() {
    let mut env = env();
    typed(&mut env, "a\nb");
    move_top(&mut env);
    assert_eq!(
        echo(describe_editor(&mut env)),
        "lines: 2 | chars: 3 | cursor: 'a' \\u0061 | tabs: soft | eol: LF"
    );
    move_bottom(&mut env);
    assert_eq!(echo(describe_editor(&mut env)), "lines: 2 | chars: 3 | cursor: EOF | tabs: soft | eol: LF");
    move_top(&mut env);
    ped::op::move_forward(&mut env);
    assert_eq!(
        echo(describe_editor(&mut env)),
        "lines: 2 | chars: 3 | cursor: \\u000a | tabs: soft | eol: LF"
    );
}

#[test]
fn readonly_editor_is_not_changed() {
    let mut env = env();
    let mut e = Editor::new(None, true, false, 4, false, None);
    e.set_source(Source::as_ephemeral("ro"));
    env.set_editor(e);
    assert_eq!(echo(insert_char(&mut env, 'x')), "editor is readonly");
    assert_eq!(echo(remove_after(&mut env)), "editor is readonly");
    assert_eq!(echo(cut(&mut env)), "editor is readonly");
    assert!(remove_before(&mut env).is_none());
    assert_eq!(text(&env), "");
}

#[test]
fn window_operations() {
    let mut env = env();
    assert_eq!(echo(close_window(&mut env)), "cannot close only window");
    env.open_editor(file_editor("a.txt"), Placement::Bottom);
    env.open_editor(file_editor("b.txt"), Placement::Bottom);
    assert!(close_other_windows(&mut env).is_none());
    assert_eq!(env.workspace().views().len(), 1);
    assert_eq!(env.get_active_view_id(), 0);
    assert_eq!(env.editor_map().len(), 3);
}

#[test]
fn cycling_through_editors() {
    let mut env = env();
    env.set_editor(file_editor("a.txt"));
    env.set_editor(file_editor("b.txt"));
    env.set_editor(file_editor("c.txt"));
    // Editor 3 is shown; 1 and 2 are files no view shows; scratch is ephemeral.
    assert_eq!(unattached_editors(&env, false), vec![1, 2]);
    assert_eq!(unattached_editors(&env, true), vec![0, 1, 2]);
    assert_eq!(next_unattached_editor(&env), Some(1));
    assert_eq!(prev_unattached_editor(&env), Some(2));
    assert!(prev_editor(&mut env).is_none());
    assert_eq!(env.get_active_editor_id(), 2);
    assert!(next_editor(&mut env).is_none());
    assert_eq!(env.get_active_editor_id(), 3);
    match select_editor(&mut env) {
        Some(Action::Question(Ask::Select(ids, None))) => assert_eq!(ids, vec![0, 1, 2]),
        _ => panic!("question expected"),
    }
}

#[test]
fn kill_window_switches_in_single_view() {
    let mut env = env();
    env.set_editor(file_editor("a.txt"));
    env.set_editor(file_editor("b.txt"));
    assert!(kill_window(&mut env).is_none());
    assert_eq!(env.get_active_editor_id(), 1);
    assert_eq!(env.editor_map().iter().map(|(id, _)| *id).collect::<Vec<_>>(), vec![0, 1]);
    typed(&mut env, "x");
    assert_eq!(echo(kill_window(&mut env)), "cannot close only window");
    env.set_editor(file_editor("c.txt"));
    typed(&mut env, "y");
    assert!(matches!(kill_window(&mut env), Some(Action::Question(Ask::Kill(Some((3, 1)))))));
    assert!(matches!(save_file(&mut env), Some(Action::Question(Ask::Save))));
}

#[test]
fn dirty_and_sources() {
    let mut env = env();
    env.set_editor(file_editor("/home/me/a.txt"));
    typed(&mut env, "x");
    assert_eq!(dirty_editors(&env), vec![1]);
    let e = env.get_active_editor();
    assert!(is_file(e) && is_dirty_file(e) && !is_ephemeral(e));
    assert_eq!(path_of(e), "/home/me/a.txt");
    assert_eq!(source_of(e, "/home/me"), "~/a.txt");
    assert_eq!(env.get_active_editor_id(), 1);
    assert_ne!(SCRATCH_ID, 1);
}

#[test]
fn perform_runs_named_operations() {
    let mut env = env();
    assert!(is_ready(&env));
    typed(&mut env, "abc");
    assert!(matches!(perform(&mut env, "move-backward"), Some(None)));
    assert_eq!(env.get_active_editor().pos(), 2);
    assert!(matches!(perform(&mut env, "quit"), Some(Some(Action::Question(Ask::Quit)))));
    assert!(perform(&mut env, "no-such-op").is_none());
    let _ = Point::new(0, 0);
}

#[test]
fn error_messages() {
    assert_eq!(Error::invalid_key("C-?").message(), "C-?: invalid key");
    assert_eq!(Error::utf8(&[0xe2, 0x82], "cut short").message(), "[226, 130]: cut short");
    assert_eq!(Error::invalid_value("--tab", "x").message(), "x: invalid value following --tab");
    assert_eq!(Error::general("plain").message(), "plain");
}

#[test]
fn display_moves_follow_wrapped_rows() {
    let mut env = env();
    typed(&mut env, "abcdefghij\nxy");
    move_top(&mut env);
    assert!(matches!(perform_on_display(&mut env, "move-down", 10, 4), Some(None)));
    assert_eq!(env.get_active_editor().pos(), 4);
    assert!(perform_on_display(&mut env, "move-end", 10, 4).is_some());
    assert_eq!(env.get_active_editor().pos(), 7);
    assert!(perform_on_display(&mut env, "move-down-select", 10, 4).is_some());
    assert_eq!(env.get_active_editor().pos(), 10);
    assert!(perform_on_display(&mut env, "move-down", 10, 4).is_some());
    assert_eq!(env.get_active_editor().pos(), 13);
    assert!(perform_on_display(&mut env, "move-start", 10, 4).is_some());
    assert_eq!(env.get_active_editor().pos(), 11);
    assert!(perform_on_display(&mut env, "scroll-up", 10, 4).is_none());
}

#[test]
fn scrolling_a_view_moves_its_cursor_with_the_display() {
    let mut env = env();
    typed(&mut env, "ab\ncd\nef\ngh\n");
    move_top(&mut env);
    let v = env.get_active_view_id();
    let mut display = WrappingRenderer::new(env.get_active_editor().buffer(), 0, 2, 10);
    // Scrolling toward the end takes the cursor off the top row to the next.
    track_vertical(&mut env, v, &mut display, false, false);
    assert_eq!(display.top_row(), 3);
    assert_eq!(env.get_active_editor().pos(), 3);
    // With a selection, the soft mark stays where the cursor was.
    track_vertical(&mut env, v, &mut display, true, false);
    assert_eq!(env.get_active_editor().pos(), 6);
    assert_eq!(env.get_active_editor().selection(), (3, 6));
    // Scrolling back moves the display only: the cursor is not on its bottom row.
    track_vertical(&mut env, v, &mut display, false, true);
    assert_eq!(display.top_row(), 3);
    assert_eq!(env.get_active_editor().pos(), 6);
    assert_eq!(env.get_active_editor().selection(), (3, 6));
    // Without a selection, a scroll that moves the cursor clears the soft mark.
    track_vertical(&mut env, v, &mut display, false, true);
    assert_eq!(display.top_row(), 0);
    assert_eq!(env.get_active_editor().pos(), 3);
    assert_eq!(env.get_active_editor().selection(), (0, 0));
}

fn active_text(env: &Environment) -> String {
    text(env)
}

#[test]
fn search_moves_through_matches_and_search_next_resumes() {
    let mut env = env();
    typed(&mut env, "one two one two one");
    move_top(&mut env);
    let id = env.get_active_editor_id();
    let mut s = Search::new(env.get_active_editor(), false, false);
    assert!(s.value().is_none());
    assert_eq!(s.react(env.editor_mut(id), "one", Key::Char('e')), None);
    assert_eq!(env.get_active_editor().pos(), 0);
    assert_eq!(env.get_active_editor().selection(), (0, 3));
    s.react(env.editor_mut(id), "one", Key::Control(9));
    assert_eq!(env.get_active_editor().pos(), 8);
    s.react(env.editor_mut(id), "one", Key::Control(9));
    assert_eq!(env.get_active_editor().pos(), 16);
    // The next match wraps to the first one found.
    s.react(env.editor_mut(id), "one", Key::Control(9));
    assert_eq!(env.get_active_editor().pos(), 0);
    s.react(env.editor_mut(id), "one", Key::Control(9));
    assert_eq!(env.get_active_editor().pos(), 8);
    s.react(env.editor_mut(id), "one", Key::ReverseTab);
    assert_eq!(env.get_active_editor().pos(), 0);
    assert_eq!(s.react(env.editor_mut(id), "zzz", Key::Char('z')), Some(" (no match)".to_string()));
    // An empty input puts the cursor back.
    s.react(env.editor_mut(id), "", Key::Control(127));
    assert_eq!(env.get_active_editor().pos(), 0);
    assert_eq!(env.get_active_editor().selection(), (0, 0));
    s.react(env.editor_mut(id), "two", Key::Char('o'));
    assert_eq!(env.get_active_editor().pos(), 4);
    s.respond(env.editor_mut(id), Some("two"));
    // The cursor is at the last match, so the next search starts past it.
    assert!(search_next(&mut env).is_none());
    assert_eq!(env.get_active_editor().pos(), 12);
    assert!(search_next(&mut env).is_none());
    assert_eq!(env.get_active_editor().pos(), 4);
}

#[test]
fn search_next_without_a_search_asks_for_one() {
    let mut env = env();
    assert!(matches!(search_next(&mut env), Some(Action::Question(Ask::Search { regex: false, case: false }))));
}

#[test]
fn selected_text_primes_a_term_search_and_cancel_restores() {
    let mut env = env();
    typed(&mut env, "ab ab");
    move_top(&mut env);
    set_mark(&mut env);
    let id = env.get_active_editor_id();
    env.editor_mut(id).move_to(2);
    let mut s = Search::new(env.get_active_editor(), false, true);
    assert_eq!(s.value(), Some("ab".to_string()));
    // TAB moves on from the primed match at the cursor.
    s.react(env.editor_mut(id), "ab", Key::Control(9));
    assert_eq!(env.get_active_editor().pos(), 3);
    s.respond(env.editor_mut(id), None);
    assert_eq!(env.get_active_editor().pos(), 2);
    assert!(Search::new(env.get_active_editor(), true, true).value().is_none());
    assert_eq!(Search::new(env.get_active_editor(), true, true).prompt(), "regex search (case-sensitive):");
    assert_eq!(Search::new(env.get_active_editor(), false, false).prompt(), "search (case-insensitive):");
}

#[test]
fn help_windows_toggle() {
    let mut env = env();
    assert!(toggle_help(&mut env, "keys", "a\nb\n").is_none());
    assert_eq!(env.workspace().views().len(), 2);
    assert_eq!(active_text(&env), "a\nb\n");
    assert!(is_ephemeral(env.get_active_editor()));
    // Shown, so its window closes.
    assert!(toggle_help(&mut env, "keys", "a\nb\n").is_none());
    assert_eq!(env.workspace().views().len(), 1);
    let config = match Configuration::new() {
        Ok(c) => c,
        Err(e) => panic!("configuration expected: {:?}", e),
    };
    assert!(matches!(perform_help(&mut env, "help-ops", &config), Some(None)));
    assert_eq!(env.workspace().views().len(), 2);
    assert!(active_text(&env).contains("search-next\n"));
    assert!(perform_help(&mut env, "not-help", &config).is_none());
}

#[test]
fn scroll_operations_move_the_display() {
    let mut env = env();
    typed(&mut env, "a\nb\nc\nd\n");
    move_top(&mut env);
    let mut display = WrappingRenderer::new(env.get_active_editor().buffer(), 0, 2, 10);
    assert!(matches!(perform_on_view(&mut env, "scroll-down", &mut display), Some(None)));
    assert_eq!((display.top_row(), env.get_active_editor().pos()), (2, 2));
    assert!(matches!(perform_on_view(&mut env, "scroll-up", &mut display), Some(None)));
    assert_eq!((display.top_row(), env.get_active_editor().pos(), display.cursor_point().row), (0, 2, 1));
    assert!(matches!(perform_on_view(&mut env, "scroll-center", &mut display), Some(None)));
    assert_eq!((display.top_row(), display.cursor_point().row), (0, 1));
    assert!(perform_on_view(&mut env, "move-up", &mut display).is_none());
}
