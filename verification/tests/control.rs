use ped::bind::Bindings;
use ped::control::{answer, undefined_keys_text, welcome, Answer, Dispatch, KeySequencer, Scroll};
use ped::nav::Location;
use ped::op::Ask;
use ped::workspace::Placement;
use ped::key::{Key, Shift};
use ped::size::Point;

fn bindings() -> Bindings {
    let pairs: Vec<(String, String)> = vec![
        ("C-q".to_string(), "quit".to_string()),
        ("C-x:C-s".to_string(), "save-file".to_string()),
        ("C-h".to_string(), "help".to_string()),
    ];
    match Bindings::new(&pairs) {
        Ok(b) => b,
        Err(_) => panic!("bindings expected"),
    }
}

#[test]
fn character_without_pending_keys_is_inserted() {
    let b = bindings();
    let mut seq = KeySequencer::new();
    assert!(seq.dispatch(Key::Char('a'), &b) == Dispatch::InsertChar('a'));
    assert!(seq.keys().is_empty());
}

#[test]
fn bound_key_runs_operation() {
    let b = bindings();
    let mut seq = KeySequencer::new();
    assert!(seq.dispatch(Key::Control(17), &b) == Dispatch::Run("quit".to_string()));
    assert!(seq.keys().is_empty());
}

#[test]
fn prefix_waits_then_runs() {
    let b = bindings();
    let mut seq = KeySequencer::new();
    assert!(seq.dispatch(Key::Control(24), &b) == Dispatch::Prefix);
    assert!(*seq.keys() == vec![Key::Control(24)]);
    assert!(seq.dispatch(Key::Control(19), &b) == Dispatch::Run("save-file".to_string()));
    assert!(seq.keys().is_empty());
}

#[test]
fn character_after_prefix_extends_sequence() {
    let b = bindings();
    let mut seq = KeySequencer::new();
    assert!(seq.dispatch(Key::Control(24), &b) == Dispatch::Prefix);
    assert!(seq.dispatch(Key::Char('z'), &b) == Dispatch::Undefined(vec![Key::Control(24), Key::Char('z')]));
    assert!(seq.keys().is_empty());
}

#[test]
fn unbound_key_is_undefined() {
    let b = bindings();
    let mut seq = KeySequencer::new();
    assert!(seq.dispatch(Key::Control(2), &b) == Dispatch::Undefined(vec![Key::Control(2)]));
    assert!(undefined_keys_text(&vec![Key::Control(24), Key::Char('z')]) == "C-x z: undefined key");
}

#[test]
fn cancel_reports_whether_keys_were_pending() {
    let b = bindings();
    let mut seq = KeySequencer::new();
    assert!(seq.dispatch(Key::Control(7), &b) == Dispatch::Cancel(false));
    assert!(seq.dispatch(Key::Control(24), &b) == Dispatch::Prefix);
    assert!(seq.dispatch(Key::Control(7), &b) == Dispatch::Cancel(true));
    assert!(seq.keys().is_empty());
    assert!(!seq.clear_keys());
}

#[test]
fn mouse_events_keep_pending_keys() {
    let b = bindings();
    let mut seq = KeySequencer::new();
    assert!(seq.dispatch(Key::Control(24), &b) == Dispatch::Prefix);
    assert!(
        seq.dispatch(Key::ScrollUp(Shift::On, 3, 4), &b) == Dispatch::Scroll(Scroll::Up, Point { row: 3, col: 4 }, true)
    );
    assert!(
        seq.dispatch(Key::ScrollRight(Shift::Off, 1, 2), &b)
            == Dispatch::Scroll(Scroll::Forward, Point { row: 1, col: 2 }, false)
    );
    assert!(seq.dispatch(Key::ButtonPress(5, 6), &b) == Dispatch::Focus(Point { row: 5, col: 6 }));
    assert!(seq.dispatch(Key::ButtonRelease(5, 6), &b) == Dispatch::Absorb);
    assert!(*seq.keys() == vec![Key::Control(24)]);
    assert!(seq.clear_keys());
}

#[test]
fn welcome_names_help_keys() {
    assert!(welcome("ped", "0.1.0", &vec![vec![Key::Control(8)]]) == "ped 0.1.0 | type C-h for help, C-q to quit");
    assert!(welcome("ped", "0.1.0", &vec![]) == "ped 0.1.0 | type C-q to quit");
}

fn names() -> Vec<(String, u32)> {
    vec![("alpha".to_string(), 3), ("beta".to_string(), 5), ("alpha".to_string(), 9)]
}

#[test]
fn answers_follow_the_question() {
    assert!(matches!(answer(&Ask::Quit, "y", &names()), Answer::Quit { save: true }));
    assert!(matches!(answer(&Ask::Quit, "n", &names()), Answer::Quit { save: false }));
    assert!(matches!(
        answer(&Ask::GotoLine, "3, 2", &names()),
        Answer::GotoLine(Location { line: 2, col: 1 })
    ));
    assert!(matches!(
        answer(&Ask::GotoLine, "7", &names()),
        Answer::GotoLine(Location { line: 6, col: 0 })
    ));
    assert!(matches!(answer(&Ask::GotoLine, "x", &names()), Answer::Nothing));
    assert!(matches!(answer(&Ask::InsertUnicode(16), "41", &names()), Answer::InsertChar('A')));
    assert!(matches!(answer(&Ask::InsertUnicode(16), "d800", &names()), Answer::InvalidCodePoint));
    assert!(matches!(answer(&Ask::InsertUnicode(10), "4x", &names()), Answer::InvalidCodePoint));
    match answer(&Ask::Search { regex: true, case: false }, "a.b", &names()) {
        Answer::Search { term, regex, case } => assert!(term == "a.b" && regex && !case),
        _ => panic!("search expected"),
    }
    match answer(&Ask::Open(Some(Placement::Bottom)), "notes.txt", &names()) {
        Answer::Open { path, place } => assert!(path == "notes.txt" && matches!(place, Some(Placement::Bottom))),
        _ => panic!("open expected"),
    }
    assert!(matches!(answer(&Ask::Save, "y", &names()), Answer::Save));
    assert!(matches!(answer(&Ask::Save, "n", &names()), Answer::Nothing));
    assert!(matches!(answer(&Ask::SaveAs, "out.txt", &names()), Answer::SaveAs(p) if p == "out.txt"));
    assert!(matches!(
        answer(&Ask::Kill(Some((4, 2))), "y", &names()),
        Answer::Kill { save: true, target: Some((4, 2)) }
    ));
    assert!(matches!(
        answer(&Ask::Select(vec![3, 5, 9], None), "alpha", &names()),
        Answer::Select { id: 3, place: None }
    ));
    assert!(matches!(answer(&Ask::Select(vec![3, 5, 9], None), "gamma", &names()), Answer::Nothing));
}
