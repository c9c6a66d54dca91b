use ped::complete::{yes_no, yes_no_all, CompleterAction, CompleterEvent};

fn hint(r: Option<CompleterAction>) -> Option<String> {
    match r {
        Some(CompleterAction::Hint(h)) => Some(h),
        _ => None,
    }
}

fn accepted(r: Option<CompleterAction>) -> Option<String> {
    match r {
        Some(CompleterAction::Accept(a)) => Some(a),
        _ => None,
    }
}

#[test]
fn yes_no_hints_until_an_answer() {
    assert_eq!(hint(yes_no(CompleterEvent::Initialize)), Some(" (y)es, (n)o".to_string()));
    assert!(yes_no(CompleterEvent::Edit("Y".to_string())).is_none());
    assert!(yes_no(CompleterEvent::Edit(String::new())).is_none());
    assert_eq!(hint(yes_no(CompleterEvent::Edit("x".to_string()))), Some(" (y)es, (n)o".to_string()));
    assert_eq!(hint(yes_no(CompleterEvent::Edit("a".to_string()))), Some(" (y)es, (n)o".to_string()));
    assert_eq!(hint(yes_no(CompleterEvent::Suggest("y".to_string()))), Some(" (y)es, (n)o".to_string()));
    assert_eq!(accepted(yes_no(CompleterEvent::Finalize("N".to_string()))), Some("n".to_string()));
    assert_eq!(hint(yes_no(CompleterEvent::Finalize("yes".to_string()))), Some(" (y)es, (n)o".to_string()));
}

#[test]
fn yes_no_all_accepts_all() {
    assert_eq!(hint(yes_no_all(CompleterEvent::Initialize)), Some(" (y)es, (n)o, (a)ll".to_string()));
    assert!(yes_no_all(CompleterEvent::Edit("A".to_string())).is_none());
    assert_eq!(accepted(yes_no_all(CompleterEvent::Finalize("A".to_string()))), Some("a".to_string()));
    assert_eq!(accepted(yes_no_all(CompleterEvent::Finalize("y".to_string()))), Some("y".to_string()));
}

#[test]
fn actions_carry_their_text() {
    match CompleterAction::as_replace("abc", Some("!")) {
        Some(CompleterAction::Replace(i, h)) => assert!(i == "abc" && h == Some("!".to_string())),
        _ => panic!("replace expected"),
    }
    match CompleterAction::as_replace("abc", None) {
        Some(CompleterAction::Replace(i, h)) => assert!(i == "abc" && h.is_none()),
        _ => panic!("replace expected"),
    }
    assert_eq!(accepted(CompleterAction::as_accept("v".to_string())), Some("v".to_string()));
    assert_eq!(hint(CompleterAction::as_hint("h")), Some("h".to_string()));
    assert!(ped::complete::file(CompleterEvent::Finalize("f".to_string())).is_none());
}
