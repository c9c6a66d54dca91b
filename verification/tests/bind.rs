use ped::bind::{to_keys, Bindings};
use ped::key::Key;

fn pairs(list: &[(&str, &str)]) -> Vec<(String, String)> {
    list.iter().map(|(k, o)| (k.to_string(), o.to_string())).collect()
}

#[test]
fn key_sequences_with_meta() {
    let keys = match to_keys("C-x:M-a", false) {
        Ok(keys) => keys,
        Err(_) => panic!("keys expected"),
    };
    assert!(keys == vec![Key::Control(24), Key::Control(27), Key::Char('a')]);
    assert!(to_keys("C-x:bogus", false).is_err());
    assert!(to_keys("C-g", true).is_err());
    assert!(to_keys("C-g", false).is_ok());
    assert!(to_keys("ESC", true).is_err());
}

#[test]
fn bound_then_found() {
    let mut b = match Bindings::new(&pairs(&[("C-q", "quit"), ("C-x:C-s", "save-file")])) {
        Ok(b) => b,
        Err(_) => panic!("bindings expected"),
    };
    assert_eq!(b.find(&vec![Key::Control(17)]), Some(&"quit".to_string()));
    assert!(b.is_prefix(&vec![Key::Control(24)]));
    assert!(!b.is_prefix(&vec![Key::Control(17)]));
    assert!(b.bind("C-q", "help").is_err());
    assert!(b.bind("C-h", "no-such-op").is_err());
    assert!(b.bind("C-h", "help").is_ok());
    assert_eq!(b.find(&vec![Key::Control(8)]), Some(&"help".to_string()));
    assert_eq!(b.find_key("help"), vec![vec![Key::Control(8)]]);
    assert!(b.bind("C-h", "quit").is_ok());
    assert_eq!(b.find(&vec![Key::Control(8)]), Some(&"quit".to_string()));
    assert_eq!(b.find_key("help"), Vec::<Vec<Key>>::new());
}

#[test]
fn invalid_op_rejected() {
    assert!(Bindings::new(&pairs(&[("C-a", "nothing-at-all")])).is_err());
    assert!(Bindings::new(&pairs(&[("C-?x", "quit")])).is_err());
}
