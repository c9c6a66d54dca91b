use ped::key::{key_named, pretty, Ctrl, Key, Shift};

#[test]
fn names_round_trip() {
    assert_eq!(Key::Control(1).name(), "C-a");
    assert_eq!(key_named("C-a"), Some(Key::Control(1)));
    assert_eq!(key_named("nope"), None);
    assert_eq!(Key::Up(Shift::On, Ctrl::On).name(), "S-C-up");
}

#[test]
fn pretty_sequences() {
    assert_eq!(pretty(&[Key::Control(24), Key::Control(19)]), "C-x C-s");
    assert_eq!(pretty(&[Key::Control(27), Key::Char('a')]), "M-a");
}
