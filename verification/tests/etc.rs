use ped::etc::{len_utf8, offset_to_pos, pos_to_offset, version};

#[test]
fn positions_and_offsets() {
    let s = "aé😀b";
    assert_eq!(pos_to_offset(s, 0), 0);
    assert_eq!(pos_to_offset(s, 2), 3);
    assert_eq!(pos_to_offset(s, 3), 7);
    assert_eq!(pos_to_offset(s, 99), s.len());
    assert_eq!(offset_to_pos(s, 3), 2);
    assert_eq!(offset_to_pos(s, 7), 3);
    assert_eq!(offset_to_pos(s, 99), 4);
    assert_eq!(len_utf8('😀'), 4);
}

#[test]
fn version_text() {
    assert_eq!(
        version("ped", "0.1.0", "0123456789abcdef", "2024-01-01"),
        "ped 0.1.0 (0123456 2024-01-01)"
    );
}
