use ped::buffer::Buffer;
use ped::nav::{find_location, find_next_line, find_pos, find_start_line, Location};

#[test]
fn find_location_of_pos() {
    const TEXT: &str = "Lorem\nipsum\ndolor\nsit\namet,\nconsectetur\nporttitor";

    let mut buf = Buffer::new();
    buf.insert_str(TEXT);

    // Beginning of buffer is always (0, 0).
    let loc = find_location(&buf, 0);
    assert_eq!(loc.line, 0);
    assert_eq!(loc.col, 0);

    // Check EOL boundary.
    let loc = find_location(&buf, 11);
    assert_eq!(loc.line, 1);
    assert_eq!(loc.col, 5);
    let loc = find_location(&buf, 12);
    assert_eq!(loc.line, 2);
    assert_eq!(loc.col, 0);

    // Check somewhere in middle of buffer.
    let loc = find_location(&buf, 14);
    assert_eq!(loc.line, 2);
    assert_eq!(loc.col, 2);

    // Positions beyond end of buffer are bounded.
    let loc = find_location(&buf, usize::MAX);
    assert_eq!(loc.line, 6);
    assert_eq!(loc.col, 9);
}

#[test]
fn find_pos_of_location() {
    const TEXT: &str = "Lorem\nipsum\ndolor\nsit\namet,\nconsectetur\nporttitor";

    let mut buf = Buffer::new();
    buf.insert_str(TEXT);

    // Check normal and edge cases from beginning of buffer.
    let pos = find_pos(&buf, Location::new(0, 3));
    assert_eq!(pos, 3);
    let pos = find_pos(&buf, Location::new(0, 10));
    assert_eq!(pos, 5);

    // Check normal and edge cases from middle of buffer.
    let pos = find_pos(&buf, Location::new(2, 2));
    assert_eq!(pos, 14);
    let pos = find_pos(&buf, Location::new(2, 10));
    assert_eq!(pos, 17);

    // Check normal and edge cases near end of buffer.
    let pos = find_pos(&buf, Location::new(6, 5));
    assert_eq!(pos, 45);
    let pos = find_pos(&buf, Location::new(6, 10));
    assert_eq!(pos, buf.size());
}

#[test]
fn find_start_line_pos() {
    const TEXT: &str = "abc\ndef\nghi";

    let mut buf = Buffer::new();
    buf.insert_str(TEXT);

    // All chars in `def\n` range should find the same beginning of line.
    for pos in 4..8 {
        let p = find_start_line(&buf, pos);
        assert_eq!(p, 4);
    }

    // All chars in `abc\n` range should find the same beginning of line, which
    // also happens to be beginning of buffer.
    for pos in 0..4 {
        let p = find_start_line(&buf, pos);
        assert_eq!(p, 0);
    }
}

#[test]
fn find_next_line_pos() {
    const TEXT: &str = "abc\ndef\nghi";

    let mut buf = Buffer::new();
    buf.insert_str(TEXT);

    // All chars in `def\n` range should find the same next line.
    for pos in 4..8 {
        let (p, eob) = find_next_line(&buf, pos);
        assert_eq!(p, 8);
        assert!(!eob);
    }

    // All chars in `ghi` range should yield the end of buffer position.
    for pos in 8..11 {
        let (p, eob) = find_next_line(&buf, pos);
        assert_eq!(p, 11);
        assert!(eob);
    }
}
