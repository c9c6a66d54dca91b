use ped::buffer::Buffer;
use ped::etc::{offset_to_pos, pos_to_offset};
use ped::nav::{find_location, find_pos, Location};

fn buffer_of(text: &str) -> Buffer {
    let mut buf = Buffer::new();
    buf.insert_str(text);
    buf
}

#[test]
fn positions_and_locations_convert_back() {
    let buf = buffer_of("ab\ncde\n\nf");
    for p in 0..=buf.size() {
        let loc = find_location(&buf, p);
        assert_eq!(find_pos(&buf, loc), p);
    }
    let loc = Location::new(1, 2);
    assert_eq!(find_location(&buf, find_pos(&buf, loc)), loc);
    assert_eq!(find_pos(&buf, find_location(&buf, 99)), buf.size());
}

#[test]
fn buffer_line_functions_agree() {
    let buf = buffer_of("ab\ncde\n\nf");
    assert_eq!(buf.find_line(0), 0);
    assert_eq!(buf.find_line(1), 3);
    assert_eq!(buf.find_line(2), 7);
    assert_eq!(buf.find_line(3), 8);
    assert_eq!(buf.find_line(4), buf.size());
    for l in 1..=3 {
        assert_eq!(buf.line_of(buf.find_line(l)), l);
    }
    for p in 0..=buf.size() {
        assert_eq!(buf.find_line(buf.line_of(p)), buf.find_start_line(p));
    }
}

#[test]
fn positions_and_offsets_convert_back() {
    let text = "aéb→c";
    for p in 0..8 {
        assert_eq!(offset_to_pos(text, pos_to_offset(text, p)), p.min(5));
    }
    assert_eq!(offset_to_pos("aéb", 2), 2);
}
