use ped::buffer::{Buffer, GROW_CAPACITY, INIT_CAPACITY};

#[test]
fn new_buffer() {
    let buf = Buffer::new();
    assert_eq!(buf.capacity(), INIT_CAPACITY);
    assert_eq!(buf.size(), 0);
    assert_eq!(buf.get_pos(), 0);
    assert_eq!(buf.gap_len(), buf.capacity());
}

#[test]
fn new_buffer_with_capacity() {
    const CAP: usize = 17;

    let buf = Buffer::with_capacity(CAP);
    assert_eq!(buf.capacity(), CAP);
    assert_eq!(buf.size(), 0);
    assert_eq!(buf.get_pos(), 0);
    assert_eq!(buf.gap_len(), CAP);
}

#[test]
fn clone_buffer() {
    const TEXT: &str = "abcdefghij";

    let mut buf = Buffer::new();
    buf.insert_str(TEXT);
    let cloned_buf = buf.clone();

    assert_eq!(buf.capacity(), cloned_buf.capacity());
    assert_eq!(buf.size(), cloned_buf.size());
    assert_eq!(buf.get_pos(), cloned_buf.get_pos());
    assert_eq!(buf.gap_len(), cloned_buf.gap_len());
    for pos in 0..buf.size() {
        assert_eq!(buf.get_char(pos), cloned_buf.get_char(pos));
    }
}

#[test]
fn grow_buffer() {
    const CAP: usize = 17;

    let mut buf = Buffer::with_capacity(CAP);
    for _ in 0..CAP + 1 {
        buf.insert_char('*');
    }
    assert_eq!(buf.capacity(), GROW_CAPACITY);
    assert_eq!(buf.size(), CAP + 1);
}

#[test]
fn insert_char() {
    let mut buf = Buffer::new();
    let pos = buf.insert_char('a');
    assert_eq!(pos, 1);
    assert_eq!(buf.get_char(0), Some('a'));
    assert_eq!(buf.size(), 1);

    let pos = buf.insert_char('b');
    assert_eq!(pos, 2);
    assert_eq!(buf.get_char(1), Some('b'));
    assert_eq!(buf.size(), 2);

    let pos = buf.set_pos(1);
    assert_eq!(pos, 1);
    let pos = buf.insert_char('c');
    assert_eq!(pos, 2);
    assert_eq!(buf.get_char(0), Some('a'));
    assert_eq!(buf.get_char(1), Some('c'));
    assert_eq!(buf.get_char(2), Some('b'));
    assert_eq!(buf.size(), 3);
}

#[test]
fn insert() {
    let mut buf = Buffer::new();
    let pos = buf.insert(&['a', 'b', 'c']);
    assert_eq!(pos, 3);
    assert_eq!(buf.get_char(0), Some('a'));
    assert_eq!(buf.get_char(1), Some('b'));
    assert_eq!(buf.get_char(2), Some('c'));
    assert_eq!(buf.size(), 3);

    let pos = buf.set_pos(1);
    assert_eq!(pos, 1);
    let pos = buf.insert(&['d', 'e', 'f']);
    assert_eq!(pos, 4);
    assert_eq!(buf.get_char(0), Some('a'));
    assert_eq!(buf.get_char(1), Some('d'));
    assert_eq!(buf.get_char(2), Some('e'));
    assert_eq!(buf.get_char(3), Some('f'));
    assert_eq!(buf.get_char(4), Some('b'));
    assert_eq!(buf.get_char(5), Some('c'));
    assert_eq!(buf.size(), 6);
}

#[test]
fn remove_char() {
    const TEXT: &str = "abcdef";

    let mut buf = Buffer::new();
    let cs = TEXT.chars().collect::<Vec<_>>();
    let _ = buf.insert(&cs);
    assert_eq!(buf.size(), cs.len());

    let pos = buf.set_pos(1);
    assert_eq!(pos, 1);
    let c = buf.remove_char();
    assert_eq!(c, Some('b'));
    assert_eq!(buf.get_char(1), Some('c'));
    assert_eq!(buf.size(), cs.len() - 1);
}

#[test]
fn remove() {
    const TEXT: &str = "abcxyzdef";

    let mut buf = Buffer::new();
    let text = TEXT.chars().collect::<Vec<_>>();
    let _ = buf.insert(&text);
    assert_eq!(buf.size(), text.len());

    let pos = buf.set_pos(3);
    assert_eq!(pos, 3);
    let cs = buf.remove(3);
    assert_eq!(cs, vec!['x', 'y', 'z']);
    assert_eq!(buf.get_char(3), Some('d'));
    assert_eq!(buf.size(), text.len() - 3);

    buf.set_pos(buf.size());
    assert_eq!(buf.remove(1), vec![]);
    buf.set_pos(0);
    assert_eq!(buf.remove(0), vec![]);
}

#[test]
fn copy() {
    const TEXT: &str = "abcdefghijklmnopqrstuvwxyz";

    let mut buf = Buffer::new();
    let text = TEXT.chars().collect::<Vec<_>>();
    let _ = buf.insert(&text);

    // Range entirely before the gap.
    buf.set_pos(10);
    let cs = buf.copy(2, 7);
    assert_eq!(cs, vec!['c', 'd', 'e', 'f', 'g']);

    // Range entirely after the gap.
    let cs = buf.copy(12, 17);
    assert_eq!(cs, vec!['m', 'n', 'o', 'p', 'q']);

    // Range straddling the gap.
    let cs = buf.copy(6, 15);
    assert_eq!(cs, vec!['g', 'h', 'i', 'j', 'k', 'l', 'm', 'n', 'o']);

    // Empty range.
    let cs = buf.copy(10, 10);
    assert_eq!(cs, vec![]);

    // Range beyond the actual size.
    let cs = buf.copy(0, usize::MAX);
    assert_eq!(cs, TEXT.chars().collect::<Vec<_>>());
}

#[test]
fn read_into_buffer() {
    const TEXT: &str = "ƿŠɎĊ\u{96}ȹ·ĽĖ]ɄɁɈǍȶĸĔȚì.İ\u{8c}ĈËĩ·øǮƩŒƆŉȡȅ\u{81}ǫĈ\u{9e}ǞǿDǶǳȦǧž¬Ǿ3ÙģDíĎȪƐŖUƝËǻ";

    let mut buf = Buffer::new();

    let n = buf.read(TEXT.as_bytes());
    assert_eq!(n.ok(), Some(TEXT.chars().count()));

    let mut it = buf.forward(0);
    for b in TEXT.chars() {
        assert_eq!(it.next(), Some(b));
    }
}

#[test]
fn write_from_buffer() {
    const TEXT: &str = "ųų!)\u{98}EÝ×vĶǑǟ²ȋØWÚųțòWůĪĎɎ«ƿǎǓC±ţOƹǅĠ/9ŷŌȈïĚſ°ǼȎ¢2^ÁǑī0ÄgŐĢśŧ¶";

    let mut buf = Buffer::new();
    let _ = buf.insert(&TEXT.chars().collect::<Vec<_>>());

    let bytes = buf.write();
    assert_eq!(bytes.len(), TEXT.len());

    for (a, b) in bytes.into_iter().zip(TEXT.bytes()) {
        assert_eq!(a, b);
    }
}

#[test]
fn forward() {
    const TEXT: &str = "Lorem ipsum dolor sit amet, consectetur porttitor";

    let mut buf = Buffer::new();
    assert_eq!(buf.forward(0).next(), None);

    let cs = TEXT.chars().collect::<Vec<_>>();
    let n = buf.insert(&cs);
    assert_eq!(cs.len(), n);

    let mut it = buf.forward(0);
    for b in cs.iter() {
        assert_eq!(it.next(), Some(*b));
    }

    let pos = buf.set_pos(buf.size() / 2);
    let mut it = buf.forward(buf.get_pos());
    for b in cs[pos..].iter() {
        assert_eq!(it.next(), Some(*b));
    }
}

#[test]
fn forward_with_index() {
    const TEXT: &str = "Lorem ipsum dolor sit amet, consectetur porttitor";

    let mut buf = Buffer::new();
    let cs = TEXT.chars().collect::<Vec<_>>();
    let _ = buf.insert(&cs);

    let mut it = buf.forward(0).index();
    for (b_pos, b) in (0..cs.len()).zip(cs) {
        let (a_pos, a) = it.next().unwrap();
        assert_eq!(a_pos, b_pos);
        assert_eq!(a, b);
    }
}

#[test]
fn backward() {
    const TEXT: &str = "Lorem ipsum dolor sit amet, consectetur porttitor";

    let mut buf = Buffer::new();
    assert_eq!(buf.backward(buf.size()).next(), None);

    let cs = TEXT.chars().collect::<Vec<_>>();
    let n = buf.insert(&cs);
    assert_eq!(cs.len(), n);

    let mut it = buf.backward(buf.size());
    for b in cs.iter().rev() {
        assert_eq!(it.next(), Some(*b));
    }

    let pos = buf.set_pos(buf.size() / 2);
    let mut it = buf.backward(buf.get_pos());
    for b in cs[0..pos].iter().rev() {
        assert_eq!(it.next(), Some(*b));
    }
}

#[test]
fn backward_with_index() {
    const TEXT: &str = "Lorem ipsum dolor sit amet, consectetur porttitor";

    let mut buf = Buffer::new();
    let cs = TEXT.chars().collect::<Vec<_>>();
    let _ = buf.insert(&cs);

    let mut it = buf.backward(buf.size()).index();
    for (b_pos, b) in (0..cs.len()).rev().zip(cs.into_iter().rev()) {
        let (a_pos, a) = it.next().unwrap();
        assert_eq!(a_pos, b_pos);
        assert_eq!(a, b);
    }
}

#[test]
fn find_start_line() {
    const TEXT: &str = "abc\ndef\nghi";

    let mut buf = Buffer::new();
    let cs = TEXT.chars().collect::<Vec<_>>();
    let _ = buf.insert(&cs);

    // All chars in `def\n` range should find the same beginning of line.
    for pos in 4..8 {
        let p = buf.find_start_line(pos);
        assert_eq!(p, 4);
    }

    // All chars in `abc\n` range should find the same beginning of line, which
    // also happens to be beginning of buffer.
    for pos in 0..4 {
        let p = buf.find_start_line(pos);
        assert_eq!(p, 0);
    }
}

#[test]
fn written_bytes_read_back() {
    let mut a = Buffer::new();
    a.insert_str("héllo\nwörld →");
    let bytes = a.write();
    let mut b = Buffer::new();
    assert_eq!(b.read(&bytes).ok(), Some(a.size()));
    assert_eq!(b.copy(0, b.size()), a.copy(0, a.size()));
    assert!(b.read(&[0xff, 0xfe]).is_err());
    assert_eq!(b.size(), a.size());
}
