use ped::error::Error;
use ped::key::{Ctrl, Key, Keyboard, Shift};
use std::iter::once;

#[test]
fn read_empty() {
    let mut keyb = keyboard(vec![]);
    assert_eq!(keyb.read().unwrap(), Key::Nothing);
}

#[test]
fn read_ascii_chars() {
    let input: Vec<u8> = (32..127).collect();
    let mut keyb = keyboard(input.clone());
    for c in input {
        let key = keyb.read().unwrap();
        assert_eq!(key, Key::Char(c as char));
    }
    assert_eq!(keyb.read().unwrap(), Key::Nothing);
}

#[test]
fn read_control_chars() {
    let input: Vec<u8> = (0..27).chain(28..32).chain(once(127)).collect();
    let mut keyb = keyboard(input.clone());
    for c in input {
        let key = keyb.read().unwrap();
        assert_eq!(key, Key::Control(c));
    }
    assert_eq!(keyb.read().unwrap(), Key::Nothing);
}

#[test]
fn read_escape() {
    let mut keyb = keyboard(vec![27]);
    assert_eq!(keyb.read().unwrap(), Key::Control(27));
    assert_eq!(keyb.read().unwrap(), Key::Nothing);
}

#[test]
fn read_unicode_chars() {
    const INPUT: &str = "«ƿǎǓ±ţƹǅĠŷŌȈïĚſ°ǼȎ¢ÁǑī0ÄŐĢśŧ¶";
    let mut keyb = keyboard(INPUT.as_bytes().to_vec());
    for c in INPUT.chars() {
        let key = keyb.read().unwrap();
        assert_eq!(key, Key::Char(c));
    }
    assert_eq!(keyb.read().unwrap(), Key::Nothing);
}

#[test]
fn read_malformed_unicode() {
    const MALFORMED_UNICODE: [u8; 4] = [0xf0, 0x90, 0x80, 0x28];
    let mut keyb = keyboard(MALFORMED_UNICODE.to_vec());
    match keyb.read() {
        Err(Error::Utf8 { bytes, cause: _ }) => {
            assert_eq!(bytes, MALFORMED_UNICODE);
        }
        Err(e) => panic!("{e:?}: error not expected"),
        Ok(key) => panic!("{}: expecting UTF-8 decoding error", key.name()),
    }
}

#[test]
fn read_keys() {
    const TESTS: [(&str, Key); 133] = [
        // Key: Insert
        // -- SHIFT off, CTRL off
        ("\x1b[2~", Key::Insert(Shift::Off, Ctrl::Off)),
        // -- SHIFT on, CTRL off
        ("\x1b[2;2~", Key::Insert(Shift::On, Ctrl::Off)),
        // -- SHIFT off, CTRL on
        ("\x1b[2;5~", Key::Insert(Shift::Off, Ctrl::On)),
        // -- SHIFT on, CTRL on
        ("\x1b[2;6~", Key::Insert(Shift::On, Ctrl::On)),

        // Key: Delete
        // -- SHIFT off, CTRL off
        ("\x1b[3~", Key::Delete(Shift::Off, Ctrl::Off)),
        // -- SHIFT on, CTRL off
        ("\x1b[3;2~", Key::Delete(Shift::On, Ctrl::Off)),
        // -- SHIFT off, CTRL on
        ("\x1b[3;5~", Key::Delete(Shift::Off, Ctrl::On)),
        // -- SHIFT on, CTRL on
        ("\x1b[3;6~", Key::Delete(Shift::On, Ctrl::On)),

        // Key: Tab
        // -- SHIFT on
        ("\x1b[Z", Key::ReverseTab),

        // Key: Up
        // -- SHIFT off, CTRL off
        ("\x1b[A", Key::Up(Shift::Off, Ctrl::Off)),
        ("\x1b[1A", Key::Up(Shift::Off, Ctrl::Off)),
        ("\x1b[1;1A", Key::Up(Shift::Off, Ctrl::Off)),
        ("\x1bOA", Key::Up(Shift::Off, Ctrl::Off)),
        // -- SHIFT on, CTRL off
        ("\x1b[2A", Key::Up(Shift::On, Ctrl::Off)),
        ("\x1b[1;2A", Key::Up(Shift::On, Ctrl::Off)),
        // -- SHIFT off, CTRL on
        ("\x1b[5A", Key::Up(Shift::Off, Ctrl::On)),
        ("\x1b[1;5A", Key::Up(Shift::Off, Ctrl::On)),
        // -- SHIFT on, CTRL on
        ("\x1b[6A", Key::Up(Shift::On, Ctrl::On)),
        ("\x1b[1;6A", Key::Up(Shift::On, Ctrl::On)),

        // Key: Down
        // -- SHIFT off, CTRL off
        ("\x1b[B", Key::Down(Shift::Off, Ctrl::Off)),
        ("\x1b[1B", Key::Down(Shift::Off, Ctrl::Off)),
        ("\x1b[1;1B", Key::Down(Shift::Off, Ctrl::Off)),
        ("\x1bOB", Key::Down(Shift::Off, Ctrl::Off)),
        // -- SHIFT on, CTRL off
        ("\x1b[2B", Key::Down(Shift::On, Ctrl::Off)),
        ("\x1b[1;2B", Key::Down(Shift::On, Ctrl::Off)),
        // -- SHIFT off, CTRL on
        ("\x1b[5B", Key::Down(Shift::Off, Ctrl::On)),
        ("\x1b[1;5B", Key::Down(Shift::Off, Ctrl::On)),
        // -- SHIFT on, CTRL on
        ("\x1b[6B", Key::Down(Shift::On, Ctrl::On)),
        ("\x1b[1;6B", Key::Down(Shift::On, Ctrl::On)),

        // Key: Right
        // -- SHIFT off, CTRL off
        ("\x1b[C", Key::Right(Shift::Off, Ctrl::Off)),
        ("\x1b[1C", Key::Right(Shift::Off, Ctrl::Off)),
        ("\x1b[1;1C", Key::Right(Shift::Off, Ctrl::Off)),
        ("\x1bOC", Key::Right(Shift::Off, Ctrl::Off)),
        // -- SHIFT on, CTRL off
        ("\x1b[2C", Key::Right(Shift::On, Ctrl::Off)),
        ("\x1b[1;2C", Key::Right(Shift::On, Ctrl::Off)),
        // -- SHIFT off, CTRL on
        ("\x1b[5C", Key::Right(Shift::Off, Ctrl::On)),
        ("\x1b[1;5C", Key::Right(Shift::Off, Ctrl::On)),
        // -- SHIFT on, CTRL on
        ("\x1b[6C", Key::Right(Shift::On, Ctrl::On)),
        ("\x1b[1;6C", Key::Right(Shift::On, Ctrl::On)),

        // Key: Left
        // -- SHIFT off, CTRL off
        ("\x1b[D", Key::Left(Shift::Off, Ctrl::Off)),
        ("\x1b[1D", Key::Left(Shift::Off, Ctrl::Off)),
        ("\x1b[1;1D", Key::Left(Shift::Off, Ctrl::Off)),
        ("\x1bOD", Key::Left(Shift::Off, Ctrl::Off)),
        // -- SHIFT on, CTRL off
        ("\x1b[2D", Key::Left(Shift::On, Ctrl::Off)),
        ("\x1b[1;2D", Key::Left(Shift::On, Ctrl::Off)),
        // -- SHIFT off, CTRL on
        ("\x1b[5D", Key::Left(Shift::Off, Ctrl::On)),
        ("\x1b[1;5D", Key::Left(Shift::Off, Ctrl::On)),
        // -- SHIFT on, CTRL on
        ("\x1b[6D", Key::Left(Shift::On, Ctrl::On)),
        ("\x1b[1;6D", Key::Left(Shift::On, Ctrl::On)),

        // Key: End
        // -- SHIFT off, CTRL off
        ("\x1b[4~", Key::End(Shift::Off, Ctrl::Off)),
        ("\x1b[8~", Key::End(Shift::Off, Ctrl::Off)),
        ("\x1b[F", Key::End(Shift::Off, Ctrl::Off)),
        ("\x1b[1F", Key::End(Shift::Off, Ctrl::Off)),
        ("\x1b[1;1F", Key::End(Shift::Off, Ctrl::Off)),
        ("\x1bOF", Key::End(Shift::Off, Ctrl::Off)),
        // -- SHIFT on, CTRL off
        ("\x1b[4;2~", Key::End(Shift::On, Ctrl::Off)),
        ("\x1b[8;2~", Key::End(Shift::On, Ctrl::Off)),
        ("\x1b[2F", Key::End(Shift::On, Ctrl::Off)),
        ("\x1b[1;2F", Key::End(Shift::On, Ctrl::Off)),
        // -- SHIFT off, CTRL on
        ("\x1b[4;5~", Key::End(Shift::Off, Ctrl::On)),
        ("\x1b[8;5~", Key::End(Shift::Off, Ctrl::On)),
        ("\x1b[5F", Key::End(Shift::Off, Ctrl::On)),
        ("\x1b[1;5F", Key::End(Shift::Off, Ctrl::On)),
        // -- SHIFT on, CTRL on
        ("\x1b[4;6~", Key::End(Shift::On, Ctrl::On)),
        ("\x1b[8;6~", Key::End(Shift::On, Ctrl::On)),
        ("\x1b[6F", Key::End(Shift::On, Ctrl::On)),
        ("\x1b[1;6F", Key::End(Shift::On, Ctrl::On)),

        // Key: Home
        // -- SHIFT off, CTRL off
        ("\x1b[1~", Key::Home(Shift::Off, Ctrl::Off)),
        ("\x1b[7~", Key::Home(Shift::Off, Ctrl::Off)),
        ("\x1b[H", Key::Home(Shift::Off, Ctrl::Off)),
        ("\x1b[1H", Key::Home(Shift::Off, Ctrl::Off)),
        ("\x1b[1;1H", Key::Home(Shift::Off, Ctrl::Off)),
        ("\x1bOH", Key::Home(Shift::Off, Ctrl::Off)),
        // -- SHIFT on, CTRL off
        ("\x1b[1;2~", Key::Home(Shift::On, Ctrl::Off)),
        ("\x1b[7;2~", Key::Home(Shift::On, Ctrl::Off)),
        ("\x1b[2H", Key::Home(Shift::On, Ctrl::Off)),
        ("\x1b[1;2H", Key::Home(Shift::On, Ctrl::Off)),
        // -- SHIFT off, CTRL on
        ("\x1b[1;5~", Key::Home(Shift::Off, Ctrl::On)),
        ("\x1b[7;5~", Key::Home(Shift::Off, Ctrl::On)),
        ("\x1b[5H", Key::Home(Shift::Off, Ctrl::On)),
        ("\x1b[1;5H", Key::Home(Shift::Off, Ctrl::On)),
        // -- SHIFT on, CTRL on
        ("\x1b[1;6~", Key::Home(Shift::On, Ctrl::On)),
        ("\x1b[7;6~", Key::Home(Shift::On, Ctrl::On)),
        ("\x1b[6H", Key::Home(Shift::On, Ctrl::On)),
        ("\x1b[1;6H", Key::Home(Shift::On, Ctrl::On)),

        // Key: PageUp
        // -- SHIFT off, CTRL off
        ("\x1b[5~", Key::PageUp(Shift::Off, Ctrl::Off)),
        // -- SHIFT on, CTRL off
        ("\x1b[5;2~", Key::PageUp(Shift::On, Ctrl::Off)),
        // -- SHIFT off, CTRL on
        ("\x1b[5;5~", Key::PageUp(Shift::Off, Ctrl::On)),
        // -- SHIFT on, CTRL on
        ("\x1b[5;6~", Key::PageUp(Shift::On, Ctrl::On)),

        // Key: PageDown
        // -- SHIFT off, CTRL off
        ("\x1b[6~", Key::PageDown(Shift::Off, Ctrl::Off)),
        // -- SHIFT on, CTRL off
        ("\x1b[6;2~", Key::PageDown(Shift::On, Ctrl::Off)),
        // -- SHIFT off, CTRL on
        ("\x1b[6;5~", Key::PageDown(Shift::Off, Ctrl::On)),
        // -- SHIFT on, CTRL on
        ("\x1b[6;6~", Key::PageDown(Shift::On, Ctrl::On)),

        // Key: F1
        ("\x1b[11~", Key::Function(1)),
        ("\x1bOP", Key::Function(1)),
        ("\x1b[1P", Key::Function(1)),

        // Key: F2
        ("\x1b[12~", Key::Function(2)),
        ("\x1bOQ", Key::Function(2)),
        ("\x1b[1Q", Key::Function(2)),

        // Key: F3
        ("\x1b[13~", Key::Function(3)),
        ("\x1bOR", Key::Function(3)),
        ("\x1b[1R", Key::Function(3)),

        // Key: F4
        ("\x1b[14~", Key::Function(4)),
        ("\x1bOS", Key::Function(4)),
        ("\x1b[1S", Key::Function(4)),

        // Key: F5-F20
        ("\x1b[15~", Key::Function(5)),
        ("\x1b[17~", Key::Function(6)),
        ("\x1b[18~", Key::Function(7)),
        ("\x1b[19~", Key::Function(8)),
        ("\x1b[20~", Key::Function(9)),
        ("\x1b[21~", Key::Function(10)),
        ("\x1b[23~", Key::Function(11)),
        ("\x1b[24~", Key::Function(12)),
        ("\x1b[25~", Key::Function(13)),
        ("\x1b[26~", Key::Function(14)),
        ("\x1b[28~", Key::Function(15)),
        ("\x1b[29~", Key::Function(16)),
        ("\x1b[31~", Key::Function(17)),
        ("\x1b[32~", Key::Function(18)),
        ("\x1b[33~", Key::Function(19)),
        ("\x1b[34~", Key::Function(20)),

        // Key: ButtonPress
        ("\x1b[<0;1;1M", Key::ButtonPress(0, 0)),
        ("\x1b[<0;7;9M", Key::ButtonPress(8, 6)),

        // Key: ButtonRelease
        ("\x1b[<0;1;1m", Key::ButtonRelease(0, 0)),
        ("\x1b[<0;24;87m", Key::ButtonRelease(86, 23)),

        // Key: ScrollUp
        // -- SHIFT off
        ("\x1b[<64;1;2M", Key::ScrollUp(Shift::Off, 1, 0)),
        // -- SHIFT on
        ("\x1b[<68;1;2M", Key::ScrollUp(Shift::On, 1, 0)),

        // Key: ScrollDown
        // -- SHIFT off
        ("\x1b[<65;2;3M", Key::ScrollDown(Shift::Off, 2, 1)),
        // -- SHIFT on
        ("\x1b[<69;2;3M", Key::ScrollDown(Shift::On, 2, 1)),

        // Key: ScrollRight
        // -- SHIFT off
        ("\x1b[<66;3;4M", Key::ScrollRight(Shift::Off, 3, 2)),
        // -- SHIFT on
        ("\x1b[<70;3;4M", Key::ScrollRight(Shift::On, 3, 2)),

        // Key: ScrollLeft
        // -- SHIFT off
        ("\x1b[<67;4;5M", Key::ScrollLeft(Shift::Off, 4, 3)),
        // -- SHIFT on
        ("\x1b[<71;4;5M", Key::ScrollLeft(Shift::On, 4, 3)),
    ];

    for (input, k) in TESTS {
        verify_input_done(input, k);
    }
}

#[test]
fn read_incorrect_csi_xterm() {
    const TESTS: [&str; 7] = [
        "\x1b[~",
        "\x1b[1",
        "\x1b[1;",
        "\x1b[1;~",
        "\x1b[;1~",
        "\x1b[1;2",
        "\x1b[1;Z~",
    ];
    for input in TESTS {
        verify_input(input, Key::Nothing);
    }
}

#[test]
fn read_incorrect_csi_vt() {
    const TESTS: [&str; 7] = [
        "\x1b[a",
        "\x1b[1b",
        "\x1b[3E",
        "\x1b[3;A",
        "\x1b[;3A",
        "\x1b[;A",
        "\x1b[2;3A",
    ];
    for input in TESTS {
        verify_input(input, Key::Nothing);
    }
}

#[test]
fn read_incorrect_ss3() {
    const TESTS: [&str; 6] = [
        "\x1b[Oa",
        "\x1b[OE",
        "\x1b[OZ",
        "\x1b[O#",
        "\x1b[O ",
        "\x1b[O\x1b",
    ];
    for input in TESTS {
        verify_input(input, Key::Nothing);
    }
}

#[test]
fn read_incorrect_csi_mouse() {
    const TESTS: [&str; 10] = [
        "\x1b[<",
        "\x1b[<0;1;3?",
        "\x1b[<0m",
        "\x1b[<0;1m",
        "\x1b[<0M",
        "\x1b[<0;M",
        "\x1b[<;1M",
        "\x1b[<0;1M",
        "\x1b[<0;1;M",
        "\x1b[<0;;M",
    ];
    for input in TESTS {
        verify_input(input, Key::Nothing);
    }
}

fn keyboard(input: Vec<u8>) -> Keyboard {
    let mut keyb = Keyboard::new();
    keyb.feed(&input);
    keyb
}

fn verify_input(input: &str, expect_key: Key) -> Keyboard {
    let mut keyb = keyboard(input.as_bytes().to_vec());
    let key = keyb.read().unwrap();
    assert_eq!(key, expect_key, "input: {}", escape_str(input));
    keyb
}

fn verify_input_done(input: &str, expect_key: Key) {
    let mut keyb = verify_input(input, expect_key);
    let key = keyb.read().unwrap();
    assert_eq!(key, Key::Nothing, "input: {}", escape_str(input));
}

fn escape_str(s: &str) -> String {
    s.escape_default().collect()
}

#[test]
fn read_out_of_range_codes() {
    let mut keyb = keyboard(b"\x1b[256A\x1b[1;256A\x1b[300~\x1b[1;2A".to_vec());
    assert_eq!(keyb.read().unwrap(), Key::Nothing);
    assert_eq!(keyb.read().unwrap(), Key::Nothing);
    assert_eq!(keyb.read().unwrap(), Key::Nothing);
    assert_eq!(keyb.read().unwrap(), Key::Up(Shift::On, Ctrl::Off));
    assert_eq!(keyb.read().unwrap(), Key::Nothing);
}
