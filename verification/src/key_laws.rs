//! Laws about the names of keys.

use crate::key::{key_name, key_of_name, Ctrl, Key, Shift};
use vstd::prelude::*;

verus! {

/// The characters of the names that [`key_of_name`] knows, and of the prefixes
/// that [`key_name`] puts together.
proof fn lemma_name_literals()
    ensures
        "C-@"@ == seq!['C', '-', '@'],
        "C-a"@ == seq!['C', '-', 'a'],
        "C-b"@ == seq!['C', '-', 'b'],
        "C-c"@ == seq!['C', '-', 'c'],
        "C-d"@ == seq!['C', '-', 'd'],
        "C-e"@ == seq!['C', '-', 'e'],
        "C-f"@ == seq!['C', '-', 'f'],
        "C-g"@ == seq!['C', '-', 'g'],
        "C-h"@ == seq!['C', '-', 'h'],
        "C-i"@ == seq!['C', '-', 'i'],
        "tab"@ == seq!['t', 'a', 'b'],
        "C-j"@ == seq!['C', '-', 'j'],
        "C-k"@ == seq!['C', '-', 'k'],
        "C-l"@ == seq!['C', '-', 'l'],
        "C-m"@ == seq!['C', '-', 'm'],
        "ret"@ == seq!['r', 'e', 't'],
        "C-n"@ == seq!['C', '-', 'n'],
        "C-o"@ == seq!['C', '-', 'o'],
        "C-p"@ == seq!['C', '-', 'p'],
        "C-q"@ == seq!['C', '-', 'q'],
        "C-r"@ == seq!['C', '-', 'r'],
        "C-s"@ == seq!['C', '-', 's'],
        "C-t"@ == seq!['C', '-', 't'],
        "C-u"@ == seq!['C', '-', 'u'],
        "C-v"@ == seq!['C', '-', 'v'],
        "C-w"@ == seq!['C', '-', 'w'],
        "C-x"@ == seq!['C', '-', 'x'],
        "C-y"@ == seq!['C', '-', 'y'],
        "C-z"@ == seq!['C', '-', 'z'],
        "C-["@ == seq!['C', '-', '['],
        "ESC"@ == seq!['E', 'S', 'C'],
        "C-\\"@ == seq!['C', '-', '\\'],
        "C-]"@ == seq!['C', '-', ']'],
        "C-^"@ == seq!['C', '-', '^'],
        "C-_"@ == seq!['C', '-', '_'],
        "C-?"@ == seq!['C', '-', '?'],
        "del"@ == seq!['d', 'e', 'l'],
        "S-tab"@ == seq!['S', '-', 't', 'a', 'b'],
        "insert"@ == seq!['i', 'n', 's', 'e', 'r', 't'],
        "S-insert"@ == seq!['S', '-', 'i', 'n', 's', 'e', 'r', 't'],
        "C-insert"@ == seq!['C', '-', 'i', 'n', 's', 'e', 'r', 't'],
        "S-C-insert"@ == seq!['S', '-', 'C', '-', 'i', 'n', 's', 'e', 'r', 't'],
        "delete"@ == seq!['d', 'e', 'l', 'e', 't', 'e'],
        "S-delete"@ == seq!['S', '-', 'd', 'e', 'l', 'e', 't', 'e'],
        "C-delete"@ == seq!['C', '-', 'd', 'e', 'l', 'e', 't', 'e'],
        "S-C-delete"@ == seq!['S', '-', 'C', '-', 'd', 'e', 'l', 'e', 't', 'e'],
        "up"@ == seq!['u', 'p'],
        "S-up"@ == seq!['S', '-', 'u', 'p'],
        "C-up"@ == seq!['C', '-', 'u', 'p'],
        "S-C-up"@ == seq!['S', '-', 'C', '-', 'u', 'p'],
        "down"@ == seq!['d', 'o', 'w', 'n'],
        "S-down"@ == seq!['S', '-', 'd', 'o', 'w', 'n'],
        "C-down"@ == seq!['C', '-', 'd', 'o', 'w', 'n'],
        "S-C-down"@ == seq!['S', '-', 'C', '-', 'd', 'o', 'w', 'n'],
        "left"@ == seq!['l', 'e', 'f', 't'],
        "S-left"@ == seq!['S', '-', 'l', 'e', 'f', 't'],
        "C-left"@ == seq!['C', '-', 'l', 'e', 'f', 't'],
        "S-C-left"@ == seq!['S', '-', 'C', '-', 'l', 'e', 'f', 't'],
        "right"@ == seq!['r', 'i', 'g', 'h', 't'],
        "S-right"@ == seq!['S', '-', 'r', 'i', 'g', 'h', 't'],
        "C-right"@ == seq!['C', '-', 'r', 'i', 'g', 'h', 't'],
        "S-C-right"@ == seq!['S', '-', 'C', '-', 'r', 'i', 'g', 'h', 't'],
        "home"@ == seq!['h', 'o', 'm', 'e'],
        "S-home"@ == seq!['S', '-', 'h', 'o', 'm', 'e'],
        "C-home"@ == seq!['C', '-', 'h', 'o', 'm', 'e'],
        "S-C-home"@ == seq!['S', '-', 'C', '-', 'h', 'o', 'm', 'e'],
        "end"@ == seq!['e', 'n', 'd'],
        "S-end"@ == seq!['S', '-', 'e', 'n', 'd'],
        "C-end"@ == seq!['C', '-', 'e', 'n', 'd'],
        "S-C-end"@ == seq!['S', '-', 'C', '-', 'e', 'n', 'd'],
        "pg_up"@ == seq!['p', 'g', '_', 'u', 'p'],
        "S-pg_up"@ == seq!['S', '-', 'p', 'g', '_', 'u', 'p'],
        "C-pg_up"@ == seq!['C', '-', 'p', 'g', '_', 'u', 'p'],
        "S-C-pg_up"@ == seq!['S', '-', 'C', '-', 'p', 'g', '_', 'u', 'p'],
        "pg_down"@ == seq!['p', 'g', '_', 'd', 'o', 'w', 'n'],
        "S-pg_down"@ == seq!['S', '-', 'p', 'g', '_', 'd', 'o', 'w', 'n'],
        "C-pg_down"@ == seq!['C', '-', 'p', 'g', '_', 'd', 'o', 'w', 'n'],
        "S-C-pg_down"@ == seq!['S', '-', 'C', '-', 'p', 'g', '_', 'd', 'o', 'w', 'n'],
        "F1"@ == seq!['F', '1'],
        "F2"@ == seq!['F', '2'],
        "F3"@ == seq!['F', '3'],
        "F4"@ == seq!['F', '4'],
        "F5"@ == seq!['F', '5'],
        "F6"@ == seq!['F', '6'],
        "F7"@ == seq!['F', '7'],
        "F8"@ == seq!['F', '8'],
        "F9"@ == seq!['F', '9'],
        "F10"@ == seq!['F', '1', '0'],
        "F11"@ == seq!['F', '1', '1'],
        "F12"@ == seq!['F', '1', '2'],
        "F13"@ == seq!['F', '1', '3'],
        "F14"@ == seq!['F', '1', '4'],
        "F15"@ == seq!['F', '1', '5'],
        "F16"@ == seq!['F', '1', '6'],
        "F17"@ == seq!['F', '1', '7'],
        "F18"@ == seq!['F', '1', '8'],
        "F19"@ == seq!['F', '1', '9'],
        "F20"@ == seq!['F', '2', '0'],
        "S-"@ == seq!['S', '-'],
        "C-"@ == seq!['C', '-'],
        "F"@ == seq!['F'],
{
    reveal_strlit("C-@");
    reveal_strlit("C-a");
    reveal_strlit("C-b");
    reveal_strlit("C-c");
    reveal_strlit("C-d");
    reveal_strlit("C-e");
    reveal_strlit("C-f");
    reveal_strlit("C-g");
    reveal_strlit("C-h");
    reveal_strlit("C-i");
    reveal_strlit("tab");
    reveal_strlit("C-j");
    reveal_strlit("C-k");
    reveal_strlit("C-l");
    reveal_strlit("C-m");
    reveal_strlit("ret");
    reveal_strlit("C-n");
    reveal_strlit("C-o");
    reveal_strlit("C-p");
    reveal_strlit("C-q");
    reveal_strlit("C-r");
    reveal_strlit("C-s");
    reveal_strlit("C-t");
    reveal_strlit("C-u");
    reveal_strlit("C-v");
    reveal_strlit("C-w");
    reveal_strlit("C-x");
    reveal_strlit("C-y");
    reveal_strlit("C-z");
    reveal_strlit("C-[");
    reveal_strlit("ESC");
    reveal_strlit("C-\\");
    reveal_strlit("C-]");
    reveal_strlit("C-^");
    reveal_strlit("C-_");
    reveal_strlit("C-?");
    reveal_strlit("del");
    reveal_strlit("S-tab");
    reveal_strlit("insert");
    reveal_strlit("S-insert");
    reveal_strlit("C-insert");
    reveal_strlit("S-C-insert");
    reveal_strlit("delete");
    reveal_strlit("S-delete");
    reveal_strlit("C-delete");
    reveal_strlit("S-C-delete");
    reveal_strlit("up");
    reveal_strlit("S-up");
    reveal_strlit("C-up");
    reveal_strlit("S-C-up");
    reveal_strlit("down");
    reveal_strlit("S-down");
    reveal_strlit("C-down");
    reveal_strlit("S-C-down");
    reveal_strlit("left");
    reveal_strlit("S-left");
    reveal_strlit("C-left");
    reveal_strlit("S-C-left");
    reveal_strlit("right");
    reveal_strlit("S-right");
    reveal_strlit("C-right");
    reveal_strlit("S-C-right");
    reveal_strlit("home");
    reveal_strlit("S-home");
    reveal_strlit("C-home");
    reveal_strlit("S-C-home");
    reveal_strlit("end");
    reveal_strlit("S-end");
    reveal_strlit("C-end");
    reveal_strlit("S-C-end");
    reveal_strlit("pg_up");
    reveal_strlit("S-pg_up");
    reveal_strlit("C-pg_up");
    reveal_strlit("S-C-pg_up");
    reveal_strlit("pg_down");
    reveal_strlit("S-pg_down");
    reveal_strlit("C-pg_down");
    reveal_strlit("S-C-pg_down");
    reveal_strlit("F1");
    reveal_strlit("F2");
    reveal_strlit("F3");
    reveal_strlit("F4");
    reveal_strlit("F5");
    reveal_strlit("F6");
    reveal_strlit("F7");
    reveal_strlit("F8");
    reveal_strlit("F9");
    reveal_strlit("F10");
    reveal_strlit("F11");
    reveal_strlit("F12");
    reveal_strlit("F13");
    reveal_strlit("F14");
    reveal_strlit("F15");
    reveal_strlit("F16");
    reveal_strlit("F17");
    reveal_strlit("F18");
    reveal_strlit("F19");
    reveal_strlit("F20");
    reveal_strlit("S-");
    reveal_strlit("C-");
    reveal_strlit("F");
}

/// `k` is a key that has a predefined name: a control code, `S-tab`, an editing or
/// motion key with any modifiers, or one of the function keys `F1` to `F20`.
pub open spec fn named_key(k: Key) -> bool {
    match k {
        Key::Control(b) => b < 32 || b == 127,
        Key::ReverseTab => true,
        Key::Insert(_, _) | Key::Delete(_, _) | Key::Up(_, _) | Key::Down(_, _) | Key::Left(_, _) | Key::Right(_, _)
        | Key::Home(_, _) | Key::End(_, _) | Key::PageUp(_, _) | Key::PageDown(_, _) => true,
        Key::Function(n) => 1 <= n <= 20,
        _ => false,
    }
}

proof fn lemma_control_round_trip(b: u8)
    requires
        b < 32 || b == 127,
    ensures
        key_of_name(key_name(Key::Control(b))) == Some(Key::Control(b)),
{
    lemma_name_literals();
    if b == 0 {
        assert(key_name(Key::Control(0)) =~= "C-@"@);
    } else if b == 1 {
        assert(key_name(Key::Control(1)) =~= "C-a"@);
        assert("C-a"@[2] != "C-@"@[2]);
    } else if b == 2 {
        assert(key_name(Key::Control(2)) =~= "C-b"@);
        assert("C-b"@[2] != "C-@"@[2]);
        assert("C-b"@[2] != "C-a"@[2]);
    } else if b == 3 {
        assert(key_name(Key::Control(3)) =~= "C-c"@);
        assert("C-c"@[2] != "C-@"@[2]);
        assert("C-c"@[2] != "C-a"@[2]);
        assert("C-c"@[2] != "C-b"@[2]);
    } else if b == 4 {
        assert(key_name(Key::Control(4)) =~= "C-d"@);
        assert("C-d"@[2] != "C-@"@[2]);
        assert("C-d"@[2] != "C-a"@[2]);
        assert("C-d"@[2] != "C-b"@[2]);
        assert("C-d"@[2] != "C-c"@[2]);
    } else if b == 5 {
        assert(key_name(Key::Control(5)) =~= "C-e"@);
        assert("C-e"@[2] != "C-@"@[2]);
        assert("C-e"@[2] != "C-a"@[2]);
        assert("C-e"@[2] != "C-b"@[2]);
        assert("C-e"@[2] != "C-c"@[2]);
        assert("C-e"@[2] != "C-d"@[2]);
    } else if b == 6 {
        assert(key_name(Key::Control(6)) =~= "C-f"@);
        assert("C-f"@[2] != "C-@"@[2]);
        assert("C-f"@[2] != "C-a"@[2]);
        assert("C-f"@[2] != "C-b"@[2]);
        assert("C-f"@[2] != "C-c"@[2]);
        assert("C-f"@[2] != "C-d"@[2]);
        assert("C-f"@[2] != "C-e"@[2]);
    } else if b == 7 {
        assert(key_name(Key::Control(7)) =~= "C-g"@);
        assert("C-g"@[2] != "C-@"@[2]);
        assert("C-g"@[2] != "C-a"@[2]);
        assert("C-g"@[2] != "C-b"@[2]);
        assert("C-g"@[2] != "C-c"@[2]);
        assert("C-g"@[2] != "C-d"@[2]);
        assert("C-g"@[2] != "C-e"@[2]);
        assert("C-g"@[2] != "C-f"@[2]);
    } else if b == 8 {
        assert(key_name(Key::Control(8)) =~= "C-h"@);
        assert("C-h"@[2] != "C-@"@[2]);
        assert("C-h"@[2] != "C-a"@[2]);
        assert("C-h"@[2] != "C-b"@[2]);
        assert("C-h"@[2] != "C-c"@[2]);
        assert("C-h"@[2] != "C-d"@[2]);
        assert("C-h"@[2] != "C-e"@[2]);
        assert("C-h"@[2] != "C-f"@[2]);
        assert("C-h"@[2] != "C-g"@[2]);
    } else if b == 9 {
        assert(key_name(Key::Control(9)) =~= "tab"@);
        assert("tab"@[0] != "C-@"@[0]);
        assert("tab"@[0] != "C-a"@[0]);
        assert("tab"@[0] != "C-b"@[0]);
        assert("tab"@[0] != "C-c"@[0]);
        assert("tab"@[0] != "C-d"@[0]);
        assert("tab"@[0] != "C-e"@[0]);
        assert("tab"@[0] != "C-f"@[0]);
        assert("tab"@[0] != "C-g"@[0]);
        assert("tab"@[0] != "C-h"@[0]);
        assert("tab"@[0] != "C-i"@[0]);
    } else if b == 10 {
        assert(key_name(Key::Control(10)) =~= "C-j"@);
        assert("C-j"@[2] != "C-@"@[2]);
        assert("C-j"@[2] != "C-a"@[2]);
        assert("C-j"@[2] != "C-b"@[2]);
        assert("C-j"@[2] != "C-c"@[2]);
        assert("C-j"@[2] != "C-d"@[2]);
        assert("C-j"@[2] != "C-e"@[2]);
        assert("C-j"@[2] != "C-f"@[2]);
        assert("C-j"@[2] != "C-g"@[2]);
        assert("C-j"@[2] != "C-h"@[2]);
        assert("C-j"@[2] != "C-i"@[2]);
        assert("C-j"@[0] != "tab"@[0]);
    } else if b == 11 {
        assert(key_name(Key::Control(11)) =~= "C-k"@);
        assert("C-k"@[2] != "C-@"@[2]);
        assert("C-k"@[2] != "C-a"@[2]);
        assert("C-k"@[2] != "C-b"@[2]);
        assert("C-k"@[2] != "C-c"@[2]);
        assert("C-k"@[2] != "C-d"@[2]);
        assert("C-k"@[2] != "C-e"@[2]);
        assert("C-k"@[2] != "C-f"@[2]);
        assert("C-k"@[2] != "C-g"@[2]);
        assert("C-k"@[2] != "C-h"@[2]);
        assert("C-k"@[2] != "C-i"@[2]);
        assert("C-k"@[0] != "tab"@[0]);
        assert("C-k"@[2] != "C-j"@[2]);
    } else if b == 12 {
        assert(key_name(Key::Control(12)) =~= "C-l"@);
        assert("C-l"@[2] != "C-@"@[2]);
        assert("C-l"@[2] != "C-a"@[2]);
        assert("C-l"@[2] != "C-b"@[2]);
        assert("C-l"@[2] != "C-c"@[2]);
        assert("C-l"@[2] != "C-d"@[2]);
        assert("C-l"@[2] != "C-e"@[2]);
        assert("C-l"@[2] != "C-f"@[2]);
        assert("C-l"@[2] != "C-g"@[2]);
        assert("C-l"@[2] != "C-h"@[2]);
        assert("C-l"@[2] != "C-i"@[2]);
        assert("C-l"@[0] != "tab"@[0]);
        assert("C-l"@[2] != "C-j"@[2]);
        assert("C-l"@[2] != "C-k"@[2]);
    } else if b == 13 {
        assert(key_name(Key::Control(13)) =~= "ret"@);
        assert("ret"@[0] != "C-@"@[0]);
        assert("ret"@[0] != "C-a"@[0]);
        assert("ret"@[0] != "C-b"@[0]);
        assert("ret"@[0] != "C-c"@[0]);
        assert("ret"@[0] != "C-d"@[0]);
        assert("ret"@[0] != "C-e"@[0]);
        assert("ret"@[0] != "C-f"@[0]);
        assert("ret"@[0] != "C-g"@[0]);
        assert("ret"@[0] != "C-h"@[0]);
        assert("ret"@[0] != "C-i"@[0]);
        assert("ret"@[0] != "tab"@[0]);
        assert("ret"@[0] != "C-j"@[0]);
        assert("ret"@[0] != "C-k"@[0]);
        assert("ret"@[0] != "C-l"@[0]);
        assert("ret"@[0] != "C-m"@[0]);
    } else if b == 14 {
        assert(key_name(Key::Control(14)) =~= "C-n"@);
        assert("C-n"@[2] != "C-@"@[2]);
        assert("C-n"@[2] != "C-a"@[2]);
        assert("C-n"@[2] != "C-b"@[2]);
        assert("C-n"@[2] != "C-c"@[2]);
        assert("C-n"@[2] != "C-d"@[2]);
        assert("C-n"@[2] != "C-e"@[2]);
        assert("C-n"@[2] != "C-f"@[2]);
        assert("C-n"@[2] != "C-g"@[2]);
        assert("C-n"@[2] != "C-h"@[2]);
        assert("C-n"@[2] != "C-i"@[2]);
        assert("C-n"@[0] != "tab"@[0]);
        assert("C-n"@[2] != "C-j"@[2]);
        assert("C-n"@[2] != "C-k"@[2]);
        assert("C-n"@[2] != "C-l"@[2]);
        assert("C-n"@[2] != "C-m"@[2]);
        assert("C-n"@[0] != "ret"@[0]);
    } else if b == 15 {
        assert(key_name(Key::Control(15)) =~= "C-o"@);
        assert("C-o"@[2] != "C-@"@[2]);
        assert("C-o"@[2] != "C-a"@[2]);
        assert("C-o"@[2] != "C-b"@[2]);
        assert("C-o"@[2] != "C-c"@[2]);
        assert("C-o"@[2] != "C-d"@[2]);
        assert("C-o"@[2] != "C-e"@[2]);
        assert("C-o"@[2] != "C-f"@[2]);
        assert("C-o"@[2] != "C-g"@[2]);
        assert("C-o"@[2] != "C-h"@[2]);
        assert("C-o"@[2] != "C-i"@[2]);
        assert("C-o"@[0] != "tab"@[0]);
        assert("C-o"@[2] != "C-j"@[2]);
        assert("C-o"@[2] != "C-k"@[2]);
        assert("C-o"@[2] != "C-l"@[2]);
        assert("C-o"@[2] != "C-m"@[2]);
        assert("C-o"@[0] != "ret"@[0]);
        assert("C-o"@[2] != "C-n"@[2]);
    } else if b == 16 {
        assert(key_name(Key::Control(16)) =~= "C-p"@);
        assert("C-p"@[2] != "C-@"@[2]);
        assert("C-p"@[2] != "C-a"@[2]);
        assert("C-p"@[2] != "C-b"@[2]);
        assert("C-p"@[2] != "C-c"@[2]);
        assert("C-p"@[2] != "C-d"@[2]);
        assert("C-p"@[2] != "C-e"@[2]);
        assert("C-p"@[2] != "C-f"@[2]);
        assert("C-p"@[2] != "C-g"@[2]);
        assert("C-p"@[2] != "C-h"@[2]);
        assert("C-p"@[2] != "C-i"@[2]);
        assert("C-p"@[0] != "tab"@[0]);
        assert("C-p"@[2] != "C-j"@[2]);
        assert("C-p"@[2] != "C-k"@[2]);
        assert("C-p"@[2] != "C-l"@[2]);
        assert("C-p"@[2] != "C-m"@[2]);
        assert("C-p"@[0] != "ret"@[0]);
        assert("C-p"@[2] != "C-n"@[2]);
        assert("C-p"@[2] != "C-o"@[2]);
    } else if b == 17 {
        assert(key_name(Key::Control(17)) =~= "C-q"@);
        assert("C-q"@[2] != "C-@"@[2]);
        assert("C-q"@[2] != "C-a"@[2]);
        assert("C-q"@[2] != "C-b"@[2]);
        assert("C-q"@[2] != "C-c"@[2]);
        assert("C-q"@[2] != "C-d"@[2]);
        assert("C-q"@[2] != "C-e"@[2]);
        assert("C-q"@[2] != "C-f"@[2]);
        assert("C-q"@[2] != "C-g"@[2]);
        assert("C-q"@[2] != "C-h"@[2]);
        assert("C-q"@[2] != "C-i"@[2]);
        assert("C-q"@[0] != "tab"@[0]);
        assert("C-q"@[2] != "C-j"@[2]);
        assert("C-q"@[2] != "C-k"@[2]);
        assert("C-q"@[2] != "C-l"@[2]);
        assert("C-q"@[2] != "C-m"@[2]);
        assert("C-q"@[0] != "ret"@[0]);
        assert("C-q"@[2] != "C-n"@[2]);
        assert("C-q"@[2] != "C-o"@[2]);
        assert("C-q"@[2] != "C-p"@[2]);
    } else if b == 18 {
        assert(key_name(Key::Control(18)) =~= "C-r"@);
        assert("C-r"@[2] != "C-@"@[2]);
        assert("C-r"@[2] != "C-a"@[2]);
        assert("C-r"@[2] != "C-b"@[2]);
        assert("C-r"@[2] != "C-c"@[2]);
        assert("C-r"@[2] != "C-d"@[2]);
        assert("C-r"@[2] != "C-e"@[2]);
        assert("C-r"@[2] != "C-f"@[2]);
        assert("C-r"@[2] != "C-g"@[2]);
        assert("C-r"@[2] != "C-h"@[2]);
        assert("C-r"@[2] != "C-i"@[2]);
        assert("C-r"@[0] != "tab"@[0]);
        assert("C-r"@[2] != "C-j"@[2]);
        assert("C-r"@[2] != "C-k"@[2]);
        assert("C-r"@[2] != "C-l"@[2]);
        assert("C-r"@[2] != "C-m"@[2]);
        assert("C-r"@[0] != "ret"@[0]);
        assert("C-r"@[2] != "C-n"@[2]);
        assert("C-r"@[2] != "C-o"@[2]);
        assert("C-r"@[2] != "C-p"@[2]);
        assert("C-r"@[2] != "C-q"@[2]);
    } else if b == 19 {
        assert(key_name(Key::Control(19)) =~= "C-s"@);
        assert("C-s"@[2] != "C-@"@[2]);
        assert("C-s"@[2] != "C-a"@[2]);
        assert("C-s"@[2] != "C-b"@[2]);
        assert("C-s"@[2] != "C-c"@[2]);
        assert("C-s"@[2] != "C-d"@[2]);
        assert("C-s"@[2] != "C-e"@[2]);
        assert("C-s"@[2] != "C-f"@[2]);
        assert("C-s"@[2] != "C-g"@[2]);
        assert("C-s"@[2] != "C-h"@[2]);
        assert("C-s"@[2] != "C-i"@[2]);
        assert("C-s"@[0] != "tab"@[0]);
        assert("C-s"@[2] != "C-j"@[2]);
        assert("C-s"@[2] != "C-k"@[2]);
        assert("C-s"@[2] != "C-l"@[2]);
        assert("C-s"@[2] != "C-m"@[2]);
        assert("C-s"@[0] != "ret"@[0]);
        assert("C-s"@[2] != "C-n"@[2]);
        assert("C-s"@[2] != "C-o"@[2]);
        assert("C-s"@[2] != "C-p"@[2]);
        assert("C-s"@[2] != "C-q"@[2]);
        assert("C-s"@[2] != "C-r"@[2]);
    } else if b == 20 {
        assert(key_name(Key::Control(20)) =~= "C-t"@);
        assert("C-t"@[2] != "C-@"@[2]);
        assert("C-t"@[2] != "C-a"@[2]);
        assert("C-t"@[2] != "C-b"@[2]);
        assert("C-t"@[2] != "C-c"@[2]);
        assert("C-t"@[2] != "C-d"@[2]);
        assert("C-t"@[2] != "C-e"@[2]);
        assert("C-t"@[2] != "C-f"@[2]);
        assert("C-t"@[2] != "C-g"@[2]);
        assert("C-t"@[2] != "C-h"@[2]);
        assert("C-t"@[2] != "C-i"@[2]);
        assert("C-t"@[0] != "tab"@[0]);
        assert("C-t"@[2] != "C-j"@[2]);
        assert("C-t"@[2] != "C-k"@[2]);
        assert("C-t"@[2] != "C-l"@[2]);
        assert("C-t"@[2] != "C-m"@[2]);
        assert("C-t"@[0] != "ret"@[0]);
        assert("C-t"@[2] != "C-n"@[2]);
        assert("C-t"@[2] != "C-o"@[2]);
        assert("C-t"@[2] != "C-p"@[2]);
        assert("C-t"@[2] != "C-q"@[2]);
        assert("C-t"@[2] != "C-r"@[2]);
        assert("C-t"@[2] != "C-s"@[2]);
    } else if b == 21 {
        assert(key_name(Key::Control(21)) =~= "C-u"@);
        assert("C-u"@[2] != "C-@"@[2]);
        assert("C-u"@[2] != "C-a"@[2]);
        assert("C-u"@[2] != "C-b"@[2]);
        assert("C-u"@[2] != "C-c"@[2]);
        assert("C-u"@[2] != "C-d"@[2]);
        assert("C-u"@[2] != "C-e"@[2]);
        assert("C-u"@[2] != "C-f"@[2]);
        assert("C-u"@[2] != "C-g"@[2]);
        assert("C-u"@[2] != "C-h"@[2]);
        assert("C-u"@[2] != "C-i"@[2]);
        assert("C-u"@[0] != "tab"@[0]);
        assert("C-u"@[2] != "C-j"@[2]);
        assert("C-u"@[2] != "C-k"@[2]);
        assert("C-u"@[2] != "C-l"@[2]);
        assert("C-u"@[2] != "C-m"@[2]);
        assert("C-u"@[0] != "ret"@[0]);
        assert("C-u"@[2] != "C-n"@[2]);
        assert("C-u"@[2] != "C-o"@[2]);
        assert("C-u"@[2] != "C-p"@[2]);
        assert("C-u"@[2] != "C-q"@[2]);
        assert("C-u"@[2] != "C-r"@[2]);
        assert("C-u"@[2] != "C-s"@[2]);
        assert("C-u"@[2] != "C-t"@[2]);
    } else if b == 22 {
        assert(key_name(Key::Control(22)) =~= "C-v"@);
        assert("C-v"@[2] != "C-@"@[2]);
        assert("C-v"@[2] != "C-a"@[2]);
        assert("C-v"@[2] != "C-b"@[2]);
        assert("C-v"@[2] != "C-c"@[2]);
        assert("C-v"@[2] != "C-d"@[2]);
        assert("C-v"@[2] != "C-e"@[2]);
        assert("C-v"@[2] != "C-f"@[2]);
        assert("C-v"@[2] != "C-g"@[2]);
        assert("C-v"@[2] != "C-h"@[2]);
        assert("C-v"@[2] != "C-i"@[2]);
        assert("C-v"@[0] != "tab"@[0]);
        assert("C-v"@[2] != "C-j"@[2]);
        assert("C-v"@[2] != "C-k"@[2]);
        assert("C-v"@[2] != "C-l"@[2]);
        assert("C-v"@[2] != "C-m"@[2]);
        assert("C-v"@[0] != "ret"@[0]);
        assert("C-v"@[2] != "C-n"@[2]);
        assert("C-v"@[2] != "C-o"@[2]);
        assert("C-v"@[2] != "C-p"@[2]);
        assert("C-v"@[2] != "C-q"@[2]);
        assert("C-v"@[2] != "C-r"@[2]);
        assert("C-v"@[2] != "C-s"@[2]);
        assert("C-v"@[2] != "C-t"@[2]);
        assert("C-v"@[2] != "C-u"@[2]);
    } else if b == 23 {
        assert(key_name(Key::Control(23)) =~= "C-w"@);
        assert("C-w"@[2] != "C-@"@[2]);
        assert("C-w"@[2] != "C-a"@[2]);
        assert("C-w"@[2] != "C-b"@[2]);
        assert("C-w"@[2] != "C-c"@[2]);
        assert("C-w"@[2] != "C-d"@[2]);
        assert("C-w"@[2] != "C-e"@[2]);
        assert("C-w"@[2] != "C-f"@[2]);
        assert("C-w"@[2] != "C-g"@[2]);
        assert("C-w"@[2] != "C-h"@[2]);
        assert("C-w"@[2] != "C-i"@[2]);
        assert("C-w"@[0] != "tab"@[0]);
        assert("C-w"@[2] != "C-j"@[2]);
        assert("C-w"@[2] != "C-k"@[2]);
        assert("C-w"@[2] != "C-l"@[2]);
        assert("C-w"@[2] != "C-m"@[2]);
        assert("C-w"@[0] != "ret"@[0]);
        assert("C-w"@[2] != "C-n"@[2]);
        assert("C-w"@[2] != "C-o"@[2]);
        assert("C-w"@[2] != "C-p"@[2]);
        assert("C-w"@[2] != "C-q"@[2]);
        assert("C-w"@[2] != "C-r"@[2]);
        assert("C-w"@[2] != "C-s"@[2]);
        assert("C-w"@[2] != "C-t"@[2]);
        assert("C-w"@[2] != "C-u"@[2]);
        assert("C-w"@[2] != "C-v"@[2]);
    } else if b == 24 {
        assert(key_name(Key::Control(24)) =~= "C-x"@);
        assert("C-x"@[2] != "C-@"@[2]);
        assert("C-x"@[2] != "C-a"@[2]);
        assert("C-x"@[2] != "C-b"@[2]);
        assert("C-x"@[2] != "C-c"@[2]);
        assert("C-x"@[2] != "C-d"@[2]);
        assert("C-x"@[2] != "C-e"@[2]);
        assert("C-x"@[2] != "C-f"@[2]);
        assert("C-x"@[2] != "C-g"@[2]);
        assert("C-x"@[2] != "C-h"@[2]);
        assert("C-x"@[2] != "C-i"@[2]);
        assert("C-x"@[0] != "tab"@[0]);
        assert("C-x"@[2] != "C-j"@[2]);
        assert("C-x"@[2] != "C-k"@[2]);
        assert("C-x"@[2] != "C-l"@[2]);
        assert("C-x"@[2] != "C-m"@[2]);
        assert("C-x"@[0] != "ret"@[0]);
        assert("C-x"@[2] != "C-n"@[2]);
        assert("C-x"@[2] != "C-o"@[2]);
        assert("C-x"@[2] != "C-p"@[2]);
        assert("C-x"@[2] != "C-q"@[2]);
        assert("C-x"@[2] != "C-r"@[2]);
        assert("C-x"@[2] != "C-s"@[2]);
        assert("C-x"@[2] != "C-t"@[2]);
        assert("C-x"@[2] != "C-u"@[2]);
        assert("C-x"@[2] != "C-v"@[2]);
        assert("C-x"@[2] != "C-w"@[2]);
    } else if b == 25 {
        assert(key_name(Key::Control(25)) =~= "C-y"@);
        assert("C-y"@[2] != "C-@"@[2]);
        assert("C-y"@[2] != "C-a"@[2]);
        assert("C-y"@[2] != "C-b"@[2]);
        assert("C-y"@[2] != "C-c"@[2]);
        assert("C-y"@[2] != "C-d"@[2]);
        assert("C-y"@[2] != "C-e"@[2]);
        assert("C-y"@[2] != "C-f"@[2]);
        assert("C-y"@[2] != "C-g"@[2]);
        assert("C-y"@[2] != "C-h"@[2]);
        assert("C-y"@[2] != "C-i"@[2]);
        assert("C-y"@[0] != "tab"@[0]);
        assert("C-y"@[2] != "C-j"@[2]);
        assert("C-y"@[2] != "C-k"@[2]);
        assert("C-y"@[2] != "C-l"@[2]);
        assert("C-y"@[2] != "C-m"@[2]);
        assert("C-y"@[0] != "ret"@[0]);
        assert("C-y"@[2] != "C-n"@[2]);
        assert("C-y"@[2] != "C-o"@[2]);
        assert("C-y"@[2] != "C-p"@[2]);
        assert("C-y"@[2] != "C-q"@[2]);
        assert("C-y"@[2] != "C-r"@[2]);
        assert("C-y"@[2] != "C-s"@[2]);
        assert("C-y"@[2] != "C-t"@[2]);
        assert("C-y"@[2] != "C-u"@[2]);
        assert("C-y"@[2] != "C-v"@[2]);
        assert("C-y"@[2] != "C-w"@[2]);
        assert("C-y"@[2] != "C-x"@[2]);
    } else if b == 26 {
        assert(key_name(Key::Control(26)) =~= "C-z"@);
        assert("C-z"@[2] != "C-@"@[2]);
        assert("C-z"@[2] != "C-a"@[2]);
        assert("C-z"@[2] != "C-b"@[2]);
        assert("C-z"@[2] != "C-c"@[2]);
        assert("C-z"@[2] != "C-d"@[2]);
        assert("C-z"@[2] != "C-e"@[2]);
        assert("C-z"@[2] != "C-f"@[2]);
        assert("C-z"@[2] != "C-g"@[2]);
        assert("C-z"@[2] != "C-h"@[2]);
        assert("C-z"@[2] != "C-i"@[2]);
        assert("C-z"@[0] != "tab"@[0]);
        assert("C-z"@[2] != "C-j"@[2]);
        assert("C-z"@[2] != "C-k"@[2]);
        assert("C-z"@[2] != "C-l"@[2]);
        assert("C-z"@[2] != "C-m"@[2]);
        assert("C-z"@[0] != "ret"@[0]);
        assert("C-z"@[2] != "C-n"@[2]);
        assert("C-z"@[2] != "C-o"@[2]);
        assert("C-z"@[2] != "C-p"@[2]);
        assert("C-z"@[2] != "C-q"@[2]);
        assert("C-z"@[2] != "C-r"@[2]);
        assert("C-z"@[2] != "C-s"@[2]);
        assert("C-z"@[2] != "C-t"@[2]);
        assert("C-z"@[2] != "C-u"@[2]);
        assert("C-z"@[2] != "C-v"@[2]);
        assert("C-z"@[2] != "C-w"@[2]);
        assert("C-z"@[2] != "C-x"@[2]);
        assert("C-z"@[2] != "C-y"@[2]);
    } else if b == 27 {
        assert(key_name(Key::Control(27)) =~= "ESC"@);
        assert("ESC"@[0] != "C-@"@[0]);
        assert("ESC"@[0] != "C-a"@[0]);
        assert("ESC"@[0] != "C-b"@[0]);
        assert("ESC"@[0] != "C-c"@[0]);
        assert("ESC"@[0] != "C-d"@[0]);
        assert("ESC"@[0] != "C-e"@[0]);
        assert("ESC"@[0] != "C-f"@[0]);
        assert("ESC"@[0] != "C-g"@[0]);
        assert("ESC"@[0] != "C-h"@[0]);
        assert("ESC"@[0] != "C-i"@[0]);
        assert("ESC"@[0] != "tab"@[0]);
        assert("ESC"@[0] != "C-j"@[0]);
        assert("ESC"@[0] != "C-k"@[0]);
        assert("ESC"@[0] != "C-l"@[0]);
        assert("ESC"@[0] != "C-m"@[0]);
        assert("ESC"@[0] != "ret"@[0]);
        assert("ESC"@[0] != "C-n"@[0]);
        assert("ESC"@[0] != "C-o"@[0]);
        assert("ESC"@[0] != "C-p"@[0]);
        assert("ESC"@[0] != "C-q"@[0]);
        assert("ESC"@[0] != "C-r"@[0]);
        assert("ESC"@[0] != "C-s"@[0]);
        assert("ESC"@[0] != "C-t"@[0]);
        assert("ESC"@[0] != "C-u"@[0]);
        assert("ESC"@[0] != "C-v"@[0]);
        assert("ESC"@[0] != "C-w"@[0]);
        assert("ESC"@[0] != "C-x"@[0]);
        assert("ESC"@[0] != "C-y"@[0]);
        assert("ESC"@[0] != "C-z"@[0]);
        assert("ESC"@[0] != "C-["@[0]);
    } else if b == 28 {
        assert(key_name(Key::Control(28)) =~= "C-\\"@);
        assert("C-\\"@[2] != "C-@"@[2]);
        assert("C-\\"@[2] != "C-a"@[2]);
        assert("C-\\"@[2] != "C-b"@[2]);
        assert("C-\\"@[2] != "C-c"@[2]);
        assert("C-\\"@[2] != "C-d"@[2]);
        assert("C-\\"@[2] != "C-e"@[2]);
        assert("C-\\"@[2] != "C-f"@[2]);
        assert("C-\\"@[2] != "C-g"@[2]);
        assert("C-\\"@[2] != "C-h"@[2]);
        assert("C-\\"@[2] != "C-i"@[2]);
        assert("C-\\"@[0] != "tab"@[0]);
        assert("C-\\"@[2] != "C-j"@[2]);
        assert("C-\\"@[2] != "C-k"@[2]);
        assert("C-\\"@[2] != "C-l"@[2]);
        assert("C-\\"@[2] != "C-m"@[2]);
        assert("C-\\"@[0] != "ret"@[0]);
        assert("C-\\"@[2] != "C-n"@[2]);
        assert("C-\\"@[2] != "C-o"@[2]);
        assert("C-\\"@[2] != "C-p"@[2]);
        assert("C-\\"@[2] != "C-q"@[2]);
        assert("C-\\"@[2] != "C-r"@[2]);
        assert("C-\\"@[2] != "C-s"@[2]);
        assert("C-\\"@[2] != "C-t"@[2]);
        assert("C-\\"@[2] != "C-u"@[2]);
        assert("C-\\"@[2] != "C-v"@[2]);
        assert("C-\\"@[2] != "C-w"@[2]);
        assert("C-\\"@[2] != "C-x"@[2]);
        assert("C-\\"@[2] != "C-y"@[2]);
        assert("C-\\"@[2] != "C-z"@[2]);
        assert("C-\\"@[2] != "C-["@[2]);
        assert("C-\\"@[0] != "ESC"@[0]);
    } else if b == 29 {
        assert(key_name(Key::Control(29)) =~= "C-]"@);
        assert("C-]"@[2] != "C-@"@[2]);
        assert("C-]"@[2] != "C-a"@[2]);
        assert("C-]"@[2] != "C-b"@[2]);
        assert("C-]"@[2] != "C-c"@[2]);
        assert("C-]"@[2] != "C-d"@[2]);
        assert("C-]"@[2] != "C-e"@[2]);
        assert("C-]"@[2] != "C-f"@[2]);
        assert("C-]"@[2] != "C-g"@[2]);
        assert("C-]"@[2] != "C-h"@[2]);
        assert("C-]"@[2] != "C-i"@[2]);
        assert("C-]"@[0] != "tab"@[0]);
        assert("C-]"@[2] != "C-j"@[2]);
        assert("C-]"@[2] != "C-k"@[2]);
        assert("C-]"@[2] != "C-l"@[2]);
        assert("C-]"@[2] != "C-m"@[2]);
        assert("C-]"@[0] != "ret"@[0]);
        assert("C-]"@[2] != "C-n"@[2]);
        assert("C-]"@[2] != "C-o"@[2]);
        assert("C-]"@[2] != "C-p"@[2]);
        assert("C-]"@[2] != "C-q"@[2]);
        assert("C-]"@[2] != "C-r"@[2]);
        assert("C-]"@[2] != "C-s"@[2]);
        assert("C-]"@[2] != "C-t"@[2]);
        assert("C-]"@[2] != "C-u"@[2]);
        assert("C-]"@[2] != "C-v"@[2]);
        assert("C-]"@[2] != "C-w"@[2]);
        assert("C-]"@[2] != "C-x"@[2]);
        assert("C-]"@[2] != "C-y"@[2]);
        assert("C-]"@[2] != "C-z"@[2]);
        assert("C-]"@[2] != "C-["@[2]);
        assert("C-]"@[0] != "ESC"@[0]);
        assert("C-]"@[2] != "C-\\"@[2]);
    } else if b == 30 {
        assert(key_name(Key::Control(30)) =~= "C-^"@);
        assert("C-^"@[2] != "C-@"@[2]);
        assert("C-^"@[2] != "C-a"@[2]);
        assert("C-^"@[2] != "C-b"@[2]);
        assert("C-^"@[2] != "C-c"@[2]);
        assert("C-^"@[2] != "C-d"@[2]);
        assert("C-^"@[2] != "C-e"@[2]);
        assert("C-^"@[2] != "C-f"@[2]);
        assert("C-^"@[2] != "C-g"@[2]);
        assert("C-^"@[2] != "C-h"@[2]);
        assert("C-^"@[2] != "C-i"@[2]);
        assert("C-^"@[0] != "tab"@[0]);
        assert("C-^"@[2] != "C-j"@[2]);
        assert("C-^"@[2] != "C-k"@[2]);
        assert("C-^"@[2] != "C-l"@[2]);
        assert("C-^"@[2] != "C-m"@[2]);
        assert("C-^"@[0] != "ret"@[0]);
        assert("C-^"@[2] != "C-n"@[2]);
        assert("C-^"@[2] != "C-o"@[2]);
        assert("C-^"@[2] != "C-p"@[2]);
        assert("C-^"@[2] != "C-q"@[2]);
        assert("C-^"@[2] != "C-r"@[2]);
        assert("C-^"@[2] != "C-s"@[2]);
        assert("C-^"@[2] != "C-t"@[2]);
        assert("C-^"@[2] != "C-u"@[2]);
        assert("C-^"@[2] != "C-v"@[2]);
        assert("C-^"@[2] != "C-w"@[2]);
        assert("C-^"@[2] != "C-x"@[2]);
        assert("C-^"@[2] != "C-y"@[2]);
        assert("C-^"@[2] != "C-z"@[2]);
        assert("C-^"@[2] != "C-["@[2]);
        assert("C-^"@[0] != "ESC"@[0]);
        assert("C-^"@[2] != "C-\\"@[2]);
        assert("C-^"@[2] != "C-]"@[2]);
    } else if b == 31 {
        assert(key_name(Key::Control(31)) =~= "C-_"@);
        assert("C-_"@[2] != "C-@"@[2]);
        assert("C-_"@[2] != "C-a"@[2]);
        assert("C-_"@[2] != "C-b"@[2]);
        assert("C-_"@[2] != "C-c"@[2]);
        assert("C-_"@[2] != "C-d"@[2]);
        assert("C-_"@[2] != "C-e"@[2]);
        assert("C-_"@[2] != "C-f"@[2]);
        assert("C-_"@[2] != "C-g"@[2]);
        assert("C-_"@[2] != "C-h"@[2]);
        assert("C-_"@[2] != "C-i"@[2]);
        assert("C-_"@[0] != "tab"@[0]);
        assert("C-_"@[2] != "C-j"@[2]);
        assert("C-_"@[2] != "C-k"@[2]);
        assert("C-_"@[2] != "C-l"@[2]);
        assert("C-_"@[2] != "C-m"@[2]);
        assert("C-_"@[0] != "ret"@[0]);
        assert("C-_"@[2] != "C-n"@[2]);
        assert("C-_"@[2] != "C-o"@[2]);
        assert("C-_"@[2] != "C-p"@[2]);
        assert("C-_"@[2] != "C-q"@[2]);
        assert("C-_"@[2] != "C-r"@[2]);
        assert("C-_"@[2] != "C-s"@[2]);
        assert("C-_"@[2] != "C-t"@[2]);
        assert("C-_"@[2] != "C-u"@[2]);
        assert("C-_"@[2] != "C-v"@[2]);
        assert("C-_"@[2] != "C-w"@[2]);
        assert("C-_"@[2] != "C-x"@[2]);
        assert("C-_"@[2] != "C-y"@[2]);
        assert("C-_"@[2] != "C-z"@[2]);
        assert("C-_"@[2] != "C-["@[2]);
        assert("C-_"@[0] != "ESC"@[0]);
        assert("C-_"@[2] != "C-\\"@[2]);
        assert("C-_"@[2] != "C-]"@[2]);
        assert("C-_"@[2] != "C-^"@[2]);
    } else if b == 127 {
        assert(key_name(Key::Control(127)) =~= "del"@);
        assert("del"@[0] != "C-@"@[0]);
        assert("del"@[0] != "C-a"@[0]);
        assert("del"@[0] != "C-b"@[0]);
        assert("del"@[0] != "C-c"@[0]);
        assert("del"@[0] != "C-d"@[0]);
        assert("del"@[0] != "C-e"@[0]);
        assert("del"@[0] != "C-f"@[0]);
        assert("del"@[0] != "C-g"@[0]);
        assert("del"@[0] != "C-h"@[0]);
        assert("del"@[0] != "C-i"@[0]);
        assert("del"@[0] != "tab"@[0]);
        assert("del"@[0] != "C-j"@[0]);
        assert("del"@[0] != "C-k"@[0]);
        assert("del"@[0] != "C-l"@[0]);
        assert("del"@[0] != "C-m"@[0]);
        assert("del"@[0] != "ret"@[0]);
        assert("del"@[0] != "C-n"@[0]);
        assert("del"@[0] != "C-o"@[0]);
        assert("del"@[0] != "C-p"@[0]);
        assert("del"@[0] != "C-q"@[0]);
        assert("del"@[0] != "C-r"@[0]);
        assert("del"@[0] != "C-s"@[0]);
        assert("del"@[0] != "C-t"@[0]);
        assert("del"@[0] != "C-u"@[0]);
        assert("del"@[0] != "C-v"@[0]);
        assert("del"@[0] != "C-w"@[0]);
        assert("del"@[0] != "C-x"@[0]);
        assert("del"@[0] != "C-y"@[0]);
        assert("del"@[0] != "C-z"@[0]);
        assert("del"@[0] != "C-["@[0]);
        assert("del"@[0] != "ESC"@[0]);
        assert("del"@[0] != "C-\\"@[0]);
        assert("del"@[0] != "C-]"@[0]);
        assert("del"@[0] != "C-^"@[0]);
        assert("del"@[0] != "C-_"@[0]);
        assert("del"@[0] != "C-?"@[0]);
    }
}

proof fn lemma_function_round_trip(n: u8)
    requires
        1 <= n <= 20,
    ensures
        key_of_name(key_name(Key::Function(n))) == Some(Key::Function(n)),
{
    lemma_name_literals();
    reveal_with_fuel(crate::strings::decimal, 3);
    if n == 1 {
        assert(key_name(Key::Function(1)) =~= "F1"@);
        assert("F1"@[0] != "up"@[0]);
    } else if n == 2 {
        assert(key_name(Key::Function(2)) =~= "F2"@);
        assert("F2"@[0] != "up"@[0]);
        assert("F2"@[1] != "F1"@[1]);
    } else if n == 3 {
        assert(key_name(Key::Function(3)) =~= "F3"@);
        assert("F3"@[0] != "up"@[0]);
        assert("F3"@[1] != "F1"@[1]);
        assert("F3"@[1] != "F2"@[1]);
    } else if n == 4 {
        assert(key_name(Key::Function(4)) =~= "F4"@);
        assert("F4"@[0] != "up"@[0]);
        assert("F4"@[1] != "F1"@[1]);
        assert("F4"@[1] != "F2"@[1]);
        assert("F4"@[1] != "F3"@[1]);
    } else if n == 5 {
        assert(key_name(Key::Function(5)) =~= "F5"@);
        assert("F5"@[0] != "up"@[0]);
        assert("F5"@[1] != "F1"@[1]);
        assert("F5"@[1] != "F2"@[1]);
        assert("F5"@[1] != "F3"@[1]);
        assert("F5"@[1] != "F4"@[1]);
    } else if n == 6 {
        assert(key_name(Key::Function(6)) =~= "F6"@);
        assert("F6"@[0] != "up"@[0]);
        assert("F6"@[1] != "F1"@[1]);
        assert("F6"@[1] != "F2"@[1]);
        assert("F6"@[1] != "F3"@[1]);
        assert("F6"@[1] != "F4"@[1]);
        assert("F6"@[1] != "F5"@[1]);
    } else if n == 7 {
        assert(key_name(Key::Function(7)) =~= "F7"@);
        assert("F7"@[0] != "up"@[0]);
        assert("F7"@[1] != "F1"@[1]);
        assert("F7"@[1] != "F2"@[1]);
        assert("F7"@[1] != "F3"@[1]);
        assert("F7"@[1] != "F4"@[1]);
        assert("F7"@[1] != "F5"@[1]);
        assert("F7"@[1] != "F6"@[1]);
    } else if n == 8 {
        assert(key_name(Key::Function(8)) =~= "F8"@);
        assert("F8"@[0] != "up"@[0]);
        assert("F8"@[1] != "F1"@[1]);
        assert("F8"@[1] != "F2"@[1]);
        assert("F8"@[1] != "F3"@[1]);
        assert("F8"@[1] != "F4"@[1]);
        assert("F8"@[1] != "F5"@[1]);
        assert("F8"@[1] != "F6"@[1]);
        assert("F8"@[1] != "F7"@[1]);
    } else if n == 9 {
        assert(key_name(Key::Function(9)) =~= "F9"@);
        assert("F9"@[0] != "up"@[0]);
        assert("F9"@[1] != "F1"@[1]);
        assert("F9"@[1] != "F2"@[1]);
        assert("F9"@[1] != "F3"@[1]);
        assert("F9"@[1] != "F4"@[1]);
        assert("F9"@[1] != "F5"@[1]);
        assert("F9"@[1] != "F6"@[1]);
        assert("F9"@[1] != "F7"@[1]);
        assert("F9"@[1] != "F8"@[1]);
    } else if n == 10 {
        assert(key_name(Key::Function(10)) =~= "F10"@);
        assert("F10"@[0] != "C-@"@[0]);
        assert("F10"@[0] != "C-a"@[0]);
        assert("F10"@[0] != "C-b"@[0]);
        assert("F10"@[0] != "C-c"@[0]);
        assert("F10"@[0] != "C-d"@[0]);
        assert("F10"@[0] != "C-e"@[0]);
        assert("F10"@[0] != "C-f"@[0]);
        assert("F10"@[0] != "C-g"@[0]);
        assert("F10"@[0] != "C-h"@[0]);
        assert("F10"@[0] != "C-i"@[0]);
        assert("F10"@[0] != "tab"@[0]);
        assert("F10"@[0] != "C-j"@[0]);
        assert("F10"@[0] != "C-k"@[0]);
        assert("F10"@[0] != "C-l"@[0]);
        assert("F10"@[0] != "C-m"@[0]);
        assert("F10"@[0] != "ret"@[0]);
        assert("F10"@[0] != "C-n"@[0]);
        assert("F10"@[0] != "C-o"@[0]);
        assert("F10"@[0] != "C-p"@[0]);
        assert("F10"@[0] != "C-q"@[0]);
        assert("F10"@[0] != "C-r"@[0]);
        assert("F10"@[0] != "C-s"@[0]);
        assert("F10"@[0] != "C-t"@[0]);
        assert("F10"@[0] != "C-u"@[0]);
        assert("F10"@[0] != "C-v"@[0]);
        assert("F10"@[0] != "C-w"@[0]);
        assert("F10"@[0] != "C-x"@[0]);
        assert("F10"@[0] != "C-y"@[0]);
        assert("F10"@[0] != "C-z"@[0]);
        assert("F10"@[0] != "C-["@[0]);
        assert("F10"@[0] != "ESC"@[0]);
        assert("F10"@[0] != "C-\\"@[0]);
        assert("F10"@[0] != "C-]"@[0]);
        assert("F10"@[0] != "C-^"@[0]);
        assert("F10"@[0] != "C-_"@[0]);
        assert("F10"@[0] != "C-?"@[0]);
        assert("F10"@[0] != "del"@[0]);
        assert("F10"@[0] != "end"@[0]);
    } else if n == 11 {
        assert(key_name(Key::Function(11)) =~= "F11"@);
        assert("F11"@[0] != "C-@"@[0]);
        assert("F11"@[0] != "C-a"@[0]);
        assert("F11"@[0] != "C-b"@[0]);
        assert("F11"@[0] != "C-c"@[0]);
        assert("F11"@[0] != "C-d"@[0]);
        assert("F11"@[0] != "C-e"@[0]);
        assert("F11"@[0] != "C-f"@[0]);
        assert("F11"@[0] != "C-g"@[0]);
        assert("F11"@[0] != "C-h"@[0]);
        assert("F11"@[0] != "C-i"@[0]);
        assert("F11"@[0] != "tab"@[0]);
        assert("F11"@[0] != "C-j"@[0]);
        assert("F11"@[0] != "C-k"@[0]);
        assert("F11"@[0] != "C-l"@[0]);
        assert("F11"@[0] != "C-m"@[0]);
        assert("F11"@[0] != "ret"@[0]);
        assert("F11"@[0] != "C-n"@[0]);
        assert("F11"@[0] != "C-o"@[0]);
        assert("F11"@[0] != "C-p"@[0]);
        assert("F11"@[0] != "C-q"@[0]);
        assert("F11"@[0] != "C-r"@[0]);
        assert("F11"@[0] != "C-s"@[0]);
        assert("F11"@[0] != "C-t"@[0]);
        assert("F11"@[0] != "C-u"@[0]);
        assert("F11"@[0] != "C-v"@[0]);
        assert("F11"@[0] != "C-w"@[0]);
        assert("F11"@[0] != "C-x"@[0]);
        assert("F11"@[0] != "C-y"@[0]);
        assert("F11"@[0] != "C-z"@[0]);
        assert("F11"@[0] != "C-["@[0]);
        assert("F11"@[0] != "ESC"@[0]);
        assert("F11"@[0] != "C-\\"@[0]);
        assert("F11"@[0] != "C-]"@[0]);
        assert("F11"@[0] != "C-^"@[0]);
        assert("F11"@[0] != "C-_"@[0]);
        assert("F11"@[0] != "C-?"@[0]);
        assert("F11"@[0] != "del"@[0]);
        assert("F11"@[0] != "end"@[0]);
        assert("F11"@[2] != "F10"@[2]);
    } else if n == 12 {
        assert(key_name(Key::Function(12)) =~= "F12"@);
        assert("F12"@[0] != "C-@"@[0]);
        assert("F12"@[0] != "C-a"@[0]);
        assert("F12"@[0] != "C-b"@[0]);
        assert("F12"@[0] != "C-c"@[0]);
        assert("F12"@[0] != "C-d"@[0]);
        assert("F12"@[0] != "C-e"@[0]);
        assert("F12"@[0] != "C-f"@[0]);
        assert("F12"@[0] != "C-g"@[0]);
        assert("F12"@[0] != "C-h"@[0]);
        assert("F12"@[0] != "C-i"@[0]);
        assert("F12"@[0] != "tab"@[0]);
        assert("F12"@[0] != "C-j"@[0]);
        assert("F12"@[0] != "C-k"@[0]);
        assert("F12"@[0] != "C-l"@[0]);
        assert("F12"@[0] != "C-m"@[0]);
        assert("F12"@[0] != "ret"@[0]);
        assert("F12"@[0] != "C-n"@[0]);
        assert("F12"@[0] != "C-o"@[0]);
        assert("F12"@[0] != "C-p"@[0]);
        assert("F12"@[0] != "C-q"@[0]);
        assert("F12"@[0] != "C-r"@[0]);
        assert("F12"@[0] != "C-s"@[0]);
        assert("F12"@[0] != "C-t"@[0]);
        assert("F12"@[0] != "C-u"@[0]);
        assert("F12"@[0] != "C-v"@[0]);
        assert("F12"@[0] != "C-w"@[0]);
        assert("F12"@[0] != "C-x"@[0]);
        assert("F12"@[0] != "C-y"@[0]);
        assert("F12"@[0] != "C-z"@[0]);
        assert("F12"@[0] != "C-["@[0]);
        assert("F12"@[0] != "ESC"@[0]);
        assert("F12"@[0] != "C-\\"@[0]);
        assert("F12"@[0] != "C-]"@[0]);
        assert("F12"@[0] != "C-^"@[0]);
        assert("F12"@[0] != "C-_"@[0]);
        assert("F12"@[0] != "C-?"@[0]);
        assert("F12"@[0] != "del"@[0]);
        assert("F12"@[0] != "end"@[0]);
        assert("F12"@[2] != "F10"@[2]);
        assert("F12"@[2] != "F11"@[2]);
    } else if n == 13 {
        assert(key_name(Key::Function(13)) =~= "F13"@);
        assert("F13"@[0] != "C-@"@[0]);
        assert("F13"@[0] != "C-a"@[0]);
        assert("F13"@[0] != "C-b"@[0]);
        assert("F13"@[0] != "C-c"@[0]);
        assert("F13"@[0] != "C-d"@[0]);
        assert("F13"@[0] != "C-e"@[0]);
        assert("F13"@[0] != "C-f"@[0]);
        assert("F13"@[0] != "C-g"@[0]);
        assert("F13"@[0] != "C-h"@[0]);
        assert("F13"@[0] != "C-i"@[0]);
        assert("F13"@[0] != "tab"@[0]);
        assert("F13"@[0] != "C-j"@[0]);
        assert("F13"@[0] != "C-k"@[0]);
        assert("F13"@[0] != "C-l"@[0]);
        assert("F13"@[0] != "C-m"@[0]);
        assert("F13"@[0] != "ret"@[0]);
        assert("F13"@[0] != "C-n"@[0]);
        assert("F13"@[0] != "C-o"@[0]);
        assert("F13"@[0] != "C-p"@[0]);
        assert("F13"@[0] != "C-q"@[0]);
        assert("F13"@[0] != "C-r"@[0]);
        assert("F13"@[0] != "C-s"@[0]);
        assert("F13"@[0] != "C-t"@[0]);
        assert("F13"@[0] != "C-u"@[0]);
        assert("F13"@[0] != "C-v"@[0]);
        assert("F13"@[0] != "C-w"@[0]);
        assert("F13"@[0] != "C-x"@[0]);
        assert("F13"@[0] != "C-y"@[0]);
        assert("F13"@[0] != "C-z"@[0]);
        assert("F13"@[0] != "C-["@[0]);
        assert("F13"@[0] != "ESC"@[0]);
        assert("F13"@[0] != "C-\\"@[0]);
        assert("F13"@[0] != "C-]"@[0]);
        assert("F13"@[0] != "C-^"@[0]);
        assert("F13"@[0] != "C-_"@[0]);
        assert("F13"@[0] != "C-?"@[0]);
        assert("F13"@[0] != "del"@[0]);
        assert("F13"@[0] != "end"@[0]);
        assert("F13"@[2] != "F10"@[2]);
        assert("F13"@[2] != "F11"@[2]);
        assert("F13"@[2] != "F12"@[2]);
    } else if n == 14 {
        assert(key_name(Key::Function(14)) =~= "F14"@);
        assert("F14"@[0] != "C-@"@[0]);
        assert("F14"@[0] != "C-a"@[0]);
        assert("F14"@[0] != "C-b"@[0]);
        assert("F14"@[0] != "C-c"@[0]);
        assert("F14"@[0] != "C-d"@[0]);
        assert("F14"@[0] != "C-e"@[0]);
        assert("F14"@[0] != "C-f"@[0]);
        assert("F14"@[0] != "C-g"@[0]);
        assert("F14"@[0] != "C-h"@[0]);
        assert("F14"@[0] != "C-i"@[0]);
        assert("F14"@[0] != "tab"@[0]);
        assert("F14"@[0] != "C-j"@[0]);
        assert("F14"@[0] != "C-k"@[0]);
        assert("F14"@[0] != "C-l"@[0]);
        assert("F14"@[0] != "C-m"@[0]);
        assert("F14"@[0] != "ret"@[0]);
        assert("F14"@[0] != "C-n"@[0]);
        assert("F14"@[0] != "C-o"@[0]);
        assert("F14"@[0] != "C-p"@[0]);
        assert("F14"@[0] != "C-q"@[0]);
        assert("F14"@[0] != "C-r"@[0]);
        assert("F14"@[0] != "C-s"@[0]);
        assert("F14"@[0] != "C-t"@[0]);
        assert("F14"@[0] != "C-u"@[0]);
        assert("F14"@[0] != "C-v"@[0]);
        assert("F14"@[0] != "C-w"@[0]);
        assert("F14"@[0] != "C-x"@[0]);
        assert("F14"@[0] != "C-y"@[0]);
        assert("F14"@[0] != "C-z"@[0]);
        assert("F14"@[0] != "C-["@[0]);
        assert("F14"@[0] != "ESC"@[0]);
        assert("F14"@[0] != "C-\\"@[0]);
        assert("F14"@[0] != "C-]"@[0]);
        assert("F14"@[0] != "C-^"@[0]);
        assert("F14"@[0] != "C-_"@[0]);
        assert("F14"@[0] != "C-?"@[0]);
        assert("F14"@[0] != "del"@[0]);
        assert("F14"@[0] != "end"@[0]);
        assert("F14"@[2] != "F10"@[2]);
        assert("F14"@[2] != "F11"@[2]);
        assert("F14"@[2] != "F12"@[2]);
        assert("F14"@[2] != "F13"@[2]);
    } else if n == 15 {
        assert(key_name(Key::Function(15)) =~= "F15"@);
        assert("F15"@[0] != "C-@"@[0]);
        assert("F15"@[0] != "C-a"@[0]);
        assert("F15"@[0] != "C-b"@[0]);
        assert("F15"@[0] != "C-c"@[0]);
        assert("F15"@[0] != "C-d"@[0]);
        assert("F15"@[0] != "C-e"@[0]);
        assert("F15"@[0] != "C-f"@[0]);
        assert("F15"@[0] != "C-g"@[0]);
        assert("F15"@[0] != "C-h"@[0]);
        assert("F15"@[0] != "C-i"@[0]);
        assert("F15"@[0] != "tab"@[0]);
        assert("F15"@[0] != "C-j"@[0]);
        assert("F15"@[0] != "C-k"@[0]);
        assert("F15"@[0] != "C-l"@[0]);
        assert("F15"@[0] != "C-m"@[0]);
        assert("F15"@[0] != "ret"@[0]);
        assert("F15"@[0] != "C-n"@[0]);
        assert("F15"@[0] != "C-o"@[0]);
        assert("F15"@[0] != "C-p"@[0]);
        assert("F15"@[0] != "C-q"@[0]);
        assert("F15"@[0] != "C-r"@[0]);
        assert("F15"@[0] != "C-s"@[0]);
        assert("F15"@[0] != "C-t"@[0]);
        assert("F15"@[0] != "C-u"@[0]);
        assert("F15"@[0] != "C-v"@[0]);
        assert("F15"@[0] != "C-w"@[0]);
        assert("F15"@[0] != "C-x"@[0]);
        assert("F15"@[0] != "C-y"@[0]);
        assert("F15"@[0] != "C-z"@[0]);
        assert("F15"@[0] != "C-["@[0]);
        assert("F15"@[0] != "ESC"@[0]);
        assert("F15"@[0] != "C-\\"@[0]);
        assert("F15"@[0] != "C-]"@[0]);
        assert("F15"@[0] != "C-^"@[0]);
        assert("F15"@[0] != "C-_"@[0]);
        assert("F15"@[0] != "C-?"@[0]);
        assert("F15"@[0] != "del"@[0]);
        assert("F15"@[0] != "end"@[0]);
        assert("F15"@[2] != "F10"@[2]);
        assert("F15"@[2] != "F11"@[2]);
        assert("F15"@[2] != "F12"@[2]);
        assert("F15"@[2] != "F13"@[2]);
        assert("F15"@[2] != "F14"@[2]);
    } else if n == 16 {
        assert(key_name(Key::Function(16)) =~= "F16"@);
        assert("F16"@[0] != "C-@"@[0]);
        assert("F16"@[0] != "C-a"@[0]);
        assert("F16"@[0] != "C-b"@[0]);
        assert("F16"@[0] != "C-c"@[0]);
        assert("F16"@[0] != "C-d"@[0]);
        assert("F16"@[0] != "C-e"@[0]);
        assert("F16"@[0] != "C-f"@[0]);
        assert("F16"@[0] != "C-g"@[0]);
        assert("F16"@[0] != "C-h"@[0]);
        assert("F16"@[0] != "C-i"@[0]);
        assert("F16"@[0] != "tab"@[0]);
        assert("F16"@[0] != "C-j"@[0]);
        assert("F16"@[0] != "C-k"@[0]);
        assert("F16"@[0] != "C-l"@[0]);
        assert("F16"@[0] != "C-m"@[0]);
        assert("F16"@[0] != "ret"@[0]);
        assert("F16"@[0] != "C-n"@[0]);
        assert("F16"@[0] != "C-o"@[0]);
        assert("F16"@[0] != "C-p"@[0]);
        assert("F16"@[0] != "C-q"@[0]);
        assert("F16"@[0] != "C-r"@[0]);
        assert("F16"@[0] != "C-s"@[0]);
        assert("F16"@[0] != "C-t"@[0]);
        assert("F16"@[0] != "C-u"@[0]);
        assert("F16"@[0] != "C-v"@[0]);
        assert("F16"@[0] != "C-w"@[0]);
        assert("F16"@[0] != "C-x"@[0]);
        assert("F16"@[0] != "C-y"@[0]);
        assert("F16"@[0] != "C-z"@[0]);
        assert("F16"@[0] != "C-["@[0]);
        assert("F16"@[0] != "ESC"@[0]);
        assert("F16"@[0] != "C-\\"@[0]);
        assert("F16"@[0] != "C-]"@[0]);
        assert("F16"@[0] != "C-^"@[0]);
        assert("F16"@[0] != "C-_"@[0]);
        assert("F16"@[0] != "C-?"@[0]);
        assert("F16"@[0] != "del"@[0]);
        assert("F16"@[0] != "end"@[0]);
        assert("F16"@[2] != "F10"@[2]);
        assert("F16"@[2] != "F11"@[2]);
        assert("F16"@[2] != "F12"@[2]);
        assert("F16"@[2] != "F13"@[2]);
        assert("F16"@[2] != "F14"@[2]);
        assert("F16"@[2] != "F15"@[2]);
    } else if n == 17 {
        assert(key_name(Key::Function(17)) =~= "F17"@);
        assert("F17"@[0] != "C-@"@[0]);
        assert("F17"@[0] != "C-a"@[0]);
        assert("F17"@[0] != "C-b"@[0]);
        assert("F17"@[0] != "C-c"@[0]);
        assert("F17"@[0] != "C-d"@[0]);
        assert("F17"@[0] != "C-e"@[0]);
        assert("F17"@[0] != "C-f"@[0]);
        assert("F17"@[0] != "C-g"@[0]);
        assert("F17"@[0] != "C-h"@[0]);
        assert("F17"@[0] != "C-i"@[0]);
        assert("F17"@[0] != "tab"@[0]);
        assert("F17"@[0] != "C-j"@[0]);
        assert("F17"@[0] != "C-k"@[0]);
        assert("F17"@[0] != "C-l"@[0]);
        assert("F17"@[0] != "C-m"@[0]);
        assert("F17"@[0] != "ret"@[0]);
        assert("F17"@[0] != "C-n"@[0]);
        assert("F17"@[0] != "C-o"@[0]);
        assert("F17"@[0] != "C-p"@[0]);
        assert("F17"@[0] != "C-q"@[0]);
        assert("F17"@[0] != "C-r"@[0]);
        assert("F17"@[0] != "C-s"@[0]);
        assert("F17"@[0] != "C-t"@[0]);
        assert("F17"@[0] != "C-u"@[0]);
        assert("F17"@[0] != "C-v"@[0]);
        assert("F17"@[0] != "C-w"@[0]);
        assert("F17"@[0] != "C-x"@[0]);
        assert("F17"@[0] != "C-y"@[0]);
        assert("F17"@[0] != "C-z"@[0]);
        assert("F17"@[0] != "C-["@[0]);
        assert("F17"@[0] != "ESC"@[0]);
        assert("F17"@[0] != "C-\\"@[0]);
        assert("F17"@[0] != "C-]"@[0]);
        assert("F17"@[0] != "C-^"@[0]);
        assert("F17"@[0] != "C-_"@[0]);
        assert("F17"@[0] != "C-?"@[0]);
        assert("F17"@[0] != "del"@[0]);
        assert("F17"@[0] != "end"@[0]);
        assert("F17"@[2] != "F10"@[2]);
        assert("F17"@[2] != "F11"@[2]);
        assert("F17"@[2] != "F12"@[2]);
        assert("F17"@[2] != "F13"@[2]);
        assert("F17"@[2] != "F14"@[2]);
        assert("F17"@[2] != "F15"@[2]);
        assert("F17"@[2] != "F16"@[2]);
    } else if n == 18 {
        assert(key_name(Key::Function(18)) =~= "F18"@);
        assert("F18"@[0] != "C-@"@[0]);
        assert("F18"@[0] != "C-a"@[0]);
        assert("F18"@[0] != "C-b"@[0]);
        assert("F18"@[0] != "C-c"@[0]);
        assert("F18"@[0] != "C-d"@[0]);
        assert("F18"@[0] != "C-e"@[0]);
        assert("F18"@[0] != "C-f"@[0]);
        assert("F18"@[0] != "C-g"@[0]);
        assert("F18"@[0] != "C-h"@[0]);
        assert("F18"@[0] != "C-i"@[0]);
        assert("F18"@[0] != "tab"@[0]);
        assert("F18"@[0] != "C-j"@[0]);
        assert("F18"@[0] != "C-k"@[0]);
        assert("F18"@[0] != "C-l"@[0]);
        assert("F18"@[0] != "C-m"@[0]);
        assert("F18"@[0] != "ret"@[0]);
        assert("F18"@[0] != "C-n"@[0]);
        assert("F18"@[0] != "C-o"@[0]);
        assert("F18"@[0] != "C-p"@[0]);
        assert("F18"@[0] != "C-q"@[0]);
        assert("F18"@[0] != "C-r"@[0]);
        assert("F18"@[0] != "C-s"@[0]);
        assert("F18"@[0] != "C-t"@[0]);
        assert("F18"@[0] != "C-u"@[0]);
        assert("F18"@[0] != "C-v"@[0]);
        assert("F18"@[0] != "C-w"@[0]);
        assert("F18"@[0] != "C-x"@[0]);
        assert("F18"@[0] != "C-y"@[0]);
        assert("F18"@[0] != "C-z"@[0]);
        assert("F18"@[0] != "C-["@[0]);
        assert("F18"@[0] != "ESC"@[0]);
        assert("F18"@[0] != "C-\\"@[0]);
        assert("F18"@[0] != "C-]"@[0]);
        assert("F18"@[0] != "C-^"@[0]);
        assert("F18"@[0] != "C-_"@[0]);
        assert("F18"@[0] != "C-?"@[0]);
        assert("F18"@[0] != "del"@[0]);
        assert("F18"@[0] != "end"@[0]);
        assert("F18"@[2] != "F10"@[2]);
        assert("F18"@[2] != "F11"@[2]);
        assert("F18"@[2] != "F12"@[2]);
        assert("F18"@[2] != "F13"@[2]);
        assert("F18"@[2] != "F14"@[2]);
        assert("F18"@[2] != "F15"@[2]);
        assert("F18"@[2] != "F16"@[2]);
        assert("F18"@[2] != "F17"@[2]);
    } else if n == 19 {
        assert(key_name(Key::Function(19)) =~= "F19"@);
        assert("F19"@[0] != "C-@"@[0]);
        assert("F19"@[0] != "C-a"@[0]);
        assert("F19"@[0] != "C-b"@[0]);
        assert("F19"@[0] != "C-c"@[0]);
        assert("F19"@[0] != "C-d"@[0]);
        assert("F19"@[0] != "C-e"@[0]);
        assert("F19"@[0] != "C-f"@[0]);
        assert("F19"@[0] != "C-g"@[0]);
        assert("F19"@[0] != "C-h"@[0]);
        assert("F19"@[0] != "C-i"@[0]);
        assert("F19"@[0] != "tab"@[0]);
        assert("F19"@[0] != "C-j"@[0]);
        assert("F19"@[0] != "C-k"@[0]);
        assert("F19"@[0] != "C-l"@[0]);
        assert("F19"@[0] != "C-m"@[0]);
        assert("F19"@[0] != "ret"@[0]);
        assert("F19"@[0] != "C-n"@[0]);
        assert("F19"@[0] != "C-o"@[0]);
        assert("F19"@[0] != "C-p"@[0]);
        assert("F19"@[0] != "C-q"@[0]);
        assert("F19"@[0] != "C-r"@[0]);
        assert("F19"@[0] != "C-s"@[0]);
        assert("F19"@[0] != "C-t"@[0]);
        assert("F19"@[0] != "C-u"@[0]);
        assert("F19"@[0] != "C-v"@[0]);
        assert("F19"@[0] != "C-w"@[0]);
        assert("F19"@[0] != "C-x"@[0]);
        assert("F19"@[0] != "C-y"@[0]);
        assert("F19"@[0] != "C-z"@[0]);
        assert("F19"@[0] != "C-["@[0]);
        assert("F19"@[0] != "ESC"@[0]);
        assert("F19"@[0] != "C-\\"@[0]);
        assert("F19"@[0] != "C-]"@[0]);
        assert("F19"@[0] != "C-^"@[0]);
        assert("F19"@[0] != "C-_"@[0]);
        assert("F19"@[0] != "C-?"@[0]);
        assert("F19"@[0] != "del"@[0]);
        assert("F19"@[0] != "end"@[0]);
        assert("F19"@[2] != "F10"@[2]);
        assert("F19"@[2] != "F11"@[2]);
        assert("F19"@[2] != "F12"@[2]);
        assert("F19"@[2] != "F13"@[2]);
        assert("F19"@[2] != "F14"@[2]);
        assert("F19"@[2] != "F15"@[2]);
        assert("F19"@[2] != "F16"@[2]);
        assert("F19"@[2] != "F17"@[2]);
        assert("F19"@[2] != "F18"@[2]);
    } else if n == 20 {
        assert(key_name(Key::Function(20)) =~= "F20"@);
        assert("F20"@[0] != "C-@"@[0]);
        assert("F20"@[0] != "C-a"@[0]);
        assert("F20"@[0] != "C-b"@[0]);
        assert("F20"@[0] != "C-c"@[0]);
        assert("F20"@[0] != "C-d"@[0]);
        assert("F20"@[0] != "C-e"@[0]);
        assert("F20"@[0] != "C-f"@[0]);
        assert("F20"@[0] != "C-g"@[0]);
        assert("F20"@[0] != "C-h"@[0]);
        assert("F20"@[0] != "C-i"@[0]);
        assert("F20"@[0] != "tab"@[0]);
        assert("F20"@[0] != "C-j"@[0]);
        assert("F20"@[0] != "C-k"@[0]);
        assert("F20"@[0] != "C-l"@[0]);
        assert("F20"@[0] != "C-m"@[0]);
        assert("F20"@[0] != "ret"@[0]);
        assert("F20"@[0] != "C-n"@[0]);
        assert("F20"@[0] != "C-o"@[0]);
        assert("F20"@[0] != "C-p"@[0]);
        assert("F20"@[0] != "C-q"@[0]);
        assert("F20"@[0] != "C-r"@[0]);
        assert("F20"@[0] != "C-s"@[0]);
        assert("F20"@[0] != "C-t"@[0]);
        assert("F20"@[0] != "C-u"@[0]);
        assert("F20"@[0] != "C-v"@[0]);
        assert("F20"@[0] != "C-w"@[0]);
        assert("F20"@[0] != "C-x"@[0]);
        assert("F20"@[0] != "C-y"@[0]);
        assert("F20"@[0] != "C-z"@[0]);
        assert("F20"@[0] != "C-["@[0]);
        assert("F20"@[0] != "ESC"@[0]);
        assert("F20"@[0] != "C-\\"@[0]);
        assert("F20"@[0] != "C-]"@[0]);
        assert("F20"@[0] != "C-^"@[0]);
        assert("F20"@[0] != "C-_"@[0]);
        assert("F20"@[0] != "C-?"@[0]);
        assert("F20"@[0] != "del"@[0]);
        assert("F20"@[0] != "end"@[0]);
        assert("F20"@[1] != "F10"@[1]);
        assert("F20"@[1] != "F11"@[1]);
        assert("F20"@[1] != "F12"@[1]);
        assert("F20"@[1] != "F13"@[1]);
        assert("F20"@[1] != "F14"@[1]);
        assert("F20"@[1] != "F15"@[1]);
        assert("F20"@[1] != "F16"@[1]);
        assert("F20"@[1] != "F17"@[1]);
        assert("F20"@[1] != "F18"@[1]);
        assert("F20"@[1] != "F19"@[1]);
    }
}

proof fn lemma_insert_round_trip(s: Shift, c: Ctrl)
    ensures
        key_of_name(key_name(Key::Insert(s, c))) == Some(Key::Insert(s, c)),
{
    lemma_name_literals();
    if s == Shift::Off && c == Ctrl::Off {
        assert(key_name(Key::Insert(Shift::Off, Ctrl::Off)) =~= "insert"@);
    } else if s == Shift::Off && c == Ctrl::On {
        assert(key_name(Key::Insert(Shift::Off, Ctrl::On)) =~= "C-insert"@);
        assert("C-insert"@[0] != "S-insert"@[0]);
    } else if s == Shift::On && c == Ctrl::Off {
        assert(key_name(Key::Insert(Shift::On, Ctrl::Off)) =~= "S-insert"@);
    } else if s == Shift::On && c == Ctrl::On {
        assert(key_name(Key::Insert(Shift::On, Ctrl::On)) =~= "S-C-insert"@);
    }
}

proof fn lemma_delete_round_trip(s: Shift, c: Ctrl)
    ensures
        key_of_name(key_name(Key::Delete(s, c))) == Some(Key::Delete(s, c)),
{
    lemma_name_literals();
    if s == Shift::Off && c == Ctrl::Off {
        assert(key_name(Key::Delete(Shift::Off, Ctrl::Off)) =~= "delete"@);
        assert("delete"@[0] != "insert"@[0]);
    } else if s == Shift::Off && c == Ctrl::On {
        assert(key_name(Key::Delete(Shift::Off, Ctrl::On)) =~= "C-delete"@);
        assert("C-delete"@[0] != "S-insert"@[0]);
        assert("C-delete"@[2] != "C-insert"@[2]);
        assert("C-delete"@[0] != "S-delete"@[0]);
    } else if s == Shift::On && c == Ctrl::Off {
        assert(key_name(Key::Delete(Shift::On, Ctrl::Off)) =~= "S-delete"@);
        assert("S-delete"@[2] != "S-insert"@[2]);
        assert("S-delete"@[0] != "C-insert"@[0]);
    } else if s == Shift::On && c == Ctrl::On {
        assert(key_name(Key::Delete(Shift::On, Ctrl::On)) =~= "S-C-delete"@);
        assert("S-C-delete"@[4] != "S-C-insert"@[4]);
    }
}

proof fn lemma_up_round_trip(s: Shift, c: Ctrl)
    ensures
        key_of_name(key_name(Key::Up(s, c))) == Some(Key::Up(s, c)),
{
    lemma_name_literals();
    if s == Shift::Off && c == Ctrl::Off {
        assert(key_name(Key::Up(Shift::Off, Ctrl::Off)) =~= "up"@);
    } else if s == Shift::Off && c == Ctrl::On {
        assert(key_name(Key::Up(Shift::Off, Ctrl::On)) =~= "C-up"@);
        assert("C-up"@[0] != "S-up"@[0]);
    } else if s == Shift::On && c == Ctrl::Off {
        assert(key_name(Key::Up(Shift::On, Ctrl::Off)) =~= "S-up"@);
    } else if s == Shift::On && c == Ctrl::On {
        assert(key_name(Key::Up(Shift::On, Ctrl::On)) =~= "S-C-up"@);
        assert("S-C-up"@[0] != "insert"@[0]);
        assert("S-C-up"@[0] != "delete"@[0]);
    }
}

proof fn lemma_down_round_trip(s: Shift, c: Ctrl)
    ensures
        key_of_name(key_name(Key::Down(s, c))) == Some(Key::Down(s, c)),
{
    lemma_name_literals();
    if s == Shift::Off && c == Ctrl::Off {
        assert(key_name(Key::Down(Shift::Off, Ctrl::Off)) =~= "down"@);
        assert("down"@[0] != "S-up"@[0]);
        assert("down"@[0] != "C-up"@[0]);
    } else if s == Shift::Off && c == Ctrl::On {
        assert(key_name(Key::Down(Shift::Off, Ctrl::On)) =~= "C-down"@);
        assert("C-down"@[0] != "insert"@[0]);
        assert("C-down"@[0] != "delete"@[0]);
        assert("C-down"@[0] != "S-C-up"@[0]);
        assert("C-down"@[0] != "S-down"@[0]);
    } else if s == Shift::On && c == Ctrl::Off {
        assert(key_name(Key::Down(Shift::On, Ctrl::Off)) =~= "S-down"@);
        assert("S-down"@[0] != "insert"@[0]);
        assert("S-down"@[0] != "delete"@[0]);
        assert("S-down"@[2] != "S-C-up"@[2]);
    } else if s == Shift::On && c == Ctrl::On {
        assert(key_name(Key::Down(Shift::On, Ctrl::On)) =~= "S-C-down"@);
        assert("S-C-down"@[2] != "S-insert"@[2]);
        assert("S-C-down"@[0] != "C-insert"@[0]);
        assert("S-C-down"@[2] != "S-delete"@[2]);
        assert("S-C-down"@[0] != "C-delete"@[0]);
    }
}

proof fn lemma_left_round_trip(s: Shift, c: Ctrl)
    ensures
        key_of_name(key_name(Key::Left(s, c))) == Some(Key::Left(s, c)),
{
    lemma_name_literals();
    if s == Shift::Off && c == Ctrl::Off {
        assert(key_name(Key::Left(Shift::Off, Ctrl::Off)) =~= "left"@);
        assert("left"@[0] != "S-up"@[0]);
        assert("left"@[0] != "C-up"@[0]);
        assert("left"@[0] != "down"@[0]);
    } else if s == Shift::Off && c == Ctrl::On {
        assert(key_name(Key::Left(Shift::Off, Ctrl::On)) =~= "C-left"@);
        assert("C-left"@[0] != "insert"@[0]);
        assert("C-left"@[0] != "delete"@[0]);
        assert("C-left"@[0] != "S-C-up"@[0]);
        assert("C-left"@[0] != "S-down"@[0]);
        assert("C-left"@[2] != "C-down"@[2]);
        assert("C-left"@[0] != "S-left"@[0]);
    } else if s == Shift::On && c == Ctrl::Off {
        assert(key_name(Key::Left(Shift::On, Ctrl::Off)) =~= "S-left"@);
        assert("S-left"@[0] != "insert"@[0]);
        assert("S-left"@[0] != "delete"@[0]);
        assert("S-left"@[2] != "S-C-up"@[2]);
        assert("S-left"@[2] != "S-down"@[2]);
        assert("S-left"@[0] != "C-down"@[0]);
    } else if s == Shift::On && c == Ctrl::On {
        assert(key_name(Key::Left(Shift::On, Ctrl::On)) =~= "S-C-left"@);
        assert("S-C-left"@[2] != "S-insert"@[2]);
        assert("S-C-left"@[0] != "C-insert"@[0]);
        assert("S-C-left"@[2] != "S-delete"@[2]);
        assert("S-C-left"@[0] != "C-delete"@[0]);
        assert("S-C-left"@[4] != "S-C-down"@[4]);
    }
}

proof fn lemma_right_round_trip(s: Shift, c: Ctrl)
    ensures
        key_of_name(key_name(Key::Right(s, c))) == Some(Key::Right(s, c)),
{
    lemma_name_literals();
    if s == Shift::Off && c == Ctrl::Off {
        assert(key_name(Key::Right(Shift::Off, Ctrl::Off)) =~= "right"@);
        assert("right"@[0] != "S-tab"@[0]);
    } else if s == Shift::Off && c == Ctrl::On {
        assert(key_name(Key::Right(Shift::Off, Ctrl::On)) =~= "C-right"@);
        assert("C-right"@[0] != "S-right"@[0]);
    } else if s == Shift::On && c == Ctrl::Off {
        assert(key_name(Key::Right(Shift::On, Ctrl::Off)) =~= "S-right"@);
    } else if s == Shift::On && c == Ctrl::On {
        assert(key_name(Key::Right(Shift::On, Ctrl::On)) =~= "S-C-right"@);
    }
}

proof fn lemma_home_round_trip(s: Shift, c: Ctrl)
    ensures
        key_of_name(key_name(Key::Home(s, c))) == Some(Key::Home(s, c)),
{
    lemma_name_literals();
    if s == Shift::Off && c == Ctrl::Off {
        assert(key_name(Key::Home(Shift::Off, Ctrl::Off)) =~= "home"@);
        assert("home"@[0] != "S-up"@[0]);
        assert("home"@[0] != "C-up"@[0]);
        assert("home"@[0] != "down"@[0]);
        assert("home"@[0] != "left"@[0]);
    } else if s == Shift::Off && c == Ctrl::On {
        assert(key_name(Key::Home(Shift::Off, Ctrl::On)) =~= "C-home"@);
        assert("C-home"@[0] != "insert"@[0]);
        assert("C-home"@[0] != "delete"@[0]);
        assert("C-home"@[0] != "S-C-up"@[0]);
        assert("C-home"@[0] != "S-down"@[0]);
        assert("C-home"@[2] != "C-down"@[2]);
        assert("C-home"@[0] != "S-left"@[0]);
        assert("C-home"@[2] != "C-left"@[2]);
        assert("C-home"@[0] != "S-home"@[0]);
    } else if s == Shift::On && c == Ctrl::Off {
        assert(key_name(Key::Home(Shift::On, Ctrl::Off)) =~= "S-home"@);
        assert("S-home"@[0] != "insert"@[0]);
        assert("S-home"@[0] != "delete"@[0]);
        assert("S-home"@[2] != "S-C-up"@[2]);
        assert("S-home"@[2] != "S-down"@[2]);
        assert("S-home"@[0] != "C-down"@[0]);
        assert("S-home"@[2] != "S-left"@[2]);
        assert("S-home"@[0] != "C-left"@[0]);
    } else if s == Shift::On && c == Ctrl::On {
        assert(key_name(Key::Home(Shift::On, Ctrl::On)) =~= "S-C-home"@);
        assert("S-C-home"@[2] != "S-insert"@[2]);
        assert("S-C-home"@[0] != "C-insert"@[0]);
        assert("S-C-home"@[2] != "S-delete"@[2]);
        assert("S-C-home"@[0] != "C-delete"@[0]);
        assert("S-C-home"@[4] != "S-C-down"@[4]);
        assert("S-C-home"@[4] != "S-C-left"@[4]);
    }
}

proof fn lemma_end_round_trip(s: Shift, c: Ctrl)
    ensures
        key_of_name(key_name(Key::End(s, c))) == Some(Key::End(s, c)),
{
    lemma_name_literals();
    if s == Shift::Off && c == Ctrl::Off {
        assert(key_name(Key::End(Shift::Off, Ctrl::Off)) =~= "end"@);
        assert("end"@[0] != "C-@"@[0]);
        assert("end"@[0] != "C-a"@[0]);
        assert("end"@[0] != "C-b"@[0]);
        assert("end"@[0] != "C-c"@[0]);
        assert("end"@[0] != "C-d"@[0]);
        assert("end"@[0] != "C-e"@[0]);
        assert("end"@[0] != "C-f"@[0]);
        assert("end"@[0] != "C-g"@[0]);
        assert("end"@[0] != "C-h"@[0]);
        assert("end"@[0] != "C-i"@[0]);
        assert("end"@[0] != "tab"@[0]);
        assert("end"@[0] != "C-j"@[0]);
        assert("end"@[0] != "C-k"@[0]);
        assert("end"@[0] != "C-l"@[0]);
        assert("end"@[0] != "C-m"@[0]);
        assert("end"@[0] != "ret"@[0]);
        assert("end"@[0] != "C-n"@[0]);
        assert("end"@[0] != "C-o"@[0]);
        assert("end"@[0] != "C-p"@[0]);
        assert("end"@[0] != "C-q"@[0]);
        assert("end"@[0] != "C-r"@[0]);
        assert("end"@[0] != "C-s"@[0]);
        assert("end"@[0] != "C-t"@[0]);
        assert("end"@[0] != "C-u"@[0]);
        assert("end"@[0] != "C-v"@[0]);
        assert("end"@[0] != "C-w"@[0]);
        assert("end"@[0] != "C-x"@[0]);
        assert("end"@[0] != "C-y"@[0]);
        assert("end"@[0] != "C-z"@[0]);
        assert("end"@[0] != "C-["@[0]);
        assert("end"@[0] != "ESC"@[0]);
        assert("end"@[0] != "C-\\"@[0]);
        assert("end"@[0] != "C-]"@[0]);
        assert("end"@[0] != "C-^"@[0]);
        assert("end"@[0] != "C-_"@[0]);
        assert("end"@[0] != "C-?"@[0]);
        assert("end"@[0] != "del"@[0]);
    } else if s == Shift::Off && c == Ctrl::On {
        assert(key_name(Key::End(Shift::Off, Ctrl::On)) =~= "C-end"@);
        assert("C-end"@[0] != "S-tab"@[0]);
        assert("C-end"@[0] != "right"@[0]);
        assert("C-end"@[0] != "S-end"@[0]);
    } else if s == Shift::On && c == Ctrl::Off {
        assert(key_name(Key::End(Shift::On, Ctrl::Off)) =~= "S-end"@);
        assert("S-end"@[2] != "S-tab"@[2]);
        assert("S-end"@[0] != "right"@[0]);
    } else if s == Shift::On && c == Ctrl::On {
        assert(key_name(Key::End(Shift::On, Ctrl::On)) =~= "S-C-end"@);
        assert("S-C-end"@[2] != "S-right"@[2]);
        assert("S-C-end"@[0] != "C-right"@[0]);
    }
}

proof fn lemma_page_up_round_trip(s: Shift, c: Ctrl)
    ensures
        key_of_name(key_name(Key::PageUp(s, c))) == Some(Key::PageUp(s, c)),
{
    lemma_name_literals();
    if s == Shift::Off && c == Ctrl::Off {
        assert(key_name(Key::PageUp(Shift::Off, Ctrl::Off)) =~= "pg_up"@);
        assert("pg_up"@[0] != "S-tab"@[0]);
        assert("pg_up"@[0] != "right"@[0]);
        assert("pg_up"@[0] != "S-end"@[0]);
        assert("pg_up"@[0] != "C-end"@[0]);
    } else if s == Shift::Off && c == Ctrl::On {
        assert(key_name(Key::PageUp(Shift::Off, Ctrl::On)) =~= "C-pg_up"@);
        assert("C-pg_up"@[0] != "S-right"@[0]);
        assert("C-pg_up"@[2] != "C-right"@[2]);
        assert("C-pg_up"@[0] != "S-C-end"@[0]);
        assert("C-pg_up"@[0] != "S-pg_up"@[0]);
    } else if s == Shift::On && c == Ctrl::Off {
        assert(key_name(Key::PageUp(Shift::On, Ctrl::Off)) =~= "S-pg_up"@);
        assert("S-pg_up"@[2] != "S-right"@[2]);
        assert("S-pg_up"@[0] != "C-right"@[0]);
        assert("S-pg_up"@[2] != "S-C-end"@[2]);
    } else if s == Shift::On && c == Ctrl::On {
        assert(key_name(Key::PageUp(Shift::On, Ctrl::On)) =~= "S-C-pg_up"@);
        assert("S-C-pg_up"@[4] != "S-C-right"@[4]);
    }
}

proof fn lemma_page_down_round_trip(s: Shift, c: Ctrl)
    ensures
        key_of_name(key_name(Key::PageDown(s, c))) == Some(Key::PageDown(s, c)),
{
    lemma_name_literals();
    if s == Shift::Off && c == Ctrl::Off {
        assert(key_name(Key::PageDown(Shift::Off, Ctrl::Off)) =~= "pg_down"@);
        assert("pg_down"@[0] != "S-right"@[0]);
        assert("pg_down"@[0] != "C-right"@[0]);
        assert("pg_down"@[0] != "S-C-end"@[0]);
        assert("pg_down"@[0] != "S-pg_up"@[0]);
        assert("pg_down"@[0] != "C-pg_up"@[0]);
    } else if s == Shift::Off && c == Ctrl::On {
        assert(key_name(Key::PageDown(Shift::Off, Ctrl::On)) =~= "C-pg_down"@);
        assert("C-pg_down"@[0] != "S-C-right"@[0]);
        assert("C-pg_down"@[0] != "S-C-pg_up"@[0]);
        assert("C-pg_down"@[0] != "S-pg_down"@[0]);
    } else if s == Shift::On && c == Ctrl::Off {
        assert(key_name(Key::PageDown(Shift::On, Ctrl::Off)) =~= "S-pg_down"@);
        assert("S-pg_down"@[2] != "S-C-right"@[2]);
        assert("S-pg_down"@[2] != "S-C-pg_up"@[2]);
    } else if s == Shift::On && c == Ctrl::On {
        assert(key_name(Key::PageDown(Shift::On, Ctrl::On)) =~= "S-C-pg_down"@);
    }
}

proof fn lemma_reverse_tab_round_trip()
    ensures
        key_of_name(key_name(Key::ReverseTab)) == Some(Key::ReverseTab),
{
    lemma_name_literals();
    assert(key_name(Key::ReverseTab) =~= "S-tab"@);
}

/// Names round-trip: the name under which every key with a predefined name is
/// shown reads back as that key.
pub proof fn lemma_key_names_round_trip(k: Key)
    requires
        named_key(k),
    ensures
        key_of_name(key_name(k)) == Some(k),
{
    match k {
        Key::Control(b) => lemma_control_round_trip(b),
        Key::ReverseTab => lemma_reverse_tab_round_trip(),
        Key::Insert(s, c) => lemma_insert_round_trip(s, c),
        Key::Delete(s, c) => lemma_delete_round_trip(s, c),
        Key::Up(s, c) => lemma_up_round_trip(s, c),
        Key::Down(s, c) => lemma_down_round_trip(s, c),
        Key::Left(s, c) => lemma_left_round_trip(s, c),
        Key::Right(s, c) => lemma_right_round_trip(s, c),
        Key::Home(s, c) => lemma_home_round_trip(s, c),
        Key::End(s, c) => lemma_end_round_trip(s, c),
        Key::PageUp(s, c) => lemma_page_up_round_trip(s, c),
        Key::PageDown(s, c) => lemma_page_down_round_trip(s, c),
        Key::Function(n) => lemma_function_round_trip(n),
        _ => {},
    }
}

} // verus!
