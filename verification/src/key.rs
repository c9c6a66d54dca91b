//! Decoding of terminal input into keys.
//!
//! A [`Keyboard`] holds the bytes that arrived from the terminal and not yet
//! consumed. [`Keyboard::read`] takes one key from the front of them: a plain
//! control byte or ASCII character, a `UTF-8` encoded character, or one of the
//! `ESC [`, `ESC O` and `ESC [<` sequences that terminals send for special keys and
//! mouse events.
//!
//! What `read` does is stated over the pending bytes by [`scan`], a function of
//! the byte sequence alone.

use crate::error::{Error, Result};
use crate::strings::{decimal, push_char, push_decimal, push_str, str_eq, to_string};
use vstd::prelude::*;
use vstd::utf8::*;

verus! {

/// The set of keys recognized by [`Keyboard`]s.
#[derive(Clone, Copy, PartialEq, Eq, Structural, Hash, Debug)]
pub enum Key {
    Nothing,
    Control(u8),
    Char(char),
    ReverseTab,
    Insert(Shift, Ctrl),
    Delete(Shift, Ctrl),
    Up(Shift, Ctrl),
    Down(Shift, Ctrl),
    Left(Shift, Ctrl),
    Right(Shift, Ctrl),
    Home(Shift, Ctrl),
    End(Shift, Ctrl),
    PageUp(Shift, Ctrl),
    PageDown(Shift, Ctrl),
    Function(u8),
    ScrollUp(Shift, u32, u32),
    ScrollDown(Shift, u32, u32),
    ScrollLeft(Shift, u32, u32),
    ScrollRight(Shift, u32, u32),
    ButtonPress(u32, u32),
    ButtonRelease(u32, u32),
}

/// Represents the state of the _SHIFT_ key for certain kinds of [`Key`]s.
#[derive(Clone, Copy, PartialEq, Eq, Structural, Hash, Debug)]
pub enum Shift {
    Off,
    On,
}

/// Represents the state of the _CONTROL_ key for certain kinds of [`Key`]s.
#[derive(Clone, Copy, PartialEq, Eq, Structural, Hash, Debug)]
pub enum Ctrl {
    Off,
    On,
}

// ---------------------------------------------------------------------------
// The meaning of key sequences.
// ---------------------------------------------------------------------------

/// The state of _SHIFT_ and _CONTROL_ given by an ANSI key modifier, which counts
/// from 1, so that the bits are read from `key_mod - 1` (in 8-bit arithmetic).
pub open spec fn mods_of(key_mod: u8) -> (Shift, Ctrl) {
    let m: u8 = if key_mod == 0 { 255 } else { (key_mod - 1) as u8 };
    let bits: u8 = m & 5;
    if bits == 1 {
        (Shift::On, Ctrl::Off)
    } else if bits == 4 {
        (Shift::Off, Ctrl::On)
    } else if bits == 5 {
        (Shift::On, Ctrl::On)
    } else {
        (Shift::Off, Ctrl::Off)
    }
}

/// The key of an xterm-style sequence `ESC [ code ; mod ~`.
pub open spec fn xterm_key(key_code: u8, key_mod: u8) -> Key {
    let (shift, ctrl) = mods_of(key_mod);
    if key_code == 1 || key_code == 7 {
        Key::Home(shift, ctrl)
    } else if key_code == 2 {
        Key::Insert(shift, ctrl)
    } else if key_code == 3 {
        Key::Delete(shift, ctrl)
    } else if key_code == 4 || key_code == 8 {
        Key::End(shift, ctrl)
    } else if key_code == 5 {
        Key::PageUp(shift, ctrl)
    } else if key_code == 6 {
        Key::PageDown(shift, ctrl)
    } else if shift == Shift::Off && ctrl == Ctrl::Off {
        if 11 <= key_code <= 15 {
            Key::Function((key_code - 10) as u8)
        } else if 17 <= key_code <= 21 {
            Key::Function((key_code - 11) as u8)
        } else if 23 <= key_code <= 26 {
            Key::Function((key_code - 12) as u8)
        } else if 28 <= key_code <= 29 {
            Key::Function((key_code - 13) as u8)
        } else if 31 <= key_code <= 34 {
            Key::Function((key_code - 14) as u8)
        } else {
            Key::Nothing
        }
    } else {
        Key::Nothing
    }
}

/// The key of a VT-style sequence `ESC [ 1 ; mod code`.
pub open spec fn vt_key(key_code: u8, key_mod: u8) -> Key {
    let (shift, ctrl) = mods_of(key_mod);
    if key_code == 0x41 {
        Key::Up(shift, ctrl)
    } else if key_code == 0x42 {
        Key::Down(shift, ctrl)
    } else if key_code == 0x43 {
        Key::Right(shift, ctrl)
    } else if key_code == 0x44 {
        Key::Left(shift, ctrl)
    } else if key_code == 0x46 {
        Key::End(shift, ctrl)
    } else if key_code == 0x48 {
        Key::Home(shift, ctrl)
    } else if key_code == 0x5a {
        Key::ReverseTab
    } else if shift == Shift::Off && ctrl == Ctrl::Off && 0x50 <= key_code <= 0x53 {
        Key::Function((key_code - 0x50 + 1) as u8)
    } else {
        Key::Nothing
    }
}

/// The key of the sequence `ESC O b`.
pub open spec fn ss3_key(b: u8) -> Key {
    if b == 0x41 {
        Key::Up(Shift::Off, Ctrl::Off)
    } else if b == 0x42 {
        Key::Down(Shift::Off, Ctrl::Off)
    } else if b == 0x43 {
        Key::Right(Shift::Off, Ctrl::Off)
    } else if b == 0x44 {
        Key::Left(Shift::Off, Ctrl::Off)
    } else if b == 0x46 {
        Key::End(Shift::Off, Ctrl::Off)
    } else if b == 0x48 {
        Key::Home(Shift::Off, Ctrl::Off)
    } else if 0x50 <= b <= 0x53 {
        Key::Function((b - 0x50 + 1) as u8)
    } else {
        Key::Nothing
    }
}

/// The key of the mouse sequence `ESC [< button ; col ; row final`, with `row`
/// and `col` already made zero-based.
pub open spec fn mouse_key(button: u32, row: u32, col: u32, fin: u8) -> Key {
    if button & 64 == 0 {
        if fin == 0x4d {
            Key::ButtonPress(row, col)
        } else {
            Key::ButtonRelease(row, col)
        }
    } else {
        let shift = if button & 4 == 0 { Shift::Off } else { Shift::On };
        let dir = button & 3;
        if dir == 0 {
            Key::ScrollUp(shift, row, col)
        } else if dir == 1 {
            Key::ScrollDown(shift, row, col)
        } else if dir == 2 {
            Key::ScrollRight(shift, row, col)
        } else {
            Key::ScrollLeft(shift, row, col)
        }
    }
}

/// Maps an xterm-style key code and modifier to a key.
fn map_xterm(key_code: u8, key_mod: u8) -> (k: Key)
    ensures
        k == xterm_key(key_code, key_mod),
{
    let (shift, ctrl) = map_mods(key_mod);
    if key_code == 1 || key_code == 7 {
        Key::Home(shift, ctrl)
    } else if key_code == 2 {
        Key::Insert(shift, ctrl)
    } else if key_code == 3 {
        Key::Delete(shift, ctrl)
    } else if key_code == 4 || key_code == 8 {
        Key::End(shift, ctrl)
    } else if key_code == 5 {
        Key::PageUp(shift, ctrl)
    } else if key_code == 6 {
        Key::PageDown(shift, ctrl)
    } else if shift == Shift::Off && ctrl == Ctrl::Off {
        if 11 <= key_code && key_code <= 15 {
            Key::Function(key_code - 10)
        } else if 17 <= key_code && key_code <= 21 {
            Key::Function(key_code - 11)
        } else if 23 <= key_code && key_code <= 26 {
            Key::Function(key_code - 12)
        } else if 28 <= key_code && key_code <= 29 {
            Key::Function(key_code - 13)
        } else if 31 <= key_code && key_code <= 34 {
            Key::Function(key_code - 14)
        } else {
            Key::Nothing
        }
    } else {
        Key::Nothing
    }
}

/// Maps a VT-style key code and modifier to a key.
fn map_vt(key_code: u8, key_mod: u8) -> (k: Key)
    ensures
        k == vt_key(key_code, key_mod),
{
    let (shift, ctrl) = map_mods(key_mod);
    if key_code == 0x41 {
        Key::Up(shift, ctrl)
    } else if key_code == 0x42 {
        Key::Down(shift, ctrl)
    } else if key_code == 0x43 {
        Key::Right(shift, ctrl)
    } else if key_code == 0x44 {
        Key::Left(shift, ctrl)
    } else if key_code == 0x46 {
        Key::End(shift, ctrl)
    } else if key_code == 0x48 {
        Key::Home(shift, ctrl)
    } else if key_code == 0x5a {
        Key::ReverseTab
    } else if shift == Shift::Off && ctrl == Ctrl::Off && 0x50 <= key_code && key_code <= 0x53 {
        Key::Function(key_code - 0x50 + 1)
    } else {
        Key::Nothing
    }
}

/// Returns the state of _SHIFT_ and _CONTROL_ keys based on the given modifier.
fn map_mods(key_mod: u8) -> (r: (Shift, Ctrl))
    ensures
        r == mods_of(key_mod),
{
    // Modifiers count from 1, hence the subtraction before applying the bitmask of
    // SHIFT (0x01) and CONTROL (0x04).
    let m: u8 = if key_mod == 0 { 255 } else { key_mod - 1 };
    let bits: u8 = m & 5;
    if bits == 1 {
        (Shift::On, Ctrl::Off)
    } else if bits == 4 {
        (Shift::Off, Ctrl::On)
    } else if bits == 5 {
        (Shift::On, Ctrl::On)
    } else {
        (Shift::Off, Ctrl::Off)
    }
}


// ---------------------------------------------------------------------------
// The meaning of a sequence of bytes.
// ---------------------------------------------------------------------------

/// True for the ASCII digits.
pub open spec fn is_digit(b: u8) -> bool {
    0x30 <= b <= 0x39
}

/// The number of ASCII digits at the front of `s`.
pub open spec fn digit_run(s: Seq<u8>) -> nat
    decreases s.len(),
{
    if s.len() > 0 && is_digit(s[0]) {
        1 + digit_run(s.skip(1))
    } else {
        0
    }
}

/// `10 * n + d`, where each of the two steps saturates at `u32::MAX`.
pub open spec fn saturating_step(n: u32, d: u32) -> u32 {
    let m: int = if n * 10 > u32::MAX { u32::MAX as int } else { n * 10 };
    if m + d > u32::MAX {
        u32::MAX
    } else {
        (m + d) as u32
    }
}

/// The value of the first `k` bytes of `s`, read as decimal digits with
/// saturating arithmetic.
pub open spec fn digits_value(s: Seq<u8>, k: nat) -> u32
    decreases k,
{
    if k == 0 {
        0
    } else {
        saturating_step(digits_value(s, (k - 1) as nat), (s[k - 1] - 0x30) as u32)
    }
}

/// The number written at the front of `s`, if any, and the count of its digits.
pub open spec fn number(s: Seq<u8>) -> (Option<u32>, int) {
    let k = digit_run(s);
    if k == 0 {
        (None, 0)
    } else {
        (Some(digits_value(s, k)), k as int)
    }
}

/// A key code or modifier: the number, at least 1; meaningful where the number
/// fits in 8 bits (see [`fits_code`]).
pub open spec fn code_of(n: u32) -> u8 {
    (if n < 1 { 1 } else { n }) as u8
}

/// A key code or modifier can be no larger than 255: a sequence with a larger one
/// is not recognized.
pub open spec fn fits_code(n: u32) -> bool {
    n <= 255
}

/// The key `k`, or [`Key::Nothing`] where `ok` does not hold.
pub open spec fn key_if(ok: bool, k: (Key, int)) -> (Key, int) {
    (if ok { k.0 } else { Key::Nothing }, k.1)
}

/// The key given by the final byte `b` of a sequence `ESC [ code ; mod b`.
pub open spec fn csi_final_key(b: u8, code: Option<u8>, key_mod: Option<u8>) -> Key {
    if b == 0x7e {
        // Xterm-style sequences need a key code.
        match code {
            Some(c) => xterm_key(c, match key_mod { Some(m) => m, None => 1 }),
            None => Key::Nothing,
        }
    } else {
        // In VT-style sequences a key code may only be 1, followed by a modifier;
        // a key code alone is read as the modifier.
        match key_mod {
            Some(m) => if code == Some(1u8) { vt_key(b, m) } else { Key::Nothing },
            None => vt_key(b, match code { Some(c) => c, None => 1 }),
        }
    }
}

/// The key at offset `i` of `t` that ends a sequence with the given parameters,
/// and the offset after it.
pub open spec fn csi_final(t: Seq<u8>, i: int, code: Option<u8>, key_mod: Option<u8>) -> (Key, int) {
    if i < t.len() {
        (csi_final_key(t[i], code, key_mod), i + 1)
    } else {
        (Key::Nothing, i)
    }
}

/// The key of the parameters and final byte of a sequence `ESC [ ...` at the
/// front of `t`, and the number of bytes it takes.
pub open spec fn scan_params(t: Seq<u8>) -> (Key, int) {
    let (c, n1) = number(t);
    match c {
        None => csi_final(t, 0, None, None),
        Some(cv) => {
            if n1 < t.len() && t[n1] == 0x3b {
                let (m, n2) = number(t.skip(n1 + 1));
                match m {
                    None => (Key::Nothing, n1 + 1),
                    Some(mv) => key_if(
                        fits_code(cv) && fits_code(mv),
                        csi_final(t, n1 + 1 + n2, Some(code_of(cv)), Some(code_of(mv))),
                    ),
                }
            } else {
                key_if(fits_code(cv), csi_final(t, n1, Some(code_of(cv)), None))
            }
        }
    }
}

/// `n - 1`, or 0 for 0.
pub open spec fn zero_based(n: u32) -> u32 {
    if n == 0 { 0 } else { (n - 1) as u32 }
}

/// The key of a mouse sequence `ESC [< button ; col ; row M` (or `m`) whose part
/// after `ESC [<` is at the front of `t`, and the number of bytes it takes.
pub open spec fn scan_mouse(t: Seq<u8>) -> (Key, int) {
    let (button, n1) = number(t);
    if button is None {
        (Key::Nothing, 0)
    } else if !(n1 < t.len() && t[n1] == 0x3b) {
        (Key::Nothing, n1)
    } else {
        let (col, n2) = number(t.skip(n1 + 1));
        let i2 = n1 + 1 + n2;
        if col is None {
            (Key::Nothing, n1 + 1)
        } else if !(i2 < t.len() && t[i2] == 0x3b) {
            (Key::Nothing, i2)
        } else {
            let (row, n3) = number(t.skip(i2 + 1));
            let i3 = i2 + 1 + n3;
            if row is None {
                (Key::Nothing, i2 + 1)
            } else if i3 < t.len() && (t[i3] == 0x4d || t[i3] == 0x6d) {
                (mouse_key(button->0, zero_based(row->0), zero_based(col->0), t[i3]), i3 + 1)
            } else {
                (Key::Nothing, i3)
            }
        }
    }
}

/// The key of a sequence `ESC [ ...` whose part after `ESC [` is at the front of
/// `t`, and the number of bytes it takes.
pub open spec fn scan_csi(t: Seq<u8>) -> (Key, int) {
    if t.len() == 0 {
        (Key::Nothing, 0)
    } else if t[0] == 0x3c {
        let (k, n) = scan_mouse(t.skip(1));
        (k, n + 1)
    } else {
        scan_params(t)
    }
}

/// The key of a sequence `ESC O b` whose part after `ESC O` is at the front of
/// `t`, and the number of bytes it takes.
pub open spec fn scan_ss3(t: Seq<u8>) -> (Key, int) {
    if t.len() == 0 {
        (Key::Nothing, 0)
    } else {
        (ss3_key(t[0]), 1)
    }
}

/// The key of what follows an `ESC` at the front of `t`, and the number of bytes
/// it takes after the `ESC`. An `ESC` that starts no known sequence is a key of
/// its own.
pub open spec fn scan_escape(t: Seq<u8>) -> (Key, int) {
    if t.len() > 0 && t[0] == 0x5b {
        let (k, n) = scan_csi(t.skip(1));
        (k, n + 1)
    } else if t.len() > 0 && t[0] == 0x4f {
        let (k, n) = scan_ss3(t.skip(1));
        (k, n + 1)
    } else {
        (Key::Control(27), 0)
    }
}


/// The number of leading one bits of `b`, which is the length that a `UTF-8`
/// leading byte announces for its sequence.
pub open spec fn lead_ones(b: u8) -> int {
    if b < 0x80 {
        0
    } else if b < 0xc0 {
        1
    } else if b < 0xe0 {
        2
    } else if b < 0xf0 {
        3
    } else if b < 0xf8 {
        4
    } else if b < 0xfc {
        5
    } else if b < 0xfe {
        6
    } else if b < 0xff {
        7
    } else {
        8
    }
}

/// Of a sequence of bytes as long as its leading byte announces (2 to 4), the
/// length of the invalid part that std's `from_utf8` reports, or 0 when the
/// sequence is valid.
pub open spec fn invalid_prefix_len(buf: Seq<u8>) -> int {
    let b0 = buf[0];
    if 0xc2 <= b0 <= 0xdf {
        if is_continuation_byte(buf[1]) { 0 } else { 1 }
    } else if 0xe0 <= b0 <= 0xef {
        let b1 = buf[1];
        if !((b0 == 0xe0 && 0xa0 <= b1 <= 0xbf) || (0xe1 <= b0 <= 0xec && 0x80 <= b1 <= 0xbf)
            || (b0 == 0xed && 0x80 <= b1 <= 0x9f) || (0xee <= b0 <= 0xef && 0x80 <= b1 <= 0xbf)) {
            1
        } else if !is_continuation_byte(buf[2]) {
            2
        } else {
            0
        }
    } else if 0xf0 <= b0 <= 0xf4 {
        let b1 = buf[1];
        if !((b0 == 0xf0 && 0x90 <= b1 <= 0xbf) || (0xf1 <= b0 <= 0xf3 && 0x80 <= b1 <= 0xbf) || (
        b0 == 0xf4 && 0x80 <= b1 <= 0x8f)) {
            1
        } else if !is_continuation_byte(buf[2]) {
            2
        } else if !is_continuation_byte(buf[3]) {
            3
        } else {
            0
        }
    } else {
        1
    }
}

/// The description of the decoding error of such a sequence, as std's
/// `Utf8Error` gives it.
pub open spec fn utf8_cause(buf: Seq<u8>) -> Seq<char> {
    "invalid utf-8 sequence of "@ + decimal(invalid_prefix_len(buf) as nat) + " bytes from index 0"@
}

/// The key of a `UTF-8` sequence at the front of `s`, whose first byte is not
/// ASCII, and the number of bytes it takes; `None` for a malformed sequence of
/// that many bytes.
///
/// Sequences are limited to 2-4 bytes: any other length yields [`Key::Nothing`],
/// as does a sequence cut short by the end of the input.
pub open spec fn scan_unicode(s: Seq<u8>) -> (Option<Key>, int) {
    let n = lead_ones(s[0]);
    if n < 2 || n > 4 {
        (Some(Key::Nothing), 1)
    } else if s.len() < n {
        (Some(Key::Nothing), s.len() as int)
    } else if valid_utf8(s.take(n)) {
        (Some(Key::Char(decode_first_scalar(s.take(n)) as char)), n)
    } else {
        (None, n)
    }
}

/// The key at the front of the pending bytes `s`, and the number of bytes it
/// takes; `None` for a malformed `UTF-8` sequence of that many bytes.
///
/// With no pending bytes the key is [`Key::Nothing`].
pub open spec fn scan(s: Seq<u8>) -> (Option<Key>, int) {
    if s.len() == 0 {
        (Some(Key::Nothing), 0)
    } else if s[0] == 27 {
        let (k, n) = scan_escape(s.skip(1));
        (Some(k), n + 1)
    } else if s[0] < 32 || s[0] == 127 {
        (Some(Key::Control(s[0])), 1)
    } else if s[0] < 127 {
        (Some(Key::Char(s[0] as char)), 1)
    } else {
        scan_unicode(s)
    }
}

// ---------------------------------------------------------------------------
// The keyboard.
// ---------------------------------------------------------------------------

/// A keyboard that holds the bytes read from the terminal and produces the
/// corresponding [`Key`]s.
///
/// Its view is the sequence of bytes not yet consumed.
pub struct Keyboard {
    input: Vec<u8>,
    pos: usize,
}

impl View for Keyboard {
    type V = Seq<u8>;

    closed spec fn view(&self) -> Seq<u8> {
        self.input@.subrange(self.pos as int, self.input@.len() as int)
    }
}

/// The bytes that `after` has consumed beyond `before`: `n` of them, with the
/// bytes themselves unchanged.
spec fn advanced(before: Keyboard, after: Keyboard, n: int) -> bool {
    &&& after.wf()
    &&& after.input@ == before.input@
    &&& after.pos == before.pos + n
}

impl Keyboard {
    /// The keyboard's internal consistency.
    pub closed spec fn wf(&self) -> bool {
        self.pos <= self.input@.len()
    }

    /// Creates a keyboard with no pending bytes.
    pub fn new() -> (k: Keyboard)
        ensures
            k.wf(),
            k@ == Seq::<u8>::empty(),
    {
        let k = Keyboard { input: Vec::new(), pos: 0 };
        assert(k@ =~= Seq::<u8>::empty());
        k
    }

    /// Appends `bytes`, read from the terminal, to the pending bytes.
    pub fn feed(&mut self, bytes: &[u8])
        requires
            old(self).wf(),
        ensures
            final(self).wf(),
            final(self)@ == old(self)@ + bytes@,
    {
        if self.pos == self.input.len() {
            self.input.clear();
            self.pos = 0;
        }
        let ghost base = self.input@;
        let ghost p = self.pos;
        assert(base.subrange(p as int, base.len() as int) =~= old(self)@);
        let mut i: usize = 0;
        while i < bytes.len()
            invariant
                p <= base.len(),
                i <= bytes@.len(),
                self.pos == p,
                self.input@ == base + bytes@.take(i as int),
            decreases bytes@.len() - i,
        {
            self.input.push(bytes[i]);
            i = i + 1;
            assert(self.input@ =~= base + bytes@.take(i as int));
        }
        assert(bytes@.take(bytes@.len() as int) =~= bytes@);
        assert(self@ =~= old(self)@ + bytes@);
    }

    /// Returns the next pending byte without consuming it.
    fn peek(&self) -> (r: Option<u8>)
        requires
            self.wf(),
        ensures
            r == (if self@.len() > 0 { Some(self@[0]) } else { None::<u8> }),
    {
        if self.pos < self.input.len() {
            Some(self.input[self.pos])
        } else {
            None
        }
    }

    /// Consumes the next pending byte.
    fn bump(&mut self)
        requires
            old(self).wf(),
            old(self)@.len() > 0,
        ensures
            advanced(*old(self), *final(self), 1),
    {
        let len = self.input.len();
        assert(self@.len() == len - self.pos);
        self.pos = self.pos + 1;
    }

    /// Consumes the next byte if it is an ASCII digit, returning its value.
    fn read_digit(&mut self) -> (r: Option<u32>)
        requires
            old(self).wf(),
        ensures
            old(self)@.len() > 0 && is_digit(old(self)@[0]) ==> r == Some(
                (old(self)@[0] - 0x30) as u32,
            ) && advanced(*old(self), *final(self), 1),
            !(old(self)@.len() > 0 && is_digit(old(self)@[0])) ==> r is None && advanced(
                *old(self),
                *final(self),
                0,
            ),
    {
        match self.peek() {
            Some(b) => {
                if 0x30 <= b && b <= 0x39 {
                    self.bump();
                    Some((b - 0x30) as u32)
                } else {
                    None
                }
            },
            None => None,
        }
    }

    /// Reads a number until a byte that is not an ASCII digit.
    fn read_number(&mut self) -> (r: Option<u32>)
        requires
            old(self).wf(),
        ensures
            advanced(*old(self), *final(self), number(old(self)@).1),
            r == number(old(self)@).0,
    {
        let ghost s = self@;
        let ghost p0 = self.pos as int;
        match self.read_digit() {
            None => {
                proof {
                    lemma_digit_run(s, 0);
                }
                None
            },
            Some(d) => {
                let mut n: u32 = d;
                assert(digits_value(s, 1) == d) by {
                    reveal_with_fuel(digits_value, 2);
                }
                let mut more = true;
                while more
                    invariant
                        self.wf(),
                        self.input@ == old(self).input@,
                        s == old(self)@,
                        p0 == old(self).pos,
                        p0 + 1 <= self.pos <= p0 + s.len(),
                        self@ == s.skip(self.pos - p0),
                        forall|i: int| 0 <= i < self.pos - p0 ==> is_digit(#[trigger] s[i]),
                        n == digits_value(s, (self.pos - p0) as nat),
                        !more ==> (self.pos - p0 == s.len() || !is_digit(s[self.pos - p0])),
                    decreases s.len() - (self.pos - p0), (if more { 1int } else { 0int }),
                {
                    let ghost j = self.pos - p0;
                    match self.read_digit() {
                        Some(d) => {
                            n = step(n, d);
                            assert(self@ =~= s.skip(self.pos - p0));
                        },
                        None => {
                            more = false;
                        },
                    }
                }
                proof {
                    lemma_digit_run(s, self.pos - p0);
                }
                Some(n)
            },
        }
    }

    /// Consumes the next byte if it is `a` or `b`, returning it.
    fn read_literal(&mut self, a: u8, b: u8) -> (r: Option<u8>)
        requires
            old(self).wf(),
        ensures
            old(self)@.len() > 0 && (old(self)@[0] == a || old(self)@[0] == b) ==> r == Some(
                old(self)@[0],
            ) && advanced(*old(self), *final(self), 1),
            !(old(self)@.len() > 0 && (old(self)@[0] == a || old(self)@[0] == b)) ==> r is None
                && advanced(*old(self), *final(self), 0),
    {
        match self.peek() {
            Some(c) => {
                if c == a || c == b {
                    self.bump();
                    Some(c)
                } else {
                    None
                }
            },
            None => None,
        }
    }
}

impl Keyboard {
    /// Reads the byte that ends a sequence `ESC [ code ; mod b`.
    fn read_final(&mut self, code: Option<u8>, key_mod: Option<u8>) -> (k: Key)
        requires
            old(self).wf(),
        ensures
            advanced(*old(self), *final(self), csi_final(old(self)@, 0, code, key_mod).1),
            k == csi_final(old(self)@, 0, code, key_mod).0,
    {
        match self.peek() {
            Some(b) => {
                self.bump();
                final_key(b, code, key_mod)
            },
            None => Key::Nothing,
        }
    }

    /// Reads the parameters and final byte of a sequence prefixed with `ESC [`.
    ///
    /// An optional key code may be followed by a key modifier after `;`.
    fn read_params(&mut self) -> (k: Key)
        requires
            old(self).wf(),
        ensures
            advanced(*old(self), *final(self), scan_params(old(self)@).1),
            k == scan_params(old(self)@).0,
    {
        let ghost s = self@;
        let ghost k0 = *self;
        match self.read_number() {
            None => self.read_final(None, None),
            Some(c) => {
                let ghost n1 = number(s).1;
                proof {
                    lemma_advanced(k0, *self, n1);
                }
                let code = narrow(c);
                let ghost k1 = *self;
                match self.read_literal(0x3b, 0x3b) {
                    Some(_) => {
                        proof {
                            lemma_advanced(k1, *self, 1);
                            assert(self@ =~= s.skip(n1 + 1));
                        }
                        match self.read_number() {
                            None => Key::Nothing,
                            Some(m) => {
                                let ghost k2 = *self;
                                proof {
                                    lemma_advanced(k1, k2, 1 + number(s.skip(n1 + 1)).1);
                                    assert(self@ =~= s.skip(n1 + 1 + number(s.skip(n1 + 1)).1));
                                }
                                let key_mod = narrow(m);
                                let k = self.read_final(Some(code), Some(key_mod));
                                if c <= 255 && m <= 255 { k } else { Key::Nothing }
                            },
                        }
                    },
                    None => {
                        let k = self.read_final(Some(code), None);
                        if c <= 255 { k } else { Key::Nothing }
                    },
                }
            },
        }
    }

    /// Reads a mouse sequence prefixed with `ESC [<`.
    fn read_mouse(&mut self) -> (k: Key)
        requires
            old(self).wf(),
        ensures
            advanced(*old(self), *final(self), scan_mouse(old(self)@).1),
            k == scan_mouse(old(self)@).0,
    {
        let ghost t = self@;
        let ghost k0 = *self;
        let button = match self.read_number() {
            Some(button) => button,
            None => return Key::Nothing,
        };
        let ghost n1 = number(t).1;
        proof {
            lemma_advanced(k0, *self, n1);
        }
        if self.read_literal(0x3b, 0x3b).is_none() {
            return Key::Nothing;
        }
        proof {
            lemma_advanced(k0, *self, n1 + 1);
            assert(self@ =~= t.skip(n1 + 1));
        }
        let col = match self.read_number() {
            Some(col) => zero_based_of(col),
            None => return Key::Nothing,
        };
        let ghost i2 = n1 + 1 + number(t.skip(n1 + 1)).1;
        proof {
            lemma_advanced(k0, *self, i2);
        }
        if self.read_literal(0x3b, 0x3b).is_none() {
            return Key::Nothing;
        }
        proof {
            lemma_advanced(k0, *self, i2 + 1);
            assert(self@ =~= t.skip(i2 + 1));
        }
        let row = match self.read_number() {
            Some(row) => zero_based_of(row),
            None => return Key::Nothing,
        };
        let ghost i3 = i2 + 1 + number(t.skip(i2 + 1)).1;
        proof {
            lemma_advanced(k0, *self, i3);
        }
        match self.read_literal(0x4d, 0x6d) {
            Some(b) => mouse_event(button, row, col, b),
            None => Key::Nothing,
        }
    }

    /// Reads a sequence prefixed with `ESC [`.
    ///
    /// Only the most common sequences are recognized; for the others, and for
    /// malformed ones, the key is [`Key::Nothing`].
    fn read_csi(&mut self) -> (k: Key)
        requires
            old(self).wf(),
        ensures
            advanced(*old(self), *final(self), scan_csi(old(self)@).1),
            k == scan_csi(old(self)@).0,
    {
        let ghost t = self@;
        let ghost k0 = *self;
        match self.peek() {
            Some(b) => {
                if b == 0x3c {
                    self.bump();
                    proof {
                        lemma_advanced(k0, *self, 1);
                    }
                    self.read_mouse()
                } else {
                    self.read_params()
                }
            },
            None => Key::Nothing,
        }
    }

    /// Reads a sequence prefixed with `ESC O`.
    fn read_ss3(&mut self) -> (k: Key)
        requires
            old(self).wf(),
        ensures
            advanced(*old(self), *final(self), scan_ss3(old(self)@).1),
            k == scan_ss3(old(self)@).0,
    {
        match self.peek() {
            Some(b) => {
                self.bump();
                map_ss3(b)
            },
            None => Key::Nothing,
        }
    }

    /// Reads what follows an `ESC`: an ANSI escape sequence in most cases, or
    /// nothing, in which case the key is `ESC` itself.
    fn read_escape(&mut self) -> (k: Key)
        requires
            old(self).wf(),
        ensures
            advanced(*old(self), *final(self), scan_escape(old(self)@).1),
            k == scan_escape(old(self)@).0,
    {
        let ghost k0 = *self;
        match self.peek() {
            Some(b) => {
                if b == 0x5b {
                    self.bump();
                    proof {
                        lemma_advanced(k0, *self, 1);
                    }
                    self.read_csi()
                } else if b == 0x4f {
                    self.bump();
                    proof {
                        lemma_advanced(k0, *self, 1);
                    }
                    self.read_ss3()
                } else {
                    Key::Control(27)
                }
            },
            None => Key::Control(27),
        }
    }
}

impl Keyboard {
    /// Reads the next key.
    ///
    /// The key is [`Key::Nothing`] when no bytes are pending, and when the bytes
    /// are unrecognized or cut short. Bytes are taken as `UTF-8`; a malformed
    /// sequence is an [`Error::Utf8`] holding its bytes.
    pub fn read(&mut self) -> (r: Result<Key>)
        requires
            old(self).wf(),
        ensures
            final(self).wf(),
            final(self)@ == old(self)@.skip(scan(old(self)@).1),
            scan(old(self)@).0 matches Some(k) ==> (r matches Ok(kk) && kk == k),
            scan(old(self)@).0 is None ==> (r matches Err(Error::Utf8 { bytes, cause }) && bytes@
                == old(self)@.take(scan(old(self)@).1) && cause@ == utf8_cause(bytes@)),
    {
        let ghost k0 = *self;
        match self.peek() {
            Some(b) => {
                if b >= 128 {
                    let r = self.read_unicode();
                    proof {
                        lemma_advanced(k0, *self, scan(k0@).1);
                    }
                    r
                } else {
                    let key = if b == 27 {
                        self.bump();
                        proof {
                            lemma_advanced(k0, *self, 1);
                        }
                        self.read_escape()
                    } else if b < 32 || b == 127 {
                        self.bump();
                        Key::Control(b)
                    } else {
                        self.bump();
                        Key::Char(b as char)
                    };
                    proof {
                        lemma_advanced(k0, *self, scan(k0@).1);
                    }
                    Ok(key)
                }
            },
            None => {
                proof {
                    lemma_advanced(k0, *self, 0);
                }
                Ok(Key::Nothing)
            },
        }
    }

    /// Reads a `UTF-8` sequence whose leading byte is the next pending byte.
    fn read_unicode(&mut self) -> (r: Result<Key>)
        requires
            old(self).wf(),
            old(self)@.len() > 0,
            old(self)@[0] >= 0x80,
        ensures
            advanced(*old(self), *final(self), scan_unicode(old(self)@).1),
            scan_unicode(old(self)@).0 matches Some(k) ==> (r matches Ok(kk) && kk == k),
            scan_unicode(old(self)@).0 is None ==> (r matches Err(Error::Utf8 { bytes, cause })
                && bytes@ == old(self)@.take(scan_unicode(old(self)@).1) && cause@ == utf8_cause(
                bytes@,
            )),
    {
        let ghost s = self@;
        let b = self.input[self.pos];
        let n: usize = if b < 0xc0 {
            1
        } else if b < 0xe0 {
            2
        } else if b < 0xf0 {
            3
        } else if b < 0xf8 {
            4
        } else {
            5
        };
        if n < 2 || n > 4 {
            self.bump();
            return Ok(Key::Nothing);
        }
        let len = self.input.len();
        if len - self.pos < n {
            self.pos = len;
            return Ok(Key::Nothing);
        }
        let mut buf: Vec<u8> = Vec::new();
        let mut i: usize = 0;
        while i < n
            invariant
                self.wf(),
                self.input@ == old(self).input@,
                self.pos == old(self).pos,
                s == old(self)@,
                n <= s.len(),
                len == self.input@.len(),
                self.pos + n <= len,
                i <= n,
                buf@ == s.take(i as int),
            decreases n - i,
        {
            buf.push(self.input[self.pos + i]);
            i = i + 1;
            assert(buf@ =~= s.take(i as int));
        }
        self.pos = self.pos + n;
        decode_char(&buf)
    }
}

/// Decodes a sequence of bytes as long as its leading byte announces.
fn decode_char(buf: &Vec<u8>) -> (r: Result<Key>)
    requires
        2 <= buf@.len() <= 4,
        buf@.len() == lead_ones(buf@[0]),
    ensures
        valid_utf8(buf@) ==> (r matches Ok(k) && k == Key::Char(decode_first_scalar(buf@) as char)),
        !valid_utf8(buf@) ==> (r matches Err(Error::Utf8 { bytes, cause }) && bytes@ == buf@
            && cause@ == utf8_cause(buf@)),
{
    proof {
        lemma_utf8_check(buf@);
    }
    let bad = invalid_prefix(buf);
    if bad != 0 {
        let mut cause = String::new();
        push_str(&mut cause, "invalid utf-8 sequence of ");
        push_decimal(&mut cause, bad);
        push_str(&mut cause, " bytes from index 0");
        return Err(Error::utf8(buf.as_slice(), cause.as_str()));
    }
    let b0 = buf[0];
    let cp: u32 = if buf.len() == 2 {
        (((b0 & 0x1f) as u32) << 6) | ((buf[1] & 0x3f) as u32)
    } else if buf.len() == 3 {
        (((b0 & 0x0f) as u32) << 12) | (((buf[1] & 0x3f) as u32) << 6) | ((buf[2] & 0x3f) as u32)
    } else {
        (((b0 & 0x07) as u32) << 18) | (((buf[1] & 0x3f) as u32) << 12) | (((buf[2] & 0x3f) as u32)
            << 6) | ((buf[3] & 0x3f) as u32)
    };
    assert(cp == decode_first_scalar(buf@));
    match char_from_u32(cp) {
        Some(c) => Ok(Key::Char(c)),
        None => Ok(Key::Nothing),
    }
}

/// The length of the invalid part of such a sequence, or 0 when it is valid.
fn invalid_prefix(buf: &Vec<u8>) -> (r: u64)
    requires
        2 <= buf@.len() <= 4,
        buf@.len() == lead_ones(buf@[0]),
    ensures
        r == invalid_prefix_len(buf@),
{
    let b0 = buf[0];
    if 0xc2 <= b0 && b0 <= 0xdf {
        if 0x80 <= buf[1] && buf[1] <= 0xbf { 0 } else { 1 }
    } else if 0xe0 <= b0 && b0 <= 0xef {
        let b1 = buf[1];
        if !((b0 == 0xe0 && 0xa0 <= b1 && b1 <= 0xbf) || (0xe1 <= b0 && b0 <= 0xec && 0x80 <= b1
            && b1 <= 0xbf) || (b0 == 0xed && 0x80 <= b1 && b1 <= 0x9f) || (0xee <= b0 && b0 <= 0xef
            && 0x80 <= b1 && b1 <= 0xbf)) {
            1
        } else if !(0x80 <= buf[2] && buf[2] <= 0xbf) {
            2
        } else {
            0
        }
    } else if 0xf0 <= b0 && b0 <= 0xf4 {
        let b1 = buf[1];
        if !((b0 == 0xf0 && 0x90 <= b1 && b1 <= 0xbf) || (0xf1 <= b0 && b0 <= 0xf3 && 0x80 <= b1
            && b1 <= 0xbf) || (b0 == 0xf4 && 0x80 <= b1 && b1 <= 0x8f)) {
            1
        } else if !(0x80 <= buf[2] && buf[2] <= 0xbf) {
            2
        } else if !(0x80 <= buf[3] && buf[3] <= 0xbf) {
            3
        } else {
            0
        }
    } else {
        1
    }
}

/// The checks of std's `from_utf8` on a sequence as long as its leading byte
/// announces accept exactly the valid `UTF-8` encodings of one scalar value.
proof fn lemma_utf8_check(buf: Seq<u8>)
    requires
        2 <= buf.len() <= 4,
        buf.len() == lead_ones(buf[0]),
    ensures
        (invalid_prefix_len(buf) == 0) == valid_utf8(buf),
        valid_utf8(buf) ==> is_scalar(decode_first_scalar(buf)),
{
    reveal_with_fuel(valid_utf8, 2);
    let n = buf.len() as int;
    assert(pop_first_scalar(buf).len() == 0 || !valid_first_scalar(buf)) by {
        if valid_first_scalar(buf) {
            assert(length_of_first_scalar(buf) == n);
        }
    }
    let b0 = buf[0];
    let b1 = buf[1];
    if n == 2 {
        assert(0xc0 <= b0 <= 0xdf ==> ((((b0 & 0x1f) as u32) << 6 | ((b1 & 0x3f) as u32)) >= 0x80
            <==> b0 >= 0xc2)) by (bit_vector);
        assert(0xc0 <= b0 <= 0xdf ==> (((b0 & 0x1f) as u32) << 6 | ((b1 & 0x3f) as u32))
            <= 0x7ff) by (bit_vector);
    } else if n == 3 {
        let b2 = buf[2];
        assert(0xe0 <= b0 <= 0xef ==> (((b0 == 0xe0 && 0xa0 <= b1 <= 0xbf) || (0xe1 <= b0 <= 0xec
            && 0x80 <= b1 <= 0xbf) || (b0 == 0xed && 0x80 <= b1 <= 0x9f) || (0xee <= b0 <= 0xef
            && 0x80 <= b1 <= 0xbf)) && 0x80 <= b2 <= 0xbf <==> (0x80 <= b1 <= 0xbf && 0x80 <= b2
            <= 0xbf && 0x800 <= ((((b0 & 0x0f) as u32) << 12) | (((b1 & 0x3f) as u32) << 6) | ((
        b2 & 0x3f) as u32)) && !(0xd800 <= ((((b0 & 0x0f) as u32) << 12) | (((b1 & 0x3f) as u32)
            << 6) | ((b2 & 0x3f) as u32)) <= 0xdfff)))) by (bit_vector);
        assert(0xe0 <= b0 <= 0xef ==> ((((b0 & 0x0f) as u32) << 12) | (((b1 & 0x3f) as u32) << 6)
            | ((b2 & 0x3f) as u32)) <= 0xffff) by (bit_vector);
    } else {
        let b2 = buf[2];
        let b3 = buf[3];
        assert(0xf0 <= b0 <= 0xf7 ==> ((((b0 == 0xf0 && 0x90 <= b1 <= 0xbf) || (0xf1 <= b0 <= 0xf3
            && 0x80 <= b1 <= 0xbf) || (b0 == 0xf4 && 0x80 <= b1 <= 0x8f)) && 0x80 <= b2 <= 0xbf
            && 0x80 <= b3 <= 0xbf) <==> (0x80 <= b1 <= 0xbf && 0x80 <= b2 <= 0xbf && 0x80 <= b3
            <= 0xbf && 0x10000 <= ((((b0 & 0x07) as u32) << 18) | (((b1 & 0x3f) as u32) << 12) | (((
        b2 & 0x3f) as u32) << 6) | ((b3 & 0x3f) as u32)) <= 0x10ffff))) by (bit_vector);
    }
}

/// Converts a value to a `char` (std's `char::from_u32`): `Some` exactly for the
/// Unicode scalar values.
#[verifier::external_body]
pub(crate) fn char_from_u32(v: u32) -> (r: Option<char>)
    ensures
        r == (if is_scalar(v) { Some(v as char) } else { None::<char> }),
{
    char::from_u32(v)
}

/// The view after `n` bytes were consumed is what followed them.
proof fn lemma_advanced(a: Keyboard, b: Keyboard, n: int)
    requires
        a.wf(),
        advanced(a, b, n),
        0 <= n,
    ensures
        n <= a@.len(),
        b@ == a@.skip(n),
{
    assert(a@.len() == a.input@.len() - a.pos);
    assert(b@ =~= a@.skip(n));
}

/// The key given by the final byte `b` of a sequence `ESC [ code ; mod b`.
fn final_key(b: u8, code: Option<u8>, key_mod: Option<u8>) -> (k: Key)
    ensures
        k == csi_final_key(b, code, key_mod),
{
    if b == 0x7e {
        match code {
            Some(c) => map_xterm(c, match key_mod { Some(m) => m, None => 1 }),
            None => Key::Nothing,
        }
    } else {
        match key_mod {
            Some(m) => match code {
                Some(c) => if c == 1 { map_vt(b, m) } else { Key::Nothing },
                None => Key::Nothing,
            },
            None => map_vt(b, match code { Some(c) => c, None => 1 }),
        }
    }
}

/// The key of the sequence `ESC O b`.
fn map_ss3(b: u8) -> (k: Key)
    ensures
        k == ss3_key(b),
{
    if b == 0x41 {
        Key::Up(Shift::Off, Ctrl::Off)
    } else if b == 0x42 {
        Key::Down(Shift::Off, Ctrl::Off)
    } else if b == 0x43 {
        Key::Right(Shift::Off, Ctrl::Off)
    } else if b == 0x44 {
        Key::Left(Shift::Off, Ctrl::Off)
    } else if b == 0x46 {
        Key::End(Shift::Off, Ctrl::Off)
    } else if b == 0x48 {
        Key::Home(Shift::Off, Ctrl::Off)
    } else if 0x50 <= b && b <= 0x53 {
        Key::Function(b - 0x50 + 1)
    } else {
        Key::Nothing
    }
}

/// The key of a mouse sequence with the given button, zero-based position and
/// final byte.
fn mouse_event(button: u32, row: u32, col: u32, fin: u8) -> (k: Key)
    ensures
        k == mouse_key(button, row, col, fin),
{
    if button & 64 == 0 {
        if fin == 0x4d {
            Key::ButtonPress(row, col)
        } else {
            Key::ButtonRelease(row, col)
        }
    } else {
        let shift = if button & 4 == 0 { Shift::Off } else { Shift::On };
        let dir = button & 3;
        if dir == 0 {
            Key::ScrollUp(shift, row, col)
        } else if dir == 1 {
            Key::ScrollDown(shift, row, col)
        } else if dir == 2 {
            Key::ScrollRight(shift, row, col)
        } else {
            Key::ScrollLeft(shift, row, col)
        }
    }
}

/// A key code or modifier: `n`, at least 1, in 8 bits (as [`code_of`]).
fn narrow(n: u32) -> (r: u8)
    ensures
        r == code_of(n),
{
    (if n < 1 { 1 } else { n }) as u8
}

/// `n - 1`, saturating at 0.
fn zero_based_of(n: u32) -> (r: u32)
    ensures
        r == zero_based(n),
{
    n.saturating_sub(1)
}

/// `10 * n + d`, saturating at `u32::MAX`.
fn step(n: u32, d: u32) -> (r: u32)
    requires
        d < 10,
    ensures
        r == saturating_step(n, d),
{
    let m: u32 = if n > 429496729 { 4294967295 } else { n * 10 };
    if m > 4294967295 - d {
        4294967295
    } else {
        m + d
    }
}

/// A run of exactly `j` digits starts `s`.
proof fn lemma_digit_run(s: Seq<u8>, j: int)
    requires
        0 <= j <= s.len(),
        forall|i: int| 0 <= i < j ==> is_digit(#[trigger] s[i]),
        j == s.len() || !is_digit(s[j]),
    ensures
        digit_run(s) == j,
    decreases j,
{
    if j > 0 {
        let t = s.skip(1);
        assert forall|i: int| 0 <= i < j - 1 implies is_digit(#[trigger] t[i]) by {
            assert(t[i] == s[i + 1]);
        }
        lemma_digit_run(t, j - 1);
    }
}

} // verus!
verus! {

// ---------------------------------------------------------------------------
// Names of keys.
// ---------------------------------------------------------------------------

/// The prefix that names the state of _SHIFT_: `S-` when on.
pub open spec fn shift_prefix(shift: Shift) -> Seq<char> {
    if shift == Shift::On { "S-"@ } else { Seq::empty() }
}

/// The prefix that names the state of _CONTROL_: `C-` when on.
pub open spec fn ctrl_prefix(ctrl: Ctrl) -> Seq<char> {
    if ctrl == Ctrl::On { "C-"@ } else { Seq::empty() }
}

/// The character that names a control code below 32 after `C-`.
pub open spec fn control_char(b: u8) -> char {
    if b == 0 {
        '@'
    } else if b <= 26 {
        ((b + 96) as u8) as char
    } else if b == 27 {
        '['
    } else if b == 28 {
        '\\'
    } else if b == 29 {
        ']'
    } else if b == 30 {
        '^'
    } else {
        '_'
    }
}

/// The name of the control key `b`.
pub open spec fn control_name(b: u8) -> Seq<char> {
    if b == 9 {
        "tab"@
    } else if b == 13 {
        "ret"@
    } else if b == 27 {
        "ESC"@
    } else if b == 127 {
        "del"@
    } else if b < 32 {
        "C-"@.push(control_char(b))
    } else {
        "C-#"@ + decimal(b as nat)
    }
}

/// The position `(row,col)` as it appears in the names of mouse keys.
pub open spec fn position_name(row: u32, col: u32) -> Seq<char> {
    "("@ + decimal(row as nat) + ","@ + decimal(col as nat) + ")"@
}

/// The name of a key.
pub open spec fn key_name(k: Key) -> Seq<char> {
    match k {
        Key::Nothing => "<none>"@,
        Key::Control(b) => control_name(b),
        Key::Char(c) => seq![c],
        Key::ReverseTab => "S-"@ + control_name(9),
        Key::Insert(s, c) => shift_prefix(s) + ctrl_prefix(c) + "insert"@,
        Key::Delete(s, c) => shift_prefix(s) + ctrl_prefix(c) + "delete"@,
        Key::Up(s, c) => shift_prefix(s) + ctrl_prefix(c) + "up"@,
        Key::Down(s, c) => shift_prefix(s) + ctrl_prefix(c) + "down"@,
        Key::Left(s, c) => shift_prefix(s) + ctrl_prefix(c) + "left"@,
        Key::Right(s, c) => shift_prefix(s) + ctrl_prefix(c) + "right"@,
        Key::Home(s, c) => shift_prefix(s) + ctrl_prefix(c) + "home"@,
        Key::End(s, c) => shift_prefix(s) + ctrl_prefix(c) + "end"@,
        Key::PageUp(s, c) => shift_prefix(s) + ctrl_prefix(c) + "pg_up"@,
        Key::PageDown(s, c) => shift_prefix(s) + ctrl_prefix(c) + "pg_down"@,
        Key::Function(n) => "F"@ + decimal(n as nat),
        Key::ScrollUp(s, r, c) => shift_prefix(s) + "sc_up"@ + position_name(r, c),
        Key::ScrollDown(s, r, c) => shift_prefix(s) + "sc_down"@ + position_name(r, c),
        Key::ScrollLeft(s, r, c) => shift_prefix(s) + "sc_left"@ + position_name(r, c),
        Key::ScrollRight(s, r, c) => shift_prefix(s) + "sc_right"@ + position_name(r, c),
        Key::ButtonPress(r, c) => "bn_press"@ + position_name(r, c),
        Key::ButtonRelease(r, c) => "bn_release"@ + position_name(r, c),
    }
}

/// Appends the prefixes naming `shift` and `ctrl` to `s`.
fn push_mods(s: &mut String, shift: Shift, ctrl: Ctrl)
    ensures
        final(s)@ == old(s)@ + shift_prefix(shift) + ctrl_prefix(ctrl),
{
    let ghost s0 = s@;
    if shift == Shift::On {
        push_str(s, "S-");
    }
    let ghost s1 = s@;
    assert(s1 =~= s0 + shift_prefix(shift));
    if ctrl == Ctrl::On {
        push_str(s, "C-");
    }
    assert(s@ =~= s1 + ctrl_prefix(ctrl));
}

/// Appends the name of the position `(row,col)` to `s`.
fn push_position(s: &mut String, row: u32, col: u32)
    ensures
        final(s)@ == old(s)@ + position_name(row, col),
{
    push_str(s, "(");
    push_decimal(s, row as u64);
    push_str(s, ",");
    push_decimal(s, col as u64);
    push_str(s, ")");
    assert(s@ =~= old(s)@ + position_name(row, col));
}

/// The name of a key with modifiers: the prefixes of `shift` and `ctrl`, then `base`.
fn modified_name(shift: Shift, ctrl: Ctrl, base: &str) -> (s: String)
    ensures
        s@ == shift_prefix(shift) + ctrl_prefix(ctrl) + base@,
{
    let mut s = String::new();
    push_mods(&mut s, shift, ctrl);
    push_str(&mut s, base);
    assert(s@ =~= shift_prefix(shift) + ctrl_prefix(ctrl) + base@);
    s
}

/// The name of a mouse key: an optional _SHIFT_ prefix, `base`, then the position.
fn mouse_name(shift: Shift, base: &str, row: u32, col: u32) -> (s: String)
    ensures
        s@ == shift_prefix(shift) + base@ + position_name(row, col),
{
    let mut s = String::new();
    push_mods(&mut s, shift, Ctrl::Off);
    push_str(&mut s, base);
    push_position(&mut s, row, col);
    assert(s@ =~= shift_prefix(shift) + base@ + position_name(row, col));
    s
}

/// The name of the control key `b`.
fn control_key_name(b: u8) -> (s: String)
    ensures
        s@ == control_name(b),
{
    let mut s = String::new();
    if b == 9 {
        push_str(&mut s, "tab");
    } else if b == 13 {
        push_str(&mut s, "ret");
    } else if b == 27 {
        push_str(&mut s, "ESC");
    } else if b == 127 {
        push_str(&mut s, "del");
    } else if b < 32 {
        push_str(&mut s, "C-");
        let c: char = if b == 0 {
            '@'
        } else if b <= 26 {
            (b + 96) as char
        } else if b == 27 {
            '['
        } else if b == 28 {
            '\\'
        } else if b == 29 {
            ']'
        } else if b == 30 {
            '^'
        } else {
            '_'
        };
        push_char(&mut s, c);
    } else {
        push_str(&mut s, "C-#");
        push_decimal(&mut s, b as u64);
    }
    assert(s@ =~= control_name(b));
    s
}

impl Key {
    /// Returns the name of this key, such as `C-a`, `S-C-up`, `F5` or
    /// `bn_press(3,7)`.
    pub fn name(&self) -> (s: String)
        ensures
            s@ == key_name(*self),
    {
        match *self {
            Key::Nothing => {
                let mut s = String::new();
                push_str(&mut s, "<none>");
                assert(s@ =~= key_name(*self));
                s
            },
            Key::Control(b) => control_key_name(b),
            Key::Char(c) => {
                let mut s = String::new();
                push_char(&mut s, c);
                assert(s@ =~= key_name(*self));
                s
            },
            Key::ReverseTab => {
                let mut s = String::new();
                push_str(&mut s, "S-");
                push_str(&mut s, "tab");
                assert(s@ =~= key_name(*self));
                s
            },
            Key::Insert(shift, ctrl) => modified_name(shift, ctrl, "insert"),
            Key::Delete(shift, ctrl) => modified_name(shift, ctrl, "delete"),
            Key::Up(shift, ctrl) => modified_name(shift, ctrl, "up"),
            Key::Down(shift, ctrl) => modified_name(shift, ctrl, "down"),
            Key::Left(shift, ctrl) => modified_name(shift, ctrl, "left"),
            Key::Right(shift, ctrl) => modified_name(shift, ctrl, "right"),
            Key::Home(shift, ctrl) => modified_name(shift, ctrl, "home"),
            Key::End(shift, ctrl) => modified_name(shift, ctrl, "end"),
            Key::PageUp(shift, ctrl) => modified_name(shift, ctrl, "pg_up"),
            Key::PageDown(shift, ctrl) => modified_name(shift, ctrl, "pg_down"),
            Key::Function(n) => {
                let mut s = String::new();
                push_str(&mut s, "F");
                push_decimal(&mut s, n as u64);
                assert(s@ =~= key_name(*self));
                s
            },
            Key::ScrollUp(shift, row, col) => mouse_name(shift, "sc_up", row, col),
            Key::ScrollDown(shift, row, col) => mouse_name(shift, "sc_down", row, col),
            Key::ScrollLeft(shift, row, col) => mouse_name(shift, "sc_left", row, col),
            Key::ScrollRight(shift, row, col) => mouse_name(shift, "sc_right", row, col),
            Key::ButtonPress(row, col) => mouse_name(Shift::Off, "bn_press", row, col),
            Key::ButtonRelease(row, col) => mouse_name(Shift::Off, "bn_release", row, col),
        }
    }
}

} // verus!
verus! {

/// The names of a sequence of keys, where each `ESC` followed by a key is
/// merged with it into `M-` and the name of that key.
pub open spec fn pretty_names(names: Seq<Seq<char>>) -> Seq<Seq<char>>
    decreases names.len(),
{
    if names.len() == 0 {
        seq![]
    } else {
        let rest = pretty_names(names.skip(1));
        if names[0] == "ESC"@ && rest.len() > 0 {
            seq!["M-"@ + rest[0]] + rest.skip(1)
        } else {
            seq![names[0]] + rest
        }
    }
}

/// The parts joined with `sep` between each two.
pub open spec fn joined(parts: Seq<Seq<char>>, sep: Seq<char>) -> Seq<char>
    decreases parts.len(),
{
    if parts.len() == 0 {
        seq![]
    } else if parts.len() == 1 {
        parts[0]
    } else {
        joined(parts.drop_last(), sep) + sep + parts.last()
    }
}

/// The views of a sequence of strings.
pub open spec fn views(v: Seq<String>) -> Seq<Seq<char>> {
    v.map_values(|s: String| s@)
}

/// The names of a sequence of keys.
pub open spec fn key_names(keys: Seq<Key>) -> Seq<Seq<char>> {
    keys.map_values(|k: Key| key_name(k))
}

proof fn lemma_pretty_names_len(names: Seq<Seq<char>>)
    ensures
        names.len() > 0 ==> pretty_names(names).len() > 0,
    decreases names.len(),
{
    if names.len() > 0 {
        lemma_pretty_names_len(names.skip(1));
    }
}

/// Returns the names of `keys`, where each `ESC` followed by a key is merged
/// with it into `M-` and the name of that key.
pub fn pretty_keys(keys: &[Key]) -> (r: Vec<String>)
    ensures
        views(r@) == pretty_names(key_names(keys@)),
{
    let ghost ns = key_names(keys@);
    let mut names: Vec<String> = Vec::new();
    let mut j: usize = 0;
    while j < keys.len()
        invariant
            j <= keys@.len(),
            ns == key_names(keys@),
            names@.len() == j,
            forall|k: int| 0 <= k < j ==> (#[trigger] names@[k])@ == ns[k],
        decreases keys@.len() - j,
    {
        let name = keys[j].name();
        names.push(name);
        j = j + 1;
    }
    assert(views(names@) =~= ns);
    if names.len() > 1 {
        let esc = to_string("ESC");
        let mut i: usize = names.len() - 1;
        assert(pretty_names(ns.skip(i as int)) =~= seq![ns[i as int]]) by {
            let t = ns.skip(i as int);
            assert(t.skip(1).len() == 0);
            assert(pretty_names(t.skip(1)) =~= Seq::<Seq<char>>::empty());
        }
        assert(views(names@) =~= ns.take(i as int) + pretty_names(ns.skip(i as int)));
        while i > 0
            invariant
                esc@ == "ESC"@,
                0 <= i < ns.len(),
                views(names@) == ns.take(i as int) + pretty_names(ns.skip(i as int)),
            decreases i,
        {
            let ghost rest = pretty_names(ns.skip(i as int));
            let ghost before = names@;
            proof {
                lemma_pretty_names_len(ns.skip(i as int));
                assert(ns.skip(i - 1).skip(1) =~= ns.skip(i as int));
                assert(ns.skip(i - 1)[0] == ns[i - 1]);
                assert(views(before).len() == before.len());
                assert(views(before)[i - 1] == ns[i - 1]);
                assert(before.len() == i + rest.len());
                assert(before[i as int]@ == views(before)[i as int]);
                assert(forall|k: int| 0 <= k < before.len() ==> (#[trigger] before[k])@ == views(before)[k]);
            }
            if names[i - 1] == esc {
                let last = names.remove(i);
                let mut merged = String::new();
                push_str(&mut merged, "M-");
                push_str(&mut merged, last.as_str());
                names.set(i - 1, merged);
                proof {
                    let target = ns.take(i - 1) + pretty_names(ns.skip(i - 1));
                    assert(pretty_names(ns.skip(i - 1)) == seq!["M-"@ + rest[0]] + rest.skip(1));
                    assert(views(names@).len() == target.len());
                    assert forall|k: int| 0 <= k < target.len() implies views(names@)[k] == target[k] by {
                        if k < i - 1 {
                            assert(names@[k] == before[k]);
                        } else if k == i - 1 {
                            assert(rest[0] == views(before)[i as int]);
                        } else {
                            assert(names@[k] == before[k + 1]);
                            assert(views(before)[k + 1] == rest[k + 1 - i]);
                        }
                    }
                    assert(views(names@) =~= target);
                }
            } else {
                assert(views(names@) =~= ns.take(i - 1) + pretty_names(ns.skip(i - 1)));
            }
            i = i - 1;
        }
        assert(ns.skip(0) =~= ns);
    } else {
        assert(pretty_names(ns) =~= ns) by {
            if ns.len() == 1 {
                assert(ns.skip(1).len() == 0);
                assert(pretty_names(ns.skip(1)) =~= Seq::<Seq<char>>::empty());
            }
        }
    }
    names
}

/// Returns the names given by [`pretty_keys`] joined with spaces.
pub fn pretty(keys: &[Key]) -> (s: String)
    ensures
        s@ == joined(pretty_names(key_names(keys@)), " "@),
{
    let parts = pretty_keys(keys);
    let ghost ps = views(parts@);
    let mut s = String::new();
    let mut i: usize = 0;
    while i < parts.len()
        invariant
            i <= parts@.len(),
            ps == views(parts@),
            s@ == joined(ps.take(i as int), " "@),
        decreases parts@.len() - i,
    {
        proof {
            let t = ps.take(i + 1);
            assert(t.drop_last() =~= ps.take(i as int));
            assert(t.last() == ps[i as int]);
        }
        if i > 0 {
            push_str(&mut s, " ");
        }
        push_str(&mut s, parts[i].as_str());
        i = i + 1;
        proof {
            if i == 1 {
                assert(s@ =~= joined(ps.take(1), " "@));
            }
        }
    }
    assert(ps.take(ps.len() as int) =~= ps);
    s
}

} // verus!
verus! {

// ---------------------------------------------------------------------------
// Key names.
// ---------------------------------------------------------------------------

/// The key with the predefined name `name`, if any. A few special keys have more
/// than one name. Characters are absent, since they name themselves.
pub open spec fn key_of_name(name: Seq<char>) -> Option<Key> {
    if name == "C-@"@ {
        Some(Key::Control(0))
    } else if name == "C-a"@ {
        Some(Key::Control(1))
    } else if name == "C-b"@ {
        Some(Key::Control(2))
    } else if name == "C-c"@ {
        Some(Key::Control(3))
    } else if name == "C-d"@ {
        Some(Key::Control(4))
    } else if name == "C-e"@ {
        Some(Key::Control(5))
    } else if name == "C-f"@ {
        Some(Key::Control(6))
    } else if name == "C-g"@ {
        Some(Key::Control(7))
    } else if name == "C-h"@ {
        Some(Key::Control(8))
    } else if name == "C-i"@ {
        Some(Key::Control(9))
    } else if name == "tab"@ {
        Some(Key::Control(9))
    } else if name == "C-j"@ {
        Some(Key::Control(10))
    } else if name == "C-k"@ {
        Some(Key::Control(11))
    } else if name == "C-l"@ {
        Some(Key::Control(12))
    } else if name == "C-m"@ {
        Some(Key::Control(13))
    } else if name == "ret"@ {
        Some(Key::Control(13))
    } else if name == "C-n"@ {
        Some(Key::Control(14))
    } else if name == "C-o"@ {
        Some(Key::Control(15))
    } else if name == "C-p"@ {
        Some(Key::Control(16))
    } else if name == "C-q"@ {
        Some(Key::Control(17))
    } else if name == "C-r"@ {
        Some(Key::Control(18))
    } else if name == "C-s"@ {
        Some(Key::Control(19))
    } else if name == "C-t"@ {
        Some(Key::Control(20))
    } else if name == "C-u"@ {
        Some(Key::Control(21))
    } else if name == "C-v"@ {
        Some(Key::Control(22))
    } else if name == "C-w"@ {
        Some(Key::Control(23))
    } else if name == "C-x"@ {
        Some(Key::Control(24))
    } else if name == "C-y"@ {
        Some(Key::Control(25))
    } else if name == "C-z"@ {
        Some(Key::Control(26))
    } else if name == "C-["@ {
        Some(Key::Control(27))
    } else if name == "ESC"@ {
        Some(Key::Control(27))
    } else if name == "C-\\"@ {
        Some(Key::Control(28))
    } else if name == "C-]"@ {
        Some(Key::Control(29))
    } else if name == "C-^"@ {
        Some(Key::Control(30))
    } else if name == "C-_"@ {
        Some(Key::Control(31))
    } else if name == "C-?"@ {
        Some(Key::Control(127))
    } else if name == "del"@ {
        Some(Key::Control(127))
    } else if name == "S-tab"@ {
        Some(Key::ReverseTab)
    } else if name == "insert"@ {
        Some(Key::Insert(Shift::Off, Ctrl::Off))
    } else if name == "S-insert"@ {
        Some(Key::Insert(Shift::On, Ctrl::Off))
    } else if name == "C-insert"@ {
        Some(Key::Insert(Shift::Off, Ctrl::On))
    } else if name == "S-C-insert"@ {
        Some(Key::Insert(Shift::On, Ctrl::On))
    } else if name == "delete"@ {
        Some(Key::Delete(Shift::Off, Ctrl::Off))
    } else if name == "S-delete"@ {
        Some(Key::Delete(Shift::On, Ctrl::Off))
    } else if name == "C-delete"@ {
        Some(Key::Delete(Shift::Off, Ctrl::On))
    } else if name == "S-C-delete"@ {
        Some(Key::Delete(Shift::On, Ctrl::On))
    } else if name == "up"@ {
        Some(Key::Up(Shift::Off, Ctrl::Off))
    } else if name == "S-up"@ {
        Some(Key::Up(Shift::On, Ctrl::Off))
    } else if name == "C-up"@ {
        Some(Key::Up(Shift::Off, Ctrl::On))
    } else if name == "S-C-up"@ {
        Some(Key::Up(Shift::On, Ctrl::On))
    } else if name == "down"@ {
        Some(Key::Down(Shift::Off, Ctrl::Off))
    } else if name == "S-down"@ {
        Some(Key::Down(Shift::On, Ctrl::Off))
    } else if name == "C-down"@ {
        Some(Key::Down(Shift::Off, Ctrl::On))
    } else if name == "S-C-down"@ {
        Some(Key::Down(Shift::On, Ctrl::On))
    } else if name == "left"@ {
        Some(Key::Left(Shift::Off, Ctrl::Off))
    } else if name == "S-left"@ {
        Some(Key::Left(Shift::On, Ctrl::Off))
    } else if name == "C-left"@ {
        Some(Key::Left(Shift::Off, Ctrl::On))
    } else if name == "S-C-left"@ {
        Some(Key::Left(Shift::On, Ctrl::On))
    } else if name == "right"@ {
        Some(Key::Right(Shift::Off, Ctrl::Off))
    } else if name == "S-right"@ {
        Some(Key::Right(Shift::On, Ctrl::Off))
    } else if name == "C-right"@ {
        Some(Key::Right(Shift::Off, Ctrl::On))
    } else if name == "S-C-right"@ {
        Some(Key::Right(Shift::On, Ctrl::On))
    } else if name == "home"@ {
        Some(Key::Home(Shift::Off, Ctrl::Off))
    } else if name == "S-home"@ {
        Some(Key::Home(Shift::On, Ctrl::Off))
    } else if name == "C-home"@ {
        Some(Key::Home(Shift::Off, Ctrl::On))
    } else if name == "S-C-home"@ {
        Some(Key::Home(Shift::On, Ctrl::On))
    } else if name == "end"@ {
        Some(Key::End(Shift::Off, Ctrl::Off))
    } else if name == "S-end"@ {
        Some(Key::End(Shift::On, Ctrl::Off))
    } else if name == "C-end"@ {
        Some(Key::End(Shift::Off, Ctrl::On))
    } else if name == "S-C-end"@ {
        Some(Key::End(Shift::On, Ctrl::On))
    } else if name == "pg_up"@ {
        Some(Key::PageUp(Shift::Off, Ctrl::Off))
    } else if name == "S-pg_up"@ {
        Some(Key::PageUp(Shift::On, Ctrl::Off))
    } else if name == "C-pg_up"@ {
        Some(Key::PageUp(Shift::Off, Ctrl::On))
    } else if name == "S-C-pg_up"@ {
        Some(Key::PageUp(Shift::On, Ctrl::On))
    } else if name == "pg_down"@ {
        Some(Key::PageDown(Shift::Off, Ctrl::Off))
    } else if name == "S-pg_down"@ {
        Some(Key::PageDown(Shift::On, Ctrl::Off))
    } else if name == "C-pg_down"@ {
        Some(Key::PageDown(Shift::Off, Ctrl::On))
    } else if name == "S-C-pg_down"@ {
        Some(Key::PageDown(Shift::On, Ctrl::On))
    } else if name == "F1"@ {
        Some(Key::Function(1))
    } else if name == "F2"@ {
        Some(Key::Function(2))
    } else if name == "F3"@ {
        Some(Key::Function(3))
    } else if name == "F4"@ {
        Some(Key::Function(4))
    } else if name == "F5"@ {
        Some(Key::Function(5))
    } else if name == "F6"@ {
        Some(Key::Function(6))
    } else if name == "F7"@ {
        Some(Key::Function(7))
    } else if name == "F8"@ {
        Some(Key::Function(8))
    } else if name == "F9"@ {
        Some(Key::Function(9))
    } else if name == "F10"@ {
        Some(Key::Function(10))
    } else if name == "F11"@ {
        Some(Key::Function(11))
    } else if name == "F12"@ {
        Some(Key::Function(12))
    } else if name == "F13"@ {
        Some(Key::Function(13))
    } else if name == "F14"@ {
        Some(Key::Function(14))
    } else if name == "F15"@ {
        Some(Key::Function(15))
    } else if name == "F16"@ {
        Some(Key::Function(16))
    } else if name == "F17"@ {
        Some(Key::Function(17))
    } else if name == "F18"@ {
        Some(Key::Function(18))
    } else if name == "F19"@ {
        Some(Key::Function(19))
    } else if name == "F20"@ {
        Some(Key::Function(20))
    } else {
        None
    }
}

/// Returns the key with the predefined name `name`, if any.
pub fn key_named(name: &str) -> (r: Option<Key>)
    ensures
        r == key_of_name(name@),
{
    if str_eq(name, "C-@") {
        return Some(Key::Control(0));
    }
    if str_eq(name, "C-a") {
        return Some(Key::Control(1));
    }
    if str_eq(name, "C-b") {
        return Some(Key::Control(2));
    }
    if str_eq(name, "C-c") {
        return Some(Key::Control(3));
    }
    if str_eq(name, "C-d") {
        return Some(Key::Control(4));
    }
    if str_eq(name, "C-e") {
        return Some(Key::Control(5));
    }
    if str_eq(name, "C-f") {
        return Some(Key::Control(6));
    }
    if str_eq(name, "C-g") {
        return Some(Key::Control(7));
    }
    if str_eq(name, "C-h") {
        return Some(Key::Control(8));
    }
    if str_eq(name, "C-i") {
        return Some(Key::Control(9));
    }
    if str_eq(name, "tab") {
        return Some(Key::Control(9));
    }
    if str_eq(name, "C-j") {
        return Some(Key::Control(10));
    }
    if str_eq(name, "C-k") {
        return Some(Key::Control(11));
    }
    if str_eq(name, "C-l") {
        return Some(Key::Control(12));
    }
    if str_eq(name, "C-m") {
        return Some(Key::Control(13));
    }
    if str_eq(name, "ret") {
        return Some(Key::Control(13));
    }
    if str_eq(name, "C-n") {
        return Some(Key::Control(14));
    }
    if str_eq(name, "C-o") {
        return Some(Key::Control(15));
    }
    if str_eq(name, "C-p") {
        return Some(Key::Control(16));
    }
    if str_eq(name, "C-q") {
        return Some(Key::Control(17));
    }
    if str_eq(name, "C-r") {
        return Some(Key::Control(18));
    }
    if str_eq(name, "C-s") {
        return Some(Key::Control(19));
    }
    if str_eq(name, "C-t") {
        return Some(Key::Control(20));
    }
    if str_eq(name, "C-u") {
        return Some(Key::Control(21));
    }
    if str_eq(name, "C-v") {
        return Some(Key::Control(22));
    }
    if str_eq(name, "C-w") {
        return Some(Key::Control(23));
    }
    if str_eq(name, "C-x") {
        return Some(Key::Control(24));
    }
    if str_eq(name, "C-y") {
        return Some(Key::Control(25));
    }
    if str_eq(name, "C-z") {
        return Some(Key::Control(26));
    }
    if str_eq(name, "C-[") {
        return Some(Key::Control(27));
    }
    if str_eq(name, "ESC") {
        return Some(Key::Control(27));
    }
    if str_eq(name, "C-\\") {
        return Some(Key::Control(28));
    }
    if str_eq(name, "C-]") {
        return Some(Key::Control(29));
    }
    if str_eq(name, "C-^") {
        return Some(Key::Control(30));
    }
    if str_eq(name, "C-_") {
        return Some(Key::Control(31));
    }
    if str_eq(name, "C-?") {
        return Some(Key::Control(127));
    }
    if str_eq(name, "del") {
        return Some(Key::Control(127));
    }
    if str_eq(name, "S-tab") {
        return Some(Key::ReverseTab);
    }
    if str_eq(name, "insert") {
        return Some(Key::Insert(Shift::Off, Ctrl::Off));
    }
    if str_eq(name, "S-insert") {
        return Some(Key::Insert(Shift::On, Ctrl::Off));
    }
    if str_eq(name, "C-insert") {
        return Some(Key::Insert(Shift::Off, Ctrl::On));
    }
    if str_eq(name, "S-C-insert") {
        return Some(Key::Insert(Shift::On, Ctrl::On));
    }
    if str_eq(name, "delete") {
        return Some(Key::Delete(Shift::Off, Ctrl::Off));
    }
    if str_eq(name, "S-delete") {
        return Some(Key::Delete(Shift::On, Ctrl::Off));
    }
    if str_eq(name, "C-delete") {
        return Some(Key::Delete(Shift::Off, Ctrl::On));
    }
    if str_eq(name, "S-C-delete") {
        return Some(Key::Delete(Shift::On, Ctrl::On));
    }
    if str_eq(name, "up") {
        return Some(Key::Up(Shift::Off, Ctrl::Off));
    }
    if str_eq(name, "S-up") {
        return Some(Key::Up(Shift::On, Ctrl::Off));
    }
    if str_eq(name, "C-up") {
        return Some(Key::Up(Shift::Off, Ctrl::On));
    }
    if str_eq(name, "S-C-up") {
        return Some(Key::Up(Shift::On, Ctrl::On));
    }
    if str_eq(name, "down") {
        return Some(Key::Down(Shift::Off, Ctrl::Off));
    }
    if str_eq(name, "S-down") {
        return Some(Key::Down(Shift::On, Ctrl::Off));
    }
    if str_eq(name, "C-down") {
        return Some(Key::Down(Shift::Off, Ctrl::On));
    }
    if str_eq(name, "S-C-down") {
        return Some(Key::Down(Shift::On, Ctrl::On));
    }
    if str_eq(name, "left") {
        return Some(Key::Left(Shift::Off, Ctrl::Off));
    }
    if str_eq(name, "S-left") {
        return Some(Key::Left(Shift::On, Ctrl::Off));
    }
    if str_eq(name, "C-left") {
        return Some(Key::Left(Shift::Off, Ctrl::On));
    }
    if str_eq(name, "S-C-left") {
        return Some(Key::Left(Shift::On, Ctrl::On));
    }
    if str_eq(name, "right") {
        return Some(Key::Right(Shift::Off, Ctrl::Off));
    }
    if str_eq(name, "S-right") {
        return Some(Key::Right(Shift::On, Ctrl::Off));
    }
    if str_eq(name, "C-right") {
        return Some(Key::Right(Shift::Off, Ctrl::On));
    }
    if str_eq(name, "S-C-right") {
        return Some(Key::Right(Shift::On, Ctrl::On));
    }
    if str_eq(name, "home") {
        return Some(Key::Home(Shift::Off, Ctrl::Off));
    }
    if str_eq(name, "S-home") {
        return Some(Key::Home(Shift::On, Ctrl::Off));
    }
    if str_eq(name, "C-home") {
        return Some(Key::Home(Shift::Off, Ctrl::On));
    }
    if str_eq(name, "S-C-home") {
        return Some(Key::Home(Shift::On, Ctrl::On));
    }
    if str_eq(name, "end") {
        return Some(Key::End(Shift::Off, Ctrl::Off));
    }
    if str_eq(name, "S-end") {
        return Some(Key::End(Shift::On, Ctrl::Off));
    }
    if str_eq(name, "C-end") {
        return Some(Key::End(Shift::Off, Ctrl::On));
    }
    if str_eq(name, "S-C-end") {
        return Some(Key::End(Shift::On, Ctrl::On));
    }
    if str_eq(name, "pg_up") {
        return Some(Key::PageUp(Shift::Off, Ctrl::Off));
    }
    if str_eq(name, "S-pg_up") {
        return Some(Key::PageUp(Shift::On, Ctrl::Off));
    }
    if str_eq(name, "C-pg_up") {
        return Some(Key::PageUp(Shift::Off, Ctrl::On));
    }
    if str_eq(name, "S-C-pg_up") {
        return Some(Key::PageUp(Shift::On, Ctrl::On));
    }
    if str_eq(name, "pg_down") {
        return Some(Key::PageDown(Shift::Off, Ctrl::Off));
    }
    if str_eq(name, "S-pg_down") {
        return Some(Key::PageDown(Shift::On, Ctrl::Off));
    }
    if str_eq(name, "C-pg_down") {
        return Some(Key::PageDown(Shift::Off, Ctrl::On));
    }
    if str_eq(name, "S-C-pg_down") {
        return Some(Key::PageDown(Shift::On, Ctrl::On));
    }
    if str_eq(name, "F1") {
        return Some(Key::Function(1));
    }
    if str_eq(name, "F2") {
        return Some(Key::Function(2));
    }
    if str_eq(name, "F3") {
        return Some(Key::Function(3));
    }
    if str_eq(name, "F4") {
        return Some(Key::Function(4));
    }
    if str_eq(name, "F5") {
        return Some(Key::Function(5));
    }
    if str_eq(name, "F6") {
        return Some(Key::Function(6));
    }
    if str_eq(name, "F7") {
        return Some(Key::Function(7));
    }
    if str_eq(name, "F8") {
        return Some(Key::Function(8));
    }
    if str_eq(name, "F9") {
        return Some(Key::Function(9));
    }
    if str_eq(name, "F10") {
        return Some(Key::Function(10));
    }
    if str_eq(name, "F11") {
        return Some(Key::Function(11));
    }
    if str_eq(name, "F12") {
        return Some(Key::Function(12));
    }
    if str_eq(name, "F13") {
        return Some(Key::Function(13));
    }
    if str_eq(name, "F14") {
        return Some(Key::Function(14));
    }
    if str_eq(name, "F15") {
        return Some(Key::Function(15));
    }
    if str_eq(name, "F16") {
        return Some(Key::Function(16));
    }
    if str_eq(name, "F17") {
        return Some(Key::Function(17));
    }
    if str_eq(name, "F18") {
        return Some(Key::Function(18));
    }
    if str_eq(name, "F19") {
        return Some(Key::Function(19));
    }
    if str_eq(name, "F20") {
        return Some(Key::Function(20));
    }
    None
}

} // verus!
