//! A collection of functions that produce ANSI control sequences used in the
//! rendering of terminal output.
//!
//! ANSI sequences related to cursor positioning are `1`-based, so functions in this
//! module that accept *row* and *column* take `0`-based values and add `1`.

use crate::color::Color;
use crate::size::Point;
use crate::strings::{decimal, push_decimal, push_str};
use vstd::prelude::*;

verus! {

/// The sequence that switches to (`on`) or away from the alternate screen.
pub fn alt_screen(on: bool) -> (s: &'static str)
    ensures
        s@ == (if on { "\x1b[?1049h"@ } else { "\x1b[?1049l"@ }),
{
    if on {
        "\x1b[?1049h"
    } else {
        "\x1b[?1049l"
    }
}

/// The sequence that turns mouse tracking on or off.
pub fn track_mouse(on: bool) -> (s: &'static str)
    ensures
        s@ == (if on { "\x1b[?1000h\x1b[?1006h"@ } else { "\x1b[?1000l\x1b[?1006l"@ }),
{
    if on {
        "\x1b[?1000h\x1b[?1006h"
    } else {
        "\x1b[?1000l\x1b[?1006l"
    }
}

/// The sequence that clears the screen and homes the cursor.
pub fn clear_screen() -> (s: &'static str)
    ensures
        s@ == "\x1b[2J\x1b[H"@,
{
    "\x1b[2J\x1b[H"
}

/// The sequence that shows the cursor.
pub fn show_cursor() -> (s: &'static str)
    ensures
        s@ == "\x1b[?25h"@,
{
    "\x1b[?25h"
}

/// The sequence that hides the cursor.
pub fn hide_cursor() -> (s: &'static str)
    ensures
        s@ == "\x1b[?25l"@,
{
    "\x1b[?25l"
}

/// The sequence that moves the cursor to the `0`-based point (`row`, `col`).
pub open spec fn cursor_seq(row: nat, col: nat) -> Seq<char> {
    "\x1b["@ + decimal(row + 1) + ";"@ + decimal(col + 1) + "H"@
}

/// The sequence that selects the foreground and background colors of `color`.
pub open spec fn color_seq(color: Color) -> Seq<char> {
    "\x1b[38;5;"@ + decimal(color.fg as nat) + "m\x1b[48;5;"@ + decimal(color.bg as nat) + "m"@
}

/// Returns the sequence that moves the cursor to `p`.
pub fn set_cursor(p: Point) -> (s: String)
    ensures
        s@ == cursor_seq(p.row as nat, p.col as nat),
{
    let mut s = String::new();
    push_str(&mut s, "\x1b[");
    push_decimal(&mut s, p.row as u64 + 1);
    push_str(&mut s, ";");
    push_decimal(&mut s, p.col as u64 + 1);
    push_str(&mut s, "H");
    assert(s@ =~= cursor_seq(p.row as nat, p.col as nat));
    s
}

/// Returns the sequence that selects `color`.
pub fn set_color(color: Color) -> (s: String)
    ensures
        s@ == color_seq(color),
{
    let mut s = String::new();
    push_str(&mut s, "\x1b[38;5;");
    push_decimal(&mut s, color.fg as u64);
    push_str(&mut s, "m\x1b[48;5;");
    push_decimal(&mut s, color.bg as u64);
    push_str(&mut s, "m");
    assert(s@ =~= color_seq(color));
    s
}

} // verus!
