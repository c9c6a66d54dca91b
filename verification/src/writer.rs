//! Accumulates display instructions for the terminal.

use crate::ansi::{self, color_seq, cursor_seq};
use crate::color::Color;
use crate::size::Point;
use crate::strings::push_str;
use vstd::prelude::*;

verus! {

/// A buffered abstraction over terminal output that collects content in a
/// structured way until it is sent.
///
/// Cursor operations are relative to an [origin](`Point`) given when the writer is
/// created.
pub struct Writer {
    origin: Point,
    out: String,
}

impl Writer {
    /// The reference point for cursor operations.
    pub closed spec fn origin(&self) -> Point {
        self.origin
    }

    /// The output collected but not yet sent.
    pub closed spec fn pending(&self) -> Seq<char> {
        self.out@
    }

    /// Creates a writer with `origin` as its reference point for cursor operations.
    pub fn new(origin: Point) -> (w: Writer)
        ensures
            w.origin() == origin,
            w.pending() == Seq::<char>::empty(),
    {
        Writer { origin, out: String::new() }
    }

    /// Creates a writer with `origin` as its reference point and moves the cursor to
    /// that origin.
    pub fn new_at(origin: Point) -> (w: Writer)
        requires
            origin.row < u32::MAX,
            origin.col < u32::MAX,
        ensures
            w.origin() == origin,
            w.pending() == cursor_seq(origin.row as nat, origin.col as nat),
    {
        let mut this = Self::new(origin);
        this.set_origin();
        this
    }

    /// Hands over the collected output, which the caller sends to the terminal, and
    /// clears it.
    pub fn send(&mut self) -> (out: String)
        ensures
            out@ == old(self).pending(),
            final(self).pending() == Seq::<char>::empty(),
            final(self).origin() == old(self).origin(),
    {
        let mut out = String::new();
        core::mem::swap(&mut out, &mut self.out);
        out
    }

    /// Moves the cursor to the origin.
    pub fn set_origin(&mut self)
        requires
            old(self).origin().row < u32::MAX,
            old(self).origin().col < u32::MAX,
        ensures
            final(self).origin() == old(self).origin(),
            final(self).pending() == old(self).pending() + cursor_seq(
                old(self).origin().row as nat,
                old(self).origin().col as nat,
            ),
    {
        self.set_cursor(Point::origin())
    }

    /// Moves the cursor to `cursor` relative to the origin.
    pub fn set_cursor(&mut self, cursor: Point)
        requires
            old(self).origin().row + cursor.row < u32::MAX,
            old(self).origin().col + cursor.col < u32::MAX,
        ensures
            final(self).origin() == old(self).origin(),
            final(self).pending() == old(self).pending() + cursor_seq(
                (old(self).origin().row + cursor.row) as nat,
                (old(self).origin().col + cursor.col) as nat,
            ),
    {
        let s = ansi::set_cursor(self.origin.plus(cursor));
        push_str(&mut self.out, s.as_str());
    }

    /// Selects `color`.
    pub fn set_color(&mut self, color: Color)
        ensures
            final(self).origin() == old(self).origin(),
            final(self).pending() == old(self).pending() + color_seq(color),
    {
        let s = ansi::set_color(color);
        push_str(&mut self.out, s.as_str());
    }

    /// Writes `c`.
    pub fn write(&mut self, c: char)
        ensures
            final(self).origin() == old(self).origin(),
            final(self).pending() == old(self).pending().push(c),
    {
        crate::strings::push_char(&mut self.out, c);
    }

    /// Writes `text`.
    pub fn write_str(&mut self, text: &str)
        ensures
            final(self).origin() == old(self).origin(),
            final(self).pending() == old(self).pending() + text@,
    {
        push_str(&mut self.out, text);
    }

    /// Hides the cursor.
    pub fn hide_cursor(&mut self)
        ensures
            final(self).origin() == old(self).origin(),
            final(self).pending() == old(self).pending() + "\x1b[?25l"@,
    {
        push_str(&mut self.out, ansi::hide_cursor());
    }

    /// Shows the cursor.
    pub fn show_cursor(&mut self)
        ensures
            final(self).origin() == old(self).origin(),
            final(self).pending() == old(self).pending() + "\x1b[?25h"@,
    {
        push_str(&mut self.out, ansi::show_cursor());
    }
}

} // verus!
