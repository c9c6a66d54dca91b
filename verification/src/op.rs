//! The editing operations: their catalog of names and descriptions, which key
//! bindings refer to, and the operations themselves, which act on the
//! environment and tell the controller what to do next.

use crate::buffer::MAX_CAPACITY;
use crate::clip::Scope;
use crate::editor::{
    column_of, inserted, line_range, keeps_content, min_of, redone, removal_text, removed, soft_marked, tab_text, undone,
    with_mark, word_after, word_before, Editor, Mark,
};
use crate::ed::{
    dirty_file, is_dirty_file, is_file, next_of, next_unattached_editor, prev_of, prev_unattached_editor,
    unattached, unattached_editors,
};
use crate::env::{focused, Environment, Focus, SCRATCH_ID};
use crate::size::Point;
use crate::workspace::{fits, index_of, locate_in, Placement};
use crate::env::shown_as;
use crate::config::Configuration;
use crate::help::{bindings_content, colors_content, keys_content, ops_content, syntaxes_content};
use crate::buffer::Buffer;
use crate::source::Source;
use crate::strings::{chars_of, decimal, hexadecimal, push_decimal, push_hex, push_str, str_eq, to_string, zero_padded};
use crate::text::count_nl;
use crate::search::{Match, Pattern};
use crate::wrap::{adjusted_len, down, row_start_of, snapped, up, WrappingRenderer};
use vstd::prelude::*;

verus! {

/// The description of the editing operation named `op`, if there is one.
pub open spec fn op_description(op: Seq<char>) -> Option<Seq<char>> {
    if op == "quit"@ {
        Some("ask to save dirty editors and quit"@)
    } else if op == "help"@ {
        Some("show or hide @help window"@)
    } else if op == "help-keys"@ {
        Some("show or hide @keys window"@)
    } else if op == "help-ops"@ {
        Some("show or hide @operations window"@)
    } else if op == "help-bindings"@ {
        Some("show or hide @bindings window"@)
    } else if op == "help-colors"@ {
        Some("show or hide @colors window"@)
    } else if op == "help-syntaxes"@ {
        Some("show or hide @syntaxes window"@)
    } else if op == "move-backward"@ {
        Some("move cursor backward one character"@)
    } else if op == "move-backward-word"@ {
        Some("move cursor backward one word"@)
    } else if op == "move-backward-select"@ {
        Some("move cursor backward one character while selecting text"@)
    } else if op == "move-backward-word-select"@ {
        Some("move cursor backward one word while selecting text"@)
    } else if op == "move-forward"@ {
        Some("move cursor forward one character"@)
    } else if op == "move-forward-word"@ {
        Some("move cursor forward one word"@)
    } else if op == "move-forward-select"@ {
        Some("move cursor forward one character while selecting text"@)
    } else if op == "move-forward-word-select"@ {
        Some("move cursor forward one word while selecting text"@)
    } else if op == "move-up"@ {
        Some("move cursor up one line"@)
    } else if op == "move-up-select"@ {
        Some("move cursor up one line while selecting text"@)
    } else if op == "move-down"@ {
        Some("move cursor down one line"@)
    } else if op == "move-down-select"@ {
        Some("move cursor down one line while selecting text"@)
    } else if op == "move-up-page"@ {
        Some("move cursor up one page"@)
    } else if op == "move-up-page-select"@ {
        Some("move cursor up one page while selecting text"@)
    } else if op == "move-down-page"@ {
        Some("move cursor down one page"@)
    } else if op == "move-down-page-select"@ {
        Some("move cursor down one page while selecting text"@)
    } else if op == "move-start"@ {
        Some("move cursor to start of line"@)
    } else if op == "move-start-select"@ {
        Some("move cursor to start of line while selecting text"@)
    } else if op == "move-end"@ {
        Some("move cursor to end of line"@)
    } else if op == "move-end-select"@ {
        Some("move cursor to end of line while selecting text"@)
    } else if op == "move-top"@ {
        Some("move cursor to top of buffer"@)
    } else if op == "move-top-select"@ {
        Some("move cursor to top of buffer while selecting text"@)
    } else if op == "move-bottom"@ {
        Some("move cursor to bottom of buffer"@)
    } else if op == "move-bottom-select"@ {
        Some("move cursor to bottom of buffer while selecting text"@)
    } else if op == "scroll-up"@ {
        Some("scroll contents of window up one line"@)
    } else if op == "scroll-up-select"@ {
        Some("scroll contents of window up one line while selecting text"@)
    } else if op == "scroll-down"@ {
        Some("scroll contents of window down one line"@)
    } else if op == "scroll-down-select"@ {
        Some("scroll contents of window down one line while selecting text"@)
    } else if op == "scroll-center"@ {
        Some("redraw window and align cursor to center, then bottom and top when repeated"@)
    } else if op == "redraw"@ {
        Some("redraw entire workspace"@)
    } else if op == "set-mark"@ {
        Some("set or unset mark for selecting text"@)
    } else if op == "goto-line"@ {
        Some("move cursor to line"@)
    } else if op == "insert-line"@ {
        Some("insert line break"@)
    } else if op == "insert-tab"@ {
        Some("insert soft or hard tab"@)
    } else if op == "insert-unicode-dec"@ {
        Some("insert unicode character as decimal code point"@)
    } else if op == "insert-unicode-hex"@ {
        Some("insert unicode character as hex code point"@)
    } else if op == "remove-before"@ {
        Some("remove character before cursor"@)
    } else if op == "remove-after"@ {
        Some("remove character after cursor"@)
    } else if op == "remove-start"@ {
        Some("remove characters from start of line to cursor"@)
    } else if op == "remove-end"@ {
        Some("remove characters from cursor to end of line"@)
    } else if op == "undo"@ {
        Some("undo last change"@)
    } else if op == "redo"@ {
        Some("reapply last undo"@)
    } else if op == "copy"@ {
        Some("copy selection or entire line if nothing selected to local clipboard"@)
    } else if op == "copy-global"@ {
        Some("copy selection or entire line if nothing selected to global clipboard"@)
    } else if op == "paste"@ {
        Some("paste contents of local clipboard"@)
    } else if op == "paste-global"@ {
        Some("paste contents of global clipboard"@)
    } else if op == "cut"@ {
        Some("cut and copy selection or entire line if nothing selected to local clipboard"@)
    } else if op == "cut-global"@ {
        Some("cut and copy selection or entire line if nothing selected to global clipboard"@)
    } else if op == "search"@ {
        Some("case-insensitive search using term"@)
    } else if op == "search-case"@ {
        Some("case-sensitive search using term"@)
    } else if op == "search-regex"@ {
        Some("case-insensitive search using regular expression"@)
    } else if op == "search-regex-case"@ {
        Some("case-sensitive search using regular expression"@)
    } else if op == "search-next"@ {
        Some("search for next match"@)
    } else if op == "open-file"@ {
        Some("open file in current window"@)
    } else if op == "open-file-top"@ {
        Some("open file in new window at top of workspace"@)
    } else if op == "open-file-bottom"@ {
        Some("open file in new window at bottom of workspace"@)
    } else if op == "open-file-above"@ {
        Some("open file in new window above current window"@)
    } else if op == "open-file-below"@ {
        Some("open file in new window below current window"@)
    } else if op == "save-file"@ {
        Some("save file"@)
    } else if op == "save-file-as"@ {
        Some("save file as another name"@)
    } else if op == "select-editor"@ {
        Some("switch to editor in current window"@)
    } else if op == "select-editor-top"@ {
        Some("switch to editor in new window at top of workspace"@)
    } else if op == "select-editor-bottom"@ {
        Some("switch to editor in new window at bottom of workspace"@)
    } else if op == "select-editor-above"@ {
        Some("switch to editor in new window above current window"@)
    } else if op == "select-editor-below"@ {
        Some("switch to editor in new window below current window"@)
    } else if op == "prev-editor"@ {
        Some("switch to previous editor in current window"@)
    } else if op == "next-editor"@ {
        Some("switch to next editor in current window"@)
    } else if op == "kill-window"@ {
        Some("close current window and editor"@)
    } else if op == "close-window"@ {
        Some("close current window"@)
    } else if op == "close-other-windows"@ {
        Some("close all windows other than current window"@)
    } else if op == "top-window"@ {
        Some("move to window at top of workspace"@)
    } else if op == "bottom-window"@ {
        Some("move to window at bottom of workspace"@)
    } else if op == "prev-window"@ {
        Some("move to window above current window"@)
    } else if op == "next-window"@ {
        Some("move to window below current window"@)
    } else if op == "describe-editor"@ {
        Some("show editor information"@)
    } else if op == "tab-mode"@ {
        Some("toggle between soft and hard tab insertion mode"@)
    } else if op == "eol-mode"@ {
        Some("toggle between CRLF and LF when saving files"@)
    } else {
        None
    }
}

/// `op` names an editing operation.
pub open spec fn is_op(op: Seq<char>) -> bool {
    op_description(op) is Some
}

/// Returns the description of the editing operation named `op`, if any.
pub fn describe(op: &str) -> (r: Option<&'static str>)
    ensures
        match op_description(op@) {
            Some(d) => r matches Some(x) && x@ == d,
            None => r is None,
        },
{
    if str_eq(op, "quit") {
        return Some("ask to save dirty editors and quit");
    }
    if str_eq(op, "help") {
        return Some("show or hide @help window");
    }
    if str_eq(op, "help-keys") {
        return Some("show or hide @keys window");
    }
    if str_eq(op, "help-ops") {
        return Some("show or hide @operations window");
    }
    if str_eq(op, "help-bindings") {
        return Some("show or hide @bindings window");
    }
    if str_eq(op, "help-colors") {
        return Some("show or hide @colors window");
    }
    if str_eq(op, "help-syntaxes") {
        return Some("show or hide @syntaxes window");
    }
    if str_eq(op, "move-backward") {
        return Some("move cursor backward one character");
    }
    if str_eq(op, "move-backward-word") {
        return Some("move cursor backward one word");
    }
    if str_eq(op, "move-backward-select") {
        return Some("move cursor backward one character while selecting text");
    }
    if str_eq(op, "move-backward-word-select") {
        return Some("move cursor backward one word while selecting text");
    }
    if str_eq(op, "move-forward") {
        return Some("move cursor forward one character");
    }
    if str_eq(op, "move-forward-word") {
        return Some("move cursor forward one word");
    }
    if str_eq(op, "move-forward-select") {
        return Some("move cursor forward one character while selecting text");
    }
    if str_eq(op, "move-forward-word-select") {
        return Some("move cursor forward one word while selecting text");
    }
    if str_eq(op, "move-up") {
        return Some("move cursor up one line");
    }
    if str_eq(op, "move-up-select") {
        return Some("move cursor up one line while selecting text");
    }
    if str_eq(op, "move-down") {
        return Some("move cursor down one line");
    }
    if str_eq(op, "move-down-select") {
        return Some("move cursor down one line while selecting text");
    }
    if str_eq(op, "move-up-page") {
        return Some("move cursor up one page");
    }
    if str_eq(op, "move-up-page-select") {
        return Some("move cursor up one page while selecting text");
    }
    if str_eq(op, "move-down-page") {
        return Some("move cursor down one page");
    }
    if str_eq(op, "move-down-page-select") {
        return Some("move cursor down one page while selecting text");
    }
    if str_eq(op, "move-start") {
        return Some("move cursor to start of line");
    }
    if str_eq(op, "move-start-select") {
        return Some("move cursor to start of line while selecting text");
    }
    if str_eq(op, "move-end") {
        return Some("move cursor to end of line");
    }
    if str_eq(op, "move-end-select") {
        return Some("move cursor to end of line while selecting text");
    }
    if str_eq(op, "move-top") {
        return Some("move cursor to top of buffer");
    }
    if str_eq(op, "move-top-select") {
        return Some("move cursor to top of buffer while selecting text");
    }
    if str_eq(op, "move-bottom") {
        return Some("move cursor to bottom of buffer");
    }
    if str_eq(op, "move-bottom-select") {
        return Some("move cursor to bottom of buffer while selecting text");
    }
    if str_eq(op, "scroll-up") {
        return Some("scroll contents of window up one line");
    }
    if str_eq(op, "scroll-up-select") {
        return Some("scroll contents of window up one line while selecting text");
    }
    if str_eq(op, "scroll-down") {
        return Some("scroll contents of window down one line");
    }
    if str_eq(op, "scroll-down-select") {
        return Some("scroll contents of window down one line while selecting text");
    }
    if str_eq(op, "scroll-center") {
        return Some("redraw window and align cursor to center, then bottom and top when repeated");
    }
    if str_eq(op, "redraw") {
        return Some("redraw entire workspace");
    }
    if str_eq(op, "set-mark") {
        return Some("set or unset mark for selecting text");
    }
    if str_eq(op, "goto-line") {
        return Some("move cursor to line");
    }
    if str_eq(op, "insert-line") {
        return Some("insert line break");
    }
    if str_eq(op, "insert-tab") {
        return Some("insert soft or hard tab");
    }
    if str_eq(op, "insert-unicode-dec") {
        return Some("insert unicode character as decimal code point");
    }
    if str_eq(op, "insert-unicode-hex") {
        return Some("insert unicode character as hex code point");
    }
    if str_eq(op, "remove-before") {
        return Some("remove character before cursor");
    }
    if str_eq(op, "remove-after") {
        return Some("remove character after cursor");
    }
    if str_eq(op, "remove-start") {
        return Some("remove characters from start of line to cursor");
    }
    if str_eq(op, "remove-end") {
        return Some("remove characters from cursor to end of line");
    }
    if str_eq(op, "undo") {
        return Some("undo last change");
    }
    if str_eq(op, "redo") {
        return Some("reapply last undo");
    }
    if str_eq(op, "copy") {
        return Some("copy selection or entire line if nothing selected to local clipboard");
    }
    if str_eq(op, "copy-global") {
        return Some("copy selection or entire line if nothing selected to global clipboard");
    }
    if str_eq(op, "paste") {
        return Some("paste contents of local clipboard");
    }
    if str_eq(op, "paste-global") {
        return Some("paste contents of global clipboard");
    }
    if str_eq(op, "cut") {
        return Some("cut and copy selection or entire line if nothing selected to local clipboard");
    }
    if str_eq(op, "cut-global") {
        return Some("cut and copy selection or entire line if nothing selected to global clipboard");
    }
    if str_eq(op, "search") {
        return Some("case-insensitive search using term");
    }
    if str_eq(op, "search-case") {
        return Some("case-sensitive search using term");
    }
    if str_eq(op, "search-regex") {
        return Some("case-insensitive search using regular expression");
    }
    if str_eq(op, "search-regex-case") {
        return Some("case-sensitive search using regular expression");
    }
    if str_eq(op, "search-next") {
        return Some("search for next match");
    }
    if str_eq(op, "open-file") {
        return Some("open file in current window");
    }
    if str_eq(op, "open-file-top") {
        return Some("open file in new window at top of workspace");
    }
    if str_eq(op, "open-file-bottom") {
        return Some("open file in new window at bottom of workspace");
    }
    if str_eq(op, "open-file-above") {
        return Some("open file in new window above current window");
    }
    if str_eq(op, "open-file-below") {
        return Some("open file in new window below current window");
    }
    if str_eq(op, "save-file") {
        return Some("save file");
    }
    if str_eq(op, "save-file-as") {
        return Some("save file as another name");
    }
    if str_eq(op, "select-editor") {
        return Some("switch to editor in current window");
    }
    if str_eq(op, "select-editor-top") {
        return Some("switch to editor in new window at top of workspace");
    }
    if str_eq(op, "select-editor-bottom") {
        return Some("switch to editor in new window at bottom of workspace");
    }
    if str_eq(op, "select-editor-above") {
        return Some("switch to editor in new window above current window");
    }
    if str_eq(op, "select-editor-below") {
        return Some("switch to editor in new window below current window");
    }
    if str_eq(op, "prev-editor") {
        return Some("switch to previous editor in current window");
    }
    if str_eq(op, "next-editor") {
        return Some("switch to next editor in current window");
    }
    if str_eq(op, "kill-window") {
        return Some("close current window and editor");
    }
    if str_eq(op, "close-window") {
        return Some("close current window");
    }
    if str_eq(op, "close-other-windows") {
        return Some("close all windows other than current window");
    }
    if str_eq(op, "top-window") {
        return Some("move to window at top of workspace");
    }
    if str_eq(op, "bottom-window") {
        return Some("move to window at bottom of workspace");
    }
    if str_eq(op, "prev-window") {
        return Some("move to window above current window");
    }
    if str_eq(op, "next-window") {
        return Some("move to window below current window");
    }
    if str_eq(op, "describe-editor") {
        return Some("show editor information");
    }
    if str_eq(op, "tab-mode") {
        return Some("toggle between soft and hard tab insertion mode");
    }
    if str_eq(op, "eol-mode") {
        return Some("toggle between CRLF and LF when saving files");
    }
    None
}

/// What the controller does after an editing operation.
pub enum Action {
    /// Quit the program.
    Quit,
    /// Redraw the whole workspace.
    Redraw,
    /// Show the text in the echo area.
    Echo(String),
    /// Put the text on the clipboard of the operating system.
    ToClipboard(Vec<char>),
    /// Take the text of the clipboard of the operating system and paste it with
    /// [`paste_text`].
    FromClipboard,
    /// Ask the question.
    Question(Ask),
}

/// A question that an operation asks before it can go on.
pub enum Ask {
    /// Whether to save the editors with unsaved changes, then quit.
    Quit,
    /// Which line to move the cursor to.
    GotoLine,
    /// Which character to insert, by its code point in the radix given.
    InsertUnicode(u32),
    /// What to search for: a term, or a regular expression where `regex` holds,
    /// matching case where `case` holds.
    Search { regex: bool, case: bool },
    /// Which file to open, in the active view, or in a new view placed as given.
    Open(Option<Placement>),
    /// Whether to save the active editor to its file, which changed since it was
    /// read, or not; the caller checks.
    Save,
    /// Which file to save the active editor to.
    SaveAs,
    /// Whether to save the active editor, which has unsaved changes, before it is
    /// killed; with the ids of the editor and of the one to switch to where the
    /// active view is the only view.
    Kill(Option<(u32, u32)>),
    /// Which of the editors with the given ids to switch to, in the active view, or
    /// in a new view placed as given.
    Select(Vec<u32>, Option<Placement>),
}

/// The action that shows `text` in the echo area.
pub open spec fn echoes(r: Option<Action>, text: Seq<char>) -> bool {
    r matches Some(Action::Echo(t)) && t@ == text
}

/// The editor that the active view of `env` shows.
pub open spec fn active_editor(env: Environment) -> Editor {
    env.editors_map()[env.attached()[env.active()]]
}

/// `b` is `a` with its active editor changed as `rel` relates the editor before to
/// the editor after; all else stays.
pub open spec fn edits_active(a: Environment, b: Environment, rel: spec_fn(Editor, Editor) -> bool) -> bool {
    edits_editor(a, b, a.attached()[a.active()], rel)
}

/// `b` is `a` with its editor `id` changed as `rel` relates the editor before to
/// the editor after; all else stays.
pub open spec fn edits_editor(a: Environment, b: Environment, id: u32, rel: spec_fn(Editor, Editor) -> bool) -> bool {
    &&& b.wf()
    &&& b.space() == a.space()
    &&& b.attached() == a.attached()
    &&& b.active() == a.active()
    &&& b.editor_ids() == a.editor_ids()
    &&& b.next_editor_id() == a.next_editor_id()
    &&& b.editors_map() == a.editors_map().insert(id, b.editors_map()[id])
    &&& rel(a.editors_map()[id], b.editors_map()[id])
}

/// The mark `m` once a soft mark is cleared.
pub open spec fn soft_cleared(m: Option<Mark>) -> Option<Mark> {
    match m {
        Some(Mark(_, true)) => None,
        _ => m,
    }
}

/// A motion of the cursor that needs no display.
#[derive(Copy, Clone, PartialEq, Eq, Structural, Debug)]
pub enum Motion {
    /// Backward one character.
    Backward,
    /// Backward one word.
    BackwardWord,
    /// Forward one character.
    Forward,
    /// Forward one word.
    ForwardWord,
    /// To the top of the buffer.
    Top,
    /// To the bottom of the buffer.
    Bottom,
}

/// Where the motion `m` takes the cursor at `p` in the text `t`.
pub open spec fn motion_target(t: Seq<char>, p: int, m: Motion) -> int {
    match m {
        Motion::Backward => if p > 0 { p - 1 } else { 0 },
        Motion::BackwardWord => word_before(t, p),
        Motion::Forward => min_of(p + 1, t.len() as int),
        Motion::ForwardWord => word_after(t, p),
        Motion::Top => 0,
        Motion::Bottom => t.len() as int,
    }
}

/// `b` is `a` with its cursor at `pos` and, where `select` holds, a soft mark
/// where the cursor was (unless one is set already), or else without a soft mark.
pub open spec fn moved(a: Editor, b: Editor, pos: int, select: bool) -> bool {
    &&& keeps_content(a, b)
    &&& b.cursor_pos() == pos
    &&& b.mark() == if select {
        soft_marked(a.mark(), a.cursor_pos() as usize)
    } else {
        soft_cleared(a.mark())
    }
}

/// Moves the cursor of the active editor as `m` says, selecting text where
/// `select` holds.
pub fn move_active(env: &mut Environment, m: Motion, select: bool) -> (r: Option<Action>)
    requires
        old(env).wf(),
    ensures
        r is None,
        final(env).clip() == old(env).clip(),
        edits_active(
            *old(env),
            *final(env),
            |a: Editor, b: Editor| moved(a, b, motion_target(a.text(), a.cursor_pos(), m), select),
        ),
{
    proof {
        env.lemma_active();
    }
    let id = env.get_active_editor_id();
    let editor = env.editor_mut(id);
    proof {
        editor.lemma_wf();
    }
    if select {
        editor.set_soft_mark();
    } else {
        editor.clear_soft_mark();
    }
    match m {
        Motion::Backward => editor.move_backward(1),
        Motion::BackwardWord => editor.move_backward_word(),
        Motion::Forward => editor.move_forward(1),
        Motion::ForwardWord => editor.move_forward_word(),
        Motion::Top => editor.move_top(),
        Motion::Bottom => editor.move_bottom(),
    }
    None
}


/// A motion of the cursor over the rows of a wrapping display.
#[derive(Copy, Clone, PartialEq, Eq, Structural, Debug)]
pub enum RowMotion {
    /// Up one row.
    Up,
    /// Down one row.
    Down,
    /// Up a display's worth of rows.
    UpPage,
    /// Down a display's worth of rows.
    DownPage,
    /// To the start of the row.
    Start,
    /// To the last column of the row.
    End,
}

/// Where a row move that reached the row `x` (moving `x.1` rows) takes the cursor
/// at `p`, which stood at column `col` of its row.
pub open spec fn row_step(t: Seq<char>, cols: int, x: (int, nat), p: int, col: int) -> int {
    if x.1 == 0 { p } else { x.0 + snapped(t, cols, x.0, col) }
}

/// Where the motion `m` takes the cursor at `p` in the text `t` shown on a
/// wrapping display of `rows` rows and `cols` columns.
pub open spec fn row_target(t: Seq<char>, p: int, rows: int, cols: int, m: RowMotion) -> int {
    let q = if p < t.len() { p } else { t.len() as int };
    let cur = row_start_of(t, cols, q);
    let col = q - cur;
    match m {
        RowMotion::Up => row_step(t, cols, up(t, cols, cur, 1), q, col),
        RowMotion::Down => row_step(t, cols, down(t, cols, cur, 1), q, col),
        RowMotion::UpPage => row_step(t, cols, up(t, cols, cur, rows as nat), q, col),
        RowMotion::DownPage => row_step(t, cols, down(t, cols, cur, rows as nat), q, col),
        RowMotion::Start => cur,
        RowMotion::End => cur + adjusted_len(t, cols, cur),
    }
}

/// Moves the cursor of the active editor as `m` says over the rows of a wrapping
/// display of `rows` rows and `cols` columns, selecting text where `select` holds.
pub fn move_rows(env: &mut Environment, m: RowMotion, select: bool, rows: u32, cols: u32) -> (r: Option<Action>)
    requires
        old(env).wf(),
        rows > 0,
        cols > 0,
    ensures
        r is None,
        final(env).clip() == old(env).clip(),
        edits_active(
            *old(env),
            *final(env),
            |a: Editor, b: Editor| moved(a, b, row_target(a.text(), a.cursor_pos(), rows as int, cols as int, m), select),
        ),
{
    proof {
        env.lemma_active();
    }
    let id = env.get_active_editor_id();
    let ghost a = active_editor(*env);
    let target = {
        let editor = env.get_active_editor();
        let buffer = editor.buffer();
        let mut w = WrappingRenderer::new(buffer, editor.pos(), rows, cols);
        let ghost w0 = w;
        match m {
            RowMotion::Up => {
                w.move_up(buffer, 1, false);
            },
            RowMotion::Down => {
                w.move_down(buffer, 1, false);
            },
            RowMotion::UpPage => {
                w.move_up(buffer, rows, true);
            },
            RowMotion::DownPage => {
                w.move_down(buffer, rows, true);
            },
            RowMotion::Start => w.move_start(buffer),
            RowMotion::End => w.move_end(buffer),
        }
        assert(w.pos() == row_target(a.text(), a.cursor_pos(), rows as int, cols as int, m));
        proof {
            w.lemma_wf(a.text());
        }
        w.get_pos()
    };
    let editor = env.editor_mut(id);
    proof {
        editor.lemma_wf();
    }
    if select {
        editor.set_soft_mark();
    } else {
        editor.clear_soft_mark();
    }
    editor.move_to(target);
    None
}

/// The display operations: the moves over the rows of a wrapping display.
pub open spec fn performs_on_display(op: Seq<char>) -> bool {
    op == "move-up"@ || op == "move-up-select"@ || op == "move-down"@ || op == "move-down-select"@ || op
        == "move-up-page"@ || op == "move-up-page-select"@ || op == "move-down-page"@ || op
        == "move-down-page-select"@ || op == "move-start"@ || op == "move-start-select"@ || op == "move-end"@
        || op == "move-end-select"@
}

/// Runs the display operation named `op` on a wrapping display of `rows` rows and
/// `cols` columns, as [`move_rows`] does, and returns what it returns; `None`
/// where `op` is none of those that [`performs_on_display`] names.
pub fn perform_on_display(env: &mut Environment, op: &str, rows: u32, cols: u32) -> (r: Option<Option<Action>>)
    requires
        old(env).wf(),
        rows > 0,
        cols > 0,
    ensures
        final(env).wf(),
        r is Some <==> performs_on_display(op@),
        r is None ==> *final(env) == *old(env),
{
    let (m, select) = if str_eq(op, "move-up") {
        (RowMotion::Up, false)
    } else if str_eq(op, "move-up-select") {
        (RowMotion::Up, true)
    } else if str_eq(op, "move-down") {
        (RowMotion::Down, false)
    } else if str_eq(op, "move-down-select") {
        (RowMotion::Down, true)
    } else if str_eq(op, "move-up-page") {
        (RowMotion::UpPage, false)
    } else if str_eq(op, "move-up-page-select") {
        (RowMotion::UpPage, true)
    } else if str_eq(op, "move-down-page") {
        (RowMotion::DownPage, false)
    } else if str_eq(op, "move-down-page-select") {
        (RowMotion::DownPage, true)
    } else if str_eq(op, "move-start") {
        (RowMotion::Start, false)
    } else if str_eq(op, "move-start-select") {
        (RowMotion::Start, true)
    } else if str_eq(op, "move-end") {
        (RowMotion::End, false)
    } else if str_eq(op, "move-end-select") {
        (RowMotion::End, true)
    } else {
        return None;
    };
    Some(move_rows(env, m, select, rows, cols))
}

/// Operation `move-backward`.
pub fn move_backward(env: &mut Environment) -> (r: Option<Action>)
    requires
        old(env).wf(),
    ensures
        r is None,
        final(env).clip() == old(env).clip(),
        edits_active(*old(env), *final(env), |a: Editor, b: Editor| moved(a, b, motion_target(a.text(), a.cursor_pos(), Motion::Backward), false)),
{
    move_active(env, Motion::Backward, false)
}

/// Operation `move-backward-word`.
pub fn move_backward_word(env: &mut Environment) -> (r: Option<Action>)
    requires
        old(env).wf(),
    ensures
        r is None,
        final(env).clip() == old(env).clip(),
        edits_active(*old(env), *final(env), |a: Editor, b: Editor| moved(a, b, motion_target(a.text(), a.cursor_pos(), Motion::BackwardWord), false)),
{
    move_active(env, Motion::BackwardWord, false)
}

/// Operation `move-backward-select`.
pub fn move_backward_select(env: &mut Environment) -> (r: Option<Action>)
    requires
        old(env).wf(),
    ensures
        r is None,
        final(env).clip() == old(env).clip(),
        edits_active(*old(env), *final(env), |a: Editor, b: Editor| moved(a, b, motion_target(a.text(), a.cursor_pos(), Motion::Backward), true)),
{
    move_active(env, Motion::Backward, true)
}

/// Operation `move-backward-word-select`.
pub fn move_backward_word_select(env: &mut Environment) -> (r: Option<Action>)
    requires
        old(env).wf(),
    ensures
        r is None,
        final(env).clip() == old(env).clip(),
        edits_active(*old(env), *final(env), |a: Editor, b: Editor| moved(a, b, motion_target(a.text(), a.cursor_pos(), Motion::BackwardWord), true)),
{
    move_active(env, Motion::BackwardWord, true)
}

/// Operation `move-forward`.
pub fn move_forward(env: &mut Environment) -> (r: Option<Action>)
    requires
        old(env).wf(),
    ensures
        r is None,
        final(env).clip() == old(env).clip(),
        edits_active(*old(env), *final(env), |a: Editor, b: Editor| moved(a, b, motion_target(a.text(), a.cursor_pos(), Motion::Forward), false)),
{
    move_active(env, Motion::Forward, false)
}

/// Operation `move-forward-word`.
pub fn move_forward_word(env: &mut Environment) -> (r: Option<Action>)
    requires
        old(env).wf(),
    ensures
        r is None,
        final(env).clip() == old(env).clip(),
        edits_active(*old(env), *final(env), |a: Editor, b: Editor| moved(a, b, motion_target(a.text(), a.cursor_pos(), Motion::ForwardWord), false)),
{
    move_active(env, Motion::ForwardWord, false)
}

/// Operation `move-forward-select`.
pub fn move_forward_select(env: &mut Environment) -> (r: Option<Action>)
    requires
        old(env).wf(),
    ensures
        r is None,
        final(env).clip() == old(env).clip(),
        edits_active(*old(env), *final(env), |a: Editor, b: Editor| moved(a, b, motion_target(a.text(), a.cursor_pos(), Motion::Forward), true)),
{
    move_active(env, Motion::Forward, true)
}

/// Operation `move-forward-word-select`.
pub fn move_forward_word_select(env: &mut Environment) -> (r: Option<Action>)
    requires
        old(env).wf(),
    ensures
        r is None,
        final(env).clip() == old(env).clip(),
        edits_active(*old(env), *final(env), |a: Editor, b: Editor| moved(a, b, motion_target(a.text(), a.cursor_pos(), Motion::ForwardWord), true)),
{
    move_active(env, Motion::ForwardWord, true)
}

/// Operation `move-top`.
pub fn move_top(env: &mut Environment) -> (r: Option<Action>)
    requires
        old(env).wf(),
    ensures
        r is None,
        final(env).clip() == old(env).clip(),
        edits_active(*old(env), *final(env), |a: Editor, b: Editor| moved(a, b, motion_target(a.text(), a.cursor_pos(), Motion::Top), false)),
{
    move_active(env, Motion::Top, false)
}

/// Operation `move-top-select`.
pub fn move_top_select(env: &mut Environment) -> (r: Option<Action>)
    requires
        old(env).wf(),
    ensures
        r is None,
        final(env).clip() == old(env).clip(),
        edits_active(*old(env), *final(env), |a: Editor, b: Editor| moved(a, b, motion_target(a.text(), a.cursor_pos(), Motion::Top), true)),
{
    move_active(env, Motion::Top, true)
}

/// Operation `move-bottom`.
pub fn move_bottom(env: &mut Environment) -> (r: Option<Action>)
    requires
        old(env).wf(),
    ensures
        r is None,
        final(env).clip() == old(env).clip(),
        edits_active(*old(env), *final(env), |a: Editor, b: Editor| moved(a, b, motion_target(a.text(), a.cursor_pos(), Motion::Bottom), false)),
{
    move_active(env, Motion::Bottom, false)
}

/// Operation `move-bottom-select`.
pub fn move_bottom_select(env: &mut Environment) -> (r: Option<Action>)
    requires
        old(env).wf(),
    ensures
        r is None,
        final(env).clip() == old(env).clip(),
        edits_active(*old(env), *final(env), |a: Editor, b: Editor| moved(a, b, motion_target(a.text(), a.cursor_pos(), Motion::Bottom), true)),
{
    move_active(env, Motion::Bottom, true)
}

/// Returns the action that shows `text` in the echo area.
fn echo(text: &str) -> (r: Option<Action>)
    ensures
        echoes(r, text@),
{
    Some(Action::Echo(crate::strings::to_string(text)))
}

/// `b` is `a` after a removal before the cursor: the character before it, where
/// there is one.
pub open spec fn removed_before(a: Editor, b: Editor) -> bool {
    &&& a.cursor_pos() > 0 ==> removed(a, b, a.cursor_pos() - 1, removal_text(a, a.cursor_pos() - 1), None)
    &&& a.cursor_pos() == 0 ==> keeps_content(a, b) && b.cursor_pos() == 0 && b.mark() == a.mark()
}

/// `b` is `a` after a removal after the cursor: the character after it, where
/// there is one.
pub open spec fn removed_after(a: Editor, b: Editor) -> bool {
    &&& a.cursor_pos() < a.text().len() ==> removed(a, b, a.cursor_pos() + 1, removal_text(a, a.cursor_pos() + 1), None)
    &&& a.cursor_pos() == a.text().len() ==> keeps_content(a, b) && b.cursor_pos() == a.cursor_pos() && b.mark()
        == a.mark()
}

/// The text between the cursor of `a` and the mark `m`.
pub open spec fn marked_text(a: Editor, m: Mark) -> Seq<char> {
    if m.0 < a.cursor_pos() {
        a.text().subrange(m.0 as int, a.cursor_pos())
    } else {
        a.text().subrange(a.cursor_pos(), min_of(m.0 as int, a.text().len() as int))
    }
}

/// The text that a copy from `a` takes: the selection, or else the line with its
/// `\n`.
pub open spec fn copied_text(a: Editor) -> Seq<char> {
    match a.mark() {
        Some(m) => marked_text(a, m),
        None => a.text().subrange(line_range(a.text(), a.cursor_pos()).0, line_range(a.text(), a.cursor_pos()).1),
    }
}

/// The text that a cut from `a` takes: the selection, or else the line with its
/// `\n`.
pub open spec fn cut_text(a: Editor) -> Seq<char> {
    match a.mark() {
        Some(m) => removal_text(with_mark(a, None), m.0 as int),
        None => removal_text(
            crate::editor::with_cursor(a, line_range(a.text(), a.cursor_pos()).0),
            line_range(a.text(), a.cursor_pos()).1,
        ),
    }
}

/// `b` is `a` after a cut: the selection removed, or else the line.
pub open spec fn cut_from(a: Editor, b: Editor) -> bool {
    match a.mark() {
        Some(m) => removed(with_mark(a, None), b, m.0 as int, cut_text(a), Some(m.1)),
        None => removed(
            crate::editor::with_cursor(a, line_range(a.text(), a.cursor_pos()).0),
            b,
            line_range(a.text(), a.cursor_pos()).1,
            cut_text(a),
            None,
        ),
    }
}

/// Operation `set-mark`: clears the mark, or sets a hard mark where there is none.
pub fn set_mark(env: &mut Environment) -> (r: Option<Action>)
    requires
        old(env).wf(),
    ensures
        r is None,
        final(env).clip() == old(env).clip(),
        edits_active(
            *old(env),
            *final(env),
            |a: Editor, b: Editor|
                keeps_content(a, b) && b.cursor_pos() == a.cursor_pos() && b.mark() == (if a.mark() is Some {
                    None
                } else {
                    Some(Mark(a.cursor_pos() as usize, false))
                }),
        ),
{
    proof {
        env.lemma_active();
    }
    let id = env.get_active_editor_id();
    let editor = env.editor_mut(id);
    if editor.clear_mark().is_none() {
        editor.set_hard_mark();
    }
    None
}

/// Inserts `text` in the active editor, after clearing its mark, unless it is
/// read-only, in which case it says so.
fn insert_active(env: &mut Environment, text: &[char]) -> (r: Option<Action>)
    requires
        old(env).wf(),
        active_editor(*old(env)).text().len() + text@.len() <= MAX_CAPACITY,
        active_editor(*old(env)).clock() < u64::MAX,
        active_editor(*old(env)).commit_clock() < u64::MAX,
    ensures
        final(env).clip() == old(env).clip(),
        active_editor(*old(env)).readonly() ==> echoes(r, "editor is readonly"@),
        !active_editor(*old(env)).readonly() ==> r is None,
        edits_active(
            *old(env),
            *final(env),
            |a: Editor, b: Editor|
                if a.readonly() {
                    b == a
                } else {
                    inserted(with_mark(a, None), b, text@)
                },
        ),
{
    proof {
        env.lemma_active();
    }
    let id = env.get_active_editor_id();
    if !env.get_active_editor().is_mutable() {
        proof {
            assert(env.editors_map().insert(id, env.editors_map()[id]) =~= env.editors_map());
        }
        return echo("editor is readonly");
    }
    let editor = env.editor_mut(id);
    let ghost before = *editor;
    proof {
        before.lemma_with_mark(None);
    }
    editor.clear_mark();
    let ghost mid = *editor;
    editor.insert(text);
    proof {
        let w = with_mark(before, None);
        assert(keeps_content(mid, w) && mid.cursor_pos() == w.cursor_pos() && mid.mark() == w.mark());
        assert(inserted(mid, *editor, text@));
    }
    None
}

/// Operation `insert-char`, for a character typed: inserts `c`.
pub fn insert_char(env: &mut Environment, c: char) -> (r: Option<Action>)
    requires
        old(env).wf(),
        active_editor(*old(env)).text().len() < MAX_CAPACITY,
        active_editor(*old(env)).clock() < u64::MAX,
        active_editor(*old(env)).commit_clock() < u64::MAX,
    ensures
        final(env).clip() == old(env).clip(),
        active_editor(*old(env)).readonly() ==> echoes(r, "editor is readonly"@),
        !active_editor(*old(env)).readonly() ==> r is None,
        edits_active(
            *old(env),
            *final(env),
            |a: Editor, b: Editor|
                if a.readonly() {
                    b == a
                } else {
                    inserted(with_mark(a, None), b, seq![c])
                },
        ),
{
    let text = [c];
    assert(text@ =~= seq![c]);
    insert_active(env, &text)
}

/// Operation `insert-line`: inserts a line break.
pub fn insert_line(env: &mut Environment) -> (r: Option<Action>)
    requires
        old(env).wf(),
        active_editor(*old(env)).text().len() < MAX_CAPACITY,
        active_editor(*old(env)).clock() < u64::MAX,
        active_editor(*old(env)).commit_clock() < u64::MAX,
    ensures
        final(env).clip() == old(env).clip(),
        active_editor(*old(env)).readonly() ==> echoes(r, "editor is readonly"@),
        !active_editor(*old(env)).readonly() ==> r is None,
        edits_active(
            *old(env),
            *final(env),
            |a: Editor, b: Editor|
                if a.readonly() {
                    b == a
                } else {
                    inserted(with_mark(a, None), b, seq!['\n'])
                },
        ),
{
    insert_char(env, '\n')
}

/// Operation `insert-tab`: inserts a hard tab, or spaces to the next tab stop.
pub fn insert_tab(env: &mut Environment) -> (r: Option<Action>)
    requires
        old(env).wf(),
        active_editor(*old(env)).text().len() + active_editor(*old(env)).tabs().1 + 1 <= MAX_CAPACITY,
        active_editor(*old(env)).tabs().0 || active_editor(*old(env)).tabs().1 > 0,
        active_editor(*old(env)).clock() < u64::MAX,
        active_editor(*old(env)).commit_clock() < u64::MAX,
    ensures
        final(env).clip() == old(env).clip(),
        active_editor(*old(env)).readonly() ==> echoes(r, "editor is readonly"@),
        !active_editor(*old(env)).readonly() ==> r is None,
        edits_active(
            *old(env),
            *final(env),
            |a: Editor, b: Editor|
                if a.readonly() {
                    b == a
                } else {
                    inserted(with_mark(a, None), b, tab_text(a.tabs(), column_of(a.text(), a.cursor_pos())))
                },
        ),
{
    proof {
        env.lemma_active();
    }
    let id = env.get_active_editor_id();
    if !env.get_active_editor().is_mutable() {
        proof {
            assert(env.editors_map().insert(id, env.editors_map()[id]) =~= env.editors_map());
        }
        return echo("editor is readonly");
    }
    let editor = env.editor_mut(id);
    let ghost before = *editor;
    proof {
        before.lemma_with_mark(None);
    }
    editor.clear_mark();
    let ghost mid = *editor;
    editor.insert_tab();
    proof {
        let w = with_mark(before, None);
        assert(keeps_content(mid, w) && mid.cursor_pos() == w.cursor_pos() && mid.mark() == w.mark());
    }
    None
}

/// Operation `remove-before`: removes the selection, which goes to the local
/// clipboard, or else the character before the cursor; nothing on a read-only
/// editor.
pub fn remove_before(env: &mut Environment) -> (r: Option<Action>)
    requires
        old(env).wf(),
        active_editor(*old(env)).clock() < u64::MAX,
        active_editor(*old(env)).commit_clock() < u64::MAX,
    ensures
        r is None,
        edits_active(
            *old(env),
            *final(env),
            |a: Editor, b: Editor|
                if a.readonly() {
                    b == a
                } else {
                    match a.mark() {
                        Some(m) => removed(with_mark(a, None), b, m.0 as int, cut_text(a), Some(m.1)),
                        None => removed_before(a, b),
                    }
                },
        ),
        final(env).clip() == (if !active_editor(*old(env)).readonly() && active_editor(*old(env)).mark() is Some {
            Some(cut_text(active_editor(*old(env))))
        } else {
            old(env).clip()
        }),
{
    proof {
        env.lemma_active();
    }
    let id = env.get_active_editor_id();
    if !env.get_active_editor().is_mutable() {
        proof {
            assert(env.editors_map().insert(id, env.editors_map()[id]) =~= env.editors_map());
        }
        return None;
    }
    let editor = env.editor_mut(id);
    let ghost before = *editor;
    proof {
        before.lemma_with_mark(None);
    }
    match editor.clear_mark() {
        Some(mark) => {
            let ghost mid = *editor;
            let text = editor.remove_mark(mark);
            proof {
                let w = with_mark(before, None);
                assert(keeps_content(mid, w) && mid.cursor_pos() == w.cursor_pos() && mid.mark() == w.mark());
                assert(text@ =~= removal_text(w, mark.0 as int));
            }
            env.set_clipboard(text);
        },
        None => {
            let text = editor.remove_before();
            proof {
                if before.cursor_pos() > 0 {
                    assert(text@ =~= removal_text(before, before.cursor_pos() - 1));
                }
            }
        },
    }
    None
}

/// Removes from the active editor, after clearing its mark, as `which` says:
/// `0` after the cursor, `1` to the start of the line, `2` to its end; unless it
/// is read-only, in which case it says so.
fn remove_active(env: &mut Environment, which: u8) -> (r: Option<Action>)
    requires
        old(env).wf(),
        which < 3,
        active_editor(*old(env)).clock() < u64::MAX,
        active_editor(*old(env)).commit_clock() < u64::MAX,
    ensures
        final(env).clip() == old(env).clip(),
        active_editor(*old(env)).readonly() ==> echoes(r, "editor is readonly"@),
        !active_editor(*old(env)).readonly() ==> r is None,
        edits_active(
            *old(env),
            *final(env),
            |a: Editor, b: Editor|
                if a.readonly() {
                    b == a
                } else {
                    removal_of(with_mark(a, None), b, which)
                },
        ),
{
    proof {
        env.lemma_active();
    }
    let id = env.get_active_editor_id();
    if !env.get_active_editor().is_mutable() {
        proof {
            assert(env.editors_map().insert(id, env.editors_map()[id]) =~= env.editors_map());
        }
        return echo("editor is readonly");
    }
    let editor = env.editor_mut(id);
    let ghost before = *editor;
    proof {
        before.lemma_with_mark(None);
    }
    editor.clear_mark();
    let ghost mid = *editor;
    let ghost w = with_mark(before, None);
    proof {
        assert(keeps_content(mid, w) && mid.cursor_pos() == w.cursor_pos() && mid.mark() == w.mark());
    }
    if which == 0 {
        let text = editor.remove_after();
        proof {
            if w.cursor_pos() < w.text().len() {
                assert(text@ =~= removal_text(w, w.cursor_pos() + 1));
            }
        }
    } else if which == 1 {
        let text = editor.remove_start();
        proof {
            let start = line_range(w.text(), w.cursor_pos()).0;
            if w.cursor_pos() != start {
                assert(text@ =~= removal_text(w, start));
            } else if w.cursor_pos() > 0 {
                assert(text@ =~= removal_text(w, w.cursor_pos() - 1));
            }
        }
    } else {
        let text = editor.remove_end();
        proof {
            assert(text@ =~= removal_text(w, line_range(w.text(), w.cursor_pos()).1));
        }
    }
    None
}

/// `b` is `a` after the removal that `which` names: `0` after the cursor, `1` to
/// the start of the line (or the character before it at the start of the line),
/// `2` to the start of the next line.
pub open spec fn removal_of(a: Editor, b: Editor, which: u8) -> bool {
    let (start, end) = line_range(a.text(), a.cursor_pos());
    if which == 0 {
        removed_after(a, b)
    } else if which == 1 {
        if a.cursor_pos() == start {
            removed_before(a, b)
        } else {
            removed(a, b, start, removal_text(a, start), None)
        }
    } else {
        removed(a, b, end, removal_text(a, end), None)
    }
}

/// Operation `remove-after`: removes the character after the cursor.
pub fn remove_after(env: &mut Environment) -> (r: Option<Action>)
    requires
        old(env).wf(),
        active_editor(*old(env)).clock() < u64::MAX,
        active_editor(*old(env)).commit_clock() < u64::MAX,
    ensures
        final(env).clip() == old(env).clip(),
        active_editor(*old(env)).readonly() ==> echoes(r, "editor is readonly"@),
        !active_editor(*old(env)).readonly() ==> r is None,
        edits_active(*old(env), *final(env), |a: Editor, b: Editor| if a.readonly() { b == a } else { removal_of(with_mark(a, None), b, 0) }),
{
    remove_active(env, 0)
}

/// Operation `remove-start`: removes from the start of the line to the cursor.
pub fn remove_start(env: &mut Environment) -> (r: Option<Action>)
    requires
        old(env).wf(),
        active_editor(*old(env)).clock() < u64::MAX,
        active_editor(*old(env)).commit_clock() < u64::MAX,
    ensures
        final(env).clip() == old(env).clip(),
        active_editor(*old(env)).readonly() ==> echoes(r, "editor is readonly"@),
        !active_editor(*old(env)).readonly() ==> r is None,
        edits_active(*old(env), *final(env), |a: Editor, b: Editor| if a.readonly() { b == a } else { removal_of(with_mark(a, None), b, 1) }),
{
    remove_active(env, 1)
}

/// Operation `remove-end`: removes from the cursor to the end of the line.
pub fn remove_end(env: &mut Environment) -> (r: Option<Action>)
    requires
        old(env).wf(),
        active_editor(*old(env)).clock() < u64::MAX,
        active_editor(*old(env)).commit_clock() < u64::MAX,
    ensures
        final(env).clip() == old(env).clip(),
        active_editor(*old(env)).readonly() ==> echoes(r, "editor is readonly"@),
        !active_editor(*old(env)).readonly() ==> r is None,
        edits_active(*old(env), *final(env), |a: Editor, b: Editor| if a.readonly() { b == a } else { removal_of(with_mark(a, None), b, 2) }),
{
    remove_active(env, 2)
}

/// Operation `undo`: reverts the last change, or says that there is none.
pub fn undo(env: &mut Environment) -> (r: Option<Action>)
    requires
        old(env).wf(),
    ensures
        final(env).clip() == old(env).clip(),
        active_editor(*old(env)).undo_log().len() > 0 ==> r is None,
        active_editor(*old(env)).undo_log().len() == 0 ==> echoes(r, "nothing to undo"@),
        edits_active(*old(env), *final(env), |a: Editor, b: Editor| undone(a, b, a.undo_log().len() > 0)),
{
    proof {
        env.lemma_active();
    }
    let id = env.get_active_editor_id();
    let editor = env.editor_mut(id);
    if editor.undo() {
        None
    } else {
        echo("nothing to undo")
    }
}

/// Operation `redo`: applies the last change undone, or says that there is none.
pub fn redo(env: &mut Environment) -> (r: Option<Action>)
    requires
        old(env).wf(),
    ensures
        final(env).clip() == old(env).clip(),
        active_editor(*old(env)).redo_log().len() > 0 ==> r is None,
        active_editor(*old(env)).redo_log().len() == 0 ==> echoes(r, "nothing to redo"@),
        edits_active(*old(env), *final(env), |a: Editor, b: Editor| redone(a, b, a.redo_log().len() > 0)),
{
    proof {
        env.lemma_active();
    }
    let id = env.get_active_editor_id();
    let editor = env.editor_mut(id);
    if editor.redo() {
        None
    } else {
        echo("nothing to redo")
    }
}

/// Copies the selection, clearing the mark, or else the line, to the clipboard
/// of `scope`: the local one, or the operating system's, which the returned action
/// asks the caller to fill.
pub fn copy_to(env: &mut Environment, scope: Scope) -> (r: Option<Action>)
    requires
        old(env).wf(),
    ensures
        edits_active(
            *old(env),
            *final(env),
            |a: Editor, b: Editor| keeps_content(a, b) && b.cursor_pos() == a.cursor_pos() && b.mark() is None,
        ),
        scope == Scope::Local ==> r is None && final(env).clip() == Some(copied_text(active_editor(*old(env)))),
        scope == Scope::Global ==> (r matches Some(Action::ToClipboard(t)) && t@ == copied_text(
            active_editor(*old(env)),
        )) && final(env).clip() == old(env).clip(),
{
    proof {
        env.lemma_active();
    }
    let id = env.get_active_editor_id();
    let editor = env.editor_mut(id);
    let text = match editor.clear_mark() {
        Some(mark) => editor.copy_mark(mark),
        None => editor.copy_line(),
    };
    match scope {
        Scope::Local => {
            env.set_clipboard(text);
            None
        },
        Scope::Global => Some(Action::ToClipboard(text)),
    }
}

/// Operation `copy`.
pub fn copy(env: &mut Environment) -> (r: Option<Action>)
    requires
        old(env).wf(),
    ensures
        r is None,
        edits_active(*old(env), *final(env), |a: Editor, b: Editor| keeps_content(a, b) && b.cursor_pos() == a.cursor_pos() && b.mark() is None),
        final(env).clip() == Some(copied_text(active_editor(*old(env)))),
{
    copy_to(env, Scope::Local)
}

/// Operation `copy-global`.
pub fn copy_global(env: &mut Environment) -> (r: Option<Action>)
    requires
        old(env).wf(),
    ensures
        edits_active(*old(env), *final(env), |a: Editor, b: Editor| keeps_content(a, b) && b.cursor_pos() == a.cursor_pos() && b.mark() is None),
        r matches Some(Action::ToClipboard(t)) && t@ == copied_text(active_editor(*old(env))),
        final(env).clip() == old(env).clip(),
{
    copy_to(env, Scope::Global)
}

/// Pastes `text` at the cursor of the active editor, unless it is read-only, in
/// which case it says so.
pub fn paste_text(env: &mut Environment, text: &Vec<char>) -> (r: Option<Action>)
    requires
        old(env).wf(),
        active_editor(*old(env)).text().len() + text@.len() <= MAX_CAPACITY,
        active_editor(*old(env)).clock() < u64::MAX,
        active_editor(*old(env)).commit_clock() < u64::MAX,
    ensures
        final(env).clip() == old(env).clip(),
        active_editor(*old(env)).readonly() ==> echoes(r, "editor is readonly"@),
        !active_editor(*old(env)).readonly() ==> r is None,
        edits_active(
            *old(env),
            *final(env),
            |a: Editor, b: Editor|
                if a.readonly() {
                    b == a
                } else {
                    inserted(a, b, text@)
                },
        ),
{
    proof {
        env.lemma_active();
    }
    let id = env.get_active_editor_id();
    if !env.get_active_editor().is_mutable() {
        proof {
            assert(env.editors_map().insert(id, env.editors_map()[id]) =~= env.editors_map());
        }
        return echo("editor is readonly");
    }
    let editor = env.editor_mut(id);
    editor.insert(text.as_slice());
    None
}

/// Operation `paste`: pastes the text of the local clipboard, if any.
pub fn paste(env: &mut Environment) -> (r: Option<Action>)
    requires
        old(env).wf(),
        old(env).clip() matches Some(t) ==> active_editor(*old(env)).text().len() + t.len() <= MAX_CAPACITY,
        active_editor(*old(env)).clock() < u64::MAX,
        active_editor(*old(env)).commit_clock() < u64::MAX,
    ensures
        final(env).clip() == old(env).clip(),
        active_editor(*old(env)).readonly() ==> echoes(r, "editor is readonly"@),
        !active_editor(*old(env)).readonly() ==> r is None,
        edits_active(
            *old(env),
            *final(env),
            |a: Editor, b: Editor|
                if a.readonly() {
                    b == a
                } else {
                    match old(env).clip() {
                        Some(t) => inserted(a, b, t),
                        None => b == a,
                    }
                },
        ),
{
    proof {
        env.lemma_active();
    }
    let id = env.get_active_editor_id();
    if !env.get_active_editor().is_mutable() {
        proof {
            assert(env.editors_map().insert(id, env.editors_map()[id]) =~= env.editors_map());
        }
        return echo("editor is readonly");
    }
    match env.clipboard().get_text() {
        Some(text) => {
            let editor = env.editor_mut(id);
            editor.insert(text.as_slice());
        },
        None => {
            proof {
                assert(env.editors_map().insert(id, env.editors_map()[id]) =~= env.editors_map());
            }
        },
    }
    None
}

/// Operation `paste-global`: asks the caller for the text of the operating
/// system's clipboard, which it pastes with [`paste_text`]; a read-only editor
/// says so instead.
pub fn paste_global(env: &mut Environment) -> (r: Option<Action>)
    requires
        old(env).wf(),
    ensures
        *final(env) == *old(env),
        active_editor(*old(env)).readonly() ==> echoes(r, "editor is readonly"@),
        !active_editor(*old(env)).readonly() ==> r matches Some(Action::FromClipboard),
{
    proof {
        env.lemma_active();
    }
    if !env.get_active_editor().is_mutable() {
        return echo("editor is readonly");
    }
    Some(Action::FromClipboard)
}

/// Cuts the selection, or else the line, to the clipboard of `scope`: the local
/// one, or the operating system's, which the returned action asks the caller to
/// fill; a read-only editor says so instead.
pub fn cut_to(env: &mut Environment, scope: Scope) -> (r: Option<Action>)
    requires
        old(env).wf(),
        active_editor(*old(env)).clock() < u64::MAX,
        active_editor(*old(env)).commit_clock() < u64::MAX,
    ensures
        edits_active(
            *old(env),
            *final(env),
            |a: Editor, b: Editor|
                if a.readonly() {
                    b == a
                } else {
                    cut_from(a, b)
                },
        ),
        active_editor(*old(env)).readonly() ==> echoes(r, "editor is readonly"@) && final(env).clip() == old(
            env,
        ).clip(),
        !active_editor(*old(env)).readonly() && scope == Scope::Local ==> r is None && final(env).clip() == Some(
            cut_text(active_editor(*old(env))),
        ),
        !active_editor(*old(env)).readonly() && scope == Scope::Global ==> (r matches Some(Action::ToClipboard(t))
            && t@ == cut_text(active_editor(*old(env)))) && final(env).clip() == old(env).clip(),
{
    proof {
        env.lemma_active();
    }
    let id = env.get_active_editor_id();
    if !env.get_active_editor().is_mutable() {
        proof {
            assert(env.editors_map().insert(id, env.editors_map()[id]) =~= env.editors_map());
        }
        return echo("editor is readonly");
    }
    let editor = env.editor_mut(id);
    let ghost before = *editor;
    proof {
        before.lemma_with_mark(None);
    }
    let text = match editor.clear_mark() {
        Some(mark) => {
            let ghost mid = *editor;
            let text = editor.remove_mark(mark);
            proof {
                let w = with_mark(before, None);
                assert(keeps_content(mid, w) && mid.cursor_pos() == w.cursor_pos() && mid.mark() == w.mark());
                assert(text@ =~= removal_text(w, mark.0 as int));
            }
            text
        },
        None => {
            let ghost mid = *editor;
            let text = editor.remove_line();
            proof {
                before.lemma_wf();
                crate::text::lemma_line_start_bounds(before.text(), before.cursor_pos());
                let (s, e) = line_range(before.text(), before.cursor_pos());
                before.lemma_with_cursor(s);
                mid.lemma_with_cursor(s);
                let w1 = crate::editor::with_cursor(mid, s);
                let w2 = crate::editor::with_cursor(before, s);
                assert(keeps_content(w1, w2) && w1.cursor_pos() == w2.cursor_pos() && w1.mark() == w2.mark());
                assert(removed(w1, *editor, e, text@, None));
                assert(text@ =~= removal_text(w2, e));
            }
            text
        },
    };
    match scope {
        Scope::Local => {
            env.set_clipboard(text);
            None
        },
        Scope::Global => Some(Action::ToClipboard(text)),
    }
}

/// Operation `cut`.
pub fn cut(env: &mut Environment) -> (r: Option<Action>)
    requires
        old(env).wf(),
        active_editor(*old(env)).clock() < u64::MAX,
        active_editor(*old(env)).commit_clock() < u64::MAX,
    ensures
        edits_active(*old(env), *final(env), |a: Editor, b: Editor| if a.readonly() { b == a } else { cut_from(a, b) }),
        active_editor(*old(env)).readonly() ==> echoes(r, "editor is readonly"@) && final(env).clip() == old(env).clip(),
        !active_editor(*old(env)).readonly() ==> r is None && final(env).clip() == Some(cut_text(active_editor(*old(env)))),
{
    cut_to(env, Scope::Local)
}

/// Operation `cut-global`.
pub fn cut_global(env: &mut Environment) -> (r: Option<Action>)
    requires
        old(env).wf(),
        active_editor(*old(env)).clock() < u64::MAX,
        active_editor(*old(env)).commit_clock() < u64::MAX,
    ensures
        edits_active(*old(env), *final(env), |a: Editor, b: Editor| if a.readonly() { b == a } else { cut_from(a, b) }),
        active_editor(*old(env)).readonly() ==> echoes(r, "editor is readonly"@) && final(env).clip() == old(env).clip(),
        !active_editor(*old(env)).readonly() ==> (r matches Some(Action::ToClipboard(t)) && t@ == cut_text(active_editor(*old(env)))) && final(env).clip() == old(env).clip(),
{
    cut_to(env, Scope::Global)
}

/// Operation `quit`: asks whether to save the editors with unsaved changes.
pub fn quit(env: &mut Environment) -> (r: Option<Action>)
    ensures
        *final(env) == *old(env),
        r matches Some(Action::Question(Ask::Quit)),
{
    Some(Action::Question(Ask::Quit))
}

/// Operation `goto-line`: asks for a line.
pub fn goto_line(env: &mut Environment) -> (r: Option<Action>)
    ensures
        *final(env) == *old(env),
        r matches Some(Action::Question(Ask::GotoLine)),
{
    Some(Action::Question(Ask::GotoLine))
}

/// Operation `insert-unicode-dec`: asks for a decimal code point.
pub fn insert_unicode_dec(env: &mut Environment) -> (r: Option<Action>)
    ensures
        *final(env) == *old(env),
        r matches Some(Action::Question(Ask::InsertUnicode(10))),
{
    Some(Action::Question(Ask::InsertUnicode(10)))
}

/// Operation `insert-unicode-hex`: asks for a hexadecimal code point.
pub fn insert_unicode_hex(env: &mut Environment) -> (r: Option<Action>)
    ensures
        *final(env) == *old(env),
        r matches Some(Action::Question(Ask::InsertUnicode(16))),
{
    Some(Action::Question(Ask::InsertUnicode(16)))
}

/// Operation `search`: asks for a term, ignoring case.
pub fn search(env: &mut Environment) -> (r: Option<Action>)
    ensures
        *final(env) == *old(env),
        r matches Some(Action::Question(Ask::Search { regex: false, case: false })),
{
    Some(Action::Question(Ask::Search { regex: false, case: false }))
}

/// Operation `search-case`: asks for a term, matching case.
pub fn search_case(env: &mut Environment) -> (r: Option<Action>)
    ensures
        *final(env) == *old(env),
        r matches Some(Action::Question(Ask::Search { regex: false, case: true })),
{
    Some(Action::Question(Ask::Search { regex: false, case: true }))
}

/// Operation `search-regex`: asks for a regular expression, ignoring case.
pub fn search_regex(env: &mut Environment) -> (r: Option<Action>)
    ensures
        *final(env) == *old(env),
        r matches Some(Action::Question(Ask::Search { regex: true, case: false })),
{
    Some(Action::Question(Ask::Search { regex: true, case: false }))
}

/// Operation `search-regex-case`: asks for a regular expression, matching case.
pub fn search_regex_case(env: &mut Environment) -> (r: Option<Action>)
    ensures
        *final(env) == *old(env),
        r matches Some(Action::Question(Ask::Search { regex: true, case: true })),
{
    Some(Action::Question(Ask::Search { regex: true, case: true }))
}

/// Asks which file to open, in the active view or in a new one placed as
/// `place` says.
fn ask_open(place: Option<Placement>) -> (r: Option<Action>)
    ensures
        r matches Some(Action::Question(Ask::Open(p))) && p == place,
{
    Some(Action::Question(Ask::Open(place)))
}

/// Operation `open-file`.
pub fn open_file(env: &mut Environment) -> (r: Option<Action>)
    ensures
        *final(env) == *old(env),
        r matches Some(Action::Question(Ask::Open(p))) && p is None,
{
    ask_open(None)
}

/// Operation `open-file-top`.
pub fn open_file_top(env: &mut Environment) -> (r: Option<Action>)
    ensures
        *final(env) == *old(env),
        r matches Some(Action::Question(Ask::Open(p))) && p == Some(Placement::Top),
{
    ask_open(Some(Placement::Top))
}

/// Operation `open-file-bottom`.
pub fn open_file_bottom(env: &mut Environment) -> (r: Option<Action>)
    ensures
        *final(env) == *old(env),
        r matches Some(Action::Question(Ask::Open(p))) && p == Some(Placement::Bottom),
{
    ask_open(Some(Placement::Bottom))
}

/// Operation `open-file-above`.
pub fn open_file_above(env: &mut Environment) -> (r: Option<Action>)
    ensures
        *final(env) == *old(env),
        r matches Some(Action::Question(Ask::Open(p))) && p == Some(Placement::Above(old(env).active())),
{
    let v = env.get_active_view_id();
    ask_open(Some(Placement::Above(v)))
}

/// Operation `open-file-below`.
pub fn open_file_below(env: &mut Environment) -> (r: Option<Action>)
    ensures
        *final(env) == *old(env),
        r matches Some(Action::Question(Ask::Open(p))) && p == Some(Placement::Below(old(env).active())),
{
    let v = env.get_active_view_id();
    ask_open(Some(Placement::Below(v)))
}

/// Operation `save-file`: saves to the active editor's file, which the caller
/// checks for changes made since it was read, or asks for a file where the
/// editor has none.
pub fn save_file(env: &mut Environment) -> (r: Option<Action>)
    requires
        old(env).wf(),
    ensures
        *final(env) == *old(env),
        active_editor(*old(env)).source_of() is File ==> r matches Some(Action::Question(Ask::Save)),
        !(active_editor(*old(env)).source_of() is File) ==> r matches Some(Action::Question(Ask::SaveAs)),
{
    proof {
        env.lemma_active();
    }
    if is_file(env.get_active_editor()) {
        Some(Action::Question(Ask::Save))
    } else {
        Some(Action::Question(Ask::SaveAs))
    }
}

/// Operation `save-file-as`: asks for a file.
pub fn save_file_as(env: &mut Environment) -> (r: Option<Action>)
    ensures
        *final(env) == *old(env),
        r matches Some(Action::Question(Ask::SaveAs)),
{
    Some(Action::Question(Ask::SaveAs))
}

/// Moves the focus as `focus` says.
fn focus_on(env: &mut Environment, focus: Focus) -> (r: Option<Action>)
    requires
        old(env).wf(),
        !(focus is To),
    ensures
        r is None,
        final(env).wf(),
        final(env).same_parts(&*old(env)),
        final(env).clip() == old(env).clip(),
        final(env).active() == focused(old(env).space().ids(), old(env).active(), focus),
{
    env.set_active(focus);
    None
}

/// Operation `top-window`.
pub fn top_window(env: &mut Environment) -> (r: Option<Action>)
    requires
        old(env).wf(),
    ensures
        r is None,
        final(env).wf(),
        final(env).same_parts(&*old(env)),
        final(env).clip() == old(env).clip(),
        final(env).active() == old(env).space().ids()[0],
{
    focus_on(env, Focus::Top)
}

/// Operation `bottom-window`.
pub fn bottom_window(env: &mut Environment) -> (r: Option<Action>)
    requires
        old(env).wf(),
    ensures
        r is None,
        final(env).wf(),
        final(env).same_parts(&*old(env)),
        final(env).clip() == old(env).clip(),
        final(env).active() == old(env).space().ids().last(),
{
    focus_on(env, Focus::Bottom)
}

/// Operation `prev-window`: the view above, wrapping around to the bottom.
pub fn prev_window(env: &mut Environment) -> (r: Option<Action>)
    requires
        old(env).wf(),
    ensures
        r is None,
        final(env).wf(),
        final(env).same_parts(&*old(env)),
        final(env).clip() == old(env).clip(),
        final(env).active() == focused(old(env).space().ids(), old(env).active(), Focus::Above),
{
    focus_on(env, Focus::Above)
}

/// Operation `next-window`: the view below, wrapping around to the top.
pub fn next_window(env: &mut Environment) -> (r: Option<Action>)
    requires
        old(env).wf(),
    ensures
        r is None,
        final(env).wf(),
        final(env).same_parts(&*old(env)),
        final(env).clip() == old(env).clip(),
        final(env).active() == focused(old(env).space().ids(), old(env).active(), Focus::Below),
{
    focus_on(env, Focus::Below)
}

/// Operation `close-window`: closes the active view, whose editor stays, or says
/// that the only view cannot be closed.
pub fn close_window(env: &mut Environment) -> (r: Option<Action>)
    requires
        old(env).wf(),
    ensures
        final(env).wf(),
        final(env).editors_map() == old(env).editors_map(),
        old(env).space().view_seq().len() == 1 ==> echoes(r, "cannot close only window"@)
            && final(env).attached() == old(env).attached() && final(env).active() == old(env).active(),
        old(env).space().view_seq().len() > 1 ==> r is None && final(env).attached() == old(env).attached().remove(
            old(env).active(),
        ),
{
    if env.close_window().is_some() {
        None
    } else {
        echo("cannot close only window")
    }
}

/// Shows the editor `id`, which no view shows, in the active view.
fn show_editor(env: &mut Environment, id: u32)
    requires
        old(env).wf(),
        old(env).editors_map().contains_key(id),
        !crate::ed::shown(*old(env), id),
    ensures
        final(env).wf(),
        final(env).space() == old(env).space(),
        final(env).editors_map() == old(env).editors_map(),
        final(env).active() == old(env).active(),
        final(env).attached() == old(env).attached().insert(old(env).active(), id),
{
    env.switch_editor(id);
}

/// The offered editors are editors that no view shows.
proof fn lemma_offered(env: Environment, ephemerals: bool, i: int)
    requires
        env.wf(),
        0 <= i < unattached(env, ephemerals).len(),
    ensures
        env.editors_map().contains_key(unattached(env, ephemerals)[i]),
        !crate::ed::shown(env, unattached(env, ephemerals)[i]),
{
    let pred = |id: u32| crate::ed::offered(env, id, ephemerals);
    env.editor_ids().lemma_filter_pred(pred, i);
    crate::ed::lemma_unattached_increasing(env, ephemerals);
    let x = unattached(env, ephemerals)[i];
    assert(env.editor_ids().contains(x)) by {
        reveal(Seq::filter);
        lemma_filter_sub(env.editor_ids(), pred, i);
    }
    env.lemma_editor_ids();
}

/// Each element of a filter is an element of the sequence filtered.
proof fn lemma_filter_sub(s: Seq<u32>, pred: spec_fn(u32) -> bool, i: int)
    requires
        0 <= i < s.filter(pred).len(),
    ensures
        s.contains(s.filter(pred)[i]),
    decreases s.len(),
{
    reveal(Seq::filter);
    if s.len() > 0 {
        let p = s.drop_last();
        let fp = p.filter(pred);
        if i < fp.len() {
            lemma_filter_sub(p, pred, i);
            let k = choose|k: int| 0 <= k < p.len() && p[k] == fp[i];
            assert(s[k] == p[k]);
        } else {
            assert(s[s.len() - 1] == s.filter(pred)[i]);
        }
    }
}

/// Operation `prev-editor`: shows in the active view the editor before the one it
/// shows, among those that no view shows, ephemerals aside.
pub fn prev_editor(env: &mut Environment) -> (r: Option<Action>)
    requires
        old(env).wf(),
    ensures
        r is None,
        final(env).wf(),
        final(env).space() == old(env).space(),
        final(env).editors_map() == old(env).editors_map(),
        final(env).active() == old(env).active(),
        unattached(*old(env), false).len() == 0 ==> final(env).attached() == old(env).attached(),
        unattached(*old(env), false).len() > 0 ==> exists|x: u32|
            prev_of(unattached(*old(env), false), old(env).attached()[old(env).active()], x) && final(env).attached()
                == old(env).attached().insert(old(env).active(), x),
{
    match prev_unattached_editor(env) {
        Some(id) => {
            proof {
                let u = unattached(*env, false);
                let k = choose|k: int| 0 <= k < u.len() && u[k] == id && ((u[k] < env.attached()[env.active()] && forall|j: int| k < j < u.len() ==> u[j] >= env.attached()[env.active()]) || (k == u.len() - 1 && forall|j: int| 0 <= j < u.len() ==> u[j] >= env.attached()[env.active()]));
                lemma_offered(*env, false, k);
            }
            show_editor(env, id);
        },
        None => {},
    }
    None
}

/// Operation `next-editor`: shows in the active view the editor after the one it
/// shows, among those that no view shows, ephemerals aside.
pub fn next_editor(env: &mut Environment) -> (r: Option<Action>)
    requires
        old(env).wf(),
    ensures
        r is None,
        final(env).wf(),
        final(env).space() == old(env).space(),
        final(env).editors_map() == old(env).editors_map(),
        final(env).active() == old(env).active(),
        unattached(*old(env), false).len() == 0 ==> final(env).attached() == old(env).attached(),
        unattached(*old(env), false).len() > 0 ==> exists|x: u32|
            next_of(unattached(*old(env), false), old(env).attached()[old(env).active()], x) && final(env).attached()
                == old(env).attached().insert(old(env).active(), x),
{
    match next_unattached_editor(env) {
        Some(id) => {
            proof {
                let u = unattached(*env, false);
                let k = choose|k: int| 0 <= k < u.len() && u[k] == id && ((u[k] > env.attached()[env.active()] && forall|j: int| 0 <= j < k ==> u[j] <= env.attached()[env.active()]) || (k == 0 && forall|j: int| 0 <= j < u.len() ==> u[j] <= env.attached()[env.active()]));
                lemma_offered(*env, false, k);
            }
            show_editor(env, id);
        },
        None => {},
    }
    None
}

/// Asks which editor to switch to, among those that no view shows, in the active
/// view or in a new one placed as `place` says; says so where there is none.
fn ask_select(env: &mut Environment, place: Option<Placement>) -> (r: Option<Action>)
    requires
        old(env).wf(),
    ensures
        *final(env) == *old(env),
        unattached(*old(env), true).len() == 0 ==> echoes(r, "no more editors"@),
        unattached(*old(env), true).len() > 0 ==> (r matches Some(Action::Question(Ask::Select(ids, p))) && ids@
            == unattached(*old(env), true) && p == place),
{
    let editors = unattached_editors(env, true);
    if editors.len() > 0 {
        Some(Action::Question(Ask::Select(editors, place)))
    } else {
        echo("no more editors")
    }
}

/// Operation `select-editor`.
pub fn select_editor(env: &mut Environment) -> (r: Option<Action>)
    requires
        old(env).wf(),
    ensures
        *final(env) == *old(env),
        unattached(*old(env), true).len() == 0 ==> echoes(r, "no more editors"@),
        unattached(*old(env), true).len() > 0 ==> (r matches Some(Action::Question(Ask::Select(ids, p))) && ids@
            == unattached(*old(env), true) && p is None),
{
    ask_select(env, None)
}

/// Operation `select-editor-top`.
pub fn select_editor_top(env: &mut Environment) -> (r: Option<Action>)
    requires
        old(env).wf(),
    ensures
        *final(env) == *old(env),
        unattached(*old(env), true).len() == 0 ==> echoes(r, "no more editors"@),
        unattached(*old(env), true).len() > 0 ==> (r matches Some(Action::Question(Ask::Select(ids, p))) && ids@
            == unattached(*old(env), true) && p == Some(Placement::Top)),
{
    ask_select(env, Some(Placement::Top))
}

/// Operation `select-editor-bottom`.
pub fn select_editor_bottom(env: &mut Environment) -> (r: Option<Action>)
    requires
        old(env).wf(),
    ensures
        *final(env) == *old(env),
        unattached(*old(env), true).len() == 0 ==> echoes(r, "no more editors"@),
        unattached(*old(env), true).len() > 0 ==> (r matches Some(Action::Question(Ask::Select(ids, p))) && ids@
            == unattached(*old(env), true) && p == Some(Placement::Bottom)),
{
    ask_select(env, Some(Placement::Bottom))
}

/// Operation `select-editor-above`.
pub fn select_editor_above(env: &mut Environment) -> (r: Option<Action>)
    requires
        old(env).wf(),
    ensures
        *final(env) == *old(env),
        unattached(*old(env), true).len() == 0 ==> echoes(r, "no more editors"@),
        unattached(*old(env), true).len() > 0 ==> (r matches Some(Action::Question(Ask::Select(ids, p))) && ids@
            == unattached(*old(env), true) && p == Some(Placement::Above(old(env).active()))),
{
    let v = env.get_active_view_id();
    ask_select(env, Some(Placement::Above(v)))
}

/// Operation `select-editor-below`.
pub fn select_editor_below(env: &mut Environment) -> (r: Option<Action>)
    requires
        old(env).wf(),
    ensures
        *final(env) == *old(env),
        unattached(*old(env), true).len() == 0 ==> echoes(r, "no more editors"@),
        unattached(*old(env), true).len() > 0 ==> (r matches Some(Action::Question(Ask::Select(ids, p))) && ids@
            == unattached(*old(env), true) && p == Some(Placement::Below(old(env).active()))),
{
    let v = env.get_active_view_id();
    ask_select(env, Some(Placement::Below(v)))
}

/// `b` is `a` but for, perhaps, its tab and line-ending modes.
pub open spec fn same_but_modes(a: Editor, b: Editor) -> bool {
    &&& b.text() == a.text()
    &&& b.cursor_pos() == a.cursor_pos()
    &&& b.mark() == a.mark()
    &&& b.undo_log() == a.undo_log()
    &&& b.redo_log() == a.redo_log()
    &&& b.clock() == a.clock()
    &&& b.commit_clock() == a.commit_clock()
    &&& b.readonly() == a.readonly()
    &&& b.matched() == a.matched()
    &&& b.source_of() == a.source_of()
}

/// Operation `tab-mode`: switches between hard and soft tabs, saying which.
pub fn tab_mode(env: &mut Environment) -> (r: Option<Action>)
    requires
        old(env).wf(),
    ensures
        final(env).clip() == old(env).clip(),
        edits_active(
            *old(env),
            *final(env),
            |a: Editor, b: Editor|
                same_but_modes(a, b) && b.tabs() == (!a.tabs().0, a.tabs().1) && b.crlf() == a.crlf(),
        ),
        active_editor(*old(env)).tabs().0 ==> echoes(r, "soft tabs enabled"@),
        !active_editor(*old(env)).tabs().0 ==> echoes(r, "hard tabs enabled"@),
{
    proof {
        env.lemma_active();
    }
    let id = env.get_active_editor_id();
    let editor = env.editor_mut(id);
    let hard = editor.get_tab();
    editor.set_tab(!hard);
    if hard {
        echo("soft tabs enabled")
    } else {
        echo("hard tabs enabled")
    }
}

/// Operation `eol-mode`: switches between CRLF and LF line endings, saying which.
pub fn eol_mode(env: &mut Environment) -> (r: Option<Action>)
    requires
        old(env).wf(),
    ensures
        final(env).clip() == old(env).clip(),
        edits_active(
            *old(env),
            *final(env),
            |a: Editor, b: Editor|
                same_but_modes(a, b) && b.crlf() == !a.crlf() && b.tabs() == a.tabs(),
        ),
        active_editor(*old(env)).crlf() ==> echoes(r, "EOL mode set to LF"@),
        !active_editor(*old(env)).crlf() ==> echoes(r, "EOL mode set to CRLF"@),
{
    proof {
        env.lemma_active();
    }
    let id = env.get_active_editor_id();
    let editor = env.editor_mut(id);
    let crlf = editor.get_crlf();
    editor.set_crlf(!crlf);
    if crlf {
        echo("EOL mode set to LF")
    } else {
        echo("EOL mode set to CRLF")
    }
}

/// `c` is a control character: `U+0000` to `U+001F`, or `U+007F` to `U+009F`.
pub open spec fn is_control_char(c: char) -> bool {
    (c as u32) < 0x20 || (0x7f <= (c as u32) && (c as u32) <= 0x9f)
}

/// How the character under the cursor of `e` is described: quoted unless it is a
/// control character, then its code point; `EOF` past the end.
pub open spec fn cursor_text(e: Editor) -> Seq<char> {
    let t = e.text();
    let p = e.cursor_pos();
    if p < t.len() {
        let c = t[p];
        (if is_control_char(c) {
            Seq::empty()
        } else {
            "'"@ + seq![c] + "' "@
        }) + "\\u"@ + zero_padded(hexadecimal((c as u32) as nat), 4)
    } else {
        "EOF"@
    }
}

/// The description of the editor `e`: its lines, characters, the character under
/// the cursor, and its tab and line-ending modes.
pub open spec fn description(e: Editor) -> Seq<char> {
    "lines: "@ + decimal(count_nl(e.text()) + 1) + " | chars: "@ + decimal(e.text().len()) + " | cursor: "@
        + cursor_text(e) + " | tabs: "@ + (if e.tabs().0 {
        "hard"@
    } else {
        "soft"@
    }) + " | eol: "@ + (if e.crlf() {
        "CRLF"@
    } else {
        "LF"@
    })
}

/// Operation `describe-editor`: shows the description of the active editor.
pub fn describe_editor(env: &mut Environment) -> (r: Option<Action>)
    requires
        old(env).wf(),
    ensures
        *final(env) == *old(env),
        echoes(r, description(active_editor(*old(env)))),
{
    proof {
        env.lemma_active();
    }
    let editor = env.get_active_editor();
    let buffer = editor.buffer();
    proof {
        editor.lemma_wf();
        crate::text::lemma_count_nl_le_len(buffer@);
        assert(buffer@.take(buffer@.len() as int) =~= buffer@);
    }
    let lines = buffer.line_of(usize::MAX);
    let pos = editor.pos();
    let mut s = to_string("lines: ");
    push_decimal(&mut s, lines as u64 + 1);
    push_str(&mut s, " | chars: ");
    push_decimal(&mut s, buffer.size() as u64);
    push_str(&mut s, " | cursor: ");
    let ghost head = s@;
    proof {
        assert(head =~= "lines: "@ + decimal(count_nl(editor.text()) + 1) + " | chars: "@ + decimal(editor.text().len()) + " | cursor: "@);
    }
    match buffer.get_char(pos) {
        Some(c) => {
            let code = c as u32;
            if !(code < 0x20 || (0x7f <= code && code <= 0x9f)) {
                push_str(&mut s, "'");
                crate::strings::push_char(&mut s, c);
                push_str(&mut s, "' ");
            }
            push_str(&mut s, "\\u");
            push_hex(&mut s, code as u64, 4);
            proof {
                assert((code as u64) as nat == (c as u32) as nat);
                assert(s@ =~= head + cursor_text(*editor));
            }
        },
        None => {
            push_str(&mut s, "EOF");
            proof {
                assert(s@ =~= head + cursor_text(*editor));
            }
        },
    }
    push_str(&mut s, " | tabs: ");
    push_str(&mut s, if editor.get_tab() { "hard" } else { "soft" });
    push_str(&mut s, " | eol: ");
    push_str(&mut s, if editor.get_crlf() { "CRLF" } else { "LF" });
    proof {
        assert(s@ =~= description(*editor));
    }
    Some(Action::Echo(s))
}

/// Operation `redraw`: asks for the whole workspace to be drawn again.
pub fn redraw(env: &mut Environment) -> (r: Option<Action>)
    ensures
        *final(env) == *old(env),
        r matches Some(Action::Redraw),
{
    Some(Action::Redraw)
}

/// Operation `kill-window`: closes the active view and removes its editor, unless
/// it is the scratch editor; where the view is the only one, shows the next
/// editor that no view shows in it instead. An editor with unsaved changes asks
/// first; with neither another view nor another editor, says so.
pub fn kill_window(env: &mut Environment) -> (r: Option<Action>)
    requires
        old(env).wf(),
    ensures
        final(env).wf(),
        ({
            let a = active_editor(*old(env));
            let aid = old(env).attached()[old(env).active()];
            let views = old(env).space().view_seq().len();
            let u = unattached(*old(env), false);
            let kept = if aid == SCRATCH_ID {
                old(env).editors_map()
            } else {
                old(env).editors_map().remove(aid)
            };
            &&& views > 1 && dirty_file(a) ==> *final(env) == *old(env) && (r matches Some(
                Action::Question(Ask::Kill(k)),
            ) && k is None)
            &&& views > 1 && !dirty_file(a) ==> r is None && final(env).attached() == old(env).attached().remove(
                old(env).active(),
            ) && final(env).editors_map() == kept
            &&& views == 1 && u.len() > 0 && dirty_file(a) ==> *final(env) == *old(env) && (r matches Some(
                Action::Question(Ask::Kill(Some((e, x)))),
            ) && e == aid && next_of(u, aid, x))
            &&& views == 1 && u.len() > 0 && !dirty_file(a) ==> r is None && final(env).editors_map() == kept
                && exists|x: u32|
                next_of(u, aid, x) && final(env).attached() == old(env).attached().insert(old(env).active(), x)
            &&& views == 1 && u.len() == 0 ==> *final(env) == *old(env) && echoes(r, "cannot close only window"@)
        }),
{
    proof {
        env.lemma_active();
        env.lemma_consistent();
    }
    let dirty = is_dirty_file(env.get_active_editor());
    if env.workspace().views().len() > 1 {
        if dirty {
            return Some(Action::Question(Ask::Kill(None)));
        }
        env.kill_window();
        return None;
    }
    match next_unattached_editor(env) {
        Some(switch_id) => {
            let editor_id = env.get_active_editor_id();
            if dirty {
                return Some(Action::Question(Ask::Kill(Some((editor_id, switch_id)))));
            }
            proof {
                let u = unattached(*env, false);
                let k = choose|k: int| 0 <= k < u.len() && u[k] == switch_id && ((u[k] > env.attached()[env.active()] && forall|j: int| 0 <= j < k ==> u[j] <= env.attached()[env.active()]) || (k == 0 && forall|j: int| 0 <= j < u.len() ==> u[j] <= env.attached()[env.active()]));
                lemma_offered(*env, false, k);
            }
            let ghost before = *env;
            show_editor(env, switch_id);
            proof {
                env.lemma_consistent();
                assert forall|v: u32| #[trigger] env.attached().contains_key(v) implies env.attached()[v] != editor_id by {
                    assert(env.space().ids().contains(v));
                    assert(before.space().ids().len() == 1);
                    let t = choose|t: int| 0 <= t < before.space().ids().len() && before.space().ids()[t] == v;
                    assert(before.space().ids().contains(before.active()));
                    let t2 = choose|t2: int| 0 <= t2 < before.space().ids().len() && before.space().ids()[t2] == before.active();
                    assert(v == before.active());
                }
                assert(env.editors_map().contains_key(editor_id));
            }
            env.close_editor(editor_id);
            None
        },
        None => echo("cannot close only window"),
    }
}


/// Operation `close-other-windows`: closes every view but the active one; their
/// editors stay.
pub fn close_other_windows(env: &mut Environment) -> (r: Option<Action>)
    requires
        old(env).wf(),
    ensures
        r is None,
        final(env).wf(),
        final(env).space().ids() == seq![old(env).active()],
        final(env).active() == old(env).active(),
        final(env).attached() == map![old(env).active() => old(env).attached()[old(env).active()]],
        final(env).editors_map() == old(env).editors_map(),
{
    proof {
        env.lemma_consistent();
    }
    let active = env.get_active_view_id();
    let ids: Vec<u32> = copy_ids(env);
    let ghost ids0 = old(env).space().ids();
    let mut k: usize = 0;
    while k < ids.len()
        invariant
            env.wf(),
            ids@ == ids0,
            active == old(env).active(),
            k <= ids@.len(),
            env.editors_map() == old(env).editors_map(),
            env.space().ids().contains(active),
            forall|v: u32| #[trigger] env.space().ids().contains(v) ==> ids0.contains(v),
            forall|j: int| 0 <= j < k && ids0[j] != active ==> !env.space().ids().contains(#[trigger] ids0[j]),
            forall|v: u32| #[trigger] env.attached().contains_key(v) ==> env.attached()[v] == old(env).attached()[v],
            forall|i: int, j: int| 0 <= i < j < ids0.len() ==> ids0[i] != ids0[j],
        decreases ids@.len() - k,
    {
        let id = ids[k];
        if id != active {
            let ghost before = *env;
            proof {
                env.lemma_consistent();
                assert forall|j: int| 0 <= j < k && ids0[j] != active implies ids0[j] != id by {
                    assert(ids0[j] != ids0[k as int]);
                }
                if env.space().ids().contains(id) {
                    assert(env.space().view_seq().len() > 1) by {
                        let t1 = choose|t: int| 0 <= t < env.space().ids().len() && env.space().ids()[t] == id;
                        let t2 = choose|t: int| 0 <= t < env.space().ids().len() && env.space().ids()[t] == active;
                        assert(t1 != t2);
                    }
                }
            }
            if env.workspace().find_view(id).is_some() {
                env.close_window_for(id);
                proof {
                    let i = index_of(before.space().ids(), id);
                    assert(env.space().ids() == before.space().ids().remove(i));
                    assert forall|v: u32| #[trigger] env.space().ids().contains(v) implies before.space().ids().contains(v) && v != id by {
                        let t = choose|t: int| 0 <= t < env.space().ids().len() && env.space().ids()[t] == v;
                        let ot = if t < i { t } else { t + 1 };
                        assert(before.space().ids()[ot] == v);
                        if v == id {
                            assert(before.space().ids()[i] == id);
                        }
                    }
                    assert(env.space().ids().contains(active)) by {
                        let t = choose|t: int| 0 <= t < before.space().ids().len() && before.space().ids()[t] == active;
                        assert(t != i);
                        let nt = if t < i { t } else { t - 1 };
                        assert(env.space().ids()[nt] == active);
                    }
                }
            }
        }
        k = k + 1;
    }
    proof {
        env.lemma_consistent();
        let ids1 = env.space().ids();
        assert forall|t: int| 0 <= t < ids1.len() implies ids1[t] == active by {
            assert(ids1.contains(ids1[t]));
            assert(ids0.contains(ids1[t]));
            let j = choose|j: int| 0 <= j < ids0.len() && ids0[j] == ids1[t];
        }
        assert(ids1.len() == 1) by {
            if ids1.len() > 1 {
                assert(ids1[0] == active && ids1[1] == active);
            }
        }
        assert(ids1 =~= seq![active]);
        assert forall|v: u32| #[trigger] env.attached().contains_key(v) == map![active => old(env).attached()[active]].contains_key(v) by {
        }
        assert(ids1.contains(active));
        assert(env.attached().contains_key(active));
        assert(env.attached()[active] == old(env).attached()[active]);
        assert(env.attached() =~= map![active => old(env).attached()[active]]);
        assert(env.active() == active);
    }
    None
}

/// Returns the ids of the views, top to bottom.
fn copy_ids(env: &Environment) -> (r: Vec<u32>)
    requires
        env.wf(),
    ensures
        r@ == env.space().ids(),
{
    let views = env.workspace().views();
    let mut r: Vec<u32> = Vec::new();
    let mut k: usize = 0;
    while k < views.len()
        invariant
            views@ == env.space().view_seq(),
            k <= views@.len(),
            r@ == env.space().ids().take(k as int),
        decreases views@.len() - k,
    {
        r.push(views[k].id);
        k = k + 1;
        assert(r@ =~= env.space().ids().take(k as int));
    }
    assert(env.space().ids().take(views@.len() as int) =~= env.space().ids());
    r
}

/// The active editor has room for any operation: its clocks can advance, its text
/// can take a tab or the text of the local clipboard, and its tab stops are set.
pub open spec fn ready(env: Environment) -> bool {
    let a = active_editor(env);
    &&& a.clock() < u64::MAX
    &&& a.commit_clock() < u64::MAX
    &&& a.text().len() + a.tabs().1 + 1 <= MAX_CAPACITY
    &&& a.tabs().0 || a.tabs().1 > 0
    &&& env.clip() matches Some(t) ==> a.text().len() + t.len() <= MAX_CAPACITY
}

/// Returns `true` if the active editor has room for any operation.
pub fn is_ready(env: &Environment) -> (b: bool)
    requires
        env.wf(),
    ensures
        b == ready(*env),
{
    proof {
        env.lemma_active();
    }
    let a = env.get_active_editor();
    proof {
        a.lemma_wf();
    }
    let (clock, commit) = a.clocks();
    let len = a.buffer().size() as u64;
    let clip_ok = match env.clipboard().get_text() {
        Some(t) => (t.len() as u64) <= MAX_CAPACITY as u64 - len,
        None => true,
    };
    clock < u64::MAX && commit < u64::MAX && len + (a.tab_cols() as u64) + 1 <= MAX_CAPACITY as u64 && (a.get_tab()
        || a.tab_cols() > 0) && clip_ok
}

/// The operations that [`perform`] runs.
pub open spec fn performs(op: Seq<char>) -> bool {
    op == "quit"@ || op == "move-backward"@ || op == "move-backward-word"@ || op == "move-backward-select"@ || op
        == "move-backward-word-select"@ || op == "move-forward"@ || op == "move-forward-word"@ || op
        == "move-forward-select"@ || op == "move-forward-word-select"@ || op == "move-top"@ || op
        == "move-top-select"@ || op == "move-bottom"@ || op == "move-bottom-select"@ || op == "redraw"@ || op
        == "set-mark"@ || op == "goto-line"@ || op == "insert-line"@ || op == "insert-tab"@ || op
        == "insert-unicode-dec"@ || op == "insert-unicode-hex"@ || op == "remove-before"@ || op
        == "remove-after"@ || op == "remove-start"@ || op == "remove-end"@ || op == "undo"@ || op == "redo"@ || op
        == "copy"@ || op == "copy-global"@ || op == "paste"@ || op == "paste-global"@ || op == "cut"@ || op
        == "cut-global"@ || op == "search"@ || op == "search-case"@ || op == "search-regex"@ || op
        == "search-regex-case"@ || op == "search-next"@ || op == "open-file"@ || op == "open-file-top"@ || op == "open-file-bottom"@ || op
        == "open-file-above"@ || op == "open-file-below"@ || op == "save-file"@ || op == "save-file-as"@ || op
        == "select-editor"@ || op == "select-editor-top"@ || op == "select-editor-bottom"@ || op
        == "select-editor-above"@ || op == "select-editor-below"@ || op == "prev-editor"@ || op == "next-editor"@
        || op == "kill-window"@ || op == "close-window"@ || op == "close-other-windows"@ || op == "top-window"@
        || op == "bottom-window"@ || op == "prev-window"@ || op == "next-window"@ || op == "describe-editor"@ || op
        == "tab-mode"@ || op == "eol-mode"@
}

/// Runs the operation named `op`, as its own function does, and returns what it
/// returns; `None` where `op` is none of those that [`performs`] names.
pub fn perform(env: &mut Environment, op: &str) -> (r: Option<Option<Action>>)
    requires
        old(env).wf(),
        ready(*old(env)),
    ensures
        final(env).wf(),
        r is Some <==> performs(op@),
        r is None ==> *final(env) == *old(env),
{
    let action = if str_eq(op, "quit") {
        quit(env)
    } else if str_eq(op, "move-backward") {
        move_backward(env)
    } else if str_eq(op, "move-backward-word") {
        move_backward_word(env)
    } else if str_eq(op, "move-backward-select") {
        move_backward_select(env)
    } else if str_eq(op, "move-backward-word-select") {
        move_backward_word_select(env)
    } else if str_eq(op, "move-forward") {
        move_forward(env)
    } else if str_eq(op, "move-forward-word") {
        move_forward_word(env)
    } else if str_eq(op, "move-forward-select") {
        move_forward_select(env)
    } else if str_eq(op, "move-forward-word-select") {
        move_forward_word_select(env)
    } else if str_eq(op, "move-top") {
        move_top(env)
    } else if str_eq(op, "move-top-select") {
        move_top_select(env)
    } else if str_eq(op, "move-bottom") {
        move_bottom(env)
    } else if str_eq(op, "move-bottom-select") {
        move_bottom_select(env)
    } else if str_eq(op, "redraw") {
        redraw(env)
    } else if str_eq(op, "set-mark") {
        set_mark(env)
    } else if str_eq(op, "goto-line") {
        goto_line(env)
    } else if str_eq(op, "insert-line") {
        insert_line(env)
    } else if str_eq(op, "insert-tab") {
        insert_tab(env)
    } else if str_eq(op, "insert-unicode-dec") {
        insert_unicode_dec(env)
    } else if str_eq(op, "insert-unicode-hex") {
        insert_unicode_hex(env)
    } else if str_eq(op, "remove-before") {
        remove_before(env)
    } else if str_eq(op, "remove-after") {
        remove_after(env)
    } else if str_eq(op, "remove-start") {
        remove_start(env)
    } else if str_eq(op, "remove-end") {
        remove_end(env)
    } else if str_eq(op, "undo") {
        undo(env)
    } else if str_eq(op, "redo") {
        redo(env)
    } else if str_eq(op, "copy") {
        copy(env)
    } else if str_eq(op, "copy-global") {
        copy_global(env)
    } else if str_eq(op, "paste") {
        paste(env)
    } else if str_eq(op, "paste-global") {
        paste_global(env)
    } else if str_eq(op, "cut") {
        cut(env)
    } else if str_eq(op, "cut-global") {
        cut_global(env)
    } else if str_eq(op, "search") {
        search(env)
    } else if str_eq(op, "search-case") {
        search_case(env)
    } else if str_eq(op, "search-regex") {
        search_regex(env)
    } else if str_eq(op, "search-regex-case") {
        search_regex_case(env)
    } else if str_eq(op, "search-next") {
        search_next(env)
    } else if str_eq(op, "open-file") {
        open_file(env)
    } else if str_eq(op, "open-file-top") {
        open_file_top(env)
    } else if str_eq(op, "open-file-bottom") {
        open_file_bottom(env)
    } else if str_eq(op, "open-file-above") {
        open_file_above(env)
    } else if str_eq(op, "open-file-below") {
        open_file_below(env)
    } else if str_eq(op, "save-file") {
        save_file(env)
    } else if str_eq(op, "save-file-as") {
        save_file_as(env)
    } else if str_eq(op, "select-editor") {
        select_editor(env)
    } else if str_eq(op, "select-editor-top") {
        select_editor_top(env)
    } else if str_eq(op, "select-editor-bottom") {
        select_editor_bottom(env)
    } else if str_eq(op, "select-editor-above") {
        select_editor_above(env)
    } else if str_eq(op, "select-editor-below") {
        select_editor_below(env)
    } else if str_eq(op, "prev-editor") {
        prev_editor(env)
    } else if str_eq(op, "next-editor") {
        next_editor(env)
    } else if str_eq(op, "kill-window") {
        kill_window(env)
    } else if str_eq(op, "close-window") {
        close_window(env)
    } else if str_eq(op, "close-other-windows") {
        close_other_windows(env)
    } else if str_eq(op, "top-window") {
        top_window(env)
    } else if str_eq(op, "bottom-window") {
        bottom_window(env)
    } else if str_eq(op, "prev-window") {
        prev_window(env)
    } else if str_eq(op, "next-window") {
        next_window(env)
    } else if str_eq(op, "describe-editor") {
        describe_editor(env)
    } else if str_eq(op, "tab-mode") {
        tab_mode(env)
    } else if str_eq(op, "eol-mode") {
        eol_mode(env)
    } else {
        return None;
    };
    Some(action)
}

/// A view that `locate_in` finds is among the views.
proof fn lemma_located(views: Seq<crate::workspace::View>, p: Point)
    ensures
        locate_in(views, p) matches Some((id, _)) ==> views.map_values(|v: crate::workspace::View| v.id).contains(id),
    decreases views.len(),
{
    if views.len() > 0 {
        lemma_located(views.drop_first(), p);
        match locate_in(views, p) {
            Some((id, _)) => {
                let ids = views.map_values(|v: crate::workspace::View| v.id);
                if crate::workspace::point_on_view(views[0], p) is Some {
                    assert(ids[0] == id);
                } else {
                    let rest = views.drop_first().map_values(|v: crate::workspace::View| v.id);
                    let k = choose|k: int| 0 <= k < rest.len() && rest[k] == id;
                    assert(ids[k + 1] == id);
                }
            },
            None => {},
        }
    }
}

/// Moves the cursor of the editor in the view at the point `p` of the terminal
/// one character backward, or forward where `forward` holds, selecting text where
/// `select` holds; only where lateral tracking is `enabled`.
pub fn track_lateral(env: &mut Environment, p: Point, select: bool, forward: bool, enabled: bool)
    requires
        old(env).wf(),
    ensures
        final(env).clip() == old(env).clip(),
        !enabled || locate_in(old(env).space().view_seq(), p) is None ==> *final(env) == *old(env),
        enabled && locate_in(old(env).space().view_seq(), p) is Some ==> ({
            let v = locate_in(old(env).space().view_seq(), p)->Some_0.0;
            let m = if forward {
                Motion::Forward
            } else {
                Motion::Backward
            };
            edits_editor(
                *old(env),
                *final(env),
                old(env).attached()[v],
                |a: Editor, b: Editor| moved(a, b, motion_target(a.text(), a.cursor_pos(), m), select),
            )
        }),
{
    if !enabled {
        return;
    }
    proof {
        lemma_located(env.space().view_seq(), p);
        env.lemma_consistent();
    }
    match env.workspace().locate_view(p) {
        Some((v, _)) => {
            proof {
                assert(env.space().ids().contains(v));
                assert(env.attached().contains_key(v));
            }
            let id = env.view_editor(v);
            let editor = env.editor_mut(id);
            proof {
                editor.lemma_wf();
            }
            if select {
                editor.set_soft_mark();
            } else {
                editor.clear_soft_mark();
            }
            if forward {
                editor.move_forward(1);
            } else {
                editor.move_backward(1);
            }
        },
        None => {},
    }
}

/// How the help editor named `name` is shown.
pub open spec fn help_source(name: Seq<char>) -> Seq<char> {
    "@"@ + name
}

/// `id` is the first editor of `env`, by id, shown as `source`.
pub open spec fn first_named(env: Environment, source: Seq<char>, id: u32) -> bool {
    &&& env.editors_map().contains_key(id)
    &&& shown_as(env.editors_map()[id], ""@) == source
    &&& forall|o: u32| #[trigger] env.editors_map().contains_key(o) && o < id ==> shown_as(env.editors_map()[o], ""@)
        != source
}

/// No view can be added to `env`: the views would not fit, or ids ran out.
pub open spec fn no_room(env: Environment) -> bool {
    ||| !fits(env.space().view_rows(), env.space().view_seq().len() + 1int)
    ||| env.space().next_id_spec() == u32::MAX
}

/// The answer where no window can be opened.
pub open spec fn no_window_echo(r: Option<Action>) -> bool {
    r matches Some(Action::Echo(t)) && t@ == "unable to create new window"@
}

/// Shows or hides the help editor named `name`: a window that shows it is
/// closed; where none does, one is opened at the bottom and made active; where
/// there is no such editor yet, one is made, read-only, holding `content`, and
/// opened the same way. Where no window can be opened, says so.
pub fn toggle_help(env: &mut Environment, name: &str, content: &str) -> (r: Option<Action>)
    requires
        old(env).wf(),
        content@.len() <= MAX_CAPACITY,
    ensures
        final(env).wf(),
        r is None || no_window_echo(r),
        forall|id: u32, v: u32|
            #![trigger first_named(*old(env), help_source(name@), id), old(env).attached()[v]]
            first_named(*old(env), help_source(name@), id) && old(env).attached().contains_key(v)
                && old(env).attached()[v] == id ==> r is None && final(env).attached() == (if old(
                env,
            ).space().view_seq().len() == 1 {
                old(env).attached()
            } else {
                old(env).attached().remove(v)
            }),
        forall|id: u32|
            #![trigger first_named(*old(env), help_source(name@), id)]
            first_named(*old(env), help_source(name@), id) && (forall|v: u32|
                #[trigger] old(env).attached().contains_key(v) ==> old(env).attached()[v] != id) ==> {
                &&& final(env).editors_map() == old(env).editors_map()
                &&& (r is None <==> !no_room(*old(env)))
                &&& r is None ==> final(env).attached().contains_key(final(env).active())
                    && final(env).attached()[final(env).active()] == id
                &&& r is Some ==> final(env).attached() == old(env).attached()
            },
        (forall|id: u32|
            #[trigger] old(env).editors_map().contains_key(id) ==> shown_as(old(env).editors_map()[id], ""@)
                != help_source(name@)) ==> {
            let nid = old(env).next_editor_id();
            &&& (r is None <==> !no_room(*old(env)) && nid < u32::MAX)
            &&& r is None ==> {
                &&& final(env).editors_map() == old(env).editors_map().insert(nid, final(env).editors_map()[nid])
                &&& final(env).editors_map()[nid].text() == content@
                &&& shown_as(final(env).editors_map()[nid], ""@) == help_source(name@)
                &&& final(env).editors_map()[nid].readonly()
                &&& final(env).editors_map()[nid].cursor_pos() == 0
                &&& final(env).attached().contains_key(final(env).active())
                &&& final(env).attached()[final(env).active()] == nid
            }
            &&& r is Some ==> final(env).editors_map() == old(env).editors_map() && final(env).attached()
                == old(env).attached()
        },
{
    proof {
        env.lemma_consistent();
    }
    let mut source = to_string("@");
    push_str(&mut source, name);
    match env.find_editor_id(source.as_str(), "") {
        Some(id) => match env.find_editor_view_id(id) {
            Some(v) => {
                env.kill_window_for(v);
                None
            },
            None => {
                if env.workspace().next_id() == u32::MAX {
                    return Some(Action::Echo(to_string("unable to create new window")));
                }
                match env.open_window(id, Placement::Bottom) {
                    Some(v) => {
                        env.set_active(Focus::To(v));
                        None
                    },
                    None => Some(Action::Echo(to_string("unable to create new window"))),
                }
            },
        },
        None => {
            if env.workspace().next_id() == u32::MAX || env.next_editor() == u32::MAX {
                return Some(Action::Echo(to_string("unable to create new window")));
            }
            let mut buffer = Buffer::new();
            buffer.insert_str(content);
            buffer.set_pos(0);
            let mut editor = Editor::new(Some(buffer), true, false, 4, false, None);
            editor.set_source(Source::as_ephemeral(name));
            match env.open_editor(editor, Placement::Bottom) {
                Some((v, _)) => {
                    env.set_active(Focus::To(v));
                    None
                },
                None => Some(Action::Echo(to_string("unable to create new window"))),
            }
        },
    }
}

/// The operations on the display of the active view: scrolling.
pub open spec fn performs_on_view(op: Seq<char>) -> bool {
    op == "scroll-up"@ || op == "scroll-up-select"@ || op == "scroll-down"@ || op == "scroll-down-select"@ || op
        == "scroll-center"@
}

/// Returns whether `op` is an operation on the display of the active view.
pub fn is_view_op(op: &str) -> (b: bool)
    ensures
        b == performs_on_view(op@),
{
    str_eq(op, "scroll-up") || str_eq(op, "scroll-up-select") || str_eq(op, "scroll-down") || str_eq(
        op,
        "scroll-down-select",
    ) || str_eq(op, "scroll-center")
}

/// The display row that `scroll-center` puts the cursor on, from display row `row`
/// of `rows`: the middle from the top row, the bottom from the middle, the top
/// from the bottom, and else the middle.
pub open spec fn center_target(row: int, rows: int) -> int {
    if row == 0 {
        rows / 2
    } else if row == rows / 2 {
        rows - 1
    } else if row == rows - 1 {
        0
    } else {
        rows / 2
    }
}

/// From a display row that is neither the top, the middle nor the bottom one,
/// `scroll-center` aims at the middle row; from the top it aims at the middle, from
/// the middle at the bottom, and from the bottom at the top.
pub proof fn lemma_center_target(row: int, rows: int)
    requires
        rows > 0,
        0 <= row < rows,
    ensures
        (row != 0 && row != rows / 2 && row != rows - 1) ==> center_target(row, rows) == rows / 2,
        row == 0 ==> center_target(row, rows) == rows / 2,
        (row != 0 && row == rows / 2) ==> center_target(row, rows) == rows - 1,
        (row != 0 && row != rows / 2 && row == rows - 1) ==> center_target(row, rows) == 0,
        0 <= center_target(row, rows) < rows,
{
}

/// Runs the operation `op` on `display`, the display of the active view fitted
/// to its editor: `scroll-up` moves it one row toward the start of the text and
/// `scroll-down` one row toward the end, as [`track_vertical`] does, selecting
/// text with the `-select` forms; `scroll-center` puts the cursor on the row that
/// [`center_target`] gives, or as near it as the text above allows. Returns `None`
/// where `op` is none of these.
pub fn perform_on_view(env: &mut Environment, op: &str, display: &mut WrappingRenderer) -> (r: Option<Option<Action>>)
    requires
        old(env).wf(),
        old(display).wf(active_editor(*old(env)).text()),
        old(display).pos() == active_editor(*old(env)).cursor_pos(),
    ensures
        final(env).wf(),
        r is Some <==> performs_on_view(op@),
        r matches Some(a) ==> a is None,
        r is None ==> *final(env) == *old(env) && *final(display) == *old(display),
        ({
            let s = active_editor(*old(env)).text();
            let select = op@ == "scroll-up-select"@ || op@ == "scroll-down-select"@;
            &&& (op@ == "scroll-up"@ || op@ == "scroll-up-select"@) ==> old(display).scrolls_down(s, *final(display))
                && edits_active(*old(env), *final(env), |a: Editor, b: Editor| scrolled(a, b, final(display).pos(), select))
            &&& (op@ == "scroll-down"@ || op@ == "scroll-down-select"@) ==> old(display).scrolls_up(s, *final(display))
                && edits_active(*old(env), *final(env), |a: Editor, b: Editor| scrolled(a, b, final(display).pos(), select))
            &&& op@ == "scroll-center"@ ==> {
                let c = old(display).cols();
                let cur = row_start_of(s, c, old(display).pos());
                let k = center_target(old(display).cursor().row as int, old(display).rows());
                &&& *final(env) == *old(env)
                &&& final(display).wf(s)
                &&& final(display).rows() == old(display).rows()
                &&& final(display).cols() == c
                &&& final(display).pos() == old(display).pos()
                &&& final(display).cur_pos() == cur
                &&& final(display).top_pos() == up(s, c, cur, k as nat).0
                &&& final(display).cursor().row == up(s, c, cur, k as nat).1
                &&& final(display).cursor().col == old(display).pos() - cur
                &&& {
                    let row = old(display).cursor().row as int;
                    let rows = old(display).rows() as int;
                    let new_row = final(display).cursor().row;
                    &&& (row != 0 && row != rows / 2 && row != rows - 1) ==> new_row == up(s, c, cur, (rows / 2) as nat).1
                    &&& row == 0 ==> new_row == up(s, c, cur, (rows / 2) as nat).1
                    &&& (row != 0 && row == rows / 2) ==> new_row == up(s, c, cur, (rows - 1) as nat).1
                    &&& (row != 0 && row != rows / 2 && row == rows - 1) ==> new_row == up(s, c, cur, 0).1
                }
            }
        }),
{
    proof {
        env.lemma_active();
        env.lemma_consistent();
        display.lemma_wf(active_editor(*env).text());
        reveal_strlit("scroll-up");
        reveal_strlit("scroll-up-select");
        reveal_strlit("scroll-down");
        reveal_strlit("scroll-down-select");
        reveal_strlit("scroll-center");
        assert("scroll-up"@.len() == 9 && "scroll-up-select"@.len() == 16);
        assert("scroll-down"@.len() == 11 && "scroll-down-select"@.len() == 18);
        assert("scroll-up"@[7] != "scroll-down"@[7] && "scroll-up-select"@[7] != "scroll-down-select"@[7]);
        assert("scroll-up"@[7] != "scroll-down-select"@[7] && "scroll-up-select"@[7] != "scroll-down"@[7]);
        assert("scroll-center"@[7] != "scroll-up"@[7] && "scroll-center"@[7] != "scroll-down"@[7]);
        assert("scroll-center"@[7] != "scroll-up-select"@[7] && "scroll-center"@[7] != "scroll-down-select"@[7]);
    }
    let v = env.get_active_view_id();
    if str_eq(op, "scroll-up") || str_eq(op, "scroll-up-select") {
        let select = str_eq(op, "scroll-up-select");
        track_vertical(env, v, display, select, true);
        Some(None)
    } else if str_eq(op, "scroll-down") || str_eq(op, "scroll-down-select") {
        let select = str_eq(op, "scroll-down-select");
        track_vertical(env, v, display, select, false);
        Some(None)
    } else if str_eq(op, "scroll-center") {
        let rows = display.rows_of();
        let row = display.cursor_point().row;
        let k = if row == 0 {
            rows / 2
        } else if row == rows / 2 {
            rows - 1
        } else if row == rows - 1 {
            0
        } else {
            rows / 2
        };
        let editor = env.get_active_editor();
        *display = WrappingRenderer::with_cursor_row(editor.buffer(), display.get_pos(), rows, display.cols_of(), k);
        Some(None)
    } else {
        None
    }
}

/// The help editor that the operation `op` shows or hides, if it is a help
/// operation.
pub open spec fn help_name(op: Seq<char>) -> Option<Seq<char>> {
    if op == "help"@ {
        Some("help"@)
    } else if op == "help-keys"@ {
        Some("keys"@)
    } else if op == "help-ops"@ {
        Some("operations"@)
    } else if op == "help-bindings"@ {
        Some("bindings"@)
    } else if op == "help-colors"@ {
        Some("colors"@)
    } else if op == "help-syntaxes"@ {
        Some("syntaxes"@)
    } else {
        None
    }
}

/// Runs the help operation named `op`, as [`toggle_help`] does with the text of
/// its help editor drawn from `config`: the key bindings for general help and for
/// `help-bindings`, the names of the keys, of the operations and of the syntaxes,
/// and the named colors. Returns `None` where `op` is no help operation.
pub fn perform_help(env: &mut Environment, op: &str, config: &Configuration) -> (r: Option<Option<Action>>)
    requires
        old(env).wf(),
        config.wf(),
    ensures
        final(env).wf(),
        r is Some <==> help_name(op@) is Some,
        r is None ==> *final(env) == *old(env),
        r matches Some(a) ==> a is None || no_window_echo(a),
{
    let (name, content) = if str_eq(op, "help") || str_eq(op, "help-bindings") {
        (if str_eq(op, "help") { "help" } else { "bindings" }, bindings_content(&config.bindings))
    } else if str_eq(op, "help-keys") {
        ("keys", keys_content())
    } else if str_eq(op, "help-ops") {
        ("operations", ops_content())
    } else if str_eq(op, "help-colors") {
        ("colors", colors_content(&config.colors))
    } else if str_eq(op, "help-syntaxes") {
        ("syntaxes", syntaxes_content(&config.registry))
    } else {
        return None;
    };
    if chars_of(content.as_str()).len() > MAX_CAPACITY {
        return Some(Some(Action::Echo(to_string("unable to create new window"))));
    }
    Some(toggle_help(env, name, content.as_str()))
}

/// `b` is `a` after a search for the next match of its most recent search, made
/// at `p` with the pattern `pat`: from one past the cursor where the cursor is at
/// `p`, else from the cursor. A match found takes the cursor to its start with a
/// soft mark at its end and is remembered; else only the position searched from is
/// remembered.
pub open spec fn searched_next(a: Editor, b: Editor) -> bool {
    let len = a.text().len() as int;
    match a.last_match() {
        Some((p, pat)) => {
            let from = if p == a.cursor_pos() { a.cursor_pos() + 1 } else { a.cursor_pos() };
            &&& keeps_content(a, b)
            &&& match pat.found(a.text(), from) {
                Some(Match(s, e)) => {
                    &&& b.cursor_pos() == min_of(s as int, len)
                    &&& b.mark() == Some(Mark(min_of(e as int, len) as usize, true))
                    &&& b.last_match() == Some((s, pat))
                },
                None => {
                    &&& b.cursor_pos() == a.cursor_pos()
                    &&& b.mark() == a.mark()
                    &&& b.last_match() == Some((from as usize, pat))
                },
            }
        },
        None => b == a,
    }
}

/// Operation `search-next`: searches for the next match of the active editor's
/// most recent search, as [`searched_next`] says; where there is none, asks for a
/// term to search for, ignoring case.
pub fn search_next(env: &mut Environment) -> (r: Option<Action>)
    requires
        old(env).wf(),
    ensures
        final(env).wf(),
        final(env).clip() == old(env).clip(),
        active_editor(*old(env)).last_match() is None ==> r == Some(Action::Question(Ask::Search { regex: false, case: false }))
            && *final(env) == *old(env),
        active_editor(*old(env)).last_match() is Some ==> r is None && edits_active(
            *old(env),
            *final(env),
            |a: Editor, b: Editor| searched_next(a, b),
        ),
{
    proof {
        env.lemma_active();
    }
    if !env.get_active_editor().has_last_match() {
        return Some(Action::Question(Ask::Search { regex: false, case: false }));
    }
    let id = env.get_active_editor_id();
    let editor = env.editor_mut(id);
    proof {
        editor.lemma_wf();
    }
    match editor.take_last_match() {
        Some((p, pattern)) => {
            let cur = editor.pos();
            let from = if p == cur { cur + 1 } else { cur };
            match pattern.find(editor.buffer(), from) {
                Some(Match(s, e)) => {
                    editor.move_to(s);
                    editor.clear_mark();
                    editor.set_soft_mark_at(e);
                    editor.set_last_match(s, pattern);
                },
                None => {
                    editor.set_last_match(from, pattern);
                },
            }
        },
        None => {},
    }
    None
}

/// The cursor of `b` is at `pos` after a scroll of the display of `a`, with a
/// soft mark set where `select` holds, else cleared where the cursor moved.
pub open spec fn scrolled(a: Editor, b: Editor, pos: int, select: bool) -> bool {
    &&& keeps_content(a, b)
    &&& b.cursor_pos() == pos
    &&& b.mark() == if select {
        soft_marked(a.mark(), a.cursor_pos() as usize)
    } else if pos == a.cursor_pos() {
        a.mark()
    } else {
        soft_cleared(a.mark())
    }
}

/// Scrolls `display`, the display of the view `v` fitted to its editor, one row
/// toward the start of the text where `up` holds (its contents move down), else
/// toward the end; the editor's cursor follows the display's, with a soft mark set
/// where `select` holds, else cleared where the cursor moved.
pub fn track_vertical(env: &mut Environment, v: u32, display: &mut WrappingRenderer, select: bool, up: bool)
    requires
        old(env).wf(),
        old(env).attached().contains_key(v),
        old(display).wf(old(env).editors_map()[old(env).attached()[v]].text()),
        old(display).pos() == old(env).editors_map()[old(env).attached()[v]].cursor_pos(),
    ensures
        ({
            let s = old(env).editors_map()[old(env).attached()[v]].text();
            &&& final(display).wf(s)
            &&& up ==> old(display).scrolls_down(s, *final(display))
            &&& !up ==> old(display).scrolls_up(s, *final(display))
        }),
        final(env).clip() == old(env).clip(),
        edits_editor(
            *old(env),
            *final(env),
            old(env).attached()[v],
            |a: Editor, b: Editor| scrolled(a, b, final(display).pos(), select),
        ),
{
    proof {
        env.lemma_consistent();
    }
    let id = env.view_editor(v);
    let editor = env.editor_mut(id);
    proof {
        editor.lemma_wf();
    }
    let prior = editor.pos();
    if select {
        editor.set_soft_mark();
    }
    if up {
        display.scroll_down(editor.buffer());
    } else {
        display.scroll_up(editor.buffer());
    }
    let pos = display.get_pos();
    proof {
        display.lemma_wf(editor.text());
    }
    if !select && pos != prior {
        editor.clear_soft_mark();
    }
    editor.move_to(pos);
}

/// Makes the view at the point `p` of the terminal active and clears the soft mark
/// of its editor; nothing where no view is at `p`.
pub fn set_focus(env: &mut Environment, p: Point)
    requires
        old(env).wf(),
    ensures
        final(env).clip() == old(env).clip(),
        locate_in(old(env).space().view_seq(), p) is None ==> *final(env) == *old(env),
        locate_in(old(env).space().view_seq(), p) is Some ==> ({
            let v = locate_in(old(env).space().view_seq(), p)->Some_0.0;
            let id = old(env).attached()[v];
            &&& final(env).active() == v
            &&& final(env).wf()
            &&& final(env).space() == old(env).space()
            &&& final(env).attached() == old(env).attached()
            &&& final(env).editors_map() == old(env).editors_map().insert(id, final(env).editors_map()[id])
            &&& keeps_content(old(env).editors_map()[id], final(env).editors_map()[id])
            &&& final(env).editors_map()[id].cursor_pos() == old(env).editors_map()[id].cursor_pos()
            &&& final(env).editors_map()[id].mark() == soft_cleared(old(env).editors_map()[id].mark())
        }),
{
    proof {
        lemma_located(env.space().view_seq(), p);
        env.lemma_consistent();
    }
    match env.workspace().locate_view(p) {
        Some((v, _)) => {
            proof {
                assert(env.space().ids().contains(v));
                assert(env.attached().contains_key(v));
            }
            env.set_active(Focus::To(v));
            proof {
                env.lemma_active();
            }
            let id = env.get_active_editor_id();
            let editor = env.editor_mut(id);
            editor.clear_soft_mark();
        },
        None => {},
    }
}

} // verus!
