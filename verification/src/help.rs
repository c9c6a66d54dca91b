//! Help content: lists of keys, operations, bindings, colors and theme colors.

use crate::bind::Bindings;
use crate::color::Colors;
use crate::config::Theme;
use crate::syntax::Registry;
use crate::key::{joined, key_names, pretty, pretty_names, Key};
use crate::sort::{entry_views, number_views, sort_by_name, sort_by_number, sorted_by_name, sorted_by_number};
use crate::strings::{decimal, push_decimal, push_str, string_views, to_string};
use vstd::prelude::*;

verus! {

/// The names of all keys that bindings may use.
pub open spec fn key_table() -> Seq<Seq<char>> {
    control_keys() + editing_keys() + motion_keys() + function_keys()
}

/// The control keys and their aliases.
pub open spec fn control_keys() -> Seq<Seq<char>> {
    seq![
        "C-@"@,
        "C-a"@,
        "C-b"@,
        "C-c"@,
        "C-d"@,
        "C-e"@,
        "C-f"@,
        "C-g"@,
        "C-h"@,
        "C-i"@,
        "tab"@,
        "C-j"@,
        "C-k"@,
        "C-l"@,
        "C-m"@,
        "ret"@,
        "C-n"@,
        "C-o"@,
        "C-p"@,
        "C-q"@,
        "C-r"@,
        "C-s"@,
        "C-t"@,
        "C-u"@,
        "C-v"@,
    ]
}

/// The editing and arrow keys with their modifiers.
pub open spec fn editing_keys() -> Seq<Seq<char>> {
    seq![
        "C-w"@,
        "C-x"@,
        "C-y"@,
        "C-z"@,
        "C-["@,
        "ESC"@,
        "C-\\"@,
        "C-]"@,
        "C-^"@,
        "C-_"@,
        "C-?"@,
        "del"@,
        "S-tab"@,
        "insert"@,
        "S-insert"@,
        "C-insert"@,
        "S-C-insert"@,
        "delete"@,
        "S-delete"@,
        "C-delete"@,
        "S-C-delete"@,
        "up"@,
        "S-up"@,
        "C-up"@,
        "S-C-up"@,
    ]
}

/// The remaining arrow keys and the paging keys with their modifiers.
pub open spec fn motion_keys() -> Seq<Seq<char>> {
    seq![
        "down"@,
        "S-down"@,
        "C-down"@,
        "S-C-down"@,
        "left"@,
        "S-left"@,
        "C-left"@,
        "S-C-left"@,
        "right"@,
        "S-right"@,
        "C-right"@,
        "S-C-right"@,
        "home"@,
        "S-home"@,
        "C-home"@,
        "S-C-home"@,
        "end"@,
        "S-end"@,
        "C-end"@,
        "S-C-end"@,
        "pg_up"@,
        "S-pg_up"@,
        "C-pg_up"@,
        "S-C-pg_up"@,
        "pg_down"@,
    ]
}

/// The end and page-down keys with their modifiers, and the function keys.
pub open spec fn function_keys() -> Seq<Seq<char>> {
    seq![
        "S-pg_down"@,
        "C-pg_down"@,
        "S-C-pg_down"@,
        "F1"@,
        "F2"@,
        "F3"@,
        "F4"@,
        "F5"@,
        "F6"@,
        "F7"@,
        "F8"@,
        "F9"@,
        "F10"@,
        "F11"@,
        "F12"@,
        "F13"@,
        "F14"@,
        "F15"@,
        "F16"@,
        "F17"@,
        "F18"@,
        "F19"@,
        "F20"@,
    ]
}

/// The editing operations with their descriptions.
pub open spec fn op_table() -> Seq<(Seq<char>, Seq<char>)> {
    seq![
        ("quit"@, "ask to save dirty editors and quit"@),
        ("help"@, "show or hide @help window"@),
        ("help-keys"@, "show or hide @keys window"@),
        ("help-ops"@, "show or hide @operations window"@),
        ("help-bindings"@, "show or hide @bindings window"@),
        ("help-colors"@, "show or hide @colors window"@),
        ("help-syntaxes"@, "show or hide @syntaxes window"@),
        ("move-backward"@, "move cursor backward one character"@),
        ("move-backward-word"@, "move cursor backward one word"@),
        ("move-backward-select"@, "move cursor backward one character while selecting text"@),
        ("move-backward-word-select"@, "move cursor backward one word while selecting text"@),
        ("move-forward"@, "move cursor forward one character"@),
        ("move-forward-word"@, "move cursor forward one word"@),
        ("move-forward-select"@, "move cursor forward one character while selecting text"@),
        ("move-forward-word-select"@, "move cursor forward one word while selecting text"@),
        ("move-up"@, "move cursor up one line"@),
        ("move-up-select"@, "move cursor up one line while selecting text"@),
        ("move-down"@, "move cursor down one line"@),
        ("move-down-select"@, "move cursor down one line while selecting text"@),
        ("move-up-page"@, "move cursor up one page"@),
        ("move-up-page-select"@, "move cursor up one page while selecting text"@),
        ("move-down-page"@, "move cursor down one page"@),
        ("move-down-page-select"@, "move cursor down one page while selecting text"@),
        ("move-start"@, "move cursor to start of line"@),
        ("move-start-select"@, "move cursor to start of line while selecting text"@),
        ("move-end"@, "move cursor to end of line"@),
        ("move-end-select"@, "move cursor to end of line while selecting text"@),
        ("move-top"@, "move cursor to top of buffer"@),
        ("move-top-select"@, "move cursor to top of buffer while selecting text"@),
        ("move-bottom"@, "move cursor to bottom of buffer"@),
        ("move-bottom-select"@, "move cursor to bottom of buffer while selecting text"@),
        ("scroll-up"@, "scroll contents of window up one line"@),
        ("scroll-up-select"@, "scroll contents of window up one line while selecting text"@),
        ("scroll-down"@, "scroll contents of window down one line"@),
        ("scroll-down-select"@, "scroll contents of window down one line while selecting text"@),
        ("scroll-center"@, "redraw window and align cursor to center, then bottom and top when repeated"@),
        ("redraw"@, "redraw entire workspace"@),
        ("set-mark"@, "set or unset mark for selecting text"@),
        ("goto-line"@, "move cursor to line"@),
        ("insert-line"@, "insert line break"@),
        ("insert-tab"@, "insert soft or hard tab"@),
        ("insert-unicode-dec"@, "insert unicode character as decimal code point"@),
        ("insert-unicode-hex"@, "insert unicode character as hex code point"@),
        ("remove-before"@, "remove character before cursor"@),
        ("remove-after"@, "remove character after cursor"@),
        ("remove-start"@, "remove characters from start of line to cursor"@),
        ("remove-end"@, "remove characters from cursor to end of line"@),
        ("undo"@, "undo last change"@),
        ("redo"@, "reapply last undo"@),
        ("copy"@, "copy selection or entire line if nothing selected to local clipboard"@),
        ("copy-global"@, "copy selection or entire line if nothing selected to global clipboard"@),
        ("paste"@, "paste contents of local clipboard"@),
        ("paste-global"@, "paste contents of global clipboard"@),
        ("cut"@, "cut and copy selection or entire line if nothing selected to local clipboard"@),
        ("cut-global"@, "cut and copy selection or entire line if nothing selected to global clipboard"@),
        ("search"@, "case-insensitive search using term"@),
        ("search-case"@, "case-sensitive search using term"@),
        ("search-regex"@, "case-insensitive search using regular expression"@),
        ("search-regex-case"@, "case-sensitive search using regular expression"@),
        ("search-next"@, "search for next match"@),
        ("open-file"@, "open file in current window"@),
        ("open-file-top"@, "open file in new window at top of workspace"@),
        ("open-file-bottom"@, "open file in new window at bottom of workspace"@),
        ("open-file-above"@, "open file in new window above current window"@),
        ("open-file-below"@, "open file in new window below current window"@),
        ("save-file"@, "save file"@),
        ("save-file-as"@, "save file as another name"@),
        ("select-editor"@, "switch to editor in current window"@),
        ("select-editor-top"@, "switch to editor in new window at top of workspace"@),
        ("select-editor-bottom"@, "switch to editor in new window at bottom of workspace"@),
        ("select-editor-above"@, "switch to editor in new window above current window"@),
        ("select-editor-below"@, "switch to editor in new window below current window"@),
        ("prev-editor"@, "switch to previous editor in current window"@),
        ("next-editor"@, "switch to next editor in current window"@),
        ("kill-window"@, "close current window and editor"@),
        ("close-window"@, "close current window"@),
        ("close-other-windows"@, "close all windows other than current window"@),
        ("top-window"@, "move to window at top of workspace"@),
        ("bottom-window"@, "move to window at bottom of workspace"@),
        ("prev-window"@, "move to window above current window"@),
        ("next-window"@, "move to window below current window"@),
        ("describe-editor"@, "show editor information"@),
        ("tab-mode"@, "toggle between soft and hard tab insertion mode"@),
        ("eol-mode"@, "toggle between CRLF and LF when saving files"@),
    ]
}

fn control_keys_list() -> (v: Vec<String>)
    ensures
        string_views(v@) == control_keys(),
{
    let mut v: Vec<String> = Vec::new();
    v.push(to_string("C-@"));
    v.push(to_string("C-a"));
    v.push(to_string("C-b"));
    v.push(to_string("C-c"));
    v.push(to_string("C-d"));
    v.push(to_string("C-e"));
    v.push(to_string("C-f"));
    v.push(to_string("C-g"));
    v.push(to_string("C-h"));
    v.push(to_string("C-i"));
    v.push(to_string("tab"));
    v.push(to_string("C-j"));
    v.push(to_string("C-k"));
    v.push(to_string("C-l"));
    v.push(to_string("C-m"));
    v.push(to_string("ret"));
    v.push(to_string("C-n"));
    v.push(to_string("C-o"));
    v.push(to_string("C-p"));
    v.push(to_string("C-q"));
    v.push(to_string("C-r"));
    v.push(to_string("C-s"));
    v.push(to_string("C-t"));
    v.push(to_string("C-u"));
    v.push(to_string("C-v"));
    assert(string_views(v@) =~= control_keys());
    v
}

fn editing_keys_list() -> (v: Vec<String>)
    ensures
        string_views(v@) == editing_keys(),
{
    let mut v: Vec<String> = Vec::new();
    v.push(to_string("C-w"));
    v.push(to_string("C-x"));
    v.push(to_string("C-y"));
    v.push(to_string("C-z"));
    v.push(to_string("C-["));
    v.push(to_string("ESC"));
    v.push(to_string("C-\\"));
    v.push(to_string("C-]"));
    v.push(to_string("C-^"));
    v.push(to_string("C-_"));
    v.push(to_string("C-?"));
    v.push(to_string("del"));
    v.push(to_string("S-tab"));
    v.push(to_string("insert"));
    v.push(to_string("S-insert"));
    v.push(to_string("C-insert"));
    v.push(to_string("S-C-insert"));
    v.push(to_string("delete"));
    v.push(to_string("S-delete"));
    v.push(to_string("C-delete"));
    v.push(to_string("S-C-delete"));
    v.push(to_string("up"));
    v.push(to_string("S-up"));
    v.push(to_string("C-up"));
    v.push(to_string("S-C-up"));
    assert(string_views(v@) =~= editing_keys());
    v
}

fn motion_keys_list() -> (v: Vec<String>)
    ensures
        string_views(v@) == motion_keys(),
{
    let mut v: Vec<String> = Vec::new();
    v.push(to_string("down"));
    v.push(to_string("S-down"));
    v.push(to_string("C-down"));
    v.push(to_string("S-C-down"));
    v.push(to_string("left"));
    v.push(to_string("S-left"));
    v.push(to_string("C-left"));
    v.push(to_string("S-C-left"));
    v.push(to_string("right"));
    v.push(to_string("S-right"));
    v.push(to_string("C-right"));
    v.push(to_string("S-C-right"));
    v.push(to_string("home"));
    v.push(to_string("S-home"));
    v.push(to_string("C-home"));
    v.push(to_string("S-C-home"));
    v.push(to_string("end"));
    v.push(to_string("S-end"));
    v.push(to_string("C-end"));
    v.push(to_string("S-C-end"));
    v.push(to_string("pg_up"));
    v.push(to_string("S-pg_up"));
    v.push(to_string("C-pg_up"));
    v.push(to_string("S-C-pg_up"));
    v.push(to_string("pg_down"));
    assert(string_views(v@) =~= motion_keys());
    v
}

fn function_keys_list() -> (v: Vec<String>)
    ensures
        string_views(v@) == function_keys(),
{
    let mut v: Vec<String> = Vec::new();
    v.push(to_string("S-pg_down"));
    v.push(to_string("C-pg_down"));
    v.push(to_string("S-C-pg_down"));
    v.push(to_string("F1"));
    v.push(to_string("F2"));
    v.push(to_string("F3"));
    v.push(to_string("F4"));
    v.push(to_string("F5"));
    v.push(to_string("F6"));
    v.push(to_string("F7"));
    v.push(to_string("F8"));
    v.push(to_string("F9"));
    v.push(to_string("F10"));
    v.push(to_string("F11"));
    v.push(to_string("F12"));
    v.push(to_string("F13"));
    v.push(to_string("F14"));
    v.push(to_string("F15"));
    v.push(to_string("F16"));
    v.push(to_string("F17"));
    v.push(to_string("F18"));
    v.push(to_string("F19"));
    v.push(to_string("F20"));
    assert(string_views(v@) =~= function_keys());
    v
}

/// Returns the names of all keys that bindings may use.
pub fn key_table_list() -> (v: Vec<String>)
    ensures
        string_views(v@) == key_table(),
{
    let mut v = control_keys_list();
    let mut b = editing_keys_list();
    let mut c = motion_keys_list();
    let mut d = function_keys_list();
    let ghost (va, vb, vc, vd) = (v@, b@, c@, d@);
    v.append(&mut b);
    v.append(&mut c);
    v.append(&mut d);
    assert(v@ == va + vb + vc + vd);
    assert(string_views(v@) =~= string_views(va) + string_views(vb) + string_views(vc) + string_views(vd));
    v
}

/// Returns the editing operations with their descriptions.
pub fn op_table_list() -> (v: Vec<(String, String)>)
    ensures
        entry_views(v@) == op_table(),
{
    let mut v: Vec<(String, String)> = Vec::new();
    v.push((to_string("quit"), to_string("ask to save dirty editors and quit")));
    v.push((to_string("help"), to_string("show or hide @help window")));
    v.push((to_string("help-keys"), to_string("show or hide @keys window")));
    v.push((to_string("help-ops"), to_string("show or hide @operations window")));
    v.push((to_string("help-bindings"), to_string("show or hide @bindings window")));
    v.push((to_string("help-colors"), to_string("show or hide @colors window")));
    v.push((to_string("help-syntaxes"), to_string("show or hide @syntaxes window")));
    v.push((to_string("move-backward"), to_string("move cursor backward one character")));
    v.push((to_string("move-backward-word"), to_string("move cursor backward one word")));
    v.push((to_string("move-backward-select"), to_string("move cursor backward one character while selecting text")));
    v.push((to_string("move-backward-word-select"), to_string("move cursor backward one word while selecting text")));
    v.push((to_string("move-forward"), to_string("move cursor forward one character")));
    v.push((to_string("move-forward-word"), to_string("move cursor forward one word")));
    v.push((to_string("move-forward-select"), to_string("move cursor forward one character while selecting text")));
    v.push((to_string("move-forward-word-select"), to_string("move cursor forward one word while selecting text")));
    v.push((to_string("move-up"), to_string("move cursor up one line")));
    v.push((to_string("move-up-select"), to_string("move cursor up one line while selecting text")));
    v.push((to_string("move-down"), to_string("move cursor down one line")));
    v.push((to_string("move-down-select"), to_string("move cursor down one line while selecting text")));
    v.push((to_string("move-up-page"), to_string("move cursor up one page")));
    v.push((to_string("move-up-page-select"), to_string("move cursor up one page while selecting text")));
    v.push((to_string("move-down-page"), to_string("move cursor down one page")));
    v.push((to_string("move-down-page-select"), to_string("move cursor down one page while selecting text")));
    v.push((to_string("move-start"), to_string("move cursor to start of line")));
    v.push((to_string("move-start-select"), to_string("move cursor to start of line while selecting text")));
    v.push((to_string("move-end"), to_string("move cursor to end of line")));
    v.push((to_string("move-end-select"), to_string("move cursor to end of line while selecting text")));
    v.push((to_string("move-top"), to_string("move cursor to top of buffer")));
    v.push((to_string("move-top-select"), to_string("move cursor to top of buffer while selecting text")));
    v.push((to_string("move-bottom"), to_string("move cursor to bottom of buffer")));
    v.push((to_string("move-bottom-select"), to_string("move cursor to bottom of buffer while selecting text")));
    v.push((to_string("scroll-up"), to_string("scroll contents of window up one line")));
    v.push((to_string("scroll-up-select"), to_string("scroll contents of window up one line while selecting text")));
    v.push((to_string("scroll-down"), to_string("scroll contents of window down one line")));
    v.push((to_string("scroll-down-select"), to_string("scroll contents of window down one line while selecting text")));
    v.push((to_string("scroll-center"), to_string("redraw window and align cursor to center, then bottom and top when repeated")));
    v.push((to_string("redraw"), to_string("redraw entire workspace")));
    v.push((to_string("set-mark"), to_string("set or unset mark for selecting text")));
    v.push((to_string("goto-line"), to_string("move cursor to line")));
    v.push((to_string("insert-line"), to_string("insert line break")));
    v.push((to_string("insert-tab"), to_string("insert soft or hard tab")));
    v.push((to_string("insert-unicode-dec"), to_string("insert unicode character as decimal code point")));
    v.push((to_string("insert-unicode-hex"), to_string("insert unicode character as hex code point")));
    v.push((to_string("remove-before"), to_string("remove character before cursor")));
    v.push((to_string("remove-after"), to_string("remove character after cursor")));
    v.push((to_string("remove-start"), to_string("remove characters from start of line to cursor")));
    v.push((to_string("remove-end"), to_string("remove characters from cursor to end of line")));
    v.push((to_string("undo"), to_string("undo last change")));
    v.push((to_string("redo"), to_string("reapply last undo")));
    v.push((to_string("copy"), to_string("copy selection or entire line if nothing selected to local clipboard")));
    v.push((to_string("copy-global"), to_string("copy selection or entire line if nothing selected to global clipboard")));
    v.push((to_string("paste"), to_string("paste contents of local clipboard")));
    v.push((to_string("paste-global"), to_string("paste contents of global clipboard")));
    v.push((to_string("cut"), to_string("cut and copy selection or entire line if nothing selected to local clipboard")));
    v.push((to_string("cut-global"), to_string("cut and copy selection or entire line if nothing selected to global clipboard")));
    v.push((to_string("search"), to_string("case-insensitive search using term")));
    v.push((to_string("search-case"), to_string("case-sensitive search using term")));
    v.push((to_string("search-regex"), to_string("case-insensitive search using regular expression")));
    v.push((to_string("search-regex-case"), to_string("case-sensitive search using regular expression")));
    v.push((to_string("search-next"), to_string("search for next match")));
    v.push((to_string("open-file"), to_string("open file in current window")));
    v.push((to_string("open-file-top"), to_string("open file in new window at top of workspace")));
    v.push((to_string("open-file-bottom"), to_string("open file in new window at bottom of workspace")));
    v.push((to_string("open-file-above"), to_string("open file in new window above current window")));
    v.push((to_string("open-file-below"), to_string("open file in new window below current window")));
    v.push((to_string("save-file"), to_string("save file")));
    v.push((to_string("save-file-as"), to_string("save file as another name")));
    v.push((to_string("select-editor"), to_string("switch to editor in current window")));
    v.push((to_string("select-editor-top"), to_string("switch to editor in new window at top of workspace")));
    v.push((to_string("select-editor-bottom"), to_string("switch to editor in new window at bottom of workspace")));
    v.push((to_string("select-editor-above"), to_string("switch to editor in new window above current window")));
    v.push((to_string("select-editor-below"), to_string("switch to editor in new window below current window")));
    v.push((to_string("prev-editor"), to_string("switch to previous editor in current window")));
    v.push((to_string("next-editor"), to_string("switch to next editor in current window")));
    v.push((to_string("kill-window"), to_string("close current window and editor")));
    v.push((to_string("close-window"), to_string("close current window")));
    v.push((to_string("close-other-windows"), to_string("close all windows other than current window")));
    v.push((to_string("top-window"), to_string("move to window at top of workspace")));
    v.push((to_string("bottom-window"), to_string("move to window at bottom of workspace")));
    v.push((to_string("prev-window"), to_string("move to window above current window")));
    v.push((to_string("next-window"), to_string("move to window below current window")));
    v.push((to_string("describe-editor"), to_string("show editor information")));
    v.push((to_string("tab-mode"), to_string("toggle between soft and hard tab insertion mode")));
    v.push((to_string("eol-mode"), to_string("toggle between CRLF and LF when saving files")));
    assert(entry_views(v@) =~= op_table());
    v
}

/// The names as lines, each followed by a line break.
pub open spec fn name_lines(s: Seq<(Seq<char>, Seq<char>)>) -> Seq<char>
    decreases s.len(),
{
    if s.len() == 0 {
        Seq::empty()
    } else {
        name_lines(s.drop_last()) + s.last().0 + "\n"@
    }
}

/// Returns the names of `entries` as lines.
fn lines_of_names(entries: &Vec<(String, String)>) -> (s: String)
    ensures
        s@ == name_lines(entry_views(entries@)),
{
    let mut s = String::new();
    let mut i: usize = 0;
    while i < entries.len()
        invariant
            i <= entries@.len(),
            s@ == name_lines(entry_views(entries@).take(i as int)),
        decreases entries@.len() - i,
    {
        push_str(&mut s, entries[i].0.as_str());
        push_str(&mut s, "\n");
        assert(entry_views(entries@).take(i + 1).drop_last() =~= entry_views(entries@).take(i as int));
        i = i + 1;
    }
    assert(entry_views(entries@).take(entries@.len() as int) =~= entry_views(entries@));
    s
}

/// Each name paired with an empty text.
pub open spec fn bare_entries(names: Seq<Seq<char>>) -> Seq<(Seq<char>, Seq<char>)> {
    names.map_values(|n: Seq<char>| (n, Seq::<char>::empty()))
}

/// Returns `names`, sorted, one per line.
fn names_content(names: &Vec<String>) -> (s: String)
    ensures
        exists|sorted: Seq<(Seq<char>, Seq<char>)>|
            sorted_by_name(sorted) && sorted.to_multiset() == bare_entries(string_views(names@)).to_multiset()
                && s@ == name_lines(sorted),
{
    let mut entries: Vec<(String, String)> = Vec::new();
    let mut i: usize = 0;
    while i < names.len()
        invariant
            i <= names@.len(),
            entries@.len() == i,
            entry_views(entries@) == bare_entries(string_views(names@)).take(i as int),
        decreases names@.len() - i,
    {
        let ghost before = entries@;
        entries.push((names[i].clone(), String::new()));
        assert forall|j: int| 0 <= j < i + 1 implies #[trigger] entry_views(entries@)[j]
            == bare_entries(string_views(names@))[j] by {
            if j < i {
                assert(entries@[j] == before[j]);
                assert(entry_views(before)[j] == bare_entries(string_views(names@)).take(i as int)[j]);
            }
        }
        assert(entry_views(entries@) =~= bare_entries(string_views(names@)).take(i + 1));
        i = i + 1;
    }
    assert(bare_entries(string_views(names@)).take(names@.len() as int) =~= bare_entries(string_views(names@)));
    let sorted = sort_by_name(&entries);
    lines_of_names(&sorted)
}

/// Returns the names of all keys, sorted, one per line.
pub fn keys_content() -> (s: String)
    ensures
        exists|sorted: Seq<(Seq<char>, Seq<char>)>|
            sorted_by_name(sorted) && sorted.to_multiset() == bare_entries(key_table()).to_multiset()
                && s@ == name_lines(sorted),
{
    let names = key_table_list();
    names_content(&names)
}

/// Returns the names of the syntaxes of `registry`, sorted, one per line.
pub fn syntaxes_content(registry: &Registry) -> (s: String)
    ensures
        exists|sorted: Seq<(Seq<char>, Seq<char>)>|
            sorted_by_name(sorted) && sorted.to_multiset() == bare_entries(registry.names()).to_multiset()
                && s@ == name_lines(sorted),
{
    let names = registry.syntax_names();
    names_content(&names)
}

/// Returns the names of all editing operations, sorted, one per line.
pub fn ops_content() -> (s: String)
    ensures
        exists|sorted: Seq<(Seq<char>, Seq<char>)>|
            sorted_by_name(sorted) && sorted.to_multiset() == op_table().to_multiset() && s@ == name_lines(
                sorted,
            ),
{
    let ops = op_table_list();
    let sorted = sort_by_name(&ops);
    lines_of_names(&sorted)
}

/// `s` with each space replaced by `:`.
pub open spec fn colons(s: Seq<char>) -> Seq<char> {
    s.map_values(|c: char| if c == ' ' { ':' } else { c })
}

/// The bindings as lines of TOML: `'<keys>' = '<op>'`, keys written with `:`
/// between them.
pub open spec fn binding_lines(s: Seq<(Seq<char>, Seq<char>)>) -> Seq<char>
    decreases s.len(),
{
    if s.len() == 0 {
        Seq::empty()
    } else {
        binding_lines(s.drop_last()) + "'"@ + colons(s.last().0) + "' = '"@ + s.last().1 + "'\n"@
    }
}

/// The bindings as (pretty key sequence, operation) pairs.
pub open spec fn pretty_bindings(entries: Seq<(Vec<Key>, String)>) -> Seq<(Seq<char>, Seq<char>)> {
    entries.map_values(|e: (Vec<Key>, String)| (joined(pretty_names(key_names(e.0@)), " "@), e.1@))
}

/// Returns `s` with each space replaced by `:`.
fn with_colons(s: &str) -> (r: String)
    ensures
        r@ == colons(s@),
{
    let cs = crate::strings::chars_of(s);
    let mut out = String::new();
    let mut i: usize = 0;
    while i < cs.len()
        invariant
            i <= cs@.len(),
            cs@ == s@,
            out@ == colons(s@).take(i as int),
        decreases cs@.len() - i,
    {
        let c = if cs[i] == ' ' { ':' } else { cs[i] };
        crate::strings::push_char(&mut out, c);
        i = i + 1;
        assert(out@ =~= colons(s@).take(i as int));
    }
    assert(colons(s@).take(cs@.len() as int) =~= colons(s@));
    out
}

/// Returns the bindings as lines of TOML, sorted by key sequence.
pub fn bindings_content(bindings: &Bindings) -> (s: String)
    requires
        bindings.wf(),
    ensures
        exists|sorted: Seq<(Seq<char>, Seq<char>)>|
            sorted_by_name(sorted) && sorted.to_multiset() == pretty_bindings(bindings.binding_list()).to_multiset()
                && s@ == binding_lines(sorted),
{
    let list = bindings.bindings();
    let mut entries: Vec<(String, String)> = Vec::new();
    let mut i: usize = 0;
    while i < list.len()
        invariant
            i <= list@.len(),
            list@ == bindings.binding_list(),
            entries@.len() == i,
            entry_views(entries@) == pretty_bindings(list@).take(i as int),
        decreases list@.len() - i,
    {
        let keys = pretty(list[i].0.as_slice());
        let ghost before = entries@;
        entries.push((keys, list[i].1.clone()));
        assert forall|j: int| 0 <= j < i + 1 implies #[trigger] entry_views(entries@)[j]
            == pretty_bindings(list@)[j] by {
            if j < i {
                assert(entries@[j] == before[j]);
                assert(entry_views(before)[j] == pretty_bindings(list@).take(i as int)[j]);
            }
        }
        assert(entry_views(entries@) =~= pretty_bindings(list@).take(i + 1));
        i = i + 1;
    }
    assert(pretty_bindings(list@).take(list@.len() as int) =~= pretty_bindings(list@));
    let sorted = sort_by_name(&entries);
    let mut s = String::new();
    let mut k: usize = 0;
    while k < sorted.len()
        invariant
            k <= sorted@.len(),
            s@ == binding_lines(entry_views(sorted@).take(k as int)),
        decreases sorted@.len() - k,
    {
        push_str(&mut s, "'");
        let keys = with_colons(sorted[k].0.as_str());
        push_str(&mut s, keys.as_str());
        push_str(&mut s, "' = '");
        push_str(&mut s, sorted[k].1.as_str());
        push_str(&mut s, "'\n");
        assert(entry_views(sorted@).take(k + 1).drop_last() =~= entry_views(sorted@).take(k as int));
        k = k + 1;
    }
    assert(entry_views(sorted@).take(sorted@.len() as int) =~= entry_views(sorted@));
    s
}

/// The named colors as lines of TOML: `'<name>' = <value>`.
pub open spec fn color_lines(s: Seq<(Seq<char>, u8)>) -> Seq<char>
    decreases s.len(),
{
    if s.len() == 0 {
        Seq::empty()
    } else {
        color_lines(s.drop_last()) + color_line(s.last().0, s.last().1)
    }
}

/// A named color as a line of TOML.
pub open spec fn color_line(name: Seq<char>, value: u8) -> Seq<char> {
    "'"@ + name + "' = "@ + decimal(value as nat) + "\n"@
}

fn push_color_line(s: &mut String, name: &str, value: u8)
    ensures
        final(s)@ == old(s)@ + color_line(name@, value),
{
    push_str(s, "'");
    push_str(s, name);
    push_str(s, "' = ");
    push_decimal(s, value as u64);
    push_str(s, "\n");
}

/// Returns the named colors as lines of TOML, sorted by color value.
pub fn colors_content(colors: &Colors) -> (s: String)
    requires
        colors.wf(),
    ensures
        exists|sorted: Seq<(Seq<char>, u8)>|
            sorted_by_number(sorted) && sorted.to_multiset() == number_views(colors.color_list()).to_multiset()
                && s@ == color_lines(sorted),
{
    let sorted = sort_by_number(colors.colors());
    let mut s = String::new();
    let mut k: usize = 0;
    while k < sorted.len()
        invariant
            k <= sorted@.len(),
            s@ == color_lines(number_views(sorted@).take(k as int)),
        decreases sorted@.len() - k,
    {
        push_color_line(&mut s, sorted[k].0.as_str(), sorted[k].1);
        assert(number_views(sorted@).take(k + 1).drop_last() =~= number_views(sorted@).take(k as int));
        k = k + 1;
    }
    assert(number_views(sorted@).take(sorted@.len() as int) =~= number_views(sorted@));
    s
}

/// The theme colors as lines of TOML, in a fixed order.
pub open spec fn theme_lines(t: Theme) -> Seq<char> {
    color_line("text-fg"@, t.text_fg) + color_line("text-bg"@, t.text_bg) + color_line("select-bg"@, t.select_bg) + color_line("spotlight-bg"@, t.spotlight_bg) + color_line("whitespace-fg"@, t.whitespace_fg) + color_line("accent-fg"@, t.accent_fg) + color_line("echo-fg"@, t.echo_fg) + color_line("prompt-fg"@, t.prompt_fg) + color_line("banner-fg"@, t.banner_fg) + color_line("active-bg"@, t.active_bg) + color_line("inactive-bg"@, t.inactive_bg) + color_line("margin-fg"@, t.margin_fg) + color_line("margin-bg"@, t.margin_bg) + color_line("line-fg"@, t.line_fg)
}

/// Returns the theme colors as lines of TOML.
pub fn theme_content(theme: &Theme) -> (s: String)
    ensures
        s@ == theme_lines(*theme),
{
    let mut out = String::new();
    push_color_line(&mut out, "text-fg", theme.text_fg);
    push_color_line(&mut out, "text-bg", theme.text_bg);
    push_color_line(&mut out, "select-bg", theme.select_bg);
    push_color_line(&mut out, "spotlight-bg", theme.spotlight_bg);
    push_color_line(&mut out, "whitespace-fg", theme.whitespace_fg);
    push_color_line(&mut out, "accent-fg", theme.accent_fg);
    push_color_line(&mut out, "echo-fg", theme.echo_fg);
    push_color_line(&mut out, "prompt-fg", theme.prompt_fg);
    push_color_line(&mut out, "banner-fg", theme.banner_fg);
    push_color_line(&mut out, "active-bg", theme.active_bg);
    push_color_line(&mut out, "inactive-bg", theme.inactive_bg);
    push_color_line(&mut out, "margin-fg", theme.margin_fg);
    push_color_line(&mut out, "margin-bg", theme.margin_bg);
    push_color_line(&mut out, "line-fg", theme.line_fg);
    assert(out@ =~= theme_lines(*theme));
    out
}

} // verus!
