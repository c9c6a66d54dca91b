//! Configuration: settings, colors, theme and key bindings.
//!
//! All default values for configurable aspects of the editor are defined here.
//! A configuration starts from the defaults; an external configuration, read from
//! a resource file, and command-line options are applied on top of it in turn.

use crate::bind::{bound_map, bound_prefixes, entry_ok, entry_views, Bindings, EntryView};
use crate::color::{ColorValue, Colors};
use crate::error::{Error, Result};
use crate::num::parse_unsigned;
use crate::opt::Options;
use crate::strings::{push_decimal, to_string};
use crate::syntax::Registry;
use vstd::prelude::*;

verus! {

/// The settings that control the behavior and rendering of editors.
#[derive(Copy, Clone, PartialEq, Eq, Structural, Debug)]
pub struct Settings {
    pub spotlight: bool,
    pub lines: bool,
    pub eol: bool,
    pub tab_hard: bool,
    pub tab_size: u32,
    pub track_lateral: bool,
}

/// Settings of an external configuration, each of which may be absent.
#[derive(Copy, Clone, Debug)]
pub struct SettingsPatch {
    pub spotlight: Option<bool>,
    pub lines: Option<bool>,
    pub eol: Option<bool>,
    pub tab_hard: Option<bool>,
    pub tab_size: Option<u32>,
    pub track_lateral: Option<bool>,
}

/// The configurable colors.
#[derive(Copy, Clone, PartialEq, Eq, Structural, Debug)]
pub struct Theme {
    pub text_fg: u8,
    pub text_bg: u8,
    pub select_bg: u8,
    pub spotlight_bg: u8,
    pub whitespace_fg: u8,
    pub accent_fg: u8,
    pub echo_fg: u8,
    pub prompt_fg: u8,
    pub banner_fg: u8,
    pub active_bg: u8,
    pub inactive_bg: u8,
    pub margin_fg: u8,
    pub margin_bg: u8,
    pub line_fg: u8,
}

/// Colors of an external configuration, each of which may be absent.
pub struct ThemePatch {
    pub text_fg: Option<ColorValue>,
    pub text_bg: Option<ColorValue>,
    pub select_bg: Option<ColorValue>,
    pub spotlight_bg: Option<ColorValue>,
    pub whitespace_fg: Option<ColorValue>,
    pub accent_fg: Option<ColorValue>,
    pub echo_fg: Option<ColorValue>,
    pub prompt_fg: Option<ColorValue>,
    pub banner_fg: Option<ColorValue>,
    pub active_bg: Option<ColorValue>,
    pub inactive_bg: Option<ColorValue>,
    pub margin_fg: Option<ColorValue>,
    pub margin_bg: Option<ColorValue>,
    pub line_fg: Option<ColorValue>,
}

/// An external configuration, as a resource file gives it.
pub struct ExternalConfiguration {
    pub settings: Option<SettingsPatch>,
    pub colors: Option<Vec<(String, u8)>>,
    pub theme: Option<ThemePatch>,
    pub bindings: Option<Vec<(String, String)>>,
}

/// The value of `o`, or `d` where it is absent.
pub open spec fn or<T>(o: Option<T>, d: T) -> T {
    match o {
        Some(v) => v,
        None => d,
    }
}

/// The default settings.
pub open spec fn default_settings() -> Settings {
    Settings { spotlight: true, lines: true, eol: false, tab_hard: false, tab_size: 4, track_lateral: false }
}

/// The settings `s` with those given in `p` applied.
pub open spec fn patched(s: Settings, p: SettingsPatch) -> Settings {
    Settings {
        spotlight: or(p.spotlight, s.spotlight),
        lines: or(p.lines, s.lines),
        eol: or(p.eol, s.eol),
        tab_hard: or(p.tab_hard, s.tab_hard),
        tab_size: or(p.tab_size, s.tab_size),
        track_lateral: or(p.track_lateral, s.track_lateral),
    }
}

impl Default for Settings {
    fn default() -> (s: Settings)
        ensures
            s == default_settings(),
    {
        Settings { spotlight: true, lines: true, eol: false, tab_hard: false, tab_size: 4, track_lateral: false }
    }
}

impl Settings {
    /// Applies the settings of the external configuration `ext` on top.
    pub fn apply(&mut self, ext: &Option<SettingsPatch>)
        ensures
            *final(self) == (match ext {
                Some(p) => patched(*old(self), *p),
                None => *old(self),
            }),
    {
        if let Some(p) = ext {
            self.apply_patch(p);
        }
    }

    fn apply_patch(&mut self, p: &SettingsPatch)
        ensures
            *final(self) == patched(*old(self), *p),
    {
        self.spotlight = match p.spotlight { Some(v) => v, None => self.spotlight };
        self.lines = match p.lines { Some(v) => v, None => self.lines };
        self.eol = match p.eol { Some(v) => v, None => self.eol };
        self.tab_hard = match p.tab_hard { Some(v) => v, None => self.tab_hard };
        self.tab_size = match p.tab_size { Some(v) => v, None => self.tab_size };
        self.track_lateral = match p.track_lateral { Some(v) => v, None => self.track_lateral };
    }

    /// Applies the settings given on the command line in `opts` on top.
    pub fn apply_opts(&mut self, opts: &Options)
        ensures
            *final(self) == patched(
                *old(self),
                SettingsPatch {
                    spotlight: opts.spotlight,
                    lines: opts.lines,
                    eol: opts.eol,
                    tab_hard: opts.tab_hard,
                    tab_size: opts.tab_size,
                    track_lateral: opts.track_lateral,
                },
            ),
    {
        let p = SettingsPatch {
            spotlight: opts.spotlight,
            lines: opts.lines,
            eol: opts.eol,
            tab_hard: opts.tab_hard,
            tab_size: opts.tab_size,
            track_lateral: opts.track_lateral,
        };
        self.apply_patch(&p);
    }
}

/// The default theme.
pub open spec fn default_theme() -> Theme {
    Theme {
        text_fg: 252,
        text_bg: 233,
        select_bg: 88,
        spotlight_bg: 234,
        whitespace_fg: 243,
        accent_fg: 180,
        echo_fg: 208,
        prompt_fg: 102,
        banner_fg: 254,
        active_bg: 60,
        inactive_bg: 237,
        margin_fg: 61,
        margin_bg: 234,
        line_fg: 81,
    }
}

impl Default for Theme {
    fn default() -> (t: Theme)
        ensures
            t == default_theme(),
    {
        Theme {
            text_fg: 252,
            text_bg: 233,
            select_bg: 88,
            spotlight_bg: 234,
            whitespace_fg: 243,
            accent_fg: 180,
            echo_fg: 208,
            prompt_fg: 102,
            banner_fg: 254,
            active_bg: 60,
            inactive_bg: 237,
            margin_fg: 61,
            margin_bg: 234,
            line_fg: 81,
        }
    }
}

/// The color that `v` gives with the color names `m`, or `color` where `v` is
/// absent; `None` where `v` names no color.
pub open spec fn resolved(color: u8, v: Option<ColorValue>, m: Map<Seq<char>, u8>) -> Option<u8> {
    match v {
        None => Some(color),
        Some(ColorValue::Number(n)) => Some(n),
        Some(ColorValue::Name(name)) => if m.contains_key(name@) {
            Some(m[name@])
        } else {
            match parse_unsigned(name@, 10, 255) {
                Some(n) => Some(n as u8),
                None => None,
            }
        },
    }
}

/// The theme `t` with the colors of `p` resolved by the color names `m`, or `None`
/// where one of them names no color.
pub open spec fn themed(t: Theme, p: ThemePatch, m: Map<Seq<char>, u8>) -> Option<Theme> {
    let text_fg = resolved(t.text_fg, p.text_fg, m);
    let text_bg = resolved(t.text_bg, p.text_bg, m);
    let select_bg = resolved(t.select_bg, p.select_bg, m);
    let spotlight_bg = resolved(t.spotlight_bg, p.spotlight_bg, m);
    let whitespace_fg = resolved(t.whitespace_fg, p.whitespace_fg, m);
    let accent_fg = resolved(t.accent_fg, p.accent_fg, m);
    let echo_fg = resolved(t.echo_fg, p.echo_fg, m);
    let prompt_fg = resolved(t.prompt_fg, p.prompt_fg, m);
    let banner_fg = resolved(t.banner_fg, p.banner_fg, m);
    let active_bg = resolved(t.active_bg, p.active_bg, m);
    let inactive_bg = resolved(t.inactive_bg, p.inactive_bg, m);
    let margin_fg = resolved(t.margin_fg, p.margin_fg, m);
    let margin_bg = resolved(t.margin_bg, p.margin_bg, m);
    let line_fg = resolved(t.line_fg, p.line_fg, m);
    if text_fg is Some && text_bg is Some && select_bg is Some && spotlight_bg is Some && whitespace_fg is Some && accent_fg is Some && echo_fg is Some && prompt_fg is Some && banner_fg is Some && active_bg is Some && inactive_bg is Some && margin_fg is Some && margin_bg is Some && line_fg is Some {
        Some(Theme {
            text_fg: text_fg->0,
            text_bg: text_bg->0,
            select_bg: select_bg->0,
            spotlight_bg: spotlight_bg->0,
            whitespace_fg: whitespace_fg->0,
            accent_fg: accent_fg->0,
            echo_fg: echo_fg->0,
            prompt_fg: prompt_fg->0,
            banner_fg: banner_fg->0,
            active_bg: active_bg->0,
            inactive_bg: inactive_bg->0,
            margin_fg: margin_fg->0,
            margin_bg: margin_bg->0,
            line_fg: line_fg->0
        })
    } else {
        None
    }
}

/// The number of colors of `p`, in the order of the theme's fields, that come
/// before the first one naming no color among `m`: 14 where all of them do.
pub open spec fn resolved_count(p: ThemePatch, m: Map<Seq<char>, u8>) -> int {
    if resolved(0, p.text_fg, m) is None {
        0
    } else if resolved(0, p.text_bg, m) is None {
        1
    } else if resolved(0, p.select_bg, m) is None {
        2
    } else if resolved(0, p.spotlight_bg, m) is None {
        3
    } else if resolved(0, p.whitespace_fg, m) is None {
        4
    } else if resolved(0, p.accent_fg, m) is None {
        5
    } else if resolved(0, p.echo_fg, m) is None {
        6
    } else if resolved(0, p.prompt_fg, m) is None {
        7
    } else if resolved(0, p.banner_fg, m) is None {
        8
    } else if resolved(0, p.active_bg, m) is None {
        9
    } else if resolved(0, p.inactive_bg, m) is None {
        10
    } else if resolved(0, p.margin_fg, m) is None {
        11
    } else if resolved(0, p.margin_bg, m) is None {
        12
    } else if resolved(0, p.line_fg, m) is None {
        13
    } else {
        14
    }
}

/// The field at `i` of a theme with `k` colors applied: the color that `v` gives
/// where `i < k`, else `color` unchanged.
pub open spec fn applied_field(k: int, i: int, color: u8, v: Option<ColorValue>, m: Map<Seq<char>, u8>) -> u8 {
    if i < k {
        match resolved(color, v, m) {
            Some(c) => c,
            None => color,
        }
    } else {
        color
    }
}

/// The theme `t` with the colors of `p` applied field by field, in order, up to the
/// first one that names no color among `m`: that one and those after it stay.
pub open spec fn applied_theme(t: Theme, p: ThemePatch, m: Map<Seq<char>, u8>) -> Theme {
    let k = resolved_count(p, m);
    Theme {
        text_fg: applied_field(k, 0, t.text_fg, p.text_fg, m),
        text_bg: applied_field(k, 1, t.text_bg, p.text_bg, m),
        select_bg: applied_field(k, 2, t.select_bg, p.select_bg, m),
        spotlight_bg: applied_field(k, 3, t.spotlight_bg, p.spotlight_bg, m),
        whitespace_fg: applied_field(k, 4, t.whitespace_fg, p.whitespace_fg, m),
        accent_fg: applied_field(k, 5, t.accent_fg, p.accent_fg, m),
        echo_fg: applied_field(k, 6, t.echo_fg, p.echo_fg, m),
        prompt_fg: applied_field(k, 7, t.prompt_fg, p.prompt_fg, m),
        banner_fg: applied_field(k, 8, t.banner_fg, p.banner_fg, m),
        active_bg: applied_field(k, 9, t.active_bg, p.active_bg, m),
        inactive_bg: applied_field(k, 10, t.inactive_bg, p.inactive_bg, m),
        margin_fg: applied_field(k, 11, t.margin_fg, p.margin_fg, m),
        margin_bg: applied_field(k, 12, t.margin_bg, p.margin_bg, m),
        line_fg: applied_field(k, 13, t.line_fg, p.line_fg, m),
    }
}

/// The first color of `p`, in the order of the theme's fields, that names no color
/// among `m`.
pub open spec fn first_unresolved(p: ThemePatch, m: Map<Seq<char>, u8>) -> Option<ColorValue> {
    if resolved(0, p.text_fg, m) is None {
        p.text_fg
    } else if resolved(0, p.text_bg, m) is None {
        p.text_bg
    } else if resolved(0, p.select_bg, m) is None {
        p.select_bg
    } else if resolved(0, p.spotlight_bg, m) is None {
        p.spotlight_bg
    } else if resolved(0, p.whitespace_fg, m) is None {
        p.whitespace_fg
    } else if resolved(0, p.accent_fg, m) is None {
        p.accent_fg
    } else if resolved(0, p.echo_fg, m) is None {
        p.echo_fg
    } else if resolved(0, p.prompt_fg, m) is None {
        p.prompt_fg
    } else if resolved(0, p.banner_fg, m) is None {
        p.banner_fg
    } else if resolved(0, p.active_bg, m) is None {
        p.active_bg
    } else if resolved(0, p.inactive_bg, m) is None {
        p.inactive_bg
    } else if resolved(0, p.margin_fg, m) is None {
        p.margin_fg
    } else if resolved(0, p.margin_bg, m) is None {
        p.margin_bg
    } else if resolved(0, p.line_fg, m) is None {
        p.line_fg
    } else {
        None
    }
}

/// The text of a color value: its number, or its name.
pub open spec fn value_text(v: ColorValue) -> Seq<char> {
    match v {
        ColorValue::Number(n) => crate::strings::decimal(n as nat),
        ColorValue::Name(name) => name@,
    }
}

/// Returns the text of the color value `v`.
pub fn color_value_text(v: &ColorValue) -> (s: String)
    ensures
        s@ == value_text(*v),
{
    match v {
        ColorValue::Number(n) => {
            let mut s = String::new();
            push_decimal(&mut s, *n as u64);
            s
        },
        ColorValue::Name(name) => to_string(name.as_str()),
    }
}

/// Returns the color that `v` gives, or `color` where `v` is absent, or an
/// invalid-color error where `v` names no color among `colors`.
fn resolve(color: u8, v: &Option<ColorValue>, colors: &Colors) -> (r: Result<u8>)
    requires
        colors.wf(),
    ensures
        match resolved(color, *v, colors.map()) {
            Some(c) => r == Ok::<u8, Error>(c),
            None => v matches Some(x) && (r matches Err(e) && e matches Error::InvalidColor { name: n }
                && n@ == value_text(*x)),
        },
{
    match v {
        Some(x) => match colors.lookup_value(x) {
            Some(c) => Ok(c),
            None => Err(Error::invalid_color(color_value_text(x).as_str())),
        },
        None => Ok(color),
    }
}

impl Theme {
    /// Applies the colors of the external configuration `ext` on top, in the order of
    /// the theme's fields, resolving names by `colors`; stops with an invalid-color
    /// error at the first one that names no color, the fields before it applied.
    pub fn apply(&mut self, ext: &Option<ThemePatch>, colors: &Colors) -> (r: Result<()>)
        requires
            colors.wf(),
        ensures
            match ext {
                None => r is Ok && *final(self) == *old(self),
                Some(p) => {
                    &&& *final(self) == applied_theme(*old(self), *p, colors.map())
                    &&& (r is Ok <==> resolved_count(*p, colors.map()) == 14)
                    &&& r is Ok ==> themed(*old(self), *p, colors.map()) == Some(*final(self))
                    &&& r is Err ==> (first_unresolved(*p, colors.map()) matches Some(x) && (r matches Err(e)
                        && e matches Error::InvalidColor { name: n } && n@ == value_text(x)))
                },
            },
    {
        match ext {
            Some(patch) => self.apply_patch(patch, colors),
            None => Ok(()),
        }
    }

    #[verifier::rlimit(40)]
    fn apply_patch(&mut self, patch: &ThemePatch, colors: &Colors) -> (r: Result<()>)
        requires
            colors.wf(),
        ensures
            *final(self) == applied_theme(*old(self), *patch, colors.map()),
            r is Ok <==> resolved_count(*patch, colors.map()) == 14,
            r is Ok ==> themed(*old(self), *patch, colors.map()) == Some(*final(self)),
            r is Err ==> (first_unresolved(*patch, colors.map()) matches Some(x) && (r matches Err(e)
                && e matches Error::InvalidColor { name: n } && n@ == value_text(x))),
    {
        self.text_fg = match resolve(self.text_fg, &patch.text_fg, colors) {
            Ok(c) => c,
            Err(e) => return Err(e),
        };
        self.text_bg = match resolve(self.text_bg, &patch.text_bg, colors) {
            Ok(c) => c,
            Err(e) => return Err(e),
        };
        self.select_bg = match resolve(self.select_bg, &patch.select_bg, colors) {
            Ok(c) => c,
            Err(e) => return Err(e),
        };
        self.spotlight_bg = match resolve(self.spotlight_bg, &patch.spotlight_bg, colors) {
            Ok(c) => c,
            Err(e) => return Err(e),
        };
        self.whitespace_fg = match resolve(self.whitespace_fg, &patch.whitespace_fg, colors) {
            Ok(c) => c,
            Err(e) => return Err(e),
        };
        self.accent_fg = match resolve(self.accent_fg, &patch.accent_fg, colors) {
            Ok(c) => c,
            Err(e) => return Err(e),
        };
        self.echo_fg = match resolve(self.echo_fg, &patch.echo_fg, colors) {
            Ok(c) => c,
            Err(e) => return Err(e),
        };
        self.prompt_fg = match resolve(self.prompt_fg, &patch.prompt_fg, colors) {
            Ok(c) => c,
            Err(e) => return Err(e),
        };
        self.banner_fg = match resolve(self.banner_fg, &patch.banner_fg, colors) {
            Ok(c) => c,
            Err(e) => return Err(e),
        };
        self.active_bg = match resolve(self.active_bg, &patch.active_bg, colors) {
            Ok(c) => c,
            Err(e) => return Err(e),
        };
        self.inactive_bg = match resolve(self.inactive_bg, &patch.inactive_bg, colors) {
            Ok(c) => c,
            Err(e) => return Err(e),
        };
        self.margin_fg = match resolve(self.margin_fg, &patch.margin_fg, colors) {
            Ok(c) => c,
            Err(e) => return Err(e),
        };
        self.margin_bg = match resolve(self.margin_bg, &patch.margin_bg, colors) {
            Ok(c) => c,
            Err(e) => return Err(e),
        };
        self.line_fg = match resolve(self.line_fg, &patch.line_fg, colors) {
            Ok(c) => c,
            Err(e) => return Err(e),
        };
        Ok(())
    }
}

/// The default key bindings.
pub const DEFAULT_BINDINGS: [(&'static str, &'static str); 98] = [
    ("C-q", "quit"),
    ("C-h", "help"),
    ("M-h:k", "help-keys"),
    ("M-h:o", "help-ops"),
    ("M-h:b", "help-bindings"),
    ("M-h:c", "help-colors"),
    ("C-b", "move-backward"),
    ("left", "move-backward"),
    ("S-left", "move-backward-select"),
    ("C-f", "move-forward"),
    ("right", "move-forward"),
    ("S-right", "move-forward-select"),
    ("C-p", "move-up"),
    ("up", "move-up"),
    ("S-up", "move-up-select"),
    ("C-n", "move-down"),
    ("down", "move-down"),
    ("S-down", "move-down-select"),
    ("M-p", "move-up-page"),
    ("pg_up", "move-up-page"),
    ("S-pg_up", "move-up-page-select"),
    ("M-n", "move-down-page"),
    ("pg_down", "move-down-page"),
    ("S-pg_down", "move-down-page-select"),
    ("C-a", "move-start"),
    ("home", "move-start"),
    ("S-home", "move-start-select"),
    ("C-e", "move-end"),
    ("end", "move-end"),
    ("S-end", "move-end-select"),
    ("C-home", "move-top"),
    ("M-a", "move-top"),
    ("S-C-home", "move-top-select"),
    ("C-end", "move-bottom"),
    ("M-e", "move-bottom"),
    ("S-C-end", "move-bottom-select"),
    ("M-b", "move-backward-word"),
    ("C-left", "move-backward-word"),
    ("M-B", "move-backward-word-select"),
    ("S-C-left", "move-backward-word-select"),
    ("M-f", "move-forward-word"),
    ("C-right", "move-forward-word"),
    ("M-F", "move-forward-word-select"),
    ("S-C-right", "move-forward-word-select"),
    ("C-up", "scroll-up"),
    ("S-C-up", "scroll-up-select"),
    ("C-down", "scroll-down"),
    ("S-C-down", "scroll-down-select"),
    ("C-l", "scroll-center"),
    ("M-l", "redraw"),
    ("C-@", "set-mark"),
    ("C-_", "goto-line"),
    ("ret", "insert-line"),
    ("tab", "insert-tab"),
    ("C-^", "insert-unicode-dec"),
    ("M-^", "insert-unicode-hex"),
    ("C-d", "remove-after"),
    ("del", "remove-before"),
    ("C-j", "remove-start"),
    ("C-k", "remove-end"),
    ("C-u", "undo"),
    ("C-r", "redo"),
    ("C-c", "copy"),
    ("M-c", "copy-global"),
    ("C-v", "paste"),
    ("M-v", "paste-global"),
    ("C-x", "cut"),
    ("M-x", "cut-global"),
    ("C-\\", "search"),
    ("M-C-\\", "search-case"),
    ("M-\\", "search-regex"),
    ("M-M-\\", "search-regex-case"),
    ("C-]", "search-next"),
    ("C-o", "open-file"),
    ("M-o:a", "open-file-top"),
    ("M-o:e", "open-file-bottom"),
    ("M-o:p", "open-file-above"),
    ("M-o:n", "open-file-below"),
    ("C-s", "save-file"),
    ("M-s", "save-file-as"),
    ("C-y", "select-editor"),
    ("M-y:a", "select-editor-top"),
    ("M-y:e", "select-editor-bottom"),
    ("M-y:p", "select-editor-above"),
    ("M-y:n", "select-editor-below"),
    ("M-,", "prev-editor"),
    ("M-.", "next-editor"),
    ("C-w", "kill-window"),
    ("M-w:0", "close-window"),
    ("M-w:1", "close-other-windows"),
    ("M-w:a", "top-window"),
    ("M-w:e", "bottom-window"),
    ("M-w:p", "prev-window"),
    ("M-<", "prev-window"),
    ("M-w:n", "next-window"),
    ("M->", "next-window"),
    ("C-t", "describe-editor"),
    ("M-t:t", "tab-mode"),
];

/// The text of the default key bindings, in order.
pub open spec fn default_entries() -> Seq<EntryView> {
    DEFAULT_BINDINGS@.map_values(|e: (&'static str, &'static str)| (e.0@, e.1@))
}

/// Every default key binding names valid keys and a valid operation.
pub open spec fn defaults_valid() -> bool {
    forall|i: int| 0 <= i < default_entries().len() ==> entry_ok(#[trigger] default_entries()[i])
}

/// Returns the default key bindings; the restricted keys among them may be bound
/// here, unlike through [`Bindings::bind`].
pub fn default_bindings() -> (r: Result<Bindings>)
    ensures
        r is Ok <==> defaults_valid(),
        r matches Ok(b) ==> b.wf() && b.map() == bound_map(default_entries()) && b.prefixes()
            == bound_prefixes(default_entries()),
{
    let mut pairs: Vec<(String, String)> = Vec::new();
    let mut i: usize = 0;
    while i < 98
        invariant
            i <= 98,
            entry_views(pairs@) == default_entries().take(i as int),
        decreases 98 - i,
    {
        let (k, o) = DEFAULT_BINDINGS[i];
        let ghost before = pairs@;
        pairs.push((to_string(k), to_string(o)));
        proof {
            assert(entry_views(pairs@) =~= entry_views(before).push((k@, o@)));
            assert(default_entries().take(i + 1) =~= default_entries().take(i as int).push((k@, o@)));
        }
        i = i + 1;
    }
    assert(default_entries().take(98) =~= default_entries());
    Bindings::new(&pairs)
}

/// A configuration of all aspects of the editing experience.
pub struct Configuration {
    pub settings: Settings,
    pub colors: Colors,
    pub theme: Theme,
    pub bindings: Bindings,
    pub registry: Registry,
}

impl Configuration {
    /// The configuration's parts are consistent.
    pub open spec fn wf(&self) -> bool {
        self.colors.wf() && self.bindings.wf()
    }

    /// Returns the default configuration.
    pub fn new() -> (r: Result<Configuration>)
        ensures
            r is Ok <==> defaults_valid(),
            r matches Ok(c) ==> c.wf() && c.settings == default_settings() && c.theme == default_theme()
                && c.colors.map() == crate::color::default_color_map() && c.bindings.map() == bound_map(
                default_entries()) && c.bindings.prefixes() == bound_prefixes(default_entries())
                && c.registry.names().len() == 0 && c.registry.extensions().len() == 0,
    {
        let bindings = match default_bindings() {
            Ok(b) => b,
            Err(e) => return Err(e),
        };
        Ok(Configuration {
            settings: Settings::default(),
            colors: Colors::default(),
            theme: Theme::default(),
            bindings,
            registry: Registry::new(),
        })
    }

    /// Applies the settings given on the command line in `opts` on top.
    pub fn apply_opts(&mut self, opts: &Options)
        ensures
            final(self).settings == patched(
                old(self).settings,
                SettingsPatch {
                    spotlight: opts.spotlight,
                    lines: opts.lines,
                    eol: opts.eol,
                    tab_hard: opts.tab_hard,
                    tab_size: opts.tab_size,
                    track_lateral: opts.track_lateral,
                },
            ),
            final(self).theme == old(self).theme,
    {
        self.settings.apply_opts(opts);
    }

    /// Applies the external configuration `ext` on top: settings, color names,
    /// theme, then bindings in turn, stopping at the first error.
    pub fn apply(&mut self, ext: &ExternalConfiguration) -> (r: Result<()>)
        requires
            old(self).wf(),
        ensures
            final(self).wf(),
            final(self).settings == (match ext.settings {
                Some(p) => patched(old(self).settings, p),
                None => old(self).settings,
            }),
    {
        self.settings.apply(&ext.settings);
        if let Some(colors) = &ext.colors {
            self.colors.apply(colors);
        }
        match self.theme.apply(&ext.theme, &self.colors) {
            Ok(()) => {},
            Err(e) => return Err(e),
        }
        if let Some(bindings) = &ext.bindings {
            let mut i: usize = 0;
            while i < bindings.len()
                invariant
                    self.wf(),
                    self.settings == (match ext.settings {
                        Some(p) => patched(old(self).settings, p),
                        None => old(self).settings,
                    }),
                decreases bindings@.len() - i,
            {
                match self.bindings.bind(bindings[i].0.as_str(), bindings[i].1.as_str()) {
                    Ok(()) => {},
                    Err(e) => return Err(e),
                }
                i = i + 1;
            }
        }
        Ok(())
    }
}

} // verus!
