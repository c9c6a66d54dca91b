//! A simple parser for command-line options.

use crate::error::{Error, Result};
use crate::nav::{location_fields, location_of, Location};
use crate::num::{parse_u32, parse_unsigned};
use crate::strings::{str_eq, to_string};
use vstd::prelude::*;

verus! {

/// Represents all potential command-line options.
pub struct Options {
    pub spotlight: Option<bool>,
    pub lines: Option<bool>,
    pub eol: Option<bool>,
    pub tab_hard: Option<bool>,
    pub tab_size: Option<u32>,
    pub crlf: Option<bool>,
    pub keys: bool,
    pub ops: bool,
    pub bindings: bool,
    pub colors: bool,
    pub theme: bool,
    pub syntaxes: bool,
    pub describe: Option<String>,
    pub track_lateral: Option<bool>,
    pub config_path: Option<String>,
    pub syntax_dir: Option<String>,
    pub bare: bool,
    pub bare_syntax: bool,
    pub help: bool,
    pub version: bool,
    pub source: bool,
    pub files: Vec<File>,
}

/// A file given on the command line, with the location to go to, if any.
pub struct File {
    pub path: String,
    pub loc: Option<Location>,
}

impl File {
    fn new(path: String) -> (f: File)
        ensures
            f.path@ == path@,
            f.loc is None,
    {
        File { path, loc: None }
    }
}

/// The options as values: strings as their characters, files as their paths and
/// locations.
pub struct OptionsView {
    pub spotlight: Option<bool>,
    pub lines: Option<bool>,
    pub eol: Option<bool>,
    pub tab_hard: Option<bool>,
    pub tab_size: Option<u32>,
    pub crlf: Option<bool>,
    pub keys: bool,
    pub ops: bool,
    pub bindings: bool,
    pub colors: bool,
    pub theme: bool,
    pub syntaxes: bool,
    pub describe: Option<Seq<char>>,
    pub track_lateral: Option<bool>,
    pub config_path: Option<Seq<char>>,
    pub syntax_dir: Option<Seq<char>>,
    pub bare: bool,
    pub bare_syntax: bool,
    pub help: bool,
    pub version: bool,
    pub source: bool,
    pub files: Seq<(Seq<char>, Option<Location>)>,
}

/// The value of an optional string.
pub open spec fn opt_view(s: Option<String>) -> Option<Seq<char>> {
    match s {
        Some(v) => Some(v@),
        None => None,
    }
}

/// The paths and locations of files.
pub open spec fn files_view(fs: Seq<File>) -> Seq<(Seq<char>, Option<Location>)> {
    fs.map_values(|f: File| (f.path@, f.loc))
}

impl View for Options {
    type V = OptionsView;

    open spec fn view(&self) -> OptionsView {
        OptionsView {
            spotlight: self.spotlight,
            lines: self.lines,
            eol: self.eol,
            tab_hard: self.tab_hard,
            tab_size: self.tab_size,
            crlf: self.crlf,
            keys: self.keys,
            ops: self.ops,
            bindings: self.bindings,
            colors: self.colors,
            theme: self.theme,
            syntaxes: self.syntaxes,
            describe: opt_view(self.describe),
            track_lateral: self.track_lateral,
            config_path: opt_view(self.config_path),
            syntax_dir: opt_view(self.syntax_dir),
            bare: self.bare,
            bare_syntax: self.bare_syntax,
            help: self.help,
            version: self.version,
            source: self.source,
            files: files_view(self.files@),
        }
    }
}

/// The options when none are given.
pub open spec fn default_options() -> OptionsView {
    OptionsView {
        spotlight: None,
        lines: None,
        eol: None,
        tab_hard: None,
        tab_size: None,
        crlf: None,
        keys: false,
        ops: false,
        bindings: false,
        colors: false,
        theme: false,
        syntaxes: false,
        describe: None,
        track_lateral: None,
        config_path: None,
        syntax_dir: None,
        bare: false,
        bare_syntax: false,
        help: false,
        version: false,
        source: false,
        files: Seq::empty(),
    }
}

impl Default for Options {
    fn default() -> (o: Options)
        ensures
            o@ == default_options(),
    {
        let o = Options {
            spotlight: None,
            lines: None,
            eol: None,
            tab_hard: None,
            tab_size: None,
            crlf: None,
            keys: false,
            ops: false,
            bindings: false,
            colors: false,
            theme: false,
            syntaxes: false,
            describe: None,
            track_lateral: None,
            config_path: None,
            syntax_dir: None,
            bare: false,
            bare_syntax: false,
            help: false,
            version: false,
            source: false,
            files: Vec::new(),
        };
        assert(o@.files =~= Seq::<(Seq<char>, Option<Location>)>::empty());
        o
    }
}

/// The ways in which command-line arguments can be wrong.
pub enum ArgError {
    /// An argument that looks like an option but is none.
    UnexpectedArg(Seq<char>),
    /// An option that needs a value comes last.
    ExpectedValue(Seq<char>),
    /// The value of an option (the second part) is not valid for it.
    InvalidValue(Seq<char>, Seq<char>),
    /// An option that needs a location comes last.
    ExpectedLocation(Seq<char>),
    /// The location given to an option (the second part) is not valid.
    InvalidLocation(Seq<char>, Seq<char>),
}

/// `e` is the error `a`.
pub open spec fn error_is(e: Error, a: ArgError) -> bool {
    match a {
        ArgError::UnexpectedArg(arg) => e matches Error::UnexpectedArg { arg: x } && x@ == arg,
        ArgError::ExpectedValue(arg) => e matches Error::ExpectedValue { arg: x } && x@ == arg,
        ArgError::InvalidValue(arg, value) => e matches Error::InvalidValue { arg: x, value: v }
            && x@ == arg && v@ == value,
        ArgError::ExpectedLocation(arg) => e matches Error::ExpectedLocation { arg: x } && x@ == arg,
        ArgError::InvalidLocation(arg, value) => e matches Error::InvalidLocation { arg: x, value: v }
            && x@ == arg && v@ == value,
    }
}

/// `files` with the location of the last file, if there is one, set to `loc`.
pub open spec fn locate_last(files: Seq<(Seq<char>, Option<Location>)>, loc: Location) -> Seq<(Seq<char>, Option<Location>)> {
    if files.len() > 0 {
        files.update(files.len() - 1, (files.last().0, Some(loc)))
    } else {
        files
    }
}

/// `s` starts with `-`.
pub open spec fn is_dashed(s: Seq<char>) -> bool {
    s.len() > 0 && s[0] == '-'
}

/// Which option without a value `a` is, numbered from 1 in the order of the
/// options' list; 0 where `a` is none of them.
pub open spec fn flag_kind(a: Seq<char>) -> int {
    if a == "--spotlight"@ {
        1
    } else if a == "--no-spotlight"@ {
        2
    } else if a == "--lines"@ {
        3
    } else if a == "--no-lines"@ {
        4
    } else if a == "--eol"@ {
        5
    } else if a == "--no-eol"@ {
        6
    } else if a == "--tab-hard"@ {
        7
    } else if a == "--tab-soft"@ {
        8
    } else if a == "--crlf"@ {
        9
    } else if a == "--lf"@ {
        10
    } else if a == "--keys"@ {
        11
    } else if a == "--ops"@ {
        12
    } else if a == "--bindings"@ {
        13
    } else if a == "--colors"@ {
        14
    } else if a == "--theme"@ {
        15
    } else if a == "--syntaxes"@ {
        16
    } else if a == "--track-lateral"@ {
        17
    } else if a == "--no-track-lateral"@ {
        18
    } else if a == "--bare"@ || a == "-b"@ {
        19
    } else if a == "--bare-syntax"@ || a == "-B"@ {
        20
    } else if a == "--help"@ || a == "-h"@ || a == "-?"@ {
        21
    } else if a == "--version"@ || a == "-v"@ {
        22
    } else if a == "--source"@ {
        23
    } else {
        0
    }
}

/// The options `o` with the option without a value of kind `k` set.
pub open spec fn apply_flag(k: int, o: OptionsView) -> OptionsView {
    OptionsView {
        spotlight: if k == 1 { Some(true) } else if k == 2 { Some(false) } else { o.spotlight },
        lines: if k == 3 { Some(true) } else if k == 4 { Some(false) } else { o.lines },
        eol: if k == 5 { Some(true) } else if k == 6 { Some(false) } else { o.eol },
        tab_hard: if k == 7 { Some(true) } else if k == 8 { Some(false) } else { o.tab_hard },
        tab_size: o.tab_size,
        crlf: if k == 9 { Some(true) } else if k == 10 { Some(false) } else { o.crlf },
        keys: if k == 11 { true } else { o.keys },
        ops: if k == 12 { true } else { o.ops },
        bindings: if k == 13 { true } else { o.bindings },
        colors: if k == 14 { true } else { o.colors },
        theme: if k == 15 { true } else { o.theme },
        syntaxes: if k == 16 { true } else { o.syntaxes },
        describe: o.describe,
        track_lateral: if k == 17 { Some(true) } else if k == 18 { Some(false) } else { o.track_lateral },
        config_path: o.config_path,
        syntax_dir: o.syntax_dir,
        bare: if k == 19 { true } else { o.bare },
        bare_syntax: if k == 20 { true } else { o.bare_syntax },
        help: if k == 21 { true } else { o.help },
        version: if k == 22 { true } else { o.version },
        source: if k == 23 { true } else { o.source },
        files: o.files,
    }
}

/// Which option that takes a string value `a` is: 1 for the description of an
/// operation, 2 for the configuration path, 3 for the syntax directory, and 0 for
/// none of them.
pub open spec fn value_kind(a: Seq<char>) -> int {
    if a == "--describe"@ {
        1
    } else if a == "--config"@ || a == "-C"@ {
        2
    } else if a == "--syntax"@ || a == "-S"@ {
        3
    } else {
        0
    }
}

/// The options `o` with the string option of kind `k` set to `v`.
pub open spec fn value_update(k: int, v: Seq<char>, o: OptionsView) -> OptionsView {
    if k == 1 {
        OptionsView { describe: Some(v), ..o }
    } else if k == 2 {
        OptionsView { config_path: Some(v), ..o }
    } else {
        OptionsView { syntax_dir: Some(v), ..o }
    }
}

/// What one option does to the options: it takes `n` arguments more than its own
/// and gives new options, or it is wrong.
pub enum Step {
    Next(nat, OptionsView),
    Fail(ArgError),
}

/// The step of `--tab-size` at `args[i]`.
pub open spec fn tab_size_step(args: Seq<Seq<char>>, i: int, o: OptionsView) -> Step {
    if i + 1 < args.len() {
        match parse_unsigned(args[i + 1], 10, u32::MAX as nat) {
            Some(n) => Step::Next(1, OptionsView { tab_size: Some(n as u32), ..o }),
            None => Step::Fail(ArgError::InvalidValue(args[i], args[i + 1])),
        }
    } else {
        Step::Fail(ArgError::ExpectedValue(args[i]))
    }
}

/// The step of an option that takes a string value, at `args[i]`.
pub open spec fn value_step(args: Seq<Seq<char>>, i: int, o: OptionsView) -> Step {
    if i + 1 < args.len() {
        Step::Next(1, value_update(value_kind(args[i]), args[i + 1], o))
    } else {
        Step::Fail(ArgError::ExpectedValue(args[i]))
    }
}

/// The step of `--goto` at `args[i]`: the location attaches to the most recent
/// file.
pub open spec fn goto_step(args: Seq<Seq<char>>, i: int, o: OptionsView) -> Step {
    if i + 1 < args.len() {
        match location_of(location_fields(args[i + 1])) {
            Some(loc) => Step::Next(1, OptionsView { files: locate_last(o.files, loc), ..o }),
            None => Step::Fail(ArgError::InvalidLocation(args[i], args[i + 1])),
        }
    } else {
        Step::Fail(ArgError::ExpectedLocation(args[i]))
    }
}

/// The step of the argument `args[i]`, for `0 <= i < args.len()`: all arguments
/// after `--` are files.
pub open spec fn step(args: Seq<Seq<char>>, i: int, o: OptionsView) -> Step {
    let a = args[i];
    if flag_kind(a) != 0 {
        Step::Next(0, apply_flag(flag_kind(a), o))
    } else if a == "--tab-size"@ || a == "-t"@ {
        tab_size_step(args, i, o)
    } else if value_kind(a) != 0 {
        value_step(args, i, o)
    } else if a == "--goto"@ || a == "-g"@ {
        goto_step(args, i, o)
    } else if a == "--"@ {
        Step::Next((args.len() - i - 1) as nat, OptionsView { files: o.files + file_views(args.skip(i + 1)), ..o })
    } else if is_dashed(a) {
        Step::Fail(ArgError::UnexpectedArg(a))
    } else {
        Step::Next(0, OptionsView { files: o.files.push((a, None)), ..o })
    }
}

/// The options that the arguments from `i` on give, starting from `o`, or the
/// first error among them.
pub open spec fn parse_from(args: Seq<Seq<char>>, i: int, o: OptionsView) -> core::result::Result<OptionsView, ArgError>
    decreases args.len() - i,
{
    if i < 0 || i >= args.len() {
        Ok(o)
    } else {
        match step(args, i, o) {
            Step::Next(n, next) => parse_from(args, i + 1 + n, next),
            Step::Fail(e) => Err(e),
        }
    }
}

/// Paths as files without locations.
pub open spec fn file_views(paths: Seq<Seq<char>>) -> Seq<(Seq<char>, Option<Location>)> {
    paths.map_values(|p: Seq<char>| (p, None::<Location>))
}

/// The views of a sequence of strings.
pub open spec fn arg_views(args: Seq<String>) -> Seq<Seq<char>> {
    args.map_values(|s: String| s@)
}

/// Returns which option without a value `a` is, as [`flag_kind`] tells.
fn flag_code(a: &str) -> (k: u8)
    ensures
        k == flag_kind(a@),
{
    if str_eq(a, "--spotlight") {
        1
    } else if str_eq(a, "--no-spotlight") {
        2
    } else if str_eq(a, "--lines") {
        3
    } else if str_eq(a, "--no-lines") {
        4
    } else if str_eq(a, "--eol") {
        5
    } else if str_eq(a, "--no-eol") {
        6
    } else if str_eq(a, "--tab-hard") {
        7
    } else if str_eq(a, "--tab-soft") {
        8
    } else if str_eq(a, "--crlf") {
        9
    } else if str_eq(a, "--lf") {
        10
    } else if str_eq(a, "--keys") {
        11
    } else if str_eq(a, "--ops") {
        12
    } else if str_eq(a, "--bindings") {
        13
    } else if str_eq(a, "--colors") {
        14
    } else if str_eq(a, "--theme") {
        15
    } else if str_eq(a, "--syntaxes") {
        16
    } else if str_eq(a, "--track-lateral") {
        17
    } else if str_eq(a, "--no-track-lateral") {
        18
    } else if str_eq(a, "--bare") || str_eq(a, "-b") {
        19
    } else if str_eq(a, "--bare-syntax") || str_eq(a, "-B") {
        20
    } else if str_eq(a, "--help") || str_eq(a, "-h") || str_eq(a, "-?") {
        21
    } else if str_eq(a, "--version") || str_eq(a, "-v") {
        22
    } else if str_eq(a, "--source") {
        23
    } else {
        0
    }
}

/// Sets the option without a value of kind `k` in `opts`.
fn set_flag(opts: &mut Options, k: u8)
    requires
        1 <= k <= 23,
    ensures
        final(opts)@ == apply_flag(k as int, old(opts)@),
{
    match k {
        1 => opts.spotlight = Some(true),
        2 => opts.spotlight = Some(false),
        3 => opts.lines = Some(true),
        4 => opts.lines = Some(false),
        5 => opts.eol = Some(true),
        6 => opts.eol = Some(false),
        7 => opts.tab_hard = Some(true),
        8 => opts.tab_hard = Some(false),
        9 => opts.crlf = Some(true),
        10 => opts.crlf = Some(false),
        11 => opts.keys = true,
        12 => opts.ops = true,
        13 => opts.bindings = true,
        14 => opts.colors = true,
        15 => opts.theme = true,
        16 => opts.syntaxes = true,
        17 => opts.track_lateral = Some(true),
        18 => opts.track_lateral = Some(false),
        19 => opts.bare = true,
        20 => opts.bare_syntax = true,
        21 => opts.help = true,
        22 => opts.version = true,
        _ => opts.source = true,
    }
}

/// Returns which option that takes a string value `a` is, as [`value_kind`] tells.
fn value_option(a: &str) -> (k: u8)
    ensures
        k == value_kind(a@),
{
    if str_eq(a, "--describe") {
        1
    } else if str_eq(a, "--config") || str_eq(a, "-C") {
        2
    } else if str_eq(a, "--syntax") || str_eq(a, "-S") {
        3
    } else {
        0
    }
}

/// Appends the arguments from `from` on to the files of `opts`.
fn push_files(opts: &mut Options, args: &Vec<String>, from: usize)
    requires
        from <= args@.len(),
    ensures
        final(opts)@ == (OptionsView { files: old(opts)@.files + file_views(arg_views(args@).skip(from as int)), ..old(opts)@ }),
{
    let ghost av = arg_views(args@);
    let ghost o = opts@;
    let mut j = from;
    assert(o.files + file_views(av.subrange(from as int, from as int)) =~= o.files);
    while j < args.len()
        invariant
            av == arg_views(args@),
            from <= j <= args@.len(),
            opts@ == (OptionsView { files: o.files + file_views(av.subrange(from as int, j as int)), ..o }),
        decreases args@.len() - j,
    {
        let ghost before = opts.files@;
        opts.files.push(File::new(args[j].clone()));
        assert(files_view(opts.files@) =~= files_view(before).push((av[j as int], None)));
        assert(av.subrange(from as int, j + 1) =~= av.subrange(from as int, j as int).push(av[j as int]));
        assert(file_views(av.subrange(from as int, j + 1)) =~= file_views(av.subrange(from as int, j as int)).push((av[j as int], None)));
        assert(opts@.files =~= o.files + file_views(av.subrange(from as int, j + 1)));
        j = j + 1;
    }
    assert(av.subrange(from as int, args@.len() as int) =~= av.skip(from as int));
}

/// The result `r` of one step that starts at `i` and the options `opts` after it
/// are as `st` says.
pub open spec fn step_done(st: Step, i: int, r: Result<usize>, opts: OptionsView) -> bool {
    match st {
        Step::Next(n, next) => r matches Ok(j) && j == i + 1 + n && opts == next,
        Step::Fail(x) => r matches Err(e) && error_is(e, x),
    }
}

/// Takes the value of `--tab-size` at `args[i]` into `opts`.
fn tab_size_one(opts: &mut Options, args: &Vec<String>, i: usize) -> (r: Result<usize>)
    requires
        i < args@.len(),
    ensures
        step_done(tab_size_step(arg_views(args@), i as int, old(opts)@), i as int, r, final(opts)@),
{
    let ghost av = arg_views(args@);
    let len = args.len();
    let a = args[i].as_str();
    assert(av[i as int] == a@);
    if i + 1 < len {
        let value = args[i + 1].as_str();
        assert(av[i + 1] == value@);
        match parse_u32(value) {
            Some(n) => {
                opts.tab_size = Some(n);
                Ok(i + 2)
            },
            None => Err(Error::invalid_value(a, value)),
        }
    } else {
        Err(Error::expected_value(a))
    }
}

/// Takes the value of the option of kind `k` that takes a string, at `args[i]`,
/// into `opts`.
fn value_one(opts: &mut Options, args: &Vec<String>, i: usize, k: u8) -> (r: Result<usize>)
    requires
        i < args@.len(),
        k == value_kind(arg_views(args@)[i as int]),
        k != 0,
    ensures
        step_done(value_step(arg_views(args@), i as int, old(opts)@), i as int, r, final(opts)@),
{
    let ghost av = arg_views(args@);
    let len = args.len();
    let a = args[i].as_str();
    assert(av[i as int] == a@);
    if i + 1 < len {
        let value = args[i + 1].clone();
        assert(av[i + 1] == value@);
        if k == 1 {
            opts.describe = Some(value);
        } else if k == 2 {
            opts.config_path = Some(value);
        } else {
            opts.syntax_dir = Some(value);
        }
        Ok(i + 2)
    } else {
        Err(Error::expected_value(a))
    }
}

/// Takes the location of `--goto` at `args[i]` into `opts`: it attaches to the
/// most recent file, so a second location without a file between them replaces
/// the first.
fn goto_one(opts: &mut Options, args: &Vec<String>, i: usize) -> (r: Result<usize>)
    requires
        i < args@.len(),
    ensures
        step_done(goto_step(arg_views(args@), i as int, old(opts)@), i as int, r, final(opts)@),
{
    let ghost av = arg_views(args@);
    let ghost o = opts@;
    let len = args.len();
    let a = args[i].as_str();
    assert(av[i as int] == a@);
    if i + 1 < len {
        let value = args[i + 1].as_str();
        assert(av[i + 1] == value@);
        match Location::parse(value) {
            Ok(loc) => {
                let n = opts.files.len();
                if n > 0 {
                    let path = to_string(opts.files[n - 1].path.as_str());
                    opts.files.set(n - 1, File { path, loc: Some(loc) });
                }
                assert(opts@.files =~= locate_last(o.files, loc));
                Ok(i + 2)
            },
            Err(_) => Err(Error::invalid_location(a, value)),
        }
    } else {
        Err(Error::expected_location(a))
    }
}

/// Takes the option that starts at `args[i]`, with its value if it has one, into
/// `opts`, and returns where the next option starts.
fn parse_one(opts: &mut Options, args: &Vec<String>, i: usize) -> (r: Result<usize>)
    requires
        i < args@.len(),
    ensures
        step_done(step(arg_views(args@), i as int, old(opts)@), i as int, r, final(opts)@),
{
    let ghost av = arg_views(args@);
    let ghost o = opts@;
    let len = args.len();
    let a = args[i].as_str();
    assert(av[i as int] == a@);
    let f = flag_code(a);
    if f != 0 {
        set_flag(opts, f);
        return Ok(i + 1);
    }
    if str_eq(a, "--tab-size") || str_eq(a, "-t") {
        return tab_size_one(opts, args, i);
    }
    let k = value_option(a);
    if k != 0 {
        value_one(opts, args, i, k)
    } else if str_eq(a, "--goto") || str_eq(a, "-g") {
        goto_one(opts, args, i)
    } else if str_eq(a, "--") {
        push_files(opts, args, i + 1);
        Ok(len)
    } else if first_is_dash(a) {
        Err(Error::unexpected_arg(a))
    } else {
        // Any other argument is presumed to be a file.
        opts.files.push(File::new(args[i].clone()));
        assert(opts@.files =~= o.files.push((a@, None)));
        Ok(i + 1)
    }
}

impl Options {
    /// Parses the command-line arguments `args`, program name excluded.
    pub fn parse(args: &Vec<String>) -> (r: Result<Options>)
        ensures
            match parse_from(arg_views(args@), 0, default_options()) {
                Ok(v) => r matches Ok(o) && o@ == v,
                Err(a) => r matches Err(e) && error_is(e, a),
            },
    {
        let ghost av = arg_views(args@);
        let mut opts = Options::default();
        let mut i: usize = 0;
        while i < args.len()
            invariant
                av == arg_views(args@),
                i <= args@.len(),
                parse_from(av, 0, default_options()) == parse_from(av, i as int, opts@),
            decreases args@.len() - i,
        {
            let ghost o = opts@;
            match parse_one(&mut opts, args, i) {
                Ok(j) => i = j,
                Err(e) => return Err(e),
            }
        }
        Ok(opts)
    }
}

/// Returns `true` if the first character of `s` is `-`.
fn first_is_dash(s: &str) -> (r: bool)
    ensures
        r == is_dashed(s@),
{
    let cs = crate::strings::chars_of(s);
    cs.len() > 0 && cs[0] == '-'
}

} // verus!
