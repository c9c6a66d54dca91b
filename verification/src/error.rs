//! A complete collection of errors.
//!
//! Errors hold plain values only: the descriptions of operating-system and I/O
//! failures arrive as text from the code that performed the I/O.

use crate::strings::{decimal, push_decimal, push_str, to_string};
use vstd::prelude::*;

verus! {

/// The set of possible errors.
#[derive(Debug)]
pub enum Error {
    /// An I/O error reported by the operating system.
    Os { cause: String },
    /// An I/O error resulting from an operation on a file referenced by `path`.
    Io { path: String, cause: String },
    /// A UTF-8 encoding/decoding error with the offending sequence of `bytes`.
    Utf8 { bytes: Vec<u8>, cause: String },
    /// An unexpected command-line argument `arg`.
    UnexpectedArg { arg: String },
    /// A value is expected for a command-line argument `arg`.
    ExpectedValue { arg: String },
    /// A `value` given for a command-line argument `arg` is not valid.
    InvalidValue { arg: String, value: String },
    /// A location is expected for a command-line argument `arg`.
    ExpectedLocation { arg: String },
    /// A location `value` given for a command-line argument `arg` is not valid.
    InvalidLocation { arg: String, value: String },
    /// A `key` name given in a key binding is not valid.
    InvalidKey { key: String },
    /// An operation `op` given in a key binding is not valid.
    InvalidOp { op: String },
    /// A `key_seq` is restricted from being rebound.
    RestrictedKey { key_seq: String },
    /// An error occurred while parsing a configuration file referenced by `path`.
    Configuration { path: String, cause: String },
    /// An error occurred while parsing a syntax file referenced by `path`.
    Syntax { path: String, cause: String },
    /// A regular expression `pattern` is invalid or too large in compiled form.
    InvalidRegex { pattern: String, cause: String },
    /// The color `name` is not valid.
    InvalidColor { name: String },
    /// A part `value` of a location is not a valid number.
    ParseLocation { value: String },
    /// Any other error, described by `message`.
    General { message: String },
}

/// A convenient `Result` type whose error type is [`Error`].
pub type Result<T> = core::result::Result<T, Error>;

impl Error {
    /// An operating-system error described by `cause`.
    pub fn os(cause: &str) -> (e: Error)
        ensures
            e matches Error::Os { cause: c } && c@ == cause@,
    {
        Error::Os { cause: to_string(cause) }
    }

    /// A copy of an operating-system error described by `cause`.
    pub fn os_cloning(cause: &String) -> (e: Error)
        ensures
            e matches Error::Os { cause: c } && c@ == cause@,
    {
        Error::Os { cause: to_string(cause.as_str()) }
    }

    pub fn io(path: &str, cause: &str) -> (e: Error)
        ensures
            e matches Error::Io { path: p, cause: c } && p@ == path@ && c@ == cause@,
    {
        Error::Io { path: to_string(path), cause: to_string(cause) }
    }

    pub fn utf8(bytes: &[u8], cause: &str) -> (e: Error)
        ensures
            e matches Error::Utf8 { bytes: b, cause: c } && b@ == bytes@ && c@ == cause@,
    {
        Error::Utf8 { bytes: slice_to_vec(bytes), cause: to_string(cause) }
    }

    pub fn unexpected_arg(arg: &str) -> (e: Error)
        ensures
            e matches Error::UnexpectedArg { arg: a } && a@ == arg@,
    {
        Error::UnexpectedArg { arg: to_string(arg) }
    }

    pub fn expected_value(arg: &str) -> (e: Error)
        ensures
            e matches Error::ExpectedValue { arg: a } && a@ == arg@,
    {
        Error::ExpectedValue { arg: to_string(arg) }
    }

    pub fn invalid_value(arg: &str, value: &str) -> (e: Error)
        ensures
            e matches Error::InvalidValue { arg: a, value: v } && a@ == arg@ && v@ == value@,
    {
        Error::InvalidValue { arg: to_string(arg), value: to_string(value) }
    }

    pub fn expected_location(arg: &str) -> (e: Error)
        ensures
            e matches Error::ExpectedLocation { arg: a } && a@ == arg@,
    {
        Error::ExpectedLocation { arg: to_string(arg) }
    }

    pub fn invalid_location(arg: &str, value: &str) -> (e: Error)
        ensures
            e matches Error::InvalidLocation { arg: a, value: v } && a@ == arg@ && v@ == value@,
    {
        Error::InvalidLocation { arg: to_string(arg), value: to_string(value) }
    }

    pub fn invalid_key(key: &str) -> (e: Error)
        ensures
            e matches Error::InvalidKey { key: k } && k@ == key@,
    {
        Error::InvalidKey { key: to_string(key) }
    }

    pub fn invalid_op(op: &str) -> (e: Error)
        ensures
            e matches Error::InvalidOp { op: o } && o@ == op@,
    {
        Error::InvalidOp { op: to_string(op) }
    }

    pub fn restricted_key(key_seq: &str) -> (e: Error)
        ensures
            e matches Error::RestrictedKey { key_seq: k } && k@ == key_seq@,
    {
        Error::RestrictedKey { key_seq: to_string(key_seq) }
    }

    /// A configuration error in the file `path`, where `cause` is the parser's
    /// description.
    pub fn configuration(path: &str, cause: &str) -> (e: Error)
        ensures
            e matches Error::Configuration { path: p, cause: c } && p@ == path@ && c@ == cause@,
    {
        Error::Configuration { path: to_string(path), cause: to_string(cause) }
    }

    /// A syntax configuration error in the file `path`, where `cause` is the parser's
    /// description.
    pub fn syntax(path: &str, cause: &str) -> (e: Error)
        ensures
            e matches Error::Syntax { path: p, cause: c } && p@ == path@ && c@ == cause@,
    {
        Error::Syntax { path: to_string(path), cause: to_string(cause) }
    }

    /// An invalid regular expression `pattern`, where `cause` is the regex compiler's
    /// description.
    pub fn invalid_regex(pattern: &str, cause: &str) -> (e: Error)
        ensures
            e matches Error::InvalidRegex { pattern: p, cause: c } && p@ == pattern@ && c@
                == cause@,
    {
        Error::InvalidRegex { pattern: to_string(pattern), cause: to_string(cause) }
    }

    pub fn invalid_color(name: &str) -> (e: Error)
        ensures
            e matches Error::InvalidColor { name: n } && n@ == name@,
    {
        Error::InvalidColor { name: to_string(name) }
    }

    pub fn parse_location(value: &str) -> (e: Error)
        ensures
            e matches Error::ParseLocation { value: v } && v@ == value@,
    {
        Error::ParseLocation { value: to_string(value) }
    }

    pub fn general(message: &str) -> (e: Error)
        ensures
            e matches Error::General { message: m } && m@ == message@,
    {
        Error::General { message: to_string(message) }
    }
}

/// The bytes `b` as a list of decimal numbers separated by `, `.
pub open spec fn byte_list(b: Seq<u8>) -> Seq<char>
    decreases b.len(),
{
    if b.len() == 0 {
        Seq::empty()
    } else if b.len() == 1 {
        decimal(b[0] as nat)
    } else {
        byte_list(b.drop_last()) + ", "@ + decimal(b.last() as nat)
    }
}

/// The text that reports the error `e`.
pub open spec fn error_text(e: Error) -> Seq<char> {
    match e {
        Error::Os { cause } => "I/O error: "@ + cause@,
        Error::Io { path, cause } => path@ + ": "@ + cause@,
        Error::Utf8 { bytes, cause } => "["@ + byte_list(bytes@) + "]: "@ + cause@,
        Error::UnexpectedArg { arg } => arg@ + ": unexpected argument"@,
        Error::ExpectedValue { arg } => arg@ + ": expecting value to follow"@,
        Error::InvalidValue { arg, value } => value@ + ": invalid value following "@ + arg@,
        Error::ExpectedLocation { arg } => arg@ + ": expecting location to follow"@,
        Error::InvalidLocation { arg, value } => value@ + ": invalid location following "@ + arg@,
        Error::InvalidKey { key } => key@ + ": invalid key"@,
        Error::InvalidOp { op } => op@ + ": invalid operation"@,
        Error::RestrictedKey { key_seq } => key_seq@ + ": key sequence cannot be rebound"@,
        Error::Configuration { path, cause } => path@ + ": configuration error: "@ + cause@,
        Error::Syntax { path, cause } => path@ + ": syntax configuration error: "@ + cause@,
        Error::InvalidRegex { pattern, cause } => pattern@ + ": invalid regular expression: "@ + cause@,
        Error::InvalidColor { name } => name@ + ": invalid color"@,
        Error::ParseLocation { value } => value@ + ": invalid location"@,
        Error::General { message } => message@,
    }
}

/// Appends the bytes `b` as a list of decimal numbers separated by `, `.
fn push_byte_list(s: &mut String, b: &Vec<u8>)
    ensures
        final(s)@ == old(s)@ + byte_list(b@),
{
    let mut i: usize = 0;
    while i < b.len()
        invariant
            0 <= i <= b@.len(),
            s@ == old(s)@ + byte_list(b@.take(i as int)),
        decreases b@.len() - i,
    {
        let ghost before = s@;
        if i > 0 {
            push_str(s, ", ");
        }
        push_decimal(s, b[i] as u64);
        proof {
            let t = b@.take(i + 1);
            assert(t.drop_last() =~= b@.take(i as int));
            assert(t.last() == b@[i as int]);
            if i == 0 {
                assert(b@.take(0) =~= Seq::<u8>::empty());
            }
        }
        i = i + 1;
    }
    assert(b@.take(b@.len() as int) =~= b@);
}

/// Appends `a` and `b` to a new string.
fn pair(a: &str, b: &str) -> (s: String)
    ensures
        s@ == a@ + b@,
{
    let mut s = String::new();
    push_str(&mut s, a);
    push_str(&mut s, b);
    assert(s@ =~= a@ + b@);
    s
}

/// Appends `a`, `b` and `c` to a new string.
fn joined(a: &str, b: &str, c: &str) -> (s: String)
    ensures
        s@ == a@ + b@ + c@,
{
    let mut s = String::new();
    push_str(&mut s, a);
    push_str(&mut s, b);
    push_str(&mut s, c);
    assert(s@ =~= a@ + b@ + c@);
    s
}

impl Error {
    /// Returns the text that reports this error.
    pub fn message(&self) -> (s: String)
        ensures
            s@ == error_text(*self),
    {
        match self {
            Error::Os { cause } => pair("I/O error: ", cause.as_str()),
            Error::Io { path, cause } => joined(path.as_str(), ": ", cause.as_str()),
            Error::Utf8 { bytes, cause } => {
                let mut s = String::new();
                push_str(&mut s, "[");
                push_byte_list(&mut s, bytes);
                push_str(&mut s, "]: ");
                push_str(&mut s, cause.as_str());
                assert(s@ =~= "["@ + byte_list(bytes@) + "]: "@ + cause@);
                s
            },
            Error::UnexpectedArg { arg } => pair(arg.as_str(), ": unexpected argument"),
            Error::ExpectedValue { arg } => pair(arg.as_str(), ": expecting value to follow"),
            Error::InvalidValue { arg, value } => joined(value.as_str(), ": invalid value following ", arg.as_str()),
            Error::ExpectedLocation { arg } => pair(arg.as_str(), ": expecting location to follow"),
            Error::InvalidLocation { arg, value } => joined(value.as_str(), ": invalid location following ", arg.as_str()),
            Error::InvalidKey { key } => pair(key.as_str(), ": invalid key"),
            Error::InvalidOp { op } => pair(op.as_str(), ": invalid operation"),
            Error::RestrictedKey { key_seq } => pair(key_seq.as_str(), ": key sequence cannot be rebound"),
            Error::Configuration { path, cause } => joined(path.as_str(), ": configuration error: ", cause.as_str()),
            Error::Syntax { path, cause } => joined(path.as_str(), ": syntax configuration error: ", cause.as_str()),
            Error::InvalidRegex { pattern, cause } => joined(
                pattern.as_str(),
                ": invalid regular expression: ",
                cause.as_str(),
            ),
            Error::InvalidColor { name } => pair(name.as_str(), ": invalid color"),
            Error::ParseLocation { value } => pair(value.as_str(), ": invalid location"),
            Error::General { message } => to_string(message.as_str()),
        }
    }
}

/// Returns a vector holding the bytes of `s`.
fn slice_to_vec(s: &[u8]) -> (v: Vec<u8>)
    ensures
        v@ == s@,
{
    let mut v: Vec<u8> = Vec::new();
    let mut i: usize = 0;
    while i < s.len()
        invariant
            0 <= i <= s@.len(),
            v@ == s@.take(i as int),
        decreases s@.len() - i,
    {
        v.push(s[i]);
        i = i + 1;
        assert(v@ =~= s@.take(i as int));
    }
    assert(s@.take(s@.len() as int) =~= s@);
    v
}

} // verus!
