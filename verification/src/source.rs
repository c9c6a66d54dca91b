//! Sources of editor content.

use crate::strings::{push_str, to_string};
use crate::sys::{pretty_path, pretty_path_of};
use vstd::prelude::*;

verus! {

#[verifier::external_type_specification]
#[verifier::external_body]
pub struct ExSystemTime(std::time::SystemTime);

/// Where the content of an editor comes from.
#[derive(Clone)]
pub enum Source {
    /// No source.
    Null,
    /// A file: its path, and the time it was last modified, or `None` for a new
    /// file.
    File(String, Option<std::time::SystemTime>),
    /// An ephemeral source with a name.
    Ephemeral(String),
}

/// How `source` is shown, with paths under the home directory `home` shortened.
pub open spec fn source_text(source: Source, home: Seq<char>) -> Seq<char> {
    match source {
        Source::Null => "?null"@,
        Source::File(path, _) => pretty_path_of(path@, home),
        Source::Ephemeral(name) => "@"@ + name@,
    }
}

impl Source {
    /// A file source with `path` and `timestamp`.
    pub fn as_file(path: &str, timestamp: Option<std::time::SystemTime>) -> (s: Source)
        ensures
            s matches Source::File(p, t) && p@ == path@ && t == timestamp,
    {
        Source::File(to_string(path), timestamp)
    }

    /// An ephemeral source called `name`.
    pub fn as_ephemeral(name: &str) -> (s: Source)
        ensures
            s matches Source::Ephemeral(n) && n@ == name@,
    {
        Source::Ephemeral(to_string(name))
    }

    /// Returns `true` for a file source.
    pub fn is_file(&self) -> (b: bool)
        ensures
            b == (self is File),
    {
        match self {
            Source::File(_, _) => true,
            _ => false,
        }
    }

    /// Returns `true` for an ephemeral source.
    pub fn is_ephemeral(&self) -> (b: bool)
        ensures
            b == (self is Ephemeral),
    {
        match self {
            Source::Ephemeral(_) => true,
            _ => false,
        }
    }

    /// Returns how the source is shown: `?null`, the path with the home directory
    /// `home` shortened to `~`, or `@` and the name.
    pub fn text(&self, home: &str) -> (s: String)
        ensures
            s@ == source_text(*self, home@),
    {
        match self {
            Source::Null => to_string("?null"),
            Source::File(path, _) => pretty_path(path.as_str(), home),
            Source::Ephemeral(name) => {
                let mut s = to_string("@");
                push_str(&mut s, name.as_str());
                s
            },
        }
    }
}

} // verus!
