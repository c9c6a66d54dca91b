//! Path conventions: the working directory as `.`, base directories, and paths
//! shown relative to the home directory.
//!
//! Reading the environment and the file system is the caller's part; these
//! functions take the paths that it found.

use crate::strings::{chars_of, push_str, string_views, to_string};
use crate::sort::{entry_views, sort_by_name, sorted_by_name};
use crate::help::bare_entries;
use vstd::prelude::*;

verus! {

/// What std's `Path::parent` gives for `path`: the path without its last
/// component, or `None` for a root or an empty path.
pub uninterp spec fn path_parent(path: Seq<char>) -> Option<Seq<char>>;

/// What std's `Path::file_name` gives for `path`: its last component, unless it is
/// `..`, or `None`.
pub uninterp spec fn path_file_name(path: Seq<char>) -> Option<Seq<char>>;

/// What std's `Path::extension` gives for `path`: the part of its file name after
/// the last `.`, unless the name starts with its only `.`, or `None`.
pub uninterp spec fn path_extension(path: Seq<char>) -> Option<Seq<char>>;

/// The extension of `path` (std's `Path::extension`), as a string.
///
/// The result is named by [`path_extension`]; how std splits the file name is left
/// unsaid.
#[verifier::external_body]
pub(crate) fn extension_of(path: &str) -> (r: Option<String>)
    ensures
        match r {
            Some(e) => path_extension(path@) == Some(e@),
            None => path_extension(path@) is None,
        },
{
    std::path::Path::new(path).extension().map(|e| e.to_string_lossy().to_string())
}

/// The parent of `path` (std's `Path::parent`), as a string.
///
/// The result is named by [`path_parent`]; how std splits components is left
/// unsaid.
#[verifier::external_body]
fn parent_of(path: &str) -> (r: Option<String>)
    ensures
        match r {
            Some(p) => path_parent(path@) == Some(p@),
            None => path_parent(path@) is None,
        },
{
    std::path::Path::new(path).parent().map(|p| p.display().to_string())
}

/// The last component of `path` (std's `Path::file_name`), as a string.
///
/// The result is named by [`path_file_name`]; how std splits components is left
/// unsaid.
#[verifier::external_body]
fn file_name_of(path: &str) -> (r: Option<String>)
    ensures
        match r {
            Some(p) => path_file_name(path@) == Some(p@),
            None => path_file_name(path@) is None,
        },
{
    std::path::Path::new(path).file_name().map(|n| n.to_string_lossy().to_string())
}

/// The path of the working directory as it is written: `.`.
pub open spec fn this_dir_spec() -> Seq<char> {
    "."@
}

/// Returns the path `.`.
pub fn this_dir() -> (s: String)
    ensures
        s@ == this_dir_spec(),
{
    to_string(".")
}

/// The base directory of `path`: its parent, or `.` where the parent is empty; a
/// path without a parent is its own base directory, and the empty path's is `.`.
pub open spec fn base_dir_of(path: Seq<char>) -> Seq<char> {
    match path_parent(path) {
        Some(parent) => if parent.len() == 0 { this_dir_spec() } else { parent },
        None => if path.len() == 0 { this_dir_spec() } else { path },
    }
}

/// Returns the base directory of `path`.
pub fn base_dir(path: &str) -> (s: String)
    ensures
        s@ == base_dir_of(path@),
{
    match parent_of(path) {
        Some(parent) => {
            if chars_of(parent.as_str()).len() == 0 {
                this_dir()
            } else {
                parent
            }
        },
        None => {
            if chars_of(path).len() == 0 {
                this_dir()
            } else {
                to_string(path)
            }
        },
    }
}

/// The file name of `path`, or the path itself where it has none.
pub open spec fn file_name_spec(path: Seq<char>) -> Seq<char> {
    match path_file_name(path) {
        Some(n) => n,
        None => path,
    }
}

/// Returns the file name of `path`, or the path itself where it has none.
pub fn file_name(path: &str) -> (s: String)
    ensures
        s@ == file_name_spec(path@),
{
    match file_name_of(path) {
        Some(n) => n,
        None => to_string(path),
    }
}

/// `path` with the home directory `home` in front replaced by `~`: the rest, or
/// `~/` where nothing follows; `path` itself where it does not start with `home`.
pub open spec fn pretty_path_of(path: Seq<char>, home: Seq<char>) -> Seq<char> {
    if home.is_prefix_of(path) {
        let suffix = path.skip(home.len() as int);
        if suffix.len() > 0 {
            "~"@ + suffix
        } else {
            "~/"@
        }
    } else {
        path
    }
}

/// Returns `path` with the home directory `home` in front replaced by `~`.
pub fn pretty_path(path: &str, home: &str) -> (s: String)
    ensures
        s@ == pretty_path_of(path@, home@),
{
    let p = chars_of(path);
    let h = chars_of(home);
    if h.len() > p.len() {
        return to_string(path);
    }
    let mut i: usize = 0;
    while i < h.len()
        invariant
            h@.len() <= p@.len(),
            i <= h@.len(),
            forall|k: int| 0 <= k < i ==> p@[k] == h@[k],
            p@ == path@,
            h@ == home@,
        decreases h@.len() - i,
    {
        if p[i] != h[i] {
            assert(!home@.is_prefix_of(path@));
            return to_string(path);
        }
        i = i + 1;
    }
    assert(home@.is_prefix_of(path@));
    if p.len() > h.len() {
        let mut s = to_string("~");
        let mut k = h.len();
        while k < p.len()
            invariant
                h@.len() <= k <= p@.len(),
                s@ == "~"@ + p@.subrange(h@.len() as int, k as int),
            decreases p@.len() - k,
        {
            crate::strings::push_char(&mut s, p[k]);
            k = k + 1;
            assert(s@ =~= "~"@ + p@.subrange(h@.len() as int, k as int));
        }
        assert(p@.subrange(h@.len() as int, p@.len() as int) =~= path@.skip(home@.len() as int));
        s
    } else {
        assert(path@.skip(home@.len() as int).len() == 0);
        to_string("~/")
    }
}

/// The path `path` taken against its base directory, and that directory, where
/// `is_dir` tells whether `path` names a directory: a directory is its own base;
/// a path with a parent has that parent; a bare name, or the empty path, is taken
/// in `.`; a path without a parent, such as a root, is its own base.
pub open spec fn extracted(path: Seq<char>, is_dir: bool) -> (Seq<char>, Seq<char>) {
    if is_dir {
        (path, path)
    } else {
        match path_parent(path) {
            Some(parent) => if parent.len() == 0 {
                ("./"@ + path, this_dir_spec())
            } else {
                (path, parent)
            },
            None => if path.len() == 0 {
                ("./"@ + path, this_dir_spec())
            } else {
                (path, path)
            },
        }
    }
}

/// Returns `path` taken against its base directory, and that directory, as
/// [`extracted`] says; `is_dir` tells whether `path` names a directory, which the
/// caller finds out.
pub fn extract_dir(path: &str, is_dir: bool) -> (r: (String, String))
    ensures
        (r.0@, r.1@) == extracted(path@, is_dir),
{
    if is_dir {
        return (to_string(path), to_string(path));
    }
    let bare = match parent_of(path) {
        Some(parent) => chars_of(parent.as_str()).len() == 0,
        None => chars_of(path).len() == 0,
    };
    if bare {
        let mut p = to_string("./");
        push_str(&mut p, path);
        (p, this_dir())
    } else {
        match parent_of(path) {
            Some(parent) => (to_string(path), parent),
            None => (to_string(path), to_string(path)),
        }
    }
}

/// Returns `paths` in lexicographic order of their characters, which for the
/// entries of one directory is the order of their names.
pub fn sorted_paths(paths: &Vec<String>) -> (r: Vec<String>)
    ensures
        exists|sorted: Seq<(Seq<char>, Seq<char>)>|
            sorted_by_name(sorted) && sorted.to_multiset() == bare_entries(string_views(paths@)).to_multiset()
                && string_views(r@) == sorted.map_values(|e: (Seq<char>, Seq<char>)| e.0),
{
    let mut entries: Vec<(String, String)> = Vec::new();
    let mut i: usize = 0;
    while i < paths.len()
        invariant
            i <= paths@.len(),
            entries@.len() == i,
            entry_views(entries@) == bare_entries(string_views(paths@)).take(i as int),
        decreases paths@.len() - i,
    {
        let ghost before = entries@;
        entries.push((to_string(paths[i].as_str()), String::new()));
        assert forall|j: int| 0 <= j < i + 1 implies #[trigger] entry_views(entries@)[j]
            == bare_entries(string_views(paths@))[j] by {
            if j < i {
                assert(entries@[j] == before[j]);
                assert(entry_views(before)[j] == bare_entries(string_views(paths@)).take(i as int)[j]);
            }
        }
        assert(entry_views(entries@) =~= bare_entries(string_views(paths@)).take(i + 1));
        i = i + 1;
    }
    assert(bare_entries(string_views(paths@)).take(paths@.len() as int) =~= bare_entries(string_views(paths@)));
    let sorted = sort_by_name(&entries);
    let mut out: Vec<String> = Vec::new();
    let mut k: usize = 0;
    while k < sorted.len()
        invariant
            k <= sorted@.len(),
            out@.len() == k,
            string_views(out@) == entry_views(sorted@).map_values(|e: (Seq<char>, Seq<char>)| e.0).take(k as int),
        decreases sorted@.len() - k,
    {
        let ghost before = out@;
        out.push(to_string(sorted[k].0.as_str()));
        assert forall|j: int| 0 <= j < k + 1 implies #[trigger] string_views(out@)[j]
            == entry_views(sorted@).map_values(|e: (Seq<char>, Seq<char>)| e.0).take(k + 1)[j] by {
            if j < k {
                assert(out@[j] == before[j]);
                assert(string_views(before)[j] == entry_views(sorted@).map_values(|e: (Seq<char>, Seq<char>)| e.0).take(k as int)[j]);
            }
        }
        assert(string_views(out@) =~= entry_views(sorted@).map_values(|e: (Seq<char>, Seq<char>)| e.0).take(k + 1));
        k = k + 1;
    }
    assert(entry_views(sorted@).map_values(|e: (Seq<char>, Seq<char>)| e.0).take(sorted@.len() as int)
        =~= entry_views(sorted@).map_values(|e: (Seq<char>, Seq<char>)| e.0));
    out
}

} // verus!
