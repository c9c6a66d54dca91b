//! The clipboard local to the editor.
//!
//! Text copied to the _global_ clipboard, the one of the operating system, goes
//! through the caller; this one holds what is copied locally.

use vstd::prelude::*;

verus! {

/// Which clipboard a copy or a paste uses.
#[derive(Copy, Clone, PartialEq, Eq, Structural, Debug)]
pub enum Scope {
    /// The clipboard local to the editor.
    Local,
    /// The clipboard of the operating system.
    Global,
}

/// The clipboard local to the editor.
pub struct Clipboard {
    local: Option<Vec<char>>,
}

impl Clipboard {
    /// The text on the clipboard, if any.
    pub closed spec fn text(&self) -> Option<Seq<char>> {
        match self.local {
            Some(v) => Some(v@),
            None => None,
        }
    }

    /// Creates an empty clipboard.
    pub fn new() -> (c: Clipboard)
        ensures
            c.text() is None,
    {
        Clipboard { local: None }
    }

    /// Puts `text` on the clipboard.
    pub fn set_text(&mut self, text: Vec<char>)
        ensures
            final(self).text() == Some(text@),
    {
        self.local = Some(text);
    }

    /// Returns a copy of the text on the clipboard, if any.
    pub fn get_text(&self) -> (r: Option<Vec<char>>)
        ensures
            r matches Some(t) ==> self.text() == Some(t@),
            r is None ==> self.text() is None,
    {
        match &self.local {
            Some(v) => {
                let t = v.clone();
                assert(t@ =~= v@);
                Some(t)
            },
            None => None,
        }
    }
}

} // verus!
