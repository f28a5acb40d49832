//! A member of the scanned workspace: one file together with its contents.

use vstd::prelude::*;

verus! {

/// One file that is being processed: its path and its raw text.
pub struct Member {
    /// The path of the member, normalized by the caller's convention.
    pub path: String,
    /// The file contents of the member.
    pub contents: String,
}

impl Member {
    /// A new member with the given contents.
    pub fn new(path: String, contents: String) -> (r: Self)
        ensures
            r.path == path,
            r.contents == contents,
    {
        Member { path, contents }
    }
}

} // verus!
