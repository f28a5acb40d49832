//! The tool's version information.

use vstd::prelude::*;

use vstd::string::StringExecFns;

verus! {

/// Information about the commit the tool was built from, when known.
#[derive(Debug)]
pub struct CommitInfo {
    pub short_commit_hash: String,
    pub commit_date: String,
}

/// The tool's version, with commit information when built from a
/// repository.
#[derive(Debug)]
pub struct VersionInfo {
    /// The crate version.
    pub version: String,
    /// `None` when not built from a repository, or when retrieval failed.
    pub commit_info: Option<CommitInfo>,
}

impl VersionInfo {
    /// The version rendered for display:
    /// `<version>` or `<version> (<commit> <date>)`.
    pub fn render(&self) -> (r: String)
        ensures
            self.commit_info is None ==> r@ == self.version@,
            self.commit_info matches Some(ci) ==> r@ == self.version@ + " ("@
                + ci.short_commit_hash@ + " "@ + ci.commit_date@ + ")"@,
    {
        let mut out = self.version.clone();
        match &self.commit_info {
            Option::None => out,
            Option::Some(ci) => {
                out.append(" (");
                out.append(ci.short_commit_hash.as_str());
                out.append(" ");
                out.append(ci.commit_date.as_str());
                out.append(")");
                out
            },
        }
    }
}

/// The version of this build. Commit information is not recorded here.
pub fn version() -> (r: VersionInfo)
    ensures
        r.version@ == "0.1.0"@,
        r.commit_info is None,
{
    VersionInfo { version: "0.1.0".to_owned(), commit_info: Option::None }
}

} // verus!
