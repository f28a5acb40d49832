//! The lookup command's core: for each queried path, the teams that own
//! it.

use vstd::prelude::*;

use crate::codeowners::CodeOwners;

verus! {

/// One lookup result: a path and the teams owning it (empty when
/// unowned).
#[derive(Debug)]
pub struct LookupEntry {
    /// The teams owning the path, in first-declaration order.
    pub teams: Vec<String>,
    /// The path of the entry.
    pub path: String,
}

/// The owners of each queried path, one entry per path, in input order.
pub fn lookup_paths(codeowners: &CodeOwners, paths: &Vec<String>) -> (r: Vec<LookupEntry>)
    requires
        codeowners.wf(),
    ensures
        r@.len() == paths@.len(),
        forall|i: int|
            0 <= i < r@.len() ==> {
                &&& (#[trigger] r@[i]).path@ == paths@[i]@
                &&& r@[i].teams@.map_values(|t: String| t@) == codeowners.spec_lookup(paths@[i]@)
            },
{
    let mut out: Vec<LookupEntry> = Vec::new();
    let mut i: usize = 0;
    while i < paths.len()
        invariant
            codeowners.wf(),
            i <= paths@.len(),
            out@.len() == i,
            forall|k: int|
                0 <= k < i ==> {
                    &&& (#[trigger] out@[k]).path@ == paths@[k]@
                    &&& out@[k].teams@.map_values(|t: String| t@) == codeowners.spec_lookup(
                        paths@[k]@,
                    )
                },
        decreases paths@.len() - i,
    {
        let teams = codeowners.lookup(paths[i].as_str());
        out.push(LookupEntry { teams, path: paths[i].clone() });
        i = i + 1;
    }
    out
}

} // verus!
