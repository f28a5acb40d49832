//! Filtering of walked candidate files against a resolution plan.
//!
//! Directory traversal itself is an outside concern: whoever walks the
//! requested roots hands the candidates in here, as root-relative paths
//! under the same anchoring convention the manifest patterns use. A
//! candidate is retained exactly when it matches the includes set and
//! matches neither exclude set — exclusion is never overridden by
//! inclusion — and its path was not already retained (the result is
//! deduplicated, keeping first occurrences, in input order).

use vstd::prelude::*;

use crate::globs::set_matches;
use crate::settings::FileResolverSettings;
use crate::text::str_eq;

verus! {

/// A filesystem entry that survived the includes/exclude filtering:
/// discovered directly under an invocation root, or via recursive descent
/// (the distinction scopes nested-ignore-file discovery in the walker).
#[derive(Debug)]
pub enum ResolvedFile {
    Root(String),
    Nested(String),
}

impl Clone for ResolvedFile {
    fn clone(&self) -> (r: Self)
        ensures
            r == *self,
    {
        match self {
            ResolvedFile::Root(p) => ResolvedFile::Root(p.clone()),
            ResolvedFile::Nested(p) => ResolvedFile::Nested(p.clone()),
        }
    }
}

impl ResolvedFile {
    /// The path of the entry.
    pub open spec fn path_view(&self) -> Seq<char> {
        match self {
            ResolvedFile::Root(p) => p@,
            ResolvedFile::Nested(p) => p@,
        }
    }

    /// The path of the entry.
    pub fn path(&self) -> (r: &String)
        ensures
            r@ == self.path_view(),
    {
        match self {
            ResolvedFile::Root(p) => p,
            ResolvedFile::Nested(p) => p,
        }
    }
}

/// Whether a candidate path is kept by the plan: it must match the includes
/// set and neither exclude set.
pub open spec fn retained(
    includes: Seq<Seq<char>>,
    exclude: Seq<Seq<char>>,
    user_exclude: Seq<Seq<char>>,
    path: Seq<char>,
) -> bool {
    &&& set_matches(includes, path)
    &&& !set_matches(exclude, path)
    &&& !set_matches(user_exclude, path)
}

/// Whether some already-kept entry has this path.
pub open spec fn contains_path(files: Seq<ResolvedFile>, path: Seq<char>) -> bool {
    exists|k: int| 0 <= k < files.len() && (#[trigger] files[k]).path_view() == path
}

/// The entries kept from candidate `i` on, given what was kept before.
pub open spec fn resolve_from(
    includes: Seq<Seq<char>>,
    exclude: Seq<Seq<char>>,
    user_exclude: Seq<Seq<char>>,
    candidates: Seq<ResolvedFile>,
    i: int,
    acc: Seq<ResolvedFile>,
) -> Seq<ResolvedFile>
    decreases candidates.len() - i,
{
    if i < 0 || i >= candidates.len() {
        acc
    } else {
        let keep = retained(includes, exclude, user_exclude, candidates[i].path_view())
            && !contains_path(acc, candidates[i].path_view());
        resolve_from(
            includes,
            exclude,
            user_exclude,
            candidates,
            i + 1,
            if keep {
                acc.push(candidates[i])
            } else {
                acc
            },
        )
    }
}

/// The deduplicated, ordered sequence of entries the plan keeps.
pub open spec fn spec_resolve(
    includes: Seq<Seq<char>>,
    exclude: Seq<Seq<char>>,
    user_exclude: Seq<Seq<char>>,
    candidates: Seq<ResolvedFile>,
) -> Seq<ResolvedFile> {
    resolve_from(includes, exclude, user_exclude, candidates, 0, Seq::empty())
}

/// Whether some kept entry has the given path.
fn has_path(files: &Vec<ResolvedFile>, path: &str) -> (r: bool)
    ensures
        r == contains_path(files@, path@),
{
    let mut i: usize = 0;
    while i < files.len()
        invariant
            i <= files@.len(),
            forall|k: int| 0 <= k < i ==> (#[trigger] files@[k]).path_view() != path@,
        decreases files@.len() - i,
    {
        if str_eq(files[i].path().as_str(), path) {
            return true;
        }
        i = i + 1;
    }
    false
}

/// Apply the plan's includes/exclude filters to the walked candidates,
/// yielding the retained entries, deduplicated by path, in input order.
pub fn resolve_candidates(plan: &FileResolverSettings, candidates: Vec<ResolvedFile>) -> (r: Vec<
    ResolvedFile,
>)
    requires
        plan.wf(),
    ensures
        r@ == spec_resolve(plan.includes@, plan.exclude@, plan.user_exclude@, candidates@),
{
    let ghost all = candidates@;
    let ghost inc = plan.includes@;
    let ghost exc = plan.exclude@;
    let ghost uexc = plan.user_exclude@;
    let candidate_count = candidates.len();
    proof {
        assert(all.len() == candidate_count);
    }
    let mut rest = candidates;
    let mut out: Vec<ResolvedFile> = Vec::new();
    let mut i: usize = 0;
    while rest.len() > 0
        invariant
            plan.wf(),
            inc == plan.includes@,
            exc == plan.exclude@,
            uexc == plan.user_exclude@,
            i <= all.len() <= usize::MAX,
            i + rest@.len() == all.len(),
            rest@ == all.subrange(i as int, all.len() as int),
            resolve_from(inc, exc, uexc, all, i as int, out@) == spec_resolve(
                inc,
                exc,
                uexc,
                all,
            ),
        decreases rest@.len(),
    {
        let f = rest.remove(0);
        proof {
            assert(f == all[i as int]);
            assert(rest@ =~= all.subrange(i + 1 as int, all.len() as int));
        }
        let keep = plan.includes.is_match(f.path().as_str()) && !plan.exclude.is_match(
            f.path().as_str(),
        ) && !plan.user_exclude.is_match(f.path().as_str()) && !has_path(&out, f.path().as_str());
        if keep {
            out.push(f);
        }
        i = i + 1;
    }
    proof {
        assert(rest@.len() == 0);
    }
    out
}

} // verus!
