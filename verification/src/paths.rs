//! Verified path utilities: component splitting, the common root of a set
//! of paths, and order-preserving deduplication — plus a trusted wrapper
//! around the lexical path normalizer of the `path-absolutize` crate.
//!
//! Paths here are plain strings with `/` as the separator. A path's
//! components are a leading root marker, when the path is absolute, and
//! its non-empty segments between separators.

use vstd::prelude::*;

use crate::text::str_eq;
use vstd::string::StrSliceExecFns;
use vstd::string::StringExecFns;

verus! {

/// What `path_absolutize`'s `absolutize_from` computes: the path resolved
/// lexically against the given root directory.
pub uninterp spec fn absolutized(path: Seq<char>, root: Seq<char>) -> Seq<char>;

/// Relies on `path_absolutize::Absolutize::absolutize_from` for `Path`: a
/// purely lexical resolution of the path against the given root — it
/// touches neither the filesystem nor the environment — so its result is
/// a function of the two strings alone (with `/` as the separator).
#[verifier::external_body]
pub fn normalize_path_to(path: &str, project_root: &str) -> (r: String)
    ensures
        r@ == absolutized(path@, project_root@),
{
    path_absolutize::Absolutize::absolutize_from(
        std::path::Path::new(path),
        std::path::Path::new(project_root),
    ).to_string_lossy().into_owned()
}

/// The end of the path segment starting at `i`: the first `/` at or after
/// `i`, or the end.
pub open spec fn seg_end(p: Seq<char>, i: int) -> int
    decreases p.len() - i,
{
    if i < 0 || i >= p.len() {
        i
    } else if p[i] == '/' {
        i
    } else {
        seg_end(p, i + 1)
    }
}

proof fn lemma_seg_end(p: Seq<char>, i: int)
    requires
        0 <= i <= p.len(),
    ensures
        i <= seg_end(p, i) <= p.len(),
        forall|j: int| i <= j < seg_end(p, i) ==> p[j] != '/',
        seg_end(p, i) < p.len() ==> p[seg_end(p, i)] == '/',
    decreases p.len() - i,
{
    if i < p.len() && p[i] != '/' {
        lemma_seg_end(p, i + 1);
    }
}

/// The first index at or after `i` that does not hold a `/`.
pub open spec fn skip_slashes(p: Seq<char>, i: int) -> int
    decreases p.len() - i,
{
    if i < 0 || i >= p.len() {
        i
    } else if p[i] == '/' {
        skip_slashes(p, i + 1)
    } else {
        i
    }
}

proof fn lemma_skip_slashes(p: Seq<char>, i: int)
    requires
        0 <= i <= p.len(),
    ensures
        i <= skip_slashes(p, i) <= p.len(),
        skip_slashes(p, i) < p.len() ==> p[skip_slashes(p, i)] != '/',
    decreases p.len() - i,
{
    if i < p.len() && p[i] == '/' {
        lemma_skip_slashes(p, i + 1);
    }
}

/// The non-empty segments of the path from index `i` on.
pub open spec fn segments_from(p: Seq<char>, i: int) -> Seq<Seq<char>>
    decreases p.len() - i via segments_from_decreases
{
    if i < 0 || i >= p.len() {
        Seq::empty()
    } else {
        let j = skip_slashes(p, i);
        if j >= p.len() {
            Seq::empty()
        } else {
            seq![p.subrange(j, seg_end(p, j))] + segments_from(p, seg_end(p, j))
        }
    }
}

#[via_fn]
proof fn segments_from_decreases(p: Seq<char>, i: int) {
    if 0 <= i < p.len() {
        lemma_skip_slashes(p, i);
        if skip_slashes(p, i) < p.len() {
            lemma_seg_end(p, skip_slashes(p, i));
        }
    }
}

/// The components of a path: a root marker when it is absolute, then its
/// segments.
pub open spec fn path_components(p: Seq<char>) -> Seq<Seq<char>> {
    (if p.len() > 0 && p[0] == '/' {
        seq!["/"@]
    } else {
        Seq::empty()
    }) + segments_from(p, 0)
}

/// The longest common prefix of two component lists.
pub open spec fn common_prefix(a: Seq<Seq<char>>, b: Seq<Seq<char>>) -> Seq<Seq<char>>
    decreases a.len(),
{
    if a.len() == 0 || b.len() == 0 {
        Seq::empty()
    } else if a[0] == b[0] {
        seq![a[0]] + common_prefix(a.drop_first(), b.drop_first())
    } else {
        Seq::empty()
    }
}

/// Components joined back into a path string.
pub open spec fn join_from(cs: Seq<Seq<char>>, i: int) -> Seq<char>
    decreases cs.len() - i,
{
    if i < 0 || i >= cs.len() {
        Seq::empty()
    } else if i == cs.len() - 1 {
        cs[i]
    } else {
        cs[i] + "/"@ + join_from(cs, i + 1)
    }
}

/// A component list rendered as a path: the root marker, if present,
/// followed by the segments separated by `/`.
pub open spec fn join_components(cs: Seq<Seq<char>>) -> Seq<char> {
    if cs.len() == 0 {
        Seq::empty()
    } else if cs[0] == "/"@ {
        "/"@ + join_from(cs, 1)
    } else {
        join_from(cs, 0)
    }
}

/// The common prefix of all the paths' components, folded from path `i`
/// on.
pub open spec fn common_components_from(paths: Seq<Seq<char>>, i: int, acc: Seq<Seq<char>>) -> Seq<
    Seq<char>,
>
    decreases paths.len() - i,
{
    if i < 0 || i >= paths.len() {
        acc
    } else {
        common_components_from(paths, i + 1, common_prefix(acc, path_components(paths[i])))
    }
}

/// The common root of a non-empty list of paths: a single path is
/// returned verbatim; with two or more, the longest component prefix
/// shared by all of them, rendered as a path string.
pub open spec fn spec_common_root(paths: Seq<Seq<char>>) -> Seq<char> {
    if paths.len() == 1 {
        paths[0]
    } else {
        join_components(common_components_from(paths, 1, path_components(paths[0])))
    }
}

/// The components of one path.
fn path_components_exec(p: &str) -> (r: Vec<String>)
    ensures
        r@.map_values(|c: String| c@) == path_components(p@),
{
    let len = p.unicode_len();
    let mut out: Vec<String> = Vec::new();
    if len > 0 && p.get_char(0) == '/' {
        out.push("/".to_owned());
    }
    let ghost marker = out@.map_values(|c: String| c@);
    let mut i: usize = 0;
    proof {
        assert(marker + segments_from(p@, 0) =~= path_components(p@));
    }
    while i < len
        invariant
            len == p@.len(),
            i <= len,
            out@.map_values(|c: String| c@) + segments_from(p@, i as int) == path_components(p@),
        decreases len - i,
    {
        if p.get_char(i) == '/' {
            proof {
                assert(skip_slashes(p@, i as int) == skip_slashes(p@, i + 1 as int));
                assert(segments_from(p@, i as int) == segments_from(p@, i + 1 as int));
            }
            i = i + 1;
        } else {
            let start = i;
            while i < len && p.get_char(i) != '/'
                invariant
                    len == p@.len(),
                    start <= i <= len,
                    forall|j: int| start <= j < i ==> p@[j] != '/',
                decreases len - i,
            {
                i = i + 1;
            }
            proof {
                lemma_seg_end(p@, start as int);
                assert(i == seg_end(p@, start as int));
                assert(skip_slashes(p@, start as int) == start as int);
            }
            let seg = p.substring_char(start, i).to_owned();
            let ghost before = out@.map_values(|c: String| c@);
            out.push(seg);
            proof {
                assert(out@.map_values(|c: String| c@) =~= before + seq![
                    p@.subrange(start as int, i as int),
                ]);
                assert(segments_from(p@, start as int) == seq![
                    p@.subrange(start as int, i as int),
                ] + segments_from(p@, i as int));
                assert(out@.map_values(|c: String| c@) + segments_from(p@, i as int)
                    =~= before + segments_from(p@, start as int));
            }
        }
    }
    proof {
        assert(out@.map_values(|c: String| c@) =~= path_components(p@));
    }
    out
}

/// The longest common prefix of two component lists.
fn common_prefix_exec(a: &Vec<String>, b: &Vec<String>) -> (r: Vec<String>)
    ensures
        r@.map_values(|c: String| c@) == common_prefix(
            a@.map_values(|c: String| c@),
            b@.map_values(|c: String| c@),
        ),
{
    let ghost av = a@.map_values(|c: String| c@);
    let ghost bv = b@.map_values(|c: String| c@);
    let mut out: Vec<String> = Vec::new();
    let mut i: usize = 0;
    let n = if a.len() < b.len() {
        a.len()
    } else {
        b.len()
    };
    while i < n && str_eq(a[i].as_str(), b[i].as_str())
        invariant
            n <= a@.len(),
            n <= b@.len(),
            av == a@.map_values(|c: String| c@),
            bv == b@.map_values(|c: String| c@),
            i <= n,
            forall|j: int| 0 <= j < i ==> av[j] == bv[j],
            out@.map_values(|c: String| c@) == av.subrange(0, i as int),
        decreases n - i,
    {
        let ghost before = out@.map_values(|c: String| c@);
        out.push(a[i].clone());
        proof {
            assert(out@.map_values(|c: String| c@) =~= before.push(av[i as int]));
            assert(before.push(av[i as int]) =~= av.subrange(0, i + 1 as int));
        }
        i = i + 1;
    }
    proof {
        lemma_common_prefix_of_agreeing(av, bv, i as int);
        assert(out@.map_values(|c: String| c@) =~= common_prefix(av, bv));
    }
    out
}

/// If two lists agree exactly on their first `i` entries and differ at
/// `i` (or one ends there), their common prefix is those `i` entries.
proof fn lemma_common_prefix_of_agreeing(a: Seq<Seq<char>>, b: Seq<Seq<char>>, i: int)
    requires
        0 <= i <= a.len(),
        i <= b.len(),
        forall|j: int| 0 <= j < i ==> a[j] == b[j],
        i < a.len() && i < b.len() ==> a[i] != b[i],
    ensures
        common_prefix(a, b) == a.subrange(0, i),
    decreases i,
{
    if i == 0 {
        if a.len() > 0 && b.len() > 0 && a[0] == b[0] {
        }
        assert(common_prefix(a, b) =~= a.subrange(0, 0));
    } else {
        assert(a.len() > 0 && b.len() > 0 && a[0] == b[0]);
        assert(forall|j: int|
            0 <= j < i - 1 ==> #[trigger] a.drop_first()[j] == b.drop_first()[j]);
        if i - 1 < a.drop_first().len() && i - 1 < b.drop_first().len() {
            assert(a.drop_first()[i - 1] == a[i]);
        }
        lemma_common_prefix_of_agreeing(a.drop_first(), b.drop_first(), i - 1);
        assert(common_prefix(a, b) == seq![a[0]] + a.drop_first().subrange(0, i - 1));
        assert(seq![a[0]] + a.drop_first().subrange(0, i - 1) =~= a.subrange(0, i));
    }
}

/// Components joined back into one path string.
fn join_components_exec(cs: &Vec<String>) -> (r: String)
    ensures
        r@ == join_components(cs@.map_values(|c: String| c@)),
{
    let ghost cv = cs@.map_values(|c: String| c@);
    if cs.len() == 0 {
        return String::new();
    }
    let mut out = String::new();
    let mut i: usize = 0;
    if str_eq(cs[0].as_str(), "/") {
        out.append("/");
        i = 1;
        proof {
            assert(cv[0] == "/"@);
        }
    }
    if i == cs.len() {
        proof {
            assert(join_from(cv, i as int) =~= Seq::<char>::empty());
            assert(out@ =~= join_components(cv));
        }
        return out;
    }
    while i < cs.len()
        invariant
            i <= cs@.len(),
            cv == cs@.map_values(|c: String| c@),
            i < cs@.len() ==> out@ + join_from(cv, i as int) == join_components(cv),
            i == cs@.len() ==> out@ == join_components(cv),
        decreases cs@.len() - i,
    {
        out.append(cs[i].as_str());
        if i + 1 < cs.len() {
            out.append("/");
        }
        i = i + 1;
    }
    out
}

/// The common root of a non-empty list of paths: a single path verbatim,
/// else the longest leading run of components every path shares.
pub fn common_root(paths: &Vec<String>) -> (r: String)
    requires
        paths@.len() > 0,
    ensures
        r@ == spec_common_root(paths@.map_values(|p: String| p@)),
{
    let ghost pv = paths@.map_values(|p: String| p@);
    if paths.len() == 1 {
        return paths[0].clone();
    }
    let mut acc = path_components_exec(paths[0].as_str());
    let mut i: usize = 1;
    while i < paths.len()
        invariant
            1 <= i <= paths@.len(),
            pv == paths@.map_values(|p: String| p@),
            common_components_from(pv, i as int, acc@.map_values(|c: String| c@))
                == common_components_from(pv, 1, path_components(pv[0])),
        decreases paths@.len() - i,
    {
        let comps = path_components_exec(paths[i].as_str());
        acc = common_prefix_exec(&acc, &comps);
        i = i + 1;
    }
    join_components_exec(&acc)
}

/// The strings kept from index `i` on: each one only at its first
/// occurrence.
pub open spec fn dedup_from(items: Seq<Seq<char>>, i: int, acc: Seq<Seq<char>>) -> Seq<Seq<char>>
    decreases items.len() - i,
{
    if i < 0 || i >= items.len() {
        acc
    } else {
        dedup_from(
            items,
            i + 1,
            if acc.contains(items[i]) {
                acc
            } else {
                acc.push(items[i])
            },
        )
    }
}

/// The distinct strings of the list, each at its first occurrence, in
/// order.
pub open spec fn spec_dedup(items: Seq<Seq<char>>) -> Seq<Seq<char>> {
    dedup_from(items, 0, Seq::empty())
}

/// Whether the list holds this string.
pub fn contains_string(items: &Vec<String>, s: &str) -> (r: bool)
    ensures
        r == items@.map_values(|t: String| t@).contains(s@),
{
    let ghost iv = items@.map_values(|t: String| t@);
    let mut i: usize = 0;
    while i < items.len()
        invariant
            i <= items@.len(),
            iv == items@.map_values(|t: String| t@),
            forall|j: int| 0 <= j < i ==> iv[j] != s@,
        decreases items@.len() - i,
    {
        if str_eq(items[i].as_str(), s) {
            proof {
                assert(iv[i as int] == s@);
            }
            return true;
        }
        i = i + 1;
    }
    proof {
        if iv.contains(s@) {
            let k = choose|k: int| 0 <= k < iv.len() && iv[k] == s@;
        }
    }
    false
}

/// The list with later duplicates removed, keeping first occurrences, in
/// order.
pub fn dedup_strings(items: Vec<String>) -> (r: Vec<String>)
    ensures
        r@.map_values(|t: String| t@) == spec_dedup(items@.map_values(|t: String| t@)),
{
    let ghost iv = items@.map_values(|t: String| t@);
    let item_count = items.len();
    proof {
        assert(iv.len() == item_count);
    }
    let mut rest = items;
    let mut out: Vec<String> = Vec::new();
    let mut i: usize = 0;
    proof {
        assert(out@.map_values(|t: String| t@) =~= Seq::<Seq<char>>::empty());
    }
    while rest.len() > 0
        invariant
            i <= iv.len() <= usize::MAX,
            i + rest@.len() == iv.len(),
            rest@.map_values(|t: String| t@) == iv.subrange(i as int, iv.len() as int),
            dedup_from(iv, i as int, out@.map_values(|t: String| t@)) == spec_dedup(iv),
        decreases rest@.len(),
    {
        let ghost restv = rest@.map_values(|t: String| t@);
        let s = rest.remove(0);
        proof {
            assert(restv[0] == iv[i as int]);
            assert(s@ == iv[i as int]);
            assert(rest@.map_values(|t: String| t@) =~= restv.drop_first());
            assert(restv.drop_first() =~= iv.subrange(i + 1 as int, iv.len() as int));
        }
        let ghost before = out@.map_values(|t: String| t@);
        if !contains_string(&out, s.as_str()) {
            out.push(s);
            proof {
                assert(out@.map_values(|t: String| t@) =~= before.push(iv[i as int]));
            }
        }
        i = i + 1;
    }
    proof {
        assert(rest@.map_values(|t: String| t@).len() == 0);
    }
    out
}

} // verus!
