//! The scan orchestrator: run one search pattern over a set of resolved
//! files and report, per file, the matches found.
//!
//! Each file is an independent unit of work: its result is a pure function
//! of the pattern, the case flag and the file's contents. Files with no
//! matches are dropped, and the final list is ordered by path, so the
//! output does not depend on the order in which the files were handed in
//! or processed.

use vstd::prelude::*;

use crate::error::TeamSearchError;
use crate::matcher::{
    find_matches, match_pairs, regex_find_all, regex_valid, FileMatches,
};
use crate::member::Member;
use crate::text::{chars_le, lemma_chars_le_total, lemma_chars_le_trans, str_le};
use vstd::string::StrSliceExecFns;
use vstd::multiset::Multiset;

verus! {

broadcast use vstd::seq_lib::group_to_multiset_ensures, vstd::multiset::group_multiset_axioms;

/// The abstract content of one per-file result: path, contents, byte
/// ranges of the matches.
pub open spec fn fm_view(fm: FileMatches) -> (Seq<char>, Seq<u8>, Seq<(usize, usize)>) {
    (fm.path@, fm.contents@, match_pairs(fm.matches@))
}

/// The bytes of a member's contents.
pub open spec fn member_bytes(m: Member) -> Seq<u8> {
    vstd::utf8::encode_utf8(m.contents@)
}

/// The per-file results the scan owes, in input order, from member `i` on:
/// one record per member in which the pattern matches at all.
pub open spec fn scan_expected_from(
    pattern: Seq<char>,
    case_insensitive: bool,
    members: Seq<Member>,
    i: int,
) -> Seq<(Seq<char>, Seq<u8>, Seq<(usize, usize)>)>
    decreases members.len() - i,
{
    if i < 0 || i >= members.len() {
        Seq::empty()
    } else {
        (if regex_find_all(pattern, case_insensitive, member_bytes(members[i])).len() > 0 {
            seq![
                (
                    members[i].path@,
                    member_bytes(members[i]),
                    regex_find_all(pattern, case_insensitive, member_bytes(members[i])),
                ),
            ]
        } else {
            Seq::empty()
        }) + scan_expected_from(pattern, case_insensitive, members, i + 1)
    }
}

/// Every per-file result the scan owes.
pub open spec fn scan_expected(
    pattern: Seq<char>,
    case_insensitive: bool,
    members: Seq<Member>,
) -> Seq<(Seq<char>, Seq<u8>, Seq<(usize, usize)>)> {
    scan_expected_from(pattern, case_insensitive, members, 0)
}

/// Results ordered by path.
pub open spec fn sorted_by_path(fms: Seq<FileMatches>) -> bool {
    forall|i: int, j: int|
        0 <= i < j < fms.len() ==> chars_le((#[trigger] fms[i]).path@, (#[trigger] fms[j]).path@)
}

/// What a successful scan returns: exactly the owed per-file results (as a
/// multiset), ordered by path, each well formed and holding at least one
/// match.
pub open spec fn scan_post(
    pattern: Seq<char>,
    case_insensitive: bool,
    members: Seq<Member>,
    out: Seq<FileMatches>,
) -> bool {
    &&& out.map_values(|fm: FileMatches| fm_view(fm)).to_multiset() == scan_expected(
        pattern,
        case_insensitive,
        members,
    ).to_multiset()
    &&& sorted_by_path(out)
    &&& forall|i: int|
        0 <= i < out.len() ==> (#[trigger] out[i]).wf() && out[i].matches@.len() > 0
}

/// Order a batch of per-file results by path. The result holds exactly the
/// given records.
fn sort_by_path(v: Vec<FileMatches>) -> (r: Vec<FileMatches>)
    ensures
        r@.to_multiset() == v@.to_multiset(),
        sorted_by_path(r@),
{
    let mut out: Vec<FileMatches> = Vec::new();
    let mut rest = v;
    proof {
        assert(out@.to_multiset().add(rest@.to_multiset()) =~= v@.to_multiset());
    }
    while rest.len() > 0
        invariant
            out@.to_multiset().add(rest@.to_multiset()) == v@.to_multiset(),
            sorted_by_path(out@),
        decreases rest@.len(),
    {
        let ghost rest0 = rest@;
        let ghost out0 = out@;
        let x = rest.remove(0);
        proof {
            assert(rest@.to_multiset() =~= rest0.to_multiset().remove(x));
        }
        let mut k: usize = 0;
        while k < out.len() && str_le(out[k].path.as_str(), x.path.as_str())
            invariant
                k <= out@.len(),
                out@ == out0,
                forall|j: int| 0 <= j < k ==> chars_le((#[trigger] out@[j]).path@, x.path@),
            decreases out@.len() - k,
        {
            k = k + 1;
        }
        proof {
            if (k as int) < out@.len() {
                assert(!chars_le(out@[k as int].path@, x.path@));
                lemma_chars_le_total(out@[k as int].path@, x.path@);
            }
        }
        out.insert(k, x);
        proof {
            assert(out@.remove(k as int) =~= out0);
            assert(out@[k as int] == x);
            assert(out@.remove(k as int).to_multiset() == out@.to_multiset().remove(x));
            assert(rest0.contains(x));
            assert(out@.contains(x));
            assert(out@.to_multiset() =~= out0.to_multiset().insert(x));
            assert(out@.to_multiset().add(rest@.to_multiset()) =~= v@.to_multiset());
            assert forall|i: int, j: int| 0 <= i < j < out@.len() implies chars_le(
                (#[trigger] out@[i]).path@,
                (#[trigger] out@[j]).path@,
            ) by {
                if j < k {
                    assert(out@[i] == out0[i] && out@[j] == out0[j]);
                } else if j == k {
                    assert(out@[i] == out0[i]);
                    assert(chars_le(out0[i].path@, x.path@));
                } else {
                    assert(out@[j] == out0[j - 1]);
                    if i < k {
                        assert(out@[i] == out0[i]);
                        if (k as int) < out0.len() {
                            if i < k as int {
                                assert(chars_le(out0[i].path@, out0[j - 1].path@));
                            }
                        }
                        assert(chars_le(out0[i].path@, out0[j - 1].path@));
                    } else if i == k {
                        assert(chars_le(x.path@, out0[k as int].path@));
                        if (k as int) < j - 1 {
                            assert(chars_le(out0[k as int].path@, out0[j - 1].path@));
                            lemma_chars_le_trans(x.path@, out0[k as int].path@, out0[j - 1].path@);
                        }
                    } else {
                        assert(out@[i] == out0[i - 1]);
                        assert(chars_le(out0[i - 1].path@, out0[j - 1].path@));
                    }
                }
            }
        }
    }
    proof {
        assert(rest@.to_multiset() =~= Multiset::<FileMatches>::empty());
        assert(out@.to_multiset().add(Multiset::<FileMatches>::empty()) =~= out@.to_multiset());
    }
    out
}

/// Scan every member for the pattern. Fails, naming the pattern, exactly
/// when the pattern is not one the regex engine accepts; otherwise the
/// result holds one record per member the pattern matches in, with the
/// matches ordered by position, the records ordered by path.
pub fn scan_members(pattern: &str, case_insensitive: bool, members: Vec<Member>) -> (r: Result<
    Vec<FileMatches>,
    TeamSearchError,
>)
    ensures
        r is Ok <==> regex_valid(pattern@, case_insensitive),
        r matches Err(e) ==> (e matches TeamSearchError::InvalidPatternError(p) && p@ == pattern@),
        r matches Ok(out) ==> scan_post(pattern@, case_insensitive, members@, out@),
{
    let matcher = match crate::matcher::regex_matcher_checked(pattern, case_insensitive) {
        Ok(m) => m,
        Err(e) => {
            return Err(e);
        },
    };
    let ghost all = members@;
    let total = members.len();
    proof {
        assert(all.len() == total);
    }
    let mut rest = members;
    let mut results: Vec<FileMatches> = Vec::new();
    let mut i: usize = 0;
    proof {
        assert(results@.map_values(|fm: FileMatches| fm_view(fm)) =~= Seq::<
            (Seq<char>, Seq<u8>, Seq<(usize, usize)>),
        >::empty());
    }
    while rest.len() > 0
        invariant
            crate::matcher::matcher_pattern(matcher) == pattern@,
            crate::matcher::matcher_case_insensitive(matcher) == case_insensitive,
            i <= all.len() <= usize::MAX,
            i + rest@.len() == all.len(),
            rest@ == all.subrange(i as int, all.len() as int),
            results@.map_values(|fm: FileMatches| fm_view(fm)) + scan_expected_from(
                pattern@,
                case_insensitive,
                all,
                i as int,
            ) == scan_expected(pattern@, case_insensitive, all),
            forall|k: int|
                0 <= k < results@.len() ==> (#[trigger] results@[k]).wf()
                    && results@[k].matches@.len() > 0,
        decreases rest@.len(),
    {
        let m = rest.remove(0);
        proof {
            assert(m == all[i as int]);
            assert(rest@ =~= all.subrange(i + 1 as int, all.len() as int));
        }
        let bytes = m.contents.as_str().as_bytes_vec();
        let found = find_matches(&matcher, bytes.as_slice());
        let ghost res0 = results@.map_values(|fm: FileMatches| fm_view(fm));
        if found.len() > 0 {
            let fm = FileMatches { path: m.path, contents: bytes, matches: found };
            proof {
                assert(fm_view(fm) == (
                    all[i as int].path@,
                    member_bytes(all[i as int]),
                    regex_find_all(pattern@, case_insensitive, member_bytes(all[i as int])),
                ));
            }
            results.push(fm);
            proof {
                assert(results@.map_values(|fm: FileMatches| fm_view(fm)) =~= res0.push(
                    fm_view(fm),
                ));
                assert(res0.push(fm_view(fm)) + scan_expected_from(
                    pattern@,
                    case_insensitive,
                    all,
                    i + 1 as int,
                ) =~= res0 + scan_expected_from(pattern@, case_insensitive, all, i as int));
            }
        } else {
            proof {
                assert(scan_expected_from(pattern@, case_insensitive, all, i as int)
                    == scan_expected_from(pattern@, case_insensitive, all, i + 1 as int));
            }
        }
        i = i + 1;
    }
    proof {
        assert(results@.map_values(|fm: FileMatches| fm_view(fm)) + Seq::<
            (Seq<char>, Seq<u8>, Seq<(usize, usize)>),
        >::empty() =~= results@.map_values(|fm: FileMatches| fm_view(fm)));
    }
    let ghost unsorted = results@;
    let out = sort_by_path(results);
    proof {
        crate::scan::lemma_map_multiset_equal(out@, unsorted, |fm: FileMatches| fm_view(fm));
        assert forall|k: int| 0 <= k < out@.len() implies (#[trigger] out@[k]).wf()
            && out@[k].matches@.len() > 0 by {
            assert(out@.to_multiset().count(out@[k]) > 0);
            assert(unsorted.to_multiset().count(out@[k]) > 0);
            assert(unsorted.contains(out@[k]));
        }
    }
    Ok(out)
}

/// Result records with pairwise distinct paths.
pub open spec fn distinct_paths(rs: Seq<(Seq<char>, Seq<u8>, Seq<(usize, usize)>)>) -> bool {
    forall|i: int, j: int|
        0 <= i < j < rs.len() ==> (#[trigger] rs[i]).0 != (#[trigger] rs[j]).0
}

/// Members with pairwise distinct paths.
pub open spec fn distinct_member_paths(ms: Seq<Member>) -> bool {
    forall|i: int, j: int|
        0 <= i < j < ms.len() ==> (#[trigger] ms[i]).path@ != (#[trigger] ms[j]).path@
}

/// Over members with distinct paths, the owed results carry distinct
/// paths too, each the path of some member at or after `i`.
proof fn lemma_expected_distinct(
    pattern: Seq<char>,
    ci: bool,
    members: Seq<Member>,
    i: int,
)
    requires
        0 <= i <= members.len(),
        distinct_member_paths(members),
    ensures
        distinct_paths(scan_expected_from(pattern, ci, members, i)),
        forall|k: int|
            0 <= k < scan_expected_from(pattern, ci, members, i).len() ==> exists|l: int|
                i <= l < members.len() && (#[trigger] scan_expected_from(
                    pattern,
                    ci,
                    members,
                    i,
                )[k]).0 == members[l].path@,
    decreases members.len() - i,
{
    if i < members.len() {
        lemma_expected_distinct(pattern, ci, members, i + 1);
        let cur = scan_expected_from(pattern, ci, members, i);
        let tail = scan_expected_from(pattern, ci, members, i + 1);
        let head = cur.len() - tail.len();
        assert(head == 0 || head == 1);
        assert forall|k: int| 0 <= k < cur.len() implies exists|l: int|
            i <= l < members.len() && (#[trigger] cur[k]).0 == members[l].path@ by {
            if k < head {
                assert(cur[k].0 == members[i].path@);
            } else {
                assert(cur[k] == tail[k - head]);
                let l = choose|l: int|
                    i + 1 <= l < members.len() && tail[k - head].0 == members[l].path@;
                assert(cur[k].0 == members[l].path@);
            }
        }
        assert forall|k1: int, k2: int| 0 <= k1 < k2 < cur.len() implies (#[trigger] cur[k1]).0
            != (#[trigger] cur[k2]).0 by {
            if k1 >= head {
                assert(cur[k1] == tail[k1 - head]);
                assert(cur[k2] == tail[k2 - head]);
            } else {
                assert(cur[k1].0 == members[i].path@);
                assert(cur[k2] == tail[k2 - head]);
                let l = choose|l: int|
                    i + 1 <= l < members.len() && tail[k2 - head].0 == members[l].path@;
                assert(members[i].path@ != members[l].path@);
            }
        }
    }
}

/// Distinctness of paths carries across multiset equality: a permutation
/// of records with pairwise distinct paths has pairwise distinct paths.
proof fn lemma_distinct_paths_transfer(
    x: Seq<(Seq<char>, Seq<u8>, Seq<(usize, usize)>)>,
    z: Seq<(Seq<char>, Seq<u8>, Seq<(usize, usize)>)>,
)
    requires
        x.to_multiset() == z.to_multiset(),
        distinct_paths(z),
    ensures
        distinct_paths(x),
{
    x.to_multiset_ensures();
    z.to_multiset_ensures();
    assert(z.no_duplicates());
    z.lemma_multiset_has_no_duplicates();
    assert forall|i: int, j: int| 0 <= i < j < x.len() implies (#[trigger] x[i]).0
        != (#[trigger] x[j]).0 by {
        if x[i].0 == x[j].0 {
            if x[i] == x[j] {
                let s0 = x.subrange(0, j);
                let s1 = x.subrange(j, x.len() as int);
                assert(x =~= s0 + s1);
                vstd::seq_lib::lemma_multiset_commutative(s0, s1);
                s0.to_multiset_ensures();
                s1.to_multiset_ensures();
                assert(s0.contains(x[i])) by {
                    assert(s0[i] == x[i]);
                }
                assert(s1.contains(x[j])) by {
                    assert(s1[0] == x[j]);
                }
                assert(x.to_multiset().count(x[i]) >= 2);
                assert(z.to_multiset().contains(x[i]));
                assert(false);
            } else {
                assert(x.contains(x[i]));
                assert(z.to_multiset().count(x[i]) > 0);
                assert(z.contains(x[i]));
                assert(x.contains(x[j]));
                assert(z.to_multiset().count(x[j]) > 0);
                assert(z.contains(x[j]));
                let k1 = choose|k: int| 0 <= k < z.len() && z[k] == x[i];
                let k2 = choose|k: int| 0 <= k < z.len() && z[k] == x[j];
                assert(k1 != k2);
                assert(z[k1].0 == z[k2].0);
                assert(false);
            }
        }
    }
}

/// Two lists of records that hold the same records, both ordered by
/// path, with the paths of the first pairwise distinct, are equal.
proof fn lemma_sorted_distinct_unique(
    x: Seq<(Seq<char>, Seq<u8>, Seq<(usize, usize)>)>,
    y: Seq<(Seq<char>, Seq<u8>, Seq<(usize, usize)>)>,
)
    requires
        x.to_multiset() == y.to_multiset(),
        forall|i: int, j: int|
            0 <= i < j < x.len() ==> chars_le((#[trigger] x[i]).0, (#[trigger] x[j]).0),
        forall|i: int, j: int|
            0 <= i < j < y.len() ==> chars_le((#[trigger] y[i]).0, (#[trigger] y[j]).0),
        distinct_paths(x),
    ensures
        x == y,
    decreases x.len(),
{
    x.to_multiset_ensures();
    y.to_multiset_ensures();
    if x.len() == 0 {
        assert(y.len() == 0);
        assert(x =~= y);
    } else {
        assert(y.len() == x.len());
        assert(y.contains(y[0]));
        assert(x.to_multiset().count(y[0]) > 0);
        assert(x.contains(y[0]));
        let i = choose|i: int| 0 <= i < x.len() && x[i] == y[0];
        assert(x.contains(x[0]));
        assert(y.to_multiset().count(x[0]) > 0);
        assert(y.contains(x[0]));
        let j = choose|j: int| 0 <= j < y.len() && y[j] == x[0];
        assert(chars_le(x[0].0, x[i].0)) by {
            if i == 0 {
                crate::text::lemma_chars_le_refl(x[0].0);
            }
        }
        assert(chars_le(y[0].0, y[j].0)) by {
            if j == 0 {
                crate::text::lemma_chars_le_refl(y[0].0);
            }
        }
        assert(chars_le(x[0].0, y[0].0));
        assert(chars_le(y[0].0, x[0].0));
        crate::text::lemma_chars_le_antisym(x[0].0, y[0].0);
        assert(x[i].0 == x[0].0);
        assert(i == 0);
        assert(x[0] == y[0]);
        let x1 = x.remove(0);
        let y1 = y.remove(0);
        assert(x1.to_multiset() == x.to_multiset().remove(x[0]));
        assert(y1.to_multiset() == y.to_multiset().remove(y[0]));
        assert forall|k1: int, k2: int| 0 <= k1 < k2 < x1.len() implies chars_le(
            (#[trigger] x1[k1]).0,
            (#[trigger] x1[k2]).0,
        ) by {
            assert(x1[k1] == x[k1 + 1]);
            assert(x1[k2] == x[k2 + 1]);
        }
        assert forall|k1: int, k2: int| 0 <= k1 < k2 < y1.len() implies chars_le(
            (#[trigger] y1[k1]).0,
            (#[trigger] y1[k2]).0,
        ) by {
            assert(y1[k1] == y[k1 + 1]);
            assert(y1[k2] == y[k2 + 1]);
        }
        assert forall|k1: int, k2: int| 0 <= k1 < k2 < x1.len() implies (#[trigger] x1[k1]).0
            != (#[trigger] x1[k2]).0 by {
            assert(x1[k1] == x[k1 + 1]);
            assert(x1[k2] == x[k2 + 1]);
        }
        lemma_sorted_distinct_unique(x1, y1);
        assert forall|k: int| 0 <= k < x.len() implies x[k] == y[k] by {
            if k > 0 {
                assert(x1[k - 1] == y1[k - 1]);
                assert(x[k] == x1[k - 1]);
                assert(y[k] == y1[k - 1]);
            }
        }
        assert(x =~= y);
    }
}

/// Dropping the first member shifts the owed results' start index.
proof fn lemma_expected_shift(
    pattern: Seq<char>,
    ci: bool,
    members: Seq<Member>,
    j: int,
)
    requires
        1 <= j <= members.len(),
    ensures
        scan_expected_from(pattern, ci, members, j) == scan_expected_from(
            pattern,
            ci,
            members.drop_first(),
            j - 1,
        ),
    decreases members.len() - j,
{
    if j < members.len() {
        lemma_expected_shift(pattern, ci, members, j + 1);
        assert(members.drop_first()[j - 1] == members[j]);
    }
}

/// The owed results of concatenated member lists are the owed results of
/// each, concatenated.
proof fn lemma_expected_concat(pattern: Seq<char>, ci: bool, a: Seq<Member>, b: Seq<Member>)
    ensures
        scan_expected(pattern, ci, a + b) == scan_expected(pattern, ci, a) + scan_expected(
            pattern,
            ci,
            b,
        ),
    decreases a.len(),
{
    if a.len() == 0 {
        assert(a + b =~= b);
        assert(scan_expected(pattern, ci, a) + scan_expected(pattern, ci, b) =~= scan_expected(
            pattern,
            ci,
            b,
        ));
    } else {
        assert((a + b)[0] == a[0]);
        if (a + b).len() > 1 {
            lemma_expected_shift(pattern, ci, a + b, 1);
        }
        assert((a + b).drop_first() =~= a.drop_first() + b);
        lemma_expected_concat(pattern, ci, a.drop_first(), b);
        if a.len() > 1 || b.len() > 0 {
            assert(scan_expected_from(pattern, ci, a + b, 1) == scan_expected(
                pattern,
                ci,
                a.drop_first() + b,
            ));
        } else {
            assert(scan_expected_from(pattern, ci, a + b, 1) =~= scan_expected(
                pattern,
                ci,
                a.drop_first() + b,
            ));
        }
        lemma_expected_shift(pattern, ci, a, 1);
        assert(scan_expected(pattern, ci, a + b) =~= (scan_expected(pattern, ci, a)
            + scan_expected(pattern, ci, b)));
    }
}

/// Owed results of one fixed file set: member lists holding the same
/// files hold the same owed results.
proof fn lemma_expected_permutation(
    pattern: Seq<char>,
    ci: bool,
    m1: Seq<Member>,
    m2: Seq<Member>,
)
    requires
        m1.to_multiset() == m2.to_multiset(),
    ensures
        scan_expected(pattern, ci, m1).to_multiset() == scan_expected(
            pattern,
            ci,
            m2,
        ).to_multiset(),
    decreases m1.len(),
{
    m1.to_multiset_ensures();
    m2.to_multiset_ensures();
    if m1.len() == 0 {
        assert(m2.len() == 0);
        assert(scan_expected(pattern, ci, m1) =~= scan_expected(pattern, ci, m2));
    } else {
        let e = m1[0];
        assert(m1.contains(e));
        assert(m2.to_multiset().count(e) > 0);
        assert(m2.contains(e));
        let j = choose|j: int| 0 <= j < m2.len() && m2[j] == e;
        let s0 = m2.subrange(0, j);
        let s2 = m2.subrange(j + 1, m2.len() as int);
        assert(m2 =~= s0 + (seq![e] + s2));
        lemma_expected_concat(pattern, ci, s0, seq![e] + s2);
        lemma_expected_concat(pattern, ci, seq![e], s2);
        assert(scan_expected(pattern, ci, m2) == scan_expected(pattern, ci, s0) + (scan_expected(
            pattern,
            ci,
            seq![e],
        ) + scan_expected(pattern, ci, s2)));
        let m1r = m1.drop_first();
        assert(m1 =~= seq![e] + m1r);
        lemma_expected_concat(pattern, ci, seq![e], m1r);
        let m2r = s0 + s2;
        assert(m2.remove(j) =~= m2r);
        assert(m2r.to_multiset() == m2.to_multiset().remove(e));
        assert(m1r =~= m1.remove(0));
        assert(m1.remove(0).to_multiset() == m1.to_multiset().remove(e));
        lemma_expected_permutation(pattern, ci, m1r, m2r);
        lemma_expected_concat(pattern, ci, s0, s2);
        let he = scan_expected(pattern, ci, seq![e]);
        let e0 = scan_expected(pattern, ci, s0);
        let e2 = scan_expected(pattern, ci, s2);
        vstd::seq_lib::lemma_multiset_commutative(e0, he + e2);
        vstd::seq_lib::lemma_multiset_commutative(he, e2);
        vstd::seq_lib::lemma_multiset_commutative(he, scan_expected(pattern, ci, m1r));
        vstd::seq_lib::lemma_multiset_commutative(e0, e2);
        assert(scan_expected(pattern, ci, m1).to_multiset() =~= scan_expected(
            pattern,
            ci,
            m2,
        ).to_multiset());
    }
}

/// Scan determinism: over one fixed set of files with distinct paths —
/// the same members, in whatever processing order — two successful scans
/// of the same pattern yield identical sorted results.
pub proof fn lemma_scan_deterministic(
    pattern: Seq<char>,
    case_insensitive: bool,
    members1: Seq<Member>,
    members2: Seq<Member>,
    o1: Seq<FileMatches>,
    o2: Seq<FileMatches>,
)
    requires
        scan_post(pattern, case_insensitive, members1, o1),
        scan_post(pattern, case_insensitive, members2, o2),
        distinct_member_paths(members1),
        members1.to_multiset() == members2.to_multiset(),
    ensures
        o1.map_values(|fm: FileMatches| fm_view(fm)) == o2.map_values(|fm: FileMatches| fm_view(fm)),
{
    let v1 = o1.map_values(|fm: FileMatches| fm_view(fm));
    let v2 = o2.map_values(|fm: FileMatches| fm_view(fm));
    let expected = scan_expected(pattern, case_insensitive, members1);
    lemma_expected_permutation(pattern, case_insensitive, members1, members2);
    lemma_expected_distinct(pattern, case_insensitive, members1, 0);
    lemma_distinct_paths_transfer(v1, expected);
    assert forall|i: int, j: int| 0 <= i < j < v1.len() implies chars_le(
        (#[trigger] v1[i]).0,
        (#[trigger] v1[j]).0,
    ) by {
        assert(v1[i] == fm_view(o1[i]));
        assert(v1[j] == fm_view(o1[j]));
    }
    assert forall|i: int, j: int| 0 <= i < j < v2.len() implies chars_le(
        (#[trigger] v2[i]).0,
        (#[trigger] v2[j]).0,
    ) by {
        assert(v2[i] == fm_view(o2[i]));
        assert(v2[j] == fm_view(o2[j]));
    }
    lemma_sorted_distinct_unique(v1, v2);
}

/// Two lists with the same records map to the same records.
pub proof fn lemma_map_multiset_equal<A, B>(x: Seq<A>, y: Seq<A>, f: spec_fn(A) -> B)
    requires
        x.to_multiset() == y.to_multiset(),
    ensures
        x.map_values(f).to_multiset() == y.map_values(f).to_multiset(),
    decreases x.len(),
{
    x.to_multiset_ensures();
    y.to_multiset_ensures();
    if x.len() == 0 {
        assert(y.len() == 0);
        assert(x.map_values(f) =~= y.map_values(f));
    } else {
        let e = x[0];
        assert(x.contains(e));
        assert(x.to_multiset().count(e) > 0);
        assert(y.to_multiset().count(e) > 0);
        assert(y.contains(e));
        let j = choose|j: int| 0 <= j < y.len() && y[j] == e;
        let x1 = x.remove(0);
        let y1 = y.remove(j);
        assert(x1.to_multiset() == x.to_multiset().remove(e));
        assert(y1.to_multiset() == y.to_multiset().remove(e));
        lemma_map_multiset_equal(x1, y1, f);
        assert(x1.map_values(f) =~= x.map_values(f).remove(0));
        assert(y1.map_values(f) =~= y.map_values(f).remove(j));
        assert(x.map_values(f).remove(0).to_multiset() == x.map_values(f).to_multiset().remove(
            f(e),
        ));
        assert(y.map_values(f)[j] == f(e));
        assert(y.map_values(f).remove(j).to_multiset() == y.map_values(f).to_multiset().remove(
            f(e),
        ));
        assert(x.map_values(f).contains(f(e))) by {
            assert(x.map_values(f)[0] == f(e));
        }
        assert(y.map_values(f).contains(f(e))) by {
            assert(y.map_values(f)[j] == f(e));
        }
        assert(x.map_values(f).to_multiset().count(f(e)) > 0);
        assert(y.map_values(f).to_multiset().count(f(e)) > 0);
        assert(x.map_values(f).to_multiset() =~= y.map_values(f).to_multiset()) by {
            let mx = x.map_values(f).to_multiset();
            let my = y.map_values(f).to_multiset();
            assert(mx.remove(f(e)) == my.remove(f(e)));
            assert forall|b: B| true implies mx.count(b) == my.count(b) by {
                if b == f(e) {
                    assert(mx.count(b) == mx.remove(f(e)).count(b) + 1);
                    assert(my.count(b) == my.remove(f(e)).count(b) + 1);
                } else {
                    assert(mx.count(b) == mx.remove(f(e)).count(b));
                    assert(my.count(b) == my.remove(f(e)).count(b));
                }
            }
        }
    }
}

} // verus!
