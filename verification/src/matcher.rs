//! Pattern matching over file contents.
//!
//! The regex engine is the `grep-regex` crate, reached through trusted
//! wrappers: what a pattern matches in given bytes is a function of the
//! pattern, the case-sensitivity flag and the bytes alone, so the engine's
//! answer is given the name [`regex_find_all`]. Everything downstream
//! (collecting matches, building per-file results, extracting snippets) is
//! verified against that name.

use vstd::prelude::*;

use crate::error::TeamSearchError;
use vstd::slice::{slice_subrange, slice_to_vec};

verus! {

#[verifier::external_type_specification]
#[verifier::external_body]
pub struct ExRegexMatcher(grep_regex::RegexMatcher);

#[verifier::external_type_specification]
#[verifier::external_body]
pub struct ExGrepRegexError(grep_regex::Error);

/// Whether `grep_regex::RegexMatcherBuilder::build` accepts this pattern.
pub uninterp spec fn regex_valid(pattern: Seq<char>, case_insensitive: bool) -> bool;

/// The pattern a compiled matcher was built from.
pub uninterp spec fn matcher_pattern(m: grep_regex::RegexMatcher) -> Seq<char>;

/// The case-sensitivity flag a compiled matcher was built with.
pub uninterp spec fn matcher_case_insensitive(m: grep_regex::RegexMatcher) -> bool;

/// Every match of the pattern in the haystack, as half-open byte ranges
/// ordered by position.
pub uninterp spec fn regex_find_all(
    pattern: Seq<char>,
    case_insensitive: bool,
    haystack: Seq<u8>,
) -> Seq<(usize, usize)>;

/// Relies on `grep_regex::RegexMatcherBuilder::{new, case_insensitive,
/// build}`: compiling depends on the pattern string and the flag alone, it
/// succeeds exactly on patterns the engine accepts, and the compiled
/// matcher keeps what it was built from.
#[verifier::external_body]
fn regex_matcher_new(pattern: &str, case_insensitive: bool) -> (r: Result<
    grep_regex::RegexMatcher,
    grep_regex::Error,
>)
    ensures
        r is Ok <==> regex_valid(pattern@, case_insensitive),
        r matches Ok(m) ==> matcher_pattern(m) == pattern@ && matcher_case_insensitive(m)
            == case_insensitive,
{
    grep_regex::RegexMatcherBuilder::new().case_insensitive(case_insensitive).build(pattern)
}

/// Relies on `grep_matcher::Matcher::try_find_iter` for
/// `grep_regex::RegexMatcher` (whose search cannot fail: its error type is
/// uninhabited): it reports successive non-overlapping matches, in order of
/// position, each within the haystack's bounds. The closure only collects
/// the reported ranges.
#[verifier::external_body]
fn regex_find_matches(m: &grep_regex::RegexMatcher, haystack: &[u8]) -> (r: Vec<(usize, usize)>)
    ensures
        r@ == regex_find_all(matcher_pattern(*m), matcher_case_insensitive(*m), haystack@),
        forall|i: int| 0 <= i < r@.len() ==> (#[trigger] r@[i]).0 <= r@[i].1 <= haystack@.len(),
        forall|i: int, j: int| 0 <= i < j < r@.len() ==> (#[trigger] r@[i]).1 <= (#[trigger] r@[j]).0,
{
    let mut out: Vec<(usize, usize)> = Vec::new();
    let _ = grep_matcher::Matcher::try_find_iter::<_, std::convert::Infallible>(
        m,
        haystack,
        |mm: grep_matcher::Match| {
            out.push((mm.start(), mm.end()));
            Ok(true)
        },
    );
    out
}

/// A compiled matcher for the pattern, or
/// [`TeamSearchError::InvalidPatternError`] naming the pattern the engine
/// refused.
pub fn regex_matcher_checked(pattern: &str, case_insensitive: bool) -> (r: Result<
    grep_regex::RegexMatcher,
    TeamSearchError,
>)
    ensures
        r is Ok <==> regex_valid(pattern@, case_insensitive),
        r matches Ok(m) ==> matcher_pattern(m) == pattern@ && matcher_case_insensitive(m)
            == case_insensitive,
        r matches Err(e) ==> (e matches TeamSearchError::InvalidPatternError(p) && p@ == pattern@),
{
    match regex_matcher_new(pattern, case_insensitive) {
        Ok(m) => Ok(m),
        Err(_) => Err(TeamSearchError::InvalidPatternError(pattern.to_owned())),
    }
}

/// A match found within one file: a half-open byte range of its contents.
#[derive(Debug, Clone, Copy, PartialEq, Eq, Structural)]
pub struct Match {
    /// The start of the match.
    pub start: usize,
    /// The end of the match.
    pub end: usize,
}

impl Match {
    pub fn new(start: usize, end: usize) -> (r: Self)
        ensures
            r == (Match { start, end }),
    {
        Match { start, end }
    }
}

/// The byte ranges of a list of matches.
pub open spec fn match_pairs(ms: Seq<Match>) -> Seq<(usize, usize)> {
    ms.map_values(|m: Match| (m.start, m.end))
}

/// One reported match together with the matched bytes themselves.
#[derive(Debug, Clone)]
pub struct MatchSnippet {
    /// The start of the match.
    pub start: usize,
    /// The end of the match.
    pub end: usize,
    /// The bytes that were matched.
    pub snippet: Vec<u8>,
}

/// The result of searching one file: its path, its full contents (kept for
/// later rendering), and the matches found, ordered by position.
#[derive(Debug, Clone)]
pub struct FileMatches {
    /// The path of the file that was searched.
    pub path: String,
    /// The contents of the file that was scanned.
    pub contents: Vec<u8>,
    /// The matches found within the file.
    pub matches: Vec<Match>,
}

impl FileMatches {
    /// Matches lie within the contents, in order of position, without
    /// overlapping.
    pub open spec fn wf(&self) -> bool {
        &&& forall|i: int|
            0 <= i < self.matches@.len() ==> (#[trigger] self.matches@[i]).start
                <= self.matches@[i].end <= self.contents@.len()
        &&& forall|i: int, j: int|
            0 <= i < j < self.matches@.len() ==> (#[trigger] self.matches@[i]).end
                <= (#[trigger] self.matches@[j]).start
    }

    /// The number of matches found within the file.
    pub fn len(&self) -> (r: usize)
        ensures
            r == self.matches@.len(),
    {
        self.matches.len()
    }

    /// Whether the file has no matches at all.
    pub fn is_empty(&self) -> (r: bool)
        ensures
            r == (self.matches@.len() == 0),
    {
        self.matches.is_empty()
    }

    /// Each match with the bytes it covers, in order of position.
    pub fn snippets(&self) -> (r: Vec<MatchSnippet>)
        requires
            self.wf(),
        ensures
            r@.len() == self.matches@.len(),
            forall|i: int|
                0 <= i < r@.len() ==> {
                    &&& (#[trigger] r@[i]).start == self.matches@[i].start
                    &&& r@[i].end == self.matches@[i].end
                    &&& r@[i].snippet@ == self.contents@.subrange(
                        self.matches@[i].start as int,
                        self.matches@[i].end as int,
                    )
                },
    {
        let mut out: Vec<MatchSnippet> = Vec::new();
        let mut i: usize = 0;
        while i < self.matches.len()
            invariant
                i <= self.matches@.len(),
                self.wf(),
                out@.len() == i,
                forall|k: int|
                    0 <= k < i ==> {
                        &&& (#[trigger] out@[k]).start == self.matches@[k].start
                        &&& out@[k].end == self.matches@[k].end
                        &&& out@[k].snippet@ == self.contents@.subrange(
                            self.matches@[k].start as int,
                            self.matches@[k].end as int,
                        )
                    },
            decreases self.matches@.len() - i,
        {
            let m = self.matches[i];
            let piece = slice_subrange(self.contents.as_slice(), m.start, m.end);
            out.push(MatchSnippet { start: m.start, end: m.end, snippet: slice_to_vec(piece) });
            i = i + 1;
        }
        out
    }
}

/// Every match of the compiled matcher in the given contents, ordered by
/// position, as [`Match`] values.
pub fn find_matches(matcher: &grep_regex::RegexMatcher, contents: &[u8]) -> (r: Vec<Match>)
    ensures
        match_pairs(r@) == regex_find_all(
            matcher_pattern(*matcher),
            matcher_case_insensitive(*matcher),
            contents@,
        ),
        forall|i: int|
            0 <= i < r@.len() ==> (#[trigger] r@[i]).start <= r@[i].end <= contents@.len(),
        forall|i: int, j: int|
            0 <= i < j < r@.len() ==> (#[trigger] r@[i]).end <= (#[trigger] r@[j]).start,
{
    let pairs = regex_find_matches(matcher, contents);
    let mut out: Vec<Match> = Vec::new();
    let mut i: usize = 0;
    while i < pairs.len()
        invariant
            i <= pairs@.len(),
            pairs@ == regex_find_all(
                matcher_pattern(*matcher),
                matcher_case_insensitive(*matcher),
                contents@,
            ),
            forall|k: int|
                0 <= k < pairs@.len() ==> (#[trigger] pairs@[k]).0 <= pairs@[k].1
                    <= contents@.len(),
            forall|k: int, l: int|
                0 <= k < l < pairs@.len() ==> (#[trigger] pairs@[k]).1 <= (#[trigger] pairs@[l]).0,
            out@.len() == i,
            forall|k: int|
                0 <= k < i ==> ((#[trigger] out@[k]).start, out@[k].end) == pairs@[k],
        decreases pairs@.len() - i,
    {
        let (s, e) = pairs[i];
        out.push(Match { start: s, end: e });
        i = i + 1;
    }
    proof {
        assert(match_pairs(out@) =~= pairs@);
    }
    out
}

/// Search one file's contents for the (case-sensitive) pattern. Fails, with
/// the pattern named, exactly when the pattern is not one the regex engine
/// accepts; otherwise the result holds every match, ordered by position.
pub fn search_contents(pattern: &str, path: String, contents: Vec<u8>) -> (r: Result<
    FileMatches,
    TeamSearchError,
>)
    ensures
        r is Ok <==> regex_valid(pattern@, false),
        r matches Ok(fm) ==> {
            &&& fm.wf()
            &&& fm.path == path
            &&& fm.contents == contents
            &&& match_pairs(fm.matches@) == regex_find_all(pattern@, false, contents@)
        },
        r matches Err(e) ==> (e matches TeamSearchError::InvalidPatternError(p) && p@ == pattern@),
{
    let matcher = match regex_matcher_new(pattern, false) {
        Ok(m) => m,
        Err(_) => {
            return Err(TeamSearchError::InvalidPatternError(pattern.to_owned()));
        },
    };
    let matches = find_matches(&matcher, contents.as_slice());
    Ok(FileMatches { path, contents, matches })
}

} // verus!
