//! Parsing and querying of the `CODEOWNERS` manifest.
//!
//! The manifest is line oriented: blank lines and lines whose first
//! non-whitespace character is `#` are ignored; every other line holds a
//! path pattern followed by zero or more owner tokens. A pattern ending in
//! `/` denotes a directory and everything beneath it, so a recursive
//! wildcard is appended; a leading `/` anchors the pattern to the manifest
//! root and is removed, queried paths being made root-relative before
//! matching under the same convention. A line with no owner tokens marks
//! its pattern as explicitly ownerless.
//!
//! Teams are kept in the order they are first seen, which also makes the
//! order of [`CodeOwners::lookup`] results deterministic: first declaration
//! first.

use vstd::prelude::*;

use crate::error::TeamSearchError;
use crate::globs::set_matches;
use crate::settings::{
    all_user, clone_patterns, pattern_list_ok, pattern_views, FilePattern, FilePatternSet,
};
use crate::text::{split_lines, split_lines_exec, str_eq, tokenize, tokenize_exec, trim, trim_exec};
use vstd::string::StrSliceExecFns;
use vstd::string::StringExecFns;

verus! {

// ---------------------------------------------------------------------------
// The abstract manifest model: an insertion-ordered map from team name to
// pattern strings, and the list of explicitly ownerless pattern strings.
// ---------------------------------------------------------------------------
/// A parsed pattern, normalized: no leading `/`, directory patterns carry
/// the recursive-wildcard suffix.
pub open spec fn normalize_pattern(p: Seq<char>) -> Seq<char> {
    let q = if p.len() > 0 && p[0] == '/' {
        p.subrange(1, p.len() as int)
    } else {
        p
    };
    if q.len() > 0 && q[q.len() - 1] == '/' {
        q + "**"@
    } else {
        q
    }
}

/// The index of the first team of `teams` named `name`, or `-1`.
pub open spec fn team_index(teams: Seq<(Seq<char>, Seq<Seq<char>>)>, name: Seq<char>) -> int
    decreases teams.len(),
{
    if teams.len() == 0 {
        -1
    } else if teams[0].0 == name {
        0
    } else {
        let r = team_index(teams.drop_first(), name);
        if r < 0 {
            -1
        } else {
            1 + r
        }
    }
}

pub proof fn lemma_team_index(teams: Seq<(Seq<char>, Seq<Seq<char>>)>, name: Seq<char>)
    ensures
        -1 <= team_index(teams, name) < teams.len(),
        team_index(teams, name) >= 0 ==> teams[team_index(teams, name)].0 == name,
        forall|j: int|
            0 <= j < teams.len() && j < team_index(teams, name) ==> (#[trigger] teams[j]).0
                != name,
        team_index(teams, name) == -1 ==> forall|j: int|
            0 <= j < teams.len() ==> (#[trigger] teams[j]).0 != name,
    decreases teams.len(),
{
    if teams.len() > 0 && teams[0].0 != name {
        lemma_team_index(teams.drop_first(), name);
        assert(forall|j: int|
            1 <= j < teams.len() ==> #[trigger] teams[j] == teams.drop_first()[j - 1]);
    }
}

/// One owner token of one line: append the pattern to that team's list,
/// creating the team at the end of the map if it is new.
pub open spec fn add_owner(
    teams: Seq<(Seq<char>, Seq<Seq<char>>)>,
    name: Seq<char>,
    pat: Seq<char>,
) -> Seq<(Seq<char>, Seq<Seq<char>>)> {
    let i = team_index(teams, name);
    if i < 0 {
        teams.push((name, seq![pat]))
    } else {
        teams.update(i, (name, teams[i].1.push(pat)))
    }
}

/// The owner tokens of one line, from token `j` on. A team named twice on
/// one line receives the pattern twice.
pub open spec fn add_owners_from(
    teams: Seq<(Seq<char>, Seq<Seq<char>>)>,
    toks: Seq<Seq<char>>,
    j: int,
    pat: Seq<char>,
) -> Seq<(Seq<char>, Seq<Seq<char>>)>
    decreases toks.len() - j,
{
    if j < 0 || j >= toks.len() {
        teams
    } else {
        add_owners_from(add_owner(teams, toks[j], pat), toks, j + 1, pat)
    }
}

/// The effect of one manifest line on the accumulated state.
pub open spec fn parse_line(
    teams: Seq<(Seq<char>, Seq<Seq<char>>)>,
    ignored: Seq<Seq<char>>,
    line: Seq<char>,
) -> (Seq<(Seq<char>, Seq<Seq<char>>)>, Seq<Seq<char>>) {
    let t = trim(line);
    if t.len() == 0 || t[0] == '#' {
        (teams, ignored)
    } else {
        let toks = tokenize(t);
        if toks.len() == 0 {
            (teams, ignored)
        } else {
            let pat = normalize_pattern(toks[0]);
            if toks.len() == 1 {
                (teams, ignored.push(pat))
            } else {
                (add_owners_from(teams, toks, 1, pat), ignored)
            }
        }
    }
}

/// The state after the lines from index `i` on.
pub open spec fn parse_lines_from(
    lines: Seq<Seq<char>>,
    i: int,
    teams: Seq<(Seq<char>, Seq<Seq<char>>)>,
    ignored: Seq<Seq<char>>,
) -> (Seq<(Seq<char>, Seq<Seq<char>>)>, Seq<Seq<char>>)
    decreases lines.len() - i,
{
    if i < 0 || i >= lines.len() {
        (teams, ignored)
    } else {
        let st = parse_line(teams, ignored, lines[i]);
        parse_lines_from(lines, i + 1, st.0, st.1)
    }
}

/// The abstract content of a manifest: its team map (insertion-ordered,
/// one entry per team) and its ownerless pattern list.
pub open spec fn parse_manifest(contents: Seq<char>) -> (
    Seq<(Seq<char>, Seq<Seq<char>>)>,
    Seq<Seq<char>>,
) {
    parse_lines_from(split_lines(contents), 0, Seq::empty(), Seq::empty())
}

/// All teams' pattern strings, in team order.
pub open spec fn all_team_patterns(teams: Seq<(Seq<char>, Seq<Seq<char>>)>) -> Seq<Seq<char>>
    decreases teams.len(),
{
    if teams.len() == 0 {
        Seq::empty()
    } else {
        teams[0].1 + all_team_patterns(teams.drop_first())
    }
}

/// Whether the manifest's pattern sets can all be compiled: each team's
/// list and the union list over all teams.
pub open spec fn manifest_buildable(teams: Seq<(Seq<char>, Seq<Seq<char>>)>) -> bool {
    &&& forall|i: int| 0 <= i < teams.len() ==> pattern_list_ok((#[trigger] teams[i]).1)
    &&& pattern_list_ok(all_team_patterns(teams))
}

/// The patterns of the team named `name`, or the empty list for an unknown
/// team.
pub open spec fn spec_patterns_for_team(
    teams: Seq<(Seq<char>, Seq<Seq<char>>)>,
    name: Seq<char>,
) -> Seq<Seq<char>> {
    let i = team_index(teams, name);
    if i < 0 {
        Seq::empty()
    } else {
        teams[i].1
    }
}

/// A path made relative to the manifest root: the root prefix — together
/// with the separator that follows it, or ending in one, or being the
/// whole path — is removed; any other path is returned unchanged.
pub open spec fn rel_path(path: Seq<char>, root: Seq<char>) -> Seq<char> {
    if root.len() == 0 {
        path
    } else if path == root {
        Seq::empty()
    } else if path.len() > root.len() && path.subrange(0, root.len() as int) == root
        && root[root.len() - 1] == '/' {
        path.subrange(root.len() as int, path.len() as int)
    } else if path.len() > root.len() && path.subrange(0, root.len() as int) == root
        && path[root.len() as int] == '/' {
        path.subrange(root.len() as int + 1, path.len() as int)
    } else {
        path
    }
}

/// The team names owning a path, in first-declaration order, from team `i`
/// on. `rel` is the already root-relative path.
pub open spec fn lookup_from(
    teams: Seq<(Seq<char>, Seq<Seq<char>>)>,
    i: int,
    rel: Seq<char>,
) -> Seq<Seq<char>>
    decreases teams.len() - i,
{
    if i < 0 || i >= teams.len() {
        Seq::empty()
    } else {
        (if set_matches(teams[i].1, rel) {
            seq![teams[i].0]
        } else {
            Seq::empty()
        }) + lookup_from(teams, i + 1, rel)
    }
}

// ---------------------------------------------------------------------------
// The concrete structure.
// ---------------------------------------------------------------------------
/// One team of the manifest: its name, its patterns, and a matcher
/// compiled from exactly those patterns.
struct TeamEntry {
    name: String,
    patterns: Vec<FilePattern>,
    set: FilePatternSet,
}

impl TeamEntry {
    spec fn wf(&self) -> bool {
        &&& self.set.wf()
        &&& self.set@ == pattern_views(self.patterns@)
    }

    spec fn model(&self) -> (Seq<char>, Seq<Seq<char>>) {
        (self.name@, pattern_views(self.patterns@))
    }
}

/// The parsed manifest: the map of teams to the paths they own, a
/// pre-computed matcher over every team's patterns, the root directory the
/// manifest is anchored to, and the explicitly ownerless patterns.
pub struct CodeOwners {
    owners: Vec<TeamEntry>,
    owner_set: FilePatternSet,
    root: String,
    ignored_patterns: Vec<FilePattern>,
}

impl CodeOwners {
    /// The team map: team names with their pattern strings, in
    /// first-declaration order.
    pub closed spec fn teams_view(&self) -> Seq<(Seq<char>, Seq<Seq<char>>)> {
        self.owners@.map_values(|t: TeamEntry| t.model())
    }

    /// The explicitly ownerless pattern strings.
    pub closed spec fn ignored_view(&self) -> Seq<Seq<char>> {
        pattern_views(self.ignored_patterns@)
    }

    /// The ownerless patterns as stored.
    pub closed spec fn ignored_seq(&self) -> Seq<FilePattern> {
        self.ignored_patterns@
    }

    /// The root directory all patterns are anchored to.
    pub closed spec fn root_view(&self) -> Seq<char> {
        self.root@
    }

    /// Every per-team matcher and the union matcher are consistent with
    /// the stored patterns.
    pub closed spec fn wf(&self) -> bool {
        &&& forall|i: int| 0 <= i < self.owners@.len() ==> (#[trigger] self.owners@[i]).wf()
        &&& self.owner_set.wf()
        &&& self.owner_set@ == all_team_patterns(self.teams_view())
    }

    /// Whether some team of the manifest is named `name`.
    pub open spec fn spec_has_team(&self, name: Seq<char>) -> bool {
        team_index(self.teams_view(), name) >= 0
    }

    /// Whether the path (relative to the root, directories carrying a
    /// trailing `/`) matches one of `name`'s patterns.
    pub open spec fn spec_is_owned_by(&self, path: Seq<char>, name: Seq<char>) -> bool {
        set_matches(
            spec_patterns_for_team(self.teams_view(), name),
            rel_path(path, self.root_view()),
        )
    }

    /// Whether the path matches some team's patterns. Explicitly ownerless
    /// patterns do not count.
    pub open spec fn spec_is_owned(&self, path: Seq<char>) -> bool {
        set_matches(all_team_patterns(self.teams_view()), rel_path(path, self.root_view()))
    }

    /// The names of all teams owning the path, in first-declaration order.
    pub open spec fn spec_lookup(&self, path: Seq<char>) -> Seq<Seq<char>> {
        lookup_from(self.teams_view(), 0, rel_path(path, self.root_view()))
    }

    /// The names of all teams, in first-declaration order.
    pub open spec fn team_names_view(&self) -> Seq<Seq<char>> {
        self.teams_view().map_values(|e: (Seq<char>, Seq<Seq<char>>)| e.0)
    }
}

// ---------------------------------------------------------------------------
// Parsing.
// ---------------------------------------------------------------------------
/// The abstract content of the accumulated team list.
spec fn acc_view(acc: Seq<(String, Vec<FilePattern>)>) -> Seq<(Seq<char>, Seq<Seq<char>>)> {
    acc.map_values(|e: (String, Vec<FilePattern>)| (e.0@, pattern_views(e.1@)))
}

/// Flattening distributes over appending one team at the end.
proof fn lemma_all_team_patterns_push(
    teams: Seq<(Seq<char>, Seq<Seq<char>>)>,
    x: (Seq<char>, Seq<Seq<char>>),
)
    ensures
        all_team_patterns(teams.push(x)) == all_team_patterns(teams) + x.1,
    decreases teams.len(),
{
    if teams.len() == 0 {
        assert(teams.push(x).drop_first() =~= Seq::<(Seq<char>, Seq<Seq<char>>)>::empty());
        assert(teams.push(x)[0] == x);
        assert(all_team_patterns(teams.push(x)) == x.1 + all_team_patterns(
            Seq::<(Seq<char>, Seq<Seq<char>>)>::empty(),
        ));
        assert(x.1 + Seq::<Seq<char>>::empty() =~= Seq::<Seq<char>>::empty() + x.1);
    } else {
        assert(teams.push(x).drop_first() =~= teams.drop_first().push(x));
        lemma_all_team_patterns_push(teams.drop_first(), x);
        assert(teams.push(x)[0] == teams[0]);
        assert(all_team_patterns(teams.push(x)) == teams[0].1 + (all_team_patterns(
            teams.drop_first(),
        ) + x.1));
        assert(teams[0].1 + (all_team_patterns(teams.drop_first()) + x.1) =~= (teams[0].1
            + all_team_patterns(teams.drop_first())) + x.1);
    }
}

/// A normalized copy of one raw manifest pattern.
fn normalize_pattern_exec(p: &str) -> (r: String)
    ensures
        r@ == normalize_pattern(p@),
{
    let len = p.unicode_len();
    let stripped: &str = if len > 0 && p.get_char(0) == '/' {
        p.substring_char(1, len)
    } else {
        p
    };
    let slen = stripped.unicode_len();
    if slen > 0 && stripped.get_char(slen - 1) == '/' {
        let mut s = stripped.to_owned();
        s.append("**");
        s
    } else {
        stripped.to_owned()
    }
}

/// Record one owner token: append the pattern to that team's list, adding
/// the team at the end if it is new.
fn add_owner_exec(acc: &mut Vec<(String, Vec<FilePattern>)>, name: &str, pat: &str)
    ensures
        acc_view(final(acc)@) == add_owner(acc_view(old(acc)@), name@, pat@),
{
    let ghost v0 = acc_view(old(acc)@);
    proof {
        lemma_team_index(v0, name@);
    }
    let mut i: usize = 0;
    while i < acc.len()
        invariant
            i <= acc.len(),
            acc@ == old(acc)@,
            v0 == acc_view(acc@),
            forall|j: int| 0 <= j < i ==> (#[trigger] acc@[j]).0@ != name@,
        decreases acc.len() - i,
    {
        if str_eq(acc[i].0.as_str(), name) {
            proof {
                assert(v0[i as int].0 == name@);
                assert(team_index(v0, name@) == i as int) by {
                    lemma_team_index(v0, name@);
                    assert(forall|j: int| 0 <= j < i ==> v0[j].0 != name@);
                }
            }
            let (nm, mut pats) = acc.remove(i);
            let ghost pats0 = pats@;
            pats.push(FilePattern::User(pat.to_owned()));
            proof {
                assert(pattern_views(pats@) =~= pattern_views(pats0).push(pat@));
            }
            acc.insert(i, (nm, pats));
            proof {
                let target = add_owner(v0, name@, pat@);
                assert(acc@.len() == old(acc)@.len());
                assert forall|k: int| 0 <= k < acc@.len() implies #[trigger] acc_view(acc@)[k]
                    == target[k] by {
                    if k < i {
                        assert(acc@[k] == old(acc)@[k]);
                    } else if k == i {
                        assert(acc@[k] == (nm, pats));
                    } else {
                        assert(acc@[k] == old(acc)@[k]);
                    }
                }
                assert(acc_view(acc@) =~= target);
            }
            return ;
        }
        i = i + 1;
    }
    proof {
        assert(team_index(v0, name@) == -1) by {
            lemma_team_index(v0, name@);
            if team_index(v0, name@) >= 0 {
                assert(acc@[team_index(v0, name@)].0@ == name@);
            }
        }
    }
    let mut pats: Vec<FilePattern> = Vec::new();
    pats.push(FilePattern::User(pat.to_owned()));
    acc.push((name.to_owned(), pats));
    proof {
        assert(pattern_views(pats@) =~= seq![pat@]);
        assert(acc_view(acc@) =~= v0.push((name@, seq![pat@])));
    }
}

impl CodeOwners {
    /// Parse the text of a manifest, anchored to `root`. The returned map
    /// holds every team of the manifest with its normalized patterns, in
    /// first-declaration order, and the explicitly ownerless patterns
    /// (stored with user provenance; they are not compiled here). It
    /// succeeds exactly when every team's pattern set and the union set
    /// over all teams compile; otherwise it fails with
    /// [`TeamSearchError::InvalidPatternError`].
    pub fn parse_from_contents(contents: &str, root: &str) -> (r: Result<
        CodeOwners,
        TeamSearchError,
    >)
        ensures
            r is Ok <==> manifest_buildable(parse_manifest(contents@).0),
            r matches Ok(co) ==> {
                &&& co.wf()
                &&& co.teams_view() == parse_manifest(contents@).0
                &&& co.ignored_view() == parse_manifest(contents@).1
                &&& all_user(co.ignored_seq())
                &&& co.root_view() == root@
            },
            r matches Err(e) ==> e is InvalidPatternError,
    {
        let lines = split_lines_exec(contents);
        let ghost lviews = lines@.map_values(|l: String| l@);
        let mut acc: Vec<(String, Vec<FilePattern>)> = Vec::new();
        let mut ignored: Vec<FilePattern> = Vec::new();
        let mut li: usize = 0;
        proof {
            assert(acc_view(acc@) =~= Seq::<(Seq<char>, Seq<Seq<char>>)>::empty());
            assert(pattern_views(ignored@) =~= Seq::<Seq<char>>::empty());
        }
        while li < lines.len()
            invariant
                li <= lines.len(),
                lviews == lines@.map_values(|l: String| l@),
                lviews == split_lines(contents@),
                all_user(ignored@),
                parse_lines_from(
                    lviews,
                    li as int,
                    acc_view(acc@),
                    pattern_views(ignored@),
                ) == parse_manifest(contents@),
            decreases lines.len() - li,
        {
            let ghost teams0 = acc_view(acc@);
            let ghost ign0 = pattern_views(ignored@);
            let ghost lv = lviews[li as int];
            let trimmed = trim_exec(lines[li].as_str());
            let tlen = trimmed.unicode_len();
            if tlen == 0 || trimmed.get_char(0) == '#' {
                proof {
                    assert(parse_line(teams0, ign0, lv) == (teams0, ign0));
                }
            } else {
                let toks = tokenize_exec(trimmed);
                let ghost tviews = toks@.map_values(|t: String| t@);
                if toks.len() == 0 {
                    proof {
                        assert(parse_line(teams0, ign0, lv) == (teams0, ign0));
                    }
                } else {
                    let pat = normalize_pattern_exec(toks[0].as_str());
                    if toks.len() == 1 {
                        let ghost igold = pattern_views(ignored@);
                        ignored.push(FilePattern::User(pat));
                        proof {
                            assert(pattern_views(ignored@) =~= igold.push(
                                normalize_pattern(tviews[0]),
                            ));
                            assert(parse_line(teams0, ign0, lv) == (
                                teams0,
                                pattern_views(ignored@),
                            ));
                        }
                    } else {
                        let mut j: usize = 1;
                        while j < toks.len()
                            invariant
                                1 <= j <= toks.len(),
                                tviews == toks@.map_values(|t: String| t@),
                                pat@ == normalize_pattern(tviews[0]),
                                add_owners_from(acc_view(acc@), tviews, j as int, pat@)
                                    == add_owners_from(teams0, tviews, 1, pat@),
                            decreases toks.len() - j,
                        {
                            add_owner_exec(&mut acc, toks[j].as_str(), pat.as_str());
                            j = j + 1;
                        }
                        proof {
                            assert(add_owners_from(acc_view(acc@), tviews, toks@.len() as int, pat@)
                                == acc_view(acc@));
                            assert(parse_line(teams0, ign0, lv) == (acc_view(acc@), ign0));
                        }
                    }
                }
            }
            li = li + 1;
        }
        let ghost model = parse_manifest(contents@);
        proof {
            assert(acc_view(acc@) == model.0);
            assert(pattern_views(ignored@) == model.1);
        }
        let mut owners: Vec<TeamEntry> = Vec::new();
        let mut all_pats: Vec<FilePattern> = Vec::new();
        let mut k: usize = 0;
        proof {
            assert(owners@.map_values(|t: TeamEntry| t.model()) =~= model.0.subrange(0, 0));
            assert(pattern_views(all_pats@) =~= all_team_patterns(model.0.subrange(0, 0)));
        }
        while k < acc.len()
            invariant
                k <= acc.len(),
                model == parse_manifest(contents@),
                acc_view(acc@) == model.0,
                forall|t: int| 0 <= t < owners@.len() ==> (#[trigger] owners@[t]).wf(),
                owners@.map_values(|t: TeamEntry| t.model()) == model.0.subrange(0, k as int),
                pattern_views(all_pats@) == all_team_patterns(model.0.subrange(0, k as int)),
                forall|t: int| 0 <= t < k ==> pattern_list_ok((#[trigger] model.0[t]).1),
            decreases acc.len() - k,
        {
            let name = acc[k].0.clone();
            let pats = clone_patterns(&acc[k].1);
            proof {
                assert(acc_view(acc@)[k as int] == model.0[k as int]);
                assert(pattern_views(acc@[k as int].1@) == model.0[k as int].1);
            }
            let set = match FilePatternSet::try_from_iter(clone_patterns(&acc[k].1)) {
                Ok(s) => s,
                Err(e) => {
                    proof {
                        assert(!pattern_list_ok(model.0[k as int].1));
                        assert(!manifest_buildable(model.0));
                    }
                    return Err(e);
                },
            };
            proof {
                assert(pattern_list_ok(model.0[k as int].1));
            }
            let mut more = clone_patterns(&acc[k].1);
            let ghost flat0 = pattern_views(all_pats@);
            all_pats.append(&mut more);
            let ghost owners0 = owners@;
            owners.push(TeamEntry { name, patterns: pats, set });
            proof {
                assert(acc_view(acc@)[k as int] == model.0[k as int]);
                assert(owners@.map_values(|t: TeamEntry| t.model()) =~= owners0.map_values(
                    |t: TeamEntry| t.model(),
                ).push(model.0[k as int]));
                assert(model.0.subrange(0, k + 1 as int) =~= model.0.subrange(0, k as int).push(
                    model.0[k as int],
                ));
                lemma_all_team_patterns_push(model.0.subrange(0, k as int), model.0[k as int]);
                assert(pattern_views(all_pats@) =~= flat0 + model.0[k as int].1);
            }
            k = k + 1;
        }
        proof {
            assert(model.0.subrange(0, acc@.len() as int) =~= model.0);
            assert(pattern_views(all_pats@) == all_team_patterns(model.0));
        }
        let owner_set = match FilePatternSet::try_from_iter(all_pats) {
            Ok(s) => s,
            Err(e) => {
                proof {
                    assert(!pattern_list_ok(all_team_patterns(model.0)));
                }
                return Err(e);
            },
        };
        let co = CodeOwners { owners, owner_set, root: root.to_owned(), ignored_patterns: ignored };
        proof {
            assert(co.teams_view() == model.0);
            assert(co.owner_set@ == all_team_patterns(co.teams_view()));
            assert(manifest_buildable(model.0));
        }
        Ok(co)
    }

    /// Build a manifest from the outcome of reading its file: a read
    /// failure (carrying the path that was tried) becomes
    /// [`TeamSearchError::ManifestReadError`] and yields no partial data;
    /// on a successful read the text is parsed as
    /// [`CodeOwners::parse_from_contents`] does.
    pub fn from_read_result(read: Result<String, String>, root: &str) -> (r: Result<
        CodeOwners,
        TeamSearchError,
    >)
        ensures
            read matches Err(p) ==> r == Result::<CodeOwners, TeamSearchError>::Err(
                TeamSearchError::ManifestReadError(p),
            ),
            read matches Ok(c) ==> (r is Ok <==> manifest_buildable(parse_manifest(c@).0)),
            read matches Ok(c) ==> (r matches Ok(co) ==> {
                &&& co.wf()
                &&& co.teams_view() == parse_manifest(c@).0
                &&& co.ignored_view() == parse_manifest(c@).1
                &&& all_user(co.ignored_seq())
                &&& co.root_view() == root@
            }),
            read matches Ok(c) ==> (r matches Err(e) ==> e is InvalidPatternError),
    {
        match read {
            Ok(c) => Self::parse_from_contents(c.as_str(), root),
            Err(p) => Err(TeamSearchError::ManifestReadError(p)),
        }
    }
}

// ---------------------------------------------------------------------------
// Queries.
// ---------------------------------------------------------------------------
impl CodeOwners {
    /// The index of the team named `name`, if any.
    fn find_team(&self, name: &str) -> (r: Option<usize>)
        ensures
            match r {
                Some(i) => i < self.teams_view().len() && team_index(self.teams_view(), name@)
                    == i as int,
                None => team_index(self.teams_view(), name@) == -1,
            },
    {
        let ghost tv = self.teams_view();
        proof {
            lemma_team_index(tv, name@);
        }
        let mut i: usize = 0;
        while i < self.owners.len()
            invariant
                i <= self.owners@.len(),
                tv == self.teams_view(),
                forall|j: int| 0 <= j < i ==> (#[trigger] tv[j]).0 != name@,
            decreases self.owners@.len() - i,
        {
            if str_eq(self.owners[i].name.as_str(), name) {
                proof {
                    assert(tv[i as int].0 == name@);
                    lemma_team_index(tv, name@);
                }
                return Some(i);
            }
            i = i + 1;
        }
        proof {
            lemma_team_index(tv, name@);
            if team_index(tv, name@) >= 0 {
                assert(tv[team_index(tv, name@)].0 == name@);
            }
        }
        None
    }

    /// The names of all teams, in first-declaration order.
    pub fn team_names(&self) -> (r: Vec<String>)
        ensures
            r@.map_values(|t: String| t@) == self.team_names_view(),
    {
        let mut out: Vec<String> = Vec::new();
        let mut i: usize = 0;
        proof {
            assert(out@.map_values(|t: String| t@) =~= self.team_names_view().subrange(0, 0));
        }
        while i < self.owners.len()
            invariant
                i <= self.owners@.len(),
                out@.map_values(|t: String| t@) == self.team_names_view().subrange(0, i as int),
            decreases self.owners@.len() - i,
        {
            let ghost before = out@.map_values(|t: String| t@);
            out.push(self.owners[i].name.clone());
            proof {
                assert(out@.map_values(|t: String| t@) =~= before.push(
                    self.team_names_view()[i as int],
                ));
                assert(before.push(self.team_names_view()[i as int])
                    =~= self.team_names_view().subrange(0, i + 1 as int));
            }
            i = i + 1;
        }
        proof {
            assert(self.team_names_view().subrange(0, self.owners@.len() as int)
                =~= self.team_names_view());
        }
        out
    }

    /// Whether the team exists in the manifest, by exact name.
    pub fn has_team(&self, team: &str) -> (r: bool)
        ensures
            r == self.spec_has_team(team@),
    {
        match self.find_team(team) {
            Some(_) => true,
            None => false,
        }
    }

    /// The patterns of the given team, in manifest order; empty for an
    /// unknown team (not an error).
    pub fn get_patterns_for_team(&self, team: &str) -> (r: Vec<FilePattern>)
        ensures
            pattern_views(r@) == spec_patterns_for_team(self.teams_view(), team@),
    {
        match self.find_team(team) {
            Some(i) => clone_patterns(&self.owners[i].patterns),
            None => {
                proof {
                    assert(pattern_views(Seq::<FilePattern>::empty()) =~= Seq::<Seq<char>>::empty());
                }
                Vec::new()
            },
        }
    }

    /// The explicitly ownerless patterns of the manifest, in order.
    pub fn get_ignored_patterns(&self) -> (r: &Vec<FilePattern>)
        ensures
            r@ == self.ignored_seq(),
            pattern_views(r@) == self.ignored_view(),
    {
        &self.ignored_patterns
    }

    /// The given path, relative to the manifest root.
    fn get_relative_path(&self, path: &str) -> (r: String)
        ensures
            r@ == rel_path(path@, self.root_view()),
    {
        let rl = self.root.as_str().unicode_len();
        let pl = path.unicode_len();
        if rl == 0 {
            return path.to_owned();
        }
        if pl == rl && str_eq(path, self.root.as_str()) {
            return String::new();
        }
        if pl > rl {
            let prefix = path.substring_char(0, rl);
            if str_eq(prefix, self.root.as_str()) {
                if self.root.as_str().get_char(rl - 1) == '/' {
                    return path.substring_char(rl, pl).to_owned();
                }
                if path.get_char(rl) == '/' {
                    return path.substring_char(rl + 1, pl).to_owned();
                }
            }
        }
        path.to_owned()
    }

    /// Whether the path is owned by the given team. The path is made
    /// root-relative first; a path denoting a directory must carry its
    /// trailing `/`.
    pub fn is_owned_by(&self, path: &str, team: &str) -> (r: bool)
        requires
            self.wf(),
        ensures
            r == self.spec_is_owned_by(path@, team@),
    {
        let rel = self.get_relative_path(path);
        match self.find_team(team) {
            Some(i) => self.owners[i].set.is_match(rel.as_str()),
            None => false,
        }
    }

    /// Whether the path is owned by any team at all. Explicitly ownerless
    /// paths are owned by no team.
    pub fn is_owned(&self, path: &str) -> (r: bool)
        requires
            self.wf(),
        ensures
            r == self.spec_is_owned(path@),
    {
        let rel = self.get_relative_path(path);
        self.owner_set.is_match(rel.as_str())
    }

    /// All teams that own the path, in first-declaration order. A path
    /// owned by several teams reports each of them; precedence between
    /// rules is not resolved.
    pub fn lookup(&self, path: &str) -> (r: Vec<String>)
        requires
            self.wf(),
        ensures
            r@.map_values(|t: String| t@) == self.spec_lookup(path@),
    {
        let rel = self.get_relative_path(path);
        let mut out: Vec<String> = Vec::new();
        let mut i: usize = 0;
        proof {
            assert(out@.map_values(|t: String| t@) =~= Seq::<Seq<char>>::empty());
        }
        while i < self.owners.len()
            invariant
                i <= self.owners@.len(),
                self.wf(),
                rel@ == rel_path(path@, self.root_view()),
                out@.map_values(|t: String| t@) + lookup_from(self.teams_view(), i as int, rel@)
                    == self.spec_lookup(path@),
            decreases self.owners@.len() - i,
        {
            let ghost out0 = out@.map_values(|t: String| t@);
            if self.owners[i].set.is_match(rel.as_str()) {
                out.push(self.owners[i].name.clone());
                proof {
                    assert(out@.map_values(|t: String| t@) =~= out0.push(
                        self.teams_view()[i as int].0,
                    ));
                    assert(out0.push(self.teams_view()[i as int].0) + lookup_from(
                        self.teams_view(),
                        i + 1 as int,
                        rel@,
                    ) =~= out0 + (seq![self.teams_view()[i as int].0] + lookup_from(
                        self.teams_view(),
                        i + 1 as int,
                        rel@,
                    )));
                }
            } else {
                proof {
                    assert(out0 + (Seq::<Seq<char>>::empty() + lookup_from(
                        self.teams_view(),
                        i + 1 as int,
                        rel@,
                    )) =~= out0 + lookup_from(self.teams_view(), i + 1 as int, rel@));
                }
            }
            i = i + 1;
        }
        proof {
            assert(out@.map_values(|t: String| t@) + Seq::<Seq<char>>::empty() =~= out@.map_values(
                |t: String| t@,
            ));
        }
        out
    }
}

} // verus!
