//! Glob patterns, compiled pattern sets, and the per-invocation resolver
//! settings built from them.

use vstd::prelude::*;

use crate::error::TeamSearchError;
use crate::globs::{
    glob_matches, glob_new, glob_set_build, glob_set_builder_add, glob_set_builder_new,
    glob_set_empty, glob_set_is_match, glob_valid, set_buildable, set_matches, set_patterns,
};

verus! {

/// A single glob pattern, tagged with its provenance: supplied by the tool
/// itself, or derived from the manifest or the command line.
#[derive(Debug)]
pub enum FilePattern {
    Builtin(&'static str),
    User(String),
}

impl View for FilePattern {
    type V = Seq<char>;

    open spec fn view(&self) -> Seq<char> {
        match self {
            FilePattern::Builtin(s) => s@,
            FilePattern::User(s) => s@,
        }
    }
}

impl Clone for FilePattern {
    fn clone(&self) -> (r: Self)
        ensures
            r == *self,
    {
        match self {
            FilePattern::Builtin(s) => FilePattern::Builtin(s),
            FilePattern::User(s) => FilePattern::User(s.clone()),
        }
    }
}

impl FilePattern {
    /// A user-supplied pattern.
    pub fn new_user(pattern: String) -> (r: Self)
        ensures
            r == FilePattern::User(pattern),
    {
        FilePattern::User(pattern)
    }

    /// The pattern that matches every path.
    pub fn all() -> (r: Self)
        ensures
            r is Builtin,
            r@ == "**"@,
    {
        FilePattern::Builtin("**")
    }

    /// The pattern string itself.
    pub fn as_str(&self) -> (r: &str)
        ensures
            r@ == self@,
    {
        match self {
            FilePattern::Builtin(s) => s,
            FilePattern::User(s) => s.as_str(),
        }
    }
}

/// The pattern strings of a pattern list, in order.
pub open spec fn pattern_views(ps: Seq<FilePattern>) -> Seq<Seq<char>> {
    ps.map_values(|p: FilePattern| p@)
}

/// A copy of a pattern list.
pub fn clone_patterns(ps: &Vec<FilePattern>) -> (r: Vec<FilePattern>)
    ensures
        r@ == ps@,
{
    let mut r: Vec<FilePattern> = Vec::new();
    let mut i: usize = 0;
    while i < ps.len()
        invariant
            i <= ps.len(),
            r@ == ps@.subrange(0, i as int),
        decreases ps.len() - i,
    {
        r.push(ps[i].clone());
        proof {
            assert(r@ =~= ps@.subrange(0, i + 1 as int));
        }
        i = i + 1;
    }
    proof {
        assert(r@ =~= ps@);
    }
    r
}

/// Whether a pattern list can be compiled into a matcher: every member is
/// a syntactically valid glob and the combined set is one the engine
/// accepts.
pub open spec fn pattern_list_ok(views: Seq<Seq<char>>) -> bool {
    &&& forall|i: int| 0 <= i < views.len() ==> glob_valid(#[trigger] views[i])
    &&& set_buildable(views)
}

/// Every pattern of the list is user provenance.
pub open spec fn all_user(ps: Seq<FilePattern>) -> bool {
    forall|i: int| 0 <= i < ps.len() ==> (#[trigger] ps[i]) is User
}

/// An ordered list of glob patterns together with a matcher compiled from
/// exactly those patterns.
#[derive(Debug)]
pub struct FilePatternSet {
    /// The compiled matcher.
    set: globset::GlobSet,
    /// The patterns the matcher was compiled from.
    patterns: Vec<FilePattern>,
}

impl FilePatternSet {
    /// The compiled matcher is consistent with the pattern list: it holds
    /// exactly the patterns, in order.
    pub closed spec fn wf(&self) -> bool {
        set_patterns(self.set) == pattern_views(self.patterns@)
    }

    /// The patterns of the set, in order.
    pub closed spec fn patterns_seq(&self) -> Seq<FilePattern> {
        self.patterns@
    }

    /// Compile a list of patterns into a set: it succeeds exactly when
    /// every pattern is a syntactically valid glob and the combined set is
    /// one the engine accepts (see [`crate::globs::glob_set_build`]).
    /// Failure is [`TeamSearchError::InvalidPatternError`], naming the
    /// offending string when a single pattern is to blame (and the empty
    /// string when only the combined set was refused).
    pub fn try_from_iter(patterns: Vec<FilePattern>) -> (r: Result<FilePatternSet, TeamSearchError>)
        ensures
            r is Ok <==> pattern_list_ok(pattern_views(patterns@)),
            r matches Ok(s) ==> {
                &&& s.wf()
                &&& s.patterns_seq() == patterns@
                &&& s@ == pattern_views(patterns@)
            },
            r matches Err(e) ==> {
                &&& e is InvalidPatternError
                &&& (exists|i: int|
                    0 <= i < patterns@.len() && !glob_valid(#[trigger] patterns@[i]@)) ==> (
                e matches TeamSearchError::InvalidPatternError(p) && p@ == patterns@[first_invalid(
                    patterns@,
                )]@)
            },
    {
        let mut builder = glob_set_builder_new();
        let mut idx: usize = 0;
        proof {
            assert(crate::globs::builder_patterns(builder) =~= pattern_views(
                patterns@.subrange(0, 0),
            ));
        }
        while idx < patterns.len()
            invariant
                idx <= patterns.len(),
                crate::globs::builder_patterns(builder) == pattern_views(
                    patterns@.subrange(0, idx as int),
                ),
                forall|i: int| 0 <= i < idx ==> glob_valid(#[trigger] patterns@[i]@),
            decreases patterns.len() - idx,
        {
            let pat_str = patterns[idx].as_str();
            match glob_new(pat_str) {
                Ok(g) => {
                    glob_set_builder_add(&mut builder, g);
                    proof {
                        assert(pattern_views(patterns@.subrange(0, idx + 1 as int)) =~= pattern_views(
                            patterns@.subrange(0, idx as int),
                        ).push(patterns@[idx as int]@));
                    }
                },
                Err(_) => {
                    proof {
                        assert(first_invalid(patterns@) == idx as int) by {
                            lemma_first_invalid(patterns@, idx as int);
                        }
                        assert(!glob_valid(pattern_views(patterns@)[idx as int]));
                    }
                    return Err(TeamSearchError::InvalidPatternError(pat_str.to_owned()));
                },
            }
            idx = idx + 1;
        }
        proof {
            assert(patterns@.subrange(0, patterns@.len() as int) =~= patterns@);
        }
        match glob_set_build(&builder) {
            Ok(set) => Ok(FilePatternSet { set, patterns }),
            Err(_) => Err(TeamSearchError::InvalidPatternError(String::new())),
        }
    }

    /// A new set holding the given patterns followed by this set's patterns.
    /// Non-destructive in the sense that the receiver's pattern list is
    /// carried over unchanged into the result; duplicates are retained. It
    /// succeeds exactly when the combined list compiles.
    pub fn extend(self, patterns: Vec<FilePattern>) -> (r: Result<FilePatternSet, TeamSearchError>)
        ensures
            r is Ok <==> pattern_list_ok(pattern_views(patterns@) + self@),
            r matches Ok(s) ==> {
                &&& s.wf()
                &&& s.patterns_seq() == patterns@ + self.patterns_seq()
                &&& s@ == pattern_views(patterns@) + self@
            },
            r matches Err(e) ==> e is InvalidPatternError,
    {
        let mut combined = patterns;
        let FilePatternSet { set: _, patterns: mut old_patterns } = self;
        combined.append(&mut old_patterns);
        proof {
            assert(pattern_views(combined@) =~= pattern_views(patterns@) + self@);
        }
        let r = Self::try_from_iter(combined);
        match r {
            Ok(s) => {
                proof {
                    assert(s@ =~= pattern_views(patterns@) + self@);
                }
                Ok(s)
            },
            Err(e) => Err(e),
        }
    }

    /// The set's patterns, in order, consuming the set.
    pub fn into_file_patterns_iter(self) -> (r: Vec<FilePattern>)
        ensures
            r@ == self.patterns_seq(),
    {
        self.patterns
    }

    /// Whether the path matches at least one pattern of the set. The path
    /// must already be normalized by the caller's anchoring convention
    /// (root-relative, `/`-separated, directories carrying a trailing `/`).
    pub fn is_match(&self, path: &str) -> (r: bool)
        requires
            self.wf(),
        ensures
            r == set_matches(self@, path@),
    {
        glob_set_is_match(&self.set, path)
    }

    /// The number of patterns in the set.
    pub fn len(&self) -> (r: usize)
        ensures
            r == self@.len(),
    {
        self.patterns.len()
    }

    /// An empty set: it matches nothing.
    pub fn empty() -> (r: FilePatternSet)
        ensures
            r.wf(),
            r@ == Seq::<Seq<char>>::empty(),
            r.patterns_seq() == Seq::<FilePattern>::empty(),
    {
        let r = FilePatternSet { set: glob_set_empty(), patterns: Vec::new() };
        proof {
            assert(r@ =~= Seq::<Seq<char>>::empty());
            assert(set_patterns(r.set) =~= pattern_views(r.patterns@));
        }
        r
    }
}

impl View for FilePatternSet {
    type V = Seq<Seq<char>>;

    /// A pattern set is modelled by its pattern strings, in order.
    open spec fn view(&self) -> Seq<Seq<char>> {
        pattern_views(self.patterns_seq())
    }
}

impl Default for FilePatternSet {
    fn default() -> (r: Self)
        ensures
            r.wf(),
            r@ == Seq::<Seq<char>>::empty(),
            r.patterns_seq() == Seq::<FilePattern>::empty(),
    {
        FilePatternSet::empty()
    }
}

/// The patterns excluding the standard build, VCS and cache directories
/// from every walk: for each directory name, the entry itself and
/// everything beneath it, at any depth — the filtering a walker that
/// prunes such directories during descent would give.
pub open spec fn default_exclude_views() -> Seq<Seq<char>> {
    seq![
        "**/.bzr"@,
        "**/.bzr/**"@,
        "**/.direnv"@,
        "**/.direnv/**"@,
        "**/.eggs"@,
        "**/.eggs/**"@,
        "**/.git"@,
        "**/.git/**"@,
        "**/.git-rewrite"@,
        "**/.git-rewrite/**"@,
        "**/.hg"@,
        "**/.hg/**"@,
        "**/.ipynb_checkpoints"@,
        "**/.ipynb_checkpoints/**"@,
        "**/.mypy_cache"@,
        "**/.mypy_cache/**"@,
        "**/.nox"@,
        "**/.nox/**"@,
        "**/.pants.d"@,
        "**/.pants.d/**"@,
        "**/.pyenv"@,
        "**/.pyenv/**"@,
        "**/.pytest_cache"@,
        "**/.pytest_cache/**"@,
        "**/.pytype"@,
        "**/.pytype/**"@,
        "**/.ruff_cache"@,
        "**/.ruff_cache/**"@,
        "**/.svn"@,
        "**/.svn/**"@,
        "**/.tox"@,
        "**/.tox/**"@,
        "**/.venv"@,
        "**/.venv/**"@,
        "**/.vscode"@,
        "**/.vscode/**"@,
        "**/__pypackages__"@,
        "**/__pypackages__/**"@,
        "**/__pycache__"@,
        "**/__pycache__/**"@,
        "**/_build"@,
        "**/_build/**"@,
        "**/buck-out"@,
        "**/buck-out/**"@,
        "**/dist"@,
        "**/dist/**"@,
        "**/node_modules"@,
        "**/node_modules/**"@,
        "**/site-packages"@,
        "**/site-packages/**"@,
        "**/venv"@,
        "**/venv/**"@,
    ]
}

/// The default tool-specific includes allowance.
pub open spec fn default_include_views() -> Seq<Seq<char>> {
    seq!["examples/notes/**"@]
}

/// The default exclude list, as patterns.
pub fn default_exclude_patterns() -> (r: Vec<FilePattern>)
    ensures
        pattern_views(r@) == default_exclude_views(),
{
    let mut v: Vec<FilePattern> = Vec::new();
    v.push(FilePattern::Builtin("**/.bzr"));
    v.push(FilePattern::Builtin("**/.bzr/**"));
    v.push(FilePattern::Builtin("**/.direnv"));
    v.push(FilePattern::Builtin("**/.direnv/**"));
    v.push(FilePattern::Builtin("**/.eggs"));
    v.push(FilePattern::Builtin("**/.eggs/**"));
    v.push(FilePattern::Builtin("**/.git"));
    v.push(FilePattern::Builtin("**/.git/**"));
    v.push(FilePattern::Builtin("**/.git-rewrite"));
    v.push(FilePattern::Builtin("**/.git-rewrite/**"));
    v.push(FilePattern::Builtin("**/.hg"));
    v.push(FilePattern::Builtin("**/.hg/**"));
    v.push(FilePattern::Builtin("**/.ipynb_checkpoints"));
    v.push(FilePattern::Builtin("**/.ipynb_checkpoints/**"));
    v.push(FilePattern::Builtin("**/.mypy_cache"));
    v.push(FilePattern::Builtin("**/.mypy_cache/**"));
    v.push(FilePattern::Builtin("**/.nox"));
    v.push(FilePattern::Builtin("**/.nox/**"));
    v.push(FilePattern::Builtin("**/.pants.d"));
    v.push(FilePattern::Builtin("**/.pants.d/**"));
    v.push(FilePattern::Builtin("**/.pyenv"));
    v.push(FilePattern::Builtin("**/.pyenv/**"));
    v.push(FilePattern::Builtin("**/.pytest_cache"));
    v.push(FilePattern::Builtin("**/.pytest_cache/**"));
    v.push(FilePattern::Builtin("**/.pytype"));
    v.push(FilePattern::Builtin("**/.pytype/**"));
    v.push(FilePattern::Builtin("**/.ruff_cache"));
    v.push(FilePattern::Builtin("**/.ruff_cache/**"));
    v.push(FilePattern::Builtin("**/.svn"));
    v.push(FilePattern::Builtin("**/.svn/**"));
    v.push(FilePattern::Builtin("**/.tox"));
    v.push(FilePattern::Builtin("**/.tox/**"));
    v.push(FilePattern::Builtin("**/.venv"));
    v.push(FilePattern::Builtin("**/.venv/**"));
    v.push(FilePattern::Builtin("**/.vscode"));
    v.push(FilePattern::Builtin("**/.vscode/**"));
    v.push(FilePattern::Builtin("**/__pypackages__"));
    v.push(FilePattern::Builtin("**/__pypackages__/**"));
    v.push(FilePattern::Builtin("**/__pycache__"));
    v.push(FilePattern::Builtin("**/__pycache__/**"));
    v.push(FilePattern::Builtin("**/_build"));
    v.push(FilePattern::Builtin("**/_build/**"));
    v.push(FilePattern::Builtin("**/buck-out"));
    v.push(FilePattern::Builtin("**/buck-out/**"));
    v.push(FilePattern::Builtin("**/dist"));
    v.push(FilePattern::Builtin("**/dist/**"));
    v.push(FilePattern::Builtin("**/node_modules"));
    v.push(FilePattern::Builtin("**/node_modules/**"));
    v.push(FilePattern::Builtin("**/site-packages"));
    v.push(FilePattern::Builtin("**/site-packages/**"));
    v.push(FilePattern::Builtin("**/venv"));
    v.push(FilePattern::Builtin("**/venv/**"));
    proof {
        assert(pattern_views(v@) =~= default_exclude_views());
    }
    v
}

/// The default includes list, as patterns.
pub fn default_include_patterns() -> (r: Vec<FilePattern>)
    ensures
        pattern_views(r@) == default_include_views(),
{
    let mut v: Vec<FilePattern> = Vec::new();
    v.push(FilePattern::Builtin("examples/notes/**"));
    proof {
        assert(pattern_views(v@) =~= default_include_views());
    }
    v
}

/// The per-invocation resolution plan: which files are explicitly included
/// in the walk, which are excluded, and the user's own exclusions. Merges
/// are value-returning (extend and replace), never in-place mutation of a
/// shared set.
#[derive(Debug)]
pub struct FileResolverSettings {
    /// Files that are explicitly included in the walk.
    pub includes: FilePatternSet,
    /// Files that are explicitly excluded from the walk.
    pub exclude: FilePatternSet,
    /// Any user extensions to the exclusion patterns.
    pub user_exclude: FilePatternSet,
    /// Whether to enforce file exclusions.
    pub force_exclude: bool,
}

impl FileResolverSettings {
    /// Every set's compiled matcher is consistent with its patterns.
    pub open spec fn wf(&self) -> bool {
        &&& self.includes.wf()
        &&& self.exclude.wf()
        &&& self.user_exclude.wf()
    }

    /// The default plan: the built-in includes allowance, the standard
    /// exclude directories, no user exclusions. It succeeds exactly when
    /// both default lists compile.
    pub fn new() -> (r: Result<FileResolverSettings, TeamSearchError>)
        ensures
            r is Ok <==> pattern_list_ok(default_include_views()) && pattern_list_ok(
                default_exclude_views(),
            ),
            r matches Ok(s) ==> {
                &&& s.wf()
                &&& s.includes@ == default_include_views()
                &&& s.exclude@ == default_exclude_views()
                &&& s.user_exclude@ == Seq::<Seq<char>>::empty()
                &&& s.force_exclude == false
            },
            r matches Err(e) ==> e is InvalidPatternError,
    {
        let includes = match FilePatternSet::try_from_iter(default_include_patterns()) {
            Ok(s) => s,
            Err(e) => {
                return Err(e);
            },
        };
        let exclude = match FilePatternSet::try_from_iter(default_exclude_patterns()) {
            Ok(s) => s,
            Err(e) => {
                return Err(e);
            },
        };
        Ok(
            FileResolverSettings {
                includes,
                exclude,
                user_exclude: FilePatternSet::empty(),
                force_exclude: false,
            },
        )
    }
}

/// The settings of one invocation: whether standard ignore files are
/// respected during the walk, where the manifest lives, and the resolution
/// plan.
#[derive(Debug)]
pub struct Settings {
    /// Whether ignore-file conventions suppress entries during the walk.
    pub respect_gitignore: bool,
    /// Path to the manifest file.
    pub codeowners: String,
    /// File inclusion and exclusion settings.
    pub file_resolver: FileResolverSettings,
}

impl Settings {
    /// Settings with the default resolution plan. It succeeds exactly when
    /// both default pattern lists compile.
    pub fn new(respect_gitignore: bool, codeowners: String) -> (r: Result<
        Settings,
        TeamSearchError,
    >)
        ensures
            r is Ok <==> pattern_list_ok(default_include_views()) && pattern_list_ok(
                default_exclude_views(),
            ),
            r matches Ok(s) ==> {
                &&& s.respect_gitignore == respect_gitignore
                &&& s.codeowners == codeowners
                &&& s.file_resolver.wf()
                &&& s.file_resolver.includes@ == default_include_views()
                &&& s.file_resolver.exclude@ == default_exclude_views()
                &&& s.file_resolver.user_exclude@ == Seq::<Seq<char>>::empty()
                &&& s.file_resolver.force_exclude == false
            },
            r matches Err(e) ==> e is InvalidPatternError,
    {
        match FileResolverSettings::new() {
            Ok(file_resolver) => Ok(Settings { respect_gitignore, codeowners, file_resolver }),
            Err(e) => Err(e),
        }
    }
}

/// The index of the first pattern of the list that is not a valid glob.
pub open spec fn first_invalid(ps: Seq<FilePattern>) -> int
    decreases ps.len(),
{
    if ps.len() == 0 {
        0
    } else if !glob_valid(ps[0]@) {
        0
    } else {
        1 + first_invalid(ps.drop_first())
    }
}

/// If every pattern before `i` is valid and the pattern at `i` is not,
/// then `i` is the first invalid index.
pub proof fn lemma_first_invalid(ps: Seq<FilePattern>, i: int)
    requires
        0 <= i < ps.len(),
        !glob_valid(ps[i]@),
        forall|j: int| 0 <= j < i ==> glob_valid(#[trigger] ps[j]@),
    ensures
        first_invalid(ps) == i,
    decreases i,
{
    if i == 0 {
    } else {
        lemma_first_invalid(ps.drop_first(), i - 1);
    }
}

/// Extension law: a path matches the concatenation of two pattern lists
/// exactly when it matches at least one of them. In particular, for any
/// pattern set `S` extended with patterns `P`, a path matches the extended
/// set exactly when it matches `S` or matches a set compiled from `P` alone.
pub proof fn lemma_set_matches_append(a: Seq<Seq<char>>, b: Seq<Seq<char>>, path: Seq<char>)
    ensures
        set_matches(a + b, path) == (set_matches(a, path) || set_matches(b, path)),
{
    if set_matches(a + b, path) {
        let i = choose|i: int| 0 <= i < (a + b).len() && glob_matches((a + b)[i], path);
        if i < a.len() {
            assert(glob_matches(a[i], path));
        } else {
            assert(glob_matches(b[i - a.len()], path));
        }
    }
    if set_matches(a, path) {
        let i = choose|i: int| 0 <= i < a.len() && glob_matches(a[i], path);
        assert(glob_matches((a + b)[i], path));
    }
    if set_matches(b, path) {
        let i = choose|i: int| 0 <= i < b.len() && glob_matches(b[i], path);
        assert(glob_matches((a + b)[a.len() + i], path));
    }
}

} // verus!
