use teamsearch::error::TeamSearchError;
use teamsearch::settings::{FilePattern, FilePatternSet, FileResolverSettings, Settings};

#[test]
fn test_file_pattern_set() {
    let patterns = vec![FilePattern::User("notes/**".into())];
    let set = FilePatternSet::try_from_iter(patterns).unwrap();

    assert_eq!(set.len(), 1);
    // Patterns are anchored, with one convention on the pattern and the
    // query side: `notes/**` owns the notes directory at the root, not a
    // notes directory nested under examples/.
    assert!(!set.is_match("examples/notes/index.html"));
    assert!(!set.is_match("examples/notes/index.js"));
    assert!(!set.is_match("examples/notes/sub/index.js"));
    assert!(set.is_match("notes/index.html"));
    assert!(set.is_match("notes/sub/index.js"));
}

#[test]
fn test_pattern_set_matching_is_anchored() {
    let set = FilePatternSet::try_from_iter(vec![FilePattern::User(
        "examples/notes/**".into(),
    )])
    .unwrap();
    assert!(set.is_match("examples/notes/index.html"));
    assert!(set.is_match("examples/notes/sub/index.js"));
    assert!(!set.is_match("other/examples/notes/index.html"));
    assert!(!set.is_match("notes/index.html"));
}

// Idempotence of extension: a path matches the extended set exactly when
// it matches the original set or a set compiled from the added patterns
// alone.
#[test]
fn test_extend_matches_union() {
    let base_patterns = vec![FilePattern::User("src/**".into())];
    let added_patterns = vec![FilePattern::User("docs/**".into())];
    let base = FilePatternSet::try_from_iter(base_patterns).unwrap();
    let added_alone = FilePatternSet::try_from_iter(added_patterns.clone()).unwrap();
    let base_again =
        FilePatternSet::try_from_iter(vec![FilePattern::User("src/**".into())]).unwrap();
    let extended = base.extend(added_patterns).unwrap();

    for path in ["src/a.rs", "docs/readme.md", "other/x", "src/deep/b.rs", "docs"] {
        assert_eq!(
            extended.is_match(path),
            base_again.is_match(path) || added_alone.is_match(path),
        );
    }
    assert_eq!(extended.len(), 2);
}

#[test]
fn test_pattern_set_rejects_invalid_glob() {
    let r = FilePatternSet::try_from_iter(vec![
        FilePattern::User("ok/**".into()),
        FilePattern::User("[".into()),
    ]);
    match r {
        Err(TeamSearchError::InvalidPatternError(p)) => assert_eq!(p, "["),
        _ => panic!("expected an invalid pattern error"),
    }
}

#[test]
fn test_pattern_set_order_independent_matching() {
    let a = FilePatternSet::try_from_iter(vec![
        FilePattern::User("a/**".into()),
        FilePattern::User("b/**".into()),
    ])
    .unwrap();
    let b = FilePatternSet::try_from_iter(vec![
        FilePattern::User("b/**".into()),
        FilePattern::User("a/**".into()),
    ])
    .unwrap();
    for path in ["a/x", "b/y", "c/z"] {
        assert_eq!(a.is_match(path), b.is_match(path));
    }
}

#[test]
fn test_into_file_patterns_iter_round_trip() {
    let set = FilePatternSet::try_from_iter(vec![
        FilePattern::Builtin("dist"),
        FilePattern::User("x/**".into()),
    ])
    .unwrap();
    let patterns = set.into_file_patterns_iter();
    assert_eq!(patterns.len(), 2);
    assert_eq!(patterns[0].as_str(), "dist");
    assert_eq!(patterns[1].as_str(), "x/**");
}

#[test]
fn test_empty_set_matches_nothing() {
    let set = FilePatternSet::empty();
    assert_eq!(set.len(), 0);
    assert!(!set.is_match("anything"));
    assert!(!set.is_match(""));
}

#[test]
fn test_file_pattern_all_and_new_user() {
    let all = FilePattern::all();
    assert_eq!(all.as_str(), "**");
    let user = FilePattern::new_user("a/b".to_string());
    assert_eq!(user.as_str(), "a/b");
}

#[test]
fn test_default_resolver_settings() {
    let plan = FileResolverSettings::new().unwrap();
    assert_eq!(plan.includes.len(), 1);
    assert_eq!(plan.exclude.len(), 52);
    assert_eq!(plan.user_exclude.len(), 0);
    assert!(!plan.force_exclude);
    // The standard directories are pruned wherever they sit: the entry
    // itself and everything beneath it.
    assert!(plan.exclude.is_match("node_modules"));
    assert!(plan.exclude.is_match(".git/config"));
    assert!(plan.exclude.is_match("node_modules/pkg/index.js"));
    assert!(plan.exclude.is_match("sub/dir/.git/HEAD"));
    assert!(plan.exclude.is_match("app/node_modules"));
    assert!(!plan.exclude.is_match("src/main.rs"));
    assert!(!plan.exclude.is_match("gitty/file.rs"));
    assert!(plan.includes.is_match("examples/notes/index.html"));

    let settings = Settings::new(true, "CODEOWNERS".to_string()).unwrap();
    assert!(settings.respect_gitignore);
    assert_eq!(settings.codeowners, "CODEOWNERS");
}
