use teamsearch::codeowners::CodeOwners;
use teamsearch::error::TeamSearchError;

const SIMPLE_MANIFEST: &str = "\n/src/ @dev-team\n/docs/ @docs-team @dev-team\n/tests/\n        ";

#[test]
fn test_parse_from_file() {
    let codeowners_content = "\n# This is a comment\n/src/ @dev-team\n/docs/ @docs-team @dev-team\n/tests/ \n        ";
    let root = "/repo";

    let code_owners = CodeOwners::parse_from_contents(codeowners_content, root).unwrap();

    // Check if teams exist
    assert!(code_owners.has_team("@dev-team"));
    assert!(code_owners.has_team("@docs-team"));
    assert!(!code_owners.has_team("@non-existent-team"));

    // Check patterns for teams
    let dev_team_patterns = code_owners.get_patterns_for_team("@dev-team");
    assert_eq!(dev_team_patterns.len(), 2);

    let docs_team_patterns = code_owners.get_patterns_for_team("@docs-team");
    assert_eq!(docs_team_patterns.len(), 1);

    // Check ignored patterns
    let ignored_patterns = code_owners.get_ignored_patterns();
    assert_eq!(ignored_patterns.len(), 1);
}

#[test]
fn test_is_owned_by() {
    let root = "/repo";
    let code_owners = CodeOwners::parse_from_contents(SIMPLE_MANIFEST, root).unwrap();

    // Test file ownership
    assert!(code_owners.is_owned_by("/repo/src/main.rs", "@dev-team"));
    assert!(!code_owners.is_owned_by("/repo/src/main.rs", "@docs-team"));

    assert!(code_owners.is_owned_by("/repo/docs/README.md", "@docs-team"));
    assert!(code_owners.is_owned_by("/repo/docs/README.md", "@dev-team"));

    // Test directory ownership
    assert!(code_owners.is_owned_by("/repo/src/", "@dev-team"));
    assert!(!code_owners.is_owned_by("/repo/src/", "@docs-team"));
}

#[test]
fn test_is_owned() {
    let codeowners_content = "\n/src/ @dev-team\n/docs/ @docs-team\n/tests/\n        ";
    let root = "/repo";
    let code_owners = CodeOwners::parse_from_contents(codeowners_content, root).unwrap();

    // Test if files are owned by any team
    assert!(code_owners.is_owned("/repo/src/main.rs"));
    assert!(code_owners.is_owned("/repo/docs/README.md"));

    // Tests directory is ignored, so it should not be owned
    assert!(!code_owners.is_owned("/repo/tests"));
}

#[test]
fn test_lookup() {
    let root = "/repo";
    let code_owners = CodeOwners::parse_from_contents(SIMPLE_MANIFEST, root).unwrap();

    // Test lookup for files
    let src_owners = code_owners.lookup("/repo/src/main.rs");
    assert_eq!(src_owners.len(), 1);
    assert!(src_owners.contains(&"@dev-team".to_string()));

    let docs_owners = code_owners.lookup("/repo/docs/README.md");
    assert_eq!(docs_owners.len(), 2);
    assert!(docs_owners.contains(&"@docs-team".to_string()));
    assert!(docs_owners.contains(&"@dev-team".to_string()));

    // Test lookup for directories
    let src_dir_owners = code_owners.lookup("/repo/src/");
    assert_eq!(src_dir_owners.len(), 1);
    assert!(src_dir_owners.contains(&"@dev-team".to_string()));
}

#[test]
fn test_complex_patterns() {
    let codeowners_content = "\n# Root files\n/**/*.md @docs-team\n\n# Source code\n/src/*.rs @dev-team\n/src/api/ @api-team\n/src/ui/ @ui-team\n\n# Documentation with multiple owners\n/docs/ @docs-team @dev-team\n\n# External libraries\n/lib/ @dev-team @sec-team\n\n# Tests with no explicit owner\n/tests/\n        ";
    let root = "/repo";
    let code_owners = CodeOwners::parse_from_contents(codeowners_content, root).unwrap();

    // Test root markdown files
    let readme_owners = code_owners.lookup("/repo/README.md");
    assert_eq!(readme_owners.len(), 1);
    assert!(readme_owners.contains(&"@docs-team".to_string()));

    // Test src files
    let main_owners = code_owners.lookup("/repo/src/main.rs");
    assert_eq!(main_owners.len(), 1);
    assert!(main_owners.contains(&"@dev-team".to_string()));

    // Test api files
    let api_owners = code_owners.lookup("/repo/src/api/api.rs");
    assert_eq!(api_owners.len(), 2);
    assert!(api_owners.contains(&"@api-team".to_string()));
    assert!(api_owners.contains(&"@dev-team".to_string()));

    // Test ui files
    let ui_owners = code_owners.lookup("/repo/src/ui/ui.rs");
    assert_eq!(ui_owners.len(), 2);
    assert!(ui_owners.contains(&"@ui-team".to_string()));
    assert!(ui_owners.contains(&"@dev-team".to_string()));

    // Test lib files
    let lib_owners = code_owners.lookup("/repo/lib/external.rs");
    assert_eq!(lib_owners.len(), 2);
    assert!(lib_owners.contains(&"@sec-team".to_string()));
    assert!(lib_owners.contains(&"@dev-team".to_string()));
}

// Directory anchoring: a manifest line `/docs/ @team` owns every file at
// any depth beneath `docs/`, and nothing whose name merely starts with
// the same letters.
#[test]
fn test_directory_anchoring() {
    let code_owners = CodeOwners::parse_from_contents("/docs/ @team\n", "").unwrap();
    assert!(code_owners.is_owned_by("docs/readme.md", "@team"));
    assert!(code_owners.is_owned_by("docs/sub/file.md", "@team"));
    assert!(!code_owners.is_owned_by("documentation/x", "@team"));
    // Anchored to the root: a nested docs directory is not owned.
    assert!(!code_owners.is_owned_by("src/docs/readme.md", "@team"));
}

// A root that is, or ends in, the separator still strips cleanly.
#[test]
fn test_root_with_trailing_separator() {
    let code_owners = CodeOwners::parse_from_contents("/src/ @dev\n", "/").unwrap();
    assert!(code_owners.is_owned("/src/main.rs"));
    assert!(!code_owners.is_owned("/other/main.rs"));

    let slashed = CodeOwners::parse_from_contents("/src/ @dev\n", "/repo/").unwrap();
    assert!(slashed.is_owned("/repo/src/main.rs"));
    assert!(!slashed.is_owned("/elsewhere/src/main.rs"));
}

// Ownerless exclusion: a line with no owner tokens marks its paths as
// owned by no team, even though they exist.
#[test]
fn test_ownerless_exclusion() {
    let code_owners = CodeOwners::parse_from_contents("/tests/\n", "").unwrap();
    assert!(!code_owners.is_owned("tests/unit.rs"));
    assert_eq!(code_owners.get_ignored_patterns().len(), 1);
}

// Multi-owner union: both owners of one line own the path, and nobody
// else; the report order is first-declaration order.
#[test]
fn test_multi_owner_union() {
    let code_owners = CodeOwners::parse_from_contents("/docs/ @a @b\n", "").unwrap();
    let owners = code_owners.lookup("docs/readme.md");
    assert_eq!(owners, vec!["@a".to_string(), "@b".to_string()]);
}

// A team named twice on one line receives the pattern twice; teams keep
// first-declaration order across lines.
#[test]
fn test_duplicate_owner_tokens() {
    let code_owners =
        CodeOwners::parse_from_contents("/a/ @x @x\n/b/ @y\n/c/ @x\n", "").unwrap();
    assert_eq!(code_owners.get_patterns_for_team("@x").len(), 3);
    assert_eq!(code_owners.get_patterns_for_team("@y").len(), 1);
    assert_eq!(code_owners.team_names(), vec!["@x".to_string(), "@y".to_string()]);
    // Unknown team: empty, not an error.
    assert_eq!(code_owners.get_patterns_for_team("@zzz").len(), 0);
}

// Tokens are separated by any Unicode whitespace, and lines are trimmed
// of it, as str::trim and split_whitespace would.
#[test]
fn test_unicode_whitespace_separators() {
    let content = "\u{00A0}/src/\u{3000}@dev\u{2028}@ops\u{000C}\n";
    let code_owners = CodeOwners::parse_from_contents(content, "").unwrap();
    assert!(code_owners.has_team("@dev"));
    assert!(code_owners.has_team("@ops"));
    assert!(code_owners.is_owned_by("src/lib.rs", "@dev"));
    assert!(code_owners.is_owned_by("src/lib.rs", "@ops"));
}

// Manifest read failure: the read error becomes ManifestReadError and
// nothing else is produced.
#[test]
fn test_manifest_read_failure() {
    let r = CodeOwners::from_read_result(Err("missing/CODEOWNERS".to_string()), "/repo");
    match r {
        Err(TeamSearchError::ManifestReadError(p)) => assert_eq!(p, "missing/CODEOWNERS"),
        _ => panic!("expected a manifest read error"),
    }
}

// A successful read parses exactly as parse_from_contents does.
#[test]
fn test_from_read_result_ok() {
    let r = CodeOwners::from_read_result(Ok("/src/ @dev\n".to_string()), "/repo").unwrap();
    assert!(r.has_team("@dev"));
    assert!(r.is_owned("/repo/src/lib.rs"));
}

// An invalid glob in an owned pattern fails the parse, naming it.
#[test]
fn test_invalid_manifest_pattern() {
    let r = CodeOwners::parse_from_contents("/src/[ @dev\n", "");
    match r {
        Err(TeamSearchError::InvalidPatternError(p)) => assert_eq!(p, "src/["),
        _ => panic!("expected an invalid pattern error"),
    }
}
