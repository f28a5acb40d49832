use teamsearch::cli::{parse_team_name, resolve_default_files};
use teamsearch::codeowners::CodeOwners;
use teamsearch::lines::get_line_range;
use teamsearch::lookup::lookup_paths;
use teamsearch::member::Member;
use teamsearch::paths::{common_root, dedup_strings, normalize_path_to};
use teamsearch::version::{version, CommitInfo, VersionInfo};
use teamsearch::ExitStatus;

#[test]
fn test_get_line_range() {
    let contents = b"ab\ncd\nef";
    assert_eq!(get_line_range(contents, 0), (1, 0, 2));
    assert_eq!(get_line_range(contents, 2), (1, 0, 2));
    assert_eq!(get_line_range(contents, 4), (2, 3, 5));
    assert_eq!(get_line_range(contents, 6), (3, 6, 8));
    assert_eq!(get_line_range(contents, 8), (3, 6, 8));
}

#[test]
fn test_common_root() {
    let paths = vec!["/repo/src/a.rs".to_string(), "/repo/docs/b.md".to_string()];
    assert_eq!(common_root(&paths), "/repo");

    let nested = vec!["/a/b".to_string(), "/a/b/c".to_string()];
    assert_eq!(common_root(&nested), "/a/b");

    let relative = vec!["x/y".to_string(), "x/z".to_string()];
    assert_eq!(common_root(&relative), "x");

    let disjoint = vec!["/a/x".to_string(), "/b/y".to_string()];
    assert_eq!(common_root(&disjoint), "/");

    let single = vec!["/only/one".to_string()];
    assert_eq!(common_root(&single), "/only/one");

    // A single path comes back verbatim: no component normalization.
    let trailing = vec!["a/".to_string()];
    assert_eq!(common_root(&trailing), "a/");
    let doubled = vec!["//a".to_string()];
    assert_eq!(common_root(&doubled), "//a");

    // With two or more, components are folded and rejoined.
    let folded = vec!["/a//b/".to_string(), "/a/b/c".to_string()];
    assert_eq!(common_root(&folded), "/a/b");
}

#[test]
fn test_normalize_path_to() {
    assert_eq!(normalize_path_to("a/../b", "/root"), "/root/b");
    assert_eq!(normalize_path_to("/x/./y", "/root"), "/x/y");
    assert_eq!(normalize_path_to("c", "/base/dir"), "/base/dir/c");
}

#[test]
fn test_dedup_strings() {
    let items = vec![
        "b".to_string(),
        "a".to_string(),
        "b".to_string(),
        "c".to_string(),
        "a".to_string(),
    ];
    assert_eq!(
        dedup_strings(items),
        vec!["b".to_string(), "a".to_string(), "c".to_string()]
    );
    assert_eq!(dedup_strings(vec![]), Vec::<String>::new());
}

#[test]
fn test_parse_team_name() {
    assert_eq!(parse_team_name("dev").unwrap(), "@dev");
    assert_eq!(parse_team_name("@dev").unwrap(), "@dev");
    assert_eq!(parse_team_name("").unwrap(), "@");
}

#[test]
fn test_resolve_default_files() {
    assert_eq!(resolve_default_files(vec![], false), vec![".".to_string()]);
    assert_eq!(resolve_default_files(vec![], true), vec!["-".to_string()]);
    let given = vec!["src".to_string(), "docs".to_string()];
    assert_eq!(resolve_default_files(given.clone(), false), given);
}

#[test]
fn test_version_render() {
    let v = version();
    assert_eq!(v.render(), "0.1.0");
    assert!(v.commit_info.is_none());

    let with_commit = VersionInfo {
        version: "1.2.3".to_string(),
        commit_info: Some(CommitInfo {
            short_commit_hash: "abc1234".to_string(),
            commit_date: "2024-01-01".to_string(),
        }),
    };
    assert_eq!(with_commit.render(), "1.2.3 (abc1234 2024-01-01)");
}

#[test]
fn test_exit_status_codes() {
    assert_eq!(ExitStatus::Success.code(), 0);
    assert_eq!(ExitStatus::Failure.code(), 1);
    assert_eq!(ExitStatus::Error.code(), 2);
}

#[test]
fn test_member_new() {
    let m = Member::new("src/a.rs".to_string(), "contents".to_string());
    assert_eq!(m.path, "src/a.rs");
    assert_eq!(m.contents, "contents");
}

#[test]
fn test_lookup_paths() {
    let code_owners = CodeOwners::parse_from_contents("/src/ @dev\n/docs/ @docs\n", "").unwrap();
    let paths = vec!["src/a.rs".to_string(), "nowhere/x".to_string()];
    let entries = lookup_paths(&code_owners, &paths);
    assert_eq!(entries.len(), 2);
    assert_eq!(entries[0].path, "src/a.rs");
    assert_eq!(entries[0].teams, vec!["@dev".to_string()]);
    assert_eq!(entries[1].path, "nowhere/x");
    assert!(entries[1].teams.is_empty());
}
