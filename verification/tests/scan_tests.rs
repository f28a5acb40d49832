use teamsearch::codeowners::CodeOwners;
use teamsearch::error::TeamSearchError;
use teamsearch::find::{plan_find, plan_orphans};
use teamsearch::matcher::{search_contents, Match};
use teamsearch::member::Member;
use teamsearch::orphans::find_orphans_with_threshold;
use teamsearch::resolver::{resolve_candidates, ResolvedFile};
use teamsearch::scan::scan_members;
use teamsearch::settings::Settings;

#[test]
fn test_search_contents_byte_ranges() {
    let contents = b"one TODO here\nand TODO there\n".to_vec();
    let fm = search_contents("TODO", "a.rs".to_string(), contents).unwrap();
    assert_eq!(fm.path, "a.rs");
    assert_eq!(fm.len(), 2);
    assert!(!fm.is_empty());
    assert_eq!(fm.matches[0], Match { start: 4, end: 8 });
    assert_eq!(fm.matches[1], Match { start: 18, end: 22 });
    let snips = fm.snippets();
    assert_eq!(snips.len(), 2);
    assert_eq!(snips[0].snippet, b"TODO".to_vec());
    assert_eq!(snips[1].start, 18);
    assert_eq!(snips[1].end, 22);
}

#[test]
fn test_search_contents_no_match() {
    let fm = search_contents("xyzzy", "a.rs".to_string(), b"nothing".to_vec()).unwrap();
    assert!(fm.is_empty());
    assert_eq!(fm.len(), 0);
}

#[test]
fn test_search_contents_invalid_pattern() {
    let r = search_contents("(", "a.rs".to_string(), b"text".to_vec());
    match r {
        Err(TeamSearchError::InvalidPatternError(p)) => assert_eq!(p, "("),
        _ => panic!("expected an invalid pattern error"),
    }
}

#[test]
fn test_scan_members_sorted_and_filtered() {
    let members = vec![
        Member::new("z.rs".to_string(), "TODO z".to_string()),
        Member::new("a.rs".to_string(), "no match".to_string()),
        Member::new("m.rs".to_string(), "TODO m".to_string()),
    ];
    let out = scan_members("TODO", false, members).unwrap();
    assert_eq!(out.len(), 2);
    assert_eq!(out[0].path, "m.rs");
    assert_eq!(out[1].path, "z.rs");
}

#[test]
fn test_scan_members_invalid_pattern() {
    let members = vec![Member::new("a.rs".to_string(), "text".to_string())];
    let r = scan_members("[", false, members);
    match r {
        Err(TeamSearchError::InvalidPatternError(p)) => assert_eq!(p, "["),
        _ => panic!("expected an invalid pattern error"),
    }
}

#[test]
fn test_scan_case_insensitive() {
    let members = vec![Member::new("a.rs".to_string(), "todo and ToDo".to_string())];
    let sensitive = scan_members("TODO", false, clone_members(&members)).unwrap();
    assert_eq!(sensitive.len(), 0);
    let insensitive = scan_members("TODO", true, members).unwrap();
    assert_eq!(insensitive.len(), 1);
    assert_eq!(insensitive[0].matches.len(), 2);
}

fn clone_members(v: &Vec<Member>) -> Vec<Member> {
    v.iter().map(|m| Member::new(m.path.clone(), m.contents.clone())).collect()
}

// Scan determinism: the same pattern over the same fixed file set, also
// under another processing order, yields identical sorted output.
#[test]
fn test_scan_determinism() {
    let members = vec![
        Member::new("c.rs".to_string(), "TODO c".to_string()),
        Member::new("a.rs".to_string(), "TODO a".to_string()),
        Member::new("b.rs".to_string(), "none".to_string()),
    ];
    let shuffled = vec![
        Member::new("b.rs".to_string(), "none".to_string()),
        Member::new("a.rs".to_string(), "TODO a".to_string()),
        Member::new("c.rs".to_string(), "TODO c".to_string()),
    ];
    let out1 = scan_members("TODO", false, clone_members(&members)).unwrap();
    let out2 = scan_members("TODO", false, members).unwrap();
    let out3 = scan_members("TODO", false, shuffled).unwrap();
    let render = |out: &Vec<teamsearch::matcher::FileMatches>| {
        out.iter()
            .map(|fm| format!("{}:{:?}:{:?}", fm.path, fm.contents, fm.matches))
            .collect::<Vec<_>>()
    };
    assert_eq!(render(&out1), render(&out2));
    assert_eq!(render(&out1), render(&out3));
}

// Orphan completeness: exactly the unowned files appear, and the serial
// and concurrent strategies agree on the same fixture.
#[test]
fn test_orphans_serial_and_parallel_agree() {
    let code_owners = CodeOwners::parse_from_contents("/src/ @dev\n/tests/\n", "").unwrap();
    let universe = || {
        vec![
            ResolvedFile::Nested("src/a.rs".to_string()),
            ResolvedFile::Nested("tests/t.rs".to_string()),
            ResolvedFile::Root("stray.txt".to_string()),
        ]
    };
    // Large threshold: the serial path.
    let serial = find_orphans_with_threshold(universe(), &code_owners, 1000);
    // Zero threshold: the concurrent path.
    let parallel = find_orphans_with_threshold(universe(), &code_owners, 0);
    let paths = |v: &Vec<ResolvedFile>| {
        v.iter().map(|f| f.path().clone()).collect::<Vec<String>>()
    };
    assert_eq!(paths(&serial), vec!["tests/t.rs".to_string(), "stray.txt".to_string()]);
    assert_eq!(paths(&serial), paths(&parallel));
}

// End-to-end: a manifest, a universe of files, a pattern; scoped to one
// team only that team's files are searched, scoped to no team every
// owned file is.
#[test]
fn test_find_end_to_end() {
    let manifest = "/src/*.rs @dev\n/docs/ @docs\n";
    let code_owners = CodeOwners::parse_from_contents(manifest, "").unwrap();
    let settings = Settings::new(true, "CODEOWNERS".to_string()).unwrap();

    let run = |teams: Vec<String>| {
        let (plan, kept) =
            plan_find(&code_owners, Settings::new(true, "CODEOWNERS".to_string()).unwrap(), &teams, vec![])
                .unwrap();
        assert!(!kept.is_empty());
        let candidates = vec![
            ResolvedFile::Nested("src/a.rs".to_string()),
            ResolvedFile::Nested("src/b.rs".to_string()),
            ResolvedFile::Nested("docs/readme.md".to_string()),
        ];
        let kept_files = resolve_candidates(&plan.file_resolver, candidates);
        let members = kept_files
            .iter()
            .map(|f| {
                let contents = match f.path().as_str() {
                    "src/a.rs" => "has TODO marker",
                    "src/b.rs" => "nothing here",
                    "docs/readme.md" => "docs TODO marker",
                    _ => "",
                };
                Member::new(f.path().clone(), contents.to_string())
            })
            .collect::<Vec<_>>();
        scan_members("TODO", false, members).unwrap()
    };
    drop(settings);

    let dev_only = run(vec!["@dev".to_string()]);
    assert_eq!(dev_only.len(), 1);
    assert_eq!(dev_only[0].path, "src/a.rs");
    assert_eq!(dev_only[0].matches.len(), 1);

    let all_teams = run(vec![]);
    assert_eq!(all_teams.len(), 2);
    assert_eq!(all_teams[0].path, "docs/readme.md");
    assert_eq!(all_teams[1].path, "src/a.rs");
}

// The orphan command's plan: everything is included, but the explicitly
// ownerless paths, the user's exclusions and the builtin directories are
// excluded, so only true orphans reach the filter.
#[test]
fn test_plan_orphans_excludes_ownerless_and_builtin() {
    let code_owners = CodeOwners::parse_from_contents("/src/ @dev\n/tests/\n", "").unwrap();
    let settings = Settings::new(true, "CODEOWNERS".to_string()).unwrap();
    let plan = plan_orphans(&code_owners, settings, vec!["vendor/**".to_string()]).unwrap();

    let candidates = vec![
        ResolvedFile::Nested("src/a.rs".to_string()),
        ResolvedFile::Nested("tests/t.rs".to_string()),
        ResolvedFile::Nested(".git/config".to_string()),
        ResolvedFile::Nested("node_modules/pkg/index.js".to_string()),
        ResolvedFile::Nested("vendor/v.rs".to_string()),
        ResolvedFile::Root("stray.txt".to_string()),
    ];
    let universe = resolve_candidates(&plan.file_resolver, candidates);
    let universe_paths: Vec<String> = universe.iter().map(|f| f.path().clone()).collect();
    assert_eq!(universe_paths, vec!["src/a.rs".to_string(), "stray.txt".to_string()]);

    let orphans = find_orphans_with_threshold(universe, &code_owners, 1000);
    let orphan_paths: Vec<String> = orphans.iter().map(|f| f.path().clone()).collect();
    assert_eq!(orphan_paths, vec!["stray.txt".to_string()]);
}

// The plan keeps only known teams, deduplicated, and folds the ownerless
// patterns and the user's exclusions into the user-exclude set.
#[test]
fn test_plan_find_filters_and_excludes() {
    let code_owners =
        CodeOwners::parse_from_contents("/src/ @dev\n/docs/ @docs\n/generated/\n", "").unwrap();
    let settings = Settings::new(true, "CODEOWNERS".to_string()).unwrap();
    let teams = vec![
        "@dev".to_string(),
        "@ghost".to_string(),
        "@dev".to_string(),
    ];
    let (plan, kept) = plan_find(&code_owners, settings, &teams, vec!["vendor/**".to_string()])
        .unwrap();
    assert_eq!(kept, vec!["@dev".to_string()]);

    let candidates = vec![
        ResolvedFile::Nested("src/a.rs".to_string()),
        ResolvedFile::Nested("src/a.rs".to_string()),
        ResolvedFile::Nested("generated/g.rs".to_string()),
        ResolvedFile::Nested("vendor/v.rs".to_string()),
        ResolvedFile::Nested("docs/d.md".to_string()),
    ];
    let kept_files = resolve_candidates(&plan.file_resolver, candidates);
    let paths = kept_files.iter().map(|f| f.path().clone()).collect::<Vec<String>>();
    // Deduplicated, exclusions win over inclusion, docs not selected.
    assert_eq!(paths, vec!["src/a.rs".to_string()]);
}
