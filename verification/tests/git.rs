use gwt_sweep::git::{
    branch_tracks_gone_upstream, canonicalize_best_effort, check_branch_delete_safety,
    current_worktree, default_base, distinct_repositories, input_outcome, is_ancestor,
    is_discovery_excluded, is_scan_excluded, local_branch_ref, mtime_is_newer_than_age,
    resolve_merge_base, same_path, scan_entry, unreadable_directory, wants_branch_tip_exec,
    wants_next_default_lookup,
    worktree_info, CommitTarget, DiscoveryError, EntryProbe, EntryStep, MergeBase,
    OpenedCandidate, RefLookup, WorktreeInspection,
};

fn base(oid: &str, protected: Option<&str>) -> MergeBase {
    MergeBase {
        display: "main".to_owned(),
        oid: oid.to_owned(),
        protected_branch_ref: protected.map(|p| p.to_owned()),
    }
}

#[test]
fn best_effort_canonical_paths() {
    assert_eq!(canonicalize_best_effort("./a", Some("/x/a".to_owned())), "/x/a");
    assert_eq!(canonicalize_best_effort("./a", None), "./a");
    assert!(same_path("./a", Some("/x/a".to_owned()), "/x/a", None));
    assert!(!same_path("./a", None, "/x/a", None));
    assert_eq!(current_worktree(Ok(None), None), Ok(None));
    assert_eq!(
        current_worktree(Ok(Some("/r".to_owned())), Some("/real/r".to_owned())),
        Ok(Some("/real/r".to_owned()))
    );
    assert_eq!(
        current_worktree(Ok(Some("/r".to_owned())), None),
        Ok(Some("/r".to_owned()))
    );
    assert_eq!(current_worktree(Err("bad".to_owned()), None), Err("bad".to_owned()));
}

#[test]
fn discovery_skips_git_and_hidden_directories() {
    assert!(is_discovery_excluded(Some(".git"), true));
    assert!(is_discovery_excluded(Some(".hidden"), false));
    assert!(!is_discovery_excluded(Some(".hidden"), true));
    assert!(!is_discovery_excluded(Some("."), false));
    assert!(!is_discovery_excluded(Some("repo"), false));
    assert!(!is_discovery_excluded(None, false));
}

#[test]
fn age_scan_skips_build_directories() {
    for name in [".git", "target", "node_modules", ".venv", "venv", "dist", "build", ".cache"] {
        assert!(is_scan_excluded(name), "{name}");
    }
    assert!(!is_scan_excluded("src"));
    assert!(!is_scan_excluded(".github"));
}

#[test]
fn modification_times_against_the_age() {
    let second: i128 = 1_000_000_000;
    assert!(mtime_is_newer_than_age(100 * second, 150 * second, 60));
    assert!(!mtime_is_newer_than_age(100 * second, 160 * second, 60));
    assert!(!mtime_is_newer_than_age(100 * second, 161 * second, 60));
    assert!(mtime_is_newer_than_age(200 * second, 150 * second, 0));
    assert!(!mtime_is_newer_than_age(150 * second, 150 * second, 0));
    assert!(mtime_is_newer_than_age(-5 * second, -3 * second, 3));
}

#[test]
fn input_paths_are_classified() {
    let out = input_outcome("missing", Err("No such file".to_owned()), None, true, false);
    assert!(out.candidate.is_none() && !out.scan);
    let error = out.error.unwrap();
    assert_eq!(error.path, "missing");
    assert_eq!(error.message, "failed to resolve path missing: No such file");

    let out = input_outcome("r", Ok("/r".to_owned()), Some(Ok(Some("/r".to_owned()))), false, true);
    assert_eq!(out.candidate.as_deref(), Some("/r"));
    assert!(out.error.is_none() && !out.scan);

    let out = input_outcome("d", Ok("/d".to_owned()), Some(Ok(None)), true, true);
    assert!(out.candidate.is_none() && out.error.is_none() && out.scan);

    let out = input_outcome("d", Ok("/d".to_owned()), Some(Ok(None)), false, true);
    let error = out.error.unwrap();
    assert_eq!(error.path, "/d");
    assert_eq!(error.message, "path is not inside a Git repository: /d");

    let out = input_outcome("d", Ok("/d".to_owned()), Some(Err("boom".to_owned())), true, true);
    assert_eq!(out.error.unwrap().message, "boom");
    assert!(out.scan);
}

#[test]
fn directory_entries_are_classified() {
    match scan_entry("/d", EntryProbe::Unreadable("denied".to_owned()), false) {
        EntryStep::Report(e) => {
            assert_eq!(e.path, "/d");
            assert_eq!(e.message, "failed to read directory entry under /d: denied");
        }
        other => panic!("{other:?}"),
    }
    match scan_entry(
        "/d",
        EntryProbe::UnknownType { path: "/d/x".to_owned(), error: "gone".to_owned() },
        false,
    ) {
        EntryStep::Report(e) => {
            assert_eq!(e.path, "/d/x");
            assert_eq!(e.message, "failed to inspect file type: gone");
        }
        other => panic!("{other:?}"),
    }
    let known = |name: &str, is_dir: bool, is_symlink: bool| EntryProbe::Known {
        path: format!("/d/{name}"),
        name: Some(name.to_owned()),
        is_dir,
        is_symlink,
    };
    assert!(matches!(scan_entry("/d", known("f", false, false), false), EntryStep::Skip));
    assert!(matches!(scan_entry("/d", known("l", true, true), false), EntryStep::Skip));
    assert!(matches!(scan_entry("/d", known(".h", true, false), false), EntryStep::Skip));
    assert!(matches!(scan_entry("/d", known(".git", true, false), true), EntryStep::Skip));
    match scan_entry("/d", known(".h", true, false), true) {
        EntryStep::Descend(p) => assert_eq!(p, "/d/.h"),
        other => panic!("{other:?}"),
    }
    let error = unreadable_directory("/d", "denied");
    assert_eq!(error.message, "failed to read directory /d: denied");
}

#[test]
fn repositories_are_kept_once_per_common_directory() {
    let candidates = vec![
        OpenedCandidate {
            path: "/a".to_owned(),
            opened: Ok(("/a/.git".to_owned(), "/a".to_owned())),
        },
        OpenedCandidate { path: "/bad".to_owned(), opened: Err("cannot open".to_owned()) },
        OpenedCandidate {
            path: "/a-wt".to_owned(),
            opened: Ok(("/a/.git".to_owned(), "/a-wt".to_owned())),
        },
        OpenedCandidate {
            path: "/b".to_owned(),
            opened: Ok(("/b/.git".to_owned(), "/b".to_owned())),
        },
    ];
    let earlier = vec![DiscoveryError { path: "/x".to_owned(), message: "m".to_owned() }];
    let result = distinct_repositories(candidates, earlier);
    let repos: Vec<&str> = result.repos.iter().map(|r| r.path.as_str()).collect();
    assert_eq!(repos, vec!["/a", "/b"]);
    assert_eq!(result.errors.len(), 2);
    assert_eq!(result.errors[0].path, "/x");
    assert_eq!(result.errors[1].path, "/bad");
    assert_eq!(result.errors[1].message, "cannot open");
}

#[test]
fn explicit_merge_base_resolution() {
    let found = resolve_merge_base(
        Some("trunk"),
        Some(Ok(Some(CommitTarget {
            oid: "abc".to_owned(),
            reference_name: Some("refs/heads/trunk".to_owned()),
        }))),
        Vec::new(),
    )
    .unwrap()
    .unwrap();
    assert_eq!(found.display, "trunk");
    assert_eq!(found.oid, "abc");
    assert_eq!(found.protected_branch_ref.as_deref(), Some("refs/heads/trunk"));

    let tag = resolve_merge_base(
        Some("v1"),
        Some(Ok(Some(CommitTarget {
            oid: "abc".to_owned(),
            reference_name: Some("refs/tags/v1".to_owned()),
        }))),
        Vec::new(),
    )
    .unwrap()
    .unwrap();
    assert!(tag.protected_branch_ref.is_none());

    let missing = resolve_merge_base(Some("nope"), Some(Ok(None)), Vec::new());
    assert_eq!(missing.err().unwrap(), "merge target `nope` was not found");
    let failed = resolve_merge_base(Some("x"), Some(Err("git".to_owned())), Vec::new());
    assert_eq!(failed.err().unwrap(), "git");
}

#[test]
fn default_merge_base_resolution() {
    assert_eq!(default_base(0), ("origin/HEAD", "refs/remotes/origin/HEAD"));
    assert_eq!(default_base(1), ("main", "refs/heads/main"));
    assert_eq!(default_base(2), ("master", "refs/heads/master"));
    assert!(wants_next_default_lookup(&Vec::new()));
    assert!(wants_next_default_lookup(&vec![Ok(None)]));
    assert!(!wants_next_default_lookup(&vec![Ok(Some("a".to_owned()))]));
    assert!(!wants_next_default_lookup(&vec![Ok(None), Ok(None), Ok(None)]));

    let origin = resolve_merge_base(None, None, vec![Ok(Some("o".to_owned()))]).unwrap().unwrap();
    assert_eq!(origin.display, "origin/HEAD");
    assert!(origin.protected_branch_ref.is_none());

    let main = resolve_merge_base(None, None, vec![Ok(None), Ok(Some("m".to_owned()))])
        .unwrap()
        .unwrap();
    assert_eq!(main.display, "main");
    assert_eq!(main.oid, "m");
    assert_eq!(main.protected_branch_ref.as_deref(), Some("refs/heads/main"));

    let master =
        resolve_merge_base(None, None, vec![Ok(None), Ok(None), Ok(Some("x".to_owned()))])
            .unwrap()
            .unwrap();
    assert_eq!(master.display, "master");
    assert_eq!(master.protected_branch_ref.as_deref(), Some("refs/heads/master"));

    assert!(resolve_merge_base(None, None, vec![Ok(None), Ok(None), Ok(None)])
        .unwrap()
        .is_none());
    assert_eq!(
        resolve_merge_base(None, None, vec![Err("broken".to_owned())]).err().unwrap(),
        "broken"
    );
}

#[test]
fn gone_upstreams() {
    assert_eq!(branch_tracks_gone_upstream(RefLookup::Missing, None), Ok(false));
    assert_eq!(
        branch_tracks_gone_upstream(RefLookup::Found, Some(RefLookup::Missing)),
        Ok(true)
    );
    assert_eq!(
        branch_tracks_gone_upstream(RefLookup::Found, Some(RefLookup::Found)),
        Ok(false)
    );
    assert_eq!(
        branch_tracks_gone_upstream(RefLookup::Failed("e".to_owned()), None),
        Err("e".to_owned())
    );
    assert_eq!(
        branch_tracks_gone_upstream(RefLookup::Found, Some(RefLookup::Failed("f".to_owned()))),
        Err("f".to_owned())
    );
}

#[test]
fn ancestry() {
    assert_eq!(is_ancestor("a", "a", None), Ok(true));
    assert_eq!(is_ancestor("a", "b", Some(Ok(false))), Ok(false));
    assert_eq!(is_ancestor("a", "b", Some(Ok(true))), Ok(true));
    assert_eq!(is_ancestor("a", "b", Some(Err("e".to_owned()))), Err("e".to_owned()));
}

#[test]
fn branch_deletion_safety() {
    assert_eq!(local_branch_ref("feature"), "refs/heads/feature");
    let trunk = base("t", Some("refs/heads/main"));
    assert_eq!(
        check_branch_delete_safety("main", &trunk, Ok(()), None, None),
        Err("local branch `main` is the merge target and cannot be deleted".to_owned())
    );
    assert_eq!(
        check_branch_delete_safety("feature", &trunk, Err("no branch".to_owned()), None, None),
        Err("no branch".to_owned())
    );
    assert_eq!(
        check_branch_delete_safety("feature", &trunk, Ok(()), Some(Ok("t".to_owned())), None),
        Ok(())
    );
    assert_eq!(
        check_branch_delete_safety(
            "feature",
            &trunk,
            Ok(()),
            Some(Ok("f".to_owned())),
            Some(Ok(false))
        ),
        Err("local branch `feature` is not merged into the deletion base".to_owned())
    );
    assert_eq!(
        check_branch_delete_safety(
            "feature",
            &trunk,
            Ok(()),
            Some(Ok("f".to_owned())),
            Some(Ok(true))
        ),
        Ok(())
    );
    assert_eq!(
        check_branch_delete_safety("feature", &trunk, Ok(()), Some(Err("peel".to_owned())), None),
        Err("peel".to_owned())
    );
}

#[test]
fn listed_worktrees() {
    let prunable = worktree_info("w".to_owned(), "/w".to_owned(), None, false, true, None);
    assert!(prunable.prunable && prunable.head.is_none() && prunable.inspection_error.is_none());

    let failed = worktree_info(
        "w".to_owned(),
        "/w".to_owned(),
        Some("w".to_owned()),
        true,
        false,
        Some(WorktreeInspection::OpenFailed("denied".to_owned())),
    );
    assert!(failed.locked);
    assert_eq!(
        failed.inspection_error.as_deref(),
        Some("failed to open repository for worktree `w`: denied")
    );

    let ok = worktree_info(
        "w".to_owned(),
        "/w".to_owned(),
        Some("w".to_owned()),
        false,
        false,
        Some(WorktreeInspection::Inspected(Ok((Some("h".to_owned()), Some("b".to_owned()))))),
    );
    assert_eq!(ok.head.as_deref(), Some("h"));
    assert_eq!(ok.branch.as_deref(), Some("b"));
    assert_eq!(ok.file_name.as_deref(), Some("w"));
}

#[test]
fn branch_tip_is_read_only_for_found_branches_other_than_the_target() {
    let protected = base("def", Some("refs/heads/main"));
    assert!(wants_branch_tip_exec("feature", &protected, &Ok(())));
    assert!(!wants_branch_tip_exec("main", &protected, &Ok(())));
    assert!(!wants_branch_tip_exec("feature", &protected, &Err("missing".to_owned())));
    assert!(wants_branch_tip_exec("main", &base("def", None), &Ok(())));
}
