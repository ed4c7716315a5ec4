use gwt_sweep::cli::{default_args, Cli};
use gwt_sweep::config::SweepConfig;
use gwt_sweep::git::{DiscoveryError, MergeBase, WorktreeInfo};
use gwt_sweep::report::{
    ACTION_ERROR, ACTION_REMOVED, ACTION_SKIP, ACTION_WOULD_REMOVE, BRANCH_ACTION_DELETED,
    BRANCH_ACTION_ERROR, BRANCH_ACTION_WOULD_DELETE, KIND_REPOSITORY_ERROR, KIND_WORKTREE,
};
use gwt_sweep::sweep::{
    collect_reasons, considers_worktree, delete_base_outcome, error_item, evaluate_worktree, matches_filters,
    merge_base_outcome, path_matches, plan_reasons, record_removal, should_remove, start_report,
    repo_step, wants_branch_check_exec, wants_branch_deletion_exec, wants_delete_base_exec,
    wants_dirty_state_exec, ReasonProbes, RepoAction, RepoContext, RepoEvent, RepoStage,
};

fn worktree(branch: Option<&str>) -> WorktreeInfo {
    WorktreeInfo {
        name: "feature-wt".to_owned(),
        path: "/tmp/feature-wt".to_owned(),
        file_name: Some("feature-wt".to_owned()),
        head: Some("abc".to_owned()),
        branch: branch.map(|b| b.to_owned()),
        locked: false,
        prunable: false,
        inspection_error: None,
    }
}

fn main_base() -> MergeBase {
    MergeBase {
        display: "main".to_owned(),
        oid: "def".to_owned(),
        protected_branch_ref: Some("refs/heads/main".to_owned()),
    }
}

fn context(merge: bool, delete: bool) -> RepoContext {
    RepoContext {
        merge_base: if merge { Some(main_base()) } else { None },
        branch_delete_base: if delete { Some(main_base()) } else { None },
    }
}

fn no_probes() -> ReasonProbes {
    ReasonProbes { gone: None, merged: None, older_than: None }
}

fn all_config(force: bool) -> SweepConfig {
    SweepConfig::from_args(Cli { all: true, force, ..default_args() }).unwrap()
}

#[test]
fn default_selectors_collect_gone_and_merged_reasons() {
    let config = SweepConfig::from_args(default_args()).unwrap();
    let wt = worktree(Some("feature"));
    let ctx = context(true, false);
    let plan = plan_reasons(&wt, &ctx, &config);
    assert!(plan.gone && plan.merged && !plan.older_than);
    let probes = ReasonProbes { gone: Some(Ok(true)), merged: Some(Ok(true)), older_than: None };
    let set = collect_reasons(&wt, &ctx, &config, &probes);
    assert_eq!(set.reasons, vec!["gone".to_owned(), "merged:main".to_owned()]);
    assert!(set.errors.is_empty());
}

#[test]
fn reason_errors_are_reported() {
    let config = SweepConfig::from_args(Cli {
        gone: true,
        merged: true,
        older_than: Some(86_400),
        ..default_args()
    })
    .unwrap();
    let wt = worktree(Some("feature"));
    let ctx = context(true, false);
    let probes = ReasonProbes {
        gone: Some(Err("no upstream".to_owned())),
        merged: Some(Err("bad graph".to_owned())),
        older_than: Some(Err("denied".to_owned())),
    };
    let set = collect_reasons(&wt, &ctx, &config, &probes);
    assert_eq!(
        set.reasons,
        vec!["gone:error".to_owned(), "merged:error".to_owned(), "older_than:error".to_owned()]
    );
    assert_eq!(
        set.errors,
        vec![
            "failed to inspect gone upstream for branch `feature`: no upstream".to_owned(),
            "failed to inspect merge state against main: bad graph".to_owned(),
            "failed to scan mtimes under /tmp/feature-wt: denied".to_owned(),
        ]
    );

    let evaluation = evaluate_worktree("/repo", &wt, false, &ctx, &config, &probes, None, None)
        .unwrap();
    assert_eq!(evaluation.item.action, ACTION_ERROR);
    assert!(!evaluation.can_remove);
    assert_eq!(
        evaluation.item.error.as_deref(),
        Some(
            "failed to inspect gone upstream for branch `feature`: no upstream; failed to inspect merge state against main: bad graph; failed to scan mtimes under /tmp/feature-wt: denied"
        )
    );
}

#[test]
fn older_than_reason_names_the_age() {
    let config = SweepConfig::from_args(Cli { older_than: Some(1_209_600), ..default_args() })
        .unwrap();
    let wt = worktree(Some("feature"));
    let ctx = context(false, false);
    let probes = ReasonProbes { gone: None, merged: None, older_than: Some(Ok(true)) };
    let set = collect_reasons(&wt, &ctx, &config, &probes);
    assert_eq!(set.reasons, vec!["older_than:2w".to_owned()]);
}

#[test]
fn required_merge_base_missing_is_an_error_reason() {
    let config = SweepConfig::from_args(Cli { merged: true, ..default_args() }).unwrap();
    let wt = worktree(Some("feature"));
    let set = collect_reasons(&wt, &context(false, false), &config, &no_probes());
    assert_eq!(set.reasons, vec!["merged:error".to_owned()]);
    assert_eq!(
        set.errors,
        vec!["failed to resolve merge base; pass --merged-to <ref>".to_owned()]
    );

    let mut detached = worktree(None);
    detached.head = None;
    let set = collect_reasons(&detached, &context(true, false), &config, &no_probes());
    assert_eq!(
        set.errors,
        vec!["failed to inspect merge state: worktree HEAD is unavailable".to_owned()]
    );
}

#[test]
fn current_worktree_is_omitted_without_all_and_protected_with_it() {
    let config = SweepConfig::from_args(Cli { gone: true, ..default_args() }).unwrap();
    let wt = worktree(Some("feature"));
    let ctx = context(false, false);
    assert!(evaluate_worktree("/repo", &wt, true, &ctx, &config, &no_probes(), None, None)
        .is_none());

    let config = all_config(true);
    assert!(!wants_dirty_state_exec(&wt, true, &ctx, &config, &no_probes()));
    let evaluation =
        evaluate_worktree("/repo", &wt, true, &ctx, &config, &no_probes(), None, None).unwrap();
    assert!(!evaluation.can_remove);
    assert!(!should_remove(&config, &evaluation));
    assert_eq!(evaluation.item.action, ACTION_SKIP);
    assert_eq!(evaluation.item.skip_reason.as_deref(), Some("current worktree is protected"));
    assert_eq!(evaluation.item.kind, KIND_WORKTREE);
    assert_eq!(evaluation.item.reasons, vec!["all".to_owned()]);
}

#[test]
fn locked_prunable_and_broken_worktrees_are_kept() {
    let config = all_config(true);
    let ctx = context(false, false);
    let mut locked = worktree(Some("feature"));
    locked.locked = true;
    let e = evaluate_worktree("/repo", &locked, false, &ctx, &config, &no_probes(), None, None)
        .unwrap();
    assert_eq!(e.item.skip_reason.as_deref(), Some("locked worktree is protected"));
    assert!(e.item.locked && !e.can_remove);

    let mut prunable = worktree(Some("feature"));
    prunable.prunable = true;
    let e = evaluate_worktree("/repo", &prunable, false, &ctx, &config, &no_probes(), None, None)
        .unwrap();
    assert_eq!(e.item.action, ACTION_SKIP);
    assert_eq!(
        e.item.skip_reason.as_deref(),
        Some("prunable worktree metadata is not removed by sweep")
    );

    let mut broken = worktree(Some("feature"));
    broken.inspection_error = Some("no HEAD".to_owned());
    let e = evaluate_worktree("/repo", &broken, false, &ctx, &config, &no_probes(), None, None)
        .unwrap();
    assert_eq!(e.item.action, ACTION_ERROR);
    assert_eq!(e.item.error.as_deref(), Some("failed to inspect worktree metadata: no HEAD"));
}

#[test]
fn dirty_worktrees_are_skipped_unless_allowed() {
    let ctx = context(false, false);
    let wt = worktree(Some("feature"));
    let config = all_config(false);
    assert!(wants_dirty_state_exec(&wt, false, &ctx, &config, &no_probes()));
    let e = evaluate_worktree("/repo", &wt, false, &ctx, &config, &no_probes(), Some(Ok(true)), None)
        .unwrap();
    assert_eq!(e.item.action, ACTION_SKIP);
    assert!(e.item.dirty);
    assert_eq!(
        e.item.skip_reason.as_deref(),
        Some("worktree has uncommitted or untracked changes")
    );
    assert!(!e.can_remove);

    let config = SweepConfig::from_args(Cli {
        all: true,
        force: true,
        force_with_dirty: true,
        ..default_args()
    })
    .unwrap();
    let e = evaluate_worktree("/repo", &wt, false, &ctx, &config, &no_probes(), Some(Ok(true)), None)
        .unwrap();
    assert!(e.can_remove && e.item.dirty);
    assert!(should_remove(&config, &e));

    let e = evaluate_worktree(
        "/repo",
        &wt,
        false,
        &ctx,
        &config,
        &no_probes(),
        Some(Err("status failed".to_owned())),
        None,
    )
    .unwrap();
    assert_eq!(e.item.action, ACTION_ERROR);
    assert_eq!(e.item.error.as_deref(), Some("failed to inspect dirty state: status failed"));
}

#[test]
fn dry_run_marks_would_remove_and_would_delete() {
    let config = SweepConfig::from_args(Cli { all: true, delete_branch: true, ..default_args() })
        .unwrap();
    let ctx = context(false, true);
    let wt = worktree(Some("feature"));
    let dirty = Some(Ok(false));
    assert!(wants_branch_check_exec(&wt, false, &ctx, &config, &no_probes(), &dirty));
    let e = evaluate_worktree("/repo", &wt, false, &ctx, &config, &no_probes(), dirty, Some(Ok(())))
        .unwrap();
    assert_eq!(e.item.action, ACTION_WOULD_REMOVE);
    assert_eq!(e.item.branch_action.as_deref(), Some(BRANCH_ACTION_WOULD_DELETE));
    assert_eq!(e.branch_to_delete.as_deref(), Some("feature"));
    assert!(e.can_remove);
    assert!(!should_remove(&config, &e));
}

#[test]
fn dry_run_reports_branch_check_failure() {
    let config = SweepConfig::from_args(Cli { all: true, delete_branch: true, ..default_args() })
        .unwrap();
    let ctx = context(false, true);
    let wt = worktree(Some("feature"));
    let e = evaluate_worktree(
        "/repo",
        &wt,
        false,
        &ctx,
        &config,
        &no_probes(),
        Some(Ok(false)),
        Some(Err("local branch `feature` is not merged into the deletion base".to_owned())),
    )
    .unwrap();
    assert_eq!(e.item.action, ACTION_WOULD_REMOVE);
    assert_eq!(e.item.branch_action.as_deref(), Some(BRANCH_ACTION_ERROR));
    assert!(e.item.branch_error.as_deref().unwrap().contains("not merged"));
}

#[test]
fn missing_deletion_base_is_a_branch_error() {
    let config = SweepConfig::from_args(Cli {
        all: true,
        force: true,
        delete_branch: true,
        ..default_args()
    })
    .unwrap();
    let ctx = context(false, false);
    let wt = worktree(Some("feature"));
    let dirty = Some(Ok(false));
    assert!(!wants_branch_check_exec(&wt, false, &ctx, &config, &no_probes(), &dirty));
    let mut e = evaluate_worktree("/repo", &wt, false, &ctx, &config, &no_probes(), dirty, None)
        .unwrap();
    assert_eq!(e.item.action, ACTION_SKIP);
    assert_eq!(
        e.item.branch_error.as_deref(),
        Some("failed to resolve branch deletion base")
    );
    assert!(should_remove(&config, &e));
    record_removal(&mut e, &ctx, Ok(()), None);
    assert_eq!(e.item.action, ACTION_REMOVED);
    assert_eq!(e.item.branch_action.as_deref(), Some(BRANCH_ACTION_ERROR));
    assert!(!e.item.branch_deleted);
}

#[test]
fn forced_removal_deletes_the_branch_after_the_worktree() {
    let config = SweepConfig::from_args(Cli {
        merged: true,
        force: true,
        delete_branch: true,
        ..default_args()
    })
    .unwrap();
    let ctx = context(true, true);
    let wt = worktree(Some("feature"));
    let probes = ReasonProbes { gone: None, merged: Some(Ok(true)), older_than: None };
    let mut e = evaluate_worktree("/repo", &wt, false, &ctx, &config, &probes, Some(Ok(false)), Some(Ok(())))
        .unwrap();
    assert_eq!(e.item.action, ACTION_SKIP);
    assert!(e.item.branch_action.is_none());
    assert!(should_remove(&config, &e));
    record_removal(&mut e, &ctx, Ok(()), Some(Ok(())));
    assert_eq!(e.item.action, ACTION_REMOVED);
    assert_eq!(e.item.branch_action.as_deref(), Some(BRANCH_ACTION_DELETED));
    assert!(e.item.branch_deleted);
    assert_eq!(e.item.reasons, vec!["merged:main".to_owned()]);
}

#[test]
fn failed_removal_and_failed_deletion_are_reported() {
    let config = SweepConfig::from_args(Cli {
        all: true,
        force: true,
        delete_branch: true,
        ..default_args()
    })
    .unwrap();
    let ctx = context(false, true);
    let wt = worktree(Some("feature"));
    let mut e = evaluate_worktree("/repo", &wt, false, &ctx, &config, &no_probes(), Some(Ok(false)), Some(Ok(())))
        .unwrap();
    record_removal(&mut e, &ctx, Err("prune failed".to_owned()), None);
    assert_eq!(e.item.action, ACTION_ERROR);
    assert_eq!(e.item.error.as_deref(), Some("prune failed"));
    assert!(!e.item.branch_deleted);

    let mut e = evaluate_worktree("/repo", &wt, false, &ctx, &config, &no_probes(), Some(Ok(false)), Some(Ok(())))
        .unwrap();
    record_removal(
        &mut e,
        &ctx,
        Ok(()),
        Some(Err("local branch `main` is the merge target and cannot be deleted".to_owned())),
    );
    assert_eq!(e.item.action, ACTION_REMOVED);
    assert_eq!(e.item.branch_action.as_deref(), Some(BRANCH_ACTION_ERROR));
    assert!(e.item.branch_error.as_deref().unwrap().contains("merge target"));
}

#[test]
fn filters_keep_and_drop_worktrees() {
    let wt = worktree(Some("feature/x"));
    let config = SweepConfig::from_args(Cli {
        all: true,
        branch_globs: vec!["feature/*".to_owned()],
        ..default_args()
    })
    .unwrap();
    assert!(matches_filters(&wt, &config));
    assert!(!matches_filters(&worktree(None), &config));

    let config = SweepConfig::from_args(Cli {
        all: true,
        exclude_branch_globs: vec!["feature/*".to_owned()],
        ..default_args()
    })
    .unwrap();
    assert!(!matches_filters(&wt, &config));
    assert!(matches_filters(&worktree(None), &config));

    let config = SweepConfig::from_args(Cli {
        all: true,
        path_globs: vec!["feature-wt".to_owned()],
        ..default_args()
    })
    .unwrap();
    assert!(matches_filters(&wt, &config));
    let set = config.include_path.as_ref().unwrap();
    assert!(path_matches(set, "/tmp/feature-wt", Some("feature-wt")));
    assert!(!path_matches(set, "/tmp/feature-wt", None));

    let config = SweepConfig::from_args(Cli {
        all: true,
        exclude_path_globs: vec!["/tmp/*".to_owned()],
        ..default_args()
    })
    .unwrap();
    assert!(!matches_filters(&wt, &config));

    let probes = no_probes();
    assert!(evaluate_worktree("/repo", &wt, false, &context(false, false), &config, &probes, None, None)
        .is_none());
}

#[test]
fn repository_merge_bases() {
    let required = SweepConfig::from_args(Cli { merged: true, ..default_args() }).unwrap();
    let item = merge_base_outcome("/repo", &required, Some(Ok(None))).err().unwrap();
    assert_eq!(item.kind, KIND_REPOSITORY_ERROR);
    assert_eq!(item.reasons, vec!["merged:error".to_owned()]);
    assert!(item.error.as_deref().unwrap().contains("--merged-to"));

    let item = merge_base_outcome("/repo", &required, Some(Err("broken".to_owned())))
        .err()
        .unwrap();
    assert_eq!(item.reasons, vec!["repo:error".to_owned()]);
    assert_eq!(item.error.as_deref(), Some("broken"));

    let defaults = SweepConfig::from_args(default_args()).unwrap();
    assert!(merge_base_outcome("/repo", &defaults, Some(Err("broken".to_owned())))
        .unwrap()
        .is_none());
    assert!(merge_base_outcome("/repo", &defaults, Some(Ok(None))).unwrap().is_none());
    let found = merge_base_outcome("/repo", &defaults, Some(Ok(Some(main_base()))))
        .unwrap()
        .unwrap();
    assert_eq!(found.display, "main");

    let gone_only = SweepConfig::from_args(Cli { gone: true, ..default_args() }).unwrap();
    assert!(merge_base_outcome("/repo", &gone_only, None).unwrap().is_none());
}

#[test]
fn repository_deletion_bases() {
    let config = SweepConfig::from_args(Cli { all: true, delete_branch: true, ..default_args() })
        .unwrap();
    assert!(wants_delete_base_exec(&config, &None));
    assert!(!wants_delete_base_exec(&config, &Some(main_base())));
    let reused = delete_base_outcome("/repo", &config, &Some(main_base()), None).unwrap().unwrap();
    assert_eq!(reused.oid, "def");
    assert!(delete_base_outcome("/repo", &config, &None, Some(Ok(None))).unwrap().is_none());
    assert!(delete_base_outcome("/repo", &config, &None, Some(Err("x".to_owned())))
        .unwrap()
        .is_none());

    let required = SweepConfig::from_args(Cli {
        merged_to: Some("trunk".to_owned()),
        delete_branch: true,
        ..default_args()
    })
    .unwrap();
    let item = delete_base_outcome("/repo", &required, &None, Some(Err("x".to_owned())))
        .err()
        .unwrap();
    assert_eq!(item.reasons, vec!["repo:error".to_owned()]);

    let no_delete = SweepConfig::from_args(Cli { all: true, ..default_args() }).unwrap();
    assert!(!wants_delete_base_exec(&no_delete, &None));
    assert!(delete_base_outcome("/repo", &no_delete, &Some(main_base()), None)
        .unwrap()
        .is_none());
}

#[test]
fn reports_start_with_discovery_errors() {
    let config = all_config(false);
    let report = start_report(
        &config,
        0,
        vec![DiscoveryError {
            path: "/missing".to_owned(),
            message: "failed to resolve path /missing: gone".to_owned(),
        }],
    );
    assert_eq!(report.summary.repositories, 0);
    assert_eq!(report.summary.matched, 0);
    assert_eq!(report.summary.errors, 1);
    assert!(report.summary.dry_run);
    assert_eq!(report.items.len(), 1);
    assert_eq!(report.items[0].action, ACTION_ERROR);
    assert_eq!(report.items[0].kind, KIND_REPOSITORY_ERROR);
    assert!(report.items[0].reasons.iter().any(|reason| reason == "repo:error"));
    assert!(report.items[0].error.as_deref().unwrap().contains("failed to resolve path"));

    let item = error_item("/r", "/p", vec!["a", "b"], "e".to_owned());
    assert_eq!(item.repo, "/r");
    assert_eq!(item.path, "/p");
    assert_eq!(item.reasons, vec!["a".to_owned(), "b".to_owned()]);
}

#[test]
fn current_worktree_is_considered_only_with_all() {
    let plain = SweepConfig::from_args(default_args()).unwrap();
    let all = SweepConfig::from_args(Cli { all: true, ..default_args() }).unwrap();
    assert!(considers_worktree(false, &plain));
    assert!(!considers_worktree(true, &plain));
    assert!(considers_worktree(true, &all));
}

#[test]
fn branch_is_deleted_only_after_a_successful_removal_with_a_base() {
    let config = SweepConfig::from_args(Cli {
        merged: true,
        force: true,
        delete_branch: true,
        ..default_args()
    })
    .unwrap();
    let ctx = context(true, true);
    let wt = worktree(Some("feature"));
    let probes = ReasonProbes { gone: None, merged: Some(Ok(true)), older_than: None };
    let e = evaluate_worktree("/repo", &wt, false, &ctx, &config, &probes, Some(Ok(false)), Some(Ok(())))
        .unwrap();
    assert!(wants_branch_deletion_exec(&e, &ctx, &Ok(())));
    assert!(!wants_branch_deletion_exec(&e, &ctx, &Err("busy".to_owned())));
    assert!(!wants_branch_deletion_exec(&e, &context(true, false), &Ok(())));
}

fn reported(action: RepoAction) -> gwt_sweep::report::SweepItem {
    match action {
        RepoAction::Report(item) => item,
        other => panic!("expected a report, got {other:?}"),
    }
}

fn next_stage(action: RepoAction) -> RepoStage {
    match action {
        RepoAction::Read(stage) => stage,
        other => panic!("expected a read, got {other:?}"),
    }
}

#[test]
fn unopenable_repository_is_reported_and_left() {
    let config = SweepConfig::from_args(default_args()).unwrap();
    let item = reported(repo_step(
        "/repo",
        &config,
        RepoStage::Opening,
        RepoEvent::Opened(Err("not a repository".to_owned())),
    ));
    assert_eq!(item.kind, KIND_REPOSITORY_ERROR);
    assert_eq!(item.path, "/repo");
    assert_eq!(item.reasons, vec!["repo:error".to_owned()]);
    assert_eq!(item.error.as_deref(), Some("not a repository"));
}

#[test]
fn default_repository_steps_resolve_the_base_then_list_then_judge() {
    let config = SweepConfig::from_args(default_args()).unwrap();
    let stage = next_stage(repo_step("/repo", &config, RepoStage::Opening, RepoEvent::Opened(Ok(()))));
    assert!(matches!(stage, RepoStage::ResolvingMergeBase));
    let stage = next_stage(repo_step(
        "/repo",
        &config,
        stage,
        RepoEvent::Resolved(Ok(Some(main_base()))),
    ));
    match &stage {
        RepoStage::Listing(ctx) => {
            assert_eq!(ctx.merge_base.as_ref().unwrap().display, "main");
            assert!(ctx.branch_delete_base.is_none());
        }
        other => panic!("expected listing, got {other:?}"),
    }
    match repo_step("/repo", &config, stage, RepoEvent::Listed(Ok(vec![worktree(Some("f"))]))) {
        RepoAction::Judge(ctx, worktrees) => {
            assert!(ctx.merge_base.is_some());
            assert_eq!(worktrees.len(), 1);
        }
        other => panic!("expected judge, got {other:?}"),
    }
}

#[test]
fn required_merge_base_that_is_missing_ends_the_repository() {
    let config = SweepConfig::from_args(Cli { merged: true, ..default_args() }).unwrap();
    let item = reported(repo_step(
        "/repo",
        &config,
        RepoStage::ResolvingMergeBase,
        RepoEvent::Resolved(Ok(None)),
    ));
    assert_eq!(item.reasons, vec!["merged:error".to_owned()]);
    assert_eq!(
        item.error.as_deref(),
        Some("failed to resolve merge base; pass --merged-to <ref>")
    );
}

#[test]
fn deletion_base_is_resolved_on_its_own_without_merge_base() {
    let config = SweepConfig::from_args(Cli { gone: true, delete_branch: true, ..default_args() })
        .unwrap();
    let stage = next_stage(repo_step("/repo", &config, RepoStage::Opening, RepoEvent::Opened(Ok(()))));
    assert!(matches!(stage, RepoStage::ResolvingDeleteBase));
    match next_stage(repo_step("/repo", &config, stage, RepoEvent::Resolved(Err("bad ref".to_owned())))) {
        RepoStage::Listing(ctx) => {
            assert!(ctx.merge_base.is_none());
            assert!(ctx.branch_delete_base.is_none());
        }
        other => panic!("expected listing, got {other:?}"),
    }
    let required = SweepConfig::from_args(Cli {
        merged_to: Some("trunk".to_owned()),
        delete_branch: true,
        ..default_args()
    })
    .unwrap();
    let item = reported(repo_step(
        "/repo",
        &required,
        RepoStage::ResolvingDeleteBase,
        RepoEvent::Resolved(Err("bad ref".to_owned())),
    ));
    assert_eq!(item.error.as_deref(), Some("bad ref"));
}

#[test]
fn merge_base_also_serves_as_deletion_base() {
    let config = SweepConfig::from_args(Cli { delete_branch: true, ..default_args() }).unwrap();
    match next_stage(repo_step(
        "/repo",
        &config,
        RepoStage::ResolvingMergeBase,
        RepoEvent::Resolved(Ok(Some(main_base()))),
    )) {
        RepoStage::Listing(ctx) => {
            assert_eq!(ctx.branch_delete_base.as_ref().unwrap().oid, "def");
            assert_eq!(ctx.merge_base.as_ref().unwrap().oid, "def");
        }
        other => panic!("expected listing, got {other:?}"),
    }
}

#[test]
fn unlistable_worktrees_are_reported() {
    let config = SweepConfig::from_args(default_args()).unwrap();
    let item = reported(repo_step(
        "/repo",
        &config,
        RepoStage::Listing(context(false, false)),
        RepoEvent::Listed(Err("failed to list worktrees".to_owned())),
    ));
    assert_eq!(item.reasons, vec!["repo:error".to_owned()]);
    assert_eq!(item.error.as_deref(), Some("failed to list worktrees"));
}
