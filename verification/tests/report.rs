use gwt_sweep::report::{
    exit_status, new_report, record_item, update_summary, write_human_report, write_summary,
    SweepItem, SweepReport, SweepSummary, ACTION_ERROR, ACTION_REMOVED, ACTION_SKIP,
    ACTION_WOULD_REMOVE, BRANCH_ACTION_ERROR, KIND_REPOSITORY_ERROR, KIND_WORKTREE,
};

fn worktree_item(action: &str) -> SweepItem {
    SweepItem {
        kind: KIND_WORKTREE.to_owned(),
        repo: "/repo".to_owned(),
        path: "/repo-wt".to_owned(),
        branch: Some("feature".to_owned()),
        head: Some("abc".to_owned()),
        reasons: vec!["gone".to_owned()],
        dirty: false,
        locked: false,
        action: action.to_owned(),
        skip_reason: None,
        error: None,
        branch_deleted: false,
        branch_action: None,
        branch_error: None,
    }
}

#[test]
fn human_report_is_silent_when_empty() {
    let report = SweepReport {
        items: Vec::new(),
        summary: SweepSummary::default(),
    };
    let mut output = String::new();

    write_human_report(&mut output, &report, false);

    assert!(output.is_empty());
}

#[test]
fn human_report_hides_errors_and_summary() {
    let report = SweepReport {
        items: vec![
            SweepItem {
                kind: KIND_REPOSITORY_ERROR.to_owned(),
                repo: "/repo".to_owned(),
                path: "/bad".to_owned(),
                branch: None,
                head: None,
                reasons: vec!["repo:error".to_owned()],
                dirty: false,
                locked: false,
                action: ACTION_ERROR.to_owned(),
                skip_reason: None,
                error: Some("repo failed".to_owned()),
                branch_deleted: false,
                branch_action: None,
                branch_error: None,
            },
            SweepItem {
                kind: KIND_WORKTREE.to_owned(),
                repo: "/repo".to_owned(),
                path: "/repo-wt".to_owned(),
                branch: Some("feature".to_owned()),
                head: Some("abc".to_owned()),
                reasons: vec!["gone".to_owned()],
                dirty: false,
                locked: false,
                action: ACTION_WOULD_REMOVE.to_owned(),
                skip_reason: Some("skip note".to_owned()),
                error: Some("worktree detail".to_owned()),
                branch_deleted: false,
                branch_action: Some(BRANCH_ACTION_ERROR.to_owned()),
                branch_error: Some("branch detail".to_owned()),
            },
        ],
        summary: SweepSummary {
            dry_run: true,
            repositories: 1,
            matched: 1,
            would_remove: 1,
            errors: 2,
            ..SweepSummary::default()
        },
    };
    let mut output = String::new();

    write_human_report(&mut output, &report, false);

    assert!(output.contains("would_remove"));
    assert!(output.contains("/repo-wt"));
    assert!(!output.contains("/bad"));
    assert!(!output.contains("Summary"));
    assert!(!output.contains("repo failed"));
    assert!(!output.contains("worktree detail"));
    assert!(!output.contains("branch detail"));
    assert!(!output.contains("skip note"));
}

#[test]
fn verbose_human_report_includes_errors_and_summary() {
    let report = SweepReport {
        items: vec![SweepItem {
            kind: KIND_REPOSITORY_ERROR.to_owned(),
            repo: "/repo".to_owned(),
            path: "/bad".to_owned(),
            branch: None,
            head: None,
            reasons: vec!["repo:error".to_owned()],
            dirty: false,
            locked: false,
            action: ACTION_ERROR.to_owned(),
            skip_reason: None,
            error: Some("repo failed".to_owned()),
            branch_deleted: false,
            branch_action: None,
            branch_error: None,
        }],
        summary: SweepSummary {
            dry_run: true,
            repositories: 0,
            errors: 1,
            ..SweepSummary::default()
        },
    };
    let mut output = String::new();

    write_human_report(&mut output, &report, true);

    assert!(output.contains("repo:error"));
    assert!(output.contains("/bad"));
    assert!(output.contains("repo failed"));
    assert!(output.contains("Summary:"));
}

#[test]
fn verbose_human_report_mentions_empty_results() {
    let report = SweepReport {
        items: Vec::new(),
        summary: SweepSummary {
            dry_run: true,
            repositories: 1,
            ..SweepSummary::default()
        },
    };
    let mut output = String::new();

    write_human_report(&mut output, &report, true);

    assert!(output.contains("No matching worktrees."));
    assert!(output.contains("Summary:"));
}

#[test]
fn human_report_lays_out_columns() {
    let mut item = worktree_item(ACTION_WOULD_REMOVE);
    item.reasons = vec!["gone".to_owned(), "merged:main".to_owned()];
    let report = SweepReport {
        items: vec![item],
        summary: SweepSummary::default(),
    };
    let mut output = String::new();

    write_human_report(&mut output, &report, false);

    let expected = format!(
        "{:<14} {:<5} {:<28} {:<22} PATH\n{:<14} {:<5} {:<28} {:<22} {}\n",
        "ACTION", "DIRTY", "BRANCH", "REASONS", "would_remove", false, "feature",
        "gone,merged:main", "/repo-wt"
    );
    assert_eq!(output, expected);
}

#[test]
fn human_report_shows_detached_head_as_dash_and_details_when_verbose() {
    let mut item = worktree_item(ACTION_SKIP);
    item.branch = None;
    item.dirty = true;
    item.skip_reason = Some("locked worktree is protected".to_owned());
    let report = SweepReport {
        items: vec![item],
        summary: SweepSummary {
            dry_run: true,
            repositories: 1,
            matched: 1,
            skipped: 1,
            ..SweepSummary::default()
        },
    };
    let mut output = String::new();

    write_human_report(&mut output, &report, true);

    let expected = format!(
        "{:<14} {:<5} {:<28} {:<22} PATH\n{:<14} {:<5} {:<28} {:<22} {}\n  note: locked worktree is protected\nSummary: repositories=1, matched=1, would_remove=0, removed=0, skipped=1, errors=0, branch_deleted=0, dry_run=true\n",
        "ACTION", "DIRTY", "BRANCH", "REASONS", "skip", true, "-", "gone", "/repo-wt"
    );
    assert_eq!(output, expected);
}

#[test]
fn summary_line_counts_every_field() {
    let report = SweepReport {
        items: Vec::new(),
        summary: SweepSummary {
            dry_run: false,
            repositories: 12,
            matched: 7,
            would_remove: 0,
            removed: 5,
            skipped: 1,
            errors: 103,
            branch_deleted: 2,
        },
    };
    let mut output = String::new();
    write_summary(&mut output, &report);
    assert_eq!(
        output,
        "Summary: repositories=12, matched=7, would_remove=0, removed=5, skipped=1, errors=103, branch_deleted=2, dry_run=false\n"
    );
}

#[test]
fn update_summary_counts_each_kind_of_item() {
    let mut summary = SweepSummary::default();
    update_summary(&mut summary, &worktree_item(ACTION_WOULD_REMOVE));
    update_summary(&mut summary, &worktree_item(ACTION_REMOVED));
    update_summary(&mut summary, &worktree_item(ACTION_SKIP));
    let mut deleted = worktree_item(ACTION_REMOVED);
    deleted.branch_deleted = true;
    update_summary(&mut summary, &deleted);
    let mut branch_failed = worktree_item(ACTION_REMOVED);
    branch_failed.branch_error = Some("not merged".to_owned());
    update_summary(&mut summary, &branch_failed);
    let mut failed = worktree_item(ACTION_ERROR);
    failed.error = Some("failed".to_owned());
    update_summary(&mut summary, &failed);

    assert_eq!(summary.matched, 6);
    assert_eq!(summary.would_remove, 1);
    assert_eq!(summary.removed, 3);
    assert_eq!(summary.skipped, 1);
    assert_eq!(summary.errors, 2);
    assert_eq!(summary.branch_deleted, 1);
}

#[test]
fn repository_errors_are_not_matched_worktrees() {
    let mut summary = SweepSummary::default();
    let mut item = worktree_item(ACTION_ERROR);
    item.kind = KIND_REPOSITORY_ERROR.to_owned();
    update_summary(&mut summary, &item);
    assert_eq!(summary.matched, 0);
    assert_eq!(summary.errors, 1);
}

#[test]
fn recorded_items_keep_the_summary_in_step() {
    let mut report = new_report(true, 2);
    assert_eq!(exit_status(&report), 0);
    record_item(&mut report, worktree_item(ACTION_WOULD_REMOVE));
    assert_eq!(report.items.len(), 1);
    assert_eq!(report.summary.would_remove, 1);
    assert_eq!(exit_status(&report), 0);
    let mut failed = worktree_item(ACTION_ERROR);
    failed.error = Some("boom".to_owned());
    record_item(&mut report, failed);
    assert_eq!(report.summary.errors, 1);
    assert_eq!(report.summary.repositories, 2);
    assert!(report.summary.dry_run);
    assert_eq!(exit_status(&report), 1);
}

#[test]
fn quiet_report_reads_the_same_whatever_the_summary_and_details() {
    let plain = SweepReport {
        items: vec![worktree_item(ACTION_WOULD_REMOVE)],
        summary: SweepSummary::default(),
    };
    let mut detailed_item = worktree_item(ACTION_WOULD_REMOVE);
    detailed_item.skip_reason = Some("note".to_owned());
    detailed_item.error = Some("detail".to_owned());
    detailed_item.branch_action = Some(BRANCH_ACTION_ERROR.to_owned());
    detailed_item.branch_error = Some("branch detail".to_owned());
    let detailed = SweepReport {
        items: vec![detailed_item],
        summary: SweepSummary {
            errors: 7,
            repositories: 3,
            ..SweepSummary::default()
        },
    };
    let mut first = String::new();
    let mut second = String::new();
    write_human_report(&mut first, &plain, false);
    write_human_report(&mut second, &detailed, false);
    assert_eq!(first, second);
    assert!(!first.is_empty());

    let only_errors = SweepReport {
        items: vec![worktree_item(ACTION_ERROR)],
        summary: SweepSummary::default(),
    };
    let mut third = String::new();
    write_human_report(&mut third, &only_errors, false);
    assert!(third.is_empty());
}

#[test]
fn summary_counts_do_not_depend_on_item_order() {
    let mut errored = worktree_item(ACTION_REMOVED);
    errored.branch_error = Some("not merged".to_owned());
    let skipped = worktree_item(ACTION_SKIP);
    let mut first = SweepSummary::default();
    update_summary(&mut first, &errored);
    update_summary(&mut first, &skipped);
    let mut second = SweepSummary::default();
    update_summary(&mut second, &skipped);
    update_summary(&mut second, &errored);
    assert_eq!(format!("{first:?}"), format!("{second:?}"));
    assert_eq!((first.matched, first.removed, first.skipped, first.errors), (2, 1, 1, 1));
}
