use gwt_sweep::cli::{default_args, Cli, SweepArgs};
use gwt_sweep::config::SweepConfig;

#[test]
fn default_args_name_nothing() {
    let args: SweepArgs = default_args();
    assert!(args.paths.is_empty());
    assert!(!args.recursive && !args.hidden && !args.gone && !args.merged);
    assert!(args.merged_to.is_none() && args.older_than.is_none());
    assert!(args.branch_globs.is_empty() && args.exclude_branch_globs.is_empty());
    assert!(args.path_globs.is_empty() && args.exclude_path_globs.is_empty());
    assert!(!args.all && !args.force && !args.force_with_dirty && !args.delete_branch);
    assert!(!args.json && !args.verbose);
}

#[test]
fn no_selector_selects_gone_and_merged_without_requiring_a_base() {
    let config = SweepConfig::from_args(default_args()).unwrap();
    assert!(config.select_gone);
    assert!(config.select_merged);
    assert!(!config.require_merge_base);
    assert!(!config.select_all);
    assert_eq!(config.paths, vec![".".to_owned()]);
    assert!(config.include_branch.is_none());
    assert!(config.exclude_path.is_none());
}

#[test]
fn explicit_merged_selector_requires_a_base() {
    let config = SweepConfig::from_args(Cli {
        merged_to: Some("trunk".to_owned()),
        ..default_args()
    })
    .unwrap();
    assert!(!config.select_gone);
    assert!(config.select_merged);
    assert!(config.require_merge_base);
    assert_eq!(config.merge_base_ref.as_deref(), Some("trunk"));

    let config = SweepConfig::from_args(Cli {
        merged: true,
        ..default_args()
    })
    .unwrap();
    assert!(config.require_merge_base);
}

#[test]
fn other_selectors_turn_off_the_defaults() {
    let config = SweepConfig::from_args(Cli {
        older_than: Some(60),
        paths: vec!["/a".to_owned(), "/b".to_owned()],
        hidden: true,
        verbose: true,
        ..default_args()
    })
    .unwrap();
    assert!(!config.select_gone);
    assert!(!config.select_merged);
    assert_eq!(config.older_than, Some(60));
    assert_eq!(config.paths, vec!["/a".to_owned(), "/b".to_owned()]);
    assert!(config.include_hidden);
    assert!(config.verbose);

    let config = SweepConfig::from_args(Cli {
        gone: true,
        ..default_args()
    })
    .unwrap();
    assert!(config.select_gone);
    assert!(!config.select_merged);

    let config = SweepConfig::from_args(Cli {
        all: true,
        force: true,
        force_with_dirty: true,
        delete_branch: true,
        json: true,
        ..default_args()
    })
    .unwrap();
    assert!(config.select_all && !config.select_gone && !config.select_merged);
    assert!(config.force && config.force_with_dirty && config.delete_branch && config.json);
}

#[test]
fn invalid_globs_are_reported_with_their_filter() {
    let error = SweepConfig::from_args(Cli {
        branch_globs: vec!["feature/*".to_owned(), "[".to_owned()],
        ..default_args()
    })
    .err()
    .unwrap();
    assert!(error.starts_with("invalid branch glob `[`: "), "{error}");

    let error = SweepConfig::from_args(Cli {
        exclude_path_globs: vec!["a{b".to_owned()],
        ..default_args()
    })
    .err()
    .unwrap();
    assert!(error.starts_with("invalid exclude-path glob `a{b`: "), "{error}");

    let error = SweepConfig::from_args(Cli {
        exclude_branch_globs: vec!["[".to_owned()],
        path_globs: vec!["[".to_owned()],
        ..default_args()
    })
    .err()
    .unwrap();
    assert!(error.starts_with("invalid exclude-branch glob `[`: "), "{error}");
}

#[test]
fn valid_globs_are_compiled() {
    let config = SweepConfig::from_args(Cli {
        branch_globs: vec!["feature/*".to_owned()],
        path_globs: vec!["*-wt".to_owned()],
        ..default_args()
    })
    .unwrap();
    assert!(config.include_branch.unwrap().is_match("feature/x"));
    assert!(config.include_path.unwrap().is_match("repo-wt"));
}
