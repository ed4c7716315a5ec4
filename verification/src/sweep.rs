//! The rules of a sweep: which worktrees are selected and why, which
//! filters keep them, which are protected, and what is reported for each.
//!
//! Each decision takes the outcome of the Git and filesystem reads that it
//! depends on as an argument. A read is only made when the decision needs
//! it; the `wants_*` functions say when that is, and each decision requires
//! that the outcomes it is given are exactly those.

use vstd::prelude::*;
use crate::config::{starts_with, SweepConfig};
use crate::duration::{format_duration, spec_format_duration};
use crate::git::{MergeBase, WorktreeInfo};
use crate::globs::{glob_set_matches, GlobFilter};
use crate::report::{
    lemma_report_words, ItemView, SweepItem, ACTION_ERROR, ACTION_REMOVED, ACTION_SKIP,
    ACTION_WOULD_REMOVE, BRANCH_ACTION_DELETED, BRANCH_ACTION_ERROR, BRANCH_ACTION_WOULD_DELETE,
    KIND_REPOSITORY_ERROR, KIND_WORKTREE, SweepReport, items_view, new_report, record_item,
    summary_agrees, summary_has_room, zero_summary,
};
use crate::git::{DiscoveryError, DiscoveryProgress};
use crate::text::{join, opt_view, seq_join, strings_view};

verus! {

/// What a repository's worktrees are judged against.
#[derive(Debug)]
pub struct RepoContext {
    /// The base for `merged`, when merged worktrees are selected and a base
    /// was found.
    pub merge_base: Option<MergeBase>,
    /// The base that a branch must be merged into to be deleted.
    pub branch_delete_base: Option<MergeBase>,
}

/// The outcomes of the reads that select a worktree: whether its upstream
/// is gone, whether its HEAD is merged, whether its files are older than the
/// limit. Each is present when the read was made; an error is its message.
#[derive(Debug)]
pub struct ReasonProbes {
    pub gone: Option<Result<bool, String>>,
    pub merged: Option<Result<bool, String>>,
    pub older_than: Option<Result<bool, String>>,
}

/// The reasons that select a worktree, and the errors met while looking.
#[derive(Debug)]
pub struct ReasonSet {
    pub reasons: Vec<String>,
    pub errors: Vec<String>,
}

/// Which reads select a worktree (the age read also needs the worktree's
/// path to exist).
#[derive(Debug)]
pub struct ReasonPlan {
    pub gone: bool,
    pub merged: bool,
    pub older_than: bool,
}

/// A reported worktree and what may be done with it.
#[derive(Debug)]
pub struct Evaluation {
    pub item: SweepItem,
    pub can_remove: bool,
    pub branch_to_delete: Option<String>,
    pub worktree_name: String,
}

/// Whether the upstream of the worktree's branch is read.
pub open spec fn plans_gone(wt: WorktreeInfo, cfg: SweepConfig) -> bool {
    cfg.select_gone && wt.branch is Some
}

/// Whether the worktree's HEAD is checked against the merge base.
pub open spec fn plans_merged(wt: WorktreeInfo, ctx: RepoContext, cfg: SweepConfig) -> bool {
    cfg.select_merged && ctx.merge_base is Some && wt.head is Some
}

/// The outcomes given are those of the planned reads.
pub open spec fn probes_fit(
    wt: WorktreeInfo,
    ctx: RepoContext,
    cfg: SweepConfig,
    probes: ReasonProbes,
) -> bool {
    &&& probes.gone is Some <==> plans_gone(wt, cfg)
    &&& probes.merged is Some <==> plans_merged(wt, ctx, cfg)
    &&& probes.older_than is Some ==> cfg.older_than is Some
}

/// The reads that select a worktree.
pub fn plan_reasons(worktree: &WorktreeInfo, context: &RepoContext, config: &SweepConfig) -> (r:
    ReasonPlan)
    ensures
        r.gone == plans_gone(*worktree, *config),
        r.merged == plans_merged(*worktree, *context, *config),
        r.older_than == config.older_than is Some,
{
    ReasonPlan {
        gone: config.select_gone && worktree.branch.is_some(),
        merged: config.select_merged && context.merge_base.is_some() && worktree.head.is_some(),
        older_than: config.older_than.is_some(),
    }
}

/// The reasons and errors after the `--all` selector.
pub open spec fn reasons_all(cfg: SweepConfig) -> (Seq<Seq<char>>, Seq<Seq<char>>) {
    (if cfg.select_all { seq!["all"@] } else { Seq::empty() }, Seq::empty())
}

/// ... after the gone-upstream selector.
pub open spec fn reasons_gone(
    acc: (Seq<Seq<char>>, Seq<Seq<char>>),
    wt: WorktreeInfo,
    cfg: SweepConfig,
    probes: ReasonProbes,
) -> (Seq<Seq<char>>, Seq<Seq<char>>) {
    if plans_gone(wt, cfg) {
        match probes.gone {
            Some(Ok(true)) => (acc.0.push("gone"@), acc.1),
            Some(Err(e)) => (
                acc.0.push("gone:error"@),
                acc.1.push(
                    "failed to inspect gone upstream for branch `"@ + wt.branch->0@ + "`: "@ + e@,
                ),
            ),
            _ => acc,
        }
    } else {
        acc
    }
}

/// ... after the merged selector.
pub open spec fn reasons_merged(
    acc: (Seq<Seq<char>>, Seq<Seq<char>>),
    wt: WorktreeInfo,
    ctx: RepoContext,
    cfg: SweepConfig,
    probes: ReasonProbes,
) -> (Seq<Seq<char>>, Seq<Seq<char>>) {
    if !cfg.select_merged {
        acc
    } else if ctx.merge_base is Some && wt.head is Some {
        let base = ctx.merge_base->0.display@;
        match probes.merged {
            Some(Ok(true)) => (acc.0.push("merged:"@ + base), acc.1),
            Some(Err(e)) => (
                acc.0.push("merged:error"@),
                acc.1.push("failed to inspect merge state against "@ + base + ": "@ + e@),
            ),
            _ => acc,
        }
    } else if ctx.merge_base is Some && cfg.require_merge_base {
        (
            acc.0.push("merged:error"@),
            acc.1.push("failed to inspect merge state: worktree HEAD is unavailable"@),
        )
    } else if ctx.merge_base is None && cfg.require_merge_base {
        (
            acc.0.push("merged:error"@),
            acc.1.push("failed to resolve merge base; pass --merged-to <ref>"@),
        )
    } else {
        acc
    }
}

/// ... after the age selector.
pub open spec fn reasons_older(
    acc: (Seq<Seq<char>>, Seq<Seq<char>>),
    wt: WorktreeInfo,
    cfg: SweepConfig,
    probes: ReasonProbes,
) -> (Seq<Seq<char>>, Seq<Seq<char>>) {
    match (cfg.older_than, probes.older_than) {
        (Some(age), Some(Ok(true))) => (
            acc.0.push("older_than:"@ + spec_format_duration(age)),
            acc.1,
        ),
        (Some(_), Some(Err(e))) => (
            acc.0.push("older_than:error"@),
            acc.1.push("failed to scan mtimes under "@ + wt.path@ + ": "@ + e@),
        ),
        _ => acc,
    }
}

/// The reasons that select a worktree (in the order all, gone, merged,
/// older than) and the errors met while looking.
pub open spec fn spec_reasons(
    wt: WorktreeInfo,
    ctx: RepoContext,
    cfg: SweepConfig,
    probes: ReasonProbes,
) -> (Seq<Seq<char>>, Seq<Seq<char>>) {
    reasons_older(
        reasons_merged(reasons_gone(reasons_all(cfg), wt, cfg, probes), wt, ctx, cfg, probes),
        wt,
        cfg,
        probes,
    )
}

fn push_str(v: &mut Vec<String>, s: &str)
    ensures
        strings_view(final(v)@) == strings_view(old(v)@).push(s@),
{
    v.push(String::from_str(s));
    assert(strings_view(v@) =~= strings_view(old(v)@).push(s@));
}

fn push_string(v: &mut Vec<String>, s: String)
    ensures
        strings_view(final(v)@) == strings_view(old(v)@).push(s@),
{
    v.push(s);
    assert(strings_view(v@) =~= strings_view(old(v)@).push(s@));
}

fn concat4(a: &str, b: &str, c: &str, d: &str) -> (r: String)
    ensures
        r@ == a@ + b@ + c@ + d@,
{
    let mut r = String::from_str(a);
    r.append(b);
    r.append(c);
    r.append(d);
    r
}

/// Collects the reasons that select `worktree`, from the outcomes of the
/// planned reads.
pub fn collect_reasons(
    worktree: &WorktreeInfo,
    context: &RepoContext,
    config: &SweepConfig,
    probes: &ReasonProbes,
) -> (r: ReasonSet)
    requires
        probes_fit(*worktree, *context, *config, *probes),
    ensures
        (strings_view(r.reasons@), strings_view(r.errors@)) == spec_reasons(
            *worktree,
            *context,
            *config,
            *probes,
        ),
{
    let mut reasons: Vec<String> = Vec::new();
    let mut errors: Vec<String> = Vec::new();
    if config.select_all {
        push_str(&mut reasons, "all");
    }
    assert((strings_view(reasons@), strings_view(errors@)) =~= reasons_all(*config));
    let ghost acc = reasons_all(*config);
    if config.select_gone {
        if let Some(branch) = &worktree.branch {
            match &probes.gone {
                Some(Ok(true)) => push_str(&mut reasons, "gone"),
                Some(Err(e)) => {
                    push_str(&mut reasons, "gone:error");
                    push_string(
                        &mut errors,
                        concat4(
                            "failed to inspect gone upstream for branch `",
                            branch.as_str(),
                            "`: ",
                            e.as_str(),
                        ),
                    );
                },
                _ => {},
            }
        }
    }
    assert((strings_view(reasons@), strings_view(errors@)) == reasons_gone(
        acc,
        *worktree,
        *config,
        *probes,
    ));
    let ghost acc = reasons_gone(acc, *worktree, *config, *probes);
    if config.select_merged {
        match (&context.merge_base, &worktree.head) {
            (Some(base), Some(_)) => match &probes.merged {
                Some(Ok(true)) => {
                    let mut reason = String::from_str("merged:");
                    reason.append(base.display.as_str());
                    push_string(&mut reasons, reason);
                },
                Some(Err(e)) => {
                    push_str(&mut reasons, "merged:error");
                    push_string(
                        &mut errors,
                        concat4(
                            "failed to inspect merge state against ",
                            base.display.as_str(),
                            ": ",
                            e.as_str(),
                        ),
                    );
                },
                _ => {},
            },
            (Some(_), None) => {
                if config.require_merge_base {
                    push_str(&mut reasons, "merged:error");
                    push_str(
                        &mut errors,
                        "failed to inspect merge state: worktree HEAD is unavailable",
                    );
                }
            },
            (None, _) => {
                if config.require_merge_base {
                    push_str(&mut reasons, "merged:error");
                    push_str(&mut errors, "failed to resolve merge base; pass --merged-to <ref>");
                }
            },
        }
    }
    assert((strings_view(reasons@), strings_view(errors@)) == reasons_merged(
        acc,
        *worktree,
        *context,
        *config,
        *probes,
    ));
    let ghost acc = reasons_merged(acc, *worktree, *context, *config, *probes);
    match (config.older_than, &probes.older_than) {
        (Some(age), Some(Ok(true))) => {
            let mut reason = String::from_str("older_than:");
            let text = format_duration(age);
            reason.append(text.as_str());
            push_string(&mut reasons, reason);
        },
        (Some(_), Some(Err(e))) => {
            push_str(&mut reasons, "older_than:error");
            push_string(
                &mut errors,
                concat4("failed to scan mtimes under ", worktree.path.as_str(), ": ", e.as_str()),
            );
        },
        _ => {},
    }
    assert((strings_view(reasons@), strings_view(errors@)) == reasons_older(
        acc,
        *worktree,
        *config,
        *probes,
    ));
    ReasonSet { reasons, errors }
}

/// Whether a filter matches a path: its text, or its last component.
pub open spec fn spec_path_matches(
    set: GlobFilter,
    path: Seq<char>,
    file_name: Option<Seq<char>>,
) -> bool {
    glob_set_matches(set.patterns(), path) || match file_name {
        Some(name) => glob_set_matches(set.patterns(), name),
        None => false,
    }
}

/// Whether `patterns` matches the path `path_text` or its last component
/// `file_name`.
pub fn path_matches(patterns: &GlobFilter, path_text: &str, file_name: Option<&str>) -> (r:
    bool)
    ensures
        r == spec_path_matches(
            *patterns,
            path_text@,
            match file_name {
                Some(n) => Some(n@),
                None => None,
            },
        ),
{
    if patterns.is_match(path_text) {
        return true;
    }
    match file_name {
        Some(name) => patterns.is_match(name),
        None => false,
    }
}

/// Whether a worktree passes the filters: its branch must match
/// `--branch` (a detached HEAD never does) and not `--exclude-branch`; its
/// path or basename must match `--include-path` and not `--exclude-path`.
pub open spec fn spec_matches_filters(wt: WorktreeInfo, cfg: SweepConfig) -> bool {
    let branch = opt_view(wt.branch);
    let file_name = opt_view(wt.file_name);
    &&& match cfg.include_branch {
        Some(wanted) => match branch {
            Some(b) => glob_set_matches(wanted.patterns(), b),
            None => false,
        },
        None => true,
    }
    &&& match (cfg.exclude_branch, branch) {
        (Some(unwanted), Some(b)) => !glob_set_matches(unwanted.patterns(), b),
        _ => true,
    }
    &&& match cfg.include_path {
        Some(wanted) => spec_path_matches(wanted, wt.path@, file_name),
        None => true,
    }
    &&& match cfg.exclude_path {
        Some(unwanted) => !spec_path_matches(unwanted, wt.path@, file_name),
        None => true,
    }
}

/// A worktree passes the filters exactly when: with `--branch`, it has a
/// branch and some glob matches it; with `--exclude-branch`, no glob matches
/// its branch; with `--include-path`, some glob matches its path or its
/// basename; with `--exclude-path`, no glob matches its path nor its
/// basename.
pub proof fn lemma_filters_follow_the_globs(wt: WorktreeInfo, cfg: SweepConfig)
    ensures
        spec_matches_filters(wt, cfg) <==> {
            &&& cfg.include_branch is Some ==> wt.branch is Some && glob_set_matches(
                cfg.include_branch->0.patterns(),
                wt.branch->0@,
            )
            &&& cfg.exclude_branch is Some && wt.branch is Some ==> !glob_set_matches(
                cfg.exclude_branch->0.patterns(),
                wt.branch->0@,
            )
            &&& cfg.include_path is Some ==> glob_set_matches(
                cfg.include_path->0.patterns(),
                wt.path@,
            ) || (wt.file_name is Some && glob_set_matches(
                cfg.include_path->0.patterns(),
                wt.file_name->0@,
            ))
            &&& cfg.exclude_path is Some ==> !glob_set_matches(
                cfg.exclude_path->0.patterns(),
                wt.path@,
            ) && !(wt.file_name is Some && glob_set_matches(
                cfg.exclude_path->0.patterns(),
                wt.file_name->0@,
            ))
        },
{
}

fn opt_str(o: &Option<String>) -> (r: Option<&str>)
    ensures
        match r {
            Some(s) => Some(s@),
            None => None,
        } == opt_view(*o),
{
    match o {
        Some(s) => Some(s.as_str()),
        None => None,
    }
}

/// Whether `worktree` passes the filters of `config`.
pub fn matches_filters(worktree: &WorktreeInfo, config: &SweepConfig) -> (r: bool)
    ensures
        r == spec_matches_filters(*worktree, *config),
{
    let branch = opt_str(&worktree.branch);
    let file_name = opt_str(&worktree.file_name);
    if let Some(wanted) = &config.include_branch {
        match branch {
            None => return false,
            Some(b) => {
                if !wanted.is_match(b) {
                    return false;
                }
            },
        }
    }
    if let (Some(unwanted), Some(b)) = (&config.exclude_branch, branch) {
        if unwanted.is_match(b) {
            return false;
        }
    }
    if let Some(wanted) = &config.include_path {
        if !path_matches(wanted, worktree.path.as_str(), file_name) {
            return false;
        }
    }
    if let Some(unwanted) = &config.exclude_path {
        if path_matches(unwanted, worktree.path.as_str(), file_name) {
            return false;
        }
    }
    true
}

/// What an `Evaluation` holds, as text.
pub struct EvaluationView {
    pub item: ItemView,
    pub can_remove: bool,
    pub branch_to_delete: Option<Seq<char>>,
    pub worktree_name: Seq<char>,
}

impl View for Evaluation {
    type V = EvaluationView;

    open spec fn view(&self) -> EvaluationView {
        EvaluationView {
            item: self.item@,
            can_remove: self.can_remove,
            branch_to_delete: opt_view(self.branch_to_delete),
            worktree_name: self.worktree_name@,
        }
    }
}

/// Whether a worktree is looked at all: the current worktree only with
/// `--all`.
pub open spec fn considers(is_current: bool, cfg: SweepConfig) -> bool {
    !is_current || cfg.select_all
}

/// Whether a worktree is looked at all.
pub fn considers_worktree(is_current: bool, config: &SweepConfig) -> (r: bool)
    ensures
        r == considers(is_current, *config),
{
    !is_current || config.select_all
}

/// Whether a worktree is reported: looked at, selected by some reason, and
/// kept by the filters.
pub open spec fn is_reported(
    wt: WorktreeInfo,
    is_current: bool,
    ctx: RepoContext,
    cfg: SweepConfig,
    probes: ReasonProbes,
) -> bool {
    &&& considers(is_current, cfg)
    &&& spec_reasons(wt, ctx, cfg, probes).0.len() > 0
    &&& spec_matches_filters(wt, cfg)
}

/// Whether the worktree's dirty state is read: it is reported, no error was
/// met while selecting it, and it is not protected (current, locked,
/// prunable, or uninspectable).
pub open spec fn wants_dirty_state(
    wt: WorktreeInfo,
    is_current: bool,
    ctx: RepoContext,
    cfg: SweepConfig,
    probes: ReasonProbes,
) -> bool {
    &&& is_reported(wt, is_current, ctx, cfg, probes)
    &&& spec_reasons(wt, ctx, cfg, probes).1.len() == 0
    &&& !is_current
    &&& !wt.locked
    &&& !wt.prunable
    &&& wt.inspection_error is None
}

/// Whether a worktree whose dirty state was read may be removed: it is
/// clean, or dirty worktrees may be removed.
pub open spec fn clean_enough(dirty: Option<Result<bool, String>>, cfg: SweepConfig) -> bool {
    match dirty {
        Some(Ok(d)) => !d || cfg.force_with_dirty,
        _ => false,
    }
}

/// Whether the safety of deleting the worktree's branch is checked before
/// removal: the worktree may be removed, its branch is to be deleted, and a
/// deletion base is known.
pub open spec fn wants_branch_check(
    wt: WorktreeInfo,
    is_current: bool,
    ctx: RepoContext,
    cfg: SweepConfig,
    probes: ReasonProbes,
    dirty: Option<Result<bool, String>>,
) -> bool {
    &&& wants_dirty_state(wt, is_current, ctx, cfg, probes)
    &&& clean_enough(dirty, cfg)
    &&& cfg.delete_branch
    &&& wt.branch is Some
    &&& ctx.branch_delete_base is Some
}

/// The item of a reported worktree before any protection or removal.
pub open spec fn first_item(repo: Seq<char>, wt: WorktreeInfo, reasons: Seq<Seq<char>>) -> ItemView {
    ItemView {
        kind: KIND_WORKTREE@,
        repo,
        path: wt.path@,
        branch: opt_view(wt.branch),
        head: opt_view(wt.head),
        reasons,
        dirty: false,
        locked: wt.locked,
        action: ACTION_SKIP@,
        skip_reason: None,
        error: None,
        branch_deleted: false,
        branch_action: None,
        branch_error: None,
    }
}

/// A reported worktree that may not be removed.
pub open spec fn kept(item: ItemView, wt: WorktreeInfo) -> EvaluationView {
    EvaluationView { item, can_remove: false, branch_to_delete: None, worktree_name: wt.name@ }
}

/// The item as skipped for `why`.
pub open spec fn skipped(item: ItemView, why: Seq<char>) -> ItemView {
    ItemView { skip_reason: Some(why), ..item }
}

/// The item as failed with `message`.
pub open spec fn failed(item: ItemView, message: Seq<char>) -> ItemView {
    ItemView { action: ACTION_ERROR@, error: Some(message), ..item }
}

/// The item of a removable worktree, after the branch check.
pub open spec fn removable_item(
    item: ItemView,
    wt: WorktreeInfo,
    ctx: RepoContext,
    cfg: SweepConfig,
    branch_check: Option<Result<(), String>>,
) -> ItemView {
    let item = if !cfg.force { ItemView { action: ACTION_WOULD_REMOVE@, ..item } } else { item };
    if cfg.delete_branch && wt.branch is Some {
        if ctx.branch_delete_base is Some {
            match branch_check {
                Some(Err(e)) => ItemView {
                    branch_action: Some(BRANCH_ACTION_ERROR@),
                    branch_error: Some(e@),
                    ..item
                },
                _ => if !cfg.force {
                    ItemView { branch_action: Some(BRANCH_ACTION_WOULD_DELETE@), ..item }
                } else {
                    item
                },
            }
        } else {
            ItemView {
                branch_action: Some(BRANCH_ACTION_ERROR@),
                branch_error: Some("failed to resolve branch deletion base"@),
                ..item
            }
        }
    } else {
        item
    }
}

/// What is reported of a worktree, if anything, and whether it may be
/// removed.
pub open spec fn spec_evaluate(
    repo: Seq<char>,
    wt: WorktreeInfo,
    is_current: bool,
    ctx: RepoContext,
    cfg: SweepConfig,
    probes: ReasonProbes,
    dirty: Option<Result<bool, String>>,
    branch_check: Option<Result<(), String>>,
) -> Option<EvaluationView> {
    if !is_reported(wt, is_current, ctx, cfg, probes) {
        None
    } else {
        let (reasons, errors) = spec_reasons(wt, ctx, cfg, probes);
        let item = first_item(repo, wt, reasons);
        if errors.len() > 0 {
            Some(kept(failed(item, seq_join(errors, "; "@)), wt))
        } else if is_current {
            Some(kept(skipped(item, "current worktree is protected"@), wt))
        } else if wt.locked {
            Some(kept(skipped(item, "locked worktree is protected"@), wt))
        } else if wt.prunable {
            Some(kept(skipped(item, "prunable worktree metadata is not removed by sweep"@), wt))
        } else if wt.inspection_error is Some {
            Some(
                kept(
                    failed(
                        item,
                        "failed to inspect worktree metadata: "@ + wt.inspection_error->0@,
                    ),
                    wt,
                ),
            )
        } else {
            match dirty {
                Some(Ok(d)) => {
                    let item = ItemView { dirty: d, ..item };
                    if d && !cfg.force_with_dirty {
                        Some(
                            kept(skipped(item, "worktree has uncommitted or untracked changes"@), wt),
                        )
                    } else {
                        Some(
                            EvaluationView {
                                item: removable_item(item, wt, ctx, cfg, branch_check),
                                can_remove: true,
                                branch_to_delete: if cfg.delete_branch {
                                    opt_view(wt.branch)
                                } else {
                                    None
                                },
                                worktree_name: wt.name@,
                            },
                        )
                    }
                },
                Some(Err(e)) => Some(kept(failed(item, "failed to inspect dirty state: "@ + e@), wt)),
                None => None,
            }
        }
    }
}

/// Whether the worktree's dirty state is to be read.
pub fn wants_dirty_state_exec(
    worktree: &WorktreeInfo,
    is_current: bool,
    context: &RepoContext,
    config: &SweepConfig,
    probes: &ReasonProbes,
) -> (r: bool)
    requires
        considers(is_current, *config) ==> probes_fit(*worktree, *context, *config, *probes),
    ensures
        r == wants_dirty_state(*worktree, is_current, *context, *config, *probes),
{
    if is_current && !config.select_all {
        return false;
    }
    let reason_set = collect_reasons(worktree, context, config, probes);
    reason_set.reasons.len() > 0 && matches_filters(worktree, config) && reason_set.errors.len()
        == 0 && !is_current && !worktree.locked && !worktree.prunable
        && worktree.inspection_error.is_none()
}

/// Whether the safety of deleting the worktree's branch is to be checked.
pub fn wants_branch_check_exec(
    worktree: &WorktreeInfo,
    is_current: bool,
    context: &RepoContext,
    config: &SweepConfig,
    probes: &ReasonProbes,
    dirty: &Option<Result<bool, String>>,
) -> (r: bool)
    requires
        considers(is_current, *config) ==> probes_fit(*worktree, *context, *config, *probes),
    ensures
        r == wants_branch_check(*worktree, is_current, *context, *config, *probes, *dirty),
{
    let clean = match dirty {
        Some(Ok(d)) => !*d || config.force_with_dirty,
        _ => false,
    };
    wants_dirty_state_exec(worktree, is_current, context, config, probes) && clean
        && config.delete_branch && worktree.branch.is_some()
        && context.branch_delete_base.is_some()
}

fn clone_opt(o: &Option<String>) -> (r: Option<String>)
    ensures
        opt_view(r) == opt_view(*o),
{
    match o {
        Some(s) => Some(s.clone()),
        None => None,
    }
}

fn kept_exec(item: SweepItem, worktree: &WorktreeInfo) -> (r: Evaluation)
    ensures
        r@ == kept(item@, *worktree),
{
    Evaluation {
        item,
        can_remove: false,
        branch_to_delete: None,
        worktree_name: worktree.name.clone(),
    }
}

/// Judges a worktree: `None` when it is not reported; otherwise its item
/// and whether it may be removed. The current worktree is looked at only
/// with `--all`, and is then protected, as are locked, prunable and
/// uninspectable worktrees and, without `--force-with-dirty`, dirty ones.
pub fn evaluate_worktree(
    repo_path: &str,
    worktree: &WorktreeInfo,
    is_current: bool,
    context: &RepoContext,
    config: &SweepConfig,
    probes: &ReasonProbes,
    dirty: Option<Result<bool, String>>,
    branch_check: Option<Result<(), String>>,
) -> (r: Option<Evaluation>)
    requires
        considers(is_current, *config) ==> probes_fit(*worktree, *context, *config, *probes),
        dirty is Some <==> wants_dirty_state(*worktree, is_current, *context, *config, *probes),
        branch_check is Some <==> wants_branch_check(
            *worktree,
            is_current,
            *context,
            *config,
            *probes,
            dirty,
        ),
    ensures
        match r {
            Some(e) => spec_evaluate(
                repo_path@,
                *worktree,
                is_current,
                *context,
                *config,
                *probes,
                dirty,
                branch_check,
            ) == Some(e@),
            None => spec_evaluate(
                repo_path@,
                *worktree,
                is_current,
                *context,
                *config,
                *probes,
                dirty,
                branch_check,
            ) is None,
        },
{
    proof {
        lemma_report_words();
    }
    if is_current && !config.select_all {
        return None;
    }
    let reason_set = collect_reasons(worktree, context, config, probes);
    if reason_set.reasons.len() == 0 {
        return None;
    }
    if !matches_filters(worktree, config) {
        return None;
    }
    let ghost reasons_view = strings_view(reason_set.reasons@);
    let ghost errors_view = strings_view(reason_set.errors@);
    let errors_text = join(&reason_set.errors, "; ");
    let has_errors = reason_set.errors.len() > 0;
    let mut item = SweepItem {
        kind: String::from_str(KIND_WORKTREE),
        repo: String::from_str(repo_path),
        path: worktree.path.clone(),
        branch: clone_opt(&worktree.branch),
        head: clone_opt(&worktree.head),
        reasons: reason_set.reasons,
        dirty: false,
        locked: worktree.locked,
        action: String::from_str(ACTION_SKIP),
        skip_reason: None,
        error: None,
        branch_deleted: false,
        branch_action: None,
        branch_error: None,
    };
    let ghost first = first_item(repo_path@, *worktree, reasons_view);
    assert(item@ == first);
    if has_errors {
        item.action = String::from_str(ACTION_ERROR);
        item.error = Some(errors_text);
        assert(item@ == failed(first, seq_join(errors_view, "; "@)));
        return Some(kept_exec(item, worktree));
    }
    if is_current {
        item.skip_reason = Some(String::from_str("current worktree is protected"));
        assert(item@ == skipped(first, "current worktree is protected"@));
        return Some(kept_exec(item, worktree));
    }
    if worktree.locked {
        item.skip_reason = Some(String::from_str("locked worktree is protected"));
        assert(item@ == skipped(first, "locked worktree is protected"@));
        return Some(kept_exec(item, worktree));
    }
    if worktree.prunable {
        item.skip_reason = Some(
            String::from_str("prunable worktree metadata is not removed by sweep"),
        );
        assert(item@ == skipped(first, "prunable worktree metadata is not removed by sweep"@));
        return Some(kept_exec(item, worktree));
    }
    if let Some(error) = &worktree.inspection_error {
        let mut message = String::from_str("failed to inspect worktree metadata: ");
        message.append(error.as_str());
        item.action = String::from_str(ACTION_ERROR);
        item.error = Some(message);
        assert(item@ == failed(first, "failed to inspect worktree metadata: "@ + error@));
        return Some(kept_exec(item, worktree));
    }
    let is_dirty = match dirty {
        Some(Ok(d)) => d,
        Some(Err(error)) => {
            let mut message = String::from_str("failed to inspect dirty state: ");
            message.append(error.as_str());
            item.action = String::from_str(ACTION_ERROR);
            item.error = Some(message);
            assert(item@ == failed(first, "failed to inspect dirty state: "@ + error@));
            return Some(kept_exec(item, worktree));
        },
        None => {
            return None;
        },
    };
    item.dirty = is_dirty;
    let ghost dirty_item = ItemView { dirty: is_dirty, ..first };
    assert(item@ == dirty_item);
    if is_dirty && !config.force_with_dirty {
        item.skip_reason = Some(String::from_str("worktree has uncommitted or untracked changes"));
        assert(item@ == skipped(dirty_item, "worktree has uncommitted or untracked changes"@));
        return Some(kept_exec(item, worktree));
    }
    if !config.force {
        item.action = String::from_str(ACTION_WOULD_REMOVE);
    }
    let branch_to_delete = if config.delete_branch {
        clone_opt(&worktree.branch)
    } else {
        None
    };
    if branch_to_delete.is_some() {
        match &context.branch_delete_base {
            Some(_) => match &branch_check {
                Some(Err(error)) => {
                    item.branch_action = Some(String::from_str(BRANCH_ACTION_ERROR));
                    item.branch_error = Some(error.clone());
                },
                _ => {
                    if !config.force {
                        item.branch_action = Some(String::from_str(BRANCH_ACTION_WOULD_DELETE));
                    }
                },
            },
            None => {
                item.branch_action = Some(String::from_str(BRANCH_ACTION_ERROR));
                item.branch_error = Some(String::from_str("failed to resolve branch deletion base"));
            },
        }
    }
    assert(item@ == removable_item(dirty_item, *worktree, *context, *config, branch_check));
    Some(
        Evaluation {
            item,
            can_remove: true,
            branch_to_delete,
            worktree_name: worktree.name.clone(),
        },
    )
}

/// Whether a reported worktree is removed: only with `--force`, and only
/// when it may be.
pub fn should_remove(config: &SweepConfig, evaluation: &Evaluation) -> (r: bool)
    ensures
        r == (config.force && evaluation.can_remove),
{
    config.force && evaluation.can_remove
}

/// A removal was attempted exactly when wanted, and the branch was deleted
/// (after its safety check) exactly when the worktree was removed, its
/// branch is to be deleted and a deletion base is known.
pub open spec fn wants_branch_deletion(
    e: EvaluationView,
    has_base: bool,
    removal: Result<(), String>,
) -> bool {
    removal is Ok && e.branch_to_delete is Some && has_base
}

/// Whether the worktree's branch is to be deleted, once the removal of the
/// worktree was attempted with outcome `removal`.
pub fn wants_branch_deletion_exec(
    evaluation: &Evaluation,
    context: &RepoContext,
    removal: &Result<(), String>,
) -> (r: bool)
    ensures
        r == wants_branch_deletion(evaluation@, context.branch_delete_base is Some, *removal),
{
    removal.is_ok() && evaluation.branch_to_delete.is_some() && context.branch_delete_base.is_some()
}

/// The evaluation after the removal of its worktree was attempted.
pub open spec fn spec_record_removal(
    e: EvaluationView,
    has_base: bool,
    removal: Result<(), String>,
    deletion: Option<Result<(), String>>,
) -> EvaluationView {
    match removal {
        Err(message) => EvaluationView {
            item: ItemView { action: ACTION_ERROR@, error: Some(message@), ..e.item },
            ..e
        },
        Ok(()) => {
            let item = ItemView { action: ACTION_REMOVED@, ..e.item };
            let item = if e.branch_to_delete is Some && has_base && deletion matches Some(Err(_)) {
                ItemView {
                    branch_action: Some(BRANCH_ACTION_ERROR@),
                    branch_error: Some(deletion->0->Err_0@),
                    ..item
                }
            } else if e.branch_to_delete is Some && !has_base {
                ItemView {
                    branch_action: Some(BRANCH_ACTION_ERROR@),
                    branch_error: Some("failed to resolve branch deletion base"@),
                    ..item
                }
            } else if e.branch_to_delete is Some {
                ItemView {
                    branch_action: Some(BRANCH_ACTION_DELETED@),
                    branch_deleted: true,
                    ..item
                }
            } else {
                item
            };
            EvaluationView { item, ..e }
        },
    }
}

/// Records the outcome of removing the worktree (`removal`) and, when that
/// succeeded, of deleting its branch (`deletion`).
pub fn record_removal(
    evaluation: &mut Evaluation,
    context: &RepoContext,
    removal: Result<(), String>,
    deletion: Option<Result<(), String>>,
)
    requires
        deletion is Some <==> wants_branch_deletion(
            old(evaluation)@,
            context.branch_delete_base is Some,
            removal,
        ),
    ensures
        final(evaluation)@ == spec_record_removal(
            old(evaluation)@,
            context.branch_delete_base is Some,
            removal,
            deletion,
        ),
{
    match removal {
        Ok(()) => {
            evaluation.item.action = String::from_str(ACTION_REMOVED);
        },
        Err(error) => {
            evaluation.item.action = String::from_str(ACTION_ERROR);
            evaluation.item.error = Some(error);
            return;
        },
    }
    let has_branch = evaluation.branch_to_delete.is_some();
    let has_base = context.branch_delete_base.is_some();
    if has_branch && has_base && matches!(deletion, Some(Err(_))) {
        match deletion {
            Some(Err(error)) => {
                evaluation.item.branch_action = Some(String::from_str(BRANCH_ACTION_ERROR));
                evaluation.item.branch_error = Some(error);
            },
            _ => {},
        }
    } else if has_branch && !has_base {
        evaluation.item.branch_action = Some(String::from_str(BRANCH_ACTION_ERROR));
        evaluation.item.branch_error = Some(
            String::from_str("failed to resolve branch deletion base"),
        );
    } else if has_branch {
        evaluation.item.branch_action = Some(String::from_str(BRANCH_ACTION_DELETED));
        evaluation.item.branch_deleted = true;
    }
}

/// The inputs of `evaluate_worktree` agree with each other.
pub open spec fn evaluation_inputs_fit(
    wt: WorktreeInfo,
    is_current: bool,
    ctx: RepoContext,
    cfg: SweepConfig,
    probes: ReasonProbes,
    dirty: Option<Result<bool, String>>,
    branch_check: Option<Result<(), String>>,
) -> bool {
    &&& considers(is_current, cfg) ==> probes_fit(wt, ctx, cfg, probes)
    &&& dirty is Some <==> wants_dirty_state(wt, is_current, ctx, cfg, probes)
    &&& branch_check is Some <==> wants_branch_check(wt, is_current, ctx, cfg, probes, dirty)
}

/// No reason among `reasons` starts with `prefix`.
pub open spec fn none_starts_with(reasons: Seq<Seq<char>>, prefix: Seq<char>) -> bool {
    forall|i: int| 0 <= i < reasons.len() ==> !starts_with(#[trigger] reasons[i], prefix)
}

proof fn lemma_push_contains(s: Seq<Seq<char>>, x: Seq<char>, y: Seq<char>)
    ensures
        s.push(x).contains(y) <==> (s.contains(y) || x == y),
{
    if s.push(x).contains(y) {
        let i = choose|i: int| 0 <= i < s.push(x).len() && s.push(x)[i] == y;
        if i < s.len() {
            assert(s[i] == y);
        }
    }
    if s.contains(y) {
        let i = choose|i: int| 0 <= i < s.len() && s[i] == y;
        assert(s.push(x)[i] == y);
    }
    if x == y {
        assert(s.push(x)[s.len() as int] == y);
    }
}

proof fn lemma_push_none_starts_with(s: Seq<Seq<char>>, x: Seq<char>, prefix: Seq<char>)
    requires
        none_starts_with(s, prefix),
        !starts_with(x, prefix),
    ensures
        none_starts_with(s.push(x), prefix),
{
    assert forall|i: int| 0 <= i < s.push(x).len() implies !starts_with(
        #[trigger] s.push(x)[i],
        prefix,
    ) by {
        if i < s.len() {
            assert(s.push(x)[i] == s[i]);
        }
    }
}

/// Whether `s` begins with the character `c`.
pub open spec fn begins_with_char(s: Seq<char>, c: char) -> bool {
    s.len() > 0 && s[0] == c
}

proof fn lemma_reason_words()
    ensures
        begins_with_char("all"@, 'a'),
        "gone"@.len() == 4 && begins_with_char("gone"@, 'g'),
        "gone:error"@.len() == 10 && begins_with_char("gone:error"@, 'g'),
        "merged:"@.len() == 7 && begins_with_char("merged:"@, 'm'),
        begins_with_char("merged:error"@, 'm') && starts_with("merged:error"@, "merged:"@),
        "older_than:"@.len() == 11 && begins_with_char("older_than:"@, 'o'),
        begins_with_char("older_than:error"@, 'o') && starts_with(
            "older_than:error"@,
            "older_than:"@,
        ),
{
    reveal_strlit("all");
    reveal_strlit("gone");
    reveal_strlit("gone:error");
    reveal_strlit("merged:");
    reveal_strlit("merged:error");
    reveal_strlit("older_than:");
    reveal_strlit("older_than:error");
    assert("merged:error"@.take(7) =~= "merged:"@);
    assert("older_than:error"@.take(11) =~= "older_than:"@);
}

proof fn lemma_prefixed(p: Seq<char>, rest: Seq<char>, c: char)
    requires
        begins_with_char(p, c),
    ensures
        starts_with(p + rest, p),
        begins_with_char(p + rest, c),
{
    assert((p + rest).take(p.len() as int) =~= p);
}

proof fn lemma_first_char_differs(s: Seq<char>, prefix: Seq<char>, c: char, d: char)
    requires
        begins_with_char(s, c),
        begins_with_char(prefix, d),
        c != d,
    ensures
        !starts_with(s, prefix),
        s != prefix,
{
    if starts_with(s, prefix) {
        assert(s.take(prefix.len() as int)[0] == s[0]);
    }
}

/// The reasons that select a worktree say what its reads found:
/// - `all` is a reason exactly with `--all`;
/// - `gone` is a reason exactly when the upstream was read and found gone,
///   and `gone:error` exactly when reading it failed;
/// - `merged:<base>` is a reason when the worktree was found merged into the
///   base, and no `merged:` reason is given when it was found not merged or
///   merged worktrees are not selected;
/// - `older_than:<age>` is a reason when the worktree was found older than
///   the age, and no `older_than:` reason is given when the age read was not
///   made or found it newer;
/// - errors are met exactly when some read failed, or a required merge base
///   or HEAD is missing.
pub proof fn lemma_reasons_follow_the_reads(
    wt: WorktreeInfo,
    ctx: RepoContext,
    cfg: SweepConfig,
    probes: ReasonProbes,
)
    requires
        probes_fit(wt, ctx, cfg, probes),
    ensures
        spec_reasons(wt, ctx, cfg, probes).0.contains("all"@) <==> cfg.select_all,
        spec_reasons(wt, ctx, cfg, probes).0.contains("gone"@) <==> (cfg.select_gone
            && wt.branch is Some && probes.gone == Some(Ok::<bool, String>(true))),
        spec_reasons(wt, ctx, cfg, probes).0.contains("gone:error"@) <==> (cfg.select_gone
            && wt.branch is Some && probes.gone matches Some(Err(_))),
        probes.merged == Some(Ok::<bool, String>(true)) ==> spec_reasons(
            wt,
            ctx,
            cfg,
            probes,
        ).0.contains("merged:"@ + ctx.merge_base->0.display@),
        probes.merged == Some(Ok::<bool, String>(false)) || !cfg.select_merged
            ==> none_starts_with(spec_reasons(wt, ctx, cfg, probes).0, "merged:"@),
        cfg.older_than is Some && probes.older_than == Some(Ok::<bool, String>(true))
            ==> spec_reasons(wt, ctx, cfg, probes).0.contains(
            "older_than:"@ + spec_format_duration(cfg.older_than->0),
        ),
        probes.older_than is None || probes.older_than == Some(Ok::<bool, String>(false))
            ==> none_starts_with(spec_reasons(wt, ctx, cfg, probes).0, "older_than:"@),
        spec_reasons(wt, ctx, cfg, probes).1.len() == 0 <==> {
            &&& !(probes.gone matches Some(Err(_)))
            &&& !(probes.merged matches Some(Err(_)))
            &&& !(probes.older_than matches Some(Err(_)))
            &&& !(cfg.select_merged && cfg.require_merge_base && (ctx.merge_base is None
                || wt.head is None))
        },
{
    lemma_reason_words();
    let a = reasons_all(cfg);
    let g = reasons_gone(a, wt, cfg, probes);
    let m = reasons_merged(g, wt, ctx, cfg, probes);
    let o = reasons_older(m, wt, cfg, probes);
    let empty = Seq::<Seq<char>>::empty();
    // stage 1: `--all`
    assert(a.0.contains("all"@) <==> cfg.select_all) by {
        if cfg.select_all {
            assert(a.0[0] == "all"@);
        }
    }
    assert(!a.0.contains("gone"@) && !a.0.contains("gone:error"@)) by {
        if cfg.select_all {
            lemma_push_contains(empty, "all"@, "gone"@);
            lemma_push_contains(empty, "all"@, "gone:error"@);
            assert(a.0 == empty.push("all"@));
        }
    }
    assert(none_starts_with(a.0, "merged:"@) && none_starts_with(a.0, "older_than:"@)) by {
        if cfg.select_all {
            lemma_first_char_differs("all"@, "merged:"@, 'a', 'm');
            lemma_first_char_differs("all"@, "older_than:"@, 'a', 'o');
            lemma_push_none_starts_with(empty, "all"@, "merged:"@);
            lemma_push_none_starts_with(empty, "all"@, "older_than:"@);
            assert(a.0 == empty.push("all"@));
        }
    }
    // stage 2: gone
    lemma_first_char_differs("gone"@, "merged:"@, 'g', 'm');
    lemma_first_char_differs("gone"@, "older_than:"@, 'g', 'o');
    lemma_first_char_differs("gone:error"@, "merged:"@, 'g', 'm');
    lemma_first_char_differs("gone:error"@, "older_than:"@, 'g', 'o');
    lemma_first_char_differs("gone"@, "all"@, 'g', 'a');
    lemma_first_char_differs("gone:error"@, "all"@, 'g', 'a');
    lemma_push_contains(a.0, "gone"@, "all"@);
    lemma_push_contains(a.0, "gone"@, "gone"@);
    lemma_push_contains(a.0, "gone"@, "gone:error"@);
    lemma_push_contains(a.0, "gone:error"@, "all"@);
    lemma_push_contains(a.0, "gone:error"@, "gone"@);
    lemma_push_contains(a.0, "gone:error"@, "gone:error"@);
    lemma_push_none_starts_with(a.0, "gone"@, "merged:"@);
    lemma_push_none_starts_with(a.0, "gone"@, "older_than:"@);
    lemma_push_none_starts_with(a.0, "gone:error"@, "merged:"@);
    lemma_push_none_starts_with(a.0, "gone:error"@, "older_than:"@);
    assert(g.0.contains("all"@) <==> cfg.select_all);
    assert(g.0.contains("gone"@) <==> (cfg.select_gone && wt.branch is Some && probes.gone
        == Some(Ok::<bool, String>(true))));
    assert(g.0.contains("gone:error"@) <==> (cfg.select_gone && wt.branch is Some
        && probes.gone matches Some(Err(_))));
    assert(none_starts_with(g.0, "merged:"@) && none_starts_with(g.0, "older_than:"@));
    assert(g.1.len() == 0 <==> !(probes.gone matches Some(Err(_))));
    // stage 3: merged
    if m.0 != g.0 {
        let x = m.0.last();
        assert(m.0 == g.0.push(x));
        assert(starts_with(x, "merged:"@) && begins_with_char(x, 'm')) by {
            if x != "merged:error"@ {
                lemma_prefixed("merged:"@, ctx.merge_base->0.display@, 'm');
            }
        }
        lemma_first_char_differs(x, "older_than:"@, 'm', 'o');
        lemma_first_char_differs(x, "all"@, 'm', 'a');
        lemma_first_char_differs(x, "gone"@, 'm', 'g');
        lemma_first_char_differs(x, "gone:error"@, 'm', 'g');
        lemma_push_contains(g.0, x, "all"@);
        lemma_push_contains(g.0, x, "gone"@);
        lemma_push_contains(g.0, x, "gone:error"@);
        lemma_push_contains(g.0, x, "merged:"@ + ctx.merge_base->0.display@);
        lemma_push_none_starts_with(g.0, x, "older_than:"@);
    }
    assert(m.0.contains("all"@) <==> cfg.select_all);
    assert(m.0.contains("gone"@) == g.0.contains("gone"@));
    assert(m.0.contains("gone:error"@) == g.0.contains("gone:error"@));
    assert(none_starts_with(m.0, "older_than:"@));
    assert(probes.merged == Some(Ok::<bool, String>(false)) || !cfg.select_merged ==> m.0
        == g.0);
    assert(probes.merged == Some(Ok::<bool, String>(true)) ==> m.0.contains(
        "merged:"@ + ctx.merge_base->0.display@,
    )) by {
        if probes.merged == Some(Ok::<bool, String>(true)) {
            assert(m.0 == g.0.push("merged:"@ + ctx.merge_base->0.display@));
        }
    }
    // stage 4: older than
    if o.0 != m.0 {
        let x = o.0.last();
        assert(o.0 == m.0.push(x));
        assert(begins_with_char(x, 'o')) by {
            if x != "older_than:error"@ {
                lemma_prefixed("older_than:"@, spec_format_duration(cfg.older_than->0), 'o');
            }
        }
        lemma_first_char_differs(x, "merged:"@, 'o', 'm');
        lemma_first_char_differs(x, "all"@, 'o', 'a');
        lemma_first_char_differs(x, "gone"@, 'o', 'g');
        lemma_first_char_differs(x, "gone:error"@, 'o', 'g');
        lemma_push_contains(m.0, x, "all"@);
        lemma_push_contains(m.0, x, "gone"@);
        lemma_push_contains(m.0, x, "gone:error"@);
        lemma_push_contains(m.0, x, "merged:"@ + ctx.merge_base->0.display@);
        if none_starts_with(m.0, "merged:"@) {
            lemma_push_none_starts_with(m.0, x, "merged:"@);
        }
        if cfg.older_than is Some && probes.older_than == Some(Ok::<bool, String>(true)) {
            lemma_push_contains(m.0, x, "older_than:"@ + spec_format_duration(cfg.older_than->0));
        }
    }
}

/// What is reported of a worktree:
/// - it is reported exactly when it is looked at (the current worktree only
///   with `--all`), some reason selects it and the filters keep it; its item
///   is a worktree item with its path, branch, HEAD, lock state and reasons;
/// - it may be removed exactly when no error was met selecting it, it is not
///   the current worktree, it is neither locked, prunable nor uninspectable,
///   and its dirty state was read and is clean or `--force-with-dirty` was
///   given;
/// - an error met while selecting it makes the item an error with those
///   errors joined by `; `; a protected worktree is skipped with the reason;
///   a removable one is `would_remove` in a dry run and `skip` (until
///   removed) with `--force`;
/// - a removable worktree's branch is to be deleted exactly with
///   `--delete-branch` when it has a branch.
pub proof fn lemma_evaluation_follows_the_worktree(
    repo: Seq<char>,
    wt: WorktreeInfo,
    is_current: bool,
    ctx: RepoContext,
    cfg: SweepConfig,
    probes: ReasonProbes,
    dirty: Option<Result<bool, String>>,
    branch_check: Option<Result<(), String>>,
)
    requires
        evaluation_inputs_fit(wt, is_current, ctx, cfg, probes, dirty, branch_check),
    ensures
        ({
            let r = spec_evaluate(repo, wt, is_current, ctx, cfg, probes, dirty, branch_check);
            let (reasons, errors) = spec_reasons(wt, ctx, cfg, probes);
            &&& r is Some <==> ((!is_current || cfg.select_all) && reasons.len() > 0
                && spec_matches_filters(wt, cfg))
            &&& r is Some ==> {
                &&& r->0.item.kind == "worktree"@
                &&& r->0.item.repo == repo
                &&& r->0.item.path == wt.path@
                &&& r->0.item.branch == opt_view(wt.branch)
                &&& r->0.item.head == opt_view(wt.head)
                &&& r->0.item.locked == wt.locked
                &&& r->0.item.reasons == reasons
                &&& r->0.worktree_name == wt.name@
                &&& !r->0.item.branch_deleted
            }
            &&& r is Some ==> (r->0.can_remove <==> {
                &&& errors.len() == 0
                &&& !is_current
                &&& !wt.locked
                &&& !wt.prunable
                &&& wt.inspection_error is None
                &&& dirty matches Some(Ok(d))
                &&& (!d || cfg.force_with_dirty)
            })
            &&& r is Some && errors.len() > 0 ==> r->0.item.action == "error"@ && r->0.item.error
                == Some(seq_join(errors, "; "@))
            &&& r is Some && errors.len() == 0 && is_current ==> r->0.item.action == "skip"@
                && r->0.item.skip_reason == Some("current worktree is protected"@)
            &&& r is Some && errors.len() == 0 && !is_current && wt.locked ==> r->0.item.action
                == "skip"@ && r->0.item.skip_reason == Some("locked worktree is protected"@)
            &&& r is Some && dirty == Some(Ok::<bool, String>(true)) && !cfg.force_with_dirty
                ==> r->0.item.action == "skip"@ && r->0.item.dirty && !r->0.can_remove
            &&& r is Some && r->0.can_remove ==> r->0.item.action == if cfg.force {
                "skip"@
            } else {
                "would_remove"@
            }
            &&& r is Some && r->0.can_remove ==> (r->0.branch_to_delete is Some <==> (
            cfg.delete_branch && wt.branch is Some))
            &&& r is Some && !r->0.can_remove ==> r->0.branch_to_delete is None
        }),
{
    lemma_report_words();
    reveal_strlit("worktree");
    reveal_strlit("error");
    reveal_strlit("skip");
    reveal_strlit("would_remove");
}

/// What a removal attempt records: a removed worktree becomes `removed`, a
/// failed removal an `error` with the failure's message and no branch
/// deletion; the branch is recorded deleted exactly when the worktree was
/// removed and deleting its branch succeeded against a known base; a failed
/// deletion, or a missing base, is recorded as a branch error. Nothing else
/// of the item changes.
pub proof fn lemma_removal_is_recorded(
    e: EvaluationView,
    has_base: bool,
    removal: Result<(), String>,
    deletion: Option<Result<(), String>>,
)
    requires
        deletion is Some <==> wants_branch_deletion(e, has_base, removal),
        !e.item.branch_deleted,
    ensures
        ({
            let r = spec_record_removal(e, has_base, removal, deletion);
            &&& removal is Ok ==> r.item.action == "removed"@ && r.item.error == e.item.error
            &&& removal is Err ==> r.item.action == "error"@ && r.item.error == Some(
                removal->Err_0@,
            ) && r.item.branch_action == e.item.branch_action
            &&& r.item.branch_deleted <==> (removal is Ok && e.branch_to_delete is Some && has_base
                && deletion == Some(Ok::<(), String>(())))
            &&& r.item.branch_deleted ==> r.item.branch_action == Some("deleted"@)
            &&& removal is Ok && e.branch_to_delete is Some && has_base && deletion is Some
                && deletion->0 is Err ==> r.item.branch_action == Some("error"@)
                && r.item.branch_error == Some(deletion->0->Err_0@)
            &&& removal is Ok && e.branch_to_delete is Some && !has_base ==> r.item.branch_action
                == Some("error"@) && r.item.branch_error == Some(
                "failed to resolve branch deletion base"@,
            )
            &&& r.item.kind == e.item.kind && r.item.path == e.item.path && r.item.repo
                == e.item.repo && r.item.reasons == e.item.reasons && r.item.dirty == e.item.dirty
            &&& r.can_remove == e.can_remove && r.branch_to_delete == e.branch_to_delete
                && r.worktree_name == e.worktree_name
        }),
{
    lemma_report_words();
    reveal_strlit("removed");
    reveal_strlit("error");
    reveal_strlit("deleted");
    match deletion {
        Some(Ok(u)) => {
            assert(u == ());
        },
        _ => {},
    }
}

/// Safety: a worktree may only be removed when some reason selects it, no
/// error was met while selecting it, the filters keep it, it is not the
/// current worktree, it is neither locked nor prunable nor uninspectable,
/// and its dirty state was read and is clean (or `--force-with-dirty` was
/// given). The current worktree is not even reported without `--all`.
pub proof fn lemma_only_safe_worktrees_are_removable(
    repo: Seq<char>,
    wt: WorktreeInfo,
    is_current: bool,
    ctx: RepoContext,
    cfg: SweepConfig,
    probes: ReasonProbes,
    dirty: Option<Result<bool, String>>,
    branch_check: Option<Result<(), String>>,
)
    requires
        evaluation_inputs_fit(wt, is_current, ctx, cfg, probes, dirty, branch_check),
    ensures
        is_current && !cfg.select_all ==> spec_evaluate(
            repo,
            wt,
            is_current,
            ctx,
            cfg,
            probes,
            dirty,
            branch_check,
        ) is None,
        spec_evaluate(repo, wt, is_current, ctx, cfg, probes, dirty, branch_check) matches Some(e)
            && e.can_remove ==> {
            &&& spec_reasons(wt, ctx, cfg, probes).0.len() > 0
            &&& spec_reasons(wt, ctx, cfg, probes).1.len() == 0
            &&& spec_matches_filters(wt, cfg)
            &&& !is_current
            &&& !wt.locked
            &&& !wt.prunable
            &&& wt.inspection_error is None
            &&& clean_enough(dirty, cfg)
        },
{
}

/// Dry run: without `--force` nothing is removed, and every worktree that
/// could be removed is reported as `would_remove`.
pub proof fn lemma_dry_run_removes_nothing(
    repo: Seq<char>,
    wt: WorktreeInfo,
    is_current: bool,
    ctx: RepoContext,
    cfg: SweepConfig,
    probes: ReasonProbes,
    dirty: Option<Result<bool, String>>,
    branch_check: Option<Result<(), String>>,
)
    requires
        evaluation_inputs_fit(wt, is_current, ctx, cfg, probes, dirty, branch_check),
        !cfg.force,
    ensures
        spec_evaluate(repo, wt, is_current, ctx, cfg, probes, dirty, branch_check) matches Some(e)
            ==> {
            &&& e.item.action != ACTION_REMOVED@
            &&& e.can_remove ==> e.item.action == ACTION_WOULD_REMOVE@
            &&& !e.item.branch_deleted
        },
{
    lemma_report_words();
}

/// Branches: a branch is only to be deleted with `--delete-branch`, and it
/// is the worktree's own; it is only reported deleted after the worktree
/// was removed and its deletion (with its safety check) succeeded against a
/// known base.
pub proof fn lemma_branch_deleted_only_after_removal(
    repo: Seq<char>,
    wt: WorktreeInfo,
    is_current: bool,
    ctx: RepoContext,
    cfg: SweepConfig,
    probes: ReasonProbes,
    dirty: Option<Result<bool, String>>,
    branch_check: Option<Result<(), String>>,
    removal: Result<(), String>,
    deletion: Option<Result<(), String>>,
)
    requires
        evaluation_inputs_fit(wt, is_current, ctx, cfg, probes, dirty, branch_check),
        spec_evaluate(repo, wt, is_current, ctx, cfg, probes, dirty, branch_check) is Some,
        deletion is Some <==> wants_branch_deletion(
            spec_evaluate(repo, wt, is_current, ctx, cfg, probes, dirty, branch_check)->0,
            ctx.branch_delete_base is Some,
            removal,
        ),
    ensures
        spec_evaluate(repo, wt, is_current, ctx, cfg, probes, dirty, branch_check)->0.branch_to_delete
            is Some ==> cfg.delete_branch,
        spec_evaluate(repo, wt, is_current, ctx, cfg, probes, dirty, branch_check)->0.branch_to_delete
            is Some ==> spec_evaluate(
            repo,
            wt,
            is_current,
            ctx,
            cfg,
            probes,
            dirty,
            branch_check,
        )->0.branch_to_delete == opt_view(wt.branch),
        !spec_evaluate(repo, wt, is_current, ctx, cfg, probes, dirty, branch_check)->0.item.branch_deleted,
        spec_record_removal(
            spec_evaluate(repo, wt, is_current, ctx, cfg, probes, dirty, branch_check)->0,
            ctx.branch_delete_base is Some,
            removal,
            deletion,
        ).item.branch_deleted ==> {
            &&& removal is Ok
            &&& spec_evaluate(
                repo,
                wt,
                is_current,
                ctx,
                cfg,
                probes,
                dirty,
                branch_check,
            )->0.branch_to_delete is Some
            &&& ctx.branch_delete_base is Some
            &&& deletion == Some(Ok::<(), String>(()))
        },
{
    let e = spec_evaluate(repo, wt, is_current, ctx, cfg, probes, dirty, branch_check)->0;
    let has_base = ctx.branch_delete_base is Some;
    if spec_record_removal(e, has_base, removal, deletion).item.branch_deleted {
        assert(removal is Ok);
        assert(e.branch_to_delete is Some);
        assert(has_base);
        assert(deletion is Some);
        assert(!(deletion matches Some(Err(_))));
        match deletion {
            Some(Ok(u)) => {
                assert(u == ());
                assert(deletion == Some(Ok::<(), String>(())));
            },
            _ => {},
        }
    }
}

/// Hooks called while a sweep runs.
pub trait SweepProgress: DiscoveryProgress {
    fn begin_discovery(&self) {
    }

    fn repositories_discovered(&self, total: usize) {
    }

    fn begin_repository(&self, path: &str) {
    }

    fn finish_repository(&self) {
    }
}

/// The item of a path or repository that could not be inspected.
pub open spec fn spec_error_item(
    repo: Seq<char>,
    path: Seq<char>,
    reasons: Seq<Seq<char>>,
    error: Seq<char>,
) -> ItemView {
    ItemView {
        kind: KIND_REPOSITORY_ERROR@,
        repo,
        path,
        branch: None,
        head: None,
        reasons,
        dirty: false,
        locked: false,
        action: ACTION_ERROR@,
        skip_reason: None,
        error: Some(error),
        branch_deleted: false,
        branch_action: None,
        branch_error: None,
    }
}

/// The item of a path or repository that could not be inspected.
pub fn error_item(repo: &str, path: &str, reasons: Vec<&str>, error: String) -> (r: SweepItem)
    ensures
        r@ == spec_error_item(repo@, path@, reasons@.map_values(|s: &str| s@), error@),
{
    let mut owned: Vec<String> = Vec::new();
    let mut i: usize = 0;
    while i < reasons.len()
        invariant
            i <= reasons.len(),
            strings_view(owned@) == reasons@.take(i as int).map_values(|s: &str| s@),
        decreases reasons.len() - i,
    {
        let r: &str = reasons[i];
        let ghost prev = owned@;
        owned.push(String::from_str(r));
        assert(owned@ == prev.push(owned@.last()));
        assert(strings_view(owned@) =~= strings_view(prev).push(r@));
        assert(reasons@.take(i + 1) =~= reasons@.take(i as int).push(r));
        i = i + 1;
        assert(strings_view(owned@) =~= reasons@.take(i as int).map_values(|s: &str| s@));
    }
    assert(reasons@.take(reasons.len() as int) =~= reasons@);
    SweepItem {
        kind: String::from_str(KIND_REPOSITORY_ERROR),
        repo: String::from_str(repo),
        path: String::from_str(path),
        branch: None,
        head: None,
        reasons: owned,
        dirty: false,
        locked: false,
        action: String::from_str(ACTION_ERROR),
        skip_reason: None,
        error: Some(error),
        branch_deleted: false,
        branch_action: None,
        branch_error: None,
    }
}

/// A report of a sweep over `repositories` repositories that starts with
/// the paths discovery could not inspect, in order.
pub fn start_report(config: &SweepConfig, repositories: usize, errors: Vec<DiscoveryError>) -> (r:
    SweepReport)
    requires
        errors@.len() < usize::MAX,
    ensures
        summary_agrees(r),
        r.summary.dry_run == !config.force,
        r.summary.repositories == repositories,
        r.items@.len() == errors@.len(),
        forall|i: int|
            0 <= i < errors@.len() ==> #[trigger] r.items@[i]@ == spec_error_item(
                errors@[i].path@,
                errors@[i].path@,
                seq!["repo:error"@],
                errors@[i].message@,
            ),
{
    let mut report = new_report(!config.force, repositories);
    let mut i: usize = 0;
    while i < errors.len()
        invariant
            i <= errors.len(),
            errors@.len() < usize::MAX,
            summary_agrees(report),
            report.summary.dry_run == !config.force,
            report.summary.repositories == repositories,
            report.items@.len() == i,
            report.summary.matched == 0,
            report.summary.would_remove == 0,
            report.summary.removed == 0,
            report.summary.skipped == 0,
            report.summary.errors <= i,
            report.summary.branch_deleted == 0,
            forall|j: int|
                0 <= j < i ==> #[trigger] report.items@[j]@ == spec_error_item(
                    errors@[j].path@,
                    errors@[j].path@,
                    seq!["repo:error"@],
                    errors@[j].message@,
                ),
        decreases errors.len() - i,
    {
        let error = &errors[i];
        let mut reasons: Vec<&str> = Vec::new();
        reasons.push("repo:error");
        let item = error_item(
            error.path.as_str(),
            error.path.as_str(),
            reasons,
            error.message.clone(),
        );
        assert(reasons@.map_values(|s: &str| s@) =~= seq!["repo:error"@]);
        proof {
            lemma_report_words();
        }
        record_item(&mut report, item);
        i = i + 1;
    }
    report
}

/// What a merge base is, as text.
pub open spec fn base_view(b: MergeBase) -> (Seq<char>, Seq<char>, Option<Seq<char>>) {
    (b.display@, b.oid@, opt_view(b.protected_branch_ref))
}

/// The view of an optional merge base.
pub open spec fn opt_base_view(b: Option<MergeBase>) -> Option<(Seq<char>, Seq<char>, Option<Seq<char>>)> {
    match b {
        Some(b) => Some(base_view(b)),
        None => None,
    }
}

/// A merge base is resolved for a repository exactly when merged worktrees
/// are selected.
pub open spec fn spec_merge_base_outcome(
    repo: Seq<char>,
    cfg: SweepConfig,
    resolved: Option<Result<Option<MergeBase>, String>>,
) -> Result<Option<(Seq<char>, Seq<char>, Option<Seq<char>>)>, ItemView> {
    if !cfg.select_merged {
        Ok(None)
    } else {
        match resolved {
            Some(Ok(Some(b))) => Ok(Some(base_view(b))),
            Some(Ok(None)) => if cfg.require_merge_base {
                Err(
                    spec_error_item(
                        repo,
                        repo,
                        seq!["merged:error"@],
                        "failed to resolve merge base; pass --merged-to <ref>"@,
                    ),
                )
            } else {
                Ok(None)
            },
            Some(Err(e)) => if cfg.require_merge_base {
                Err(spec_error_item(repo, repo, seq!["repo:error"@], e@))
            } else {
                Ok(None)
            },
            None => Ok(None),
        }
    }
}

/// The view of a result that holds an optional merge base or an item.
pub open spec fn base_outcome_view(r: Result<Option<MergeBase>, SweepItem>) -> Result<
    Option<(Seq<char>, Seq<char>, Option<Seq<char>>)>,
    ItemView,
> {
    match r {
        Ok(b) => Ok(opt_base_view(b)),
        Err(item) => Err(item@),
    }
}

fn reasons_of(reason: &'static str) -> (v: Vec<&'static str>)
    ensures
        v@.map_values(|s: &str| s@) == seq![reason@],
{
    let mut v: Vec<&'static str> = Vec::new();
    v.push(reason);
    assert(v@.map_values(|s: &str| s@) =~= seq![reason@]);
    v
}

/// The merge base of a repository for the `merged` selector, from the
/// outcome of resolving it (made exactly when merged worktrees are
/// selected); an error item when the base is required and cannot be had.
pub fn merge_base_outcome(
    repo_path: &str,
    config: &SweepConfig,
    resolved: Option<Result<Option<MergeBase>, String>>,
) -> (r: Result<Option<MergeBase>, SweepItem>)
    requires
        resolved is Some <==> config.select_merged,
    ensures
        base_outcome_view(r) == spec_merge_base_outcome(repo_path@, *config, resolved),
{
    match resolved {
        None => Ok(None),
        Some(Ok(Some(base))) => Ok(Some(base)),
        Some(Ok(None)) => {
            if config.require_merge_base {
                Err(
                    error_item(
                        repo_path,
                        repo_path,
                        reasons_of("merged:error"),
                        String::from_str("failed to resolve merge base; pass --merged-to <ref>"),
                    ),
                )
            } else {
                Ok(None)
            }
        },
        Some(Err(error)) => {
            if config.require_merge_base {
                Err(error_item(repo_path, repo_path, reasons_of("repo:error"), error))
            } else {
                Ok(None)
            }
        },
    }
}

/// Whether the deletion base must be resolved on its own: branches are to
/// be deleted and no merge base was had.
pub open spec fn wants_delete_base(cfg: SweepConfig, merge_base: Option<MergeBase>) -> bool {
    cfg.delete_branch && merge_base is None
}

/// Whether the deletion base must be resolved on its own.
pub fn wants_delete_base_exec(config: &SweepConfig, merge_base: &Option<MergeBase>) -> (r: bool)
    ensures
        r == wants_delete_base(*config, *merge_base),
{
    config.delete_branch && merge_base.is_none()
}

/// The base that branches must be merged into to be deleted: the merge
/// base when there is one, otherwise the outcome of resolving it again.
pub open spec fn spec_delete_base_outcome(
    repo: Seq<char>,
    cfg: SweepConfig,
    merge_base: Option<MergeBase>,
    resolved: Option<Result<Option<MergeBase>, String>>,
) -> Result<Option<(Seq<char>, Seq<char>, Option<Seq<char>>)>, ItemView> {
    if !cfg.delete_branch {
        Ok(None)
    } else {
        match merge_base {
            Some(b) => Ok(Some(base_view(b))),
            None => match resolved {
                Some(Ok(b)) => Ok(opt_base_view(b)),
                Some(Err(e)) => if cfg.require_merge_base {
                    Err(spec_error_item(repo, repo, seq!["repo:error"@], e@))
                } else {
                    Ok(None)
                },
                None => Ok(None),
            },
        }
    }
}

fn clone_base(b: &MergeBase) -> (r: MergeBase)
    ensures
        base_view(r) == base_view(*b),
{
    MergeBase {
        display: b.display.clone(),
        oid: b.oid.clone(),
        protected_branch_ref: clone_opt(&b.protected_branch_ref),
    }
}

/// The deletion base of a repository, from its merge base and, when that
/// is missing and branches are to be deleted, the outcome of resolving it
/// again; an error item when the base is required and cannot be had.
pub fn delete_base_outcome(
    repo_path: &str,
    config: &SweepConfig,
    merge_base: &Option<MergeBase>,
    resolved: Option<Result<Option<MergeBase>, String>>,
) -> (r: Result<Option<MergeBase>, SweepItem>)
    requires
        resolved is Some <==> wants_delete_base(*config, *merge_base),
    ensures
        base_outcome_view(r) == spec_delete_base_outcome(
            repo_path@,
            *config,
            *merge_base,
            resolved,
        ),
{
    if !config.delete_branch {
        return Ok(None);
    }
    match merge_base {
        Some(base) => Ok(Some(clone_base(base))),
        None => match resolved {
            Some(Ok(base)) => Ok(base),
            Some(Err(error)) => {
                if config.require_merge_base {
                    Err(error_item(repo_path, repo_path, reasons_of("repo:error"), error))
                } else {
                    Ok(None)
                }
            },
            None => Ok(None),
        },
    }
}

/// Where the inspection of a repository stands: each stage makes one read.
#[derive(Debug)]
pub enum RepoStage {
    /// The repository is opened.
    Opening,
    /// Its merge base is resolved, for the merged selector.
    ResolvingMergeBase,
    /// Its branch deletion base is resolved (no merge base was had).
    ResolvingDeleteBase,
    /// Its worktrees are listed, to be judged against the context.
    Listing(RepoContext),
}

/// The outcome of the read that a stage makes.
#[derive(Debug)]
pub enum RepoEvent {
    Opened(Result<(), String>),
    Resolved(Result<Option<MergeBase>, String>),
    Listed(Result<Vec<WorktreeInfo>, String>),
}

/// What is done next with a repository.
#[derive(Debug)]
pub enum RepoAction {
    /// Make the read of this stage.
    Read(RepoStage),
    /// Record this item and go on to the next repository: none of this
    /// repository's worktrees is looked at.
    Report(SweepItem),
    /// Judge each of these worktrees against this context; then the
    /// repository is done.
    Judge(RepoContext, Vec<WorktreeInfo>),
}

/// A merge base, as text.
pub type BaseView = (Seq<char>, Seq<char>, Option<Seq<char>>);

/// A stage, as text.
pub enum StageView {
    Opening,
    ResolvingMergeBase,
    ResolvingDeleteBase,
    Listing(Option<BaseView>, Option<BaseView>),
}

/// An action, as text.
pub enum ActionView {
    Read(StageView),
    Report(ItemView),
    Judge(Option<BaseView>, Option<BaseView>, Seq<WorktreeInfo>),
}

impl View for RepoStage {
    type V = StageView;

    open spec fn view(&self) -> StageView {
        match self {
            RepoStage::Opening => StageView::Opening,
            RepoStage::ResolvingMergeBase => StageView::ResolvingMergeBase,
            RepoStage::ResolvingDeleteBase => StageView::ResolvingDeleteBase,
            RepoStage::Listing(ctx) => StageView::Listing(
                opt_base_view(ctx.merge_base),
                opt_base_view(ctx.branch_delete_base),
            ),
        }
    }
}

impl View for RepoAction {
    type V = ActionView;

    open spec fn view(&self) -> ActionView {
        match self {
            RepoAction::Read(stage) => ActionView::Read(stage@),
            RepoAction::Report(item) => ActionView::Report(item@),
            RepoAction::Judge(ctx, worktrees) => ActionView::Judge(
                opt_base_view(ctx.merge_base),
                opt_base_view(ctx.branch_delete_base),
                worktrees@,
            ),
        }
    }
}

/// A stage is only reached when its read is wanted: the merge base with the
/// merged selector, the deletion base with `--delete-branch`.
pub open spec fn stage_fits(cfg: SweepConfig, stage: RepoStage) -> bool {
    &&& stage is ResolvingMergeBase ==> cfg.select_merged
    &&& stage is ResolvingDeleteBase ==> cfg.delete_branch
}

/// The event is the outcome of the stage's read.
pub open spec fn event_fits(stage: RepoStage, event: RepoEvent) -> bool {
    match stage {
        RepoStage::Opening => event is Opened,
        RepoStage::ResolvingMergeBase => event is Resolved,
        RepoStage::ResolvingDeleteBase => event is Resolved,
        RepoStage::Listing(_) => event is Listed,
    }
}

/// What follows once the merge base is known: the deletion base is resolved
/// on its own when branches are to be deleted and there is no merge base;
/// otherwise the worktrees are listed, with the merge base also serving as
/// the deletion base when branches are to be deleted.
pub open spec fn after_merge_base(cfg: SweepConfig, base: Option<BaseView>) -> ActionView {
    if cfg.delete_branch && base is None {
        ActionView::Read(StageView::ResolvingDeleteBase)
    } else {
        ActionView::Read(
            StageView::Listing(
                base,
                if cfg.delete_branch {
                    base
                } else {
                    None
                },
            ),
        )
    }
}

/// The next step with the repository at `repo`: a repository that cannot be
/// opened, whose required base cannot be had, or whose worktrees cannot be
/// listed is reported by one error item and left; otherwise its bases are
/// resolved as wanted, then its worktrees are judged.
pub open spec fn spec_repo_step(
    repo: Seq<char>,
    cfg: SweepConfig,
    stage: RepoStage,
    event: RepoEvent,
) -> ActionView {
    match stage {
        RepoStage::Opening => match event {
            RepoEvent::Opened(Err(e)) => ActionView::Report(
                spec_error_item(repo, repo, seq!["repo:error"@], e@),
            ),
            _ => if cfg.select_merged {
                ActionView::Read(StageView::ResolvingMergeBase)
            } else {
                after_merge_base(cfg, None)
            },
        },
        RepoStage::ResolvingMergeBase => match spec_merge_base_outcome(
            repo,
            cfg,
            Some(event->Resolved_0),
        ) {
            Err(item) => ActionView::Report(item),
            Ok(base) => after_merge_base(cfg, base),
        },
        RepoStage::ResolvingDeleteBase => match spec_delete_base_outcome(
            repo,
            cfg,
            None,
            Some(event->Resolved_0),
        ) {
            Err(item) => ActionView::Report(item),
            Ok(base) => ActionView::Read(StageView::Listing(None, base)),
        },
        RepoStage::Listing(ctx) => match event->Listed_0 {
            Ok(worktrees) => ActionView::Judge(
                opt_base_view(ctx.merge_base),
                opt_base_view(ctx.branch_delete_base),
                worktrees@,
            ),
            Err(e) => ActionView::Report(spec_error_item(repo, repo, seq!["repo:error"@], e@)),
        },
    }
}

/// The bases of a repository are those that were found:
/// - the merge base is the resolved base exactly when merged worktrees are
///   selected and one was found; when none can be had, the repository is
///   reported by an error item if the base is required, and judged without
///   a merge base otherwise;
/// - with `--delete-branch` the deletion base is the merge base when there is
///   one, and otherwise the base that resolving it again found; without
///   `--delete-branch` there is none. A failed resolution ends the repository
///   with an error item exactly when the base is required.
pub proof fn lemma_bases_are_those_found(
    repo: Seq<char>,
    cfg: SweepConfig,
    merge_base: Option<MergeBase>,
    resolved: Option<Result<Option<MergeBase>, String>>,
)
    ensures
        !cfg.select_merged ==> spec_merge_base_outcome(repo, cfg, resolved) == Ok::<
            Option<BaseView>,
            ItemView,
        >(None),
        cfg.select_merged && resolved is Some && resolved->0 is Ok ==> (
        spec_merge_base_outcome(repo, cfg, resolved) is Ok <==> (resolved->0->Ok_0 is Some
            || !cfg.require_merge_base)),
        cfg.select_merged && resolved is Some && resolved->0 is Ok && resolved->0->Ok_0 is Some
            ==> spec_merge_base_outcome(repo, cfg, resolved) == Ok::<Option<BaseView>, ItemView>(
            Some(
                (
                    resolved->0->Ok_0->0.display@,
                    resolved->0->Ok_0->0.oid@,
                    opt_view(resolved->0->Ok_0->0.protected_branch_ref),
                ),
            ),
        ),
        cfg.select_merged && resolved is Some && resolved->0 is Err ==> (spec_merge_base_outcome(
            repo,
            cfg,
            resolved,
        ) is Err <==> cfg.require_merge_base),
        spec_merge_base_outcome(repo, cfg, resolved) is Err ==> {
            &&& spec_merge_base_outcome(repo, cfg, resolved)->Err_0.kind == KIND_REPOSITORY_ERROR@
            &&& spec_merge_base_outcome(repo, cfg, resolved)->Err_0.path == repo
            &&& spec_merge_base_outcome(repo, cfg, resolved)->Err_0.error is Some
        },
        !cfg.delete_branch ==> spec_delete_base_outcome(repo, cfg, merge_base, resolved) == Ok::<
            Option<BaseView>,
            ItemView,
        >(None),
        cfg.delete_branch && merge_base is Some ==> spec_delete_base_outcome(
            repo,
            cfg,
            merge_base,
            resolved,
        ) == Ok::<Option<BaseView>, ItemView>(
            Some(
                (
                    merge_base->0.display@,
                    merge_base->0.oid@,
                    opt_view(merge_base->0.protected_branch_ref),
                ),
            ),
        ),
        cfg.delete_branch && merge_base is None && resolved is Some && resolved->0 is Ok
            && resolved->0->Ok_0 is Some ==> spec_delete_base_outcome(
            repo,
            cfg,
            merge_base,
            resolved,
        ) == Ok::<Option<BaseView>, ItemView>(
            Some(
                (
                    resolved->0->Ok_0->0.display@,
                    resolved->0->Ok_0->0.oid@,
                    opt_view(resolved->0->Ok_0->0.protected_branch_ref),
                ),
            ),
        ),
        cfg.delete_branch && merge_base is None && resolved is Some && resolved->0 is Err ==> (
        spec_delete_base_outcome(repo, cfg, merge_base, resolved) is Err
            <==> cfg.require_merge_base),
        spec_delete_base_outcome(repo, cfg, merge_base, resolved) is Err ==> {
            &&& spec_delete_base_outcome(repo, cfg, merge_base, resolved)->Err_0.kind
                == KIND_REPOSITORY_ERROR@
            &&& spec_delete_base_outcome(repo, cfg, merge_base, resolved)->Err_0.path == repo
            &&& spec_delete_base_outcome(repo, cfg, merge_base, resolved)->Err_0.error
                == Some(resolved->0->Err_0@)
        },
{
}

/// How a repository is stepped through: a repository that cannot be opened
/// is reported and left; once opened its merge base is resolved exactly when
/// merged worktrees are selected, then its deletion base on its own exactly
/// when branches are to be deleted and no merge base was had; a base found
/// is the one its worktrees are judged against (the merge base also serving
/// as deletion base); worktrees are judged only once listed, and a failed
/// listing is reported.
pub proof fn lemma_repo_steps(repo: Seq<char>, cfg: SweepConfig, stage: RepoStage, event: RepoEvent)
    requires
        stage_fits(cfg, stage),
        event_fits(stage, event),
    ensures
        stage is Opening && event->Opened_0 is Err ==> spec_repo_step(repo, cfg, stage, event)
            is Report && spec_repo_step(repo, cfg, stage, event)->Report_0.error == Some(
            event->Opened_0->Err_0@,
        ),
        stage is Opening && event->Opened_0 is Ok ==> spec_repo_step(repo, cfg, stage, event)
            == if cfg.select_merged {
            ActionView::Read(StageView::ResolvingMergeBase)
        } else if cfg.delete_branch {
            ActionView::Read(StageView::ResolvingDeleteBase)
        } else {
            ActionView::Read(StageView::Listing(None, None))
        },
        stage is ResolvingMergeBase && event->Resolved_0 is Ok && event->Resolved_0->Ok_0 is Some
            ==> spec_repo_step(repo, cfg, stage, event) == ActionView::Read(
            StageView::Listing(
                Some(base_view(event->Resolved_0->Ok_0->0)),
                if cfg.delete_branch {
                    Some(base_view(event->Resolved_0->Ok_0->0))
                } else {
                    None
                },
            ),
        ),
        stage is ResolvingDeleteBase && event->Resolved_0 is Ok ==> spec_repo_step(
            repo,
            cfg,
            stage,
            event,
        ) == ActionView::Read(StageView::Listing(None, opt_base_view(event->Resolved_0->Ok_0))),
        spec_repo_step(repo, cfg, stage, event) is Judge ==> stage is Listing && event->Listed_0
            is Ok && spec_repo_step(repo, cfg, stage, event)->Judge_2 == event->Listed_0->Ok_0@,
        stage is Listing && event->Listed_0 is Err ==> spec_repo_step(repo, cfg, stage, event)
            is Report,
{
}

fn after_merge_base_exec(config: &SweepConfig, base: Option<MergeBase>) -> (r: RepoAction)
    ensures
        r@ == after_merge_base(*config, opt_base_view(base)),
        r matches RepoAction::Read(s) ==> stage_fits(*config, s),
{
    if config.delete_branch && base.is_none() {
        RepoAction::Read(RepoStage::ResolvingDeleteBase)
    } else {
        let branch_delete_base = if config.delete_branch {
            match &base {
                Some(b) => Some(clone_base(b)),
                None => None,
            }
        } else {
            None
        };
        RepoAction::Read(RepoStage::Listing(RepoContext { merge_base: base, branch_delete_base }))
    }
}

/// The next step with the repository at `repo_path`, given the stage it is
/// at and the outcome of that stage's read (the first stage is `Opening`).
pub fn repo_step(repo_path: &str, config: &SweepConfig, stage: RepoStage, event: RepoEvent) -> (r:
    RepoAction)
    requires
        stage_fits(*config, stage),
        event_fits(stage, event),
    ensures
        r@ == spec_repo_step(repo_path@, *config, stage, event),
        r matches RepoAction::Read(s) ==> stage_fits(*config, s),
{
    match stage {
        RepoStage::Opening => match event {
            RepoEvent::Opened(Err(e)) => RepoAction::Report(
                error_item(repo_path, repo_path, reasons_of("repo:error"), e),
            ),
            _ => if config.select_merged {
                RepoAction::Read(RepoStage::ResolvingMergeBase)
            } else {
                after_merge_base_exec(config, None)
            },
        },
        RepoStage::ResolvingMergeBase => {
            let resolved = match event {
                RepoEvent::Resolved(x) => x,
                _ => Ok(None),
            };
            match merge_base_outcome(repo_path, config, Some(resolved)) {
                Err(item) => RepoAction::Report(item),
                Ok(base) => after_merge_base_exec(config, base),
            }
        },
        RepoStage::ResolvingDeleteBase => {
            let resolved = match event {
                RepoEvent::Resolved(x) => x,
                _ => Ok(None),
            };
            match delete_base_outcome(repo_path, config, &None, Some(resolved)) {
                Err(item) => RepoAction::Report(item),
                Ok(base) => RepoAction::Read(
                    RepoStage::Listing(RepoContext { merge_base: None, branch_delete_base: base }),
                ),
            }
        },
        RepoStage::Listing(ctx) => match event {
            RepoEvent::Listed(Ok(worktrees)) => RepoAction::Judge(ctx, worktrees),
            RepoEvent::Listed(Err(e)) => RepoAction::Report(
                error_item(repo_path, repo_path, reasons_of("repo:error"), e),
            ),
            _ => RepoAction::Judge(ctx, Vec::new()),
        },
    }
}

} // verus!
