//! The configuration of a sweep, derived from its arguments: which reasons
//! select a worktree, and the compiled filters.

use vstd::prelude::*;
use crate::cli::SweepArgs;
use crate::globs::{
    builder_add, builder_build, builder_default_patterns, glob_error_text, glob_is_valid,
    glob_set_builds, new_builder, new_glob, set_default_patterns, GlobFilter,
};
use crate::text::strings_view;

verus! {

/// The path inspected when none is given.
pub const DEFAULT_PATH: &'static str = ".";

/// What a sweep looks for and what it may do.
pub struct SweepConfig {
    pub paths: Vec<String>,
    pub recursive: bool,
    pub include_hidden: bool,
    pub select_gone: bool,
    pub select_merged: bool,
    pub require_merge_base: bool,
    pub select_all: bool,
    pub merge_base_ref: Option<String>,
    pub older_than: Option<u64>,
    pub include_branch: Option<GlobFilter>,
    pub exclude_branch: Option<GlobFilter>,
    pub include_path: Option<GlobFilter>,
    pub exclude_path: Option<GlobFilter>,
    pub force: bool,
    pub force_with_dirty: bool,
    pub delete_branch: bool,
    pub json: bool,
    pub verbose: bool,
}

/// Whether every pattern parses and, when there are any, the set builds.
pub open spec fn globs_compile(patterns: Seq<Seq<char>>) -> bool {
    &&& forall|i: int| 0 <= i < patterns.len() ==> glob_is_valid(#[trigger] patterns[i])
    &&& patterns.len() > 0 ==> glob_set_builds(patterns)
}

/// The index of the first pattern that does not parse.
pub open spec fn first_invalid(patterns: Seq<Seq<char>>) -> Option<int>
    decreases patterns.len(),
{
    if patterns.len() == 0 {
        None
    } else {
        match first_invalid(patterns.drop_last()) {
            Some(i) => Some(i),
            None => if glob_is_valid(patterns.last()) {
                None
            } else {
                Some(patterns.len() - 1)
            },
        }
    }
}

/// Whether `s` starts with `prefix`.
pub open spec fn starts_with(s: Seq<char>, prefix: Seq<char>) -> bool {
    prefix.len() <= s.len() && s.take(prefix.len() as int) == prefix
}

/// How the message about an invalid pattern starts.
pub open spec fn invalid_glob_prefix(label: Seq<char>, pattern: Seq<char>) -> Seq<char> {
    "invalid "@ + label + " glob `"@ + pattern + "`: "@
}

/// What a message about a list of patterns that fails to compile says:
/// which pattern of it is invalid, when one is (the rest of the message is
/// `globset`'s).
pub open spec fn compile_error_says(
    message: Seq<char>,
    patterns: Seq<Seq<char>>,
    label: Seq<char>,
) -> bool {
    match first_invalid(patterns) {
        Some(i) => starts_with(message, invalid_glob_prefix(label, patterns[i])),
        None => true,
    }
}

proof fn lemma_first_invalid(patterns: Seq<Seq<char>>, n: int)
    requires
        0 <= n <= patterns.len(),
        forall|i: int| 0 <= i < n ==> glob_is_valid(#[trigger] patterns[i]),
    ensures
        first_invalid(patterns.take(n)) is None,
        n < patterns.len() && !glob_is_valid(patterns[n]) ==> first_invalid(patterns.take(n + 1))
            == Some(n),
    decreases n,
{
    if n > 0 {
        let t = patterns.take(n);
        assert(t.drop_last() =~= patterns.take(n - 1));
        lemma_first_invalid(patterns, n - 1);
    }
    if n < patterns.len() {
        assert(patterns.take(n + 1).drop_last() =~= patterns.take(n));
    }
}

proof fn lemma_first_invalid_extends(patterns: Seq<Seq<char>>, n: int)
    requires
        0 < n <= patterns.len(),
        first_invalid(patterns.take(n)) == Some(n - 1),
    ensures
        first_invalid(patterns) == Some(n - 1),
    decreases patterns.len() - n,
{
    if n < patterns.len() {
        assert(patterns.drop_last().take(n) =~= patterns.take(n));
        lemma_first_invalid_extends(patterns.drop_last(), n);
    } else {
        assert(patterns.take(n) =~= patterns);
    }
}

/// Compiles `patterns` into a glob set; `None` when there are none.
pub fn compile_globset(patterns: &Vec<String>, label: &str) -> (r: Result<
    Option<GlobFilter>,
    String,
>)
    ensures
        r is Ok <==> globs_compile(strings_view(patterns@)),
        patterns@.len() == 0 ==> r matches Ok(None),
        r matches Ok(Some(f)) ==> patterns@.len() > 0 && f.patterns() == strings_view(
            patterns@,
        ),
        r matches Ok(None) ==> patterns@.len() == 0,
        r matches Err(e) ==> compile_error_says(e@, strings_view(patterns@), label@),
{
    let ghost view = strings_view(patterns@);
    if patterns.len() == 0 {
        return Ok(None);
    }
    let mut builder = new_builder();
    let mut i: usize = 0;
    while i < patterns.len()
        invariant
            i <= patterns.len(),
            view == strings_view(patterns@),
            builder_default_patterns(builder) == Some(view.take(i as int)),
            forall|j: int| 0 <= j < i ==> glob_is_valid(#[trigger] view[j]),
        decreases patterns.len() - i,
    {
        let pattern = patterns[i].as_str();
        assert(view[i as int] == pattern@);
        match new_glob(pattern) {
            Ok(glob) => {
                builder_add(&mut builder, glob);
                assert(view.take(i + 1) =~= view.take(i as int).push(pattern@));
            },
            Err(error) => {
                let mut message = String::from_str("invalid ");
                message.append(label);
                message.append(" glob `");
                message.append(pattern);
                message.append("`: ");
                let ghost prefix = message@;
                let text = glob_error_text(&error);
                message.append(text.as_str());
                proof {
                    lemma_first_invalid(view, i as int);
                    lemma_first_invalid_extends(view, i + 1);
                    assert(prefix == invalid_glob_prefix(label@, view[i as int]));
                    assert(message@.take(prefix.len() as int) =~= prefix);
                }
                return Err(message);
            },
        }
        i = i + 1;
    }
    assert(view.take(patterns.len() as int) =~= view);
    match builder_build(&builder) {
        Ok(set) => Ok(Some(GlobFilter::from_set(set))),
        Err(error) => {
            proof {
                lemma_first_invalid(view, view.len() as int);
                assert(view.take(view.len() as int) =~= view);
            }
            Err(glob_error_text(&error))
        },
    }
}

/// Whether the arguments name any reason to select a worktree.
pub open spec fn has_reason_selector(args: SweepArgs) -> bool {
    args.gone || args.merged || args.merged_to is Some || args.older_than is Some || args.all
}

/// The configuration that arguments give, when their filters compile.
pub open spec fn config_follows(c: SweepConfig, args: SweepArgs) -> bool {
    let explicit_merged = args.merged || args.merged_to is Some;
    &&& c.paths@.len() == if args.paths@.len() == 0 { 1 } else { args.paths@.len() }
    &&& args.paths@.len() == 0 ==> c.paths@[0]@ == DEFAULT_PATH@
    &&& args.paths@.len() > 0 ==> c.paths@ == args.paths@
    &&& c.recursive == args.recursive
    &&& c.include_hidden == args.hidden
    &&& c.select_gone == (args.gone || !has_reason_selector(args))
    &&& c.select_merged == (explicit_merged || !has_reason_selector(args))
    &&& c.require_merge_base == explicit_merged
    &&& c.select_all == args.all
    &&& c.merge_base_ref == args.merged_to
    &&& c.older_than == args.older_than
    &&& globs_kept(c.include_branch, args.branch_globs@)
    &&& globs_kept(c.exclude_branch, args.exclude_branch_globs@)
    &&& globs_kept(c.include_path, args.path_globs@)
    &&& globs_kept(c.exclude_path, args.exclude_path_globs@)
    &&& c.force == args.force
    &&& c.force_with_dirty == args.force_with_dirty
    &&& c.delete_branch == args.delete_branch
    &&& c.json == args.json
    &&& c.verbose == args.verbose
}

/// A filter holds exactly the given patterns, and is absent when none is
/// given.
pub open spec fn globs_kept(set: Option<GlobFilter>, patterns: Seq<String>) -> bool {
    match set {
        None => patterns.len() == 0,
        Some(f) => patterns.len() > 0 && f.patterns() == strings_view(patterns),
    }
}

/// Whether all four filters of the arguments compile.
pub open spec fn filters_compile(args: SweepArgs) -> bool {
    &&& globs_compile(strings_view(args.branch_globs@))
    &&& globs_compile(strings_view(args.exclude_branch_globs@))
    &&& globs_compile(strings_view(args.path_globs@))
    &&& globs_compile(strings_view(args.exclude_path_globs@))
}

/// What the error of arguments whose filters do not compile says: it is
/// about the first filter, in the order branch, exclude-branch, path,
/// exclude-path, that fails.
pub open spec fn filter_error_says(message: Seq<char>, args: SweepArgs) -> bool {
    if !globs_compile(strings_view(args.branch_globs@)) {
        compile_error_says(message, strings_view(args.branch_globs@), "branch"@)
    } else if !globs_compile(strings_view(args.exclude_branch_globs@)) {
        compile_error_says(message, strings_view(args.exclude_branch_globs@), "exclude-branch"@)
    } else if !globs_compile(strings_view(args.path_globs@)) {
        compile_error_says(message, strings_view(args.path_globs@), "path"@)
    } else {
        compile_error_says(message, strings_view(args.exclude_path_globs@), "exclude-path"@)
    }
}

/// How arguments select worktrees: with no reason selector (`--gone`,
/// `--merged`, `--merged-to`, `--older-than`, `--all`), worktrees on a gone
/// upstream and worktrees merged into the default merge base are selected,
/// without requiring a merge base; `--merged` or `--merged-to` selects merged
/// worktrees and requires the merge base; `--gone` selects gone ones; a
/// selector otherwise selects only itself. With no path, `.` is inspected;
/// every other option is carried over as given.
pub proof fn lemma_selection_follows_the_arguments(c: SweepConfig, args: SweepArgs)
    requires
        config_follows(c, args),
    ensures
        !(args.gone || args.merged || args.merged_to is Some || args.older_than is Some
            || args.all) ==> c.select_gone && c.select_merged && !c.require_merge_base
            && !c.select_all && c.older_than is None,
        args.merged || args.merged_to is Some ==> c.select_merged && c.require_merge_base,
        !(args.merged || args.merged_to is Some) ==> !c.require_merge_base,
        args.gone ==> c.select_gone,
        (args.older_than is Some || args.all) && !args.gone ==> !c.select_gone,
        (args.gone || args.older_than is Some || args.all) && !args.merged && args.merged_to is None
            ==> !c.select_merged,
        c.select_all == args.all && c.older_than == args.older_than && c.merge_base_ref
            == args.merged_to,
        c.force == args.force && c.force_with_dirty == args.force_with_dirty && c.delete_branch
            == args.delete_branch,
        c.recursive == args.recursive && c.include_hidden == args.hidden && c.json == args.json
            && c.verbose == args.verbose,
        args.paths@.len() == 0 ==> c.paths@.len() == 1 && c.paths@[0]@ == "."@,
        args.paths@.len() > 0 ==> c.paths@ == args.paths@,
{
    reveal_strlit(".");
}

impl SweepConfig {
    /// The configuration of a sweep. With no reason selector, worktrees on
    /// a gone upstream and worktrees merged into the default merge base are
    /// selected; an explicit `--merged` or `--merged-to` makes the merge base
    /// required. Fails when a filter does not compile.
    pub fn from_args(args: SweepArgs) -> (r: Result<SweepConfig, String>)
        ensures
            r is Ok <==> filters_compile(args),
            r matches Ok(c) ==> config_follows(c, args),
            r matches Err(e) ==> filter_error_says(e@, args),
    {
        let has_explicit_merged_selector = args.merged || args.merged_to.is_some();
        let has_reason_selector = args.gone || has_explicit_merged_selector
            || args.older_than.is_some() || args.all;
        let include_branch = match compile_globset(&args.branch_globs, "branch") {
            Ok(s) => s,
            Err(e) => return Err(e),
        };
        let exclude_branch = match compile_globset(&args.exclude_branch_globs, "exclude-branch") {
            Ok(s) => s,
            Err(e) => return Err(e),
        };
        let include_path = match compile_globset(&args.path_globs, "path") {
            Ok(s) => s,
            Err(e) => return Err(e),
        };
        let exclude_path = match compile_globset(&args.exclude_path_globs, "exclude-path") {
            Ok(s) => s,
            Err(e) => return Err(e),
        };
        let paths = if args.paths.len() == 0 {
            let mut v: Vec<String> = Vec::new();
            v.push(String::from_str(DEFAULT_PATH));
            v
        } else {
            args.paths
        };
        Ok(
            SweepConfig {
                paths,
                recursive: args.recursive,
                include_hidden: args.hidden,
                select_gone: args.gone || !has_reason_selector,
                select_merged: has_explicit_merged_selector || !has_reason_selector,
                require_merge_base: has_explicit_merged_selector,
                select_all: args.all,
                merge_base_ref: args.merged_to,
                older_than: args.older_than,
                include_branch,
                exclude_branch,
                include_path,
                exclude_path,
                force: args.force,
                force_with_dirty: args.force_with_dirty,
                delete_branch: args.delete_branch,
                json: args.json,
                verbose: args.verbose,
            },
        )
    }
}

} // verus!
