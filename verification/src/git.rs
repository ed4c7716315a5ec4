//! What the sweep knows of repositories and worktrees, as plain values, and
//! the decisions taken on what Git reports: discovery of repositories, the
//! merge base, upstream and ancestry checks, and the safety of deleting a
//! branch. Reading the repositories is left to the caller, which hands the
//! outcome of each read to these functions.

use vstd::prelude::*;
use crate::text::{opt_view, str_eq};

verus! {

/// A repository found by discovery, by its canonical path.
#[derive(Debug)]
pub struct RepoInfo {
    pub path: String,
}

/// A path that discovery could not inspect, and why.
#[derive(Debug)]
pub struct DiscoveryError {
    pub path: String,
    pub message: String,
}

/// The repositories that discovery found, and the paths it could not
/// inspect.
#[derive(Debug)]
pub struct DiscoveryResult {
    pub repos: Vec<RepoInfo>,
    pub errors: Vec<DiscoveryError>,
}

/// The commit that worktrees are checked against for being merged.
#[derive(Debug)]
pub struct MergeBase {
    /// How the base is named in reasons (`origin/HEAD`, `main`, a ref).
    pub display: String,
    /// The commit id, in hexadecimal.
    pub oid: String,
    /// The local branch ref that the base is, when it is one; that branch
    /// is never deleted.
    pub protected_branch_ref: Option<String>,
}

/// A worktree of a repository, as Git reports it.
#[derive(Debug)]
pub struct WorktreeInfo {
    pub name: String,
    /// The worktree's path, as text.
    pub path: String,
    /// The last component of the path, when it is Unicode.
    pub file_name: Option<String>,
    /// The commit id of HEAD, in hexadecimal.
    pub head: Option<String>,
    pub branch: Option<String>,
    pub locked: bool,
    pub prunable: bool,
    pub inspection_error: Option<String>,
}

/// Hooks called while repositories are discovered.
pub trait DiscoveryProgress {
    fn directory_discovered(&self, path: &str) {
    }

    fn directory_scanned(&self, path: &str) {
    }
}

/// The path that a path stands for: its canonical form when it could be
/// had, the path itself otherwise.
pub open spec fn spec_best_effort(path: Seq<char>, canonical: Option<Seq<char>>) -> Seq<char> {
    match canonical {
        Some(c) => c,
        None => path,
    }
}

/// The canonical form of `path` (`canonical`, when canonicalizing it
/// succeeded), or `path` itself.
pub fn canonicalize_best_effort(path: &str, canonical: Option<String>) -> (r: String)
    ensures
        r@ == spec_best_effort(path@, opt_view(canonical)),
{
    match canonical {
        Some(c) => c,
        None => String::from_str(path),
    }
}

/// Whether two paths stand for the same path, given the outcomes of
/// canonicalizing each.
pub fn same_path(
    left: &str,
    left_canonical: Option<String>,
    right: &str,
    right_canonical: Option<String>,
) -> (r: bool)
    ensures
        r == (spec_best_effort(left@, opt_view(left_canonical)) == spec_best_effort(
            right@,
            opt_view(right_canonical),
        )),
{
    let l = canonicalize_best_effort(left, left_canonical);
    let rr = canonicalize_best_effort(right, right_canonical);
    str_eq(l.as_str(), rr.as_str())
}

/// The worktree that a path lies in: `None` when the path is in no
/// repository (or a bare one), otherwise the root of its working tree, in
/// canonical form when that could be had (`canonical`, read only for a
/// found root).
pub fn current_worktree(root: Result<Option<String>, String>, canonical: Option<String>) -> (r:
    Result<Option<String>, String>)
    requires
        canonical is Some ==> root matches Ok(Some(_)),
    ensures
        match root {
            Err(e) => r matches Err(m) && m@ == e@,
            Ok(None) => r matches Ok(None),
            Ok(Some(p)) => r matches Ok(Some(c)) && c@ == spec_best_effort(
                p@,
                opt_view(canonical),
            ),
        },
{
    match root {
        Err(e) => Err(e),
        Ok(None) => Ok(None),
        Ok(Some(path)) => Ok(Some(canonicalize_best_effort(path.as_str(), canonical))),
    }
}

/// Whether discovery skips a directory entry named `name` (`None` when the
/// name is not Unicode): `.git` always, hidden directories unless asked for.
pub open spec fn spec_discovery_excluded(name: Option<Seq<char>>, include_hidden: bool) -> bool {
    match name {
        Some(n) => n == ".git"@ || (!include_hidden && n.len() > 0 && n[0] == '.' && n != "."@),
        None => false,
    }
}

/// Whether discovery skips a directory entry named `name`.
pub fn is_discovery_excluded(name: Option<&str>, include_hidden: bool) -> (r: bool)
    ensures
        r == spec_discovery_excluded(
            match name {
                Some(n) => Some(n@),
                None => None,
            },
            include_hidden,
        ),
{
    match name {
        None => false,
        Some(n) => {
            if str_eq(n, ".git") {
                return true;
            }
            !include_hidden && n.unicode_len() > 0 && n.get_char(0) == '.' && !str_eq(n, ".")
        },
    }
}

/// Discovery never descends into `.git`; it skips a hidden directory (a name
/// starting with `.`, other than `.` itself) exactly when hidden directories
/// are not asked for; it descends into every other directory, and into one
/// whose name is not Unicode.
pub proof fn lemma_discovery_skips_git_and_hidden(name: Seq<char>, include_hidden: bool)
    ensures
        spec_discovery_excluded(Some(".git"@), include_hidden),
        name.len() > 0 && name[0] != '.' ==> !spec_discovery_excluded(Some(name), include_hidden),
        name.len() > 0 && name[0] == '.' && name != "."@ && name != ".git"@
            ==> (spec_discovery_excluded(Some(name), include_hidden) <==> !include_hidden),
        !spec_discovery_excluded(Some("."@), include_hidden),
        !spec_discovery_excluded(None, include_hidden),
{
    reveal_strlit(".git");
    reveal_strlit(".");
    assert(".git"@[0] == '.' && ".git"@.len() == 4 && "."@.len() == 1);
    if name.len() > 0 && name[0] != '.' {
        assert(name != ".git"@);
    }
}

/// The directories that the age scan does not look into.
pub open spec fn scan_excluded_names() -> Seq<Seq<char>> {
    seq![
        ".git"@,
        "target"@,
        "node_modules"@,
        ".venv"@,
        "venv"@,
        "dist"@,
        "build"@,
        ".cache"@,
    ]
}

/// Whether the age scan skips an entry named `name`.
pub fn is_scan_excluded(name: &str) -> (r: bool)
    ensures
        r == scan_excluded_names().contains(name@),
{
    let r = str_eq(name, ".git") || str_eq(name, "target") || str_eq(name, "node_modules")
        || str_eq(name, ".venv") || str_eq(name, "venv") || str_eq(name, "dist") || str_eq(
        name,
        "build",
    ) || str_eq(name, ".cache");
    proof {
        let names = scan_excluded_names();
        if r {
            if name@ == ".git"@ {
                assert(names[0] == name@);
            } else if name@ == "target"@ {
                assert(names[1] == name@);
            } else if name@ == "node_modules"@ {
                assert(names[2] == name@);
            } else if name@ == ".venv"@ {
                assert(names[3] == name@);
            } else if name@ == "venv"@ {
                assert(names[4] == name@);
            } else if name@ == "dist"@ {
                assert(names[5] == name@);
            } else if name@ == "build"@ {
                assert(names[6] == name@);
            } else {
                assert(names[7] == name@);
            }
        }
    }
    r
}

/// The largest magnitude of a time, in nanoseconds from the epoch, that the
/// age check takes (far beyond what a file system records).
pub open spec fn time_limit() -> int {
    0x10000000000000000000000000
}

/// Whether a file modified at `modified` is newer than `age_seconds` at
/// `now` (times in nanoseconds from the epoch): it was modified after `now`,
/// or less than `age_seconds` before it.
pub open spec fn spec_newer_than_age(modified: i128, now: i128, age_seconds: u64) -> bool {
    modified > now || now - modified < age_seconds * 1_000_000_000
}

/// A file is newer than the age exactly when it was modified less than
/// `age_seconds` seconds before `now`, or after `now`: its modification time
/// plus the age lies after `now`.
pub proof fn lemma_newer_than_age(modified: i128, now: i128, age_seconds: u64)
    ensures
        spec_newer_than_age(modified, now, age_seconds) <==> modified + age_seconds * 1_000_000_000
            > now || modified > now,
        age_seconds > 0 ==> (spec_newer_than_age(modified, now, age_seconds) <==> modified
            + age_seconds * 1_000_000_000 > now),
        modified <= now - age_seconds * 1_000_000_000 ==> !spec_newer_than_age(
            modified,
            now,
            age_seconds,
        ),
{
}

/// The age scan skips exactly the directories `.git`, `target`,
/// `node_modules`, `.venv`, `venv`, `dist`, `build` and `.cache`.
pub proof fn lemma_scan_skips_build_directories(name: Seq<char>)
    ensures
        scan_excluded_names().contains(name) <==> (name == ".git"@ || name == "target"@ || name
            == "node_modules"@ || name == ".venv"@ || name == "venv"@ || name == "dist"@ || name
            == "build"@ || name == ".cache"@),
{
    let names = scan_excluded_names();
    if scan_excluded_names().contains(name) {
        let i = choose|i: int| 0 <= i < names.len() && names[i] == name;
        assert(0 <= i < 8);
    }
    if name == ".git"@ { assert(names[0] == name); }
    if name == "target"@ { assert(names[1] == name); }
    if name == "node_modules"@ { assert(names[2] == name); }
    if name == ".venv"@ { assert(names[3] == name); }
    if name == "venv"@ { assert(names[4] == name); }
    if name == "dist"@ { assert(names[5] == name); }
    if name == "build"@ { assert(names[6] == name); }
    if name == ".cache"@ { assert(names[7] == name); }
}

/// Whether a modification time is newer than the age limit.
pub fn mtime_is_newer_than_age(modified: i128, now: i128, age_seconds: u64) -> (r: bool)
    requires
        -time_limit() <= modified <= time_limit(),
        -time_limit() <= now <= time_limit(),
    ensures
        r == spec_newer_than_age(modified, now, age_seconds),
{
    if modified > now {
        true
    } else {
        let elapsed: i128 = now - modified;
        let age: i128 = (age_seconds as i128) * 1_000_000_000;
        elapsed < age
    }
}

fn concat2(a: &str, b: &str) -> (r: String)
    ensures
        r@ == a@ + b@,
{
    let mut r = String::from_str(a);
    r.append(b);
    r
}

fn concat3(a: &str, b: &str, c: &str) -> (r: String)
    ensures
        r@ == a@ + b@ + c@,
{
    let mut r = String::from_str(a);
    r.append(b);
    r.append(c);
    r
}

fn concat4(a: &str, b: &str, c: &str, d: &str) -> (r: String)
    ensures
        r@ == a@ + b@ + c@ + d@,
{
    let mut r = concat3(a, b, c);
    r.append(d);
    r
}

/// What discovery makes of one input path.
#[derive(Debug)]
pub struct InputOutcome {
    /// The root of the repository that the path lies in.
    pub candidate: Option<String>,
    /// Why the path cannot be inspected.
    pub error: Option<DiscoveryError>,
    /// Whether the directories below the path are searched.
    pub scan: bool,
}

/// What discovery makes of an input path, from the outcome of
/// canonicalizing it and, when that succeeded, of looking for the
/// repository it lies in; `is_dir` says whether the canonical path is a
/// directory.
pub fn input_outcome(
    input: &str,
    canonical: Result<String, String>,
    root: Option<Result<Option<String>, String>>,
    recursive: bool,
    is_dir: bool,
) -> (r: InputOutcome)
    requires
        root is Some <==> canonical is Ok,
    ensures
        match canonical {
            Err(e) => {
                &&& r.candidate is None
                &&& !r.scan
                &&& r.error matches Some(d)
                &&& d.path@ == input@
                &&& d.message@ == "failed to resolve path "@ + input@ + ": "@ + e@
            },
            Ok(c) => {
                &&& r.scan == (recursive && is_dir)
                &&& match root {
                    Some(Ok(Some(p))) => r.candidate matches Some(x) && x@ == p@ && r.error is None,
                    Some(Ok(None)) => r.candidate is None && if recursive && is_dir {
                        r.error is None
                    } else {
                        r.error matches Some(d) && d.path@ == c@ && d.message@
                            == "path is not inside a Git repository: "@ + c@
                    },
                    Some(Err(e)) => {
                        &&& r.candidate is None
                        &&& r.error matches Some(d)
                        &&& d.path@ == c@
                        &&& d.message@ == e@
                    },
                    None => false,
                }
            },
        },
{
    match canonical {
        Err(e) => InputOutcome {
            candidate: None,
            error: Some(
                DiscoveryError {
                    path: String::from_str(input),
                    message: concat4("failed to resolve path ", input, ": ", e.as_str()),
                },
            ),
            scan: false,
        },
        Ok(c) => {
            let scan = recursive && is_dir;
            match root {
                Some(Ok(Some(p))) => InputOutcome { candidate: Some(p), error: None, scan },
                Some(Ok(None)) => {
                    if scan {
                        InputOutcome { candidate: None, error: None, scan }
                    } else {
                        let message = concat2("path is not inside a Git repository: ", c.as_str());
                        InputOutcome {
                            candidate: None,
                            error: Some(DiscoveryError { path: c, message }),
                            scan,
                        }
                    }
                },
                Some(Err(e)) => InputOutcome {
                    candidate: None,
                    error: Some(DiscoveryError { path: c, message: e }),
                    scan,
                },
                None => InputOutcome { candidate: None, error: None, scan },
            }
        },
    }
}

/// The error of a directory that could not be listed.
pub fn unreadable_directory(dir: &str, error: &str) -> (r: DiscoveryError)
    ensures
        r.path@ == dir@,
        r.message@ == "failed to read directory "@ + dir@ + ": "@ + error@,
{
    DiscoveryError {
        path: String::from_str(dir),
        message: concat4("failed to read directory ", dir, ": ", error),
    }
}

/// What a directory listing reports of one entry.
#[derive(Debug)]
pub enum EntryProbe {
    /// The entry could not be read.
    Unreadable(String),
    /// The entry's file type could not be read.
    UnknownType { path: String, error: String },
    /// The entry, its name when Unicode, and its file type.
    Known { path: String, name: Option<String>, is_dir: bool, is_symlink: bool },
}

/// What discovery does with one entry of a directory it searches.
#[derive(Debug)]
pub enum EntryStep {
    Report(DiscoveryError),
    Skip,
    Descend(String),
}

/// What discovery does with an entry of the directory `dir`: reports what
/// could not be read, skips what is not a directory (or is a symbolic link)
/// or is excluded, and descends into the rest.
pub fn scan_entry(dir: &str, entry: EntryProbe, include_hidden: bool) -> (r: EntryStep)
    ensures
        entry is Unreadable ==> {
            &&& r is Report
            &&& r->Report_0.path@ == dir@
            &&& r->Report_0.message@ == "failed to read directory entry under "@ + dir@ + ": "@
                + entry->Unreadable_0@
        },
        entry is UnknownType ==> {
            &&& r is Report
            &&& r->Report_0.path@ == entry->UnknownType_path@
            &&& r->Report_0.message@ == "failed to inspect file type: "@ + entry->error@
        },
        entry is Known ==> if !entry->is_dir || entry->is_symlink || spec_discovery_excluded(
            opt_view(entry->name),
            include_hidden,
        ) {
            r is Skip
        } else {
            r is Descend && r->Descend_0@ == entry->Known_path@
        },
{
    match &entry {
        EntryProbe::Unreadable(e) => EntryStep::Report(
            DiscoveryError {
                path: String::from_str(dir),
                message: concat4("failed to read directory entry under ", dir, ": ", e.as_str()),
            },
        ),
        EntryProbe::UnknownType { path, error } => EntryStep::Report(
            DiscoveryError {
                path: path.clone(),
                message: concat2("failed to inspect file type: ", error.as_str()),
            },
        ),
        EntryProbe::Known { path, name, is_dir, is_symlink } => {
            if !*is_dir || *is_symlink {
                return EntryStep::Skip;
            }
            let excluded = match name {
                Some(n) => is_discovery_excluded(Some(n.as_str()), include_hidden),
                None => is_discovery_excluded(None, include_hidden),
            };
            if excluded {
                EntryStep::Skip
            } else {
                EntryStep::Descend(path.clone())
            }
        },
    }
}

/// A candidate repository root and the outcome of opening it: its common
/// Git directory (in canonical form, as far as it can be had) and the
/// canonical form of the root, or why it could not be opened.
#[derive(Debug)]
pub struct OpenedCandidate {
    pub path: String,
    pub opened: Result<(String, String), String>,
}

/// The repositories that distinct candidates stand for, their common
/// directories, and the errors of the candidates that could not be opened:
/// a candidate whose common directory was already seen adds nothing.
pub open spec fn spec_distinct_repositories(cands: Seq<OpenedCandidate>) -> (
    Seq<Seq<char>>,
    Seq<Seq<char>>,
    Seq<(Seq<char>, Seq<char>)>,
)
    decreases cands.len(),
{
    if cands.len() == 0 {
        (Seq::empty(), Seq::empty(), Seq::empty())
    } else {
        let (repos, dirs, errors) = spec_distinct_repositories(cands.drop_last());
        let last = cands.last();
        match last.opened {
            Err(m) => (repos, dirs, errors.push((last.path@, m@))),
            Ok((dir, root)) => if dirs.contains(dir@) {
                (repos, dirs, errors)
            } else {
                (repos.push(root@), dirs.push(dir@), errors)
            },
        }
    }
}

/// The views of repositories.
pub open spec fn repos_view(v: Seq<RepoInfo>) -> Seq<Seq<char>> {
    v.map_values(|r: RepoInfo| r.path@)
}

/// The views of discovery errors.
pub open spec fn errors_view(v: Seq<DiscoveryError>) -> Seq<(Seq<char>, Seq<char>)> {
    v.map_values(|e: DiscoveryError| (e.path@, e.message@))
}

fn contains_string(v: &Vec<String>, s: &str) -> (r: bool)
    ensures
        r == v@.map_values(|x: String| x@).contains(s@),
{
    let ghost view = v@.map_values(|x: String| x@);
    let mut i: usize = 0;
    while i < v.len()
        invariant
            i <= v.len(),
            view == v@.map_values(|x: String| x@),
            forall|j: int| 0 <= j < i ==> view[j] != s@,
        decreases v.len() - i,
    {
        if str_eq(v[i].as_str(), s) {
            assert(view[i as int] == s@);
            return true;
        }
        i = i + 1;
    }
    false
}

/// The repositories that the candidates stand for, each once (the first
/// candidate of each common directory), after the discovery errors already
/// met, to which the candidates that could not be opened are added.
pub fn distinct_repositories(candidates: Vec<OpenedCandidate>, errors: Vec<DiscoveryError>) -> (r:
    DiscoveryResult)
    ensures
        repos_view(r.repos@) == spec_distinct_repositories(candidates@).0,
        errors_view(r.errors@) == errors_view(errors@) + spec_distinct_repositories(
            candidates@,
        ).2,
{
    let mut repos: Vec<RepoInfo> = Vec::new();
    let mut dirs: Vec<String> = Vec::new();
    let mut errors = errors;
    let ghost first_errors = errors_view(errors@);
    let mut i: usize = 0;
    while i < candidates.len()
        invariant
            i <= candidates.len(),
            ({
                let (rs, ds, es) = spec_distinct_repositories(candidates@.take(i as int));
                &&& repos_view(repos@) == rs
                &&& dirs@.map_values(|x: String| x@) == ds
                &&& errors_view(errors@) == first_errors + es
            }),
        decreases candidates.len() - i,
    {
        let candidate = &candidates[i];
        assert(candidates@.take(i + 1).drop_last() =~= candidates@.take(i as int));
        assert(candidates@.take(i + 1).last() == *candidate);
        let ghost prev_errors = errors@;
        let ghost prev_repos = repos@;
        let ghost prev_dirs = dirs@;
        match &candidate.opened {
            Err(message) => {
                errors.push(
                    DiscoveryError { path: candidate.path.clone(), message: message.clone() },
                );
                assert(errors_view(errors@) =~= errors_view(prev_errors).push(
                    (candidate.path@, message@),
                ));
            },
            Ok((dir, root)) => {
                if !contains_string(&dirs, dir.as_str()) {
                    repos.push(RepoInfo { path: root.clone() });
                    dirs.push(dir.clone());
                    assert(repos_view(repos@) =~= repos_view(prev_repos).push(root@));
                    assert(dirs@.map_values(|x: String| x@) =~= prev_dirs.map_values(
                        |x: String| x@,
                    ).push(dir@));
                }
            },
        }
        i = i + 1;
    }
    assert(candidates@.take(candidates.len() as int) =~= candidates@);
    DiscoveryResult { repos, errors }
}

/// The common directories of the distinct repositories are distinct, one
/// per repository, and every candidate that could be opened shares its
/// common directory with one of them.
pub proof fn lemma_repositories_are_distinct(cands: Seq<OpenedCandidate>)
    ensures
        ({
            let (repos, dirs, errors) = spec_distinct_repositories(cands);
            &&& repos.len() == dirs.len()
            &&& dirs.no_duplicates()
            &&& forall|i: int|
                0 <= i < cands.len() && (#[trigger] cands[i]).opened is Ok ==> dirs.contains(
                    cands[i].opened->Ok_0.0@,
                )
        }),
    decreases cands.len(),
{
    if cands.len() > 0 {
        let rest = cands.drop_last();
        lemma_repositories_are_distinct(rest);
        let (repos, dirs, errors) = spec_distinct_repositories(rest);
        let last = cands.last();
        assert forall|i: int|
            0 <= i < cands.len() && (#[trigger] cands[i]).opened is Ok implies spec_distinct_repositories(
            cands,
        ).1.contains(cands[i].opened->Ok_0.0@) by {
            let d = spec_distinct_repositories(cands).1;
            if i < cands.len() - 1 {
                assert(cands[i] == rest[i]);
                let k = choose|k: int| 0 <= k < dirs.len() && dirs[k] == rest[i].opened->Ok_0.0@;
                assert(d[k] == dirs[k]);
            } else {
                if !dirs.contains(last.opened->Ok_0.0@) {
                    assert(d[dirs.len() as int] == last.opened->Ok_0.0@);
                }
            }
        }
    }
}

/// The ref of a local branch.
pub open spec fn spec_local_branch_ref(branch: Seq<char>) -> Seq<char> {
    "refs/heads/"@ + branch
}

/// The ref of the local branch `branch`.
pub fn local_branch_ref(branch: &str) -> (r: String)
    ensures
        r@ == spec_local_branch_ref(branch@),
{
    concat2("refs/heads/", branch)
}

/// The local branch ref that a reference name is, if it is one.
pub open spec fn spec_protected_ref(name: Option<Seq<char>>) -> Option<Seq<char>> {
    match name {
        Some(n) => if n.len() >= 11 && n.take(11) == "refs/heads/"@ {
            Some(n)
        } else {
            None
        },
        None => None,
    }
}

fn starts_with_heads(n: &str) -> (r: bool)
    ensures
        r == (n@.len() >= 11 && n@.take(11) == "refs/heads/"@),
{
    proof {
        reveal_strlit("refs/heads/");
    }
    let prefix = "refs/heads/";
    let len = n.unicode_len();
    if len < 11 {
        return false;
    }
    let mut i: usize = 0;
    while i < 11
        invariant
            i <= 11,
            len == n@.len(),
            len >= 11,
            prefix@ == "refs/heads/"@,
            prefix@.len() == 11,
            forall|j: int| 0 <= j < i ==> n@[j] == prefix@[j],
        decreases 11 - i,
    {
        if n.get_char(i) != prefix.get_char(i) {
            return false;
        }
        i = i + 1;
    }
    assert(n@.take(11) =~= prefix@);
    true
}

/// A commit that a ref resolves to, and the name of the reference it was
/// reached through, when there is one and it is Unicode.
#[derive(Debug)]
pub struct CommitTarget {
    pub oid: String,
    pub reference_name: Option<String>,
}

/// The display name and ref of the default merge bases, in the order they
/// are tried: `origin/HEAD`, then the local `main`, then `master`.
pub open spec fn spec_default_base(i: int) -> (Seq<char>, Seq<char>) {
    if i == 0 {
        ("origin/HEAD"@, "refs/remotes/origin/HEAD"@)
    } else if i == 1 {
        ("main"@, "refs/heads/main"@)
    } else {
        ("master"@, "refs/heads/master"@)
    }
}

/// The number of default merge bases.
pub const DEFAULT_BASE_COUNT: usize = 3;

/// The display name and ref of the `i`-th default merge base.
pub fn default_base(i: usize) -> (r: (&'static str, &'static str))
    requires
        i < DEFAULT_BASE_COUNT,
    ensures
        (r.0@, r.1@) == spec_default_base(i as int),
{
    if i == 0 {
        ("origin/HEAD", "refs/remotes/origin/HEAD")
    } else if i == 1 {
        ("main", "refs/heads/main")
    } else {
        ("master", "refs/heads/master")
    }
}

/// A lookup that found nothing.
pub open spec fn is_empty_lookup(l: Result<Option<String>, String>) -> bool {
    l matches Ok(None)
}

/// The lookups of the default merge bases made so far are those the search
/// makes: one after the other, each after one that found nothing, stopping
/// at the first that finds a commit or fails.
pub open spec fn default_lookups_fit(lookups: Seq<Result<Option<String>, String>>) -> bool {
    &&& 1 <= lookups.len() <= DEFAULT_BASE_COUNT
    &&& forall|i: int| 0 <= i < lookups.len() - 1 ==> is_empty_lookup(#[trigger] lookups[i])
    &&& lookups.len() < DEFAULT_BASE_COUNT ==> !is_empty_lookup(lookups.last())
}

/// Whether the search for a default merge base looks up another ref.
pub fn wants_next_default_lookup(lookups: &Vec<Result<Option<String>, String>>) -> (r: bool)
    ensures
        r == (lookups@.len() < DEFAULT_BASE_COUNT && forall|i: int|
            0 <= i < lookups@.len() ==> is_empty_lookup(#[trigger] lookups@[i])),
{
    if lookups.len() >= DEFAULT_BASE_COUNT {
        return false;
    }
    let mut i: usize = 0;
    while i < lookups.len()
        invariant
            i <= lookups.len(),
            forall|j: int| 0 <= j < i ==> is_empty_lookup(#[trigger] lookups@[j]),
        decreases lookups.len() - i,
    {
        match &lookups[i] {
            Ok(None) => {},
            _ => return false,
        }
        i = i + 1;
    }
    true
}

/// The merge base: the explicit ref when one is given (an error when it
/// resolves to nothing), otherwise the first default base that exists.
pub open spec fn spec_resolve_merge_base(
    explicit: Option<Seq<char>>,
    target: Option<Result<Option<CommitTarget>, String>>,
    lookups: Seq<Result<Option<String>, String>>,
) -> Result<Option<(Seq<char>, Seq<char>, Option<Seq<char>>)>, Seq<char>> {
    match explicit {
        Some(x) => match target {
            Some(Ok(Some(t))) => Ok(
                Some((x, t.oid@, spec_protected_ref(opt_view(t.reference_name)))),
            ),
            Some(Ok(None)) => Err("merge target `"@ + x + "` was not found"@),
            Some(Err(e)) => Err(e@),
            None => Ok(None),
        },
        None => match lookups.last() {
            Ok(Some(oid)) => {
                let (display, reference) = spec_default_base(lookups.len() - 1);
                Ok(
                    Some(
                        (
                            display,
                            oid@,
                            if lookups.len() == 1 {
                                None
                            } else {
                                Some(reference)
                            },
                        ),
                    ),
                )
            },
            Ok(None) => Ok(None),
            Err(e) => Err(e@),
        },
    }
}

/// The view of a merge base.
pub open spec fn merge_base_view(b: MergeBase) -> (Seq<char>, Seq<char>, Option<Seq<char>>) {
    (b.display@, b.oid@, opt_view(b.protected_branch_ref))
}

/// Resolves the merge base from the outcome of resolving the explicit ref
/// (`target`, when one is given) or of looking up the default bases in
/// order (`lookups`, otherwise). A base reached through a local branch
/// protects that branch from deletion.
pub fn resolve_merge_base(
    explicit: Option<&str>,
    target: Option<Result<Option<CommitTarget>, String>>,
    lookups: Vec<Result<Option<String>, String>>,
) -> (r: Result<Option<MergeBase>, String>)
    requires
        explicit is Some ==> target is Some && lookups@.len() == 0,
        explicit is None ==> target is None && default_lookups_fit(lookups@),
    ensures
        match r {
            Ok(Some(b)) => spec_resolve_merge_base(
                match explicit {
                    Some(x) => Some(x@),
                    None => None,
                },
                target,
                lookups@,
            ) == Ok::<_, Seq<char>>(Some(merge_base_view(b))),
            Ok(None) => spec_resolve_merge_base(
                match explicit {
                    Some(x) => Some(x@),
                    None => None,
                },
                target,
                lookups@,
            ) == Ok::<Option<(Seq<char>, Seq<char>, Option<Seq<char>>)>, Seq<char>>(None),
            Err(e) => spec_resolve_merge_base(
                match explicit {
                    Some(x) => Some(x@),
                    None => None,
                },
                target,
                lookups@,
            ) == Err::<Option<(Seq<char>, Seq<char>, Option<Seq<char>>)>, Seq<char>>(e@),
        },
{
    match explicit {
        Some(x) => match target {
            Some(Ok(Some(t))) => {
                let protected = match &t.reference_name {
                    Some(n) => if starts_with_heads(n.as_str()) {
                        Some(n.clone())
                    } else {
                        None
                    },
                    None => None,
                };
                Ok(
                    Some(
                        MergeBase {
                            display: String::from_str(x),
                            oid: t.oid,
                            protected_branch_ref: protected,
                        },
                    ),
                )
            },
            Some(Ok(None)) => Err(concat3("merge target `", x, "` was not found")),
            Some(Err(e)) => Err(e),
            None => Ok(None),
        },
        None => {
            let n = lookups.len();
            let mut lookups = lookups;
            let last = lookups.pop();
            match last {
                Some(Ok(Some(oid))) => {
                    let (display, reference) = default_base(n - 1);
                    Ok(
                        Some(
                            MergeBase {
                                display: String::from_str(display),
                                oid,
                                protected_branch_ref: if n == 1 {
                                    None
                                } else {
                                    Some(String::from_str(reference))
                                },
                            },
                        ),
                    )
                },
                Some(Ok(None)) => Ok(None),
                Some(Err(e)) => Err(e),
                None => Ok(None),
            }
        },
    }
}

/// How the merge base is resolved:
/// - an explicit ref that resolves to a commit gives that commit, shown as
///   the ref was given, and protects the local branch it was reached
///   through (a reference named `refs/heads/...`), no branch otherwise; a
///   ref that names nothing is an error that says so;
/// - otherwise `origin/HEAD`, `main` and `master` are looked up in turn: the
///   first that finds a commit gives the base (`origin/HEAD` protecting no
///   branch, `main` protecting `refs/heads/main`, `master` protecting
///   `refs/heads/master`), a failed lookup is an error, and no base is had
///   when none of them exists.
pub proof fn lemma_merge_base_resolution(
    explicit: Option<Seq<char>>,
    target: Option<Result<Option<CommitTarget>, String>>,
    lookups: Seq<Result<Option<String>, String>>,
)
    requires
        explicit is Some ==> target is Some && lookups.len() == 0,
        explicit is None ==> target is None && default_lookups_fit(lookups),
    ensures
        explicit is Some && target is Some && target->0 is Ok && target->0->Ok_0 is Some ==> ({
            let t = target->0->Ok_0->0;
            let name = opt_view(t.reference_name);
            spec_resolve_merge_base(explicit, target, lookups) == Ok::<_, Seq<char>>(
                Some(
                    (
                        explicit->0,
                        t.oid@,
                        if name is Some && name->0.len() >= 11 && name->0.take(11)
                            == "refs/heads/"@ {
                            name
                        } else {
                            None
                        },
                    ),
                ),
            )
        }),
        explicit is Some && target == Some(Ok::<Option<CommitTarget>, String>(None))
            ==> spec_resolve_merge_base(explicit, target, lookups) == Err::<
            Option<(Seq<char>, Seq<char>, Option<Seq<char>>)>,
            Seq<char>,
        >("merge target `"@ + explicit->0 + "` was not found"@),
        explicit is None && lookups.last() is Ok && lookups.last()->Ok_0 is Some ==> {
            let oid = lookups.last()->Ok_0->0@;
            &&& lookups.len() == 1 ==> spec_resolve_merge_base(explicit, target, lookups) == Ok::<
                _,
                Seq<char>,
            >(Some(("origin/HEAD"@, oid, None::<Seq<char>>)))
            &&& lookups.len() == 2 ==> spec_resolve_merge_base(explicit, target, lookups) == Ok::<
                _,
                Seq<char>,
            >(Some(("main"@, oid, Some("refs/heads/main"@))))
            &&& lookups.len() == 3 ==> spec_resolve_merge_base(explicit, target, lookups) == Ok::<
                _,
                Seq<char>,
            >(Some(("master"@, oid, Some("refs/heads/master"@))))
        },
        explicit is None && lookups.last() is Err ==> spec_resolve_merge_base(
            explicit,
            target,
            lookups,
        ) == Err::<Option<(Seq<char>, Seq<char>, Option<Seq<char>>)>, Seq<char>>(
            lookups.last()->Err_0@,
        ),
        explicit is None && lookups.last() == Ok::<Option<String>, String>(None)
            ==> lookups.len() == 3 && spec_resolve_merge_base(explicit, target, lookups) == Ok::<
            Option<(Seq<char>, Seq<char>, Option<Seq<char>>)>,
            Seq<char>,
        >(None),
{
}

/// What a lookup of a reference found.
#[derive(Debug)]
pub enum RefLookup {
    Found,
    Missing,
    Failed(String),
}

/// Whether a branch's upstream is gone, from the lookup of its upstream's
/// name and, when it has one, of the upstream reference.
pub open spec fn spec_gone_upstream(upstream: RefLookup, reference: Option<RefLookup>) -> Result<
    bool,
    Seq<char>,
> {
    match upstream {
        RefLookup::Missing => Ok(false),
        RefLookup::Failed(e) => Err(e@),
        RefLookup::Found => match reference {
            Some(RefLookup::Found) => Ok(false),
            Some(RefLookup::Missing) => Ok(true),
            Some(RefLookup::Failed(e)) => Err(e@),
            None => Ok(false),
        },
    }
}

/// A branch tracks a gone upstream exactly when it has an upstream and the
/// upstream reference no longer exists; a branch without upstream, or whose
/// upstream exists, is not gone; a failed lookup is an error with its
/// message.
pub proof fn lemma_gone_means_upstream_missing(upstream: RefLookup, reference: Option<RefLookup>)
    requires
        reference is Some <==> upstream is Found,
    ensures
        spec_gone_upstream(upstream, reference) == Ok::<bool, Seq<char>>(true) <==> (upstream
            is Found && reference matches Some(RefLookup::Missing)),
        spec_gone_upstream(upstream, reference) is Err <==> (upstream is Failed || reference
            matches Some(RefLookup::Failed(_))),
        upstream is Failed ==> spec_gone_upstream(upstream, reference) == Err::<bool, Seq<char>>(
            upstream->Failed_0@,
        ),
        reference matches Some(RefLookup::Failed(e)) ==> spec_gone_upstream(upstream, reference)
            == Err::<bool, Seq<char>>(e@),
{
}

/// Whether `head` is merged into `base`: it is the base, or the base
/// descends from it.
pub open spec fn spec_is_ancestor(
    head: Seq<char>,
    base: Seq<char>,
    descendant: Option<Result<bool, String>>,
) -> Result<bool, Seq<char>> {
    if head == base {
        Ok(true)
    } else {
        match descendant {
            Some(Ok(d)) => Ok(d),
            Some(Err(e)) => Err(e@),
            None => Ok(true),
        }
    }
}

/// A commit is merged into a base exactly when it is the base or the base
/// descends from it; a failed ancestry read is an error with its message.
pub proof fn lemma_merged_means_ancestor(
    head: Seq<char>,
    base: Seq<char>,
    descendant: Option<Result<bool, String>>,
)
    requires
        descendant is Some <==> head != base,
    ensures
        spec_is_ancestor(head, base, descendant) == Ok::<bool, Seq<char>>(true) <==> (head == base
            || descendant == Some(Ok::<bool, String>(true))),
        spec_is_ancestor(head, base, descendant) == Ok::<bool, Seq<char>>(false) <==> descendant
            == Some(Ok::<bool, String>(false)),
        descendant matches Some(Err(e)) ==> spec_is_ancestor(head, base, descendant) == Err::<
            bool,
            Seq<char>,
        >(e@),
{
}

/// Whether a branch tracks an upstream that no longer exists: the lookup
/// of its upstream's name (`upstream`), then, when there is one, of the
/// upstream reference itself (`reference`). A branch without upstream is
/// not gone.
pub fn branch_tracks_gone_upstream(upstream: RefLookup, reference: Option<RefLookup>) -> (r: Result<
    bool,
    String,
>)
    requires
        reference is Some <==> upstream is Found,
    ensures
        match r {
            Ok(b) => spec_gone_upstream(upstream, reference) == Ok::<bool, Seq<char>>(b),
            Err(m) => spec_gone_upstream(upstream, reference) == Err::<bool, Seq<char>>(m@),
        },
{
    match upstream {
        RefLookup::Missing => Ok(false),
        RefLookup::Failed(e) => Err(e),
        RefLookup::Found => match reference {
            Some(RefLookup::Found) => Ok(false),
            Some(RefLookup::Missing) => Ok(true),
            Some(RefLookup::Failed(e)) => Err(e),
            None => Ok(false),
        },
    }
}

/// Whether `head` is merged into `base` (commit ids in hexadecimal): it is
/// the base, or the base descends from it (`descendant`, asked of Git only
/// when they differ).
pub fn is_ancestor(head: &str, base: &str, descendant: Option<Result<bool, String>>) -> (r: Result<
    bool,
    String,
>)
    requires
        descendant is Some <==> head@ != base@,
    ensures
        match r {
            Ok(b) => spec_is_ancestor(head@, base@, descendant) == Ok::<bool, Seq<char>>(b),
            Err(m) => spec_is_ancestor(head@, base@, descendant) == Err::<bool, Seq<char>>(m@),
        },
{
    if str_eq(head, base) {
        return Ok(true);
    }
    match descendant {
        Some(d) => d,
        None => Ok(true),
    }
}

/// Whether the deletion of `branch` is checked against its tip: it was
/// found and it is not the merge target.
pub open spec fn wants_branch_tip(
    branch: Seq<char>,
    base: MergeBase,
    lookup: Result<(), String>,
) -> bool {
    lookup is Ok && opt_view(base.protected_branch_ref) != Some(spec_local_branch_ref(branch))
}

/// Whether the tip of `branch` is to be read before checking its deletion.
pub fn wants_branch_tip_exec(branch: &str, base: &MergeBase, lookup: &Result<(), String>) -> (r:
    bool)
    ensures
        r == wants_branch_tip(branch@, *base, *lookup),
{
    if lookup.is_err() {
        return false;
    }
    let branch_ref = local_branch_ref(branch);
    match &base.protected_branch_ref {
        Some(p) => !str_eq(p.as_str(), branch_ref.as_str()),
        None => true,
    }
}

/// The outcome of checking that `branch` may be deleted against `base`.
pub open spec fn spec_branch_delete_safety(
    branch: Seq<char>,
    base: MergeBase,
    lookup: Result<(), String>,
    tip: Option<Result<String, String>>,
    descendant: Option<Result<bool, String>>,
) -> Result<(), Seq<char>> {
    match lookup {
        Err(e) => Err(e@),
        Ok(()) => if opt_view(base.protected_branch_ref) == Some(spec_local_branch_ref(branch)) {
            Err("local branch `"@ + branch + "` is the merge target and cannot be deleted"@)
        } else {
            match tip {
                Some(Err(e)) => Err(e@),
                Some(Ok(oid)) => {
                    let merged = if oid@ == base.oid@ {
                        Ok(true)
                    } else {
                        match descendant {
                            Some(Ok(d)) => Ok(d),
                            Some(Err(e)) => Err(e@),
                            None => Ok(true),
                        }
                    };
                    match merged {
                        Err(e) => Err(e),
                        Ok(true) => Ok(()),
                        Ok(false) => Err(
                            "local branch `"@ + branch
                                + "` is not merged into the deletion base"@,
                        ),
                    }
                },
                None => Ok(()),
            }
        },
    }
}

/// Checks that the local branch `branch` may be deleted against the
/// deletion base `base`, from the lookup of the branch, of its tip (made
/// when `wants_branch_tip`), and of whether the base descends from the tip
/// (made when the tip is another commit than the base). The merge target
/// itself is never deleted; any other branch must be merged into the base.
pub fn check_branch_delete_safety(
    branch: &str,
    base: &MergeBase,
    lookup: Result<(), String>,
    tip: Option<Result<String, String>>,
    descendant: Option<Result<bool, String>>,
) -> (r: Result<(), String>)
    requires
        tip is Some <==> wants_branch_tip(branch@, *base, lookup),
        descendant is Some <==> (tip matches Some(Ok(oid)) && oid@ != base.oid@),
    ensures
        match r {
            Ok(()) => spec_branch_delete_safety(branch@, *base, lookup, tip, descendant) == Ok::<
                (),
                Seq<char>,
            >(()),
            Err(e) => spec_branch_delete_safety(branch@, *base, lookup, tip, descendant) == Err::<
                (),
                Seq<char>,
            >(e@),
        },
{
    if let Err(e) = lookup {
        return Err(e);
    }
    let branch_ref = local_branch_ref(branch);
    let is_target = match &base.protected_branch_ref {
        Some(p) => str_eq(p.as_str(), branch_ref.as_str()),
        None => false,
    };
    if is_target {
        return Err(concat3("local branch `", branch, "` is the merge target and cannot be deleted"));
    }
    match tip {
        Some(Err(e)) => Err(e),
        Some(Ok(oid)) => {
            match is_ancestor(oid.as_str(), base.oid.as_str(), descendant) {
                Err(e) => Err(e),
                Ok(true) => Ok(()),
                Ok(false) => Err(
                    concat3("local branch `", branch, "` is not merged into the deletion base"),
                ),
            }
        },
        None => Ok(()),
    }
}

/// A branch that the check lets be deleted is not the merge target and is
/// merged into the deletion base: its tip is the base, or the base
/// descends from it.
pub proof fn lemma_deleted_branches_are_merged(
    branch: Seq<char>,
    base: MergeBase,
    lookup: Result<(), String>,
    tip: Option<Result<String, String>>,
    descendant: Option<Result<bool, String>>,
)
    requires
        tip is Some <==> wants_branch_tip(branch, base, lookup),
        descendant is Some <==> (tip matches Some(Ok(oid)) && oid@ != base.oid@),
        spec_branch_delete_safety(branch, base, lookup, tip, descendant) is Ok,
    ensures
        lookup is Ok,
        opt_view(base.protected_branch_ref) != Some(spec_local_branch_ref(branch)),
        tip matches Some(Ok(oid)) && (oid@ == base.oid@ || descendant == Some(
            Ok::<bool, String>(true),
        )),
{
}

/// A branch may be deleted exactly when it was found, its ref
/// `refs/heads/<branch>` is not the deletion base's protected ref (a base
/// reached otherwise than through a local branch protects none), and its
/// tip is the base commit or the base descends from it. A found branch whose
/// ref is the protected one is refused as the merge target.
pub proof fn lemma_branch_deletion_allowed_exactly_when_merged(
    branch: Seq<char>,
    base: MergeBase,
    lookup: Result<(), String>,
    tip: Option<Result<String, String>>,
    descendant: Option<Result<bool, String>>,
)
    requires
        tip is Some <==> wants_branch_tip(branch, base, lookup),
        descendant is Some <==> (tip matches Some(Ok(oid)) && oid@ != base.oid@),
    ensures
        spec_branch_delete_safety(branch, base, lookup, tip, descendant) is Ok <==> {
            &&& lookup is Ok
            &&& opt_view(base.protected_branch_ref) != Some("refs/heads/"@ + branch)
            &&& tip matches Some(Ok(oid))
            &&& (oid@ == base.oid@ || descendant == Some(Ok::<bool, String>(true)))
        },
        lookup is Ok && opt_view(base.protected_branch_ref) == Some("refs/heads/"@ + branch)
            ==> spec_branch_delete_safety(branch, base, lookup, tip, descendant) == Err::<
            (),
            Seq<char>,
        >("local branch `"@ + branch + "` is the merge target and cannot be deleted"@),
{
}

/// How an attempt to inspect a worktree's repository went.
#[derive(Debug)]
pub enum WorktreeInspection {
    /// The worktree's repository could not be opened.
    OpenFailed(String),
    /// Its HEAD commit and branch, or why they could not be read.
    Inspected(Result<(Option<String>, Option<String>), String>),
}

/// A worktree as Git lists it: inspected (`inspection`) unless its
/// metadata is prunable.
pub fn worktree_info(
    name: String,
    path: String,
    file_name: Option<String>,
    locked: bool,
    prunable: bool,
    inspection: Option<WorktreeInspection>,
) -> (r: WorktreeInfo)
    requires
        inspection is Some <==> !prunable,
    ensures
        r.name == name,
        r.path == path,
        r.file_name == file_name,
        r.locked == locked,
        r.prunable == prunable,
        match inspection {
            None => r.head is None && r.branch is None && r.inspection_error is None,
            Some(WorktreeInspection::OpenFailed(e)) => {
                &&& r.head is None
                &&& r.branch is None
                &&& r.inspection_error matches Some(m)
                &&& m@ == "failed to open repository for worktree `"@ + name@ + "`: "@ + e@
            },
            Some(WorktreeInspection::Inspected(Ok((h, b)))) => r.head == h && r.branch == b
                && r.inspection_error is None,
            Some(WorktreeInspection::Inspected(Err(e))) => {
                &&& r.head is None
                &&& r.branch is None
                &&& r.inspection_error matches Some(m)
                &&& m@ == e@
            },
        },
{
    let (head, branch, inspection_error) = match inspection {
        None => (None, None, None),
        Some(WorktreeInspection::OpenFailed(e)) => (
            None,
            None,
            Some(concat4("failed to open repository for worktree `", name.as_str(), "`: ", e.as_str())),
        ),
        Some(WorktreeInspection::Inspected(Ok((h, b)))) => (h, b, None),
        Some(WorktreeInspection::Inspected(Err(e))) => (None, None, Some(e)),
    };
    WorktreeInfo { name, path, file_name, head, branch, locked, prunable, inspection_error }
}

} // verus!
