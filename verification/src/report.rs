//! The report of a sweep: one item per worktree or failure, a summary that
//! counts them, and its rendering as text.

use vstd::prelude::*;
use crate::text::{
    append_decimal, append_padded, decimal, join, opt_view, pad_right, seq_join, str_eq,
    strings_view,
};

verus! {

pub const ACTION_WOULD_REMOVE: &'static str = "would_remove";

pub const ACTION_REMOVED: &'static str = "removed";

pub const ACTION_SKIP: &'static str = "skip";

pub const ACTION_ERROR: &'static str = "error";

pub const BRANCH_ACTION_WOULD_DELETE: &'static str = "would_delete";

pub const BRANCH_ACTION_DELETED: &'static str = "deleted";

pub const BRANCH_ACTION_ERROR: &'static str = "error";

pub const KIND_WORKTREE: &'static str = "worktree";

pub const KIND_REPOSITORY_ERROR: &'static str = "repository_error";

/// The result of a sweep.
#[derive(Debug)]
pub struct SweepReport {
    pub items: Vec<SweepItem>,
    pub summary: SweepSummary,
}

/// Counts over the items of a report.
#[derive(Debug, Clone, Copy, PartialEq, Eq)]
pub struct SweepSummary {
    pub dry_run: bool,
    pub repositories: usize,
    pub matched: usize,
    pub would_remove: usize,
    pub removed: usize,
    pub skipped: usize,
    pub errors: usize,
    pub branch_deleted: usize,
}

impl Default for SweepSummary {
    fn default() -> (r: SweepSummary)
        ensures
            r == zero_summary(false, 0),
    {
        SweepSummary {
            dry_run: false,
            repositories: 0,
            matched: 0,
            would_remove: 0,
            removed: 0,
            skipped: 0,
            errors: 0,
            branch_deleted: 0,
        }
    }
}

/// A summary that has counted no item yet.
pub open spec fn zero_summary(dry_run: bool, repositories: usize) -> SweepSummary {
    SweepSummary {
        dry_run,
        repositories,
        matched: 0,
        would_remove: 0,
        removed: 0,
        skipped: 0,
        errors: 0,
        branch_deleted: 0,
    }
}

/// One reported worktree, or one failure to inspect a path or repository.
#[derive(Debug)]
pub struct SweepItem {
    pub kind: String,
    pub repo: String,
    pub path: String,
    pub branch: Option<String>,
    pub head: Option<String>,
    pub reasons: Vec<String>,
    pub dirty: bool,
    pub locked: bool,
    pub action: String,
    pub skip_reason: Option<String>,
    pub error: Option<String>,
    pub branch_deleted: bool,
    pub branch_action: Option<String>,
    pub branch_error: Option<String>,
}

/// What a `SweepItem` holds, as text.
pub struct ItemView {
    pub kind: Seq<char>,
    pub repo: Seq<char>,
    pub path: Seq<char>,
    pub branch: Option<Seq<char>>,
    pub head: Option<Seq<char>>,
    pub reasons: Seq<Seq<char>>,
    pub dirty: bool,
    pub locked: bool,
    pub action: Seq<char>,
    pub skip_reason: Option<Seq<char>>,
    pub error: Option<Seq<char>>,
    pub branch_deleted: bool,
    pub branch_action: Option<Seq<char>>,
    pub branch_error: Option<Seq<char>>,
}

impl View for SweepItem {
    type V = ItemView;

    open spec fn view(&self) -> ItemView {
        ItemView {
            kind: self.kind@,
            repo: self.repo@,
            path: self.path@,
            branch: opt_view(self.branch),
            head: opt_view(self.head),
            reasons: strings_view(self.reasons@),
            dirty: self.dirty,
            locked: self.locked,
            action: self.action@,
            skip_reason: opt_view(self.skip_reason),
            error: opt_view(self.error),
            branch_deleted: self.branch_deleted,
            branch_action: opt_view(self.branch_action),
            branch_error: opt_view(self.branch_error),
        }
    }
}

/// The views of a sequence of items.
pub open spec fn items_view(items: Seq<SweepItem>) -> Seq<ItemView> {
    items.map_values(|item: SweepItem| item@)
}

/// Whether an item counts as an error: its action failed, or it carries an
/// error for the worktree or for its branch.
pub open spec fn is_error_item(item: ItemView) -> bool {
    item.action == ACTION_ERROR@ || item.error is Some || item.branch_error is Some
}

/// The counters of `s` after counting `item`.
pub open spec fn count_item(s: SweepSummary, item: ItemView) -> SweepSummary {
    SweepSummary {
        dry_run: s.dry_run,
        repositories: s.repositories,
        matched: if item.kind == KIND_WORKTREE@ { (s.matched + 1) as usize } else { s.matched },
        would_remove: if item.action == ACTION_WOULD_REMOVE@ {
            (s.would_remove + 1) as usize
        } else {
            s.would_remove
        },
        removed: if item.action == ACTION_REMOVED@ { (s.removed + 1) as usize } else { s.removed },
        skipped: if item.action == ACTION_SKIP@ { (s.skipped + 1) as usize } else { s.skipped },
        errors: if is_error_item(item) { (s.errors + 1) as usize } else { s.errors },
        branch_deleted: if item.branch_deleted {
            (s.branch_deleted + 1) as usize
        } else {
            s.branch_deleted
        },
    }
}

/// No counter of `s` is at the largest value a `usize` holds.
pub open spec fn summary_has_room(s: SweepSummary) -> bool {
    &&& s.matched < usize::MAX
    &&& s.would_remove < usize::MAX
    &&& s.removed < usize::MAX
    &&& s.skipped < usize::MAX
    &&& s.errors < usize::MAX
    &&& s.branch_deleted < usize::MAX
}

/// Counts `item` in `summary`.
pub fn update_summary(summary: &mut SweepSummary, item: &SweepItem)
    requires
        summary_has_room(*old(summary)),
    ensures
        *final(summary) == count_item(*old(summary), item@),
{
    if str_eq(item.kind.as_str(), KIND_WORKTREE) {
        summary.matched = summary.matched + 1;
    }
    let action = item.action.as_str();
    proof {
        lemma_report_words();
    }
    if str_eq(action, ACTION_WOULD_REMOVE) {
        summary.would_remove = summary.would_remove + 1;
    } else if str_eq(action, ACTION_REMOVED) {
        summary.removed = summary.removed + 1;
    } else if str_eq(action, ACTION_SKIP) {
        summary.skipped = summary.skipped + 1;
    }
    if str_eq(action, ACTION_ERROR) || item.error.is_some() || item.branch_error.is_some() {
        summary.errors = summary.errors + 1;
    }
    if item.branch_deleted {
        summary.branch_deleted = summary.branch_deleted + 1;
    }
}

/// The words that actions and kinds are written with differ from each other.
pub proof fn lemma_report_words()
    ensures
        ACTION_WOULD_REMOVE@.len() == 12,
        ACTION_REMOVED@.len() == 7,
        ACTION_SKIP@.len() == 4,
        ACTION_ERROR@.len() == 5,
        BRANCH_ACTION_WOULD_DELETE@.len() == 12,
        BRANCH_ACTION_DELETED@.len() == 7,
        BRANCH_ACTION_ERROR@.len() == 5,
        KIND_WORKTREE@.len() == 8,
        KIND_REPOSITORY_ERROR@.len() == 16,
{
    reveal_strlit("would_remove");
    reveal_strlit("removed");
    reveal_strlit("skip");
    reveal_strlit("error");
    reveal_strlit("would_delete");
    reveal_strlit("deleted");
    reveal_strlit("worktree");
    reveal_strlit("repository_error");
    assert(ACTION_WOULD_REMOVE@ == "would_remove"@);
    assert(ACTION_REMOVED@ == "removed"@);
    assert(ACTION_SKIP@ == "skip"@);
    assert(ACTION_ERROR@ == "error"@);
    assert(BRANCH_ACTION_WOULD_DELETE@ == "would_delete"@);
    assert(BRANCH_ACTION_DELETED@ == "deleted"@);
    assert(BRANCH_ACTION_ERROR@ == "error"@);
    assert(KIND_WORKTREE@ == "worktree"@);
    assert(KIND_REPOSITORY_ERROR@ == "repository_error"@);
}

/// Whether the text report lists `item`: always when verbose, otherwise only
/// worktrees whose action did not fail.
pub open spec fn is_listed(item: ItemView, verbose: bool) -> bool {
    verbose || (item.kind == KIND_WORKTREE@ && item.action != ACTION_ERROR@)
}

/// `true` or `false`.
pub open spec fn bool_text(b: bool) -> Seq<char> {
    if b { "true"@ } else { "false"@ }
}

// The text of the report is specified as what is appended to the text `o`
// written so far.

/// `o` followed by the column headings of the text report.
pub open spec fn header_onto(o: Seq<char>) -> Seq<char> {
    o + pad_right("ACTION"@, 14) + " "@ + pad_right("DIRTY"@, 5) + " "@ + pad_right("BRANCH"@, 28)
        + " "@ + pad_right("REASONS"@, 22) + " "@ + "PATH"@ + "\n"@
}

/// The branch column: the branch, or `-` for a detached HEAD.
pub open spec fn branch_text(branch: Option<Seq<char>>) -> Seq<char> {
    match branch {
        Some(b) => b,
        None => "-"@,
    }
}

/// `o` followed by the line of one item: action, dirty flag, branch,
/// reasons and path.
pub open spec fn item_line_onto(o: Seq<char>, item: ItemView) -> Seq<char> {
    o + pad_right(item.action, 14) + " "@ + pad_right(bool_text(item.dirty), 5) + " "@
        + pad_right(branch_text(item.branch), 28) + " "@ + pad_right(
        seq_join(item.reasons, ","@),
        22,
    ) + " "@ + item.path + "\n"@
}

/// `o` followed by an optional detail line: `prefix`, the text and a line
/// break.
pub open spec fn detail_onto(o: Seq<char>, prefix: Seq<char>, text: Option<Seq<char>>) -> Seq<
    char,
> {
    match text {
        Some(t) => o + prefix + t + "\n"@,
        None => o,
    }
}

/// `o` followed by the detail lines of an item: its note, error, branch
/// action and branch error.
pub open spec fn details_onto(o: Seq<char>, item: ItemView) -> Seq<char> {
    detail_onto(
        detail_onto(
            detail_onto(detail_onto(o, "  note: "@, item.skip_reason), "  error: "@, item.error),
            "  branch: "@,
            item.branch_action,
        ),
        "  branch error: "@,
        item.branch_error,
    )
}

/// `o` followed by the lines of the listed items among `items`, each with
/// its details when verbose.
pub open spec fn item_lines_onto(o: Seq<char>, items: Seq<ItemView>, verbose: bool) -> Seq<char>
    decreases items.len(),
{
    if items.len() == 0 {
        o
    } else {
        let before = item_lines_onto(o, items.drop_last(), verbose);
        let last = items.last();
        if !is_listed(last, verbose) {
            before
        } else if verbose {
            details_onto(item_line_onto(before, last), last)
        } else {
            item_line_onto(before, last)
        }
    }
}

/// `o` followed by the summary line of the text report.
pub open spec fn summary_onto(o: Seq<char>, s: SweepSummary) -> Seq<char> {
    o + "Summary: repositories="@ + decimal(s.repositories as nat) + ", matched="@ + decimal(
        s.matched as nat,
    ) + ", would_remove="@ + decimal(s.would_remove as nat) + ", removed="@ + decimal(
        s.removed as nat,
    ) + ", skipped="@ + decimal(s.skipped as nat) + ", errors="@ + decimal(s.errors as nat)
        + ", branch_deleted="@ + decimal(s.branch_deleted as nat) + ", dry_run="@ + bool_text(
        s.dry_run,
    ) + "\n"@
}

/// Whether any of `items` is listed.
pub open spec fn any_listed(items: Seq<ItemView>, verbose: bool) -> bool {
    exists|i: int| 0 <= i < items.len() && is_listed(#[trigger] items[i], verbose)
}

/// `o` followed by the text report: nothing when no item is listed (but,
/// when verbose, a line that says so and the summary); otherwise the
/// heading, the listed items and, when verbose, their details and the
/// summary.
pub open spec fn human_report_onto(
    o: Seq<char>,
    items: Seq<ItemView>,
    summary: SweepSummary,
    verbose: bool,
) -> Seq<char> {
    if !any_listed(items, verbose) {
        if verbose {
            summary_onto(o + "No matching worktrees.\n"@, summary)
        } else {
            o
        }
    } else {
        let body = item_lines_onto(header_onto(o), items, verbose);
        if verbose {
            summary_onto(body, summary)
        } else {
            body
        }
    }
}

/// The text report on its own.
pub open spec fn human_report(items: Seq<ItemView>, summary: SweepSummary, verbose: bool) -> Seq<
    char,
> {
    human_report_onto(Seq::empty(), items, summary, verbose)
}

fn append_decimal_usize(out: &mut String, n: usize)
    ensures
        final(out)@ == old(out)@ + decimal(n as nat),
{
    append_decimal(out, n as u64);
}

fn bool_str(b: bool) -> (r: &'static str)
    ensures
        r@ == bool_text(b),
{
    if b {
        "true"
    } else {
        "false"
    }
}

fn is_listed_exec(item: &SweepItem, verbose: bool) -> (r: bool)
    ensures
        r == is_listed(item@, verbose),
{
    verbose || (str_eq(item.kind.as_str(), KIND_WORKTREE) && !str_eq(
        item.action.as_str(),
        ACTION_ERROR,
    ))
}

fn append_detail(out: &mut String, prefix: &str, text: &Option<String>)
    ensures
        final(out)@ == detail_onto(old(out)@, prefix@, opt_view(*text)),
{
    match text {
        Some(t) => {
            out.append(prefix);
            out.append(t.as_str());
            out.append("\n");
        },
        None => {},
    }
}

fn append_item_line(out: &mut String, item: &SweepItem)
    ensures
        final(out)@ == item_line_onto(old(out)@, item@),
{
    append_padded(out, item.action.as_str(), 14);
    out.append(" ");
    append_padded(out, bool_str(item.dirty), 5);
    out.append(" ");
    match &item.branch {
        Some(br) => append_padded(out, br.as_str(), 28),
        None => append_padded(out, "-", 28),
    }
    out.append(" ");
    let reasons = join(&item.reasons, ",");
    append_padded(out, reasons.as_str(), 22);
    out.append(" ");
    out.append(item.path.as_str());
    out.append("\n");
}

fn append_item(out: &mut String, item: &SweepItem, verbose: bool)
    ensures
        final(out)@ == if verbose {
            details_onto(item_line_onto(old(out)@, item@), item@)
        } else {
            item_line_onto(old(out)@, item@)
        },
{
    append_item_line(out, item);
    if verbose {
        append_detail(out, "  note: ", &item.skip_reason);
        append_detail(out, "  error: ", &item.error);
        append_detail(out, "  branch: ", &item.branch_action);
        append_detail(out, "  branch error: ", &item.branch_error);
    }
}

/// Whether two items show the same line in the text report: same action,
/// dirty flag, branch, reasons and path, and both listed or both not when
/// the report is not verbose.
pub open spec fn same_line(a: ItemView, b: ItemView) -> bool {
    &&& is_listed(a, false) == is_listed(b, false)
    &&& a.action == b.action
    &&& a.dirty == b.dirty
    &&& a.branch == b.branch
    &&& a.reasons == b.reasons
    &&& a.path == b.path
}

proof fn lemma_quiet_lines_agree(o: Seq<char>, a: Seq<ItemView>, b: Seq<ItemView>)
    requires
        a.len() == b.len(),
        forall|i: int| 0 <= i < a.len() ==> same_line(#[trigger] a[i], b[i]),
    ensures
        item_lines_onto(o, a, false) == item_lines_onto(o, b, false),
        any_listed(a, false) == any_listed(b, false),
    decreases a.len(),
{
    if a.len() > 0 {
        let (ra, rb) = (a.drop_last(), b.drop_last());
        assert forall|i: int| 0 <= i < ra.len() implies same_line(#[trigger] ra[i], rb[i]) by {
            assert(ra[i] == a[i] && rb[i] == b[i]);
        }
        lemma_quiet_lines_agree(o, ra, rb);
        assert(same_line(a[a.len() - 1], b[b.len() - 1]));
        if any_listed(a, false) {
            let i = choose|i: int| 0 <= i < a.len() && is_listed(#[trigger] a[i], false);
            assert(same_line(a[i], b[i]));
        }
        if any_listed(b, false) {
            let i = choose|i: int| 0 <= i < b.len() && is_listed(#[trigger] b[i], false);
            assert(same_line(a[i], b[i]));
        }
    }
}

/// The text report without `--verbose` is silent when no worktree matches,
/// omits the summary, and hides every note and error: it is empty when no
/// item is listed, and two reports whose items show the same lines read
/// the same, whatever their summaries and details.
pub proof fn lemma_quiet_report_is_minimal(
    a: Seq<ItemView>,
    b: Seq<ItemView>,
    sa: SweepSummary,
    sb: SweepSummary,
)
    requires
        a.len() == b.len(),
        forall|i: int| 0 <= i < a.len() ==> same_line(#[trigger] a[i], b[i]),
    ensures
        !any_listed(a, false) ==> human_report(a, sa, false) == Seq::<char>::empty(),
        human_report(a, sa, false) == human_report(b, sb, false),
{
    lemma_quiet_lines_agree(header_onto(Seq::empty()), a, b);
}

proof fn lemma_item_line_grows(o: Seq<char>, item: ItemView)
    ensures
        item_line_onto(o, item).len() > o.len(),
        details_onto(o, item).len() >= o.len(),
{
    reveal_strlit("\n");
}

proof fn lemma_item_lines_grow(o: Seq<char>, items: Seq<ItemView>, verbose: bool)
    ensures
        item_lines_onto(o, items, verbose).len() >= o.len(),
    decreases items.len(),
{
    if items.len() > 0 {
        let before = item_lines_onto(o, items.drop_last(), verbose);
        lemma_item_lines_grow(o, items.drop_last(), verbose);
        lemma_item_line_grows(before, items.last());
        lemma_item_line_grows(item_line_onto(before, items.last()), items.last());
    }
}

proof fn lemma_any_listed_push(items: Seq<ItemView>, x: ItemView, verbose: bool)
    ensures
        any_listed(items.push(x), verbose) <==> (any_listed(items, verbose) || is_listed(
            x,
            verbose,
        )),
{
    let p = items.push(x);
    if any_listed(p, verbose) {
        let i = choose|i: int| 0 <= i < p.len() && is_listed(#[trigger] p[i], verbose);
        if i < items.len() {
            assert(items[i] == p[i]);
        }
    }
    if any_listed(items, verbose) {
        let i = choose|i: int| 0 <= i < items.len() && is_listed(#[trigger] items[i], verbose);
        assert(p[i] == items[i]);
    }
    if is_listed(x, verbose) {
        assert(p[items.len() as int] == x);
    }
}

/// Without `--verbose`, the text report lists every worktree whose action
/// did not fail, and nothing else: adding a worktree item whose action is
/// not `error` makes the report longer, and adding any other item leaves it
/// as it was; a report with no such item is empty. With `--verbose` the
/// report is never empty.
pub proof fn lemma_quiet_report_lists_live_worktrees(
    items: Seq<ItemView>,
    x: ItemView,
    summary: SweepSummary,
)
    ensures
        (x.kind == "worktree"@ && x.action != "error"@) ==> human_report(
            items.push(x),
            summary,
            false,
        ).len() > human_report(items, summary, false).len(),
        !(x.kind == "worktree"@ && x.action != "error"@) ==> human_report(
            items.push(x),
            summary,
            false,
        ) == human_report(items, summary, false),
        (forall|i: int|
            0 <= i < items.len() ==> !(#[trigger] items[i].kind == "worktree"@ && items[i].action
                != "error"@)) ==> human_report(items, summary, false).len() == 0,
        human_report(items, summary, true).len() > 0,
{
    lemma_report_words();
    reveal_strlit("\n");
    let h = header_onto(Seq::empty());
    let p = items.push(x);
    assert(p.drop_last() =~= items);
    assert(p.last() == x);
    lemma_any_listed_push(items, x, false);
    lemma_item_lines_grow(h, items, false);
    assert(h.len() > 0);
    let before = item_lines_onto(h, items, false);
    if is_listed(x, false) {
        lemma_item_line_grows(before, x);
    }
    if forall|i: int|
        0 <= i < items.len() ==> !(#[trigger] items[i].kind == "worktree"@ && items[i].action
            != "error"@) {
        if any_listed(items, false) {
            let i = choose|i: int| 0 <= i < items.len() && is_listed(#[trigger] items[i], false);
            assert(!(items[i].kind == "worktree"@ && items[i].action != "error"@));
        }
    }
    lemma_item_lines_grow(h, items, true);
}

/// Appends the summary line of `report`.
pub fn write_summary(out: &mut String, report: &SweepReport)
    ensures
        final(out)@ == summary_onto(old(out)@, report.summary),
{
    let s = &report.summary;
    out.append("Summary: repositories=");
    append_decimal_usize(out, s.repositories);
    out.append(", matched=");
    append_decimal_usize(out, s.matched);
    out.append(", would_remove=");
    append_decimal_usize(out, s.would_remove);
    out.append(", removed=");
    append_decimal_usize(out, s.removed);
    out.append(", skipped=");
    append_decimal_usize(out, s.skipped);
    out.append(", errors=");
    append_decimal_usize(out, s.errors);
    out.append(", branch_deleted=");
    append_decimal_usize(out, s.branch_deleted);
    out.append(", dry_run=");
    out.append(bool_str(s.dry_run));
    out.append("\n");
}

/// Appends the text report of `report` to `out` (see `human_report_onto`).
pub fn write_human_report(out: &mut String, report: &SweepReport, verbose: bool)
    ensures
        final(out)@ == human_report_onto(
            old(out)@,
            items_view(report.items@),
            report.summary,
            verbose,
        ),
{
    let ghost items = items_view(report.items@);
    let mut any = false;
    let mut i: usize = 0;
    while i < report.items.len()
        invariant
            i <= report.items.len(),
            items == items_view(report.items@),
            any == exists|j: int| 0 <= j < i && is_listed(#[trigger] items[j], verbose),
        decreases report.items.len() - i,
    {
        assert(items[i as int] == report.items@[i as int]@);
        if is_listed_exec(&report.items[i], verbose) {
            any = true;
        }
        i = i + 1;
    }
    if !any {
        if verbose {
            out.append("No matching worktrees.\n");
            write_summary(out, report);
        }
        return;
    }
    append_padded(out, "ACTION", 14);
    out.append(" ");
    append_padded(out, "DIRTY", 5);
    out.append(" ");
    append_padded(out, "BRANCH", 28);
    out.append(" ");
    append_padded(out, "REASONS", 22);
    out.append(" ");
    out.append("PATH");
    out.append("\n");
    let ghost start = out@;
    assert(start == header_onto(old(out)@));
    let mut i: usize = 0;
    while i < report.items.len()
        invariant
            i <= report.items.len(),
            items == items_view(report.items@),
            out@ == item_lines_onto(start, items.take(i as int), verbose),
        decreases report.items.len() - i,
    {
        let item = &report.items[i];
        assert(items[i as int] == item@);
        assert(items.take(i + 1).drop_last() =~= items.take(i as int));
        assert(items.take(i + 1).last() == item@);
        if is_listed_exec(item, verbose) {
            append_item(out, item, verbose);
        }
        i = i + 1;
    }
    assert(items.take(report.items.len() as int) =~= items);
    if verbose {
        write_summary(out, report);
    }
}

/// The summary of `items`: every item counted, in order, from zero.
pub open spec fn tally(items: Seq<ItemView>, dry_run: bool, repositories: usize) -> SweepSummary
    decreases items.len(),
{
    if items.len() == 0 {
        zero_summary(dry_run, repositories)
    } else {
        count_item(tally(items.drop_last(), dry_run, repositories), items.last())
    }
}

/// No counter of `s` exceeds `n`.
pub open spec fn counters_at_most(s: SweepSummary, n: int) -> bool {
    &&& s.matched <= n
    &&& s.would_remove <= n
    &&& s.removed <= n
    &&& s.skipped <= n
    &&& s.errors <= n
    &&& s.branch_deleted <= n
}

proof fn lemma_tally_bounded(items: Seq<ItemView>, dry_run: bool, repositories: usize)
    requires
        items.len() < usize::MAX,
    ensures
        counters_at_most(tally(items, dry_run, repositories), items.len() as int),
    decreases items.len(),
{
    if items.len() > 0 {
        lemma_tally_bounded(items.drop_last(), dry_run, repositories);
    }
}

proof fn lemma_count_commutes(s: SweepSummary, a: ItemView, b: ItemView)
    requires
        counters_at_most(s, usize::MAX - 2),
    ensures
        count_item(count_item(s, a), b) == count_item(count_item(s, b), a),
{
}

/// The summary does not depend on the order of the items: exchanging two
/// neighbouring items leaves it unchanged (so any reordering does).
pub proof fn lemma_tally_ignores_order(
    items: Seq<ItemView>,
    i: int,
    dry_run: bool,
    repositories: usize,
)
    requires
        items.len() < usize::MAX,
        0 <= i < items.len() - 1,
    ensures
        tally(items.update(i, items[i + 1]).update(i + 1, items[i]), dry_run, repositories)
            == tally(items, dry_run, repositories),
    decreases items.len(),
{
    let swapped = items.update(i, items[i + 1]).update(i + 1, items[i]);
    let n = items.len();
    if i + 2 == n {
        let front = items.take(n - 2);
        assert(items.drop_last().drop_last() =~= front);
        assert(swapped.drop_last().drop_last() =~= front);
        let t = tally(front, dry_run, repositories);
        lemma_tally_bounded(front, dry_run, repositories);
        lemma_count_commutes(t, items[i], items[i + 1]);
        assert(items.drop_last().last() == items[i] && items.last() == items[i + 1]);
        assert(swapped.drop_last().last() == items[i + 1] && swapped.last() == items[i]);
        assert(tally(items.drop_last(), dry_run, repositories) == count_item(t, items[i]));
        assert(tally(swapped.drop_last(), dry_run, repositories) == count_item(t, items[i + 1]));
    } else {
        let rest = items.drop_last();
        lemma_tally_ignores_order(rest, i, dry_run, repositories);
        assert(swapped.drop_last() =~= rest.update(i, rest[i + 1]).update(i + 1, rest[i]));
        assert(swapped.last() == items.last());
    }
}

/// Each counter of a summary is the number of items of its kind: `matched`
/// counts worktree items; `would_remove`, `removed` and `skipped` the items
/// with that action; `errors` the items whose action failed or that carry an
/// error for the worktree or its branch; `branch_deleted` the items whose
/// branch was deleted.
pub proof fn lemma_tally_counts_items(items: Seq<ItemView>, dry_run: bool, repositories: usize)
    requires
        items.len() < usize::MAX,
    ensures
        tally(items, dry_run, repositories).dry_run == dry_run,
        tally(items, dry_run, repositories).repositories == repositories,
        tally(items, dry_run, repositories).matched == items.filter(
            |i: ItemView| i.kind == "worktree"@,
        ).len(),
        tally(items, dry_run, repositories).would_remove == items.filter(
            |i: ItemView| i.action == "would_remove"@,
        ).len(),
        tally(items, dry_run, repositories).removed == items.filter(
            |i: ItemView| i.action == "removed"@,
        ).len(),
        tally(items, dry_run, repositories).skipped == items.filter(
            |i: ItemView| i.action == "skip"@,
        ).len(),
        tally(items, dry_run, repositories).errors == items.filter(
            |i: ItemView| i.action == "error"@ || i.error is Some || i.branch_error is Some,
        ).len(),
        tally(items, dry_run, repositories).branch_deleted == items.filter(
            |i: ItemView| i.branch_deleted,
        ).len(),
    decreases items.len(),
{
    reveal(Seq::filter);
    lemma_report_words();
    if items.len() > 0 {
        let rest = items.drop_last();
        lemma_tally_counts_items(rest, dry_run, repositories);
        lemma_tally_bounded(rest, dry_run, repositories);
    }
}

/// The summary of a report counts exactly its items.
pub open spec fn summary_agrees(report: SweepReport) -> bool {
    report.summary == tally(
        items_view(report.items@),
        report.summary.dry_run,
        report.summary.repositories,
    )
}

/// An empty report of a sweep over `repositories` repositories.
pub fn new_report(dry_run: bool, repositories: usize) -> (r: SweepReport)
    ensures
        r.items@.len() == 0,
        r.summary == zero_summary(dry_run, repositories),
        summary_agrees(r),
{
    let r = SweepReport {
        items: Vec::new(),
        summary: SweepSummary {
            dry_run,
            repositories,
            matched: 0,
            would_remove: 0,
            removed: 0,
            skipped: 0,
            errors: 0,
            branch_deleted: 0,
        },
    };
    assert(items_view(r.items@) =~= Seq::<ItemView>::empty());
    r
}

/// Adds `item` to the report and counts it in the summary.
pub fn record_item(report: &mut SweepReport, item: SweepItem)
    requires
        summary_has_room(old(report).summary),
    ensures
        final(report).items@ == old(report).items@.push(item),
        final(report).summary == count_item(old(report).summary, item@),
        summary_agrees(*old(report)) ==> summary_agrees(*final(report)),
{
    update_summary(&mut report.summary, &item);
    report.items.push(item);
    proof {
        let items = items_view(report.items@);
        assert(items.drop_last() =~= items_view(old(report).items@));
    }
}

/// The number of error items among `items`.
pub open spec fn error_count(items: Seq<ItemView>) -> nat
    decreases items.len(),
{
    if items.len() == 0 {
        0
    } else {
        error_count(items.drop_last()) + if is_error_item(items.last()) { 1nat } else { 0nat }
    }
}

proof fn lemma_tally_errors(items: Seq<ItemView>, dry_run: bool, repositories: usize)
    requires
        items.len() < usize::MAX,
    ensures
        tally(items, dry_run, repositories).errors == error_count(items),
        error_count(items) <= items.len(),
        error_count(items) > 0 <==> exists|i: int|
            0 <= i < items.len() && is_error_item(#[trigger] items[i]),
    decreases items.len(),
{
    if items.len() > 0 {
        let rest = items.drop_last();
        lemma_tally_errors(rest, dry_run, repositories);
        if error_count(items) > 0 && !is_error_item(items.last()) {
            let i = choose|i: int| 0 <= i < rest.len() && is_error_item(#[trigger] rest[i]);
            assert(items[i] == rest[i]);
        }
        assert forall|i: int| 0 <= i < rest.len() && is_error_item(#[trigger] rest[i]) implies
            error_count(rest) > 0 by {}
        if exists|i: int| 0 <= i < items.len() && is_error_item(#[trigger] items[i]) {
            let i = choose|i: int| 0 <= i < items.len() && is_error_item(#[trigger] items[i]);
            if i < items.len() - 1 {
                assert(rest[i] == items[i]);
            }
        }
    }
}

/// The exit status of a sweep: 1 when any error was counted, 0 otherwise.
pub fn exit_status(report: &SweepReport) -> (r: u8)
    ensures
        r == if report.summary.errors > 0 { 1u8 } else { 0u8 },
{
    if report.summary.errors > 0 {
        1
    } else {
        0
    }
}

/// The exit status of a sweep whose summary counts its items is non-zero
/// exactly when some item reports an error.
pub proof fn lemma_exit_status_reports_errors(report: SweepReport)
    requires
        summary_agrees(report),
        report.items@.len() < usize::MAX,
    ensures
        report.summary.errors > 0 <==> exists|i: int|
            0 <= i < report.items@.len() && is_error_item(#[trigger] report.items@[i]@),
{
    let items = items_view(report.items@);
    lemma_tally_errors(items, report.summary.dry_run, report.summary.repositories);
    if report.summary.errors > 0 {
        let i = choose|i: int| 0 <= i < items.len() && is_error_item(#[trigger] items[i]);
        assert(items[i] == report.items@[i]@);
    }
    if exists|i: int| 0 <= i < report.items@.len() && is_error_item(#[trigger] report.items@[i]@) {
        let i = choose|i: int|
            0 <= i < report.items@.len() && is_error_item(#[trigger] report.items@[i]@);
        assert(items[i] == report.items@[i]@);
    }
}

} // verus!
