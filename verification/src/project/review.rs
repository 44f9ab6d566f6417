//! Review runs: the diff summary of a proposed edit, the decisions recorded
//! on a run, and which decision each status admits.

use vstd::prelude::*;
use vstd::utf8::encode_utf8;
use crate::mp4::verdict::lit;
use crate::project::hash::{hex16, source_hash, spec_fnv1a64};
use crate::project::ids::{alnum, is_ascii_alnum};
use crate::project::model::opt_text;
use crate::project::order::{dedupe_sorted, strictly_sorted};
use crate::text::texts;
use crate::project::patch::{single_operation, PatchDocumentV1};
use crate::render_source::eq_lit;
use crate::text::{chars_eq, chars_of, string_from_chars, trim, trim_chars};

verus! {

/// Line counts and previews of a proposed single-operation edit.
#[derive(Debug, Clone)]
pub struct ProjectDiffSummaryV1 {
    pub artifact_id: String,
    pub source_path: String,
    pub old_hash: String,
    pub new_hash: String,
    pub old_bytes: usize,
    pub new_bytes: usize,
    pub removed_lines: usize,
    pub added_lines: usize,
    pub changed: bool,
    pub old_preview: Option<String>,
    pub new_preview: Option<String>,
}

/// One decision taken on a review run.
#[derive(Debug, Clone)]
pub struct ProjectRunDecisionV1 {
    pub actor: String,
    pub decision: String,
    pub status: String,
    pub artifact_refs: Vec<String>,
    pub decided_at: u64,
}

/// The review state of a generate run.
#[derive(Debug, Clone)]
pub struct ProjectRunReviewV1 {
    pub mode: String,
    pub status: String,
    pub parent_run_id: Option<String>,
    pub base_hash: String,
    pub proposed_hash: String,
    pub diff_summary: ProjectDiffSummaryV1,
    pub decisions: Vec<ProjectRunDecisionV1>,
}

// ───────────────────────── lines ─────────────────────────

/// `line` without the `\r` of a `\r\n` ending.
pub open spec fn strip_cr(line: Seq<char>) -> Seq<char> {
    if line.len() > 0 && line.last() == '\r' {
        line.drop_last()
    } else {
        line
    }
}

/// Index of the first `\n` of `s`, if any.
pub open spec fn first_newline(s: Seq<char>) -> Option<int> {
    if exists|i: int| 0 <= i < s.len() && s[i] == '\n' {
        Some(choose|i: int| 0 <= i < s.len() && s[i] == '\n' && forall|j: int| 0 <= j < i ==> s[j] != '\n')
    } else {
        None
    }
}

/// The lines of `s` (`str::lines`): split at `\n`, a `\r` before it
/// dropped, no empty last line after a final line ending.
#[verifier::opaque]
pub open spec fn lines_of(s: Seq<char>) -> Seq<Seq<char>>
    decreases s.len(),
{
    if s.len() == 0 {
        seq![]
    } else {
        match first_newline(s) {
            None => seq![s],
            Some(i) => if 0 <= i < s.len() {
                seq![strip_cr(s.subrange(0, i))] + lines_of(s.subrange(i + 1, s.len() as int))
            } else {
                seq![s]
            },
        }
    }
}

pub open spec fn line_views(v: Seq<Vec<char>>) -> Seq<Seq<char>> {
    v.map_values(|l: Vec<char>| l@)
}

proof fn lemma_first_newline(s: Seq<char>, i: int)
    requires
        0 <= i < s.len(),
        s[i] == '\n',
        forall|j: int| 0 <= j < i ==> s[j] != '\n',
    ensures
        first_newline(s) == Some(i),
{
    let k = choose|k: int| 0 <= k < s.len() && s[k] == '\n' && forall|j: int| 0 <= j < k ==> s[j] != '\n';
    assert(0 <= k < s.len() && s[k] == '\n' && forall|j: int| 0 <= j < k ==> s[j] != '\n');
    if k < i {
        assert(s[k] != '\n');
    }
    if i < k {
        assert(s[i] != '\n');
    }
}

fn copy_range(s: &[char], a: usize, b: usize) -> (v: Vec<char>)
    requires
        a <= b <= s@.len(),
    ensures
        v@ == s@.subrange(a as int, b as int),
{
    let mut v: Vec<char> = Vec::new();
    let mut i: usize = a;
    while i < b
        invariant
            a <= i <= b <= s@.len(),
            v@ == s@.subrange(a as int, i as int),
        decreases b - i,
    {
        v.push(s[i]);
        proof {
            assert(s@.subrange(a as int, i + 1) =~= s@.subrange(a as int, i as int).push(s@[i as int]));
        }
        i = i + 1;
    }
    v
}

proof fn lemma_lines_last(s: Seq<char>, start: int)
    requires
        0 <= start < s.len(),
        forall|j: int| start <= j < s.len() ==> s[j] != '\n',
    ensures
        lines_of(s.subrange(start, s.len() as int)) == seq![s.subrange(start, s.len() as int)],
{
    reveal(lines_of);
    let rest = s.subrange(start, s.len() as int);
    assert forall|j: int| 0 <= j < rest.len() implies rest[j] != '\n' by {
        assert(rest[j] == s[start + j]);
    }
    assert(first_newline(rest) is None);
}

proof fn lemma_lines_step(s: Seq<char>, start: int, i: int)
    requires
        0 <= start <= i < s.len(),
        s[i] == '\n',
        forall|j: int| start <= j < i ==> s[j] != '\n',
    ensures
        lines_of(s.subrange(start, s.len() as int)) == seq![strip_cr(s.subrange(start, i))] + lines_of(
            s.subrange(i + 1, s.len() as int),
        ),
{
    reveal(lines_of);
    let rest = s.subrange(start, s.len() as int);
    let k = i - start;
    assert(rest[k] == '\n');
    assert forall|j: int| 0 <= j < k implies rest[j] != '\n' by {
        assert(rest[j] == s[start + j]);
    }
    lemma_first_newline(rest, k);
    assert(rest.subrange(0, k) =~= s.subrange(start, i));
    assert(rest.subrange(k + 1, rest.len() as int) =~= s.subrange(i + 1, s.len() as int));
}

/// The lines of a text.
pub fn lines(s: &[char]) -> (out: Vec<Vec<char>>)
    ensures
        line_views(out@) == lines_of(s@),
{
    let n = s.len();
    let mut out: Vec<Vec<char>> = Vec::new();
    let mut start: usize = 0;
    proof {
        assert(s@.subrange(0, n as int) =~= s@);
        assert(line_views(out@) + lines_of(s@.subrange(0, n as int)) =~= lines_of(s@));
    }
    while start < n
        invariant
            start <= n,
            n == s@.len(),
            lines_of(s@) == line_views(out@) + lines_of(s@.subrange(start as int, n as int)),
        decreases n - start,
    {
        let mut i: usize = start;
        while i < n && s[i] != '\n'
            invariant
                start <= i <= n,
                n == s@.len(),
                forall|j: int| start <= j < i ==> s@[j] != '\n',
            decreases n - i,
        {
            i = i + 1;
        }
        let ghost before = out@;
        if i == n {
            let line = copy_range(s, start, n);
            proof {
                lemma_lines_last(s@, start as int);
            }
            out.push(line);
            proof {
                assert(line_views(out@) =~= line_views(before).push(s@.subrange(start as int, n as int)));
                assert(s@.subrange(n as int, n as int) =~= Seq::<char>::empty());
                reveal(lines_of);
                assert(lines_of(s@.subrange(n as int, n as int)) =~= Seq::<Seq<char>>::empty());
                assert(line_views(out@) + lines_of(s@.subrange(n as int, n as int)) =~= line_views(
                    before,
                ) + seq![s@.subrange(start as int, n as int)]);
            }
            start = n;
        } else {
            let end = if i > start && s[i - 1] == '\r' {
                i - 1
            } else {
                i
            };
            let line = copy_range(s, start, end);
            proof {
                lemma_lines_step(s@, start as int, i as int);
                assert(strip_cr(s@.subrange(start as int, i as int)) =~= s@.subrange(start as int, end as int));
            }
            out.push(line);
            proof {
                assert(line_views(out@) =~= line_views(before).push(s@.subrange(start as int, end as int)));
                assert(line_views(out@) + lines_of(s@.subrange(i + 1, n as int)) =~= line_views(before)
                    + (seq![s@.subrange(start as int, end as int)] + lines_of(s@.subrange(i + 1, n as int))));
            }
            start = i + 1;
        }
    }
    proof {
        reveal(lines_of);
        assert(s@.subrange(n as int, n as int) =~= Seq::<char>::empty());
        assert(line_views(out@) + lines_of(s@.subrange(n as int, n as int)) =~= line_views(out@));
    }
    out
}

// ───────────────────────── previews ─────────────────────────

/// The first `max_chars` characters of `value`, with `...` appended when
/// anything was cut.
pub open spec fn spec_truncate(value: Seq<char>, max_chars: nat) -> Seq<char> {
    if value.len() > max_chars {
        value.take(max_chars as int) + "..."@
    } else {
        value
    }
}

/// Cuts a text to `max_chars` characters, marking the cut with `...`.
pub fn truncate(value: &str, max_chars: usize) -> (s: String)
    ensures
        s@ == spec_truncate(value@, max_chars as nat),
{
    let cs = chars_of(value);
    if cs.len() > max_chars {
        let head = copy_range(cs.as_slice(), 0, max_chars);
        let mut s = string_from_chars(head.as_slice());
        s.append("...");
        proof {
            assert(cs@.subrange(0, max_chars as int) =~= cs@.take(max_chars as int));
        }
        s
    } else {
        lit(value)
    }
}

/// The preview of the line at `index`: trimmed and cut to 160 characters.
pub open spec fn spec_preview(lines: Seq<Seq<char>>, index: int) -> Option<Seq<char>> {
    if 0 <= index < lines.len() {
        Some(spec_truncate(trim(lines[index]), 160))
    } else {
        None
    }
}

/// Preview of the first changed line.
pub fn changed_preview(lines: &Vec<Vec<char>>, index: usize) -> (r: Option<String>)
    ensures
        opt_text(r) == spec_preview(line_views(lines@), index as int),
{
    if index < lines.len() {
        let t = trim_chars(lines[index].as_slice());
        let ts = string_from_chars(t.as_slice());
        Some(truncate(ts.as_str(), 160))
    } else {
        None
    }
}

// ───────────────────────── diff summary ─────────────────────────

/// Length of the common prefix of `a` and `b` from index `p` on.
pub open spec fn common_prefix(a: Seq<Seq<char>>, b: Seq<Seq<char>>, p: nat) -> nat
    decreases a.len() - p,
{
    if p < a.len() && p < b.len() && a[p as int] == b[p as int] {
        common_prefix(a, b, p + 1)
    } else {
        p
    }
}

/// Length of the common suffix of `a` and `b` that does not reach into
/// their first `p` elements, counting from `s` on.
pub open spec fn common_suffix(a: Seq<Seq<char>>, b: Seq<Seq<char>>, p: nat, s: nat) -> nat
    decreases a.len() - s,
{
    if s + p < a.len() && s + p < b.len() && a[a.len() - 1 - s] == b[b.len() - 1 - s] {
        common_suffix(a, b, p, s + 1)
    } else {
        s
    }
}

pub open spec fn sat_sub(x: nat, y: nat) -> nat {
    if x >= y {
        (x - y) as nat
    } else {
        0
    }
}

/// The summary of an edit replacing `old` by `new`.
pub open spec fn diff_summary_matches(
    d: ProjectDiffSummaryV1,
    artifact_id: Seq<char>,
    source_path: Option<Seq<char>>,
    old: Seq<char>,
    new: Seq<char>,
) -> bool {
    let ol = lines_of(old);
    let nl = lines_of(new);
    let p = common_prefix(ol, nl, 0);
    let s = common_suffix(ol, nl, p, 0);
    let oh = "fnv1a64-"@ + hex16(spec_fnv1a64(encode_utf8(old)));
    let nh = "fnv1a64-"@ + hex16(spec_fnv1a64(encode_utf8(new)));
    &&& d.artifact_id@ == artifact_id
    &&& d.source_path@ == match source_path {
        Some(sp) => sp,
        None => seq![],
    }
    &&& d.old_hash@ == oh
    &&& d.new_hash@ == nh
    &&& d.old_bytes == encode_utf8(old).len()
    &&& d.new_bytes == encode_utf8(new).len()
    &&& d.removed_lines == sat_sub(ol.len(), p + s)
    &&& d.added_lines == sat_sub(nl.len(), p + s)
    &&& d.changed == (oh != nh)
    &&& opt_text(d.old_preview) == spec_preview(ol, p as int)
    &&& opt_text(d.new_preview) == spec_preview(nl, p as int)
}

fn lines_eq(a: &Vec<char>, b: &Vec<char>) -> (r: bool)
    ensures
        r == (a@ == b@),
{
    chars_eq(a.as_slice(), b.as_slice())
}

proof fn lemma_common_prefix_bound(a: Seq<Seq<char>>, b: Seq<Seq<char>>, p: nat)
    requires
        p <= a.len(),
        p <= b.len(),
    ensures
        p <= common_prefix(a, b, p) <= a.len(),
        common_prefix(a, b, p) <= b.len(),
    decreases a.len() - p,
{
    if p < a.len() && p < b.len() && a[p as int] == b[p as int] {
        lemma_common_prefix_bound(a, b, p + 1);
    }
}

proof fn lemma_common_suffix_bound(a: Seq<Seq<char>>, b: Seq<Seq<char>>, p: nat, s: nat)
    requires
        s + p <= a.len(),
        s + p <= b.len(),
    ensures
        s <= common_suffix(a, b, p, s),
        common_suffix(a, b, p, s) + p <= a.len(),
        common_suffix(a, b, p, s) + p <= b.len(),
    decreases a.len() - s,
{
    if s + p < a.len() && s + p < b.len() && a[a.len() - 1 - s] == b[b.len() - 1 - s] {
        lemma_common_suffix_bound(a, b, p, s + 1);
    }
}

fn utf8_len_of(s: &String) -> (n: usize)
    ensures
        n == encode_utf8(s@).len(),
{
    s.as_str().as_bytes().len()
}

/// The diff summary of a single-operation review patch.
pub fn diff_summary_from_patch(patch: &PatchDocumentV1) -> (r: Result<ProjectDiffSummaryV1, String>)
    ensures
        patch.operations@.len() != 1 ==> r is Err,
        patch.operations@.len() == 1 ==> (r matches Ok(d) && {
            let op = patch.operations@[0];
            diff_summary_matches(d, op.artifact_id@, opt_text(op.source_path), op.old_text@, op.new_text@)
        }),
{
    let op = single_operation(patch)?;
    let old_hash = source_hash(op.old_text.as_str());
    let new_hash = source_hash(op.new_text.as_str());
    let oc = chars_of(op.old_text.as_str());
    let nc = chars_of(op.new_text.as_str());
    let old_lines = lines(oc.as_slice());
    let new_lines = lines(nc.as_slice());
    let ghost ol = line_views(old_lines@);
    let ghost nl = line_views(new_lines@);
    let mut prefix: usize = 0;
    while prefix < old_lines.len() && prefix < new_lines.len() && lines_eq(
        &old_lines[prefix],
        &new_lines[prefix],
    )
        invariant
            prefix <= old_lines@.len(),
            prefix <= new_lines@.len(),
            ol == line_views(old_lines@),
            nl == line_views(new_lines@),
            common_prefix(ol, nl, 0) == common_prefix(ol, nl, prefix as nat),
        decreases old_lines.len() - prefix,
    {
        prefix = prefix + 1;
    }
    let mut suffix: usize = 0;
    while suffix + prefix < old_lines.len() && suffix + prefix < new_lines.len() && lines_eq(
        &old_lines[old_lines.len() - 1 - suffix],
        &new_lines[new_lines.len() - 1 - suffix],
    )
        invariant
            suffix + prefix <= old_lines@.len(),
            suffix + prefix <= new_lines@.len(),
            ol == line_views(old_lines@),
            nl == line_views(new_lines@),
            prefix == common_prefix(ol, nl, 0),
            common_suffix(ol, nl, prefix as nat, 0) == common_suffix(ol, nl, prefix as nat, suffix as nat),
        decreases old_lines.len() - suffix,
    {
        suffix = suffix + 1;
    }
    let removed = if old_lines.len() >= prefix + suffix {
        old_lines.len() - (prefix + suffix)
    } else {
        0
    };
    let added = if new_lines.len() >= prefix + suffix {
        new_lines.len() - (prefix + suffix)
    } else {
        0
    };
    let ohc = chars_of(old_hash.as_str());
    let nhc = chars_of(new_hash.as_str());
    let changed = !chars_eq(ohc.as_slice(), nhc.as_slice());
    let source_path = match &op.source_path {
        Some(p) => p.clone(),
        None => String::new(),
    };
    Ok(
        ProjectDiffSummaryV1 {
            artifact_id: op.artifact_id.clone(),
            source_path,
            old_hash,
            new_hash,
            old_bytes: utf8_len_of(&op.old_text),
            new_bytes: utf8_len_of(&op.new_text),
            removed_lines: removed,
            added_lines: added,
            changed,
            old_preview: changed_preview(&old_lines, prefix),
            new_preview: changed_preview(&new_lines, prefix),
        },
    )
}

// ───────────────────────── decisions ─────────────────────────

/// A decision record.
pub fn decision(actor: &str, label: &str, status: &str, artifact_refs: Vec<String>, decided_at: u64) -> (d:
    ProjectRunDecisionV1)
    ensures
        d.actor@ == actor@,
        d.decision@ == label@,
        d.status@ == status@,
        d.artifact_refs@ == artifact_refs@,
        d.decided_at == decided_at,
{
    ProjectRunDecisionV1 {
        actor: lit(actor),
        decision: lit(label),
        status: lit(status),
        artifact_refs,
        decided_at,
    }
}

/// What a PM can decide on a review run.
#[derive(Debug, Clone, Copy, PartialEq, Eq, Structural)]
pub enum ReviewAction {
    Accept,
    Reject,
    Undo,
    Retry,
}

/// Which source hash a decision must find before it acts.
#[derive(Debug, Clone, Copy, PartialEq, Eq, Structural)]
pub enum HashCheck {
    /// None: the decision does not touch the source.
    Nothing,
    /// The hash the proposal was made against.
    Base,
    /// The hash the accepted edit produced.
    Proposed,
}

/// How a decision changes a run: the run's status after it, the name the
/// decision is recorded under, and the hash it checks first.
#[derive(Debug, Clone, Copy)]
pub struct ReviewStep {
    pub status: &'static str,
    pub decision: &'static str,
    pub check: HashCheck,
}

/// The status a run in `status` has after `action`; the decision's name;
/// the hash it checks. `None` when the status does not admit the action.
pub open spec fn spec_review_step(status: Seq<char>, action: ReviewAction) -> Option<(Seq<char>, Seq<char>, HashCheck)> {
    match action {
        ReviewAction::Accept => if status == "proposed"@ {
            Some(("accepted"@, "accept"@, HashCheck::Base))
        } else {
            None
        },
        ReviewAction::Reject => if status == "proposed"@ {
            Some(("rejected"@, "reject"@, HashCheck::Nothing))
        } else {
            None
        },
        ReviewAction::Undo => if status == "accepted"@ {
            Some(("reverted"@, "undo"@, HashCheck::Proposed))
        } else {
            None
        },
        ReviewAction::Retry => if status == "proposed"@ || status == "rejected"@ {
            Some((status, "retry"@, HashCheck::Base))
        } else {
            None
        },
    }
}

/// The message a refused decision gets.
pub open spec fn spec_refusal(run_id: Seq<char>, status: Seq<char>, action: ReviewAction) -> Seq<char> {
    match action {
        ReviewAction::Accept => "run "@ + run_id + " status is "@ + status + ", expected proposed"@,
        ReviewAction::Reject => "run "@ + run_id + " status is "@ + status + ", expected proposed"@,
        ReviewAction::Undo => "run "@ + run_id + " status is "@ + status + ", expected accepted"@,
        ReviewAction::Retry => "run "@ + run_id + " cannot be retried from status "@ + status,
    }
}

fn refusal(run_id: &str, status: &str, action: ReviewAction) -> (m: String)
    ensures
        m@ == spec_refusal(run_id@, status@, action),
{
    let mut m = lit("run ");
    m.append(run_id);
    match action {
        ReviewAction::Retry => {
            m.append(" cannot be retried from status ");
            m.append(status);
        },
        ReviewAction::Undo => {
            m.append(" status is ");
            m.append(status);
            m.append(", expected accepted");
        },
        _ => {
            m.append(" status is ");
            m.append(status);
            m.append(", expected proposed");
        },
    }
    m
}

/// Decides whether run `run_id`, in `status`, admits `action`, and how it
/// changes the run.
pub fn review_step(run_id: &str, status: &str, action: ReviewAction) -> (r: Result<ReviewStep, String>)
    ensures
        match spec_review_step(status@, action) {
            Some((st, d, c)) => r matches Ok(step) && step.status@ == st && step.decision@ == d && step.check
                == c,
            None => r matches Err(m) && m@ == spec_refusal(run_id@, status@, action),
        },
{
    let sc = chars_of(status);
    let s = sc.as_slice();
    match action {
        ReviewAction::Accept => if eq_lit(s, "proposed") {
            Ok(ReviewStep { status: "accepted", decision: "accept", check: HashCheck::Base })
        } else {
            Err(refusal(run_id, status, action))
        },
        ReviewAction::Reject => if eq_lit(s, "proposed") {
            Ok(ReviewStep { status: "rejected", decision: "reject", check: HashCheck::Nothing })
        } else {
            Err(refusal(run_id, status, action))
        },
        ReviewAction::Undo => if eq_lit(s, "accepted") {
            Ok(ReviewStep { status: "reverted", decision: "undo", check: HashCheck::Proposed })
        } else {
            Err(refusal(run_id, status, action))
        },
        ReviewAction::Retry => if eq_lit(s, "proposed") {
            Ok(ReviewStep { status: "proposed", decision: "retry", check: HashCheck::Base })
        } else if eq_lit(s, "rejected") {
            Ok(ReviewStep { status: "rejected", decision: "retry", check: HashCheck::Base })
        } else {
            Err(refusal(run_id, status, action))
        },
    }
}

/// A reverted run admits no further decision, and every decision leaves a
/// run in one of the four review statuses.
pub proof fn lemma_review_statuses(status: Seq<char>, action: ReviewAction)
    ensures
        status == "reverted"@ ==> spec_review_step(status, action) is None,
        spec_review_step(status, action) matches Some((st, _, _)) ==> (st == "proposed"@ || st
            == "accepted"@ || st == "rejected"@ || st == "reverted"@),
        action != ReviewAction::Retry ==> (spec_review_step(status, action) matches Some((st, _, _))
            ==> st != status),
{
    reveal_strlit("proposed");
    reveal_strlit("accepted");
    reveal_strlit("rejected");
    reveal_strlit("reverted");
    assert("reverted"@.len() == 8 && "proposed"@.len() == 8 && "accepted"@.len() == 8
        && "rejected"@.len() == 8);
    assert("reverted"@[2] != "proposed"@[2]);
    assert("reverted"@[0] != "accepted"@[0]);
    assert("reverted"@[2] != "rejected"@[2]);
    assert("accepted"@[0] != "proposed"@[0]);
    assert("rejected"@[0] != "proposed"@[0]);
}

/// The message when the source changed under a decision, if it did:
/// `<action> refused because source hash changed: expected <e>, got <a>`.
pub open spec fn spec_hash_refusal(action: Seq<char>, expected: Seq<char>, current: Seq<char>) -> Option<Seq<char>> {
    let actual = "fnv1a64-"@ + hex16(spec_fnv1a64(encode_utf8(current)));
    if actual == expected {
        None
    } else {
        Some(action + " refused because source hash changed: expected "@ + expected + ", got "@ + actual)
    }
}

/// Checks that the artifact's current source still has the expected hash.
pub fn check_source_hash(action: &str, expected: &str, current_source: &str) -> (r: Result<(), String>)
    ensures
        match spec_hash_refusal(action@, expected@, current_source@) {
            Some(m) => r matches Err(e) && e@ == m,
            None => r is Ok,
        },
{
    let actual = source_hash(current_source);
    let ac = chars_of(actual.as_str());
    if eq_lit(ac.as_slice(), expected) {
        return Ok(());
    }
    let mut m = lit(action);
    m.append(" refused because source hash changed: expected ");
    m.append(expected);
    m.append(", got ");
    m.append(actual.as_str());
    Err(m)
}

/// What std's `Path::file_stem` gives for the path `value`: the last
/// component's name without its extension, if there is one.
pub uninterp spec fn path_file_stem(value: Seq<char>) -> Option<Seq<char>>;

/// std: `Path::new(value).file_stem()`, read back as text (it comes from a
/// `&str`, so it is UTF-8).
#[verifier::external_body]
fn file_stem(value: &str) -> (r: Option<String>)
    ensures
        match r {
            Some(s) => path_file_stem(value@) == Some(s@),
            None => path_file_stem(value@) is None,
        },
{
    Some(std::path::Path::new(value).file_stem()?.to_str()?.to_string())
}

/// A run id is made of ASCII letters, digits, `_` and `-`.
pub open spec fn run_id_char(c: char) -> bool {
    is_ascii_alnum(c) || c == '_' || c == '-'
}

/// Every character of `s` is a run id character.
pub open spec fn all_run_id_chars(s: Seq<char>) -> bool {
    forall|i: int| 0 <= i < s.len() ==> run_id_char(#[trigger] s[i])
}

/// The run id a reference names: the file stem of the path (or the whole
/// reference when it has none), which must be non-empty and made of run id
/// characters.
pub open spec fn spec_run_id(value: Seq<char>) -> Result<Seq<char>, Seq<char>> {
    let file = match path_file_stem(value) {
        Some(f) => f,
        None => value,
    };
    if file.len() > 0 && all_run_id_chars(file) {
        Ok(file)
    } else {
        Err("invalid run id: "@ + value)
    }
}

/// The run id a reference (an id or the path of a run file) names.
pub fn normalize_run_id(value: &str) -> (r: Result<String, String>)
    ensures
        match spec_run_id(value@) {
            Ok(f) => r matches Ok(s) && s@ == f,
            Err(m) => r matches Err(e) && e@ == m,
        },
{
    let file = match file_stem(value) {
        Some(f) => f,
        None => lit(value),
    };
    let cs = chars_of(file.as_str());
    let mut m = lit("invalid run id: ");
    m.append(value);
    if cs.len() == 0 {
        return Err(m);
    }
    let mut i: usize = 0;
    while i < cs.len()
        invariant
            i <= cs.len(),
            cs@ == file@,
            cs@.len() > 0,
            file@ == match path_file_stem(value@) {
                Some(f) => f,
                None => value@,
            },
            m@ == "invalid run id: "@ + value@,
            forall|k: int| 0 <= k < i ==> run_id_char(#[trigger] cs@[k]),
        decreases cs.len() - i,
    {
        let c = cs[i];
        if !(alnum(c) || c == '_' || c == '-') {
            proof {
                let f = match path_file_stem(value@) {
                    Some(f) => f,
                    None => value@,
                };
                assert(f == file@);
                assert(!run_id_char(f[i as int]));
                assert(!all_run_id_chars(f));
            }
            return Err(m);
        }
        i = i + 1;
    }
    proof {
        assert(all_run_id_chars(cs@));
    }
    Ok(file)
}

/// The review record a proposed patch starts with (status `proposed`, one
/// `propose` decision by `system`), and the artifacts it changes (sorted,
/// each once). The patch must have exactly one operation.
pub fn proposal_review(
    patch: &PatchDocumentV1,
    parent_run_id: Option<String>,
    generated_at: u64,
) -> (r: Result<(ProjectRunReviewV1, Vec<String>), String>)
    ensures
        patch.operations@.len() != 1 ==> r is Err,
        patch.operations@.len() == 1 ==> (r matches Ok((review, refs)) && {
            let op = patch.operations@[0];
            &&& diff_summary_matches(review.diff_summary, op.artifact_id@, opt_text(op.source_path), op.old_text@, op.new_text@)
            &&& review.mode@ == "review"@
            &&& review.status@ == "proposed"@
            &&& opt_text(review.parent_run_id) == opt_text(parent_run_id)
            &&& review.base_hash@ == review.diff_summary.old_hash@
            &&& review.proposed_hash@ == review.diff_summary.new_hash@
            &&& review.decisions.len() == 1
            &&& review.decisions@[0].actor@ == "system"@
            &&& review.decisions@[0].decision@ == "propose"@
            &&& review.decisions@[0].status@ == "proposed"@
            &&& review.decisions@[0].decided_at == generated_at
            &&& texts(review.decisions@[0].artifact_refs@) == texts(refs@)
            &&& strictly_sorted(texts(refs@))
            &&& forall|x: Seq<char>| texts(refs@).contains(x) <==> x == op.artifact_id@
        }),
{
    let summary = diff_summary_from_patch(patch)?;
    let mut ids: Vec<String> = Vec::new();
    let mut i: usize = 0;
    while i < patch.operations.len()
        invariant
            i <= patch.operations.len(),
            texts(ids@) == patch.operations@.take(i as int).map_values(|o: crate::project::patch::ReplaceExactTextOperationV1| o.artifact_id@),
        decreases patch.operations.len() - i,
    {
        ids.push(lit(patch.operations[i].artifact_id.as_str()));
        proof {
            assert(patch.operations@.take(i + 1).map_values(|o: crate::project::patch::ReplaceExactTextOperationV1| o.artifact_id@)
                =~= patch.operations@.take(i as int).map_values(|o: crate::project::patch::ReplaceExactTextOperationV1| o.artifact_id@).push(
                patch.operations@[i as int].artifact_id@,
            ));
        }
        i = i + 1;
    }
    proof {
        assert(patch.operations@.take(patch.operations.len() as int) =~= patch.operations@);
        assert(texts(ids@) =~= seq![patch.operations@[0].artifact_id@]);
    }
    let ghost id = patch.operations@[0].artifact_id@;
    proof {
        assert(texts(ids@)[0] == id);
        assert(texts(ids@).contains(id));
        assert forall|x: Seq<char>| texts(ids@).contains(x) implies x == id by {
            let j = choose|j: int| 0 <= j < texts(ids@).len() && texts(ids@)[j] == x;
        }
    }
    let refs = dedupe_sorted(ids);
    let mut copies: Vec<String> = Vec::new();
    let mut k: usize = 0;
    while k < refs.len()
        invariant
            k <= refs.len(),
            texts(copies@) == texts(refs@.take(k as int)),
        decreases refs.len() - k,
    {
        copies.push(lit(refs[k].as_str()));
        proof {
            assert(texts(refs@.take(k + 1)) =~= texts(refs@.take(k as int)).push(refs@[k as int]@));
            assert(texts(copies@) =~= texts(refs@.take(k as int)).push(refs@[k as int]@));
        }
        k = k + 1;
    }
    proof {
        assert(refs@.take(refs.len() as int) =~= refs@);
    }
    let mut decisions: Vec<ProjectRunDecisionV1> = Vec::new();
    decisions.push(decision("system", "propose", "proposed", copies, generated_at));
    let base_hash = lit(summary.old_hash.as_str());
    let proposed_hash = lit(summary.new_hash.as_str());
    let review = ProjectRunReviewV1 {
        mode: lit("review"),
        status: lit("proposed"),
        parent_run_id,
        base_hash,
        proposed_hash,
        diff_summary: summary,
        decisions,
    };
    Ok((review, refs))
}

} // verus!
