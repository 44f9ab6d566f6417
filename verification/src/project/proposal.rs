//! Video clip queue proposals: how a PM's decision is applied, how the
//! changes of a proposal are laid out, and how its history is kept.

use vstd::prelude::*;
use crate::text::append_decimal;
use crate::mp4::verdict::lit;
use crate::parallel::two_digits;
use crate::project::order::{dedupe_sorted, strictly_sorted};
use crate::text::texts;
use crate::project::queue::{copy_text, copy_texts};
use crate::project::clips::{default_decision_reason, normalize_decision, spec_decision, unicode_lowercase};
use crate::project::stable::{stable_order, stable_sort, take_in_order, SortKey};
use crate::render_source::eq_lit;
use crate::text::{chars_eq, chars_of, decimal, decimal_chars, string_from_chars, trim, trim_chars};

verus! {

/// Whether two strings hold the same text.
pub fn same_text(a: &str, b: &str) -> (r: bool)
    ensures
        r == (a@ == b@),
{
    let x = chars_of(a);
    let y = chars_of(b);
    chars_eq(x.as_slice(), y.as_slice())
}

/// What a decision on a proposal does: the normalized decision, the status
/// the proposal takes, and whether the clip queue is written.
pub struct ProposalDecisionPlan {
    pub decision: &'static str,
    pub status: &'static str,
    pub queue_updated: bool,
    pub conflict: bool,
}

/// The status a decided proposal takes.
pub open spec fn spec_proposal_status(accept: bool, hashes_match: bool) -> Seq<char> {
    if accept && hashes_match {
        "accepted"@
    } else if accept {
        "conflicted"@
    } else {
        "rejected"@
    }
}

/// The error when the proposal on file is not the one decided on.
pub open spec fn id_mismatch_message(stored: Seq<char>, given: Seq<char>) -> Seq<char> {
    "proposal id mismatch: expected "@ + stored + ", got "@ + given
}

/// The error when the proposal on file has another revision than expected.
pub open spec fn revision_mismatch_message(stored: u64, expected: u64) -> Seq<char> {
    "proposal revision mismatch: expected r"@ + decimal(stored as nat) + ", got r"@ + decimal(expected as nat)
}

/// The error for a word that is neither accept nor reject.
pub open spec fn decision_error_message(decision: Seq<char>) -> Seq<char> {
    "unsupported video clip proposal decision: "@ + unicode_lowercase(trim(decision))
        + "; expected accept or reject"@
}

/// Plans a PM's decision on the proposal on file (`stored_id`, revision
/// `stored_revision`). The decision must name that proposal, and that
/// revision when one is expected. An accept writes the clip queue only
/// while the queue still has the hash the proposal was made from; otherwise
/// the proposal is marked conflicted and the queue is left alone.
pub fn plan_proposal_decision(
    stored_id: &str,
    stored_revision: u64,
    proposal_id: &str,
    expected_revision: Option<u64>,
    decision: &str,
    base_queue_hash: &str,
    current_queue_hash: &str,
) -> (r: Result<ProposalDecisionPlan, String>)
    ensures
        stored_id@ != proposal_id@ ==> (r matches Err(m) && m@ == id_mismatch_message(stored_id@, proposal_id@)),
        stored_id@ == proposal_id@ && (expected_revision matches Some(e) && e != stored_revision) ==> (
            r matches Err(m) && m@ == revision_mismatch_message(stored_revision, expected_revision->0)),
        stored_id@ == proposal_id@ && !(expected_revision matches Some(e) && e != stored_revision) ==> match spec_decision(
            unicode_lowercase(trim(decision@)),
        ) {
            None => r matches Err(m) && m@ == decision_error_message(decision@),
            Some(d) => r matches Ok(p) && {
                let accept = d == "accept"@;
                let same = base_queue_hash@ == current_queue_hash@;
                &&& p.decision@ == d
                &&& p.queue_updated == (accept && same)
                &&& p.conflict == (accept && !same)
                &&& p.status@ == spec_proposal_status(accept, same)
            },
        },
{
    if !same_text(stored_id, proposal_id) {
        let mut m = lit("proposal id mismatch: expected ");
        m.append(stored_id);
        m.append(", got ");
        m.append(proposal_id);
        return Err(m);
    }
    if let Some(expected) = expected_revision {
        if stored_revision != expected {
            let mut m = lit("proposal revision mismatch: expected r");
            let a = decimal_chars(stored_revision);
            let a_s = string_from_chars(a.as_slice());
            m.append(a_s.as_str());
            m.append(", got r");
            let b = decimal_chars(expected);
            let b_s = string_from_chars(b.as_slice());
            m.append(b_s.as_str());
            return Err(m);
        }
    }
    let normalized = match normalize_decision(decision) {
        Ok(d) => d,
        Err(m) => {
            return Err(m);
        },
    };
    let accept = same_text(normalized, "accept");
    proof {
        reveal_strlit("accept");
        reveal_strlit("reject");
    }
    let same = same_text(base_queue_hash, current_queue_hash);
    let status = if accept && same {
        "accepted"
    } else if accept {
        "conflicted"
    } else {
        "rejected"
    };
    Ok(ProposalDecisionPlan { decision: normalized, status, queue_updated: accept && same, conflict: accept && !same })
}

/// The reason recorded with a decision: the PM's words trimmed, or the
/// default reason for the decision when they are blank.
pub fn decision_reason(reason: &str, decision: &str) -> (s: String)
    ensures
        trim(reason@).len() > 0 ==> s@ == trim(reason@),
        trim(reason@).len() == 0 && decision@ == "accept"@ ==> s@ == "PM 接受 proposal diff，允许写回剪辑队列。"@,
        trim(reason@).len() == 0 && decision@ != "accept"@ ==> s@ == "PM 拒绝 proposal diff，保持原剪辑队列。"@,
{
    let cs = chars_of(reason);
    let t = trim_chars(cs.as_slice());
    if t.len() == 0 {
        default_decision_reason(decision)
    } else {
        string_from_chars(t.as_slice())
    }
}

/// The decision recorded on a proposal.
#[derive(Debug, Clone)]
pub struct ProjectVideoClipProposalDecisionV1 {
    pub decision: String,
    pub reason: String,
    pub decided_at: u64,
    pub queue_updated: bool,
}

/// The record of a planned decision made at `decided_at`, with the PM's
/// reason (or the default one).
pub fn decision_record(plan: &ProposalDecisionPlan, reason: &str, decided_at: u64) -> (d: ProjectVideoClipProposalDecisionV1)
    ensures
        d.decision@ == plan.decision@,
        trim(reason@).len() > 0 ==> d.reason@ == trim(reason@),
        trim(reason@).len() == 0 && plan.decision@ == "accept"@ ==> d.reason@ == "PM 接受 proposal diff，允许写回剪辑队列。"@,
        trim(reason@).len() == 0 && plan.decision@ != "accept"@ ==> d.reason@ == "PM 拒绝 proposal diff，保持原剪辑队列。"@,
        d.decided_at == decided_at,
        d.queue_updated == plan.queue_updated,
{
    ProjectVideoClipProposalDecisionV1 {
        decision: lit(plan.decision),
        reason: decision_reason(reason, plan.decision),
        decided_at,
        queue_updated: plan.queue_updated,
    }
}

/// Why an accepted proposal was not applied.
#[derive(Debug, Clone)]
pub struct ProjectVideoClipProposalConflictV1 {
    pub conflict_type: String,
    pub message_zh: String,
    pub base_queue_hash: String,
    pub current_queue_hash: String,
    pub detected_at: u64,
}

/// The conflict recorded when the queue changed after the proposal was
/// made: both hashes, and when it was found.
pub fn queue_changed_conflict(base_queue_hash: &str, current_queue_hash: &str, detected_at: u64) -> (c: ProjectVideoClipProposalConflictV1)
    ensures
        c.conflict_type@ == "queue_changed_since_proposal"@,
        c.message_zh@ == "该 proposal 已过期：当前剪辑 queue 与生成提案时的 base_queue_hash 不一致，请重新生成 proposal。"@,
        c.base_queue_hash@ == base_queue_hash@,
        c.current_queue_hash@ == current_queue_hash@,
        c.detected_at == detected_at,
{
    ProjectVideoClipProposalConflictV1 {
        conflict_type: lit("queue_changed_since_proposal"),
        message_zh: lit("该 proposal 已过期：当前剪辑 queue 与生成提案时的 base_queue_hash 不一致，请重新生成 proposal。"),
        base_queue_hash: lit(base_queue_hash),
        current_queue_hash: lit(current_queue_hash),
        detected_at,
    }
}

/// The apply status of one change once the proposal is decided.
pub open spec fn spec_apply_status(queue_updated: bool, applicable: bool, accept: bool) -> Seq<char> {
    if queue_updated && applicable {
        "applied"@
    } else if queue_updated {
        "not_applicable"@
    } else if accept {
        "conflicted"@
    } else {
        "rejected"@
    }
}

/// The apply status of one change: applied when the queue was written and
/// the change has an item to write, and otherwise why it was not.
pub fn change_apply_status(queue_updated: bool, applicable: bool, accept: bool) -> (s: &'static str)
    ensures
        s@ == spec_apply_status(queue_updated, applicable, accept),
{
    if queue_updated && applicable {
        "applied"
    } else if queue_updated {
        "not_applicable"
    } else if accept {
        "conflicted"
    } else {
        "rejected"
    }
}

/// The apply status of each change of a decided proposal, from whether each
/// change is applicable.
pub fn change_apply_statuses(applicable: &[bool], plan: &ProposalDecisionPlan) -> (v: Vec<&'static str>)
    ensures
        v.len() == applicable.len(),
        forall|i: int|
            0 <= i < v.len() ==> (#[trigger] v[i])@ == spec_apply_status(
                plan.queue_updated,
                applicable[i],
                plan.decision@ == "accept"@,
            ),
{
    let accept = same_text(plan.decision, "accept");
    let mut v: Vec<&'static str> = Vec::new();
    let mut i: usize = 0;
    while i < applicable.len()
        invariant
            i <= applicable.len(),
            v.len() == i,
            accept == (plan.decision@ == "accept"@),
            forall|k: int|
                0 <= k < i ==> (#[trigger] v[k])@ == spec_apply_status(plan.queue_updated, applicable[k], accept),
        decreases applicable.len() - i,
    {
        let s = change_apply_status(plan.queue_updated, applicable[i], accept);
        v.push(s);
        i = i + 1;
    }
    v
}

/// No change is marked applied unless the decision was an accept that found
/// the queue unchanged since the proposal was made.
pub proof fn lemma_applied_only_when_queue_written(accept: bool, hashes_match: bool, applicable: bool)
    ensures
        spec_apply_status(accept && hashes_match, applicable, accept) == "applied"@ ==> accept && hashes_match
            && applicable,
        spec_proposal_status(accept, hashes_match) == "accepted"@ <==> accept && hashes_match,
{
    reveal_strlit("applied");
    reveal_strlit("not_applicable");
    reveal_strlit("conflicted");
    reveal_strlit("rejected");
    reveal_strlit("accepted");
    assert("applied"@[0] != "not_applicable"@[0]);
    assert("applied"@[0] != "conflicted"@[0]);
    assert("applied"@[0] != "rejected"@[0]);
    assert("accepted"@[0] != "conflicted"@[0]);
    assert("accepted"@[0] != "rejected"@[0]);
}

/// The action a change takes: `replace` when the clip was not in the queue,
/// `keep` when it stays where it was, `deprioritize` when feedback moved it
/// out of the opening, `reorder` otherwise.
pub open spec fn spec_change_action(before_sequence: Option<u64>, after_sequence: u64, effect: Option<Seq<char>>) -> Seq<char> {
    match before_sequence {
        None => "replace"@,
        Some(b) => if b == after_sequence {
            "keep"@
        } else if after_sequence > b && effect == Some("deprioritize_opening"@) {
            "deprioritize"@
        } else {
            "reorder"@
        },
    }
}

pub open spec fn opt_text(o: Option<&str>) -> Option<Seq<char>> {
    match o {
        Some(s) => Some(s@),
        None => None,
    }
}

/// The action of the change that puts a clip at `after_sequence`.
pub fn change_action(before_sequence: Option<u64>, after_sequence: u64, feedback_effect: Option<&str>) -> (s: &'static str)
    ensures
        s@ == spec_change_action(before_sequence, after_sequence, opt_text(feedback_effect)),
{
    match before_sequence {
        None => "replace",
        Some(b) => {
            if b == after_sequence {
                "keep"
            } else if after_sequence > b && match feedback_effect {
                Some(e) => same_text(e, "deprioritize_opening"),
                None => false,
            } {
                "deprioritize"
            } else {
                "reorder"
            }
        },
    }
}

/// The default reason of a change with the given action.
pub open spec fn action_reason(action: Seq<char>) -> Seq<char> {
    if action == "keep"@ {
        "保留当前片段，队列位置不变。"@
    } else if action == "deprioritize"@ {
        "根据反馈降低该片段在开场位置的优先级。"@
    } else if action == "replace"@ {
        "用更匹配当前反馈和语义的片段替换该位置。"@
    } else if action == "reorder"@ {
        "根据反馈和语义理由调整该片段的队列位置。"@
    } else {
        "根据本地 deterministic planner 调整。"@
    }
}

/// The reason shown for a change: the feedback's reason, else the semantic
/// reason, else the suggestion's own reason when it is not blank, else the
/// default reason of the action.
pub open spec fn spec_reason_summary(
    action: Seq<char>,
    feedback_reason: Option<Seq<char>>,
    semantic_reason: Option<Seq<char>>,
    suggestion_reason: Option<Seq<char>>,
) -> Seq<char> {
    match feedback_reason {
        Some(f) => f,
        None => match semantic_reason {
            Some(r) => r,
            None => match suggestion_reason {
                Some(r) if trim(r).len() > 0 => r,
                _ => action_reason(action),
            },
        },
    }
}

/// The reason shown for a change (the reasons come from the suggestion the
/// change follows, when there is one).
pub fn reason_summary(
    action: &str,
    feedback_reason: Option<&str>,
    semantic_reason: Option<&str>,
    suggestion_reason: Option<&str>,
) -> (s: String)
    ensures
        s@ == spec_reason_summary(action@, opt_text(feedback_reason), opt_text(semantic_reason), opt_text(suggestion_reason)),
{
    if let Some(f) = feedback_reason {
        return lit(f);
    }
    if let Some(r) = semantic_reason {
        return lit(r);
    }
    if let Some(r) = suggestion_reason {
        let cs = chars_of(r);
        let t = trim_chars(cs.as_slice());
        if t.len() > 0 {
            return lit(r);
        }
    }
    let a = chars_of(action);
    let a = a.as_slice();
    if eq_lit(a, "keep") {
        lit("保留当前片段，队列位置不变。")
    } else if eq_lit(a, "deprioritize") {
        lit("根据反馈降低该片段在开场位置的优先级。")
    } else if eq_lit(a, "replace") {
        lit("用更匹配当前反馈和语义的片段替换该位置。")
    } else if eq_lit(a, "reorder") {
        lit("根据反馈和语义理由调整该片段的队列位置。")
    } else {
        lit("根据本地 deterministic planner 调整。")
    }
}

/// How many of `actions` are `a`.
pub open spec fn count_action(actions: Seq<Seq<char>>, a: Seq<char>) -> nat
    decreases actions.len(),
{
    if actions.len() == 0 {
        0
    } else {
        count_action(actions.drop_last(), a) + if actions.last() == a {
            1nat
        } else {
            0nat
        }
    }
}

/// The rationale of a proposal, counting its changes by action.
pub open spec fn spec_rationale(actions: Seq<Seq<char>>) -> Seq<char> {
    "本地 proposal diff 基于当前 queue、片段语义和 PM 反馈生成：保留 "@ + decimal(count_action(actions, "keep"@))
        + " 条、降权 "@ + decimal(count_action(actions, "deprioritize"@)) + " 条、重排 "@ + decimal(
        count_action(actions, "reorder"@),
    ) + " 条、替换 "@ + decimal(count_action(actions, "replace"@)) + " 条。等待 PM 明确接受或拒绝。"@
}

/// The rationale text of a proposal with changes of the given actions.
pub fn proposal_rationale(actions: &[String]) -> (s: String)
    ensures
        s@ == spec_rationale(texts(actions@)),
{
    let ghost all = texts(actions@);
    let mut keep: usize = 0;
    let mut depr: usize = 0;
    let mut reorder: usize = 0;
    let mut replace: usize = 0;
    let mut i: usize = 0;
    while i < actions.len()
        invariant
            i <= actions.len(),
            all == texts(actions@),
            keep as nat == count_action(all.take(i as int), "keep"@),
            depr as nat == count_action(all.take(i as int), "deprioritize"@),
            reorder as nat == count_action(all.take(i as int), "reorder"@),
            replace as nat == count_action(all.take(i as int), "replace"@),
            keep <= i,
            depr <= i,
            reorder <= i,
            replace <= i,
        decreases actions.len() - i,
    {
        proof {
            assert(all.take(i + 1).drop_last() =~= all.take(i as int));
            assert(all.take(i + 1).last() == actions@[i as int]@);
        }
        let a = chars_of(actions[i].as_str());
        let a = a.as_slice();
        if eq_lit(a, "keep") {
            keep = keep + 1;
        }
        if eq_lit(a, "deprioritize") {
            depr = depr + 1;
        }
        if eq_lit(a, "reorder") {
            reorder = reorder + 1;
        }
        if eq_lit(a, "replace") {
            replace = replace + 1;
        }
        i = i + 1;
    }
    proof {
        assert(all.take(actions.len() as int) =~= all);
    }
    let mut s = lit("本地 proposal diff 基于当前 queue、片段语义和 PM 反馈生成：保留 ");
    append_decimal(&mut s, keep as u64);
    s.append(" 条、降权 ");
    append_decimal(&mut s, depr as u64);
    s.append(" 条、重排 ");
    append_decimal(&mut s, reorder as u64);
    s.append(" 条、替换 ");
    append_decimal(&mut s, replace as u64);
    s.append(" 条。等待 PM 明确接受或拒绝。");
    s
}

/// The id of the `index`-th change of a proposal: `<proposal>-change-NN`.
pub fn change_id(proposal_id: &str, index: usize) -> (s: String)
    ensures
        s@ == proposal_id@ + "-change-"@ + two_digits(index as nat),
{
    let mut s = lit(proposal_id);
    s.append("-change-");
    if index < 10 {
        s.append("0");
        proof {
            reveal_strlit("0");
            assert("0"@ =~= seq!['0']);
        }
    }
    append_decimal(&mut s, index as u64);
    proof {
        if index < 10 {
            assert(s@ =~= proposal_id@ + "-change-"@ + (seq!['0'] + decimal(index as nat)));
        }
    }
    s
}

/// The scene shown for a change: the queue item's scene when it is not
/// blank, else the suggestion's scene, else `片段`.
pub open spec fn spec_change_scene(item_scene: Option<Seq<char>>, suggestion_scene: Option<Seq<char>>) -> Seq<char> {
    match item_scene {
        Some(s) if trim(s).len() > 0 => s,
        _ => match suggestion_scene {
            Some(s) => s,
            None => "片段"@,
        },
    }
}

/// The scene shown for a change.
pub fn change_scene(item_scene: Option<&str>, suggestion_scene: Option<&str>) -> (s: String)
    ensures
        s@ == spec_change_scene(opt_text(item_scene), opt_text(suggestion_scene)),
{
    if let Some(sc) = item_scene {
        let cs = chars_of(sc);
        let t = trim_chars(cs.as_slice());
        if t.len() > 0 {
            return lit(sc);
        }
    }
    match suggestion_scene {
        Some(sc) => lit(sc),
        None => lit("片段"),
    }
}

/// The clip id a suggested item gets in the queue: its own, or `source`
/// when it is blank.
pub fn queue_clip_id(clip_id: &str) -> (s: String)
    ensures
        trim(clip_id@).len() == 0 ==> s@ == "source"@,
        trim(clip_id@).len() > 0 ==> s@ == clip_id@,
{
    let cs = chars_of(clip_id);
    let t = trim_chars(cs.as_slice());
    if t.len() == 0 {
        lit("source")
    } else {
        lit(clip_id)
    }
}

/// A suggestion's reason as the queue keeps it: unchanged, or none when it
/// is blank.
pub fn kept_reason(reason: &str) -> (r: Option<String>)
    ensures
        trim(reason@).len() == 0 ==> r is None,
        trim(reason@).len() > 0 ==> (r matches Some(s) && s@ == reason@),
{
    let cs = chars_of(reason);
    let t = trim_chars(cs.as_slice());
    if t.len() == 0 {
        None
    } else {
        Some(lit(reason))
    }
}

/// What the change planner reads of a queue item: its clip key and its
/// place in the queue.
pub struct ClipSlot {
    pub key: String,
    pub sequence: u64,
}

/// What the change planner reads of a suggestion: its clip key and the
/// effect of the feedback it follows, if any.
pub struct SuggestionSlot {
    pub key: String,
    pub feedback_effect: Option<String>,
}

/// One change of a proposal, by the positions of the items it refers to:
/// `exact_before` in the old queue with the same clip key, `display_before`
/// the old item shown beside it, `after` in the new queue, `suggestion` in
/// the suggestions.
pub struct ChangePlan {
    pub index: usize,
    pub action: &'static str,
    pub exact_before: Option<usize>,
    pub display_before: Option<usize>,
    pub after: Option<usize>,
    pub suggestion: Option<usize>,
}

pub open spec fn slot_keys(v: Seq<ClipSlot>) -> Seq<Seq<char>> {
    v.map_values(|c: ClipSlot| c.key@)
}

pub open spec fn slot_sequences(v: Seq<ClipSlot>) -> Seq<u64> {
    v.map_values(|c: ClipSlot| c.sequence)
}

pub open spec fn suggestion_keys(v: Seq<SuggestionSlot>) -> Seq<Seq<char>> {
    v.map_values(|c: SuggestionSlot| c.key@)
}

pub open spec fn as_int(o: Option<usize>) -> Option<int> {
    match o {
        Some(i) => Some(i as int),
        None => None,
    }
}

/// The last of the first `n` positions whose key is `k` (a map collected
/// from the list keeps the last entry of each key).
pub open spec fn last_key(keys: Seq<Seq<char>>, k: Seq<char>, n: int) -> Option<int>
    decreases n,
{
    if n <= 0 {
        None
    } else if keys[n - 1] == k {
        Some(n - 1)
    } else {
        last_key(keys, k, n - 1)
    }
}

/// The last of the first `n` positions whose sequence number is `s`.
pub open spec fn last_sequence(seqs: Seq<u64>, s: u64, n: int) -> Option<int>
    decreases n,
{
    if n <= 0 {
        None
    } else if seqs[n - 1] == s {
        Some(n - 1)
    } else {
        last_sequence(seqs, s, n - 1)
    }
}

/// The first of the first `n` positions whose key is `k`.
pub open spec fn first_key(keys: Seq<Seq<char>>, k: Seq<char>, n: int) -> Option<int>
    decreases n,
{
    if n <= 0 {
        None
    } else {
        match first_key(keys, k, n - 1) {
            Some(j) => Some(j),
            None => if keys[n - 1] == k {
                Some(n - 1)
            } else {
                None
            },
        }
    }
}

/// The positions among the first `n` of the old queue whose clip is not in
/// the new queue, in order.
pub open spec fn dropped(before_keys: Seq<Seq<char>>, after_keys: Seq<Seq<char>>, n: int) -> Seq<int>
    decreases n,
{
    if n <= 0 {
        seq![]
    } else if after_keys.contains(before_keys[n - 1]) {
        dropped(before_keys, after_keys, n - 1)
    } else {
        dropped(before_keys, after_keys, n - 1).push(n - 1)
    }
}

pub open spec fn opt_string(o: Option<String>) -> Option<Seq<char>> {
    match o {
        Some(s) => Some(s@),
        None => None,
    }
}

/// The action of the change that places new item `i`.
pub open spec fn placed_action(before: Seq<ClipSlot>, after: Seq<ClipSlot>, sugg: Seq<SuggestionSlot>, i: int) -> Seq<char> {
    let exact = last_key(slot_keys(before), after[i].key@, before.len() as int);
    let s = last_key(suggestion_keys(sugg), after[i].key@, sugg.len() as int);
    spec_change_action(
        match exact {
            Some(j) => Some(before[j].sequence),
            None => None,
        },
        after[i].sequence,
        match s {
            Some(k) => opt_string(sugg[k].feedback_effect),
            None => None,
        },
    )
}

fn last_slot_with_key(slots: &[ClipSlot], key: &str) -> (r: Option<usize>)
    ensures
        as_int(r) == last_key(slot_keys(slots@), key@, slots@.len() as int),
        r matches Some(j) ==> j < slots.len(),
{
    let mut i: usize = slots.len();
    while i > 0
        invariant
            i <= slots.len(),
            last_key(slot_keys(slots@), key@, slots@.len() as int) == last_key(slot_keys(slots@), key@, i as int),
        decreases i,
    {
        if same_text(slots[i - 1].key.as_str(), key) {
            return Some(i - 1);
        }
        i = i - 1;
    }
    None
}

fn first_slot_with_key(slots: &[ClipSlot], key: &str) -> (r: Option<usize>)
    ensures
        as_int(r) == first_key(slot_keys(slots@), key@, slots@.len() as int),
        r matches Some(j) ==> j < slots.len(),
{
    let mut i: usize = 0;
    while i < slots.len()
        invariant
            i <= slots.len(),
            first_key(slot_keys(slots@), key@, i as int) is None,
        decreases slots.len() - i,
    {
        if same_text(slots[i].key.as_str(), key) {
            proof {
                assert(first_key(slot_keys(slots@), key@, i + 1) == Some(i as int));
                lemma_first_key_stable(slot_keys(slots@), key@, i + 1, slots@.len() as int);
            }
            return Some(i);
        }
        i = i + 1;
    }
    None
}

proof fn lemma_first_key_stable(keys: Seq<Seq<char>>, k: Seq<char>, m: int, n: int)
    requires
        0 <= m <= n,
        first_key(keys, k, m) is Some,
    ensures
        first_key(keys, k, n) == first_key(keys, k, m),
    decreases n - m,
{
    if n > m {
        lemma_first_key_stable(keys, k, m, n - 1);
    }
}

fn last_slot_with_sequence(slots: &[ClipSlot], sequence: u64) -> (r: Option<usize>)
    ensures
        as_int(r) == last_sequence(slot_sequences(slots@), sequence, slots@.len() as int),
        r matches Some(j) ==> j < slots.len(),
{
    let mut i: usize = slots.len();
    while i > 0
        invariant
            i <= slots.len(),
            last_sequence(slot_sequences(slots@), sequence, slots@.len() as int) == last_sequence(
                slot_sequences(slots@),
                sequence,
                i as int,
            ),
        decreases i,
    {
        if slots[i - 1].sequence == sequence {
            return Some(i - 1);
        }
        i = i - 1;
    }
    None
}

fn last_suggestion_with_key(slots: &[SuggestionSlot], key: &str) -> (r: Option<usize>)
    ensures
        as_int(r) == last_key(suggestion_keys(slots@), key@, slots@.len() as int),
        r matches Some(j) ==> j < slots.len(),
{
    let mut i: usize = slots.len();
    while i > 0
        invariant
            i <= slots.len(),
            last_key(suggestion_keys(slots@), key@, slots@.len() as int) == last_key(
                suggestion_keys(slots@),
                key@,
                i as int,
            ),
        decreases i,
    {
        if same_text(slots[i - 1].key.as_str(), key) {
            return Some(i - 1);
        }
        i = i - 1;
    }
    None
}

/// The position in the old queue of the first item with the clip key of a
/// suggested item: a suggested clip that was queued keeps its queue id.
pub fn queued_position(before: &[ClipSlot], key: &str) -> (r: Option<usize>)
    ensures
        as_int(r) == first_key(slot_keys(before@), key@, before@.len() as int),
{
    first_slot_with_key(before, key)
}

fn has_key(slots: &[ClipSlot], key: &str) -> (r: bool)
    ensures
        r == slot_keys(slots@).contains(key@),
{
    let mut i: usize = 0;
    while i < slots.len()
        invariant
            i <= slots.len(),
            forall|k: int| 0 <= k < i ==> slot_keys(slots@)[k] != key@,
        decreases slots.len() - i,
    {
        if same_text(slots[i].key.as_str(), key) {
            proof {
                assert(slot_keys(slots@)[i as int] == key@);
            }
            return true;
        }
        i = i + 1;
    }
    false
}

proof fn lemma_dropped_bounds(bk: Seq<Seq<char>>, ak: Seq<Seq<char>>, n: int)
    requires
        n >= 0,
    ensures
        dropped(bk, ak, n).len() <= n,
        forall|m: int| 0 <= m < dropped(bk, ak, n).len() ==> 0 <= #[trigger] dropped(bk, ak, n)[m] < n,
    decreases n,
{
    if n > 0 {
        lemma_dropped_bounds(bk, ak, n - 1);
    }
}

/// Lays out the changes of a proposal that turns the queue `before` into
/// `after`: one change per new item, in order, then a `replace` for each
/// old item whose clip left the queue. Changes are numbered from 1.
pub fn plan_changes(before: &[ClipSlot], after: &[ClipSlot], suggestions: &[SuggestionSlot]) -> (r: Vec<ChangePlan>)
    requires
        before.len() + after.len() < usize::MAX,
    ensures
        ({
            let bk = slot_keys(before@);
            let ak = slot_keys(after@);
            let gone = dropped(bk, ak, before@.len() as int);
            &&& r.len() == after.len() + gone.len()
            &&& forall|i: int|
                0 <= i < after.len() ==> {
                    let c = #[trigger] r[i];
                    let exact = last_key(bk, ak[i], before@.len() as int);
                    &&& c.index == i + 1
                    &&& c.after == Some(i as usize)
                    &&& as_int(c.exact_before) == exact
                    &&& as_int(c.suggestion) == last_key(suggestion_keys(suggestions@), ak[i], suggestions@.len() as int)
                    &&& as_int(c.display_before) == match exact {
                        Some(j) => Some(j),
                        None => last_sequence(slot_sequences(before@), after@[i].sequence, before@.len() as int),
                    }
                    &&& c.action@ == placed_action(before@, after@, suggestions@, i)
                }
            &&& forall|m: int|
                0 <= m < gone.len() ==> {
                    let c = #[trigger] r[after.len() + m];
                    &&& c.index == after.len() + m + 1
                    &&& c.action@ == "replace"@
                    &&& as_int(c.exact_before) == Some(gone[m])
                    &&& as_int(c.display_before) == Some(gone[m])
                    &&& c.after is None
                    &&& c.suggestion is None
                }
        }),
{
    let ghost bk = slot_keys(before@);
    let ghost ak = slot_keys(after@);
    let mut r: Vec<ChangePlan> = Vec::new();
    let mut i: usize = 0;
    while i < after.len()
        invariant
            i <= after.len(),
            before.len() + after.len() < usize::MAX,
            bk == slot_keys(before@),
            ak == slot_keys(after@),
            r.len() == i,
            forall|k: int|
                0 <= k < i ==> {
                    let c = #[trigger] r[k];
                    let exact = last_key(bk, ak[k], before@.len() as int);
                    &&& c.index == k + 1
                    &&& c.after == Some(k as usize)
                    &&& as_int(c.exact_before) == exact
                    &&& as_int(c.suggestion) == last_key(suggestion_keys(suggestions@), ak[k], suggestions@.len() as int)
                    &&& as_int(c.display_before) == match exact {
                        Some(j) => Some(j),
                        None => last_sequence(slot_sequences(before@), after@[k].sequence, before@.len() as int),
                    }
                    &&& c.action@ == placed_action(before@, after@, suggestions@, k)
                },
        decreases after.len() - i,
    {
        let key = after[i].key.as_str();
        let exact = last_slot_with_key(before, key);
        let sugg = last_suggestion_with_key(suggestions, key);
        let display = match exact {
            Some(j) => Some(j),
            None => last_slot_with_sequence(before, after[i].sequence),
        };
        let before_sequence = match exact {
            Some(j) => Some(before[j].sequence),
            None => None,
        };
        let effect: Option<&str> = match sugg {
            Some(k) => match &suggestions[k].feedback_effect {
                Some(e) => Some(e.as_str()),
                None => None,
            },
            None => None,
        };
        let action = change_action(before_sequence, after[i].sequence, effect);
        proof {
            assert(ak[i as int] == after@[i as int].key@);
            assert(action@ == placed_action(before@, after@, suggestions@, i as int));
        }
        r.push(ChangePlan { index: i + 1, action, exact_before: exact, display_before: display, after: Some(i), suggestion: sugg });
        i = i + 1;
    }
    let mut j: usize = 0;
    while j < before.len()
        invariant
            j <= before.len(),
            before.len() + after.len() < usize::MAX,
            bk == slot_keys(before@),
            ak == slot_keys(after@),
            r.len() == after.len() + dropped(bk, ak, j as int).len(),
            dropped(bk, ak, j as int).len() <= j,
            forall|k: int|
                0 <= k < after.len() ==> {
                    let c = #[trigger] r[k];
                    let exact = last_key(bk, ak[k], before@.len() as int);
                    &&& c.index == k + 1
                    &&& c.after == Some(k as usize)
                    &&& as_int(c.exact_before) == exact
                    &&& as_int(c.suggestion) == last_key(suggestion_keys(suggestions@), ak[k], suggestions@.len() as int)
                    &&& as_int(c.display_before) == match exact {
                        Some(j) => Some(j),
                        None => last_sequence(slot_sequences(before@), after@[k].sequence, before@.len() as int),
                    }
                    &&& c.action@ == placed_action(before@, after@, suggestions@, k)
                },
            forall|m: int|
                0 <= m < dropped(bk, ak, j as int).len() ==> {
                    let c = #[trigger] r[after.len() + m];
                    &&& c.index == after.len() + m + 1
                    &&& c.action@ == "replace"@
                    &&& as_int(c.exact_before) == Some(dropped(bk, ak, j as int)[m])
                    &&& as_int(c.display_before) == Some(dropped(bk, ak, j as int)[m])
                    &&& c.after is None
                    &&& c.suggestion is None
                },
        decreases before.len() - j,
    {
        let ghost old_r = r@;
        proof {
            lemma_dropped_bounds(bk, ak, j as int);
            assert(bk[j as int] == before@[j as int].key@);
        }
        if !has_key(after, before[j].key.as_str()) {
            let n = r.len();
            r.push(ChangePlan {
                index: n + 1,
                action: "replace",
                exact_before: Some(j),
                display_before: Some(j),
                after: None,
                suggestion: None,
            });
            proof {
                reveal_strlit("replace");
                let g = dropped(bk, ak, j + 1);
                assert(g == dropped(bk, ak, j as int).push(j as int));
                assert forall|m: int| 0 <= m < g.len() implies {
                    let c = #[trigger] r[after.len() + m];
                    &&& c.index == after.len() + m + 1
                    &&& c.action@ == "replace"@
                    &&& as_int(c.exact_before) == Some(g[m])
                    &&& as_int(c.display_before) == Some(g[m])
                    &&& c.after is None
                    &&& c.suggestion is None
                } by {
                    if m < g.len() - 1 {
                        assert(r[after.len() + m] == old_r[after.len() + m]);
                    }
                }
                assert forall|k: int| 0 <= k < after.len() implies #[trigger] r[k] == old_r[k] by {}
            }
        } else {
            proof {
                assert(dropped(bk, ak, j + 1) == dropped(bk, ak, j as int));
            }
        }
        j = j + 1;
    }
    r
}

/// The highest of `revs`, or 0 when there are none.
pub open spec fn max_revision(revs: Seq<u64>) -> u64
    decreases revs.len(),
{
    if revs.len() == 0 {
        0
    } else {
        let m = max_revision(revs.drop_last());
        if revs.last() > m {
            revs.last()
        } else {
            m
        }
    }
}

proof fn lemma_max_revision(revs: Seq<u64>)
    ensures
        forall|i: int| 0 <= i < revs.len() ==> #[trigger] revs[i] <= max_revision(revs),
    decreases revs.len(),
{
    if revs.len() > 0 {
        lemma_max_revision(revs.drop_last());
        assert forall|i: int| 0 <= i < revs.len() implies #[trigger] revs[i] <= max_revision(revs) by {
            if i < revs.len() - 1 {
                assert(revs[i] == revs.drop_last()[i]);
            }
        }
    }
}

/// The revision of the next proposal: one above the current proposal's and
/// every revision in the history, saturating at `u64::MAX`.
pub open spec fn spec_next_revision(current: u64, history: Seq<u64>) -> u64 {
    let m = if current >= max_revision(history) {
        current
    } else {
        max_revision(history)
    };
    if m == u64::MAX {
        u64::MAX
    } else {
        (m + 1) as u64
    }
}

/// The revision of the next proposal. It is above every revision seen so
/// far, unless one of them is already `u64::MAX`.
pub fn next_proposal_revision(current: u64, history: &[u64]) -> (r: u64)
    ensures
        r == spec_next_revision(current, history@),
        r >= 1,
        r != u64::MAX ==> current < r && forall|i: int| 0 <= i < history.len() ==> #[trigger] history[i] < r,
{
    let mut m: u64 = 0;
    let mut i: usize = 0;
    while i < history.len()
        invariant
            i <= history.len(),
            m == max_revision(history@.take(i as int)),
        decreases history.len() - i,
    {
        proof {
            assert(history@.take(i + 1).drop_last() =~= history@.take(i as int));
        }
        if history[i] > m {
            m = history[i];
        }
        i = i + 1;
    }
    proof {
        assert(history@.take(history.len() as int) =~= history@);
        lemma_max_revision(history@);
    }
    let top = if current >= m {
        current
    } else {
        m
    };
    top.saturating_add(1)
}

/// A proposal history entry: the keys it is found and ordered by, and the
/// rest of the entry, which the history carries along.
pub struct HistoryEntry<T> {
    pub proposal_id: String,
    pub revision: u64,
    pub generated_at: u64,
    pub body: T,
}

/// The order of history entries: by generation time, then revision.
pub open spec fn pair_lt(a: (u64, u64), b: (u64, u64)) -> bool {
    a.0 < b.0 || (a.0 == b.0 && a.1 < b.1)
}

impl<T> SortKey for HistoryEntry<T> {
    open spec fn precedes(&self, other: &Self) -> bool {
        pair_lt((self.generated_at, self.revision), (other.generated_at, other.revision))
    }

    proof fn lemma_irreflexive(a: &Self) {
    }

    proof fn lemma_transitive(a: &Self, b: &Self, c: &Self) {
    }

    proof fn lemma_not_after_transitive(a: &Self, b: &Self, c: &Self) {
    }

    fn sorts_before(&self, other: &Self) -> (r: bool) {
        self.generated_at < other.generated_at || (self.generated_at == other.generated_at && self.revision
            < other.revision)
    }
}

/// Sorts history entries by generation time, then revision, keeping the
/// order of entries with equal keys.
pub fn sort_history<T>(list: Vec<HistoryEntry<T>>) -> (r: Vec<HistoryEntry<T>>)
    ensures
        r@ == take_in_order(list@, stable_order(list@, list@.len())),
        r.len() == list.len(),
        forall|k: int, l: int|
            0 <= k < l < r.len() ==> !pair_lt(
                (#[trigger] r@[l].generated_at, r@[l].revision),
                (#[trigger] r@[k].generated_at, r@[k].revision),
            ),
{
    let r = stable_sort(list);
    assert forall|k: int, l: int| 0 <= k < l < r.len() implies !pair_lt(
        (#[trigger] r@[l].generated_at, r@[l].revision),
        (#[trigger] r@[k].generated_at, r@[k].revision),
    ) by {
        assert(!r@[l].precedes(&r@[k]));
    }
    r
}

/// The position of the entry with the given proposal id and revision.
pub open spec fn entry_position<T>(v: Seq<HistoryEntry<T>>, proposal_id: Seq<char>, revision: u64, n: int) -> Option<int>
    decreases n,
{
    if n <= 0 {
        None
    } else {
        match entry_position(v, proposal_id, revision, n - 1) {
            Some(j) => Some(j),
            None => if v[n - 1].proposal_id@ == proposal_id && v[n - 1].revision == revision {
                Some(n - 1)
            } else {
                None
            },
        }
    }
}

proof fn lemma_entry_position_stable<T>(v: Seq<HistoryEntry<T>>, id: Seq<char>, rev: u64, m: int, n: int)
    requires
        0 <= m <= n,
        entry_position(v, id, rev, m) is Some,
    ensures
        entry_position(v, id, rev, n) == entry_position(v, id, rev, m),
    decreases n - m,
{
    if n > m {
        lemma_entry_position_stable(v, id, rev, m, n - 1);
    }
}

proof fn lemma_entry_position_bound<T>(v: Seq<HistoryEntry<T>>, id: Seq<char>, rev: u64, n: int)
    ensures
        entry_position(v, id, rev, n) matches Some(j) ==> 0 <= j < n,
    decreases n,
{
    if n > 0 {
        lemma_entry_position_bound(v, id, rev, n - 1);
    }
}

fn find_entry<T>(list: &Vec<HistoryEntry<T>>, proposal_id: &str, revision: u64) -> (r: Option<usize>)
    ensures
        as_int(r) == entry_position(list@, proposal_id@, revision, list@.len() as int),
{
    let mut i: usize = 0;
    while i < list.len()
        invariant
            i <= list.len(),
            entry_position(list@, proposal_id@, revision, i as int) is None,
        decreases list.len() - i,
    {
        if list[i].revision == revision && same_text(list[i].proposal_id.as_str(), proposal_id) {
            proof {
                assert(entry_position(list@, proposal_id@, revision, i + 1) == Some(i as int));
                lemma_entry_position_stable(list@, proposal_id@, revision, i + 1, list@.len() as int);
            }
            return Some(i);
        }
        i = i + 1;
    }
    None
}

/// The history list once `entry` is recorded: it replaces the first entry
/// with its proposal id and revision, or is added at the end.
pub open spec fn upserted<T>(v: Seq<HistoryEntry<T>>, entry: HistoryEntry<T>) -> Seq<HistoryEntry<T>> {
    match entry_position(v, entry.proposal_id@, entry.revision, v.len() as int) {
        Some(j) => v.update(j, entry),
        None => v.push(entry),
    }
}

/// Records a proposal in its history: the entry replaces the one with the
/// same proposal id and revision, or joins the history, which is then
/// ordered by generation time and revision, ties kept in place.
pub fn upsert_history<T>(entries: Vec<HistoryEntry<T>>, entry: HistoryEntry<T>) -> (r: Vec<HistoryEntry<T>>)
    ensures
        ({
            let list = upserted(entries@, entry);
            r@ == take_in_order(list, stable_order(list, list.len()))
        }),
        entry_position(entries@, entry.proposal_id@, entry.revision, entries@.len() as int) is Some ==> r.len()
            == entries.len(),
        entry_position(entries@, entry.proposal_id@, entry.revision, entries@.len() as int) is None ==> r.len()
            == entries.len() + 1,
        forall|k: int, l: int|
            0 <= k < l < r.len() ==> !pair_lt(
                (#[trigger] r@[l].generated_at, r@[l].revision),
                (#[trigger] r@[k].generated_at, r@[k].revision),
            ),
{
    let ghost e0 = entries@;
    let mut list = entries;
    let found = find_entry(&list, entry.proposal_id.as_str(), entry.revision);
    proof {
        lemma_entry_position_bound(e0, entry.proposal_id@, entry.revision, e0.len() as int);
    }
    let ghost list1 = upserted(e0, entry);
    match found {
        Some(j) => {
            let _old = list.remove(j);
            list.insert(j, entry);
            proof {
                assert(list@ =~= list1);
            }
        },
        None => {
            list.push(entry);
        },
    }
    sort_history(list)
}

/// `value`, or `fallback` when `value` is blank.
pub fn text_or(value: &str, fallback: &str) -> (s: String)
    ensures
        trim(value@).len() == 0 ==> s@ == fallback@,
        trim(value@).len() > 0 ==> s@ == value@,
{
    let cs = chars_of(value);
    let t = trim_chars(cs.as_slice());
    if t.len() == 0 {
        lit(fallback)
    } else {
        lit(value)
    }
}

/// The queue hash a proposal was made from: the one it records, or, when
/// that is blank, the hash of its old queue.
pub fn proposal_base_queue_hash(recorded: &str, before_queue_hash: &str) -> (s: String)
    ensures
        trim(recorded@).len() == 0 ==> s@ == before_queue_hash@,
        trim(recorded@).len() > 0 ==> s@ == recorded@,
{
    text_or(recorded, before_queue_hash)
}

/// How many of `values` are `key`.
pub fn count_text(values: &[String], key: &str) -> (n: usize)
    ensures
        n == count_action(texts(values@), key@),
{
    let ghost all = texts(values@);
    let mut n: usize = 0;
    let mut i: usize = 0;
    while i < values.len()
        invariant
            i <= values.len(),
            all == texts(values@),
            n == count_action(all.take(i as int), key@),
            n <= i,
        decreases values.len() - i,
    {
        proof {
            assert(all.take(i + 1).drop_last() =~= all.take(i as int));
            assert(all.take(i + 1).last() == values@[i as int]@);
        }
        if same_text(values[i].as_str(), key) {
            n = n + 1;
        }
        i = i + 1;
    }
    proof {
        assert(all.take(values.len() as int) =~= all);
    }
    n
}

pub open spec fn count_keys(v: Seq<(String, usize)>) -> Seq<Seq<char>> {
    v.map_values(|p: (String, usize)| p.0@)
}

/// How many proposals of a history have each status: the statuses in
/// sorted order, each once, with its count (what a `BTreeMap` of counts
/// holds).
pub fn status_counts(statuses: &[String]) -> (r: Vec<(String, usize)>)
    ensures
        strictly_sorted(count_keys(r@)),
        forall|x: Seq<char>| count_keys(r@).contains(x) <==> texts(statuses@).contains(x),
        forall|k: int| 0 <= k < r.len() ==> (#[trigger] r@[k]).1 == count_action(texts(statuses@), r@[k].0@),
{
    let all = copy_texts(statuses);
    let keys = dedupe_sorted(all);
    let mut r: Vec<(String, usize)> = Vec::new();
    let mut i: usize = 0;
    while i < keys.len()
        invariant
            i <= keys.len(),
            r.len() == i,
            forall|k: int| 0 <= k < i ==> (#[trigger] r@[k]).0@ == keys@[k]@,
            forall|k: int| 0 <= k < i ==> (#[trigger] r@[k]).1 == count_action(texts(statuses@), r@[k].0@),
        decreases keys.len() - i,
    {
        let n = count_text(statuses, keys[i].as_str());
        r.push((copy_text(&keys[i]), n));
        i = i + 1;
    }
    proof {
        assert(count_keys(r@) =~= texts(keys@));
    }
    r
}

} // verus!
