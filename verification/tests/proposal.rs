use capy_core::project::proposal::{
    decision_record, queue_changed_conflict, status_counts,
    change_action, change_apply_status, change_apply_statuses, change_id, change_scene,
    decision_reason, kept_reason, next_proposal_revision, plan_changes, plan_proposal_decision,
    proposal_base_queue_hash, proposal_rationale, queue_clip_id, queued_position, reason_summary,
    same_text, sort_history, text_or, upsert_history, ClipSlot, HistoryEntry, SuggestionSlot,
};

fn slot(key: &str, sequence: u64) -> ClipSlot {
    ClipSlot { key: key.to_string(), sequence }
}

fn entry(id: &str, revision: u64, generated_at: u64, body: &str) -> HistoryEntry<String> {
    HistoryEntry {
        proposal_id: id.to_string(),
        revision,
        generated_at,
        body: body.to_string(),
    }
}

#[test]
fn accept_with_unchanged_queue_writes_queue() {
    let plan = plan_proposal_decision("p1", 1, "p1", Some(1), " Accept ", "queue-h", "queue-h")
        .expect("plan");
    assert_eq!(plan.decision, "accept");
    assert_eq!(plan.status, "accepted");
    assert!(plan.queue_updated);
    assert!(!plan.conflict);
}

#[test]
fn accept_with_changed_queue_conflicts() {
    let plan =
        plan_proposal_decision("p1", 1, "p1", None, "accepted", "queue-a", "queue-b").expect("plan");
    assert_eq!(plan.status, "conflicted");
    assert!(!plan.queue_updated);
    assert!(plan.conflict);
}

#[test]
fn reject_never_writes_queue() {
    for (base, current) in [("h", "h"), ("h", "g")] {
        let plan = plan_proposal_decision("p1", 4, "p1", Some(4), "REJECTED", base, current)
            .expect("plan");
        assert_eq!(plan.decision, "reject");
        assert_eq!(plan.status, "rejected");
        assert!(!plan.queue_updated);
        assert!(!plan.conflict);
    }
}

#[test]
fn decision_on_another_proposal_is_refused() {
    let err = plan_proposal_decision("p1", 1, "p2", None, "accept", "h", "h")
        .err()
        .expect("error");
    assert_eq!(err, "proposal id mismatch: expected p1, got p2");
}

#[test]
fn decision_on_stale_revision_is_refused() {
    let err = plan_proposal_decision("p1", 2, "p1", Some(1), "accept", "h", "h")
        .err()
        .expect("error");
    assert_eq!(err, "proposal revision mismatch: expected r2, got r1");
}

#[test]
fn unknown_decision_word_is_refused() {
    let err = plan_proposal_decision("p1", 2, "p1", None, " Maybe ", "h", "h")
        .err()
        .expect("error");
    assert_eq!(
        err,
        "unsupported video clip proposal decision: maybe; expected accept or reject"
    );
}

#[test]
fn apply_statuses_follow_the_decision() {
    let accepted = plan_proposal_decision("p", 1, "p", None, "accept", "h", "h").unwrap();
    assert_eq!(
        change_apply_statuses(&[true, false], &accepted),
        vec!["applied", "not_applicable"]
    );
    let conflicted = plan_proposal_decision("p", 1, "p", None, "accept", "h", "x").unwrap();
    assert_eq!(
        change_apply_statuses(&[true, false], &conflicted),
        vec!["conflicted", "conflicted"]
    );
    let rejected = plan_proposal_decision("p", 1, "p", None, "reject", "h", "h").unwrap();
    assert_eq!(
        change_apply_statuses(&[true, false], &rejected),
        vec!["rejected", "rejected"]
    );
    assert_eq!(change_apply_status(false, true, true), "conflicted");
}

#[test]
fn decision_reason_trims_or_defaults() {
    assert_eq!(decision_reason("  looks good \n", "accept"), "looks good");
    assert_eq!(
        decision_reason("   ", "accept"),
        "PM 接受 proposal diff，允许写回剪辑队列。"
    );
    assert_eq!(
        decision_reason("", "reject"),
        "PM 拒绝 proposal diff，保持原剪辑队列。"
    );
}

#[test]
fn change_actions_by_position() {
    assert_eq!(change_action(None, 1, None), "replace");
    assert_eq!(change_action(Some(3), 3, Some("deprioritize_opening")), "keep");
    assert_eq!(
        change_action(Some(1), 2, Some("deprioritize_opening")),
        "deprioritize"
    );
    assert_eq!(change_action(Some(2), 1, Some("deprioritize_opening")), "reorder");
    assert_eq!(change_action(Some(1), 2, Some("prefer_opening")), "reorder");
    assert_eq!(change_action(Some(1), 2, None), "reorder");
}

#[test]
fn reason_summary_prefers_feedback_then_semantics() {
    assert_eq!(
        reason_summary("keep", Some("fb"), Some("sem"), Some("why")),
        "fb"
    );
    assert_eq!(reason_summary("keep", None, Some("sem"), Some("why")), "sem");
    assert_eq!(reason_summary("keep", None, None, Some("why")), "why");
    assert_eq!(
        reason_summary("keep", None, None, Some("  ")),
        "保留当前片段，队列位置不变。"
    );
    assert_eq!(
        reason_summary("replace", None, None, None),
        "用更匹配当前反馈和语义的片段替换该位置。"
    );
    assert_eq!(
        reason_summary("other", None, None, None),
        "根据本地 deterministic planner 调整。"
    );
}

#[test]
fn rationale_counts_actions() {
    let actions: Vec<String> = ["keep", "deprioritize", "replace", "keep"]
        .iter()
        .map(|s| s.to_string())
        .collect();
    assert_eq!(
        proposal_rationale(&actions),
        "本地 proposal diff 基于当前 queue、片段语义和 PM 反馈生成：保留 2 条、降权 1 条、重排 0 条、替换 1 条。等待 PM 明确接受或拒绝。"
    );
}

#[test]
fn change_ids_are_zero_padded() {
    assert_eq!(change_id("proposal-fnv1a64-00ff", 3), "proposal-fnv1a64-00ff-change-03");
    assert_eq!(change_id("p", 12), "p-change-12");
}

#[test]
fn change_scene_falls_back() {
    assert_eq!(change_scene(Some("开场"), Some("x")), "开场");
    assert_eq!(change_scene(Some(" "), Some("x")), "x");
    assert_eq!(change_scene(None, None), "片段");
}

#[test]
fn suggested_items_keep_queue_fields() {
    assert_eq!(queue_clip_id("  "), "source");
    assert_eq!(queue_clip_id("clip-2"), "clip-2");
    assert_eq!(kept_reason(" "), None);
    assert_eq!(kept_reason(" keep me "), Some(" keep me ".to_string()));
    let before = vec![slot("a", 1), slot("b", 2), slot("a", 3)];
    assert_eq!(queued_position(&before, "a"), Some(0));
    assert_eq!(queued_position(&before, "c"), None);
}

#[test]
fn changes_follow_new_queue_then_dropped_clips() {
    let before = vec![slot("a", 1), slot("b", 2), slot("c", 3)];
    let after = vec![slot("b", 1), slot("a", 2), slot("d", 3)];
    let suggestions = vec![SuggestionSlot {
        key: "a".to_string(),
        feedback_effect: Some("deprioritize_opening".to_string()),
    }];
    let changes = plan_changes(&before, &after, &suggestions);
    assert_eq!(changes.len(), 4);
    assert_eq!(changes[0].index, 1);
    assert_eq!(changes[0].action, "reorder");
    assert_eq!(changes[0].exact_before, Some(1));
    assert_eq!(changes[0].display_before, Some(1));
    assert_eq!(changes[0].after, Some(0));
    assert_eq!(changes[0].suggestion, None);
    assert_eq!(changes[1].action, "deprioritize");
    assert_eq!(changes[1].exact_before, Some(0));
    assert_eq!(changes[1].suggestion, Some(0));
    assert_eq!(changes[2].action, "replace");
    assert_eq!(changes[2].exact_before, None);
    assert_eq!(changes[2].display_before, Some(2));
    assert_eq!(changes[3].index, 4);
    assert_eq!(changes[3].action, "replace");
    assert_eq!(changes[3].exact_before, Some(2));
    assert_eq!(changes[3].after, None);
}

#[test]
fn unchanged_queue_keeps_every_clip() {
    let before = vec![slot("a", 1), slot("b", 2)];
    let after = vec![slot("a", 1), slot("b", 2)];
    let changes = plan_changes(&before, &after, &[]);
    assert_eq!(changes.len(), 2);
    assert!(changes.iter().all(|c| c.action == "keep"));
}

#[test]
fn revisions_increase() {
    assert_eq!(next_proposal_revision(0, &[]), 1);
    assert_eq!(next_proposal_revision(1, &[1]), 2);
    assert_eq!(next_proposal_revision(2, &[1, 3]), 4);
    assert_eq!(next_proposal_revision(u64::MAX, &[]), u64::MAX);
}

#[test]
fn history_upsert_replaces_and_orders() {
    let entries = vec![entry("p2", 2, 20, "second"), entry("p1", 1, 10, "first")];
    let sorted = sort_history(entries);
    assert_eq!(sorted[0].proposal_id, "p1");
    assert_eq!(sorted[1].proposal_id, "p2");

    let replaced = upsert_history(sorted, entry("p1", 1, 10, "first decided"));
    assert_eq!(replaced.len(), 2);
    assert_eq!(replaced[0].body, "first decided");

    let added = upsert_history(replaced, entry("p3", 3, 15, "third"));
    let ids: Vec<&str> = added.iter().map(|e| e.proposal_id.as_str()).collect();
    assert_eq!(ids, vec!["p1", "p3", "p2"]);
}

#[test]
fn history_ties_keep_their_order() {
    let entries = vec![entry("x", 1, 5, "a"), entry("y", 1, 5, "b")];
    let sorted = sort_history(entries);
    assert_eq!(sorted[0].proposal_id, "x");
    assert_eq!(sorted[1].proposal_id, "y");
}

#[test]
fn base_queue_hash_falls_back_to_old_queue() {
    assert_eq!(proposal_base_queue_hash("  ", "queue-fnv1a64-1"), "queue-fnv1a64-1");
    assert_eq!(proposal_base_queue_hash("queue-x", "queue-y"), "queue-x");
    assert_eq!(text_or("", "Project"), "Project");
    assert!(same_text("a", "a"));
    assert!(!same_text("a", "b"));
}

#[test]
fn decision_and_conflict_records() {
    let plan = plan_proposal_decision("p1", 2, "p1", Some(2), " Accepted ", "queue-a", "queue-b").unwrap();
    assert!(!plan.queue_updated);
    let d = decision_record(&plan, "  ", 77);
    assert_eq!(d.decision, "accept");
    assert_eq!(d.reason, "PM 接受 proposal diff，允许写回剪辑队列。");
    assert_eq!(d.decided_at, 77);
    assert!(!d.queue_updated);
    let c = queue_changed_conflict("queue-a", "queue-b", 77);
    assert_eq!(c.conflict_type, "queue_changed_since_proposal");
    assert_eq!((c.base_queue_hash.as_str(), c.current_queue_hash.as_str()), ("queue-a", "queue-b"));
    assert_eq!(c.detected_at, 77);
    let ok = plan_proposal_decision("p1", 2, "p1", None, "reject", "h", "h").unwrap();
    assert_eq!(decision_record(&ok, " not now ", 5).reason, "not now");
}

#[test]
fn status_counts_are_sorted_by_status() {
    let statuses: Vec<String> = ["rejected", "accepted", "conflicted", "rejected"].iter().map(|s| s.to_string()).collect();
    assert_eq!(
        status_counts(&statuses),
        vec![("accepted".to_string(), 1), ("conflicted".to_string(), 1), ("rejected".to_string(), 2)]
    );
    assert!(status_counts(&[]).is_empty());
}
