use harness_infra::audit::{audit_finding_key, plan_audit_evidence, AuditEpisode, AuditEvidenceAction, AuditObservation};
use harness_infra::dependency::{dependency_path_exists, has_dependency, plan_dependency_add, StoryDependencyRecord};
use harness_infra::errors::HarnessError;
use harness_infra::health::{health_category_rank, improvement_health_items, sort_health_items, ImprovementHealthItem};
use harness_infra::lifecycle::{
    check_backlog_close, check_outcome_input, completion_commit_gate, completion_context, completion_start,
    decide_story_backlog_link, is_link_relationship, story_verify_command, verification_result, CompletionStart,
    LinkDecision,
};
use harness_infra::numbers::{decimal_i64, parse_i64};
use harness_infra::proposal::{
    parse_observation_schedule, rejection_notes, stored_rejection_reason, ObservationSchedule, ProposalDecisionError,
};
use harness_infra::timestamps::{check_sqlite_timestamp, rfc3339_utc, TimestampCheck};

fn edge(a: &str, b: &str) -> StoryDependencyRecord {
    StoryDependencyRecord { blocker: a.to_owned(), blocked: b.to_owned() }
}

#[test]
fn dependency_paths_follow_edges() {
    let edges = vec![edge("A", "B"), edge("B", "C")];
    assert!(dependency_path_exists(&edges, "A", "C"));
    assert!(!dependency_path_exists(&edges, "C", "A"));
    assert!(!dependency_path_exists(&edges, "A", "A"));
    assert!(has_dependency(&edges, "A", "B"));
    assert!(!has_dependency(&edges, "A", "C"));
}

#[test]
fn dependencies_that_close_a_cycle_are_refused() {
    let edges = vec![edge("A", "B"), edge("B", "C")];
    assert_eq!(plan_dependency_add(&edges, "A", "A", true, true), Err(HarnessError::StoryDependencySelf("A".into())));
    assert_eq!(plan_dependency_add(&edges, "X", "A", false, true), Err(HarnessError::StoryNotFound("X".into())));
    assert_eq!(plan_dependency_add(&edges, "A", "X", true, false), Err(HarnessError::StoryNotFound("X".into())));
    assert_eq!(
        plan_dependency_add(&edges, "C", "A", true, true),
        Err(HarnessError::StoryDependencyCycle("C".into(), "A".into()))
    );
    assert_eq!(plan_dependency_add(&edges, "A", "C", true, true), Ok(true));
    assert_eq!(plan_dependency_add(&edges, "A", "B", true, true), Ok(false));
}

#[test]
fn numbers_render_and_parse() {
    assert_eq!(decimal_i64(i64::MIN), "-9223372036854775808");
    assert_eq!(decimal_i64(0), "0");
    assert_eq!(parse_i64(&"+12".chars().collect::<Vec<_>>()), Some(12));
    assert_eq!(parse_i64(&"-0".chars().collect::<Vec<_>>()), Some(0));
    assert_eq!(parse_i64(&"9223372036854775808".chars().collect::<Vec<_>>()), None);
    assert_eq!(parse_i64(&"1a".chars().collect::<Vec<_>>()), None);
}

#[test]
fn timestamps_are_checked_by_chrono() {
    assert_eq!(check_sqlite_timestamp("2026-01-02 03:04:05"), TimestampCheck::Canonical);
    assert_eq!(check_sqlite_timestamp("2099-1-2 3:4:5"), TimestampCheck::NotCanonical);
    assert_eq!(check_sqlite_timestamp("2026-01-02T03:04:05"), TimestampCheck::Unparsable);
    assert_eq!(rfc3339_utc("2026-01-02T03:04:05+02:00"), Some("2026-01-02T01:04:05+00:00".to_owned()));
    assert_eq!(rfc3339_utc("tomorrow"), None);
}

#[test]
fn observation_schedules_parse() {
    assert_eq!(
        parse_observation_schedule("manual"),
        Ok(ObservationSchedule { kind: "manual".into(), due_at: None, after_traces: None })
    );
    assert_eq!(
        parse_observation_schedule("traces:3"),
        Ok(ObservationSchedule { kind: "trace_count".into(), due_at: None, after_traces: Some(3) })
    );
    assert_eq!(parse_observation_schedule("traces:0"), Err(ProposalDecisionError::TraceCountNotPositive));
    assert_eq!(parse_observation_schedule("due:soon"), Err(ProposalDecisionError::DueNotRfc3339));
    assert_eq!(parse_observation_schedule("weekly"), Err(ProposalDecisionError::InvalidSchedule));
    assert_eq!(
        parse_observation_schedule("due:2030-01-01T00:00:00Z"),
        Ok(ObservationSchedule { kind: "due_at".into(), due_at: Some("2030-01-01T00:00:00+00:00".into()), after_traces: None })
    );
}

#[test]
fn rejection_reasons_read_back_from_notes() {
    let notes = rejection_notes("not now", "3 traces");
    assert_eq!(notes, "rejection_reason: not now\ncovered_evidence: 3 traces");
    assert_eq!(stored_rejection_reason(None, Some(&notes)), Some("not now".to_owned()));
    assert_eq!(stored_rejection_reason(Some("x"), Some(&notes)), Some("x".to_owned()));
    assert_eq!(stored_rejection_reason(None, None), None);
}

#[test]
fn links_check_relationship_row_and_resolver() {
    assert!(is_link_relationship("resolves"));
    assert!(!is_link_relationship("blocks"));
    assert_eq!(
        decide_story_backlog_link("US-1", 3, "blocks", None, None, None, None),
        Err(HarnessError::StoryBacklogRelationship)
    );
    assert_eq!(
        decide_story_backlog_link("US-1", 3, "resolves", None, None, None, None),
        Err(HarnessError::StoryBacklogNotFound(3))
    );
    assert_eq!(
        decide_story_backlog_link("US-1", 3, "resolves", Some((None, "accepted".into())), None, None, None),
        Err(HarnessError::StoryBacklogLegacy(3))
    );
    assert_eq!(
        decide_story_backlog_link("US-1", 3, "resolves", Some((Some("blg_1".into()), "accepted".into())), Some("planned".into()), None, None),
        Ok(LinkDecision::Write { backlog_uid: "blg_1".into(), clear_verification: true })
    );
    assert_eq!(
        decide_story_backlog_link("US-1", 3, "references", Some((Some("blg_1".into()), "proposed".into())), Some("planned".into()), Some("references".into()), None),
        Ok(LinkDecision::Unchanged)
    );
}

#[test]
fn story_completion_gates() {
    assert_eq!(completion_start("US-1", "implemented", None), Ok(CompletionStart::AlreadyCompleted));
    assert_eq!(
        completion_start("US-1", "planned", None),
        Err(HarnessError::StoryCompletion(
            "story 'US-1' has status 'planned'; move it to in_progress or changed before completion".into()
        ))
    );
    assert_eq!(completion_start("US-1", "changed", Some("  ".into())), Err(HarnessError::MissingStoryVerifyCommand("US-1".into())));
    assert_eq!(
        completion_start("US-1", "in_progress", Some("make test".into())),
        Ok(CompletionStart::Verify { command: "make test".into() })
    );
    assert_eq!(completion_commit_gate("US-1", "implemented"), Ok(true));
    assert_eq!(completion_commit_gate("US-1", "changed"), Ok(false));
    assert!(completion_commit_gate("US-1", "retired").is_err());
    assert!(completion_context(0, false, None, None).is_ok());
    assert_eq!(
        completion_context(1, true, Some(("ink".into(), "trc".into())), Some((4, "proposed".into()))),
        Err(HarnessError::StoryCompletion("resolver target #4 is 'proposed', not accepted or already completed by this story".into()))
    );
    assert_eq!(verification_result(true), "pass");
    assert_eq!(verification_result(false), "fail");
    assert_eq!(story_verify_command("US-1", Some(String::new())), Err(HarnessError::MissingStoryVerifyCommand("US-1".into())));
    assert_eq!(check_backlog_close(3, true, "implemented"), Err(HarnessError::KeyedBacklogClose(3)));
    assert_eq!(check_backlog_close(3, false, "implemented"), Ok(()));
    assert!(check_outcome_input("confirmed", "  ").is_err());
}

#[test]
fn audit_evidence_follows_the_findings() {
    let active = vec![
        AuditEpisode { uid: "aud_1".into(), finding_key: "k1".into(), fingerprint: "f1".into() },
        AuditEpisode { uid: "aud_2".into(), finding_key: "k2".into(), fingerprint: "f2".into() },
    ];
    let current = vec![
        AuditObservation { finding_key: "k2".into(), fingerprint: "f2x".into() },
        AuditObservation { finding_key: "k3".into(), fingerprint: "f3".into() },
    ];
    assert_eq!(
        plan_audit_evidence(&active, &current),
        vec![
            AuditEvidenceAction::Clear { uid: "aud_1".into() },
            AuditEvidenceAction::Clear { uid: "aud_2".into() },
            AuditEvidenceAction::Open { finding_key: "k2".into(), fingerprint: "f2x".into() },
            AuditEvidenceAction::Open { finding_key: "k3".into(), fingerprint: "f3".into() },
        ]
    );
    let unchanged = vec![AuditObservation { finding_key: "k1".into(), fingerprint: "f1".into() }];
    assert_eq!(
        plan_audit_evidence(&active[..1].to_vec(), &unchanged),
        Vec::<AuditEvidenceAction>::new()
    );
    assert_eq!(audit_finding_key("stale-story", "US-1"), "audit.stale-story:v1:entity:US-1");
}

fn item(category: &str, id: &str) -> ImprovementHealthItem {
    ImprovementHealthItem {
        category: category.into(),
        id: id.into(),
        title: String::new(),
        state: String::new(),
        schedule: String::new(),
        outcome: String::new(),
        evidence: String::new(),
        next_action: String::new(),
    }
}

#[test]
fn health_report_is_ordered_by_category_then_id() {
    assert_eq!(health_category_rank("audit"), 0);
    assert_eq!(health_category_rank("recurrence"), 4);
    assert_eq!(health_category_rank("other"), 5);
    let sorted = sort_health_items(vec![item("recurrence", "a"), item("audit", "z"), item("accepted_work", "b"), item("accepted_work", "a")]);
    let ids: Vec<_> = sorted.iter().map(|i| (i.category.as_str(), i.id.as_str())).collect();
    assert_eq!(ids, vec![("audit", "z"), ("accepted_work", "a"), ("accepted_work", "b"), ("recurrence", "a")]);
    let report = improvement_health_items(2, &Vec::new(), &Vec::new(), &Vec::new(), 0);
    assert_eq!(report.len(), 1);
    assert_eq!(report[0].title, "2 actionable audit finding(s)");
}
