use harness_infra::proposal::{decide_proposal_action, ExistingOccurrence, ObservationSchedule, ProposalAction, ProposalDecisionError};
use harness_infra::legacy::{derivable_candidate, plan_reconciliation, unmatched_candidate, LegacyMatch};
use harness_infra::json::JsonValue;
use harness_infra::legacy::{legacy_evidence_candidate, is_snapshot_evidence, LegacySources};
use harness_infra::lifecycle::resolution_evidence;
use harness_infra::proposal::ProposalEvidence;
use harness_infra::repository::pending_migrations;
use harness_infra::timestamps::{check_sqlite_timestamp, TimestampCheck};
use harness_infra::uids::{
    audit_episode_uid, backlog_uid, completion_uid, intake_uid, intervention_uid, observation_uid, occurrence_uid,
    reconciliation_trace_uid, trace_uid,
};
use sha2::{Digest, Sha256};

fn sha(text: &str) -> String {
    format!("{:x}", Sha256::digest(text.as_bytes()))
}

fn minted_under(uid: &str, prefix: &str) -> bool {
    let tail = &uid[prefix.len() + 1..];
    uid.starts_with(&format!("{prefix}_")) && tail.len() == 32 && tail.chars().all(|c| c.is_ascii_hexdigit())
}

fn evidence(kind: &str, fp: &str) -> ProposalEvidence {
    ProposalEvidence {
        source_kind: kind.into(),
        uid: "legacy-1".into(),
        fingerprint: fp.into(),
        observed_at: "2020-01-01 00:00:00".into(),
    }
}

#[test]
fn new_records_get_uids_under_their_prefix() {
    assert!(minted_under(&intake_uid("bug", "summary", "normal"), "ink"));
    assert!(minted_under(&trace_uid("task", &None), "trc"));
    assert!(minted_under(&trace_uid("task", &Some("US-1".into())), "trc"));
    assert!(minted_under(&backlog_uid("title", &None), "blg"));
    assert!(minted_under(&intervention_uid("review", "slow"), "int"));
    assert!(minted_under(&observation_uid("blg_1", 2), "obs"));
    assert!(minted_under(&occurrence_uid("k", "blg_1", "regression"), "blg"));
    assert!(minted_under(&completion_uid("US-1", "2020-01-01 00:00:00"), "cmp"));
    assert!(minted_under(&audit_episode_uid("rule\0id"), "aud"));
    assert!(minted_under(&reconciliation_trace_uid(), "trc"));
}

#[test]
fn resolution_evidence_names_the_completion() {
    assert_eq!(
        resolution_evidence("US-1", "cargo test", "cmp_x", "2020-01-01 00:00:00"),
        r#"{"completed_at":"2020-01-01 00:00:00","completion_uid":"cmp_x","result":"pass","story_id":"US-1","verify_command":"cargo test"}"#
    );
}

#[test]
fn only_newer_migrations_are_pending() {
    let files = vec![(1, "0001_init.sql".to_owned()), (2, "0002_a.sql".to_owned()), (3, "0003_b.sql".to_owned())];
    assert_eq!(pending_migrations(files.clone(), 1), vec![(2, "0002_a.sql".to_owned()), (3, "0003_b.sql".to_owned())]);
    assert_eq!(pending_migrations(files.clone(), 3), Vec::<(i64, String)>::new());
    assert_eq!(pending_migrations(files.clone(), 0), files);
}

#[test]
fn sqlite_timestamps_are_checked_against_the_canonical_pattern() {
    assert_eq!(check_sqlite_timestamp("2020-01-01 00:00:00"), TimestampCheck::Canonical);
    assert_eq!(check_sqlite_timestamp("2020-1-1 00:00:00"), TimestampCheck::NotCanonical);
    assert_eq!(check_sqlite_timestamp("garbage"), TimestampCheck::Unparsable);
}

#[test]
fn legacy_evidence_is_linked_item_by_item() {
    let fp = sha("slow build");
    let at = "2020-01-01 00:00:00".to_owned();
    let snapshot = evidence("legacy_snapshot", &fp);
    let plain = evidence("trace", "f");
    assert!(is_snapshot_evidence(&snapshot));
    assert!(!is_snapshot_evidence(&plain));
    let found = LegacySources { traces: vec![(7, at.clone(), "slow build".into())], interventions: Vec::new() };
    let none = LegacySources { traces: Vec::new(), interventions: Vec::new() };
    let c = legacy_evidence_candidate(5, "proposed", &None, "k", &vec![(plain.clone(), none), (snapshot.clone(), found)]);
    assert_eq!(c.record.classification, "derivable");
    assert_eq!(c.evidence.len(), 2);
    assert!(c.evidence[0].1.is_none());
    assert_eq!(c.evidence[1].1.as_ref().unwrap().source_local_id, 7);
    assert_eq!(
        c.record.reason,
        "one exact generated proposal and complete evidence resolve deterministically (1 embedded snapshot(s))"
    );
    let empty = LegacySources { traces: Vec::new(), interventions: Vec::new() };
    let c = legacy_evidence_candidate(5, "proposed", &None, "k", &vec![(snapshot, empty)]);
    assert_eq!(c.record.classification, "ambiguous");
    assert!(c.backlog_uid.is_none());
}

#[test]
fn reconciliation_is_recorded_as_a_harness_trace() {
    let t = harness_infra::legacy::reconciliation_trace("Reconciled 2 legacy improvement row(s)".to_owned());
    assert_eq!(t.task_summary, "Reconciled 2 legacy improvement row(s)");
    assert_eq!(t.agent.as_deref(), Some("harness-cli"));
    assert_eq!(
        t.actions_taken.as_deref(),
        Some(r#"["classified legacy improvements","backfilled derivable lifecycle identity","captured immutable legacy evidence"]"#)
    );
    assert_eq!(t.files_changed.as_deref(), Some(r#"["harness durable legacy lifecycle metadata"]"#));
    assert_eq!(t.outcome.as_deref(), Some("completed"));
    assert_eq!(t.notes.as_deref(), Some("Manual, ambiguous, and duplicate-candidate rows were left unchanged."));
}

#[test]
fn changesets_open_with_a_header_naming_their_run() {
    let h = harness_infra::replay::changeset_header("run-a", 7);
    let JsonValue::Object(entries) = &h else { panic!("header is an object") };
    assert_eq!(entries.len(), 4);
    assert_eq!(harness_infra::replay::changeset_run_id(&vec![h]).unwrap(), "run-a");
}

#[test]
fn only_closed_occurrences_and_due_rows_need_more_reads() {
    assert!(harness_infra::proposal::is_closed_occurrence("implemented"));
    assert!(harness_infra::proposal::is_closed_occurrence("rejected"));
    assert!(!harness_infra::proposal::is_closed_occurrence("accepted"));
    let row = harness_infra::health::OutcomeRow {
        id: 1,
        title: "t".into(),
        status: "implemented".into(),
        schedule_kind: Some("due_at".into()),
        due_at: Some("2020-01-01 00:00:00".into()),
        after_traces: None,
        baseline: None,
        observation_status: None,
        ordinal: None,
        observation_outcome: None,
        observation_evidence: None,
        due_reached: false,
    };
    assert!(harness_infra::health::needs_due_check(&row));
    let observed = harness_infra::health::OutcomeRow { observation_status: Some("improved".into()), ..row };
    assert!(!harness_infra::health::needs_due_check(&observed));
}

fn link(id: i64, status: &str, relationship: &str, resolved_by: Option<&str>) -> harness_infra::lifecycle::CompletionLinkRow {
    harness_infra::lifecycle::CompletionLinkRow {
        backlog_id: id,
        uid: format!("blg_{id}"),
        status: status.into(),
        relationship: relationship.into(),
        schedule_kind: None,
        resolved_by: resolved_by.map(str::to_owned),
    }
}

#[test]
fn completing_again_finds_everything_already_closed() {
    let before = vec![
        link(1, "accepted", "resolves", None),
        link(2, "accepted", "resolves", None),
        link(3, "implemented", "resolves", Some("US-1")),
        link(4, "proposed", "references", None),
    ];
    let first = harness_infra::lifecycle::completion_links("US-1", &before);
    assert_eq!(first.to_close.iter().map(|r| r.backlog_id).collect::<Vec<_>>(), vec![1, 2]);
    assert_eq!(first.already_closed, vec![3]);
    assert_eq!(first.referenced, vec![4]);
    let after = vec![
        link(1, "implemented", "resolves", Some("US-1")),
        link(2, "implemented", "resolves", Some("US-1")),
        link(3, "implemented", "resolves", Some("US-1")),
        link(4, "proposed", "references", None),
    ];
    let again = harness_infra::lifecycle::completion_links("US-1", &after);
    assert!(again.to_close.is_empty());
    assert_eq!(again.already_closed, vec![1, 2, 3]);
    assert_eq!(again.referenced, vec![4]);
}

#[test]
fn a_dry_run_reports_what_an_apply_keys() {
    let candidates = vec![
        derivable_candidate(1, "proposed", &None, "k1", Vec::new()),
        unmatched_candidate(2, LegacyMatch::NoProposal),
        derivable_candidate(3, "proposed", &None, "k3", Vec::new()),
    ];
    let dry = plan_reconciliation(&candidates, false);
    assert!(!dry.applied && dry.to_key.is_empty() && !dry.records_trace);
    assert_eq!(dry.changed, 2);
    let wet = plan_reconciliation(&candidates, true);
    assert!(wet.applied && wet.records_trace);
    assert_eq!(wet.to_key, vec![0, 2]);
    assert_eq!(wet.changed, 2);
    let nothing = plan_reconciliation(&vec![unmatched_candidate(2, LegacyMatch::NoProposal)], true);
    assert!(nothing.to_key.is_empty() && !nothing.records_trace && nothing.changed == 0);
}

fn occurrence(status: &str, kind: Option<&str>, after: Option<i64>, reason: Option<&str>) -> ExistingOccurrence {
    ExistingOccurrence {
        id: 9,
        uid: "blg_9".into(),
        status: status.into(),
        schedule_kind: kind.map(str::to_owned),
        due_at: None,
        after_traces: after,
        notes: None,
        rejection_reason: reason.map(str::to_owned),
    }
}

#[test]
fn deciding_a_key_again_is_idempotent_or_refused() {
    let s = ObservationSchedule { kind: "traces".into(), due_at: None, after_traces: Some(3) };
    let other = ObservationSchedule { kind: "traces".into(), due_at: None, after_traces: Some(4) };
    let accepted = Some(occurrence("accepted", Some("traces"), Some(3), None));
    assert_eq!(decide_proposal_action("accepted", &accepted, &Some(s.clone()), &None), Ok(ProposalAction::Unchanged { id: 9 }));
    assert_eq!(
        decide_proposal_action("accepted", &accepted, &Some(other), &None),
        Err(ProposalDecisionError::ConflictingBoundary)
    );
    assert_eq!(
        decide_proposal_action("accepted", &accepted, &None, &Some("not now".into())),
        Err(ProposalDecisionError::AcceptedCannotBeRejected)
    );
    let rejected = Some(occurrence("rejected", None, None, Some("not useful yet")));
    assert_eq!(
        decide_proposal_action("suppressed", &rejected, &None, &Some("not useful yet".into())),
        Ok(ProposalAction::Unchanged { id: 9 })
    );
    assert_eq!(
        decide_proposal_action("suppressed", &rejected, &None, &Some("not useful".into())),
        Err(ProposalDecisionError::RejectionReasonDiffers)
    );
}
