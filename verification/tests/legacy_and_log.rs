use harness_infra::changeset::{ChangesetIds, Param};
use harness_infra::errors::HarnessError;
use harness_infra::evidence::stable_uid;
use harness_infra::generate::audit_proposal;
use harness_infra::json::JsonValue;
use harness_infra::legacy::{
    changed_after_classification, changed_count, derivable_candidate, identity_candidate, legacy_match,
    legacy_observation_uid, legacy_outcome_recorded, reconciliation_summary, resolve_legacy_evidence_capture, same_title_count,
    unmatched_candidate, unresolved_candidate, LegacyMatch,
};
use harness_infra::oplog::{
    audit_clear_operation, audit_open_operation, backlog_link_operation, backlog_unlink_operation,
    dependency_add_operation, dependency_remove_operation,
};
use harness_infra::operation::{decode_operation, Decoded, Statement};
use harness_infra::proposal::ProposalEvidence;
use harness_infra::repository::{clamp_nanos, migration_order, migration_version, run_id, verifier_shell, SqliteHarnessRepository};
use harness_infra::proposal::ProposalDecisionError;
use std::path::PathBuf;
use sha2::{Digest, Sha256};

/// The lowercase hex SHA-256 digest of `text`.
fn sha(text: &str) -> String {
    format!("{:x}", Sha256::digest(text.as_bytes()))
}

fn titled(title: &str) -> harness_infra::proposal::ImprovementProposal {
    let mut p = audit_proposal("x", 1, Vec::new());
    p.title = title.to_owned();
    p
}

fn evidence(kind: &str, uid: &str, fp: &str, at: &str) -> ProposalEvidence {
    ProposalEvidence { source_kind: kind.into(), uid: uid.into(), fingerprint: fp.into(), observed_at: at.into() }
}

#[test]
fn legacy_rows_match_one_proposal_by_title() {
    let ps = vec![titled("A"), titled("B"), titled("B")];
    assert_eq!(legacy_match(&ps, "A"), LegacyMatch::One(0));
    assert_eq!(legacy_match(&ps, "B"), LegacyMatch::SeveralProposals);
    assert_eq!(legacy_match(&ps, "C"), LegacyMatch::NoProposal);
    let c = unmatched_candidate(5, LegacyMatch::NoProposal);
    assert_eq!(c.record.classification, "manual");
    assert_eq!(c.record.changes, "none");
    assert!(c.backlog_uid.is_none());
}

#[test]
fn duplicate_or_evidence_free_rows_wait() {
    let mut p = titled("A");
    let c = identity_candidate(5, &p, 2, 0).unwrap();
    assert_eq!(c.record.classification, "duplicate_candidate");
    assert_eq!(c.record.proposal_key, Some(p.key.clone()));
    let c = identity_candidate(5, &p, 1, 0).unwrap();
    assert_eq!(c.record.reason, "the generated proposal has no exact evidence item to preserve");
    p.evidence_items.push(evidence("trace", "trc_1", "f", "t"));
    assert!(identity_candidate(5, &p, 1, 0).is_none());
    let c = unresolved_candidate(5, "k", &evidence("legacy_snapshot", "legacy-x", "fp", "2020-01-01 00:00:00"));
    assert_eq!(
        c.record.reason,
        "evidence fp at 2020-01-01 00:00:00 does not resolve to exactly one UID-less trace or intervention"
    );
}

#[test]
fn legacy_evidence_resolves_to_exactly_one_source() {
    let fp = sha("slow build");
    let traces = vec![(1, "2020-01-01 00:00:00".to_owned(), "slow build".to_owned()), (2, "2020-01-01 00:00:00".to_owned(), "other".to_owned())];
    let c = resolve_legacy_evidence_capture(&fp, &traces, &Vec::new()).unwrap();
    assert_eq!(c.source_kind, "trace");
    assert_eq!(c.source_local_id, 1);
    assert_eq!(c.canonical_payload, r#"{"created_at":"2020-01-01 00:00:00","harness_friction":"slow build"}"#);
    assert_eq!(c.fingerprint, sha(&c.canonical_payload));
    assert_eq!(c.uid, stable_uid("leg", &format!("trace\0{}", c.fingerprint)));
    let interventions = vec![(3, "2020-01-01 00:00:00".to_owned(), "review".to_owned(), "slow build".to_owned())];
    let ifp = sha("review: slow build");
    let c = resolve_legacy_evidence_capture(&ifp, &Vec::new(), &interventions).unwrap();
    assert_eq!(c.canonical_payload, r#"{"created_at":"2020-01-01 00:00:00","description":"slow build","type":"review"}"#);
    let twice = vec![traces[0].clone(), (4, "2020-01-01 00:00:00".to_owned(), "slow build".to_owned())];
    assert!(resolve_legacy_evidence_capture(&fp, &twice, &Vec::new()).is_none());
    assert!(resolve_legacy_evidence_capture("nope", &traces, &interventions).is_none());
}

#[test]
fn derivable_rows_get_the_proposal_identity() {
    let ev = vec![(evidence("trace", "trc_1", "f", "t"), None)];
    let c = derivable_candidate(5, "implemented", &Some("worked".to_owned()), "k", ev);
    assert_eq!(c.record.classification, "derivable");
    assert_eq!(c.record.changes, "uid, proposal_key, occurrence_kind, evidence_links=1, legacy_recorded outcome");
    assert_eq!(
        c.record.reason,
        "one exact generated proposal and complete evidence resolve deterministically (0 embedded snapshot(s))"
    );
    assert_eq!(c.backlog_uid, Some(stable_uid("blg", "k")));
    assert_eq!(changed_count(&vec![c, unmatched_candidate(6, LegacyMatch::NoProposal)]), 1);
    assert!(!legacy_outcome_recorded("implemented", &Some("  ".to_owned())));
    assert!(!legacy_outcome_recorded("proposed", &Some("x".to_owned())));
    assert_eq!(
        changed_after_classification(4),
        HarnessError::LegacyReconciliation("backlog #4 changed after classification; retry reconciliation".into())
    );
    assert_eq!(reconciliation_summary(2), "Reconciled 2 legacy improvement row(s)");
    assert_eq!(legacy_observation_uid("blg_1"), stable_uid("obs", "blg_1\0legacy"));
}

const BLG: &str = "blg_0123456789abcdef0123456789abcdef";

#[test]
fn logged_writes_replay_as_written() {
    let ids = ChangesetIds::new();
    match decode_operation(&dependency_add_operation("US-1", "US-2"), &ids) {
        Ok(Decoded::DependencyAdd { blocker, blocked }) => assert_eq!((blocker.as_str(), blocked.as_str()), ("US-1", "US-2")),
        other => panic!("unexpected {other:?}"),
    }
    match decode_operation(&dependency_remove_operation("US-1", "US-2"), &ids) {
        Ok(Decoded::Execute { statement, params }) => {
            assert_eq!(statement, Statement::StoryDependencyRemove);
            assert!(matches!(&params[..], [Param::Text(a), Param::Text(b)] if a == "US-1" && b == "US-2"));
        }
        other => panic!("unexpected {other:?}"),
    }
    match decode_operation(&backlog_link_operation("US-1", BLG, "resolves", "2026-01-02 03:04:05", 17), &ids) {
        Ok(Decoded::BacklogLink { linked_at: Ok(Param::Text(t)), linked_at_unix_ns: Param::Int(17), relationship, .. }) => {
            assert_eq!(t, "2026-01-02 03:04:05");
            assert_eq!(relationship, "resolves");
        }
        other => panic!("unexpected {other:?}"),
    }
    assert!(matches!(decode_operation(&backlog_unlink_operation("US-1", BLG), &ids), Ok(Decoded::BacklogUnlink { .. })));
    match decode_operation(&audit_open_operation("aud_1", "k", "f", "2026-01-02 03:04:05"), &ids) {
        Ok(Decoded::Execute { statement, params }) => {
            assert_eq!(statement, Statement::AuditEvidenceOpen);
            assert_eq!(params.len(), 4);
        }
        other => panic!("unexpected {other:?}"),
    }
    assert_eq!(
        decode_operation(&audit_clear_operation("aud_1", "never"), &ids).err(),
        Some(HarnessError::InvalidChangeset("cleared_at must use YYYY-MM-DD HH:MM:SS, got 'never'".into()))
    );
    assert!(matches!(&dependency_add_operation("A", "B"), JsonValue::Object(e) if e.len() == 4));
}

#[test]
fn the_store_knows_where_its_changesets_go() {
    let repo = SqliteHarnessRepository::new(PathBuf::from("/repo"), PathBuf::from("/repo/h.db"), PathBuf::from("/schema"));
    assert_eq!(repo.logging_run_id(Some(" run-7 ")), Some("run-7".to_owned()));
    assert_eq!(repo.logging_run_id(Some("  ")), None);
    let repo = repo.with_run_id("fixed");
    assert_eq!(repo.logging_run_id(Some("run-7")), Some("fixed".to_owned()));
    assert_eq!(SqliteHarnessRepository::changeset_file_name("r1"), "r1.changeset.jsonl");
    assert_eq!(clamp_nanos(u128::MAX), i64::MAX);
    assert_eq!(clamp_nanos(5), 5);
    assert!(SqliteHarnessRepository::unix_time_nanos() > 0);
    assert!(SqliteHarnessRepository::new_uid("trc", "x").starts_with("trc_"));
    assert_eq!(run_id(None), None);
    assert_eq!(verifier_shell(false), ("sh", "-c"));
    assert_eq!(verifier_shell(true), ("cmd", "/C"));
}

#[test]
fn legacy_rows_sharing_a_title_are_counted() {
    let titles = vec!["A".to_owned(), "B".to_owned(), "A".to_owned()];
    assert_eq!(same_title_count(&titles, "A"), 2);
    assert_eq!(same_title_count(&titles, "B"), 1);
    assert_eq!(same_title_count(&titles, "C"), 0);
}

#[test]
fn migrations_are_found_by_their_numbered_names_and_applied_in_order() {
    assert_eq!(migration_version("001-init.sql"), Some(1));
    assert_eq!(migration_version("005-tool-kind.sql"), Some(5));
    assert_eq!(migration_version("010.sql"), None);
    assert_eq!(migration_version("README.md"), None);
    assert_eq!(migration_version("x-notes.sql"), None);
    assert_eq!(migration_version(".sql"), None);
    let ordered = migration_order(vec![(5, "e".into()), (2, "b".into()), (5, "a".into()), (1, "z".into())]);
    assert_eq!(ordered, vec![(1, "z".to_owned()), (2, "b".to_owned()), (5, "e".to_owned()), (5, "a".to_owned())]);
}

#[test]
fn refused_decisions_report_their_reason() {
    assert_eq!(ProposalDecisionError::UnknownKey("k".into()).message(), "unknown or stale proposal key 'k'");
    assert_eq!(ProposalDecisionError::CannotAccept("rejected".into()).message(), "cannot accept a rejected occurrence");
    assert_eq!(ProposalDecisionError::DueNotLater.message(), "outcome due time must be later than acceptance");
}
