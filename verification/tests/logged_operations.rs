use harness_infra::changeset::{ChangesetIds, Param};
use harness_infra::json::JsonValue;
use harness_infra::errors::HarnessError;
use harness_infra::generate::audit_proposal;
use harness_infra::operation::{decode_operation, Decoded, EvidenceLinks, Statement};
use harness_infra::oplog::{
    backlog_add_operation, backlog_close_operation, backlog_complete_operation, decision_add_operation,
    decision_verify_operation, intervention_add_operation, legacy_capture_operation, legacy_reconcile_operation,
    outcome_observe_operation, story_add_operation, story_update_operation, intake_add_operation, proposal_decision_operation,
    story_complete_operation, story_verify_operation, tool_check_operation, tool_register_operation,
    tool_remove_operation, trace_add_operation, TraceRecord,
};
use harness_infra::changeset::IdTable;
use harness_infra::lifecycle::{check_story_update, StoryUpdate};
use harness_infra::proposal::{ObservationSchedule, ProposalEvidence};

const BLG: &str = "blg_0123456789abcdef0123456789abcdef";

fn texts(params: &[Param]) -> Vec<Option<String>> {
    params
        .iter()
        .map(|p| match p {
            Param::Text(t) => Some(t.clone()),
            Param::Int(n) => Some(format!("#{n}")),
            Param::Null => None,
            Param::Now => Some("now".to_owned()),
        })
        .collect()
}

fn some(values: &[&str]) -> Vec<Option<String>> {
    values.iter().map(|v| Some((*v).to_owned())).collect()
}

#[test]
fn tool_writes_replay_as_written() {
    let ids = ChangesetIds::new();
    let op = tool_register_operation(
        "lint",
        "cargo clippy",
        "Lint the crate",
        &None,
        "Verification",
        "cli",
        &Some("linting".to_owned()),
        &None,
    );
    match decode_operation(&op, &ids) {
        Ok(Decoded::Execute { statement, params }) => {
            assert_eq!(statement, Statement::ToolRegister);
            assert_eq!(
                texts(&params),
                vec![
                    Some("lint".to_owned()),
                    Some("cargo clippy".to_owned()),
                    Some("Lint the crate".to_owned()),
                    None,
                    Some("Verification".to_owned()),
                    Some("cli".to_owned()),
                    Some("linting".to_owned()),
                    None,
                ]
            );
        }
        other => panic!("unexpected {other:?}"),
    }
    match decode_operation(&tool_remove_operation("lint"), &ids) {
        Ok(Decoded::Execute { statement, params }) => {
            assert_eq!(statement, Statement::ToolRemove);
            assert_eq!(texts(&params), some(&["lint"]));
        }
        other => panic!("unexpected {other:?}"),
    }
    match decode_operation(&tool_check_operation("lint", "missing", "cargo clippy"), &ids) {
        Ok(Decoded::Execute { statement, params }) => {
            assert_eq!(statement, Statement::ToolCheck);
            assert_eq!(texts(&params), some(&["missing", "lint"]));
        }
        other => panic!("unexpected {other:?}"),
    }
}

#[test]
fn verification_writes_replay_as_written() {
    let ids = ChangesetIds::new();
    match decode_operation(&story_verify_operation("US-1", "fail", "2026-02-03 04:05:06"), &ids) {
        Ok(Decoded::Execute { statement, params }) => {
            assert_eq!(statement, Statement::StoryVerify);
            assert_eq!(texts(&params), some(&["2026-02-03 04:05:06", "fail", "US-1"]));
        }
        other => panic!("unexpected {other:?}"),
    }
    assert_eq!(
        decode_operation(&story_verify_operation("US-1", "pass", "2026-2-3 04:05:06"), &ids).err(),
        Some(HarnessError::InvalidChangeset(
            "verified_at must use canonical YYYY-MM-DD HH:MM:SS, got '2026-2-3 04:05:06'".into()
        ))
    );
    match decode_operation(&story_complete_operation("US-1", "cmp_1", "2026-02-03 04:05:06"), &ids) {
        Ok(Decoded::Execute { statement, params }) => {
            assert_eq!(statement, Statement::StoryComplete);
            assert_eq!(texts(&params), some(&["2026-02-03 04:05:06", "pass", "US-1"]));
        }
        other => panic!("unexpected {other:?}"),
    }
    match decode_operation(&decision_verify_operation("0001-x", "pass"), &ids) {
        Ok(Decoded::Execute { statement, params }) => {
            assert_eq!(statement, Statement::DecisionVerify);
            assert_eq!(texts(&params), some(&["pass", "0001-x"]));
        }
        other => panic!("unexpected {other:?}"),
    }
}

#[test]
fn proposal_decisions_replay_as_decided() {
    let ids = ChangesetIds::new();
    let mut proposal = audit_proposal("stale unfinished stories", 2, Vec::new());
    proposal.lifecycle_state = "regression".to_owned();
    proposal.predecessor_uid = Some("blg_ffffffffffffffffffffffffffffffff".to_owned());
    proposal.risk = "High Risk".to_owned();
    proposal.evidence_items = vec![ProposalEvidence {
        source_kind: "audit".into(),
        uid: "aud_1".into(),
        fingerprint: "fp".into(),
        observed_at: "2026-01-01 00:00:00".into(),
    }];
    let schedule = Some(ObservationSchedule { kind: "trace_count".into(), due_at: None, after_traces: Some(5) });
    let op = proposal_decision_operation(
        BLG,
        "audit.k:v1:abc",
        "accepted",
        &proposal,
        &schedule,
        &None,
        &Some("2026-01-02 00:00:00".to_owned()),
        &None,
        &Some("notes".to_owned()),
    );
    match decode_operation(&op, &ids) {
        Ok(Decoded::ProposalDecision { uid, params, evidence }) => {
            assert_eq!(uid, BLG);
            let t = texts(&params);
            assert_eq!(t[0].as_deref(), Some(BLG));
            assert_eq!(t[1].as_deref(), Some("audit.k:v1:abc"));
            assert_eq!(t[2].as_deref(), Some("blg_ffffffffffffffffffffffffffffffff"));
            assert_eq!(t[3].as_deref(), Some("regression"));
            assert_eq!(t[5].as_deref(), Some("harness-cli propose"));
            assert_eq!(t[8].as_deref(), Some("high_risk"));
            assert_eq!(t[9].as_deref(), Some("accepted"));
            assert_eq!(t[11].as_deref(), Some("notes"));
            assert_eq!(t[12].as_deref(), Some("2026-01-02 00:00:00"));
            assert_eq!(t[13], None);
            assert_eq!(t[14].as_deref(), Some("trace_count"));
            assert_eq!(t[15], None);
            assert_eq!(t[16].as_deref(), Some("#5"));
            assert_eq!(t[17], None);
            match evidence {
                EvidenceLinks::Items(items) => {
                    assert_eq!(items.len(), 1);
                    match &items[0] {
                        Ok(link) => assert_eq!(texts(link), some(&["audit", "aud_1", "fp", "2026-01-01 00:00:00"])),
                        Err(e) => panic!("unexpected {e:?}"),
                    }
                }
                other => panic!("unexpected {other:?}"),
            }
        }
        other => panic!("unexpected {other:?}"),
    }
    let rejected = proposal_decision_operation(
        BLG,
        "k",
        "rejected",
        &proposal,
        &None,
        &Some("covered".to_owned()),
        &None,
        &Some("closed".to_owned()),
        &None,
    );
    assert_eq!(
        decode_operation(&rejected, &ids).err(),
        Some(HarnessError::InvalidChangeset("closed_at must use YYYY-MM-DD HH:MM:SS, got 'closed'".into()))
    );
}

#[test]
fn intakes_and_traces_replay_as_recorded() {
    let ids = ChangesetIds::new();
    const INK: &str = "ink_0123456789abcdef0123456789abcdef";
    const TRC: &str = "trc_0123456789abcdef0123456789abcdef";
    let op = intake_add_operation(
        INK,
        "2026-03-04 05:06:07",
        "harness_improvement",
        "Improve story intake",
        "high_risk",
        &Some("[\"db\"]".to_owned()),
        &None,
        &Some("US-9".to_owned()),
        &None,
    );
    match decode_operation(&op, &ids) {
        Ok(Decoded::Execute { statement, params }) => {
            assert_eq!(statement, Statement::IntakeAddUid);
            assert_eq!(
                texts(&params),
                vec![
                    Some(INK.to_owned()),
                    Some("2026-03-04 05:06:07".to_owned()),
                    Some("harness_improvement".to_owned()),
                    Some("Improve story intake".to_owned()),
                    Some("high_risk".to_owned()),
                    Some("[\"db\"]".to_owned()),
                    None,
                    Some("US-9".to_owned()),
                    None,
                ]
            );
        }
        other => panic!("unexpected {other:?}"),
    }
    let record = TraceRecord {
        task_summary: "Fix replay".to_owned(),
        story_id: Some("US-9".to_owned()),
        agent: Some("codex".to_owned()),
        actions_taken: Some("[\"edit\"]".to_owned()),
        files_read: None,
        files_changed: Some("[\"a.rs\"]".to_owned()),
        decisions_made: None,
        errors: None,
        outcome: Some("completed".to_owned()),
        duration_seconds: Some(30),
        token_estimate: None,
        harness_friction: Some("slow review".to_owned()),
        notes: None,
    };
    let op = trace_add_operation(TRC, "2026-03-04 05:06:08", Some(99), &Some(INK.to_owned()), &record);
    match decode_operation(&op, &ids) {
        Ok(Decoded::ResolvedInsert { statement, table, uid, reference, rest, split }) => {
            assert_eq!(statement, Statement::TraceAddUid);
            assert_eq!(table, IdTable::Intake);
            assert_eq!(uid, TRC);
            assert_eq!(reference.as_deref(), Some(INK));
            assert_eq!(split, 4);
            let rest = rest.expect("fields read");
            let t = texts(&rest);
            assert_eq!(t.len(), 16);
            assert_eq!(t[0].as_deref(), Some("2026-03-04 05:06:08"));
            assert_eq!(t[1].as_deref(), Some("#99"));
            assert_eq!(t[2].as_deref(), Some(INK));
            assert_eq!(t[3].as_deref(), Some("Fix replay"));
            assert_eq!(t[12].as_deref(), Some("#30"));
            assert_eq!(t[13], None);
            assert_eq!(t[14].as_deref(), Some("slow review"));
        }
        other => panic!("unexpected {other:?}"),
    }
    let late = intake_add_operation(INK, "yesterday", "x", "y", "normal", &None, &None, &None, &None);
    assert_eq!(
        decode_operation(&late, &ids).err(),
        Some(HarnessError::InvalidChangeset("created_at must use YYYY-MM-DD HH:MM:SS, got 'yesterday'".into()))
    );
}

#[test]
fn backlog_completions_replay_as_completed() {
    let ids = ChangesetIds::new();
    let op = backlog_complete_operation(BLG, "US-1", 7, "{\"story_id\":\"US-1\"}", "2026-01-05 00:00:00");
    match decode_operation(&op, &ids) {
        Ok(Decoded::Execute { statement, params }) => {
            assert_eq!(statement, Statement::BacklogComplete);
            assert_eq!(
                texts(&params),
                some(&["2026-01-05 00:00:00", "{\"story_id\":\"US-1\"}", "#7", BLG])
            );
        }
        other => panic!("unexpected {other:?}"),
    }
}

#[test]
fn story_decision_and_backlog_writes_replay_as_written() {
    let mut ids = ChangesetIds::new();
    match decode_operation(&story_add_operation("US-2", "Replay", "normal", &None, &Some("cargo test".into()), &None), &ids) {
        Ok(Decoded::Execute { statement, params }) => {
            assert_eq!(statement, Statement::StoryAdd);
            assert_eq!(
                texts(&params),
                vec![Some("US-2".into()), Some("Replay".into()), Some("normal".into()), None, Some("cargo test".into()), None]
            );
        }
        other => panic!("unexpected {other:?}"),
    }
    let update = StoryUpdate {
        id: "US-2".into(),
        status: Some("in_progress".into()),
        evidence: None,
        unit_proof: Some(1),
        integration_proof: None,
        e2e_proof: None,
        platform_proof: Some(0),
        verify_command: None,
    };
    assert_eq!(check_story_update(&update), Ok(()));
    match decode_operation(&story_update_operation(&update), &ids) {
        Ok(Decoded::Execute { statement, params }) => {
            assert_eq!(statement, Statement::StoryUpdate);
            assert_eq!(
                texts(&params),
                vec![Some("in_progress".into()), None, Some("#1".into()), None, None, Some("#0".into()), None, Some("US-2".into())]
            );
        }
        other => panic!("unexpected {other:?}"),
    }
    match decode_operation(&decision_add_operation("0002-x", "Use SQLite", "accepted", &None, &None, &None, &Some("n".into())), &ids) {
        Ok(Decoded::Execute { statement, params }) => {
            assert_eq!(statement, Statement::DecisionAdd);
            assert_eq!(params.len(), 7);
            assert_eq!(texts(&params)[6].as_deref(), Some("n"));
        }
        other => panic!("unexpected {other:?}"),
    }
    let op = backlog_add_operation(BLG, "2026-01-01 10:00:00", "Slow builds", &None, &Some("pain".into()), &None, &Some("normal".into()), &None, &None);
    match decode_operation(&op, &ids) {
        Ok(Decoded::Execute { statement, params }) => {
            assert_eq!(statement, Statement::BacklogAddUid);
            assert_eq!(
                texts(&params),
                vec![
                    Some(BLG.into()),
                    Some("2026-01-01 10:00:00".into()),
                    None,
                    None,
                    Some("Slow builds".into()),
                    None,
                    Some("pain".into()),
                    None,
                    Some("normal".into()),
                    None,
                    None,
                ]
            );
        }
        other => panic!("unexpected {other:?}"),
    }
    ids.remember(IdTable::Backlog, 3, 30);
    match decode_operation(&backlog_close_operation(3, "implemented", &None), &ids) {
        Ok(Decoded::Execute { statement, params }) => {
            assert_eq!(statement, Statement::BacklogClose);
            assert_eq!(texts(&params), vec![Some("implemented".into()), None, Some("#30".into())]);
        }
        other => panic!("unexpected {other:?}"),
    }
    const INT: &str = "int_0123456789abcdef0123456789abcdef";
    let op = intervention_add_operation(INT, "2026-01-01 10:00:00", &None, &None, "review", "missed test", "human", &None);
    match decode_operation(&op, &ids) {
        Ok(Decoded::ResolvedInsert { statement, table, uid, reference, rest, split }) => {
            assert_eq!(statement, Statement::InterventionAddUid);
            assert_eq!(table, IdTable::Trace);
            assert_eq!(uid, INT);
            assert_eq!(reference, None);
            assert_eq!(split, 1);
            assert_eq!(
                texts(&rest.expect("fields read")),
                vec![Some("2026-01-01 10:00:00".into()), None, Some("review".into()), Some("missed test".into()), Some("human".into()), None]
            );
        }
        other => panic!("unexpected {other:?}"),
    }
}

#[test]
fn empty_story_updates_are_refused() {
    let update = StoryUpdate {
        id: "US-2".into(),
        status: None,
        evidence: None,
        unit_proof: None,
        integration_proof: None,
        e2e_proof: None,
        platform_proof: None,
        verify_command: None,
    };
    assert_eq!(check_story_update(&update), Err(HarnessError::EmptyStoryUpdate));
}

#[test]
fn outcome_observations_replay_as_observed() {
    let ids = ChangesetIds::new();
    const OBS: &str = "obs_0123456789abcdef0123456789abcdef";
    let op = outcome_observe_operation(OBS, BLG, 2, "confirmed", "Fewer retries", &None, "2026-04-01 00:00:00");
    match decode_operation(&op, &ids) {
        Ok(Decoded::Execute { statement, params }) => {
            assert_eq!(statement, Statement::BacklogOutcomeObserve);
            assert_eq!(
                texts(&params),
                vec![
                    Some(OBS.to_owned()),
                    Some(BLG.to_owned()),
                    Some("#2".to_owned()),
                    Some("confirmed".to_owned()),
                    Some("Fewer retries".to_owned()),
                    None,
                    Some("2026-04-01 00:00:00".to_owned()),
                ]
            );
        }
        other => panic!("unexpected {other:?}"),
    }
    let refused = outcome_observe_operation(OBS, BLG, 2, "great", "x", &None, "2026-04-01 00:00:00");
    assert_eq!(
        decode_operation(&refused, &ids).err(),
        Some(HarnessError::InvalidChangeset("invalid backlog outcome observation status".into()))
    );
}

#[test]
fn legacy_snapshots_replay_as_captured() {
    let ids = ChangesetIds::new();
    const LEG: &str = "leg_0123456789abcdef0123456789abcdef";
    let op = legacy_capture_operation(LEG, "trace", 4, "fp", "{}", "2026-05-01 00:00:00");
    match decode_operation(&op, &ids) {
        Ok(Decoded::Execute { statement, params }) => {
            assert_eq!(statement, Statement::LegacyEvidenceCapture);
            assert_eq!(texts(&params), some(&[LEG, "trace", "#4", "fp", "{}", "2026-05-01 00:00:00"]));
        }
        other => panic!("unexpected {other:?}"),
    }
    assert_eq!(
        decode_operation(&legacy_capture_operation(LEG, "story", 4, "fp", "{}", "2026-05-01 00:00:00"), &ids).err(),
        Some(HarnessError::InvalidChangeset("legacy evidence source_kind must be trace or intervention".into()))
    );
}

#[test]
fn legacy_reconciliations_replay_as_reconciled() {
    let ids = ChangesetIds::new();
    let text = |s: &str| JsonValue::Str(s.to_owned());
    let row = JsonValue::Object(vec![
        ("created_at".to_owned(), text("2025-01-01 00:00:00")),
        ("title".to_owned(), text("Old item")),
        ("status".to_owned(), text("implemented")),
        ("risk".to_owned(), JsonValue::Null),
    ]);
    let links = vec![ProposalEvidence {
        source_kind: "legacy_snapshot".into(),
        uid: "leg_1".into(),
        fingerprint: "fp".into(),
        observed_at: "2025-01-01 00:00:00".into(),
    }];
    let op = legacy_reconcile_operation(BLG, "Old item", row, "improvement.proposal:v1:abc", &links);
    match decode_operation(&op, &ids) {
        Ok(Decoded::LegacyReconcile { uid, title, keys, row, evidence }) => {
            assert_eq!(uid, BLG);
            assert_eq!(title, "Old item");
            assert_eq!(texts(&keys.expect("keys")), some(&["improvement.proposal:v1:abc", "original"]));
            let row = texts(&row.expect("row"));
            assert_eq!(row.len(), 21);
            assert_eq!(row[0].as_deref(), Some(BLG));
            assert_eq!(row[3].as_deref(), Some("2025-01-01 00:00:00"));
            assert_eq!(row[4].as_deref(), Some("Old item"));
            assert_eq!(row[9].as_deref(), Some("implemented"));
            assert_eq!(evidence.len(), 1);
            assert_eq!(texts(evidence[0].as_ref().expect("link")), some(&["legacy_snapshot", "leg_1", "fp", "2025-01-01 00:00:00"]));
        }
        other => panic!("unexpected {other:?}"),
    }
}
