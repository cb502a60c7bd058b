use harness_infra::changeset::{ChangesetIds, IdTable, Param, mapped_id, required_uid, canonical_sqlite_timestamp};
use harness_infra::errors::HarnessError;
use harness_infra::json::JsonValue;
use harness_infra::operation::{decode_operation, Decoded, EvidenceLinks, Statement};
use std::collections::HashMap;

fn to_json(v: &serde_json::Value) -> JsonValue {
    match v {
        serde_json::Value::Null => JsonValue::Null,
        serde_json::Value::Bool(b) => JsonValue::Bool(*b),
        serde_json::Value::Number(n) => JsonValue::Number(n.as_i64()),
        serde_json::Value::String(s) => JsonValue::Str(s.clone()),
        serde_json::Value::Array(items) => JsonValue::Array(items.iter().map(to_json).collect()),
        serde_json::Value::Object(map) => {
            JsonValue::Object(map.iter().map(|(k, v)| (k.clone(), to_json(v))).collect())
        }
    }
}

fn op(text: &str) -> JsonValue {
    to_json(&serde_json::from_str(text).unwrap())
}

fn text(s: &str) -> Param {
    Param::Text(s.to_owned())
}

fn same(a: &[Param], b: &[Param]) -> bool {
    a.len() == b.len()
        && a.iter().zip(b).all(|(x, y)| match (x, y) {
            (Param::Null, Param::Null) | (Param::Now, Param::Now) => true,
            (Param::Text(p), Param::Text(q)) => p == q,
            (Param::Int(p), Param::Int(q)) => p == q,
            _ => false,
        })
}

const BLG: &str = "blg_0123456789abcdef0123456789abcdef";

#[test]
fn missing_op_is_refused() {
    let ids = ChangesetIds::new();
    let r = decode_operation(&op(r#"{"version":1}"#), &ids);
    assert_eq!(r.err(), Some(HarnessError::InvalidChangeset("missing string field op".to_owned())));
}

#[test]
fn unsupported_version_is_refused() {
    let ids = ChangesetIds::new();
    let r = decode_operation(&op(r#"{"op":"story.add","version":3}"#), &ids);
    assert_eq!(
        r.err(),
        Some(HarnessError::InvalidChangeset("unsupported version 3 for operation story.add".to_owned()))
    );
    let r = decode_operation(&op(r#"{"op":"story.add","version":-4}"#), &ids);
    assert_eq!(
        r.err(),
        Some(HarnessError::InvalidChangeset("unsupported version -4 for operation story.add".to_owned()))
    );
}

#[test]
fn unknown_operation_is_refused() {
    let ids = ChangesetIds::new();
    let r = decode_operation(&op(r#"{"op":"story.explode"}"#), &ids);
    assert_eq!(r.err(), Some(HarnessError::UnsupportedChangesetOp("story.explode".to_owned())));
}

#[test]
fn story_add_reads_fields_in_statement_order() {
    let ids = ChangesetIds::new();
    let r = decode_operation(
        &op(r#"{"op":"story.add","id":"US-1","payload":{"title":"T","risk_lane":"normal","notes":"n"}}"#),
        &ids,
    );
    match r {
        Ok(Decoded::Execute { statement, params }) => {
            assert_eq!(statement, Statement::StoryAdd);
            assert!(same(&params, &[text("US-1"), text("T"), text("normal"), Param::Null, Param::Null, text("n")]));
        }
        other => panic!("unexpected {other:?}"),
    }
}

#[test]
fn first_missing_field_is_reported() {
    let ids = ChangesetIds::new();
    let r = decode_operation(&op(r#"{"op":"story.add","payload":{"risk_lane":"normal"}}"#), &ids);
    assert_eq!(r.err(), Some(HarnessError::InvalidChangeset("missing string field id".to_owned())));
    let r = decode_operation(&op(r#"{"op":"story.add","id":"US-1","payload":{}}"#), &ids);
    assert_eq!(r.err(), Some(HarnessError::InvalidChangeset("missing string field title".to_owned())));
    let r = decode_operation(&op(r#"{"op":"backlog.add","payload":{"title":"x"}}"#), &ids);
    assert_eq!(r.err(), Some(HarnessError::InvalidChangeset("missing integer field id".to_owned())));
}

#[test]
fn uids_are_checked_by_prefix_and_digits() {
    let ids = ChangesetIds::new();
    let r = decode_operation(&op(r#"{"op":"backlog.add","version":2,"uid":"blg_xyz","payload":{}}"#), &ids);
    assert_eq!(r.err(), Some(HarnessError::InvalidChangeset("invalid blg uid in uid".to_owned())));
    assert!(required_uid(&op(&format!(r#"{{"uid":"{BLG}"}}"#)), "uid", "blg").is_ok());
    assert!(required_uid(&op(&format!(r#"{{"uid":"{BLG}"}}"#)), "uid", "trc").is_err());
}

#[test]
fn timestamps_must_be_canonical() {
    assert_eq!(canonical_sqlite_timestamp("2026-01-02 03:04:05".to_owned(), "t"), Ok("2026-01-02 03:04:05".to_owned()));
    assert_eq!(
        canonical_sqlite_timestamp("yesterday".to_owned(), "t"),
        Err(HarnessError::InvalidChangeset("t must use YYYY-MM-DD HH:MM:SS, got 'yesterday'".to_owned()))
    );
    assert_eq!(
        canonical_sqlite_timestamp("2026-1-2 3:4:5".to_owned(), "t"),
        Err(HarnessError::InvalidChangeset("t must use canonical YYYY-MM-DD HH:MM:SS, got '2026-1-2 3:4:5'".to_owned()))
    );
}

#[test]
fn story_verify_version_2_requires_time() {
    let ids = ChangesetIds::new();
    let r = decode_operation(&op(r#"{"op":"story.verify","version":2,"id":"US-1","payload":{"result":"pass"}}"#), &ids);
    assert_eq!(
        r.err(),
        Some(HarnessError::InvalidChangeset("story.verify version 2 requires verified_at".to_owned()))
    );
    let r = decode_operation(&op(r#"{"op":"story.verify","id":"US-1","payload":{"result":"pass"}}"#), &ids);
    match r {
        Ok(Decoded::Execute { params, .. }) => assert!(same(&params, &[Param::Now, text("pass"), text("US-1")])),
        other => panic!("unexpected {other:?}"),
    }
}

#[test]
fn self_dependency_is_refused_before_the_store() {
    let ids = ChangesetIds::new();
    let r = decode_operation(&op(r#"{"op":"story.dependency.add","id":"US-1","payload":{"blocked":"US-1"}}"#), &ids);
    assert_eq!(r.err(), Some(HarnessError::StoryDependencySelf("US-1".to_owned())));
}

#[test]
fn backlog_complete_defaults_its_evidence() {
    let ids = ChangesetIds::new();
    let r = decode_operation(
        &op(&format!(
            r#"{{"op":"backlog.complete","version":2,"uid":"{BLG}","payload":{{"story_id":"US-1","completed_at":"2026-01-02 03:04:05"}}}}"#
        )),
        &ids,
    );
    match r {
        Ok(Decoded::Execute { statement, params }) => {
            assert_eq!(statement, Statement::BacklogComplete);
            assert!(same(
                &params,
                &[text("2026-01-02 03:04:05"), text(r#"{"result":"pass","story_id":"US-1"}"#), Param::Null, text(BLG)]
            ));
        }
        other => panic!("unexpected {other:?}"),
    }
}

#[test]
fn local_ids_are_translated() {
    let mut ids = ChangesetIds::new();
    ids.remember(IdTable::Backlog, 7, 42);
    let r = decode_operation(&op(r#"{"op":"backlog.close","id":7,"payload":{"status":"implemented"}}"#), &ids);
    match r {
        Ok(Decoded::Execute { params, .. }) => assert!(same(&params, &[text("implemented"), Param::Null, Param::Int(42)])),
        other => panic!("unexpected {other:?}"),
    }
    let r = decode_operation(&op(r#"{"op":"backlog.close","id":8,"payload":{"status":"implemented"}}"#), &ids);
    match r {
        Ok(Decoded::Execute { params, .. }) => assert!(same(&params, &[text("implemented"), Param::Null, Param::Int(8)])),
        other => panic!("unexpected {other:?}"),
    }
    let mut m = HashMap::new();
    m.insert(1i64, 10i64);
    assert_eq!(mapped_id(Some(1), &m), Some(10));
    assert_eq!(mapped_id(Some(2), &m), Some(2));
    assert_eq!(mapped_id(None, &m), None);
}

#[test]
fn version_one_inserts_remember_their_source_id() {
    let ids = ChangesetIds::new();
    let r = decode_operation(&op(r#"{"op":"intake.add","id":5,"payload":{"input_type":"bug","summary":"s","risk_lane":"normal"}}"#), &ids);
    match r {
        Ok(Decoded::InsertRemembered { table, source_id, params, .. }) => {
            assert_eq!(table, IdTable::Intake);
            assert_eq!(source_id, 5);
            assert_eq!(params.len(), 7);
        }
        other => panic!("unexpected {other:?}"),
    }
}

#[test]
fn legacy_reconcile_defers_row_checks() {
    let ids = ChangesetIds::new();
    let r = decode_operation(
        &op(&format!(r#"{{"op":"backlog.legacy.reconcile","uid":"{BLG}","payload":{{"title":"Fix"}}}}"#)),
        &ids,
    );
    match r {
        Ok(Decoded::LegacyReconcile { title, keys, row, evidence, .. }) => {
            assert_eq!(title, "Fix");
            assert_eq!(keys.err(), Some(HarnessError::InvalidChangeset("missing string field proposal_key".to_owned())));
            assert_eq!(
                row.err(),
                Some(HarnessError::InvalidChangeset(
                    "legacy reconciliation cannot reconstruct a missing row without legacy_row".to_owned()
                ))
            );
            assert!(evidence.is_empty());
        }
        other => panic!("unexpected {other:?}"),
    }
}

#[test]
fn proposal_decision_without_evidence_links_a_snapshot() {
    let ids = ChangesetIds::new();
    let r = decode_operation(
        &op(&format!(
            r#"{{"op":"backlog.proposal.decision","version":2,"uid":"{BLG}","payload":{{"proposal_key":"k","occurrence_kind":"original","title":"T","status":"accepted","evidence_uid":"e","evidence_fingerprint":"f"}}}}"#
        )),
        &ids,
    );
    match r {
        Ok(Decoded::ProposalDecision { uid, params, evidence }) => {
            assert_eq!(uid, BLG);
            assert_eq!(params.len(), 18);
            assert!(same(&params[0..2], &[text(BLG), text("k")]));
            match evidence {
                EvidenceLinks::Snapshot(Ok(p)) => assert!(same(&p, &[text("e"), text("f")])),
                other => panic!("unexpected {other:?}"),
            }
        }
        other => panic!("unexpected {other:?}"),
    }
}

#[test]
fn evidence_items_bind_their_time_last() {
    let ids = ChangesetIds::new();
    let r = decode_operation(
        &op(&format!(
            r#"{{"op":"backlog.proposal.decision","uid":"{BLG}","payload":{{"proposal_key":"k","occurrence_kind":"original","title":"T","status":"accepted","evidence":[{{"source_kind":"trace","evidence_uid":"u","evidence_fingerprint":"f","observed_at":"then"}}]}}}}"#
        )),
        &ids,
    );
    match r {
        Ok(Decoded::ProposalDecision { evidence: EvidenceLinks::Items(items), .. }) => {
            assert_eq!(items.len(), 1);
            assert!(same(items[0].as_ref().unwrap(), &[text("trace"), text("u"), text("f"), text("then")]));
        }
        other => panic!("unexpected {other:?}"),
    }
}

#[test]
fn trace_add_version_2_waits_for_its_intake() {
    let ids = ChangesetIds::new();
    let r = decode_operation(
        &op(r#"{"op":"trace.add","version":2,"uid":"trc_0123456789abcdef0123456789abcdef","payload":{"created_at":"2026-01-02 03:04:05","task_summary":"t","intake_uid":"ink_1"}}"#),
        &ids,
    );
    match r {
        Ok(Decoded::ResolvedInsert { table, reference, rest, split, .. }) => {
            assert_eq!(table, IdTable::Intake);
            assert_eq!(reference, Some("ink_1".to_owned()));
            assert_eq!(split, 4);
            assert_eq!(rest.unwrap().len(), 16);
        }
        other => panic!("unexpected {other:?}"),
    }
}
