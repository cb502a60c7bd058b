//! The operations that the harness logs for its writes, built as JSON
//! values; each states what replaying it does, so a logged write replays
//! as the same write.
use vstd::prelude::*;
use crate::json::{JsonValue, entry_index, json_get, json_i64, json_str};
use crate::changeset::{
    Fault, FieldView, IdsView, ParamView, canonical_timestamp, field_value, fields_value, optional_int, required_text,
    uid_text, valid_uid,
};
use crate::field_lists::{
    audit_evidence_clear_fields, audit_evidence_open_fields, decision_verify_fields, story_complete_fields,
    story_dependency_remove_fields, story_verify_fields, tool_check_fields, tool_register_fields, tool_remove_fields,
};
use crate::changeset::optional_text;
use crate::text::{is_lit, normalize_token, normalized, opt_view};
use crate::proposal::{ImprovementProposal, ObservationSchedule, ProposalEvidence};
use crate::field_lists::{evidence_item_fields, intake_add_uid_fields, proposal_decision_fields, trace_add_uid_rest_fields};
use crate::changeset::{IdTable, map_id};
use crate::lifecycle::StoryUpdate;
use crate::field_lists::{
    backlog_add_uid_fields, backlog_close_fields, decision_add_fields, intervention_add_uid_rest_fields, legacy_capture_tail_fields, legacy_row_fields, outcome_tail_fields,
    reconcile_keys_fields,
    story_add_fields, story_update_fields,
};
use crate::operation::is_observation_status;
use crate::json::json_array;
use crate::operation::{EvidenceView, decision_params, evidence_item, evidence_items};
use crate::operation::{DecodedView, Statement, operation_outcome, arm_outcome, declared_version, payload_of};

verus! {

fn text(s: &str) -> (v: JsonValue)
    ensures
        v matches JsonValue::Str(t) && t@ == s@,
{
    JsonValue::Str(s.to_owned())
}

fn entry(key: &str, value: JsonValue) -> (e: (String, JsonValue))
    ensures
        e.0@ == key@,
        e.1 == value,
{
    (key.to_owned(), value)
}

/// An operation object: `op`, `version`, one more top-level field, and the
/// payload.
fn operation(name: &str, version: i64, field: &str, value: &str, payload: Vec<(String, JsonValue)>) -> (v: JsonValue)
    ensures
        v matches JsonValue::Object(entries) && {
            &&& entries@.len() == 4
            &&& entries@[0].0@ == "op"@
            &&& (entries@[0].1 matches JsonValue::Str(n) && n@ == name@)
            &&& entries@[1].0@ == "version"@
            &&& entries@[1].1 == JsonValue::Number(Some(version))
            &&& entries@[2].0@ == field@
            &&& (entries@[2].1 matches JsonValue::Str(t) && t@ == value@)
            &&& entries@[3].0@ == "payload"@
            &&& entries@[3].1 == JsonValue::Object(payload)
        },
{
    let mut entries: Vec<(String, JsonValue)> = Vec::new();
    entries.push(entry("op", text(name)));
    entries.push(entry("version", JsonValue::Number(Some(version))));
    entries.push(entry(field, text(value)));
    entries.push(entry("payload", JsonValue::Object(payload)));
    JsonValue::Object(entries)
}

/// The entry index of `key` in four entries with distinct keys.
proof fn lemma_index_of_four(entries: Seq<(String, JsonValue)>, key: Seq<char>, i: int)
    requires
        entries.len() == 4,
        0 <= i < 4,
        entries[i].0@ == key,
        forall|j: int| 0 <= j < 4 && j != i ==> entries[j].0@ != key,
    ensures
        entry_index(entries, key) == i,
{
    reveal_with_fuel(entry_index, 5);
    assert(entries.drop_last().drop_last().drop_last().drop_last().len() == 0);
    assert(entries.drop_last().last() == entries[2]);
    assert(entries.drop_last().drop_last().last() == entries[1]);
    assert(entries.drop_last().drop_last().drop_last().last() == entries[0]);
}

proof fn lemma_index_of_one(entries: Seq<(String, JsonValue)>, key: Seq<char>)
    requires
        entries.len() == 1,
        entries[0].0@ == key,
    ensures
        entry_index(entries, key) == 0,
{
    reveal_with_fuel(entry_index, 2);
    assert(entries.drop_last().len() == 0);
}

/// No entry has `key`: it has no index.
proof fn lemma_no_key(entries: Seq<(String, JsonValue)>, key: Seq<char>)
    requires
        forall|j: int| 0 <= j < entries.len() ==> (#[trigger] entries[j]).0@ != key,
    ensures
        entry_index(entries, key) == -1,
    decreases entries.len(),
{
    if entries.len() > 0 {
        assert forall|j: int| 0 <= j < entries.drop_last().len() implies (#[trigger] entries.drop_last()[j]).0@ != key by {
            assert(entries.drop_last()[j] == entries[j]);
        }
        lemma_no_key(entries.drop_last(), key);
    }
}

/// The first entry with `key` is at `i`.
proof fn lemma_first_key(entries: Seq<(String, JsonValue)>, key: Seq<char>, i: int)
    requires
        0 <= i < entries.len(),
        entries[i].0@ == key,
        forall|j: int| 0 <= j < i ==> (#[trigger] entries[j]).0@ != key,
    ensures
        entry_index(entries, key) == i,
    decreases entries.len(),
{
    if i < entries.len() - 1 {
        assert(entries.drop_last()[i] == entries[i]);
        assert forall|j: int| 0 <= j < i implies (#[trigger] entries.drop_last()[j]).0@ != key by {
            assert(entries.drop_last()[j] == entries[j]);
        }
        lemma_first_key(entries.drop_last(), key, i);
    } else {
        assert forall|j: int| 0 <= j < entries.drop_last().len() implies (#[trigger] entries.drop_last()[j]).0@ != key by {
            assert(entries.drop_last()[j] == entries[j]);
        }
        lemma_no_key(entries.drop_last(), key);
    }
}

/// The operation names of the replay, with the facts that tell them apart.
proof fn lemma_op_names()
    ensures
        "intake.add"@.len() == 10 && "intake.add"@[0] == 'i',
        "story.add"@.len() == 9 && "story.add"@[0] == 's',
        "story.update"@.len() == 12 && "story.update"@[6] == 'u' && "story.update"@[0] == 's',
        "story.dependency.add"@.len() == 20 && "story.dependency.add"@[6] == 'd' && "story.dependency.add"@[0] == 's',
        "story.dependency.remove"@.len() == 23 && "story.dependency.remove"@[0] == 's',
        "story.backlog.link"@.len() == 18,
        "story.backlog.unlink"@.len() == 20 && "story.backlog.unlink"@[6] == 'b' && "story.backlog.unlink"@[0] == 's',
        "story.verify"@.len() == 12 && "story.verify"@[6] == 'v' && "story.verify"@[0] == 's',
        "story.complete"@.len() == 14,
        "backlog.complete"@.len() == 16 && "backlog.complete"@[0] == 'b',
        "legacy.evidence.capture"@.len() == 23 && "legacy.evidence.capture"@[0] == 'l',
        "backlog.legacy.reconcile"@.len() == 24,
        "backlog.outcome.observe"@.len() == 23 && "backlog.outcome.observe"@[0] == 'b',
        "decision.add"@.len() == 12 && "decision.add"@[0] == 'd',
        "decision.verify"@.len() == 15,
        "backlog.proposal.decision"@.len() == 25,
        "backlog.add"@.len() == 11 && "backlog.add"@[0] == 'b',
        "backlog.close"@.len() == 13 && "backlog.close"@[0] == 'b',
        "tool.register"@.len() == 13 && "tool.register"@[0] == 't',
        "tool.check"@.len() == 10 && "tool.check"@[0] == 't',
        "tool.remove"@.len() == 11 && "tool.remove"@[0] == 't',
        "intervention.add"@.len() == 16 && "intervention.add"@[0] == 'i',
        "trace.add"@.len() == 9 && "trace.add"@[0] == 't',
        "audit.evidence.open"@.len() == 19,
        "audit.evidence.clear"@.len() == 20 && "audit.evidence.clear"@[0] == 'a',
{
    reveal_strlit("intake.add");
    reveal_strlit("story.add");
    reveal_strlit("story.update");
    reveal_strlit("story.dependency.add");
    reveal_strlit("story.dependency.remove");
    reveal_strlit("story.backlog.link");
    reveal_strlit("story.backlog.unlink");
    reveal_strlit("story.verify");
    reveal_strlit("story.complete");
    reveal_strlit("backlog.complete");
    reveal_strlit("legacy.evidence.capture");
    reveal_strlit("backlog.legacy.reconcile");
    reveal_strlit("backlog.outcome.observe");
    reveal_strlit("decision.add");
    reveal_strlit("decision.verify");
    reveal_strlit("backlog.proposal.decision");
    reveal_strlit("backlog.add");
    reveal_strlit("backlog.close");
    reveal_strlit("tool.register");
    reveal_strlit("tool.check");
    reveal_strlit("tool.remove");
    reveal_strlit("intervention.add");
    reveal_strlit("trace.add");
    reveal_strlit("audit.evidence.open");
    reveal_strlit("audit.evidence.clear");
}

proof fn lemma_arm_dependency_add(op: JsonValue, payload: JsonValue, ids: IdsView)
    ensures
        arm_outcome("story.dependency.add"@, 1, op, payload, ids) == crate::operation::dependency_add(op, payload),
{
    lemma_op_names();
}

/// What the standard four top-level fields of a built operation read back as.
proof fn lemma_operation_fields(op: JsonValue, name: Seq<char>, field: Seq<char>, value: Seq<char>, payload: JsonValue)
    requires
        op matches JsonValue::Object(entries) && {
            &&& entries@.len() == 4
            &&& entries@[0].0@ == "op"@
            &&& (entries@[0].1 matches JsonValue::Str(n) && n@ == name)
            &&& entries@[1].0@ == "version"@
            &&& entries@[2].0@ == field
            &&& (entries@[2].1 matches JsonValue::Str(t) && t@ == value)
            &&& entries@[3].0@ == "payload"@
            &&& entries@[3].1 == payload
        },
        field == "id"@ || field == "uid"@,
    ensures
        json_str(op, "op"@) == Some(name),
        json_get(op, "version"@) == Some(op->Object_0@[1].1),
        json_str(op, field) == Some(value),
        payload_of(op) == payload,
{
    reveal_strlit("op");
    reveal_strlit("version");
    reveal_strlit("id");
    reveal_strlit("uid");
    reveal_strlit("payload");
    let entries = op->Object_0@;
    assert("op"@[0] != "id"@[0]);
    assert("op"@[0] != "uid"@[0]);
    assert("version"@[0] != "payload"@[0]);
    assert(entries[0].0@ != entries[1].0@ && entries[0].0@ != entries[2].0@ && entries[0].0@ != entries[3].0@);
    assert(entries[1].0@ != entries[2].0@ && entries[1].0@ != entries[3].0@ && entries[2].0@ != entries[3].0@);
    lemma_index_of_four(entries, "op"@, 0);
    lemma_index_of_four(entries, "version"@, 1);
    lemma_index_of_four(entries, field, 2);
    lemma_index_of_four(entries, "payload"@, 3);
}

/// The operation logged when `blocker` comes to block `blocked`; replaying
/// it requests the same dependency.
pub fn dependency_add_operation(blocker: &str, blocked: &str) -> (op: JsonValue)
    requires
        blocker@ != blocked@,
    ensures
        forall|ids: IdsView| #[trigger] operation_outcome(op, ids)
            == Ok::<DecodedView, Fault>(DecodedView::DependencyAdd { blocker: blocker@, blocked: blocked@ }),
{
    let mut payload: Vec<(String, JsonValue)> = Vec::new();
    payload.push(entry("blocked", text(blocked)));
    let op = operation("story.dependency.add", 1, "id", blocker, payload);
    proof {
        lemma_operation_fields(op, "story.dependency.add"@, "id"@, blocker@, JsonValue::Object(payload));
        lemma_index_of_one(payload@, "blocked"@);
        assert(declared_version(op) == 1);
        assert(json_str(JsonValue::Object(payload), "blocked"@) == Some(blocked@));
        assert forall|ids: IdsView| #[trigger] operation_outcome(op, ids)
            == Ok::<DecodedView, Fault>(DecodedView::DependencyAdd { blocker: blocker@, blocked: blocked@ }) by {
            lemma_arm_dependency_add(op, payload_of(op), ids);
        }
    }
    op
}


/// Fields that each read back as given read back together.
proof fn lemma_fields_read(
    op: JsonValue,
    payload: JsonValue,
    fs: Seq<FieldView>,
    vals: Seq<ParamView>,
    version: i64,
    name: Seq<char>,
    ids: IdsView,
)
    requires
        fs.len() == vals.len(),
        forall|i: int| 0 <= i < fs.len() ==> field_value(op, payload, #[trigger] fs[i], version, name, ids) == Ok::<ParamView, Fault>(vals[i]),
    ensures
        fields_value(op, payload, fs, version, name, ids) == Ok::<Seq<ParamView>, Fault>(vals),
    decreases fs.len(),
{
    if fs.len() > 0 {
        assert forall|i: int| 0 <= i < fs.drop_last().len() implies field_value(op, payload, #[trigger] fs.drop_last()[i], version, name, ids)
            == Ok::<ParamView, Fault>(vals.drop_last()[i]) by {
            assert(fs.drop_last()[i] == fs[i]);
        }
        lemma_fields_read(op, payload, fs.drop_last(), vals.drop_last(), version, name, ids);
        assert(field_value(op, payload, fs[fs.len() - 1], version, name, ids) == Ok::<ParamView, Fault>(vals[fs.len() - 1]));
        assert(vals.drop_last().push(vals.last()) =~= vals);
    } else {
        assert(vals =~= Seq::<ParamView>::empty());
    }
}

/// The operation logged when `blocker` stops blocking `blocked`; replaying
/// it removes the same dependency.
pub fn dependency_remove_operation(blocker: &str, blocked: &str) -> (op: JsonValue)
    ensures
        forall|ids: IdsView| #[trigger] operation_outcome(op, ids) == Ok::<DecodedView, Fault>(DecodedView::Execute {
            statement: Statement::StoryDependencyRemove,
            params: seq![ParamView::Text(blocker@), ParamView::Text(blocked@)],
        }),
{
    let mut payload: Vec<(String, JsonValue)> = Vec::new();
    payload.push(entry("blocked", text(blocked)));
    let op = operation("story.dependency.remove", 1, "id", blocker, payload);
    proof {
        lemma_operation_fields(op, "story.dependency.remove"@, "id"@, blocker@, JsonValue::Object(payload));
        lemma_index_of_one(payload@, "blocked"@);
        assert(declared_version(op) == 1);
        let p = JsonValue::Object(payload);
        let vals = seq![ParamView::Text(blocker@), ParamView::Text(blocked@)];
        assert forall|ids: IdsView| #[trigger] operation_outcome(op, ids) == Ok::<DecodedView, Fault>(DecodedView::Execute {
            statement: Statement::StoryDependencyRemove,
            params: vals,
        }) by {
            lemma_op_names();
            let fs = story_dependency_remove_fields();
            assert(field_value(op, p, fs[0], 1, "story.dependency.remove"@, ids) == Ok::<ParamView, Fault>(vals[0]));
            assert(field_value(op, p, fs[1], 1, "story.dependency.remove"@, ids) == Ok::<ParamView, Fault>(vals[1]));
            lemma_fields_read(op, p, fs, vals, 1, "story.dependency.remove"@, ids);
        }
    }
    op
}

/// The operation logged when a story links backlog item `backlog_uid` with
/// `relationship` at `linked_at` (`linked_at_unix_ns`); replaying it makes
/// the same link, with the time checked as canonical date-time text, when
/// the item's uid is one the replay accepts.
pub fn backlog_link_operation(
    story_id: &str,
    backlog_uid: &str,
    relationship: &str,
    linked_at: &str,
    linked_at_unix_ns: i64,
) -> (op: JsonValue)
    ensures
        valid_uid(backlog_uid@, "blg"@) ==> forall|ids: IdsView| #[trigger] operation_outcome(op, ids) == Ok::<DecodedView, Fault>(DecodedView::BacklogLink {
            story_id: story_id@,
            backlog_uid: backlog_uid@,
            relationship: relationship@,
            linked_at: canonical_timestamp(linked_at@, "linked_at"@),
            linked_at_unix_ns: ParamView::Int(linked_at_unix_ns),
        }),
{
    let mut payload: Vec<(String, JsonValue)> = Vec::new();
    payload.push(entry("backlog_uid", text(backlog_uid)));
    payload.push(entry("relationship", text(relationship)));
    payload.push(entry("linked_at", text(linked_at)));
    payload.push(entry("linked_at_unix_ns", JsonValue::Number(Some(linked_at_unix_ns))));
    let op = operation("story.backlog.link", 2, "id", story_id, payload);
    proof {
        lemma_operation_fields(op, "story.backlog.link"@, "id"@, story_id@, JsonValue::Object(payload));
        assert(declared_version(op) == 2);
        reveal_strlit("backlog_uid");
        reveal_strlit("relationship");
        reveal_strlit("linked_at");
        reveal_strlit("linked_at_unix_ns");
        let e = payload@;
        assert("backlog_uid"@.len() == 11 && "relationship"@.len() == 12 && "linked_at"@.len() == 9
            && "linked_at_unix_ns"@.len() == 17);
        lemma_first_key(e, "backlog_uid"@, 0);
        lemma_first_key(e, "relationship"@, 1);
        lemma_first_key(e, "linked_at"@, 2);
        lemma_first_key(e, "linked_at_unix_ns"@, 3);
        let p = JsonValue::Object(payload);
        assert(json_str(p, "backlog_uid"@) == Some(backlog_uid@));
        assert(json_str(p, "relationship"@) == Some(relationship@));
        assert(json_str(p, "linked_at"@) == Some(linked_at@));
        assert(json_i64(p, "linked_at_unix_ns"@) == Some(linked_at_unix_ns));
        assert forall|ids: IdsView| valid_uid(backlog_uid@, "blg"@) implies #[trigger] operation_outcome(op, ids) == Ok::<DecodedView, Fault>(DecodedView::BacklogLink {
            story_id: story_id@,
            backlog_uid: backlog_uid@,
            relationship: relationship@,
            linked_at: canonical_timestamp(linked_at@, "linked_at"@),
            linked_at_unix_ns: ParamView::Int(linked_at_unix_ns),
        }) by {
            lemma_op_names();
            assert(field_value(op, p, crate::operation::linked_at_field(), 2, "story.backlog.link"@, ids)
                == canonical_timestamp(linked_at@, "linked_at"@));
        }
    }
    op
}

/// The operation logged when a story unlinks backlog item `backlog_uid`;
/// replaying it removes the same link, when the item's uid is one the
/// replay accepts.
pub fn backlog_unlink_operation(story_id: &str, backlog_uid: &str) -> (op: JsonValue)
    ensures
        valid_uid(backlog_uid@, "blg"@) ==> forall|ids: IdsView| #[trigger] operation_outcome(op, ids) == Ok::<DecodedView, Fault>(DecodedView::BacklogUnlink {
            story_id: story_id@,
            backlog_uid: backlog_uid@,
        }),
{
    let mut payload: Vec<(String, JsonValue)> = Vec::new();
    payload.push(entry("backlog_uid", text(backlog_uid)));
    let op = operation("story.backlog.unlink", 1, "id", story_id, payload);
    proof {
        lemma_operation_fields(op, "story.backlog.unlink"@, "id"@, story_id@, JsonValue::Object(payload));
        lemma_index_of_one(payload@, "backlog_uid"@);
        assert(declared_version(op) == 1);
        assert forall|ids: IdsView| valid_uid(backlog_uid@, "blg"@) implies #[trigger] operation_outcome(op, ids) == Ok::<DecodedView, Fault>(DecodedView::BacklogUnlink {
            story_id: story_id@,
            backlog_uid: backlog_uid@,
        }) by {
            lemma_op_names();
        }
    }
    op
}

/// The operation logged when an audit evidence episode `uid` opens for
/// `finding_key` with `fingerprint` at `opened_at`; replaying it opens the
/// same episode, with the time checked as canonical date-time text.
pub fn audit_open_operation(uid: &str, finding_key: &str, fingerprint: &str, opened_at: &str) -> (op: JsonValue)
    ensures
        forall|ids: IdsView| #[trigger] operation_outcome(op, ids) == match canonical_timestamp(opened_at@, "opened_at"@) {
            Ok(t) => Ok::<DecodedView, Fault>(DecodedView::Execute {
                statement: Statement::AuditEvidenceOpen,
                params: seq![ParamView::Text(uid@), ParamView::Text(finding_key@), ParamView::Text(fingerprint@), t],
            }),
            Err(f) => Err(f),
        },
{
    let mut payload: Vec<(String, JsonValue)> = Vec::new();
    payload.push(entry("finding_key", text(finding_key)));
    payload.push(entry("evidence_fingerprint", text(fingerprint)));
    payload.push(entry("opened_at", text(opened_at)));
    let op = operation("audit.evidence.open", 1, "uid", uid, payload);
    proof {
        lemma_operation_fields(op, "audit.evidence.open"@, "uid"@, uid@, JsonValue::Object(payload));
        assert(declared_version(op) == 1);
        reveal_strlit("finding_key");
        reveal_strlit("evidence_fingerprint");
        reveal_strlit("opened_at");
        assert("finding_key"@.len() == 11 && "evidence_fingerprint"@.len() == 20 && "opened_at"@.len() == 9);
        let e = payload@;
        lemma_first_key(e, "finding_key"@, 0);
        lemma_first_key(e, "evidence_fingerprint"@, 1);
        lemma_first_key(e, "opened_at"@, 2);
        let p = JsonValue::Object(payload);
        assert forall|ids: IdsView| #[trigger] operation_outcome(op, ids) == match canonical_timestamp(opened_at@, "opened_at"@) {
            Ok(t) => Ok::<DecodedView, Fault>(DecodedView::Execute {
                statement: Statement::AuditEvidenceOpen,
                params: seq![ParamView::Text(uid@), ParamView::Text(finding_key@), ParamView::Text(fingerprint@), t],
            }),
            Err(f) => Err(f),
        } by {
            lemma_op_names();
            let fs = audit_evidence_open_fields();
            let name = "audit.evidence.open"@;
            match canonical_timestamp(opened_at@, "opened_at"@) {
                Ok(t) => {
                    let vals = seq![ParamView::Text(uid@), ParamView::Text(finding_key@), ParamView::Text(fingerprint@), t];
                    assert(field_value(op, p, fs[0], 1, name, ids) == Ok::<ParamView, Fault>(vals[0]));
                    assert(field_value(op, p, fs[1], 1, name, ids) == Ok::<ParamView, Fault>(vals[1]));
                    assert(field_value(op, p, fs[2], 1, name, ids) == Ok::<ParamView, Fault>(vals[2]));
                    assert(field_value(op, p, fs[3], 1, name, ids) == Ok::<ParamView, Fault>(vals[3]));
                    lemma_fields_read(op, p, fs, vals, 1, name, ids);
                },
                Err(f) => {
                    let head = seq![ParamView::Text(uid@), ParamView::Text(finding_key@), ParamView::Text(fingerprint@)];
                    assert(field_value(op, p, fs[0], 1, name, ids) == Ok::<ParamView, Fault>(head[0]));
                    assert(field_value(op, p, fs[1], 1, name, ids) == Ok::<ParamView, Fault>(head[1]));
                    assert(field_value(op, p, fs[2], 1, name, ids) == Ok::<ParamView, Fault>(head[2]));
                    lemma_fields_read(op, p, fs.drop_last(), head, 1, name, ids);
                    assert(field_value(op, p, fs.last(), 1, name, ids) == Err::<ParamView, Fault>(f));
                },
            }
        }
    }
    op
}

/// The operation logged when the audit evidence episode `uid` clears at
/// `cleared_at`; replaying it clears the same episode.
pub fn audit_clear_operation(uid: &str, cleared_at: &str) -> (op: JsonValue)
    ensures
        forall|ids: IdsView| #[trigger] operation_outcome(op, ids) == match canonical_timestamp(cleared_at@, "cleared_at"@) {
            Ok(t) => Ok::<DecodedView, Fault>(DecodedView::Execute {
                statement: Statement::AuditEvidenceClear,
                params: seq![t, ParamView::Text(uid@)],
            }),
            Err(f) => Err(f),
        },
{
    let mut payload: Vec<(String, JsonValue)> = Vec::new();
    payload.push(entry("cleared_at", text(cleared_at)));
    let op = operation("audit.evidence.clear", 1, "uid", uid, payload);
    proof {
        lemma_operation_fields(op, "audit.evidence.clear"@, "uid"@, uid@, JsonValue::Object(payload));
        lemma_index_of_one(payload@, "cleared_at"@);
        assert(declared_version(op) == 1);
        let p = JsonValue::Object(payload);
        assert forall|ids: IdsView| #[trigger] operation_outcome(op, ids) == match canonical_timestamp(cleared_at@, "cleared_at"@) {
            Ok(t) => Ok::<DecodedView, Fault>(DecodedView::Execute {
                statement: Statement::AuditEvidenceClear,
                params: seq![t, ParamView::Text(uid@)],
            }),
            Err(f) => Err(f),
        } by {
            lemma_op_names();
            let fs = audit_evidence_clear_fields();
            let name = "audit.evidence.clear"@;
            match canonical_timestamp(cleared_at@, "cleared_at"@) {
                Ok(t) => {
                    let vals = seq![t, ParamView::Text(uid@)];
                    assert(field_value(op, p, fs[0], 1, name, ids) == Ok::<ParamView, Fault>(vals[0]));
                    assert(field_value(op, p, fs[1], 1, name, ids) == Ok::<ParamView, Fault>(vals[1]));
                    lemma_fields_read(op, p, fs, vals, 1, name, ids);
                },
                Err(f) => {
                    assert(field_value(op, p, fs[0], 1, name, ids) == Err::<ParamView, Fault>(f));
                    assert(fs.drop_last().drop_last().len() == 0);
                    reveal_with_fuel(fields_value, 3);
                },
            }
        }
    }
    op
}

/// A string member that may be absent: the text, or `null`.
fn optional_member(value: &Option<String>) -> (v: JsonValue)
    ensures
        match value {
            Some(t) => v matches JsonValue::Str(u) && u@ == t@,
            None => v == JsonValue::Null,
        },
{
    match value {
        Some(t) => JsonValue::Str(t.clone()),
        None => JsonValue::Null,
    }
}

/// The operation logged when the tool `name` is registered; replaying it
/// registers the same tool.
#[verifier::spinoff_prover]
pub fn tool_register_operation(
    name: &str,
    command: &str,
    description: &str,
    args: &Option<String>,
    responsibility: &str,
    kind: &str,
    capability: &Option<String>,
    scan_target: &Option<String>,
) -> (op: JsonValue)
    ensures
        forall|ids: IdsView| #[trigger] operation_outcome(op, ids) == Ok::<DecodedView, Fault>(DecodedView::Execute {
            statement: Statement::ToolRegister,
            params: seq![
                ParamView::Text(name@),
                ParamView::Text(command@),
                ParamView::Text(description@),
                optional_text(opt_view(*args)),
                ParamView::Text(responsibility@),
                ParamView::Text(kind@),
                optional_text(opt_view(*capability)),
                optional_text(opt_view(*scan_target)),
            ],
        }),
{
    let mut payload: Vec<(String, JsonValue)> = Vec::new();
    payload.push(entry("command", text(command)));
    payload.push(entry("description", text(description)));
    payload.push(entry("args", optional_member(args)));
    payload.push(entry("responsibility", text(responsibility)));
    payload.push(entry("kind", text(kind)));
    payload.push(entry("capability", optional_member(capability)));
    payload.push(entry("scan_target", optional_member(scan_target)));
    let op = operation("tool.register", 1, "id", name, payload);
    proof {
        lemma_operation_fields(op, "tool.register"@, "id"@, name@, JsonValue::Object(payload));
        assert(declared_version(op) == 1);
        reveal_strlit("command");
        reveal_strlit("description");
        reveal_strlit("args");
        reveal_strlit("responsibility");
        reveal_strlit("kind");
        reveal_strlit("capability");
        reveal_strlit("scan_target");
        assert("command"@.len() == 7 && "description"@.len() == 11 && "args"@.len() == 4
            && "responsibility"@.len() == 14 && "kind"@.len() == 4 && "capability"@.len() == 10
            && "scan_target"@.len() == 11);
        assert("args"@[0] != "kind"@[0]);
        assert("description"@[0] != "scan_target"@[0]);
        let e = payload@;
        lemma_first_key(e, "command"@, 0);
        lemma_first_key(e, "description"@, 1);
        lemma_first_key(e, "args"@, 2);
        lemma_first_key(e, "responsibility"@, 3);
        lemma_first_key(e, "kind"@, 4);
        lemma_first_key(e, "capability"@, 5);
        lemma_first_key(e, "scan_target"@, 6);
        let p = JsonValue::Object(payload);
        let vals = seq![
            ParamView::Text(name@),
            ParamView::Text(command@),
            ParamView::Text(description@),
            optional_text(opt_view(*args)),
            ParamView::Text(responsibility@),
            ParamView::Text(kind@),
            optional_text(opt_view(*capability)),
            optional_text(opt_view(*scan_target)),
        ];
        assert forall|ids: IdsView| #[trigger] operation_outcome(op, ids) == Ok::<DecodedView, Fault>(DecodedView::Execute {
            statement: Statement::ToolRegister,
            params: vals,
        }) by {
            lemma_op_names();
            let fs = tool_register_fields();
            let n = "tool.register"@;
            assert(field_value(op, p, fs[0], 1, n, ids) == Ok::<ParamView, Fault>(vals[0]));
            assert(field_value(op, p, fs[1], 1, n, ids) == Ok::<ParamView, Fault>(vals[1]));
            assert(field_value(op, p, fs[2], 1, n, ids) == Ok::<ParamView, Fault>(vals[2]));
            assert(field_value(op, p, fs[3], 1, n, ids) == Ok::<ParamView, Fault>(vals[3]));
            assert(field_value(op, p, fs[4], 1, n, ids) == Ok::<ParamView, Fault>(vals[4]));
            assert(field_value(op, p, fs[5], 1, n, ids) == Ok::<ParamView, Fault>(vals[5]));
            assert(field_value(op, p, fs[6], 1, n, ids) == Ok::<ParamView, Fault>(vals[6]));
            assert(field_value(op, p, fs[7], 1, n, ids) == Ok::<ParamView, Fault>(vals[7]));
            lemma_fields_read(op, p, fs, vals, 1, n, ids);
        }
    }
    op
}

/// The operation logged when the tool `name` is removed; replaying it
/// removes the same tool.
pub fn tool_remove_operation(name: &str) -> (op: JsonValue)
    ensures
        forall|ids: IdsView| #[trigger] operation_outcome(op, ids) == Ok::<DecodedView, Fault>(DecodedView::Execute {
            statement: Statement::ToolRemove,
            params: seq![ParamView::Text(name@)],
        }),
{
    let payload: Vec<(String, JsonValue)> = Vec::new();
    let op = operation("tool.remove", 1, "id", name, payload);
    proof {
        lemma_operation_fields(op, "tool.remove"@, "id"@, name@, JsonValue::Object(payload));
        assert(declared_version(op) == 1);
        let p = JsonValue::Object(payload);
        let vals = seq![ParamView::Text(name@)];
        assert forall|ids: IdsView| #[trigger] operation_outcome(op, ids) == Ok::<DecodedView, Fault>(DecodedView::Execute {
            statement: Statement::ToolRemove,
            params: vals,
        }) by {
            lemma_op_names();
            let fs = tool_remove_fields();
            assert(field_value(op, p, fs[0], 1, "tool.remove"@, ids) == Ok::<ParamView, Fault>(vals[0]));
            lemma_fields_read(op, p, fs, vals, 1, "tool.remove"@, ids);
        }
    }
    op
}

/// The operation logged when a scan of the tool `name` finds `status`
/// (with `detail`); replaying it records the same status.
pub fn tool_check_operation(name: &str, status: &str, detail: &str) -> (op: JsonValue)
    ensures
        forall|ids: IdsView| #[trigger] operation_outcome(op, ids) == Ok::<DecodedView, Fault>(DecodedView::Execute {
            statement: Statement::ToolCheck,
            params: seq![ParamView::Text(status@), ParamView::Text(name@)],
        }),
{
    let mut payload: Vec<(String, JsonValue)> = Vec::new();
    payload.push(entry("status", text(status)));
    payload.push(entry("detail", text(detail)));
    let op = operation("tool.check", 1, "id", name, payload);
    proof {
        lemma_operation_fields(op, "tool.check"@, "id"@, name@, JsonValue::Object(payload));
        assert(declared_version(op) == 1);
        reveal_strlit("status");
        lemma_first_key(payload@, "status"@, 0);
        let p = JsonValue::Object(payload);
        let vals = seq![ParamView::Text(status@), ParamView::Text(name@)];
        assert forall|ids: IdsView| #[trigger] operation_outcome(op, ids) == Ok::<DecodedView, Fault>(DecodedView::Execute {
            statement: Statement::ToolCheck,
            params: vals,
        }) by {
            lemma_op_names();
            let fs = tool_check_fields();
            assert(field_value(op, p, fs[0], 1, "tool.check"@, ids) == Ok::<ParamView, Fault>(vals[0]));
            assert(field_value(op, p, fs[1], 1, "tool.check"@, ids) == Ok::<ParamView, Fault>(vals[1]));
            lemma_fields_read(op, p, fs, vals, 1, "tool.check"@, ids);
        }
    }
    op
}

/// The operation logged when story `id` is verified with `result` at `verified_at`; replaying
/// it records the same result, with the time checked as canonical date-time text.
pub fn story_verify_operation(id: &str, result: &str, verified_at: &str) -> (op: JsonValue)
    ensures
        forall|ids: IdsView| #[trigger] operation_outcome(op, ids) == match canonical_timestamp(verified_at@, "verified_at"@) {
            Ok(t) => Ok::<DecodedView, Fault>(DecodedView::Execute {
                statement: Statement::StoryVerify,
                params: seq![t, ParamView::Text(result@), ParamView::Text(id@)],
            }),
            Err(f) => Err(f),
        },
{
    let mut payload: Vec<(String, JsonValue)> = Vec::new();
    payload.push(entry("result", text(result)));
    payload.push(entry("verified_at", text(verified_at)));
    let op = operation("story.verify", 2, "id", id, payload);
    proof {
        lemma_operation_fields(op, "story.verify"@, "id"@, id@, JsonValue::Object(payload));
        assert(declared_version(op) == 2);
        reveal_strlit("result");
        reveal_strlit("verified_at");
        lemma_first_key(payload@, "result"@, 0);
        lemma_first_key(payload@, "verified_at"@, 1);
        let p = JsonValue::Object(payload);
        assert forall|ids: IdsView| #[trigger] operation_outcome(op, ids) == match canonical_timestamp(verified_at@, "verified_at"@) {
            Ok(t) => Ok::<DecodedView, Fault>(DecodedView::Execute {
                statement: Statement::StoryVerify,
                params: seq![t, ParamView::Text(result@), ParamView::Text(id@)],
            }),
            Err(f) => Err(f),
        } by {
            lemma_op_names();
            let fs = story_verify_fields();
            let name = "story.verify"@;
            match canonical_timestamp(verified_at@, "verified_at"@) {
                Ok(t) => {
                    let vals = seq![t, ParamView::Text(result@), ParamView::Text(id@)];
                    assert(field_value(op, p, fs[0], 2, name, ids) == Ok::<ParamView, Fault>(vals[0]));
                    assert(field_value(op, p, fs[1], 2, name, ids) == Ok::<ParamView, Fault>(vals[1]));
                    assert(field_value(op, p, fs[2], 2, name, ids) == Ok::<ParamView, Fault>(vals[2]));
                    lemma_fields_read(op, p, fs, vals, 2, name, ids);
                },
                Err(f) => {
                    assert(field_value(op, p, fs[0], 2, name, ids) == Err::<ParamView, Fault>(f));
                    assert(fs.drop_last().drop_last().drop_last().len() == 0);
                    reveal_with_fuel(fields_value, 4);
                },
            }
        }
    }
    op
}

/// The operation logged when story `id` passes completion `completion_uid` at `completed_at`; replaying
/// it records the same completion, with the time checked as canonical date-time text.
pub fn story_complete_operation(id: &str, completion_uid: &str, completed_at: &str) -> (op: JsonValue)
    ensures
        forall|ids: IdsView| #[trigger] operation_outcome(op, ids) == match canonical_timestamp(completed_at@, "completed_at"@) {
            Ok(t) => Ok::<DecodedView, Fault>(DecodedView::Execute {
                statement: Statement::StoryComplete,
                params: seq![t, ParamView::Text("pass"@), ParamView::Text(id@)],
            }),
            Err(f) => Err(f),
        },
{
    let mut payload: Vec<(String, JsonValue)> = Vec::new();
    payload.push(entry("result", text("pass")));
    payload.push(entry("completion_uid", text(completion_uid)));
    payload.push(entry("completed_at", text(completed_at)));
    let op = operation("story.complete", 2, "id", id, payload);
    proof {
        lemma_operation_fields(op, "story.complete"@, "id"@, id@, JsonValue::Object(payload));
        assert(declared_version(op) == 2);
        reveal_strlit("result");
        reveal_strlit("completed_at");
        reveal_strlit("completion_uid");
        assert("result"@.len() == 6 && "completion_uid"@.len() == 14 && "completed_at"@.len() == 12);
        lemma_first_key(payload@, "result"@, 0);
        lemma_first_key(payload@, "completed_at"@, 2);
        let p = JsonValue::Object(payload);
        assert forall|ids: IdsView| #[trigger] operation_outcome(op, ids) == match canonical_timestamp(completed_at@, "completed_at"@) {
            Ok(t) => Ok::<DecodedView, Fault>(DecodedView::Execute {
                statement: Statement::StoryComplete,
                params: seq![t, ParamView::Text("pass"@), ParamView::Text(id@)],
            }),
            Err(f) => Err(f),
        } by {
            lemma_op_names();
            let fs = story_complete_fields();
            let name = "story.complete"@;
            match canonical_timestamp(completed_at@, "completed_at"@) {
                Ok(t) => {
                    let vals = seq![t, ParamView::Text("pass"@), ParamView::Text(id@)];
                    assert(field_value(op, p, fs[0], 2, name, ids) == Ok::<ParamView, Fault>(vals[0]));
                    assert(field_value(op, p, fs[1], 2, name, ids) == Ok::<ParamView, Fault>(vals[1]));
                    assert(field_value(op, p, fs[2], 2, name, ids) == Ok::<ParamView, Fault>(vals[2]));
                    lemma_fields_read(op, p, fs, vals, 2, name, ids);
                },
                Err(f) => {
                    assert(field_value(op, p, fs[0], 2, name, ids) == Err::<ParamView, Fault>(f));
                    assert(fs.drop_last().drop_last().drop_last().len() == 0);
                    reveal_with_fuel(fields_value, 4);
                },
            }
        }
    }
    op
}

/// The operation logged when decision `id` is verified with `result`;
/// replaying it records the same result.
pub fn decision_verify_operation(id: &str, result: &str) -> (op: JsonValue)
    ensures
        forall|ids: IdsView| #[trigger] operation_outcome(op, ids) == Ok::<DecodedView, Fault>(DecodedView::Execute {
            statement: Statement::DecisionVerify,
            params: seq![ParamView::Text(result@), ParamView::Text(id@)],
        }),
{
    let mut payload: Vec<(String, JsonValue)> = Vec::new();
    payload.push(entry("result", text(result)));
    let op = operation("decision.verify", 1, "id", id, payload);
    proof {
        lemma_operation_fields(op, "decision.verify"@, "id"@, id@, JsonValue::Object(payload));
        lemma_index_of_one(payload@, "result"@);
        assert(declared_version(op) == 1);
        let p = JsonValue::Object(payload);
        let vals = seq![ParamView::Text(result@), ParamView::Text(id@)];
        assert forall|ids: IdsView| #[trigger] operation_outcome(op, ids) == Ok::<DecodedView, Fault>(DecodedView::Execute {
            statement: Statement::DecisionVerify,
            params: vals,
        }) by {
            lemma_op_names();
            let fs = decision_verify_fields();
            assert(field_value(op, p, fs[0], 1, "decision.verify"@, ids) == Ok::<ParamView, Fault>(vals[0]));
            assert(field_value(op, p, fs[1], 1, "decision.verify"@, ids) == Ok::<ParamView, Fault>(vals[1]));
            lemma_fields_read(op, p, fs, vals, 1, "decision.verify"@, ids);
        }
    }
    op
}

/// Fields read in order up to the one at `k`, which fails: the reading fails there.
proof fn lemma_fields_fail(
    op: JsonValue,
    payload: JsonValue,
    fs: Seq<FieldView>,
    k: int,
    f: Fault,
    version: i64,
    name: Seq<char>,
    ids: IdsView,
)
    requires
        0 <= k < fs.len(),
        fields_value(op, payload, fs.take(k), version, name, ids) is Ok,
        field_value(op, payload, fs[k], version, name, ids) == Err::<ParamView, Fault>(f),
    ensures
        fields_value(op, payload, fs, version, name, ids) == Err::<Seq<ParamView>, Fault>(f),
    decreases fs.len(),
{
    if k < fs.len() - 1 {
        assert(fs.drop_last().take(k) == fs.take(k));
        assert(fs.drop_last()[k] == fs[k]);
        lemma_fields_fail(op, payload, fs.drop_last(), k, f, version, name, ids);
    } else {
        assert(fs.drop_last() == fs.take(k));
    }
}

/// A date-time field that may be absent: nothing, or the canonical text.
pub open spec fn optional_canonical(value: Option<Seq<char>>, name: Seq<char>) -> Result<ParamView, Fault> {
    match value {
        None => Ok(ParamView::Null),
        Some(t) => canonical_timestamp(t, name),
    }
}

/// The occurrence kind logged for a proposal in lifecycle state `state`.
pub open spec fn occurrence_kind_of(state: Seq<char>) -> Seq<char> {
    if state == "regression"@ || state == "reconsideration"@ {
        state
    } else {
        "original"@
    }
}

/// What replaying the logged link to evidence item `e` records: its kind,
/// uid and fingerprint, and the time it was observed as canonical text.
pub open spec fn evidence_link_outcome(e: ProposalEvidence) -> Result<Seq<ParamView>, Fault> {
    match canonical_timestamp(e.observed_at@, "observed_at"@) {
        Ok(t) => Ok(seq![ParamView::Text(e.source_kind@), ParamView::Text(e.uid@), ParamView::Text(e.fingerprint@), t]),
        Err(f) => Err(f),
    }
}

pub open spec fn schedule_kind(s: Option<ObservationSchedule>) -> Option<Seq<char>> {
    match s {
        Some(x) => Some(x.kind@),
        None => None,
    }
}

pub open spec fn schedule_due(s: Option<ObservationSchedule>) -> Option<Seq<char>> {
    match s {
        Some(x) => opt_view(x.due_at),
        None => None,
    }
}

pub open spec fn schedule_traces(s: Option<ObservationSchedule>) -> Option<i64> {
    match s {
        Some(x) => x.after_traces,
        None => None,
    }
}

/// The fields a replay reads from a logged proposal decision, in the order
/// it reads them, or the first refusal.
pub open spec fn decision_fields(
    uid: Seq<char>,
    key: Seq<char>,
    status: Seq<char>,
    p: ImprovementProposal,
    schedule: Option<ObservationSchedule>,
    reason: Option<Seq<char>>,
    accepted_at: Option<Seq<char>>,
    closed_at: Option<Seq<char>>,
    notes: Option<Seq<char>>,
) -> Result<Seq<ParamView>, Fault> {
    match optional_canonical(accepted_at, "accepted_at"@) {
        Err(f) => Err(f),
        Ok(a) => match optional_canonical(closed_at, "closed_at"@) {
            Err(f) => Err(f),
            Ok(c) => Ok(seq![
                ParamView::Text(uid),
                a,
                c,
                ParamView::Text(key),
                optional_text(opt_view(p.predecessor_uid)),
                ParamView::Text(occurrence_kind_of(p.lifecycle_state@)),
                ParamView::Text(p.title@),
                ParamView::Text("harness-cli propose"@),
                ParamView::Text(p.evidence@),
                ParamView::Text(p.suggested_action@),
                ParamView::Text(normalized(p.risk@)),
                ParamView::Text(status),
                ParamView::Text(p.predicted_impact@),
                optional_text(notes),
                optional_text(schedule_kind(schedule)),
                optional_text(schedule_due(schedule)),
                optional_int(schedule_traces(schedule)),
                optional_text(reason),
            ]),
        },
    }
}

/// One logged evidence link.
fn evidence_member(e: &ProposalEvidence) -> (v: JsonValue)
    ensures
        forall|name: Seq<char>, ids: IdsView| #[trigger] evidence_item(v, 2, name, ids) == evidence_link_outcome(*e),
        forall|name: Seq<char>, ids: IdsView| #[trigger] evidence_item(v, 1, name, ids)
            == Ok::<Seq<ParamView>, Fault>(evidence_link_text(*e)),
{
    let mut entries: Vec<(String, JsonValue)> = Vec::new();
    entries.push(entry("source_kind", text(e.source_kind.as_str())));
    entries.push(entry("evidence_uid", text(e.uid.as_str())));
    entries.push(entry("evidence_fingerprint", text(e.fingerprint.as_str())));
    entries.push(entry("observed_at", text(e.observed_at.as_str())));
    let v = JsonValue::Object(entries);
    proof {
        reveal_strlit("source_kind");
        reveal_strlit("evidence_uid");
        reveal_strlit("evidence_fingerprint");
        reveal_strlit("observed_at");
        assert("source_kind"@.len() == 11 && "evidence_uid"@.len() == 12 && "evidence_fingerprint"@.len() == 20
            && "observed_at"@.len() == 11);
        assert("source_kind"@[0] != "observed_at"@[0]);
        let x = entries@;
        lemma_first_key(x, "source_kind"@, 0);
        lemma_first_key(x, "evidence_uid"@, 1);
        lemma_first_key(x, "evidence_fingerprint"@, 2);
        lemma_first_key(x, "observed_at"@, 3);
        assert forall|name: Seq<char>, ids: IdsView| #[trigger] evidence_item(v, 2, name, ids) == evidence_link_outcome(*e) by {
            let fs = evidence_item_fields();
            match canonical_timestamp(e.observed_at@, "observed_at"@) {
                Ok(t) => {
                    let vals = seq![t, ParamView::Text(e.source_kind@), ParamView::Text(e.uid@), ParamView::Text(e.fingerprint@)];
                    assert(field_value(v, v, fs[0], 2, name, ids) == Ok::<ParamView, Fault>(vals[0]));
                    assert(field_value(v, v, fs[1], 2, name, ids) == Ok::<ParamView, Fault>(vals[1]));
                    assert(field_value(v, v, fs[2], 2, name, ids) == Ok::<ParamView, Fault>(vals[2]));
                    assert(field_value(v, v, fs[3], 2, name, ids) == Ok::<ParamView, Fault>(vals[3]));
                    lemma_fields_read(v, v, fs, vals, 2, name, ids);
                    assert(crate::operation::rotate(vals) =~= seq![
                        ParamView::Text(e.source_kind@), ParamView::Text(e.uid@), ParamView::Text(e.fingerprint@), t]);
                },
                Err(f) => {
                    assert(field_value(v, v, fs[0], 2, name, ids) == Err::<ParamView, Fault>(f));
                    assert(fs.take(0) =~= Seq::<FieldView>::empty());
                    lemma_fields_fail(v, v, fs, 0, f, 2, name, ids);
                },
            }
        }
        assert forall|name: Seq<char>, ids: IdsView| #[trigger] evidence_item(v, 1, name, ids)
            == Ok::<Seq<ParamView>, Fault>(evidence_link_text(*e)) by {
            let fs = evidence_item_fields();
            let vals = seq![ParamView::Text(e.observed_at@), ParamView::Text(e.source_kind@), ParamView::Text(e.uid@),
                ParamView::Text(e.fingerprint@)];
            assert(field_value(v, v, fs[0], 1, name, ids) == Ok::<ParamView, Fault>(vals[0]));
            assert(field_value(v, v, fs[1], 1, name, ids) == Ok::<ParamView, Fault>(vals[1]));
            assert(field_value(v, v, fs[2], 1, name, ids) == Ok::<ParamView, Fault>(vals[2]));
            assert(field_value(v, v, fs[3], 1, name, ids) == Ok::<ParamView, Fault>(vals[3]));
            lemma_fields_read(v, v, fs, vals, 1, name, ids);
            assert(crate::operation::rotate(vals) =~= evidence_link_text(*e));
        }
    }
    v
}

/// What replaying a link logged before date-times were checked records:
/// the evidence item's kind, uid, fingerprint and time, as written.
pub open spec fn evidence_link_text(e: ProposalEvidence) -> Seq<ParamView> {
    seq![ParamView::Text(e.source_kind@), ParamView::Text(e.uid@), ParamView::Text(e.fingerprint@), ParamView::Text(e.observed_at@)]
}

/// The logged links to the evidence items `items`.
fn evidence_members(items: &Vec<ProposalEvidence>) -> (v: Vec<JsonValue>)
    ensures
        forall|name: Seq<char>, ids: IdsView| #[trigger] evidence_items(v@, 2, name, ids)
            == items@.map_values(|e: ProposalEvidence| evidence_link_outcome(e)),
        forall|name: Seq<char>, ids: IdsView| #[trigger] evidence_items(v@, 1, name, ids)
            == items@.map_values(|e: ProposalEvidence| Ok::<Seq<ParamView>, Fault>(evidence_link_text(e))),
{
    let mut out: Vec<JsonValue> = Vec::new();
    let mut i: usize = 0;
    while i < items.len()
        invariant
            i <= items@.len(),
            out@.len() == i,
            forall|k: int, name: Seq<char>, ids: IdsView| 0 <= k < i ==>
                #[trigger] evidence_item(out@[k], 2, name, ids) == evidence_link_outcome(items@[k]),
            forall|k: int, name: Seq<char>, ids: IdsView| 0 <= k < i ==>
                #[trigger] evidence_item(out@[k], 1, name, ids) == Ok::<Seq<ParamView>, Fault>(evidence_link_text(items@[k])),
        decreases items@.len() - i,
    {
        let m = evidence_member(&items[i]);
        out.push(m);
        i = i + 1;
    }
    assert forall|name: Seq<char>, ids: IdsView| #[trigger] evidence_items(out@, 2, name, ids)
        == items@.map_values(|e: ProposalEvidence| evidence_link_outcome(e)) by {
        assert(evidence_items(out@, 2, name, ids) =~= items@.map_values(|e: ProposalEvidence| evidence_link_outcome(e)));
    }
    assert forall|name: Seq<char>, ids: IdsView| #[trigger] evidence_items(out@, 1, name, ids)
        == items@.map_values(|e: ProposalEvidence| Ok::<Seq<ParamView>, Fault>(evidence_link_text(e))) by {
        assert(evidence_items(out@, 1, name, ids)
            =~= items@.map_values(|e: ProposalEvidence| Ok::<Seq<ParamView>, Fault>(evidence_link_text(e))));
    }
    out
}

fn integer_member(value: Option<i64>) -> (v: JsonValue)
    ensures
        match value {
            Some(n) => v == JsonValue::Number(Some(n)),
            None => v == JsonValue::Null,
        },
{
    match value {
        Some(n) => JsonValue::Number(Some(n)),
        None => JsonValue::Null,
    }
}

/// The operation logged when the proposal `proposal`, under `key`, is
/// decided as backlog occurrence `uid` with `status` (an acceptance with
/// its observation `schedule`, or a rejection with its `reason`). When the
/// uid is one the replay accepts, replaying it makes the same decision:
/// the same row, and a link to each evidence item.
#[verifier::spinoff_prover]
pub fn proposal_decision_operation(
    uid: &str,
    key: &str,
    status: &str,
    proposal: &ImprovementProposal,
    schedule: &Option<ObservationSchedule>,
    reason: &Option<String>,
    accepted_at: &Option<String>,
    closed_at: &Option<String>,
    notes: &Option<String>,
) -> (op: JsonValue)
    ensures
        valid_uid(uid@, "blg"@) ==> forall|ids: IdsView| #[trigger] operation_outcome(op, ids)
            == match decision_fields(uid@, key@, status@, *proposal, *schedule, opt_view(*reason),
                opt_view(*accepted_at), opt_view(*closed_at), opt_view(*notes)) {
                Err(f) => Err(f),
                Ok(xs) => Ok::<DecodedView, Fault>(DecodedView::ProposalDecision {
                    uid: uid@,
                    params: decision_params(xs),
                    evidence: EvidenceView::Items(proposal.evidence_items@.map_values(|e: ProposalEvidence| evidence_link_outcome(e))),
                }),
            },
{
    let state = proposal.lifecycle_state.as_str();
    let occurrence = if is_lit(state, "regression") || is_lit(state, "reconsideration") {
        proposal.lifecycle_state.clone()
    } else {
        "original".to_owned()
    };
    let (sched_kind, sched_due, sched_traces) = match schedule {
        Some(s) => (Some(s.kind.clone()), s.due_at.clone(), s.after_traces),
        None => (None, None, None),
    };
    let items = evidence_members(&proposal.evidence_items);
    let mut payload: Vec<(String, JsonValue)> = Vec::new();
    payload.push(entry("proposal_key", text(key)));
    payload.push(entry("status", text(status)));
    payload.push(entry("occurrence_kind", JsonValue::Str(occurrence)));
    payload.push(entry("predecessor_uid", optional_member(&proposal.predecessor_uid)));
    payload.push(entry("title", text(proposal.title.as_str())));
    payload.push(entry("discovered_while", text("harness-cli propose")));
    payload.push(entry("current_pain", text(proposal.evidence.as_str())));
    payload.push(entry("suggested_improvement", text(proposal.suggested_action.as_str())));
    payload.push(entry("risk", JsonValue::Str(normalize_token(proposal.risk.as_str()))));
    payload.push(entry("predicted_impact", text(proposal.predicted_impact.as_str())));
    payload.push(entry("notes", optional_member(notes)));
    payload.push(entry("accepted_at", optional_member(accepted_at)));
    payload.push(entry("closed_at", optional_member(closed_at)));
    payload.push(entry("outcome_schedule_kind", optional_member(&sched_kind)));
    payload.push(entry("outcome_due_at", optional_member(&sched_due)));
    payload.push(entry("outcome_after_traces", integer_member(sched_traces)));
    payload.push(entry("rejection_reason", optional_member(reason)));
    payload.push(entry("evidence", JsonValue::Array(items)));
    let op = operation("backlog.proposal.decision", 2, "uid", uid, payload);
    proof {
        lemma_operation_fields(op, "backlog.proposal.decision"@, "uid"@, uid@, JsonValue::Object(payload));
        assert(declared_version(op) == 2);
        reveal_strlit("proposal_key");
        reveal_strlit("status");
        reveal_strlit("occurrence_kind");
        reveal_strlit("predecessor_uid");
        reveal_strlit("title");
        reveal_strlit("discovered_while");
        reveal_strlit("current_pain");
        reveal_strlit("suggested_improvement");
        reveal_strlit("risk");
        reveal_strlit("predicted_impact");
        reveal_strlit("notes");
        reveal_strlit("accepted_at");
        reveal_strlit("closed_at");
        reveal_strlit("outcome_schedule_kind");
        reveal_strlit("outcome_due_at");
        reveal_strlit("outcome_after_traces");
        reveal_strlit("rejection_reason");
        reveal_strlit("evidence");
        reveal_strlit("regression");
        reveal_strlit("reconsideration");
        reveal_strlit("original");
        assert("proposal_key"@.len() == 12 && "current_pain"@.len() == 12 && "proposal_key"@[0] != "current_pain"@[0]);
        assert("occurrence_kind"@.len() == 15 && "predecessor_uid"@.len() == 15 && "occurrence_kind"@[0] != "predecessor_uid"@[0]);
        assert("title"@.len() == 5 && "notes"@.len() == 5 && "title"@[0] != "notes"@[0]);
        assert("discovered_while"@.len() == 16 && "predicted_impact"@.len() == 16 && "rejection_reason"@.len() == 16);
        assert("discovered_while"@[0] != "predicted_impact"@[0] && "discovered_while"@[0] != "rejection_reason"@[0]
            && "predicted_impact"@[0] != "rejection_reason"@[0]);
        assert("suggested_improvement"@.len() == 21 && "outcome_schedule_kind"@.len() == 21
            && "suggested_improvement"@[0] != "outcome_schedule_kind"@[0]);
        assert("status"@.len() == 6 && "risk"@.len() == 4 && "accepted_at"@.len() == 11 && "closed_at"@.len() == 9
            && "outcome_due_at"@.len() == 14 && "outcome_after_traces"@.len() == 20 && "evidence"@.len() == 8);
        let e = payload@;
        lemma_first_key(e, "proposal_key"@, 0);
        lemma_first_key(e, "status"@, 1);
        lemma_first_key(e, "occurrence_kind"@, 2);
        lemma_first_key(e, "predecessor_uid"@, 3);
        lemma_first_key(e, "title"@, 4);
        lemma_first_key(e, "discovered_while"@, 5);
        lemma_first_key(e, "current_pain"@, 6);
        lemma_first_key(e, "suggested_improvement"@, 7);
        lemma_first_key(e, "risk"@, 8);
        lemma_first_key(e, "predicted_impact"@, 9);
        lemma_first_key(e, "notes"@, 10);
        lemma_first_key(e, "accepted_at"@, 11);
        lemma_first_key(e, "closed_at"@, 12);
        lemma_first_key(e, "outcome_schedule_kind"@, 13);
        lemma_first_key(e, "outcome_due_at"@, 14);
        lemma_first_key(e, "outcome_after_traces"@, 15);
        lemma_first_key(e, "rejection_reason"@, 16);
        lemma_first_key(e, "evidence"@, 17);
        let p = JsonValue::Object(payload);
        assert(json_array(p, "evidence"@) == Some(items@));
        assert(occurrence@ == occurrence_kind_of(proposal.lifecycle_state@));
        let reason_v = opt_view(*reason);
        let acc = opt_view(*accepted_at);
        let clo = opt_view(*closed_at);
        let notes_v = opt_view(*notes);
        assert forall|ids: IdsView| valid_uid(uid@, "blg"@) implies #[trigger] operation_outcome(op, ids)
            == match decision_fields(uid@, key@, status@, *proposal, *schedule, reason_v, acc, clo, notes_v) {
                Err(f) => Err(f),
                Ok(xs) => Ok::<DecodedView, Fault>(DecodedView::ProposalDecision {
                    uid: uid@,
                    params: decision_params(xs),
                    evidence: EvidenceView::Items(proposal.evidence_items@.map_values(|e: ProposalEvidence| evidence_link_outcome(e))),
                }),
            } by {
            lemma_op_names();
            lemma_decision_fields_read(op, p, uid@, key@, status@, *proposal, *schedule, reason_v, acc, clo, notes_v, ids);
        }
    }
    op
}

/// Reading the fields of a logged proposal decision gives `decision_fields`.
#[verifier::spinoff_prover]
proof fn lemma_decision_fields_read(
    op: JsonValue,
    p: JsonValue,
    uid: Seq<char>,
    key: Seq<char>,
    status: Seq<char>,
    proposal: ImprovementProposal,
    schedule: Option<ObservationSchedule>,
    reason: Option<Seq<char>>,
    accepted_at: Option<Seq<char>>,
    closed_at: Option<Seq<char>>,
    notes: Option<Seq<char>>,
    ids: IdsView,
)
    requires
        valid_uid(uid, "blg"@),
        json_str(op, "uid"@) == Some(uid),
        json_str(p, "proposal_key"@) == Some(key),
        json_str(p, "status"@) == Some(status),
        json_str(p, "occurrence_kind"@) == Some(occurrence_kind_of(proposal.lifecycle_state@)),
        json_str(p, "predecessor_uid"@) == opt_view(proposal.predecessor_uid),
        json_str(p, "title"@) == Some(proposal.title@),
        json_str(p, "discovered_while"@) == Some("harness-cli propose"@),
        json_str(p, "current_pain"@) == Some(proposal.evidence@),
        json_str(p, "suggested_improvement"@) == Some(proposal.suggested_action@),
        json_str(p, "risk"@) == Some(normalized(proposal.risk@)),
        json_str(p, "predicted_impact"@) == Some(proposal.predicted_impact@),
        json_str(p, "notes"@) == notes,
        json_str(p, "accepted_at"@) == accepted_at,
        json_str(p, "closed_at"@) == closed_at,
        json_str(p, "outcome_schedule_kind"@) == schedule_kind(schedule),
        json_str(p, "outcome_due_at"@) == schedule_due(schedule),
        json_i64(p, "outcome_after_traces"@) == schedule_traces(schedule),
        json_str(p, "rejection_reason"@) == reason,
    ensures
        fields_value(op, p, proposal_decision_fields(), 2, "backlog.proposal.decision"@, ids)
            == decision_fields(uid, key, status, proposal, schedule, reason, accepted_at, closed_at, notes),
{
    let fs = proposal_decision_fields();
    let n = "backlog.proposal.decision"@;
    match optional_canonical(accepted_at, "accepted_at"@) {
        Err(f) => {
            assert(field_value(op, p, fs[0], 2, n, ids) == Ok::<ParamView, Fault>(ParamView::Text(uid)));
            assert(field_value(op, p, fs[1], 2, n, ids) == Err::<ParamView, Fault>(f));
            lemma_fields_read(op, p, fs.take(1), seq![ParamView::Text(uid)], 2, n, ids);
            lemma_fields_fail(op, p, fs, 1, f, 2, n, ids);
        },
        Ok(a) => match optional_canonical(closed_at, "closed_at"@) {
            Err(f) => {
                let head = seq![ParamView::Text(uid), a];
                assert(field_value(op, p, fs[0], 2, n, ids) == Ok::<ParamView, Fault>(head[0]));
                assert(field_value(op, p, fs[1], 2, n, ids) == Ok::<ParamView, Fault>(head[1]));
                assert(field_value(op, p, fs[2], 2, n, ids) == Err::<ParamView, Fault>(f));
                lemma_fields_read(op, p, fs.take(2), head, 2, n, ids);
                lemma_fields_fail(op, p, fs, 2, f, 2, n, ids);
            },
            Ok(c) => {
                let vals = decision_fields(uid, key, status, proposal, schedule, reason, accepted_at, closed_at, notes)->Ok_0;
                assert forall|i: int| 0 <= i < fs.len() implies field_value(op, p, #[trigger] fs[i], 2, n, ids)
                    == Ok::<ParamView, Fault>(vals[i]) by {
                    assert(field_value(op, p, fs[0], 2, n, ids) == Ok::<ParamView, Fault>(vals[0]));
                    assert(field_value(op, p, fs[1], 2, n, ids) == Ok::<ParamView, Fault>(vals[1]));
                    assert(field_value(op, p, fs[2], 2, n, ids) == Ok::<ParamView, Fault>(vals[2]));
                    assert(field_value(op, p, fs[3], 2, n, ids) == Ok::<ParamView, Fault>(vals[3]));
                    assert(field_value(op, p, fs[4], 2, n, ids) == Ok::<ParamView, Fault>(vals[4]));
                    assert(field_value(op, p, fs[5], 2, n, ids) == Ok::<ParamView, Fault>(vals[5]));
                    assert(field_value(op, p, fs[6], 2, n, ids) == Ok::<ParamView, Fault>(vals[6]));
                    assert(field_value(op, p, fs[7], 2, n, ids) == Ok::<ParamView, Fault>(vals[7]));
                    assert(field_value(op, p, fs[8], 2, n, ids) == Ok::<ParamView, Fault>(vals[8]));
                    assert(field_value(op, p, fs[9], 2, n, ids) == Ok::<ParamView, Fault>(vals[9]));
                    assert(field_value(op, p, fs[10], 2, n, ids) == Ok::<ParamView, Fault>(vals[10]));
                    assert(field_value(op, p, fs[11], 2, n, ids) == Ok::<ParamView, Fault>(vals[11]));
                    assert(field_value(op, p, fs[12], 2, n, ids) == Ok::<ParamView, Fault>(vals[12]));
                    assert(field_value(op, p, fs[13], 2, n, ids) == Ok::<ParamView, Fault>(vals[13]));
                    assert(field_value(op, p, fs[14], 2, n, ids) == Ok::<ParamView, Fault>(vals[14]));
                    assert(field_value(op, p, fs[15], 2, n, ids) == Ok::<ParamView, Fault>(vals[15]));
                    assert(field_value(op, p, fs[16], 2, n, ids) == Ok::<ParamView, Fault>(vals[16]));
                    assert(field_value(op, p, fs[17], 2, n, ids) == Ok::<ParamView, Fault>(vals[17]));
                }
                lemma_fields_read(op, p, fs, vals, 2, n, ids);
            },
        },
    }
}

/// The operation logged when the resolver story `story_id` completes the
/// backlog item `uid` at `completed_at`, with `trace_baseline` traces
/// recorded so far and the proof `resolution_evidence`. When the uid is
/// one the replay accepts, replaying it completes the same item, with the
/// time checked as canonical date-time text.
pub fn backlog_complete_operation(
    uid: &str,
    story_id: &str,
    trace_baseline: i64,
    resolution_evidence: &str,
    completed_at: &str,
) -> (op: JsonValue)
    ensures
        valid_uid(uid@, "blg"@) ==> forall|ids: IdsView| #[trigger] operation_outcome(op, ids)
            == match canonical_timestamp(completed_at@, "completed_at"@) {
                Ok(t) => Ok::<DecodedView, Fault>(DecodedView::Execute {
                    statement: Statement::BacklogComplete,
                    params: seq![t, ParamView::Text(resolution_evidence@), ParamView::Int(trace_baseline), ParamView::Text(uid@)],
                }),
                Err(f) => Err(f),
            },
{
    let mut payload: Vec<(String, JsonValue)> = Vec::new();
    payload.push(entry("story_id", text(story_id)));
    payload.push(entry("trace_baseline", JsonValue::Number(Some(trace_baseline))));
    payload.push(entry("resolution_evidence", text(resolution_evidence)));
    payload.push(entry("completed_at", text(completed_at)));
    let op = operation("backlog.complete", 2, "uid", uid, payload);
    proof {
        lemma_operation_fields(op, "backlog.complete"@, "uid"@, uid@, JsonValue::Object(payload));
        assert(declared_version(op) == 2);
        reveal_strlit("story_id");
        reveal_strlit("trace_baseline");
        reveal_strlit("resolution_evidence");
        reveal_strlit("completed_at");
        assert("story_id"@.len() == 8 && "trace_baseline"@.len() == 14 && "resolution_evidence"@.len() == 19
            && "completed_at"@.len() == 12);
        let e = payload@;
        lemma_first_key(e, "story_id"@, 0);
        lemma_first_key(e, "trace_baseline"@, 1);
        lemma_first_key(e, "resolution_evidence"@, 2);
        lemma_first_key(e, "completed_at"@, 3);
        let p = JsonValue::Object(payload);
        assert forall|ids: IdsView| valid_uid(uid@, "blg"@) implies #[trigger] operation_outcome(op, ids)
            == match canonical_timestamp(completed_at@, "completed_at"@) {
                Ok(t) => Ok::<DecodedView, Fault>(DecodedView::Execute {
                    statement: Statement::BacklogComplete,
                    params: seq![t, ParamView::Text(resolution_evidence@), ParamView::Int(trace_baseline), ParamView::Text(uid@)],
                }),
                Err(f) => Err(f),
            } by {
            lemma_op_names();
            assert(field_value(op, p, crate::operation::completed_at_field(), 2, "backlog.complete"@, ids)
                == canonical_timestamp(completed_at@, "completed_at"@));
        }
    }
    op
}

/// The fields a replay reads from a logged intake, in statement order.
pub open spec fn intake_fields_read(
    uid: Seq<char>,
    created_at: Seq<char>,
    input_type: Seq<char>,
    summary: Seq<char>,
    risk_lane: Seq<char>,
    risk_flags: Option<Seq<char>>,
    affected_docs: Option<Seq<char>>,
    story_id: Option<Seq<char>>,
    notes: Option<Seq<char>>,
) -> Result<Seq<ParamView>, Fault> {
    match canonical_timestamp(created_at, "created_at"@) {
        Err(f) => Err(f),
        Ok(t) => Ok(seq![
            ParamView::Text(uid),
            t,
            ParamView::Text(input_type),
            ParamView::Text(summary),
            ParamView::Text(risk_lane),
            optional_text(risk_flags),
            optional_text(affected_docs),
            optional_text(story_id),
            optional_text(notes),
        ]),
    }
}

/// The operation logged when the intake `uid` is recorded at `created_at`;
/// when the uid is one the replay accepts, replaying it records the same
/// intake, with the time checked as canonical date-time text.
#[verifier::spinoff_prover]
pub fn intake_add_operation(
    uid: &str,
    created_at: &str,
    input_type: &str,
    summary: &str,
    risk_lane: &str,
    risk_flags: &Option<String>,
    affected_docs: &Option<String>,
    story_id: &Option<String>,
    notes: &Option<String>,
) -> (op: JsonValue)
    ensures
        valid_uid(uid@, "ink"@) ==> forall|ids: IdsView| #[trigger] operation_outcome(op, ids)
            == match intake_fields_read(uid@, created_at@, input_type@, summary@, risk_lane@, opt_view(*risk_flags),
                opt_view(*affected_docs), opt_view(*story_id), opt_view(*notes)) {
                Ok(xs) => Ok::<DecodedView, Fault>(DecodedView::Execute { statement: Statement::IntakeAddUid, params: xs }),
                Err(f) => Err(f),
            },
{
    let mut payload: Vec<(String, JsonValue)> = Vec::new();
    payload.push(entry("created_at", text(created_at)));
    payload.push(entry("input_type", text(input_type)));
    payload.push(entry("summary", text(summary)));
    payload.push(entry("risk_lane", text(risk_lane)));
    payload.push(entry("risk_flags", optional_member(risk_flags)));
    payload.push(entry("affected_docs", optional_member(affected_docs)));
    payload.push(entry("story_id", optional_member(story_id)));
    payload.push(entry("notes", optional_member(notes)));
    let op = operation("intake.add", 2, "uid", uid, payload);
    proof {
        lemma_operation_fields(op, "intake.add"@, "uid"@, uid@, JsonValue::Object(payload));
        assert(declared_version(op) == 2);
        reveal_strlit("created_at");
        reveal_strlit("input_type");
        reveal_strlit("summary");
        reveal_strlit("risk_lane");
        reveal_strlit("risk_flags");
        reveal_strlit("affected_docs");
        reveal_strlit("story_id");
        reveal_strlit("notes");
        assert("created_at"@.len() == 10 && "input_type"@.len() == 10 && "risk_flags"@.len() == 10);
        assert("created_at"@[0] != "input_type"@[0] && "created_at"@[0] != "risk_flags"@[0] && "input_type"@[0] != "risk_flags"@[0]);
        assert("summary"@.len() == 7 && "risk_lane"@.len() == 9 && "affected_docs"@.len() == 13 && "story_id"@.len() == 8
            && "notes"@.len() == 5);
        let e = payload@;
        lemma_first_key(e, "created_at"@, 0);
        lemma_first_key(e, "input_type"@, 1);
        lemma_first_key(e, "summary"@, 2);
        lemma_first_key(e, "risk_lane"@, 3);
        lemma_first_key(e, "risk_flags"@, 4);
        lemma_first_key(e, "affected_docs"@, 5);
        lemma_first_key(e, "story_id"@, 6);
        lemma_first_key(e, "notes"@, 7);
        let p = JsonValue::Object(payload);
        let read = intake_fields_read(uid@, created_at@, input_type@, summary@, risk_lane@, opt_view(*risk_flags),
            opt_view(*affected_docs), opt_view(*story_id), opt_view(*notes));
        assert forall|ids: IdsView| valid_uid(uid@, "ink"@) implies #[trigger] operation_outcome(op, ids)
            == match read {
                Ok(xs) => Ok::<DecodedView, Fault>(DecodedView::Execute { statement: Statement::IntakeAddUid, params: xs }),
                Err(f) => Err(f),
            } by {
            lemma_op_names();
            let fs = intake_add_uid_fields();
            let n = "intake.add"@;
            match canonical_timestamp(created_at@, "created_at"@) {
                Err(f) => {
                    assert(field_value(op, p, fs[0], 2, n, ids) == Ok::<ParamView, Fault>(ParamView::Text(uid@)));
                    assert(field_value(op, p, fs[1], 2, n, ids) == Err::<ParamView, Fault>(f));
                    lemma_fields_read(op, p, fs.take(1), seq![ParamView::Text(uid@)], 2, n, ids);
                    lemma_fields_fail(op, p, fs, 1, f, 2, n, ids);
                },
                Ok(t) => {
                    let vals = read->Ok_0;
                    assert(field_value(op, p, fs[0], 2, n, ids) == Ok::<ParamView, Fault>(vals[0]));
                    assert(field_value(op, p, fs[1], 2, n, ids) == Ok::<ParamView, Fault>(vals[1]));
                    assert(field_value(op, p, fs[2], 2, n, ids) == Ok::<ParamView, Fault>(vals[2]));
                    assert(field_value(op, p, fs[3], 2, n, ids) == Ok::<ParamView, Fault>(vals[3]));
                    assert(field_value(op, p, fs[4], 2, n, ids) == Ok::<ParamView, Fault>(vals[4]));
                    assert(field_value(op, p, fs[5], 2, n, ids) == Ok::<ParamView, Fault>(vals[5]));
                    assert(field_value(op, p, fs[6], 2, n, ids) == Ok::<ParamView, Fault>(vals[6]));
                    assert(field_value(op, p, fs[7], 2, n, ids) == Ok::<ParamView, Fault>(vals[7]));
                    assert(field_value(op, p, fs[8], 2, n, ids) == Ok::<ParamView, Fault>(vals[8]));
                    lemma_fields_read(op, p, fs, vals, 2, n, ids);
                },
            }
        }
    }
    op
}

/// What a trace records besides its uid, its time and its intake.
pub struct TraceRecord {
    pub task_summary: String,
    pub story_id: Option<String>,
    pub agent: Option<String>,
    pub actions_taken: Option<String>,
    pub files_read: Option<String>,
    pub files_changed: Option<String>,
    pub decisions_made: Option<String>,
    pub errors: Option<String>,
    pub outcome: Option<String>,
    pub duration_seconds: Option<i64>,
    pub token_estimate: Option<i64>,
    pub harness_friction: Option<String>,
    pub notes: Option<String>,
}

/// The fields a replay reads from a logged trace after its uid, in the
/// order it reads them.
pub open spec fn trace_fields_read(
    created_at: Seq<char>,
    recorded_at_unix_ns: Option<i64>,
    intake_uid: Option<Seq<char>>,
    r: TraceRecord,
) -> Result<Seq<ParamView>, Fault> {
    match canonical_timestamp(created_at, "created_at"@) {
        Err(f) => Err(f),
        Ok(t) => Ok(seq![
            t,
            optional_int(recorded_at_unix_ns),
            optional_text(intake_uid),
            ParamView::Text(r.task_summary@),
            optional_text(opt_view(r.story_id)),
            optional_text(opt_view(r.agent)),
            optional_text(opt_view(r.actions_taken)),
            optional_text(opt_view(r.files_read)),
            optional_text(opt_view(r.files_changed)),
            optional_text(opt_view(r.decisions_made)),
            optional_text(opt_view(r.errors)),
            optional_text(opt_view(r.outcome)),
            optional_int(r.duration_seconds),
            optional_int(r.token_estimate),
            optional_text(opt_view(r.harness_friction)),
            optional_text(opt_view(r.notes)),
        ]),
    }
}

/// The operation logged when the trace `uid` is recorded at `created_at`
/// (`recorded_at_unix_ns`) under the intake `intake_uid`; when the uid is
/// one the replay accepts, replaying it records the same trace, resolving
/// the intake by its uid.
#[verifier::spinoff_prover]
pub fn trace_add_operation(
    uid: &str,
    created_at: &str,
    recorded_at_unix_ns: Option<i64>,
    intake_uid: &Option<String>,
    record: &TraceRecord,
) -> (op: JsonValue)
    ensures
        valid_uid(uid@, "trc"@) ==> forall|ids: IdsView| #[trigger] operation_outcome(op, ids)
            == Ok::<DecodedView, Fault>(DecodedView::ResolvedInsert {
                statement: Statement::TraceAddUid,
                table: IdTable::Intake,
                uid: uid@,
                reference: opt_view(*intake_uid),
                rest: trace_fields_read(created_at@, recorded_at_unix_ns, opt_view(*intake_uid), *record),
                split: 4,
            }),
{
    let mut payload: Vec<(String, JsonValue)> = Vec::new();
    payload.push(entry("created_at", text(created_at)));
    payload.push(entry("recorded_at_unix_ns", integer_member(recorded_at_unix_ns)));
    payload.push(entry("task_summary", text(record.task_summary.as_str())));
    payload.push(entry("intake_uid", optional_member(intake_uid)));
    payload.push(entry("story_id", optional_member(&record.story_id)));
    payload.push(entry("agent", optional_member(&record.agent)));
    payload.push(entry("actions_taken", optional_member(&record.actions_taken)));
    payload.push(entry("files_read", optional_member(&record.files_read)));
    payload.push(entry("files_changed", optional_member(&record.files_changed)));
    payload.push(entry("decisions_made", optional_member(&record.decisions_made)));
    payload.push(entry("errors", optional_member(&record.errors)));
    payload.push(entry("outcome", optional_member(&record.outcome)));
    payload.push(entry("duration_seconds", integer_member(record.duration_seconds)));
    payload.push(entry("token_estimate", integer_member(record.token_estimate)));
    payload.push(entry("harness_friction", optional_member(&record.harness_friction)));
    payload.push(entry("notes", optional_member(&record.notes)));
    let op = operation("trace.add", 2, "uid", uid, payload);
    proof {
        lemma_operation_fields(op, "trace.add"@, "uid"@, uid@, JsonValue::Object(payload));
        assert(declared_version(op) == 2);
        reveal_strlit("created_at");
        reveal_strlit("recorded_at_unix_ns");
        reveal_strlit("task_summary");
        reveal_strlit("intake_uid");
        reveal_strlit("story_id");
        reveal_strlit("agent");
        reveal_strlit("actions_taken");
        reveal_strlit("files_read");
        reveal_strlit("files_changed");
        reveal_strlit("decisions_made");
        reveal_strlit("errors");
        reveal_strlit("outcome");
        reveal_strlit("duration_seconds");
        reveal_strlit("token_estimate");
        reveal_strlit("harness_friction");
        reveal_strlit("notes");
        assert("created_at"@.len() == 10 && "intake_uid"@.len() == 10 && "files_read"@.len() == 10);
        assert("created_at"@[0] != "intake_uid"@[0] && "created_at"@[0] != "files_read"@[0] && "intake_uid"@[0] != "files_read"@[0]);
        assert("agent"@.len() == 5 && "notes"@.len() == 5 && "agent"@[0] != "notes"@[0]);
        assert("actions_taken"@.len() == 13 && "files_changed"@.len() == 13 && "actions_taken"@[0] != "files_changed"@[0]);
        assert("decisions_made"@.len() == 14 && "token_estimate"@.len() == 14 && "decisions_made"@[0] != "token_estimate"@[0]);
        assert("duration_seconds"@.len() == 16 && "harness_friction"@.len() == 16 && "duration_seconds"@[0] != "harness_friction"@[0]);
        assert("recorded_at_unix_ns"@.len() == 19 && "task_summary"@.len() == 12 && "story_id"@.len() == 8
            && "errors"@.len() == 6 && "outcome"@.len() == 7);
        let e = payload@;
        lemma_first_key(e, "created_at"@, 0);
        lemma_first_key(e, "recorded_at_unix_ns"@, 1);
        lemma_first_key(e, "task_summary"@, 2);
        lemma_first_key(e, "intake_uid"@, 3);
        lemma_first_key(e, "story_id"@, 4);
        lemma_first_key(e, "agent"@, 5);
        lemma_first_key(e, "actions_taken"@, 6);
        lemma_first_key(e, "files_read"@, 7);
        lemma_first_key(e, "files_changed"@, 8);
        lemma_first_key(e, "decisions_made"@, 9);
        lemma_first_key(e, "errors"@, 10);
        lemma_first_key(e, "outcome"@, 11);
        lemma_first_key(e, "duration_seconds"@, 12);
        lemma_first_key(e, "token_estimate"@, 13);
        lemma_first_key(e, "harness_friction"@, 14);
        lemma_first_key(e, "notes"@, 15);
        let p = JsonValue::Object(payload);
        assert(json_str(p, "intake_uid"@) == opt_view(*intake_uid));
        assert forall|ids: IdsView| valid_uid(uid@, "trc"@) implies #[trigger] operation_outcome(op, ids)
            == Ok::<DecodedView, Fault>(DecodedView::ResolvedInsert {
                statement: Statement::TraceAddUid,
                table: IdTable::Intake,
                uid: uid@,
                reference: opt_view(*intake_uid),
                rest: trace_fields_read(created_at@, recorded_at_unix_ns, opt_view(*intake_uid), *record),
                split: 4,
            }) by {
            lemma_op_names();
            lemma_trace_fields_read(op, p, created_at@, recorded_at_unix_ns, opt_view(*intake_uid), *record, ids);
        }
    }
    op
}

/// Reading the fields of a logged trace gives `trace_fields_read`.
#[verifier::rlimit(30)]
#[verifier::spinoff_prover]
proof fn lemma_trace_fields_read(
    op: JsonValue,
    p: JsonValue,
    created_at: Seq<char>,
    recorded_at_unix_ns: Option<i64>,
    intake_uid: Option<Seq<char>>,
    r: TraceRecord,
    ids: IdsView,
)
    requires
        json_str(p, "created_at"@) == Some(created_at),
        json_i64(p, "recorded_at_unix_ns"@) == recorded_at_unix_ns,
        json_str(p, "intake_uid"@) == intake_uid,
        json_str(p, "task_summary"@) == Some(r.task_summary@),
        json_str(p, "story_id"@) == opt_view(r.story_id),
        json_str(p, "agent"@) == opt_view(r.agent),
        json_str(p, "actions_taken"@) == opt_view(r.actions_taken),
        json_str(p, "files_read"@) == opt_view(r.files_read),
        json_str(p, "files_changed"@) == opt_view(r.files_changed),
        json_str(p, "decisions_made"@) == opt_view(r.decisions_made),
        json_str(p, "errors"@) == opt_view(r.errors),
        json_str(p, "outcome"@) == opt_view(r.outcome),
        json_i64(p, "duration_seconds"@) == r.duration_seconds,
        json_i64(p, "token_estimate"@) == r.token_estimate,
        json_str(p, "harness_friction"@) == opt_view(r.harness_friction),
        json_str(p, "notes"@) == opt_view(r.notes),
    ensures
        fields_value(op, p, trace_add_uid_rest_fields(), 2, "trace.add"@, ids)
            == trace_fields_read(created_at, recorded_at_unix_ns, intake_uid, r),
{
    let fs = trace_add_uid_rest_fields();
    let n = "trace.add"@;
    let read = trace_fields_read(created_at, recorded_at_unix_ns, intake_uid, r);
    match canonical_timestamp(created_at, "created_at"@) {
        Err(f) => {
            assert(field_value(op, p, fs[0], 2, n, ids) == Err::<ParamView, Fault>(f));
            assert(fs.take(0) =~= Seq::<FieldView>::empty());
            lemma_fields_fail(op, p, fs, 0, f, 2, n, ids);
        },
        Ok(t) => {
            let vals = read->Ok_0;
            assert forall|i: int| 0 <= i < fs.len() implies field_value(op, p, #[trigger] fs[i], 2, n, ids)
                == Ok::<ParamView, Fault>(vals[i]) by {
                assert(field_value(op, p, fs[0], 2, n, ids) == Ok::<ParamView, Fault>(vals[0]));
                assert(field_value(op, p, fs[1], 2, n, ids) == Ok::<ParamView, Fault>(vals[1]));
                assert(field_value(op, p, fs[2], 2, n, ids) == Ok::<ParamView, Fault>(vals[2]));
                assert(field_value(op, p, fs[3], 2, n, ids) == Ok::<ParamView, Fault>(vals[3]));
                assert(field_value(op, p, fs[4], 2, n, ids) == Ok::<ParamView, Fault>(vals[4]));
                assert(field_value(op, p, fs[5], 2, n, ids) == Ok::<ParamView, Fault>(vals[5]));
                assert(field_value(op, p, fs[6], 2, n, ids) == Ok::<ParamView, Fault>(vals[6]));
                assert(field_value(op, p, fs[7], 2, n, ids) == Ok::<ParamView, Fault>(vals[7]));
                assert(field_value(op, p, fs[8], 2, n, ids) == Ok::<ParamView, Fault>(vals[8]));
                assert(field_value(op, p, fs[9], 2, n, ids) == Ok::<ParamView, Fault>(vals[9]));
                assert(field_value(op, p, fs[10], 2, n, ids) == Ok::<ParamView, Fault>(vals[10]));
                assert(field_value(op, p, fs[11], 2, n, ids) == Ok::<ParamView, Fault>(vals[11]));
                assert(field_value(op, p, fs[12], 2, n, ids) == Ok::<ParamView, Fault>(vals[12]));
                assert(field_value(op, p, fs[13], 2, n, ids) == Ok::<ParamView, Fault>(vals[13]));
                assert(field_value(op, p, fs[14], 2, n, ids) == Ok::<ParamView, Fault>(vals[14]));
                assert(field_value(op, p, fs[15], 2, n, ids) == Ok::<ParamView, Fault>(vals[15]));
            }
            lemma_fields_read(op, p, fs, vals, 2, n, ids);
        },
    }
}

/// The operation logged when story `id` is added; replaying it adds the
/// same story.
#[verifier::spinoff_prover]
pub fn story_add_operation(
    id: &str,
    title: &str,
    risk_lane: &str,
    contract_doc: &Option<String>,
    verify_command: &Option<String>,
    notes: &Option<String>,
) -> (op: JsonValue)
    ensures
        forall|ids: IdsView| #[trigger] operation_outcome(op, ids) == Ok::<DecodedView, Fault>(DecodedView::Execute {
            statement: Statement::StoryAdd,
            params: seq![
                ParamView::Text(id@),
                ParamView::Text(title@),
                ParamView::Text(risk_lane@),
                optional_text(opt_view(*contract_doc)),
                optional_text(opt_view(*verify_command)),
                optional_text(opt_view(*notes)),
            ],
        }),
{
    let mut payload: Vec<(String, JsonValue)> = Vec::new();
    payload.push(entry("title", text(title)));
    payload.push(entry("risk_lane", text(risk_lane)));
    payload.push(entry("contract_doc", optional_member(contract_doc)));
    payload.push(entry("verify_command", optional_member(verify_command)));
    payload.push(entry("notes", optional_member(notes)));
    let op = operation("story.add", 1, "id", id, payload);
    proof {
        lemma_operation_fields(op, "story.add"@, "id"@, id@, JsonValue::Object(payload));
        assert(declared_version(op) == 1);
        reveal_strlit("title");
        reveal_strlit("risk_lane");
        reveal_strlit("contract_doc");
        reveal_strlit("verify_command");
        reveal_strlit("notes");
        assert("title"@.len() == 5 && "notes"@.len() == 5 && "title"@[0] != "notes"@[0]);
        assert("risk_lane"@.len() == 9 && "contract_doc"@.len() == 12 && "verify_command"@.len() == 14);
        let e = payload@;
        lemma_first_key(e, "title"@, 0);
        lemma_first_key(e, "risk_lane"@, 1);
        lemma_first_key(e, "contract_doc"@, 2);
        lemma_first_key(e, "verify_command"@, 3);
        lemma_first_key(e, "notes"@, 4);
        let p = JsonValue::Object(payload);
        let vals = seq![
            ParamView::Text(id@),
            ParamView::Text(title@),
            ParamView::Text(risk_lane@),
            optional_text(opt_view(*contract_doc)),
            optional_text(opt_view(*verify_command)),
            optional_text(opt_view(*notes)),
        ];
        assert forall|ids: IdsView| #[trigger] operation_outcome(op, ids) == Ok::<DecodedView, Fault>(DecodedView::Execute {
            statement: Statement::StoryAdd,
            params: vals,
        }) by {
            lemma_op_names();
            let fs = story_add_fields();
            let n = "story.add"@;
            assert(field_value(op, p, fs[0], 1, n, ids) == Ok::<ParamView, Fault>(vals[0]));
            assert(field_value(op, p, fs[1], 1, n, ids) == Ok::<ParamView, Fault>(vals[1]));
            assert(field_value(op, p, fs[2], 1, n, ids) == Ok::<ParamView, Fault>(vals[2]));
            assert(field_value(op, p, fs[3], 1, n, ids) == Ok::<ParamView, Fault>(vals[3]));
            assert(field_value(op, p, fs[4], 1, n, ids) == Ok::<ParamView, Fault>(vals[4]));
            assert(field_value(op, p, fs[5], 1, n, ids) == Ok::<ParamView, Fault>(vals[5]));
            lemma_fields_read(op, p, fs, vals, 1, n, ids);
        }
    }
    op
}

/// The operation logged for the story update `update`; replaying it makes
/// the same update.
#[verifier::spinoff_prover]
pub fn story_update_operation(update: &StoryUpdate) -> (op: JsonValue)
    ensures
        forall|ids: IdsView| #[trigger] operation_outcome(op, ids) == Ok::<DecodedView, Fault>(DecodedView::Execute {
            statement: Statement::StoryUpdate,
            params: seq![
                optional_text(opt_view(update.status)),
                optional_text(opt_view(update.evidence)),
                optional_int(update.unit_proof),
                optional_int(update.integration_proof),
                optional_int(update.e2e_proof),
                optional_int(update.platform_proof),
                optional_text(opt_view(update.verify_command)),
                ParamView::Text(update.id@),
            ],
        }),
{
    let mut payload: Vec<(String, JsonValue)> = Vec::new();
    payload.push(entry("status", optional_member(&update.status)));
    payload.push(entry("evidence", optional_member(&update.evidence)));
    payload.push(entry("unit_proof", integer_member(update.unit_proof)));
    payload.push(entry("integration_proof", integer_member(update.integration_proof)));
    payload.push(entry("e2e_proof", integer_member(update.e2e_proof)));
    payload.push(entry("platform_proof", integer_member(update.platform_proof)));
    payload.push(entry("verify_command", optional_member(&update.verify_command)));
    let op = operation("story.update", 1, "id", update.id.as_str(), payload);
    proof {
        lemma_operation_fields(op, "story.update"@, "id"@, update.id@, JsonValue::Object(payload));
        assert(declared_version(op) == 1);
        reveal_strlit("status");
        reveal_strlit("evidence");
        reveal_strlit("unit_proof");
        reveal_strlit("integration_proof");
        reveal_strlit("e2e_proof");
        reveal_strlit("platform_proof");
        reveal_strlit("verify_command");
        assert("status"@.len() == 6 && "evidence"@.len() == 8 && "unit_proof"@.len() == 10
            && "integration_proof"@.len() == 17 && "e2e_proof"@.len() == 9 && "platform_proof"@.len() == 14
            && "verify_command"@.len() == 14 && "platform_proof"@[0] != "verify_command"@[0]);
        let e = payload@;
        lemma_first_key(e, "status"@, 0);
        lemma_first_key(e, "evidence"@, 1);
        lemma_first_key(e, "unit_proof"@, 2);
        lemma_first_key(e, "integration_proof"@, 3);
        lemma_first_key(e, "e2e_proof"@, 4);
        lemma_first_key(e, "platform_proof"@, 5);
        lemma_first_key(e, "verify_command"@, 6);
        let p = JsonValue::Object(payload);
        let vals = seq![
            optional_text(opt_view(update.status)),
            optional_text(opt_view(update.evidence)),
            optional_int(update.unit_proof),
            optional_int(update.integration_proof),
            optional_int(update.e2e_proof),
            optional_int(update.platform_proof),
            optional_text(opt_view(update.verify_command)),
            ParamView::Text(update.id@),
        ];
        assert forall|ids: IdsView| #[trigger] operation_outcome(op, ids) == Ok::<DecodedView, Fault>(DecodedView::Execute {
            statement: Statement::StoryUpdate,
            params: vals,
        }) by {
            lemma_op_names();
            let fs = story_update_fields();
            let n = "story.update"@;
            assert(field_value(op, p, fs[0], 1, n, ids) == Ok::<ParamView, Fault>(vals[0]));
            assert(field_value(op, p, fs[1], 1, n, ids) == Ok::<ParamView, Fault>(vals[1]));
            assert(field_value(op, p, fs[2], 1, n, ids) == Ok::<ParamView, Fault>(vals[2]));
            assert(field_value(op, p, fs[3], 1, n, ids) == Ok::<ParamView, Fault>(vals[3]));
            assert(field_value(op, p, fs[4], 1, n, ids) == Ok::<ParamView, Fault>(vals[4]));
            assert(field_value(op, p, fs[5], 1, n, ids) == Ok::<ParamView, Fault>(vals[5]));
            assert(field_value(op, p, fs[6], 1, n, ids) == Ok::<ParamView, Fault>(vals[6]));
            assert(field_value(op, p, fs[7], 1, n, ids) == Ok::<ParamView, Fault>(vals[7]));
            lemma_fields_read(op, p, fs, vals, 1, n, ids);
        }
    }
    op
}

/// The operation logged when decision `id` is added; replaying it adds the
/// same decision.
#[verifier::spinoff_prover]
pub fn decision_add_operation(
    id: &str,
    title: &str,
    status: &str,
    doc_path: &Option<String>,
    verify_command: &Option<String>,
    predicted_impact: &Option<String>,
    notes: &Option<String>,
) -> (op: JsonValue)
    ensures
        forall|ids: IdsView| #[trigger] operation_outcome(op, ids) == Ok::<DecodedView, Fault>(DecodedView::Execute {
            statement: Statement::DecisionAdd,
            params: seq![
                ParamView::Text(id@),
                ParamView::Text(title@),
                ParamView::Text(status@),
                optional_text(opt_view(*doc_path)),
                optional_text(opt_view(*verify_command)),
                optional_text(opt_view(*predicted_impact)),
                optional_text(opt_view(*notes)),
            ],
        }),
{
    let mut payload: Vec<(String, JsonValue)> = Vec::new();
    payload.push(entry("title", text(title)));
    payload.push(entry("status", text(status)));
    payload.push(entry("doc_path", optional_member(doc_path)));
    payload.push(entry("verify_command", optional_member(verify_command)));
    payload.push(entry("predicted_impact", optional_member(predicted_impact)));
    payload.push(entry("notes", optional_member(notes)));
    let op = operation("decision.add", 1, "id", id, payload);
    proof {
        lemma_operation_fields(op, "decision.add"@, "id"@, id@, JsonValue::Object(payload));
        assert(declared_version(op) == 1);
        reveal_strlit("title");
        reveal_strlit("status");
        reveal_strlit("doc_path");
        reveal_strlit("verify_command");
        reveal_strlit("predicted_impact");
        reveal_strlit("notes");
        assert("title"@.len() == 5 && "notes"@.len() == 5 && "title"@[0] != "notes"@[0]);
        assert("status"@.len() == 6 && "doc_path"@.len() == 8 && "verify_command"@.len() == 14
            && "predicted_impact"@.len() == 16);
        let e = payload@;
        lemma_first_key(e, "title"@, 0);
        lemma_first_key(e, "status"@, 1);
        lemma_first_key(e, "doc_path"@, 2);
        lemma_first_key(e, "verify_command"@, 3);
        lemma_first_key(e, "predicted_impact"@, 4);
        lemma_first_key(e, "notes"@, 5);
        let p = JsonValue::Object(payload);
        let vals = seq![
            ParamView::Text(id@),
            ParamView::Text(title@),
            ParamView::Text(status@),
            optional_text(opt_view(*doc_path)),
            optional_text(opt_view(*verify_command)),
            optional_text(opt_view(*predicted_impact)),
            optional_text(opt_view(*notes)),
        ];
        assert forall|ids: IdsView| #[trigger] operation_outcome(op, ids) == Ok::<DecodedView, Fault>(DecodedView::Execute {
            statement: Statement::DecisionAdd,
            params: vals,
        }) by {
            lemma_op_names();
            let fs = decision_add_fields();
            let n = "decision.add"@;
            assert(field_value(op, p, fs[0], 1, n, ids) == Ok::<ParamView, Fault>(vals[0]));
            assert(field_value(op, p, fs[1], 1, n, ids) == Ok::<ParamView, Fault>(vals[1]));
            assert(field_value(op, p, fs[2], 1, n, ids) == Ok::<ParamView, Fault>(vals[2]));
            assert(field_value(op, p, fs[3], 1, n, ids) == Ok::<ParamView, Fault>(vals[3]));
            assert(field_value(op, p, fs[4], 1, n, ids) == Ok::<ParamView, Fault>(vals[4]));
            assert(field_value(op, p, fs[5], 1, n, ids) == Ok::<ParamView, Fault>(vals[5]));
            assert(field_value(op, p, fs[6], 1, n, ids) == Ok::<ParamView, Fault>(vals[6]));
            lemma_fields_read(op, p, fs, vals, 1, n, ids);
        }
    }
    op
}

/// The fields a replay reads from a logged backlog item, in statement order.
pub open spec fn backlog_fields_read(
    uid: Seq<char>,
    created_at: Seq<char>,
    title: Seq<char>,
    discovered_while: Option<Seq<char>>,
    current_pain: Option<Seq<char>>,
    suggested_improvement: Option<Seq<char>>,
    risk: Option<Seq<char>>,
    predicted_impact: Option<Seq<char>>,
    notes: Option<Seq<char>>,
) -> Result<Seq<ParamView>, Fault> {
    match canonical_timestamp(created_at, "created_at"@) {
        Err(f) => Err(f),
        Ok(t) => Ok(seq![
            ParamView::Text(uid),
            t,
            ParamView::Null,
            ParamView::Null,
            ParamView::Text(title),
            optional_text(discovered_while),
            optional_text(current_pain),
            optional_text(suggested_improvement),
            optional_text(risk),
            optional_text(predicted_impact),
            optional_text(notes),
        ]),
    }
}

/// The operation logged when the backlog item `uid` is added by hand at
/// `created_at`; when the uid is one the replay accepts, replaying it adds
/// the same item, without a proposal key, with the time checked as
/// canonical date-time text.
#[verifier::spinoff_prover]
#[verifier::rlimit(40)]
pub fn backlog_add_operation(
    uid: &str,
    created_at: &str,
    title: &str,
    discovered_while: &Option<String>,
    current_pain: &Option<String>,
    suggested_improvement: &Option<String>,
    risk: &Option<String>,
    predicted_impact: &Option<String>,
    notes: &Option<String>,
) -> (op: JsonValue)
    ensures
        valid_uid(uid@, "blg"@) ==> forall|ids: IdsView| #[trigger] operation_outcome(op, ids)
            == match backlog_fields_read(uid@, created_at@, title@, opt_view(*discovered_while), opt_view(*current_pain),
                opt_view(*suggested_improvement), opt_view(*risk), opt_view(*predicted_impact), opt_view(*notes)) {
                Ok(xs) => Ok::<DecodedView, Fault>(DecodedView::Execute { statement: Statement::BacklogAddUid, params: xs }),
                Err(f) => Err(f),
            },
{
    let mut payload: Vec<(String, JsonValue)> = Vec::new();
    payload.push(entry("created_at", text(created_at)));
    payload.push(entry("title", text(title)));
    payload.push(entry("discovered_while", optional_member(discovered_while)));
    payload.push(entry("current_pain", optional_member(current_pain)));
    payload.push(entry("suggested_improvement", optional_member(suggested_improvement)));
    payload.push(entry("risk", optional_member(risk)));
    payload.push(entry("predicted_impact", optional_member(predicted_impact)));
    payload.push(entry("notes", optional_member(notes)));
    let op = operation("backlog.add", 2, "uid", uid, payload);
    proof {
        lemma_operation_fields(op, "backlog.add"@, "uid"@, uid@, JsonValue::Object(payload));
        assert(declared_version(op) == 2);
        reveal_strlit("created_at");
        reveal_strlit("title");
        reveal_strlit("discovered_while");
        reveal_strlit("current_pain");
        reveal_strlit("suggested_improvement");
        reveal_strlit("risk");
        reveal_strlit("predicted_impact");
        reveal_strlit("notes");
        reveal_strlit("proposal_key");
        reveal_strlit("occurrence_kind");
        assert("title"@.len() == 5 && "notes"@.len() == 5 && "title"@[0] != "notes"@[0]);
        assert("discovered_while"@.len() == 16 && "predicted_impact"@.len() == 16
            && "discovered_while"@[0] != "predicted_impact"@[0]);
        assert("current_pain"@.len() == 12 && "proposal_key"@.len() == 12 && "current_pain"@[0] != "proposal_key"@[0]);
        assert("created_at"@.len() == 10 && "suggested_improvement"@.len() == 21 && "risk"@.len() == 4
            && "occurrence_kind"@.len() == 15);
        let e = payload@;
        lemma_first_key(e, "created_at"@, 0);
        lemma_first_key(e, "title"@, 1);
        lemma_first_key(e, "discovered_while"@, 2);
        lemma_first_key(e, "current_pain"@, 3);
        lemma_first_key(e, "suggested_improvement"@, 4);
        lemma_first_key(e, "risk"@, 5);
        lemma_first_key(e, "predicted_impact"@, 6);
        lemma_first_key(e, "notes"@, 7);
        lemma_no_key(e, "proposal_key"@);
        lemma_no_key(e, "occurrence_kind"@);
        let p = JsonValue::Object(payload);
        let read = backlog_fields_read(uid@, created_at@, title@, opt_view(*discovered_while), opt_view(*current_pain),
            opt_view(*suggested_improvement), opt_view(*risk), opt_view(*predicted_impact), opt_view(*notes));
        assert forall|ids: IdsView| valid_uid(uid@, "blg"@) implies #[trigger] operation_outcome(op, ids)
            == match read {
                Ok(xs) => Ok::<DecodedView, Fault>(DecodedView::Execute { statement: Statement::BacklogAddUid, params: xs }),
                Err(f) => Err(f),
            } by {
            lemma_op_names();
            let fs = backlog_add_uid_fields();
            let n = "backlog.add"@;
            match canonical_timestamp(created_at@, "created_at"@) {
                Err(f) => {
                    assert(field_value(op, p, fs[0], 2, n, ids) == Ok::<ParamView, Fault>(ParamView::Text(uid@)));
                    assert(field_value(op, p, fs[1], 2, n, ids) == Err::<ParamView, Fault>(f));
                    lemma_fields_read(op, p, fs.take(1), seq![ParamView::Text(uid@)], 2, n, ids);
                    lemma_fields_fail(op, p, fs, 1, f, 2, n, ids);
                },
                Ok(t) => {
                    let vals = read->Ok_0;
                    assert forall|i: int| 0 <= i < fs.len() implies field_value(op, p, #[trigger] fs[i], 2, n, ids)
                        == Ok::<ParamView, Fault>(vals[i]) by {
                        assert(field_value(op, p, fs[0], 2, n, ids) == Ok::<ParamView, Fault>(vals[0]));
                        assert(field_value(op, p, fs[1], 2, n, ids) == Ok::<ParamView, Fault>(vals[1]));
                        assert(field_value(op, p, fs[2], 2, n, ids) == Ok::<ParamView, Fault>(vals[2]));
                        assert(field_value(op, p, fs[3], 2, n, ids) == Ok::<ParamView, Fault>(vals[3]));
                        assert(field_value(op, p, fs[4], 2, n, ids) == Ok::<ParamView, Fault>(vals[4]));
                        assert(field_value(op, p, fs[5], 2, n, ids) == Ok::<ParamView, Fault>(vals[5]));
                        assert(field_value(op, p, fs[6], 2, n, ids) == Ok::<ParamView, Fault>(vals[6]));
                        assert(field_value(op, p, fs[7], 2, n, ids) == Ok::<ParamView, Fault>(vals[7]));
                        assert(field_value(op, p, fs[8], 2, n, ids) == Ok::<ParamView, Fault>(vals[8]));
                        assert(field_value(op, p, fs[9], 2, n, ids) == Ok::<ParamView, Fault>(vals[9]));
                        assert(field_value(op, p, fs[10], 2, n, ids) == Ok::<ParamView, Fault>(vals[10]));
                    }
                    lemma_fields_read(op, p, fs, vals, 2, n, ids);
                },
            }
        }
    }
    op
}

/// The operation logged when backlog item `id` is closed by hand with
/// `status`; replaying it closes the item that `id` stands for there.
#[verifier::spinoff_prover]
pub fn backlog_close_operation(id: i64, status: &str, actual_outcome: &Option<String>) -> (op: JsonValue)
    ensures
        forall|ids: IdsView| #[trigger] operation_outcome(op, ids) == Ok::<DecodedView, Fault>(DecodedView::Execute {
            statement: Statement::BacklogClose,
            params: seq![
                ParamView::Text(status@),
                optional_text(opt_view(*actual_outcome)),
                ParamView::Int(map_id(ids.backlog, id)),
            ],
        }),
{
    let mut payload: Vec<(String, JsonValue)> = Vec::new();
    payload.push(entry("status", text(status)));
    payload.push(entry("actual_outcome", optional_member(actual_outcome)));
    let mut entries: Vec<(String, JsonValue)> = Vec::new();
    entries.push(entry("op", text("backlog.close")));
    entries.push(entry("version", JsonValue::Number(Some(1))));
    entries.push(entry("id", JsonValue::Number(Some(id))));
    entries.push(entry("payload", JsonValue::Object(payload)));
    let op = JsonValue::Object(entries);
    proof {
        reveal_strlit("op");
        reveal_strlit("version");
        reveal_strlit("id");
        reveal_strlit("payload");
        reveal_strlit("status");
        reveal_strlit("actual_outcome");
        let x = entries@;
        assert("op"@[0] != "id"@[0]);
        assert("version"@[0] != "payload"@[0]);
        assert(x[0].0@ != x[1].0@ && x[0].0@ != x[2].0@ && x[0].0@ != x[3].0@);
        assert(x[1].0@ != x[2].0@ && x[1].0@ != x[3].0@ && x[2].0@ != x[3].0@);
        lemma_index_of_four(x, "op"@, 0);
        lemma_index_of_four(x, "version"@, 1);
        lemma_index_of_four(x, "id"@, 2);
        lemma_index_of_four(x, "payload"@, 3);
        assert("status"@.len() == 6 && "actual_outcome"@.len() == 14);
        lemma_first_key(payload@, "status"@, 0);
        lemma_first_key(payload@, "actual_outcome"@, 1);
        assert(json_str(op, "op"@) == Some("backlog.close"@));
        assert(declared_version(op) == 1);
        assert(payload_of(op) == JsonValue::Object(payload));
        let p = JsonValue::Object(payload);
        assert forall|ids: IdsView| #[trigger] operation_outcome(op, ids) == Ok::<DecodedView, Fault>(DecodedView::Execute {
            statement: Statement::BacklogClose,
            params: seq![
                ParamView::Text(status@),
                optional_text(opt_view(*actual_outcome)),
                ParamView::Int(map_id(ids.backlog, id)),
            ],
        }) by {
            lemma_op_names();
            let fs = backlog_close_fields();
            let n = "backlog.close"@;
            let vals = seq![
                ParamView::Text(status@),
                optional_text(opt_view(*actual_outcome)),
                ParamView::Int(map_id(ids.backlog, id)),
            ];
            assert(json_i64(op, "id"@) == Some(id));
            assert(field_value(op, p, fs[0], 1, n, ids) == Ok::<ParamView, Fault>(vals[0]));
            assert(field_value(op, p, fs[1], 1, n, ids) == Ok::<ParamView, Fault>(vals[1]));
            assert(field_value(op, p, fs[2], 1, n, ids) == Ok::<ParamView, Fault>(vals[2]));
            lemma_fields_read(op, p, fs, vals, 1, n, ids);
        }
    }
    op
}

/// The fields a replay reads from a logged intervention after its uid, in
/// the order it reads them.
pub open spec fn intervention_fields_read(
    created_at: Seq<char>,
    story_id: Option<Seq<char>>,
    kind: Seq<char>,
    description: Seq<char>,
    source: Seq<char>,
    impact: Option<Seq<char>>,
) -> Result<Seq<ParamView>, Fault> {
    match canonical_timestamp(created_at, "created_at"@) {
        Err(f) => Err(f),
        Ok(t) => Ok(seq![
            t,
            optional_text(story_id),
            ParamView::Text(kind),
            ParamView::Text(description),
            ParamView::Text(source),
            optional_text(impact),
        ]),
    }
}

/// The operation logged when the intervention `uid` is recorded at
/// `created_at` on the trace `trace_uid`; when the uid is one the replay
/// accepts, replaying it records the same intervention, resolving the
/// trace by its uid.
#[verifier::spinoff_prover]
pub fn intervention_add_operation(
    uid: &str,
    created_at: &str,
    trace_uid: &Option<String>,
    story_id: &Option<String>,
    kind: &str,
    description: &str,
    source: &str,
    impact: &Option<String>,
) -> (op: JsonValue)
    ensures
        valid_uid(uid@, "int"@) ==> forall|ids: IdsView| #[trigger] operation_outcome(op, ids)
            == Ok::<DecodedView, Fault>(DecodedView::ResolvedInsert {
                statement: Statement::InterventionAddUid,
                table: IdTable::Trace,
                uid: uid@,
                reference: opt_view(*trace_uid),
                rest: intervention_fields_read(created_at@, opt_view(*story_id), kind@, description@, source@, opt_view(*impact)),
                split: 1,
            }),
{
    let mut payload: Vec<(String, JsonValue)> = Vec::new();
    payload.push(entry("created_at", text(created_at)));
    payload.push(entry("trace_uid", optional_member(trace_uid)));
    payload.push(entry("story_id", optional_member(story_id)));
    payload.push(entry("type", text(kind)));
    payload.push(entry("description", text(description)));
    payload.push(entry("source", text(source)));
    payload.push(entry("impact", optional_member(impact)));
    let op = operation("intervention.add", 2, "uid", uid, payload);
    proof {
        lemma_operation_fields(op, "intervention.add"@, "uid"@, uid@, JsonValue::Object(payload));
        assert(declared_version(op) == 2);
        reveal_strlit("created_at");
        reveal_strlit("trace_uid");
        reveal_strlit("story_id");
        reveal_strlit("type");
        reveal_strlit("description");
        reveal_strlit("source");
        reveal_strlit("impact");
        assert("source"@.len() == 6 && "impact"@.len() == 6 && "source"@[0] != "impact"@[0]);
        assert("created_at"@.len() == 10 && "trace_uid"@.len() == 9 && "story_id"@.len() == 8 && "type"@.len() == 4
            && "description"@.len() == 11);
        let e = payload@;
        lemma_first_key(e, "created_at"@, 0);
        lemma_first_key(e, "trace_uid"@, 1);
        lemma_first_key(e, "story_id"@, 2);
        lemma_first_key(e, "type"@, 3);
        lemma_first_key(e, "description"@, 4);
        lemma_first_key(e, "source"@, 5);
        lemma_first_key(e, "impact"@, 6);
        let p = JsonValue::Object(payload);
        let read = intervention_fields_read(created_at@, opt_view(*story_id), kind@, description@, source@, opt_view(*impact));
        assert(json_str(p, "trace_uid"@) == opt_view(*trace_uid));
        assert forall|ids: IdsView| valid_uid(uid@, "int"@) implies #[trigger] operation_outcome(op, ids)
            == Ok::<DecodedView, Fault>(DecodedView::ResolvedInsert {
                statement: Statement::InterventionAddUid,
                table: IdTable::Trace,
                uid: uid@,
                reference: opt_view(*trace_uid),
                rest: read,
                split: 1,
            }) by {
            lemma_op_names();
            let fs = intervention_add_uid_rest_fields();
            let n = "intervention.add"@;
            match canonical_timestamp(created_at@, "created_at"@) {
                Err(f) => {
                    assert(field_value(op, p, fs[0], 2, n, ids) == Err::<ParamView, Fault>(f));
                    assert(fs.take(0) =~= Seq::<FieldView>::empty());
                    lemma_fields_fail(op, p, fs, 0, f, 2, n, ids);
                },
                Ok(t) => {
                    let vals = read->Ok_0;
                    assert(field_value(op, p, fs[0], 2, n, ids) == Ok::<ParamView, Fault>(vals[0]));
                    assert(field_value(op, p, fs[1], 2, n, ids) == Ok::<ParamView, Fault>(vals[1]));
                    assert(field_value(op, p, fs[2], 2, n, ids) == Ok::<ParamView, Fault>(vals[2]));
                    assert(field_value(op, p, fs[3], 2, n, ids) == Ok::<ParamView, Fault>(vals[3]));
                    assert(field_value(op, p, fs[4], 2, n, ids) == Ok::<ParamView, Fault>(vals[4]));
                    assert(field_value(op, p, fs[5], 2, n, ids) == Ok::<ParamView, Fault>(vals[5]));
                    lemma_fields_read(op, p, fs, vals, 2, n, ids);
                },
            }
        }
    }
    op
}

/// The operation logged when observation `uid` (the `ordinal`-th) of the
/// outcome of backlog item `backlog_uid` is recorded at `observed_at`. When
/// both uids are ones the replay accepts and the status is an observation
/// status, replaying it records the same observation, with the time checked
/// as canonical date-time text.
#[verifier::spinoff_prover]
pub fn outcome_observe_operation(
    uid: &str,
    backlog_uid: &str,
    ordinal: i64,
    status: &str,
    outcome: &str,
    evidence: &Option<String>,
    observed_at: &str,
) -> (op: JsonValue)
    ensures
        valid_uid(uid@, "obs"@) && valid_uid(backlog_uid@, "blg"@) && is_observation_status(status@) ==>
            forall|ids: IdsView| #[trigger] operation_outcome(op, ids) == match canonical_timestamp(observed_at@, "observed_at"@) {
                Ok(t) => Ok::<DecodedView, Fault>(DecodedView::Execute {
                    statement: Statement::BacklogOutcomeObserve,
                    params: seq![
                        ParamView::Text(uid@),
                        ParamView::Text(backlog_uid@),
                        ParamView::Int(ordinal),
                        ParamView::Text(status@),
                        ParamView::Text(outcome@),
                        optional_text(opt_view(*evidence)),
                        t,
                    ],
                }),
                Err(f) => Err(f),
            },
{
    let mut payload: Vec<(String, JsonValue)> = Vec::new();
    payload.push(entry("backlog_uid", text(backlog_uid)));
    payload.push(entry("ordinal", JsonValue::Number(Some(ordinal))));
    payload.push(entry("status", text(status)));
    payload.push(entry("outcome", text(outcome)));
    payload.push(entry("evidence", optional_member(evidence)));
    payload.push(entry("observed_at", text(observed_at)));
    let op = operation("backlog.outcome.observe", 1, "uid", uid, payload);
    proof {
        lemma_operation_fields(op, "backlog.outcome.observe"@, "uid"@, uid@, JsonValue::Object(payload));
        assert(declared_version(op) == 1);
        reveal_strlit("backlog_uid");
        reveal_strlit("ordinal");
        reveal_strlit("status");
        reveal_strlit("outcome");
        reveal_strlit("evidence");
        reveal_strlit("observed_at");
        assert("backlog_uid"@.len() == 11 && "observed_at"@.len() == 11 && "backlog_uid"@[0] != "observed_at"@[0]);
        assert("ordinal"@.len() == 7 && "outcome"@.len() == 7 && "ordinal"@[1] != "outcome"@[1]);
        assert("status"@.len() == 6 && "evidence"@.len() == 8);
        let e = payload@;
        lemma_first_key(e, "backlog_uid"@, 0);
        lemma_first_key(e, "ordinal"@, 1);
        lemma_first_key(e, "status"@, 2);
        lemma_first_key(e, "outcome"@, 3);
        lemma_first_key(e, "evidence"@, 4);
        lemma_first_key(e, "observed_at"@, 5);
        let p = JsonValue::Object(payload);
        assert forall|ids: IdsView| valid_uid(uid@, "obs"@) && valid_uid(backlog_uid@, "blg"@) && is_observation_status(status@)
            implies #[trigger] operation_outcome(op, ids) == match canonical_timestamp(observed_at@, "observed_at"@) {
                Ok(t) => Ok::<DecodedView, Fault>(DecodedView::Execute {
                    statement: Statement::BacklogOutcomeObserve,
                    params: seq![
                        ParamView::Text(uid@),
                        ParamView::Text(backlog_uid@),
                        ParamView::Int(ordinal),
                        ParamView::Text(status@),
                        ParamView::Text(outcome@),
                        optional_text(opt_view(*evidence)),
                        t,
                    ],
                }),
                Err(f) => Err(f),
            } by {
            lemma_op_names();
            let fs = outcome_tail_fields();
            let n = "backlog.outcome.observe"@;
            let head = seq![ParamView::Int(ordinal), ParamView::Text(outcome@), optional_text(opt_view(*evidence))];
            assert(field_value(op, p, fs[0], 1, n, ids) == Ok::<ParamView, Fault>(head[0]));
            assert(field_value(op, p, fs[1], 1, n, ids) == Ok::<ParamView, Fault>(head[1]));
            assert(field_value(op, p, fs[2], 1, n, ids) == Ok::<ParamView, Fault>(head[2]));
            match canonical_timestamp(observed_at@, "observed_at"@) {
                Ok(t) => {
                    let vals = head.push(t);
                    assert(field_value(op, p, fs[3], 1, n, ids) == Ok::<ParamView, Fault>(vals[3]));
                    lemma_fields_read(op, p, fs, vals, 1, n, ids);
                },
                Err(f) => {
                    assert(field_value(op, p, fs[3], 1, n, ids) == Err::<ParamView, Fault>(f));
                    assert(fs.take(3) =~= seq![fs[0], fs[1], fs[2]]);
                    lemma_fields_read(op, p, fs.take(3), head, 1, n, ids);
                    lemma_fields_fail(op, p, fs, 3, f, 1, n, ids);
                },
            }
        }
    }
    op
}

/// The operation logged when the snapshot `uid` of legacy evidence (the
/// `source_kind` row `source_local_id`, rendered as `canonical_payload` with
/// `fingerprint`) is captured at `captured_at`. When the uid is one the
/// replay accepts and the source is a trace or an intervention, replaying it
/// captures the same snapshot, with the time checked as canonical date-time
/// text.
#[verifier::spinoff_prover]
pub fn legacy_capture_operation(
    uid: &str,
    source_kind: &str,
    source_local_id: i64,
    fingerprint: &str,
    canonical_payload: &str,
    captured_at: &str,
) -> (op: JsonValue)
    ensures
        valid_uid(uid@, "leg"@) && (source_kind@ == "trace"@ || source_kind@ == "intervention"@) ==>
            forall|ids: IdsView| #[trigger] operation_outcome(op, ids) == match canonical_timestamp(captured_at@, "captured_at"@) {
                Ok(t) => Ok::<DecodedView, Fault>(DecodedView::Execute {
                    statement: Statement::LegacyEvidenceCapture,
                    params: seq![
                        ParamView::Text(uid@),
                        ParamView::Text(source_kind@),
                        ParamView::Int(source_local_id),
                        ParamView::Text(fingerprint@),
                        ParamView::Text(canonical_payload@),
                        t,
                    ],
                }),
                Err(f) => Err(f),
            },
{
    let mut payload: Vec<(String, JsonValue)> = Vec::new();
    payload.push(entry("source_kind", text(source_kind)));
    payload.push(entry("source_local_id", JsonValue::Number(Some(source_local_id))));
    payload.push(entry("evidence_fingerprint", text(fingerprint)));
    payload.push(entry("canonical_payload", text(canonical_payload)));
    payload.push(entry("captured_at", text(captured_at)));
    let op = operation("legacy.evidence.capture", 1, "uid", uid, payload);
    proof {
        lemma_operation_fields(op, "legacy.evidence.capture"@, "uid"@, uid@, JsonValue::Object(payload));
        assert(declared_version(op) == 1);
        reveal_strlit("source_kind");
        reveal_strlit("source_local_id");
        reveal_strlit("evidence_fingerprint");
        reveal_strlit("canonical_payload");
        reveal_strlit("captured_at");
        assert("source_kind"@.len() == 11 && "captured_at"@.len() == 11 && "source_kind"@[0] != "captured_at"@[0]);
        assert("source_local_id"@.len() == 15 && "evidence_fingerprint"@.len() == 20 && "canonical_payload"@.len() == 17);
        let e = payload@;
        lemma_first_key(e, "source_kind"@, 0);
        lemma_first_key(e, "source_local_id"@, 1);
        lemma_first_key(e, "evidence_fingerprint"@, 2);
        lemma_first_key(e, "canonical_payload"@, 3);
        lemma_first_key(e, "captured_at"@, 4);
        let p = JsonValue::Object(payload);
        assert forall|ids: IdsView| valid_uid(uid@, "leg"@) && (source_kind@ == "trace"@ || source_kind@ == "intervention"@)
            implies #[trigger] operation_outcome(op, ids) == match canonical_timestamp(captured_at@, "captured_at"@) {
                Ok(t) => Ok::<DecodedView, Fault>(DecodedView::Execute {
                    statement: Statement::LegacyEvidenceCapture,
                    params: seq![
                        ParamView::Text(uid@),
                        ParamView::Text(source_kind@),
                        ParamView::Int(source_local_id),
                        ParamView::Text(fingerprint@),
                        ParamView::Text(canonical_payload@),
                        t,
                    ],
                }),
                Err(f) => Err(f),
            } by {
            lemma_op_names();
            let fs = legacy_capture_tail_fields();
            let n = "legacy.evidence.capture"@;
            let head = seq![ParamView::Int(source_local_id), ParamView::Text(fingerprint@), ParamView::Text(canonical_payload@)];
            assert(field_value(op, p, fs[0], 1, n, ids) == Ok::<ParamView, Fault>(head[0]));
            assert(field_value(op, p, fs[1], 1, n, ids) == Ok::<ParamView, Fault>(head[1]));
            assert(field_value(op, p, fs[2], 1, n, ids) == Ok::<ParamView, Fault>(head[2]));
            match canonical_timestamp(captured_at@, "captured_at"@) {
                Ok(t) => {
                    let vals = head.push(t);
                    assert(field_value(op, p, fs[3], 1, n, ids) == Ok::<ParamView, Fault>(vals[3]));
                    lemma_fields_read(op, p, fs, vals, 1, n, ids);
                    assert(seq![ParamView::Text(uid@), ParamView::Text(source_kind@)] + vals =~= seq![
                        ParamView::Text(uid@),
                        ParamView::Text(source_kind@),
                        ParamView::Int(source_local_id),
                        ParamView::Text(fingerprint@),
                        ParamView::Text(canonical_payload@),
                        t,
                    ]);
                },
                Err(f) => {
                    assert(field_value(op, p, fs[3], 1, n, ids) == Err::<ParamView, Fault>(f));
                    assert(fs.take(3) =~= seq![fs[0], fs[1], fs[2]]);
                    lemma_fields_read(op, p, fs.take(3), head, 1, n, ids);
                    lemma_fields_fail(op, p, fs, 3, f, 1, n, ids);
                },
            }
        }
    }
    op
}

/// The operation logged when the legacy backlog row titled `title` (its
/// stored columns `legacy_row`) is given the uid `uid` and the key
/// `proposal_key`, with links to `links`. When the uid is one the replay
/// accepts, replaying it gives the same identity, rebuilds the row from
/// `legacy_row` where it is missing, and makes the same links.
#[verifier::spinoff_prover]
pub fn legacy_reconcile_operation(
    uid: &str,
    title: &str,
    legacy_row: JsonValue,
    proposal_key: &str,
    links: &Vec<ProposalEvidence>,
) -> (op: JsonValue)
    ensures
        valid_uid(uid@, "blg"@) ==> forall|ids: IdsView| #[trigger] operation_outcome(op, ids)
            == Ok::<DecodedView, Fault>(DecodedView::LegacyReconcile {
                uid: uid@,
                title: title@,
                keys: Ok(seq![ParamView::Text(proposal_key@), ParamView::Text("original"@)]),
                row: match fields_value(op, legacy_row, legacy_row_fields(), 1, "backlog.legacy.reconcile"@, ids) {
                    Err(e) => Err(e),
                    Ok(row) => Ok(seq![ParamView::Text(uid@), ParamView::Text(proposal_key@), ParamView::Text("original"@)] + row),
                },
                evidence: links@.map_values(|e: ProposalEvidence| Ok::<Seq<ParamView>, Fault>(evidence_link_text(e))),
            }),
{
    let items = evidence_members(links);
    let ghost row = legacy_row;
    let mut payload: Vec<(String, JsonValue)> = Vec::new();
    payload.push(entry("title", text(title)));
    payload.push(entry("legacy_row", legacy_row));
    payload.push(entry("proposal_key", text(proposal_key)));
    payload.push(entry("occurrence_kind", text("original")));
    payload.push(entry("evidence", JsonValue::Array(items)));
    let op = operation("backlog.legacy.reconcile", 1, "uid", uid, payload);
    proof {
        lemma_operation_fields(op, "backlog.legacy.reconcile"@, "uid"@, uid@, JsonValue::Object(payload));
        assert(declared_version(op) == 1);
        reveal_strlit("title");
        reveal_strlit("legacy_row");
        reveal_strlit("proposal_key");
        reveal_strlit("occurrence_kind");
        reveal_strlit("evidence");
        assert("title"@.len() == 5 && "legacy_row"@.len() == 10 && "proposal_key"@.len() == 12
            && "occurrence_kind"@.len() == 15 && "evidence"@.len() == 8);
        let e = payload@;
        lemma_first_key(e, "title"@, 0);
        lemma_first_key(e, "legacy_row"@, 1);
        lemma_first_key(e, "proposal_key"@, 2);
        lemma_first_key(e, "occurrence_kind"@, 3);
        lemma_first_key(e, "evidence"@, 4);
        let p = JsonValue::Object(payload);
        assert(json_get(p, "legacy_row"@) == Some(row));
        assert(json_array(p, "evidence"@) == Some(items@));
        assert forall|ids: IdsView| valid_uid(uid@, "blg"@) implies #[trigger] operation_outcome(op, ids)
            == Ok::<DecodedView, Fault>(DecodedView::LegacyReconcile {
                uid: uid@,
                title: title@,
                keys: Ok(seq![ParamView::Text(proposal_key@), ParamView::Text("original"@)]),
                row: match fields_value(op, row, legacy_row_fields(), 1, "backlog.legacy.reconcile"@, ids) {
                    Err(e) => Err(e),
                    Ok(r) => Ok(seq![ParamView::Text(uid@), ParamView::Text(proposal_key@), ParamView::Text("original"@)] + r),
                },
                evidence: links@.map_values(|e: ProposalEvidence| Ok::<Seq<ParamView>, Fault>(evidence_link_text(e))),
            }) by {
            lemma_op_names();
            let fs = reconcile_keys_fields();
            let n = "backlog.legacy.reconcile"@;
            let keys = seq![ParamView::Text(proposal_key@), ParamView::Text("original"@)];
            assert(field_value(op, p, fs[0], 1, n, ids) == Ok::<ParamView, Fault>(keys[0]));
            assert(field_value(op, p, fs[1], 1, n, ids) == Ok::<ParamView, Fault>(keys[1]));
            lemma_fields_read(op, p, fs, keys, 1, n, ids);
            match fields_value(op, row, legacy_row_fields(), 1, n, ids) {
                Err(er) => {},
                Ok(r) => {
                    assert(seq![ParamView::Text(uid@)] + keys + r
                        =~= seq![ParamView::Text(uid@), ParamView::Text(proposal_key@), ParamView::Text("original"@)] + r);
                },
            }
        }
    }
    op
}

} // verus!
