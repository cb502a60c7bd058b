//! One changeset operation read into what replaying it does: which statement
//! it runs with which parameters, or which check against the store comes
//! first. Every field is read and checked in the order the replay reads it,
//! so the first refusal an operation meets is the one reported.
use vstd::prelude::*;
use crate::errors::HarnessError;
use crate::json::{JsonValue, get, get_array, get_i64, get_str, json_array, json_get, json_i64, json_str, render_text_pair, json_string_object_text};
use crate::numbers::{decimal, decimal_i64};
use crate::text::{append_str, is_lit, opt_view};
use crate::changeset::{
    ChangesetIds, Fault, Field, FieldKind, FieldView, IdTable, IdsView, Param, ParamView, Source,
    field_param, field_params, field_value, fields_value, fields_view, fault, optional_int, params_view,
    required_i64, required_int, required_string, required_text, required_uid, res_params,
    res_view, uid_text, text_view, int_view,
};
use crate::field_lists::{
    audit_evidence_clear_fields, audit_evidence_clear_table, audit_evidence_open_fields, audit_evidence_open_table, backlog_add_fields, backlog_add_table, backlog_add_uid_fields, backlog_add_uid_table, backlog_close_fields, backlog_close_table, decision_add_fields, decision_add_table, decision_verify_fields, decision_verify_table, evidence_item_fields, evidence_item_table, intake_add_fields, intake_add_table, intake_add_uid_fields, intake_add_uid_table, intervention_add_fields, intervention_add_table, intervention_add_uid_rest_fields, intervention_add_uid_rest_table, legacy_capture_tail_fields, legacy_capture_tail_table, legacy_row_fields, legacy_row_table, outcome_tail_fields, outcome_tail_table, proposal_decision_fields, proposal_decision_table, reconcile_keys_fields, reconcile_keys_table, snapshot_link_fields, snapshot_link_table, story_add_fields, story_add_table, story_complete_fields, story_complete_table, story_dependency_remove_fields, story_dependency_remove_table, story_update_fields, story_update_table, story_verify_fields, story_verify_table, tool_check_fields, tool_check_table, tool_register_fields, tool_register_table, tool_remove_fields, tool_remove_table, trace_add_fields, trace_add_table, trace_add_uid_rest_fields, trace_add_uid_rest_table,
};

verus! {

/// The statements that replaying an operation runs.
#[derive(Debug, Clone, Copy, PartialEq, Eq)]
pub enum Statement {
    IntakeAddUid,
    IntakeAdd,
    StoryAdd,
    StoryUpdate,
    StoryDependencyRemove,
    StoryVerify,
    StoryComplete,
    BacklogComplete,
    LegacyEvidenceCapture,
    BacklogOutcomeObserve,
    DecisionAdd,
    DecisionVerify,
    BacklogAddUid,
    BacklogAdd,
    BacklogClose,
    ToolRegister,
    ToolCheck,
    ToolRemove,
    InterventionAddUid,
    InterventionAdd,
    TraceAddUid,
    TraceAdd,
    AuditEvidenceOpen,
    AuditEvidenceClear,
}

/// The evidence links a proposal decision writes.
#[derive(Debug)]
pub enum EvidenceLinks {
    /// One link per item of the `evidence` array, each read on its own.
    Items(Vec<Result<Vec<Param>, HarnessError>>),
    /// Without an `evidence` array, one legacy snapshot link.
    Snapshot(Result<Vec<Param>, HarnessError>),
}

/// What replaying one operation does.
#[derive(Debug)]
pub enum Decoded {
    /// Run `statement` with `params`.
    Execute { statement: Statement, params: Vec<Param> },
    /// Run the insert `statement` with `params`, then record the new row id
    /// of `table` for `source_id`.
    InsertRemembered { statement: Statement, table: IdTable, source_id: i64, params: Vec<Param> },
    /// Add the dependency `blocker` blocks `blocked`, after the store checks.
    DependencyAdd { blocker: String, blocked: String },
    /// Link a story to a backlog item, after the store checks; `linked_at`
    /// is read only once the link is to be written.
    BacklogLink {
        story_id: String,
        backlog_uid: String,
        relationship: String,
        linked_at: Result<Param, HarnessError>,
        linked_at_unix_ns: Param,
    },
    /// Unlink a story from a backlog item, after the store checks.
    BacklogUnlink { story_id: String, backlog_uid: String },
    /// Give a legacy backlog row its uid and keys: `keys` when one unkeyed
    /// row is found, `row` (uid, keys and the legacy row's fields) when the
    /// row must be rebuilt, then the evidence links.
    LegacyReconcile {
        uid: String,
        title: String,
        keys: Result<Vec<Param>, HarnessError>,
        row: Result<Vec<Param>, HarnessError>,
        evidence: Vec<Result<Vec<Param>, HarnessError>>,
    },
    /// Upsert a proposal occurrence with `params`, then its evidence links.
    ProposalDecision { uid: String, params: Vec<Param>, evidence: EvidenceLinks },
    /// Insert with `uid` after resolving the uid `reference` to a row id of
    /// `table`; the id goes into `rest` at position `split`.
    ResolvedInsert {
        statement: Statement,
        table: IdTable,
        uid: String,
        reference: Option<String>,
        rest: Result<Vec<Param>, HarnessError>,
        split: usize,
    },
}

pub enum EvidenceView {
    Items(Seq<Result<Seq<ParamView>, Fault>>),
    Snapshot(Result<Seq<ParamView>, Fault>),
}

pub enum DecodedView {
    Execute { statement: Statement, params: Seq<ParamView> },
    InsertRemembered { statement: Statement, table: IdTable, source_id: i64, params: Seq<ParamView> },
    DependencyAdd { blocker: Seq<char>, blocked: Seq<char> },
    BacklogLink {
        story_id: Seq<char>,
        backlog_uid: Seq<char>,
        relationship: Seq<char>,
        linked_at: Result<ParamView, Fault>,
        linked_at_unix_ns: ParamView,
    },
    BacklogUnlink { story_id: Seq<char>, backlog_uid: Seq<char> },
    LegacyReconcile {
        uid: Seq<char>,
        title: Seq<char>,
        keys: Result<Seq<ParamView>, Fault>,
        row: Result<Seq<ParamView>, Fault>,
        evidence: Seq<Result<Seq<ParamView>, Fault>>,
    },
    ProposalDecision { uid: Seq<char>, params: Seq<ParamView>, evidence: EvidenceView },
    ResolvedInsert {
        statement: Statement,
        table: IdTable,
        uid: Seq<char>,
        reference: Option<Seq<char>>,
        rest: Result<Seq<ParamView>, Fault>,
        split: nat,
    },
}

pub open spec fn results_view(v: Seq<Result<Vec<Param>, HarnessError>>) -> Seq<Result<Seq<ParamView>, Fault>> {
    v.map_values(|r: Result<Vec<Param>, HarnessError>| res_params(r))
}

impl View for EvidenceLinks {
    type V = EvidenceView;

    open spec fn view(&self) -> EvidenceView {
        match self {
            EvidenceLinks::Items(v) => EvidenceView::Items(results_view(v@)),
            EvidenceLinks::Snapshot(r) => EvidenceView::Snapshot(res_params(*r)),
        }
    }
}

impl View for Decoded {
    type V = DecodedView;

    open spec fn view(&self) -> DecodedView {
        match self {
            Decoded::Execute { statement, params } => DecodedView::Execute { statement: *statement, params: params_view(params@) },
            Decoded::InsertRemembered { statement, table, source_id, params } => DecodedView::InsertRemembered {
                statement: *statement,
                table: *table,
                source_id: *source_id,
                params: params_view(params@),
            },
            Decoded::DependencyAdd { blocker, blocked } => DecodedView::DependencyAdd { blocker: blocker@, blocked: blocked@ },
            Decoded::BacklogLink { story_id, backlog_uid, relationship, linked_at, linked_at_unix_ns } => DecodedView::BacklogLink {
                story_id: story_id@,
                backlog_uid: backlog_uid@,
                relationship: relationship@,
                linked_at: res_view(*linked_at),
                linked_at_unix_ns: linked_at_unix_ns@,
            },
            Decoded::BacklogUnlink { story_id, backlog_uid } => DecodedView::BacklogUnlink { story_id: story_id@, backlog_uid: backlog_uid@ },
            Decoded::LegacyReconcile { uid, title, keys, row, evidence } => DecodedView::LegacyReconcile {
                uid: uid@,
                title: title@,
                keys: res_params(*keys),
                row: res_params(*row),
                evidence: results_view(evidence@),
            },
            Decoded::ProposalDecision { uid, params, evidence } => DecodedView::ProposalDecision {
                uid: uid@,
                params: params_view(params@),
                evidence: evidence@,
            },
            Decoded::ResolvedInsert { statement, table, uid, reference, rest, split } => DecodedView::ResolvedInsert {
                statement: *statement,
                table: *table,
                uid: uid@,
                reference: opt_view(*reference),
                rest: res_params(*rest),
                split: *split as nat,
            },
        }
    }
}

/// The evidence of a passing story verification: the object
/// `{"story_id": story_id, "result": "pass"}` as serde_json renders it.
pub open spec fn pass_evidence_json(story_id: Seq<char>) -> Seq<char> {
    json_string_object_text(seq![("story_id"@, story_id), ("result"@, "pass"@)])
}

/// Renders the evidence of a passing story verification (see
/// `pass_evidence_json`).
fn story_pass_evidence(story_id: &str) -> (r: String)
    ensures
        r@ == pass_evidence_json(story_id@),
{
    render_text_pair("story_id", story_id, "result", "pass")
}

pub open spec fn execute(statement: Statement, r: Result<Seq<ParamView>, Fault>) -> Result<DecodedView, Fault> {
    match r {
        Ok(xs) => Ok(DecodedView::Execute { statement, params: xs }),
        Err(e) => Err(e),
    }
}

pub open spec fn remembered(
    statement: Statement,
    table: IdTable,
    id: Result<i64, Fault>,
    r: Result<Seq<ParamView>, Fault>,
) -> Result<DecodedView, Fault> {
    match id {
        Err(e) => Err(e),
        Ok(k) => match r {
            Ok(xs) => Ok(DecodedView::InsertRemembered { statement, table, source_id: k, params: xs }),
            Err(e) => Err(e),
        },
    }
}

/// An evidence link's parameters in statement order: the date-time is read
/// first but bound last.
pub open spec fn rotate(xs: Seq<ParamView>) -> Seq<ParamView> {
    xs.drop_first().push(xs[0])
}

pub open spec fn evidence_item(item: JsonValue, version: i64, name: Seq<char>, ids: IdsView) -> Result<Seq<ParamView>, Fault> {
    match fields_value(item, item, evidence_item_fields(), version, name, ids) {
        Ok(xs) => Ok(rotate(xs)),
        Err(e) => Err(e),
    }
}

pub open spec fn evidence_items(items: Seq<JsonValue>, version: i64, name: Seq<char>, ids: IdsView) -> Seq<Result<Seq<ParamView>, Fault>> {
    items.map_values(|item: JsonValue| evidence_item(item, version, name, ids))
}

pub open spec fn dependency_add(op: JsonValue, payload: JsonValue) -> Result<DecodedView, Fault> {
    match required_text(op, "id"@) {
        Err(e) => Err(e),
        Ok(a) => match required_text(payload, "blocked"@) {
            Err(e) => Err(e),
            Ok(b) => if a == b {
                Err(Fault::SelfDependency(a))
            } else {
                Ok(DecodedView::DependencyAdd { blocker: a, blocked: b })
            },
        },
    }
}

pub open spec fn linked_at_field() -> FieldView {
    FieldView { source: Source::Payload, name: "linked_at"@, kind: FieldKind::TimestampSince2, prefix: ""@ }
}

pub open spec fn completed_at_field() -> FieldView {
    FieldView { source: Source::Payload, name: "completed_at"@, kind: FieldKind::VersionedTimestamp, prefix: ""@ }
}

pub open spec fn backlog_link(op: JsonValue, payload: JsonValue, version: i64, name: Seq<char>, ids: IdsView) -> Result<DecodedView, Fault> {
    match required_text(op, "id"@) {
        Err(e) => Err(e),
        Ok(story_id) => match uid_text(payload, "backlog_uid"@, "blg"@) {
            Err(e) => Err(e),
            Ok(backlog_uid) => match required_text(payload, "relationship"@) {
                Err(e) => Err(e),
                Ok(relationship) => Ok(DecodedView::BacklogLink {
                    story_id,
                    backlog_uid,
                    relationship,
                    linked_at: field_value(op, payload, linked_at_field(), version, name, ids),
                    linked_at_unix_ns: optional_int(json_i64(payload, "linked_at_unix_ns"@)),
                }),
            },
        },
    }
}

pub open spec fn backlog_unlink(op: JsonValue, payload: JsonValue) -> Result<DecodedView, Fault> {
    match required_text(op, "id"@) {
        Err(e) => Err(e),
        Ok(story_id) => match uid_text(payload, "backlog_uid"@, "blg"@) {
            Err(e) => Err(e),
            Ok(backlog_uid) => Ok(DecodedView::BacklogUnlink { story_id, backlog_uid }),
        },
    }
}

pub open spec fn backlog_complete(op: JsonValue, payload: JsonValue, version: i64, name: Seq<char>, ids: IdsView) -> Result<DecodedView, Fault> {
    match uid_text(op, "uid"@, "blg"@) {
        Err(e) => Err(e),
        Ok(uid) => match required_text(payload, "story_id"@) {
            Err(e) => Err(e),
            Ok(story_id) => match field_value(op, payload, completed_at_field(), version, name, ids) {
                Err(e) => Err(e),
                Ok(completed_at) => {
                    let evidence = match json_str(payload, "resolution_evidence"@) {
                        Some(text) => text,
                        None => pass_evidence_json(story_id),
                    };
                    Ok(DecodedView::Execute {
                        statement: Statement::BacklogComplete,
                        params: seq![
                            completed_at,
                            ParamView::Text(evidence),
                            optional_int(json_i64(payload, "trace_baseline"@)),
                            ParamView::Text(uid),
                        ],
                    })
                },
            },
        },
    }
}

pub open spec fn legacy_capture(op: JsonValue, payload: JsonValue, version: i64, name: Seq<char>, ids: IdsView) -> Result<DecodedView, Fault> {
    match uid_text(op, "uid"@, "leg"@) {
        Err(e) => Err(e),
        Ok(uid) => match required_text(payload, "source_kind"@) {
            Err(e) => Err(e),
            Ok(kind) => if !(kind == "trace"@ || kind == "intervention"@) {
                Err(Fault::Invalid("legacy evidence source_kind must be trace or intervention"@))
            } else {
                match fields_value(op, payload, legacy_capture_tail_fields(), version, name, ids) {
                    Err(e) => Err(e),
                    Ok(tail) => Ok(DecodedView::Execute {
                        statement: Statement::LegacyEvidenceCapture,
                        params: seq![ParamView::Text(uid), ParamView::Text(kind)] + tail,
                    }),
                }
            },
        },
    }
}

pub open spec fn is_observation_status(status: Seq<char>) -> bool {
    status == "confirmed"@ || status == "ineffective"@ || status == "reverted"@ || status == "legacy_recorded"@
}

pub open spec fn outcome_observe(op: JsonValue, payload: JsonValue, version: i64, name: Seq<char>, ids: IdsView) -> Result<DecodedView, Fault> {
    match uid_text(op, "uid"@, "obs"@) {
        Err(e) => Err(e),
        Ok(uid) => match uid_text(payload, "backlog_uid"@, "blg"@) {
            Err(e) => Err(e),
            Ok(backlog_uid) => match required_text(payload, "status"@) {
                Err(e) => Err(e),
                Ok(status) => if !is_observation_status(status) {
                    Err(Fault::Invalid("invalid backlog outcome observation status"@))
                } else {
                    match fields_value(op, payload, outcome_tail_fields(), version, name, ids) {
                        Err(e) => Err(e),
                        Ok(tail) => Ok(DecodedView::Execute {
                            statement: Statement::BacklogOutcomeObserve,
                            params: seq![
                                ParamView::Text(uid),
                                ParamView::Text(backlog_uid),
                                tail[0],
                                ParamView::Text(status),
                                tail[1],
                                tail[2],
                                tail[3],
                            ],
                        }),
                    }
                },
            },
        },
    }
}

pub open spec fn missing_legacy_row() -> Seq<char> {
    "legacy reconciliation cannot reconstruct a missing row without legacy_row"@
}

pub open spec fn rebuilt_row(uid: Seq<char>, op: JsonValue, payload: JsonValue, version: i64, name: Seq<char>, ids: IdsView) -> Result<Seq<ParamView>, Fault> {
    match json_get(payload, "legacy_row"@) {
        None => Err(Fault::Invalid(missing_legacy_row())),
        Some(legacy) => match fields_value(op, payload, reconcile_keys_fields(), version, name, ids) {
            Err(e) => Err(e),
            Ok(keys) => match fields_value(op, legacy, legacy_row_fields(), version, name, ids) {
                Err(e) => Err(e),
                Ok(row) => Ok(seq![ParamView::Text(uid)] + keys + row),
            },
        },
    }
}

pub open spec fn legacy_reconcile(op: JsonValue, payload: JsonValue, version: i64, name: Seq<char>, ids: IdsView) -> Result<DecodedView, Fault> {
    match uid_text(op, "uid"@, "blg"@) {
        Err(e) => Err(e),
        Ok(uid) => match required_text(payload, "title"@) {
            Err(e) => Err(e),
            Ok(title) => Ok(DecodedView::LegacyReconcile {
                uid,
                title,
                keys: fields_value(op, payload, reconcile_keys_fields(), version, name, ids),
                row: rebuilt_row(uid, op, payload, version, name, ids),
                evidence: match json_array(payload, "evidence"@) {
                    Some(items) => evidence_items(items, version, name, ids),
                    None => Seq::empty(),
                },
            }),
        },
    }
}

/// The parameters of a proposal decision in statement order: uid, the
/// proposal's fields, then the two date-times read right after the uid, then
/// the schedule and the rejection reason.
pub open spec fn decision_params(xs: Seq<ParamView>) -> Seq<ParamView> {
    seq![xs[0]] + xs.subrange(3, 14) + xs.subrange(1, 3) + xs.subrange(14, 18)
}

pub open spec fn proposal_decision(op: JsonValue, payload: JsonValue, version: i64, name: Seq<char>, ids: IdsView) -> Result<DecodedView, Fault> {
    match uid_text(op, "uid"@, "blg"@) {
        Err(e) => Err(e),
        Ok(uid) => match fields_value(op, payload, proposal_decision_fields(), version, name, ids) {
            Err(e) => Err(e),
            Ok(xs) => Ok(DecodedView::ProposalDecision {
                uid,
                params: decision_params(xs),
                evidence: match json_array(payload, "evidence"@) {
                    Some(items) => EvidenceView::Items(evidence_items(items, version, name, ids)),
                    None => EvidenceView::Snapshot(fields_value(op, payload, snapshot_link_fields(), version, name, ids)),
                },
            }),
        },
    }
}

pub open spec fn resolved_insert(
    statement: Statement,
    table: IdTable,
    prefix: Seq<char>,
    reference: Seq<char>,
    rest: Seq<FieldView>,
    split: nat,
    op: JsonValue,
    payload: JsonValue,
    version: i64,
    name: Seq<char>,
    ids: IdsView,
) -> Result<DecodedView, Fault> {
    match uid_text(op, "uid"@, prefix) {
        Err(e) => Err(e),
        Ok(uid) => Ok(DecodedView::ResolvedInsert {
            statement,
            table,
            uid,
            reference: json_str(payload, reference),
            rest: fields_value(op, payload, rest, version, name, ids),
            split,
        }),
    }
}

/// What the operation `name` (version `version`) does, by the first arm of
/// the replay that takes it.
pub open spec fn arm_outcome(name: Seq<char>, version: i64, op: JsonValue, payload: JsonValue, ids: IdsView) -> Result<DecodedView, Fault> {
    let fv = |fs: Seq<FieldView>| fields_value(op, payload, fs, version, name, ids);
    if name == "intake.add"@ && version == 2 {
        execute(Statement::IntakeAddUid, fv(intake_add_uid_fields()))
    } else if name == "intake.add"@ {
        remembered(Statement::IntakeAdd, IdTable::Intake, required_int(op, "id"@), fv(intake_add_fields()))
    } else if name == "story.add"@ {
        execute(Statement::StoryAdd, fv(story_add_fields()))
    } else if name == "story.update"@ {
        execute(Statement::StoryUpdate, fv(story_update_fields()))
    } else if name == "story.dependency.add"@ {
        dependency_add(op, payload)
    } else if name == "story.dependency.remove"@ {
        execute(Statement::StoryDependencyRemove, fv(story_dependency_remove_fields()))
    } else if name == "story.backlog.link"@ {
        backlog_link(op, payload, version, name, ids)
    } else if name == "story.backlog.unlink"@ {
        backlog_unlink(op, payload)
    } else if name == "story.verify"@ {
        execute(Statement::StoryVerify, fv(story_verify_fields()))
    } else if name == "story.complete"@ {
        execute(Statement::StoryComplete, fv(story_complete_fields()))
    } else if name == "backlog.complete"@ {
        backlog_complete(op, payload, version, name, ids)
    } else if name == "legacy.evidence.capture"@ {
        legacy_capture(op, payload, version, name, ids)
    } else if name == "backlog.legacy.reconcile"@ {
        legacy_reconcile(op, payload, version, name, ids)
    } else if name == "backlog.outcome.observe"@ {
        outcome_observe(op, payload, version, name, ids)
    } else if name == "decision.add"@ {
        execute(Statement::DecisionAdd, fv(decision_add_fields()))
    } else if name == "decision.verify"@ {
        execute(Statement::DecisionVerify, fv(decision_verify_fields()))
    } else if name == "backlog.proposal.decision"@ {
        proposal_decision(op, payload, version, name, ids)
    } else if name == "backlog.add"@ && version == 2 {
        execute(Statement::BacklogAddUid, fv(backlog_add_uid_fields()))
    } else if name == "backlog.add"@ {
        remembered(Statement::BacklogAdd, IdTable::Backlog, required_int(op, "id"@), fv(backlog_add_fields()))
    } else if name == "backlog.close"@ {
        execute(Statement::BacklogClose, fv(backlog_close_fields()))
    } else if name == "tool.register"@ {
        execute(Statement::ToolRegister, fv(tool_register_fields()))
    } else if name == "tool.check"@ {
        execute(Statement::ToolCheck, fv(tool_check_fields()))
    } else if name == "tool.remove"@ {
        execute(Statement::ToolRemove, fv(tool_remove_fields()))
    } else if name == "intervention.add"@ && version == 2 {
        resolved_insert(Statement::InterventionAddUid, IdTable::Trace, "int"@, "trace_uid"@,
            intervention_add_uid_rest_fields(), 1, op, payload, version, name, ids)
    } else if name == "intervention.add"@ {
        execute(Statement::InterventionAdd, fv(intervention_add_fields()))
    } else if name == "trace.add"@ && version == 2 {
        resolved_insert(Statement::TraceAddUid, IdTable::Intake, "trc"@, "intake_uid"@,
            trace_add_uid_rest_fields(), 4, op, payload, version, name, ids)
    } else if name == "audit.evidence.open"@ {
        execute(Statement::AuditEvidenceOpen, fv(audit_evidence_open_fields()))
    } else if name == "audit.evidence.clear"@ {
        execute(Statement::AuditEvidenceClear, fv(audit_evidence_clear_fields()))
    } else if name == "trace.add"@ {
        remembered(Statement::TraceAdd, IdTable::Trace, required_int(op, "id"@), fv(trace_add_fields()))
    } else {
        Err(Fault::UnsupportedOp(name))
    }
}

/// The version an operation declares, 1 when it declares none.
pub open spec fn declared_version(op: JsonValue) -> i64 {
    match json_i64(op, "version"@) {
        Some(v) => v,
        None => 1,
    }
}

/// The payload of an operation, `null` when it has none.
pub open spec fn payload_of(op: JsonValue) -> JsonValue {
    match json_get(op, "payload"@) {
        Some(p) => p,
        None => JsonValue::Null,
    }
}

/// What replaying the changeset operation `op` does, given the ids recorded
/// so far, or the refusal it meets before it touches the store.
pub open spec fn operation_outcome(op: JsonValue, ids: IdsView) -> Result<DecodedView, Fault> {
    match required_text(op, "op"@) {
        Err(e) => Err(e),
        Ok(name) => {
            let version = declared_version(op);
            if !(1 <= version && version <= 2) {
                Err(Fault::Invalid("unsupported version "@ + decimal(version as int) + " for operation "@ + name))
            } else {
                arm_outcome(name, version, op, payload_of(op), ids)
            }
        },
    }
}

fn copy_param(p: &Param) -> (q: Param)
    ensures
        q@ == p@,
{
    match p {
        Param::Null => Param::Null,
        Param::Now => Param::Now,
        Param::Text(s) => Param::Text(s.clone()),
        Param::Int(n) => Param::Int(*n),
    }
}

/// `xs[from..to]` copied onto the end of `out`.
fn extend_params(out: &mut Vec<Param>, xs: &Vec<Param>, from: usize, to: usize)
    requires
        from <= to <= xs@.len(),
    ensures
        params_view(final(out)@) == params_view(old(out)@) + params_view(xs@).subrange(from as int, to as int),
{
    let ghost start = params_view(out@);
    let mut i = from;
    while i < to
        invariant
            from <= i <= to <= xs@.len(),
            params_view(out@) == start + params_view(xs@).subrange(from as int, i as int),
        decreases to - i,
    {
        let ghost before = out@;
        out.push(copy_param(&xs[i]));
        assert(out@.drop_last() == before);
        assert(params_view(out@) =~= params_view(before).push(xs@[i as int]@));
        assert(params_view(xs@).subrange(from as int, i + 1) =~= params_view(xs@).subrange(from as int, i as int).push(xs@[i as int]@));
        i = i + 1;
    }
}

fn rotate_params(xs: Vec<Param>) -> (r: Vec<Param>)
    requires
        xs@.len() >= 1,
    ensures
        params_view(r@) == rotate(params_view(xs@)),
{
    let mut out: Vec<Param> = Vec::new();
    extend_params(&mut out, &xs, 1, xs.len());
    out.push(copy_param(&xs[0]));
    assert(params_view(out@) =~= rotate(params_view(xs@)));
    out
}

fn decode_evidence_item(item: &JsonValue, version: i64, name: &str, ids: &ChangesetIds) -> (r: Result<Vec<Param>, HarnessError>)
    ensures
        res_params(r) == evidence_item(*item, version, name@, ids@),
{
    let table = evidence_item_table();
    match field_params(item, item, table.as_slice(), version, name, ids) {
        Ok(xs) => Ok(rotate_params(xs)),
        Err(e) => Err(e),
    }
}

fn decode_evidence_items(items: &Vec<JsonValue>, version: i64, name: &str, ids: &ChangesetIds) -> (r: Vec<Result<Vec<Param>, HarnessError>>)
    ensures
        results_view(r@) == evidence_items(items@, version, name@, ids@),
{
    let mut out: Vec<Result<Vec<Param>, HarnessError>> = Vec::new();
    let mut i: usize = 0;
    while i < items.len()
        invariant
            i <= items@.len(),
            results_view(out@) == evidence_items(items@.take(i as int), version, name@, ids@),
        decreases items@.len() - i,
    {
        let ghost before = out@;
        let r = decode_evidence_item(&items[i], version, name, ids);
        out.push(r);
        assert(out@.drop_last() == before);
        assert(items@.take(i + 1) =~= items@.take(i as int).push(items@[i as int]));
        assert(results_view(out@) =~= results_view(before).push(res_params(r)));
        assert(results_view(out@) =~= evidence_items(items@.take(i + 1), version, name@, ids@));
        i = i + 1;
    }
    assert(items@.take(i as int) == items@);
    out
}

fn execute_with(statement: Statement, r: Result<Vec<Param>, HarnessError>) -> (d: Result<Decoded, HarnessError>)
    ensures
        res_view(d) == execute(statement, res_params(r)),
{
    match r {
        Ok(params) => Ok(Decoded::Execute { statement, params }),
        Err(e) => Err(e),
    }
}

fn remembered_with(
    statement: Statement,
    table: IdTable,
    op: &JsonValue,
    payload: &JsonValue,
    fields: Vec<Field>,
    version: i64,
    name: &str,
    ids: &ChangesetIds,
) -> (d: Result<Decoded, HarnessError>)
    ensures
        res_view(d) == remembered(statement, table, required_int(*op, "id"@),
            fields_value(*op, *payload, fields_view(fields@), version, name@, ids@)),
{
    let source_id = match required_i64(op, "id") {
        Ok(k) => k,
        Err(e) => { return Err(e); },
    };
    match field_params(op, payload, fields.as_slice(), version, name, ids) {
        Ok(params) => Ok(Decoded::InsertRemembered { statement, table, source_id, params }),
        Err(e) => Err(e),
    }
}

fn decode_dependency_add(op: &JsonValue, payload: &JsonValue) -> (d: Result<Decoded, HarnessError>)
    ensures
        res_view(d) == dependency_add(*op, *payload),
{
    let blocker = match required_string(op, "id") {
        Ok(s) => s,
        Err(e) => { return Err(e); },
    };
    let blocked = match required_string(payload, "blocked") {
        Ok(s) => s,
        Err(e) => { return Err(e); },
    };
    if is_lit(blocker.as_str(), blocked.as_str()) {
        return Err(HarnessError::StoryDependencySelf(blocker));
    }
    Ok(Decoded::DependencyAdd { blocker, blocked })
}

fn decode_backlog_link(op: &JsonValue, payload: &JsonValue, version: i64, name: &str, ids: &ChangesetIds) -> (d: Result<Decoded, HarnessError>)
    ensures
        res_view(d) == backlog_link(*op, *payload, version, name@, ids@),
{
    let story_id = match required_string(op, "id") {
        Ok(s) => s,
        Err(e) => { return Err(e); },
    };
    let backlog_uid = match required_uid(payload, "backlog_uid", "blg") {
        Ok(s) => s,
        Err(e) => { return Err(e); },
    };
    let relationship = match required_string(payload, "relationship") {
        Ok(s) => s,
        Err(e) => { return Err(e); },
    };
    let field = Field { source: Source::Payload, name: "linked_at", kind: FieldKind::TimestampSince2, prefix: "" };
    let linked_at = field_param(op, payload, &field, version, name, ids);
    let linked_at_unix_ns = match get_i64(payload, "linked_at_unix_ns") {
        Some(k) => Param::Int(k),
        None => Param::Null,
    };
    Ok(Decoded::BacklogLink { story_id, backlog_uid, relationship, linked_at, linked_at_unix_ns })
}

fn decode_backlog_unlink(op: &JsonValue, payload: &JsonValue) -> (d: Result<Decoded, HarnessError>)
    ensures
        res_view(d) == backlog_unlink(*op, *payload),
{
    let story_id = match required_string(op, "id") {
        Ok(s) => s,
        Err(e) => { return Err(e); },
    };
    let backlog_uid = match required_uid(payload, "backlog_uid", "blg") {
        Ok(s) => s,
        Err(e) => { return Err(e); },
    };
    Ok(Decoded::BacklogUnlink { story_id, backlog_uid })
}

fn decode_backlog_complete(op: &JsonValue, payload: &JsonValue, version: i64, name: &str, ids: &ChangesetIds) -> (d: Result<Decoded, HarnessError>)
    ensures
        res_view(d) == backlog_complete(*op, *payload, version, name@, ids@),
{
    let uid = match required_uid(op, "uid", "blg") {
        Ok(s) => s,
        Err(e) => { return Err(e); },
    };
    let story_id = match required_string(payload, "story_id") {
        Ok(s) => s,
        Err(e) => { return Err(e); },
    };
    let baseline = match get_i64(payload, "trace_baseline") {
        Some(k) => Param::Int(k),
        None => Param::Null,
    };
    let evidence = match get_str(payload, "resolution_evidence") {
        Some(text) => text,
        None => story_pass_evidence(story_id.as_str()),
    };
    let field = Field { source: Source::Payload, name: "completed_at", kind: FieldKind::VersionedTimestamp, prefix: "" };
    let completed_at = match field_param(op, payload, &field, version, name, ids) {
        Ok(p) => p,
        Err(e) => { return Err(e); },
    };
    let params = vec![completed_at, Param::Text(evidence), baseline, Param::Text(uid)];
    let ghost expected = backlog_complete(*op, *payload, version, name@, ids@);
    assert(params_view(params@) =~= expected->Ok_0->Execute_params);
    Ok(Decoded::Execute { statement: Statement::BacklogComplete, params })
}

fn decode_legacy_capture(op: &JsonValue, payload: &JsonValue, version: i64, name: &str, ids: &ChangesetIds) -> (d: Result<Decoded, HarnessError>)
    ensures
        res_view(d) == legacy_capture(*op, *payload, version, name@, ids@),
{
    let uid = match required_uid(op, "uid", "leg") {
        Ok(s) => s,
        Err(e) => { return Err(e); },
    };
    let kind = match required_string(payload, "source_kind") {
        Ok(s) => s,
        Err(e) => { return Err(e); },
    };
    if !(is_lit(kind.as_str(), "trace") || is_lit(kind.as_str(), "intervention")) {
        return Err(HarnessError::InvalidChangeset("legacy evidence source_kind must be trace or intervention".to_owned()));
    }
    let table = legacy_capture_tail_table();
    let tail = match field_params(op, payload, table.as_slice(), version, name, ids) {
        Ok(t) => t,
        Err(e) => { return Err(e); },
    };
    let ghost u = uid@;
    let ghost k = kind@;
    let mut params = vec![Param::Text(uid), Param::Text(kind)];
    assert(params_view(params@) =~= seq![ParamView::Text(u), ParamView::Text(k)]);
    extend_params(&mut params, &tail, 0, tail.len());
    assert(params_view(tail@).subrange(0, tail@.len() as int) =~= params_view(tail@));
    Ok(Decoded::Execute { statement: Statement::LegacyEvidenceCapture, params })
}

fn decode_outcome_observe(op: &JsonValue, payload: &JsonValue, version: i64, name: &str, ids: &ChangesetIds) -> (d: Result<Decoded, HarnessError>)
    ensures
        res_view(d) == outcome_observe(*op, *payload, version, name@, ids@),
{
    let uid = match required_uid(op, "uid", "obs") {
        Ok(s) => s,
        Err(e) => { return Err(e); },
    };
    let backlog_uid = match required_uid(payload, "backlog_uid", "blg") {
        Ok(s) => s,
        Err(e) => { return Err(e); },
    };
    let status = match required_string(payload, "status") {
        Ok(s) => s,
        Err(e) => { return Err(e); },
    };
    let known = is_lit(status.as_str(), "confirmed") || is_lit(status.as_str(), "ineffective")
        || is_lit(status.as_str(), "reverted") || is_lit(status.as_str(), "legacy_recorded");
    if !known {
        return Err(HarnessError::InvalidChangeset("invalid backlog outcome observation status".to_owned()));
    }
    let table = outcome_tail_table();
    let tail = match field_params(op, payload, table.as_slice(), version, name, ids) {
        Ok(t) => t,
        Err(e) => { return Err(e); },
    };
    let mut params = vec![Param::Text(uid), Param::Text(backlog_uid)];
    params.push(copy_param(&tail[0]));
    params.push(Param::Text(status));
    extend_params(&mut params, &tail, 1, 4);
    let ghost expected = outcome_observe(*op, *payload, version, name@, ids@);
    assert(params_view(params@) =~= expected->Ok_0->Execute_params);
    Ok(Decoded::Execute { statement: Statement::BacklogOutcomeObserve, params })
}

fn decode_legacy_reconcile(op: &JsonValue, payload: &JsonValue, version: i64, name: &str, ids: &ChangesetIds) -> (d: Result<Decoded, HarnessError>)
    ensures
        res_view(d) == legacy_reconcile(*op, *payload, version, name@, ids@),
{
    let uid = match required_uid(op, "uid", "blg") {
        Ok(s) => s,
        Err(e) => { return Err(e); },
    };
    let title = match required_string(payload, "title") {
        Ok(s) => s,
        Err(e) => { return Err(e); },
    };
    let keys_table = reconcile_keys_table();
    let keys = field_params(op, payload, keys_table.as_slice(), version, name, ids);
    let row: Result<Vec<Param>, HarnessError> = match get(payload, "legacy_row") {
        None => Err(HarnessError::InvalidChangeset(
            "legacy reconciliation cannot reconstruct a missing row without legacy_row".to_owned(),
        )),
        Some(legacy) => match field_params(op, payload, keys_table.as_slice(), version, name, ids) {
            Err(e) => Err(e),
            Ok(key_params) => {
                let row_table = legacy_row_table();
                match field_params(op, legacy, row_table.as_slice(), version, name, ids) {
                    Err(e) => Err(e),
                    Ok(fields) => {
                        let u = uid.clone();
                        assert(u@ == uid@);
                        let mut all = vec![Param::Text(u)];
                        assert(params_view(all@) =~= seq![ParamView::Text(uid@)]);
                        extend_params(&mut all, &key_params, 0, key_params.len());
                        extend_params(&mut all, &fields, 0, fields.len());
                        assert(params_view(key_params@).subrange(0, key_params@.len() as int) =~= params_view(key_params@));
                        assert(params_view(fields@).subrange(0, fields@.len() as int) =~= params_view(fields@));
                        Ok(all)
                    },
                }
            },
        },
    };
    let evidence = match get_array(payload, "evidence") {
        Some(items) => decode_evidence_items(items, version, name, ids),
        None => {
            let v: Vec<Result<Vec<Param>, HarnessError>> = Vec::new();
            assert(results_view(v@) =~= Seq::<Result<Seq<ParamView>, Fault>>::empty());
            v
        },
    };
    Ok(Decoded::LegacyReconcile { uid, title, keys, row, evidence })
}

fn decode_proposal_decision(op: &JsonValue, payload: &JsonValue, version: i64, name: &str, ids: &ChangesetIds) -> (d: Result<Decoded, HarnessError>)
    ensures
        res_view(d) == proposal_decision(*op, *payload, version, name@, ids@),
{
    let uid = match required_uid(op, "uid", "blg") {
        Ok(s) => s,
        Err(e) => { return Err(e); },
    };
    let table = proposal_decision_table();
    let xs = match field_params(op, payload, table.as_slice(), version, name, ids) {
        Ok(xs) => xs,
        Err(e) => { return Err(e); },
    };
    assert(xs@.len() == 18);
    let mut params = vec![copy_param(&xs[0])];
    extend_params(&mut params, &xs, 3, 14);
    extend_params(&mut params, &xs, 1, 3);
    extend_params(&mut params, &xs, 14, 18);
    assert(params_view(params@) =~= decision_params(params_view(xs@)));
    let evidence = match get_array(payload, "evidence") {
        Some(items) => EvidenceLinks::Items(decode_evidence_items(items, version, name, ids)),
        None => {
            let snapshot = snapshot_link_table();
            EvidenceLinks::Snapshot(field_params(op, payload, snapshot.as_slice(), version, name, ids))
        },
    };
    Ok(Decoded::ProposalDecision { uid, params, evidence })
}

fn decode_resolved_insert(
    statement: Statement,
    table: IdTable,
    prefix: &str,
    reference: &str,
    rest: Vec<Field>,
    split: usize,
    op: &JsonValue,
    payload: &JsonValue,
    version: i64,
    name: &str,
    ids: &ChangesetIds,
) -> (d: Result<Decoded, HarnessError>)
    ensures
        res_view(d) == resolved_insert(statement, table, prefix@, reference@, fields_view(rest@), split as nat,
            *op, *payload, version, name@, ids@),
{
    let uid = match required_uid(op, "uid", prefix) {
        Ok(s) => s,
        Err(e) => { return Err(e); },
    };
    let reference_uid = get_str(payload, reference);
    let rest_params = field_params(op, payload, rest.as_slice(), version, name, ids);
    Ok(Decoded::ResolvedInsert { statement, table, uid, reference: reference_uid, rest: rest_params, split })
}

fn decode_arm(name: &str, version: i64, op: &JsonValue, payload: &JsonValue, ids: &ChangesetIds) -> (d: Result<Decoded, HarnessError>)
    ensures
        res_view(d) == arm_outcome(name@, version, *op, *payload, ids@),
{
    if is_lit(name, "intake.add") && version == 2 {
        execute_with(Statement::IntakeAddUid, field_params(op, payload, intake_add_uid_table().as_slice(), version, name, ids))
    } else if is_lit(name, "intake.add") {
        remembered_with(Statement::IntakeAdd, IdTable::Intake, op, payload, intake_add_table(), version, name, ids)
    } else if is_lit(name, "story.add") {
        execute_with(Statement::StoryAdd, field_params(op, payload, story_add_table().as_slice(), version, name, ids))
    } else if is_lit(name, "story.update") {
        execute_with(Statement::StoryUpdate, field_params(op, payload, story_update_table().as_slice(), version, name, ids))
    } else if is_lit(name, "story.dependency.add") {
        decode_dependency_add(op, payload)
    } else if is_lit(name, "story.dependency.remove") {
        execute_with(Statement::StoryDependencyRemove, field_params(op, payload, story_dependency_remove_table().as_slice(), version, name, ids))
    } else if is_lit(name, "story.backlog.link") {
        decode_backlog_link(op, payload, version, name, ids)
    } else if is_lit(name, "story.backlog.unlink") {
        decode_backlog_unlink(op, payload)
    } else if is_lit(name, "story.verify") {
        execute_with(Statement::StoryVerify, field_params(op, payload, story_verify_table().as_slice(), version, name, ids))
    } else if is_lit(name, "story.complete") {
        execute_with(Statement::StoryComplete, field_params(op, payload, story_complete_table().as_slice(), version, name, ids))
    } else if is_lit(name, "backlog.complete") {
        decode_backlog_complete(op, payload, version, name, ids)
    } else if is_lit(name, "legacy.evidence.capture") {
        decode_legacy_capture(op, payload, version, name, ids)
    } else if is_lit(name, "backlog.legacy.reconcile") {
        decode_legacy_reconcile(op, payload, version, name, ids)
    } else if is_lit(name, "backlog.outcome.observe") {
        decode_outcome_observe(op, payload, version, name, ids)
    } else if is_lit(name, "decision.add") {
        execute_with(Statement::DecisionAdd, field_params(op, payload, decision_add_table().as_slice(), version, name, ids))
    } else if is_lit(name, "decision.verify") {
        execute_with(Statement::DecisionVerify, field_params(op, payload, decision_verify_table().as_slice(), version, name, ids))
    } else if is_lit(name, "backlog.proposal.decision") {
        decode_proposal_decision(op, payload, version, name, ids)
    } else if is_lit(name, "backlog.add") && version == 2 {
        execute_with(Statement::BacklogAddUid, field_params(op, payload, backlog_add_uid_table().as_slice(), version, name, ids))
    } else if is_lit(name, "backlog.add") {
        remembered_with(Statement::BacklogAdd, IdTable::Backlog, op, payload, backlog_add_table(), version, name, ids)
    } else if is_lit(name, "backlog.close") {
        execute_with(Statement::BacklogClose, field_params(op, payload, backlog_close_table().as_slice(), version, name, ids))
    } else if is_lit(name, "tool.register") {
        execute_with(Statement::ToolRegister, field_params(op, payload, tool_register_table().as_slice(), version, name, ids))
    } else if is_lit(name, "tool.check") {
        execute_with(Statement::ToolCheck, field_params(op, payload, tool_check_table().as_slice(), version, name, ids))
    } else if is_lit(name, "tool.remove") {
        execute_with(Statement::ToolRemove, field_params(op, payload, tool_remove_table().as_slice(), version, name, ids))
    } else if is_lit(name, "intervention.add") && version == 2 {
        decode_resolved_insert(Statement::InterventionAddUid, IdTable::Trace, "int", "trace_uid",
            intervention_add_uid_rest_table(), 1, op, payload, version, name, ids)
    } else if is_lit(name, "intervention.add") {
        execute_with(Statement::InterventionAdd, field_params(op, payload, intervention_add_table().as_slice(), version, name, ids))
    } else if is_lit(name, "trace.add") && version == 2 {
        decode_resolved_insert(Statement::TraceAddUid, IdTable::Intake, "trc", "intake_uid",
            trace_add_uid_rest_table(), 4, op, payload, version, name, ids)
    } else if is_lit(name, "audit.evidence.open") {
        execute_with(Statement::AuditEvidenceOpen, field_params(op, payload, audit_evidence_open_table().as_slice(), version, name, ids))
    } else if is_lit(name, "audit.evidence.clear") {
        execute_with(Statement::AuditEvidenceClear, field_params(op, payload, audit_evidence_clear_table().as_slice(), version, name, ids))
    } else if is_lit(name, "trace.add") {
        remembered_with(Statement::TraceAdd, IdTable::Trace, op, payload, trace_add_table(), version, name, ids)
    } else {
        Err(HarnessError::UnsupportedChangesetOp(name.to_owned()))
    }
}

/// Reads the changeset operation `operation` into what replaying it does,
/// given the ids recorded so far; the refusal it meets before it touches
/// the store otherwise.
pub fn decode_operation(operation: &JsonValue, ids: &ChangesetIds) -> (r: Result<Decoded, HarnessError>)
    ensures
        res_view(r) == operation_outcome(*operation, ids@),
{
    let name = match required_string(operation, "op") {
        Ok(s) => s,
        Err(e) => { return Err(e); },
    };
    let version: i64 = match get_i64(operation, "version") {
        Some(v) => v,
        None => 1,
    };
    if !(1 <= version && version <= 2) {
        let m = append_str(append_str(append_str("unsupported version ".to_owned(), decimal_i64(version).as_str()), " for operation "), name.as_str());
        return Err(HarnessError::InvalidChangeset(m));
    }
    let null = JsonValue::Null;
    let payload = match get(operation, "payload") {
        Some(p) => p,
        None => &null,
    };
    decode_arm(name.as_str(), version, operation, payload, ids)
}

} // verus!
