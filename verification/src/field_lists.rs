//! The field lists of the changeset operations: which fields each one
//! reads, from where, how they are checked, and in which order.
use vstd::prelude::*;
use crate::changeset::{Field, FieldKind, FieldView, IdTable, Source, fields_view};

verus! {

/// The fields of `intake.add` version 2, in statement order.
pub open spec fn intake_add_uid_fields() -> Seq<FieldView> {
    seq![
        FieldView { source: Source::Operation, name: "uid"@, kind: FieldKind::Uid, prefix: "ink"@ },
        FieldView { source: Source::Payload, name: "created_at"@, kind: FieldKind::Timestamp, prefix: ""@ },
        FieldView { source: Source::Payload, name: "input_type"@, kind: FieldKind::Text, prefix: ""@ },
        FieldView { source: Source::Payload, name: "summary"@, kind: FieldKind::Text, prefix: ""@ },
        FieldView { source: Source::Payload, name: "risk_lane"@, kind: FieldKind::Text, prefix: ""@ },
        FieldView { source: Source::Payload, name: "risk_flags"@, kind: FieldKind::OptionalText, prefix: ""@ },
        FieldView { source: Source::Payload, name: "affected_docs"@, kind: FieldKind::OptionalText, prefix: ""@ },
        FieldView { source: Source::Payload, name: "story_id"@, kind: FieldKind::OptionalText, prefix: ""@ },
        FieldView { source: Source::Payload, name: "notes"@, kind: FieldKind::OptionalText, prefix: ""@ },
    ]
}

pub fn intake_add_uid_table() -> (t: Vec<Field>)
    ensures
        fields_view(t@) == intake_add_uid_fields(),
{
    let t = vec![
        Field { source: Source::Operation, name: "uid", kind: FieldKind::Uid, prefix: "ink" },
        Field { source: Source::Payload, name: "created_at", kind: FieldKind::Timestamp, prefix: "" },
        Field { source: Source::Payload, name: "input_type", kind: FieldKind::Text, prefix: "" },
        Field { source: Source::Payload, name: "summary", kind: FieldKind::Text, prefix: "" },
        Field { source: Source::Payload, name: "risk_lane", kind: FieldKind::Text, prefix: "" },
        Field { source: Source::Payload, name: "risk_flags", kind: FieldKind::OptionalText, prefix: "" },
        Field { source: Source::Payload, name: "affected_docs", kind: FieldKind::OptionalText, prefix: "" },
        Field { source: Source::Payload, name: "story_id", kind: FieldKind::OptionalText, prefix: "" },
        Field { source: Source::Payload, name: "notes", kind: FieldKind::OptionalText, prefix: "" },
    ];
    assert(fields_view(t@) =~= intake_add_uid_fields());
    t
}

/// The payload fields of `intake.add` version 1.
pub open spec fn intake_add_fields() -> Seq<FieldView> {
    seq![
        FieldView { source: Source::Payload, name: "input_type"@, kind: FieldKind::Text, prefix: ""@ },
        FieldView { source: Source::Payload, name: "summary"@, kind: FieldKind::Text, prefix: ""@ },
        FieldView { source: Source::Payload, name: "risk_lane"@, kind: FieldKind::Text, prefix: ""@ },
        FieldView { source: Source::Payload, name: "risk_flags"@, kind: FieldKind::OptionalText, prefix: ""@ },
        FieldView { source: Source::Payload, name: "affected_docs"@, kind: FieldKind::OptionalText, prefix: ""@ },
        FieldView { source: Source::Payload, name: "story_id"@, kind: FieldKind::OptionalText, prefix: ""@ },
        FieldView { source: Source::Payload, name: "notes"@, kind: FieldKind::OptionalText, prefix: ""@ },
    ]
}

pub fn intake_add_table() -> (t: Vec<Field>)
    ensures
        fields_view(t@) == intake_add_fields(),
{
    let t = vec![
        Field { source: Source::Payload, name: "input_type", kind: FieldKind::Text, prefix: "" },
        Field { source: Source::Payload, name: "summary", kind: FieldKind::Text, prefix: "" },
        Field { source: Source::Payload, name: "risk_lane", kind: FieldKind::Text, prefix: "" },
        Field { source: Source::Payload, name: "risk_flags", kind: FieldKind::OptionalText, prefix: "" },
        Field { source: Source::Payload, name: "affected_docs", kind: FieldKind::OptionalText, prefix: "" },
        Field { source: Source::Payload, name: "story_id", kind: FieldKind::OptionalText, prefix: "" },
        Field { source: Source::Payload, name: "notes", kind: FieldKind::OptionalText, prefix: "" },
    ];
    assert(fields_view(t@) =~= intake_add_fields());
    t
}

/// The fields of `story.add`.
pub open spec fn story_add_fields() -> Seq<FieldView> {
    seq![
        FieldView { source: Source::Operation, name: "id"@, kind: FieldKind::Text, prefix: ""@ },
        FieldView { source: Source::Payload, name: "title"@, kind: FieldKind::Text, prefix: ""@ },
        FieldView { source: Source::Payload, name: "risk_lane"@, kind: FieldKind::Text, prefix: ""@ },
        FieldView { source: Source::Payload, name: "contract_doc"@, kind: FieldKind::OptionalText, prefix: ""@ },
        FieldView { source: Source::Payload, name: "verify_command"@, kind: FieldKind::OptionalText, prefix: ""@ },
        FieldView { source: Source::Payload, name: "notes"@, kind: FieldKind::OptionalText, prefix: ""@ },
    ]
}

pub fn story_add_table() -> (t: Vec<Field>)
    ensures
        fields_view(t@) == story_add_fields(),
{
    let t = vec![
        Field { source: Source::Operation, name: "id", kind: FieldKind::Text, prefix: "" },
        Field { source: Source::Payload, name: "title", kind: FieldKind::Text, prefix: "" },
        Field { source: Source::Payload, name: "risk_lane", kind: FieldKind::Text, prefix: "" },
        Field { source: Source::Payload, name: "contract_doc", kind: FieldKind::OptionalText, prefix: "" },
        Field { source: Source::Payload, name: "verify_command", kind: FieldKind::OptionalText, prefix: "" },
        Field { source: Source::Payload, name: "notes", kind: FieldKind::OptionalText, prefix: "" },
    ];
    assert(fields_view(t@) =~= story_add_fields());
    t
}

/// The fields of `story.update`.
pub open spec fn story_update_fields() -> Seq<FieldView> {
    seq![
        FieldView { source: Source::Payload, name: "status"@, kind: FieldKind::OptionalText, prefix: ""@ },
        FieldView { source: Source::Payload, name: "evidence"@, kind: FieldKind::OptionalText, prefix: ""@ },
        FieldView { source: Source::Payload, name: "unit_proof"@, kind: FieldKind::OptionalInteger, prefix: ""@ },
        FieldView { source: Source::Payload, name: "integration_proof"@, kind: FieldKind::OptionalInteger, prefix: ""@ },
        FieldView { source: Source::Payload, name: "e2e_proof"@, kind: FieldKind::OptionalInteger, prefix: ""@ },
        FieldView { source: Source::Payload, name: "platform_proof"@, kind: FieldKind::OptionalInteger, prefix: ""@ },
        FieldView { source: Source::Payload, name: "verify_command"@, kind: FieldKind::OptionalText, prefix: ""@ },
        FieldView { source: Source::Operation, name: "id"@, kind: FieldKind::Text, prefix: ""@ },
    ]
}

pub fn story_update_table() -> (t: Vec<Field>)
    ensures
        fields_view(t@) == story_update_fields(),
{
    let t = vec![
        Field { source: Source::Payload, name: "status", kind: FieldKind::OptionalText, prefix: "" },
        Field { source: Source::Payload, name: "evidence", kind: FieldKind::OptionalText, prefix: "" },
        Field { source: Source::Payload, name: "unit_proof", kind: FieldKind::OptionalInteger, prefix: "" },
        Field { source: Source::Payload, name: "integration_proof", kind: FieldKind::OptionalInteger, prefix: "" },
        Field { source: Source::Payload, name: "e2e_proof", kind: FieldKind::OptionalInteger, prefix: "" },
        Field { source: Source::Payload, name: "platform_proof", kind: FieldKind::OptionalInteger, prefix: "" },
        Field { source: Source::Payload, name: "verify_command", kind: FieldKind::OptionalText, prefix: "" },
        Field { source: Source::Operation, name: "id", kind: FieldKind::Text, prefix: "" },
    ];
    assert(fields_view(t@) =~= story_update_fields());
    t
}

/// The fields of `story.dependency.remove`.
pub open spec fn story_dependency_remove_fields() -> Seq<FieldView> {
    seq![
        FieldView { source: Source::Operation, name: "id"@, kind: FieldKind::Text, prefix: ""@ },
        FieldView { source: Source::Payload, name: "blocked"@, kind: FieldKind::Text, prefix: ""@ },
    ]
}

pub fn story_dependency_remove_table() -> (t: Vec<Field>)
    ensures
        fields_view(t@) == story_dependency_remove_fields(),
{
    let t = vec![
        Field { source: Source::Operation, name: "id", kind: FieldKind::Text, prefix: "" },
        Field { source: Source::Payload, name: "blocked", kind: FieldKind::Text, prefix: "" },
    ];
    assert(fields_view(t@) =~= story_dependency_remove_fields());
    t
}

/// The fields of `story.verify`.
pub open spec fn story_verify_fields() -> Seq<FieldView> {
    seq![
        FieldView { source: Source::Payload, name: "verified_at"@, kind: FieldKind::VersionedTimestamp, prefix: ""@ },
        FieldView { source: Source::Payload, name: "result"@, kind: FieldKind::Text, prefix: ""@ },
        FieldView { source: Source::Operation, name: "id"@, kind: FieldKind::Text, prefix: ""@ },
    ]
}

pub fn story_verify_table() -> (t: Vec<Field>)
    ensures
        fields_view(t@) == story_verify_fields(),
{
    let t = vec![
        Field { source: Source::Payload, name: "verified_at", kind: FieldKind::VersionedTimestamp, prefix: "" },
        Field { source: Source::Payload, name: "result", kind: FieldKind::Text, prefix: "" },
        Field { source: Source::Operation, name: "id", kind: FieldKind::Text, prefix: "" },
    ];
    assert(fields_view(t@) =~= story_verify_fields());
    t
}

/// The fields of `story.complete`.
pub open spec fn story_complete_fields() -> Seq<FieldView> {
    seq![
        FieldView { source: Source::Payload, name: "completed_at"@, kind: FieldKind::VersionedTimestamp, prefix: ""@ },
        FieldView { source: Source::Payload, name: "result"@, kind: FieldKind::Text, prefix: ""@ },
        FieldView { source: Source::Operation, name: "id"@, kind: FieldKind::Text, prefix: ""@ },
    ]
}

pub fn story_complete_table() -> (t: Vec<Field>)
    ensures
        fields_view(t@) == story_complete_fields(),
{
    let t = vec![
        Field { source: Source::Payload, name: "completed_at", kind: FieldKind::VersionedTimestamp, prefix: "" },
        Field { source: Source::Payload, name: "result", kind: FieldKind::Text, prefix: "" },
        Field { source: Source::Operation, name: "id", kind: FieldKind::Text, prefix: "" },
    ];
    assert(fields_view(t@) =~= story_complete_fields());
    t
}

/// The fields of `legacy.evidence.capture` after its source kind.
pub open spec fn legacy_capture_tail_fields() -> Seq<FieldView> {
    seq![
        FieldView { source: Source::Payload, name: "source_local_id"@, kind: FieldKind::OptionalInteger, prefix: ""@ },
        FieldView { source: Source::Payload, name: "evidence_fingerprint"@, kind: FieldKind::Text, prefix: ""@ },
        FieldView { source: Source::Payload, name: "canonical_payload"@, kind: FieldKind::Text, prefix: ""@ },
        FieldView { source: Source::Payload, name: "captured_at"@, kind: FieldKind::Timestamp, prefix: ""@ },
    ]
}

pub fn legacy_capture_tail_table() -> (t: Vec<Field>)
    ensures
        fields_view(t@) == legacy_capture_tail_fields(),
{
    let t = vec![
        Field { source: Source::Payload, name: "source_local_id", kind: FieldKind::OptionalInteger, prefix: "" },
        Field { source: Source::Payload, name: "evidence_fingerprint", kind: FieldKind::Text, prefix: "" },
        Field { source: Source::Payload, name: "canonical_payload", kind: FieldKind::Text, prefix: "" },
        Field { source: Source::Payload, name: "captured_at", kind: FieldKind::Timestamp, prefix: "" },
    ];
    assert(fields_view(t@) =~= legacy_capture_tail_fields());
    t
}

/// The keys that `backlog.legacy.reconcile` gives a legacy row.
pub open spec fn reconcile_keys_fields() -> Seq<FieldView> {
    seq![
        FieldView { source: Source::Payload, name: "proposal_key"@, kind: FieldKind::Text, prefix: ""@ },
        FieldView { source: Source::Payload, name: "occurrence_kind"@, kind: FieldKind::Text, prefix: ""@ },
    ]
}

pub fn reconcile_keys_table() -> (t: Vec<Field>)
    ensures
        fields_view(t@) == reconcile_keys_fields(),
{
    let t = vec![
        Field { source: Source::Payload, name: "proposal_key", kind: FieldKind::Text, prefix: "" },
        Field { source: Source::Payload, name: "occurrence_kind", kind: FieldKind::Text, prefix: "" },
    ];
    assert(fields_view(t@) =~= reconcile_keys_fields());
    t
}

/// The fields of the legacy row that `backlog.legacy.reconcile` rebuilds.
pub open spec fn legacy_row_fields() -> Seq<FieldView> {
    seq![
        FieldView { source: Source::Payload, name: "created_at"@, kind: FieldKind::Text, prefix: ""@ },
        FieldView { source: Source::Payload, name: "title"@, kind: FieldKind::Text, prefix: ""@ },
        FieldView { source: Source::Payload, name: "discovered_while"@, kind: FieldKind::OptionalText, prefix: ""@ },
        FieldView { source: Source::Payload, name: "current_pain"@, kind: FieldKind::OptionalText, prefix: ""@ },
        FieldView { source: Source::Payload, name: "suggested_improvement"@, kind: FieldKind::OptionalText, prefix: ""@ },
        FieldView { source: Source::Payload, name: "risk"@, kind: FieldKind::OptionalText, prefix: ""@ },
        FieldView { source: Source::Payload, name: "status"@, kind: FieldKind::Text, prefix: ""@ },
        FieldView { source: Source::Payload, name: "predicted_impact"@, kind: FieldKind::OptionalText, prefix: ""@ },
        FieldView { source: Source::Payload, name: "actual_outcome"@, kind: FieldKind::OptionalText, prefix: ""@ },
        FieldView { source: Source::Payload, name: "implemented_at"@, kind: FieldKind::OptionalText, prefix: ""@ },
        FieldView { source: Source::Payload, name: "notes"@, kind: FieldKind::OptionalText, prefix: ""@ },
        FieldView { source: Source::Payload, name: "accepted_at"@, kind: FieldKind::OptionalText, prefix: ""@ },
        FieldView { source: Source::Payload, name: "closed_at"@, kind: FieldKind::OptionalText, prefix: ""@ },
        FieldView { source: Source::Payload, name: "resolution_evidence"@, kind: FieldKind::OptionalText, prefix: ""@ },
        FieldView { source: Source::Payload, name: "outcome_schedule_kind"@, kind: FieldKind::OptionalText, prefix: ""@ },
        FieldView { source: Source::Payload, name: "outcome_due_at"@, kind: FieldKind::OptionalText, prefix: ""@ },
        FieldView { source: Source::Payload, name: "outcome_after_traces"@, kind: FieldKind::OptionalInteger, prefix: ""@ },
        FieldView { source: Source::Payload, name: "outcome_baseline_trace_count"@, kind: FieldKind::OptionalInteger, prefix: ""@ },
    ]
}

pub fn legacy_row_table() -> (t: Vec<Field>)
    ensures
        fields_view(t@) == legacy_row_fields(),
{
    let t = vec![
        Field { source: Source::Payload, name: "created_at", kind: FieldKind::Text, prefix: "" },
        Field { source: Source::Payload, name: "title", kind: FieldKind::Text, prefix: "" },
        Field { source: Source::Payload, name: "discovered_while", kind: FieldKind::OptionalText, prefix: "" },
        Field { source: Source::Payload, name: "current_pain", kind: FieldKind::OptionalText, prefix: "" },
        Field { source: Source::Payload, name: "suggested_improvement", kind: FieldKind::OptionalText, prefix: "" },
        Field { source: Source::Payload, name: "risk", kind: FieldKind::OptionalText, prefix: "" },
        Field { source: Source::Payload, name: "status", kind: FieldKind::Text, prefix: "" },
        Field { source: Source::Payload, name: "predicted_impact", kind: FieldKind::OptionalText, prefix: "" },
        Field { source: Source::Payload, name: "actual_outcome", kind: FieldKind::OptionalText, prefix: "" },
        Field { source: Source::Payload, name: "implemented_at", kind: FieldKind::OptionalText, prefix: "" },
        Field { source: Source::Payload, name: "notes", kind: FieldKind::OptionalText, prefix: "" },
        Field { source: Source::Payload, name: "accepted_at", kind: FieldKind::OptionalText, prefix: "" },
        Field { source: Source::Payload, name: "closed_at", kind: FieldKind::OptionalText, prefix: "" },
        Field { source: Source::Payload, name: "resolution_evidence", kind: FieldKind::OptionalText, prefix: "" },
        Field { source: Source::Payload, name: "outcome_schedule_kind", kind: FieldKind::OptionalText, prefix: "" },
        Field { source: Source::Payload, name: "outcome_due_at", kind: FieldKind::OptionalText, prefix: "" },
        Field { source: Source::Payload, name: "outcome_after_traces", kind: FieldKind::OptionalInteger, prefix: "" },
        Field { source: Source::Payload, name: "outcome_baseline_trace_count", kind: FieldKind::OptionalInteger, prefix: "" },
    ];
    assert(fields_view(t@) =~= legacy_row_fields());
    t
}

/// The fields of one evidence link, in the order they are read.
pub open spec fn evidence_item_fields() -> Seq<FieldView> {
    seq![
        FieldView { source: Source::Payload, name: "observed_at"@, kind: FieldKind::TimestampSince2, prefix: ""@ },
        FieldView { source: Source::Payload, name: "source_kind"@, kind: FieldKind::Text, prefix: ""@ },
        FieldView { source: Source::Payload, name: "evidence_uid"@, kind: FieldKind::Text, prefix: ""@ },
        FieldView { source: Source::Payload, name: "evidence_fingerprint"@, kind: FieldKind::Text, prefix: ""@ },
    ]
}

pub fn evidence_item_table() -> (t: Vec<Field>)
    ensures
        fields_view(t@) == evidence_item_fields(),
{
    let t = vec![
        Field { source: Source::Payload, name: "observed_at", kind: FieldKind::TimestampSince2, prefix: "" },
        Field { source: Source::Payload, name: "source_kind", kind: FieldKind::Text, prefix: "" },
        Field { source: Source::Payload, name: "evidence_uid", kind: FieldKind::Text, prefix: "" },
        Field { source: Source::Payload, name: "evidence_fingerprint", kind: FieldKind::Text, prefix: "" },
    ];
    assert(fields_view(t@) =~= evidence_item_fields());
    t
}

/// The fields of `backlog.outcome.observe` after its status.
pub open spec fn outcome_tail_fields() -> Seq<FieldView> {
    seq![
        FieldView { source: Source::Payload, name: "ordinal"@, kind: FieldKind::Integer, prefix: ""@ },
        FieldView { source: Source::Payload, name: "outcome"@, kind: FieldKind::Text, prefix: ""@ },
        FieldView { source: Source::Payload, name: "evidence"@, kind: FieldKind::OptionalText, prefix: ""@ },
        FieldView { source: Source::Payload, name: "observed_at"@, kind: FieldKind::Timestamp, prefix: ""@ },
    ]
}

pub fn outcome_tail_table() -> (t: Vec<Field>)
    ensures
        fields_view(t@) == outcome_tail_fields(),
{
    let t = vec![
        Field { source: Source::Payload, name: "ordinal", kind: FieldKind::Integer, prefix: "" },
        Field { source: Source::Payload, name: "outcome", kind: FieldKind::Text, prefix: "" },
        Field { source: Source::Payload, name: "evidence", kind: FieldKind::OptionalText, prefix: "" },
        Field { source: Source::Payload, name: "observed_at", kind: FieldKind::Timestamp, prefix: "" },
    ];
    assert(fields_view(t@) =~= outcome_tail_fields());
    t
}

/// The fields of `decision.add`.
pub open spec fn decision_add_fields() -> Seq<FieldView> {
    seq![
        FieldView { source: Source::Operation, name: "id"@, kind: FieldKind::Text, prefix: ""@ },
        FieldView { source: Source::Payload, name: "title"@, kind: FieldKind::Text, prefix: ""@ },
        FieldView { source: Source::Payload, name: "status"@, kind: FieldKind::Text, prefix: ""@ },
        FieldView { source: Source::Payload, name: "doc_path"@, kind: FieldKind::OptionalText, prefix: ""@ },
        FieldView { source: Source::Payload, name: "verify_command"@, kind: FieldKind::OptionalText, prefix: ""@ },
        FieldView { source: Source::Payload, name: "predicted_impact"@, kind: FieldKind::OptionalText, prefix: ""@ },
        FieldView { source: Source::Payload, name: "notes"@, kind: FieldKind::OptionalText, prefix: ""@ },
    ]
}

pub fn decision_add_table() -> (t: Vec<Field>)
    ensures
        fields_view(t@) == decision_add_fields(),
{
    let t = vec![
        Field { source: Source::Operation, name: "id", kind: FieldKind::Text, prefix: "" },
        Field { source: Source::Payload, name: "title", kind: FieldKind::Text, prefix: "" },
        Field { source: Source::Payload, name: "status", kind: FieldKind::Text, prefix: "" },
        Field { source: Source::Payload, name: "doc_path", kind: FieldKind::OptionalText, prefix: "" },
        Field { source: Source::Payload, name: "verify_command", kind: FieldKind::OptionalText, prefix: "" },
        Field { source: Source::Payload, name: "predicted_impact", kind: FieldKind::OptionalText, prefix: "" },
        Field { source: Source::Payload, name: "notes", kind: FieldKind::OptionalText, prefix: "" },
    ];
    assert(fields_view(t@) =~= decision_add_fields());
    t
}

/// The fields of `decision.verify`.
pub open spec fn decision_verify_fields() -> Seq<FieldView> {
    seq![
        FieldView { source: Source::Payload, name: "result"@, kind: FieldKind::Text, prefix: ""@ },
        FieldView { source: Source::Operation, name: "id"@, kind: FieldKind::Text, prefix: ""@ },
    ]
}

pub fn decision_verify_table() -> (t: Vec<Field>)
    ensures
        fields_view(t@) == decision_verify_fields(),
{
    let t = vec![
        Field { source: Source::Payload, name: "result", kind: FieldKind::Text, prefix: "" },
        Field { source: Source::Operation, name: "id", kind: FieldKind::Text, prefix: "" },
    ];
    assert(fields_view(t@) =~= decision_verify_fields());
    t
}

/// The fields of `backlog.proposal.decision`, in the order they are read.
pub open spec fn proposal_decision_fields() -> Seq<FieldView> {
    seq![
        FieldView { source: Source::Operation, name: "uid"@, kind: FieldKind::Uid, prefix: "blg"@ },
        FieldView { source: Source::Payload, name: "accepted_at"@, kind: FieldKind::OptionalTimestampSince2, prefix: ""@ },
        FieldView { source: Source::Payload, name: "closed_at"@, kind: FieldKind::OptionalTimestampSince2, prefix: ""@ },
        FieldView { source: Source::Payload, name: "proposal_key"@, kind: FieldKind::Text, prefix: ""@ },
        FieldView { source: Source::Payload, name: "predecessor_uid"@, kind: FieldKind::OptionalText, prefix: ""@ },
        FieldView { source: Source::Payload, name: "occurrence_kind"@, kind: FieldKind::Text, prefix: ""@ },
        FieldView { source: Source::Payload, name: "title"@, kind: FieldKind::Text, prefix: ""@ },
        FieldView { source: Source::Payload, name: "discovered_while"@, kind: FieldKind::OptionalText, prefix: ""@ },
        FieldView { source: Source::Payload, name: "current_pain"@, kind: FieldKind::OptionalText, prefix: ""@ },
        FieldView { source: Source::Payload, name: "suggested_improvement"@, kind: FieldKind::OptionalText, prefix: ""@ },
        FieldView { source: Source::Payload, name: "risk"@, kind: FieldKind::OptionalText, prefix: ""@ },
        FieldView { source: Source::Payload, name: "status"@, kind: FieldKind::Text, prefix: ""@ },
        FieldView { source: Source::Payload, name: "predicted_impact"@, kind: FieldKind::OptionalText, prefix: ""@ },
        FieldView { source: Source::Payload, name: "notes"@, kind: FieldKind::OptionalText, prefix: ""@ },
        FieldView { source: Source::Payload, name: "outcome_schedule_kind"@, kind: FieldKind::OptionalText, prefix: ""@ },
        FieldView { source: Source::Payload, name: "outcome_due_at"@, kind: FieldKind::OptionalText, prefix: ""@ },
        FieldView { source: Source::Payload, name: "outcome_after_traces"@, kind: FieldKind::OptionalInteger, prefix: ""@ },
        FieldView { source: Source::Payload, name: "rejection_reason"@, kind: FieldKind::OptionalText, prefix: ""@ },
    ]
}

pub fn proposal_decision_table() -> (t: Vec<Field>)
    ensures
        fields_view(t@) == proposal_decision_fields(),
{
    let t = vec![
        Field { source: Source::Operation, name: "uid", kind: FieldKind::Uid, prefix: "blg" },
        Field { source: Source::Payload, name: "accepted_at", kind: FieldKind::OptionalTimestampSince2, prefix: "" },
        Field { source: Source::Payload, name: "closed_at", kind: FieldKind::OptionalTimestampSince2, prefix: "" },
        Field { source: Source::Payload, name: "proposal_key", kind: FieldKind::Text, prefix: "" },
        Field { source: Source::Payload, name: "predecessor_uid", kind: FieldKind::OptionalText, prefix: "" },
        Field { source: Source::Payload, name: "occurrence_kind", kind: FieldKind::Text, prefix: "" },
        Field { source: Source::Payload, name: "title", kind: FieldKind::Text, prefix: "" },
        Field { source: Source::Payload, name: "discovered_while", kind: FieldKind::OptionalText, prefix: "" },
        Field { source: Source::Payload, name: "current_pain", kind: FieldKind::OptionalText, prefix: "" },
        Field { source: Source::Payload, name: "suggested_improvement", kind: FieldKind::OptionalText, prefix: "" },
        Field { source: Source::Payload, name: "risk", kind: FieldKind::OptionalText, prefix: "" },
        Field { source: Source::Payload, name: "status", kind: FieldKind::Text, prefix: "" },
        Field { source: Source::Payload, name: "predicted_impact", kind: FieldKind::OptionalText, prefix: "" },
        Field { source: Source::Payload, name: "notes", kind: FieldKind::OptionalText, prefix: "" },
        Field { source: Source::Payload, name: "outcome_schedule_kind", kind: FieldKind::OptionalText, prefix: "" },
        Field { source: Source::Payload, name: "outcome_due_at", kind: FieldKind::OptionalText, prefix: "" },
        Field { source: Source::Payload, name: "outcome_after_traces", kind: FieldKind::OptionalInteger, prefix: "" },
        Field { source: Source::Payload, name: "rejection_reason", kind: FieldKind::OptionalText, prefix: "" },
    ];
    assert(fields_view(t@) =~= proposal_decision_fields());
    t
}

/// The fields of the legacy snapshot link of a proposal decision without evidence.
pub open spec fn snapshot_link_fields() -> Seq<FieldView> {
    seq![
        FieldView { source: Source::Payload, name: "evidence_uid"@, kind: FieldKind::Text, prefix: ""@ },
        FieldView { source: Source::Payload, name: "evidence_fingerprint"@, kind: FieldKind::Text, prefix: ""@ },
    ]
}

pub fn snapshot_link_table() -> (t: Vec<Field>)
    ensures
        fields_view(t@) == snapshot_link_fields(),
{
    let t = vec![
        Field { source: Source::Payload, name: "evidence_uid", kind: FieldKind::Text, prefix: "" },
        Field { source: Source::Payload, name: "evidence_fingerprint", kind: FieldKind::Text, prefix: "" },
    ];
    assert(fields_view(t@) =~= snapshot_link_fields());
    t
}

/// The fields of `backlog.add` version 2.
pub open spec fn backlog_add_uid_fields() -> Seq<FieldView> {
    seq![
        FieldView { source: Source::Operation, name: "uid"@, kind: FieldKind::Uid, prefix: "blg"@ },
        FieldView { source: Source::Payload, name: "created_at"@, kind: FieldKind::Timestamp, prefix: ""@ },
        FieldView { source: Source::Payload, name: "proposal_key"@, kind: FieldKind::OptionalText, prefix: ""@ },
        FieldView { source: Source::Payload, name: "occurrence_kind"@, kind: FieldKind::OptionalText, prefix: ""@ },
        FieldView { source: Source::Payload, name: "title"@, kind: FieldKind::Text, prefix: ""@ },
        FieldView { source: Source::Payload, name: "discovered_while"@, kind: FieldKind::OptionalText, prefix: ""@ },
        FieldView { source: Source::Payload, name: "current_pain"@, kind: FieldKind::OptionalText, prefix: ""@ },
        FieldView { source: Source::Payload, name: "suggested_improvement"@, kind: FieldKind::OptionalText, prefix: ""@ },
        FieldView { source: Source::Payload, name: "risk"@, kind: FieldKind::OptionalText, prefix: ""@ },
        FieldView { source: Source::Payload, name: "predicted_impact"@, kind: FieldKind::OptionalText, prefix: ""@ },
        FieldView { source: Source::Payload, name: "notes"@, kind: FieldKind::OptionalText, prefix: ""@ },
    ]
}

pub fn backlog_add_uid_table() -> (t: Vec<Field>)
    ensures
        fields_view(t@) == backlog_add_uid_fields(),
{
    let t = vec![
        Field { source: Source::Operation, name: "uid", kind: FieldKind::Uid, prefix: "blg" },
        Field { source: Source::Payload, name: "created_at", kind: FieldKind::Timestamp, prefix: "" },
        Field { source: Source::Payload, name: "proposal_key", kind: FieldKind::OptionalText, prefix: "" },
        Field { source: Source::Payload, name: "occurrence_kind", kind: FieldKind::OptionalText, prefix: "" },
        Field { source: Source::Payload, name: "title", kind: FieldKind::Text, prefix: "" },
        Field { source: Source::Payload, name: "discovered_while", kind: FieldKind::OptionalText, prefix: "" },
        Field { source: Source::Payload, name: "current_pain", kind: FieldKind::OptionalText, prefix: "" },
        Field { source: Source::Payload, name: "suggested_improvement", kind: FieldKind::OptionalText, prefix: "" },
        Field { source: Source::Payload, name: "risk", kind: FieldKind::OptionalText, prefix: "" },
        Field { source: Source::Payload, name: "predicted_impact", kind: FieldKind::OptionalText, prefix: "" },
        Field { source: Source::Payload, name: "notes", kind: FieldKind::OptionalText, prefix: "" },
    ];
    assert(fields_view(t@) =~= backlog_add_uid_fields());
    t
}

/// The payload fields of `backlog.add` version 1.
pub open spec fn backlog_add_fields() -> Seq<FieldView> {
    seq![
        FieldView { source: Source::Payload, name: "title"@, kind: FieldKind::Text, prefix: ""@ },
        FieldView { source: Source::Payload, name: "discovered_while"@, kind: FieldKind::OptionalText, prefix: ""@ },
        FieldView { source: Source::Payload, name: "current_pain"@, kind: FieldKind::OptionalText, prefix: ""@ },
        FieldView { source: Source::Payload, name: "suggested_improvement"@, kind: FieldKind::OptionalText, prefix: ""@ },
        FieldView { source: Source::Payload, name: "risk"@, kind: FieldKind::OptionalText, prefix: ""@ },
        FieldView { source: Source::Payload, name: "predicted_impact"@, kind: FieldKind::OptionalText, prefix: ""@ },
        FieldView { source: Source::Payload, name: "notes"@, kind: FieldKind::OptionalText, prefix: ""@ },
    ]
}

pub fn backlog_add_table() -> (t: Vec<Field>)
    ensures
        fields_view(t@) == backlog_add_fields(),
{
    let t = vec![
        Field { source: Source::Payload, name: "title", kind: FieldKind::Text, prefix: "" },
        Field { source: Source::Payload, name: "discovered_while", kind: FieldKind::OptionalText, prefix: "" },
        Field { source: Source::Payload, name: "current_pain", kind: FieldKind::OptionalText, prefix: "" },
        Field { source: Source::Payload, name: "suggested_improvement", kind: FieldKind::OptionalText, prefix: "" },
        Field { source: Source::Payload, name: "risk", kind: FieldKind::OptionalText, prefix: "" },
        Field { source: Source::Payload, name: "predicted_impact", kind: FieldKind::OptionalText, prefix: "" },
        Field { source: Source::Payload, name: "notes", kind: FieldKind::OptionalText, prefix: "" },
    ];
    assert(fields_view(t@) =~= backlog_add_fields());
    t
}

/// The fields of `backlog.close`.
pub open spec fn backlog_close_fields() -> Seq<FieldView> {
    seq![
        FieldView { source: Source::Payload, name: "status"@, kind: FieldKind::Text, prefix: ""@ },
        FieldView { source: Source::Payload, name: "actual_outcome"@, kind: FieldKind::OptionalText, prefix: ""@ },
        FieldView { source: Source::Operation, name: "id"@, kind: FieldKind::MappedInteger(IdTable::Backlog), prefix: ""@ },
    ]
}

pub fn backlog_close_table() -> (t: Vec<Field>)
    ensures
        fields_view(t@) == backlog_close_fields(),
{
    let t = vec![
        Field { source: Source::Payload, name: "status", kind: FieldKind::Text, prefix: "" },
        Field { source: Source::Payload, name: "actual_outcome", kind: FieldKind::OptionalText, prefix: "" },
        Field { source: Source::Operation, name: "id", kind: FieldKind::MappedInteger(IdTable::Backlog), prefix: "" },
    ];
    assert(fields_view(t@) =~= backlog_close_fields());
    t
}

/// The fields of `tool.register`.
pub open spec fn tool_register_fields() -> Seq<FieldView> {
    seq![
        FieldView { source: Source::Operation, name: "id"@, kind: FieldKind::Text, prefix: ""@ },
        FieldView { source: Source::Payload, name: "command"@, kind: FieldKind::Text, prefix: ""@ },
        FieldView { source: Source::Payload, name: "description"@, kind: FieldKind::Text, prefix: ""@ },
        FieldView { source: Source::Payload, name: "args"@, kind: FieldKind::OptionalText, prefix: ""@ },
        FieldView { source: Source::Payload, name: "responsibility"@, kind: FieldKind::Text, prefix: ""@ },
        FieldView { source: Source::Payload, name: "kind"@, kind: FieldKind::Text, prefix: ""@ },
        FieldView { source: Source::Payload, name: "capability"@, kind: FieldKind::OptionalText, prefix: ""@ },
        FieldView { source: Source::Payload, name: "scan_target"@, kind: FieldKind::OptionalText, prefix: ""@ },
    ]
}

pub fn tool_register_table() -> (t: Vec<Field>)
    ensures
        fields_view(t@) == tool_register_fields(),
{
    let t = vec![
        Field { source: Source::Operation, name: "id", kind: FieldKind::Text, prefix: "" },
        Field { source: Source::Payload, name: "command", kind: FieldKind::Text, prefix: "" },
        Field { source: Source::Payload, name: "description", kind: FieldKind::Text, prefix: "" },
        Field { source: Source::Payload, name: "args", kind: FieldKind::OptionalText, prefix: "" },
        Field { source: Source::Payload, name: "responsibility", kind: FieldKind::Text, prefix: "" },
        Field { source: Source::Payload, name: "kind", kind: FieldKind::Text, prefix: "" },
        Field { source: Source::Payload, name: "capability", kind: FieldKind::OptionalText, prefix: "" },
        Field { source: Source::Payload, name: "scan_target", kind: FieldKind::OptionalText, prefix: "" },
    ];
    assert(fields_view(t@) =~= tool_register_fields());
    t
}

/// The fields of `tool.check`.
pub open spec fn tool_check_fields() -> Seq<FieldView> {
    seq![
        FieldView { source: Source::Payload, name: "status"@, kind: FieldKind::Text, prefix: ""@ },
        FieldView { source: Source::Operation, name: "id"@, kind: FieldKind::Text, prefix: ""@ },
    ]
}

pub fn tool_check_table() -> (t: Vec<Field>)
    ensures
        fields_view(t@) == tool_check_fields(),
{
    let t = vec![
        Field { source: Source::Payload, name: "status", kind: FieldKind::Text, prefix: "" },
        Field { source: Source::Operation, name: "id", kind: FieldKind::Text, prefix: "" },
    ];
    assert(fields_view(t@) =~= tool_check_fields());
    t
}

/// The fields of `tool.remove`.
pub open spec fn tool_remove_fields() -> Seq<FieldView> {
    seq![
        FieldView { source: Source::Operation, name: "id"@, kind: FieldKind::Text, prefix: ""@ },
    ]
}

pub fn tool_remove_table() -> (t: Vec<Field>)
    ensures
        fields_view(t@) == tool_remove_fields(),
{
    let t = vec![
        Field { source: Source::Operation, name: "id", kind: FieldKind::Text, prefix: "" },
    ];
    assert(fields_view(t@) =~= tool_remove_fields());
    t
}

/// The fields of `intervention.add` version 2 after its uid; the trace id goes after the first.
pub open spec fn intervention_add_uid_rest_fields() -> Seq<FieldView> {
    seq![
        FieldView { source: Source::Payload, name: "created_at"@, kind: FieldKind::Timestamp, prefix: ""@ },
        FieldView { source: Source::Payload, name: "story_id"@, kind: FieldKind::OptionalText, prefix: ""@ },
        FieldView { source: Source::Payload, name: "type"@, kind: FieldKind::Text, prefix: ""@ },
        FieldView { source: Source::Payload, name: "description"@, kind: FieldKind::Text, prefix: ""@ },
        FieldView { source: Source::Payload, name: "source"@, kind: FieldKind::Text, prefix: ""@ },
        FieldView { source: Source::Payload, name: "impact"@, kind: FieldKind::OptionalText, prefix: ""@ },
    ]
}

pub fn intervention_add_uid_rest_table() -> (t: Vec<Field>)
    ensures
        fields_view(t@) == intervention_add_uid_rest_fields(),
{
    let t = vec![
        Field { source: Source::Payload, name: "created_at", kind: FieldKind::Timestamp, prefix: "" },
        Field { source: Source::Payload, name: "story_id", kind: FieldKind::OptionalText, prefix: "" },
        Field { source: Source::Payload, name: "type", kind: FieldKind::Text, prefix: "" },
        Field { source: Source::Payload, name: "description", kind: FieldKind::Text, prefix: "" },
        Field { source: Source::Payload, name: "source", kind: FieldKind::Text, prefix: "" },
        Field { source: Source::Payload, name: "impact", kind: FieldKind::OptionalText, prefix: "" },
    ];
    assert(fields_view(t@) =~= intervention_add_uid_rest_fields());
    t
}

/// The fields of `intervention.add` version 1.
pub open spec fn intervention_add_fields() -> Seq<FieldView> {
    seq![
        FieldView { source: Source::Payload, name: "trace_id"@, kind: FieldKind::OptionalMappedInteger(IdTable::Trace), prefix: ""@ },
        FieldView { source: Source::Payload, name: "story_id"@, kind: FieldKind::OptionalText, prefix: ""@ },
        FieldView { source: Source::Payload, name: "type"@, kind: FieldKind::Text, prefix: ""@ },
        FieldView { source: Source::Payload, name: "description"@, kind: FieldKind::Text, prefix: ""@ },
        FieldView { source: Source::Payload, name: "source"@, kind: FieldKind::Text, prefix: ""@ },
        FieldView { source: Source::Payload, name: "impact"@, kind: FieldKind::OptionalText, prefix: ""@ },
    ]
}

pub fn intervention_add_table() -> (t: Vec<Field>)
    ensures
        fields_view(t@) == intervention_add_fields(),
{
    let t = vec![
        Field { source: Source::Payload, name: "trace_id", kind: FieldKind::OptionalMappedInteger(IdTable::Trace), prefix: "" },
        Field { source: Source::Payload, name: "story_id", kind: FieldKind::OptionalText, prefix: "" },
        Field { source: Source::Payload, name: "type", kind: FieldKind::Text, prefix: "" },
        Field { source: Source::Payload, name: "description", kind: FieldKind::Text, prefix: "" },
        Field { source: Source::Payload, name: "source", kind: FieldKind::Text, prefix: "" },
        Field { source: Source::Payload, name: "impact", kind: FieldKind::OptionalText, prefix: "" },
    ];
    assert(fields_view(t@) =~= intervention_add_fields());
    t
}

/// The fields of `trace.add` version 2 after its uid; the intake id goes after the fourth.
pub open spec fn trace_add_uid_rest_fields() -> Seq<FieldView> {
    seq![
        FieldView { source: Source::Payload, name: "created_at"@, kind: FieldKind::Timestamp, prefix: ""@ },
        FieldView { source: Source::Payload, name: "recorded_at_unix_ns"@, kind: FieldKind::OptionalInteger, prefix: ""@ },
        FieldView { source: Source::Payload, name: "intake_uid"@, kind: FieldKind::OptionalText, prefix: ""@ },
        FieldView { source: Source::Payload, name: "task_summary"@, kind: FieldKind::Text, prefix: ""@ },
        FieldView { source: Source::Payload, name: "story_id"@, kind: FieldKind::OptionalText, prefix: ""@ },
        FieldView { source: Source::Payload, name: "agent"@, kind: FieldKind::OptionalText, prefix: ""@ },
        FieldView { source: Source::Payload, name: "actions_taken"@, kind: FieldKind::OptionalText, prefix: ""@ },
        FieldView { source: Source::Payload, name: "files_read"@, kind: FieldKind::OptionalText, prefix: ""@ },
        FieldView { source: Source::Payload, name: "files_changed"@, kind: FieldKind::OptionalText, prefix: ""@ },
        FieldView { source: Source::Payload, name: "decisions_made"@, kind: FieldKind::OptionalText, prefix: ""@ },
        FieldView { source: Source::Payload, name: "errors"@, kind: FieldKind::OptionalText, prefix: ""@ },
        FieldView { source: Source::Payload, name: "outcome"@, kind: FieldKind::OptionalText, prefix: ""@ },
        FieldView { source: Source::Payload, name: "duration_seconds"@, kind: FieldKind::OptionalInteger, prefix: ""@ },
        FieldView { source: Source::Payload, name: "token_estimate"@, kind: FieldKind::OptionalInteger, prefix: ""@ },
        FieldView { source: Source::Payload, name: "harness_friction"@, kind: FieldKind::OptionalText, prefix: ""@ },
        FieldView { source: Source::Payload, name: "notes"@, kind: FieldKind::OptionalText, prefix: ""@ },
    ]
}

pub fn trace_add_uid_rest_table() -> (t: Vec<Field>)
    ensures
        fields_view(t@) == trace_add_uid_rest_fields(),
{
    let t = vec![
        Field { source: Source::Payload, name: "created_at", kind: FieldKind::Timestamp, prefix: "" },
        Field { source: Source::Payload, name: "recorded_at_unix_ns", kind: FieldKind::OptionalInteger, prefix: "" },
        Field { source: Source::Payload, name: "intake_uid", kind: FieldKind::OptionalText, prefix: "" },
        Field { source: Source::Payload, name: "task_summary", kind: FieldKind::Text, prefix: "" },
        Field { source: Source::Payload, name: "story_id", kind: FieldKind::OptionalText, prefix: "" },
        Field { source: Source::Payload, name: "agent", kind: FieldKind::OptionalText, prefix: "" },
        Field { source: Source::Payload, name: "actions_taken", kind: FieldKind::OptionalText, prefix: "" },
        Field { source: Source::Payload, name: "files_read", kind: FieldKind::OptionalText, prefix: "" },
        Field { source: Source::Payload, name: "files_changed", kind: FieldKind::OptionalText, prefix: "" },
        Field { source: Source::Payload, name: "decisions_made", kind: FieldKind::OptionalText, prefix: "" },
        Field { source: Source::Payload, name: "errors", kind: FieldKind::OptionalText, prefix: "" },
        Field { source: Source::Payload, name: "outcome", kind: FieldKind::OptionalText, prefix: "" },
        Field { source: Source::Payload, name: "duration_seconds", kind: FieldKind::OptionalInteger, prefix: "" },
        Field { source: Source::Payload, name: "token_estimate", kind: FieldKind::OptionalInteger, prefix: "" },
        Field { source: Source::Payload, name: "harness_friction", kind: FieldKind::OptionalText, prefix: "" },
        Field { source: Source::Payload, name: "notes", kind: FieldKind::OptionalText, prefix: "" },
    ];
    assert(fields_view(t@) =~= trace_add_uid_rest_fields());
    t
}

/// The fields of `audit.evidence.open`.
pub open spec fn audit_evidence_open_fields() -> Seq<FieldView> {
    seq![
        FieldView { source: Source::Operation, name: "uid"@, kind: FieldKind::Text, prefix: ""@ },
        FieldView { source: Source::Payload, name: "finding_key"@, kind: FieldKind::Text, prefix: ""@ },
        FieldView { source: Source::Payload, name: "evidence_fingerprint"@, kind: FieldKind::Text, prefix: ""@ },
        FieldView { source: Source::Payload, name: "opened_at"@, kind: FieldKind::Timestamp, prefix: ""@ },
    ]
}

pub fn audit_evidence_open_table() -> (t: Vec<Field>)
    ensures
        fields_view(t@) == audit_evidence_open_fields(),
{
    let t = vec![
        Field { source: Source::Operation, name: "uid", kind: FieldKind::Text, prefix: "" },
        Field { source: Source::Payload, name: "finding_key", kind: FieldKind::Text, prefix: "" },
        Field { source: Source::Payload, name: "evidence_fingerprint", kind: FieldKind::Text, prefix: "" },
        Field { source: Source::Payload, name: "opened_at", kind: FieldKind::Timestamp, prefix: "" },
    ];
    assert(fields_view(t@) =~= audit_evidence_open_fields());
    t
}

/// The fields of `audit.evidence.clear`.
pub open spec fn audit_evidence_clear_fields() -> Seq<FieldView> {
    seq![
        FieldView { source: Source::Payload, name: "cleared_at"@, kind: FieldKind::Timestamp, prefix: ""@ },
        FieldView { source: Source::Operation, name: "uid"@, kind: FieldKind::Text, prefix: ""@ },
    ]
}

pub fn audit_evidence_clear_table() -> (t: Vec<Field>)
    ensures
        fields_view(t@) == audit_evidence_clear_fields(),
{
    let t = vec![
        Field { source: Source::Payload, name: "cleared_at", kind: FieldKind::Timestamp, prefix: "" },
        Field { source: Source::Operation, name: "uid", kind: FieldKind::Text, prefix: "" },
    ];
    assert(fields_view(t@) =~= audit_evidence_clear_fields());
    t
}

/// The payload fields of `trace.add` version 1.
pub open spec fn trace_add_fields() -> Seq<FieldView> {
    seq![
        FieldView { source: Source::Payload, name: "task_summary"@, kind: FieldKind::Text, prefix: ""@ },
        FieldView { source: Source::Payload, name: "intake_id"@, kind: FieldKind::OptionalMappedInteger(IdTable::Intake), prefix: ""@ },
        FieldView { source: Source::Payload, name: "story_id"@, kind: FieldKind::OptionalText, prefix: ""@ },
        FieldView { source: Source::Payload, name: "agent"@, kind: FieldKind::OptionalText, prefix: ""@ },
        FieldView { source: Source::Payload, name: "actions_taken"@, kind: FieldKind::OptionalText, prefix: ""@ },
        FieldView { source: Source::Payload, name: "files_read"@, kind: FieldKind::OptionalText, prefix: ""@ },
        FieldView { source: Source::Payload, name: "files_changed"@, kind: FieldKind::OptionalText, prefix: ""@ },
        FieldView { source: Source::Payload, name: "decisions_made"@, kind: FieldKind::OptionalText, prefix: ""@ },
        FieldView { source: Source::Payload, name: "errors"@, kind: FieldKind::OptionalText, prefix: ""@ },
        FieldView { source: Source::Payload, name: "outcome"@, kind: FieldKind::OptionalText, prefix: ""@ },
        FieldView { source: Source::Payload, name: "duration_seconds"@, kind: FieldKind::OptionalInteger, prefix: ""@ },
        FieldView { source: Source::Payload, name: "token_estimate"@, kind: FieldKind::OptionalInteger, prefix: ""@ },
        FieldView { source: Source::Payload, name: "harness_friction"@, kind: FieldKind::OptionalText, prefix: ""@ },
        FieldView { source: Source::Payload, name: "notes"@, kind: FieldKind::OptionalText, prefix: ""@ },
    ]
}

pub fn trace_add_table() -> (t: Vec<Field>)
    ensures
        fields_view(t@) == trace_add_fields(),
{
    let t = vec![
        Field { source: Source::Payload, name: "task_summary", kind: FieldKind::Text, prefix: "" },
        Field { source: Source::Payload, name: "intake_id", kind: FieldKind::OptionalMappedInteger(IdTable::Intake), prefix: "" },
        Field { source: Source::Payload, name: "story_id", kind: FieldKind::OptionalText, prefix: "" },
        Field { source: Source::Payload, name: "agent", kind: FieldKind::OptionalText, prefix: "" },
        Field { source: Source::Payload, name: "actions_taken", kind: FieldKind::OptionalText, prefix: "" },
        Field { source: Source::Payload, name: "files_read", kind: FieldKind::OptionalText, prefix: "" },
        Field { source: Source::Payload, name: "files_changed", kind: FieldKind::OptionalText, prefix: "" },
        Field { source: Source::Payload, name: "decisions_made", kind: FieldKind::OptionalText, prefix: "" },
        Field { source: Source::Payload, name: "errors", kind: FieldKind::OptionalText, prefix: "" },
        Field { source: Source::Payload, name: "outcome", kind: FieldKind::OptionalText, prefix: "" },
        Field { source: Source::Payload, name: "duration_seconds", kind: FieldKind::OptionalInteger, prefix: "" },
        Field { source: Source::Payload, name: "token_estimate", kind: FieldKind::OptionalInteger, prefix: "" },
        Field { source: Source::Payload, name: "harness_friction", kind: FieldKind::OptionalText, prefix: "" },
        Field { source: Source::Payload, name: "notes", kind: FieldKind::OptionalText, prefix: "" },
    ];
    assert(fields_view(t@) =~= trace_add_fields());
    t
}

} // verus!
