//! Improvement proposals: their records, the observation schedule that an
//! acceptance carries, how a proposal is classified against the backlog, and
//! how an accept or reject decision is resolved against an existing
//! occurrence.
use vstd::prelude::*;
use crate::text::{
    lemma_first_index_of_found, first_index_of, strip_cr,
    chars_of, eq_str, has_prefix, is_lit, lex_less, lex_lt, lines_of, opt_view, slice_of,
    split_lines, starts_with_str, string_of, trim, trimmed, views, append_str,
};
use crate::numbers::{decimal, decimal_digits, decimal_i64, decimal_usize, parse_i64, parsed_i64};
use crate::timestamps::{rfc3339_in_utc, rfc3339_utc};

verus! {

/// One item of evidence behind a proposal.
#[derive(Debug, Clone, PartialEq, Eq)]
pub struct ProposalEvidence {
    pub source_kind: String,
    pub uid: String,
    pub fingerprint: String,
    pub observed_at: String,
}

/// A generated improvement proposal and its lifecycle classification.
#[derive(Debug, Clone, PartialEq, Eq)]
pub struct ImprovementProposal {
    pub key: String,
    pub lifecycle_state: String,
    pub title: String,
    pub component: String,
    pub evidence: String,
    pub predicted_impact: String,
    pub risk: String,
    pub suggested_action: String,
    pub validation_plan: String,
    pub confidence: String,
    pub committed_backlog_id: Option<i64>,
    pub evidence_items: Vec<ProposalEvidence>,
    pub predecessor_uid: Option<String>,
    pub lifecycle_explanation: Option<String>,
}

/// What `propose` is asked to do.
#[derive(Debug, Clone, PartialEq, Eq)]
pub enum ProposalDecision {
    Preview,
    PreviewSuppressed,
    Accept { key: String, schedule: String },
    Reject { key: String, reason: String },
}

/// The proposals of one `propose` run, and the message of a decision if one was made.
#[derive(Debug, PartialEq, Eq)]
pub struct ProposalResult {
    pub proposals: Vec<ImprovementProposal>,
    pub message: Option<String>,
}

/// When the outcome of accepted work is to be observed: `kind` is `manual`,
/// `due_at` (with `due_at` set) or `trace_count` (with `after_traces` set).
#[derive(Debug, Clone, PartialEq, Eq)]
pub struct ObservationSchedule {
    pub kind: String,
    pub due_at: Option<String>,
    pub after_traces: Option<i64>,
}

/// Why a proposal decision is refused.
#[derive(Debug, Clone, PartialEq, Eq)]
pub enum ProposalDecisionError {
    UnknownKey(String),
    BlankReason,
    UnrecordedAuditEvidence,
    DueNotRfc3339,
    TraceCountNotPositive,
    InvalidSchedule,
    DueNotLater,
    RequiresLegacyReconciliation,
    ConflictingBoundary,
    CannotAccept(String),
    RejectionReasonDiffers,
    AcceptedCannotBeRejected,
    CannotReject(String),
    EmptyOutcome,
}

/// The text a refused decision is reported with.
pub open spec fn decision_message(e: ProposalDecisionError) -> Seq<char> {
    match e {
        ProposalDecisionError::UnknownKey(k) => "unknown or stale proposal key '"@ + k@ + "'"@,
        ProposalDecisionError::BlankReason => "rejection reason must be nonblank"@,
        ProposalDecisionError::UnrecordedAuditEvidence =>
            "audit proposal evidence is not recorded; run harness-cli audit --record-evidence"@,
        ProposalDecisionError::DueNotRfc3339 => "outcome due time must be RFC3339"@,
        ProposalDecisionError::TraceCountNotPositive => "outcome trace count must be a positive integer"@,
        ProposalDecisionError::InvalidSchedule => "invalid observation schedule"@,
        ProposalDecisionError::DueNotLater => "outcome due time must be later than acceptance"@,
        ProposalDecisionError::RequiresLegacyReconciliation => "requires legacy reconciliation"@,
        ProposalDecisionError::ConflictingBoundary => "conflicting observation boundary for existing acceptance"@,
        ProposalDecisionError::CannotAccept(s) => "cannot accept a "@ + s@ + " occurrence"@,
        ProposalDecisionError::RejectionReasonDiffers =>
            "a rejected occurrence cannot be rewritten with a different reason"@,
        ProposalDecisionError::AcceptedCannotBeRejected => "an accepted occurrence cannot be rejected"@,
        ProposalDecisionError::CannotReject(s) => "cannot reject a "@ + s@ + " occurrence"@,
        ProposalDecisionError::EmptyOutcome => "outcome observation text must not be empty"@,
    }
}

impl ProposalDecisionError {
    /// The text this refusal is reported with (see `decision_message`).
    pub fn message(&self) -> (r: String)
        ensures
            r@ == decision_message(*self),
    {
        match self {
            ProposalDecisionError::UnknownKey(k) => append_str(append_str("unknown or stale proposal key '".to_owned(), k.as_str()), "'"),
            ProposalDecisionError::BlankReason => "rejection reason must be nonblank".to_owned(),
            ProposalDecisionError::UnrecordedAuditEvidence =>
                "audit proposal evidence is not recorded; run harness-cli audit --record-evidence".to_owned(),
            ProposalDecisionError::DueNotRfc3339 => "outcome due time must be RFC3339".to_owned(),
            ProposalDecisionError::TraceCountNotPositive => "outcome trace count must be a positive integer".to_owned(),
            ProposalDecisionError::InvalidSchedule => "invalid observation schedule".to_owned(),
            ProposalDecisionError::DueNotLater => "outcome due time must be later than acceptance".to_owned(),
            ProposalDecisionError::RequiresLegacyReconciliation => "requires legacy reconciliation".to_owned(),
            ProposalDecisionError::ConflictingBoundary => "conflicting observation boundary for existing acceptance".to_owned(),
            ProposalDecisionError::CannotAccept(s) => append_str(append_str("cannot accept a ".to_owned(), s.as_str()), " occurrence"),
            ProposalDecisionError::RejectionReasonDiffers =>
                "a rejected occurrence cannot be rewritten with a different reason".to_owned(),
            ProposalDecisionError::AcceptedCannotBeRejected => "an accepted occurrence cannot be rejected".to_owned(),
            ProposalDecisionError::CannotReject(s) => append_str(append_str("cannot reject a ".to_owned(), s.as_str()), " occurrence"),
            ProposalDecisionError::EmptyOutcome => "outcome observation text must not be empty".to_owned(),
        }
    }
}

// ---------------------------------------------------------------------------
// Observation schedules
// ---------------------------------------------------------------------------

/// The meaning of an observation schedule text: `manual`, `due:<RFC 3339>`
/// (kept as the UTC rendering) or `traces:<positive count>`, as
/// `(kind, due_at, after_traces)`.
pub open spec fn schedule_outcome(value: Seq<char>) -> Result<(Seq<char>, Option<Seq<char>>, Option<int>), ProposalDecisionError> {
    if value == "manual"@ {
        Ok(("manual"@, None, None))
    } else if has_prefix(value, "due:"@) {
        match rfc3339_in_utc(value.skip(4)) {
            Some(t) => Ok(("due_at"@, Some(t), None)),
            None => Err(ProposalDecisionError::DueNotRfc3339),
        }
    } else if has_prefix(value, "traces:"@) {
        match parsed_i64(value.skip(7)) {
            Some(n) => if n > 0 {
                Ok(("trace_count"@, None, Some(n)))
            } else {
                Err(ProposalDecisionError::TraceCountNotPositive)
            },
            None => Err(ProposalDecisionError::TraceCountNotPositive),
        }
    } else {
        Err(ProposalDecisionError::InvalidSchedule)
    }
}

pub open spec fn schedule_view(s: ObservationSchedule) -> (Seq<char>, Option<Seq<char>>, Option<int>) {
    (s.kind@, opt_view(s.due_at), match s.after_traces {
        Some(n) => Some(n as int),
        None => None,
    })
}

/// Reads an observation schedule (see `schedule_outcome`).
pub fn parse_observation_schedule(value: &str) -> (r: Result<ObservationSchedule, ProposalDecisionError>)
    ensures
        match r {
            Ok(s) => schedule_outcome(value@) == Ok::<(Seq<char>, Option<Seq<char>>, Option<int>), ProposalDecisionError>(schedule_view(s)),
            Err(e) => schedule_outcome(value@) == Err::<(Seq<char>, Option<Seq<char>>, Option<int>), ProposalDecisionError>(e),
        },
{
    proof {
        reveal_strlit("due:");
        reveal_strlit("traces:");
    }
    let v = chars_of(value);
    if eq_str(&v, "manual") {
        return Ok(ObservationSchedule { kind: "manual".to_owned(), due_at: None, after_traces: None });
    }
    if starts_with_str(&v, "due:") {
        let rest = string_of(&slice_of(&v, 4, v.len()));
        assert(rest@ == value@.skip(4));
        return match rfc3339_utc(rest.as_str()) {
            Some(t) => Ok(ObservationSchedule { kind: "due_at".to_owned(), due_at: Some(t), after_traces: None }),
            None => Err(ProposalDecisionError::DueNotRfc3339),
        };
    }
    if starts_with_str(&v, "traces:") {
        let rest = slice_of(&v, 7, v.len());
        assert(rest@ == value@.skip(7));
        return match parse_i64(&rest) {
            Some(n) => if n > 0 {
                Ok(ObservationSchedule { kind: "trace_count".to_owned(), due_at: None, after_traces: Some(n) })
            } else {
                Err(ProposalDecisionError::TraceCountNotPositive)
            },
            None => Err(ProposalDecisionError::TraceCountNotPositive),
        };
    }
    Err(ProposalDecisionError::InvalidSchedule)
}

// ---------------------------------------------------------------------------
// Rejection reasons
// ---------------------------------------------------------------------------

/// The rest of the first line that starts with `p`, if any.
pub open spec fn first_with_prefix(lines: Seq<Seq<char>>, p: Seq<char>) -> Option<Seq<char>>
    decreases lines.len(),
{
    if lines.len() == 0 {
        None
    } else if has_prefix(lines[0], p) {
        Some(lines[0].skip(p.len() as int))
    } else {
        first_with_prefix(lines.drop_first(), p)
    }
}

/// The reason recorded for a rejection: the structured column when present,
/// else the `rejection_reason: ` line of the legacy notes.
pub open spec fn stored_reason(structured: Option<Seq<char>>, notes: Option<Seq<char>>) -> Option<Seq<char>> {
    match structured {
        Some(s) => Some(s),
        None => match notes {
            Some(n) => first_with_prefix(lines_of(n), "rejection_reason: "@),
            None => None,
        },
    }
}

/// The recorded rejection reason of an occurrence (see `stored_reason`).
pub fn stored_rejection_reason(structured: Option<&str>, legacy_notes: Option<&str>) -> (r: Option<String>)
    ensures
        opt_view(r) == stored_reason(
            match structured { Some(s) => Some(s@), None => None },
            match legacy_notes { Some(s) => Some(s@), None => None },
        ),
{
    match structured {
        Some(s) => Some(s.to_owned()),
        None => match legacy_notes {
            None => None,
            Some(notes) => {
                let v = chars_of(notes);
                let lines = split_lines(&v);
                let ghost ls = lines_of(notes@);
                let ghost p = "rejection_reason: "@;
                proof {
                    reveal_strlit("rejection_reason: ");
                }
                let mut i: usize = 0;
                assert(ls.skip(0) == ls);
                while i < lines.len()
                    invariant
                        i <= lines@.len(),
                        views(lines@) == ls,
                        ls == lines_of(notes@),
                        structured is None,
                        legacy_notes == Some(notes),
                        p == "rejection_reason: "@,
                        p.len() == 18,
                        first_with_prefix(ls, p) == first_with_prefix(ls.skip(i as int), p),
                    decreases lines@.len() - i,
                {
                    let line = &lines[i];
                    assert(line@ == ls[i as int]);
                    assert(ls.skip(i as int)[0] == ls[i as int]);
                    if starts_with_str(line, "rejection_reason: ") {
                        let rest = string_of(&slice_of(line, 18, line.len()));
                        assert(rest@ == line@.skip(18));
                        assert(has_prefix(ls.skip(i as int)[0], p));
                        return Some(rest);
                    }
                    assert(ls.skip(i as int).drop_first() == ls.skip(i + 1));
                    i = i + 1;
                }
                None
            },
        },
    }
}

/// The notes stored with a rejection.
pub open spec fn rejection_notes_text(reason: Seq<char>, evidence: Seq<char>) -> Seq<char> {
    "rejection_reason: "@ + reason + "\ncovered_evidence: "@ + evidence
}

/// `rejection_reason: <reason>\ncovered_evidence: <evidence>`.
pub fn rejection_notes(reason: &str, evidence: &str) -> (r: String)
    ensures
        r@ == rejection_notes_text(reason@, evidence@),
{
    let r = append_str("rejection_reason: ".to_owned(), reason);
    let r = append_str(r, "\ncovered_evidence: ");
    append_str(r, evidence)
}

/// The notes stored with an acceptance.
pub fn acceptance_notes(component: &str, confidence: &str, validation_plan: &str) -> (r: String)
    ensures
        r@ == "component: "@ + component@ + "; confidence: "@ + confidence@ + "; validation: "@
            + validation_plan@,
{
    let r = append_str("component: ".to_owned(), component);
    let r = append_str(r, "; confidence: ");
    let r = append_str(r, confidence);
    let r = append_str(r, "; validation: ");
    append_str(r, validation_plan)
}


// ---------------------------------------------------------------------------
// Deciding on a proposal
// ---------------------------------------------------------------------------

/// The index of the first proposal whose key is `key`, or -1.
pub open spec fn index_of_key(ps: Seq<ImprovementProposal>, key: Seq<char>) -> int
    decreases ps.len(),
{
    if ps.len() == 0 {
        -1
    } else if ps.last().key@ == key && index_of_key(ps.drop_last(), key) < 0 {
        ps.len() - 1
    } else {
        index_of_key(ps.drop_last(), key)
    }
}

/// Evidence taken from an audit finding that was never recorded as an
/// evidence episode.
pub open spec fn unrecorded_audit_item(e: ProposalEvidence) -> bool {
    e.source_kind@ == "legacy_snapshot"@ && has_prefix(e.uid@, "audit."@)
}

pub open spec fn has_unrecorded_audit_evidence(p: ImprovementProposal) -> bool {
    exists|i: int| 0 <= i < p.evidence_items@.len() && unrecorded_audit_item(#[trigger] p.evidence_items@[i])
}

/// A decision that has passed the checks that need no stored state.
pub struct PreparedDecision {
    /// Index of the proposal decided on.
    pub index: usize,
    /// The parsed schedule of an acceptance.
    pub schedule: Option<ObservationSchedule>,
    /// The reason of a rejection.
    pub reason: Option<String>,
}

fn find_proposal(proposals: &Vec<ImprovementProposal>, key: &str) -> (r: Option<usize>)
    ensures
        match r {
            Some(i) => i as int == index_of_key(proposals@, key@) && i < proposals@.len(),
            None => index_of_key(proposals@, key@) < 0,
        },
{
    let k: String = key.to_owned();
    let mut i: usize = 0;
    assert(proposals@.take(0) == Seq::<ImprovementProposal>::empty());
    while i < proposals.len()
        invariant
            i <= proposals@.len(),
            k@ == key@,
            index_of_key(proposals@.take(i as int), key@) < 0,
        decreases proposals@.len() - i,
    {
        assert(proposals@.take(i + 1).drop_last() == proposals@.take(i as int));
        if proposals[i].key == k {
            proof {
                lemma_index_of_key_prefix(proposals@, key@, i + 1);
            }
            return Some(i);
        }
        i = i + 1;
    }
    assert(proposals@.take(i as int) == proposals@);
    None
}

proof fn lemma_index_of_key_prefix(ps: Seq<ImprovementProposal>, key: Seq<char>, n: int)
    requires
        0 < n <= ps.len(),
        index_of_key(ps.take(n), key) == n - 1,
    ensures
        index_of_key(ps, key) == n - 1,
    decreases ps.len() - n,
{
    if n < ps.len() {
        assert(ps.drop_last().take(n) == ps.take(n));
        lemma_index_of_key_prefix(ps.drop_last(), key, n);
    } else {
        assert(ps.take(n) == ps);
    }
}

fn has_unrecorded_audit(p: &ImprovementProposal) -> (b: bool)
    ensures
        b == has_unrecorded_audit_evidence(*p),
{
    proof {
        reveal_strlit("legacy_snapshot");
        reveal_strlit("audit.");
    }
    let mut i: usize = 0;
    while i < p.evidence_items.len()
        invariant
            i <= p.evidence_items@.len(),
            forall|j: int| 0 <= j < i ==> !unrecorded_audit_item(#[trigger] p.evidence_items@[j]),
        decreases p.evidence_items@.len() - i,
    {
        let item = &p.evidence_items[i];
        if is_lit(item.source_kind.as_str(), "legacy_snapshot") && starts_with_str(&chars_of(item.uid.as_str()), "audit.") {
            assert(unrecorded_audit_item(p.evidence_items@[i as int]));
            return true;
        }
        i = i + 1;
    }
    false
}

/// Whether `v` is empty or all white space.
pub fn is_blank(v: &str) -> (b: bool)
    ensures
        b == (trim(v@).len() == 0),
{
    let t = trimmed(&chars_of(v));
    t.len() == 0
}

/// The checks of an accept or reject decision that need no stored state, in
/// order: the key must name a current proposal, a rejection reason must not
/// be blank, audit evidence must have been recorded, and an acceptance
/// schedule must parse.
pub fn prepare_decision(proposals: &Vec<ImprovementProposal>, decision: &ProposalDecision) -> (r: Result<PreparedDecision, ProposalDecisionError>)
    requires
        decision is Accept || decision is Reject,
    ensures
        ({
            let key = match *decision { ProposalDecision::Accept { key, .. } => key@, ProposalDecision::Reject { key, .. } => key@, _ => Seq::empty() };
            let i = index_of_key(proposals@, key);
            if i < 0 {
                r matches Err(ProposalDecisionError::UnknownKey(k)) && k@ == key
            } else if decision matches ProposalDecision::Reject { reason, .. } && trim(reason@).len() == 0 {
                r == Err::<PreparedDecision, ProposalDecisionError>(ProposalDecisionError::BlankReason)
            } else if has_unrecorded_audit_evidence(proposals@[i]) {
                r == Err::<PreparedDecision, ProposalDecisionError>(ProposalDecisionError::UnrecordedAuditEvidence)
            } else {
                match *decision {
                    ProposalDecision::Accept { schedule, .. } => match schedule_outcome(schedule@) {
                        Ok(v) => r matches Ok(d) && d.index == i && d.reason is None
                            && (match d.schedule { Some(s) => schedule_view(s) == v, None => false }),
                        Err(e) => r == Err::<PreparedDecision, ProposalDecisionError>(e),
                    },
                    ProposalDecision::Reject { reason, .. } => r matches Ok(d) && d.index == i && d.schedule is None
                        && opt_view(d.reason) == Some(reason@),
                    _ => false,
                }
            }
        }),
{
    let (key, is_accept) = match decision {
        ProposalDecision::Accept { key, .. } => (key, true),
        ProposalDecision::Reject { key, .. } => (key, false),
        _ => { return Err(ProposalDecisionError::InvalidSchedule); },
    };
    let index = match find_proposal(proposals, key.as_str()) {
        Some(i) => i,
        None => { return Err(ProposalDecisionError::UnknownKey(key.clone())); },
    };
    if let ProposalDecision::Reject { reason, .. } = decision {
        if is_blank(reason.as_str()) {
            return Err(ProposalDecisionError::BlankReason);
        }
    }
    if has_unrecorded_audit(&proposals[index]) {
        return Err(ProposalDecisionError::UnrecordedAuditEvidence);
    }
    match decision {
        ProposalDecision::Accept { schedule, .. } => {
            let parsed = parse_observation_schedule(schedule.as_str());
            match parsed {
                Ok(s) => Ok(PreparedDecision { index, schedule: Some(s), reason: None }),
                Err(e) => Err(e),
            }
        },
        ProposalDecision::Reject { reason, .. } => {
            let copy: String = reason.as_str().to_owned();
            Ok(PreparedDecision { index, schedule: None, reason: Some(copy) })
        },
        _ => Err(ProposalDecisionError::InvalidSchedule),
    }
}


/// The checks of a decision that read stored state, in order: the due time of
/// an acceptance must lie in the future, and no unkeyed legacy backlog row
/// may carry the proposal's title.
pub fn check_decision_preconditions(schedule: &Option<ObservationSchedule>, due_is_future: bool, legacy_count: i64) -> (r: Result<(), ProposalDecisionError>)
    ensures
        ({
            let due_refused = match *schedule {
                Some(s) => s.due_at is Some && !due_is_future,
                None => false,
            };
            if due_refused {
                r == Err::<(), ProposalDecisionError>(ProposalDecisionError::DueNotLater)
            } else if legacy_count > 0 {
                r == Err::<(), ProposalDecisionError>(ProposalDecisionError::RequiresLegacyReconciliation)
            } else {
                r == Ok::<(), ProposalDecisionError>(())
            }
        }),
{
    if let Some(s) = schedule {
        if s.due_at.is_some() && !due_is_future {
            return Err(ProposalDecisionError::DueNotLater);
        }
    }
    if legacy_count > 0 {
        return Err(ProposalDecisionError::RequiresLegacyReconciliation);
    }
    Ok(())
}

/// The latest stored occurrence of a proposal key.
#[derive(Debug, Clone, PartialEq, Eq)]
pub struct ExistingOccurrence {
    pub id: i64,
    pub uid: String,
    pub status: String,
    pub schedule_kind: Option<String>,
    pub due_at: Option<String>,
    pub after_traces: Option<i64>,
    pub notes: Option<String>,
    pub rejection_reason: Option<String>,
}

/// What a decision does to the backlog.
#[derive(Debug, Clone, PartialEq, Eq)]
pub enum ProposalAction {
    /// Insert the first occurrence of the key.
    InsertOriginal,
    /// Insert a new occurrence (`regression` or `reconsideration`) after a terminal one.
    InsertOccurrence { occurrence_kind: String, predecessor_uid: String },
    /// Move the proposed occurrence `id` to the decided status.
    UpdateExisting { id: i64, uid: String },
    /// The occurrence `id` already records this decision.
    Unchanged { id: i64 },
}

pub open spec fn is_recurrence(state: Seq<char>) -> bool {
    state == "regression"@ || state == "reconsideration"@
}

/// The stored acceptance has the same observation boundary as `s`.
pub open spec fn same_boundary(e: ExistingOccurrence, s: ObservationSchedule) -> bool {
    &&& opt_view(e.schedule_kind) == Some(s.kind@)
    &&& opt_view(e.due_at) == opt_view(s.due_at)
    &&& e.after_traces == s.after_traces
}

/// What deciding a proposal does (see `decide_proposal_action`), over the
/// lifecycle state, the latest stored occurrence, the schedule of an
/// acceptance and the reason of a rejection.
pub open spec fn action_outcome(
    r: Result<ProposalAction, ProposalDecisionError>,
    lifecycle_state: Seq<char>,
    existing: Option<ExistingOccurrence>,
    schedule: Option<ObservationSchedule>,
    reason: Option<Seq<char>>,
) -> bool {
    match existing {
        None => r == Ok::<ProposalAction, ProposalDecisionError>(ProposalAction::InsertOriginal),
        Some(e) => if is_recurrence(lifecycle_state) {
            r matches Ok(ProposalAction::InsertOccurrence { occurrence_kind, predecessor_uid })
                && occurrence_kind@ == lifecycle_state && predecessor_uid@ == e.uid@
        } else {
            match schedule {
                Some(s) => if e.status@ == "accepted"@ {
                    if same_boundary(e, s) {
                        r == Ok::<ProposalAction, ProposalDecisionError>(ProposalAction::Unchanged { id: e.id })
                    } else {
                        r == Err::<ProposalAction, ProposalDecisionError>(ProposalDecisionError::ConflictingBoundary)
                    }
                } else if e.status@ != "proposed"@ {
                    r matches Err(ProposalDecisionError::CannotAccept(st)) && st@ == e.status@
                } else {
                    r matches Ok(ProposalAction::UpdateExisting { id, uid }) && id == e.id && uid@ == e.uid@
                },
                None => if e.status@ == "rejected"@ {
                    if stored_reason(opt_view(e.rejection_reason), opt_view(e.notes)) == reason {
                        r == Ok::<ProposalAction, ProposalDecisionError>(ProposalAction::Unchanged { id: e.id })
                    } else {
                        r == Err::<ProposalAction, ProposalDecisionError>(ProposalDecisionError::RejectionReasonDiffers)
                    }
                } else if e.status@ == "accepted"@ {
                    r == Err::<ProposalAction, ProposalDecisionError>(ProposalDecisionError::AcceptedCannotBeRejected)
                } else if e.status@ != "proposed"@ {
                    r matches Err(ProposalDecisionError::CannotReject(st)) && st@ == e.status@
                } else {
                    r matches Ok(ProposalAction::UpdateExisting { id, uid }) && id == e.id && uid@ == e.uid@
                },
            }
        },
    }
}

/// Resolves an acceptance (with `schedule`) or a rejection (with `reason`)
/// against the latest stored occurrence of the key.
pub fn decide_proposal_action(
    lifecycle_state: &str,
    existing: &Option<ExistingOccurrence>,
    schedule: &Option<ObservationSchedule>,
    reason: &Option<String>,
) -> (r: Result<ProposalAction, ProposalDecisionError>)
    requires
        schedule is Some || reason is Some,
    ensures
        match *existing {
            None => r == Ok::<ProposalAction, ProposalDecisionError>(ProposalAction::InsertOriginal),
            Some(e) => if is_recurrence(lifecycle_state@) {
                r matches Ok(ProposalAction::InsertOccurrence { occurrence_kind, predecessor_uid })
                    && occurrence_kind@ == lifecycle_state@ && predecessor_uid@ == e.uid@
            } else {
                match *schedule {
                    Some(s) => if e.status@ == "accepted"@ {
                        if same_boundary(e, s) {
                            r == Ok::<ProposalAction, ProposalDecisionError>(ProposalAction::Unchanged { id: e.id })
                        } else {
                            r == Err::<ProposalAction, ProposalDecisionError>(ProposalDecisionError::ConflictingBoundary)
                        }
                    } else if e.status@ != "proposed"@ {
                        r matches Err(ProposalDecisionError::CannotAccept(st)) && st@ == e.status@
                    } else {
                        r matches Ok(ProposalAction::UpdateExisting { id, uid }) && id == e.id && uid@ == e.uid@
                    },
                    None => if e.status@ == "rejected"@ {
                        if stored_reason(opt_view(e.rejection_reason), opt_view(e.notes)) == opt_view(*reason) {
                            r == Ok::<ProposalAction, ProposalDecisionError>(ProposalAction::Unchanged { id: e.id })
                        } else {
                            r == Err::<ProposalAction, ProposalDecisionError>(ProposalDecisionError::RejectionReasonDiffers)
                        }
                    } else if e.status@ == "accepted"@ {
                        r == Err::<ProposalAction, ProposalDecisionError>(ProposalDecisionError::AcceptedCannotBeRejected)
                    } else if e.status@ != "proposed"@ {
                        r matches Err(ProposalDecisionError::CannotReject(st)) && st@ == e.status@
                    } else {
                        r matches Ok(ProposalAction::UpdateExisting { id, uid }) && id == e.id && uid@ == e.uid@
                    },
                }
            },
        },
        action_outcome(r, lifecycle_state@, *existing, *schedule, opt_view(*reason)),
{
    let e = match existing {
        None => { return Ok(ProposalAction::InsertOriginal); },
        Some(e) => e,
    };
    if is_lit(lifecycle_state, "regression") || is_lit(lifecycle_state, "reconsideration") {
        return Ok(ProposalAction::InsertOccurrence {
            occurrence_kind: lifecycle_state.to_owned(),
            predecessor_uid: e.uid.clone(),
        });
    }
    match schedule {
        Some(s) => {
            if is_lit(e.status.as_str(), "accepted") {
                let same_kind = match &e.schedule_kind {
                    Some(k) => *k == s.kind,
                    None => false,
                };
                let same_due = match (&e.due_at, &s.due_at) {
                    (Some(a), Some(b)) => *a == *b,
                    (None, None) => true,
                    _ => false,
                };
                if same_kind && same_due && e.after_traces == s.after_traces {
                    return Ok(ProposalAction::Unchanged { id: e.id });
                }
                return Err(ProposalDecisionError::ConflictingBoundary);
            }
            if !is_lit(e.status.as_str(), "proposed") {
                return Err(ProposalDecisionError::CannotAccept(e.status.clone()));
            }
            Ok(ProposalAction::UpdateExisting { id: e.id, uid: e.uid.clone() })
        },
        None => {
            if is_lit(e.status.as_str(), "rejected") {
                let stored = stored_rejection_reason(
                    match &e.rejection_reason { Some(x) => Some(x.as_str()), None => None },
                    match &e.notes { Some(x) => Some(x.as_str()), None => None },
                );
                let same = match (&stored, reason) {
                    (Some(a), Some(b)) => *a == *b,
                    (None, None) => true,
                    _ => false,
                };
                if same {
                    return Ok(ProposalAction::Unchanged { id: e.id });
                }
                return Err(ProposalDecisionError::RejectionReasonDiffers);
            }
            if is_lit(e.status.as_str(), "accepted") {
                return Err(ProposalDecisionError::AcceptedCannotBeRejected);
            }
            if !is_lit(e.status.as_str(), "proposed") {
                return Err(ProposalDecisionError::CannotReject(e.status.clone()));
            }
            Ok(ProposalAction::UpdateExisting { id: e.id, uid: e.uid.clone() })
        },
    }
}


/// The occurrence an acceptance with `s` leaves in the backlog: accepted,
/// with the observation boundary of `s`.
pub open spec fn stored_acceptance(e: ExistingOccurrence, s: ObservationSchedule) -> bool {
    &&& e.status@ == "accepted"@
    &&& same_boundary(e, s)
}

/// The occurrence a rejection for `reason` leaves in the backlog: rejected,
/// with `reason` in its structured column.
pub open spec fn stored_rejection(e: ExistingOccurrence, reason: Seq<char>) -> bool {
    &&& e.status@ == "rejected"@
    &&& opt_view(e.rejection_reason) == Some(reason)
}

/// Deciding a key again after it was accepted with schedule `s` (and is
/// classified as no recurrence): accepting with `s` again changes nothing;
/// accepting with another observation boundary is refused as a conflict;
/// rejecting it is refused.
pub proof fn lemma_accepting_again(
    lifecycle_state: Seq<char>,
    e: ExistingOccurrence,
    s: ObservationSchedule,
    other: ObservationSchedule,
    reason: Seq<char>,
    same: Result<ProposalAction, ProposalDecisionError>,
    conflicting: Result<ProposalAction, ProposalDecisionError>,
    rejected: Result<ProposalAction, ProposalDecisionError>,
)
    requires
        !is_recurrence(lifecycle_state),
        stored_acceptance(e, s),
        !same_boundary(e, other),
        action_outcome(same, lifecycle_state, Some(e), Some(s), None),
        action_outcome(conflicting, lifecycle_state, Some(e), Some(other), None),
        action_outcome(rejected, lifecycle_state, Some(e), None, Some(reason)),
    ensures
        same == Ok::<ProposalAction, ProposalDecisionError>(ProposalAction::Unchanged { id: e.id }),
        conflicting == Err::<ProposalAction, ProposalDecisionError>(ProposalDecisionError::ConflictingBoundary),
        rejected == Err::<ProposalAction, ProposalDecisionError>(ProposalDecisionError::AcceptedCannotBeRejected),
{
    reveal_strlit("accepted");
    reveal_strlit("rejected");
    assert("accepted"@ != "rejected"@) by {
        assert("accepted"@[0] != "rejected"@[0]);
    }
}

/// Rejecting a key again after it was rejected for `reason` (and is
/// classified as no recurrence): the same reason changes nothing; any other
/// reason is refused as different; accepting it is refused.
pub proof fn lemma_rejecting_again(
    lifecycle_state: Seq<char>,
    e: ExistingOccurrence,
    reason: Seq<char>,
    other: Seq<char>,
    s: ObservationSchedule,
    same: Result<ProposalAction, ProposalDecisionError>,
    different: Result<ProposalAction, ProposalDecisionError>,
    accepted: Result<ProposalAction, ProposalDecisionError>,
)
    requires
        !is_recurrence(lifecycle_state),
        stored_rejection(e, reason),
        other != reason,
        action_outcome(same, lifecycle_state, Some(e), None, Some(reason)),
        action_outcome(different, lifecycle_state, Some(e), None, Some(other)),
        action_outcome(accepted, lifecycle_state, Some(e), Some(s), None),
    ensures
        same == Ok::<ProposalAction, ProposalDecisionError>(ProposalAction::Unchanged { id: e.id }),
        different == Err::<ProposalAction, ProposalDecisionError>(ProposalDecisionError::RejectionReasonDiffers),
        accepted matches Err(ProposalDecisionError::CannotAccept(st)) && st@ == "rejected"@,
{
    reveal_strlit("accepted");
    reveal_strlit("rejected");
    reveal_strlit("proposed");
    assert("accepted"@ != "rejected"@) by {
        assert("accepted"@[0] != "rejected"@[0]);
    }
    assert("proposed"@ != "rejected"@) by {
        assert("proposed"@[0] != "rejected"@[0]);
    }
}

// ---------------------------------------------------------------------------
// Classifying a proposal against the backlog
// ---------------------------------------------------------------------------

/// The latest backlog occurrence of a proposal key, with the story that
/// resolves it.
#[derive(Debug, Clone, PartialEq, Eq)]
pub struct LatestOccurrence {
    pub id: i64,
    pub uid: String,
    pub status: String,
    pub occurrence_kind: Option<String>,
    pub closure_proof: Option<String>,
    pub closed_at: Option<String>,
    pub resolver: Option<String>,
}

/// An evidence item already linked to some occurrence of the key.
#[derive(Debug, Clone, PartialEq, Eq)]
pub struct CoveredEvidence {
    pub source_kind: String,
    pub evidence_uid: String,
}

pub open spec fn is_covered(covered: Seq<CoveredEvidence>, e: ProposalEvidence) -> bool {
    exists|j: int| 0 <= j < covered.len() && covered[j].source_kind@ == e.source_kind@ && covered[j].evidence_uid@ == e.uid@
}

/// Evidence that still counts after a terminal occurrence: not linked to any
/// occurrence, and observed at or after its closure.
pub open spec fn still_open(covered: Seq<CoveredEvidence>, closed_at: Option<Seq<char>>, e: ProposalEvidence) -> bool {
    &&& !is_covered(covered, e)
    &&& match closed_at {
        Some(c) => !lex_lt(e.observed_at@, c),
        None => false,
    }
}

/// The items of `items` that are `still_open`, in order.
pub open spec fn retained(items: Seq<ProposalEvidence>, covered: Seq<CoveredEvidence>, closed_at: Option<Seq<char>>) -> Seq<ProposalEvidence>
    decreases items.len(),
{
    if items.len() == 0 {
        seq![]
    } else {
        let rest = retained(items.drop_last(), covered, closed_at);
        if still_open(covered, closed_at, items.last()) {
            rest.push(items.last())
        } else {
            rest
        }
    }
}

/// After a terminal occurrence closed at `c`, an evidence item is kept
/// exactly when it is one of the proposal's items, no stored link covers it
/// (same source kind and uid), and it was observed at or after `c`; with no
/// closure time nothing is kept. Kept items keep their order.
pub proof fn lemma_retained_is_uncovered_evidence_since_closure(
    items: Seq<ProposalEvidence>,
    covered: Seq<CoveredEvidence>,
    closed_at: Option<Seq<char>>,
)
    ensures
        closed_at is None ==> retained(items, covered, closed_at).len() == 0,
        forall|k: int| 0 <= k < retained(items, covered, closed_at).len() ==> {
            let e = #[trigger] retained(items, covered, closed_at)[k];
            &&& items.contains(e)
            &&& closed_at is Some
            &&& !lex_lt(e.observed_at@, closed_at->0)
            &&& !(exists|j: int| 0 <= j < covered.len() && covered[j].source_kind@ == e.source_kind@
                && covered[j].evidence_uid@ == e.uid@)
        },
        forall|i: int| 0 <= i < items.len() && closed_at is Some && !lex_lt((#[trigger] items[i]).observed_at@, closed_at->0)
            && !(exists|j: int| 0 <= j < covered.len() && covered[j].source_kind@ == items[i].source_kind@
                && covered[j].evidence_uid@ == items[i].uid@)
            ==> retained(items, covered, closed_at).contains(items[i]),
    decreases items.len(),
{
    if items.len() > 0 {
        let d = items.drop_last();
        lemma_retained_is_uncovered_evidence_since_closure(d, covered, closed_at);
        let r = retained(items, covered, closed_at);
        let rd = retained(d, covered, closed_at);
        assert forall|k: int| 0 <= k < r.len() implies {
            let e = #[trigger] r[k];
            &&& items.contains(e)
            &&& closed_at is Some
            &&& !lex_lt(e.observed_at@, closed_at->0)
            &&& !(exists|j: int| 0 <= j < covered.len() && covered[j].source_kind@ == e.source_kind@
                && covered[j].evidence_uid@ == e.uid@)
        } by {
            if k < rd.len() {
                assert(r[k] == rd[k]);
                let m = choose|m: int| 0 <= m < d.len() && d[m] == rd[k];
                assert(items[m] == d[m]);
            } else {
                assert(r[k] == items.last());
                assert(items[items.len() - 1] == items.last());
            }
        }
        assert forall|i: int| 0 <= i < items.len() && closed_at is Some && !lex_lt((#[trigger] items[i]).observed_at@, closed_at->0)
            && !(exists|j: int| 0 <= j < covered.len() && covered[j].source_kind@ == items[i].source_kind@
                && covered[j].evidence_uid@ == items[i].uid@)
            implies r.contains(items[i]) by {
            if i < d.len() {
                assert(d[i] == items[i]);
                assert(rd.contains(d[i]));
                let m = choose|m: int| 0 <= m < rd.len() && rd[m] == d[i];
                assert(r[m] == rd[m]);
            } else {
                assert(items[i] == items.last());
                assert(still_open(covered, closed_at, items.last()));
                assert(r[r.len() - 1] == items.last());
            }
        }
    }
}

pub open spec fn legacy_match_text() -> Seq<char> {
    "plausible unkeyed legacy match; use US-080 reconciliation instead of guessing identity"@
}

pub open spec fn or_text(o: Option<Seq<char>>, default: Seq<char>) -> Seq<char> {
    match o {
        Some(s) => s,
        None => default,
    }
}

/// The explanation of a suppressed proposal.
pub open spec fn suppressed_text(l: LatestOccurrence) -> Seq<char> {
    "backlog #"@ + decimal(l.id as int) + " ("@ + or_text(opt_view(l.occurrence_kind), "original"@)
        + ") closed by resolver "@ + or_text(opt_view(l.resolver), "none"@) + " with proof "@
        + or_text(opt_view(l.closure_proof), "not recorded"@) + "; no uncovered evidence"@
}

/// `proposal` unchanged but for its lifecycle fields.
pub open spec fn same_identity(a: ImprovementProposal, b: ImprovementProposal) -> bool {
    &&& a.key == b.key
    &&& a.title == b.title
    &&& a.component == b.component
    &&& a.evidence == b.evidence
    &&& a.predicted_impact == b.predicted_impact
    &&& a.risk == b.risk
    &&& a.suggested_action == b.suggested_action
    &&& a.validation_plan == b.validation_plan
    &&& a.confidence == b.confidence
}

fn is_still_open(covered: &Vec<CoveredEvidence>, closed_at: &Option<String>, e: &ProposalEvidence) -> (b: bool)
    ensures
        b == still_open(covered@, opt_view(*closed_at), *e),
{
    let mut j: usize = 0;
    while j < covered.len()
        invariant
            j <= covered@.len(),
            forall|k: int| 0 <= k < j ==> !(covered@[k].source_kind@ == e.source_kind@ && covered@[k].evidence_uid@ == e.uid@),
        decreases covered@.len() - j,
    {
        if covered[j].source_kind == e.source_kind && covered[j].evidence_uid == e.uid {
            return false;
        }
        j = j + 1;
    }
    match closed_at {
        Some(c) => !lex_less(&chars_of(e.observed_at.as_str()), &chars_of(c.as_str())),
        None => false,
    }
}

fn retain_open(items: &Vec<ProposalEvidence>, covered: &Vec<CoveredEvidence>, closed_at: &Option<String>) -> (out: Vec<ProposalEvidence>)
    ensures
        out@ == retained(items@, covered@, opt_view(*closed_at)),
{
    let mut out: Vec<ProposalEvidence> = Vec::new();
    let mut i: usize = 0;
    while i < items.len()
        invariant
            i <= items@.len(),
            out@ == retained(items@.take(i as int), covered@, opt_view(*closed_at)),
        decreases items@.len() - i,
    {
        assert(items@.take(i + 1).drop_last() == items@.take(i as int));
        assert(items@.take(i + 1).last() == items@[i as int]);
        if is_still_open(covered, closed_at, &items[i]) {
            out.push(items[i].clone_evidence());
        }
        i = i + 1;
    }
    assert(items@.take(items@.len() as int) == items@);
    out
}

impl ProposalEvidence {
    /// A field-by-field copy.
    pub fn clone_evidence(&self) -> (r: ProposalEvidence)
        ensures
            r == *self,
    {
        ProposalEvidence {
            source_kind: self.source_kind.clone(),
            uid: self.uid.clone(),
            fingerprint: self.fingerprint.clone(),
            observed_at: self.observed_at.clone(),
        }
    }
}

fn or_default(o: &Option<String>, default: &str) -> (r: String)
    ensures
        r@ == or_text(opt_view(*o), default@),
{
    match o {
        Some(s) => s.clone(),
        None => default.to_owned(),
    }
}

/// A latest occurrence that is closed (`implemented` or `rejected`): only
/// then does classification look at which evidence it already covered.
pub open spec fn closed_occurrence(status: Seq<char>) -> bool {
    status == "implemented"@ || status == "rejected"@
}

/// Whether the latest occurrence's status is closed (see
/// `closed_occurrence`), so that its covered evidence is needed.
pub fn is_closed_occurrence(status: &str) -> (b: bool)
    ensures
        b == closed_occurrence(status@),
{
    is_lit(status, "implemented") || is_lit(status, "rejected")
}

/// Classifies `proposal` against the latest occurrence of its key:
/// `new` or `legacy-unclassified` when there is none (depending on whether
/// unkeyed legacy rows carry its title), `pending` / `accepted` while the
/// occurrence is open, and after an `implemented` or `rejected` occurrence
/// the evidence not yet covered decides between `suppressed` and
/// `regression` / `reconsideration`. Any other status is taken as the state.
pub fn classify_proposal(
    proposal: &mut ImprovementProposal,
    latest: &Option<LatestOccurrence>,
    legacy_count: i64,
    covered: &Vec<CoveredEvidence>,
)
    ensures
        same_identity(*final(proposal), *old(proposal)),
        match *latest {
            None => {
                &&& final(proposal).committed_backlog_id == old(proposal).committed_backlog_id
                &&& final(proposal).evidence_items == old(proposal).evidence_items
                &&& final(proposal).predecessor_uid == old(proposal).predecessor_uid
                &&& if legacy_count > 0 {
                    &&& final(proposal).lifecycle_state@ == "legacy-unclassified"@
                    &&& opt_view(final(proposal).lifecycle_explanation) == Some(legacy_match_text())
                } else {
                    &&& final(proposal).lifecycle_state@ == "new"@
                    &&& final(proposal).lifecycle_explanation == old(proposal).lifecycle_explanation
                }
            },
            Some(l) => {
                &&& final(proposal).committed_backlog_id == Some(l.id)
                &&& if l.status@ == "proposed"@ {
                    &&& final(proposal).lifecycle_state@ == "pending"@
                    &&& opt_view(final(proposal).lifecycle_explanation) == Some("existing proposed backlog #"@ + decimal(l.id as int))
                    &&& final(proposal).evidence_items == old(proposal).evidence_items
                    &&& final(proposal).predecessor_uid == old(proposal).predecessor_uid
                } else if l.status@ == "accepted"@ {
                    &&& final(proposal).lifecycle_state@ == "accepted"@
                    &&& opt_view(final(proposal).lifecycle_explanation) == Some("active accepted backlog #"@ + decimal(l.id as int))
                    &&& final(proposal).evidence_items == old(proposal).evidence_items
                    &&& final(proposal).predecessor_uid == old(proposal).predecessor_uid
                } else if l.status@ == "implemented"@ || l.status@ == "rejected"@ {
                    let kept = retained(old(proposal).evidence_items@, covered@, opt_view(l.closed_at));
                    &&& final(proposal).evidence_items@ == kept
                    &&& opt_view(final(proposal).predecessor_uid) == Some(l.uid@)
                    &&& if kept.len() == 0 {
                        &&& final(proposal).lifecycle_state@ == "suppressed"@
                        &&& opt_view(final(proposal).lifecycle_explanation) == Some(suppressed_text(l))
                    } else {
                        &&& final(proposal).lifecycle_state@ == (if l.status@ == "implemented"@ { "regression"@ } else { "reconsideration"@ })
                        &&& opt_view(final(proposal).lifecycle_explanation) == Some(decimal_digits(kept.len())
                            + " uncovered evidence item(s) after terminal backlog #"@ + decimal(l.id as int))
                    }
                } else {
                    &&& final(proposal).lifecycle_state@ == l.status@
                    &&& final(proposal).lifecycle_explanation == old(proposal).lifecycle_explanation
                    &&& final(proposal).evidence_items == old(proposal).evidence_items
                    &&& final(proposal).predecessor_uid == old(proposal).predecessor_uid
                }
            },
        },
{
    let l = match latest {
        None => {
            if legacy_count > 0 {
                proposal.lifecycle_state = "legacy-unclassified".to_owned();
                proposal.lifecycle_explanation = Some(
                    "plausible unkeyed legacy match; use US-080 reconciliation instead of guessing identity".to_owned(),
                );
            } else {
                proposal.lifecycle_state = "new".to_owned();
            }
            return;
        },
        Some(l) => l,
    };
    proposal.committed_backlog_id = Some(l.id);
    let id_text = decimal_i64(l.id);
    if is_lit(l.status.as_str(), "proposed") {
        proposal.lifecycle_state = "pending".to_owned();
        proposal.lifecycle_explanation = Some(append_str("existing proposed backlog #".to_owned(), id_text.as_str()));
    } else if is_lit(l.status.as_str(), "accepted") {
        proposal.lifecycle_state = "accepted".to_owned();
        proposal.lifecycle_explanation = Some(append_str("active accepted backlog #".to_owned(), id_text.as_str()));
    } else if is_lit(l.status.as_str(), "implemented") || is_lit(l.status.as_str(), "rejected") {
        let kept = retain_open(&proposal.evidence_items, covered, &l.closed_at);
        proposal.evidence_items = kept;
        proposal.predecessor_uid = Some(l.uid.clone());
        if proposal.evidence_items.len() == 0 {
            proposal.lifecycle_state = "suppressed".to_owned();
            let t = append_str("backlog #".to_owned(), id_text.as_str());
            let t = append_str(t, " (");
            let t = append_str(t, or_default(&l.occurrence_kind, "original").as_str());
            let t = append_str(t, ") closed by resolver ");
            let t = append_str(t, or_default(&l.resolver, "none").as_str());
            let t = append_str(t, " with proof ");
            let t = append_str(t, or_default(&l.closure_proof, "not recorded").as_str());
            let t = append_str(t, "; no uncovered evidence");
            proposal.lifecycle_explanation = Some(t);
        } else {
            proposal.lifecycle_state = if is_lit(l.status.as_str(), "implemented") {
                "regression".to_owned()
            } else {
                "reconsideration".to_owned()
            };
            let t = decimal_usize(proposal.evidence_items.len());
            let t = append_str(t, " uncovered evidence item(s) after terminal backlog #");
            let t = append_str(t, id_text.as_str());
            proposal.lifecycle_explanation = Some(t);
        }
    } else {
        proposal.lifecycle_state = l.status.clone();
    }
}


/// A rejection reason written into the notes of a rejection is read back
/// unchanged from those notes, provided it holds no line break and does not
/// end in a carriage return.
pub proof fn lemma_rejection_notes_roundtrip(reason: Seq<char>, evidence: Seq<char>)
    requires
        forall|i: int| 0 <= i < reason.len() ==> reason[i] != '\n',
        !(reason.len() > 0 && reason.last() == '\r'),
    ensures
        stored_reason(None, Some(rejection_notes_text(reason, evidence))) == Some(reason),
{
    reveal_strlit("rejection_reason: ");
    reveal_strlit("\ncovered_evidence: ");
    let p = "rejection_reason: "@;
    let n = rejection_notes_text(reason, evidence);
    let k: int = (p.len() + reason.len()) as int;
    assert(n[k] == '\n');
    assert forall|i: int| 0 <= i < k implies n[i] != '\n' by {
        if i < p.len() {
            assert(n[i] == p[i]);
        } else {
            assert(n[i] == reason[i - p.len()]);
        }
    }
    lemma_first_index_of_found(n, '\n', k);
    assert(first_index_of(n, '\n') == k);
    let line = n.take(k);
    assert(line == p + reason);
    assert(strip_cr(line) == line) by {
        if reason.len() > 0 {
            assert(line.last() == reason.last());
        } else {
            assert(line.last() == p.last());
        }
    }
    assert(lines_of(n)[0] == line);
    assert(has_prefix(line, p)) by {
        assert(line.take(p.len() as int) == p);
    }
    assert(line.skip(p.len() as int) == reason);
    assert(lines_of(n).len() > 0);
}

/// The step suggested after an original occurrence is accepted.
pub open spec fn next_step_text() -> Seq<char> {
    "Next: harness-cli intake --type harness_improvement --summary \"<implementation objective>\" --lane normal --story <US-NNN>"@
}

/// The report of a decision on `key` that left or made backlog occurrence
/// `id`: `unchanged` when the occurrence already recorded it, `recurrence`
/// the occurrence kind when a new regression or reconsideration was made.
pub open spec fn decision_report_text(key: Seq<char>, id: int, accepted: bool, unchanged: bool, recurrence: Option<Seq<char>>) -> Seq<char> {
    let n = decimal(id);
    if unchanged {
        "Proposal "@ + key + " unchanged: "@ + (if accepted { "accepted"@ } else { "rejected"@ }) + " backlog #"@ + n + "."@
    } else {
        let verb = if accepted { "Accepted "@ } else { "Rejected "@ };
        match recurrence {
            Some(kind) => verb + kind + " proposal "@ + key + " as backlog #"@ + n + "."@,
            None => if accepted {
                verb + "proposal "@ + key + " as backlog #"@ + n + ". "@ + next_step_text()
            } else {
                verb + "proposal "@ + key + " as backlog #"@ + n + "."@
            },
        }
    }
}

/// The message a decision reports (see `decision_report_text`).
pub fn decision_report(key: &str, id: i64, accepted: bool, unchanged: bool, recurrence: Option<&str>) -> (r: String)
    ensures
        r@ == decision_report_text(key@, id as int, accepted, unchanged, match recurrence {
            Some(k) => Some(k@),
            None => None,
        }),
{
    let n = decimal_i64(id);
    if unchanged {
        let t = append_str(append_str("Proposal ".to_owned(), key), " unchanged: ");
        let t = append_str(t, if accepted { "accepted" } else { "rejected" });
        let t = append_str(append_str(append_str(t, " backlog #"), n.as_str()), ".");
        return t;
    }
    let verb = if accepted { "Accepted " } else { "Rejected " };
    match recurrence {
        Some(kind) => {
            let t = append_str(append_str(verb.to_owned(), kind), " proposal ");
            append_str(append_str(append_str(append_str(t, key), " as backlog #"), n.as_str()), ".")
        },
        None => {
            let t = append_str(append_str(append_str(append_str(verb.to_owned(), "proposal "), key), " as backlog #"), n.as_str());
            if accepted {
                append_str(append_str(t, ". "),
                    "Next: harness-cli intake --type harness_improvement --summary \"<implementation objective>\" --lane normal --story <US-NNN>")
            } else {
                append_str(t, ".")
            }
        },
    }
}

} // verus!
