//! Reconciling legacy improvement rows: backlog rows written before
//! proposals had keys are matched to the generated proposals, and only a
//! row that one proposal and complete evidence identify is given a key.
use vstd::prelude::*;
use crate::text::{append_str, opt_view, trim, trimmed, chars_of, is_lit};
use crate::numbers::{decimal, decimal_usize, decimal_i64};
use crate::proposal::{ImprovementProposal, ProposalEvidence};
use crate::evidence::{sha256_hex, sha256_hex_of, stable_uid, stable_uid_of};
use crate::json::{json_string_array_text, json_string_object_text, member_views, render_string_array, render_string_object, text_views};
use crate::oplog::TraceRecord;

verus! {

/// How a legacy backlog row is classified, with the reason and the changes
/// reconciliation would make.
#[derive(Debug, Clone, PartialEq, Eq)]
pub struct LegacyReconcileRecord {
    pub backlog_id: i64,
    pub classification: String,
    pub proposal_key: Option<String>,
    pub reason: String,
    pub changes: String,
}

/// An immutable snapshot of the trace or intervention that legacy evidence
/// refers to.
#[derive(Debug, Clone, PartialEq, Eq)]
pub struct LegacyEvidenceCapture {
    pub uid: String,
    pub source_kind: String,
    pub source_local_id: i64,
    pub fingerprint: String,
    pub canonical_payload: String,
}

/// A classified legacy row: `backlog_uid` is set exactly for a derivable
/// row, with the evidence to link and the snapshots to capture.
#[derive(Debug)]
pub struct LegacyReconcileCandidate {
    pub record: LegacyReconcileRecord,
    pub backlog_uid: Option<String>,
    pub evidence: Vec<(ProposalEvidence, Option<LegacyEvidenceCapture>)>,
}

pub open spec fn record_is(
    r: LegacyReconcileRecord,
    backlog_id: i64,
    classification: Seq<char>,
    key: Option<Seq<char>>,
    reason: Seq<char>,
    changes: Seq<char>,
) -> bool {
    &&& r.backlog_id == backlog_id
    &&& r.classification@ == classification
    &&& opt_view(r.proposal_key) == key
    &&& r.reason@ == reason
    &&& r.changes@ == changes
}

fn record(backlog_id: i64, classification: &str, key: Option<String>, reason: String, changes: &str) -> (r: LegacyReconcileRecord)
    ensures
        record_is(r, backlog_id, classification@, opt_view(key), reason@, changes@),
{
    LegacyReconcileRecord {
        backlog_id,
        classification: classification.to_owned(),
        proposal_key: key,
        reason,
        changes: changes.to_owned(),
    }
}

// ---------------------------------------------------------------------------
// Matching a row to proposals
// ---------------------------------------------------------------------------

/// The number of proposals titled `title`.
pub open spec fn titled_count(ps: Seq<ImprovementProposal>, title: Seq<char>) -> nat
    decreases ps.len(),
{
    if ps.len() == 0 {
        0
    } else {
        titled_count(ps.drop_last(), title) + if ps.last().title@ == title { 1nat } else { 0nat }
    }
}

/// The last proposal titled `title`, or -1.
pub open spec fn titled_index(ps: Seq<ImprovementProposal>, title: Seq<char>) -> int
    decreases ps.len(),
{
    if ps.len() == 0 {
        -1
    } else if ps.last().title@ == title {
        ps.len() - 1
    } else {
        titled_index(ps.drop_last(), title)
    }
}

/// How many proposals carry a legacy row's title.
#[derive(Debug, Clone, Copy, PartialEq, Eq)]
pub enum LegacyMatch {
    /// None: the row is left to a human.
    NoProposal,
    /// More than one: ambiguous.
    SeveralProposals,
    /// Exactly the proposal at this index.
    One(usize),
}

/// Matches a legacy row titled `title` against the generated proposals.
pub fn legacy_match(proposals: &Vec<ImprovementProposal>, title: &str) -> (r: LegacyMatch)
    ensures
        titled_count(proposals@, title@) == 0 ==> r == LegacyMatch::NoProposal,
        titled_count(proposals@, title@) > 1 ==> r == LegacyMatch::SeveralProposals,
        titled_count(proposals@, title@) == 1 ==> r == LegacyMatch::One(titled_index(proposals@, title@) as usize)
            && 0 <= titled_index(proposals@, title@) < proposals@.len()
            && proposals@[titled_index(proposals@, title@)].title@ == title@,
{
    let mut count: usize = 0;
    let mut found: usize = 0;
    let mut i: usize = 0;
    while i < proposals.len()
        invariant
            i <= proposals@.len(),
            count == titled_count(proposals@.take(i as int), title@),
            count <= i,
            count > 0 ==> found as int == titled_index(proposals@.take(i as int), title@) && found < i,
            count == 0 ==> titled_index(proposals@.take(i as int), title@) == -1,
        decreases proposals@.len() - i,
    {
        let ghost t = proposals@.take(i + 1);
        assert(t.drop_last() == proposals@.take(i as int));
        assert(t.last() == proposals@[i as int]);
        if is_lit(proposals[i].title.as_str(), title) {
            count = count + 1;
            found = i;
        }
        i = i + 1;
    }
    assert(proposals@.take(i as int) == proposals@);
    if count == 0 {
        LegacyMatch::NoProposal
    } else if count > 1 {
        LegacyMatch::SeveralProposals
    } else {
        proof {
            lemma_titled_index(proposals@, title@);
        }
        LegacyMatch::One(found)
    }
}

proof fn lemma_titled_index(ps: Seq<ImprovementProposal>, title: Seq<char>)
    ensures
        titled_index(ps, title) >= 0 ==> titled_index(ps, title) < ps.len()
            && ps[titled_index(ps, title)].title@ == title,
    decreases ps.len(),
{
    if ps.len() > 0 {
        lemma_titled_index(ps.drop_last(), title);
    }
}

pub open spec fn no_proposal_text() -> Seq<char> {
    "no exact generated proposal title matches this historical row"@
}

pub open spec fn several_proposals_text() -> Seq<char> {
    "more than one generated proposal matches this historical row"@
}

pub open spec fn duplicate_text() -> Seq<char> {
    "the issue identity already has another plausible occurrence; human canonical selection is required"@
}

pub open spec fn no_evidence_text() -> Seq<char> {
    "the generated proposal has no exact evidence item to preserve"@
}

/// The candidate for a row that no proposal, or more than one, matches.
pub fn unmatched_candidate(backlog_id: i64, m: LegacyMatch) -> (r: LegacyReconcileCandidate)
    requires
        !(m is One),
    ensures
        m is NoProposal ==> record_is(r.record, backlog_id, "manual"@, None, no_proposal_text(), "none"@),
        m is SeveralProposals ==> record_is(r.record, backlog_id, "ambiguous"@, None, several_proposals_text(), "none"@),
        r.backlog_uid is None,
        r.evidence@.len() == 0,
{
    let rec = match m {
        LegacyMatch::NoProposal => record(backlog_id, "manual", None,
            "no exact generated proposal title matches this historical row".to_owned(), "none"),
        _ => record(backlog_id, "ambiguous", None,
            "more than one generated proposal matches this historical row".to_owned(), "none"),
    };
    LegacyReconcileCandidate { record: rec, backlog_uid: None, evidence: Vec::new() }
}

/// The candidate for a row whose one proposal cannot be reconciled yet:
/// another row carries the title or the key already has an occurrence
/// (`duplicate_candidate`), or the proposal has no evidence (`ambiguous`).
/// `None` when the row may go on to its evidence.
pub fn identity_candidate(backlog_id: i64, proposal: &ImprovementProposal, same_title: usize, keyed_count: i64) -> (r: Option<LegacyReconcileCandidate>)
    ensures
        (same_title > 1 || keyed_count > 0) ==> (r matches Some(c)
            && record_is(c.record, backlog_id, "duplicate_candidate"@, Some(proposal.key@), duplicate_text(), "none"@)
            && c.backlog_uid is None && c.evidence@.len() == 0),
        !(same_title > 1 || keyed_count > 0) && proposal.evidence_items@.len() == 0 ==> (r matches Some(c)
            && record_is(c.record, backlog_id, "ambiguous"@, Some(proposal.key@), no_evidence_text(), "none"@)
            && c.backlog_uid is None && c.evidence@.len() == 0),
        !(same_title > 1 || keyed_count > 0) && proposal.evidence_items@.len() > 0 ==> r is None,
{
    if same_title > 1 || keyed_count > 0 {
        let rec = record(backlog_id, "duplicate_candidate", Some(proposal.key.clone()),
            "the issue identity already has another plausible occurrence; human canonical selection is required".to_owned(), "none");
        return Some(LegacyReconcileCandidate { record: rec, backlog_uid: None, evidence: Vec::new() });
    }
    if proposal.evidence_items.len() == 0 {
        let rec = record(backlog_id, "ambiguous", Some(proposal.key.clone()),
            "the generated proposal has no exact evidence item to preserve".to_owned(), "none");
        return Some(LegacyReconcileCandidate { record: rec, backlog_uid: None, evidence: Vec::new() });
    }
    None
}

pub open spec fn unresolved_text(e: ProposalEvidence) -> Seq<char> {
    "evidence "@ + e.fingerprint@ + " at "@ + e.observed_at@
        + " does not resolve to exactly one UID-less trace or intervention"@
}

/// The candidate for a row whose evidence item `item` resolves to no
/// single snapshot source.
pub fn unresolved_candidate(backlog_id: i64, key: &str, item: &ProposalEvidence) -> (r: LegacyReconcileCandidate)
    ensures
        record_is(r.record, backlog_id, "ambiguous"@, Some(key@), unresolved_text(*item), "none"@),
        r.backlog_uid is None,
        r.evidence@.len() == 0,
{
    let reason = append_str(append_str(append_str(append_str("evidence ".to_owned(), item.fingerprint.as_str()), " at "),
        item.observed_at.as_str()), " does not resolve to exactly one UID-less trace or intervention");
    let rec = record(backlog_id, "ambiguous", Some(key.to_owned()), reason, "none");
    LegacyReconcileCandidate { record: rec, backlog_uid: None, evidence: Vec::new() }
}

// ---------------------------------------------------------------------------
// Snapshots of legacy evidence
// ---------------------------------------------------------------------------

/// The snapshot text of a trace: the object
/// `{"created_at": created_at, "harness_friction": text}` as serde_json renders it.
pub open spec fn trace_snapshot_json(created_at: Seq<char>, text: Seq<char>) -> Seq<char> {
    json_string_object_text(seq![
        ("created_at"@, created_at),
        ("harness_friction"@, text),
    ])
}

/// The snapshot text of an intervention: the object
/// `{"created_at": created_at, "description": description, "type": kind}`
/// as serde_json renders it.
pub open spec fn intervention_snapshot_json(created_at: Seq<char>, description: Seq<char>, kind: Seq<char>) -> Seq<char> {
    json_string_object_text(seq![
        ("created_at"@, created_at),
        ("description"@, description),
        ("type"@, kind),
    ])
}

/// Renders the snapshot object of a trace (see `trace_snapshot_json`).
fn trace_snapshot(created_at: &str, text: &str) -> (r: String)
    ensures
        r@ == trace_snapshot_json(created_at@, text@),
{
    let mut pairs: Vec<(String, String)> = Vec::new();
    pairs.push(("created_at".to_owned(), created_at.to_owned()));
    pairs.push(("harness_friction".to_owned(), text.to_owned()));
    assert(member_views(pairs@) =~= seq![
        ("created_at"@, created_at@),
        ("harness_friction"@, text@),
    ]);
    render_string_object(&pairs)
}

/// Renders the snapshot object of an intervention (see
/// `intervention_snapshot_json`).
fn intervention_snapshot(created_at: &str, description: &str, kind: &str) -> (r: String)
    ensures
        r@ == intervention_snapshot_json(created_at@, description@, kind@),
{
    let mut pairs: Vec<(String, String)> = Vec::new();
    pairs.push(("created_at".to_owned(), created_at.to_owned()));
    pairs.push(("description".to_owned(), description.to_owned()));
    pairs.push(("type".to_owned(), kind.to_owned()));
    assert(member_views(pairs@) =~= seq![
        ("created_at"@, created_at@),
        ("description"@, description@),
        ("type"@, kind@),
    ]);
    render_string_object(&pairs)
}

pub struct CaptureView {
    pub uid: Seq<char>,
    pub source_kind: Seq<char>,
    pub source_local_id: i64,
    pub fingerprint: Seq<char>,
    pub canonical_payload: Seq<char>,
}

pub open spec fn capture_view(c: LegacyEvidenceCapture) -> CaptureView {
    CaptureView {
        uid: c.uid@,
        source_kind: c.source_kind@,
        source_local_id: c.source_local_id,
        fingerprint: c.fingerprint@,
        canonical_payload: c.canonical_payload@,
    }
}

/// The snapshot of a source of `kind` with local id `id` and payload text
/// `payload`.
pub open spec fn snapshot_of(kind: Seq<char>, id: i64, payload: Seq<char>) -> CaptureView {
    let fp = sha256_hex_of(payload);
    CaptureView {
        uid: stable_uid_of("leg"@, kind + seq!['\0'] + fp),
        source_kind: kind,
        source_local_id: id,
        fingerprint: fp,
        canonical_payload: payload,
    }
}

/// The traces `(id, created_at, friction)` whose friction has the
/// fingerprint `fp`, as snapshots.
pub open spec fn trace_matches(traces: Seq<(i64, String, String)>, fp: Seq<char>) -> Seq<CaptureView>
    decreases traces.len(),
{
    if traces.len() == 0 {
        seq![]
    } else {
        let rest = trace_matches(traces.drop_last(), fp);
        let t = traces.last();
        if sha256_hex_of(t.2@) == fp {
            rest.push(snapshot_of("trace"@, t.0, trace_snapshot_json(t.1@, t.2@)))
        } else {
            rest
        }
    }
}

/// The interventions `(id, created_at, type, description)` whose
/// `type: description` text has the fingerprint `fp`, as snapshots.
pub open spec fn intervention_matches(items: Seq<(i64, String, String, String)>, fp: Seq<char>) -> Seq<CaptureView>
    decreases items.len(),
{
    if items.len() == 0 {
        seq![]
    } else {
        let rest = intervention_matches(items.drop_last(), fp);
        let t = items.last();
        if sha256_hex_of(t.2@ + ": "@ + t.3@) == fp {
            rest.push(snapshot_of("intervention"@, t.0, intervention_snapshot_json(t.1@, t.3@, t.2@)))
        } else {
            rest
        }
    }
}

fn snapshot(kind: &str, id: i64, payload: String) -> (r: LegacyEvidenceCapture)
    ensures
        capture_view(r) == snapshot_of(kind@, id, payload@),
{
    let fp = sha256_hex(payload.as_str());
    proof {
        reveal_strlit("\0");
    }
    let material = append_str(append_str(kind.to_owned(), "\0"), fp.as_str());
    assert(material@ =~= kind@ + seq!['\0'] + fp@);
    LegacyEvidenceCapture {
        uid: stable_uid("leg", material.as_str()),
        source_kind: kind.to_owned(),
        source_local_id: id,
        fingerprint: fp,
        canonical_payload: payload,
    }
}

/// The snapshot that the legacy evidence with fingerprint `fingerprint`
/// resolves to, given the UID-less traces and interventions recorded at its
/// time: the one source whose text has that fingerprint, or none when there
/// is no such source or more than one.
pub fn resolve_legacy_evidence_capture(
    fingerprint: &str,
    traces: &Vec<(i64, String, String)>,
    interventions: &Vec<(i64, String, String, String)>,
) -> (r: Option<LegacyEvidenceCapture>)
    ensures
        ({
            let all = trace_matches(traces@, fingerprint@) + intervention_matches(interventions@, fingerprint@);
            match r {
                Some(c) => all.len() == 1 && capture_view(c) == all[0],
                None => all.len() != 1,
            }
        }),
{
    let mut found: Vec<LegacyEvidenceCapture> = Vec::new();
    let mut i: usize = 0;
    assert(found@.map_values(|c: LegacyEvidenceCapture| capture_view(c)) =~= trace_matches(traces@.take(0), fingerprint@));
    while i < traces.len()
        invariant
            i <= traces@.len(),
            found@.map_values(|c: LegacyEvidenceCapture| capture_view(c)) == trace_matches(traces@.take(i as int), fingerprint@),
        decreases traces@.len() - i,
    {
        let ghost t = traces@.take(i + 1);
        assert(t.drop_last() == traces@.take(i as int));
        assert(t.last() == traces@[i as int]);
        let (id, created_at, text) = (traces[i].0, &traces[i].1, &traces[i].2);
        if is_lit(sha256_hex(text.as_str()).as_str(), fingerprint) {
            let c = snapshot("trace", id, trace_snapshot(created_at.as_str(), text.as_str()));
            let ghost before = found@;
            found.push(c);
            assert(found@.map_values(|c: LegacyEvidenceCapture| capture_view(c))
                =~= before.map_values(|c: LegacyEvidenceCapture| capture_view(c)).push(capture_view(c)));
        }
        i = i + 1;
    }
    assert(traces@.take(i as int) == traces@);
    let ghost from_traces = trace_matches(traces@, fingerprint@);
    let mut j: usize = 0;
    assert(intervention_matches(interventions@.take(0), fingerprint@) =~= Seq::<CaptureView>::empty());
    assert(from_traces + Seq::<CaptureView>::empty() =~= from_traces);
    while j < interventions.len()
        invariant
            j <= interventions@.len(),
            found@.map_values(|c: LegacyEvidenceCapture| capture_view(c))
                == from_traces + intervention_matches(interventions@.take(j as int), fingerprint@),
        decreases interventions@.len() - j,
    {
        let ghost t = interventions@.take(j + 1);
        assert(t.drop_last() == interventions@.take(j as int));
        assert(t.last() == interventions@[j as int]);
        let id = interventions[j].0;
        let created_at = &interventions[j].1;
        let kind = &interventions[j].2;
        let description = &interventions[j].3;
        let text = append_str(append_str(kind.clone(), ": "), description.as_str());
        if is_lit(sha256_hex(text.as_str()).as_str(), fingerprint) {
            let c = snapshot("intervention", id, intervention_snapshot(created_at.as_str(), description.as_str(), kind.as_str()));
            let ghost before = found@;
            found.push(c);
            assert(found@.map_values(|c: LegacyEvidenceCapture| capture_view(c))
                =~= before.map_values(|c: LegacyEvidenceCapture| capture_view(c)).push(capture_view(c)));
            assert(intervention_matches(interventions@.take(j + 1), fingerprint@)
                == intervention_matches(interventions@.take(j as int), fingerprint@).push(capture_view(c)));
        }
        j = j + 1;
    }
    assert(interventions@.take(j as int) == interventions@);
    if found.len() == 1 {
        let c = found.remove(0);
        Some(c)
    } else {
        None
    }
}

// ---------------------------------------------------------------------------
// Derivable rows
// ---------------------------------------------------------------------------

/// A terminal legacy row whose outcome text is to be kept as a
/// `legacy_recorded` observation.
pub open spec fn records_outcome(status: Seq<char>, actual_outcome: Option<Seq<char>>) -> bool {
    (status == "implemented"@ || status == "rejected"@) && match actual_outcome {
        Some(o) => trim(o).len() > 0,
        None => false,
    }
}

/// Whether a row with `status` and `actual_outcome` keeps its outcome (see
/// `records_outcome`).
pub fn legacy_outcome_recorded(status: &str, actual_outcome: &Option<String>) -> (b: bool)
    ensures
        b == records_outcome(status@, opt_view(*actual_outcome)),
{
    (is_lit(status, "implemented") || is_lit(status, "rejected")) && match actual_outcome {
        Some(o) => trimmed(chars_of(o.as_str()).as_slice()).len() > 0,
        None => false,
    }
}

pub open spec fn snapshot_count(ev: Seq<(ProposalEvidence, Option<LegacyEvidenceCapture>)>) -> nat
    decreases ev.len(),
{
    if ev.len() == 0 {
        0
    } else {
        snapshot_count(ev.drop_last()) + if ev.last().1 is Some { 1nat } else { 0nat }
    }
}

pub open spec fn derivable_reason(snapshots: nat) -> Seq<char> {
    "one exact generated proposal and complete evidence resolve deterministically ("@ + decimal(snapshots as int)
        + " embedded snapshot(s))"@
}

pub open spec fn derivable_changes(links: nat, observation: bool) -> Seq<char> {
    "uid, proposal_key, occurrence_kind, evidence_links="@ + decimal(links as int)
        + if observation { ", legacy_recorded outcome"@ } else { seq![] }
}

/// The candidate for a row that its one proposal and resolved evidence
/// identify: it gets the proposal's key and the uid minted from it.
pub fn derivable_candidate(
    backlog_id: i64,
    status: &str,
    actual_outcome: &Option<String>,
    key: &str,
    evidence: Vec<(ProposalEvidence, Option<LegacyEvidenceCapture>)>,
) -> (r: LegacyReconcileCandidate)
    ensures
        record_is(r.record, backlog_id, "derivable"@, Some(key@), derivable_reason(snapshot_count(evidence@)),
            derivable_changes(evidence@.len(), records_outcome(status@, opt_view(*actual_outcome)))),
        opt_view(r.backlog_uid) == Some(stable_uid_of("blg"@, key@)),
        r.evidence@ == evidence@,
{
    let mut snapshots: usize = 0;
    let mut i: usize = 0;
    while i < evidence.len()
        invariant
            i <= evidence@.len(),
            snapshots == snapshot_count(evidence@.take(i as int)),
            snapshots <= i,
        decreases evidence@.len() - i,
    {
        assert(evidence@.take(i + 1).drop_last() == evidence@.take(i as int));
        if evidence[i].1.is_some() {
            snapshots = snapshots + 1;
        }
        i = i + 1;
    }
    assert(evidence@.take(i as int) == evidence@);
    let observation = legacy_outcome_recorded(status, actual_outcome);
    let reason = append_str(append_str(
        "one exact generated proposal and complete evidence resolve deterministically (".to_owned(),
        decimal_usize(snapshots).as_str()), " embedded snapshot(s))");
    let mut changes = append_str("uid, proposal_key, occurrence_kind, evidence_links=".to_owned(), decimal_usize(evidence.len()).as_str());
    if observation {
        changes = append_str(changes, ", legacy_recorded outcome");
    } else {
        proof {
            reveal_strlit("");
        }
        assert(changes@ + Seq::<char>::empty() =~= changes@);
    }
    let rec = LegacyReconcileRecord {
        backlog_id,
        classification: "derivable".to_owned(),
        proposal_key: Some(key.to_owned()),
        reason,
        changes,
    };
    LegacyReconcileCandidate { record: rec, backlog_uid: Some(stable_uid("blg", key)), evidence }
}

// ---------------------------------------------------------------------------
// Resolving a derivable row's evidence
// ---------------------------------------------------------------------------

/// The UID-less traces `(id, created_at, harness_friction)` and
/// interventions `(id, created_at, type, description)` recorded at the time
/// of an evidence item.
pub struct LegacySources {
    pub traces: Vec<(i64, String, String)>,
    pub interventions: Vec<(i64, String, String, String)>,
}

/// An evidence item that points at a legacy snapshot, to be captured.
pub open spec fn is_snapshot_item(e: ProposalEvidence) -> bool {
    e.source_kind@ == "legacy_snapshot"@
}

/// Whether `e` points at a legacy snapshot (see `is_snapshot_item`); only
/// such items need their sources looked up.
pub fn is_snapshot_evidence(e: &ProposalEvidence) -> (b: bool)
    ensures
        b == is_snapshot_item(*e),
{
    is_lit(e.source_kind.as_str(), "legacy_snapshot")
}

/// The snapshots among `src` whose fingerprint is the item's.
pub open spec fn source_matches(e: ProposalEvidence, src: LegacySources) -> Seq<CaptureView> {
    trace_matches(src.traces@, e.fingerprint@) + intervention_matches(src.interventions@, e.fingerprint@)
}

/// An item resolves when it needs no snapshot or exactly one source matches.
pub open spec fn item_resolves(e: ProposalEvidence, src: LegacySources) -> bool {
    !is_snapshot_item(e) || source_matches(e, src).len() == 1
}

/// The index of the first item that does not resolve, or -1.
pub open spec fn first_unresolved(s: Seq<(ProposalEvidence, LegacySources)>) -> int
    decreases s.len(),
{
    if s.len() == 0 {
        -1
    } else {
        let r = first_unresolved(s.drop_last());
        if r < 0 && !item_resolves(s.last().0, s.last().1) {
            s.len() - 1
        } else {
            r
        }
    }
}

/// The link to make for one resolved item: the item itself, with the
/// snapshot of its single matching source when it needs one.
pub open spec fn resolved_link(item: (ProposalEvidence, LegacySources), link: (ProposalEvidence, Option<LegacyEvidenceCapture>)) -> bool {
    &&& link.0 == item.0
    &&& match link.1 {
        Some(c) => is_snapshot_item(item.0) && capture_view(c) == source_matches(item.0, item.1)[0],
        None => !is_snapshot_item(item.0),
    }
}

proof fn lemma_first_unresolved_prefix(s: Seq<(ProposalEvidence, LegacySources)>, n: int, m: int)
    requires
        0 < n <= m <= s.len(),
        first_unresolved(s.take(n)) == n - 1,
    ensures
        first_unresolved(s.take(m)) == n - 1,
    decreases m - n,
{
    if m > n {
        lemma_first_unresolved_prefix(s, n, m - 1);
        assert(s.take(m).drop_last() =~= s.take(m - 1));
    }
}

/// The candidate for a row matched to the proposal `key`, given each of the
/// proposal's evidence items with the sources recorded at its time: the
/// first item that does not resolve makes the row ambiguous; otherwise the
/// row is derivable, with one link per item.
pub fn legacy_evidence_candidate(
    backlog_id: i64,
    status: &str,
    actual_outcome: &Option<String>,
    key: &str,
    evidence: &Vec<(ProposalEvidence, LegacySources)>,
) -> (r: LegacyReconcileCandidate)
    ensures
        first_unresolved(evidence@) >= 0 ==> {
            &&& record_is(r.record, backlog_id, "ambiguous"@, Some(key@),
                unresolved_text(evidence@[first_unresolved(evidence@)].0), "none"@)
            &&& r.backlog_uid is None
            &&& r.evidence@.len() == 0
        },
        first_unresolved(evidence@) < 0 ==> {
            &&& record_is(r.record, backlog_id, "derivable"@, Some(key@), derivable_reason(snapshot_count(r.evidence@)),
                derivable_changes(evidence@.len(), records_outcome(status@, opt_view(*actual_outcome))))
            &&& opt_view(r.backlog_uid) == Some(stable_uid_of("blg"@, key@))
            &&& r.evidence@.len() == evidence@.len()
            &&& forall|k: int| 0 <= k < evidence@.len() ==> resolved_link(evidence@[k], #[trigger] r.evidence@[k])
        },
{
    let mut links: Vec<(ProposalEvidence, Option<LegacyEvidenceCapture>)> = Vec::new();
    let mut i: usize = 0;
    while i < evidence.len()
        invariant
            i <= evidence@.len(),
            first_unresolved(evidence@.take(i as int)) < 0,
            links@.len() == i,
            forall|k: int| 0 <= k < i ==> resolved_link(evidence@[k], #[trigger] links@[k]),
        decreases evidence@.len() - i,
    {
        let ghost t = evidence@.take(i + 1);
        assert(t.drop_last() =~= evidence@.take(i as int));
        assert(t.last() == evidence@[i as int]);
        let item = &evidence[i].0;
        if !is_snapshot_evidence(item) {
            links.push((item.clone_evidence(), None));
        } else {
            let sources = &evidence[i].1;
            match resolve_legacy_evidence_capture(item.fingerprint.as_str(), &sources.traces, &sources.interventions) {
                Some(capture) => {
                    links.push((item.clone_evidence(), Some(capture)));
                },
                None => {
                    proof {
                        lemma_first_unresolved_prefix(evidence@, i + 1, evidence@.len() as int);
                        assert(evidence@.take(evidence@.len() as int) =~= evidence@);
                    }
                    return unresolved_candidate(backlog_id, key, item);
                },
            }
        }
        i = i + 1;
    }
    assert(evidence@.take(i as int) =~= evidence@);
    derivable_candidate(backlog_id, status, actual_outcome, key, links)
}

/// The number of candidates that reconciliation would change.
pub fn changed_count(candidates: &Vec<LegacyReconcileCandidate>) -> (n: usize)
    ensures
        n == candidates@.filter(|c: LegacyReconcileCandidate| c.backlog_uid is Some).len(),
{
    let mut n: usize = 0;
    let mut i: usize = 0;
    while i < candidates.len()
        invariant
            i <= candidates@.len(),
            n == candidates@.take(i as int).filter(|c: LegacyReconcileCandidate| c.backlog_uid is Some).len(),
            n <= i,
        decreases candidates@.len() - i,
    {
        assert(candidates@.take(i + 1).drop_last() == candidates@.take(i as int));
        reveal(Seq::filter);
        if candidates[i].backlog_uid.is_some() {
            n = n + 1;
        }
        i = i + 1;
    }
    assert(candidates@.take(i as int) == candidates@);
    n
}

/// The refusal when a row changed between classification and reconciliation.
pub fn changed_after_classification(backlog_id: i64) -> (e: crate::errors::HarnessError)
    ensures
        e matches crate::errors::HarnessError::LegacyReconciliation(m)
            && m@ == "backlog #"@ + decimal(backlog_id as int) + " changed after classification; retry reconciliation"@,
{
    crate::errors::HarnessError::LegacyReconciliation(append_str(
        append_str("backlog #".to_owned(), decimal_i64(backlog_id).as_str()),
        " changed after classification; retry reconciliation",
    ))
}

/// The summary of the trace that records a reconciliation of `applied` rows.
pub fn reconciliation_summary(applied: usize) -> (r: String)
    ensures
        r@ == "Reconciled "@ + decimal(applied as int) + " legacy improvement row(s)"@,
{
    append_str(append_str("Reconciled ".to_owned(), decimal_usize(applied).as_str()), " legacy improvement row(s)")
}

/// The uid of the `legacy_recorded` outcome observation of `backlog_uid`.
pub fn legacy_observation_uid(backlog_uid: &str) -> (r: String)
    ensures
        r@ == stable_uid_of("obs"@, backlog_uid@ + seq!['\0'] + "legacy"@),
{
    proof {
        reveal_strlit("\0");
    }
    let material = append_str(append_str(backlog_uid.to_owned(), "\0"), "legacy");
    assert(material@ =~= backlog_uid@ + seq!['\0'] + "legacy"@);
    stable_uid("obs", material.as_str())
}

/// The number of titles in `titles` equal to `title`.
pub open spec fn title_count(titles: Seq<Seq<char>>, title: Seq<char>) -> nat
    decreases titles.len(),
{
    if titles.len() == 0 {
        0
    } else {
        title_count(titles.drop_last(), title) + if titles.last() == title { 1nat } else { 0nat }
    }
}

/// How many legacy rows, titled `titles`, carry `title`.
pub fn same_title_count(titles: &Vec<String>, title: &str) -> (n: usize)
    ensures
        n == title_count(titles@.map_values(|t: String| t@), title@),
{
    let ghost all = titles@.map_values(|t: String| t@);
    let mut n: usize = 0;
    let mut i: usize = 0;
    while i < titles.len()
        invariant
            i <= titles@.len(),
            all == titles@.map_values(|t: String| t@),
            n == title_count(all.take(i as int), title@),
            n <= i,
        decreases titles@.len() - i,
    {
        assert(all.take(i + 1).drop_last() == all.take(i as int));
        assert(all.take(i + 1).last() == titles@[i as int]@);
        if is_lit(titles[i].as_str(), title) {
            n = n + 1;
        }
        i = i + 1;
    }
    assert(all.take(i as int) == all);
    n
}

// ---------------------------------------------------------------------------
// The trace that records a reconciliation
// ---------------------------------------------------------------------------

/// What a reconciliation that applied changes records as its trace: the
/// summary, the agent `harness-cli`, the three actions and the one file area
/// it touched as JSON arrays, the outcome `completed`, and a note on the
/// rows it left unchanged.
pub open spec fn is_reconciliation_trace(r: TraceRecord, summary: Seq<char>) -> bool {
    &&& r.task_summary@ == summary
    &&& r.story_id is None
    &&& opt_view(r.agent) == Some("harness-cli"@)
    &&& opt_view(r.actions_taken) == Some(json_string_array_text(seq![
        "classified legacy improvements"@,
        "backfilled derivable lifecycle identity"@,
        "captured immutable legacy evidence"@,
    ]))
    &&& r.files_read is None
    &&& opt_view(r.files_changed) == Some(json_string_array_text(seq!["harness durable legacy lifecycle metadata"@]))
    &&& r.decisions_made is None
    &&& r.errors is None
    &&& opt_view(r.outcome) == Some("completed"@)
    &&& r.duration_seconds is None
    &&& r.token_estimate is None
    &&& r.harness_friction is None
    &&& opt_view(r.notes) == Some("Manual, ambiguous, and duplicate-candidate rows were left unchanged."@)
}

/// The trace of a reconciliation summarised as `summary` (see
/// `is_reconciliation_trace`).
pub fn reconciliation_trace(summary: String) -> (r: TraceRecord)
    ensures
        is_reconciliation_trace(r, summary@),
{
    let mut actions: Vec<String> = Vec::new();
    actions.push("classified legacy improvements".to_owned());
    actions.push("backfilled derivable lifecycle identity".to_owned());
    actions.push("captured immutable legacy evidence".to_owned());
    assert(text_views(actions@) =~= seq![
        "classified legacy improvements"@,
        "backfilled derivable lifecycle identity"@,
        "captured immutable legacy evidence"@,
    ]);
    let mut files: Vec<String> = Vec::new();
    files.push("harness durable legacy lifecycle metadata".to_owned());
    assert(text_views(files@) =~= seq!["harness durable legacy lifecycle metadata"@]);
    TraceRecord {
        task_summary: summary,
        story_id: None,
        agent: Some("harness-cli".to_owned()),
        actions_taken: Some(render_string_array(&actions)),
        files_read: None,
        files_changed: Some(render_string_array(&files)),
        decisions_made: None,
        errors: None,
        outcome: Some("completed".to_owned()),
        duration_seconds: None,
        token_estimate: None,
        harness_friction: None,
        notes: Some("Manual, ambiguous, and duplicate-candidate rows were left unchanged.".to_owned()),
    }
}

// ---------------------------------------------------------------------------
// Planning a reconciliation run
// ---------------------------------------------------------------------------

/// The positions of the candidates that a run keys (the derivable ones).
pub open spec fn keyed_positions(cs: Seq<LegacyReconcileCandidate>) -> Seq<int>
    decreases cs.len(),
{
    if cs.len() == 0 {
        seq![]
    } else if cs.last().backlog_uid is Some {
        keyed_positions(cs.drop_last()).push(cs.len() - 1)
    } else {
        keyed_positions(cs.drop_last())
    }
}

/// What a run does with its classified candidates.
pub struct ReconcilePlan {
    /// Whether the run writes.
    pub applied: bool,
    /// How many rows it reports as changed.
    pub changed: usize,
    /// The candidates whose rows it keys, in order.
    pub to_key: Vec<usize>,
    /// Whether it records a trace of the run.
    pub records_trace: bool,
}

/// `p` is the plan of a run over `cs`, writing exactly when `apply`.
pub open spec fn plan_is(p: ReconcilePlan, cs: Seq<LegacyReconcileCandidate>, apply: bool) -> bool {
    &&& p.applied == apply
    &&& p.changed == keyed_positions(cs).len()
    &&& p.to_key@.map_values(|i: usize| i as int) == if apply { keyed_positions(cs) } else { Seq::<int>::empty() }
    &&& p.records_trace == (apply && p.changed > 0)
}

/// Plans a reconciliation run: a dry run reports how many rows it would
/// change and writes nothing; an applying run keys each derivable row, in
/// order, and records a trace when it changed any.
pub fn plan_reconciliation(candidates: &Vec<LegacyReconcileCandidate>, apply: bool) -> (p: ReconcilePlan)
    ensures
        plan_is(p, candidates@, apply),
{
    let mut to_key: Vec<usize> = Vec::new();
    let mut i: usize = 0;
    while i < candidates.len()
        invariant
            i <= candidates@.len(),
            to_key@.map_values(|k: usize| k as int) == keyed_positions(candidates@.take(i as int)),
            to_key@.len() <= i,
        decreases candidates@.len() - i,
    {
        let ghost t = candidates@.take(i + 1);
        assert(t.drop_last() =~= candidates@.take(i as int));
        assert(t.last() == candidates@[i as int]);
        if candidates[i].backlog_uid.is_some() {
            let ghost before = to_key@;
            to_key.push(i);
            assert(to_key@.map_values(|k: usize| k as int) =~= before.map_values(|k: usize| k as int).push(i as int));
        }
        i = i + 1;
    }
    assert(candidates@.take(i as int) =~= candidates@);
    let changed = to_key.len();
    if apply {
        ReconcilePlan { applied: true, changed, to_key, records_trace: changed > 0 }
    } else {
        let none: Vec<usize> = Vec::new();
        assert(none@.map_values(|k: usize| k as int) =~= Seq::<int>::empty());
        ReconcilePlan { applied: false, changed, to_key: none, records_trace: false }
    }
}

/// A dry run and an applying run over the same classified rows: the dry
/// run keys no row and records no trace, and reports as changed exactly the
/// number of rows the applying run keys.
pub proof fn lemma_dry_run_matches_apply(
    cs: Seq<LegacyReconcileCandidate>,
    dry: ReconcilePlan,
    wet: ReconcilePlan,
)
    requires
        plan_is(dry, cs, false),
        plan_is(wet, cs, true),
    ensures
        !dry.applied && dry.to_key@.len() == 0 && !dry.records_trace,
        dry.changed == wet.changed,
        wet.changed == wet.to_key@.len(),
{
    assert(dry.to_key@.map_values(|i: usize| i as int).len() == 0);
    assert(wet.to_key@.map_values(|i: usize| i as int).len() == wet.to_key@.len());
}

// ---------------------------------------------------------------------------
// A second run after an applying one
// ---------------------------------------------------------------------------

/// What decides whether a legacy row is derivable: its title, the key of the
/// one generated proposal whose title it carries (`legacy_match`), and
/// whether that proposal has evidence and every item resolves
/// (`legacy_evidence_candidate`).
pub struct LegacyRowFacts {
    pub title: Seq<char>,
    pub matched_key: Option<Seq<char>>,
    pub evidence_resolves: bool,
}

pub open spec fn titles_of(rows: Seq<LegacyRowFacts>) -> Seq<Seq<char>> {
    rows.map_values(|r: LegacyRowFacts| r.title)
}

/// A row among the legacy rows `rows` is derivable when it matches one
/// proposal, no other legacy row carries its title, no backlog row has the
/// proposal's key yet (`keyed`: the keys in use), and its evidence resolves
/// (see `identity_candidate` and `legacy_evidence_candidate`).
pub open spec fn derivable_row(rows: Seq<LegacyRowFacts>, keyed: Set<Seq<char>>, r: LegacyRowFacts) -> bool {
    &&& r.matched_key is Some
    &&& title_count(titles_of(rows), r.title) == 1
    &&& !keyed.contains(r.matched_key->0)
    &&& r.evidence_resolves
}

/// The rows of `prefix` that an applying run over `rows` leaves unkeyed,
/// in order.
pub open spec fn left_unkeyed(prefix: Seq<LegacyRowFacts>, rows: Seq<LegacyRowFacts>, keyed: Set<Seq<char>>) -> Seq<LegacyRowFacts>
    decreases prefix.len(),
{
    if prefix.len() == 0 {
        seq![]
    } else if derivable_row(rows, keyed, prefix.last()) {
        left_unkeyed(prefix.drop_last(), rows, keyed)
    } else {
        left_unkeyed(prefix.drop_last(), rows, keyed).push(prefix.last())
    }
}

/// The keys in use after an applying run over `rows`.
pub open spec fn keyed_after(rows: Seq<LegacyRowFacts>, keyed: Set<Seq<char>>) -> Set<Seq<char>> {
    Set::new(|k: Seq<char>| keyed.contains(k)
        || exists|i: int| 0 <= i < rows.len() && derivable_row(rows, keyed, rows[i]) && rows[i].matched_key == Some(k))
}

proof fn lemma_left_members(prefix: Seq<LegacyRowFacts>, rows: Seq<LegacyRowFacts>, keyed: Set<Seq<char>>)
    ensures
        forall|j: int| 0 <= j < left_unkeyed(prefix, rows, keyed).len() ==>
            prefix.contains(#[trigger] left_unkeyed(prefix, rows, keyed)[j])
            && !derivable_row(rows, keyed, left_unkeyed(prefix, rows, keyed)[j]),
    decreases prefix.len(),
{
    if prefix.len() > 0 {
        let p2 = prefix.drop_last();
        lemma_left_members(p2, rows, keyed);
        let l2 = left_unkeyed(p2, rows, keyed);
        let l = left_unkeyed(prefix, rows, keyed);
        assert forall|j: int| 0 <= j < l.len() implies prefix.contains(#[trigger] l[j]) && !derivable_row(rows, keyed, l[j]) by {
            if j < l2.len() {
                assert(l[j] == l2[j]);
                let k = choose|k: int| 0 <= k < p2.len() && p2[k] == l2[j];
                assert(prefix[k] == p2[k]);
            } else {
                assert(l[j] == prefix.last());
                assert(prefix[prefix.len() - 1] == prefix.last());
            }
        }
    }
}

proof fn lemma_titles_drop_last(rows: Seq<LegacyRowFacts>)
    requires
        rows.len() > 0,
    ensures
        titles_of(rows).drop_last() == titles_of(rows.drop_last()),
        titles_of(rows).last() == rows.last().title,
{
    assert(titles_of(rows).drop_last() =~= titles_of(rows.drop_last()));
}

/// Leaving out only rows of other titles keeps the count of `t`.
proof fn lemma_left_keeps_title(prefix: Seq<LegacyRowFacts>, rows: Seq<LegacyRowFacts>, keyed: Set<Seq<char>>, t: Seq<char>)
    requires
        forall|i: int| 0 <= i < prefix.len() && (#[trigger] prefix[i]).title == t ==> !derivable_row(rows, keyed, prefix[i]),
    ensures
        title_count(titles_of(left_unkeyed(prefix, rows, keyed)), t) == title_count(titles_of(prefix), t),
    decreases prefix.len(),
{
    if prefix.len() > 0 {
        let p2 = prefix.drop_last();
        assert forall|i: int| 0 <= i < p2.len() && (#[trigger] p2[i]).title == t implies !derivable_row(rows, keyed, p2[i]) by {
            assert(p2[i] == prefix[i]);
        }
        lemma_left_keeps_title(p2, rows, keyed, t);
        lemma_titles_drop_last(prefix);
        let l = left_unkeyed(prefix, rows, keyed);
        let l2 = left_unkeyed(p2, rows, keyed);
        assert(prefix.last() == prefix[prefix.len() - 1]);
        if derivable_row(rows, keyed, prefix.last()) {
            assert(prefix.last().title != t);
        } else {
            assert(l == l2.push(prefix.last()));
            assert(l.drop_last() =~= l2);
            lemma_titles_drop_last(l);
        }
    }
}

proof fn lemma_title_counted(rows: Seq<LegacyRowFacts>, j: int)
    requires
        0 <= j < rows.len(),
    ensures
        title_count(titles_of(rows), rows[j].title) >= 1,
    decreases rows.len(),
{
    lemma_titles_drop_last(rows);
    if j < rows.len() - 1 {
        lemma_title_counted(rows.drop_last(), j);
        assert(rows.drop_last()[j] == rows[j]);
    }
}

/// A second applying run, over the legacy rows that the first left unkeyed
/// and with the keys it put in use, finds no derivable row, so it keys
/// nothing and reports no change: the proposals and the evidence sources
/// are taken as the first run saw them.
pub proof fn lemma_second_apply_finds_nothing(rows: Seq<LegacyRowFacts>, keyed: Set<Seq<char>>)
    ensures
        forall|j: int| 0 <= j < left_unkeyed(rows, rows, keyed).len() ==>
            !derivable_row(left_unkeyed(rows, rows, keyed), keyed_after(rows, keyed), #[trigger] left_unkeyed(rows, rows, keyed)[j]),
{
    let left = left_unkeyed(rows, rows, keyed);
    let after = keyed_after(rows, keyed);
    lemma_left_members(rows, rows, keyed);
    assert forall|j: int| 0 <= j < left.len() implies !derivable_row(left, after, #[trigger] left[j]) by {
        let x = left[j];
        assert(rows.contains(x) && !derivable_row(rows, keyed, x));
        if derivable_row(left, after, x) {
            let k = x.matched_key->0;
            assert(!after.contains(k));
            assert(!keyed.contains(k));
            let i = choose|i: int| 0 <= i < rows.len() && rows[i] == x;
            lemma_title_counted(rows, i);
            assert(title_count(titles_of(rows), x.title) != 1);
            assert forall|m: int| 0 <= m < rows.len() && (#[trigger] rows[m]).title == x.title implies !derivable_row(rows, keyed, rows[m]) by {
            }
            lemma_left_keeps_title(rows, rows, keyed, x.title);
        }
    }
}

} // verus!
