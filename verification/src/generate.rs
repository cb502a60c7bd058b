//! Generating improvement proposals from recurring friction, recurring
//! interventions and audit findings, and ordering them by key.
use vstd::prelude::*;
use crate::text::{append_str, chars_of, is_lit, lemma_lex_irreflexive, lemma_lex_transitive, lex_less, lex_lt, opt_view};
use crate::numbers::{decimal, decimal_i64, decimal_usize};
use crate::proposal::{ImprovementProposal, ProposalEvidence, ProposalDecision};
use crate::evidence::{
    ProposalEvidenceGroup, confidence_for_count, sha256_hex, sha256_hex_of, short_title, title_of,
};
use crate::audit::audit_finding_key;

verus! {

/// The key of a generated proposal: the namespace, the version and the
/// first 16 hex digits of the digest of the issue text.
pub open spec fn proposal_key_of(namespace: Seq<char>, version: i64, issue: Seq<char>) -> Seq<char> {
    namespace + ":v"@ + decimal(version as int) + ":"@ + sha256_hex_of(issue).take(16)
}

/// The key of the proposal for `issue` (see `proposal_key_of`).
pub fn proposal_key(namespace: &str, version: i64, issue: &str) -> (r: String)
    ensures
        r@ == proposal_key_of(namespace@, version, issue@),
{
    let digest = chars_of(sha256_hex(issue).as_str());
    let head = crate::text::string_of(crate::text::slice_of(digest.as_slice(), 0, 16).as_slice());
    append_str(append_str(append_str(append_str(namespace.to_owned(), ":v"), decimal_i64(version).as_str()), ":"), head.as_str())
}

/// The issue text of a proposal: its component, NUL, its title.
pub open spec fn issue_of(component: Seq<char>, title: Seq<char>) -> Seq<char> {
    component + seq!['\0'] + title
}

fn issue(component: &str, title: &str) -> (r: String)
    ensures
        r@ == issue_of(component@, title@),
{
    proof {
        reveal_strlit("\0");
    }
    let r = append_str(append_str(component.to_owned(), "\0"), title);
    assert(r@ =~= issue_of(component@, title@));
    r
}

/// The fields of a generated proposal that depend on what it was generated
/// from.
pub open spec fn generated(
    p: ImprovementProposal,
    title: Seq<char>,
    component: Seq<char>,
    evidence: Seq<char>,
    predicted_impact: Seq<char>,
    risk: Seq<char>,
    suggested_action: Seq<char>,
    validation_plan: Seq<char>,
    confidence: Seq<char>,
    items: Seq<ProposalEvidence>,
) -> bool {
    &&& p.key@ == proposal_key_of("improvement.proposal"@, 1, issue_of(component, title))
    &&& p.lifecycle_state@ == "pending"@
    &&& p.title@ == title
    &&& p.component@ == component
    &&& p.evidence@ == evidence
    &&& p.predicted_impact@ == predicted_impact
    &&& p.risk@ == risk
    &&& p.suggested_action@ == suggested_action
    &&& p.validation_plan@ == validation_plan
    &&& p.confidence@ == confidence
    &&& p.committed_backlog_id is None
    &&& p.evidence_items@ == items
    &&& p.predecessor_uid is None
    &&& p.lifecycle_explanation is None
}

#[verifier::rlimit(30)]
fn proposal(
    title: String,
    component: &str,
    evidence: String,
    predicted_impact: &str,
    risk: &str,
    suggested_action: &str,
    validation_plan: &str,
    confidence: String,
    items: Vec<ProposalEvidence>,
) -> (p: ImprovementProposal)
    ensures
        generated(p, title@, component@, evidence@, predicted_impact@, risk@, suggested_action@, validation_plan@,
            confidence@, items@),
{
    let key = proposal_key("improvement.proposal", 1, issue(component, title.as_str()).as_str());
    ImprovementProposal {
        key,
        lifecycle_state: "pending".to_owned(),
        title,
        component: component.to_owned(),
        evidence,
        predicted_impact: predicted_impact.to_owned(),
        risk: risk.to_owned(),
        suggested_action: suggested_action.to_owned(),
        validation_plan: validation_plan.to_owned(),
        confidence,
        committed_backlog_id: None,
        evidence_items: items,
        predecessor_uid: None,
        lifecycle_explanation: None,
    }
}

/// The proposal for friction that traces keep recording.
pub fn friction_proposal(group: ProposalEvidenceGroup) -> (p: ImprovementProposal)
    ensures
        generated(p,
            "Reduce repeated friction: "@ + title_of(group.text@),
            "Failure attribution"@,
            decimal(group.count as int) + " traces recorded similar friction: "@ + group.text@,
            "Fewer repeated harness friction entries for similar tasks."@,
            "normal"@,
            "Update the relevant Harness docs, templates, or CLI guidance for this friction pattern."@,
            "Review the next five related traces and compare friction frequency."@,
            if group.count >= 3 { "high"@ } else { "medium"@ },
            group.evidence@),
{
    let title = append_str("Reduce repeated friction: ".to_owned(), short_title(group.text.as_str()).as_str());
    let evidence = append_str(append_str(decimal_usize(group.count), " traces recorded similar friction: "), group.text.as_str());
    proposal(
        title,
        "Failure attribution",
        evidence,
        "Fewer repeated harness friction entries for similar tasks.",
        "normal",
        "Update the relevant Harness docs, templates, or CLI guidance for this friction pattern.",
        "Review the next five related traces and compare friction frequency.",
        confidence_for_count(group.count),
        group.evidence,
    )
}

/// The proposal for an intervention that keeps being recorded.
pub fn intervention_proposal(group: ProposalEvidenceGroup) -> (p: ImprovementProposal)
    ensures
        generated(p,
            "Address repeated intervention: "@ + title_of(group.text@),
            "Intervention recording"@,
            decimal(group.count as int) + " interventions share the pattern: "@ + group.text@,
            "Fewer repeated human or review interventions for the same issue."@,
            "normal"@,
            "Clarify the relevant operating rule or validation gate that would have caught this earlier."@,
            "Future interventions of this type should decrease after the rule change."@,
            if group.count >= 3 { "high"@ } else { "medium"@ },
            group.evidence@),
{
    let title = append_str("Address repeated intervention: ".to_owned(), short_title(group.text.as_str()).as_str());
    let evidence = append_str(append_str(decimal_usize(group.count), " interventions share the pattern: "), group.text.as_str());
    proposal(
        title,
        "Intervention recording",
        evidence,
        "Fewer repeated human or review interventions for the same issue.",
        "normal",
        "Clarify the relevant operating rule or validation gate that would have caught this earlier.",
        "Future interventions of this type should decrease after the rule change.",
        confidence_for_count(group.count),
        group.evidence,
    )
}

/// The proposal for `count` audit findings of `category`.
pub fn audit_proposal(category: &str, count: usize, items: Vec<ProposalEvidence>) -> (p: ImprovementProposal)
    ensures
        generated(p,
            "Clean up "@ + category@,
            "Entropy auditing"@,
            "Audit found "@ + decimal(count as int) + " "@ + category@ + "."@,
            "Lower entropy score and stronger completion evidence."@,
            "tiny"@,
            "Resolve the listed audit findings or record why they are intentionally retained."@,
            "Run harness-cli audit and confirm the category count decreases."@,
            "low"@,
            items@),
{
    let title = append_str("Clean up ".to_owned(), category);
    let evidence = append_str(append_str(append_str(append_str("Audit found ".to_owned(), decimal_usize(count).as_str()), " "), category), ".");
    proposal(
        title,
        "Entropy auditing",
        evidence,
        "Lower entropy score and stronger completion evidence.",
        "tiny",
        "Resolve the listed audit findings or record why they are intentionally retained.",
        "Run harness-cli audit and confirm the category count decreases.",
        "low".to_owned(),
        items,
    )
}

/// The audit rules that generate proposals, with the category each names,
/// in the order they are considered.
pub fn audit_rules() -> (r: Vec<(&'static str, &'static str)>)
    ensures
        r@.len() == 6,
        r@[0].0@ == "orphaned-story"@ && r@[0].1@ == "orphaned planned or in-progress stories"@,
        r@[1].0@ == "unverified-story"@ && r@[1].1@ == "unverified story commands"@,
        r@[2].0@ == "unverified-decision"@ && r@[2].1@ == "unverified decision commands"@,
        r@[3].0@ == "implemented-backlog-without-outcome"@ && r@[3].1@ == "implemented backlog items without outcomes"@,
        r@[4].0@ == "stale-story"@ && r@[4].1@ == "stale unfinished stories"@,
        r@[5].0@ == "broken-tool"@ && r@[5].1@ == "broken registered tools"@,
{
    vec![
        ("orphaned-story", "orphaned planned or in-progress stories"),
        ("unverified-story", "unverified story commands"),
        ("unverified-decision", "unverified decision commands"),
        ("implemented-backlog-without-outcome", "implemented backlog items without outcomes"),
        ("stale-story", "stale unfinished stories"),
        ("broken-tool", "broken registered tools"),
    ]
}

/// The fingerprint of an audit finding: the digest of its key, NUL, its title.
pub open spec fn finding_fingerprint(key: Seq<char>, title: Seq<char>) -> Seq<char> {
    sha256_hex_of(key + seq!['\0'] + title)
}

/// The key and fingerprint of the finding `id` (titled `title`) of `rule`.
pub fn audit_finding_identity(rule: &str, id: &str, title: &str) -> (r: (String, String))
    ensures
        r.0@ == "audit."@ + rule@ + ":v1:entity:"@ + id@,
        r.1@ == finding_fingerprint(r.0@, title@),
{
    let key = audit_finding_key(rule, id);
    proof {
        reveal_strlit("\0");
    }
    let material = append_str(append_str(key.clone(), "\0"), title);
    assert(material@ =~= key@ + seq!['\0'] + title@);
    let fp = sha256_hex(material.as_str());
    (key, fp)
}

/// The evidence of an audit finding: its open evidence episode
/// `(uid, fingerprint, opened_at)` when it has one, else a legacy snapshot
/// named by the finding's key.
pub fn audit_finding_evidence(rule: &str, id: &str, title: &str, active: Option<(String, String, String)>) -> (e: ProposalEvidence)
    ensures
        match active {
            Some((uid, fp, opened_at)) => e.source_kind@ == "audit"@ && e.uid@ == uid@ && e.fingerprint@ == fp@
                && e.observed_at@ == opened_at@,
            None => e.source_kind@ == "legacy_snapshot"@ && e.uid@ == "audit."@ + rule@ + ":v1:entity:"@ + id@
                && e.fingerprint@ == finding_fingerprint(e.uid@, title@) && e.observed_at@ == "1970-01-01 00:00:00"@,
        },
{
    match active {
        Some((uid, fingerprint, observed_at)) => ProposalEvidence {
            source_kind: "audit".to_owned(),
            uid,
            fingerprint,
            observed_at,
        },
        None => {
            let (key, fingerprint) = audit_finding_identity(rule, id, title);
            ProposalEvidence {
                source_kind: "legacy_snapshot".to_owned(),
                uid: key,
                fingerprint,
                observed_at: "1970-01-01 00:00:00".to_owned(),
            }
        },
    }
}

/// Whether a registered tool counts as broken in an audit: a cli or binary
/// tool whose command is not found, or another kind whose last scan found
/// it missing.
pub fn tool_is_broken(kind: &str, status: &str, command_found: bool) -> (b: bool)
    ensures
        b == if kind@ == "cli"@ || kind@ == "binary"@ { !command_found } else { status@ == "missing"@ },
{
    if is_lit(kind, "cli") || is_lit(kind, "binary") {
        !command_found
    } else {
        is_lit(status, "missing")
    }
}

// ---------------------------------------------------------------------------
// Ordering and filtering
// ---------------------------------------------------------------------------

/// The first position of `s` holding a proposal whose key comes after `k`.
pub open spec fn key_pos(s: Seq<ImprovementProposal>, k: Seq<char>) -> int
    decreases s.len(),
{
    if s.len() == 0 {
        0
    } else if lex_lt(k, s[0].key@) {
        0
    } else {
        1 + key_pos(s.drop_first(), k)
    }
}

/// `s` ordered by key, proposals with equal keys kept in their order.
pub open spec fn by_key(s: Seq<ImprovementProposal>) -> Seq<ImprovementProposal>
    decreases s.len(),
{
    if s.len() == 0 {
        seq![]
    } else {
        let t = by_key(s.drop_last());
        t.insert(key_pos(t, s.last().key@), s.last())
    }
}

proof fn lemma_key_pos(s: Seq<ImprovementProposal>, k: Seq<char>, j: int)
    requires
        0 <= j <= s.len(),
        forall|m: int| 0 <= m < j ==> !lex_lt(k, (#[trigger] s[m]).key@),
        j < s.len() ==> lex_lt(k, s[j].key@),
    ensures
        key_pos(s, k) == j,
    decreases s.len(),
{
    if s.len() > 0 && j > 0 {
        assert forall|m: int| 0 <= m < j - 1 implies !lex_lt(k, (#[trigger] s.drop_first()[m]).key@) by {
            assert(s.drop_first()[m] == s[m + 1]);
        }
        if j < s.len() {
            assert(s.drop_first()[j - 1] == s[j]);
        }
        assert(!lex_lt(k, s[0].key@));
        lemma_key_pos(s.drop_first(), k, j - 1);
    }
}

/// Keys never decrease along `s`.
pub open spec fn keys_ascending(s: Seq<ImprovementProposal>) -> bool {
    forall|i: int, j: int| 0 <= i < j < s.len() ==> !lex_lt((#[trigger] s[j]).key@, (#[trigger] s[i]).key@)
}

proof fn lemma_key_pos_bounds(t: Seq<ImprovementProposal>, k: Seq<char>)
    ensures
        0 <= key_pos(t, k) <= t.len(),
        forall|m: int| 0 <= m < key_pos(t, k) ==> !lex_lt(k, (#[trigger] t[m]).key@),
        key_pos(t, k) < t.len() ==> lex_lt(k, t[key_pos(t, k)].key@),
    decreases t.len(),
{
    if t.len() > 0 && !lex_lt(k, t[0].key@) {
        lemma_key_pos_bounds(t.drop_first(), k);
        let p = key_pos(t, k);
        assert forall|m: int| 0 <= m < p implies !lex_lt(k, (#[trigger] t[m]).key@) by {
            if m > 0 {
                assert(t[m] == t.drop_first()[m - 1]);
            }
        }
        if p < t.len() {
            assert(t[p] == t.drop_first()[p - 1]);
        }
    }
}

/// Proposals are listed in ascending order of key, each proposal exactly
/// once.
pub proof fn lemma_by_key_ascending(s: Seq<ImprovementProposal>)
    ensures
        keys_ascending(by_key(s)),
        by_key(s).to_multiset() == s.to_multiset(),
    decreases s.len(),
{
    broadcast use vstd::seq_lib::group_to_multiset_ensures;
    if s.len() == 0 {
        assert(by_key(s) =~= s);
    } else {
        let t = by_key(s.drop_last());
        let x = s.last();
        lemma_by_key_ascending(s.drop_last());
        lemma_key_pos_bounds(t, x.key@);
        let p = key_pos(t, x.key@);
        let r = t.insert(p, x);
        assert forall|i: int, j: int| 0 <= i < j < r.len() implies !lex_lt((#[trigger] r[j]).key@, (#[trigger] r[i]).key@) by {
            if j < p {
                assert(r[i] == t[i] && r[j] == t[j]);
            } else if j == p {
                assert(r[i] == t[i]);
            } else if i < p {
                assert(r[i] == t[i] && r[j] == t[j - 1]);
            } else if i == p {
                assert(r[j] == t[j - 1]);
                if lex_lt(t[j - 1].key@, x.key@) {
                    if j - 1 > p {
                        lemma_lex_transitive(t[j - 1].key@, x.key@, t[p].key@);
                    } else {
                        lemma_lex_transitive(t[p].key@, x.key@, t[p].key@);
                        lemma_lex_irreflexive(t[p].key@);
                    }
                }
            } else {
                assert(r[i] == t[i - 1] && r[j] == t[j - 1]);
            }
        }
        assert(s =~= s.drop_last().push(x));
    }
}

/// `proposals` ordered by key (a stable sort).
pub fn sort_by_key(proposals: Vec<ImprovementProposal>) -> (out: Vec<ImprovementProposal>)
    ensures
        out@ == by_key(proposals@),
        keys_ascending(out@),
        out@.to_multiset() == proposals@.to_multiset(),
{
    let ghost orig = proposals@;
    let mut rest = proposals;
    let mut out: Vec<ImprovementProposal> = Vec::new();
    let mut i: usize = 0;
    let n = rest.len();
    while rest.len() > 0
        invariant
            n == orig.len(),
            i + rest@.len() == n,
            rest@ == orig.skip(i as int),
            out@ == by_key(orig.take(i as int)),
        decreases rest@.len(),
    {
        let x = rest.remove(0);
        assert(orig.skip(i as int)[0] == orig[i as int]);
        assert(orig.skip(i as int).remove(0) == orig.skip(i + 1));
        let xk = chars_of(x.key.as_str());
        let mut j: usize = 0;
        while j < out.len() && !lex_less(xk.as_slice(), chars_of(out[j].key.as_str()).as_slice())
            invariant
                j <= out@.len(),
                xk@ == x.key@,
                forall|m: int| 0 <= m < j ==> !lex_lt(x.key@, (#[trigger] out@[m]).key@),
            decreases out@.len() - j,
        {
            j = j + 1;
        }
        proof {
            lemma_key_pos(out@, x.key@, j as int);
            let t = orig.take(i + 1);
            assert(t.drop_last() == orig.take(i as int));
            assert(t.last() == x);
        }
        out.insert(j, x);
        i = i + 1;
    }
    assert(orig.take(n as int) == orig);
    proof {
        lemma_by_key_ascending(orig);
    }
    out
}

/// The proposals a plain preview shows: all but the suppressed ones.
pub fn visible_proposals(decision: &ProposalDecision, proposals: Vec<ImprovementProposal>) -> (out: Vec<ImprovementProposal>)
    ensures
        decision is Preview ==> out@ == proposals@.filter(|p: ImprovementProposal| p.lifecycle_state@ != "suppressed"@),
        !(decision is Preview) ==> out@ == proposals@,
{
    match decision {
        ProposalDecision::Preview => {},
        _ => { return proposals; },
    }
    let ghost orig = proposals@;
    let mut out: Vec<ImprovementProposal> = Vec::new();
    let mut rest = proposals;
    let mut i: usize = 0;
    let n = rest.len();
    while rest.len() > 0
        invariant
            n == orig.len(),
            i + rest@.len() == n,
            rest@ == orig.skip(i as int),
            out@ == orig.take(i as int).filter(|p: ImprovementProposal| p.lifecycle_state@ != "suppressed"@),
        decreases rest@.len(),
    {
        let x = rest.remove(0);
        assert(orig.skip(i as int)[0] == orig[i as int]);
        assert(orig.skip(i as int).remove(0) == orig.skip(i + 1));
        let ghost t = orig.take(i + 1);
        assert(t.drop_last() == orig.take(i as int));
        assert(t.last() == x);
        reveal(Seq::filter);
        if !is_lit(x.lifecycle_state.as_str(), "suppressed") {
            out.push(x);
        }
        i = i + 1;
    }
    assert(orig.take(n as int) == orig);
    out
}

/// Not a suppressed proposal: what a plain preview shows.
pub open spec fn shown_in_preview(p: ImprovementProposal) -> bool {
    p.lifecycle_state@ != "suppressed"@
}

/// The entries of `s` that a plain preview shows, in order.
pub open spec fn preview_shown(s: Seq<ImprovementProposal>) -> Seq<ImprovementProposal> {
    s.filter(|p: ImprovementProposal| shown_in_preview(p))
}

proof fn lemma_filter_keeps_order(s: Seq<ImprovementProposal>)
    requires
        keys_ascending(s),
    ensures
        keys_ascending(preview_shown(s)),
        forall|j: int| 0 <= j < preview_shown(s).len() ==> s.contains(#[trigger] preview_shown(s)[j]),
    decreases s.len(),
{
    reveal(Seq::filter);
    let pred = |p: ImprovementProposal| shown_in_preview(p);
    if s.len() > 0 {
        let d = s.drop_last();
        assert(keys_ascending(d)) by {
            assert forall|i: int, j: int| 0 <= i < j < d.len() implies !lex_lt((#[trigger] d[j]).key@, (#[trigger] d[i]).key@) by {
                assert(d[i] == s[i] && d[j] == s[j]);
            }
        }
        lemma_filter_keeps_order(d);
        let fd = preview_shown(d);
        let f = preview_shown(s);
        assert forall|j: int| 0 <= j < f.len() implies s.contains(#[trigger] f[j]) by {
            if j < fd.len() {
                assert(f[j] == fd[j]);
                let k = choose|k: int| 0 <= k < d.len() && d[k] == fd[j];
                assert(s[k] == d[k]);
            } else {
                assert(f[j] == s.last());
                assert(s[s.len() - 1] == s.last());
            }
        }
        if pred(s.last()) {
            assert forall|i: int, j: int| 0 <= i < j < f.len() implies !lex_lt((#[trigger] f[j]).key@, (#[trigger] f[i]).key@) by {
                if j < fd.len() {
                    assert(f[i] == fd[i] && f[j] == fd[j]);
                } else {
                    assert(f[i] == fd[i]);
                    let k = choose|k: int| 0 <= k < d.len() && d[k] == fd[i];
                    assert(s[k] == d[k]);
                    assert(f[j] == s[s.len() - 1]);
                }
            }
        }
    }
}

/// The two previews of the same classified list, sorted by key: the plain
/// preview shows exactly the entries of the preview with suppressed ones
/// that are not suppressed, in the same order, and both lists are sorted by
/// key.
pub proof fn lemma_previews_agree(
    classified: Seq<ImprovementProposal>,
    plain: Seq<ImprovementProposal>,
    with_suppressed: Seq<ImprovementProposal>,
)
    requires
        keys_ascending(classified),
        plain == classified.filter(|p: ImprovementProposal| p.lifecycle_state@ != "suppressed"@),
        with_suppressed == classified,
    ensures
        plain == preview_shown(with_suppressed),
        keys_ascending(plain),
        keys_ascending(with_suppressed),
{
    assert((|p: ImprovementProposal| p.lifecycle_state@ != "suppressed"@) == (|p: ImprovementProposal| shown_in_preview(p)));
    lemma_filter_keeps_order(classified);
}

} // verus!
