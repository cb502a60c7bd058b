//! Audit evidence episodes: each audit finding currently present has one open
//! evidence episode, keyed by the finding and carrying the fingerprint of
//! its content. Recording evidence clears the episodes of findings that are
//! gone or changed, and opens episodes for findings that are new or changed.
use vstd::prelude::*;
use crate::text::append_str;

verus! {

/// An evidence episode that is still open.
#[derive(Debug, Clone, PartialEq, Eq)]
pub struct AuditEpisode {
    pub uid: String,
    pub finding_key: String,
    pub fingerprint: String,
}

/// A finding of the current audit, with the fingerprint of its content.
#[derive(Debug, Clone, PartialEq, Eq)]
pub struct AuditObservation {
    pub finding_key: String,
    pub fingerprint: String,
}

/// One step of recording audit evidence.
#[derive(Debug, Clone, PartialEq, Eq)]
pub enum AuditEvidenceAction {
    /// Clear the open episode `uid`.
    Clear { uid: String },
    /// Open a new episode for the finding.
    Open { finding_key: String, fingerprint: String },
}

/// The text of an action.
pub enum AuditActionView {
    Clear(Seq<char>),
    Open(Seq<char>, Seq<char>),
}

pub open spec fn action_view(a: AuditEvidenceAction) -> AuditActionView {
    match a {
        AuditEvidenceAction::Clear { uid } => AuditActionView::Clear(uid@),
        AuditEvidenceAction::Open { finding_key, fingerprint } => AuditActionView::Open(finding_key@, fingerprint@),
    }
}

pub open spec fn action_views(v: Seq<AuditEvidenceAction>) -> Seq<AuditActionView> {
    v.map_values(|a: AuditEvidenceAction| action_view(a))
}

pub open spec fn key_in(current: Seq<AuditObservation>, key: Seq<char>) -> bool {
    exists|i: int| 0 <= i < current.len() && current[i].finding_key@ == key
}

/// The index of the first open episode of `key`, or -1.
pub open spec fn first_episode(active: Seq<AuditEpisode>, key: Seq<char>) -> int
    decreases active.len(),
{
    if active.len() == 0 {
        -1
    } else {
        let r = first_episode(active.drop_last(), key);
        if r < 0 && active.last().finding_key@ == key {
            active.len() - 1
        } else {
            r
        }
    }
}

/// Clears for the open episodes whose finding is gone.
pub open spec fn stale_clears(active: Seq<AuditEpisode>, current: Seq<AuditObservation>) -> Seq<AuditActionView>
    decreases active.len(),
{
    if active.len() == 0 {
        seq![]
    } else {
        let rest = stale_clears(active.drop_last(), current);
        if key_in(current, active.last().finding_key@) {
            rest
        } else {
            rest.push(AuditActionView::Clear(active.last().uid@))
        }
    }
}

/// For each current finding: nothing when its open episode has the same
/// fingerprint; else a clear of the old episode, if any, and an open.
pub open spec fn refreshes(active: Seq<AuditEpisode>, current: Seq<AuditObservation>) -> Seq<AuditActionView>
    decreases current.len(),
{
    if current.len() == 0 {
        seq![]
    } else {
        let rest = refreshes(active, current.drop_last());
        let c = current.last();
        let i = first_episode(active, c.finding_key@);
        let open = AuditActionView::Open(c.finding_key@, c.fingerprint@);
        if i >= 0 && active[i].fingerprint@ == c.fingerprint@ {
            rest
        } else if i >= 0 {
            rest.push(AuditActionView::Clear(active[i].uid@)).push(open)
        } else {
            rest.push(open)
        }
    }
}

/// The steps of recording evidence, in order.
pub open spec fn evidence_plan(active: Seq<AuditEpisode>, current: Seq<AuditObservation>) -> Seq<AuditActionView> {
    stale_clears(active, current) + refreshes(active, current)
}

fn find_episode(active: &Vec<AuditEpisode>, key: &String) -> (r: Option<usize>)
    ensures
        match r {
            Some(i) => i as int == first_episode(active@, key@) && i < active@.len(),
            None => first_episode(active@, key@) < 0,
        },
{
    let mut i: usize = 0;
    while i < active.len()
        invariant
            i <= active@.len(),
            first_episode(active@.take(i as int), key@) < 0,
        decreases active@.len() - i,
    {
        assert(active@.take(i + 1).drop_last() == active@.take(i as int));
        if active[i].finding_key == *key {
            proof {
                lemma_first_episode_prefix(active@, key@, i + 1);
            }
            return Some(i);
        }
        i = i + 1;
    }
    assert(active@.take(i as int) == active@);
    None
}

proof fn lemma_first_episode_prefix(active: Seq<AuditEpisode>, key: Seq<char>, n: int)
    requires
        0 < n <= active.len(),
        first_episode(active.take(n), key) == n - 1,
    ensures
        first_episode(active, key) == n - 1,
    decreases active.len() - n,
{
    if n < active.len() {
        assert(active.drop_last().take(n) == active.take(n));
        lemma_first_episode_prefix(active.drop_last(), key, n);
    } else {
        assert(active.take(n) == active);
    }
}

fn key_present(current: &Vec<AuditObservation>, key: &String) -> (b: bool)
    ensures
        b == key_in(current@, key@),
{
    let mut i: usize = 0;
    while i < current.len()
        invariant
            i <= current@.len(),
            forall|k: int| 0 <= k < i ==> current@[k].finding_key@ != key@,
        decreases current@.len() - i,
    {
        if current[i].finding_key == *key {
            return true;
        }
        i = i + 1;
    }
    false
}

/// The steps that bring the open evidence episodes in line with the current
/// audit findings (see `evidence_plan`).
pub fn plan_audit_evidence(active: &Vec<AuditEpisode>, current: &Vec<AuditObservation>) -> (out: Vec<AuditEvidenceAction>)
    ensures
        action_views(out@) == evidence_plan(active@, current@),
{
    let mut out: Vec<AuditEvidenceAction> = Vec::new();
    let mut i: usize = 0;
    while i < active.len()
        invariant
            i <= active@.len(),
            action_views(out@) == stale_clears(active@.take(i as int), current@),
        decreases active@.len() - i,
    {
        assert(active@.take(i + 1).drop_last() == active@.take(i as int));
        assert(active@.take(i + 1).last() == active@[i as int]);
        if !key_present(current, &active[i].finding_key) {
            let a = AuditEvidenceAction::Clear { uid: active[i].uid.clone() };
            assert(action_views(out@.push(a)) == action_views(out@).push(action_view(a)));
            out.push(a);
        }
        i = i + 1;
    }
    assert(active@.take(active@.len() as int) == active@);
    let ghost clears = action_views(out@);
    let mut j: usize = 0;
    while j < current.len()
        invariant
            j <= current@.len(),
            clears == stale_clears(active@, current@),
            action_views(out@) == clears + refreshes(active@, current@.take(j as int)),
        decreases current@.len() - j,
    {
        let ghost cur = current@.take(j + 1);
        assert(cur.drop_last() == current@.take(j as int));
        assert(cur.last() == current@[j as int]);
        let c = &current[j];
        let existing = find_episode(active, &c.finding_key);
        let same = match existing {
            Some(e) => active[e].fingerprint == c.fingerprint,
            None => false,
        };
        if !same {
            if let Some(e) = existing {
                let a = AuditEvidenceAction::Clear { uid: active[e].uid.clone() };
                assert(action_views(out@.push(a)) == action_views(out@).push(action_view(a)));
                out.push(a);
            }
            let a = AuditEvidenceAction::Open { finding_key: c.finding_key.clone(), fingerprint: c.fingerprint.clone() };
            assert(action_views(out@.push(a)) == action_views(out@).push(action_view(a)));
            out.push(a);
        }
        j = j + 1;
    }
    assert(current@.take(current@.len() as int) == current@);
    out
}

/// `audit.<rule>:v1:entity:<id>`, the key of an audit finding.
pub fn audit_finding_key(rule: &str, id: &str) -> (r: String)
    ensures
        r@ == "audit."@ + rule@ + ":v1:entity:"@ + id@,
{
    let t = append_str("audit.".to_owned(), rule);
    let t = append_str(t, ":v1:entity:");
    append_str(t, id)
}

// ---------------------------------------------------------------------------
// What the plan achieves
// ---------------------------------------------------------------------------

pub open spec fn keys_unique(active: Seq<AuditEpisode>) -> bool {
    forall|i: int, j: int| 0 <= i < j < active.len() ==> active[i].finding_key@ != active[j].finding_key@
}

pub open spec fn uids_unique(active: Seq<AuditEpisode>) -> bool {
    forall|i: int, j: int| 0 <= i < j < active.len() ==> active[i].uid@ != active[j].uid@
}

pub open spec fn findings_unique(current: Seq<AuditObservation>) -> bool {
    forall|i: int, j: int| 0 <= i < j < current.len() ==> current[i].finding_key@ != current[j].finding_key@
}

pub open spec fn in_plan(plan: Seq<AuditActionView>, a: AuditActionView) -> bool {
    exists|i: int| 0 <= i < plan.len() && plan[i] == a
}

/// After the plan, the finding `key` has an open episode with fingerprint
/// `fp`: an old episode that was not cleared, or a new one.
pub open spec fn open_after(active: Seq<AuditEpisode>, plan: Seq<AuditActionView>, key: Seq<char>, fp: Seq<char>) -> bool {
    ||| exists|j: int| 0 <= j < active.len() && active[j].finding_key@ == key && active[j].fingerprint@ == fp
            && !in_plan(plan, AuditActionView::Clear(active[j].uid@))
    ||| in_plan(plan, AuditActionView::Open(key, fp))
}

pub open spec fn observed(current: Seq<AuditObservation>, key: Seq<char>, fp: Seq<char>) -> bool {
    exists|i: int| 0 <= i < current.len() && current[i].finding_key@ == key && current[i].fingerprint@ == fp
}

proof fn lemma_first_episode(active: Seq<AuditEpisode>, key: Seq<char>)
    ensures
        -1 <= first_episode(active, key) < active.len(),
        first_episode(active, key) >= 0 ==> active[first_episode(active, key)].finding_key@ == key,
        first_episode(active, key) < 0 ==> forall|j: int| 0 <= j < active.len() ==> active[j].finding_key@ != key,
    decreases active.len(),
{
    if active.len() > 0 {
        lemma_first_episode(active.drop_last(), key);
        assert forall|j: int| 0 <= j < active.len() - 1 implies active[j] == active.drop_last()[j] by {}
    }
}

proof fn lemma_stale_clears_member(active: Seq<AuditEpisode>, current: Seq<AuditObservation>, u: Seq<char>)
    ensures
        in_plan(stale_clears(active, current), AuditActionView::Clear(u)) <==> exists|j: int|
            0 <= j < active.len() && active[j].uid@ == u && !key_in(current, active[j].finding_key@),
        forall|k: Seq<char>, f: Seq<char>| !in_plan(stale_clears(active, current), AuditActionView::Open(k, f)),
    decreases active.len(),
{
    let s = stale_clears(active, current);
    if active.len() > 0 {
        let d = active.drop_last();
        let rest = stale_clears(d, current);
        lemma_stale_clears_member(d, current, u);
        assert forall|j: int| 0 <= j < d.len() implies d[j] == active[j] by {}
        if in_plan(s, AuditActionView::Clear(u)) {
            let i = choose|i: int| 0 <= i < s.len() && s[i] == AuditActionView::Clear(u);
            if i < rest.len() {
                assert(s[i] == rest[i]);
                assert(in_plan(rest, AuditActionView::Clear(u)));
                let j = choose|j: int| 0 <= j < d.len() && d[j].uid@ == u && !key_in(current, d[j].finding_key@);
                assert(active[j] == d[j]);
            } else {
                assert(active[active.len() - 1].uid@ == u);
            }
        }
        if exists|j: int| 0 <= j < active.len() && active[j].uid@ == u && !key_in(current, active[j].finding_key@) {
            let j = choose|j: int| 0 <= j < active.len() && active[j].uid@ == u && !key_in(current, active[j].finding_key@);
            if j < d.len() {
                assert(d[j] == active[j]);
                let i = choose|i: int| 0 <= i < rest.len() && rest[i] == AuditActionView::Clear(u);
                assert(s[i] == rest[i]);
            } else {
                assert(s[s.len() - 1] == AuditActionView::Clear(u));
            }
        }
        assert forall|k: Seq<char>, f: Seq<char>| !in_plan(s, AuditActionView::Open(k, f)) by {
            if in_plan(s, AuditActionView::Open(k, f)) {
                let i = choose|i: int| 0 <= i < s.len() && s[i] == AuditActionView::Open(k, f);
                if i < rest.len() {
                    assert(s[i] == rest[i]);
                    assert(in_plan(rest, AuditActionView::Open(k, f)));
                } else {
                    assert(s[i] == AuditActionView::Clear(active.last().uid@));
                }
            }
        }
    }
}

/// The refresh of finding `c` includes the step `a`.
pub open spec fn refresh_yields(active: Seq<AuditEpisode>, c: AuditObservation, a: AuditActionView) -> bool {
    let e = first_episode(active, c.finding_key@);
    &&& !(e >= 0 && active[e].fingerprint@ == c.fingerprint@)
    &&& (a == AuditActionView::Open(c.finding_key@, c.fingerprint@) || (e >= 0 && a == AuditActionView::Clear(active[e].uid@)))
}

proof fn lemma_refreshes_member(active: Seq<AuditEpisode>, current: Seq<AuditObservation>, a: AuditActionView)
    ensures
        in_plan(refreshes(active, current), a) <==> exists|i: int| 0 <= i < current.len() && refresh_yields(active, #[trigger] current[i], a),
    decreases current.len(),
{
    let s = refreshes(active, current);
    if current.len() > 0 {
        let d = current.drop_last();
        let rest = refreshes(active, d);
        lemma_refreshes_member(active, d, a);
        assert forall|j: int| 0 <= j < d.len() implies d[j] == current[j] by {}
        let c = current.last();
        let e = first_episode(active, c.finding_key@);
        if in_plan(s, a) {
            let i = choose|i: int| 0 <= i < s.len() && s[i] == a;
            if i < rest.len() {
                assert(s[i] == rest[i]);
                let k = choose|k: int| 0 <= k < d.len() && refresh_yields(active, #[trigger] d[k], a);
                assert(current[k] == d[k]);
            } else {
                assert(current[current.len() - 1] == c);
            }
        }
        if exists|i: int| 0 <= i < current.len() && refresh_yields(active, #[trigger] current[i], a) {
            let i = choose|i: int| 0 <= i < current.len() && refresh_yields(active, #[trigger] current[i], a);
            if i < d.len() {
                assert(d[i] == current[i]);
                let k = choose|k: int| 0 <= k < rest.len() && rest[k] == a;
                assert(s[k] == rest[k]);
            } else {
                if e >= 0 {
                    if a == AuditActionView::Open(c.finding_key@, c.fingerprint@) {
                        assert(s[s.len() - 1] == a);
                    } else {
                        assert(s[s.len() - 2] == a);
                    }
                } else {
                    assert(s[s.len() - 1] == a);
                }
            }
        }
    }
}

proof fn lemma_plan_member(active: Seq<AuditEpisode>, current: Seq<AuditObservation>, a: AuditActionView)
    ensures
        in_plan(evidence_plan(active, current), a) <==> (in_plan(stale_clears(active, current), a) || in_plan(refreshes(active, current), a)),
{
    let x = stale_clears(active, current);
    let y = refreshes(active, current);
    let p = x + y;
    if in_plan(p, a) {
        let i = choose|i: int| 0 <= i < p.len() && p[i] == a;
        if i < x.len() {
            assert(p[i] == x[i]);
        } else {
            assert(p[i] == y[i - x.len()]);
        }
    }
    if in_plan(x, a) {
        let i = choose|i: int| 0 <= i < x.len() && x[i] == a;
        assert(p[i] == x[i]);
    }
    if in_plan(y, a) {
        let i = choose|i: int| 0 <= i < y.len() && y[i] == a;
        assert(p[x.len() + i] == y[i]);
    }
}

/// Recording evidence leaves exactly the current findings open: after the
/// plan, a finding has an open episode with a fingerprint if and only if the
/// current audit reports that finding with that fingerprint (open episodes
/// and current findings being one per finding, and episode uids distinct).
pub proof fn lemma_evidence_plan_matches_findings(
    active: Seq<AuditEpisode>,
    current: Seq<AuditObservation>,
    key: Seq<char>,
    fp: Seq<char>,
)
    requires
        keys_unique(active),
        uids_unique(active),
        findings_unique(current),
    ensures
        open_after(active, evidence_plan(active, current), key, fp) <==> observed(current, key, fp),
{
    let plan = evidence_plan(active, current);
    lemma_first_episode(active, key);
    if observed(current, key, fp) {
        let i = choose|i: int| 0 <= i < current.len() && current[i].finding_key@ == key && current[i].fingerprint@ == fp;
        let e = first_episode(active, key);
        if e >= 0 && active[e].fingerprint@ == fp {
            // the old episode stays open
            let u = active[e].uid@;
            lemma_plan_member(active, current, AuditActionView::Clear(u));
            lemma_stale_clears_member(active, current, u);
            lemma_refreshes_member(active, current, AuditActionView::Clear(u));
            if in_plan(plan, AuditActionView::Clear(u)) {
                if in_plan(stale_clears(active, current), AuditActionView::Clear(u)) {
                    let j = choose|j: int| 0 <= j < active.len() && active[j].uid@ == u && !key_in(current, active[j].finding_key@);
                    if j != e {
                        assert(active[j].uid@ != active[e].uid@);
                    }
                    assert(key_in(current, key));
                } else {
                    let k = choose|k: int| 0 <= k < current.len() && refresh_yields(active, #[trigger] current[k], AuditActionView::Clear(u));
                    let c = current[k];
                    let e2 = first_episode(active, c.finding_key@);
                    lemma_first_episode(active, c.finding_key@);
                    if e2 != e {
                        assert(active[e2].uid@ != active[e].uid@);
                    }
                    if k != i {
                        assert(current[k].finding_key@ != current[i].finding_key@);
                    }
                }
            }
        } else {
            lemma_plan_member(active, current, AuditActionView::Open(key, fp));
            lemma_refreshes_member(active, current, AuditActionView::Open(key, fp));
        }
    }
    if open_after(active, plan, key, fp) {
        lemma_plan_member(active, current, AuditActionView::Open(key, fp));
        lemma_stale_clears_member(active, current, Seq::empty());
        if in_plan(plan, AuditActionView::Open(key, fp)) {
            lemma_refreshes_member(active, current, AuditActionView::Open(key, fp));
        } else {
            let j = choose|j: int| 0 <= j < active.len() && active[j].finding_key@ == key && active[j].fingerprint@ == fp
                && !in_plan(plan, AuditActionView::Clear(active[j].uid@));
            let u = active[j].uid@;
            lemma_plan_member(active, current, AuditActionView::Clear(u));
            lemma_stale_clears_member(active, current, u);
            lemma_refreshes_member(active, current, AuditActionView::Clear(u));
            assert(key_in(current, key));
            let i = choose|i: int| 0 <= i < current.len() && current[i].finding_key@ == key;
            let e = first_episode(active, key);
            if e != j {
                assert(active[e].finding_key@ != active[j].finding_key@);
            }
            if active[e].fingerprint@ != current[i].fingerprint@ {
                assert(in_plan(refreshes(active, current), AuditActionView::Clear(u)));
            }
        }
    }
}

} // verus!
