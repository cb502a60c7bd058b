//! Evidence behind improvement proposals: fingerprints, the uids the harness
//! mints, repeated observations grouped by their token, and the wording
//! of generated proposals.
use vstd::prelude::*;
use sha2::{Digest, Sha256};
use crate::text::{
    append_str, chars_of, is_space, normalize_token, normalized, slice_of, space_char, string_of,
};
use crate::numbers::{decimal, decimal_i64};
use crate::proposal::ProposalEvidence;
use crate::changeset::valid_uid;

verus! {

// ---------------------------------------------------------------------------
// Fingerprints and uids
// ---------------------------------------------------------------------------

/// The lowercase hex SHA-256 digest of the UTF-8 bytes of `text`.
pub uninterp spec fn sha256_hex_of(text: Seq<char>) -> Seq<char>;

pub open spec fn is_lower_hex(c: char) -> bool {
    ('0' <= c && c <= '9') || ('a' <= c && c <= 'f')
}

/// sha2's `Sha256::digest` of the bytes of `text`, rendered with
/// generic-array's `LowerHex` (two lowercase hex digits per byte of the
/// 32-byte digest). The contract names the digest and states its shape.
#[verifier::external_body]
pub(crate) fn sha256_hex(text: &str) -> (r: String)
    ensures
        r@ == sha256_hex_of(text@),
        r@.len() == 64,
        forall|i: int| 0 <= i < 64 ==> is_lower_hex(#[trigger] r@[i]),
{
    format!("{:x}", Sha256::digest(text.as_bytes()))
}

/// The uid minted for `material` under `prefix`: the prefix, `_`, and the
/// first 32 hex digits of the material's SHA-256 digest.
pub open spec fn stable_uid_of(prefix: Seq<char>, material: Seq<char>) -> Seq<char> {
    prefix + "_"@ + sha256_hex_of(material).take(32)
}

/// The uid of `material` under `prefix` (see `stable_uid_of`).
pub fn stable_uid(prefix: &str, material: &str) -> (r: String)
    ensures
        r@ == stable_uid_of(prefix@, material@),
{
    let digest = chars_of(sha256_hex(material).as_str());
    let head = slice_of(digest.as_slice(), 0, 32);
    append_str(append_str(prefix.to_owned(), "_"), string_of(head.as_slice()).as_str())
}

/// Every uid the harness mints is one the changeset reader accepts for its
/// prefix.
pub proof fn lemma_minted_uid_is_valid(prefix: Seq<char>, material: Seq<char>, digest: Seq<char>)
    requires
        digest == sha256_hex_of(material),
        digest.len() == 64,
        forall|i: int| 0 <= i < 64 ==> is_lower_hex(#[trigger] digest[i]),
    ensures
        valid_uid(stable_uid_of(prefix, material), prefix),
{
    let head = prefix + "_"@;
    let uid = stable_uid_of(prefix, material);
    assert(uid.take(head.len() as int) =~= head);
    assert forall|i: int| head.len() <= i < uid.len() implies crate::text::is_hex_digit(#[trigger] uid[i]) by {
        assert(uid[i] == digest[i - head.len()]);
    }
}

/// The material of a fresh uid: the given material, a NUL character and the
/// current time in nanoseconds.
pub open spec fn fresh_material(material: Seq<char>, nanos: int) -> Seq<char> {
    material + seq!['\0'] + decimal(nanos)
}

/// A uid under `prefix` for `material` at the time `nanos` (in nanoseconds
/// since the Unix epoch).
pub fn uid_at(prefix: &str, material: &str, nanos: i64) -> (r: String)
    ensures
        r@ == stable_uid_of(prefix@, fresh_material(material@, nanos as int)),
{
    proof {
        reveal_strlit("\0");
    }
    let m = append_str(append_str(material.to_owned(), "\0"), decimal_i64(nanos).as_str());
    assert(m@ =~= fresh_material(material@, nanos as int));
    stable_uid(prefix, m.as_str())
}

// ---------------------------------------------------------------------------
// Repeated observations
// ---------------------------------------------------------------------------

/// Observations that recur, with their evidence.
#[derive(Debug)]
pub struct ProposalEvidenceGroup {
    pub text: String,
    pub count: usize,
    pub evidence: Vec<ProposalEvidence>,
}

pub struct EvidenceView {
    pub source_kind: Seq<char>,
    pub uid: Seq<char>,
    pub fingerprint: Seq<char>,
    pub observed_at: Seq<char>,
}

pub open spec fn evidence_view(e: ProposalEvidence) -> EvidenceView {
    EvidenceView { source_kind: e.source_kind@, uid: e.uid@, fingerprint: e.fingerprint@, observed_at: e.observed_at@ }
}

pub open spec fn evidence_views(v: Seq<ProposalEvidence>) -> Seq<EvidenceView> {
    v.map_values(|e: ProposalEvidence| evidence_view(e))
}

/// The evidence of one observation `(uid, text, observed_at)` of
/// `source_kind`: one without uid is a legacy snapshot named by the
/// fingerprint of its text.
pub open spec fn observation_evidence(source_kind: Seq<char>, o: (Option<Seq<char>>, Seq<char>, Seq<char>)) -> EvidenceView {
    EvidenceView {
        source_kind: if o.0 is Some { source_kind } else { "legacy_snapshot"@ },
        uid: match o.0 {
            Some(u) => u,
            None => "legacy-"@ + sha256_hex_of(o.1),
        },
        fingerprint: sha256_hex_of(o.1),
        observed_at: o.2,
    }
}

pub struct GroupView {
    pub key: Seq<char>,
    pub text: Seq<char>,
    pub evidence: Seq<EvidenceView>,
}

/// The first group with `key`, or -1.
pub open spec fn group_index(groups: Seq<GroupView>, key: Seq<char>) -> int
    decreases groups.len(),
{
    if groups.len() == 0 {
        -1
    } else {
        let r = group_index(groups.drop_last(), key);
        if r < 0 && groups.last().key == key {
            groups.len() - 1
        } else {
            r
        }
    }
}

/// The observations grouped by the token of their text, in the order each
/// token is first seen; a group keeps the text it was first seen with.
pub open spec fn grouped(source_kind: Seq<char>, obs: Seq<(Option<Seq<char>>, Seq<char>, Seq<char>)>) -> Seq<GroupView>
    decreases obs.len(),
{
    if obs.len() == 0 {
        seq![]
    } else {
        let g = grouped(source_kind, obs.drop_last());
        let o = obs.last();
        let key = normalized(o.1);
        let e = observation_evidence(source_kind, o);
        let i = group_index(g, key);
        if i >= 0 {
            g.update(i, GroupView { evidence: g[i].evidence.push(e), ..g[i] })
        } else {
            g.push(GroupView { key, text: o.1, evidence: seq![e] })
        }
    }
}

/// The groups seen at least twice, in order.
pub open spec fn recurring(groups: Seq<GroupView>) -> Seq<GroupView>
    decreases groups.len(),
{
    if groups.len() == 0 {
        seq![]
    } else {
        let r = recurring(groups.drop_last());
        if groups.last().evidence.len() >= 2 {
            r.push(groups.last())
        } else {
            r
        }
    }
}

pub open spec fn observations_view(v: Seq<(Option<String>, String, String)>) -> Seq<(Option<Seq<char>>, Seq<char>, Seq<char>)> {
    v.map_values(|o: (Option<String>, String, String)| (crate::text::opt_view(o.0), o.1@, o.2@))
}

struct Group {
    key: String,
    text: String,
    evidence: Vec<ProposalEvidence>,
}

spec fn groups_view(v: Seq<Group>) -> Seq<GroupView> {
    v.map_values(|g: Group| GroupView { key: g.key@, text: g.text@, evidence: evidence_views(g.evidence@) })
}

spec fn rest_eq(a: Seq<Group>, b: Seq<Group>) -> bool {
    b == a.subrange(1, a.len() as int)
}

proof fn lemma_group_index(groups: Seq<GroupView>, key: Seq<char>, j: int)
    requires
        0 <= j <= groups.len(),
        forall|k: int| 0 <= k < j ==> (#[trigger] groups[k]).key != key,
        j < groups.len() ==> groups[j].key == key,
    ensures
        group_index(groups, key) == if j < groups.len() { j } else { -1 },
    decreases groups.len(),
{
    if groups.len() > 0 {
        if j < groups.len() - 1 {
            assert(groups.drop_last()[j] == groups[j]);
            assert forall|k: int| 0 <= k < j implies (#[trigger] groups.drop_last()[k]).key != key by {
                assert(groups.drop_last()[k] == groups[k]);
            }
            lemma_group_index(groups.drop_last(), key, j);
        } else {
            assert forall|k: int| 0 <= k < groups.len() - 1 implies (#[trigger] groups.drop_last()[k]).key != key by {
                assert(groups.drop_last()[k] == groups[k]);
            }
            lemma_group_index(groups.drop_last(), key, groups.len() - 1);
        }
    }
}

fn observation_evidence_exec(source_kind: &str, uid: Option<String>, value: &str, observed_at: String) -> (e: ProposalEvidence)
    ensures
        evidence_view(e) == observation_evidence(source_kind@, (crate::text::opt_view(uid), value@, observed_at@)),
{
    let fingerprint = sha256_hex(value);
    let kind = match &uid {
        Some(_) => source_kind.to_owned(),
        None => "legacy_snapshot".to_owned(),
    };
    let id = match uid {
        Some(u) => u,
        None => append_str("legacy-".to_owned(), sha256_hex(value).as_str()),
    };
    ProposalEvidence { source_kind: kind, uid: id, fingerprint, observed_at }
}

/// Every recurring group was seen at least twice.
proof fn lemma_recurring_at_least_twice(groups: Seq<GroupView>)
    ensures
        forall|i: int| 0 <= i < recurring(groups).len() ==> (#[trigger] recurring(groups)[i]).evidence.len() >= 2,
    decreases groups.len(),
{
    if groups.len() > 0 {
        let r = recurring(groups.drop_last());
        lemma_recurring_at_least_twice(groups.drop_last());
        if groups.last().evidence.len() >= 2 {
            assert forall|i: int| 0 <= i < r.push(groups.last()).len() implies
                (#[trigger] r.push(groups.last())[i]).evidence.len() >= 2 by {
                if i < r.len() {
                    assert(r.push(groups.last())[i] == r[i]);
                }
            }
        }
    }
}

/// The observations `values` (uid, text, time) of `source_kind` whose text
/// recurs, grouped by its token (see `grouped` and `recurring`).
pub fn repeated_values(source_kind: &str, values: Vec<(Option<String>, String, String)>) -> (r: Vec<ProposalEvidenceGroup>)
    ensures
        r@.len() == recurring(grouped(source_kind@, observations_view(values@))).len(),
        forall|i: int| 0 <= i < r@.len() ==> {
            let g = #[trigger] recurring(grouped(source_kind@, observations_view(values@)))[i];
            &&& r@[i].text@ == g.text
            &&& evidence_views(r@[i].evidence@) == g.evidence
            &&& r@[i].count == g.evidence.len()
        },
        forall|i: int| 0 <= i < r@.len() ==> (#[trigger] r@[i]).count >= 2,
{
    let ghost obs = observations_view(values@);
    let mut groups: Vec<Group> = Vec::new();
    let mut i: usize = 0;
    let n = values.len();
    let mut rest = values;
    assert(obs.take(0).len() == 0);
    assert(groups_view(groups@) =~= Seq::<GroupView>::empty());
    while rest.len() > 0
        invariant
            n == obs.len(),
            i + rest@.len() == n,
            observations_view(rest@) == obs.skip(i as int),
            groups_view(groups@) == grouped(source_kind@, obs.take(i as int)),
        decreases rest@.len(),
    {
        let ghost old_rest = rest@;
        let (uid, value, observed_at) = rest.remove(0);
        let ghost o = obs[i as int];
        assert(obs.skip(i as int)[0] == o);
        assert(observations_view(old_rest)[0] == o);
        assert(rest@ =~= old_rest.subrange(1, old_rest.len() as int));
        assert forall|x: int| 0 <= x < rest@.len() implies #[trigger] observations_view(rest@)[x] == obs.skip(i + 1)[x] by {
            assert(observations_view(rest@)[x] == observations_view(old_rest)[x + 1]);
            assert(obs.skip(i as int)[x + 1] == obs.skip(i + 1)[x]);
        }
        assert(observations_view(rest@) =~= obs.skip(i + 1));
        assert(o == (crate::text::opt_view(uid), value@, observed_at@));
        let ghost t = obs.take(i + 1);
        assert(t.drop_last() == obs.take(i as int));
        assert(t.last() == o);
        let key = normalize_token(value.as_str());
        let e = observation_evidence_exec(source_kind, uid, value.as_str(), observed_at);
        let mut j: usize = 0;
        while j < groups.len() && !crate::text::is_lit(groups[j].key.as_str(), key.as_str())
            invariant
                j <= groups@.len(),
                forall|k: int| 0 <= k < j ==> (#[trigger] groups_view(groups@)[k]).key != key@,
            decreases groups@.len() - j,
        {
            j = j + 1;
        }
        proof {
            lemma_group_index(groups_view(groups@), key@, j as int);
        }
        let ghost gv = groups_view(groups@);
        if j < groups.len() {
            let mut g = groups.remove(j);
            let ghost ev = evidence_view(e);
            let ghost old_ev = g.evidence@;
            g.evidence.push(e);
            assert(evidence_views(g.evidence@) =~= evidence_views(old_ev).push(ev));
            groups.insert(j, g);
            assert(groups_view(groups@) =~= gv.update(j as int, GroupView { evidence: gv[j as int].evidence.push(ev), ..gv[j as int] }));
        } else {
            let ghost ev = evidence_view(e);
            let ghost kv = key@;
            let mut evs: Vec<ProposalEvidence> = Vec::new();
            evs.push(e);
            assert(evidence_views(evs@) =~= seq![ev]);
            groups.push(Group { key, text: value, evidence: evs });
            assert(groups_view(groups@) =~= gv.push(GroupView { key: kv, text: o.1, evidence: seq![ev] }));
        }
        i = i + 1;
    }
    assert(obs.take(i as int) == obs);
    let ghost all = groups_view(groups@);
    let mut out: Vec<ProposalEvidenceGroup> = Vec::new();
    let mut k: usize = 0;
    let m = groups.len();
    let mut left = groups;
    while left.len() > 0
        invariant
            m == all.len(),
            k + left@.len() == m,
            groups_view(left@) == all.skip(k as int),
            out@.len() == recurring(all.take(k as int)).len(),
            forall|x: int| 0 <= x < out@.len() ==> {
                let g = #[trigger] recurring(all.take(k as int))[x];
                &&& out@[x].text@ == g.text
                &&& evidence_views(out@[x].evidence@) == g.evidence
                &&& out@[x].count == g.evidence.len()
            },
        decreases left@.len(),
    {
        let ghost old_left = left@;
        let g = left.remove(0);
        assert(groups_view(old_left)[0] == all.skip(k as int)[0]);
        assert(rest_eq(old_left, left@));
        assert forall|x: int| 0 <= x < left@.len() implies #[trigger] groups_view(left@)[x] == all.skip(k + 1)[x] by {
            assert(groups_view(left@)[x] == groups_view(old_left)[x + 1]);
            assert(all.skip(k as int)[x + 1] == all.skip(k + 1)[x]);
        }
        assert(groups_view(left@) =~= all.skip(k + 1));
        let ghost t = all.take(k + 1);
        assert(t.drop_last() == all.take(k as int));
        assert(t.last() == all[k as int]);
        if g.evidence.len() >= 2 {
            let count = g.evidence.len();
            out.push(ProposalEvidenceGroup { text: g.text, count, evidence: g.evidence });
        }
        k = k + 1;
    }
    assert(all.take(k as int) == all);
    proof {
        lemma_recurring_at_least_twice(all);
        assert forall|i: int| 0 <= i < out@.len() implies (#[trigger] out@[i]).count >= 2 by {
            assert(recurring(all)[i].evidence.len() >= 2);
        }
    }
    out
}

// ---------------------------------------------------------------------------
// Wording
// ---------------------------------------------------------------------------

/// The confidence of a proposal seen `count` times: high from three on.
pub fn confidence_for_count(count: usize) -> (r: String)
    ensures
        r@ == if count >= 3 { "high"@ } else { "medium"@ },
{
    if count >= 3 {
        "high".to_owned()
    } else {
        "medium".to_owned()
    }
}

/// The words of `s`: its maximal runs of non-space characters
/// (`str::split_whitespace`).
pub open spec fn words(s: Seq<char>) -> Seq<Seq<char>>
    decreases s.len(),
{
    if s.len() == 0 {
        seq![]
    } else {
        let w = words(s.drop_last());
        if is_space(s.last()) {
            w
        } else if s.len() >= 2 && !is_space(s[s.len() - 2]) {
            w.update(w.len() - 1, w.last().push(s.last()))
        } else {
            w.push(seq![s.last()])
        }
    }
}

/// `parts` joined with single spaces.
pub open spec fn spaced(parts: Seq<Seq<char>>) -> Seq<char>
    decreases parts.len(),
{
    if parts.len() == 0 {
        seq![]
    } else if parts.len() == 1 {
        parts[0]
    } else {
        spaced(parts.drop_last()) + seq![' '] + parts.last()
    }
}

/// A proposal title from free text: its first eight words; over 72
/// characters, the first 69 and `...`.
pub open spec fn title_of(value: Seq<char>) -> Seq<char> {
    let ws = words(value);
    let w = spaced(ws.take(if ws.len() < 8 { ws.len() as int } else { 8 }));
    if w.len() > 72 {
        w.take(69) + "..."@
    } else {
        w
    }
}

proof fn lemma_words_nonempty(s: Seq<char>)
    ensures
        s.len() > 0 && !is_space(s.last()) ==> words(s).len() > 0,
        forall|i: int| 0 <= i < words(s).len() ==> (#[trigger] words(s)[i]).len() > 0,
    decreases s.len(),
{
    if s.len() > 0 {
        lemma_words_nonempty(s.drop_last());
        if s.len() >= 2 && !is_space(s[s.len() - 2]) {
            assert(s.drop_last().last() == s[s.len() - 2]);
        }
    }
}

/// The title of a proposal from `value` (see `title_of`).
pub fn short_title(value: &str) -> (r: String)
    ensures
        r@ == title_of(value@),
{
    let cs = chars_of(value);
    let mut ws: Vec<Vec<char>> = Vec::new();
    let mut i: usize = 0;
    while i < cs.len()
        invariant
            i <= cs@.len(),
            cs@ == value@,
            crate::text::views(ws@) == words(cs@.take(i as int)),
        decreases cs@.len() - i,
    {
        let ghost t = cs@.take(i + 1);
        assert(t.drop_last() == cs@.take(i as int));
        assert(t.last() == cs@[i as int]);
        proof {
            lemma_words_nonempty(cs@.take(i as int));
        }
        let c = cs[i];
        if space_char(c) {
        } else if i >= 1 && !space_char(cs[i - 1]) {
            assert(t[t.len() - 2] == cs@[i - 1]);
            assert(cs@.take(i as int).last() == cs@[i - 1]);
            let k = ws.len() - 1;
            let mut last = ws.remove(k);
            let ghost lv = last@;
            last.push(c);
            ws.push(last);
            assert(crate::text::views(ws@) =~= words(cs@.take(i as int)).update(k as int, lv.push(c)));
        } else {
            let mut w: Vec<char> = Vec::new();
            w.push(c);
            let ghost before = ws@;
            ws.push(w);
            assert(crate::text::views(ws@) =~= crate::text::views(before).push(seq![c]));
        }
        i = i + 1;
    }
    assert(cs@.take(i as int) == cs@);
    let take = if ws.len() < 8 { ws.len() } else { 8 };
    let mut joined: Vec<char> = Vec::new();
    let mut j: usize = 0;
    while j < take
        invariant
            j <= take <= ws@.len(),
            take == if ws@.len() < 8 { ws@.len() as int } else { 8 },
            joined@ == spaced(crate::text::views(ws@).take(j as int)),
        decreases take - j,
    {
        let ghost t = crate::text::views(ws@).take(j + 1);
        assert(t.drop_last() == crate::text::views(ws@).take(j as int));
        assert(t.last() == ws@[j as int]@);
        if j > 0 {
            joined.push(' ');
        }
        let mut q: usize = 0;
        let ghost start = joined@;
        while q < ws[j].len()
            invariant
                j < ws@.len(),
                q <= ws@[j as int]@.len(),
                joined@ == start + ws@[j as int]@.take(q as int),
            decreases ws@[j as int]@.len() - q,
        {
            joined.push(ws[j][q]);
            assert(ws@[j as int]@.take(q + 1) == ws@[j as int]@.take(q as int).push(ws@[j as int]@[q as int]));
            q = q + 1;
        }
        assert(ws@[j as int]@.take(q as int) == ws@[j as int]@);
        j = j + 1;
    }
    assert(crate::text::views(ws@) == words(value@));
    if joined.len() > 72 {
        let head = slice_of(joined.as_slice(), 0, 69);
        append_str(string_of(head.as_slice()), "...")
    } else {
        string_of(joined.as_slice())
    }
}

} // verus!
