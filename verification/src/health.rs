//! The improvement-health report: one ordered list of what needs attention,
//! from audit drift, undecided proposals, accepted work and the observation
//! schedule of implemented work.
use vstd::prelude::*;
use crate::text::{append_str, is_lit, lemma_lex_irreflexive, lemma_lex_transitive, lex_less, lex_lt, opt_view};
use crate::numbers::{decimal, decimal_digits, decimal_i64, decimal_usize};
use crate::proposal::ImprovementProposal;

verus! {

/// One line of the improvement-health report.
#[derive(Debug, Clone, PartialEq, Eq)]
pub struct ImprovementHealthItem {
    pub category: String,
    pub id: String,
    pub title: String,
    pub state: String,
    pub schedule: String,
    pub outcome: String,
    pub evidence: String,
    pub next_action: String,
}

/// The text of a report line.
pub struct HealthItemView {
    pub category: Seq<char>,
    pub id: Seq<char>,
    pub title: Seq<char>,
    pub state: Seq<char>,
    pub schedule: Seq<char>,
    pub outcome: Seq<char>,
    pub evidence: Seq<char>,
    pub next_action: Seq<char>,
}

impl View for ImprovementHealthItem {
    type V = HealthItemView;

    open spec fn view(&self) -> HealthItemView {
        HealthItemView {
            category: self.category@,
            id: self.id@,
            title: self.title@,
            state: self.state@,
            schedule: self.schedule@,
            outcome: self.outcome@,
            evidence: self.evidence@,
            next_action: self.next_action@,
        }
    }
}

pub open spec fn item_views(v: Seq<ImprovementHealthItem>) -> Seq<HealthItemView> {
    v.map_values(|i: ImprovementHealthItem| i@)
}

/// A proposed occurrence already stored for a proposal key.
#[derive(Debug, Clone, PartialEq, Eq)]
pub struct PendingOccurrence {
    pub id: i64,
    pub proposal_key: String,
    pub title: String,
}

/// An accepted or implemented occurrence of a proposal key, with its
/// latest outcome observation. `due_reached` says whether its due time (if
/// any) has passed.
#[derive(Debug, Clone, PartialEq, Eq)]
pub struct OutcomeRow {
    pub id: i64,
    pub title: String,
    pub status: String,
    pub schedule_kind: Option<String>,
    pub due_at: Option<String>,
    pub after_traces: Option<i64>,
    pub baseline: Option<i64>,
    pub observation_status: Option<String>,
    pub ordinal: Option<i64>,
    pub observation_outcome: Option<String>,
    pub observation_evidence: Option<String>,
    pub due_reached: bool,
}

// ---------------------------------------------------------------------------
// The lines of the report
// ---------------------------------------------------------------------------

/// The rank of a category in the report.
pub open spec fn category_rank(category: Seq<char>) -> int {
    if category == "audit"@ {
        0
    } else if category == "proposal_decision"@ {
        1
    } else if category == "accepted_work"@ {
        2
    } else if category == "outcome_review"@ {
        3
    } else if category == "recurrence"@ {
        4
    } else {
        5
    }
}

/// The rank of a report category.
pub fn health_category_rank(category: &str) -> (r: u8)
    ensures
        r as int == category_rank(category@),
{
    if is_lit(category, "audit") {
        0
    } else if is_lit(category, "proposal_decision") {
        1
    } else if is_lit(category, "accepted_work") {
        2
    } else if is_lit(category, "outcome_review") {
        3
    } else if is_lit(category, "recurrence") {
        4
    } else {
        5
    }
}

pub open spec fn decide_text(key: Seq<char>) -> Seq<char> {
    "harness-cli propose --accept "@ + key + " <schedule> OR --reject "@ + key + " --reason <reason>"@
}

pub open spec fn audit_items(drift: nat) -> Seq<HealthItemView> {
    if drift > 0 {
        seq![HealthItemView {
            category: "audit"@,
            id: "entropy"@,
            title: decimal_digits(drift) + " actionable audit finding(s)"@,
            state: "drift"@,
            schedule: "now"@,
            outcome: Seq::empty(),
            evidence: Seq::empty(),
            next_action: "harness-cli audit"@,
        }]
    } else {
        seq![]
    }
}

/// The report line of an undecided or recurring proposal.
pub open spec fn proposal_item(p: ImprovementProposal) -> Option<HealthItemView> {
    let s = p.lifecycle_state@;
    let category = if s == "new"@ || s == "pending"@ || s == "legacy-unclassified"@ {
        Some("proposal_decision"@)
    } else if s == "regression"@ || s == "reconsideration"@ {
        Some("recurrence"@)
    } else {
        None
    };
    match category {
        Some(c) => Some(HealthItemView {
            category: c,
            id: p.key@,
            title: p.title@,
            state: s,
            schedule: "decision_pending"@,
            outcome: Seq::empty(),
            evidence: p.evidence@,
            next_action: if s == "legacy-unclassified"@ {
                "reconcile legacy identity before accepting or rejecting"@
            } else {
                decide_text(p.key@)
            },
        }),
        None => None,
    }
}

pub open spec fn proposal_items(ps: Seq<ImprovementProposal>) -> Seq<HealthItemView>
    decreases ps.len(),
{
    if ps.len() == 0 {
        seq![]
    } else {
        let rest = proposal_items(ps.drop_last());
        match proposal_item(ps.last()) {
            Some(i) => rest.push(i),
            None => rest,
        }
    }
}

pub open spec fn pending_item(p: PendingOccurrence) -> HealthItemView {
    HealthItemView {
        category: "proposal_decision"@,
        id: p.proposal_key@,
        title: p.title@,
        state: "pending"@,
        schedule: "decision_pending"@,
        outcome: Seq::empty(),
        evidence: "persisted backlog #"@ + decimal(p.id as int),
        next_action: decide_text(p.proposal_key@),
    }
}

pub open spec fn has_id(items: Seq<HealthItemView>, id: Seq<char>) -> bool {
    exists|i: int| 0 <= i < items.len() && items[i].id == id
}

/// `base` followed by a line for each stored pending occurrence whose key no
/// earlier line names.
pub open spec fn with_pending(base: Seq<HealthItemView>, pending: Seq<PendingOccurrence>) -> Seq<HealthItemView>
    decreases pending.len(),
{
    if pending.len() == 0 {
        base
    } else {
        let prev = with_pending(base, pending.drop_last());
        if has_id(prev, pending.last().proposal_key@) {
            prev
        } else {
            prev.push(pending_item(pending.last()))
        }
    }
}

pub open spec fn outcome_command_text(id: i64) -> Seq<char> {
    "harness-cli backlog outcome record --id "@ + decimal(id as int)
        + " --status <confirmed|ineffective|reverted> --outcome <text>"@
}

pub open spec fn observation_action(status: Seq<char>) -> Seq<char> {
    if status == "confirmed"@ {
        "continue monitoring; append a later observation if impact changes"@
    } else if status == "ineffective"@ {
        "review the ineffective change and decide the next proposal action"@
    } else if status == "reverted"@ {
        "inspect recurrence evidence before accepting replacement work"@
    } else if status == "legacy_recorded"@ {
        "preserved legacy evidence; append a modern observation when measured"@
    } else {
        "inspect outcome history"@
    }
}

pub open spec fn or_zero(o: Option<i64>) -> int {
    match o {
        Some(v) => v as int,
        None => 0,
    }
}

pub open spec fn or_empty(o: Option<String>) -> Seq<char> {
    match o {
        Some(s) => s@,
        None => Seq::empty(),
    }
}

/// `(state, schedule, next action)` of implemented work, from its latest
/// observation or else its observation schedule.
pub open spec fn review_state(r: OutcomeRow, current: i64) -> (Seq<char>, Seq<char>, Seq<char>) {
    match r.observation_status {
        Some(status) => (status@, "observed_ordinal_"@ + decimal(or_zero(r.ordinal)), observation_action(status@)),
        None => {
            let kind = opt_view(r.schedule_kind);
            if kind == Some("manual"@) {
                ("pending_manual"@, "manual"@, outcome_command_text(r.id))
            } else if kind == Some("due_at"@) {
                let due = or_empty(r.due_at);
                if r.due_reached {
                    ("due"@, "due_at:"@ + due, outcome_command_text(r.id))
                } else {
                    ("scheduled_not_due"@, "due_at:"@ + due, "wait until due, or record early if evidence is available"@)
                }
            } else if kind == Some("trace_count"@) {
                let baseline = or_zero(r.baseline);
                let target = or_zero(r.after_traces);
                if current < baseline {
                    ("schedule_error"@, "trace_count:baseline="@ + decimal(baseline) + ",current="@ + decimal(current as int),
                        "rebuild or repair the persisted trace baseline before judging due state"@)
                } else {
                    let observed = current - baseline;
                    if observed >= target {
                        ("due"@, "trace_count:"@ + decimal(observed) + "/"@ + decimal(target), outcome_command_text(r.id))
                    } else {
                        ("scheduled_not_due"@, "trace_count:"@ + decimal(observed) + "/"@ + decimal(target) + ";remaining="@ + decimal(target - observed),
                            "wait for the remaining stable traces, or record early if evidence is available"@)
                    }
                }
            } else {
                ("awaiting_observation_plan"@, "legacy_null_schedule"@,
                    "reconcile the missing observation plan; do not guess an overdue date"@)
            }
        },
    }
}

/// Implemented work with no observation yet, scheduled by trace count with
/// baseline `b` and target `t`, while the stable trace count `current` is
/// at least `b`: it is due exactly when `current - b >= t` traces were
/// recorded since the baseline; otherwise it is not yet due, with
/// `t - (current - b)` traces remaining.
pub proof fn lemma_trace_count_due(r: OutcomeRow, current: i64, b: i64, t: i64)
    requires
        r.observation_status is None,
        opt_view(r.schedule_kind) == Some("trace_count"@),
        r.baseline == Some(b),
        r.after_traces == Some(t),
        current >= b,
    ensures
        review_state(r, current).0 == "due"@ <==> current - b >= t,
        current - b < t ==> review_state(r, current).0 == "scheduled_not_due"@
            && review_state(r, current).1 == "trace_count:"@ + decimal(current - b) + "/"@ + decimal(t as int)
                + ";remaining="@ + decimal(t - (current - b)),
        current - b >= t ==> review_state(r, current).1 == "trace_count:"@ + decimal(current - b) + "/"@ + decimal(t as int),
{
    reveal_strlit("due");
    reveal_strlit("scheduled_not_due");
    reveal_strlit("trace_count");
    reveal_strlit("manual");
    reveal_strlit("due_at");
    assert("due"@ != "scheduled_not_due"@) by {
        assert("due"@.len() != "scheduled_not_due"@.len());
    }
    assert("trace_count"@ != "manual"@) by {
        assert("trace_count"@.len() != "manual"@.len());
    }
    assert("trace_count"@ != "due_at"@) by {
        assert("trace_count"@.len() != "due_at"@.len());
    }
}

/// The review state of implemented work, by its schedule: a recorded
/// observation gives its own status; a manual schedule is pending; a due
/// time is due exactly when it has been reached; a trace baseline above the
/// current trace count is a schedule error; no schedule awaits a plan.
pub proof fn lemma_review_states(r: OutcomeRow, current: i64)
    ensures
        r.observation_status matches Some(st) ==> review_state(r, current).0 == st@,
        r.observation_status is None && opt_view(r.schedule_kind) == Some("manual"@)
            ==> review_state(r, current).0 == "pending_manual"@,
        r.observation_status is None && opt_view(r.schedule_kind) == Some("due_at"@)
            ==> (review_state(r, current).0 == "due"@ <==> r.due_reached),
        r.observation_status is None && opt_view(r.schedule_kind) == Some("trace_count"@)
            && r.baseline is Some && current < r.baseline->0 ==> review_state(r, current).0 == "schedule_error"@,
        r.observation_status is None && r.schedule_kind is None
            ==> review_state(r, current).0 == "awaiting_observation_plan"@,
{
    reveal_strlit("due");
    reveal_strlit("scheduled_not_due");
    reveal_strlit("trace_count");
    reveal_strlit("manual");
    reveal_strlit("due_at");
    assert("due"@ != "scheduled_not_due"@) by {
        assert("due"@.len() != "scheduled_not_due"@.len());
    }
    assert("trace_count"@ != "manual"@) by {
        assert("trace_count"@.len() != "manual"@.len());
    }
    assert("trace_count"@ != "due_at"@) by {
        assert("trace_count"@.len() != "due_at"@.len());
    }
    assert("manual"@ != "due_at"@) by {
        assert("manual"@[0] != "due_at"@[0]);
    }
}

/// The report line of accepted or implemented work.
pub open spec fn row_item(r: OutcomeRow, current: i64) -> HealthItemView {
    if r.status@ == "accepted"@ {
        HealthItemView {
            category: "accepted_work"@,
            id: decimal(r.id as int),
            title: r.title@,
            state: "in_progress"@,
            schedule: match r.schedule_kind { Some(k) => k@, None => "awaiting_observation_plan"@ },
            outcome: Seq::empty(),
            evidence: Seq::empty(),
            next_action: "complete the designated resolver story with fresh proof"@,
        }
    } else {
        let (state, schedule, next) = review_state(r, current);
        HealthItemView {
            category: "outcome_review"@,
            id: decimal(r.id as int),
            title: r.title@,
            state: state,
            schedule: schedule,
            outcome: or_empty(r.observation_outcome),
            evidence: or_empty(r.observation_evidence),
            next_action: next,
        }
    }
}

pub open spec fn row_items(rows: Seq<OutcomeRow>, current: i64) -> Seq<HealthItemView>
    decreases rows.len(),
{
    if rows.len() == 0 {
        seq![]
    } else {
        row_items(rows.drop_last(), current).push(row_item(rows.last(), current))
    }
}

/// The trace-count arithmetic of the row stays within `i64`.
pub open spec fn row_in_range(r: OutcomeRow, current: i64) -> bool {
    let baseline = or_zero(r.baseline);
    let target = or_zero(r.after_traces);
    current >= baseline ==> (current - baseline <= i64::MAX && target - (current - baseline) >= i64::MIN)
}

// ---------------------------------------------------------------------------
// Ordering
// ---------------------------------------------------------------------------

/// `a` comes after `b`: a higher category rank, or the same rank and a
/// greater id.
pub open spec fn after(a: HealthItemView, b: HealthItemView) -> bool {
    category_rank(a.category) > category_rank(b.category)
        || (category_rank(a.category) == category_rank(b.category) && lex_lt(b.id, a.id))
}

/// The first position of `s` holding a line that comes after `x`, or its length.
pub open spec fn insert_pos(s: Seq<HealthItemView>, x: HealthItemView) -> int
    decreases s.len(),
{
    if s.len() == 0 {
        0
    } else if after(s[0], x) {
        0
    } else {
        1 + insert_pos(s.drop_first(), x)
    }
}

/// `s` ordered by category rank, then id, keeping the order of equal lines
/// (the result of a stable sort).
pub open spec fn stable_sorted(s: Seq<HealthItemView>) -> Seq<HealthItemView>
    decreases s.len(),
{
    if s.len() == 0 {
        seq![]
    } else {
        let t = stable_sorted(s.drop_last());
        t.insert(insert_pos(t, s.last()), s.last())
    }
}

/// The whole report, in order.
pub open spec fn health_report(
    drift: nat,
    proposals: Seq<ImprovementProposal>,
    pending: Seq<PendingOccurrence>,
    rows: Seq<OutcomeRow>,
    current: i64,
) -> Seq<HealthItemView> {
    stable_sorted(with_pending(audit_items(drift) + proposal_items(proposals), pending) + row_items(rows, current))
}


// ---------------------------------------------------------------------------
// Building the report
// ---------------------------------------------------------------------------

fn after_exec(a: &ImprovementHealthItem, b: &ImprovementHealthItem) -> (r: bool)
    ensures
        r == after(a@, b@),
{
    let ra = health_category_rank(a.category.as_str());
    let rb = health_category_rank(b.category.as_str());
    ra > rb || (ra == rb && lex_less(&crate::text::chars_of(b.id.as_str()), &crate::text::chars_of(a.id.as_str())))
}

proof fn lemma_insert_pos(s: Seq<HealthItemView>, x: HealthItemView, j: int)
    requires
        0 <= j <= s.len(),
        forall|k: int| 0 <= k < j ==> !after(#[trigger] s[k], x),
        j < s.len() ==> after(s[j], x),
    ensures
        insert_pos(s, x) == j,
    decreases s.len(),
{
    if s.len() > 0 && j > 0 {
        assert forall|k: int| 0 <= k < j - 1 implies !after(#[trigger] s.drop_first()[k], x) by {
            assert(s.drop_first()[k] == s[k + 1]);
        }
        if j < s.len() {
            assert(s.drop_first()[j - 1] == s[j]);
        }
        assert(!after(s[0], x));
        lemma_insert_pos(s.drop_first(), x, j - 1);
    }
}

/// No line of `s` comes after a later one.
pub open spec fn in_report_order(s: Seq<HealthItemView>) -> bool {
    forall|i: int, j: int| 0 <= i < j < s.len() ==> !after(#[trigger] s[i], #[trigger] s[j])
}

proof fn lemma_after_transitive(a: HealthItemView, b: HealthItemView, c: HealthItemView)
    requires
        after(a, b),
        after(b, c),
    ensures
        after(a, c),
{
    if category_rank(a.category) == category_rank(b.category) && category_rank(b.category) == category_rank(c.category) {
        lemma_lex_transitive(c.id, b.id, a.id);
    }
}

proof fn lemma_insert_pos_bounds(t: Seq<HealthItemView>, x: HealthItemView)
    ensures
        0 <= insert_pos(t, x) <= t.len(),
        forall|k: int| 0 <= k < insert_pos(t, x) ==> !after(#[trigger] t[k], x),
        insert_pos(t, x) < t.len() ==> after(t[insert_pos(t, x)], x),
    decreases t.len(),
{
    if t.len() > 0 && !after(t[0], x) {
        lemma_insert_pos_bounds(t.drop_first(), x);
        let p = insert_pos(t, x);
        assert forall|k: int| 0 <= k < p implies !after(#[trigger] t[k], x) by {
            if k > 0 {
                assert(t[k] == t.drop_first()[k - 1]);
            }
        }
        if p < t.len() {
            assert(t[p] == t.drop_first()[p - 1]);
        }
    }
}

/// The report lists its lines by category rank, then id, and holds each
/// line it was given exactly once.
pub proof fn lemma_report_order(s: Seq<HealthItemView>)
    ensures
        in_report_order(stable_sorted(s)),
        stable_sorted(s).to_multiset() == s.to_multiset(),
    decreases s.len(),
{
    broadcast use vstd::seq_lib::group_to_multiset_ensures;
    if s.len() == 0 {
        assert(stable_sorted(s) =~= s);
    } else {
        let t = stable_sorted(s.drop_last());
        let x = s.last();
        lemma_report_order(s.drop_last());
        lemma_insert_pos_bounds(t, x);
        let p = insert_pos(t, x);
        let r = t.insert(p, x);
        assert forall|i: int, j: int| 0 <= i < j < r.len() implies !after(#[trigger] r[i], #[trigger] r[j]) by {
            if j < p {
                assert(r[i] == t[i] && r[j] == t[j]);
            } else if j == p {
                assert(r[i] == t[i]);
            } else if i < p {
                assert(r[i] == t[i] && r[j] == t[j - 1]);
            } else if i == p {
                assert(r[j] == t[j - 1]);
                if after(x, t[j - 1]) {
                    if j - 1 > p {
                        lemma_after_transitive(t[p], x, t[j - 1]);
                    } else {
                        lemma_after_transitive(t[p], x, t[p]);
                        lemma_lex_irreflexive(t[p].id);
                    }
                }
            } else {
                assert(r[i] == t[i - 1] && r[j] == t[j - 1]);
            }
        }
        assert(s =~= s.drop_last().push(x));
    }
}

/// `items` in report order: by category rank, then id, equal lines kept in
/// their order.
pub fn sort_health_items(items: Vec<ImprovementHealthItem>) -> (out: Vec<ImprovementHealthItem>)
    ensures
        item_views(out@) == stable_sorted(item_views(items@)),
        in_report_order(item_views(out@)),
        item_views(out@).to_multiset() == item_views(items@).to_multiset(),
{
    let ghost orig = items@;
    let mut rest = items;
    let mut out: Vec<ImprovementHealthItem> = Vec::new();
    let mut i: usize = 0;
    let n = rest.len();
    while rest.len() > 0
        invariant
            n == orig.len(),
            i + rest@.len() == n,
            rest@ == orig.skip(i as int),
            item_views(out@) == stable_sorted(item_views(orig.take(i as int))),
        decreases rest@.len(),
    {
        let x = rest.remove(0);
        assert(orig.skip(i as int)[0] == orig[i as int]);
        assert(orig.skip(i as int).remove(0) == orig.skip(i + 1));
        let mut j: usize = 0;
        while j < out.len() && !after_exec(&out[j], &x)
            invariant
                j <= out@.len(),
                forall|k: int| 0 <= k < j ==> !after(#[trigger] item_views(out@)[k], x@),
            decreases out@.len() - j,
        {
            j = j + 1;
        }
        proof {
            lemma_insert_pos(item_views(out@), x@, j as int);
            let t = item_views(orig.take(i + 1));
            assert(t.drop_last() == item_views(orig.take(i as int)));
            assert(t.last() == x@);
            assert(item_views(out@.insert(j as int, x)) == item_views(out@).insert(j as int, x@));
        }
        out.insert(j, x);
        i = i + 1;
    }
    assert(orig.take(n as int) == orig);
    proof {
        lemma_report_order(item_views(orig));
    }
    out
}

fn health_item(
    category: &str,
    id: String,
    title: String,
    state: String,
    schedule: String,
    outcome: String,
    evidence: String,
    next_action: String,
) -> (r: ImprovementHealthItem)
    ensures
        r@ == (HealthItemView {
            category: category@,
            id: id@,
            title: title@,
            state: state@,
            schedule: schedule@,
            outcome: outcome@,
            evidence: evidence@,
            next_action: next_action@,
        }),
{
    ImprovementHealthItem { category: category.to_owned(), id, title, state, schedule, outcome, evidence, next_action }
}

fn decide_action(key: &str) -> (r: String)
    ensures
        r@ == decide_text(key@),
{
    let t = append_str("harness-cli propose --accept ".to_owned(), key);
    let t = append_str(t, " <schedule> OR --reject ");
    let t = append_str(t, key);
    append_str(t, " --reason <reason>")
}

fn proposal_item_exec(p: &ImprovementProposal) -> (r: Option<ImprovementHealthItem>)
    ensures
        match r {
            Some(i) => proposal_item(*p) == Some(i@),
            None => proposal_item(*p) is None,
        },
{
    let s = p.lifecycle_state.as_str();
    let category = if is_lit(s, "new") || is_lit(s, "pending") || is_lit(s, "legacy-unclassified") {
        "proposal_decision"
    } else if is_lit(s, "regression") || is_lit(s, "reconsideration") {
        "recurrence"
    } else {
        return None;
    };
    let next_action = if is_lit(s, "legacy-unclassified") {
        "reconcile legacy identity before accepting or rejecting".to_owned()
    } else {
        decide_action(p.key.as_str())
    };
    Some(health_item(
        category,
        p.key.clone(),
        p.title.clone(),
        p.lifecycle_state.clone(),
        "decision_pending".to_owned(),
        String::new(),
        p.evidence.clone(),
        next_action,
    ))
}

fn outcome_command(id: i64) -> (r: String)
    ensures
        r@ == outcome_command_text(id),
{
    let t = append_str("harness-cli backlog outcome record --id ".to_owned(), decimal_i64(id).as_str());
    append_str(t, " --status <confirmed|ineffective|reverted> --outcome <text>")
}

fn observation_action_exec(status: &str) -> (r: String)
    ensures
        r@ == observation_action(status@),
{
    if is_lit(status, "confirmed") {
        "continue monitoring; append a later observation if impact changes".to_owned()
    } else if is_lit(status, "ineffective") {
        "review the ineffective change and decide the next proposal action".to_owned()
    } else if is_lit(status, "reverted") {
        "inspect recurrence evidence before accepting replacement work".to_owned()
    } else if is_lit(status, "legacy_recorded") {
        "preserved legacy evidence; append a modern observation when measured".to_owned()
    } else {
        "inspect outcome history".to_owned()
    }
}

fn or_empty_exec(o: &Option<String>) -> (r: String)
    ensures
        r@ == or_empty(*o),
{
    match o {
        Some(s) => s.clone(),
        None => String::new(),
    }
}

fn review_state_exec(r: &OutcomeRow, current: i64) -> (out: (String, String, String))
    requires
        row_in_range(*r, current),
    ensures
        (out.0@, out.1@, out.2@) == review_state(*r, current),
{
    match &r.observation_status {
        Some(status) => {
            let ordinal: i64 = match r.ordinal {
                Some(o) => o,
                None => 0,
            };
            let schedule = append_str("observed_ordinal_".to_owned(), decimal_i64(ordinal).as_str());
            (status.clone(), schedule, observation_action_exec(status.as_str()))
        },
        None => {
            let kind: Option<&str> = match &r.schedule_kind {
                Some(k) => Some(k.as_str()),
                None => None,
            };
            let is_manual = match kind { Some(k) => is_lit(k, "manual"), None => false };
            let is_due = match kind { Some(k) => is_lit(k, "due_at"), None => false };
            let is_traces = match kind { Some(k) => is_lit(k, "trace_count"), None => false };
            if is_manual {
                ("pending_manual".to_owned(), "manual".to_owned(), outcome_command(r.id))
            } else if is_due {
                let due = or_empty_exec(&r.due_at);
                let schedule = append_str("due_at:".to_owned(), due.as_str());
                if r.due_reached {
                    ("due".to_owned(), schedule, outcome_command(r.id))
                } else {
                    ("scheduled_not_due".to_owned(), schedule, "wait until due, or record early if evidence is available".to_owned())
                }
            } else if is_traces {
                let baseline: i64 = match r.baseline { Some(b) => b, None => 0 };
                let target: i64 = match r.after_traces { Some(t) => t, None => 0 };
                if current < baseline {
                    let t = append_str("trace_count:baseline=".to_owned(), decimal_i64(baseline).as_str());
                    let t = append_str(t, ",current=");
                    let t = append_str(t, decimal_i64(current).as_str());
                    ("schedule_error".to_owned(), t, "rebuild or repair the persisted trace baseline before judging due state".to_owned())
                } else {
                    let observed: i64 = current - baseline;
                    let t = append_str("trace_count:".to_owned(), decimal_i64(observed).as_str());
                    let t = append_str(t, "/");
                    let t = append_str(t, decimal_i64(target).as_str());
                    if observed >= target {
                        ("due".to_owned(), t, outcome_command(r.id))
                    } else {
                        let remaining: i64 = target - observed;
                        let t = append_str(t, ";remaining=");
                        let t = append_str(t, decimal_i64(remaining).as_str());
                        ("scheduled_not_due".to_owned(), t, "wait for the remaining stable traces, or record early if evidence is available".to_owned())
                    }
                }
            } else {
                ("awaiting_observation_plan".to_owned(), "legacy_null_schedule".to_owned(),
                    "reconcile the missing observation plan; do not guess an overdue date".to_owned())
            }
        },
    }
}

fn row_item_exec(r: &OutcomeRow, current: i64) -> (out: ImprovementHealthItem)
    requires
        row_in_range(*r, current),
    ensures
        out@ == row_item(*r, current),
{
    if is_lit(r.status.as_str(), "accepted") {
        let schedule = match &r.schedule_kind {
            Some(k) => k.clone(),
            None => "awaiting_observation_plan".to_owned(),
        };
        health_item(
            "accepted_work",
            decimal_i64(r.id),
            r.title.clone(),
            "in_progress".to_owned(),
            schedule,
            String::new(),
            String::new(),
            "complete the designated resolver story with fresh proof".to_owned(),
        )
    } else {
        let (state, schedule, next) = review_state_exec(r, current);
        health_item(
            "outcome_review",
            decimal_i64(r.id),
            r.title.clone(),
            state,
            schedule,
            or_empty_exec(&r.observation_outcome),
            or_empty_exec(&r.observation_evidence),
            next,
        )
    }
}

fn pending_item_exec(p: &PendingOccurrence) -> (r: ImprovementHealthItem)
    ensures
        r@ == pending_item(*p),
{
    health_item(
        "proposal_decision",
        p.proposal_key.clone(),
        p.title.clone(),
        "pending".to_owned(),
        "decision_pending".to_owned(),
        String::new(),
        append_str("persisted backlog #".to_owned(), decimal_i64(p.id).as_str()),
        decide_action(p.proposal_key.as_str()),
    )
}

fn items_have_id(items: &Vec<ImprovementHealthItem>, id: &String) -> (b: bool)
    ensures
        b == has_id(item_views(items@), id@),
{
    let mut i: usize = 0;
    while i < items.len()
        invariant
            i <= items@.len(),
            forall|k: int| 0 <= k < i ==> items@[k].id@ != id@,
        decreases items@.len() - i,
    {
        if items[i].id == *id {
            assert(item_views(items@)[i as int].id == id@);
            return true;
        }
        i = i + 1;
    }
    assert forall|k: int| 0 <= k < item_views(items@).len() implies item_views(items@)[k].id != id@ by {
        assert(item_views(items@)[k] == items@[k]@);
    }
    false
}

/// The improvement-health report (see `health_report`): `drift` actionable
/// audit findings, the classified `proposals`, stored `pending` occurrences,
/// the accepted and implemented `rows`, and the current count of stable
/// traces.
pub fn improvement_health_items(
    drift: usize,
    proposals: &Vec<ImprovementProposal>,
    pending: &Vec<PendingOccurrence>,
    rows: &Vec<OutcomeRow>,
    current: i64,
) -> (out: Vec<ImprovementHealthItem>)
    requires
        forall|k: int| 0 <= k < rows@.len() ==> row_in_range(#[trigger] rows@[k], current),
    ensures
        item_views(out@) == health_report(drift as nat, proposals@, pending@, rows@, current),
        in_report_order(item_views(out@)),
{
    let mut items: Vec<ImprovementHealthItem> = Vec::new();
    if drift > 0 {
        let title = append_str(decimal_usize(drift), " actionable audit finding(s)");
        items.push(health_item(
            "audit",
            "entropy".to_owned(),
            title,
            "drift".to_owned(),
            "now".to_owned(),
            String::new(),
            String::new(),
            "harness-cli audit".to_owned(),
        ));
    }
    assert(item_views(items@) == audit_items(drift as nat));
    let ghost base = item_views(items@);
    let mut i: usize = 0;
    while i < proposals.len()
        invariant
            i <= proposals@.len(),
            base == audit_items(drift as nat),
            item_views(items@) == base + proposal_items(proposals@.take(i as int)),
        decreases proposals@.len() - i,
    {
        assert(proposals@.take(i + 1).drop_last() == proposals@.take(i as int));
        assert(proposals@.take(i + 1).last() == proposals@[i as int]);
        match proposal_item_exec(&proposals[i]) {
            Some(item) => {
                assert(item_views(items@.push(item)) == item_views(items@).push(item@));
                items.push(item);
            },
            None => {},
        }
        i = i + 1;
    }
    assert(proposals@.take(proposals@.len() as int) == proposals@);
    let ghost with_props = item_views(items@);
    let mut i: usize = 0;
    while i < pending.len()
        invariant
            i <= pending@.len(),
            with_props == audit_items(drift as nat) + proposal_items(proposals@),
            item_views(items@) == with_pending(with_props, pending@.take(i as int)),
        decreases pending@.len() - i,
    {
        assert(pending@.take(i + 1).drop_last() == pending@.take(i as int));
        assert(pending@.take(i + 1).last() == pending@[i as int]);
        if !items_have_id(&items, &pending[i].proposal_key) {
            let item = pending_item_exec(&pending[i]);
            assert(item_views(items@.push(item)) == item_views(items@).push(item@));
            items.push(item);
        }
        i = i + 1;
    }
    assert(pending@.take(pending@.len() as int) == pending@);
    let ghost with_pend = item_views(items@);
    let mut i: usize = 0;
    while i < rows.len()
        invariant
            i <= rows@.len(),
            forall|k: int| 0 <= k < rows@.len() ==> row_in_range(#[trigger] rows@[k], current),
            with_pend == with_pending(audit_items(drift as nat) + proposal_items(proposals@), pending@),
            item_views(items@) == with_pend + row_items(rows@.take(i as int), current),
        decreases rows@.len() - i,
    {
        assert(rows@.take(i + 1).drop_last() == rows@.take(i as int));
        assert(rows@.take(i + 1).last() == rows@[i as int]);
        let item = row_item_exec(&rows[i], current);
        assert(item_views(items@.push(item)) == item_views(items@).push(item@));
        items.push(item);
        i = i + 1;
    }
    assert(rows@.take(rows@.len() as int) == rows@);
    sort_health_items(items)
}

/// An implemented item with no observation yet, scheduled by a due time:
/// the only kind of row whose `due_reached` needs the clock.
pub open spec fn awaits_due_time(r: OutcomeRow) -> bool {
    &&& r.status@ == "implemented"@
    &&& r.observation_status is None
    &&& opt_view(r.schedule_kind) == Some("due_at"@)
}

/// Whether `row` needs its due time compared with the clock (see
/// `awaits_due_time`).
pub fn needs_due_check(row: &OutcomeRow) -> (b: bool)
    ensures
        b == awaits_due_time(*row),
{
    is_lit(row.status.as_str(), "implemented") && row.observation_status.is_none() && match &row.schedule_kind {
        Some(k) => is_lit(k.as_str(), "due_at"),
        None => false,
    }
}

} // verus!
