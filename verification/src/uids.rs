//! The uids minted for new records: which fields of each record go into the
//! material that its uid is derived from, and under which prefix.
use vstd::prelude::*;
use crate::text::append_str;
use crate::numbers::{decimal, decimal_i64};
use crate::evidence::{fresh_material, stable_uid_of};
use crate::repository::SqliteHarnessRepository;

verus! {

/// `r` is a uid minted under `prefix` for `material` at some time in
/// nanoseconds since the Unix epoch.
pub open spec fn minted(prefix: Seq<char>, material: Seq<char>, r: Seq<char>) -> bool {
    exists|nanos: int| 0 <= nanos <= i64::MAX && r == stable_uid_of(prefix, fresh_material(material, nanos))
}

/// Fields joined by a NUL character.
pub open spec fn joined(a: Seq<char>, b: Seq<char>) -> Seq<char> {
    a + seq!['\0'] + b
}

/// The text of an optional field; empty when absent.
pub open spec fn or_empty(v: Option<Seq<char>>) -> Seq<char> {
    match v {
        Some(s) => s,
        None => Seq::empty(),
    }
}

/// `a`, a NUL character, then `b`.
fn join(a: &str, b: &str) -> (r: String)
    ensures
        r@ == joined(a@, b@),
{
    proof {
        reveal_strlit("\0");
    }
    append_str(append_str(a.to_owned(), "\0"), b)
}

/// The text of an optional field, empty when absent.
fn text_or_empty(v: &Option<String>) -> (r: String)
    ensures
        r@ == or_empty(match v {
            Some(s) => Some(s@),
            None => None,
        }),
{
    match v {
        Some(s) => s.clone(),
        None => String::new(),
    }
}

/// The uid of a new intake: under `ink`, from its input type, summary and
/// risk lane.
pub fn intake_uid(input_type: &str, summary: &str, risk_lane: &str) -> (r: String)
    ensures
        minted("ink"@, joined(joined(input_type@, summary@), risk_lane@), r@),
{
    let material = join(join(input_type, summary).as_str(), risk_lane);
    SqliteHarnessRepository::new_uid("ink", material.as_str())
}

/// The uid of a new trace: under `trc`, from its task summary and its story
/// (empty when it has none).
pub fn trace_uid(task_summary: &str, story_id: &Option<String>) -> (r: String)
    ensures
        minted("trc"@, joined(task_summary@, or_empty(match story_id {
            Some(s) => Some(s@),
            None => None,
        })), r@),
{
    let story = text_or_empty(story_id);
    let material = join(task_summary, story.as_str());
    SqliteHarnessRepository::new_uid("trc", material.as_str())
}

/// The uid of a backlog item added by hand: under `blg`, from its title and
/// what it was discovered while doing (empty when not given).
pub fn backlog_uid(title: &str, discovered_while: &Option<String>) -> (r: String)
    ensures
        minted("blg"@, joined(title@, or_empty(match discovered_while {
            Some(s) => Some(s@),
            None => None,
        })), r@),
{
    let discovered = text_or_empty(discovered_while);
    let material = join(title, discovered.as_str());
    SqliteHarnessRepository::new_uid("blg", material.as_str())
}

/// The uid of a new intervention: under `int`, from its type and description.
pub fn intervention_uid(intervention_type: &str, description: &str) -> (r: String)
    ensures
        minted("int"@, joined(intervention_type@, description@), r@),
{
    let material = join(intervention_type, description);
    SqliteHarnessRepository::new_uid("int", material.as_str())
}

/// The uid of an outcome observation: under `obs`, from the backlog item's
/// uid and the observation's ordinal.
pub fn observation_uid(backlog_uid: &str, ordinal: i64) -> (r: String)
    ensures
        minted("obs"@, joined(backlog_uid@, decimal(ordinal as int)), r@),
{
    let material = join(backlog_uid, decimal_i64(ordinal).as_str());
    SqliteHarnessRepository::new_uid("obs", material.as_str())
}

/// The uid of a recurrence of a proposal: under `blg`, from the proposal key,
/// the predecessor's uid and the kind of occurrence.
pub fn occurrence_uid(key: &str, predecessor_uid: &str, occurrence_kind: &str) -> (r: String)
    ensures
        minted("blg"@, joined(joined(key@, predecessor_uid@), occurrence_kind@), r@),
{
    let material = join(join(key, predecessor_uid).as_str(), occurrence_kind);
    SqliteHarnessRepository::new_uid("blg", material.as_str())
}

/// The uid of a story completion: under `cmp`, from the story id and the
/// completion time.
pub fn completion_uid(story_id: &str, completed_at: &str) -> (r: String)
    ensures
        minted("cmp"@, joined(story_id@, completed_at@), r@),
{
    let material = join(story_id, completed_at);
    SqliteHarnessRepository::new_uid("cmp", material.as_str())
}

/// The uid of a new audit evidence episode: under `aud`, from the finding's
/// key.
pub fn audit_episode_uid(finding_key: &str) -> (r: String)
    ensures
        minted("aud"@, finding_key@, r@),
{
    SqliteHarnessRepository::new_uid("aud", finding_key)
}

/// The uid of the trace that records a legacy reconciliation: under `trc`,
/// from the fixed text `legacy improvement reconciliation`.
pub fn reconciliation_trace_uid() -> (r: String)
    ensures
        minted("trc"@, "legacy improvement reconciliation"@, r@),
{
    SqliteHarnessRepository::new_uid("trc", "legacy improvement reconciliation")
}

} // verus!
