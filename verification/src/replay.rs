//! Replaying changesets: which lines of a changeset file hold operations,
//! the header that names the run, the checks an operation makes against the
//! store, and the order in which a directory of changesets is replayed.
use vstd::prelude::*;
use crate::errors::HarnessError;
use crate::json::{JsonValue, entry_index, get_str, json_i64, json_str, lemma_entry_index_prefix};
use crate::numbers::{decimal, decimal_usize};
use crate::text::{
    append_str, chars_of, ends_with_str, has_suffix, is_lit, lemma_lex_irreflexive, lemma_lex_transitive, lex_less, lex_lt,
    lines_of, opt_view,
    split_lines, string_of, trim, trim_bounds, views,
};
use crate::changeset::{IdTable, Param, ParamView, optional_int, params_view, required_string, required_text, fault, text_view};
use crate::lifecycle::{is_link_relationship, is_relationship, refusal_matches, resolver_mutation_outcome, touches_resolver, validate_resolver_mutation};

verus! {

// ---------------------------------------------------------------------------
// The lines of a changeset file
// ---------------------------------------------------------------------------

/// The operation lines of a changeset: each line of `content` that is not
/// blank, with its line number counted from 1.
pub open spec fn operation_lines(lines: Seq<Seq<char>>) -> Seq<(int, Seq<char>)>
    decreases lines.len(),
{
    if lines.len() == 0 {
        seq![]
    } else {
        let rest = operation_lines(lines.drop_last());
        if trim(lines.last()).len() == 0 {
            rest
        } else {
            rest.push((lines.len() as int, lines.last()))
        }
    }
}

pub open spec fn numbered_view(v: Seq<(usize, String)>) -> Seq<(int, Seq<char>)> {
    v.map_values(|p: (usize, String)| (p.0 as int, p.1@))
}

/// The lines of `content` that hold operations, numbered from 1.
pub fn changeset_lines(content: &str) -> (out: Vec<(usize, String)>)
    ensures
        numbered_view(out@) == operation_lines(lines_of(content@)),
{
    let cs = chars_of(content);
    let lines = split_lines(cs.as_slice());
    let mut out: Vec<(usize, String)> = Vec::new();
    let mut i: usize = 0;
    while i < lines.len()
        invariant
            i <= lines@.len(),
            views(lines@) == lines_of(content@),
            numbered_view(out@) == operation_lines(views(lines@).take(i as int)),
        decreases lines@.len() - i,
    {
        let (from, to) = trim_bounds(lines[i].as_slice());
        let ghost t = views(lines@).take(i + 1);
        assert(t.drop_last() == views(lines@).take(i as int));
        assert(t.last() == lines@[i as int]@);
        if from < to {
            let ghost before = out@;
            out.push((i + 1, string_of(lines[i].as_slice())));
            assert(out@.drop_last() == before);
            assert(numbered_view(out@) =~= numbered_view(before).push(((i + 1) as int, lines@[i as int]@)));
        }
        i = i + 1;
    }
    assert(views(lines@).take(i as int) == views(lines@));
    out
}

/// The run a changeset belongs to: its first operation must be the header,
/// which names the run.
pub open spec fn changeset_run(ops: Seq<JsonValue>) -> Result<Seq<char>, crate::changeset::Fault> {
    if ops.len() == 0 || json_str(ops[0], "op"@) != Some("changeset.header"@) {
        Err(crate::changeset::Fault::Invalid("first operation must be changeset.header"@))
    } else {
        required_text(ops[0], "run_id"@)
    }
}

/// The header a changeset file opens with: the operation
/// `changeset.header`, format version 1, the run it belongs to and the
/// schema version of the store that wrote it. Read back, it names `run_id`
/// as the changeset's run.
pub fn changeset_header(run_id: &str, base_schema_version: i64) -> (h: JsonValue)
    ensures
        json_str(h, "op"@) == Some("changeset.header"@),
        json_i64(h, "version"@) == Some(1i64),
        json_str(h, "run_id"@) == Some(run_id@),
        json_i64(h, "base_schema_version"@) == Some(base_schema_version),
        changeset_run(seq![h]) == Ok::<Seq<char>, crate::changeset::Fault>(run_id@),
{
    let mut entries: Vec<(String, JsonValue)> = Vec::new();
    entries.push(("op".to_owned(), JsonValue::Str("changeset.header".to_owned())));
    entries.push(("version".to_owned(), JsonValue::Number(Some(1))));
    entries.push(("run_id".to_owned(), JsonValue::Str(run_id.to_owned())));
    entries.push(("base_schema_version".to_owned(), JsonValue::Number(Some(base_schema_version))));
    let h = JsonValue::Object(entries);
    proof {
        reveal_strlit("op");
        reveal_strlit("version");
        reveal_strlit("run_id");
        reveal_strlit("base_schema_version");
        let es = entries@;
        let empty = Seq::<(String, JsonValue)>::empty();
        assert(es.take(1).drop_last() =~= empty);
        assert(es.take(2).drop_last() =~= es.take(1));
        assert(es.take(3).drop_last() =~= es.take(2));
        assert(es.take(4).drop_last() =~= es.take(3));
        assert(entry_index(empty, "op"@) == -1);
        assert(entry_index(empty, "version"@) == -1);
        assert(entry_index(empty, "run_id"@) == -1);
        assert(entry_index(empty, "base_schema_version"@) == -1);
        assert(es.take(1).last().0@ == "op"@);
        assert(es.take(2).last().0@ == "version"@);
        assert(es.take(3).last().0@ == "run_id"@);
        assert(es.take(4).last().0@ == "base_schema_version"@);
        assert("op"@ != "version"@ && "op"@ != "run_id"@ && "op"@ != "base_schema_version"@);
        assert("version"@ != "run_id"@ && "version"@ != "base_schema_version"@);
        assert("run_id"@ != "base_schema_version"@);
        assert(entry_index(es.take(1), "op"@) == 0);
        lemma_entry_index_prefix(es, "op"@, 1);
        assert(entry_index(es.take(1), "version"@) == -1);
        assert(entry_index(es.take(2), "version"@) == 1);
        lemma_entry_index_prefix(es, "version"@, 2);
        assert(entry_index(es.take(1), "run_id"@) == -1);
        assert(entry_index(es.take(2), "run_id"@) == -1);
        assert(entry_index(es.take(3), "run_id"@) == 2);
        lemma_entry_index_prefix(es, "run_id"@, 3);
        assert(entry_index(es.take(1), "base_schema_version"@) == -1);
        assert(entry_index(es.take(2), "base_schema_version"@) == -1);
        assert(entry_index(es.take(3), "base_schema_version"@) == -1);
        assert(entry_index(es.take(4), "base_schema_version"@) == 3);
        assert(es.take(4) =~= es);
    }
    h
}

/// The run id of a changeset, read from its header.
pub fn changeset_run_id(ops: &Vec<JsonValue>) -> (r: Result<String, HarnessError>)
    ensures
        text_view(r) == changeset_run(ops@),
{
    let is_header = ops.len() > 0 && match get_str(&ops[0], "op") {
        Some(op) => is_lit(op.as_str(), "changeset.header"),
        None => false,
    };
    if !is_header {
        return Err(HarnessError::InvalidChangeset("first operation must be changeset.header".to_owned()));
    }
    required_string(&ops[0], "run_id")
}

// ---------------------------------------------------------------------------
// Checks against the store
// ---------------------------------------------------------------------------

/// What replaying a story link does once the store is checked.
#[derive(Debug)]
pub enum LinkReplay {
    /// The link already has this relationship.
    Unchanged,
    /// Write the link of the backlog row `backlog_id` with `linked_at`;
    /// clear the story's last verification when its resolver set changed.
    Write { backlog_id: i64, linked_at: Param, clear_verification: bool },
}

/// Decides a replayed `story.backlog.link`, given the backlog row with
/// `backlog_uid` as `(id, status)`, the story's status, the link's previous
/// relationship, the other story that resolves the item, and the link time
/// as read from the operation. The checks run in the replay's order:
/// backlog row, story, unchanged link, resolver rule, relationship, time.
pub fn replay_link(
    story_id: &str,
    backlog_uid: &str,
    relationship: &str,
    backlog: Option<(i64, String)>,
    story_status: Option<String>,
    previous: Option<String>,
    other_resolver: Option<String>,
    linked_at: Result<Param, HarnessError>,
) -> (r: Result<LinkReplay, HarnessError>)
    ensures
        match backlog {
            None => r matches Err(HarnessError::InvalidChangeset(m))
                && m@ == "story backlog link references missing backlog uid '"@ + backlog_uid@ + "'"@,
            Some((backlog_id, backlog_status)) => match story_status {
                None => r matches Err(HarnessError::StoryNotFound(s)) && s@ == story_id@,
                Some(status) => {
                    let touches = touches_resolver(relationship@, opt_view(previous));
                    let outcome = resolver_mutation_outcome(story_id@, backlog_id, backlog_status@, status@, opt_view(other_resolver));
                    if opt_view(previous) == Some(relationship@) {
                        r matches Ok(LinkReplay::Unchanged)
                    } else if touches && outcome is Err {
                        refusal_matches(outcome, backlog_id, r)
                    } else if !is_relationship(relationship@) {
                        r matches Err(HarnessError::StoryBacklogRelationship)
                    } else {
                        match linked_at {
                            Err(e) => r matches Err(f) && f == e,
                            Ok(p) => r matches Ok(LinkReplay::Write { backlog_id: id, linked_at: q, clear_verification: c })
                                && id == backlog_id && q@ == p@ && c == touches,
                        }
                    }
                },
            },
        },
{
    let (backlog_id, backlog_status) = match backlog {
        None => {
            let m = append_str(append_str("story backlog link references missing backlog uid '".to_owned(), backlog_uid), "'");
            return Err(HarnessError::InvalidChangeset(m));
        },
        Some(row) => row,
    };
    let status = match story_status {
        None => { return Err(HarnessError::StoryNotFound(story_id.to_owned())); },
        Some(s) => s,
    };
    let same = match &previous {
        Some(p) => is_lit(p.as_str(), relationship),
        None => false,
    };
    if same {
        return Ok(LinkReplay::Unchanged);
    }
    let touches = is_lit(relationship, "resolves") || match &previous {
        Some(p) => is_lit(p.as_str(), "resolves"),
        None => false,
    };
    if touches {
        match validate_resolver_mutation(story_id, backlog_id, backlog_status.as_str(), status.as_str(), other_resolver) {
            Ok(()) => {},
            Err(e) => { return Err(e); },
        }
    }
    if !is_link_relationship(relationship) {
        return Err(HarnessError::StoryBacklogRelationship);
    }
    match linked_at {
        Err(e) => Err(e),
        Ok(p) => Ok(LinkReplay::Write { backlog_id, linked_at: p, clear_verification: touches }),
    }
}

/// What replaying a story unlink does once the store is checked.
#[derive(Debug, Clone, Copy, PartialEq, Eq)]
pub enum UnlinkReplay {
    /// There is no such link.
    Unchanged,
    /// Delete the link; clear the story's last verification when it was a
    /// resolver link.
    Delete { clear_verification: bool },
}

/// Decides a replayed `story.backlog.unlink`, given the link as
/// `(backlog id, backlog status, relationship)`, the story's status and the
/// other story that resolves the item.
pub fn replay_unlink(
    story_id: &str,
    linked: Option<(i64, String, String)>,
    story_status: Option<String>,
    other_resolver: Option<String>,
) -> (r: Result<UnlinkReplay, HarnessError>)
    ensures
        match linked {
            None => r == Ok::<UnlinkReplay, HarnessError>(UnlinkReplay::Unchanged),
            Some((backlog_id, backlog_status, relationship)) => if relationship@ == "resolves"@ {
                match story_status {
                    None => r matches Err(HarnessError::StoryNotFound(s)) && s@ == story_id@,
                    Some(status) => match resolver_mutation_outcome(story_id@, backlog_id, backlog_status@, status@, opt_view(other_resolver)) {
                        Ok(()) => r == Ok::<UnlinkReplay, HarnessError>(UnlinkReplay::Delete { clear_verification: true }),
                        Err(_) => refusal_matches(
                            resolver_mutation_outcome(story_id@, backlog_id, backlog_status@, status@, opt_view(other_resolver)),
                            backlog_id,
                            r,
                        ),
                    },
                }
            } else {
                r == Ok::<UnlinkReplay, HarnessError>(UnlinkReplay::Delete { clear_verification: false })
            },
        },
{
    let (backlog_id, backlog_status, relationship) = match linked {
        None => { return Ok(UnlinkReplay::Unchanged); },
        Some(l) => l,
    };
    if !is_lit(relationship.as_str(), "resolves") {
        return Ok(UnlinkReplay::Delete { clear_verification: false });
    }
    let status = match story_status {
        None => { return Err(HarnessError::StoryNotFound(story_id.to_owned())); },
        Some(s) => s,
    };
    match validate_resolver_mutation(story_id, backlog_id, backlog_status.as_str(), status.as_str(), other_resolver) {
        Ok(()) => Ok(UnlinkReplay::Delete { clear_verification: true }),
        Err(e) => Err(e),
    }
}

/// What reconciling a legacy backlog row does.
#[derive(Debug, Clone, Copy, PartialEq, Eq)]
pub enum ReconcileStep {
    /// A row with the uid is already there.
    Present,
    /// Give the one unkeyed row with the title its uid and keys.
    KeyRow(i64),
    /// No such row: rebuild it from the operation's legacy row.
    Rebuild,
}

/// Decides a replayed `backlog.legacy.reconcile`, given the row that already
/// has the uid, if any, and the unkeyed rows with the title, in id order.
pub fn reconcile_target(title: &str, existing: Option<i64>, unkeyed: &Vec<i64>) -> (r: Result<ReconcileStep, HarnessError>)
    ensures
        existing is Some ==> r == Ok::<ReconcileStep, HarnessError>(ReconcileStep::Present),
        existing is None && unkeyed@.len() > 1 ==> (r matches Err(HarnessError::InvalidChangeset(m))
            && m@ == "legacy reconciliation expected at most one unkeyed row titled '"@ + title@ + "', found "@
                + decimal(unkeyed@.len() as int)),
        existing is None && unkeyed@.len() == 1 ==> r == Ok::<ReconcileStep, HarnessError>(ReconcileStep::KeyRow(unkeyed@[0])),
        existing is None && unkeyed@.len() == 0 ==> r == Ok::<ReconcileStep, HarnessError>(ReconcileStep::Rebuild),
{
    if existing.is_some() {
        return Ok(ReconcileStep::Present);
    }
    if unkeyed.len() > 1 {
        let m = append_str(
            append_str(append_str("legacy reconciliation expected at most one unkeyed row titled '".to_owned(), title), "', found "),
            decimal_usize(unkeyed.len()).as_str(),
        );
        return Err(HarnessError::InvalidChangeset(m));
    }
    if unkeyed.len() == 1 {
        return Ok(ReconcileStep::KeyRow(unkeyed[0]));
    }
    Ok(ReconcileStep::Rebuild)
}

pub open spec fn table_name(table: IdTable) -> Seq<char> {
    match table {
        IdTable::Intake => "intake"@,
        IdTable::Backlog => "backlog"@,
        IdTable::Trace => "trace"@,
    }
}

/// The row id that the uid `reference` names in `table`, given the id the
/// store found for it: no reference resolves to no id, an unknown one is
/// refused.
pub fn resolve_reference(table: IdTable, reference: &Option<String>, found: Option<i64>) -> (r: Result<Option<i64>, HarnessError>)
    ensures
        reference is None ==> r == Ok::<Option<i64>, HarnessError>(None),
        reference is Some && found is Some ==> r == Ok::<Option<i64>, HarnessError>(found),
        reference is Some && found is None ==> (r matches Err(HarnessError::InvalidChangeset(m))
            && m@ == "unknown "@ + table_name(table) + " uid"@),
{
    match reference {
        None => Ok(None),
        Some(_) => match found {
            Some(id) => Ok(Some(id)),
            None => {
                let name = match table {
                    IdTable::Intake => "intake",
                    IdTable::Backlog => "backlog",
                    IdTable::Trace => "trace",
                };
                Err(HarnessError::InvalidChangeset(append_str(append_str("unknown ".to_owned(), name), " uid")))
            },
        },
    }
}

/// The parameters of an insert that needed a resolved id: the uid, the
/// fields before `split`, the id, then the remaining fields.
pub fn resolved_params(uid: &str, rest: &Vec<Param>, split: usize, id: Option<i64>) -> (out: Vec<Param>)
    requires
        split <= rest@.len(),
    ensures
        params_view(out@) == seq![ParamView::Text(uid@)] + params_view(rest@).take(split as int)
            + seq![optional_int(id)] + params_view(rest@).skip(split as int),
{
    let mut out: Vec<Param> = vec![Param::Text(uid.to_owned())];
    let mut i: usize = 0;
    assert(params_view(out@) =~= seq![ParamView::Text(uid@)]);
    while i < rest.len()
        invariant
            i <= rest@.len(),
            split <= rest@.len(),
            params_view(out@) == if i <= split {
                seq![ParamView::Text(uid@)] + params_view(rest@).take(i as int)
            } else {
                seq![ParamView::Text(uid@)] + params_view(rest@).take(split as int) + seq![optional_int(id)]
                    + params_view(rest@).subrange(split as int, i as int)
            },
        decreases rest@.len() - i,
    {
        if i == split {
            let ghost before = out@;
            let p = match id {
                Some(k) => Param::Int(k),
                None => Param::Null,
            };
            out.push(p);
            assert(out@.drop_last() == before);
            assert(params_view(out@) =~= params_view(before).push(optional_int(id)));
        }
        let ghost before = out@;
        let q = match &rest[i] {
            Param::Null => Param::Null,
            Param::Now => Param::Now,
            Param::Text(s) => Param::Text(s.clone()),
            Param::Int(n) => Param::Int(*n),
        };
        out.push(q);
        assert(out@.drop_last() == before);
        assert(params_view(out@) =~= params_view(before).push(rest@[i as int]@));
        assert(params_view(rest@).take(i + 1) =~= params_view(rest@).take(i as int).push(rest@[i as int]@));
        proof {
            if i >= split {
                assert(params_view(rest@).subrange(split as int, i + 1)
                    =~= params_view(rest@).subrange(split as int, i as int).push(rest@[i as int]@));
            }
            assert(params_view(rest@).subrange(split as int, split as int) =~= Seq::<ParamView>::empty());
        }
        i = i + 1;
    }
    if split == rest.len() {
        let p = match id {
            Some(k) => Param::Int(k),
            None => Param::Null,
        };
        out.push(p);
    }
    assert(params_view(rest@).skip(split as int) =~= params_view(rest@).subrange(split as int, rest@.len() as int));
    assert(params_view(rest@).take(rest@.len() as int) =~= params_view(rest@));
    assert(params_view(out@) =~= seq![ParamView::Text(uid@)] + params_view(rest@).take(split as int)
            + seq![optional_int(id)] + params_view(rest@).skip(split as int));
    out
}

// ---------------------------------------------------------------------------
// The changesets of a directory
// ---------------------------------------------------------------------------

pub open spec fn is_changeset_name(name: Seq<char>) -> bool {
    has_suffix(name, ".changeset.jsonl"@)
}

/// The changeset files among `names`.
pub open spec fn changeset_names(names: Seq<Seq<char>>) -> Seq<Seq<char>>
    decreases names.len(),
{
    if names.len() == 0 {
        seq![]
    } else {
        let rest = changeset_names(names.drop_last());
        if is_changeset_name(names.last()) {
            rest.push(names.last())
        } else {
            rest
        }
    }
}

/// The first position of `s` holding a name after `x`, or its length.
pub open spec fn name_pos(s: Seq<Seq<char>>, x: Seq<char>) -> int
    decreases s.len(),
{
    if s.len() == 0 {
        0
    } else if lex_lt(x, s[0]) {
        0
    } else {
        1 + name_pos(s.drop_first(), x)
    }
}

/// `s` in ascending order (the result of an insertion sort).
pub open spec fn sorted_names(s: Seq<Seq<char>>) -> Seq<Seq<char>>
    decreases s.len(),
{
    if s.len() == 0 {
        seq![]
    } else {
        let t = sorted_names(s.drop_last());
        t.insert(name_pos(t, s.last()), s.last())
    }
}

pub open spec fn strings_view(v: Seq<String>) -> Seq<Seq<char>> {
    v.map_values(|s: String| s@)
}

proof fn lemma_name_pos(s: Seq<Seq<char>>, x: Seq<char>, j: int)
    requires
        0 <= j <= s.len(),
        forall|k: int| 0 <= k < j ==> !lex_lt(x, #[trigger] s[k]),
        j < s.len() ==> lex_lt(x, s[j]),
    ensures
        name_pos(s, x) == j,
    decreases s.len(),
{
    if s.len() > 0 && j > 0 {
        assert forall|k: int| 0 <= k < j - 1 implies !lex_lt(x, #[trigger] s.drop_first()[k]) by {
            assert(s.drop_first()[k] == s[k + 1]);
        }
        if j < s.len() {
            assert(s.drop_first()[j - 1] == s[j]);
        }
        assert(!lex_lt(x, s[0]));
        lemma_name_pos(s.drop_first(), x, j - 1);
    }
}

/// No name of `s` comes before an earlier one.
pub open spec fn ascending(s: Seq<Seq<char>>) -> bool {
    forall|i: int, j: int| 0 <= i < j < s.len() ==> !lex_lt(#[trigger] s[j], #[trigger] s[i])
}

proof fn lemma_name_pos_bounds(t: Seq<Seq<char>>, x: Seq<char>)
    ensures
        0 <= name_pos(t, x) <= t.len(),
        forall|k: int| 0 <= k < name_pos(t, x) ==> !lex_lt(x, #[trigger] t[k]),
        name_pos(t, x) < t.len() ==> lex_lt(x, t[name_pos(t, x)]),
    decreases t.len(),
{
    if t.len() > 0 && !lex_lt(x, t[0]) {
        lemma_name_pos_bounds(t.drop_first(), x);
        let p = name_pos(t, x);
        assert forall|k: int| 0 <= k < p implies !lex_lt(x, #[trigger] t[k]) by {
            if k > 0 {
                assert(t[k] == t.drop_first()[k - 1]);
            }
        }
        if p < t.len() {
            assert(t[p] == t.drop_first()[p - 1]);
        }
    }
}

/// The order in which names are replayed is ascending, and it holds each
/// name of the input as often as the input does.
pub proof fn lemma_sorted_names_ascending(s: Seq<Seq<char>>)
    ensures
        ascending(sorted_names(s)),
        sorted_names(s).to_multiset() == s.to_multiset(),
    decreases s.len(),
{
    broadcast use vstd::seq_lib::group_to_multiset_ensures;
    if s.len() == 0 {
        assert(sorted_names(s) =~= s);
    } else {
        let t = sorted_names(s.drop_last());
        let x = s.last();
        lemma_sorted_names_ascending(s.drop_last());
        lemma_name_pos_bounds(t, x);
        let p = name_pos(t, x);
        let r = t.insert(p, x);
        assert forall|i: int, j: int| 0 <= i < j < r.len() implies !lex_lt(#[trigger] r[j], #[trigger] r[i]) by {
            if j < p {
                assert(r[i] == t[i] && r[j] == t[j]);
            } else if j == p {
                assert(r[i] == t[i]);
            } else if i < p {
                assert(r[i] == t[i] && r[j] == t[j - 1]);
            } else if i == p {
                assert(r[j] == t[j - 1]);
                if lex_lt(t[j - 1], x) {
                    if j - 1 > p {
                        lemma_lex_transitive(t[j - 1], x, t[p]);
                    } else {
                        lemma_lex_transitive(t[p], x, t[p]);
                        lemma_lex_irreflexive(t[p]);
                    }
                }
            } else {
                assert(r[i] == t[i - 1] && r[j] == t[j - 1]);
            }
        }
        assert(s =~= s.drop_last().push(x));
    }
}

/// `names` in ascending order (see `sorted_names`).
pub fn sort_names(names: Vec<String>) -> (out: Vec<String>)
    ensures
        strings_view(out@) == sorted_names(strings_view(names@)),
        ascending(strings_view(out@)),
        strings_view(out@).to_multiset() == strings_view(names@).to_multiset(),
{
    let ghost orig = names@;
    let mut out: Vec<String> = Vec::new();
    let mut k: usize = 0;
    while k < names.len()
        invariant
            k <= names@.len(),
            names@ == orig,
            strings_view(out@) == sorted_names(strings_view(orig).take(k as int)),
        decreases names@.len() - k,
    {
        let x = names[k].clone();
        let xc = chars_of(x.as_str());
        let mut j: usize = 0;
        while j < out.len() && !lex_less(xc.as_slice(), chars_of(out[j].as_str()).as_slice())
            invariant
                j <= out@.len(),
                xc@ == x@,
                forall|m: int| 0 <= m < j ==> !lex_lt(x@, #[trigger] strings_view(out@)[m]),
            decreases out@.len() - j,
        {
            j = j + 1;
        }
        proof {
            lemma_name_pos(strings_view(out@), x@, j as int);
            let t = strings_view(orig).take(k + 1);
            assert(t.drop_last() == strings_view(orig).take(k as int));
            assert(t.last() == x@);
            assert(strings_view(out@.insert(j as int, x)) =~= strings_view(out@).insert(j as int, x@));
        }
        out.insert(j, x);
        k = k + 1;
    }
    assert(strings_view(orig).take(k as int) == strings_view(orig));
    proof {
        lemma_sorted_names_ascending(strings_view(orig));
    }
    out
}

/// The changeset files of a directory in the order they are replayed:
/// the names ending in `.changeset.jsonl`, in ascending order.
pub fn changeset_file_order(names: &Vec<String>) -> (out: Vec<String>)
    ensures
        strings_view(out@) == sorted_names(changeset_names(strings_view(names@))),
        ascending(strings_view(out@)),
        strings_view(out@).to_multiset() == changeset_names(strings_view(names@)).to_multiset(),
{
    let mut picked: Vec<String> = Vec::new();
    let mut i: usize = 0;
    while i < names.len()
        invariant
            i <= names@.len(),
            strings_view(picked@) == changeset_names(strings_view(names@).take(i as int)),
        decreases names@.len() - i,
    {
        let ghost t = strings_view(names@).take(i + 1);
        assert(t.drop_last() == strings_view(names@).take(i as int));
        assert(t.last() == names@[i as int]@);
        let cs = chars_of(names[i].as_str());
        if ends_with_str(cs.as_slice(), ".changeset.jsonl") {
            let ghost before = picked@;
            picked.push(names[i].clone());
            assert(picked@.drop_last() == before);
            assert(strings_view(picked@) =~= strings_view(before).push(names@[i as int]@));
        }
        i = i + 1;
    }
    assert(strings_view(names@).take(i as int) == strings_view(names@));
    sort_names(picked)
}

} // verus!
