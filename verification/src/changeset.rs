//! The fields of a changeset operation: how each one is read from the
//! operation or its payload, checked, and turned into a statement parameter.
use vstd::prelude::*;
use std::collections::HashMap;
use crate::errors::HarnessError;
use crate::json::{JsonValue, get_str, get_i64, json_str, json_i64};
use crate::numbers::{decimal, decimal_i64};
use crate::text::{append_str, has_prefix, is_hex_digit, hex_char, chars_of, starts_with_str};
use crate::timestamps::{check_sqlite_timestamp, sqlite_timestamp_reformatted, TimestampCheck};

verus! {

/// A parameter of a statement.
#[derive(Debug)]
pub enum Param {
    /// SQL `NULL`.
    Null,
    /// The database's current date-time (`datetime('now')`).
    Now,
    Text(String),
    Int(i64),
}

pub enum ParamView {
    Null,
    Now,
    Text(Seq<char>),
    Int(i64),
}

impl View for Param {
    type V = ParamView;

    open spec fn view(&self) -> ParamView {
        match self {
            Param::Null => ParamView::Null,
            Param::Now => ParamView::Now,
            Param::Text(s) => ParamView::Text(s@),
            Param::Int(n) => ParamView::Int(*n),
        }
    }
}

pub open spec fn params_view(ps: Seq<Param>) -> Seq<ParamView> {
    ps.map_values(|p: Param| p@)
}

/// The refusals a changeset operation can meet before it touches the store.
pub enum Fault {
    /// `InvalidChangeset` with its message.
    Invalid(Seq<char>),
    /// `UnsupportedChangesetOp` with the operation's name.
    UnsupportedOp(Seq<char>),
    /// `StoryDependencySelf` with the story.
    SelfDependency(Seq<char>),
    /// Any other refusal.
    Other,
}

pub open spec fn fault(e: HarnessError) -> Fault {
    match e {
        HarnessError::InvalidChangeset(m) => Fault::Invalid(m@),
        HarnessError::UnsupportedChangesetOp(op) => Fault::UnsupportedOp(op@),
        HarnessError::StoryDependencySelf(s) => Fault::SelfDependency(s@),
        _ => Fault::Other,
    }
}

pub open spec fn res_view<T: View>(r: Result<T, HarnessError>) -> Result<T::V, Fault> {
    match r {
        Ok(x) => Ok(x@),
        Err(e) => Err(fault(e)),
    }
}

pub open spec fn res_params(r: Result<Vec<Param>, HarnessError>) -> Result<Seq<ParamView>, Fault> {
    match r {
        Ok(x) => Ok(params_view(x@)),
        Err(e) => Err(fault(e)),
    }
}

/// The tables whose local row ids a changeset written elsewhere refers to.
#[derive(Debug, Clone, Copy, PartialEq, Eq)]
pub enum IdTable {
    Intake,
    Backlog,
    Trace,
}

/// The row ids that replaying a changeset gave to the rows it inserted,
/// by the ids they had where the changeset was written.
pub struct ChangesetIds {
    pub intake_ids: HashMap<i64, i64>,
    pub backlog_ids: HashMap<i64, i64>,
    pub trace_ids: HashMap<i64, i64>,
}

pub struct IdsView {
    pub intake: Map<i64, i64>,
    pub backlog: Map<i64, i64>,
    pub trace: Map<i64, i64>,
}

impl View for ChangesetIds {
    type V = IdsView;

    open spec fn view(&self) -> IdsView {
        IdsView { intake: self.intake_ids@, backlog: self.backlog_ids@, trace: self.trace_ids@ }
    }
}

pub open spec fn ids_of(ids: IdsView, table: IdTable) -> Map<i64, i64> {
    match table {
        IdTable::Intake => ids.intake,
        IdTable::Backlog => ids.backlog,
        IdTable::Trace => ids.trace,
    }
}

/// The id a source id stands for here: its new id when one was recorded,
/// else the id itself.
pub open spec fn map_id(ids: Map<i64, i64>, id: i64) -> i64 {
    if ids.contains_key(id) {
        ids[id]
    } else {
        id
    }
}

/// `id` translated through `ids`; nothing stays nothing.
pub fn mapped_id(source_id: Option<i64>, ids: &HashMap<i64, i64>) -> (r: Option<i64>)
    ensures
        r == match source_id {
            None => None,
            Some(id) => Some(map_id(ids@, id)),
        },
{
    broadcast use vstd::std_specs::hash::group_hash_axioms;
    match source_id {
        None => None,
        Some(id) => match ids.get(&id) {
            Some(v) => Some(*v),
            None => Some(id),
        },
    }
}

/// Once `source_id` is recorded as `new_id`, it translates to `new_id`, and
/// every other id translates as before.
pub proof fn lemma_remembered_id_translates(ids: Map<i64, i64>, source_id: i64, new_id: i64, other: i64)
    ensures
        map_id(ids.insert(source_id, new_id), source_id) == new_id,
        other != source_id ==> map_id(ids.insert(source_id, new_id), other) == map_id(ids, other),
{
}

/// No ids recorded: where the replay of every changeset starts.
pub open spec fn no_ids() -> IdsView {
    IdsView { intake: Map::empty(), backlog: Map::empty(), trace: Map::empty() }
}

/// `ids` after recording that the local row `ins.1` of table `ins.0` is the
/// row `ins.2` here (as `ChangesetIds::remember` does).
pub open spec fn remember_view(ids: IdsView, ins: (IdTable, i64, i64)) -> IdsView {
    match ins.0 {
        IdTable::Intake => IdsView { intake: ids.intake.insert(ins.1, ins.2), ..ids },
        IdTable::Backlog => IdsView { backlog: ids.backlog.insert(ins.1, ins.2), ..ids },
        IdTable::Trace => IdsView { trace: ids.trace.insert(ins.1, ins.2), ..ids },
    }
}

/// The ids recorded by the inserts of one changeset, in order, from `ids`.
pub open spec fn remember_all(ids: IdsView, inserts: Seq<(IdTable, i64, i64)>) -> IdsView
    decreases inserts.len(),
{
    if inserts.len() == 0 {
        ids
    } else {
        remember_view(remember_all(ids, inserts.drop_last()), inserts.last())
    }
}

/// The insert at `i` is the last one of the local row `local` of `table`.
pub open spec fn last_insert_of(inserts: Seq<(IdTable, i64, i64)>, table: IdTable, local: i64, i: int) -> bool {
    &&& 0 <= i < inserts.len()
    &&& inserts[i].0 == table
    &&& inserts[i].1 == local
    &&& forall|k: int| i < k < inserts.len() ==> !((#[trigger] inserts[k]).0 == table && inserts[k].1 == local)
}

proof fn lemma_last_insert_translates(ids: IdsView, inserts: Seq<(IdTable, i64, i64)>, table: IdTable, local: i64, i: int)
    requires
        last_insert_of(inserts, table, local, i),
    ensures
        map_id(ids_of(remember_all(ids, inserts), table), local) == inserts[i].2,
    decreases inserts.len(),
{
    let before = remember_all(ids, inserts.drop_last());
    let last = inserts.last();
    if i == inserts.len() - 1 {
        lemma_remembered_id_translates(ids_of(before, table), local, last.2, local);
    } else {
        assert(last_insert_of(inserts.drop_last(), table, local, i)) by {
            assert forall|k: int| i < k < inserts.drop_last().len() implies
                !((#[trigger] inserts.drop_last()[k]).0 == table && inserts.drop_last()[k].1 == local) by {
                assert(inserts.drop_last()[k] == inserts[k]);
            }
        }
        lemma_last_insert_translates(ids, inserts.drop_last(), table, local, i);
        assert(!(inserts[inserts.len() - 1].0 == table && inserts[inserts.len() - 1].1 == local));
        if last.0 == table {
            lemma_remembered_id_translates(ids_of(before, table), last.1, last.2, local);
        }
    }
}

/// Each changeset is replayed from no recorded ids, so a local row id is
/// translated, within each changeset, to the row that this changeset's own
/// last insert of that local row created, whatever another changeset
/// inserted under the same local id: two changesets that each insert local
/// row 1 and refer to it are kept apart.
pub proof fn lemma_changesets_translate_their_own_ids(
    first: Seq<(IdTable, i64, i64)>,
    second: Seq<(IdTable, i64, i64)>,
    table: IdTable,
    local: i64,
    i: int,
    j: int,
)
    requires
        last_insert_of(first, table, local, i),
        last_insert_of(second, table, local, j),
    ensures
        map_id(ids_of(remember_all(no_ids(), first), table), local) == first[i].2,
        map_id(ids_of(remember_all(no_ids(), second), table), local) == second[j].2,
        first[i].2 != second[j].2 ==> map_id(ids_of(remember_all(no_ids(), first), table), local)
            != map_id(ids_of(remember_all(no_ids(), second), table), local),
{
    lemma_last_insert_translates(no_ids(), first, table, local, i);
    lemma_last_insert_translates(no_ids(), second, table, local, j);
}

impl ChangesetIds {
    /// No ids recorded yet.
    pub fn new() -> (r: ChangesetIds)
        ensures
            r@.intake == Map::<i64, i64>::empty(),
            r@.backlog == Map::<i64, i64>::empty(),
            r@.trace == Map::<i64, i64>::empty(),
            r@ == no_ids(),
    {
        broadcast use vstd::std_specs::hash::group_hash_axioms;
        ChangesetIds { intake_ids: HashMap::new(), backlog_ids: HashMap::new(), trace_ids: HashMap::new() }
    }

    /// Records that the row with `source_id` in `table` is `new_id` here.
    pub fn remember(&mut self, table: IdTable, source_id: i64, new_id: i64)
        ensures
            ids_of(final(self)@, table) == ids_of(old(self)@, table).insert(source_id, new_id),
            table != IdTable::Intake ==> final(self)@.intake == old(self)@.intake,
            table != IdTable::Backlog ==> final(self)@.backlog == old(self)@.backlog,
            table != IdTable::Trace ==> final(self)@.trace == old(self)@.trace,
            final(self)@ == remember_view(old(self)@, (table, source_id, new_id)),
    {
        broadcast use vstd::std_specs::hash::group_hash_axioms;
        match table {
            IdTable::Intake => { self.intake_ids.insert(source_id, new_id); },
            IdTable::Backlog => { self.backlog_ids.insert(source_id, new_id); },
            IdTable::Trace => { self.trace_ids.insert(source_id, new_id); },
        }
    }

    /// `source_id` translated through the ids of `table`.
    pub fn mapped(&self, table: IdTable, source_id: Option<i64>) -> (r: Option<i64>)
        ensures
            r == match source_id {
                None => None,
                Some(id) => Some(map_id(ids_of(self@, table), id)),
            },
    {
        match table {
            IdTable::Intake => mapped_id(source_id, &self.intake_ids),
            IdTable::Backlog => mapped_id(source_id, &self.backlog_ids),
            IdTable::Trace => mapped_id(source_id, &self.trace_ids),
        }
    }
}

/// Where a field is read: the operation itself or its payload.
#[derive(Debug, Clone, Copy, PartialEq, Eq)]
pub enum Source {
    Operation,
    Payload,
}

/// How a field is read and checked.
#[derive(Debug, Clone, Copy, PartialEq, Eq)]
pub enum FieldKind {
    /// A string that must be there.
    Text,
    /// A string, or `NULL`.
    OptionalText,
    /// A string that must be `<prefix>_` and 32 hex digits.
    Uid,
    /// A string that must be canonical `YYYY-MM-DD HH:MM:SS`.
    Timestamp,
    /// A canonical date-time, or `NULL`.
    OptionalTimestamp,
    /// From version 2 a required canonical date-time, before it an optional string.
    TimestampSince2,
    /// From version 2 an optional canonical date-time, before it an optional string.
    OptionalTimestampSince2,
    /// From version 2 a required canonical date-time; before it an optional
    /// string that defaults to the current date-time.
    VersionedTimestamp,
    /// An integer that must be there.
    Integer,
    /// An integer, or `NULL`.
    OptionalInteger,
    /// A required local id of `table`, translated.
    MappedInteger(IdTable),
    /// An optional local id of `table`, translated.
    OptionalMappedInteger(IdTable),
}

/// A field of an operation.
pub struct Field {
    pub source: Source,
    pub name: &'static str,
    pub kind: FieldKind,
    /// The uid prefix, for `FieldKind::Uid`.
    pub prefix: &'static str,
}

pub struct FieldView {
    pub source: Source,
    pub name: Seq<char>,
    pub kind: FieldKind,
    pub prefix: Seq<char>,
}

impl View for Field {
    type V = FieldView;

    open spec fn view(&self) -> FieldView {
        FieldView { source: self.source, name: self.name@, kind: self.kind, prefix: self.prefix@ }
    }
}

pub open spec fn fields_view(fs: Seq<Field>) -> Seq<FieldView> {
    fs.map_values(|f: Field| f@)
}

/// The value a field is read from.
pub open spec fn source_value(op: JsonValue, payload: JsonValue, s: Source) -> JsonValue {
    match s {
        Source::Operation => op,
        Source::Payload => payload,
    }
}

/// A uid with `prefix`: `<prefix>_` followed by exactly 32 hex digits.
pub open spec fn valid_uid(uid: Seq<char>, prefix: Seq<char>) -> bool {
    let head = prefix + "_"@;
    &&& has_prefix(uid, head)
    &&& uid.len() == head.len() + 32
    &&& forall|i: int| head.len() <= i < uid.len() ==> is_hex_digit(#[trigger] uid[i])
}

pub open spec fn missing_string(name: Seq<char>) -> Fault {
    Fault::Invalid("missing string field "@ + name)
}

pub open spec fn missing_integer(name: Seq<char>) -> Fault {
    Fault::Invalid("missing integer field "@ + name)
}

/// The string field `name` of `v`, which must be there.
pub open spec fn required_text(v: JsonValue, name: Seq<char>) -> Result<Seq<char>, Fault> {
    match json_str(v, name) {
        Some(t) => Ok(t),
        None => Err(missing_string(name)),
    }
}

/// The uid field `name` of `v`, which must be there and carry `prefix`.
pub open spec fn uid_text(v: JsonValue, name: Seq<char>, prefix: Seq<char>) -> Result<Seq<char>, Fault> {
    match json_str(v, name) {
        None => Err(missing_string(name)),
        Some(t) => if valid_uid(t, prefix) {
            Ok(t)
        } else {
            Err(Fault::Invalid("invalid "@ + prefix + " uid in "@ + name))
        },
    }
}

/// The integer field `name` of `v`, which must be there.
pub open spec fn required_int(v: JsonValue, name: Seq<char>) -> Result<i64, Fault> {
    match json_i64(v, name) {
        Some(k) => Ok(k),
        None => Err(missing_integer(name)),
    }
}

pub open spec fn text_view(r: Result<String, HarnessError>) -> Result<Seq<char>, Fault> {
    match r {
        Ok(s) => Ok(s@),
        Err(e) => Err(fault(e)),
    }
}

pub open spec fn int_view(r: Result<i64, HarnessError>) -> Result<i64, Fault> {
    match r {
        Ok(k) => Ok(k),
        Err(e) => Err(fault(e)),
    }
}

/// `value` checked as the canonical SQLite date-time of field `name`.
pub open spec fn canonical_timestamp(value: Seq<char>, name: Seq<char>) -> Result<ParamView, Fault> {
    match sqlite_timestamp_reformatted(value) {
        None => Err(Fault::Invalid(name + " must use YYYY-MM-DD HH:MM:SS, got '"@ + value + "'"@)),
        Some(t) => if t == value {
            Ok(ParamView::Text(value))
        } else {
            Err(Fault::Invalid(name + " must use canonical YYYY-MM-DD HH:MM:SS, got '"@ + value + "'"@))
        },
    }
}

pub open spec fn optional_text(v: Option<Seq<char>>) -> ParamView {
    match v {
        Some(s) => ParamView::Text(s),
        None => ParamView::Null,
    }
}

pub open spec fn optional_int(v: Option<i64>) -> ParamView {
    match v {
        Some(n) => ParamView::Int(n),
        None => ParamView::Null,
    }
}

/// The parameter that field `f` of operation `opname` (version `version`)
/// gives, or the refusal it meets.
pub open spec fn field_value(
    op: JsonValue,
    payload: JsonValue,
    f: FieldView,
    version: i64,
    opname: Seq<char>,
    ids: IdsView,
) -> Result<ParamView, Fault> {
    let v = source_value(op, payload, f.source);
    let s = json_str(v, f.name);
    let n = json_i64(v, f.name);
    match f.kind {
        FieldKind::Text => match s {
            Some(t) => Ok(ParamView::Text(t)),
            None => Err(missing_string(f.name)),
        },
        FieldKind::OptionalText => Ok(optional_text(s)),
        FieldKind::Uid => match s {
            None => Err(missing_string(f.name)),
            Some(t) => if valid_uid(t, f.prefix) {
                Ok(ParamView::Text(t))
            } else {
                Err(Fault::Invalid("invalid "@ + f.prefix + " uid in "@ + f.name))
            },
        },
        FieldKind::Timestamp => match s {
            None => Err(missing_string(f.name)),
            Some(t) => canonical_timestamp(t, f.name),
        },
        FieldKind::OptionalTimestamp => match s {
            None => Ok(ParamView::Null),
            Some(t) => canonical_timestamp(t, f.name),
        },
        FieldKind::TimestampSince2 => if version >= 2 {
            match s {
                None => Err(missing_string(f.name)),
                Some(t) => canonical_timestamp(t, f.name),
            }
        } else {
            Ok(optional_text(s))
        },
        FieldKind::OptionalTimestampSince2 => if version >= 2 {
            match s {
                None => Ok(ParamView::Null),
                Some(t) => canonical_timestamp(t, f.name),
            }
        } else {
            Ok(optional_text(s))
        },
        FieldKind::VersionedTimestamp => match s {
            Some(t) => if version >= 2 {
                canonical_timestamp(t, f.name)
            } else {
                Ok(ParamView::Text(t))
            },
            None => if version >= 2 {
                Err(Fault::Invalid(opname + " version 2 requires "@ + f.name))
            } else {
                Ok(ParamView::Now)
            },
        },
        FieldKind::Integer => match n {
            Some(k) => Ok(ParamView::Int(k)),
            None => Err(missing_integer(f.name)),
        },
        FieldKind::OptionalInteger => Ok(optional_int(n)),
        FieldKind::MappedInteger(t) => match n {
            Some(k) => Ok(ParamView::Int(map_id(ids_of(ids, t), k))),
            None => Err(missing_integer(f.name)),
        },
        FieldKind::OptionalMappedInteger(t) => match n {
            Some(k) => Ok(ParamView::Int(map_id(ids_of(ids, t), k))),
            None => Ok(ParamView::Null),
        },
    }
}

/// The parameters that the fields `fs` give, read in order; the first
/// refusal met stops the reading.
pub open spec fn fields_value(
    op: JsonValue,
    payload: JsonValue,
    fs: Seq<FieldView>,
    version: i64,
    opname: Seq<char>,
    ids: IdsView,
) -> Result<Seq<ParamView>, Fault>
    decreases fs.len(),
{
    if fs.len() == 0 {
        Ok(Seq::empty())
    } else {
        match fields_value(op, payload, fs.drop_last(), version, opname, ids) {
            Err(e) => Err(e),
            Ok(xs) => match field_value(op, payload, fs.last(), version, opname, ids) {
                Err(e) => Err(e),
                Ok(x) => Ok(xs.push(x)),
            },
        }
    }
}

fn invalid(head: &str, tail: &str) -> (e: HarnessError)
    ensures
        fault(e) == Fault::Invalid(head@ + tail@),
{
    HarnessError::InvalidChangeset(append_str(head.to_owned(), tail))
}

/// Whether `uid` is `<prefix>_` followed by 32 hex digits.
pub fn is_valid_uid(uid: &str, prefix: &str) -> (b: bool)
    ensures
        b == valid_uid(uid@, prefix@),
{
    let head = append_str(prefix.to_owned(), "_");
    let cs = chars_of(uid);
    if !starts_with_str(cs.as_slice(), head.as_str()) {
        return false;
    }
    let hl = head.as_str().unicode_len();
    if cs.len() < hl || cs.len() - hl != 32 {
        return false;
    }
    let mut i = hl;
    while i < cs.len()
        invariant
            hl == (prefix@ + "_"@).len(),
            hl <= i <= cs@.len(),
            cs@ == uid@,
            forall|j: int| hl <= j < i ==> is_hex_digit(#[trigger] uid@[j]),
        decreases cs@.len() - i,
    {
        if !hex_char(cs[i]) {
            return false;
        }
        i = i + 1;
    }
    true
}

/// `value` if it is canonical `YYYY-MM-DD HH:MM:SS` text for field `field`.
pub fn canonical_sqlite_timestamp(value: String, field: &str) -> (r: Result<String, HarnessError>)
    ensures
        match canonical_timestamp(value@, field@) {
            Ok(_) => r matches Ok(t) && t@ == value@,
            Err(f) => r matches Err(e) && fault(e) == f,
        },
{
    match check_sqlite_timestamp(value.as_str()) {
        TimestampCheck::Unparsable => {
            let m = append_str(append_str(append_str(field.to_owned(), " must use YYYY-MM-DD HH:MM:SS, got '"), value.as_str()), "'");
            Err(HarnessError::InvalidChangeset(m))
        },
        TimestampCheck::NotCanonical => {
            let m = append_str(append_str(append_str(field.to_owned(), " must use canonical YYYY-MM-DD HH:MM:SS, got '"), value.as_str()), "'");
            Err(HarnessError::InvalidChangeset(m))
        },
        TimestampCheck::Canonical => Ok(value),
    }
}

fn canonical_timestamp_exec(value: String, name: &str) -> (r: Result<Param, HarnessError>)
    ensures
        res_view(r) == canonical_timestamp(value@, name@),
{
    match canonical_sqlite_timestamp(value, name) {
        Ok(t) => Ok(Param::Text(t)),
        Err(e) => Err(e),
    }
}

/// The string field `field` of `value`, which must be there.
pub fn required_string(value: &JsonValue, field: &str) -> (r: Result<String, HarnessError>)
    ensures
        text_view(r) == required_text(*value, field@),
{
    match get_str(value, field) {
        Some(t) => Ok(t),
        None => Err(invalid("missing string field ", field)),
    }
}

/// The string field `field` of `value`, if it is there.
pub fn optional_string(value: &JsonValue, field: &str) -> (r: Option<String>)
    ensures
        crate::text::opt_view(r) == json_str(*value, field@),
{
    get_str(value, field)
}

/// The uid field `field` of `value`: it must be there and be `<prefix>_`
/// followed by 32 hex digits.
pub fn required_uid(value: &JsonValue, field: &str, prefix: &str) -> (r: Result<String, HarnessError>)
    ensures
        text_view(r) == uid_text(*value, field@, prefix@),
{
    match get_str(value, field) {
        None => Err(invalid("missing string field ", field)),
        Some(t) => if is_valid_uid(t.as_str(), prefix) {
            Ok(t)
        } else {
            let m = append_str(append_str(append_str("invalid ".to_owned(), prefix), " uid in "), field);
            Err(HarnessError::InvalidChangeset(m))
        },
    }
}

/// The integer field `field` of `value`, which must be there.
pub fn required_i64(value: &JsonValue, field: &str) -> (r: Result<i64, HarnessError>)
    ensures
        int_view(r) == required_int(*value, field@),
{
    match get_i64(value, field) {
        Some(k) => Ok(k),
        None => Err(invalid("missing integer field ", field)),
    }
}

/// The integer field `field` of `value`, if it is there.
pub fn optional_i64(value: &JsonValue, field: &str) -> (r: Option<i64>)
    ensures
        r == json_i64(*value, field@),
{
    get_i64(value, field)
}

/// The string field `field` of `value`, which must be canonical date-time text.
pub fn required_timestamp(value: &JsonValue, field: &str) -> (r: Result<String, HarnessError>)
    ensures
        match json_str(*value, field@) {
            None => text_view(r) == Err::<Seq<char>, Fault>(missing_string(field@)),
            Some(t) => match canonical_timestamp(t, field@) {
                Ok(_) => text_view(r) == Ok::<Seq<char>, Fault>(t),
                Err(f) => text_view(r) == Err::<Seq<char>, Fault>(f),
            },
        },
{
    match required_string(value, field) {
        Ok(t) => canonical_sqlite_timestamp(t, field),
        Err(e) => Err(e),
    }
}

/// The string field `field` of `value`, if there, which must then be
/// canonical date-time text.
pub fn optional_timestamp(value: &JsonValue, field: &str) -> (r: Result<Option<String>, HarnessError>)
    ensures
        match json_str(*value, field@) {
            None => r matches Ok(None),
            Some(t) => match canonical_timestamp(t, field@) {
                Ok(_) => r matches Ok(Some(u)) && u@ == t,
                Err(f) => r matches Err(e) && fault(e) == f,
            },
        },
{
    match optional_string(value, field) {
        None => Ok(None),
        Some(t) => match canonical_sqlite_timestamp(t, field) {
            Ok(u) => Ok(Some(u)),
            Err(e) => Err(e),
        },
    }
}

fn optional_text_exec(s: Option<String>) -> (p: Param)
    ensures
        p@ == optional_text(crate::text::opt_view(s)),
{
    match s {
        Some(t) => Param::Text(t),
        None => Param::Null,
    }
}

/// The parameter that field `f` gives (see `field_value`).
pub fn field_param(
    op: &JsonValue,
    payload: &JsonValue,
    f: &Field,
    version: i64,
    opname: &str,
    ids: &ChangesetIds,
) -> (r: Result<Param, HarnessError>)
    ensures
        res_view(r) == field_value(*op, *payload, f@, version, opname@, ids@),
{
    let v = match f.source {
        Source::Operation => op,
        Source::Payload => payload,
    };
    match f.kind {
        FieldKind::Text => match get_str(v, f.name) {
            Some(t) => Ok(Param::Text(t)),
            None => Err(invalid("missing string field ", f.name)),
        },
        FieldKind::OptionalText => Ok(optional_text_exec(get_str(v, f.name))),
        FieldKind::Uid => match get_str(v, f.name) {
            None => Err(invalid("missing string field ", f.name)),
            Some(t) => if is_valid_uid(t.as_str(), f.prefix) {
                Ok(Param::Text(t))
            } else {
                let m = append_str(append_str(append_str("invalid ".to_owned(), f.prefix), " uid in "), f.name);
                Err(HarnessError::InvalidChangeset(m))
            },
        },
        FieldKind::Timestamp => match get_str(v, f.name) {
            None => Err(invalid("missing string field ", f.name)),
            Some(t) => canonical_timestamp_exec(t, f.name),
        },
        FieldKind::OptionalTimestamp => match get_str(v, f.name) {
            None => Ok(Param::Null),
            Some(t) => canonical_timestamp_exec(t, f.name),
        },
        FieldKind::TimestampSince2 => if version >= 2 {
            match get_str(v, f.name) {
                None => Err(invalid("missing string field ", f.name)),
                Some(t) => canonical_timestamp_exec(t, f.name),
            }
        } else {
            Ok(optional_text_exec(get_str(v, f.name)))
        },
        FieldKind::OptionalTimestampSince2 => if version >= 2 {
            match get_str(v, f.name) {
                None => Ok(Param::Null),
                Some(t) => canonical_timestamp_exec(t, f.name),
            }
        } else {
            Ok(optional_text_exec(get_str(v, f.name)))
        },
        FieldKind::VersionedTimestamp => match get_str(v, f.name) {
            Some(t) => if version >= 2 {
                canonical_timestamp_exec(t, f.name)
            } else {
                Ok(Param::Text(t))
            },
            None => if version >= 2 {
                let m = append_str(append_str(opname.to_owned(), " version 2 requires "), f.name);
                Err(HarnessError::InvalidChangeset(m))
            } else {
                Ok(Param::Now)
            },
        },
        FieldKind::Integer => match get_i64(v, f.name) {
            Some(k) => Ok(Param::Int(k)),
            None => Err(invalid("missing integer field ", f.name)),
        },
        FieldKind::OptionalInteger => match get_i64(v, f.name) {
            Some(k) => Ok(Param::Int(k)),
            None => Ok(Param::Null),
        },
        FieldKind::MappedInteger(t) => match get_i64(v, f.name) {
            Some(k) => match ids.mapped(t, Some(k)) {
                Some(m) => Ok(Param::Int(m)),
                None => Ok(Param::Null),
            },
            None => Err(invalid("missing integer field ", f.name)),
        },
        FieldKind::OptionalMappedInteger(t) => match get_i64(v, f.name) {
            Some(k) => match ids.mapped(t, Some(k)) {
                Some(m) => Ok(Param::Int(m)),
                None => Ok(Param::Null),
            },
            None => Ok(Param::Null),
        },
    }
}

/// The parameters that the fields `fs` give, in order (see `fields_value`).
pub fn field_params(
    op: &JsonValue,
    payload: &JsonValue,
    fs: &[Field],
    version: i64,
    opname: &str,
    ids: &ChangesetIds,
) -> (r: Result<Vec<Param>, HarnessError>)
    ensures
        res_params(r) == fields_value(*op, *payload, fields_view(fs@), version, opname@, ids@),
        r is Ok ==> r->Ok_0@.len() == fs@.len(),
{
    let mut out: Vec<Param> = Vec::new();
    let mut i: usize = 0;
    assert(fields_view(fs@.take(0)).len() == 0);
    assert(params_view(out@) =~= Seq::<ParamView>::empty());
    while i < fs.len()
        invariant
            i <= fs@.len(),
            out@.len() == i,
            fields_value(*op, *payload, fields_view(fs@.take(i as int)), version, opname@, ids@)
                == Ok::<Seq<ParamView>, Fault>(params_view(out@)),
        decreases fs@.len() - i,
    {
        assert(fields_view(fs@.take(i + 1)).drop_last() == fields_view(fs@.take(i as int)));
        assert(fields_view(fs@.take(i + 1)).last() == fs@[i as int]@);
        match field_param(op, payload, &fs[i], version, opname, ids) {
            Err(e) => {
                assert(fields_view(fs@.take(i + 1)).len() == i + 1);
                proof {
                    lemma_fields_error_stays(*op, *payload, fs@, i + 1, version, opname@, ids@);
                }
                return Err(e);
            },
            Ok(p) => {
                let ghost before = out@;
                out.push(p);
                assert(out@.drop_last() == before);
                assert(params_view(out@) =~= params_view(before).push(p@));
                assert(fields_view(fs@.take(i + 1)).len() == i + 1);
            },
        }
        i = i + 1;
    }
    assert(fs@.take(i as int) == fs@);
    Ok(out)
}

/// The fields that are read without refusal give one parameter each.
pub proof fn lemma_fields_len(
    op: JsonValue,
    payload: JsonValue,
    fs: Seq<FieldView>,
    version: i64,
    opname: Seq<char>,
    ids: IdsView,
)
    ensures
        fields_value(op, payload, fs, version, opname, ids) is Ok
            ==> fields_value(op, payload, fs, version, opname, ids)->Ok_0.len() == fs.len(),
    decreases fs.len(),
{
    if fs.len() > 0 {
        lemma_fields_len(op, payload, fs.drop_last(), version, opname, ids);
    }
}

/// Once a prefix of the fields meets a refusal, the whole list meets it.
proof fn lemma_fields_error_stays(
    op: JsonValue,
    payload: JsonValue,
    fs: Seq<Field>,
    n: int,
    version: i64,
    opname: Seq<char>,
    ids: IdsView,
)
    requires
        0 <= n <= fs.len(),
        fields_value(op, payload, fields_view(fs.take(n)), version, opname, ids) is Err,
    ensures
        fields_value(op, payload, fields_view(fs), version, opname, ids)
            == fields_value(op, payload, fields_view(fs.take(n)), version, opname, ids),
    decreases fs.len() - n,
{
    if n < fs.len() {
        assert(fields_view(fs.take(n + 1)).drop_last() == fields_view(fs.take(n)));
        lemma_fields_error_stays(op, payload, fs, n + 1, version, opname, ids);
    } else {
        assert(fs.take(n) == fs);
    }
}

} // verus!
