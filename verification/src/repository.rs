//! The SQLite-backed harness store: where it lives, the run whose changeset
//! records its writes, and the time and uids that writes are stamped with.
use vstd::prelude::*;
use std::path::PathBuf;
use std::time::{Duration, SystemTime};
use crate::text::{append_str, chars_of, ends_with_str, find_char_from, first_index_of, has_suffix, lemma_first_index_of_found, opt_view, slice_of, string_of, trim, trimmed};
use crate::numbers::{parse_i64, parsed_i64};
use crate::tools::strip_start_all;
use crate::evidence::{fresh_material, stable_uid_of, uid_at};

verus! {

#[verifier::external_type_specification]
#[verifier::external_body]
pub struct ExPathBuf(PathBuf);

#[verifier::external_type_specification]
#[verifier::external_body]
pub struct ExSystemTime(SystemTime);

/// The harness store: the repository it serves, its database file, the
/// directory of its schema migrations, and the run that logs its writes
/// when one is fixed by the caller.
#[derive(Debug)]
pub struct SqliteHarnessRepository {
    pub repo_root: PathBuf,
    pub db_path: PathBuf,
    pub schema_dir: PathBuf,
    pub run_id_override: Option<String>,
}

impl SqliteHarnessRepository {
    /// A store for `repo_root` with the database at `db_path` and the
    /// migrations in `schema_dir`; its writes are logged for the run named
    /// by the environment, if any.
    pub fn new(repo_root: PathBuf, db_path: PathBuf, schema_dir: PathBuf) -> (r: Self)
        ensures
            r.repo_root == repo_root,
            r.db_path == db_path,
            r.schema_dir == schema_dir,
            r.run_id_override is None,
    {
        SqliteHarnessRepository { repo_root, db_path, schema_dir, run_id_override: None }
    }

    /// The same store, with its writes logged for the run `run_id`.
    pub fn with_run_id(self, run_id: &str) -> (r: Self)
        ensures
            r.repo_root == self.repo_root,
            r.db_path == self.db_path,
            r.schema_dir == self.schema_dir,
            opt_view(r.run_id_override) == Some(run_id@),
    {
        SqliteHarnessRepository { run_id_override: Some(run_id.to_owned()), ..self }
    }

    /// The run that logs a write: the one fixed by the caller, else the
    /// value of `HARNESS_RUN_ID` (given as `env_run_id`) when it is not blank,
    /// trimmed.
    pub fn logging_run_id(&self, env_run_id: Option<&str>) -> (r: Option<String>)
        ensures
            opt_view(r) == match self.run_id_override {
                Some(id) => Some(id@),
                None => run_id_from_env(match env_run_id {
                    Some(v) => Some(v@),
                    None => None,
                }),
            },
    {
        match &self.run_id_override {
            Some(id) => Some(id.clone()),
            None => run_id(env_run_id),
        }
    }

    /// The name of the changeset file of the run `run_id`, under
    /// `.harness/changesets` of the repository.
    pub fn changeset_file_name(run_id: &str) -> (r: String)
        ensures
            r@ == run_id@ + ".changeset.jsonl"@,
    {
        append_str(run_id.to_owned(), ".changeset.jsonl")
    }

    /// The current time in nanoseconds since the Unix epoch, clamped to
    /// `i64`, or 0 when the clock is before the epoch.
    pub fn unix_time_nanos() -> (r: i64)
        ensures
            r >= 0,
    {
        match nanos_since_epoch() {
            Some(n) => clamp_nanos(n),
            None => 0,
        }
    }

    /// A fresh uid under `prefix` for `material`, made unique by the time.
    pub fn new_uid(prefix: &str, material: &str) -> (r: String)
        ensures
            exists|nanos: int| 0 <= nanos <= i64::MAX && r@ == stable_uid_of(prefix@, fresh_material(material@, nanos)),
    {
        let nanos = Self::unix_time_nanos();
        uid_at(prefix, material, nanos)
    }
}

/// The system clock's reading (`SystemTime::now`). Nothing is promised of
/// it: it is the time.
#[verifier::external_body]
fn system_now() -> (r: SystemTime) {
    SystemTime::now()
}

/// How long after the Unix epoch `t` lies (`t.duration_since(UNIX_EPOCH)`),
/// `None` when `t` is before the epoch (the `SystemTimeError` case). Nothing
/// is promised of the duration.
#[verifier::external_body]
fn since_unix_epoch(t: &SystemTime) -> (r: Option<Duration>) {
    t.duration_since(std::time::UNIX_EPOCH).ok()
}

/// The whole nanoseconds in `d` (`Duration::as_nanos`). No value is promised:
/// nothing here models a `Duration`.
#[verifier::external_body]
fn duration_nanos(d: &Duration) -> (r: u128) {
    d.as_nanos()
}

/// The nanoseconds since the Unix epoch by the system clock, `None` when the
/// clock is before the epoch.
fn nanos_since_epoch() -> (r: Option<u128>) {
    let now = system_now();
    match since_unix_epoch(&now) {
        Some(d) => Some(duration_nanos(&d)),
        None => None,
    }
}

/// `n` clamped to the largest `i64`.
pub fn clamp_nanos(n: u128) -> (r: i64)
    ensures
        r == if n > i64::MAX as u128 { i64::MAX as int } else { n as int },
{
    if n > 0x7fff_ffff_ffff_ffffu128 {
        0x7fff_ffff_ffff_ffffi64
    } else {
        n as i64
    }
}

/// The run named by the environment: the trimmed value, when not blank.
pub open spec fn run_id_from_env(value: Option<Seq<char>>) -> Option<Seq<char>> {
    match value {
        Some(v) => if trim(v).len() > 0 { Some(trim(v)) } else { None },
        None => None,
    }
}

/// The run named by `HARNESS_RUN_ID`, given its value (see `run_id_from_env`).
pub fn run_id(value: Option<&str>) -> (r: Option<String>)
    ensures
        opt_view(r) == run_id_from_env(match value {
            Some(v) => Some(v@),
            None => None,
        }),
{
    match value {
        Some(v) => {
            let t = trimmed(chars_of(v).as_slice());
            if t.len() > 0 {
                Some(string_of(t.as_slice()))
            } else {
                None
            }
        },
        None => None,
    }
}

/// The shell and its flag that run a verify command.
pub fn verifier_shell(windows: bool) -> (r: (&'static str, &'static str))
    ensures
        windows ==> r.0@ == "cmd"@ && r.1@ == "/C"@,
        !windows ==> r.0@ == "sh"@ && r.1@ == "-c"@,
{
    if windows {
        ("cmd", "/C")
    } else {
        ("sh", "-c")
    }
}


/// The schema version a migration file name declares: a `.sql` file whose
/// name, up to its first `-`, is a number once its leading zeros are dropped.
pub open spec fn migration_version_of(name: Seq<char>) -> Option<int> {
    if !has_suffix(name, ".sql"@) || name.len() <= 4 {
        None
    } else {
        let k = first_index_of(name, '-');
        let prefix = if k < 0 { name } else { name.take(k) };
        parsed_i64(strip_start_all(prefix, '0'))
    }
}

/// The schema version of the migration file `file_name` (see
/// `migration_version_of`).
pub fn migration_version(file_name: &str) -> (r: Option<i64>)
    ensures
        match r {
            Some(v) => migration_version_of(file_name@) == Some(v as int),
            None => migration_version_of(file_name@) is None,
        },
{
    let cs = chars_of(file_name);
    if !ends_with_str(cs.as_slice(), ".sql") || cs.len() <= 4 {
        proof {
            reveal_strlit(".sql");
        }
        return None;
    }
    proof {
        reveal_strlit(".sql");
    }
    let k = find_char_from(cs.as_slice(), '-', 0);
    proof {
        assert(cs@.skip(0) == cs@);
        lemma_first_index_of_found(cs@, '-', k as int);
    }
    let prefix = slice_of(cs.as_slice(), 0, k);
    assert(k == cs@.len() ==> prefix@ == cs@);
    let mut a: usize = 0;
    assert(prefix@.skip(0) == prefix@);
    while a < prefix.len() && prefix[a] == '0'
        invariant
            a <= prefix@.len(),
            strip_start_all(prefix@, '0') == strip_start_all(prefix@.skip(a as int), '0'),
        decreases prefix@.len() - a,
    {
        assert(prefix@.skip(a as int).drop_first() == prefix@.skip(a + 1));
        a = a + 1;
    }
    let digits = slice_of(prefix.as_slice(), a, prefix.len());
    assert(digits@ == prefix@.skip(a as int));
    assert(strip_start_all(prefix@.skip(a as int), '0') == prefix@.skip(a as int)) by {
        if a < prefix@.len() {
            assert(prefix@.skip(a as int)[0] == prefix@[a as int]);
        }
    }
    parse_i64(digits.as_slice())
}


/// The first position of `s` holding a version greater than `v`.
pub open spec fn version_pos(s: Seq<(i64, String)>, v: i64) -> int
    decreases s.len(),
{
    if s.len() == 0 {
        0
    } else if v < s[0].0 {
        0
    } else {
        1 + version_pos(s.drop_first(), v)
    }
}

/// `s` ordered by version, equal versions kept in their order.
pub open spec fn by_version(s: Seq<(i64, String)>) -> Seq<(i64, String)>
    decreases s.len(),
{
    if s.len() == 0 {
        seq![]
    } else {
        let t = by_version(s.drop_last());
        t.insert(version_pos(t, s.last().0), s.last())
    }
}

proof fn lemma_version_pos(s: Seq<(i64, String)>, v: i64, j: int)
    requires
        0 <= j <= s.len(),
        forall|m: int| 0 <= m < j ==> !(v < (#[trigger] s[m]).0),
        j < s.len() ==> v < s[j].0,
    ensures
        version_pos(s, v) == j,
    decreases s.len(),
{
    if s.len() > 0 && j > 0 {
        assert forall|m: int| 0 <= m < j - 1 implies !(v < (#[trigger] s.drop_first()[m]).0) by {
            assert(s.drop_first()[m] == s[m + 1]);
        }
        if j < s.len() {
            assert(s.drop_first()[j - 1] == s[j]);
        }
        lemma_version_pos(s.drop_first(), v, j - 1);
    }
}

/// Versions never decrease along `s`.
pub open spec fn versions_ascending(s: Seq<(i64, String)>) -> bool {
    forall|i: int, j: int| 0 <= i < j < s.len() ==> (#[trigger] s[i]).0 <= (#[trigger] s[j]).0
}

proof fn lemma_version_pos_bounds(t: Seq<(i64, String)>, v: i64)
    ensures
        0 <= version_pos(t, v) <= t.len(),
        forall|k: int| 0 <= k < version_pos(t, v) ==> (#[trigger] t[k]).0 <= v,
        version_pos(t, v) < t.len() ==> v < t[version_pos(t, v)].0,
    decreases t.len(),
{
    if t.len() > 0 && !(v < t[0].0) {
        lemma_version_pos_bounds(t.drop_first(), v);
        let p = version_pos(t, v);
        assert forall|k: int| 0 <= k < p implies (#[trigger] t[k]).0 <= v by {
            if k > 0 {
                assert(t[k] == t.drop_first()[k - 1]);
            }
        }
        if p < t.len() {
            assert(t[p] == t.drop_first()[p - 1]);
        }
    }
}

/// Migrations are applied in ascending order of version, each migration
/// found exactly once.
pub proof fn lemma_migration_order_ascending(s: Seq<(i64, String)>)
    ensures
        versions_ascending(by_version(s)),
        by_version(s).to_multiset() == s.to_multiset(),
    decreases s.len(),
{
    broadcast use vstd::seq_lib::group_to_multiset_ensures;
    if s.len() == 0 {
        assert(by_version(s) =~= s);
    } else {
        let t = by_version(s.drop_last());
        let x = s.last();
        lemma_migration_order_ascending(s.drop_last());
        lemma_version_pos_bounds(t, x.0);
        let p = version_pos(t, x.0);
        let r = t.insert(p, x);
        assert forall|i: int, j: int| 0 <= i < j < r.len() implies (#[trigger] r[i]).0 <= (#[trigger] r[j]).0 by {
            if j < p {
                assert(r[i] == t[i] && r[j] == t[j]);
            } else if j == p {
                assert(r[i] == t[i]);
            } else if i < p {
                assert(r[i] == t[i] && r[j] == t[j - 1]);
            } else if i == p {
                assert(r[j] == t[j - 1]);
                assert(t[p].0 <= t[j - 1].0);
            } else {
                assert(r[i] == t[i - 1] && r[j] == t[j - 1]);
            }
        }
        assert(s =~= s.drop_last().push(x));
    }
}

/// The migrations `(version, file)` in the order they are applied: by
/// version, equal versions in the order given.
pub fn migration_order(files: Vec<(i64, String)>) -> (out: Vec<(i64, String)>)
    ensures
        out@ == by_version(files@),
        versions_ascending(out@),
        out@.to_multiset() == files@.to_multiset(),
{
    let ghost orig = files@;
    let mut rest = files;
    let mut out: Vec<(i64, String)> = Vec::new();
    let mut i: usize = 0;
    let n = rest.len();
    while rest.len() > 0
        invariant
            n == orig.len(),
            i + rest@.len() == n,
            rest@ == orig.skip(i as int),
            out@ == by_version(orig.take(i as int)),
        decreases rest@.len(),
    {
        let x = rest.remove(0);
        assert(orig.skip(i as int)[0] == orig[i as int]);
        assert(orig.skip(i as int).remove(0) == orig.skip(i + 1));
        let mut j: usize = 0;
        while j < out.len() && !(x.0 < out[j].0)
            invariant
                j <= out@.len(),
                forall|m: int| 0 <= m < j ==> !(x.0 < (#[trigger] out@[m]).0),
            decreases out@.len() - j,
        {
            j = j + 1;
        }
        proof {
            lemma_version_pos(out@, x.0, j as int);
            let t = orig.take(i + 1);
            assert(t.drop_last() == orig.take(i as int));
            assert(t.last() == x);
        }
        out.insert(j, x);
        i = i + 1;
    }
    assert(orig.take(n as int) == orig);
    proof {
        lemma_migration_order_ascending(orig);
    }
    out
}

/// The migrations, in the given order, whose version is newer than the
/// schema version `current`: the ones still to apply.
pub open spec fn newer_than(files: Seq<(i64, String)>, current: i64) -> Seq<(i64, String)> {
    files.filter(|f: (i64, String)| f.0 > current)
}

/// Keeps, in order, the migrations newer than the schema version `current`.
pub fn pending_migrations(files: Vec<(i64, String)>, current: i64) -> (out: Vec<(i64, String)>)
    ensures
        out@ == newer_than(files@, current),
{
    let ghost orig = files@;
    let ghost pred = |f: (i64, String)| f.0 > current;
    let mut rest = files;
    let mut out: Vec<(i64, String)> = Vec::new();
    let ghost mut i: int = 0;
    while rest.len() > 0
        invariant
            0 <= i <= orig.len(),
            rest@ == orig.skip(i),
            out@ == orig.take(i).filter(pred),
            pred == (|f: (i64, String)| f.0 > current),
        decreases rest@.len(),
    {
        let x = rest.remove(0);
        proof {
            assert(orig.skip(i)[0] == orig[i]);
            assert(orig.skip(i).remove(0) =~= orig.skip(i + 1));
            let t = orig.take(i + 1);
            assert(t =~= orig.take(i) + seq![x]);
            Seq::filter_distributes_over_add(orig.take(i), seq![x], pred);
            reveal_with_fuel(Seq::filter, 2);
            assert(seq![x].drop_last() =~= Seq::<(i64, String)>::empty());
        }
        if x.0 > current {
            out.push(x);
        }
        proof {
            i = i + 1;
        }
    }
    proof {
        assert(orig.take(i) =~= orig);
    }
    out
}

} // verus!
