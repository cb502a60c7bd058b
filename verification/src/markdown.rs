//! Reading the brownfield Markdown documents: table rows of the test matrix,
//! decision records and the items of the harness backlog.
use vstd::prelude::*;
use crate::text::{
    append_str, chars_of, contains_seq, contains_str, eq_str, find_char_from, first_index_of,
    has_prefix, is_lit, lemma_first_index_of, lemma_first_index_of_found, lines_of,
    normalize_chars, normalize_token, normalized, opt_view, slice_of, split_lines,
    starts_with_str, string_of, trim, trim_bounds, trim_start, trimmed, views,
};

verus! {

// ---------------------------------------------------------------------------
// Splitting
// ---------------------------------------------------------------------------

/// `str::split` on one character: the pieces between the occurrences of
/// `c`, empty pieces included.
pub open spec fn split_on(s: Seq<char>, c: char) -> Seq<Seq<char>>
    decreases s.len(),
{
    let k = first_index_of(s, c);
    if k < 0 {
        seq![s]
    } else {
        proof {
            lemma_first_index_of(s, c);
        }
        seq![s.take(k)] + split_on(s.skip(k + 1), c)
    }
}

/// The pieces of `v` between the occurrences of `c` (see `split_on`).
pub fn split_chars(v: &[char], c: char) -> (out: Vec<Vec<char>>)
    ensures
        views(out@) == split_on(v@, c),
{
    let mut out: Vec<Vec<char>> = Vec::new();
    let mut p: usize = 0;
    assert(v@.skip(0) == v@);
    loop
        invariant_except_break
            p <= v@.len(),
            split_on(v@, c) == views(out@) + split_on(v@.skip(p as int), c),
        ensures
            split_on(v@, c) == views(out@),
        decreases v@.len() - p,
    {
        let k = find_char_from(v, c, p);
        let ghost rest = v@.skip(p as int);
        proof {
            assert forall|i: int| 0 <= i < k - p implies rest[i] != c by {
                assert(rest[i] == v@[p + i]);
            }
            if k < v@.len() {
                assert(rest[k - p] == v@[k as int]);
            }
            lemma_first_index_of_found(rest, c, k - p);
        }
        let piece = slice_of(v, p, k);
        assert(piece@ == rest.take(k - p));
        let ghost before = out@;
        out.push(piece);
        assert(views(out@) == views(before).push(piece@));
        if k < v.len() {
            assert(rest.skip(k - p + 1) == v@.skip(k + 1));
            assert(views(before) + split_on(rest, c) == views(out@) + split_on(v@.skip(k + 1), c));
            p = k + 1;
        } else {
            assert(rest.take(k - p) == rest);
            assert(views(before) + split_on(rest, c) == views(out@));
            break;
        }
    }
    out
}

/// `parts` joined with `sep` between each two.
pub open spec fn join(parts: Seq<Seq<char>>, sep: Seq<char>) -> Seq<char>
    decreases parts.len(),
{
    if parts.len() == 0 {
        seq![]
    } else if parts.len() == 1 {
        parts[0]
    } else {
        join(parts.drop_last(), sep) + sep + parts.last()
    }
}

pub open spec fn strings_view(v: Seq<String>) -> Seq<Seq<char>> {
    v.map_values(|s: String| s@)
}

/// `parts[from..]` joined with `sep`.
pub fn join_from(parts: &[String], from: usize, sep: &str) -> (out: String)
    requires
        from <= parts@.len(),
    ensures
        out@ == join(strings_view(parts@).skip(from as int), sep@),
{
    let mut out = String::new();
    let mut i = from;
    assert(strings_view(parts@).skip(from as int).take(0) =~= Seq::<Seq<char>>::empty());
    while i < parts.len()
        invariant
            from <= i <= parts@.len(),
            out@ == join(strings_view(parts@).skip(from as int).take(i - from), sep@),
        decreases parts@.len() - i,
    {
        let ghost t = strings_view(parts@).skip(from as int).take(i + 1 - from);
        assert(t.drop_last() == strings_view(parts@).skip(from as int).take(i - from));
        assert(t.last() == parts@[i as int]@);
        if i > from {
            out = append_str(out, sep);
        }
        out = append_str(out, parts[i].as_str());
        i = i + 1;
    }
    assert(strings_view(parts@).skip(from as int).take(i - from) == strings_view(parts@).skip(from as int));
    out
}

// ---------------------------------------------------------------------------
// Table rows
// ---------------------------------------------------------------------------

pub open spec fn strip_leading_bar(s: Seq<char>) -> Seq<char> {
    if s.len() > 0 && s[0] == '|' {
        s.drop_first()
    } else {
        s
    }
}

pub open spec fn strip_trailing_bar(s: Seq<char>) -> Seq<char> {
    if s.len() > 0 && s.last() == '|' {
        s.drop_last()
    } else {
        s
    }
}

/// The cells of a Markdown table row: the trimmed line without one outer
/// `|` at each end, split at `|`, each cell trimmed.
pub open spec fn table_fields(line: Seq<char>) -> Seq<Seq<char>> {
    split_on(strip_trailing_bar(strip_leading_bar(trim(line))), '|').map_values(|f: Seq<char>| trim(f))
}

/// The cells of the table row `line` (see `table_fields`).
pub fn markdown_table_fields(line: &str) -> (out: Vec<String>)
    ensures
        strings_view(out@) == table_fields(line@),
{
    let cs = chars_of(line);
    let t = trimmed(cs.as_slice());
    let mut from: usize = 0;
    let mut to: usize = t.len();
    if t.len() > 0 && t[0] == '|' {
        from = 1;
    }
    if to > from && t[to - 1] == '|' {
        to = to - 1;
    }
    let inner = slice_of(t.as_slice(), from, to);
    assert(inner@ == strip_trailing_bar(strip_leading_bar(trim(line@)))) by {
        let a = strip_leading_bar(trim(line@));
        assert(a == t@.subrange(from as int, t@.len() as int));
    }
    let pieces = split_chars(inner.as_slice(), '|');
    let mut out: Vec<String> = Vec::new();
    let mut i: usize = 0;
    while i < pieces.len()
        invariant
            i <= pieces@.len(),
            out@.len() == i,
            views(pieces@) == split_on(inner@, '|'),
            strings_view(out@) == views(pieces@).take(i as int).map_values(|f: Seq<char>| trim(f)),
        decreases pieces@.len() - i,
    {
        let cell = trimmed(pieces[i].as_slice());
        let ghost before = out@;
        let text = string_of(cell.as_slice());
        assert(text@ == trim(views(pieces@)[i as int]));
        out.push(text);
        assert(out@.drop_last() == before);
        proof {
            let want = views(pieces@).take(i + 1).map_values(|f: Seq<char>| trim(f));
            let old_want = views(pieces@).take(i as int).map_values(|f: Seq<char>| trim(f));
            assert(strings_view(before) == old_want);
            assert forall|j: int| 0 <= j < i + 1 implies #[trigger] strings_view(out@)[j] == want[j] by {
                if j < i {
                    assert(strings_view(out@)[j] == strings_view(before)[j]);
                    assert(old_want[j] == trim(views(pieces@)[j]));
                }
            }
            assert(strings_view(out@) =~= want);
        }
        i = i + 1;
    }
    assert(views(pieces@).take(i as int) == views(pieces@));
    out
}

/// The trimmed cell at `index`, when there is one and it is not blank.
pub open spec fn cell_at(fields: Seq<Seq<char>>, index: Option<usize>) -> Option<Seq<char>> {
    match index {
        Some(i) => if i < fields.len() && trim(fields[i as int]).len() > 0 {
            Some(trim(fields[i as int]))
        } else {
            None
        },
        None => None,
    }
}

/// The non-blank cell of `fields` at `index` (see `cell_at`).
pub fn field_at(fields: &[String], index: Option<usize>) -> (r: Option<String>)
    ensures
        opt_view(r) == cell_at(strings_view(fields@), index),
{
    match index {
        Some(i) => if i < fields.len() {
            let t = trimmed(chars_of(fields[i].as_str()).as_slice());
            if t.len() > 0 {
                Some(string_of(t.as_slice()))
            } else {
                None
            }
        } else {
            None
        },
        None => None,
    }
}

/// The cells from `start` on, joined with ` | `, trimmed, when not blank.
pub open spec fn evidence_cells(fields: Seq<Seq<char>>, start: int) -> Option<Seq<char>> {
    if start > fields.len() {
        None
    } else {
        let t = trim(join(fields.skip(start), " | "@));
        if t.len() > 0 {
            Some(t)
        } else {
            None
        }
    }
}

/// The evidence of a matrix row: its cells from `start_index` on (see
/// `evidence_cells`).
pub fn evidence_from_fields(fields: &[String], start_index: usize) -> (r: Option<String>)
    ensures
        opt_view(r) == evidence_cells(strings_view(fields@), start_index as int),
{
    if start_index > fields.len() {
        return None;
    }
    let joined = join_from(fields, start_index, " | ");
    let t = trimmed(chars_of(joined.as_str()).as_slice());
    if t.len() > 0 {
        Some(string_of(t.as_slice()))
    } else {
        None
    }
}

// ---------------------------------------------------------------------------
// Cells and statuses
// ---------------------------------------------------------------------------

/// The tokens that say a proof level is not there.
pub open spec fn absent_proof_token(t: Seq<char>) -> bool {
    ||| t.len() == 0
    ||| t == "no"@
    ||| t == "none"@
    ||| t == "n_a"@
    ||| t == "na"@
    ||| t == "planned"@
    ||| t == "pending"@
    ||| t == "blocked"@
    ||| t == "not_attempted"@
    ||| t == "not_operator_reviewed"@
    ||| has_prefix(t, "no_"@)
    ||| has_prefix(t, "pending"@)
    ||| has_prefix(t, "blocked"@)
    ||| contains_seq(t, "pending"@)
    ||| contains_seq(t, "blocked"@)
    ||| contains_seq(t, "not_attempted"@)
    ||| contains_seq(t, "not_operator_reviewed"@)
}

/// A proof cell of the matrix as a flag: 0 when it says the proof is
/// absent, pending or blocked, else 1.
pub fn proof_from_cell(value: &str) -> (r: i64)
    ensures
        r == if absent_proof_token(normalized(value@)) { 0i64 } else { 1i64 },
        ({
            let t = normalized(value@);
            (t == ""@ || t == "no"@ || t == "none"@ || t == "n_a"@ || t == "na"@ || t == "planned"@
                || t == "pending"@ || t == "blocked"@ || t == "not_attempted"@ || t == "not_operator_reviewed"@)
                ==> r == 0
        }),
        ({
            let t = normalized(value@);
            (has_prefix(t, "no_"@) || has_prefix(t, "pending"@) || has_prefix(t, "blocked"@) || contains_seq(t, "pending"@) || contains_seq(t, "blocked"@)
                || contains_seq(t, "not_attempted"@) || contains_seq(t, "not_operator_reviewed"@))
                ==> r == 0
        }),
        ({
            let t = normalized(value@);
            !(t == ""@ || t == "no"@ || t == "none"@ || t == "n_a"@ || t == "na"@ || t == "planned"@
                || t == "pending"@ || t == "blocked"@ || t == "not_attempted"@ || t == "not_operator_reviewed"@
                || has_prefix(t, "no_"@) || has_prefix(t, "pending"@) || has_prefix(t, "blocked"@) || contains_seq(t, "pending"@) || contains_seq(t, "blocked"@)
                || contains_seq(t, "not_attempted"@) || contains_seq(t, "not_operator_reviewed"@))
                ==> r == 1
        }),
{
    proof {
        reveal_strlit("");
        if normalized(value@).len() == 0 {
            assert(normalized(value@) =~= ""@);
        }
    }
    let t = normalize_chars(chars_of(value).as_slice());
    let ts = t.as_slice();
    let absent = t.len() == 0 || eq_str(ts, "no") || eq_str(ts, "none") || eq_str(ts, "n_a")
        || eq_str(ts, "na") || eq_str(ts, "planned") || eq_str(ts, "pending")
        || eq_str(ts, "blocked") || eq_str(ts, "not_attempted")
        || eq_str(ts, "not_operator_reviewed") || starts_with_str(ts, "no_")
        || starts_with_str(ts, "pending") || starts_with_str(ts, "blocked")
        || contains_str(ts, "pending") || contains_str(ts, "blocked")
        || contains_str(ts, "not_attempted") || contains_str(ts, "not_operator_reviewed");
    if absent {
        0
    } else {
        1
    }
}

pub open spec fn story_status_of(t: Seq<char>) -> Seq<char> {
    if t == "in_progress"@ || t == "implemented"@ || t == "changed"@ || t == "retired"@ {
        t
    } else {
        "planned"@
    }
}

/// A story status as stored: the known status the text names, else `planned`.
pub fn normalize_story_status(value: &str) -> (r: String)
    ensures
        r@ == story_status_of(normalized(value@)),
{
    let t = normalize_token(value);
    let s = t.as_str();
    if is_lit(s, "in_progress") || is_lit(s, "implemented") || is_lit(s, "changed") || is_lit(s, "retired") {
        t
    } else {
        "planned".to_owned()
    }
}

pub open spec fn decision_status_of(t: Seq<char>) -> Seq<char> {
    if t == "proposed"@ || t == "accepted"@ || t == "superseded"@ || t == "rejected"@ {
        t
    } else if has_prefix(t, "superseded_"@) {
        "superseded"@
    } else {
        "accepted"@
    }
}

/// A decision status as stored: the known status the text names, a
/// `superseded ...` status as `superseded`, else `accepted`.
pub fn normalize_decision_status(value: &str) -> (r: String)
    ensures
        r@ == decision_status_of(normalized(value@)),
{
    let t = normalize_token(value);
    let s = t.as_str();
    if is_lit(s, "proposed") || is_lit(s, "accepted") || is_lit(s, "superseded") || is_lit(s, "rejected") {
        t
    } else if starts_with_str(chars_of(s).as_slice(), "superseded_") {
        "superseded".to_owned()
    } else {
        "accepted".to_owned()
    }
}

pub open spec fn backlog_status_of(t: Seq<char>) -> Seq<char> {
    if t == "accepted"@ || t == "implemented"@ || t == "rejected"@ {
        t
    } else {
        "proposed"@
    }
}

/// A backlog status as stored: the known status the text names, else `proposed`.
pub fn normalize_backlog_status(value: &str) -> (r: String)
    ensures
        r@ == backlog_status_of(normalized(value@)),
{
    let t = normalize_token(value);
    let s = t.as_str();
    if is_lit(s, "accepted") || is_lit(s, "implemented") || is_lit(s, "rejected") {
        t
    } else {
        "proposed".to_owned()
    }
}

/// `None` for the empty string.
pub fn empty_to_none(value: String) -> (r: Option<String>)
    ensures
        opt_view(r) == if value@.len() == 0 { None } else { Some(value@) },
{
    if value.as_str().unicode_len() == 0 {
        None
    } else {
        Some(value)
    }
}

// ---------------------------------------------------------------------------
// Sections
// ---------------------------------------------------------------------------

/// The first non-blank trimmed line after the first line whose trimmed text
/// is `target`; `found` says whether that line was already passed.
pub open spec fn section_value(lines: Seq<Seq<char>>, found: bool, target: Seq<char>) -> Seq<char>
    decreases lines.len(),
{
    if lines.len() == 0 {
        seq![]
    } else {
        let t = trim(lines[0]);
        if found && t.len() > 0 {
            t
        } else {
            section_value(lines.drop_first(), found || t == target, target)
        }
    }
}

/// The first value under the heading `## <heading>` of `content`, or the
/// empty string.
pub fn markdown_section_first_value(content: &str, heading: &str) -> (r: String)
    ensures
        r@ == section_value(lines_of(content@), false, "## "@ + heading@),
{
    let target = append_str("## ".to_owned(), heading);
    let lines = split_lines(chars_of(content).as_slice());
    let mut found = false;
    let mut i: usize = 0;
    assert(views(lines@).skip(0) == views(lines@));
    while i < lines.len()
        invariant
            i <= lines@.len(),
            views(lines@) == lines_of(content@),
            target@ == "## "@ + heading@,
            section_value(lines_of(content@), false, target@)
                == section_value(views(lines@).skip(i as int), found, target@),
        decreases lines@.len() - i,
    {
        let t = trimmed(lines[i].as_slice());
        let ghost rest = views(lines@).skip(i as int);
        assert(rest.len() > 0);
        assert(rest[0] == lines@[i as int]@);
        assert(t@ == trim(rest[0]));
        assert(rest.drop_first() == views(lines@).skip(i + 1));
        if found && t.len() > 0 {
            return string_of(t.as_slice());
        }
        if eq_str(t.as_slice(), target.as_str()) {
            found = true;
        }
        i = i + 1;
    }
    String::new()
}

/// Whether `file_name` names a decision record: four ASCII digits before
/// its first `-`.
pub open spec fn decision_file_name(name: Seq<char>) -> bool {
    let k = first_index_of(name, '-');
    &&& k == 4
    &&& forall|i: int| 0 <= i < 4 ==> crate::text::is_digit(#[trigger] name[i])
}

pub fn is_decision_file_name(file_name: &str) -> (b: bool)
    ensures
        b == decision_file_name(file_name@),
{
    let cs = chars_of(file_name);
    let k = find_char_from(cs.as_slice(), '-', 0);
    proof {
        assert(cs@.skip(0) == cs@);
        lemma_first_index_of_found(cs@, '-', k as int);
    }
    if k == cs.len() || k != 4 {
        return false;
    }
    let mut i: usize = 0;
    while i < 4
        invariant
            i <= 4,
            cs@.len() > 4,
            cs@ == file_name@,
            forall|j: int| 0 <= j < i ==> crate::text::is_digit(#[trigger] file_name@[j]),
        decreases 4 - i,
    {
        if !('0' <= cs[i] && cs[i] <= '9') {
            return false;
        }
        i = i + 1;
    }
    true
}

// ---------------------------------------------------------------------------
// The harness backlog
// ---------------------------------------------------------------------------

/// One item of `docs/HARNESS_BACKLOG.md`, by the first line under each of
/// its `###` headings.
#[derive(Debug)]
pub struct BacklogMarkdownItem {
    pub title: String,
    pub discovered_while: String,
    pub current_pain: String,
    pub suggested_improvement: String,
    pub risk: String,
    pub status: String,
}

pub struct BacklogItemView {
    pub title: Seq<char>,
    pub discovered_while: Seq<char>,
    pub current_pain: Seq<char>,
    pub suggested_improvement: Seq<char>,
    pub risk: Seq<char>,
    pub status: Seq<char>,
}

impl View for BacklogMarkdownItem {
    type V = BacklogItemView;

    open spec fn view(&self) -> BacklogItemView {
        BacklogItemView {
            title: self.title@,
            discovered_while: self.discovered_while@,
            current_pain: self.current_pain@,
            suggested_improvement: self.suggested_improvement@,
            risk: self.risk@,
            status: self.status@,
        }
    }
}

pub open spec fn empty_item() -> BacklogItemView {
    BacklogItemView {
        title: seq![],
        discovered_while: seq![],
        current_pain: seq![],
        suggested_improvement: seq![],
        risk: seq![],
        status: seq![],
    }
}

pub open spec fn keep_first(field: Seq<char>, text: Seq<char>) -> Seq<char> {
    if field.len() == 0 {
        text
    } else {
        field
    }
}

/// `item` with `text` as the value under `heading`, unless it has one.
pub open spec fn fill(item: BacklogItemView, heading: Seq<char>, text: Seq<char>) -> BacklogItemView {
    if heading == "title"@ {
        BacklogItemView { title: keep_first(item.title, text), ..item }
    } else if heading == "discovered_while"@ {
        BacklogItemView { discovered_while: keep_first(item.discovered_while, text), ..item }
    } else if heading == "current_pain"@ {
        BacklogItemView { current_pain: keep_first(item.current_pain, text), ..item }
    } else if heading == "suggested_improvement"@ {
        BacklogItemView { suggested_improvement: keep_first(item.suggested_improvement, text), ..item }
    } else if heading == "risk"@ {
        BacklogItemView { risk: keep_first(item.risk, text), ..item }
    } else if heading == "status"@ {
        BacklogItemView { status: keep_first(item.status, text), ..item }
    } else {
        item
    }
}

/// Where the reading of the backlog document stands after some lines.
pub struct BacklogScan {
    pub in_items: bool,
    pub heading: Seq<char>,
    pub current: BacklogItemView,
    pub items: Seq<BacklogItemView>,
}

pub open spec fn backlog_step(st: BacklogScan, line: Seq<char>) -> BacklogScan {
    let t = trim(line);
    if t == "## Items"@ {
        BacklogScan { in_items: true, heading: seq![], ..st }
    } else if !st.in_items {
        st
    } else if has_prefix(t, "### "@) {
        let h = normalized(t.skip(4));
        if h == "title"@ && st.current.title.len() > 0 {
            BacklogScan { heading: h, current: empty_item(), items: st.items.push(st.current), ..st }
        } else {
            BacklogScan { heading: h, ..st }
        }
    } else if t.len() == 0 || st.heading.len() == 0 {
        st
    } else {
        BacklogScan { current: fill(st.current, st.heading, t), ..st }
    }
}

pub open spec fn backlog_scan(lines: Seq<Seq<char>>) -> BacklogScan
    decreases lines.len(),
{
    if lines.len() == 0 {
        BacklogScan { in_items: false, heading: seq![], current: empty_item(), items: seq![] }
    } else {
        backlog_step(backlog_scan(lines.drop_last()), lines.last())
    }
}

/// Under `## Items`, a `### <heading>` line followed by a non-blank text
/// line: the text becomes the value of the heading's field of the current
/// item when that field has none yet (a `### Title` once the current item
/// has a title starts a new item); every other field stays as it was.
pub proof fn lemma_heading_fills_its_field(st: BacklogScan, heading_line: Seq<char>, line: Seq<char>)
    requires
        st.in_items,
        trim(heading_line) != "## Items"@,
        has_prefix(trim(heading_line), "### "@),
        trim(line).len() > 0,
        trim(line) != "## Items"@,
        !has_prefix(trim(line), "### "@),
    ensures
        ({
            let h = normalized(trim(heading_line).skip(4));
            let c = st.current;
            let v = trim(line);
            let after = backlog_step(backlog_step(st, heading_line), line);
            &&& after.in_items
            &&& after.heading == h
            &&& (h == "discovered_while"@ ==> after.items == st.items && after.current
                == (if c.discovered_while.len() == 0 { BacklogItemView { discovered_while: v, ..c } } else { c }))
            &&& (h == "current_pain"@ ==> after.items == st.items && after.current
                == (if c.current_pain.len() == 0 { BacklogItemView { current_pain: v, ..c } } else { c }))
            &&& (h == "suggested_improvement"@ ==> after.items == st.items && after.current
                == (if c.suggested_improvement.len() == 0 { BacklogItemView { suggested_improvement: v, ..c } } else { c }))
            &&& (h == "risk"@ ==> after.items == st.items && after.current
                == (if c.risk.len() == 0 { BacklogItemView { risk: v, ..c } } else { c }))
            &&& (h == "status"@ ==> after.items == st.items && after.current
                == (if c.status.len() == 0 { BacklogItemView { status: v, ..c } } else { c }))
            &&& (h == "title"@ && c.title.len() == 0 ==> after.items == st.items
                && after.current == BacklogItemView { title: v, ..c })
            &&& (h == "title"@ && c.title.len() > 0 ==> after.items == st.items.push(c)
                && after.current == BacklogItemView {
                    title: v,
                    discovered_while: seq![],
                    current_pain: seq![],
                    suggested_improvement: seq![],
                    risk: seq![],
                    status: seq![],
                })
            &&& (!(h == "title"@ || h == "discovered_while"@ || h == "current_pain"@ || h == "suggested_improvement"@
                || h == "risk"@ || h == "status"@) ==> after.items == st.items && after.current == c)
        }),
{
    let h = normalized(trim(heading_line).skip(4));
    reveal_strlit("title");
    reveal_strlit("discovered_while");
    reveal_strlit("current_pain");
    reveal_strlit("suggested_improvement");
    reveal_strlit("risk");
    reveal_strlit("status");
    assert(h.len() > 0 || h.len() == 0);
    let mid = backlog_step(st, heading_line);
    assert(mid.heading == h);
    if h.len() == 0 {
        let after = backlog_step(mid, line);
        assert(after == mid);
    }
}

/// The items of the backlog document `content`: from the `## Items`
/// heading on, each `### Title` starts an item (once the current one has a
/// title), and the first non-blank line under a heading is its value.
pub open spec fn backlog_document_items(content: Seq<char>) -> Seq<BacklogItemView> {
    let st = backlog_scan(lines_of(content));
    if st.current.title.len() > 0 {
        st.items.push(st.current)
    } else {
        st.items
    }
}

pub open spec fn item_views(v: Seq<BacklogMarkdownItem>) -> Seq<BacklogItemView> {
    v.map_values(|i: BacklogMarkdownItem| i@)
}

fn new_item() -> (r: BacklogMarkdownItem)
    ensures
        r@ == empty_item(),
{
    BacklogMarkdownItem {
        title: String::new(),
        discovered_while: String::new(),
        current_pain: String::new(),
        suggested_improvement: String::new(),
        risk: String::new(),
        status: String::new(),
    }
}

fn keep_first_exec(field: &mut String, text: &Vec<char>)
    ensures
        final(field)@ == keep_first(old(field)@, text@),
{
    if field.as_str().unicode_len() == 0 {
        *field = string_of(text.as_slice());
    }
}

fn fill_exec(item: &mut BacklogMarkdownItem, heading: &str, text: &Vec<char>)
    ensures
        final(item)@ == fill(old(item)@, heading@, text@),
{
    if is_lit(heading, "title") {
        keep_first_exec(&mut item.title, text);
    } else if is_lit(heading, "discovered_while") {
        keep_first_exec(&mut item.discovered_while, text);
    } else if is_lit(heading, "current_pain") {
        keep_first_exec(&mut item.current_pain, text);
    } else if is_lit(heading, "suggested_improvement") {
        keep_first_exec(&mut item.suggested_improvement, text);
    } else if is_lit(heading, "risk") {
        keep_first_exec(&mut item.risk, text);
    } else if is_lit(heading, "status") {
        keep_first_exec(&mut item.status, text);
    }
}

/// The items of the backlog document `content` (see `backlog_document_items`).
pub fn backlog_items(content: &str) -> (out: Vec<BacklogMarkdownItem>)
    ensures
        item_views(out@) == backlog_document_items(content@),
{
    let lines = split_lines(chars_of(content).as_slice());
    let mut in_items = false;
    let mut heading = String::new();
    let mut current = new_item();
    let mut items: Vec<BacklogMarkdownItem> = Vec::new();
    let mut i: usize = 0;
    assert(views(lines@).take(0).len() == 0);
    assert(item_views(items@) =~= Seq::<BacklogItemView>::empty());
    assert(heading@ =~= Seq::<char>::empty());
    while i < lines.len()
        invariant
            i <= lines@.len(),
            views(lines@) == lines_of(content@),
            backlog_scan(views(lines@).take(i as int)) == (BacklogScan {
                in_items,
                heading: heading@,
                current: current@,
                items: item_views(items@),
            }),
        decreases lines@.len() - i,
    {
        let ghost st = backlog_scan(views(lines@).take(i as int));
        let ghost t = views(lines@).take(i + 1);
        assert(t.drop_last() == views(lines@).take(i as int));
        assert(t.last() == lines@[i as int]@);
        let tc = trimmed(lines[i].as_slice());
        if eq_str(tc.as_slice(), "## Items") {
            in_items = true;
            heading = String::new();
        } else if !in_items {
        } else if starts_with_str(tc.as_slice(), "### ") {
            proof {
                reveal_strlit("### ");
            }
            let rest = slice_of(tc.as_slice(), 4, tc.len());
            assert(rest@ == tc@.skip(4));
            let h = string_of(normalize_chars(rest.as_slice()).as_slice());
            if is_lit(h.as_str(), "title") && current.title.as_str().unicode_len() > 0 {
                let mut done = new_item();
                std::mem::swap(&mut current, &mut done);
                let ghost before = items@;
                items.push(done);
                assert(items@.drop_last() == before);
                assert(item_views(items@) =~= item_views(before).push(st.current));
            }
            heading = h;
        } else if tc.len() == 0 || heading.as_str().unicode_len() == 0 {
        } else {
            fill_exec(&mut current, heading.as_str(), &tc);
        }
        i = i + 1;
    }
    assert(views(lines@).take(i as int) == views(lines@));
    if current.title.as_str().unicode_len() > 0 {
        let ghost before = items@;
        let ghost cur = current@;
        items.push(current);
        assert(items@.drop_last() == before);
        assert(item_views(items@) =~= item_views(before).push(cur));
    }
    items
}

/// A backlog row to import.
#[derive(Debug)]
pub struct BacklogImportRow {
    pub title: String,
    pub discovered_while: Option<String>,
    pub current_pain: Option<String>,
    pub suggested_improvement: Option<String>,
    pub risk: Option<String>,
    pub status: String,
}

pub open spec fn none_if_empty(s: Seq<char>) -> Option<Seq<char>> {
    if s.len() == 0 {
        None
    } else {
        Some(s)
    }
}

/// The row that imports a backlog item, if it is one: items without a title
/// or with the template's title `Short name.` are skipped. `risk_lane` is the
/// stored risk lane that the item's risk text names, if any; a blank risk
/// imports none.
pub fn backlog_import_row(item: BacklogMarkdownItem, risk_lane: Option<String>) -> (r: Option<BacklogImportRow>)
    ensures
        (item@.title.len() == 0 || item@.title == "Short name."@) ==> r is None,
        !(item@.title.len() == 0 || item@.title == "Short name."@) ==> (r matches Some(row) && {
            &&& row.title@ == item@.title
            &&& opt_view(row.discovered_while) == none_if_empty(item@.discovered_while)
            &&& opt_view(row.current_pain) == none_if_empty(item@.current_pain)
            &&& opt_view(row.suggested_improvement) == none_if_empty(item@.suggested_improvement)
            &&& opt_view(row.risk) == if item@.risk.len() == 0 { None } else { opt_view(risk_lane) }
            &&& row.status@ == backlog_status_of(normalized(item@.status))
        }),
{
    if item.title.as_str().unicode_len() == 0 || is_lit(item.title.as_str(), "Short name.") {
        return None;
    }
    let risk = if item.risk.as_str().unicode_len() == 0 { None } else { risk_lane };
    let status = normalize_backlog_status(item.status.as_str());
    Some(BacklogImportRow {
        title: item.title,
        discovered_while: empty_to_none(item.discovered_while),
        current_pain: empty_to_none(item.current_pain),
        suggested_improvement: empty_to_none(item.suggested_improvement),
        risk,
        status,
    })
}

// ---------------------------------------------------------------------------
// The test matrix
// ---------------------------------------------------------------------------

/// The positions of the matrix columns that the import reads.
#[derive(Debug, Clone, Copy, PartialEq, Eq)]
pub struct MatrixColumns {
    pub story: Option<usize>,
    pub contract: Option<usize>,
    pub unit: Option<usize>,
    pub integration: Option<usize>,
    pub e2e: Option<usize>,
    pub platform: Option<usize>,
    pub status: Option<usize>,
    pub evidence: Option<usize>,
}

/// The last column of `fields` whose token is `name`.
pub open spec fn last_column(fields: Seq<Seq<char>>, name: Seq<char>) -> Option<usize>
    decreases fields.len(),
{
    if fields.len() == 0 {
        None
    } else if normalized(fields.last()) == name {
        Some((fields.len() - 1) as usize)
    } else {
        last_column(fields.drop_last(), name)
    }
}

pub open spec fn header_columns(fields: Seq<Seq<char>>) -> MatrixColumns {
    MatrixColumns {
        story: last_column(fields, "story"@),
        contract: last_column(fields, "contract"@),
        unit: last_column(fields, "unit"@),
        integration: last_column(fields, "integration"@),
        e2e: last_column(fields, "e2e"@),
        platform: last_column(fields, "platform"@),
        status: last_column(fields, "status"@),
        evidence: last_column(fields, "evidence"@),
    }
}

impl MatrixColumns {
    /// The columns that a header row names, by their tokens; a name given
    /// twice is taken from its last cell.
    pub fn from_header(fields: &[String]) -> (r: MatrixColumns)
        ensures
            r == header_columns(strings_view(fields@)),
    {
        let mut c = MatrixColumns {
            story: None,
            contract: None,
            unit: None,
            integration: None,
            e2e: None,
            platform: None,
            status: None,
            evidence: None,
        };
        let mut i: usize = 0;
        while i < fields.len()
            invariant
                i <= fields@.len(),
                c == header_columns(strings_view(fields@).take(i as int)),
            decreases fields@.len() - i,
        {
            let ghost t = strings_view(fields@).take(i + 1);
            assert(t.drop_last() == strings_view(fields@).take(i as int));
            assert(t.last() == fields@[i as int]@);
            assert(t.len() == i + 1);
            proof {
                reveal_strlit("story");
                reveal_strlit("contract");
                reveal_strlit("unit");
                reveal_strlit("integration");
                reveal_strlit("e2e");
                reveal_strlit("platform");
                reveal_strlit("status");
                reveal_strlit("evidence");
                assert("platform"@[0] != "contract"@[0]);
                assert("evidence"@[0] != "contract"@[0]);
                assert("evidence"@[0] != "platform"@[0]);
            }
            let token = normalize_token(fields[i].as_str());
            let k = token.as_str();
            if is_lit(k, "story") {
                c.story = Some(i);
            } else if is_lit(k, "contract") {
                c.contract = Some(i);
            } else if is_lit(k, "unit") {
                c.unit = Some(i);
            } else if is_lit(k, "integration") {
                c.integration = Some(i);
            } else if is_lit(k, "e2e") {
                c.e2e = Some(i);
            } else if is_lit(k, "platform") {
                c.platform = Some(i);
            } else if is_lit(k, "status") {
                c.status = Some(i);
            } else if is_lit(k, "evidence") {
                c.evidence = Some(i);
            }
            proof {
                assert(normalized(t.last()) == token@);
                assert(((t.len() - 1) as usize) == i);
                assert(c.story == last_column(t, "story"@));
                assert(c.contract == last_column(t, "contract"@));
                assert(c.unit == last_column(t, "unit"@));
                assert(c.integration == last_column(t, "integration"@));
                assert(c.e2e == last_column(t, "e2e"@));
                assert(c.platform == last_column(t, "platform"@));
                assert(c.status == last_column(t, "status"@));
                assert(c.evidence == last_column(t, "evidence"@));
            }
            i = i + 1;
        }
        assert(strings_view(fields@).take(i as int) == strings_view(fields@));
        c
    }
}

/// A story row of the test matrix, as imported.
#[derive(Debug)]
pub struct MatrixStory {
    pub id: String,
    pub title: String,
    pub contract_doc: Option<String>,
    pub status: String,
    pub unit_proof: i64,
    pub integration_proof: i64,
    pub e2e_proof: i64,
    pub platform_proof: i64,
    pub evidence: Option<String>,
}

pub struct MatrixStoryView {
    pub id: Seq<char>,
    pub title: Seq<char>,
    pub contract_doc: Option<Seq<char>>,
    pub status: Seq<char>,
    pub unit_proof: i64,
    pub integration_proof: i64,
    pub e2e_proof: i64,
    pub platform_proof: i64,
    pub evidence: Option<Seq<char>>,
}

impl View for MatrixStory {
    type V = MatrixStoryView;

    open spec fn view(&self) -> MatrixStoryView {
        MatrixStoryView {
            id: self.id@,
            title: self.title@,
            contract_doc: opt_view(self.contract_doc),
            status: self.status@,
            unit_proof: self.unit_proof,
            integration_proof: self.integration_proof,
            e2e_proof: self.e2e_proof,
            platform_proof: self.platform_proof,
            evidence: opt_view(self.evidence),
        }
    }
}

pub open spec fn or_empty(o: Option<Seq<char>>) -> Seq<char> {
    match o {
        Some(s) => s,
        None => seq![],
    }
}

pub open spec fn proof_flag(cell: Seq<char>) -> i64 {
    if absent_proof_token(normalized(cell)) {
        0
    } else {
        1
    }
}

/// Story ids that mark a placeholder row rather than a story.
pub open spec fn placeholder_id(id: Seq<char>) -> bool {
    let t = normalized(id);
    ||| t.len() == 0
    ||| t == "story"@
    ||| t == "tbd"@
    ||| t == "todo"@
    ||| t == "example"@
    ||| t == "examples"@
    ||| forall|i: int| 0 <= i < id.len() ==> id[i] == '-'
}

/// The story a matrix row describes under the columns `c`, unless its id
/// marks a placeholder.
pub open spec fn matrix_row(fields: Seq<Seq<char>>, c: MatrixColumns) -> Option<MatrixStoryView> {
    let id = or_empty(cell_at(fields, c.story));
    if placeholder_id(id) {
        None
    } else {
        Some(MatrixStoryView {
            id,
            title: match cell_at(fields, c.contract) {
                Some(t) => t,
                None => id,
            },
            contract_doc: cell_at(fields, c.contract),
            status: story_status_of(normalized(or_empty(cell_at(fields, c.status)))),
            unit_proof: proof_flag(or_empty(cell_at(fields, c.unit))),
            integration_proof: proof_flag(or_empty(cell_at(fields, c.integration))),
            e2e_proof: proof_flag(or_empty(cell_at(fields, c.e2e))),
            platform_proof: proof_flag(or_empty(cell_at(fields, c.platform))),
            evidence: match c.evidence {
                Some(i) => evidence_cells(fields, i as int),
                None => None,
            },
        })
    }
}

pub struct MatrixScan {
    pub columns: Option<MatrixColumns>,
    pub stories: Seq<MatrixStoryView>,
}

/// One line of the matrix document: table rows only; the first row that
/// names both the story and the status column is the header, and the rows
/// after it are stories.
pub open spec fn matrix_step(st: MatrixScan, line: Seq<char>) -> MatrixScan {
    if !has_prefix(trim_start(line), "|"@) {
        st
    } else {
        let fields = table_fields(line);
        if fields.len() < 2 {
            st
        } else {
            match st.columns {
                None => {
                    let c = header_columns(fields);
                    if c.story is Some && c.status is Some {
                        MatrixScan { columns: Some(c), ..st }
                    } else {
                        st
                    }
                },
                Some(c) => match matrix_row(fields, c) {
                    Some(r) => MatrixScan { stories: st.stories.push(r), ..st },
                    None => st,
                },
            }
        }
    }
}

pub open spec fn matrix_scan(lines: Seq<Seq<char>>) -> MatrixScan
    decreases lines.len(),
{
    if lines.len() == 0 {
        MatrixScan { columns: None, stories: seq![] }
    } else {
        matrix_step(matrix_scan(lines.drop_last()), lines.last())
    }
}

pub open spec fn story_views(v: Seq<MatrixStory>) -> Seq<MatrixStoryView> {
    v.map_values(|s: MatrixStory| s@)
}

fn or_empty_exec(o: Option<String>) -> (r: String)
    ensures
        r@ == or_empty(opt_view(o)),
{
    match o {
        Some(s) => s,
        None => String::new(),
    }
}

fn all_dashes(v: &[char]) -> (b: bool)
    ensures
        b == forall|i: int| 0 <= i < v@.len() ==> v@[i] == '-',
{
    let mut i: usize = 0;
    while i < v.len()
        invariant
            i <= v@.len(),
            forall|j: int| 0 <= j < i ==> v@[j] == '-',
        decreases v@.len() - i,
    {
        if v[i] != '-' {
            return false;
        }
        i = i + 1;
    }
    true
}

/// The story of a matrix row (see `matrix_row`).
pub fn matrix_row_story(fields: &[String], c: &MatrixColumns) -> (r: Option<MatrixStory>)
    ensures
        match r {
            Some(s) => matrix_row(strings_view(fields@), *c) == Some(s@),
            None => matrix_row(strings_view(fields@), *c) is None,
        },
{
    let id = or_empty_exec(field_at(fields, c.story));
    let idc = chars_of(id.as_str());
    let token = normalize_chars(idc.as_slice());
    let ts = token.as_slice();
    if token.len() == 0 || eq_str(ts, "story") || eq_str(ts, "tbd") || eq_str(ts, "todo")
        || eq_str(ts, "example") || eq_str(ts, "examples") || all_dashes(idc.as_slice()) {
        return None;
    }
    let contract_doc = field_at(fields, c.contract);
    let title = match &contract_doc {
        Some(t) => t.clone(),
        None => id.clone(),
    };
    let status = normalize_story_status(or_empty_exec(field_at(fields, c.status)).as_str());
    let unit_proof = proof_from_cell(or_empty_exec(field_at(fields, c.unit)).as_str());
    let integration_proof = proof_from_cell(or_empty_exec(field_at(fields, c.integration)).as_str());
    let e2e_proof = proof_from_cell(or_empty_exec(field_at(fields, c.e2e)).as_str());
    let platform_proof = proof_from_cell(or_empty_exec(field_at(fields, c.platform)).as_str());
    let evidence = match c.evidence {
        Some(i) => evidence_from_fields(fields, i),
        None => None,
    };
    Some(MatrixStory {
        id,
        title,
        contract_doc,
        status,
        unit_proof,
        integration_proof,
        e2e_proof,
        platform_proof,
        evidence,
    })
}

/// The stories of the test matrix document `content` (see `matrix_step`).
pub fn matrix_stories(content: &str) -> (out: Vec<MatrixStory>)
    ensures
        story_views(out@) == matrix_scan(lines_of(content@)).stories,
{
    let lines = split_lines(chars_of(content).as_slice());
    let mut columns: Option<MatrixColumns> = None;
    let mut stories: Vec<MatrixStory> = Vec::new();
    let mut i: usize = 0;
    assert(views(lines@).take(0).len() == 0);
    assert(story_views(stories@) =~= Seq::<MatrixStoryView>::empty());
    while i < lines.len()
        invariant
            i <= lines@.len(),
            views(lines@) == lines_of(content@),
            matrix_scan(views(lines@).take(i as int)) == (MatrixScan { columns, stories: story_views(stories@) }),
        decreases lines@.len() - i,
    {
        let ghost t = views(lines@).take(i + 1);
        assert(t.drop_last() == views(lines@).take(i as int));
        assert(t.last() == lines@[i as int]@);
        let (from, _) = trim_bounds(lines[i].as_slice());
        let is_row = from < lines[i].len() && lines[i][from] == '|';
        assert(is_row == has_prefix(trim_start(lines@[i as int]@), "|"@)) by {
            reveal_strlit("|");
            let ts = trim_start(lines@[i as int]@);
            if from < lines@[i as int]@.len() {
                assert(ts[0] == lines@[i as int]@[from as int]);
            }
            if is_row {
                assert(ts.take(1) =~= "|"@);
            }
            if has_prefix(ts, "|"@) {
                assert(ts.take(1)[0] == '|');
            }
        }
        if is_row {
            let line = string_of(lines[i].as_slice());
            let fields = markdown_table_fields(line.as_str());
            if fields.len() >= 2 {
                match columns {
                    None => {
                        let c = MatrixColumns::from_header(fields.as_slice());
                        if c.story.is_some() && c.status.is_some() {
                            columns = Some(c);
                        }
                    },
                    Some(c) => {
                        match matrix_row_story(fields.as_slice(), &c) {
                            Some(s) => {
                                let ghost before = stories@;
                                let ghost sv = s@;
                                stories.push(s);
                                assert(stories@.drop_last() == before);
                                assert(story_views(stories@) =~= story_views(before).push(sv));
                            },
                            None => {},
                        }
                    },
                }
            }
        }
        i = i + 1;
    }
    assert(views(lines@).take(i as int) == views(lines@));
    stories
}

// ---------------------------------------------------------------------------
// Decision records
// ---------------------------------------------------------------------------

/// The title of a decision record: its first line without a leading `# `,
/// trimmed, or the file's stem when that gives nothing.
pub open spec fn decision_title(content: Seq<char>, stem: Seq<char>) -> Seq<char> {
    let lines = lines_of(content);
    if lines.len() > 0 && has_prefix(lines[0], "# "@) && trim(lines[0].skip(2)).len() > 0 {
        trim(lines[0].skip(2))
    } else {
        stem
    }
}

/// A decision record to import.
#[derive(Debug)]
pub struct DecisionImport {
    pub id: String,
    pub title: String,
    pub status: String,
    pub doc_path: String,
}

/// The decision that the record `file_name` (stem `stem`) with text
/// `content` describes.
pub fn decision_import(file_name: &str, stem: &str, content: &str) -> (r: DecisionImport)
    ensures
        r.id@ == stem@,
        r.title@ == decision_title(content@, stem@),
        r.status@ == decision_status_of(normalized(section_value(lines_of(content@), false, "## Status"@))),
        r.doc_path@ == "docs/decisions/"@ + file_name@,
{
    let lines = split_lines(chars_of(content).as_slice());
    let mut title = stem.to_owned();
    proof {
        reveal_strlit("# ");
        reveal_strlit("## ");
        reveal_strlit("Status");
        reveal_strlit("## Status");
        assert("## "@ + "Status"@ =~= "## Status"@);
    }
    if lines.len() > 0 && starts_with_str(lines[0].as_slice(), "# ") {
        let rest = slice_of(lines[0].as_slice(), 2, lines[0].len());
        assert(rest@ == lines@[0]@.skip(2));
        let t = trimmed(rest.as_slice());
        if t.len() > 0 {
            title = string_of(t.as_slice());
        }
    }
    assert(views(lines@).len() > 0 ==> views(lines@)[0] == lines@[0]@);
    let value = markdown_section_first_value(content, "Status");
    DecisionImport {
        id: stem.to_owned(),
        title,
        status: normalize_decision_status(value.as_str()),
        doc_path: append_str("docs/decisions/".to_owned(), file_name),
    }
}

pub open spec fn decision_record_name(name: Seq<char>) -> bool {
    crate::text::has_suffix(name, ".md"@) && decision_file_name(name)
}

/// The decision records among the file names of `docs/decisions`, in the
/// order they are imported.
pub open spec fn decision_records(names: Seq<Seq<char>>) -> Seq<Seq<char>>
    decreases names.len(),
{
    if names.len() == 0 {
        seq![]
    } else {
        let rest = decision_records(names.drop_last());
        if decision_record_name(names.last()) {
            rest.push(names.last())
        } else {
            rest
        }
    }
}

/// The decision record files among `names`, in import order.
pub fn decision_file_order(names: &Vec<String>) -> (out: Vec<String>)
    ensures
        strings_view(out@) == crate::replay::sorted_names(decision_records(strings_view(names@))),
        crate::replay::ascending(strings_view(out@)),
        strings_view(out@).to_multiset() == decision_records(strings_view(names@)).to_multiset(),
{
    let mut picked: Vec<String> = Vec::new();
    let mut i: usize = 0;
    while i < names.len()
        invariant
            i <= names@.len(),
            strings_view(picked@) == decision_records(strings_view(names@).take(i as int)),
        decreases names@.len() - i,
    {
        let ghost t = strings_view(names@).take(i + 1);
        assert(t.drop_last() == strings_view(names@).take(i as int));
        assert(t.last() == names@[i as int]@);
        let cs = chars_of(names[i].as_str());
        if crate::text::ends_with_str(cs.as_slice(), ".md") && is_decision_file_name(names[i].as_str()) {
            let ghost before = picked@;
            picked.push(names[i].clone());
            assert(picked@.drop_last() == before);
            assert(strings_view(picked@) =~= strings_view(before).push(names@[i as int]@));
        }
        i = i + 1;
    }
    assert(strings_view(names@).take(i as int) == strings_view(names@));
    let sorted = crate::replay::sort_names(picked);
    assert(crate::replay::strings_view(sorted@) == strings_view(sorted@));
    assert(crate::replay::strings_view(picked@) == strings_view(picked@));
    sorted
}

} // verus!
