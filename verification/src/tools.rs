//! The tool registry: how a tool's arguments are stored as JSON text and
//! read back, and what a presence scan concludes for each kind of tool.
use vstd::prelude::*;
use crate::text::{
    append_str, chars_of, contains_seq, contains_str, has_prefix, is_lit, is_space, normalize_token,
    normalized, occurs_at, occurs_at_str, opt_view, slice_of, string_of, trim, trimmed,
};

verus! {

/// One argument of a registered tool.
#[derive(Debug, Clone, PartialEq, Eq)]
pub struct ToolArgSpec {
    pub name: String,
    pub arg_type: String,
    pub required: bool,
    pub help: Option<String>,
}

pub struct ToolArgView {
    pub name: Seq<char>,
    pub arg_type: Seq<char>,
    pub required: bool,
    pub help: Option<Seq<char>>,
}

impl View for ToolArgSpec {
    type V = ToolArgView;

    open spec fn view(&self) -> ToolArgView {
        ToolArgView { name: self.name@, arg_type: self.arg_type@, required: self.required, help: opt_view(self.help) }
    }
}

pub open spec fn arg_views(v: Seq<ToolArgSpec>) -> Seq<ToolArgView> {
    v.map_values(|a: ToolArgSpec| a@)
}

/// Outcome of one `tool check` scan. The CLI reports these facts; the agent
/// applies policy (skip / degrade / use) based on `status`.
#[derive(Debug, Clone, PartialEq, Eq)]
pub struct ToolCheckResult {
    pub name: String,
    pub kind: String,
    pub capability: Option<String>,
    pub status: String,
    pub detail: String,
}

// ---------------------------------------------------------------------------
// Arguments as JSON text
// ---------------------------------------------------------------------------

/// The escaped form of one character inside a JSON string.
pub open spec fn escaped_char(c: char) -> Seq<char> {
    if c == '\\' {
        seq!['\\', '\\']
    } else if c == '"' {
        seq!['\\', '"']
    } else if c == '\n' {
        seq!['\\', 'n']
    } else {
        seq![c]
    }
}

/// `s` with backslashes, double quotes and newlines escaped.
pub open spec fn escaped(s: Seq<char>) -> Seq<char>
    decreases s.len(),
{
    if s.len() == 0 {
        seq![]
    } else {
        escaped(s.drop_last()) + escaped_char(s.last())
    }
}

/// `value` escaped for a JSON string (see `escaped`).
pub fn escape_json(value: &str) -> (r: String)
    ensures
        r@ == escaped(value@),
{
    let cs = chars_of(value);
    let mut out: Vec<char> = Vec::new();
    let mut i: usize = 0;
    while i < cs.len()
        invariant
            i <= cs@.len(),
            cs@ == value@,
            out@ == escaped(cs@.take(i as int)),
        decreases cs@.len() - i,
    {
        let c = cs[i];
        assert(cs@.take(i + 1).drop_last() == cs@.take(i as int));
        if c == '\\' {
            out.push('\\');
            out.push('\\');
        } else if c == '"' {
            out.push('\\');
            out.push('"');
        } else if c == '\n' {
            out.push('\\');
            out.push('n');
        } else {
            out.push(c);
        }
        assert(out@ =~= escaped(cs@.take(i as int)) + escaped_char(c));
        i = i + 1;
    }
    assert(cs@.take(i as int) == cs@);
    string_of(out.as_slice())
}

pub open spec fn bool_text(b: bool) -> Seq<char> {
    if b {
        "true"@
    } else {
        "false"@
    }
}

pub open spec fn or_empty_text(o: Option<Seq<char>>) -> Seq<char> {
    match o {
        Some(s) => s,
        None => seq![],
    }
}

/// The JSON object of one argument.
pub open spec fn arg_json(a: ToolArgView) -> Seq<char> {
    "{\"name\":\""@ + escaped(a.name) + "\",\"type\":\""@ + escaped(a.arg_type) + "\",\"required\":"@
        + bool_text(a.required) + ",\"help\":\""@ + escaped(or_empty_text(a.help)) + "\"}"@
}

/// The JSON objects of `args`, separated by commas.
pub open spec fn args_items(args: Seq<ToolArgView>) -> Seq<char>
    decreases args.len(),
{
    if args.len() == 0 {
        seq![]
    } else if args.len() == 1 {
        arg_json(args[0])
    } else {
        args_items(args.drop_last()) + ","@ + arg_json(args.last())
    }
}

fn arg_json_exec(a: &ToolArgSpec) -> (r: String)
    ensures
        r@ == arg_json(a@),
{
    let help = match &a.help {
        Some(h) => escape_json(h.as_str()),
        None => escape_json(""),
    };
    proof {
        reveal_strlit("");
    }
    let mut r = append_str("{\"name\":\"".to_owned(), escape_json(a.name.as_str()).as_str());
    r = append_str(r, "\",\"type\":\"");
    r = append_str(r, escape_json(a.arg_type.as_str()).as_str());
    r = append_str(r, "\",\"required\":");
    r = append_str(r, if a.required { "true" } else { "false" });
    r = append_str(r, ",\"help\":\"");
    r = append_str(r, help.as_str());
    append_str(r, "\"}")
}

/// The arguments as stored: no text for none, else a JSON array of objects
/// with `name`, `type`, `required` and `help`.
pub fn tool_args_json(args: &[ToolArgSpec]) -> (r: Option<String>)
    ensures
        opt_view(r) == if args@.len() == 0 {
            None
        } else {
            Some("["@ + args_items(arg_views(args@)) + "]"@)
        },
{
    if args.len() == 0 {
        return None;
    }
    let mut items = String::new();
    let mut i: usize = 0;
    while i < args.len()
        invariant
            i <= args@.len(),
            items@ == args_items(arg_views(args@).take(i as int)),
        decreases args@.len() - i,
    {
        let ghost t = arg_views(args@).take(i + 1);
        assert(t.drop_last() == arg_views(args@).take(i as int));
        assert(t.last() == args@[i as int]@);
        if i > 0 {
            items = append_str(items, ",");
        }
        items = append_str(items, arg_json_exec(&args[i]).as_str());
        i = i + 1;
    }
    assert(arg_views(args@).take(i as int) == arg_views(args@));
    Some(append_str(append_str("[".to_owned(), items.as_str()), "]"))
}

// ---------------------------------------------------------------------------
// Reading the stored text back
// ---------------------------------------------------------------------------

/// The first position at or after `i` where `p` occurs in `s`, or -1.
pub open spec fn find_from(s: Seq<char>, p: Seq<char>, i: int) -> int
    decreases s.len() + 1 - i,
{
    if i < 0 || i + p.len() > s.len() {
        -1
    } else if occurs_at(s, p, i) {
        i
    } else {
        find_from(s, p, i + 1)
    }
}

/// The first position where `p` occurs in `s`, or -1 (`str::find`).
pub open spec fn find(s: Seq<char>, p: Seq<char>) -> int {
    find_from(s, p, 0)
}

pub proof fn lemma_find_from(s: Seq<char>, p: Seq<char>, i: int)
    requires
        0 <= i,
    ensures
        find_from(s, p, i) == -1 || (i <= find_from(s, p, i) && find_from(s, p, i) + p.len() <= s.len()
            && occurs_at(s, p, find_from(s, p, i))),
    decreases s.len() + 1 - i,
{
    if i + p.len() <= s.len() && !occurs_at(s, p, i) {
        lemma_find_from(s, p, i + 1);
    }
}

/// The first position of `p` in `v` at or after `from` (see `find_from`).
pub fn find_str_from(v: &[char], p: &str, from: usize) -> (r: Option<usize>)
    ensures
        match r {
            Some(k) => find_from(v@, p@, from as int) == k as int,
            None => find_from(v@, p@, from as int) == -1,
        },
{
    let n = p.unicode_len();
    if n == 0 {
        if from <= v.len() {
            assert(v@.subrange(from as int, from as int) =~= p@);
            return Some(from);
        }
        return None;
    }
    let mut i = from;
    while i <= v.len() && n <= v.len() - i
        invariant
            from <= i,
            n == p@.len(),
            n > 0,
            find_from(v@, p@, from as int) == find_from(v@, p@, i as int),
        decreases v@.len() + 1 - i,
    {
        if occurs_at_str(v, p, i) {
            return Some(i);
        }
        i = i + 1;
    }
    None
}

/// The value of `"key":` in the flat JSON object text `raw`: the text up to
/// the next quote for a string, else the trimmed text up to the next comma.
pub open spec fn object_value(raw: Seq<char>, key: Seq<char>) -> Option<Seq<char>> {
    let target = "\""@ + key + "\":"@;
    let at = find(raw, target);
    if at < 0 {
        None
    } else {
        let rest = raw.skip(at + target.len());
        if rest.len() > 0 && rest[0] == '"' {
            let inner = rest.drop_first();
            let end = find(inner, "\""@);
            if end < 0 {
                None
            } else {
                Some(inner.take(end))
            }
        } else {
            let end = find(rest, ","@);
            Some(trim(if end < 0 { rest } else { rest.take(end) }))
        }
    }
}

/// The value of `key` in `raw` (see `object_value`).
pub fn json_object_value(raw: &str, key: &str) -> (r: Option<String>)
    ensures
        opt_view(r) == object_value(raw@, key@),
{
    let target = append_str(append_str("\"".to_owned(), key), "\":");
    let cs = chars_of(raw);
    let at = match find_str_from(cs.as_slice(), target.as_str(), 0) {
        Some(k) => k,
        None => { return None; },
    };
    proof {
        lemma_find_from(cs@, target@, 0);
    }
    let total = cs.len();
    let tl = target.as_str().unicode_len();
    assert(at + tl <= total);
    let start = at + tl;
    let rest = slice_of(cs.as_slice(), start, cs.len());
    assert(rest@ == raw@.skip(start as int));
    if rest.len() > 0 && rest[0] == '"' {
        let inner = slice_of(rest.as_slice(), 1, rest.len());
        assert(inner@ == rest@.drop_first());
        match find_str_from(inner.as_slice(), "\"", 0) {
            Some(end) => {
                proof {
                    lemma_find_from(inner@, "\""@, 0);
                }
                Some(string_of(slice_of(inner.as_slice(), 0, end).as_slice()))
            },
            None => None,
        }
    } else {
        match find_str_from(rest.as_slice(), ",", 0) {
            Some(end) => {
                proof {
                    lemma_find_from(rest@, ","@, 0);
                }
                Some(string_of(trimmed(slice_of(rest.as_slice(), 0, end).as_slice()).as_slice()))
            },
            None => Some(string_of(trimmed(rest.as_slice()).as_slice())),
        }
    }
}

/// `s` without every leading `c`.
pub open spec fn strip_start_all(s: Seq<char>, c: char) -> Seq<char>
    decreases s.len(),
{
    if s.len() > 0 && s[0] == c {
        strip_start_all(s.drop_first(), c)
    } else {
        s
    }
}

/// `s` without every trailing `c`.
pub open spec fn strip_end_all(s: Seq<char>, c: char) -> Seq<char>
    decreases s.len(),
{
    if s.len() > 0 && s.last() == c {
        strip_end_all(s.drop_last(), c)
    } else {
        s
    }
}

/// `str::trim_matches` on one character.
pub open spec fn strip_all(s: Seq<char>, c: char) -> Seq<char> {
    strip_end_all(strip_start_all(s, c), c)
}

fn strip_all_exec(v: &[char], c: char) -> (r: Vec<char>)
    ensures
        r@ == strip_all(v@, c),
{
    let mut a: usize = 0;
    assert(v@.skip(0) == v@);
    while a < v.len() && v[a] == c
        invariant
            a <= v@.len(),
            strip_start_all(v@, c) == strip_start_all(v@.skip(a as int), c),
        decreases v@.len() - a,
    {
        assert(v@.skip(a as int).drop_first() == v@.skip(a + 1));
        a = a + 1;
    }
    let mut b: usize = v.len();
    assert(v@.skip(a as int) == v@.subrange(a as int, b as int));
    while b > a && v[b - 1] == c
        invariant
            a <= b <= v@.len(),
            strip_all(v@, c) == strip_end_all(v@.subrange(a as int, b as int), c),
        decreases b,
    {
        assert(v@.subrange(a as int, b as int).drop_last() == v@.subrange(a as int, b - 1));
        b = b - 1;
    }
    slice_of(v, a, b)
}

/// `str::split` on the string `p`: the pieces between its occurrences,
/// found from the left without overlap.
pub open spec fn split_at_str(s: Seq<char>, p: Seq<char>) -> Seq<Seq<char>>
    recommends
        p.len() > 0,
    decreases s.len(),
{
    let k = find(s, p);
    if k < 0 || p.len() == 0 {
        seq![s]
    } else {
        proof {
            lemma_find_from(s, p, 0);
        }
        seq![s.take(k)] + split_at_str(s.skip(k + p.len()), p)
    }
}

/// The argument that one stored item describes, if it names one.
pub open spec fn stored_arg(raw: Seq<char>) -> Option<ToolArgView> {
    let item = strip_all(strip_all(raw, '{'), '}');
    match object_value(item, "name"@) {
        None => None,
        Some(name) => Some(ToolArgView {
            name,
            arg_type: match object_value(item, "type"@) {
                Some(t) => t,
                None => "string"@,
            },
            required: object_value(item, "required"@) == Some("true"@),
            help: match object_value(item, "help"@) {
                Some(h) => if h.len() > 0 { Some(h) } else { None },
                None => None,
            },
        }),
    }
}

/// The arguments of the stored pieces `pieces`, skipping those without a name.
pub open spec fn stored_args(pieces: Seq<Seq<char>>) -> Seq<ToolArgView>
    decreases pieces.len(),
{
    if pieces.len() == 0 {
        seq![]
    } else {
        let rest = stored_args(pieces.drop_last());
        match stored_arg(pieces.last()) {
            Some(a) => rest.push(a),
            None => rest,
        }
    }
}

/// The arguments read back from stored text: nothing unless it mentions
/// `"name"`; else the trimmed text without its outer brackets, split at
/// `},{`, each piece read as one argument.
pub open spec fn parsed_args(value: Option<Seq<char>>) -> Seq<ToolArgView> {
    match value {
        None => seq![],
        Some(v) => if !contains_seq(v, "\"name\""@) {
            seq![]
        } else {
            stored_args(split_at_str(strip_end_all(strip_start_all(trim(v), '['), ']'), "},{"@))
        },
    }
}

fn split_at_str_exec(v: &[char], p: &str) -> (out: Vec<Vec<char>>)
    requires
        p@.len() > 0,
    ensures
        crate::text::views(out@) == split_at_str(v@, p@),
{
    let mut out: Vec<Vec<char>> = Vec::new();
    let mut rest = slice_of(v, 0, v.len());
    assert(rest@ == v@);
    loop
        invariant_except_break
            p@.len() > 0,
            split_at_str(v@, p@) == crate::text::views(out@) + split_at_str(rest@, p@),
        ensures
            split_at_str(v@, p@) == crate::text::views(out@),
        decreases rest@.len(),
    {
        let ghost before = out@;
        match find_str_from(rest.as_slice(), p, 0) {
            Some(k) => {
                proof {
                    lemma_find_from(rest@, p@, 0);
                }
                let n = p.unicode_len();
                let rl = rest.len();
                assert(k + n <= rl);
                let piece = slice_of(rest.as_slice(), 0, k);
                let after = slice_of(rest.as_slice(), k + n, rest.len());
                out.push(piece);
                assert(crate::text::views(out@) == crate::text::views(before).push(piece@));
                assert(crate::text::views(before) + split_at_str(rest@, p@)
                    == crate::text::views(out@) + split_at_str(after@, p@));
                rest = after;
            },
            None => {
                let ghost r = rest@;
                out.push(rest);
                assert(crate::text::views(out@) == crate::text::views(before).push(r));
                break;
            },
        }
    }
    out
}

/// The arguments stored as `value` (see `parsed_args`).
pub fn parse_stored_tool_args(value: Option<&str>) -> (r: Vec<ToolArgSpec>)
    ensures
        arg_views(r@) == parsed_args(match value {
            Some(v) => Some(v@),
            None => None,
        }),
{
    let v = match value {
        None => {
            let r: Vec<ToolArgSpec> = Vec::new();
            assert(arg_views(r@) =~= Seq::<ToolArgView>::empty());
            return r;
        },
        Some(v) => v,
    };
    let cs = chars_of(v);
    if !contains_str(cs.as_slice(), "\"name\"") {
        let r: Vec<ToolArgSpec> = Vec::new();
        assert(arg_views(r@) =~= Seq::<ToolArgView>::empty());
        return r;
    }
    let t = trimmed(cs.as_slice());
    let mut a: usize = 0;
    assert(t@.skip(0) == t@);
    while a < t.len() && t[a] == '['
        invariant
            a <= t@.len(),
            strip_start_all(t@, '[') == strip_start_all(t@.skip(a as int), '['),
        decreases t@.len() - a,
    {
        assert(t@.skip(a as int).drop_first() == t@.skip(a + 1));
        a = a + 1;
    }
    let mut b: usize = t.len();
    assert(t@.skip(a as int) == t@.subrange(a as int, b as int));
    while b > a && t[b - 1] == ']'
        invariant
            a <= b <= t@.len(),
            strip_end_all(strip_start_all(t@, '['), ']') == strip_end_all(t@.subrange(a as int, b as int), ']'),
        decreases b,
    {
        assert(t@.subrange(a as int, b as int).drop_last() == t@.subrange(a as int, b - 1));
        b = b - 1;
    }
    let inner = slice_of(t.as_slice(), a, b);
    proof {
        reveal_strlit("},{");
    }
    let pieces = split_at_str_exec(inner.as_slice(), "},{");
    let mut out: Vec<ToolArgSpec> = Vec::new();
    let mut i: usize = 0;
    assert(arg_views(out@) =~= stored_args(crate::text::views(pieces@).take(0)));
    while i < pieces.len()
        invariant
            i <= pieces@.len(),
            arg_views(out@) == stored_args(crate::text::views(pieces@).take(i as int)),
        decreases pieces@.len() - i,
    {
        let ghost t2 = crate::text::views(pieces@).take(i + 1);
        assert(t2.drop_last() == crate::text::views(pieces@).take(i as int));
        assert(t2.last() == pieces@[i as int]@);
        let item_v = strip_all_exec(strip_all_exec(pieces[i].as_slice(), '{').as_slice(), '}');
        let item = string_of(item_v.as_slice());
        match json_object_value(item.as_str(), "name") {
            None => {},
            Some(name) => {
                let arg_type = match json_object_value(item.as_str(), "type") {
                    Some(t) => t,
                    None => "string".to_owned(),
                };
                let required = match json_object_value(item.as_str(), "required") {
                    Some(r) => is_lit(r.as_str(), "true"),
                    None => false,
                };
                let help = match json_object_value(item.as_str(), "help") {
                    Some(h) => if h.as_str().unicode_len() > 0 { Some(h) } else { None },
                    None => None,
                };
                let arg = ToolArgSpec { name, arg_type, required, help };
                let ghost before = out@;
                let ghost av = arg@;
                out.push(arg);
                assert(out@.drop_last() == before);
                assert(arg_views(out@) =~= arg_views(before).push(av));
            },
        }
        i = i + 1;
    }
    assert(crate::text::views(pieces@).take(i as int) == crate::text::views(pieces@));
    out
}

// ---------------------------------------------------------------------------
// Presence scans
// ---------------------------------------------------------------------------

/// The probe a presence scan makes for a tool, or the verdict reached without one.
#[derive(Debug, Clone, PartialEq, Eq)]
pub enum ScanProbe {
    /// Look the command up (cli and binary tools).
    Command(String),
    /// Resolve the scan target as a path (mcp and skill tools).
    Target(String),
    /// Reach the scan target over TCP, or else resolve it as a path (http tools).
    HttpTarget(String),
    /// No probe: the status is `unknown` with this detail.
    Unknown(String),
}

/// The non-blank trimmed scan target, if any.
pub open spec fn usable_target(target: Option<Seq<char>>) -> Option<Seq<char>> {
    match target {
        Some(t) => if trim(t).len() > 0 { Some(trim(t)) } else { None },
        None => None,
    }
}

pub open spec fn probe_view(p: ScanProbe) -> (int, Seq<char>) {
    match p {
        ScanProbe::Command(c) => (0, c@),
        ScanProbe::Target(t) => (1, t@),
        ScanProbe::HttpTarget(t) => (2, t@),
        ScanProbe::Unknown(d) => (3, d@),
    }
}

/// What a scan of a tool of `kind` probes.
pub open spec fn scan_probe(kind: Seq<char>, command: Seq<char>, target: Option<Seq<char>>) -> (int, Seq<char>) {
    if kind == "cli"@ || kind == "binary"@ {
        (0, command)
    } else if kind == "mcp"@ || kind == "skill"@ {
        match usable_target(target) {
            Some(t) => (1, t),
            None => (3, "no scan target; agent confirms availability"@),
        }
    } else if kind == "http"@ {
        match usable_target(target) {
            Some(t) => (2, t),
            None => (3, "no scan target"@),
        }
    } else {
        (3, seq![])
    }
}

/// A command-line tool and a binary are both scanned by looking up their
/// registered command; no other kind is.
pub proof fn lemma_command_kinds_look_up_their_command(kind: Seq<char>, command: Seq<char>, target: Option<Seq<char>>)
    ensures
        (kind == "cli"@ || kind == "binary"@) ==> scan_probe(kind, command, target) == (0int, command),
        !(kind == "cli"@ || kind == "binary"@) ==> scan_probe(kind, command, target).0 != 0,
{
}

/// The probe that a presence scan of a tool makes (see `scan_probe`).
pub fn scan_plan(kind: &str, command: &str, scan_target: Option<&str>) -> (r: ScanProbe)
    ensures
        kind@ == "cli"@ || kind@ == "binary"@ ==> (r matches ScanProbe::Command(c) && c@ == command@),
        kind@ != "cli"@ && kind@ != "binary"@ ==> !(r is Command),
        (kind@ == "mcp"@ || kind@ == "skill"@) ==> match scan_target {
            Some(t) if trim(t@).len() > 0 => r matches ScanProbe::Target(x) && x@ == trim(t@),
            _ => r matches ScanProbe::Unknown(d) && d@ == "no scan target; agent confirms availability"@,
        },
        kind@ == "http"@ ==> match scan_target {
            Some(t) if trim(t@).len() > 0 => r matches ScanProbe::HttpTarget(x) && x@ == trim(t@),
            _ => r matches ScanProbe::Unknown(d) && d@ == "no scan target"@,
        },
        probe_view(r) == scan_probe(kind@, command@, match scan_target {
            Some(t) => Some(t@),
            None => None,
        }),
{
    proof {
        reveal_strlit("cli");
        reveal_strlit("binary");
        reveal_strlit("mcp");
        reveal_strlit("skill");
        reveal_strlit("http");
        assert("mcp"@ != "cli"@ && "mcp"@ != "binary"@ && "skill"@ != "cli"@ && "skill"@ != "binary"@) by {
            assert("mcp"@[0] != "cli"@[0] && "mcp"@[0] != "binary"@[0]);
            assert("skill"@.len() != "cli"@.len() && "skill"@[0] != "binary"@[0]);
        }
        assert("http"@ != "cli"@ && "http"@ != "binary"@ && "http"@ != "mcp"@ && "http"@ != "skill"@) by {
            assert("http"@.len() != "cli"@.len() && "http"@[0] != "binary"@[0]);
            assert("http"@.len() != "mcp"@.len() && "http"@[0] != "skill"@[0]);
        }
    }
    let target = match scan_target {
        Some(t) => {
            let v = trimmed(chars_of(t).as_slice());
            if v.len() > 0 { Some(string_of(v.as_slice())) } else { None }
        },
        None => None,
    };
    if is_lit(kind, "cli") || is_lit(kind, "binary") {
        ScanProbe::Command(command.to_owned())
    } else if is_lit(kind, "mcp") || is_lit(kind, "skill") {
        match target {
            Some(t) => ScanProbe::Target(t),
            None => ScanProbe::Unknown("no scan target; agent confirms availability".to_owned()),
        }
    } else if is_lit(kind, "http") {
        match target {
            Some(t) => ScanProbe::HttpTarget(t),
            None => ScanProbe::Unknown("no scan target".to_owned()),
        }
    } else {
        proof {
            reveal_strlit("");
        }
        ScanProbe::Unknown(String::new())
    }
}

/// The status and detail a scan reports, given what its probe found:
/// `present` or `missing` with the probed name, or `unknown` when nothing
/// was probed.
pub fn scan_tool_status(probe: ScanProbe, found: bool) -> (r: (String, String))
    ensures
        match probe {
            ScanProbe::Unknown(d) => r.0@ == "unknown"@ && r.1@ == d@,
            ScanProbe::Command(x) | ScanProbe::Target(x) | ScanProbe::HttpTarget(x) =>
                r.0@ == (if found { "present"@ } else { "missing"@ }) && r.1@ == x@,
        },
{
    match probe {
        ScanProbe::Unknown(d) => ("unknown".to_owned(), d),
        ScanProbe::Command(x) | ScanProbe::Target(x) | ScanProbe::HttpTarget(x) => {
            let status = if found { "present".to_owned() } else { "missing".to_owned() };
            (status, x)
        },
    }
}

/// A scan target with a leading `~/` put under `home`, when `home` is known.
pub fn expand_home(target: &str, home: Option<&str>) -> (r: String)
    ensures
        r@ == match home {
            Some(h) => if has_prefix(target@, "~/"@) { h@ + "/"@ + target@.skip(2) } else { target@ },
            None => target@,
        },
{
    proof {
        reveal_strlit("~/");
    }
    let cs = chars_of(target);
    match home {
        Some(h) => if cs.len() >= 2 && cs[0] == '~' && cs[1] == '/' {
            assert(cs@.take(2) =~= "~/"@);
            let rest = slice_of(cs.as_slice(), 2, cs.len());
            append_str(append_str(h.to_owned(), "/"), string_of(rest.as_slice()).as_str())
        } else {
            proof {
                if has_prefix(target@, "~/"@) {
                    assert(target@.take(2)[0] == '~');
                    assert(target@.take(2)[1] == '/');
                }
            }
            target.to_owned()
        },
        None => target.to_owned(),
    }
}

/// Whether registering a tool of `kind` must find its command first: only
/// cli and binary tools are looked up, and `force` skips the lookup.
pub fn register_needs_command(kind: &str, force: bool) -> (b: bool)
    ensures
        b == ((kind@ == "cli"@ || kind@ == "binary"@) && !force),
{
    (is_lit(kind, "cli") || is_lit(kind, "binary")) && !force
}

/// Whether a tool with responsibility `responsibility` and capability
/// `capability` passes the registry filters, compared by token.
pub fn tool_matches_filters(
    responsibility: &str,
    capability: Option<&str>,
    want_responsibility: Option<&str>,
    want_capability: Option<&str>,
) -> (b: bool)
    ensures
        b == ((match want_responsibility {
            Some(w) => normalized(responsibility@) == normalized(w@),
            None => true,
        }) && (match want_capability {
            Some(w) => match capability {
                Some(c) => normalized(c@) == normalized(w@),
                None => false,
            },
            None => true,
        })),
{
    let by_responsibility = match want_responsibility {
        Some(w) => {
            let a = normalize_token(responsibility);
            let b = normalize_token(w);
            is_lit(a.as_str(), b.as_str())
        },
        None => true,
    };
    let by_capability = match want_capability {
        Some(w) => match capability {
            Some(c) => {
                let a = normalize_token(c);
                let b = normalize_token(w);
                is_lit(a.as_str(), b.as_str())
            },
            None => false,
        },
        None => true,
    };
    by_responsibility && by_capability
}

} // verus!
