//! Reading stored tool arguments back: the text that `tool_args_json`
//! writes is read by `parse_stored_tool_args` as the same arguments, as long
//! as no text in them holds a character that the reader takes for structure.
use vstd::prelude::*;
use crate::text::{contains_seq, occurs_at, trim, trim_end, trim_start, is_space};
use crate::tools::{
    arg_json, args_items, bool_text, escaped, escaped_char, find_from, object_value, or_empty_text,
    parsed_args, split_at_str, stored_arg, stored_args, strip_all, strip_end_all, strip_start_all, ToolArgView,
};

verus! {

/// A character that JSON escaping leaves alone and that is no quote.
pub open spec fn plain_char(c: char) -> bool {
    c != '"' && c != '\\' && c != '\n'
}

/// Text that is stored as it is and read back as it was: no quote,
/// backslash or newline, and no `},{`.
pub open spec fn plain_text(s: Seq<char>) -> bool {
    &&& forall|i: int| 0 <= i < s.len() ==> plain_char(#[trigger] s[i])
    &&& !contains_seq(s, "},{"@)
}

/// An argument that survives storage: its texts are plain, and a help text,
/// when given, is not empty.
pub open spec fn storable_arg(a: ToolArgView) -> bool {
    &&& plain_text(a.name)
    &&& plain_text(a.arg_type)
    &&& plain_text(or_empty_text(a.help))
    &&& a.help != Some(Seq::<char>::empty())
}

proof fn lemma_escaped_plain(s: Seq<char>)
    requires
        forall|i: int| 0 <= i < s.len() ==> plain_char(#[trigger] s[i]),
    ensures
        escaped(s) == s,
    decreases s.len(),
{
    if s.len() > 0 {
        lemma_escaped_plain(s.drop_last());
        assert(plain_char(s[s.len() - 1]));
        assert(escaped_char(s.last()) == seq![s.last()]);
        assert(s.drop_last() + seq![s.last()] =~= s);
    }
}

/// The first occurrence at or after `i` is the one at `k` when none lies
/// between.
proof fn lemma_find_first(s: Seq<char>, p: Seq<char>, i: int, k: int)
    requires
        0 <= i <= k,
        occurs_at(s, p, k),
        forall|j: int| i <= j < k ==> !occurs_at(s, p, j),
    ensures
        find_from(s, p, i) == k,
    decreases k - i,
{
    if i < k {
        assert(!occurs_at(s, p, i));
        lemma_find_first(s, p, i + 1, k);
    }
}

/// No occurrence at or after `i` means none is found.
proof fn lemma_find_none(s: Seq<char>, p: Seq<char>, i: int)
    requires
        0 <= i,
        forall|j: int| i <= j ==> !occurs_at(s, p, j),
    ensures
        find_from(s, p, i) == -1,
    decreases s.len() + 1 - i,
{
    if i + p.len() <= s.len() {
        assert(!occurs_at(s, p, i));
        lemma_find_none(s, p, i + 1);
    }
}

/// The member name `key` between the quotes at `j` and `e`, followed by a
/// colon: an occurrence of `"key":` at a quote spans up to the next quote.
proof fn lemma_quoted_segment(s: Seq<char>, key: Seq<char>, j: int, e: int)
    requires
        0 <= j < e < s.len(),
        s[j] == '"',
        s[e] == '"',
        forall|i: int| j < i < e ==> s[i] != '"',
        forall|i: int| 0 <= i < key.len() ==> key[i] != '"',
        occurs_at(s, "\""@ + key + "\":"@, j),
    ensures
        e == j + 1 + key.len(),
        s.subrange(j + 1, e) == key,
        e + 1 < s.len() && s[e + 1] == ':',
{
    reveal_strlit("\"");
    reveal_strlit("\":");
    let t = "\""@ + key + "\":"@;
    assert(s.subrange(j, j + t.len()) == t);
    let q = j + 1 + key.len();
    assert(s[q] == t[q - j]);
    assert(t[1 + key.len() as int] == '"');
    if e < q {
        assert(s[e] == t[e - j]);
        assert(t[e - j] == key[e - j - 1]);
    }
    assert(s.subrange(j + 1, e) =~= key) by {
        assert forall|i: int| 0 <= i < key.len() implies s.subrange(j + 1, e)[i] == key[i] by {
            assert(s[j + 1 + i] == t[1 + i]);
        }
    }
    assert(s[e + 1] == t[key.len() as int + 2]);
}

/// The members of one stored argument, without the braces around them.
pub open spec fn arg_body(a: ToolArgView) -> Seq<char> {
    "\"name\":\""@ + a.name + "\",\"type\":\""@ + a.arg_type + "\",\"required\":"@ + bool_text(a.required)
        + ",\"help\":\""@ + or_empty_text(a.help) + "\""@
}

proof fn lemma_arg_json_body(a: ToolArgView)
    requires
        storable_arg(a),
    ensures
        arg_json(a) == "{"@ + arg_body(a) + "}"@,
{
    lemma_escaped_plain(a.name);
    lemma_escaped_plain(a.arg_type);
    lemma_escaped_plain(or_empty_text(a.help));
    reveal_strlit("{\"name\":\"");
    reveal_strlit("\"name\":\"");
    reveal_strlit("{");
    reveal_strlit("\"}");
    reveal_strlit("}");
    reveal_strlit("\"");
    assert(arg_json(a) =~= "{"@ + arg_body(a) + "}"@);
}

/// The characters of a stored argument's members, position by position.
proof fn lemma_body_chars(a: ToolArgView)
    requires
        storable_arg(a),
    ensures
        ({
            let s = arg_body(a);
            let n = a.name.len() as int;
            let t = a.arg_type.len() as int;
            let b = bool_text(a.required).len() as int;
            let h = or_empty_text(a.help).len() as int;
            let d = 18 + n + t;
            let c = d + 13 + b;
            &&& s.len() == c + 10 + h
            &&& s.subrange(0, 8) == "\"name\":\""@
            &&& s.subrange(8, 8 + n) == a.name
            &&& s.subrange(8 + n, 18 + n) == "\",\"type\":\""@
            &&& s.subrange(18 + n, d) == a.arg_type
            &&& s.subrange(d, d + 13) == "\",\"required\":"@
            &&& s.subrange(d + 13, c) == bool_text(a.required)
            &&& s.subrange(c, c + 9) == ",\"help\":\""@
            &&& s.subrange(c + 9, c + 9 + h) == or_empty_text(a.help)
            &&& s[c + 9 + h] == '"'
        }),
{
    reveal_strlit("\"name\":\"");
    reveal_strlit("\",\"type\":\"");
    reveal_strlit("\",\"required\":");
    reveal_strlit(",\"help\":\"");
    reveal_strlit("\"");
    reveal_strlit("true");
    reveal_strlit("false");
    let s = arg_body(a);
    let n = a.name.len() as int;
    let t = a.arg_type.len() as int;
    let b = bool_text(a.required).len() as int;
    let h = or_empty_text(a.help).len() as int;
    let d = 18 + n + t;
    let c = d + 13 + b;
    assert(s.subrange(0, 8) =~= "\"name\":\""@);
    assert(s.subrange(8, 8 + n) =~= a.name);
    assert(s.subrange(8 + n, 18 + n) =~= "\",\"type\":\""@);
    assert(s.subrange(18 + n, d) =~= a.arg_type);
    assert(s.subrange(d, d + 13) =~= "\",\"required\":"@);
    assert(s.subrange(d + 13, c) =~= bool_text(a.required));
    assert(s.subrange(c, c + 9) =~= ",\"help\":\""@);
    assert(s.subrange(c + 9, c + 9 + h) =~= or_empty_text(a.help));
}

proof fn lemma_no_quote_in(s: Seq<char>, lo: int, hi: int, piece: Seq<char>)
    requires
        0 <= lo <= hi <= s.len(),
        s.subrange(lo, hi) == piece,
        forall|k: int| 0 <= k < piece.len() ==> piece[k] != '"',
    ensures
        forall|i: int| lo <= i < hi ==> s[i] != '"',
{
    assert forall|i: int| lo <= i < hi implies s[i] != '"' by {
        assert(s[i] == piece[i - lo]);
    }
}

/// `object_value` finds a member whose value is a quoted plain text.
proof fn lemma_quoted_value(s: Seq<char>, key: Seq<char>, k: int, v: Seq<char>)
    requires
        0 <= k,
        k + key.len() + 4 + v.len() < s.len(),
        occurs_at(s, "\""@ + key + "\":"@, k),
        forall|j: int| 0 <= j < k ==> !occurs_at(s, "\""@ + key + "\":"@, j),
        s[k + key.len() + 3] == '"',
        s.subrange(k + key.len() + 4, k + key.len() + 4 + v.len()) == v,
        forall|i: int| 0 <= i < v.len() ==> v[i] != '"',
        s[k + key.len() + 4 + v.len()] == '"',
    ensures
        object_value(s, key) == Some(v),
{
    reveal_strlit("\"");
    reveal_strlit("\":");
    let target = "\""@ + key + "\":"@;
    lemma_find_first(s, target, 0, k);
    let rest = s.skip(k + target.len());
    assert(rest[0] == s[k + key.len() + 3]);
    let inner = rest.drop_first();
    assert(inner =~= s.skip(k + key.len() + 4));
    let q = "\""@;
    assert(q =~= seq!['"']);
    assert(occurs_at(inner, q, v.len() as int)) by {
        assert(inner.subrange(v.len() as int, v.len() as int + 1) =~= q);
    }
    assert forall|j: int| 0 <= j < v.len() implies !occurs_at(inner, q, j) by {
        assert(inner[j] == v[j]);
        if occurs_at(inner, q, j) {
            assert(inner.subrange(j, j + 1)[0] == q[0]);
        }
    }
    lemma_find_first(inner, q, 0, v.len() as int);
    assert(inner.take(v.len() as int) =~= v);
}

proof fn lemma_body_type(a: ToolArgView)
    requires
        storable_arg(a),
    ensures
        object_value(arg_body(a), "type"@) == Some(a.arg_type),
{
    lemma_body_chars(a);
    reveal_strlit("\"name\":\"");
    reveal_strlit("\",\"type\":\"");
    reveal_strlit("type");
    reveal_strlit("name");
    reveal_strlit("\"");
    reveal_strlit("\":");
    let s = arg_body(a);
    let n = a.name.len() as int;
    let key = "type"@;
    let tgt = "\""@ + key + "\":"@;
    let lit0 = "\"name\":\""@;
    let lit1 = "\",\"type\":\""@;
    assert(s[0] == lit0[0] && s[5] == lit0[5] && s[7] == lit0[7]);
    assert(s[8 + n] == lit1[0] && s[9 + n] == lit1[1] && s[10 + n] == lit1[2]);
    assert(s.subrange(1, 5) =~= "name"@) by {
        assert forall|i: int| 0 <= i < 4 implies s.subrange(1, 5)[i] == "name"@[i] by {
            assert(s[1 + i] == lit0[1 + i]);
        }
    }
    lemma_no_quote_in(s, 1, 5, "name"@);
    assert(s[6] == lit0[6]);
    lemma_no_quote_in(s, 8, 8 + n, a.name);
    assert forall|j: int| 0 <= j < 10 + n implies !occurs_at(s, tgt, j) by {
        if occurs_at(s, tgt, j) {
            assert(s[j] == tgt[0]);
            if j < 8 {
                assert(s[j] == lit0[j]);
                if j == 0 {
                    lemma_quoted_segment(s, key, 0, 5);
                    assert(s.subrange(1, 5)[0] == 'n');
                } else if j == 5 {
                    lemma_quoted_segment(s, key, 5, 7);
                } else {
                    assert(j == 7);
                    lemma_quoted_segment(s, key, 7, 8 + n);
                }
            } else if j < 8 + n {
                assert(s[j] != '"');
            } else if j == 8 + n {
                lemma_quoted_segment(s, key, 8 + n, 10 + n);
            } else {
                assert(s[j] == lit1[1]);
            }
        }
    }
    assert(occurs_at(s, tgt, 10 + n)) by {
        assert forall|i: int| 0 <= i < 7 implies s.subrange(10 + n, 17 + n)[i] == tgt[i] by {
            assert(s[10 + n + i] == lit1[2 + i]);
        }
        assert(s.subrange(10 + n, 17 + n) =~= tgt);
    }
    assert(s[17 + n] == lit1[9]);
    reveal_strlit("\",\"required\":");
    let d = 18 + n + a.arg_type.len();
    assert(s[d] == "\",\"required\":"@[0]);
    lemma_quoted_value(s, key, 10 + n, a.arg_type);
}

/// `object_value` finds a member whose value is bare text up to a comma.
proof fn lemma_bare_value(s: Seq<char>, key: Seq<char>, k: int, v: Seq<char>)
    requires
        0 <= k,
        k + key.len() + 3 + v.len() < s.len(),
        occurs_at(s, "\""@ + key + "\":"@, k),
        forall|j: int| 0 <= j < k ==> !occurs_at(s, "\""@ + key + "\":"@, j),
        s.subrange(k + key.len() + 3, k + key.len() + 3 + v.len()) == v,
        v.len() > 0,
        v[0] != '"',
        forall|i: int| 0 <= i < v.len() ==> v[i] != ',',
        s[k + key.len() + 3 + v.len()] == ',',
        trim(v) == v,
    ensures
        object_value(s, key) == Some(v),
{
    reveal_strlit("\"");
    reveal_strlit("\":");
    reveal_strlit(",");
    let target = "\""@ + key + "\":"@;
    lemma_find_first(s, target, 0, k);
    let rest = s.skip(k + target.len());
    assert(rest[0] == v[0]);
    let comma = ","@;
    assert(comma =~= seq![',']);
    assert(occurs_at(rest, comma, v.len() as int)) by {
        assert(rest.subrange(v.len() as int, v.len() as int + 1) =~= comma);
    }
    assert forall|j: int| 0 <= j < v.len() implies !occurs_at(rest, comma, j) by {
        assert(rest[j] == v[j]);
        if occurs_at(rest, comma, j) {
            assert(rest.subrange(j, j + 1)[0] == comma[0]);
        }
    }
    lemma_find_first(rest, comma, 0, v.len() as int);
    assert(rest.take(v.len() as int) =~= v);
}

proof fn lemma_bool_text_trimmed(b: bool)
    ensures
        trim(bool_text(b)) == bool_text(b),
        bool_text(b).len() == 4 || bool_text(b).len() == 5,
        bool_text(b)[0] != '"',
        forall|i: int| 0 <= i < bool_text(b).len() ==> bool_text(b)[i] != ',' && bool_text(b)[i] != '"',
        bool_text(b)[bool_text(b).len() - 1] == 'e',
{
    reveal_strlit("true");
    reveal_strlit("false");
    let v = bool_text(b);
    assert(!is_space(v[0]));
    assert(trim_start(v) == v);
    assert(!is_space(v.last()));
    assert(trim_end(v) == v);
}

proof fn lemma_body_name(a: ToolArgView)
    requires
        storable_arg(a),
    ensures
        object_value(arg_body(a), "name"@) == Some(a.name),
{
    lemma_body_chars(a);
    reveal_strlit("\"name\":\"");
    reveal_strlit("\",\"type\":\"");
    reveal_strlit("name");
    reveal_strlit("\"");
    reveal_strlit("\":");
    let s = arg_body(a);
    let n = a.name.len() as int;
    let tgt = "\""@ + "name"@ + "\":"@;
    let lit0 = "\"name\":\""@;
    assert(occurs_at(s, tgt, 0)) by {
        assert forall|i: int| 0 <= i < 7 implies s.subrange(0, 7)[i] == tgt[i] by {
            assert(s[i] == lit0[i]);
        }
        assert(s.subrange(0, 7) =~= tgt);
    }
    assert(s[7] == lit0[7]);
    assert(s[8 + n] == "\",\"type\":\""@[0]);
    lemma_quoted_value(s, "name"@, 0, a.name);
}

proof fn lemma_body_required(a: ToolArgView)
    requires
        storable_arg(a),
    ensures
        object_value(arg_body(a), "required"@) == Some(bool_text(a.required)),
{
    lemma_body_chars(a);
    lemma_bool_text_trimmed(a.required);
    reveal_strlit("\"name\":\"");
    reveal_strlit("\",\"type\":\"");
    reveal_strlit("\",\"required\":");
    reveal_strlit(",\"help\":\"");
    reveal_strlit("required");
    reveal_strlit("\"");
    reveal_strlit("\":");
    let s = arg_body(a);
    let n = a.name.len() as int;
    let t = a.arg_type.len() as int;
    let d = 18 + n + t;
    let key = "required"@;
    let tgt = "\""@ + key + "\":"@;
    let lit0 = "\"name\":\""@;
    let lit1 = "\",\"type\":\""@;
    let lit2 = "\",\"required\":"@;
    assert(s[0] == lit0[0] && s[5] == lit0[5] && s[7] == lit0[7]);
    assert(s[8 + n] == lit1[0] && s[9 + n] == lit1[1] && s[10 + n] == lit1[2]);
    assert(s[15 + n] == lit1[7] && s[16 + n] == lit1[8] && s[17 + n] == lit1[9]);
    assert(s[d] == lit2[0] && s[d + 1] == lit2[1] && s[d + 2] == lit2[2]);
    lemma_no_quote_in(s, 8, 8 + n, a.name);
    lemma_no_quote_in(s, 18 + n, d, a.arg_type);
    assert forall|i: int| 1 <= i < 5 implies s[i] != '"' by {
        assert(s[i] == lit0[i]);
    }
    assert forall|i: int| 11 + n <= i < 15 + n implies s[i] != '"' by {
        assert(s[i] == lit1[i - 8 - n]);
    }
    assert forall|j: int| 0 <= j < d + 2 implies !occurs_at(s, tgt, j) by {
        if occurs_at(s, tgt, j) {
            assert(s[j] == tgt[0]);
            if j < 8 {
                assert(s[j] == lit0[j]);
                if j == 0 {
                    lemma_quoted_segment(s, key, 0, 5);
                } else if j == 5 {
                    lemma_quoted_segment(s, key, 5, 7);
                } else {
                    lemma_quoted_segment(s, key, 7, 8 + n);
                }
            } else if j < 8 + n {
                assert(s[j] != '"');
            } else if j < 18 + n {
                assert(s[j] == lit1[j - 8 - n]);
                if j == 8 + n {
                    lemma_quoted_segment(s, key, 8 + n, 10 + n);
                } else if j == 10 + n {
                    lemma_quoted_segment(s, key, 10 + n, 15 + n);
                } else if j == 15 + n {
                    lemma_quoted_segment(s, key, 15 + n, 17 + n);
                } else {
                    assert(j == 17 + n);
                    lemma_quoted_segment(s, key, 17 + n, d);
                }
            } else if j < d {
                assert(s[j] != '"');
            } else if j == d {
                lemma_quoted_segment(s, key, d, d + 2);
            } else {
                assert(s[j] == lit2[1]);
            }
        }
    }
    assert(occurs_at(s, tgt, d + 2)) by {
        assert forall|i: int| 0 <= i < 11 implies s.subrange(d + 2, d + 13)[i] == tgt[i] by {
            assert(s[d + 2 + i] == lit2[2 + i]);
        }
        assert(s.subrange(d + 2, d + 13) =~= tgt);
    }
    let b = bool_text(a.required).len() as int;
    assert(s[d + 13 + b] == ",\"help\":\""@[0]);
    lemma_bare_value(s, key, d + 2, bool_text(a.required));
}

#[verifier::rlimit(40)]
proof fn lemma_body_help(a: ToolArgView)
    requires
        storable_arg(a),
    ensures
        object_value(arg_body(a), "help"@) == Some(or_empty_text(a.help)),
{
    lemma_body_chars(a);
    lemma_bool_text_trimmed(a.required);
    reveal_strlit("\"name\":\"");
    reveal_strlit("\",\"type\":\"");
    reveal_strlit("\",\"required\":");
    reveal_strlit(",\"help\":\"");
    reveal_strlit("help");
    reveal_strlit("\"");
    reveal_strlit("\":");
    let s = arg_body(a);
    let n = a.name.len() as int;
    let t = a.arg_type.len() as int;
    let b = bool_text(a.required).len() as int;
    let d = 18 + n + t;
    let c = d + 13 + b;
    let key = "help"@;
    let tgt = "\""@ + key + "\":"@;
    let lit0 = "\"name\":\""@;
    let lit1 = "\",\"type\":\""@;
    let lit2 = "\",\"required\":"@;
    let lit3 = ",\"help\":\""@;
    assert(s[0] == lit0[0] && s[5] == lit0[5] && s[7] == lit0[7] && s[1] == lit0[1]);
    assert(s[8 + n] == lit1[0] && s[9 + n] == lit1[1] && s[10 + n] == lit1[2] && s[11 + n] == lit1[3]);
    assert(s[15 + n] == lit1[7] && s[16 + n] == lit1[8] && s[17 + n] == lit1[9]);
    assert(s[d] == lit2[0] && s[d + 1] == lit2[1] && s[d + 2] == lit2[2]);
    assert(s[d + 11] == lit2[11] && s[d + 12] == lit2[12]);
    assert(s[c] == lit3[0] && s[c + 1] == lit3[1]);
    lemma_no_quote_in(s, 8, 8 + n, a.name);
    lemma_no_quote_in(s, 18 + n, d, a.arg_type);
    lemma_no_quote_in(s, d + 13, c, bool_text(a.required));
    assert forall|i: int| 1 <= i < 5 implies s[i] != '"' by {
        assert(s[i] == lit0[i]);
    }
    assert forall|i: int| 11 + n <= i < 15 + n implies s[i] != '"' by {
        assert(s[i] == lit1[i - 8 - n]);
    }
    assert forall|i: int| d + 3 <= i < d + 11 implies s[i] != '"' by {
        assert(s[i] == lit2[i - d]);
    }
    reveal_strlit("name");
    reveal_strlit("type");
    assert(s.subrange(1, 5) =~= "name"@) by {
        assert forall|i: int| 0 <= i < 4 implies s.subrange(1, 5)[i] == "name"@[i] by {
            reveal_strlit("name");
            assert(s[1 + i] == lit0[1 + i]);
        }
    }
    assert(s.subrange(11 + n, 15 + n) =~= "type"@) by {
        assert forall|i: int| 0 <= i < 4 implies s.subrange(11 + n, 15 + n)[i] == "type"@[i] by {
            reveal_strlit("type");
            assert(s[11 + n + i] == lit1[3 + i]);
        }
    }
    assert forall|j: int| 0 <= j < c + 1 implies !occurs_at(s, tgt, j) by {
        if occurs_at(s, tgt, j) {
            assert(s[j] == tgt[0]);
            if j < 8 {
                assert(s[j] == lit0[j]);
                if j == 0 {
                    lemma_quoted_segment(s, key, 0, 5);
                    assert(s.subrange(1, 5)[0] == key[0]);
                } else if j == 5 {
                    lemma_quoted_segment(s, key, 5, 7);
                } else {
                    lemma_quoted_segment(s, key, 7, 8 + n);
                }
            } else if j < 8 + n {
                assert(s[j] != '"');
            } else if j < 18 + n {
                assert(s[j] == lit1[j - 8 - n]);
                if j == 8 + n {
                    lemma_quoted_segment(s, key, 8 + n, 10 + n);
                } else if j == 10 + n {
                    lemma_quoted_segment(s, key, 10 + n, 15 + n);
                    assert(s.subrange(11 + n, 15 + n)[0] == key[0]);
                } else if j == 15 + n {
                    lemma_quoted_segment(s, key, 15 + n, 17 + n);
                } else {
                    assert(j == 17 + n);
                    lemma_quoted_segment(s, key, 17 + n, d);
                }
            } else if j < d {
                assert(s[j] != '"');
            } else if j < d + 13 {
                assert(s[j] == lit2[j - d]);
                if j == d {
                    lemma_quoted_segment(s, key, d, d + 2);
                } else if j == d + 2 {
                    lemma_quoted_segment(s, key, d + 2, d + 11);
                } else {
                    assert(j == d + 11);
                    lemma_quoted_segment(s, key, d + 11, c + 1);
                }
            } else if j < c {
                assert(s[j] != '"');
            } else {
                assert(j == c);
            }
        }
    }
    assert(occurs_at(s, tgt, c + 1)) by {
        assert forall|i: int| 0 <= i < 7 implies s.subrange(c + 1, c + 8)[i] == tgt[i] by {
            assert(s[c + 1 + i] == lit3[1 + i]);
        }
        assert(s.subrange(c + 1, c + 8) =~= tgt);
    }
    assert(s[c + 8] == lit3[8]);
    let h = or_empty_text(a.help);
    assert(forall|i: int| 0 <= i < h.len() ==> plain_char(#[trigger] h[i]));
    lemma_quoted_value(s, key, c + 1, h);
}

// ---------------------------------------------------------------------------
// The pieces between the arguments
// ---------------------------------------------------------------------------

/// The separator that the reader splits the stored arguments at.
pub open spec fn separator() -> Seq<char> {
    "},{"@
}

proof fn lemma_separator()
    ensures
        separator() == seq!['}', ',', '{'],
{
    reveal_strlit("},{");
    assert(separator() =~= seq!['}', ',', '{']);
}

/// Text without a closing brace holds no separator.
proof fn lemma_no_brace_no_separator(s: Seq<char>)
    requires
        forall|i: int| 0 <= i < s.len() ==> s[i] != '}',
    ensures
        !contains_seq(s, separator()),
{
    lemma_separator();
    if contains_seq(s, separator()) {
        let i = choose|i: int| occurs_at(s, separator(), i);
        assert(s.subrange(i, i + 3)[0] == separator()[0]);
    }
}

/// Joining two texts makes no separator across the seam when the first
/// ends with neither `}` nor `,`.
proof fn lemma_join_no_separator(a: Seq<char>, b: Seq<char>)
    requires
        !contains_seq(a, separator()),
        !contains_seq(b, separator()),
        a.len() > 0,
        a.last() != '}',
        a.last() != ',',
    ensures
        !contains_seq(a + b, separator()),
{
    lemma_separator();
    let s = a + b;
    if contains_seq(s, separator()) {
        let i = choose|i: int| occurs_at(s, separator(), i);
        assert(s.subrange(i, i + 3) == separator());
        assert(s[i] == '}' && s[i + 1] == ',' && s[i + 2] == '{');
        if i + 3 <= a.len() {
            assert(occurs_at(a, separator(), i)) by {
                assert(a.subrange(i, i + 3) =~= s.subrange(i, i + 3));
            }
        } else if i >= a.len() {
            assert(occurs_at(b, separator(), i - a.len())) by {
                assert(b.subrange(i - a.len(), i - a.len() + 3) =~= s.subrange(i, i + 3));
            }
        } else if i == a.len() - 1 {
            assert(s[i] == a.last());
        } else {
            assert(i == a.len() - 2);
            assert(s[i + 1] == a.last());
        }
    }
}

/// Joining two texts makes no separator across the seam when the second
/// starts with neither `,` nor `{`.
proof fn lemma_join_no_separator_before(a: Seq<char>, b: Seq<char>)
    requires
        !contains_seq(a, separator()),
        !contains_seq(b, separator()),
        b.len() > 0,
        b[0] != ',',
        b[0] != '{',
    ensures
        !contains_seq(a + b, separator()),
{
    lemma_separator();
    let s = a + b;
    if contains_seq(s, separator()) {
        let i = choose|i: int| occurs_at(s, separator(), i);
        assert(s.subrange(i, i + 3) == separator());
        assert(s[i] == '}' && s[i + 1] == ',' && s[i + 2] == '{');
        if i + 3 <= a.len() {
            assert(occurs_at(a, separator(), i)) by {
                assert(a.subrange(i, i + 3) =~= s.subrange(i, i + 3));
            }
        } else if i >= a.len() {
            assert(occurs_at(b, separator(), i - a.len())) by {
                assert(b.subrange(i - a.len(), i - a.len() + 3) =~= s.subrange(i, i + 3));
            }
        } else if i == a.len() - 1 {
            assert(s[i + 1] == b[0]);
        } else {
            assert(i == a.len() - 2);
            assert(s[i + 2] == b[0]);
        }
    }
}

/// A lone closing brace is too short to hold a separator.
proof fn lemma_closing_brace_no_separator()
    ensures
        !contains_seq("}"@, separator()),
{
    reveal_strlit("}");
    lemma_separator();
    if contains_seq("}"@, separator()) {
        let i = choose|i: int| occurs_at("}"@, separator(), i);
        assert(i + 3 <= 1);
    }
}

/// A stored argument's members hold no separator, and start and end with a
/// quote.
proof fn lemma_body_no_separator(a: ToolArgView)
    requires
        storable_arg(a),
    ensures
        !contains_seq(arg_body(a), separator()),
        arg_body(a).len() > 0,
        arg_body(a)[0] == '"',
        arg_body(a).last() == '"',
{
    let l0 = "\"name\":\""@;
    let l1 = "\",\"type\":\""@;
    let l2 = "\",\"required\":"@;
    let l3 = ",\"help\":\""@;
    let l4 = "\""@;
    reveal_strlit("\"name\":\"");
    reveal_strlit("\",\"type\":\"");
    reveal_strlit("\",\"required\":");
    reveal_strlit(",\"help\":\"");
    reveal_strlit("\"");
    lemma_bool_text_trimmed(a.required);
    let bt = bool_text(a.required);
    assert forall|i: int| 0 <= i < bt.len() implies bt[i] != '}' by {
        reveal_strlit("true");
        reveal_strlit("false");
    }
    lemma_no_brace_no_separator(l0);
    lemma_no_brace_no_separator(l1);
    lemma_no_brace_no_separator(l2);
    lemma_no_brace_no_separator(l3);
    lemma_no_brace_no_separator(l4);
    lemma_no_brace_no_separator(bt);
    let h = or_empty_text(a.help);
    let s1 = l0 + a.name;
    lemma_join_no_separator(l0, a.name);
    let s2 = s1 + l1;
    lemma_join_no_separator_before(s1, l1);
    let s3 = s2 + a.arg_type;
    lemma_join_no_separator(s2, a.arg_type);
    let s4 = s3 + l2;
    lemma_join_no_separator_before(s3, l2);
    let s5 = s4 + bt;
    lemma_join_no_separator(s4, bt);
    let s6 = s5 + l3;
    lemma_join_no_separator(s5, l3);
    let s7 = s6 + h;
    lemma_join_no_separator(s6, h);
    lemma_join_no_separator_before(s7, l4);
    assert(arg_body(a) == s7 + l4);
}

/// Text without a separator is one piece.
proof fn lemma_split_whole(z: Seq<char>)
    requires
        !contains_seq(z, separator()),
    ensures
        split_at_str(z, separator()) == seq![z],
{
    lemma_separator();
    assert forall|j: int| 0 <= j implies !occurs_at(z, separator(), j) by {
        if occurs_at(z, separator(), j) {
            assert(contains_seq(z, separator()));
        }
    }
    lemma_find_none(z, separator(), 0);
}

/// The first piece ends at the first separator.
proof fn lemma_split_first(x: Seq<char>, y: Seq<char>)
    requires
        !contains_seq(x, separator()),
        x.len() > 0,
        x.last() == '"',
    ensures
        split_at_str(x + separator() + y, separator()) == seq![x] + split_at_str(y, separator()),
{
    lemma_separator();
    let p = separator();
    let s = x + p + y;
    assert(occurs_at(s, p, x.len() as int)) by {
        assert(s.subrange(x.len() as int, x.len() as int + 3) =~= p);
    }
    assert forall|j: int| 0 <= j < x.len() implies !occurs_at(s, p, j) by {
        if occurs_at(s, p, j) {
            assert(s.subrange(j, j + 3) == p);
            if j + 3 <= x.len() {
                assert(occurs_at(x, p, j)) by {
                    assert(x.subrange(j, j + 3) =~= s.subrange(j, j + 3));
                }
            } else if j == x.len() - 1 {
                assert(s[j] == x.last());
                assert(s.subrange(j, j + 3)[0] == p[0]);
            } else {
                assert(s[j + 1] == x.last());
                assert(s.subrange(j, j + 3)[1] == p[1]);
            }
        }
    }
    lemma_find_first(s, p, 0, x.len() as int);
    assert(s.take(x.len() as int) =~= x);
    assert(s.skip(x.len() as int + 3) =~= y);
}

/// The stored arguments after the first one's opening brace: each body
/// followed by `},{`, the last by `}`.
pub open spec fn tail_items(bs: Seq<Seq<char>>) -> Seq<char>
    decreases bs.len(),
{
    if bs.len() == 0 {
        seq![]
    } else if bs.len() == 1 {
        bs[0] + "}"@
    } else {
        bs[0] + separator() + tail_items(bs.drop_first())
    }
}

/// The pieces that the reader splits `tail_items(bs)` into.
pub open spec fn tail_pieces(bs: Seq<Seq<char>>) -> Seq<Seq<char>>
    decreases bs.len(),
{
    if bs.len() == 0 {
        seq![]
    } else if bs.len() == 1 {
        seq![bs[0] + "}"@]
    } else {
        seq![bs[0]] + tail_pieces(bs.drop_first())
    }
}

pub open spec fn bodies(args: Seq<ToolArgView>) -> Seq<Seq<char>> {
    args.map_values(|a: ToolArgView| arg_body(a))
}

proof fn lemma_tail_items_push(bs: Seq<Seq<char>>, x: Seq<char>)
    requires
        bs.len() >= 1,
    ensures
        tail_items(bs.push(x)) == tail_items(bs).drop_last() + separator() + x + "}"@,
        tail_items(bs).len() > 0,
        tail_items(bs).last() == '}',
    decreases bs.len(),
{
    reveal_strlit("}");
    lemma_separator();
    if bs.len() == 1 {
        assert(bs.push(x).drop_first() =~= seq![x]);
        assert(tail_items(bs) == bs[0] + "}"@);
        assert((bs[0] + "}"@).drop_last() =~= bs[0]);
        assert(bs.push(x)[0] == bs[0]);
        assert(tail_items(seq![x]) == x + "}"@);
        assert(tail_items(bs.push(x)) == bs[0] + separator() + tail_items(seq![x]));
        assert(tail_items(bs.push(x)) =~= tail_items(bs).drop_last() + separator() + x + "}"@);
    } else {
        assert(bs.push(x).drop_first() =~= bs.drop_first().push(x));
        lemma_tail_items_push(bs.drop_first(), x);
        let r = tail_items(bs.drop_first());
        assert((bs[0] + separator() + r).drop_last() =~= bs[0] + separator() + r.drop_last());
        assert(tail_items(bs.push(x)) =~= tail_items(bs).drop_last() + separator() + x + "}"@);
    }
}

/// The stored text of non-empty arguments is `{`, then their tail items.
proof fn lemma_args_items_tail(args: Seq<ToolArgView>)
    requires
        args.len() >= 1,
        forall|k: int| 0 <= k < args.len() ==> storable_arg(#[trigger] args[k]),
    ensures
        args_items(args) == "{"@ + tail_items(bodies(args)),
    decreases args.len(),
{
    reveal_strlit("{");
    reveal_strlit("}");
    reveal_strlit(",");
    lemma_separator();
    lemma_arg_json_body(args.last());
    if args.len() == 1 {
        assert(bodies(args) =~= seq![arg_body(args[0])]);
        assert(args_items(args) =~= "{"@ + tail_items(bodies(args)));
    } else {
        let init = args.drop_last();
        lemma_args_items_tail(init);
        assert(bodies(args) =~= bodies(init).push(arg_body(args.last())));
        lemma_tail_items_push(bodies(init), arg_body(args.last()));
        let t = tail_items(bodies(init));
        assert(t =~= t.drop_last().push('}'));
        assert(args_items(args) =~= "{"@ + tail_items(bodies(args)));
    }
}

/// `tail_items` splits into `tail_pieces`.
proof fn lemma_split_tail(bs: Seq<Seq<char>>)
    requires
        bs.len() >= 1,
        forall|k: int| 0 <= k < bs.len() ==> {
            &&& !contains_seq(#[trigger] bs[k], separator())
            &&& bs[k].len() > 0
            &&& bs[k].last() == '"'
        },
    ensures
        split_at_str(tail_items(bs), separator()) == tail_pieces(bs),
    decreases bs.len(),
{
    reveal_strlit("}");
    if bs.len() == 1 {
        let z = bs[0] + "}"@;
        lemma_closing_brace_no_separator();
        lemma_join_no_separator(bs[0], "}"@);
        lemma_split_whole(z);
    } else {
        lemma_split_tail(bs.drop_first());
        lemma_split_first(bs[0], tail_items(bs.drop_first()));
    }
}

/// A piece that holds one argument's members, with the opening brace of the
/// first piece or the closing brace of the last, reads as that argument.
proof fn lemma_piece_reads(a: ToolArgView, lead: bool, trail: bool)
    requires
        storable_arg(a),
    ensures
        stored_arg((if lead { "{"@ } else { Seq::<char>::empty() }) + arg_body(a)
            + (if trail { "}"@ } else { Seq::<char>::empty() })) == Some(a),
{
    reveal_strlit("{");
    reveal_strlit("}");
    reveal_strlit("true");
    let body = arg_body(a);
    lemma_body_no_separator(a);
    let pre = if lead { "{"@ } else { Seq::<char>::empty() };
    let post = if trail { "}"@ } else { Seq::<char>::empty() };
    let piece = pre + body + post;
    let after_open = body + post;
    if lead {
        assert(piece.drop_first() =~= after_open);
        assert(strip_start_all(after_open, '{') == after_open);
    } else {
        assert(piece =~= after_open);
    }
    assert(strip_start_all(piece, '{') == after_open);
    assert(after_open.last() != '{');
    assert(strip_all(piece, '{') == after_open);
    assert(strip_start_all(after_open, '}') == after_open);
    if trail {
        assert(after_open.drop_last() =~= body);
        assert(strip_end_all(body, '}') == body);
    } else {
        assert(after_open =~= body);
    }
    assert(strip_all(after_open, '}') == body);
    lemma_body_name(a);
    lemma_body_type(a);
    lemma_body_required(a);
    lemma_body_help(a);
    let h = or_empty_text(a.help);
    if a.required {
        assert(bool_text(a.required) == "true"@);
    } else {
        reveal_strlit("false");
        assert(bool_text(a.required) != "true"@) by {
            assert(bool_text(a.required).len() != "true"@.len());
        }
    }
    match a.help {
        Some(x) => {
            if x.len() == 0 {
                assert(x =~= Seq::<char>::empty());
            }
            assert(h.len() > 0);
        },
        None => {
            assert(h.len() == 0);
        },
    }
}

proof fn lemma_stored_args_one(p: Seq<char>, a: ToolArgView)
    requires
        stored_arg(p) == Some(a),
    ensures
        stored_args(seq![p]) == seq![a],
{
    assert(seq![p].drop_last() =~= Seq::<Seq<char>>::empty());
    assert(seq![p].last() == p);
    assert(stored_args(Seq::<Seq<char>>::empty()) == Seq::<ToolArgView>::empty());
    assert(stored_args(seq![p]) =~= seq![a]);
}

proof fn lemma_stored_args_append(x: Seq<Seq<char>>, y: Seq<Seq<char>>)
    ensures
        stored_args(x + y) == stored_args(x) + stored_args(y),
    decreases y.len(),
{
    if y.len() == 0 {
        assert(x + y =~= x);
        assert(stored_args(x) + stored_args(y) =~= stored_args(x));
    } else {
        lemma_stored_args_append(x, y.drop_last());
        assert((x + y).drop_last() =~= x + y.drop_last());
        assert((x + y).last() == y.last());
        match stored_arg(y.last()) {
            Some(a) => {
                assert(stored_args(x + y) =~= stored_args(x) + stored_args(y));
            },
            None => {},
        }
    }
}

proof fn lemma_tail_pieces_read(args: Seq<ToolArgView>)
    requires
        args.len() >= 1,
        forall|k: int| 0 <= k < args.len() ==> storable_arg(#[trigger] args[k]),
    ensures
        stored_args(tail_pieces(bodies(args))) == args,
    decreases args.len(),
{
    let bs = bodies(args);
    lemma_piece_reads(args[0], false, args.len() == 1);
    if args.len() == 1 {
        assert(Seq::<char>::empty() + arg_body(args[0]) + "}"@ =~= bs[0] + "}"@);
        lemma_stored_args_one(bs[0] + "}"@, args[0]);
        assert(args =~= seq![args[0]]);
    } else {
        let rest = args.drop_first();
        assert(bs.drop_first() =~= bodies(rest));
        lemma_tail_pieces_read(rest);
        assert(Seq::<char>::empty() + arg_body(args[0]) + Seq::<char>::empty() =~= bs[0]);
        lemma_stored_args_append(seq![bs[0]], tail_pieces(bodies(rest)));
        lemma_stored_args_one(bs[0], args[0]);
        assert(seq![args[0]] + rest =~= args);
    }
}

/// The stored text of non-empty arguments, without its brackets, reads back
/// as those arguments.
#[verifier::rlimit(60)]
proof fn lemma_items_read(args: Seq<ToolArgView>)
    requires
        args.len() >= 1,
        forall|k: int| 0 <= k < args.len() ==> storable_arg(#[trigger] args[k]),
    ensures
        stored_args(split_at_str(args_items(args), separator())) == args,
{
    reveal_strlit("{");
    reveal_strlit("}");
    let bs = bodies(args);
    lemma_args_items_tail(args);
    assert forall|k: int| 0 <= k < bs.len() implies {
        &&& !contains_seq(#[trigger] bs[k], separator())
        &&& bs[k].len() > 0
        &&& bs[k].last() == '"'
    } by {
        lemma_body_no_separator(args[k]);
    }
    lemma_body_no_separator(args[0]);
    lemma_piece_reads(args[0], true, args.len() == 1);
    let first = "{"@ + bs[0];
    assert(!contains_seq(first, separator())) by {
        assert(!contains_seq("{"@, separator())) by {
            lemma_no_brace_no_separator("{"@);
        }
        lemma_join_no_separator("{"@, bs[0]);
    }
    if args.len() == 1 {
        let whole = first + "}"@;
        lemma_closing_brace_no_separator();
        lemma_join_no_separator(first, "}"@);
        assert(args_items(args) =~= whole);
        lemma_split_whole(whole);
        assert(whole =~= "{"@ + arg_body(args[0]) + "}"@);
        lemma_stored_args_one(whole, args[0]);
        assert(args =~= seq![args[0]]);
    } else {
        let rest = args.drop_first();
        assert(bs.drop_first() =~= bodies(rest));
        assert(args_items(args) =~= first + separator() + tail_items(bodies(rest)));
        lemma_split_first(first, tail_items(bodies(rest)));
        assert forall|k: int| 0 <= k < rest.len() implies storable_arg(#[trigger] rest[k]) by {
            assert(rest[k] == args[k + 1]);
        }
        assert forall|k: int| 0 <= k < bodies(rest).len() implies {
            &&& !contains_seq(#[trigger] bodies(rest)[k], separator())
            &&& bodies(rest)[k].len() > 0
            &&& bodies(rest)[k].last() == '"'
        } by {
            assert(bodies(rest)[k] == bs[k + 1]);
        }
        lemma_split_tail(bodies(rest));
        lemma_tail_pieces_read(rest);
        assert(first =~= "{"@ + arg_body(args[0]) + Seq::<char>::empty());
        lemma_stored_args_append(seq![first], tail_pieces(bodies(rest)));
        lemma_stored_args_one(first, args[0]);
        assert(seq![args[0]] + rest =~= args);
    }
}

/// Storing tool arguments and reading them back gives the same arguments:
/// the text that `tool_args_json` writes for `args` (nothing for none, else
/// a JSON array) is read by `parse_stored_tool_args` as `args`, element by
/// element, whenever no name, type or help text holds a quote, a backslash,
/// a newline or `},{`, and no help text is given empty.
pub proof fn lemma_stored_args_round_trip(args: Seq<ToolArgView>)
    requires
        forall|k: int| 0 <= k < args.len() ==> storable_arg(#[trigger] args[k]),
    ensures
        parsed_args(if args.len() == 0 {
            None
        } else {
            Some("["@ + args_items(args) + "]"@)
        }) == args,
{
    if args.len() > 0 {
        reveal_strlit("[");
        reveal_strlit("]");
        reveal_strlit("{");
        reveal_strlit("\"name\"");
        reveal_strlit("\"name\":\"");
        let items = args_items(args);
        let v = "["@ + items + "]"@;
        lemma_args_items_tail(args);
        lemma_tail_items_push(bodies(args), Seq::<char>::empty());
        lemma_body_chars(args[0]);
        let body = arg_body(args[0]);
        assert(bodies(args)[0] == body);
        assert(items[0] == '{');
        assert(items.last() == '}');
        assert(occurs_at(v, "\"name\""@, 2)) by {
            assert forall|i: int| 0 <= i < 6 implies v.subrange(2, 8)[i] == "\"name\""@[i] by {
                assert(v[2 + i] == body[i]);
                assert(body[i] == body.subrange(0, 8)[i]);
            }
            assert(v.subrange(2, 8) =~= "\"name\""@);
        }
        assert(contains_seq(v, "\"name\""@));
        assert(!is_space(v[0]));
        assert(trim_start(v) == v);
        assert(!is_space(v.last()));
        assert(trim_end(v) == v);
        assert(trim(v) == v);
        assert(v.drop_first() =~= items + "]"@);
        assert(strip_start_all(items + "]"@, '[') == items + "]"@);
        assert(strip_start_all(v, '[') == items + "]"@);
        assert((items + "]"@).drop_last() =~= items);
        assert(strip_end_all(items, ']') == items);
        assert(strip_end_all(items + "]"@, ']') == items);
        lemma_items_read(args);
    }
}

} // verus!
