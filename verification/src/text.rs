use vstd::prelude::*;

verus! {

// ---------------------------------------------------------------------------
// Character classes
// ---------------------------------------------------------------------------

/// Unicode `White_Space`, the class that `char::is_whitespace` and `str::trim` use.
pub open spec fn is_space(c: char) -> bool {
    ||| ('\u{9}' <= c && c <= '\u{d}')
    ||| c == ' '
    ||| c == '\u{85}'
    ||| c == '\u{a0}'
    ||| c == '\u{1680}'
    ||| ('\u{2000}' <= c && c <= '\u{200a}')
    ||| c == '\u{2028}'
    ||| c == '\u{2029}'
    ||| c == '\u{202f}'
    ||| c == '\u{205f}'
    ||| c == '\u{3000}'
}

pub open spec fn is_digit(c: char) -> bool {
    '0' <= c && c <= '9'
}

pub open spec fn is_alnum(c: char) -> bool {
    ||| is_digit(c)
    ||| ('a' <= c && c <= 'z')
    ||| ('A' <= c && c <= 'Z')
}

pub open spec fn is_hex_digit(c: char) -> bool {
    ||| is_digit(c)
    ||| ('a' <= c && c <= 'f')
    ||| ('A' <= c && c <= 'F')
}

/// ASCII lower-casing of one character; other characters are unchanged.
pub open spec fn lower(c: char) -> char {
    if 'A' <= c && c <= 'Z' {
        ((c as u32) + 32) as char
    } else {
        c
    }
}

pub fn space_char(c: char) -> (b: bool)
    ensures
        b == is_space(c),
{
    ('\u{9}' <= c && c <= '\u{d}') || c == ' ' || c == '\u{85}' || c == '\u{a0}' || c == '\u{1680}'
        || ('\u{2000}' <= c && c <= '\u{200a}') || c == '\u{2028}' || c == '\u{2029}' || c
        == '\u{202f}' || c == '\u{205f}' || c == '\u{3000}'
}

pub fn alnum_char(c: char) -> (b: bool)
    ensures
        b == is_alnum(c),
{
    ('0' <= c && c <= '9') || ('a' <= c && c <= 'z') || ('A' <= c && c <= 'Z')
}

pub fn hex_char(c: char) -> (b: bool)
    ensures
        b == is_hex_digit(c),
{
    ('0' <= c && c <= '9') || ('a' <= c && c <= 'f') || ('A' <= c && c <= 'F')
}

pub fn lower_char(c: char) -> (r: char)
    ensures
        r == lower(c),
{
    if 'A' <= c && c <= 'Z' {
        let code: u32 = (c as u32) + 32;
        assert(0x61 <= code <= 0x7a);
        char_from_ascii(code)
    } else {
        c
    }
}

/// An ASCII code point as a `char`.
fn char_from_ascii(code: u32) -> (c: char)
    requires
        code < 128,
    ensures
        c == code as char,
{
    let b: u8 = code as u8;
    b as char
}

// ---------------------------------------------------------------------------
// Sequences of characters
// ---------------------------------------------------------------------------

pub open spec fn has_prefix(s: Seq<char>, p: Seq<char>) -> bool {
    p.len() <= s.len() && s.take(p.len() as int) == p
}

pub open spec fn has_suffix(s: Seq<char>, p: Seq<char>) -> bool {
    p.len() <= s.len() && s.skip(s.len() - p.len()) == p
}

/// `s` contains `p` as a contiguous piece starting at `i`.
pub open spec fn occurs_at(s: Seq<char>, p: Seq<char>, i: int) -> bool {
    0 <= i && i + p.len() <= s.len() && s.subrange(i, i + p.len()) == p
}

pub open spec fn contains_seq(s: Seq<char>, p: Seq<char>) -> bool {
    exists|i: int| occurs_at(s, p, i)
}

/// `s` without its leading white space.
pub open spec fn trim_start(s: Seq<char>) -> Seq<char>
    decreases s.len(),
{
    if s.len() > 0 && is_space(s[0]) {
        trim_start(s.drop_first())
    } else {
        s
    }
}

/// `s` without its trailing white space.
pub open spec fn trim_end(s: Seq<char>) -> Seq<char>
    decreases s.len(),
{
    if s.len() > 0 && is_space(s.last()) {
        trim_end(s.drop_last())
    } else {
        s
    }
}

/// `str::trim`: both ends stripped of white space.
pub open spec fn trim(s: Seq<char>) -> Seq<char> {
    trim_end(trim_start(s))
}

/// The token form of a label: ASCII letters lower-cased, ASCII letters and
/// digits kept, and each run of any other characters turned into one `_`
/// between two kept characters (none at either end).
pub open spec fn normalized(s: Seq<char>) -> Seq<char>
    decreases s.len(),
{
    if s.len() == 0 {
        Seq::empty()
    } else {
        let p = normalized(s.drop_last());
        let c = s.last();
        if !is_alnum(c) {
            p
        } else if p.len() > 0 && !is_alnum(s[s.len() - 2]) {
            p.push('_').push(lower(c))
        } else {
            p.push(lower(c))
        }
    }
}

// ---------------------------------------------------------------------------
// Executable helpers
// ---------------------------------------------------------------------------

/// Appends one character to a `String` (std `String::push`).
#[verifier::external_body]
fn push_char(s: &mut String, c: char)
    ensures
        final(s)@ == old(s)@.push(c),
{
    s.push(c);
}

/// The characters of `s`, in order.
pub fn chars_of(s: &str) -> (out: Vec<char>)
    ensures
        out@ == s@,
{
    let mut out: Vec<char> = Vec::new();
    for c in it: s.chars()
        invariant
            out@ == it.seq().take(it.index() as int),
    {
        out.push(c);
    }
    out
}

/// The string made of the characters `v`.
pub fn string_of(v: &[char]) -> (out: String)
    ensures
        out@ == v@,
{
    let mut out = String::new();
    let mut i: usize = 0;
    while i < v.len()
        invariant
            i <= v@.len(),
            out@ == v@.take(i as int),
        decreases v@.len() - i,
    {
        push_char(&mut out, v[i]);
        assert(v@.take(i + 1) == v@.take(i as int).push(v@[i as int]));
        i = i + 1;
    }
    assert(v@.take(v@.len() as int) == v@);
    out
}

/// A copy of `v[from..to]`.
pub fn slice_of(v: &[char], from: usize, to: usize) -> (out: Vec<char>)
    requires
        from <= to <= v@.len(),
    ensures
        out@ == v@.subrange(from as int, to as int),
{
    let mut out: Vec<char> = Vec::new();
    let mut i: usize = from;
    while i < to
        invariant
            from <= i <= to <= v@.len(),
            out@ == v@.subrange(from as int, i as int),
        decreases to - i,
    {
        out.push(v[i]);
        assert(v@.subrange(from as int, i + 1) == v@.subrange(from as int, i as int).push(
            v@[i as int],
        ));
        i = i + 1;
    }
    out
}

/// Whether `v` holds exactly the characters of `lit`.
pub fn eq_str(v: &[char], lit: &str) -> (b: bool)
    ensures
        b == (v@ == lit@),
{
    let n = lit.unicode_len();
    if n != v.len() {
        return false;
    }
    let mut i: usize = 0;
    while i < n
        invariant
            n == lit@.len() == v@.len(),
            i <= n,
            forall|j: int| 0 <= j < i ==> v@[j] == lit@[j],
        decreases n - i,
    {
        if v[i] != lit.get_char(i) {
            return false;
        }
        i = i + 1;
    }
    assert(v@ == lit@);
    true
}

/// Whether `v` begins with the characters of `lit`.
pub fn starts_with_str(v: &[char], lit: &str) -> (b: bool)
    ensures
        b == has_prefix(v@, lit@),
{
    let n = lit.unicode_len();
    if n > v.len() {
        return false;
    }
    let mut i: usize = 0;
    while i < n
        invariant
            n == lit@.len() <= v@.len(),
            i <= n,
            forall|j: int| 0 <= j < i ==> v@[j] == lit@[j],
        decreases n - i,
    {
        if v[i] != lit.get_char(i) {
            assert(v@.take(n as int)[i as int] != lit@[i as int]);
            return false;
        }
        i = i + 1;
    }
    assert(v@.take(n as int) == lit@);
    true
}

/// Whether `v` ends with the characters of `lit`.
pub fn ends_with_str(v: &[char], lit: &str) -> (b: bool)
    ensures
        b == has_suffix(v@, lit@),
{
    let n = lit.unicode_len();
    if n > v.len() {
        return false;
    }
    let base = v.len() - n;
    let mut i: usize = 0;
    while i < n
        invariant
            n == lit@.len() <= v@.len(),
            base == v@.len() - n,
            base + n == v.len(),
            i <= n,
            forall|j: int| 0 <= j < i ==> v@[base + j] == lit@[j],
        decreases n - i,
    {
        if v[base + i] != lit.get_char(i) {
            assert(v@.skip(base as int)[i as int] != lit@[i as int]);
            return false;
        }
        i = i + 1;
    }
    assert(v@.skip(base as int) == lit@);
    true
}

/// Whether `lit` occurs in `v` at position `at`.
pub fn occurs_at_str(v: &[char], lit: &str, at: usize) -> (b: bool)
    ensures
        b == occurs_at(v@, lit@, at as int),
{
    let n = lit.unicode_len();
    if at > v.len() || n > v.len() - at {
        return false;
    }
    let mut i: usize = 0;
    while i < n
        invariant
            n == lit@.len(),
            at + n <= v.len(),
            v.len() == v@.len(),
            i <= n,
            forall|j: int| 0 <= j < i ==> v@[at + j] == lit@[j],
        decreases n - i,
    {
        if v[at + i] != lit.get_char(i) {
            assert(v@.subrange(at as int, at + n)[i as int] != lit@[i as int]);
            return false;
        }
        i = i + 1;
    }
    assert(v@.subrange(at as int, at + n) == lit@);
    true
}

/// Whether `lit` occurs anywhere in `v`.
pub fn contains_str(v: &[char], lit: &str) -> (b: bool)
    ensures
        b == contains_seq(v@, lit@),
{
    let mut at: usize = 0;
    while at <= v.len()
        invariant_except_break
            at <= v@.len(),
            forall|j: int| 0 <= j < at ==> !occurs_at(v@, lit@, j),
        ensures
            forall|j: int| 0 <= j <= v@.len() ==> !occurs_at(v@, lit@, j),
        decreases v@.len() + 1 - at,
    {
        if occurs_at_str(v, lit, at) {
            return true;
        }
        if at == v.len() {
            break;
        }
        at = at + 1;
    }
    assert forall|j: int| !occurs_at(v@, lit@, j) by {
        if occurs_at(v@, lit@, j) {
            assert(j <= v@.len());
        }
    }
    false
}

proof fn lemma_trim_start_step(s: Seq<char>, i: int)
    requires
        0 <= i < s.len(),
        is_space(s[i]),
    ensures
        trim_start(s.skip(i)) == trim_start(s.skip(i + 1)),
{
    assert(s.skip(i).drop_first() == s.skip(i + 1));
}

proof fn lemma_trim_end_step(s: Seq<char>, a: int, j: int)
    requires
        0 <= a < j <= s.len(),
        is_space(s[j - 1]),
    ensures
        trim_end(s.subrange(a, j)) == trim_end(s.subrange(a, j - 1)),
{
    assert(s.subrange(a, j).drop_last() == s.subrange(a, j - 1));
}

/// Bounds `(a, b)` with `v[a..b]` equal to `v` trimmed of white space.
pub fn trim_bounds(v: &[char]) -> (r: (usize, usize))
    ensures
        r.0 <= r.1 <= v@.len(),
        v@.subrange(r.0 as int, r.1 as int) == trim(v@),
        v@.skip(r.0 as int) == trim_start(v@),
{
    let mut a: usize = 0;
    assert(v@.skip(0) == v@);
    while a < v.len() && space_char(v[a])
        invariant
            a <= v@.len(),
            trim_start(v@) == trim_start(v@.skip(a as int)),
        decreases v@.len() - a,
    {
        proof {
            lemma_trim_start_step(v@, a as int);
        }
        a = a + 1;
    }
    let ghost ts = v@.skip(a as int);
    assert(trim_start(v@) == ts) by {
        if a < v@.len() {
            assert(ts[0] == v@[a as int]);
        } else {
            assert(ts.len() == 0);
        }
    }
    assert(ts == v@.subrange(a as int, v@.len() as int));
    let mut b: usize = v.len();
    while b > a && space_char(v[b - 1])
        invariant
            a <= b <= v@.len(),
            trim_end(v@.subrange(a as int, v@.len() as int)) == trim_end(
                v@.subrange(a as int, b as int),
            ),
        decreases b,
    {
        proof {
            lemma_trim_end_step(v@, a as int, b as int);
        }
        b = b - 1;
    }
    let ghost te = v@.subrange(a as int, b as int);
    assert(trim_end(te) == te) by {
        if b > a {
            assert(te.last() == v@[b - 1]);
        }
    }
    (a, b)
}

/// `v` trimmed of white space at both ends.
pub fn trimmed(v: &[char]) -> (out: Vec<char>)
    ensures
        out@ == trim(v@),
{
    let (a, b) = trim_bounds(v);
    slice_of(v, a, b)
}

/// The token form of `v` (see `normalized`).
pub fn normalize_chars(v: &[char]) -> (out: Vec<char>)
    ensures
        out@ == normalized(v@),
{
    let mut out: Vec<char> = Vec::new();
    let mut i: usize = 0;
    while i < v.len()
        invariant
            i <= v@.len(),
            out@ == normalized(v@.take(i as int)),
        decreases v@.len() - i,
    {
        let c = v[i];
        let ghost pre = v@.take(i as int);
        assert(v@.take(i + 1).drop_last() == pre);
        if alnum_char(c) {
            if out.len() > 0 && !alnum_char(v[i - 1]) {
                assert(v@.take(i + 1)[i - 1] == v@[i - 1]);
                out.push('_');
            } else if i > 0 {
                assert(v@.take(i + 1)[i - 1] == v@[i - 1]);
            }
            out.push(lower_char(c));
        }
        i = i + 1;
    }
    assert(v@.take(v@.len() as int) == v@);
    out
}

/// `normalize_token`: the token form of a free-text label, used to compare
/// headings, statuses and column names independently of case and punctuation.
pub fn normalize_token(value: &str) -> (out: String)
    ensures
        out@ == normalized(value@),
{
    let v = chars_of(value);
    let n = normalize_chars(&v);
    string_of(&n)
}


// ---------------------------------------------------------------------------
// Lines
// ---------------------------------------------------------------------------

/// The position of the first `c` in `s`, or -1.
pub open spec fn first_index_of(s: Seq<char>, c: char) -> int
    decreases s.len(),
{
    if s.len() == 0 {
        -1
    } else if s[0] == c {
        0
    } else {
        let r = first_index_of(s.drop_first(), c);
        if r < 0 {
            -1
        } else {
            r + 1
        }
    }
}

pub proof fn lemma_first_index_of(s: Seq<char>, c: char)
    ensures
        -1 <= first_index_of(s, c) < s.len(),
        first_index_of(s, c) >= 0 ==> s[first_index_of(s, c)] == c,
        forall|i: int| 0 <= i < s.len() && (first_index_of(s, c) < 0 || i < first_index_of(s, c)) ==> s[i] != c,
    decreases s.len(),
{
    if s.len() > 0 && s[0] != c {
        lemma_first_index_of(s.drop_first(), c);
        assert forall|i: int| 0 <= i < s.len() && (first_index_of(s, c) < 0 || i < first_index_of(s, c)) implies s[i] != c by {
            if i > 0 {
                assert(s[i] == s.drop_first()[i - 1]);
            }
        }
    }
}

/// A line without the `\r` of a `\r\n` ending.
pub open spec fn strip_cr(line: Seq<char>) -> Seq<char> {
    if line.len() > 0 && line.last() == '\r' {
        line.drop_last()
    } else {
        line
    }
}

/// `str::lines`: the pieces of `s` between `\n` characters, each without a
/// `\r` just before its `\n`; a final empty piece is not a line.
pub open spec fn lines_of(s: Seq<char>) -> Seq<Seq<char>>
    decreases s.len(),
{
    if s.len() == 0 {
        seq![]
    } else {
        let k = first_index_of(s, '\n');
        if k < 0 {
            seq![s]
        } else {
            proof {
                lemma_first_index_of(s, '\n');
            }
            seq![strip_cr(s.take(k))] + lines_of(s.skip(k + 1))
        }
    }
}

pub open spec fn views(v: Seq<Vec<char>>) -> Seq<Seq<char>> {
    v.map_values(|l: Vec<char>| l@)
}

/// The position of the first `c` at or after `from`, or `v.len()`.
pub fn find_char_from(v: &[char], c: char, from: usize) -> (k: usize)
    requires
        from <= v@.len(),
    ensures
        from <= k <= v@.len(),
        k < v@.len() ==> v@[k as int] == c,
        forall|i: int| from <= i < k ==> v@[i] != c,
{
    let mut k = from;
    while k < v.len() && v[k] != c
        invariant
            from <= k <= v@.len(),
            forall|i: int| from <= i < k ==> v@[i] != c,
        decreases v@.len() - k,
    {
        k = k + 1;
    }
    k
}

pub proof fn lemma_first_index_of_found(s: Seq<char>, c: char, k: int)
    requires
        0 <= k <= s.len(),
        k < s.len() ==> s[k] == c,
        forall|i: int| 0 <= i < k ==> s[i] != c,
    ensures
        first_index_of(s, c) == if k < s.len() { k } else { -1 },
    decreases s.len(),
{
    lemma_first_index_of(s, c);
    if s.len() > 0 && k > 0 {
        assert forall|i: int| 0 <= i < k - 1 implies s.drop_first()[i] != c by {
            assert(s.drop_first()[i] == s[i + 1]);
        }
        if k < s.len() {
            assert(s.drop_first()[k - 1] == s[k]);
        }
        lemma_first_index_of_found(s.drop_first(), c, k - 1);
    }
}

/// The lines of `v` (see `lines_of`).
pub fn split_lines(v: &[char]) -> (out: Vec<Vec<char>>)
    ensures
        views(out@) == lines_of(v@),
{
    let mut out: Vec<Vec<char>> = Vec::new();
    let mut p: usize = 0;
    assert(v@.skip(0) == v@);
    while p < v.len()
        invariant
            p <= v@.len(),
            lines_of(v@) == views(out@) + lines_of(v@.skip(p as int)),
        decreases v@.len() - p,
    {
        let k = find_char_from(v, '\n', p);
        let ghost rest = v@.skip(p as int);
        proof {
            assert forall|i: int| 0 <= i < k - p implies rest[i] != '\n' by {
                assert(rest[i] == v@[p + i]);
            }
            if k < v@.len() {
                assert(rest[k - p] == v@[k as int]);
            }
            lemma_first_index_of_found(rest, '\n', k - p);
        }
        let mut line = slice_of(v, p, k);
        assert(line@ == rest.take(k - p));
        if k < v.len() {
            if line.len() > 0 && line[line.len() - 1] == '\r' {
                line.pop();
                assert(line@ == rest.take(k - p).drop_last());
            }
            proof {
                assert(rest.skip(k - p + 1) == v@.skip(k + 1));
                assert(views(out@.push(line)) == views(out@).push(line@));
                assert(views(out@) + lines_of(rest) == views(out@.push(line)) + lines_of(v@.skip(k + 1)));
            }
            out.push(line);
            p = k + 1;
        } else {
            proof {
                assert(rest.take(k - p) == rest);
                assert(lines_of(rest) == seq![rest]);
                assert(views(out@.push(line)) == views(out@).push(line@));
                assert(v@.skip(v@.len() as int).len() == 0);
                assert(views(out@) + lines_of(rest) == views(out@.push(line)) + lines_of(v@.skip(k as int)));
            }
            out.push(line);
            p = k;
        }
    }
    proof {
        assert(v@.skip(p as int).len() == 0);
        assert(views(out@) + lines_of(v@.skip(p as int)) == views(out@));
    }
    out
}

// ---------------------------------------------------------------------------
// Ordering and joining
// ---------------------------------------------------------------------------

/// Lexicographic order on characters (the order of Rust's `str` comparison,
/// since UTF-8 keeps the order of code points).
pub open spec fn lex_lt(a: Seq<char>, b: Seq<char>) -> bool
    decreases a.len(),
{
    if a.len() == 0 {
        b.len() > 0
    } else if b.len() == 0 {
        false
    } else if a[0] != b[0] {
        a[0] < b[0]
    } else {
        lex_lt(a.drop_first(), b.drop_first())
    }
}

/// No text comes before itself.
pub proof fn lemma_lex_irreflexive(a: Seq<char>)
    ensures
        !lex_lt(a, a),
    decreases a.len(),
{
    if a.len() > 0 {
        lemma_lex_irreflexive(a.drop_first());
    }
}

/// The lexicographic order is transitive.
pub proof fn lemma_lex_transitive(a: Seq<char>, b: Seq<char>, c: Seq<char>)
    requires
        lex_lt(a, b),
        lex_lt(b, c),
    ensures
        lex_lt(a, c),
    decreases a.len(),
{
    if a.len() > 0 && b.len() > 0 && c.len() > 0 && a[0] == b[0] && b[0] == c[0] {
        lemma_lex_transitive(a.drop_first(), b.drop_first(), c.drop_first());
    }
}

/// Of two different texts, one comes first.
pub proof fn lemma_lex_total(a: Seq<char>, b: Seq<char>)
    requires
        a != b,
    ensures
        lex_lt(a, b) || lex_lt(b, a),
    decreases a.len(),
{
    if a.len() == 0 && b.len() == 0 {
        assert(a =~= b);
    } else if a.len() > 0 && b.len() > 0 && a[0] == b[0] {
        if a.drop_first() == b.drop_first() {
            assert(a =~= seq![a[0]] + a.drop_first());
            assert(b =~= seq![b[0]] + b.drop_first());
        }
        lemma_lex_total(a.drop_first(), b.drop_first());
    }
}

/// `a < b` in lexicographic order.
pub fn lex_less(a: &[char], b: &[char]) -> (r: bool)
    ensures
        r == lex_lt(a@, b@),
{
    let mut i: usize = 0;
    assert(a@.skip(0) == a@);
    assert(b@.skip(0) == b@);
    while i < a.len() && i < b.len()
        invariant
            i <= a@.len(),
            i <= b@.len(),
            a@.take(i as int) == b@.take(i as int),
            lex_lt(a@, b@) == lex_lt(a@.skip(i as int), b@.skip(i as int)),
        decreases a@.len() - i,
    {
        if a[i] != b[i] {
            proof {
                assert(a@.skip(i as int)[0] == a@[i as int]);
                assert(b@.skip(i as int)[0] == b@[i as int]);
            }
            return a[i] < b[i];
        }
        proof {
            assert(a@.skip(i as int).drop_first() == a@.skip(i + 1));
            assert(b@.skip(i as int).drop_first() == b@.skip(i + 1));
            assert(a@.skip(i as int)[0] == a@[i as int]);
            assert(b@.skip(i as int)[0] == b@[i as int]);
            assert(a@.take(i + 1) == a@.take(i as int).push(a@[i as int]));
            assert(b@.take(i + 1) == b@.take(i as int).push(b@[i as int]));
        }
        i = i + 1;
    }
    i < b.len()
}

/// `a` followed by the characters of `b`.
pub fn append_str(a: String, b: &str) -> (r: String)
    ensures
        r@ == a@ + b@,
{
    let mut r = a;
    r.append(b);
    r
}


/// Whether `s` holds exactly the characters of `lit`.
pub fn is_lit(s: &str, lit: &str) -> (b: bool)
    ensures
        b == (s@ == lit@),
{
    let v = chars_of(s);
    eq_str(&v, lit)
}

/// The characters of an optional string.
pub open spec fn opt_view(o: Option<String>) -> Option<Seq<char>> {
    match o {
        Some(s) => Some(s@),
        None => None,
    }
}

} // verus!
