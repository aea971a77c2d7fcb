//! Character-level text operations.
//!
//! Every string in this crate is reasoned about through its view, a
//! `Seq<char>`. The spec functions here say what an operation yields on such
//! a sequence; the executable functions compute it on `Vec<char>` and are
//! proved against those statements.

use vstd::prelude::*;

verus! {

// ---------------------------------------------------------------------------
// Character classes
// ---------------------------------------------------------------------------

/// Whether a code point above the ASCII range is alphanumeric in the sense of
/// `char::is_alphanumeric`. Left uninterpreted: it is a table of the Unicode
/// standard.
pub uninterp spec fn unicode_alphanumeric(c: char) -> bool;

/// Whether a code point above the ASCII range has the `White_Space` property
/// in the sense of `char::is_whitespace`. Left uninterpreted for the same
/// reason.
pub uninterp spec fn unicode_whitespace(c: char) -> bool;

/// Whether a code point above the ASCII range is an uppercase letter in the
/// sense of `char::is_uppercase`. Left uninterpreted for the same reason.
pub uninterp spec fn unicode_uppercase(c: char) -> bool;

/// The lowercase mapping of a code point above the ASCII range, as
/// `char::to_lowercase` yields it: one character or several. Left
/// uninterpreted for the same reason.
pub uninterp spec fn unicode_lowercase(c: char) -> Seq<char>;

/// Whether `c` is one of `A` to `Z`.
pub open spec fn is_ascii_upper(c: char) -> bool {
    'A' <= c && c <= 'Z'
}

/// Whether `c` is an ASCII letter or digit.
pub open spec fn is_ascii_alphanumeric(c: char) -> bool {
    ('a' <= c && c <= 'z') || ('A' <= c && c <= 'Z') || ('0' <= c && c <= '9')
}

/// Whether `c` is alphanumeric: a letter or a digit of any script.
pub open spec fn alphanumeric_char(c: char) -> bool {
    if (c as u32) < 128 {
        is_ascii_alphanumeric(c)
    } else {
        unicode_alphanumeric(c)
    }
}

/// Whether `c` is whitespace of any script.
pub open spec fn whitespace_char(c: char) -> bool {
    if (c as u32) < 128 {
        c == ' ' || ('\x09' <= c && c <= '\x0d')
    } else {
        unicode_whitespace(c)
    }
}

/// Whether `c` is an uppercase letter of any script.
pub open spec fn uppercase_char(c: char) -> bool {
    if (c as u32) < 128 {
        is_ascii_upper(c)
    } else {
        unicode_uppercase(c)
    }
}

/// `char::is_alphanumeric` of std. Within ASCII the answer is "a letter or a
/// digit"; above it, whatever the Unicode tables of std say, which this crate
/// only names.
pub assume_specification[ char::is_alphanumeric ](c: char) -> (b: bool)
    ensures
        b == alphanumeric_char(c),
        (c as u32) >= 128 ==> b == unicode_alphanumeric(c),
;

/// `char::is_whitespace` of std. Within ASCII the answer is "space, or one of
/// U+0009 to U+000D"; above it, whatever the Unicode tables of std say, which
/// this crate only names.
pub assume_specification[ char::is_whitespace ](c: char) -> (b: bool)
    ensures
        b == whitespace_char(c),
        (c as u32) >= 128 ==> b == unicode_whitespace(c),
;

/// `char::is_uppercase` of std. Within ASCII the answer is "one of `A` to
/// `Z`"; above it, whatever the Unicode tables of std say, which this crate
/// only names.
pub assume_specification[ char::is_uppercase ](c: char) -> (b: bool)
    ensures
        b == uppercase_char(c),
        (c as u32) >= 128 ==> b == unicode_uppercase(c),
;

/// `String::push` of std: the character is appended at the end.
pub assume_specification[ String::push ](s: &mut String, c: char)
    ensures
        final(s)@ == old(s)@.push(c),
;

/// An ASCII capital becomes its small letter; every other character stays.
pub open spec fn ascii_lower(c: char) -> char {
    if is_ascii_upper(c) {
        ((c as u8) + 32) as char
    } else {
        c
    }
}

/// The lowercase mapping of `c`: for an ASCII character the character
/// itself, a capital made small; for any other what std's tables give.
pub open spec fn lowercase_of(c: char) -> Seq<char> {
    if (c as u32) < 128 {
        seq![ascii_lower(c)]
    } else {
        unicode_lowercase(c)
    }
}

/// Collects what `char::to_lowercase` of std yields for `c`. Within ASCII
/// that is the character itself, a capital made small; above it, the mapping
/// of std's Unicode tables, which this crate only names. It depends on `c`
/// alone.
#[verifier::external_body]
pub(crate) fn lowercase(c: char) -> (r: Vec<char>)
    ensures
        r@ == lowercase_of(c),
        (c as u32) >= 128 ==> r@ == unicode_lowercase(c),
{
    c.to_lowercase().collect()
}

// ---------------------------------------------------------------------------
// Optional texts
// ---------------------------------------------------------------------------

/// The text of an optional string.
pub open spec fn opt_view(o: Option<String>) -> Option<Seq<char>> {
    match o {
        Some(s) => Some(s@),
        None => None,
    }
}

/// The text of an optional reference to a string.
pub open spec fn opt_ref_view(o: Option<&String>) -> Option<Seq<char>> {
    match o {
        Some(s) => Some(s@),
        None => None,
    }
}

/// The text of an optional string slice.
pub open spec fn str_opt_view(o: Option<&str>) -> Option<Seq<char>> {
    match o {
        Some(s) => Some(s@),
        None => None,
    }
}

/// The text of every string of `v`, in order.
pub open spec fn views(v: Seq<String>) -> Seq<Seq<char>> {
    Seq::new(v.len(), |i: int| v[i]@)
}

// ---------------------------------------------------------------------------
// Between strings and character vectors
// ---------------------------------------------------------------------------

/// The characters of `s`, in order.
pub fn to_chars(s: &str) -> (out: Vec<char>)
    ensures
        out@ == s@,
{
    let mut out: Vec<char> = Vec::new();
    for c in it: s.chars()
        invariant
            out@ == it.seq().take(it.index() as int),
            it.seq() == s@,
    {
        out.push(c);
    }
    out
}

/// The string made of the characters `v[from..to]`.
pub fn from_chars_range(v: &Vec<char>, from: usize, to: usize) -> (out: String)
    requires
        from <= to <= v.len(),
    ensures
        out@ == v@.subrange(from as int, to as int),
{
    let mut out = String::new();
    let mut i: usize = from;
    while i < to
        invariant
            from <= i <= to <= v.len(),
            out@ == v@.subrange(from as int, i as int),
        decreases to - i,
    {
        out.push(v[i]);
        i += 1;
    }
    out
}

/// The string made of the characters of `v`, in order.
pub fn from_chars(v: &Vec<char>) -> (out: String)
    ensures
        out@ == v@,
{
    let out = from_chars_range(v, 0, v.len());
    assert(v@.subrange(0, v.len() as int) == v@);
    out
}

/// An owned copy of `s`.
pub fn copy_str(s: &str) -> (out: String)
    ensures
        out@ == s@,
{
    let v = to_chars(s);
    from_chars(&v)
}

/// `a` followed by `b`.
pub fn concat2(a: &str, b: &str) -> (out: String)
    ensures
        out@ == a@ + b@,
{
    let mut v = to_chars(a);
    let mut w = to_chars(b);
    v.append(&mut w);
    from_chars(&v)
}

/// `a`, `b` and `c` in a row.
pub fn concat3(a: &str, b: &str, c: &str) -> (out: String)
    ensures
        out@ == a@ + b@ + c@,
{
    let ab = concat2(a, b);
    concat2(ab.as_str(), c)
}

/// Whether two strings hold the same characters.
pub fn same(a: &str, b: &str) -> (r: bool)
    ensures
        r == (a@ == b@),
{
    let x = to_chars(a);
    let y = to_chars(b);
    same_chars(&x, &y)
}

/// Whether two vectors hold the same characters.
pub fn same_chars(x: &Vec<char>, y: &Vec<char>) -> (r: bool)
    ensures
        r == (x@ == y@),
{
    if x.len() != y.len() {
        return false;
    }
    let mut i: usize = 0;
    while i < x.len()
        invariant
            i <= x.len(),
            x.len() == y.len(),
            x@.take(i as int) == y@.take(i as int),
        decreases x.len() - i,
    {
        if x[i] != y[i] {
            return false;
        }
        assert(x@.take(i + 1) == x@.take(i as int).push(x@[i as int]));
        assert(y@.take(i + 1) == y@.take(i as int).push(y@[i as int]));
        i += 1;
    }
    assert(x@.take(x.len() as int) == x@);
    assert(y@.take(y.len() as int) == y@);
    true
}

/// The number of characters of `s`.
pub fn char_count(s: &str) -> (n: usize)
    ensures
        n == s@.len(),
{
    let v = to_chars(s);
    v.len()
}

// ---------------------------------------------------------------------------
// Trimming
// ---------------------------------------------------------------------------

/// `s` without the longest tail made only of `a` and `b`.
pub open spec fn trim_end_of(s: Seq<char>, a: char, b: char) -> Seq<char>
    decreases s.len(),
{
    if s.len() > 0 && (s.last() == a || s.last() == b) {
        trim_end_of(s.drop_last(), a, b)
    } else {
        s
    }
}

/// `s` without the longest head made only of `a`.
pub open spec fn trim_start_of(s: Seq<char>, a: char) -> Seq<char>
    decreases s.len(),
{
    if s.len() > 0 && s[0] == a {
        trim_start_of(s.drop_first(), a)
    } else {
        s
    }
}

/// `s` without its trailing whitespace.
pub open spec fn trim_ws_end(s: Seq<char>) -> Seq<char>
    decreases s.len(),
{
    if s.len() > 0 && whitespace_char(s.last()) {
        trim_ws_end(s.drop_last())
    } else {
        s
    }
}

/// `s` without its leading whitespace.
pub open spec fn trim_ws_start(s: Seq<char>) -> Seq<char>
    decreases s.len(),
{
    if s.len() > 0 && whitespace_char(s[0]) {
        trim_ws_start(s.drop_first())
    } else {
        s
    }
}

/// `s` without leading and trailing whitespace.
pub open spec fn trim_ws(s: Seq<char>) -> Seq<char> {
    trim_ws_end(trim_ws_start(s))
}

/// `s` with `suffix` taken off its end as often as it stands there.
pub open spec fn strip_suffix_all(s: Seq<char>, suffix: Seq<char>) -> Seq<char>
    decreases s.len(),
{
    if suffix.len() > 0 && suffix.is_suffix_of(s) {
        strip_suffix_all(s.take(s.len() - suffix.len()), suffix)
    } else {
        s
    }
}

/// Whether every character of `s` is whitespace.
pub open spec fn is_blank(s: Seq<char>) -> bool {
    forall|i: int| 0 <= i < s.len() ==> whitespace_char(#[trigger] s[i])
}

/// What `trim_ws_start` leaves is the end of `s` from its first character
/// that is no whitespace.
pub proof fn lemma_trim_ws_start_is_suffix(s: Seq<char>)
    ensures
        trim_ws_start(s).len() <= s.len(),
        trim_ws_start(s) == s.skip(s.len() - trim_ws_start(s).len()),
        forall|i: int| 0 <= i < s.len() - trim_ws_start(s).len() ==> whitespace_char(#[trigger] s[i]),
        trim_ws_start(s).len() > 0 ==> !whitespace_char(trim_ws_start(s)[0]),
    decreases s.len(),
{
    if s.len() > 0 && whitespace_char(s[0]) {
        let t = s.drop_first();
        lemma_trim_ws_start_is_suffix(t);
        let k = s.len() - trim_ws_start(s).len();
        assert(t.skip(k - 1) == s.skip(k));
        assert forall|i: int| 0 <= i < k implies whitespace_char(#[trigger] s[i]) by {
            if i > 0 {
                assert(s[i] == t[i - 1]);
            }
        }
    } else {
        assert(s.skip(0) == s);
    }
}

/// What `trim_ws_end` leaves is the start of `s` up to its last character
/// that is no whitespace.
pub proof fn lemma_trim_ws_end_is_prefix(s: Seq<char>)
    ensures
        trim_ws_end(s).len() <= s.len(),
        trim_ws_end(s) == s.take(trim_ws_end(s).len() as int),
        forall|i: int| trim_ws_end(s).len() <= i < s.len() ==> whitespace_char(#[trigger] s[i]),
        trim_ws_end(s).len() > 0 ==> !whitespace_char(trim_ws_end(s).last()),
    decreases s.len(),
{
    if s.len() > 0 && whitespace_char(s.last()) {
        let t = s.drop_last();
        lemma_trim_ws_end_is_prefix(t);
        let n = trim_ws_end(s).len() as int;
        assert(t.take(n) == s.take(n));
        assert forall|i: int| n <= i < s.len() implies whitespace_char(#[trigger] s[i]) by {
            if i < t.len() {
                assert(s[i] == t[i]);
            }
        }
    } else {
        assert(s.take(s.len() as int) == s);
    }
}

/// A string trims to nothing exactly when it is blank.
pub proof fn lemma_blank_iff_trim_empty(s: Seq<char>)
    ensures
        is_blank(s) <==> trim_ws(s).len() == 0,
{
    lemma_trim_ws_start_is_suffix(s);
    let t = trim_ws_start(s);
    lemma_trim_ws_end_is_prefix(t);
    let k = s.len() - t.len();
    if is_blank(s) {
        if t.len() > 0 {
            assert(t[0] == s[k]);
            assert(false);
        }
    }
    if trim_ws(s).len() == 0 {
        if t.len() > 0 {
            assert(whitespace_char(t[0]));
            assert(false);
        }
        assert forall|i: int| 0 <= i < s.len() implies whitespace_char(#[trigger] s[i]) by {}
    }
}

/// The length that is left of `v` once its tail of `a` and `b` is trimmed.
pub fn trim_end_len(v: &Vec<char>, a: char, b: char) -> (n: usize)
    ensures
        n <= v.len(),
        v@.take(n as int) == trim_end_of(v@, a, b),
{
    let mut n: usize = v.len();
    assert(v@.take(n as int) == v@);
    while n > 0 && (v[n - 1] == a || v[n - 1] == b)
        invariant
            n <= v.len(),
            trim_end_of(v@, a, b) == trim_end_of(v@.take(n as int), a, b),
        decreases n,
    {
        assert(v@.take(n as int).drop_last() == v@.take(n - 1));
        n -= 1;
    }
    n
}

/// Where `v` starts once its head of `a` is trimmed.
pub fn trim_start_pos(v: &Vec<char>, a: char) -> (k: usize)
    ensures
        k <= v.len(),
        v@.skip(k as int) == trim_start_of(v@, a),
{
    let mut k: usize = 0;
    assert(v@.skip(0) == v@);
    while k < v.len() && v[k] == a
        invariant
            k <= v.len(),
            trim_start_of(v@, a) == trim_start_of(v@.skip(k as int), a),
        decreases v.len() - k,
    {
        assert(v@.skip(k as int).drop_first() == v@.skip(k + 1));
        k += 1;
    }
    k
}

/// The bounds of `v` without leading and trailing whitespace.
pub fn trim_bounds(v: &Vec<char>) -> (r: (usize, usize))
    ensures
        r.0 <= r.1 <= v.len(),
        v@.subrange(r.0 as int, r.1 as int) == trim_ws(v@),
{
    let mut k: usize = 0;
    assert(v@.skip(0) == v@);
    while k < v.len() && v[k].is_whitespace()
        invariant
            k <= v.len(),
            trim_ws_start(v@) == trim_ws_start(v@.skip(k as int)),
        decreases v.len() - k,
    {
        assert(v@.skip(k as int).drop_first() == v@.skip(k + 1));
        k += 1;
    }
    let mut n: usize = v.len();
    assert(v@.subrange(k as int, n as int) == v@.skip(k as int));
    while n > k && v[n - 1].is_whitespace()
        invariant
            k <= n <= v.len(),
            trim_ws(v@) == trim_ws_end(v@.subrange(k as int, n as int)),
        decreases n,
    {
        assert(v@.subrange(k as int, n as int).drop_last() == v@.subrange(k as int, n - 1));
        n -= 1;
    }
    (k, n)
}

/// `s` without leading and trailing whitespace.
pub fn trim(s: &str) -> (out: String)
    ensures
        out@ == trim_ws(s@),
{
    let v = to_chars(s);
    let (k, n) = trim_bounds(&v);
    from_chars_range(&v, k, n)
}

/// Whether `s` holds nothing but whitespace.
pub fn blank(s: &str) -> (r: bool)
    ensures
        r == is_blank(s@),
        r == (trim_ws(s@).len() == 0),
{
    let v = to_chars(s);
    let (k, n) = trim_bounds(&v);
    proof {
        lemma_blank_iff_trim_empty(s@);
    }
    k == n
}

/// `s` without its tail of `a` and `b`.
pub fn trim_end(s: &str, a: char, b: char) -> (out: String)
    ensures
        out@ == trim_end_of(s@, a, b),
{
    let v = to_chars(s);
    let n = trim_end_len(&v, a, b);
    let out = from_chars_range(&v, 0, n);
    assert(v@.subrange(0, n as int) == v@.take(n as int));
    out
}

/// `s` without its head of `a`.
pub fn trim_start(s: &str, a: char) -> (out: String)
    ensures
        out@ == trim_start_of(s@, a),
{
    let v = to_chars(s);
    let k = trim_start_pos(&v, a);
    let out = from_chars_range(&v, k, v.len());
    assert(v@.subrange(k as int, v.len() as int) == v@.skip(k as int));
    out
}

// ---------------------------------------------------------------------------
// Searching
// ---------------------------------------------------------------------------

/// Whether `pat` stands in `s` at index `i`.
pub open spec fn has_at(s: Seq<char>, pat: Seq<char>, i: int) -> bool {
    0 <= i && i + pat.len() <= s.len() && s.subrange(i, i + pat.len()) == pat
}

/// Whether `pat` stands somewhere in `s`.
pub open spec fn contains(s: Seq<char>, pat: Seq<char>) -> bool {
    exists|i: int| has_at(s, pat, i)
}

/// The index of the first `a` or `b` in `s`, or the length of `s`.
pub open spec fn first_index_of(s: Seq<char>, a: char, b: char) -> int
    decreases s.len(),
{
    if s.len() == 0 {
        0
    } else if s[0] == a || s[0] == b {
        0
    } else {
        1 + first_index_of(s.drop_first(), a, b)
    }
}

/// One past the index of the last `a` or `b` in `s`, or 0.
pub open spec fn after_last_index_of(s: Seq<char>, a: char, b: char) -> int
    decreases s.len(),
{
    if s.len() == 0 {
        0
    } else if s.last() == a || s.last() == b {
        s.len() as int
    } else {
        after_last_index_of(s.drop_last(), a, b)
    }
}

/// `first_index_of` is the index of the first `a` or `b`: nothing before it
/// is one of them, and it lies within `s` or at its end.
pub proof fn lemma_first_index_of(s: Seq<char>, a: char, b: char)
    ensures
        0 <= first_index_of(s, a, b) <= s.len(),
        forall|i: int|
            0 <= i < first_index_of(s, a, b) ==> (#[trigger] s[i]) != a && s[i] != b,
        first_index_of(s, a, b) < s.len() ==> (s[first_index_of(s, a, b)] == a
            || s[first_index_of(s, a, b)] == b),
    decreases s.len(),
{
    if s.len() > 0 && !(s[0] == a || s[0] == b) {
        let t = s.drop_first();
        lemma_first_index_of(t, a, b);
        assert forall|i: int| 0 <= i < first_index_of(s, a, b) implies (#[trigger] s[i]) != a
            && s[i] != b by {
            if i > 0 {
                assert(s[i] == t[i - 1]);
            }
        }
    }
}

/// Whether `pat` stands in `v` at index `i`.
pub fn matches_at(v: &Vec<char>, pat: &Vec<char>, i: usize) -> (r: bool)
    ensures
        r == has_at(v@, pat@, i as int),
{
    if pat.len() > v.len() || i > v.len() - pat.len() {
        return false;
    }
    let mut j: usize = 0;
    while j < pat.len()
        invariant
            j <= pat.len(),
            i + pat.len() <= v.len(),
            v@.subrange(i as int, i + j) == pat@.take(j as int),
        decreases pat.len() - j,
    {
        if v[i + j] != pat[j] {
            assert(v@.subrange(i as int, i + pat.len())[j as int] != pat@[j as int]);
            return false;
        }
        assert(v@.subrange(i as int, i + j + 1) == v@.subrange(i as int, i + j).push(
            v@[i + j],
        ));
        assert(pat@.take(j + 1) == pat@.take(j as int).push(pat@[j as int]));
        j += 1;
    }
    assert(pat@.take(pat.len() as int) == pat@);
    true
}

/// Whether `pat` stands somewhere in `v`.
pub fn contains_chars(v: &Vec<char>, pat: &Vec<char>) -> (r: bool)
    ensures
        r == contains(v@, pat@),
{
    if pat.len() == 0 {
        assert(has_at(v@, pat@, 0)) by {
            assert(v@.subrange(0, 0) == pat@);
        }
        return true;
    }
    let mut i: usize = 0;
    while i < v.len()
        invariant
            i <= v.len(),
            pat.len() > 0,
            forall|k: int| 0 <= k < i ==> !has_at(v@, pat@, k),
        decreases v.len() - i,
    {
        if matches_at(v, pat, i) {
            return true;
        }
        i += 1;
    }
    assert forall|k: int| !has_at(v@, pat@, k) by {}
    false
}

/// Whether `pat` stands somewhere in `s`.
pub fn contains_str(s: &str, pat: &str) -> (r: bool)
    ensures
        r == contains(s@, pat@),
{
    let v = to_chars(s);
    let p = to_chars(pat);
    contains_chars(&v, &p)
}

/// Whether the character `c` occurs in `s`.
pub fn contains_char(s: &str, c: char) -> (r: bool)
    ensures
        r == s@.contains(c),
{
    let v = to_chars(s);
    let mut i: usize = 0;
    while i < v.len()
        invariant
            i <= v.len(),
            v@ == s@,
            forall|k: int| 0 <= k < i ==> v@[k] != c,
        decreases v.len() - i,
    {
        if v[i] == c {
            assert(s@[i as int] == c);
            return true;
        }
        i += 1;
    }
    false
}

/// What follows `prefix` in `s`, if `s` begins with it.
pub open spec fn strip_prefix_of(s: Seq<char>, prefix: Seq<char>) -> Option<Seq<char>> {
    if prefix.is_prefix_of(s) {
        Some(s.skip(prefix.len() as int))
    } else {
        None
    }
}

/// What follows `prefix` in `s`, if `s` begins with it.
pub fn strip_prefix(s: &str, prefix: &str) -> (r: Option<String>)
    ensures
        r is Some == strip_prefix_of(s@, prefix@) is Some,
        r is Some ==> r->0@ == strip_prefix_of(s@, prefix@)->0,
{
    let v = to_chars(s);
    let p = to_chars(prefix);
    let m = matches_at(&v, &p, 0);
    proof {
        if m {
            assert(v@.subrange(0, p@.len() as int) == p@);
        }
        if p@.is_prefix_of(v@) {
            assert(v@.subrange(0, p@.len() as int) == p@);
        }
    }
    if m {
        let out = from_chars_range(&v, p.len(), v.len());
        assert(v@.subrange(p.len() as int, v.len() as int) == v@.skip(p.len() as int));
        Some(out)
    } else {
        None
    }
}

/// The index of the first `a` or `b` in `v`, or its length.
pub fn find_first(v: &Vec<char>, a: char, b: char) -> (k: usize)
    ensures
        k == first_index_of(v@, a, b),
        k <= v.len(),
{
    let mut k: usize = 0;
    assert(v@.skip(0) == v@);
    while k < v.len() && !(v[k] == a || v[k] == b)
        invariant
            k <= v.len(),
            first_index_of(v@, a, b) == k + first_index_of(v@.skip(k as int), a, b),
        decreases v.len() - k,
    {
        assert(v@.skip(k as int).drop_first() == v@.skip(k + 1));
        k += 1;
    }
    k
}

/// One past the index of the last `a` or `b` in `v`, or 0.
pub fn find_after_last(v: &Vec<char>, a: char, b: char) -> (k: usize)
    ensures
        k == after_last_index_of(v@, a, b),
        k <= v.len(),
{
    let mut k: usize = v.len();
    assert(v@.take(k as int) == v@);
    while k > 0 && !(v[k - 1] == a || v[k - 1] == b)
        invariant
            k <= v.len(),
            after_last_index_of(v@, a, b) == after_last_index_of(v@.take(k as int), a, b),
        decreases k,
    {
        assert(v@.take(k as int).drop_last() == v@.take(k - 1));
        k -= 1;
    }
    k
}

/// The length that is left of `v` once `suffix` is taken off its end as often
/// as it stands there.
pub fn strip_suffix_len(v: &Vec<char>, suffix: &Vec<char>) -> (n: usize)
    ensures
        n <= v.len(),
        v@.take(n as int) == strip_suffix_all(v@, suffix@),
{
    let mut n: usize = v.len();
    assert(v@.take(n as int) == v@);
    if suffix.len() == 0 {
        return n;
    }
    while n >= suffix.len() && matches_at(v, suffix, n - suffix.len())
        invariant
            n <= v.len(),
            suffix.len() > 0,
            strip_suffix_all(v@, suffix@) == strip_suffix_all(v@.take(n as int), suffix@),
        decreases n,
    {
        let ghost t = v@.take(n as int);
        assert(t.subrange(n - suffix.len(), n as int) == v@.subrange(
            n - suffix.len(),
            n as int,
        ));
        assert(t.take(n - suffix.len()) == v@.take(n - suffix.len()));
        n -= suffix.len();
    }
    proof {
        let t = v@.take(n as int);
        if suffix@.is_suffix_of(t) {
            assert(t.subrange(n - suffix.len(), n as int) == v@.subrange(
                n - suffix.len(),
                n as int,
            ));
        }
    }
    n
}

/// What stands before the first `a` or `b` of `s`: all of `s` where there is
/// none.
pub open spec fn before_first_of(s: Seq<char>, a: char, b: char) -> Seq<char> {
    s.take(first_index_of(s, a, b))
}

/// What stands after the first `a` or `b` of `s`: nothing where there is
/// none.
pub open spec fn after_first_of(s: Seq<char>, a: char, b: char) -> Seq<char> {
    if first_index_of(s, a, b) < s.len() {
        s.skip(first_index_of(s, a, b) + 1)
    } else {
        Seq::empty()
    }
}

/// What stands after the last `a` or `b` of `s`: all of `s` where there is
/// none.
pub open spec fn after_last_of(s: Seq<char>, a: char, b: char) -> Seq<char> {
    s.skip(after_last_index_of(s, a, b))
}

/// What stands before the first `a` or `b` of `s`.
pub fn before_first(s: &str, a: char, b: char) -> (out: String)
    ensures
        out@ == before_first_of(s@, a, b),
{
    let v = to_chars(s);
    let k = find_first(&v, a, b);
    let out = from_chars_range(&v, 0, k);
    assert(v@.subrange(0, k as int) == v@.take(k as int));
    out
}

/// What stands after the first `a` or `b` of `s`.
pub fn after_first(s: &str, a: char, b: char) -> (out: String)
    ensures
        out@ == after_first_of(s@, a, b),
{
    let v = to_chars(s);
    let k = find_first(&v, a, b);
    if k < v.len() {
        let out = from_chars_range(&v, k + 1, v.len());
        assert(v@.subrange(k + 1, v.len() as int) == v@.skip(k + 1));
        out
    } else {
        String::new()
    }
}

/// What stands after the last `a` or `b` of `s`.
pub fn after_last(s: &str, a: char, b: char) -> (out: String)
    ensures
        out@ == after_last_of(s@, a, b),
{
    let v = to_chars(s);
    let k = find_after_last(&v, a, b);
    let out = from_chars_range(&v, k, v.len());
    assert(v@.subrange(k as int, v.len() as int) == v@.skip(k as int));
    out
}

/// `s` with `suffix` taken off its end as often as it stands there.
pub fn strip_suffix_repeated(s: &str, suffix: &str) -> (out: String)
    ensures
        out@ == strip_suffix_all(s@, suffix@),
{
    let v = to_chars(s);
    let w = to_chars(suffix);
    let n = strip_suffix_len(&v, &w);
    let out = from_chars_range(&v, 0, n);
    assert(v@.subrange(0, n as int) == v@.take(n as int));
    out
}

// ---------------------------------------------------------------------------
// Lines
// ---------------------------------------------------------------------------

/// `line` without the carriage return at its end, if it has one.
pub open spec fn without_cr(line: Seq<char>) -> Seq<char> {
    if line.len() > 0 && line.last() == '\r' {
        line.drop_last()
    } else {
        line
    }
}

/// The lines of `s`: it is cut after each line feed, and a line loses its
/// line feed and a carriage return before it. What follows the last line
/// feed is a line as it stands, unless it is empty.
pub open spec fn lines_of(s: Seq<char>) -> Seq<Seq<char>>
    decreases s.len(),
{
    if s.len() == 0 {
        Seq::empty()
    } else {
        let k = first_index_of(s, '\n', '\n');
        if k >= s.len() {
            seq![s]
        } else {
            proof {
                lemma_first_index_of(s, '\n', '\n');
            }
            seq![without_cr(s.take(k))] + lines_of(s.skip(k + 1))
        }
    }
}

/// The lines of `s`.
pub fn split_lines(s: &str) -> (out: Vec<String>)
    ensures
        views(out@) == lines_of(s@),
{
    let v = to_chars(s);
    let mut out: Vec<String> = Vec::new();
    let mut start: usize = 0;
    assert(v@.skip(0) == v@);
    assert(views(out@) =~= Seq::<Seq<char>>::empty());
    while start < v.len()
        invariant
            start <= v.len(),
            v@ == s@,
            lines_of(v@) == views(out@) + lines_of(v@.skip(start as int)),
        decreases v.len() - start,
    {
        let ghost rest = v@.skip(start as int);
        let ghost before = out@;
        let mut end: usize = start;
        proof {
            assert(rest.skip(0) == rest);
        }
        while end < v.len() && v[end] != '\n'
            invariant
                start <= end <= v.len(),
                rest == v@.skip(start as int),
                first_index_of(rest, '\n', '\n') == (end - start) + first_index_of(
                    rest.skip(end - start),
                    '\n',
                    '\n',
                ),
            decreases v.len() - end,
        {
            proof {
                assert(rest.skip(end - start)[0] == v@[end as int]);
                assert(rest.skip(end - start).drop_first() == rest.skip(end - start + 1));
            }
            end += 1;
        }
        proof {
            if end < v.len() {
                assert(rest.skip(end - start)[0] == v@[end as int]);
            }
            assert(first_index_of(rest, '\n', '\n') == end - start);
        }
        if end == v.len() {
            let line = from_chars_range(&v, start, end);
            proof {
                assert(v@.subrange(start as int, end as int) == rest);
                assert(lines_of(rest) =~= seq![rest]);
            }
            out.push(line);
            proof {
                assert(views(out@) =~= views(before).push(rest));
                assert(v@.skip(end as int).len() == 0);
                assert(lines_of(v@.skip(end as int)) =~= Seq::<Seq<char>>::empty());
                assert(views(before) + seq![rest] =~= views(out@) + lines_of(v@.skip(end as int)));
            }
            start = end;
        } else {
            let cut: usize = if end > start && v[end - 1] == '\r' {
                end - 1
            } else {
                end
            };
            let line = from_chars_range(&v, start, cut);
            proof {
                let raw = rest.take(end - start);
                assert(raw == v@.subrange(start as int, end as int));
                if end > start {
                    assert(raw.last() == v@[end - 1]);
                }
                assert(v@.subrange(start as int, cut as int) == without_cr(raw));
                assert(rest.skip(end - start + 1) == v@.skip(end + 1));
                assert(lines_of(rest) == seq![without_cr(raw)] + lines_of(v@.skip(end + 1)));
            }
            out.push(line);
            proof {
                assert(views(out@) =~= views(before).push(line@));
                assert(views(before) + (seq![line@] + lines_of(v@.skip(end + 1))) =~= views(out@)
                    + lines_of(v@.skip(end + 1)));
            }
            start = end + 1;
        }
    }
    proof {
        assert(v@.skip(start as int).len() == 0);
        assert(views(out@) + lines_of(v@.skip(start as int)) =~= views(out@));
    }
    out
}

/// `parts` in a row, with `sep` between each two of them.
pub open spec fn joined_of(parts: Seq<Seq<char>>, sep: Seq<char>) -> Seq<char>
    decreases parts.len(),
{
    if parts.len() == 0 {
        Seq::empty()
    } else if parts.len() == 1 {
        parts[0]
    } else {
        joined_of(parts.drop_last(), sep) + sep + parts.last()
    }
}

/// `parts` in a row, with `sep` between each two of them.
pub fn join_with(parts: &Vec<String>, sep: &str) -> (out: String)
    ensures
        out@ == joined_of(views(parts@), sep@),
{
    if parts.len() == 0 {
        return String::new();
    }
    let ghost all = views(parts@);
    let mut out = parts[0].clone();
    let mut i: usize = 1;
    assert(all.take(1).drop_last().len() == 0);
    assert(all.take(1)[0] == all[0]);
    while i < parts.len()
        invariant
            1 <= i <= parts.len(),
            all == views(parts@),
            out@ == joined_of(all.take(i as int), sep@),
        decreases parts.len() - i,
    {
        proof {
            assert(all.take(i + 1).drop_last() == all.take(i as int));
            assert(all.take(i + 1).last() == parts@[i as int]@);
        }
        out = concat3(out.as_str(), sep, parts[i].as_str());
        i += 1;
    }
    assert(all.take(parts.len() as int) == all);
    out
}

// ---------------------------------------------------------------------------
// Order
// ---------------------------------------------------------------------------

/// Whether `a` comes before `b`, or is `b`, in the order of strings: the
/// first character in which they differ decides, and a prefix comes before
/// what it is a prefix of.
pub open spec fn lex_le(a: Seq<char>, b: Seq<char>) -> bool
    decreases a.len(),
{
    if a.len() == 0 {
        true
    } else if b.len() == 0 {
        false
    } else if a[0] != b[0] {
        a[0] < b[0]
    } else {
        lex_le(a.drop_first(), b.drop_first())
    }
}

/// Of two strings, one comes before the other or they are the same.
pub proof fn lemma_lex_total(a: Seq<char>, b: Seq<char>)
    ensures
        lex_le(a, b) || lex_le(b, a),
    decreases a.len(),
{
    if a.len() > 0 && b.len() > 0 && a[0] == b[0] {
        lemma_lex_total(a.drop_first(), b.drop_first());
    }
}

/// The order of strings is transitive.
pub proof fn lemma_lex_transitive(a: Seq<char>, b: Seq<char>, c: Seq<char>)
    requires
        lex_le(a, b),
        lex_le(b, c),
    ensures
        lex_le(a, c),
    decreases a.len(),
{
    if a.len() > 0 && b.len() > 0 && c.len() > 0 && a[0] == b[0] && b[0] == c[0] {
        lemma_lex_transitive(a.drop_first(), b.drop_first(), c.drop_first());
    }
}

/// Whether `a` comes before `b` or is `b`.
pub fn str_le(a: &str, b: &str) -> (r: bool)
    ensures
        r == lex_le(a@, b@),
{
    let x = to_chars(a);
    let y = to_chars(b);
    let mut i: usize = 0;
    assert(x@.skip(0) == x@);
    assert(y@.skip(0) == y@);
    while i < x.len() && i < y.len()
        invariant
            i <= x.len(),
            i <= y.len(),
            x@ == a@,
            y@ == b@,
            lex_le(x@, y@) == lex_le(x@.skip(i as int), y@.skip(i as int)),
        decreases x.len() - i,
    {
        proof {
            assert(x@.skip(i as int)[0] == x@[i as int]);
            assert(y@.skip(i as int)[0] == y@[i as int]);
            assert(x@.skip(i as int).drop_first() == x@.skip(i + 1));
            assert(y@.skip(i as int).drop_first() == y@.skip(i + 1));
        }
        if x[i] != y[i] {
            return x[i] < y[i];
        }
        i += 1;
    }
    i == x.len()
}

/// Every string comes before itself.
pub proof fn lemma_lex_reflexive(a: Seq<char>)
    ensures
        lex_le(a, a),
    decreases a.len(),
{
    if a.len() > 0 {
        lemma_lex_reflexive(a.drop_first());
    }
}

/// Whether the names stand in the order of strings.
pub open spec fn in_order(names: Seq<Seq<char>>) -> bool {
    forall|i: int, j: int| 0 <= i < j < names.len() ==> lex_le(names[i], names[j])
}

/// Whether `v` is one of `order`.
pub open spec fn listed(order: Seq<usize>, v: int) -> bool {
    exists|j: int| 0 <= j < order.len() && #[trigger] order[j] == v
}

/// Whether `order` lists each of the numbers below `n` once.
pub open spec fn lists_each_below(order: Seq<usize>, n: int) -> bool {
    &&& order.len() == n
    &&& forall|j: int| 0 <= j < order.len() ==> (#[trigger] order[j]) < n
    &&& forall|j: int, k: int| 0 <= j < k < order.len() ==> order[j] != order[k]
    &&& forall|v: int| 0 <= v < n ==> #[trigger] listed(order, v)
}

/// The positions of `names`, put in the order of the names. Names that are
/// the same keep the order in which they stand.
pub fn sorted_positions(names: &Vec<String>) -> (order: Vec<usize>)
    ensures
        lists_each_below(order@, names@.len() as int),
        forall|i: int, j: int|
            0 <= i < j < order@.len() ==> lex_le(
                views(names@)[order@[i] as int],
                views(names@)[order@[j] as int],
            ),
        forall|i: int, j: int|
            0 <= i < j < order@.len() && views(names@)[order@[i] as int] == views(
                names@,
            )[order@[j] as int] ==> order@[i] < order@[j],
{
    let ghost keys = views(names@);
    let mut order: Vec<usize> = Vec::new();
    let mut n: usize = 0;
    while n < names.len()
        invariant
            n <= names@.len(),
            keys == views(names@),
            forall|i: int, j: int|
                0 <= i < j < order@.len() && keys[order@[i] as int] == keys[order@[j] as int]
                    ==> order@[i] < order@[j],
            lists_each_below(order@, n as int),
            forall|i: int, j: int|
                0 <= i < j < order@.len() ==> lex_le(
                    keys[order@[i] as int],
                    keys[order@[j] as int],
                ),
        decreases names@.len() - n,
    {
        let name = &names[n];
        let mut p: usize = 0;
        while p < order.len() && str_le(names[order[p]].as_str(), name.as_str())
            invariant
                p <= order@.len(),
                n < names@.len(),
                keys == views(names@),
                name@ == keys[n as int],
                lists_each_below(order@, n as int),
                forall|j: int| 0 <= j < p ==> lex_le(keys[order@[j] as int], name@),
            decreases order@.len() - p,
        {
            p += 1;
        }
        let ghost before = order@;
        proof {
            if p < order@.len() {
                let at = keys[before[p as int] as int];
                assert(!lex_le(at, name@));
                lemma_lex_total(at, name@);
                assert forall|j: int| p <= j < before.len() implies lex_le(
                    name@,
                    keys[before[j] as int],
                ) && keys[before[j] as int] != name@ by {
                    if j > p {
                        lemma_lex_transitive(name@, at, keys[before[j] as int]);
                    }
                    if keys[before[j] as int] == name@ {
                        lemma_lex_reflexive(name@);
                        if j > p {
                            assert(lex_le(at, keys[before[j] as int]));
                        }
                    }
                }
            }
        }
        order.insert(p, n);
        proof {
            let after = order@;
            assert(after.len() == before.len() + 1);
            assert forall|j: int| 0 <= j < after.len() implies (#[trigger] after[j]) < n + 1 by {
                if j < p {
                    assert(after[j] == before[j]);
                } else if j > p {
                    assert(after[j] == before[j - 1]);
                }
            }
            assert forall|j: int, k: int| 0 <= j < k < after.len() implies after[j] != after[k] by {
                let a = if j < p {
                    before[j]
                } else if j == p {
                    n
                } else {
                    before[j - 1]
                };
                let b = if k < p {
                    before[k]
                } else if k == p {
                    n
                } else {
                    before[k - 1]
                };
                assert(after[j] == a);
                assert(after[k] == b);
            }
            assert forall|v: int| 0 <= v < n + 1 implies #[trigger] listed(after, v) by {
                if v == n {
                    assert(after[p as int] == v);
                } else {
                    assert(listed(before, v));
                    let j = choose|j: int| 0 <= j < before.len() && #[trigger] before[j] == v;
                    if j < p {
                        assert(after[j] == v);
                    } else {
                        assert(after[j + 1] == v);
                    }
                }
            }
            assert forall|i: int, j: int|
                0 <= i < j < after.len() && keys[after[i] as int] == keys[after[j] as int] implies
                after[i] < after[j] by {
                let a = if i < p {
                    before[i]
                } else if i == p {
                    n
                } else {
                    before[i - 1]
                };
                let b = if j < p {
                    before[j]
                } else if j == p {
                    n
                } else {
                    before[j - 1]
                };
                assert(after[i] == a);
                assert(after[j] == b);
            }
            assert forall|i: int, j: int| 0 <= i < j < after.len() implies lex_le(
                keys[after[i] as int],
                keys[after[j] as int],
            ) by {
                let a = if i < p {
                    before[i]
                } else if i == p {
                    n
                } else {
                    before[i - 1]
                };
                let b = if j < p {
                    before[j]
                } else if j == p {
                    n
                } else {
                    before[j - 1]
                };
                assert(after[i] == a);
                assert(after[j] == b);
            }
        }
        n += 1;
    }
    order
}

// ---------------------------------------------------------------------------
// Rewriting
// ---------------------------------------------------------------------------

/// `s` with every `from` replaced by `to`.
pub open spec fn replace_char_of(s: Seq<char>, from: char, to: char) -> Seq<char> {
    Seq::new(
        s.len(),
        |i: int|
            if s[i] == from {
                to
            } else {
                s[i]
            },
    )
}

/// `s` with every `from` replaced by `to`.
pub fn replace_char(s: &str, from: char, to: char) -> (out: String)
    ensures
        out@ == replace_char_of(s@, from, to),
{
    let v = to_chars(s);
    let mut w: Vec<char> = Vec::new();
    let mut i: usize = 0;
    while i < v.len()
        invariant
            i <= v.len(),
            w@ == replace_char_of(v@, from, to).take(i as int),
        decreases v.len() - i,
    {
        let c = v[i];
        if c == from {
            w.push(to);
        } else {
            w.push(c);
        }
        assert(replace_char_of(v@, from, to).take(i + 1) == replace_char_of(v@, from, to).take(
            i as int,
        ).push(replace_char_of(v@, from, to)[i as int]));
        i += 1;
    }
    assert(replace_char_of(v@, from, to).take(v.len() as int) == replace_char_of(v@, from, to));
    from_chars(&w)
}

} // verus!
