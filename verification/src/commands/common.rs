//! What several commands share: the name of a ticket's branch and the place of
//! a ticket's directory.

use vstd::prelude::*;
use crate::config::Config;
use crate::error::ErrorKind;
use crate::error::TixError;
use crate::paths::join;
use crate::paths::join_of;
use crate::paths::parent;
use crate::text::alphanumeric_char;
use crate::text::concat3;
use crate::text::copy_str;
use crate::text::from_chars;
use crate::text::lowercase;
use crate::text::lowercase_of;
use crate::text::to_chars;
use crate::text::uppercase_char;

verus! {

// ---------------------------------------------------------------------------
// Branch names
// ---------------------------------------------------------------------------

/// The form in which a kept character goes into a branch name: its lowercase
/// mapping, which may be more than one character.
///
/// std promises nothing on what a mapping holds. So that hyphens stand only
/// where words are separated whatever std yields, a mapping that is empty or
/// holds a hyphen is not used: the character then goes in as it stands.
pub open spec fn lowered(c: char) -> Seq<char> {
    if lowercase_of(c).len() == 0 || lowercase_of(c).contains('-') {
        seq![c]
    } else {
        lowercase_of(c)
    }
}

/// `s` with every alphanumeric character kept, in lowercase, and every run of
/// other characters turned into one `-`, except at the very start, where such
/// a run is dropped.
pub open spec fn collapsed(s: Seq<char>) -> Seq<char>
    decreases s.len(),
{
    if s.len() == 0 {
        Seq::empty()
    } else {
        let before = collapsed(s.drop_last());
        let c = s.last();
        if alphanumeric_char(c) {
            before + lowered(c)
        } else if before.len() > 0 && before.last() != '-' {
            before.push('-')
        } else {
            before
        }
    }
}

/// The form of a description that goes into a branch name: `collapsed`,
/// without the `-` that a trailing run of other characters leaves. It is the
/// runs of alphanumerics of the description, in lowercase, joined by single
/// hyphens.
pub open spec fn sanitized(s: Seq<char>) -> Seq<char> {
    let c = collapsed(s);
    if c.len() > 0 && c.last() == '-' {
        c.drop_last()
    } else {
        c
    }
}

/// No `-` at either end and no two `-` in a row.
pub open spec fn well_hyphenated(s: Seq<char>) -> bool {
    &&& s.len() > 0 ==> s[0] != '-' && s.last() != '-'
    &&& forall|i: int| 0 <= i < s.len() - 1 ==> !(#[trigger] s[i] == '-' && s[i + 1] == '-')
}

/// No uppercase letter, of any script.
pub open spec fn no_uppercase(s: Seq<char>) -> bool {
    forall|i: int| 0 <= i < s.len() ==> !uppercase_char(#[trigger] s[i])
}

/// No `-` at either end, no two `-` in a row, no uppercase letter.
pub open spec fn is_tidy(s: Seq<char>) -> bool {
    well_hyphenated(s) && no_uppercase(s)
}

/// Whether the lowercase form of `c` holds no uppercase letter. It does for
/// every letter that has a lowercase form; it does not for an uppercase
/// letter without one (the mathematical capitals are such).
pub open spec fn lowers_fully(c: char) -> bool {
    no_uppercase(lowered(c))
}

/// Whether every alphanumeric character of `s` lowers fully.
pub open spec fn lowers_fully_text(s: Seq<char>) -> bool {
    forall|j: int| 0 <= j < s.len() && #[trigger] alphanumeric_char(s[j]) ==> lowers_fully(s[j])
}

/// Whether `d` is a character of the lowercase form of an alphanumeric
/// character of `s`.
pub open spec fn from_lowering(s: Seq<char>, d: char) -> bool {
    exists|j: int| 0 <= j < s.len() && #[trigger] alphanumeric_char(s[j]) && lowered(s[j]).contains(d)
}

/// Whether `out` holds nothing but hyphens and what the alphanumerics of
/// `input` lower to.
pub open spec fn made_of_words(out: Seq<char>, input: Seq<char>) -> bool {
    forall|i: int| 0 <= i < out.len() ==> (#[trigger] out[i]) == '-' || from_lowering(input, out[i])
}

/// The branch of a ticket: prefix, `/`, ticket id and, where the description
/// sanitizes to something, `-` and that.
pub open spec fn branch_name_of(
    prefix: Seq<char>,
    ticket_id: Seq<char>,
    description: Option<Seq<char>>,
) -> Seq<char> {
    let base = prefix + seq!['/'] + ticket_id;
    match description {
        Some(d) => if sanitized(d).len() > 0 {
            base + seq!['-'] + sanitized(d)
        } else {
            base
        },
        None => base,
    }
}

/// The lowercase form of an alphanumeric character is not empty and holds no
/// hyphen.
pub proof fn lemma_lowered(c: char)
    requires
        alphanumeric_char(c),
    ensures
        lowered(c).len() >= 1,
        forall|k: int| 0 <= k < lowered(c).len() ==> (#[trigger] lowered(c)[k]) != '-',
{
    let low = lowered(c);
    assert forall|k: int| 0 <= k < low.len() implies (#[trigger] low[k]) != '-' by {
        if low[k] == '-' {
            if lowercase_of(c).len() == 0 || lowercase_of(c).contains('-') {
                assert(low[k] == c);
            } else {
                assert(lowercase_of(c)[k] == '-');
                assert(lowercase_of(c).contains('-'));
            }
        }
    }
}

/// What comes from the lowering of `s` without its last character comes from
/// the lowering of `s`.
proof fn lemma_from_lowering_extends(s: Seq<char>, d: char)
    requires
        s.len() > 0,
        from_lowering(s.drop_last(), d),
    ensures
        from_lowering(s, d),
{
    let t = s.drop_last();
    let j = choose|j: int|
        0 <= j < t.len() && #[trigger] alphanumeric_char(t[j]) && lowered(t[j]).contains(d);
    assert(t[j] == s[j]);
    assert(alphanumeric_char(s[j]) && lowered(s[j]).contains(d));
}

/// What `collapsed` yields never starts with `-`, never has two in a row, and
/// holds only hyphens and what the alphanumerics of `s` lower to.
pub proof fn lemma_collapsed_shape(s: Seq<char>)
    ensures
        collapsed(s).len() > 0 ==> collapsed(s)[0] != '-',
        forall|i: int|
            0 <= i < collapsed(s).len() - 1 ==> !(#[trigger] collapsed(s)[i] == '-' && collapsed(
                s,
            )[i + 1] == '-'),
        made_of_words(collapsed(s), s),
    decreases s.len(),
{
    if s.len() > 0 {
        let rest = s.drop_last();
        let before = collapsed(rest);
        let out = collapsed(s);
        let n = before.len() as int;
        lemma_collapsed_shape(rest);
        let c = s.last();
        assert(c == s[s.len() - 1]);
        if alphanumeric_char(c) {
            let low = lowered(c);
            lemma_lowered(c);
            assert(out == before + low);
            assert forall|i: int| 0 <= i < out.len() - 1 implies !(#[trigger] out[i] == '-'
                && out[i + 1] == '-') by {
                if i + 1 < n {
                    assert(out[i] == before[i]);
                    assert(out[i + 1] == before[i + 1]);
                    assert(!(before[i] == '-' && before[i + 1] == '-'));
                } else {
                    assert(out[i + 1] == low[i + 1 - n]);
                }
            }
            if n > 0 {
                assert(out[0] == before[0]);
            } else {
                assert(out[0] == low[0]);
            }
            assert forall|i: int| 0 <= i < out.len() implies (#[trigger] out[i]) == '-'
                || from_lowering(s, out[i]) by {
                if i < n {
                    assert(out[i] == before[i]);
                    if before[i] != '-' {
                        lemma_from_lowering_extends(s, before[i]);
                    }
                } else {
                    assert(out[i] == low[i - n]);
                    assert(low.contains(out[i]));
                    assert(alphanumeric_char(s[s.len() - 1]) && lowered(s[s.len() - 1]).contains(
                        out[i],
                    ));
                }
            }
        } else {
            assert forall|i: int| 0 <= i < out.len() implies (#[trigger] out[i]) == '-'
                || from_lowering(s, out[i]) by {
                if i < n {
                    assert(out[i] == before[i]);
                    if before[i] != '-' {
                        lemma_from_lowering_extends(s, before[i]);
                    }
                }
            }
            if before.len() > 0 && before.last() != '-' {
                assert forall|i: int| 0 <= i < out.len() - 1 implies !(#[trigger] out[i] == '-'
                    && out[i + 1] == '-') by {
                    if i + 1 < n {
                        assert(out[i] == before[i]);
                        assert(out[i + 1] == before[i + 1]);
                        assert(!(before[i] == '-' && before[i + 1] == '-'));
                    } else {
                        assert(out[i] == before.last());
                    }
                }
                assert(out[0] == before[0]);
            }
        }
    }
}

/// A sanitized description has no hyphen at its ends and no two in a row,
/// and holds only hyphens and what the alphanumerics of the description
/// lower to.
pub proof fn lemma_sanitized_shape(s: Seq<char>)
    ensures
        well_hyphenated(sanitized(s)),
        made_of_words(sanitized(s), s),
{
    lemma_collapsed_shape(s);
    let c = collapsed(s);
    if c.len() > 0 && c.last() == '-' {
        let t = c.drop_last();
        if t.len() > 0 {
            assert(!(c[c.len() - 2] == '-' && c[c.len() - 2 + 1] == '-'));
            assert(t.last() == c[c.len() - 2]);
            assert(t[0] == c[0]);
        }
        assert forall|i: int| 0 <= i < t.len() - 1 implies !(#[trigger] t[i] == '-' && t[i + 1]
            == '-') by {
            assert(!(c[i] == '-' && c[i + 1] == '-'));
        }
        assert forall|i: int| 0 <= i < t.len() implies (#[trigger] t[i]) == '-' || from_lowering(
            s,
            t[i],
        ) by {
            assert(t[i] == c[i]);
        }
    }
}

/// Nothing is lost: every character that an alphanumeric of `s` lowers to
/// stands in the sanitized text.
pub proof fn lemma_lowering_appears(s: Seq<char>, j: int, d: char)
    requires
        0 <= j < s.len(),
        alphanumeric_char(s[j]),
        lowered(s[j]).contains(d),
    ensures
        collapsed(s).contains(d),
        sanitized(s).contains(d),
    decreases s.len(),
{
    let rest = s.drop_last();
    let before = collapsed(rest);
    let out = collapsed(s);
    let c = s.last();
    let n = before.len() as int;
    assert(c == s[s.len() - 1]);
    lemma_lowered(s[j]);
    let k = lowered(s[j]).index_of(d);
    assert(lowered(s[j])[k] == d);
    assert(d != '-');
    if j == s.len() - 1 {
        assert(out == before + lowered(c));
        assert(out[n + k] == d);
    } else {
        assert(rest[j] == s[j]);
        lemma_lowering_appears(rest, j, d);
        let m = before.index_of(d);
        assert(before[m] == d);
        assert(out[m] == d);
    }
    assert(out.contains(d));
    let m = out.index_of(d);
    assert(out[m] == d);
    if out.len() > 0 && out.last() == '-' {
        assert(m < out.len() - 1);
        assert(out.drop_last()[m] == d);
    }
}

/// A sanitized description holds no uppercase letter exactly if every
/// alphanumeric of the description lowers fully.
pub proof fn lemma_no_uppercase_iff(s: Seq<char>)
    ensures
        no_uppercase(sanitized(s)) == lowers_fully_text(s),
        is_tidy(sanitized(s)) == lowers_fully_text(s),
{
    let out = sanitized(s);
    lemma_sanitized_shape(s);
    if lowers_fully_text(s) {
        assert forall|i: int| 0 <= i < out.len() implies !uppercase_char(#[trigger] out[i]) by {
            if out[i] != '-' {
                assert(from_lowering(s, out[i]));
                let j = choose|j: int|
                    0 <= j < s.len() && #[trigger] alphanumeric_char(s[j]) && lowered(
                        s[j],
                    ).contains(out[i]);
                let k = lowered(s[j]).index_of(out[i]);
                assert(lowers_fully(s[j]));
                assert(!uppercase_char(lowered(s[j])[k]));
            }
        }
    }
    if no_uppercase(out) {
        assert forall|j: int| 0 <= j < s.len() && #[trigger] alphanumeric_char(
            s[j],
        ) implies lowers_fully(s[j]) by {
            let low = lowered(s[j]);
            assert forall|k: int| 0 <= k < low.len() implies !uppercase_char(#[trigger] low[k]) by {
                assert(low.contains(low[k]));
                lemma_lowering_appears(s, j, low[k]);
                let m = out.index_of(low[k]);
                assert(out[m] == low[k]);
            }
        }
    }
}

/// A description without any alphanumeric sanitizes to nothing, and only
/// such a description does.
pub proof fn lemma_sanitized_empty(s: Seq<char>)
    ensures
        sanitized(s).len() == 0 <==> forall|j: int|
            0 <= j < s.len() ==> !#[trigger] alphanumeric_char(s[j]),
    decreases s.len(),
{
    lemma_sanitized_shape(s);
    if exists|j: int| 0 <= j < s.len() && #[trigger] alphanumeric_char(s[j]) {
        let j = choose|j: int| 0 <= j < s.len() && #[trigger] alphanumeric_char(s[j]);
        lemma_lowered(s[j]);
        assert(lowered(s[j]).contains(lowered(s[j])[0]));
        lemma_lowering_appears(s, j, lowered(s[j])[0]);
    } else {
        let out = sanitized(s);
        if out.len() > 0 {
            assert(out[0] != '-');
            assert(from_lowering(s, out[0]));
        }
    }
}

/// The alphanumerics of `s`, in order and in lowercase.
pub open spec fn alphanumerics_of(s: Seq<char>) -> Seq<char>
    decreases s.len(),
{
    if s.len() == 0 {
        Seq::empty()
    } else if alphanumeric_char(s.last()) {
        alphanumerics_of(s.drop_last()) + lowered(s.last())
    } else {
        alphanumerics_of(s.drop_last())
    }
}

/// `s` without its hyphens.
pub open spec fn without_hyphens(s: Seq<char>) -> Seq<char>
    decreases s.len(),
{
    if s.len() == 0 {
        Seq::empty()
    } else if s.last() == '-' {
        without_hyphens(s.drop_last())
    } else {
        without_hyphens(s.drop_last()).push(s.last())
    }
}

/// Taking the hyphens out of a text leaves a tail without hyphens as it is.
proof fn lemma_without_hyphens_append(a: Seq<char>, b: Seq<char>)
    requires
        forall|k: int| 0 <= k < b.len() ==> (#[trigger] b[k]) != '-',
    ensures
        without_hyphens(a + b) == without_hyphens(a) + b,
    decreases b.len(),
{
    if b.len() == 0 {
        assert(a + b =~= a);
        assert(without_hyphens(a) + b =~= without_hyphens(a));
    } else {
        let front = b.drop_last();
        assert forall|k: int| 0 <= k < front.len() implies (#[trigger] front[k]) != '-' by {
            assert(front[k] == b[k]);
        }
        lemma_without_hyphens_append(a, front);
        assert((a + b).drop_last() =~= a + front);
        assert((a + b).last() == b[b.len() - 1]);
        assert((without_hyphens(a) + front).push(b.last()) =~= without_hyphens(a) + b);
    }
}

/// Sanitizing loses no alphanumeric and adds none: apart from its hyphens, a
/// sanitized description is the alphanumerics of the description, in
/// lowercase.
pub proof fn lemma_sanitized_keeps_alphanumerics(s: Seq<char>)
    ensures
        without_hyphens(collapsed(s)) == alphanumerics_of(s),
        without_hyphens(sanitized(s)) == alphanumerics_of(s),
    decreases s.len(),
{
    if s.len() > 0 {
        let before = collapsed(s.drop_last());
        lemma_sanitized_keeps_alphanumerics(s.drop_last());
        let c = s.last();
        if alphanumeric_char(c) {
            lemma_lowered(c);
            lemma_without_hyphens_append(before, lowered(c));
        } else if before.len() > 0 && before.last() != '-' {
            assert(before.push('-').drop_last() == before);
        }
    }
}

/// The lowercase form of `c` as it goes into a branch name.
fn lowered_chars(c: char) -> (r: Vec<char>)
    ensures
        r@ == lowered(c),
{
    let low = lowercase(c);
    let mut usable = low.len() > 0;
    let mut i: usize = 0;
    while usable && i < low.len()
        invariant
            i <= low.len(),
            usable ==> low.len() > 0 && forall|k: int| 0 <= k < i ==> low@[k] != '-',
            !usable ==> low.len() == 0 || low@.contains('-'),
        decreases low.len() - i + if usable { 1int } else { 0int },
    {
        if low[i] == '-' {
            assert(low@[i as int] == '-');
            usable = false;
        } else {
            i += 1;
        }
    }
    if usable {
        low
    } else {
        let mut own: Vec<char> = Vec::new();
        own.push(c);
        assert(own@ =~= seq![c]);
        own
    }
}

/// Sanitize free text for a branch name: the runs of letters and digits, in
/// lowercase, joined by single hyphens.
///
/// The result holds no uppercase letter unless the text holds an uppercase
/// letter that has no lowercase form.
pub fn sanitize_description(input: &str) -> (out: String)
    ensures
        out@ == sanitized(input@),
        well_hyphenated(out@),
        made_of_words(out@, input@),
        is_tidy(out@) == lowers_fully_text(input@),
{
    let v = to_chars(input);
    let mut result: Vec<char> = Vec::new();
    let mut i: usize = 0;
    while i < v.len()
        invariant
            i <= v.len(),
            result@ == collapsed(v@.take(i as int)),
        decreases v.len() - i,
    {
        let c = v[i];
        proof {
            assert(v@.take(i + 1).drop_last() == v@.take(i as int));
            assert(v@.take(i + 1).last() == c);
        }
        if c.is_alphanumeric() {
            let mut low = lowered_chars(c);
            result.append(&mut low);
        } else if result.len() > 0 && result[result.len() - 1] != '-' {
            result.push('-');
        }
        i += 1;
    }
    proof {
        assert(v@.take(v.len() as int) == v@);
        lemma_sanitized_shape(input@);
        lemma_no_uppercase_iff(input@);
    }
    if result.len() > 0 && result[result.len() - 1] == '-' {
        result.pop();
    }
    from_chars(&result)
}

/// Whether `name` is tidy: no hyphen at its ends, no two in a row, and no
/// uppercase letter.
pub fn is_tidy_name(name: &str) -> (r: bool)
    ensures
        r == is_tidy(name@),
{
    let v = to_chars(name);
    if v.len() > 0 && (v[0] == '-' || v[v.len() - 1] == '-') {
        return false;
    }
    let mut i: usize = 0;
    while i < v.len()
        invariant
            i <= v.len(),
            v@ == name@,
            forall|k: int| 0 <= k < i ==> !uppercase_char(#[trigger] v@[k]),
            forall|k: int| 0 <= k < i && k < v.len() - 1 ==> !(#[trigger] v@[k] == '-' && v@[k + 1]
                == '-'),
        decreases v.len() - i,
    {
        if v[i].is_uppercase() {
            assert(uppercase_char(v@[i as int]));
            return false;
        }
        if i + 1 < v.len() && v[i] == '-' && v[i + 1] == '-' {
            assert(v@[i as int] == '-' && v@[i as int + 1] == '-');
            return false;
        }
        i += 1;
    }
    true
}

/// The default branch of a ticket.
pub fn build_branch_name(config: &Config, ticket_id: &str, description: Option<&String>) -> (out:
    String)
    ensures
        out@ == branch_name_of(
            config.branch_prefix@,
            ticket_id@,
            match description {
                Some(d) => Some(d@),
                None => None,
            },
        ),
{
    proof {
        reveal_strlit("/");
        reveal_strlit("-");
        assert("/"@ =~= seq!['/']);
        assert("-"@ =~= seq!['-']);
    }
    let base = concat3(config.branch_prefix.as_str(), "/", ticket_id);
    match description {
        Some(desc) => {
            let clean = sanitize_description(desc.as_str());
            if crate::text::char_count(clean.as_str()) > 0 {
                concat3(base.as_str(), "-", clean.as_str())
            } else {
                base
            }
        },
        None => base,
    }
}

/// What a tidy branch name takes of the prefix and the ticket id: neither
/// holds an uppercase letter or two `-` in a row, the prefix does not start
/// with `-` and the ticket id does not end with one.
pub open spec fn tidy_parts(prefix: Seq<char>, ticket_id: Seq<char>) -> bool {
    &&& no_uppercase(prefix)
    &&& no_uppercase(ticket_id)
    &&& forall|i: int|
        0 <= i < prefix.len() - 1 ==> !(#[trigger] prefix[i] == '-' && prefix[i + 1] == '-')
    &&& forall|i: int|
        0 <= i < ticket_id.len() - 1 ==> !(#[trigger] ticket_id[i] == '-' && ticket_id[i + 1]
            == '-')
    &&& prefix.len() > 0 ==> prefix[0] != '-'
    &&& ticket_id.len() > 0 ==> ticket_id.last() != '-'
}

/// What a tidy branch name takes of the description: every one of its
/// alphanumerics lowers fully.
pub open spec fn tidy_description(description: Option<Seq<char>>) -> bool {
    match description {
        Some(d) => lowers_fully_text(d),
        None => true,
    }
}

/// A branch name has no `-` at its ends, no two `-` in a row and no
/// uppercase letter whenever the prefix and the ticket id are so formed and
/// the description holds no uppercase letter without a lowercase form.
pub proof fn lemma_branch_name_is_tidy(
    prefix: Seq<char>,
    ticket_id: Seq<char>,
    description: Option<Seq<char>>,
)
    requires
        tidy_parts(prefix, ticket_id),
        tidy_description(description),
    ensures
        is_tidy(branch_name_of(prefix, ticket_id, description)),
{
    let base = prefix + seq!['/'] + ticket_id;
    let p = prefix.len() as int;
    assert(base.len() == p + 1 + ticket_id.len());
    assert(base[p] == '/');
    assert forall|i: int| 0 <= i < base.len() implies !uppercase_char(#[trigger] base[i]) by {
        if i < p {
            assert(base[i] == prefix[i]);
        } else if i > p {
            assert(base[i] == ticket_id[i - p - 1]);
        }
    }
    assert forall|i: int| 0 <= i < base.len() - 1 implies !(#[trigger] base[i] == '-' && base[i
        + 1] == '-') by {
        if i + 1 < p {
            assert(base[i] == prefix[i]);
            assert(base[i + 1] == prefix[i + 1]);
            assert(!(prefix[i] == '-' && prefix[i + 1] == '-'));
        } else if i > p {
            assert(base[i] == ticket_id[i - p - 1]);
            assert(base[i + 1] == ticket_id[i - p - 1 + 1]);
            assert(!(ticket_id[i - p - 1] == '-' && ticket_id[i - p - 1 + 1] == '-'));
        }
    }
    if p > 0 {
        assert(base[0] == prefix[0]);
    }
    if ticket_id.len() > 0 {
        assert(base.last() == ticket_id.last());
    }
    assert(is_tidy(base));
    match description {
        Some(d) => {
            let t = sanitized(d);
            lemma_sanitized_shape(d);
            lemma_no_uppercase_iff(d);
            if t.len() > 0 {
                let full = base + seq!['-'] + t;
                let b = base.len() as int;
                assert(full.len() == b + 1 + t.len());
                assert(full[b] == '-');
                assert(full[0] == base[0]);
                assert(full.last() == t.last());
                assert forall|i: int| 0 <= i < full.len() implies !uppercase_char(
                    #[trigger] full[i],
                ) by {
                    if i < b {
                        assert(full[i] == base[i]);
                    } else if i > b {
                        assert(full[i] == t[i - b - 1]);
                    }
                }
                assert forall|i: int| 0 <= i < full.len() - 1 implies !(#[trigger] full[i] == '-'
                    && full[i + 1] == '-') by {
                    if i + 1 < b {
                        assert(full[i] == base[i]);
                        assert(full[i + 1] == base[i + 1]);
                        assert(!(base[i] == '-' && base[i + 1] == '-'));
                    } else if i + 1 == b {
                        assert(full[i] == base.last());
                    } else if i == b {
                        assert(full[i + 1] == t[0]);
                    } else {
                        assert(full[i] == t[i - b - 1]);
                        assert(full[i + 1] == t[i - b - 1 + 1]);
                        assert(!(t[i - b - 1] == '-' && t[i - b - 1 + 1] == '-'));
                    }
                }
            }
        },
        None => {},
    }
}

/// Conversely, a tidy branch name has tidy parts and a description that
/// lowers fully: the conditions of `lemma_branch_name_is_tidy` leave out no
/// input that they need not.
pub proof fn lemma_tidy_branch_has_tidy_parts(
    prefix: Seq<char>,
    ticket_id: Seq<char>,
    description: Option<Seq<char>>,
)
    requires
        is_tidy(branch_name_of(prefix, ticket_id, description)),
    ensures
        tidy_parts(prefix, ticket_id),
        tidy_description(description),
{
    let base = prefix + seq!['/'] + ticket_id;
    let full = branch_name_of(prefix, ticket_id, description);
    let p = prefix.len() as int;
    let b = base.len() as int;
    assert(b == p + 1 + ticket_id.len());
    assert(base.is_prefix_of(full)) by {
        match description {
            Some(d) => {
                if sanitized(d).len() > 0 {
                    assert(full == base + seq!['-'] + sanitized(d));
                    assert(full.subrange(0, b) =~= base);
                }
            },
            None => {},
        }
    }
    assert forall|i: int| 0 <= i < b implies full[i] == #[trigger] base[i] by {}
    assert forall|i: int| 0 <= i < prefix.len() implies !uppercase_char(#[trigger] prefix[i]) by {
        assert(base[i] == prefix[i]);
        assert(!uppercase_char(full[i]));
    }
    assert forall|i: int| 0 <= i < ticket_id.len() implies !uppercase_char(
        #[trigger] ticket_id[i],
    ) by {
        assert(base[p + 1 + i] == ticket_id[i]);
        assert(!uppercase_char(full[p + 1 + i]));
    }
    assert forall|i: int| 0 <= i < prefix.len() - 1 implies !(#[trigger] prefix[i] == '-'
        && prefix[i + 1] == '-') by {
        assert(base[i] == prefix[i]);
        assert(base[i + 1] == prefix[i + 1]);
        assert(!(full[i] == '-' && full[i + 1] == '-'));
    }
    assert forall|i: int| 0 <= i < ticket_id.len() - 1 implies !(#[trigger] ticket_id[i] == '-'
        && ticket_id[i + 1] == '-') by {
        assert(base[p + 1 + i] == ticket_id[i]);
        assert(base[p + 1 + i + 1] == ticket_id[i + 1]);
        assert(!(full[p + 1 + i] == '-' && full[p + 1 + i + 1] == '-'));
    }
    if p > 0 {
        assert(base[0] == prefix[0]);
        assert(full[0] != '-');
    }
    if ticket_id.len() > 0 {
        assert(base[b - 1] == ticket_id.last());
        if full.len() == b {
            assert(full.last() == full[b - 1]);
        } else {
            assert(full[b] == '-');
            assert(!(full[b - 1] == '-' && full[b - 1 + 1] == '-'));
        }
    }
    match description {
        Some(d) => {
            let t = sanitized(d);
            lemma_no_uppercase_iff(d);
            if t.len() > 0 {
                assert forall|i: int| 0 <= i < t.len() implies !uppercase_char(#[trigger] t[i]) by {
                    assert(full[b + 1 + i] == t[i]);
                }
            }
        },
        None => {},
    }
}

// ---------------------------------------------------------------------------
// Where a ticket lives
// ---------------------------------------------------------------------------

/// The file whose presence marks `dir` as a ticket's root.
pub open spec fn marker_path_of(dir: Seq<char>) -> Seq<char> {
    join_of(join_of(dir, ".tix"@), "info.toml"@)
}

/// The file whose presence marks `dir` as a ticket's root.
pub fn marker_path(dir: &str) -> (out: String)
    ensures
        out@ == marker_path_of(dir@),
{
    let stamp = join(dir, ".tix");
    join(stamp.as_str(), "info.toml")
}

/// The first of `candidates` that is marked, if any is.
pub open spec fn first_marked_of(candidates: Seq<Seq<char>>, marked: Seq<bool>) -> Option<
    Seq<char>,
>
    decreases candidates.len(),
{
    if candidates.len() == 0 || marked.len() == 0 {
        None
    } else if marked[0] {
        Some(candidates[0])
    } else {
        first_marked_of(candidates.drop_first(), marked.drop_first())
    }
}

/// The directories in which a ticket's marker is looked for, nearest first:
/// `cwd` and the directories above it, up to the one that has no parent.
/// (No more of them are followed than `cwd` has characters.)
pub fn ticket_root_candidates(cwd: &str) -> (out: Vec<String>)
    ensures
        1 <= out@.len() <= cwd@.len() + 1,
        out@[0]@ == cwd@,
        forall|i: int|
            0 <= i < out@.len() - 1 ==> crate::paths::path_parent(#[trigger] out@[i]@) == Some(
                out@[i + 1]@,
            ),
        crate::paths::path_parent(out@.last()@) is None || out@.len() == cwd@.len() + 1,
{
    let mut out: Vec<String> = Vec::new();
    let mut current = copy_str(cwd);
    let limit: usize = crate::text::char_count(cwd);
    let mut followed: usize = 0;
    out.push(current.clone());
    while followed < limit
        invariant
            followed <= limit,
            limit == cwd@.len(),
            out@.len() == followed + 1,
            out@[0]@ == cwd@,
            out@.last() == current,
            forall|i: int|
                0 <= i < out@.len() - 1 ==> crate::paths::path_parent(#[trigger] out@[i]@) == Some(
                    out@[i + 1]@,
                ),
        decreases limit - followed,
    {
        match parent(current.as_str()) {
            Some(up) => {
                current = up;
                out.push(current.clone());
            },
            None => {
                return out;
            },
        }
        followed += 1;
    }
    out
}

/// The first candidate whose marker was found on disk.
pub fn first_marked(candidates: &Vec<String>, marked: &Vec<bool>) -> (r: Option<String>)
    ensures
        r is Some == first_marked_of(crate::text::views(candidates@), marked@) is Some,
        r is Some ==> r->0@ == first_marked_of(crate::text::views(candidates@), marked@)->0,
{
    let ghost cs = crate::text::views(candidates@);
    let mut i: usize = 0;
    proof {
        assert(cs.skip(0) == cs);
        assert(marked@.skip(0) == marked@);
    }
    while i < candidates.len() && i < marked.len()
        invariant
            i <= candidates.len(),
            i <= marked.len(),
            cs == crate::text::views(candidates@),
            first_marked_of(cs, marked@) == first_marked_of(
                cs.skip(i as int),
                marked@.skip(i as int),
            ),
        decreases candidates.len() - i,
    {
        proof {
            assert(cs.skip(i as int).drop_first() == cs.skip(i + 1));
            assert(marked@.skip(i as int).drop_first() == marked@.skip(i + 1));
        }
        if marked[i] {
            return Some(candidates[i].clone());
        }
        i += 1;
    }
    None
}

/// The root of the ticket that a command works on: the ticket's directory
/// under the tickets directory where an id is given, else the directory that
/// was found by walking up from the working directory.
pub fn locate_ticket_root(ticket: Option<&str>, config: &Config, inferred: Option<&str>) -> (r:
    Result<String, TixError>)
    ensures
        match ticket {
            Some(id) => r is Ok && r->Ok_0@ == join_of(config.tickets_directory@, id@),
            None => match inferred {
                Some(dir) => r is Ok && r->Ok_0@ == dir@,
                None => r is Err && r->Err_0.kind == ErrorKind::NotFound && r->Err_0.detail@
                    == "ticket"@,
            },
        },
{
    match ticket {
        Some(id) => Ok(join(config.tickets_directory.as_str(), id)),
        None => match inferred {
            Some(dir) => Ok(copy_str(dir)),
            None => Err(TixError::new(ErrorKind::NotFound, "ticket")),
        },
    }
}

} // verus!
