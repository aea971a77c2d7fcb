//! Paths as text.
//!
//! A path is a string whose components are separated by `/`. Joining and the
//! test for an absolute path are a few lines and are proved here. What takes
//! the component rules of `std::path` (prefix tests, parents) is asked of
//! `std::path` itself, and this module only names the answers.

use vstd::prelude::*;
use crate::text::concat2;
use crate::text::concat3;
use crate::text::copy_str;
use crate::text::to_chars;

verus! {

/// Whether `p` starts at the root.
pub open spec fn is_absolute_path(p: Seq<char>) -> bool {
    p.len() > 0 && p[0] == '/'
}

/// `rel` appended to `base`: an absolute `rel` replaces `base`; otherwise one
/// `/` stands between the two unless `base` is empty or already ends in one.
pub open spec fn join_of(base: Seq<char>, rel: Seq<char>) -> Seq<char> {
    if is_absolute_path(rel) {
        rel
    } else if base.len() == 0 || base.last() == '/' {
        base + rel
    } else {
        base + seq!['/'] + rel
    }
}

/// Whether `p` starts at the root.
pub fn is_absolute(p: &str) -> (r: bool)
    ensures
        r == is_absolute_path(p@),
{
    let v = to_chars(p);
    v.len() > 0 && v[0] == '/'
}

/// `rel` appended to `base`.
pub fn join(base: &str, rel: &str) -> (out: String)
    ensures
        out@ == join_of(base@, rel@),
{
    let b = to_chars(base);
    if is_absolute(rel) {
        copy_str(rel)
    } else if b.len() == 0 || b[b.len() - 1] == '/' {
        concat2(base, rel)
    } else {
        proof {
            reveal_strlit("/");
            assert("/"@ =~= seq!['/']);
        }
        concat3(base, "/", rel)
    }
}

/// Whether `base` is a prefix of `path`, component by component, as
/// `Path::starts_with` decides it.
pub uninterp spec fn path_starts_with(path: Seq<char>, base: Seq<char>) -> bool;

/// `path` without its last component, as `Path::parent` gives it; `None` for
/// a root or an empty path.
pub uninterp spec fn path_parent(path: Seq<char>) -> Option<Seq<char>>;

/// What is left of `path` after the components of `base`, as
/// `Path::strip_prefix` gives it; `None` where `base` is no prefix.
pub uninterp spec fn path_strip_prefix(path: Seq<char>, base: Seq<char>) -> Option<Seq<char>>;

/// Calls `std::path::Path::starts_with`. The answer is only named: it follows
/// the component rules of `std::path` (repeated separators and `.` do not
/// count), and depends on the two paths alone.
#[verifier::external_body]
pub(crate) fn starts_with(path: &str, base: &str) -> (r: bool)
    ensures
        r == path_starts_with(path@, base@),
{
    std::path::Path::new(path).starts_with(std::path::Path::new(base))
}

/// Calls `std::path::Path::parent`. The answer is only named; it depends on
/// the path alone.
#[verifier::external_body]
pub(crate) fn parent(path: &str) -> (r: Option<String>)
    ensures
        r is Some == path_parent(path@) is Some,
        r is Some ==> r->0@ == path_parent(path@)->0,
{
    std::path::Path::new(path).parent().map(|p| p.to_string_lossy().into_owned())
}

/// Calls `std::path::Path::strip_prefix`. The answer is only named; it
/// depends on the two paths alone.
#[verifier::external_body]
pub(crate) fn strip_prefix(path: &str, base: &str) -> (r: Option<String>)
    ensures
        r is Some == path_strip_prefix(path@, base@) is Some,
        r is Some ==> r->0@ == path_strip_prefix(path@, base@)->0,
{
    std::path::Path::new(path).strip_prefix(std::path::Path::new(base)).ok().map(
        |p| p.to_string_lossy().into_owned(),
    )
}

/// Whether a `..` stands in `p` as a whole component at index `i`.
pub open spec fn parent_dir_at(p: Seq<char>, i: int) -> bool {
    &&& 0 <= i && i + 2 <= p.len()
    &&& p[i] == '.' && p[i + 1] == '.'
    &&& (i == 0 || p[i - 1] == '/')
    &&& (i + 2 == p.len() || p[i + 2] == '/')
}

/// Whether one of the components of `p` is `..`.
pub open spec fn has_parent_dir_of(p: Seq<char>) -> bool {
    exists|i: int| parent_dir_at(p, i)
}

/// Whether one of the components of `path` is `..`.
pub fn has_parent_dir(path: &str) -> (r: bool)
    ensures
        r == has_parent_dir_of(path@),
{
    let v = to_chars(path);
    if v.len() < 2 {
        return false;
    }
    let mut i: usize = 0;
    while i <= v.len() - 2
        invariant
            i <= v.len() - 1,
            v.len() >= 2,
            v@ == path@,
            forall|k: int| 0 <= k < i ==> !parent_dir_at(v@, k),
        decreases v.len() - i,
    {
        let starts = i == 0 || v[i - 1] == '/';
        let ends = i + 2 == v.len() || v[i + 2] == '/';
        if v[i] == '.' && v[i + 1] == '.' && starts && ends {
            assert(parent_dir_at(v@, i as int));
            return true;
        }
        i += 1;
    }
    false
}

/// The home directory of the current user, from `home::home_dir`. It comes
/// from the environment, so nothing is promised of it.
#[verifier::external_body]
pub(crate) fn home_directory() -> (home: Option<String>) {
    home::home_dir().map(|p| p.to_string_lossy().into_owned())
}

/// `input` with a leading `~/` replaced by the home directory, where one is
/// known; any other input as it stands.
pub open spec fn expanded_of(input: Seq<char>, home: Option<Seq<char>>) -> Seq<char> {
    match (crate::text::strip_prefix_of(input, "~/"@), home) {
        (Some(rest), Some(h)) => join_of(h, rest),
        _ => input,
    }
}

/// Expands a leading `~/` against the given home directory.
pub fn expand_path_with(input: &str, home: Option<&str>) -> (out: String)
    ensures
        out@ == expanded_of(
            input@,
            match home {
                Some(h) => Some(h@),
                None => None,
            },
        ),
{
    match crate::text::strip_prefix(input, "~/") {
        Some(rest) => match home {
            Some(h) => join(h, rest.as_str()),
            None => copy_str(input),
        },
        None => copy_str(input),
    }
}

/// Expands a leading `~/` against the home directory of the current user.
pub fn expand_path(input: &str) -> (out: String)
    ensures
        exists|home: Option<Seq<char>>| out@ == expanded_of(input@, home),
        crate::text::strip_prefix_of(input@, "~/"@) is None ==> out@ == input@,
{
    let home = home_directory();
    match &home {
        Some(h) => {
            let out = expand_path_with(input, Some(h.as_str()));
            assert(out@ == expanded_of(input@, Some(h@)));
            out
        },
        None => {
            let out = expand_path_with(input, None);
            assert(out@ == expanded_of(input@, None));
            out
        },
    }
}

/// `path` as shown to the user: `~/` and what follows the home directory
/// where the path lies in it, else the path as it stands.
pub open spec fn home_relative_of(path: Seq<char>, home: Option<Seq<char>>) -> Seq<char> {
    match home {
        Some(h) => match path_strip_prefix(path, h) {
            Some(rest) => "~/"@ + rest,
            None => path,
        },
        None => path,
    }
}

/// Shortens `path` against the given home directory.
pub fn format_path_with(path: &str, home: Option<&str>) -> (out: String)
    ensures
        out@ == home_relative_of(
            path@,
            match home {
                Some(h) => Some(h@),
                None => None,
            },
        ),
{
    match home {
        Some(h) => match strip_prefix(path, h) {
            Some(rest) => concat2("~/", rest.as_str()),
            None => copy_str(path),
        },
        None => copy_str(path),
    }
}

} // verus!
