//! Listing the tickets: how a row is shown.

use vstd::prelude::*;
use crate::config::Config;
use crate::paths::format_path_with;
use crate::paths::home_directory;
use crate::paths::home_relative_of;
use crate::text::concat3;
use crate::text::from_chars_range;
use crate::text::to_chars;
use crate::text::trim_end;
use crate::text::trim_end_of;
use crate::ticket::TicketMetadata;

verus! {

/// `s` cut to at most `max_len` characters; where there is room for it, the
/// cut is shown by three dots at the end.
pub open spec fn truncated(s: Seq<char>, max_len: nat) -> Seq<char> {
    if max_len == 0 {
        Seq::empty()
    } else if s.len() <= max_len {
        s
    } else if max_len > 3 {
        s.take(max_len - 3) + "..."@
    } else {
        s.take(max_len as int)
    }
}

/// Truncates `s` to at most `max_len` characters.
pub fn truncate(s: &str, max_len: usize) -> (out: String)
    ensures
        out@ == truncated(s@, max_len as nat),
        out@.len() <= max_len,
{
    proof {
        reveal_strlit("...");
    }
    if max_len == 0 {
        return String::new();
    }
    let v = to_chars(s);
    if v.len() <= max_len {
        let out = from_chars_range(&v, 0, v.len());
        assert(v@.subrange(0, v.len() as int) == v@);
        out
    } else if max_len > 3 {
        let head = from_chars_range(&v, 0, max_len - 3);
        assert(v@.subrange(0, max_len - 3) == v@.take(max_len - 3));
        crate::text::concat2(head.as_str(), "...")
    } else {
        let out = from_chars_range(&v, 0, max_len);
        assert(v@.subrange(0, max_len as int) == v@.take(max_len as int));
        out
    }
}

/// The link to a ticket in the issue tracker: nothing where no base is
/// configured.
pub open spec fn jira_link_of(base: Option<Seq<char>>, ticket_id: Seq<char>) -> Seq<char> {
    match base {
        Some(b) => trim_end_of(b, '/', '/') + "/"@ + ticket_id,
        None => Seq::empty(),
    }
}

/// The link to the ticket `ticket_id` in the issue tracker.
pub fn format_jira_link(config: &Config, ticket_id: &str) -> (out: String)
    ensures
        out@ == jira_link_of(crate::text::opt_view(config.jira_base_url), ticket_id@),
{
    match &config.jira_base_url {
        Some(base) => concat3(trim_end(base.as_str(), '/', '/').as_str(), "/", ticket_id),
        None => String::new(),
    }
}

/// `path` with the home directory of the current user shown as `~`.
pub fn format_path_with_home(path: &str) -> (out: String)
    ensures
        exists|home: Option<Seq<char>>| out@ == home_relative_of(path@, home),
{
    let home = home_directory();
    match &home {
        Some(h) => {
            let out = format_path_with(path, Some(h.as_str()));
            assert(out@ == home_relative_of(path@, Some(h@)));
            out
        },
        None => {
            let out = format_path_with(path, None);
            assert(out@ == home_relative_of(path@, None));
            out
        },
    }
}

/// The order in which the tickets are listed: by id, tickets with one id in
/// the order in which they were found. The result holds the positions of
/// `ids`.
pub fn order_by_id(ids: &Vec<String>) -> (order: Vec<usize>)
    ensures
        crate::text::lists_each_below(order@, ids@.len() as int),
        forall|i: int, j: int|
            0 <= i < j < order@.len() ==> crate::text::lex_le(
                crate::text::views(ids@)[order@[i] as int],
                crate::text::views(ids@)[order@[j] as int],
            ),
        forall|i: int, j: int|
            0 <= i < j < order@.len() && crate::text::views(ids@)[order@[i] as int]
                == crate::text::views(ids@)[order@[j] as int] ==> order@[i] < order@[j],
{
    crate::text::sorted_positions(ids)
}

/// A row of the list.
#[derive(Debug)]
pub struct ListRow {
    pub ticket: String,
    pub description: String,
    pub path: String,
    pub link: String,
}

/// The row of the ticket at `path`: description and path cut to 40
/// characters.
pub fn row(config: &Config, path: &str, metadata: &TicketMetadata, home: Option<&str>) -> (r: ListRow)
    ensures
        r.ticket@ == metadata.id@,
        r.description@ == truncated(
            match metadata.description {
                Some(d) => d@,
                None => Seq::empty(),
            },
            40,
        ),
        r.path@ == truncated(
            home_relative_of(path@, crate::text::str_opt_view(home)),
            40,
        ),
        r.link@ == jira_link_of(crate::text::opt_view(config.jira_base_url), metadata.id@),
{
    let description = match &metadata.description {
        Some(d) => truncate(d.as_str(), 40),
        None => String::new(),
    };
    let shown = format_path_with(path, home);
    ListRow {
        ticket: metadata.id.clone(),
        description,
        path: truncate(shown.as_str(), 40),
        link: format_jira_link(config, metadata.id.as_str()),
    }
}

} // verus!
