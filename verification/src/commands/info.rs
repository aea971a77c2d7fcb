//! Showing what a ticket is about.

use vstd::prelude::*;
use crate::text::concat2;
use crate::text::concat3;
use crate::ticket::TicketMetadata;

verus! {

/// The line that describes a ticket: its id in brackets, then its
/// description, if it has one.
pub open spec fn info_line_of(id: Seq<char>, description: Option<Seq<char>>) -> Seq<char> {
    "["@ + id + "] "@ + match description {
        Some(d) => d,
        None => Seq::empty(),
    }
}

/// The line that describes the ticket of `metadata`.
pub fn run(metadata: &TicketMetadata) -> (line: String)
    ensures
        line@ == info_line_of(metadata.id@, crate::text::opt_view(metadata.description)),
{
    let head = concat3("[", metadata.id.as_str(), "] ");
    match &metadata.description {
        Some(d) => concat2(head.as_str(), d.as_str()),
        None => {
            assert(head@ + Seq::<char>::empty() =~= head@);
            head
        },
    }
}

} // verus!
