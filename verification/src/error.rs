//! The errors that the operations of this crate report.

use vstd::prelude::*;
use crate::text::concat3;
use crate::text::copy_str;

verus! {

/// What went wrong, by kind.
#[derive(Clone, Copy, Debug, PartialEq, Eq, Structural)]
pub enum ErrorKind {
    /// A setting that the operation needs is empty.
    NotConfigured,
    /// A ticket, an alias, a revision or a worktree is not there.
    NotFound,
    /// The target is already there and is not overwritten.
    AlreadyExists,
    /// A working tree holds changes that are not committed.
    DirtyWorkingTree,
    /// Every way to authenticate to a remote has been tried.
    AuthenticationFailed,
    /// An argument is empty or malformed.
    InvalidInput,
    /// The working directory lies inside the ticket that is to be destroyed.
    InsideTicket,
    /// The file system or the git backend failed.
    Io,
}

/// An error: its kind, and the thing it is about (a path, an alias, a key).
#[derive(Debug)]
pub struct TixError {
    pub kind: ErrorKind,
    pub detail: String,
}

/// The words that introduce an error of each kind.
pub open spec fn kind_label(kind: ErrorKind) -> Seq<char> {
    match kind {
        ErrorKind::NotConfigured => "not configured"@,
        ErrorKind::NotFound => "not found"@,
        ErrorKind::AlreadyExists => "already exists"@,
        ErrorKind::DirtyWorkingTree => "uncommitted changes"@,
        ErrorKind::AuthenticationFailed => "authentication failed"@,
        ErrorKind::InvalidInput => "invalid input"@,
        ErrorKind::InsideTicket => "refusing to destroy the ticket you are in"@,
        ErrorKind::Io => "operation failed"@,
    }
}

impl TixError {
    /// The error of `kind` about `detail`.
    pub fn new(kind: ErrorKind, detail: &str) -> (e: TixError)
        ensures
            e.kind == kind,
            e.detail@ == detail@,
    {
        TixError { kind, detail: copy_str(detail) }
    }

    /// The error in one line: the kind's label, a colon, the detail.
    pub fn message(&self) -> (m: String)
        ensures
            m@ == kind_label(self.kind) + ": "@ + self.detail@,
    {
        let label = match self.kind {
            ErrorKind::NotConfigured => "not configured",
            ErrorKind::NotFound => "not found",
            ErrorKind::AlreadyExists => "already exists",
            ErrorKind::DirtyWorkingTree => "uncommitted changes",
            ErrorKind::AuthenticationFailed => "authentication failed",
            ErrorKind::InvalidInput => "invalid input",
            ErrorKind::InsideTicket => "refusing to destroy the ticket you are in",
            ErrorKind::Io => "operation failed",
        };
        concat3(label, ": ", self.detail.as_str())
    }
}

} // verus!
