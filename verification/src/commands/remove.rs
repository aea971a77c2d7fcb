//! Removing the worktree of one repository from a ticket.

use vstd::prelude::*;
use crate::commands::common::branch_name_of;
use crate::commands::common::build_branch_name;
use crate::config::Config;
use crate::error::ErrorKind;
use crate::error::TixError;
use crate::paths::join;
use crate::paths::join_of;
use crate::ticket::MetadataView;
use crate::ticket::Ticket;
use crate::ticket::TicketMetadata;
use crate::ticket::worktree_name_for_branch;
use crate::ticket::worktree_name_of;

verus! {

/// What removing a repository comes to, in this order: delete the
/// directory, prune the backend's record, drop the alias from the ticket's
/// record.
#[derive(Debug)]
pub struct RemovePlan {
    /// The worktree's directory, to delete.
    pub target_path: String,
    /// The repository whose worktree record is pruned.
    pub repo_path: String,
    /// The name of that record.
    pub worktree_name: String,
    /// Whether the name was recorded; the caller warns where it was derived.
    pub name_was_stored: bool,
    /// The ticket as loaded.
    pub ticket: Ticket,
}

/// The name of the worktree record of `alias`: the recorded one, else the
/// worktree name of the recorded branch, else that of the derived branch.
pub open spec fn removal_name(record: MetadataView, alias: Seq<char>, prefix: Seq<char>) -> Seq<
    char,
> {
    if record.repo_worktrees.dom().contains(alias) {
        record.repo_worktrees[alias]
    } else if record.repo_branches.dom().contains(alias) {
        worktree_name_of(record.repo_branches[alias])
    } else {
        worktree_name_of(branch_name_of(prefix, record.id, record.description))
    }
}

/// Why a repository cannot be removed, if it cannot: no record, an alias
/// that is not registered, no worktree directory, a working tree whose state
/// could not be read, or one with changes that are not committed. Nothing
/// overrides the last two.
pub open spec fn remove_refusal(
    config: Config,
    alias: Seq<char>,
    ticket_root: Seq<char>,
    has_record: bool,
    target_exists: bool,
    clean: Option<bool>,
) -> Option<(ErrorKind, Seq<char>)> {
    if !has_record {
        Some((ErrorKind::NotFound, ticket_root))
    } else if !config.repositories@.dom().contains(alias) {
        Some((ErrorKind::NotFound, alias))
    } else if !target_exists {
        Some((ErrorKind::NotFound, join_of(ticket_root, alias)))
    } else {
        match clean {
            None => Some((ErrorKind::Io, join_of(ticket_root, alias))),
            Some(false) => Some((ErrorKind::DirtyWorkingTree, join_of(ticket_root, alias))),
            Some(true) => None,
        }
    }
}

/// Plans the removal of `repo_alias` from the ticket at `ticket_root`.
/// `clean` is what the clean check of the worktree gave, `None` where it
/// failed.
pub fn run(
    config: &Config,
    repo_alias: &str,
    ticket_root: &str,
    stored: Option<TicketMetadata>,
    target_exists: bool,
    clean: Option<bool>,
) -> (r: Result<RemovePlan, TixError>)
    ensures
        match remove_refusal(
            *config,
            repo_alias@,
            ticket_root@,
            stored is Some,
            target_exists,
            clean,
        ) {
            Some((kind, detail)) => r is Err && r->Err_0.kind == kind && r->Err_0.detail@
                == detail,
            None => r is Ok && ({
                let plan = r->Ok_0;
                let record = stored->0@.healed();
                &&& plan.ticket.root@ == ticket_root@
                &&& plan.ticket.metadata@ == record
                &&& plan.target_path@ == join_of(ticket_root@, repo_alias@)
                &&& plan.repo_path@ == config.repositories@[repo_alias@].path@
                &&& plan.worktree_name@ == removal_name(
                    record,
                    repo_alias@,
                    config.branch_prefix@,
                )
                &&& plan.name_was_stored == record.repo_worktrees.dom().contains(repo_alias@)
            }),
        },
{
    let ticket = match Ticket::load(ticket_root, stored) {
        Ok(t) => t,
        Err(e) => {
            return Err(e);
        },
    };
    let definition = match config.repositories.get(repo_alias) {
        Some(d) => d,
        None => {
            return Err(TixError::new(ErrorKind::NotFound, repo_alias));
        },
    };
    let target_path = join(ticket_root, repo_alias);
    if !target_exists {
        return Err(TixError { kind: ErrorKind::NotFound, detail: target_path });
    }
    match clean {
        None => {
            return Err(TixError { kind: ErrorKind::Io, detail: target_path });
        },
        Some(false) => {
            return Err(TixError { kind: ErrorKind::DirtyWorkingTree, detail: target_path });
        },
        Some(true) => {},
    }
    let stored_name = ticket.metadata.repo_worktrees.get_text(repo_alias);
    let name_was_stored = stored_name.is_some();
    let worktree_name = match stored_name {
        Some(n) => n.clone(),
        None => {
            let branch = match ticket.metadata.repo_branches.get_text(repo_alias) {
                Some(b) => b.clone(),
                None => build_branch_name(
                    config,
                    ticket.metadata.id.as_str(),
                    ticket.metadata.description.as_ref(),
                ),
            };
            worktree_name_for_branch(branch.as_str())
        },
    };
    Ok(
        RemovePlan {
            target_path,
            repo_path: definition.path.clone(),
            worktree_name,
            name_was_stored,
            ticket,
        },
    )
}

/// One step of carrying a removal out.
#[derive(Clone, Copy, Debug, PartialEq, Eq, Structural)]
pub enum RemoveStage {
    /// Delete the worktree's directory.
    DeleteDirectory,
    /// Prune the backend's record.
    Prune,
    /// Drop the alias from the ticket's record.
    UpdateRecord,
    /// Done.
    Finished,
    /// The directory or the record could not be changed.
    Failed,
}

/// The stage after `stage`, which went well (`ok`) or not. A record that
/// cannot be pruned does not stop the removal: the caller logs it and goes
/// on.
pub open spec fn stage_next(stage: RemoveStage, ok: bool) -> RemoveStage {
    match stage {
        RemoveStage::DeleteDirectory => if ok {
            RemoveStage::Prune
        } else {
            RemoveStage::Failed
        },
        RemoveStage::Prune => RemoveStage::UpdateRecord,
        RemoveStage::UpdateRecord => if ok {
            RemoveStage::Finished
        } else {
            RemoveStage::Failed
        },
        RemoveStage::Finished => stage,
        RemoveStage::Failed => stage,
    }
}

/// The stage after `stage`.
pub fn advance(stage: RemoveStage, ok: bool) -> (next: RemoveStage)
    ensures
        next == stage_next(stage, ok),
{
    match stage {
        RemoveStage::DeleteDirectory => if ok {
            RemoveStage::Prune
        } else {
            RemoveStage::Failed
        },
        RemoveStage::Prune => RemoveStage::UpdateRecord,
        RemoveStage::UpdateRecord => if ok {
            RemoveStage::Finished
        } else {
            RemoveStage::Failed
        },
        RemoveStage::Finished => RemoveStage::Finished,
        RemoveStage::Failed => RemoveStage::Failed,
    }
}

/// A worktree that was made for a repository of a fresh ticket is pruned
/// under the name it was made with, even where the record holds no name for
/// it: both names are derived from the recorded branch in the same way.
pub proof fn lemma_removal_name_matches_creation(
    record: MetadataView,
    alias: Seq<char>,
    prefix: Seq<char>,
)
    requires
        record.repo_branches.dom().contains(alias),
        !record.repo_worktrees.dom().contains(alias),
    ensures
        removal_name(record, alias, prefix) == worktree_name_of(record.repo_branches[alias]),
        removal_name(
            record.with_worktree(alias, worktree_name_of(record.repo_branches[alias])),
            alias,
            prefix,
        ) == removal_name(record, alias, prefix),
{
}

} // verus!
