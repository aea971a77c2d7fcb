//! Adding the worktree of one more repository to a ticket.

use vstd::prelude::*;
use crate::commands::common::branch_name_of;
use crate::commands::common::build_branch_name;
use crate::commands::setup::WorktreeJob;
use crate::commands::setup::job_is_for;
use crate::config::Config;
use crate::error::ErrorKind;
use crate::error::TixError;
use crate::paths::join;
use crate::paths::join_of;
use crate::text::char_count;
use crate::text::copy_str;
use crate::ticket::MetadataView;
use crate::ticket::Ticket;
use crate::ticket::TicketMetadata;
use crate::ticket::worktree_name_for_branch;

verus! {

/// What adding a repository comes to.
#[derive(Debug)]
pub struct AddPlan {
    /// The worktree to make.
    pub job: WorktreeJob,
    /// What a new branch starts from, if the caller chose it.
    pub base_ref: Option<String>,
    /// Whether the record held a branch for this repository; the caller
    /// warns where it did not.
    pub branch_was_stored: bool,
    /// The ticket as loaded.
    pub ticket: Ticket,
}

/// The branch of a repository that is added: the one recorded for it, else
/// the ticket's, else the one derived from the ticket's id and description.
pub open spec fn branch_for(record: MetadataView, alias: Seq<char>, prefix: Seq<char>) -> Seq<char> {
    if record.repo_branches.dom().contains(alias) {
        record.repo_branches[alias]
    } else if record.branch.len() > 0 {
        record.branch
    } else {
        branch_name_of(prefix, record.id, record.description)
    }
}

/// Why a repository cannot be added, if it cannot: the ticket's directory or
/// its record is missing, the alias is not registered, or the worktree's
/// directory is already there.
pub open spec fn add_refusal(
    config: Config,
    alias: Seq<char>,
    ticket_root: Seq<char>,
    ticket_exists: bool,
    has_record: bool,
    target_exists: bool,
) -> Option<(ErrorKind, Seq<char>)> {
    if !ticket_exists || !has_record {
        Some((ErrorKind::NotFound, ticket_root))
    } else if !config.repositories@.dom().contains(alias) {
        Some((ErrorKind::NotFound, alias))
    } else if target_exists {
        Some((ErrorKind::AlreadyExists, join_of(ticket_root, alias)))
    } else {
        None
    }
}

/// Plans the addition of `repo_alias` to the ticket at `ticket_root`.
pub fn run(
    config: &Config,
    repo_alias: &str,
    ticket_root: &str,
    ticket_exists: bool,
    stored: Option<TicketMetadata>,
    target_exists: bool,
    branch: Option<&str>,
) -> (r: Result<AddPlan, TixError>)
    ensures
        match add_refusal(
            *config,
            repo_alias@,
            ticket_root@,
            ticket_exists,
            stored is Some,
            target_exists,
        ) {
            Some((kind, detail)) => r is Err && r->Err_0.kind == kind && r->Err_0.detail@
                == detail,
            None => r is Ok && ({
                let plan = r->Ok_0;
                let record = stored->0@.healed();
                &&& plan.ticket.root@ == ticket_root@
                &&& plan.ticket.metadata@ == record
                &&& job_is_for(
                    plan.job,
                    *config,
                    ticket_root@,
                    repo_alias@,
                    branch_for(record, repo_alias@, config.branch_prefix@),
                )
                &&& plan.branch_was_stored == record.repo_branches.dom().contains(repo_alias@)
                &&& match branch {
                    Some(b) => plan.base_ref is Some && plan.base_ref->0@ == b@,
                    None => plan.base_ref is None,
                }
            }),
        },
{
    if !ticket_exists {
        return Err(TixError::new(ErrorKind::NotFound, ticket_root));
    }
    let ticket = match Ticket::load(ticket_root, stored) {
        Ok(t) => t,
        Err(e) => {
            return Err(e);
        },
    };
    let definition = match config.repositories.get(repo_alias) {
        Some(d) => d,
        None => {
            return Err(TixError::new(ErrorKind::NotFound, repo_alias));
        },
    };
    let target_path = join(ticket_root, repo_alias);
    if target_exists {
        return Err(TixError { kind: ErrorKind::AlreadyExists, detail: target_path });
    }
    let stored_branch = ticket.metadata.repo_branches.get_text(repo_alias);
    let branch_was_stored = stored_branch.is_some();
    let branch_name = match stored_branch {
        Some(b) => b.clone(),
        None => if char_count(ticket.metadata.branch.as_str()) > 0 {
            ticket.metadata.branch.clone()
        } else {
            build_branch_name(config, ticket.metadata.id.as_str(), ticket.metadata.description.as_ref())
        },
    };
    let base_ref = match branch {
        Some(b) => Some(copy_str(b)),
        None => None,
    };
    let job = WorktreeJob {
        alias: copy_str(repo_alias),
        repo_path: definition.path.clone(),
        target_path,
        worktree_name: worktree_name_for_branch(branch_name.as_str()),
        branch_name,
    };
    Ok(AddPlan { job, base_ref, branch_was_stored, ticket })
}

/// Writes a repository into the record once its worktree stands: the
/// ticket's branch if it had none, the repository with its branch, and the
/// worktree's name.
pub fn record_added(ticket: &mut Ticket, job: &WorktreeJob)
    ensures
        final(ticket).root == old(ticket).root,
        final(ticket).metadata@ == old(ticket).metadata@.with_branch_if_unset(
            job.branch_name@,
        ).with_repo(job.alias@, job.branch_name@).with_worktree(job.alias@, job.worktree_name@),
{
    ticket.ensure_branch(job.branch_name.as_str());
    ticket.add_repo_branch(job.alias.as_str(), job.branch_name.as_str());
    ticket.record_worktree(job.alias.as_str(), job.worktree_name.as_str());
}

/// A ticket's directory must exist before anything is added to it.
pub fn ensure_ticket_exists(ticket_dir: &str, exists: bool) -> (r: Result<(), TixError>)
    ensures
        exists ==> r is Ok,
        !exists ==> r is Err && r->Err_0.kind == ErrorKind::NotFound && r->Err_0.detail@
            == ticket_dir@,
{
    if exists {
        Ok(())
    } else {
        Err(TixError::new(ErrorKind::NotFound, ticket_dir))
    }
}

} // verus!
