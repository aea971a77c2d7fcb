//! Destroying a ticket: its worktrees, their records, and its directory.

use vstd::prelude::*;
use crate::commands::common::branch_name_of;
use crate::commands::common::build_branch_name;
use crate::commands::setup::registered_of;
use crate::commands::setup::unregistered_of;
use crate::config::Config;
use crate::error::ErrorKind;
use crate::error::TixError;
use crate::paths::join;
use crate::paths::join_of;
use crate::paths::path_starts_with;
use crate::paths::starts_with;
use crate::text::views;
use crate::ticket::MetadataView;
use crate::ticket::TicketMetadata;
use crate::ticket::worktree_name_for_branch;
use crate::ticket::worktree_name_of;

verus! {

/// A worktree record to prune.
#[derive(Debug)]
pub struct PruneJob {
    /// The repository's alias.
    pub alias: String,
    /// The repository whose worktree record is pruned.
    pub repo_path: String,
    /// The name of that record.
    pub worktree_name: String,
}

/// What destroying a ticket comes to, in this order: remove the worktree
/// directories, prune the records, remove the ticket's directory.
#[derive(Debug)]
pub struct DestroyPlan {
    /// The ticket's directory.
    pub ticket_dir: String,
    /// The worktree directories.
    pub directories: Vec<String>,
    /// The records to prune.
    pub prunes: Vec<PruneJob>,
    /// The aliases that are not registered any more: the caller warns and
    /// passes them over.
    pub unregistered: Vec<String>,
}

/// Refuses to destroy a ticket from within: `current_dir` must not lie in
/// `ticket_dir`. Both are to be given in canonical form.
pub fn ensure_not_inside(ticket_dir: &str, current_dir: &str) -> (r: Result<(), TixError>)
    ensures
        path_starts_with(current_dir@, ticket_dir@) ==> r is Err && r->Err_0.kind
            == ErrorKind::InsideTicket && r->Err_0.detail@ == ticket_dir@,
        !path_starts_with(current_dir@, ticket_dir@) ==> r is Ok,
{
    if starts_with(current_dir, ticket_dir) {
        Err(TixError::new(ErrorKind::InsideTicket, ticket_dir))
    } else {
        Ok(())
    }
}

/// The directories of a ticket that hold worktrees: all that were found in
/// it but the one that holds its record.
pub fn worktree_dirs(found: &[String]) -> (out: Vec<String>)
    ensures
        views(out@) == crate::alias_map::without(views(found@), ".tix"@),
{
    let ghost all = views(found@);
    let mut out: Vec<String> = Vec::new();
    let mut i: usize = 0;
    assert(views(out@) =~= crate::alias_map::without(all.take(0), ".tix"@));
    while i < found.len()
        invariant
            i <= found.len(),
            all == views(found@),
            views(out@) == crate::alias_map::without(all.take(i as int), ".tix"@),
        decreases found.len() - i,
    {
        proof {
            assert(all.take(i + 1).drop_last() == all.take(i as int));
            assert(all.take(i + 1).last() == found@[i as int]@);
        }
        let ghost prev = out@;
        if !crate::text::same(found[i].as_str(), ".tix") {
            out.push(found[i].clone());
            assert(views(out@) =~= views(prev).push(found@[i as int]@));
        }
        i += 1;
    }
    assert(all.take(found.len() as int) == all);
    out
}

/// The aliases whose worktree records are pruned: those that the record
/// holds a branch for; without a record, the names of the directories found
/// in the ticket's directory.
pub open spec fn aliases_of(record: Option<Seq<Seq<char>>>, dir_names: Seq<Seq<char>>) -> Seq<
    Seq<char>,
> {
    match record {
        Some(keys) => keys,
        None => dir_names,
    }
}

/// The aliases whose worktree records are pruned.
pub fn aliases_to_prune(worktree_dirs: &[String], meta: Option<&TicketMetadata>) -> (out: Vec<String>)
    ensures
        views(out@) == aliases_of(
            match meta {
                Some(m) => Some(m.repo_branches.keys()),
                None => None,
            },
            views(worktree_dirs@),
        ),
{
    match meta {
        Some(m) => m.repo_branches.keys_vec(),
        None => {
            let mut out: Vec<String> = Vec::new();
            let mut i: usize = 0;
            while i < worktree_dirs.len()
                invariant
                    i <= worktree_dirs.len(),
                    views(out@) == views(worktree_dirs@).take(i as int),
                decreases worktree_dirs.len() - i,
            {
                let ghost prev = out@;
                let name = worktree_dirs[i].clone();
                out.push(name);
                assert(views(out@) =~= views(prev).push(name@));
                assert(views(worktree_dirs@).take(i + 1) =~= views(worktree_dirs@).take(
                    i as int,
                ).push(views(worktree_dirs@)[i as int]));
                i += 1;
            }
            assert(views(worktree_dirs@).take(worktree_dirs.len() as int) == views(
                worktree_dirs@,
            ));
            out
        },
    }
}

/// The name of the worktree record of `alias` when a ticket is destroyed:
/// the recorded one; else the worktree name of the recorded branch, or of the
/// ticket's branch; without a record, that of the branch derived from the
/// ticket's id.
pub open spec fn prune_name(
    record: Option<MetadataView>,
    alias: Seq<char>,
    prefix: Seq<char>,
    ticket_id: Seq<char>,
) -> Seq<char> {
    match record {
        Some(m) => if m.repo_worktrees.dom().contains(alias) {
            m.repo_worktrees[alias]
        } else if m.repo_branches.dom().contains(alias) {
            worktree_name_of(m.repo_branches[alias])
        } else {
            worktree_name_of(m.branch)
        },
        None => worktree_name_of(branch_name_of(prefix, ticket_id, None)),
    }
}

/// The content of the record, if there is one.
pub open spec fn record_of(meta: Option<&TicketMetadata>) -> Option<MetadataView> {
    match meta {
        Some(m) => Some(m@),
        None => None,
    }
}

/// Whether `job` prunes the record of `alias`.
pub open spec fn prune_is_for(
    job: PruneJob,
    config: Config,
    record: Option<MetadataView>,
    ticket_id: Seq<char>,
    alias: Seq<char>,
) -> bool {
    &&& job.alias@ == alias
    &&& config.repositories@.dom().contains(alias)
    &&& job.repo_path@ == config.repositories@[alias].path@
    &&& job.worktree_name@ == prune_name(record, alias, config.branch_prefix@, ticket_id)
}

/// The records to prune for `aliases`, and the aliases that are passed over
/// because they are not registered.
pub fn prune_worktrees(
    config: &Config,
    ticket_id: &str,
    meta: Option<&TicketMetadata>,
    aliases: &[String],
) -> (r: (Vec<PruneJob>, Vec<String>))
    ensures
        r.0@.len() == registered_of(views(aliases@), config.repositories@.dom()).len(),
        forall|i: int|
            0 <= i < r.0@.len() ==> prune_is_for(
                #[trigger] r.0@[i],
                *config,
                record_of(meta),
                ticket_id@,
                registered_of(views(aliases@), config.repositories@.dom())[i],
            ),
        views(r.1@) == unregistered_of(views(aliases@), config.repositories@.dom()),
{
    let ghost all = views(aliases@);
    let ghost known = config.repositories@.dom();
    let mut jobs: Vec<PruneJob> = Vec::new();
    let mut skipped: Vec<String> = Vec::new();
    let mut i: usize = 0;
    assert(views(skipped@) =~= unregistered_of(all.take(0), known));
    while i < aliases.len()
        invariant
            i <= aliases.len(),
            all == views(aliases@),
            known == config.repositories@.dom(),
            jobs@.len() == registered_of(all.take(i as int), known).len(),
            forall|k: int|
                0 <= k < jobs@.len() ==> prune_is_for(
                    #[trigger] jobs@[k],
                    *config,
                    record_of(meta),
                    ticket_id@,
                    registered_of(all.take(i as int), known)[k],
                ),
            views(skipped@) == unregistered_of(all.take(i as int), known),
        decreases aliases.len() - i,
    {
        proof {
            assert(all.take(i + 1).drop_last() == all.take(i as int));
            assert(all.take(i + 1).last() == aliases@[i as int]@);
        }
        let alias = &aliases[i];
        let ghost s0 = skipped@;
        match config.repositories.get(alias.as_str()) {
            Some(definition) => {
                let worktree_name = match meta {
                    Some(m) => match m.repo_worktrees.get_text(alias.as_str()) {
                        Some(n) => n.clone(),
                        None => match m.repo_branches.get_text(alias.as_str()) {
                            Some(b) => worktree_name_for_branch(b.as_str()),
                            None => worktree_name_for_branch(m.branch.as_str()),
                        },
                    },
                    None => {
                        let branch = build_branch_name(config, ticket_id, None);
                        worktree_name_for_branch(branch.as_str())
                    },
                };
                jobs.push(
                    PruneJob {
                        alias: alias.clone(),
                        repo_path: definition.path.clone(),
                        worktree_name,
                    },
                );
            },
            None => {
                skipped.push(alias.clone());
                assert(views(skipped@) =~= views(s0).push(alias@));
            },
        }
        i += 1;
    }
    proof {
        assert(all.take(aliases.len() as int) == all);
    }
    (jobs, skipped)
}

/// The index of the first working tree that blocks the destruction: one
/// that is not known to be clean. Directories beyond the end of `clean` count
/// as unknown.
pub open spec fn first_blocking(clean: Seq<Option<bool>>, count: int) -> Option<int>
    decreases count,
{
    if count <= 0 {
        None
    } else {
        match first_blocking(clean, count - 1) {
            Some(i) => Some(i),
            None => if count - 1 < clean.len() && clean[count - 1] == Some(true) {
                None
            } else {
                Some(count - 1)
            },
        }
    }
}

/// The state of the working tree at `index`, `None` where it is not known.
pub open spec fn state_at(clean: Seq<Option<bool>>, index: int) -> Option<bool> {
    if 0 <= index < clean.len() {
        clean[index]
    } else {
        None
    }
}

/// Why a ticket cannot be destroyed, if it cannot: the working directory
/// lies inside it; or, unless `force` is given, some working tree holds
/// changes that are not committed, or could not be examined.
pub open spec fn destroy_refusal(
    ticket_dir: Seq<char>,
    canonical_ticket_dir: Seq<char>,
    current_dir: Seq<char>,
    force: bool,
    dir_names: Seq<Seq<char>>,
    clean: Seq<Option<bool>>,
) -> Option<(ErrorKind, Seq<char>)> {
    if path_starts_with(current_dir, canonical_ticket_dir) {
        Some((ErrorKind::InsideTicket, canonical_ticket_dir))
    } else if force {
        None
    } else {
        match first_blocking(clean, dir_names.len() as int) {
            Some(i) => Some(
                (
                    if state_at(clean, i) == Some(false) {
                        ErrorKind::DirtyWorkingTree
                    } else {
                        ErrorKind::Io
                    },
                    join_of(ticket_dir, dir_names[i]),
                ),
            ),
            None => None,
        }
    }
}

/// Each of `names` under `base`.
pub open spec fn paths_under(base: Seq<char>, names: Seq<Seq<char>>) -> Seq<Seq<char>> {
    Seq::new(names.len(), |i: int| join_of(base, names[i]))
}

fn find_blocking(clean: &[Option<bool>], count: usize) -> (r: Option<usize>)
    ensures
        match r {
            Some(i) => first_blocking(clean@, count as int) == Some(i as int) && i < count,
            None => first_blocking(clean@, count as int) is None,
        },
{
    let mut i: usize = 0;
    while i < count
        invariant
            i <= count,
            first_blocking(clean@, i as int) is None,
        decreases count - i,
    {
        let fine = i < clean.len() && match clean[i] {
            Some(true) => true,
            _ => false,
        };
        if !fine {
            proof {
                assert(first_blocking(clean@, i + 1) == Some(i as int));
                lemma_first_blocking_stays(clean@, i + 1, count as int);
            }
            return Some(i);
        }
        i += 1;
    }
    None
}

/// Once a blocking tree is found, looking further does not change it.
proof fn lemma_first_blocking_stays(clean: Seq<Option<bool>>, at: int, count: int)
    requires
        first_blocking(clean, at) is Some,
        at <= count,
    ensures
        first_blocking(clean, count) == first_blocking(clean, at),
    decreases count - at,
{
    if at < count {
        lemma_first_blocking_stays(clean, at, count - 1);
    }
}

/// Plans the destruction of the ticket `ticket_id`.
///
/// `exists` says whether the ticket's directory is there: if not, there is
/// nothing to do. `canonical_ticket_dir` and `current_dir` are the ticket's
/// directory and the working directory in canonical form. `stored` is the
/// ticket's record as loaded, if it could be. `worktree_dirs` are the names
/// of the directories found in the ticket's directory, its own stamp
/// directory left out; `clean` holds, for each of them, what its clean check
/// gave (`None` where the check failed).
pub fn run(
    config: &Config,
    ticket_id: &str,
    force: bool,
    exists: bool,
    canonical_ticket_dir: &str,
    current_dir: &str,
    stored: Option<&TicketMetadata>,
    worktree_dirs: &[String],
    clean: &[Option<bool>],
) -> (r: Result<Option<DestroyPlan>, TixError>)
    ensures
        !exists ==> r is Ok && r->Ok_0 is None,
        exists ==> match destroy_refusal(
            join_of(config.tickets_directory@, ticket_id@),
            canonical_ticket_dir@,
            current_dir@,
            force,
            views(worktree_dirs@),
            clean@,
        ) {
            Some((kind, detail)) => r is Err && r->Err_0.kind == kind && r->Err_0.detail@
                == detail,
            None => r is Ok && r->Ok_0 is Some && ({
                let plan = r->Ok_0->0;
                let aliases = aliases_of(
                    match stored {
                        Some(m) => Some(m.repo_branches.keys()),
                        None => None,
                    },
                    views(worktree_dirs@),
                );
                let known = config.repositories@.dom();
                &&& plan.ticket_dir@ == join_of(config.tickets_directory@, ticket_id@)
                &&& views(plan.directories@) == paths_under(
                    plan.ticket_dir@,
                    views(worktree_dirs@),
                )
                &&& plan.prunes@.len() == registered_of(aliases, known).len()
                &&& forall|i: int|
                    0 <= i < plan.prunes@.len() ==> prune_is_for(
                        #[trigger] plan.prunes@[i],
                        *config,
                        record_of(stored),
                        ticket_id@,
                        registered_of(aliases, known)[i],
                    )
                &&& views(plan.unregistered@) == unregistered_of(aliases, known)
            }),
        },
{
    if !exists {
        return Ok(None);
    }
    let ticket_dir = join(config.tickets_directory.as_str(), ticket_id);
    match ensure_not_inside(canonical_ticket_dir, current_dir) {
        Err(e) => {
            return Err(e);
        },
        Ok(_) => {},
    }
    if !force {
        match find_blocking(clean, worktree_dirs.len()) {
            Some(i) => {
                let dirty = i < clean.len() && match clean[i] {
                    Some(false) => true,
                    _ => false,
                };
                let kind = if dirty {
                    ErrorKind::DirtyWorkingTree
                } else {
                    ErrorKind::Io
                };
                let detail = join(ticket_dir.as_str(), worktree_dirs[i].as_str());
                return Err(TixError { kind, detail });
            },
            None => {},
        }
    }
    let mut directories: Vec<String> = Vec::new();
    let mut i: usize = 0;
    while i < worktree_dirs.len()
        invariant
            i <= worktree_dirs.len(),
            directories@.len() == i,
            forall|k: int|
                0 <= k < i ==> (#[trigger] directories@[k])@ == join_of(
                    ticket_dir@,
                    worktree_dirs@[k]@,
                ),
        decreases worktree_dirs.len() - i,
    {
        directories.push(join(ticket_dir.as_str(), worktree_dirs[i].as_str()));
        i += 1;
    }
    assert(views(directories@) =~= paths_under(ticket_dir@, views(worktree_dirs@)));
    let aliases = aliases_to_prune(worktree_dirs, stored);
    let (prunes, unregistered) = prune_worktrees(config, ticket_id, stored, aliases.as_slice());
    Ok(Some(DestroyPlan { ticket_dir, directories, prunes, unregistered }))
}

/// A worktree that a setup made is pruned under the name it was made with.
/// For every repository of a fresh ticket, the name that destroying the
/// ticket derives is the worktree name of the ticket's branch, the name that
/// the setup registered; and it stays so once the setup has written that name
/// into the record.
pub proof fn lemma_prune_name_after_setup(
    id: Seq<char>,
    description: Option<Seq<char>>,
    created_at: Seq<char>,
    branch: Seq<char>,
    targets: Seq<Seq<char>>,
    alias: Seq<char>,
    prefix: Seq<char>,
)
    requires
        targets.contains(alias),
    ensures
        ({
            let fresh = crate::ticket::fresh_metadata(
                id,
                description,
                created_at,
                branch,
                crate::commands::setup::pairs_for(targets, branch),
            );
            let name = worktree_name_of(branch);
            &&& prune_name(Some(fresh), alias, prefix, id) == name
            &&& prune_name(Some(fresh.with_worktree(alias, name)), alias, prefix, id) == name
            &&& crate::commands::remove::removal_name(fresh, alias, prefix) == name
            &&& crate::commands::remove::removal_name(
                fresh.with_worktree(alias, name),
                alias,
                prefix,
            ) == name
        }),
{
    crate::commands::setup::lemma_pairs_for(targets, branch);
}

} // verus!
