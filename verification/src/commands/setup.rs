//! Setting a ticket up: its directory, its record, and a worktree in each
//! repository that takes part.

use vstd::prelude::*;
use crate::commands::common::branch_name_of;
use crate::commands::common::build_branch_name;
use crate::config::Config;
use crate::paths::join;
use crate::paths::join_of;
use crate::text::copy_str;
use crate::text::opt_view;
use crate::text::views;
use crate::ticket::MetadataView;
use crate::ticket::Ticket;
use crate::ticket::TicketMetadata;
use crate::ticket::fresh_metadata;
use crate::ticket::worktree_name_for_branch;
use crate::ticket::worktree_name_of;

verus! {

/// What was found where the ticket's directory belongs.
#[derive(Debug)]
pub enum TicketState {
    /// No directory.
    Missing,
    /// A directory without a record that can be read.
    Unstamped,
    /// A directory with this record.
    Stamped { metadata: TicketMetadata },
}

/// A worktree to make.
#[derive(Debug)]
pub struct WorktreeJob {
    /// The repository's alias.
    pub alias: String,
    /// The repository that the worktree belongs to.
    pub repo_path: String,
    /// Where the worktree's directory is made.
    pub target_path: String,
    /// The branch that is checked out there.
    pub branch_name: String,
    /// The name under which the backend registers the worktree.
    pub worktree_name: String,
}

/// What setting up a ticket comes to.
#[derive(Debug)]
pub struct SetupPlan {
    /// The ticket's directory.
    pub ticket_dir: String,
    /// The ticket's branch.
    pub branch_name: String,
    /// Whether the directory has to be made.
    pub create_directory: bool,
    /// The ticket with the record to write.
    pub ticket: Ticket,
    /// The worktrees to make, one for each repository that was selected.
    pub worktrees: Vec<WorktreeJob>,
    /// The aliases that were asked for but are not registered.
    pub skipped: Vec<String>,
}

/// Sanitize free text for a branch name.
pub fn sanitize_description(input: &str) -> (out: String)
    ensures
        out@ == crate::commands::common::sanitized(input@),
        crate::commands::common::well_hyphenated(out@),
        crate::commands::common::made_of_words(out@, input@),
        crate::commands::common::is_tidy(out@) == crate::commands::common::lowers_fully_text(
            input@,
        ),
{
    crate::commands::common::sanitize_description(input)
}

/// Those of `repos` that are in `known`, in order.
pub open spec fn registered_of(repos: Seq<Seq<char>>, known: Set<Seq<char>>) -> Seq<Seq<char>>
    decreases repos.len(),
{
    if repos.len() == 0 {
        Seq::empty()
    } else {
        let before = registered_of(repos.drop_last(), known);
        if known.contains(repos.last()) {
            before.push(repos.last())
        } else {
            before
        }
    }
}

/// Those of `repos` that are not in `known`, in order.
pub open spec fn unregistered_of(repos: Seq<Seq<char>>, known: Set<Seq<char>>) -> Seq<Seq<char>>
    decreases repos.len(),
{
    if repos.len() == 0 {
        Seq::empty()
    } else {
        let before = unregistered_of(repos.drop_last(), known);
        if known.contains(repos.last()) {
            before
        } else {
            before.push(repos.last())
        }
    }
}

/// The repositories that a setup works on: all that are registered, or
/// those of `repos` that are.
pub open spec fn targets_of(config: Config, repos: Seq<Seq<char>>, all: bool) -> Seq<Seq<char>> {
    if all {
        config.repositories.keys()
    } else {
        registered_of(repos, config.repositories@.dom())
    }
}

/// The aliases that a setup passes over.
pub open spec fn skipped_of(config: Config, repos: Seq<Seq<char>>, all: bool) -> Seq<Seq<char>> {
    if all {
        Seq::empty()
    } else {
        unregistered_of(repos, config.repositories@.dom())
    }
}

/// Each of `targets` with `branch`.
pub open spec fn pairs_for(targets: Seq<Seq<char>>, branch: Seq<char>) -> Seq<
    (Seq<char>, Seq<char>),
> {
    Seq::new(targets.len(), |i: int| (targets[i], branch))
}

/// A fresh record holds each of `targets` on `branch`, and nothing else.
pub proof fn lemma_pairs_for(targets: Seq<Seq<char>>, branch: Seq<char>)
    ensures
        forall|a: Seq<char>| #[trigger]
            targets.contains(a) ==> crate::ticket::pairs_map(
                pairs_for(targets, branch),
            ).dom().contains(a) && crate::ticket::pairs_map(pairs_for(targets, branch))[a]
                == branch,
        forall|a: Seq<char>| #[trigger]
            crate::ticket::pairs_map(pairs_for(targets, branch)).dom().contains(a)
                ==> targets.contains(a),
    decreases targets.len(),
{
    if targets.len() > 0 {
        let rest = targets.drop_last();
        let last = targets.last();
        lemma_pairs_for(rest, branch);
        assert(pairs_for(targets, branch).drop_last() =~= pairs_for(rest, branch));
        assert(pairs_for(targets, branch).last() == (last, branch));
        let map = crate::ticket::pairs_map(pairs_for(targets, branch));
        let before = crate::ticket::pairs_map(pairs_for(rest, branch));
        assert(map == before.insert(last, branch));
        assert forall|a: Seq<char>| #[trigger] targets.contains(a) implies map.dom().contains(a)
            && map[a] == branch by {
            let j = targets.index_of(a);
            if j < rest.len() {
                assert(rest[j] == a);
                assert(rest.contains(a));
            }
        }
        assert forall|a: Seq<char>| #[trigger] map.dom().contains(a) implies targets.contains(
            a,
        ) by {
            if a == last {
                assert(targets[targets.len() - 1] == a);
            } else {
                assert(before.dom().contains(a));
                assert(rest.contains(a));
                let j = rest.index_of(a);
                assert(targets[j] == a);
            }
        }
    }
}

/// Every selected repository is registered.
pub proof fn lemma_registered_are_known(repos: Seq<Seq<char>>, known: Set<Seq<char>>)
    ensures
        forall|i: int|
            0 <= i < registered_of(repos, known).len() ==> known.contains(
                #[trigger] registered_of(repos, known)[i],
            ),
        forall|i: int|
            0 <= i < unregistered_of(repos, known).len() ==> !known.contains(
                #[trigger] unregistered_of(repos, known)[i],
            ),
        registered_of(repos, known).len() + unregistered_of(repos, known).len() == repos.len(),
    decreases repos.len(),
{
    if repos.len() > 0 {
        lemma_registered_are_known(repos.drop_last(), known);
    }
}

/// Whether `job` is the worktree of `alias` for a ticket at `ticket_dir` on
/// `branch`.
pub open spec fn job_is_for(
    job: WorktreeJob,
    config: Config,
    ticket_dir: Seq<char>,
    alias: Seq<char>,
    branch: Seq<char>,
) -> bool {
    &&& job.alias@ == alias
    &&& config.repositories@.dom().contains(alias)
    &&& job.repo_path@ == config.repositories@[alias].path@
    &&& job.target_path@ == join_of(ticket_dir, alias)
    &&& job.branch_name@ == branch
    &&& job.worktree_name@ == worktree_name_of(branch)
}

/// The record that a setup writes: a fresh one where none was found; else
/// the one found, healed, with the branch if it had none and with the
/// selected repositories, none of which loses the branch it had.
pub open spec fn record_after_setup(
    found: Option<MetadataView>,
    id: Seq<char>,
    description: Option<Seq<char>>,
    created_at: Seq<char>,
    branch: Seq<char>,
    targets: Seq<Seq<char>>,
) -> MetadataView {
    match found {
        Some(m) => m.healed().with_branch_if_unset(branch).with_repos(targets, branch),
        None => fresh_metadata(id, description, created_at, branch, pairs_for(targets, branch)),
    }
}

/// The content of the record that was found, if one was.
pub open spec fn found_record(state: TicketState) -> Option<MetadataView> {
    match state {
        TicketState::Stamped { metadata } => Some(metadata@),
        _ => None,
    }
}

/// The repositories to work on and the aliases to pass over.
pub fn select_targets(config: &Config, repos: &[String], all: bool) -> (r: (Vec<String>, Vec<String>))
    ensures
        views(r.0@) == targets_of(*config, views(repos@), all),
        views(r.1@) == skipped_of(*config, views(repos@), all),
        forall|i: int|
            0 <= i < r.0@.len() ==> config.repositories@.dom().contains(#[trigger] views(r.0@)[i]),
{
    if all {
        let keys = config.repositories.keys_vec();
        let skipped: Vec<String> = Vec::new();
        proof {
            assert(views(skipped@) =~= Seq::<Seq<char>>::empty());
            assert forall|i: int| 0 <= i < keys@.len() implies config.repositories@.dom().contains(
                #[trigger] views(keys@)[i],
            ) by {
                assert(config.repositories.keys().contains(views(keys@)[i]));
            }
        }
        (keys, skipped)
    } else {
        let ghost all_repos = views(repos@);
        let ghost known = config.repositories@.dom();
        let mut valid: Vec<String> = Vec::new();
        let mut skipped: Vec<String> = Vec::new();
        let mut i: usize = 0;
        assert(views(valid@) =~= registered_of(all_repos.take(0), known));
        assert(views(skipped@) =~= unregistered_of(all_repos.take(0), known));
        while i < repos.len()
            invariant
                i <= repos.len(),
                all_repos == views(repos@),
                known == config.repositories@.dom(),
                views(valid@) == registered_of(all_repos.take(i as int), known),
                views(skipped@) == unregistered_of(all_repos.take(i as int), known),
            decreases repos.len() - i,
        {
            proof {
                assert(all_repos.take(i + 1).drop_last() == all_repos.take(i as int));
                assert(all_repos.take(i + 1).last() == repos@[i as int]@);
            }
            let ghost v0 = valid@;
            let ghost s0 = skipped@;
            if config.repositories.contains_key(repos[i].as_str()) {
                valid.push(repos[i].clone());
                assert(views(valid@) =~= views(v0).push(repos@[i as int]@));
            } else {
                skipped.push(repos[i].clone());
                assert(views(skipped@) =~= views(s0).push(repos@[i as int]@));
            }
            i += 1;
        }
        proof {
            assert(all_repos.take(repos.len() as int) == all_repos);
            lemma_registered_are_known(all_repos, known);
        }
        (valid, skipped)
    }
}

/// Nothing is left out of a selection whose every alias is registered.
pub proof fn lemma_registered_of_known(repos: Seq<Seq<char>>, known: Set<Seq<char>>)
    requires
        forall|i: int| 0 <= i < repos.len() ==> known.contains(#[trigger] repos[i]),
    ensures
        registered_of(repos, known) == repos,
    decreases repos.len(),
{
    if repos.len() > 0 {
        let rest = repos.drop_last();
        assert forall|i: int| 0 <= i < rest.len() implies known.contains(#[trigger] rest[i]) by {
            assert(rest[i] == repos[i]);
        }
        lemma_registered_of_known(rest, known);
        assert(repos.last() == repos[repos.len() - 1]);
        assert(rest.push(repos.last()) =~= repos);
    }
}

/// The worktrees to make for those of `targets` that are registered.
pub fn worktree_jobs(config: &Config, ticket_dir: &str, targets: &Vec<String>, branch: &str) -> (jobs:
    Vec<WorktreeJob>)
    ensures
        jobs@.len() == registered_of(views(targets@), config.repositories@.dom()).len(),
        forall|i: int|
            0 <= i < jobs@.len() ==> job_is_for(
                #[trigger] jobs@[i],
                *config,
                ticket_dir@,
                registered_of(views(targets@), config.repositories@.dom())[i],
                branch@,
            ),
{
    let ghost all = views(targets@);
    let ghost known = config.repositories@.dom();
    let mut jobs: Vec<WorktreeJob> = Vec::new();
    let mut i: usize = 0;
    while i < targets.len()
        invariant
            i <= targets.len(),
            all == views(targets@),
            known == config.repositories@.dom(),
            jobs@.len() == registered_of(all.take(i as int), known).len(),
            forall|k: int|
                0 <= k < jobs@.len() ==> job_is_for(
                    #[trigger] jobs@[k],
                    *config,
                    ticket_dir@,
                    registered_of(all.take(i as int), known)[k],
                    branch@,
                ),
        decreases targets.len() - i,
    {
        proof {
            assert(all.take(i + 1).drop_last() == all.take(i as int));
            assert(all.take(i + 1).last() == targets@[i as int]@);
        }
        let alias = &targets[i];
        match config.repositories.get(alias.as_str()) {
            Some(definition) => {
                jobs.push(
                    WorktreeJob {
                        alias: alias.clone(),
                        repo_path: definition.path.clone(),
                        target_path: join(ticket_dir, alias.as_str()),
                        branch_name: copy_str(branch),
                        worktree_name: worktree_name_for_branch(branch),
                    },
                );
            },
            None => {},
        }
        i += 1;
    }
    proof {
        assert(all.take(targets.len() as int) == all);
    }
    jobs
}

/// Each of `targets` paired with `branch`.
fn pair_targets(targets: &Vec<String>, branch: &str) -> (pairs: Vec<(String, String)>)
    ensures
        crate::ticket::pair_views(pairs@) == pairs_for(views(targets@), branch@),
{
    let mut pairs: Vec<(String, String)> = Vec::new();
    let mut i: usize = 0;
    while i < targets.len()
        invariant
            i <= targets.len(),
            pairs@.len() == i,
            forall|k: int|
                0 <= k < i ==> (#[trigger] pairs@[k]).0@ == targets@[k]@ && pairs@[k].1@ == branch@,
        decreases targets.len() - i,
    {
        pairs.push((targets[i].clone(), copy_str(branch)));
        i += 1;
    }
    assert(crate::ticket::pair_views(pairs@) =~= pairs_for(views(targets@), branch@));
    pairs
}

/// Plans the setup of the ticket `ticket_id`.
///
/// The repositories are all registered ones under `all`, else those of
/// `repos` that are registered; none at all is a valid choice and gives a
/// ticket with a record and no worktree. The record is made afresh where none
/// was found; one that was found keeps every branch that it holds.
pub fn run(
    config: &Config,
    ticket_id: &str,
    repos: &[String],
    all: bool,
    description: Option<String>,
    state: TicketState,
) -> (plan: SetupPlan)
    ensures
        plan.ticket_dir@ == join_of(config.tickets_directory@, ticket_id@),
        plan.ticket.root@ == plan.ticket_dir@,
        plan.branch_name@ == branch_name_of(
            config.branch_prefix@,
            ticket_id@,
            opt_view(description),
        ),
        plan.create_directory == (state is Missing),
        plan.ticket.metadata@ == record_after_setup(
            found_record(state),
            ticket_id@,
            opt_view(description),
            plan.ticket.metadata@.created_at,
            plan.branch_name@,
            targets_of(*config, views(repos@), all),
        ),
        views(plan.skipped@) == skipped_of(*config, views(repos@), all),
        plan.worktrees@.len() == targets_of(*config, views(repos@), all).len(),
        forall|i: int|
            0 <= i < plan.worktrees@.len() ==> job_is_for(
                #[trigger] plan.worktrees@[i],
                *config,
                plan.ticket_dir@,
                targets_of(*config, views(repos@), all)[i],
                plan.branch_name@,
            ),
{
    let ticket_dir = join(config.tickets_directory.as_str(), ticket_id);
    let (targets, skipped) = select_targets(config, repos, all);
    let branch_name = build_branch_name(config, ticket_id, description.as_ref());
    let create_directory = match &state {
        TicketState::Missing => true,
        _ => false,
    };
    let ticket = match state {
        TicketState::Stamped { metadata } => {
            let mut metadata = metadata;
            metadata.heal();
            let mut ticket = Ticket { root: ticket_dir.clone(), metadata };
            ticket.ensure_branch(branch_name.as_str());
            ticket.add_repos_with_branch(targets.as_slice(), branch_name.as_str());
            ticket
        },
        _ => {
            let pairs = pair_targets(&targets, branch_name.as_str());
            Ticket::create(
                ticket_dir.as_str(),
                ticket_id,
                description.as_ref(),
                branch_name.as_str(),
                pairs.as_slice(),
            )
        },
    };
    let worktrees = worktree_jobs(config, ticket_dir.as_str(), &targets, branch_name.as_str());
    proof {
        lemma_registered_of_known(views(targets@), config.repositories@.dom());
    }
    SetupPlan { ticket_dir, branch_name, create_directory, ticket, worktrees, skipped }
}

/// Setting a ticket up a second time for the same repositories leaves its
/// record as the first setup wrote it, even where the second setup derives
/// another branch (from another description, say): the ticket's branch and
/// the branch of every repository are kept.
pub proof fn lemma_repeated_setup_keeps_record(
    id: Seq<char>,
    description: Option<Seq<char>>,
    created_at: Seq<char>,
    branch: Seq<char>,
    targets: Seq<Seq<char>>,
    later_description: Option<Seq<char>>,
    later_branch: Seq<char>,
)
    requires
        branch.len() > 0,
    ensures
        ({
            let first = record_after_setup(None, id, description, created_at, branch, targets);
            record_after_setup(
                Some(first),
                id,
                later_description,
                created_at,
                later_branch,
                targets,
            ) == first
        }),
{
    let first = record_after_setup(None, id, description, created_at, branch, targets);
    let pairs = pairs_for(targets, branch);
    lemma_pairs_for(targets, branch);
    crate::ticket::lemma_pairs(pairs);
    if targets.len() > 0 {
        assert(targets.contains(targets[0]));
        assert(first.repo_branches.dom().contains(targets[0]));
        assert(first.repo_branches != Map::<Seq<char>, Seq<char>>::empty());
    } else {
        assert(pairs.len() == 0);
    }
    assert(first.healed() == first);
    assert(first.with_branch_if_unset(later_branch) == first);
    assert forall|a: Seq<char>| #[trigger] targets.contains(a) implies first.repos.contains(a)
        && first.repo_branches.dom().contains(a) by {
        assert(first.repo_branches.dom().contains(a));
        assert(crate::ticket::pairs_map(pairs).dom().contains(a));
    }
    crate::ticket::lemma_add_known_repos(first, targets, later_branch);
}

/// One step of the work on a single repository.
#[derive(Clone, Copy, Debug, PartialEq, Eq, Structural)]
pub enum JobStep {
    /// Fetch from `origin` and fast-forward the repository.
    Sync,
    /// Create the worktree.
    Create,
    /// Write the worktree's name into the ticket's record.
    Record,
    /// Go on with the next repository; `created` says whether this one has
    /// its worktree.
    Next { created: bool },
}

/// The step after `step`, which went well (`ok`) or not.
///
/// The repository is brought up to date before its worktree is made, so that
/// a new branch starts from current history; if that fails the worktree is
/// made from what is there. A worktree that cannot be made is passed over:
/// the other repositories still get theirs. The record learns of a worktree
/// only once it stands.
pub open spec fn job_next(step: JobStep, ok: bool) -> JobStep {
    match step {
        JobStep::Sync => JobStep::Create,
        JobStep::Create => if ok {
            JobStep::Record
        } else {
            JobStep::Next { created: false }
        },
        JobStep::Record => JobStep::Next { created: true },
        JobStep::Next { created } => step,
    }
}

/// The first step of the work on a repository.
pub fn begin_job() -> (s: JobStep)
    ensures
        s == JobStep::Sync,
{
    JobStep::Sync
}

/// The step after `step`.
pub fn advance_job(step: JobStep, ok: bool) -> (next: JobStep)
    ensures
        next == job_next(step, ok),
{
    match step {
        JobStep::Sync => JobStep::Create,
        JobStep::Create => if ok {
            JobStep::Record
        } else {
            JobStep::Next { created: false }
        },
        JobStep::Record => JobStep::Next { created: true },
        JobStep::Next { created } => JobStep::Next { created },
    }
}

/// Where the work on a repository stands after the outcomes `outcomes` of
/// its steps, in the order in which they came.
pub open spec fn job_run(outcomes: Seq<bool>) -> JobStep
    decreases outcomes.len(),
{
    if outcomes.len() == 0 {
        JobStep::Sync
    } else {
        job_next(job_run(outcomes.drop_last()), outcomes.last())
    }
}

/// The sync comes first and the worktree second, whether the sync went well
/// or not; the record is written third, and only if the worktree stands. In
/// the end the repository counts as created exactly if its worktree was made.
pub proof fn lemma_job_order(outcomes: Seq<bool>)
    ensures
        outcomes.len() == 0 ==> job_run(outcomes) == JobStep::Sync,
        outcomes.len() == 1 ==> job_run(outcomes) == JobStep::Create,
        outcomes.len() == 2 ==> job_run(outcomes) == if outcomes[1] {
            JobStep::Record
        } else {
            JobStep::Next { created: false }
        },
        outcomes.len() >= 3 ==> job_run(outcomes) == (JobStep::Next { created: outcomes[1] }),
    decreases outcomes.len(),
{
    if outcomes.len() > 0 {
        let rest = outcomes.drop_last();
        lemma_job_order(rest);
        if rest.len() >= 2 {
            assert(rest[1] == outcomes[1]);
        }
        if outcomes.len() == 2 {
            assert(outcomes.last() == outcomes[1]);
        }
    }
}

/// Writes the worktree of `job` into the record, once it stands.
pub fn record_job(ticket: &mut Ticket, job: &WorktreeJob)
    ensures
        final(ticket).root == old(ticket).root,
        final(ticket).metadata@ == old(ticket).metadata@.with_worktree(
            job.alias@,
            job.worktree_name@,
        ),
{
    ticket.record_worktree(job.alias.as_str(), job.worktree_name.as_str());
}

} // verus!
