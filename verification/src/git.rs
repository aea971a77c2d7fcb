//! The worktree engine: what to ask of the git backend, and what to make of
//! its answers.
//!
//! The backend itself (opening a repository, finding and creating branches,
//! registering and pruning worktrees, fetching) is reached by the caller. Each
//! operation is a small machine here: a step names the one thing that the
//! backend is asked next, the caller performs it and reports the reply, and
//! the operation's function gives the step that follows. `Finished` and
//! `Failed` are the two ends.

use vstd::prelude::*;
use crate::auth::authentication_failure;
use crate::auth::failure_text;
use crate::error::ErrorKind;
use crate::error::TixError;
use crate::text::char_count;
use crate::text::concat3;
use crate::text::copy_str;
use crate::text::opt_view;
use crate::ticket::worktree_name_for_branch;
use crate::ticket::worktree_name_of;

verus! {

// ---------------------------------------------------------------------------
// Clean check
// ---------------------------------------------------------------------------

/// Which entries the status of a working tree lists for the clean check.
#[derive(Clone, Copy, Debug, PartialEq, Eq, Structural)]
pub struct StatusQuery {
    /// Files that git does not track count.
    pub include_untracked: bool,
    /// Files that git is told to ignore do not.
    pub include_ignored: bool,
}

/// The status that the clean check asks for: modified and staged entries,
/// and untracked ones; ignored ones are left out.
pub fn status_query() -> (q: StatusQuery)
    ensures
        q.include_untracked,
        !q.include_ignored,
{
    StatusQuery { include_untracked: true, include_ignored: false }
}

/// Whether a working tree is clean, given the number of entries that its
/// status lists under `status_query`: it is clean when there is none.
pub fn is_clean(status_entries: usize) -> (clean: bool)
    ensures
        clean == (status_entries == 0),
{
    status_entries == 0
}

// ---------------------------------------------------------------------------
// Default branch
// ---------------------------------------------------------------------------

/// The reference that new branches start from where none is given.
#[derive(Debug)]
pub struct DefaultBranch {
    /// The reference, if any could be read.
    pub reference: Option<String>,
    /// Whether it is the repository's own HEAD, taken for want of the
    /// remote's: the caller warns, since that may not be the upstream default.
    pub from_own_head: bool,
}

/// The default branch: the remote's symbolic HEAD where there is one, else
/// the repository's own, else none.
pub fn resolve_default_branch(remote_head: Option<&str>, own_head: Option<&str>) -> (d:
    DefaultBranch)
    ensures
        match remote_head {
            Some(r) => d.reference is Some && d.reference->0@ == r@ && !d.from_own_head,
            None => match own_head {
                Some(h) => d.reference is Some && d.reference->0@ == h@ && d.from_own_head,
                None => d.reference is None && !d.from_own_head,
            },
        },
{
    match remote_head {
        Some(r) => DefaultBranch { reference: Some(copy_str(r)), from_own_head: false },
        None => match own_head {
            Some(h) => DefaultBranch { reference: Some(copy_str(h)), from_own_head: true },
            None => DefaultBranch { reference: None, from_own_head: false },
        },
    }
}

// ---------------------------------------------------------------------------
// Creating a worktree
// ---------------------------------------------------------------------------

/// What is asked for when a worktree is created.
#[derive(Debug)]
pub struct WorktreeRequest {
    /// Where the worktree's directory is made.
    pub target_path: String,
    /// The branch that is checked out there.
    pub branch_name: String,
    /// What a new branch starts from, if the caller chose it.
    pub base_ref: Option<String>,
}

/// One step of creating a worktree.
#[derive(Debug)]
pub enum CreateStep {
    /// Look for the local branch of the request's name.
    FindBranch,
    /// Read the default branch (see `resolve_default_branch`).
    ResolveDefaultBranch,
    /// Resolve `base` to a commit; without a `base`, the current HEAD.
    ResolveCommit { base: Option<String> },
    /// Create the branch at the commit that was resolved.
    CreateBranch,
    /// Register a worktree called `name` at the target path, on the branch.
    AddWorktree { name: String },
    /// The worktree stands.
    Finished,
    /// Nothing more is tried.
    Failed { error: TixError },
}

/// What the backend answered to a step of creating a worktree.
#[derive(Debug)]
pub enum CreateReply {
    /// The step was carried out: the branch or the commit was found, the
    /// branch or the worktree was made.
    Done,
    /// The backend said no: there is no such branch or commit; the branch
    /// cannot be made; or, for the worktree, its name is bound already or
    /// its target path exists.
    Refused,
    /// The backend failed for a reason of its own (it could not read or
    /// write what it needs).
    Broken,
    /// The answer to `ResolveDefaultBranch`.
    DefaultBranch { reference: Option<String> },
}

/// A `CreateStep` with its texts as sequences.
pub enum CreateStepView {
    FindBranch,
    ResolveDefaultBranch,
    ResolveCommit { base: Option<Seq<char>> },
    CreateBranch,
    AddWorktree { name: Seq<char> },
    Finished,
    Failed { kind: ErrorKind, detail: Seq<char> },
}

/// A `CreateReply` with its text as a sequence.
pub enum CreateReplyView {
    Done,
    Refused,
    Broken,
    DefaultBranch { reference: Option<Seq<char>> },
}

/// A `WorktreeRequest` with its texts as sequences.
pub struct WorktreeRequestView {
    pub target_path: Seq<char>,
    pub branch_name: Seq<char>,
    pub base_ref: Option<Seq<char>>,
}

impl View for WorktreeRequest {
    type V = WorktreeRequestView;

    open spec fn view(&self) -> WorktreeRequestView {
        WorktreeRequestView {
            target_path: self.target_path@,
            branch_name: self.branch_name@,
            base_ref: opt_view(self.base_ref),
        }
    }
}

impl View for CreateStep {
    type V = CreateStepView;

    open spec fn view(&self) -> CreateStepView {
        match *self {
            CreateStep::FindBranch => CreateStepView::FindBranch,
            CreateStep::ResolveDefaultBranch => CreateStepView::ResolveDefaultBranch,
            CreateStep::ResolveCommit { base } => CreateStepView::ResolveCommit {
                base: opt_view(base),
            },
            CreateStep::CreateBranch => CreateStepView::CreateBranch,
            CreateStep::AddWorktree { name } => CreateStepView::AddWorktree { name: name@ },
            CreateStep::Finished => CreateStepView::Finished,
            CreateStep::Failed { error } => CreateStepView::Failed {
                kind: error.kind,
                detail: error.detail@,
            },
        }
    }
}

impl View for CreateReply {
    type V = CreateReplyView;

    open spec fn view(&self) -> CreateReplyView {
        match *self {
            CreateReply::Done => CreateReplyView::Done,
            CreateReply::Refused => CreateReplyView::Refused,
            CreateReply::Broken => CreateReplyView::Broken,
            CreateReply::DefaultBranch { reference } => CreateReplyView::DefaultBranch {
                reference: opt_view(reference),
            },
        }
    }
}

/// What stands for "the current HEAD" in the detail of an error.
pub open spec fn head_label() -> Seq<char> {
    "HEAD"@
}

/// The step that follows `step` on `reply`.
///
/// An existing branch is reused. A missing one is created at the commit of
/// the request's base, else of the default branch, else of HEAD; if that
/// resolves to no commit the operation fails with `NotFound`. The worktree is
/// then registered under the branch's worktree name; if the backend says
/// that the name is bound or the target path exists, that is
/// `AlreadyExists`. A backend that breaks down at any step fails the
/// operation with `Io`, and so does a reply that does not answer the step
/// (with `InvalidInput`).
pub open spec fn create_next(
    request: WorktreeRequestView,
    step: CreateStepView,
    reply: CreateReplyView,
) -> CreateStepView {
    match step {
        CreateStepView::FindBranch => match reply {
            CreateReplyView::Done => CreateStepView::AddWorktree {
                name: worktree_name_of(request.branch_name),
            },
            CreateReplyView::Refused => match request.base_ref {
                Some(base) => CreateStepView::ResolveCommit { base: Some(base) },
                None => CreateStepView::ResolveDefaultBranch,
            },
            CreateReplyView::Broken => broken_create(request.branch_name),
            _ => unexpected_create(),
        },
        CreateStepView::ResolveDefaultBranch => match reply {
            CreateReplyView::DefaultBranch { reference } => CreateStepView::ResolveCommit {
                base: reference,
            },
            CreateReplyView::Broken => broken_create(request.branch_name),
            _ => unexpected_create(),
        },
        CreateStepView::ResolveCommit { base } => match reply {
            CreateReplyView::Done => CreateStepView::CreateBranch,
            CreateReplyView::Refused => CreateStepView::Failed {
                kind: ErrorKind::NotFound,
                detail: match base {
                    Some(b) => b,
                    None => head_label(),
                },
            },
            CreateReplyView::Broken => broken_create(request.branch_name),
            _ => unexpected_create(),
        },
        CreateStepView::CreateBranch => match reply {
            CreateReplyView::Done => CreateStepView::AddWorktree {
                name: worktree_name_of(request.branch_name),
            },
            CreateReplyView::Refused => broken_create(request.branch_name),
            CreateReplyView::Broken => broken_create(request.branch_name),
            _ => unexpected_create(),
        },
        CreateStepView::AddWorktree { name } => match reply {
            CreateReplyView::Done => CreateStepView::Finished,
            CreateReplyView::Refused => CreateStepView::Failed {
                kind: ErrorKind::AlreadyExists,
                detail: request.target_path,
            },
            CreateReplyView::Broken => broken_create(request.target_path),
            _ => unexpected_create(),
        },
        CreateStepView::Finished => step,
        CreateStepView::Failed { .. } => step,
    }
}

/// Where a breakdown of the backend leads: an `Io` failure about `what`.
pub open spec fn broken_create(what: Seq<char>) -> CreateStepView {
    CreateStepView::Failed { kind: ErrorKind::Io, detail: what }
}

/// Where a reply that does not answer the step leads.
pub open spec fn unexpected_create() -> CreateStepView {
    CreateStepView::Failed { kind: ErrorKind::InvalidInput, detail: "unexpected reply"@ }
}

fn unexpected_create_step() -> (s: CreateStep)
    ensures
        s@ == unexpected_create(),
{
    CreateStep::Failed { error: TixError::new(ErrorKind::InvalidInput, "unexpected reply") }
}

/// The first step of creating a worktree.
pub fn begin_create_worktree() -> (s: CreateStep)
    ensures
        s@ == CreateStepView::FindBranch,
{
    CreateStep::FindBranch
}

fn broken_create_step(what: &str) -> (s: CreateStep)
    ensures
        s@ == broken_create(what@),
{
    CreateStep::Failed { error: TixError::new(ErrorKind::Io, what) }
}

/// Creates a worktree, step by step: given the step that was just carried
/// out and the backend's reply, the step to carry out next.
pub fn create_worktree(request: &WorktreeRequest, step: CreateStep, reply: CreateReply) -> (next:
    CreateStep)
    ensures
        next@ == create_next(request@, step@, reply@),
{
    match step {
        CreateStep::FindBranch => match reply {
            CreateReply::Done => CreateStep::AddWorktree {
                name: worktree_name_for_branch(request.branch_name.as_str()),
            },
            CreateReply::Refused => match &request.base_ref {
                Some(base) => CreateStep::ResolveCommit { base: Some(base.clone()) },
                None => CreateStep::ResolveDefaultBranch,
            },
            CreateReply::Broken => broken_create_step(request.branch_name.as_str()),
            CreateReply::DefaultBranch { .. } => unexpected_create_step(),
        },
        CreateStep::ResolveDefaultBranch => match reply {
            CreateReply::DefaultBranch { reference } => CreateStep::ResolveCommit {
                base: reference,
            },
            CreateReply::Broken => broken_create_step(request.branch_name.as_str()),
            _ => unexpected_create_step(),
        },
        CreateStep::ResolveCommit { base } => match reply {
            CreateReply::Done => CreateStep::CreateBranch,
            CreateReply::Refused => {
                let detail = match base {
                    Some(b) => b,
                    None => copy_str("HEAD"),
                };
                CreateStep::Failed { error: TixError { kind: ErrorKind::NotFound, detail } }
            },
            CreateReply::Broken => broken_create_step(request.branch_name.as_str()),
            CreateReply::DefaultBranch { .. } => unexpected_create_step(),
        },
        CreateStep::CreateBranch => match reply {
            CreateReply::Done => CreateStep::AddWorktree {
                name: worktree_name_for_branch(request.branch_name.as_str()),
            },
            CreateReply::Refused => broken_create_step(request.branch_name.as_str()),
            CreateReply::Broken => broken_create_step(request.branch_name.as_str()),
            CreateReply::DefaultBranch { .. } => unexpected_create_step(),
        },
        CreateStep::AddWorktree { name } => match reply {
            CreateReply::Done => CreateStep::Finished,
            CreateReply::Refused => CreateStep::Failed {
                error: TixError::new(ErrorKind::AlreadyExists, request.target_path.as_str()),
            },
            CreateReply::Broken => broken_create_step(request.target_path.as_str()),
            CreateReply::DefaultBranch { .. } => unexpected_create_step(),
        },
        CreateStep::Finished => CreateStep::Finished,
        CreateStep::Failed { error } => CreateStep::Failed { error },
    }
}

/// Where creating a worktree stands after the replies `replies`, given in
/// the order in which they came.
pub open spec fn create_run(
    request: WorktreeRequestView,
    replies: Seq<CreateReplyView>,
) -> CreateStepView
    decreases replies.len(),
{
    if replies.len() == 0 {
        CreateStepView::FindBranch
    } else {
        create_next(request, create_run(request, replies.drop_last()), replies.last())
    }
}

/// Whether the backend is asked to create a branch at some point of the run.
pub open spec fn create_run_makes_branch(
    request: WorktreeRequestView,
    replies: Seq<CreateReplyView>,
) -> bool {
    exists|n: int|
        0 <= n <= replies.len() && #[trigger] create_run(request, replies.take(n))
            == CreateStepView::CreateBranch
}

/// When the branch exists already, it is reused: whatever the later replies
/// are, no branch is created and no base is resolved, so the run cannot fail
/// with `NotFound`. The one thing asked next is the worktree under the
/// branch's worktree name; the run succeeds if the backend makes it. It fails
/// with `AlreadyExists`, on the target path, only if the backend says that
/// the name is bound or the path exists; a backend that breaks down gives
/// `Io`.
pub proof fn lemma_existing_branch_is_reused(
    request: WorktreeRequestView,
    replies: Seq<CreateReplyView>,
)
    requires
        replies.len() >= 1,
        replies[0] == CreateReplyView::Done,
    ensures
        !create_run_makes_branch(request, replies),
        !(create_run(request, replies) is ResolveCommit),
        !(create_run(request, replies) is ResolveDefaultBranch),
        create_run(request, replies) is Failed ==> create_run(request, replies)->kind
            != ErrorKind::NotFound,
        create_run(request, replies.take(1)) == (CreateStepView::AddWorktree {
            name: worktree_name_of(request.branch_name),
        }),
        replies.len() >= 2 && replies[1] == CreateReplyView::Done ==> create_run(request, replies)
            == CreateStepView::Finished,
        replies.len() >= 2 && replies[1] == CreateReplyView::Refused ==> create_run(
            request,
            replies,
        ) == (CreateStepView::Failed {
            kind: ErrorKind::AlreadyExists,
            detail: request.target_path,
        }),
        replies.len() >= 2 && replies[1] == CreateReplyView::Broken ==> create_run(
            request,
            replies,
        ) == broken_create(request.target_path),
        create_run(request, replies) is Failed && create_run(request, replies)->kind
            == ErrorKind::AlreadyExists ==> replies.len() >= 2 && replies[1]
            == CreateReplyView::Refused,
{
    lemma_existing_branch_run(request, replies);
    assert forall|n: int| 0 <= n <= replies.len() implies #[trigger] create_run(
        request,
        replies.take(n),
    ) != CreateStepView::CreateBranch by {
        if n >= 1 {
            assert(replies.take(n)[0] == replies[0]);
            lemma_existing_branch_run(request, replies.take(n));
        } else {
            assert(replies.take(0).len() == 0);
        }
    }
    assert(replies.take(1)[0] == replies[0]);
    lemma_existing_branch_run(request, replies.take(1));
    assert(replies.take(1).drop_last().len() == 0);
}

/// The shape of every run whose first reply says that the branch exists.
proof fn lemma_existing_branch_run(request: WorktreeRequestView, replies: Seq<CreateReplyView>)
    requires
        replies.len() >= 1,
        replies[0] == CreateReplyView::Done,
    ensures
        ({
            let end = create_run(request, replies);
            let added = CreateStepView::AddWorktree { name: worktree_name_of(request.branch_name) };
            let refused = CreateStepView::Failed {
                kind: ErrorKind::AlreadyExists,
                detail: request.target_path,
            };
            &&& replies.len() == 1 ==> end == added
            &&& replies.len() >= 2 ==> end == match replies[1] {
                CreateReplyView::Done => CreateStepView::Finished,
                CreateReplyView::Refused => refused,
                CreateReplyView::Broken => broken_create(request.target_path),
                CreateReplyView::DefaultBranch { .. } => unexpected_create(),
            }
        }),
    decreases replies.len(),
{
    let rest = replies.drop_last();
    if replies.len() == 1 {
        assert(rest.len() == 0);
    } else {
        assert(rest[0] == replies[0]);
        lemma_existing_branch_run(request, rest);
        if replies.len() > 2 {
            assert(rest[1] == replies[1]);
        } else {
            assert(replies.last() == replies[1]);
        }
    }
}

/// Creating a worktree fails with `NotFound` only where the base of a new
/// branch resolved to no commit: the run was asked to resolve a commit and
/// the backend could not.
pub proof fn lemma_not_found_means_unresolved_base(
    request: WorktreeRequestView,
    replies: Seq<CreateReplyView>,
)
    requires
        create_run(request, replies) is Failed,
        create_run(request, replies)->kind == ErrorKind::NotFound,
    ensures
        exists|n: int|
            0 <= n < replies.len() && #[trigger] create_run(request, replies.take(n)) is ResolveCommit
                && replies[n] == CreateReplyView::Refused,
    decreases replies.len(),
{
    if replies.len() > 0 {
        let rest = replies.drop_last();
        let before = create_run(request, rest);
        assert(create_run(request, replies) == create_next(request, before, replies.last()));
        if before is ResolveCommit {
            assert(replies.take(replies.len() - 1) == rest);
            assert(replies[replies.len() - 1] == replies.last());
        } else {
            assert(before is Failed && before->kind == ErrorKind::NotFound);
            lemma_not_found_means_unresolved_base(request, rest);
            let n = choose|n: int|
                0 <= n < rest.len() && #[trigger] create_run(request, rest.take(n)) is ResolveCommit
                    && rest[n] == CreateReplyView::Refused;
            assert(rest.take(n) == replies.take(n));
            assert(rest[n] == replies[n]);
        }
    }
}

/// A worktree is never registered under another name than the worktree name
/// of the request's branch: the name that pruning derives later.
pub proof fn lemma_worktree_is_named_after_branch(
    request: WorktreeRequestView,
    replies: Seq<CreateReplyView>,
)
    ensures
        create_run(request, replies) is AddWorktree ==> create_run(request, replies)->name
            == worktree_name_of(request.branch_name),
    decreases replies.len(),
{
    if replies.len() > 0 {
        lemma_worktree_is_named_after_branch(request, replies.drop_last());
    }
}

// ---------------------------------------------------------------------------
// Removing a worktree
// ---------------------------------------------------------------------------

/// One step of removing a worktree's record.
#[derive(Debug)]
pub enum RemoveStep {
    /// Look for the worktree called `name`.
    FindWorktree { name: String },
    /// Prune the record of the worktree that was found. The working
    /// directory is not touched.
    Prune { name: String },
    /// Nothing is left to do.
    Finished,
    /// Pruning failed.
    Failed { error: TixError },
}

/// A `RemoveStep` with its texts as sequences.
pub enum RemoveStepView {
    FindWorktree { name: Seq<char> },
    Prune { name: Seq<char> },
    Finished,
    Failed { kind: ErrorKind, detail: Seq<char> },
}

impl View for RemoveStep {
    type V = RemoveStepView;

    open spec fn view(&self) -> RemoveStepView {
        match *self {
            RemoveStep::FindWorktree { name } => RemoveStepView::FindWorktree { name: name@ },
            RemoveStep::Prune { name } => RemoveStepView::Prune { name: name@ },
            RemoveStep::Finished => RemoveStepView::Finished,
            RemoveStep::Failed { error } => RemoveStepView::Failed {
                kind: error.kind,
                detail: error.detail@,
            },
        }
    }
}

/// The step that follows `step` when the backend carried it out (`done`) or
/// not: a worktree that is not found leaves nothing to do; one that is found
/// is pruned.
pub open spec fn remove_next(step: RemoveStepView, done: bool) -> RemoveStepView {
    match step {
        RemoveStepView::FindWorktree { name } => if done {
            RemoveStepView::Prune { name }
        } else {
            RemoveStepView::Finished
        },
        RemoveStepView::Prune { name } => if done {
            RemoveStepView::Finished
        } else {
            RemoveStepView::Failed { kind: ErrorKind::Io, detail: name }
        },
        RemoveStepView::Finished => step,
        RemoveStepView::Failed { .. } => step,
    }
}

/// The first step of removing the worktree record `worktree_name`.
pub fn begin_remove_worktree(worktree_name: &str) -> (s: RemoveStep)
    ensures
        s@ == (RemoveStepView::FindWorktree { name: worktree_name@ }),
{
    RemoveStep::FindWorktree { name: copy_str(worktree_name) }
}

/// Removes a worktree's record, step by step: given the step that was just
/// carried out and whether the backend did it, the step to carry out next.
pub fn remove_worktree(step: RemoveStep, done: bool) -> (next: RemoveStep)
    ensures
        next@ == remove_next(step@, done),
{
    match step {
        RemoveStep::FindWorktree { name } => if done {
            RemoveStep::Prune { name }
        } else {
            RemoveStep::Finished
        },
        RemoveStep::Prune { name } => if done {
            RemoveStep::Finished
        } else {
            RemoveStep::Failed { error: TixError { kind: ErrorKind::Io, detail: name } }
        },
        RemoveStep::Finished => RemoveStep::Finished,
        RemoveStep::Failed { error } => RemoveStep::Failed { error },
    }
}

/// Where removing `name` stands after the replies `replies`.
pub open spec fn remove_run(name: Seq<char>, replies: Seq<bool>) -> RemoveStepView
    decreases replies.len(),
{
    if replies.len() == 0 {
        RemoveStepView::FindWorktree { name }
    } else {
        remove_next(remove_run(name, replies.drop_last()), replies.last())
    }
}

/// Removing a worktree that the backend does not know is a no-op: the run
/// ends at once, without error, and never asks the backend to prune. The
/// steps depend on the name and the replies alone, so a second call that gets
/// the same reply ends in the same way.
pub proof fn lemma_unknown_worktree_is_no_op(name: Seq<char>, replies: Seq<bool>)
    requires
        replies.len() >= 1,
        !replies[0],
    ensures
        run_never_prunes(name, replies),
        remove_run(name, replies) == RemoveStepView::Finished,
        remove_run(name, replies.take(1)) == remove_run(name, seq![false]),
{
    lemma_unknown_worktree_run(name, replies);
    assert forall|n: int| 0 <= n <= replies.len() implies !(#[trigger] remove_run(
        name,
        replies.take(n),
    ) is Prune) by {
        if n >= 1 {
            assert(replies.take(n)[0] == replies[0]);
            lemma_unknown_worktree_run(name, replies.take(n));
        } else {
            assert(replies.take(0).len() == 0);
        }
    }
    assert(replies.take(1) =~= seq![false]);
}

/// No step of the run asks the backend to prune.
pub open spec fn run_never_prunes(name: Seq<char>, replies: Seq<bool>) -> bool {
    forall|n: int| 0 <= n <= replies.len() ==> !(#[trigger] remove_run(name, replies.take(n)) is Prune)
}

proof fn lemma_unknown_worktree_run(name: Seq<char>, replies: Seq<bool>)
    requires
        replies.len() >= 1,
        !replies[0],
    ensures
        remove_run(name, replies) == RemoveStepView::Finished,
    decreases replies.len(),
{
    let rest = replies.drop_last();
    if replies.len() == 1 {
        assert(rest.len() == 0);
    } else {
        assert(rest[0] == replies[0]);
        lemma_unknown_worktree_run(name, rest);
    }
}

// ---------------------------------------------------------------------------
// Fetch and fast-forward
// ---------------------------------------------------------------------------

/// One step of bringing a repository up to date with a remote.
#[derive(Debug)]
pub enum SyncStep {
    /// Fetch `refspec` from `remote`, with the credential chain.
    Fetch { remote: String, refspec: String },
    /// Read HEAD.
    ReadHead,
    /// Find the upstream of the local branch `branch`, which HEAD is on
    /// through `reference`.
    FindUpstream { reference: String, branch: String },
    /// Compare the branch with its upstream.
    Analyse { reference: String },
    /// Move `reference` to the upstream's commit and check it out, forced.
    FastForward { reference: String },
    /// Done; `advanced` says whether the branch moved.
    Finished { advanced: bool },
    /// Nothing more is tried.
    Failed { error: TixError },
}

/// What the backend answered to a step of syncing.
#[derive(Debug)]
pub enum SyncReply {
    /// The step was carried out (fetched, upstream found, branch advanced).
    Done,
    /// The step failed.
    Refused,
    /// The fetch failed because no credential was accepted for `url`.
    Unauthenticated { url: String },
    /// There is no such thing: HEAD is on no branch, or the branch has no
    /// upstream.
    Missing,
    /// The answer to `ReadHead` when HEAD is on a branch: the full reference
    /// and the branch's short name.
    Head { reference: String, branch: String },
    /// The answer to `Analyse`.
    Analysis { up_to_date: bool, fast_forward: bool },
}

/// A `SyncStep` with its texts as sequences.
pub enum SyncStepView {
    Fetch { remote: Seq<char>, refspec: Seq<char> },
    ReadHead,
    FindUpstream { reference: Seq<char>, branch: Seq<char> },
    Analyse { reference: Seq<char> },
    FastForward { reference: Seq<char> },
    Finished { advanced: bool },
    Failed { kind: ErrorKind, detail: Seq<char> },
}

/// A `SyncReply` with its texts as sequences.
pub enum SyncReplyView {
    Done,
    Refused,
    Unauthenticated { url: Seq<char> },
    Missing,
    Head { reference: Seq<char>, branch: Seq<char> },
    Analysis { up_to_date: bool, fast_forward: bool },
}

impl View for SyncStep {
    type V = SyncStepView;

    open spec fn view(&self) -> SyncStepView {
        match *self {
            SyncStep::Fetch { remote, refspec } => SyncStepView::Fetch {
                remote: remote@,
                refspec: refspec@,
            },
            SyncStep::ReadHead => SyncStepView::ReadHead,
            SyncStep::FindUpstream { reference, branch } => SyncStepView::FindUpstream {
                reference: reference@,
                branch: branch@,
            },
            SyncStep::Analyse { reference } => SyncStepView::Analyse { reference: reference@ },
            SyncStep::FastForward { reference } => SyncStepView::FastForward {
                reference: reference@,
            },
            SyncStep::Finished { advanced } => SyncStepView::Finished { advanced },
            SyncStep::Failed { error } => SyncStepView::Failed {
                kind: error.kind,
                detail: error.detail@,
            },
        }
    }
}

impl View for SyncReply {
    type V = SyncReplyView;

    open spec fn view(&self) -> SyncReplyView {
        match *self {
            SyncReply::Done => SyncReplyView::Done,
            SyncReply::Refused => SyncReplyView::Refused,
            SyncReply::Unauthenticated { url } => SyncReplyView::Unauthenticated { url: url@ },
            SyncReply::Missing => SyncReplyView::Missing,
            SyncReply::Head { reference, branch } => SyncReplyView::Head {
                reference: reference@,
                branch: branch@,
            },
            SyncReply::Analysis { up_to_date, fast_forward } => SyncReplyView::Analysis {
                up_to_date,
                fast_forward,
            },
        }
    }
}

/// The refspec that fetches every branch of `remote` into its
/// remote-tracking references.
pub open spec fn fetch_refspec_of(remote: Seq<char>) -> Seq<char> {
    "refs/heads/*:refs/remotes/"@ + remote + "/*"@
}

/// The refspec that fetches every branch of `remote`.
pub fn fetch_refspec(remote: &str) -> (out: String)
    ensures
        out@ == fetch_refspec_of(remote@),
{
    concat3("refs/heads/*:refs/remotes/", remote, "/*")
}

/// Where a reply that does not answer the step leads.
pub open spec fn unexpected_sync() -> SyncStepView {
    SyncStepView::Failed { kind: ErrorKind::InvalidInput, detail: "unexpected reply"@ }
}

fn unexpected_sync_step() -> (s: SyncStep)
    ensures
        s@ == unexpected_sync(),
{
    SyncStep::Failed { error: TixError::new(ErrorKind::InvalidInput, "unexpected reply") }
}

/// The step that follows `step` on `reply`.
///
/// After the fetch, a HEAD that is on no branch, or whose reference has no
/// name, ends the operation without a change; so does a branch without
/// upstream. A branch that is up to date is left alone; one that can be
/// fast-forwarded is advanced; one that has diverged is left untouched. A
/// fetch that no credential opened fails with `AuthenticationFailed`, and
/// the failure says what the user can do.
pub open spec fn sync_next(step: SyncStepView, reply: SyncReplyView) -> SyncStepView {
    match step {
        SyncStepView::Fetch { remote, refspec } => match reply {
            SyncReplyView::Done => SyncStepView::ReadHead,
            SyncReplyView::Unauthenticated { url } => SyncStepView::Failed {
                kind: ErrorKind::AuthenticationFailed,
                detail: failure_text(url),
            },
            SyncReplyView::Refused => SyncStepView::Failed { kind: ErrorKind::Io, detail: remote },
            SyncReplyView::Missing => SyncStepView::Failed {
                kind: ErrorKind::NotFound,
                detail: remote,
            },
            _ => unexpected_sync(),
        },
        SyncStepView::ReadHead => match reply {
            SyncReplyView::Head { reference, branch } => if reference.len() == 0 {
                SyncStepView::Finished { advanced: false }
            } else {
                SyncStepView::FindUpstream { reference, branch }
            },
            SyncReplyView::Missing => SyncStepView::Finished { advanced: false },
            SyncReplyView::Refused => SyncStepView::Finished { advanced: false },
            _ => unexpected_sync(),
        },
        SyncStepView::FindUpstream { reference, branch } => match reply {
            SyncReplyView::Done => SyncStepView::Analyse { reference },
            SyncReplyView::Missing => SyncStepView::Finished { advanced: false },
            SyncReplyView::Refused => SyncStepView::Failed { kind: ErrorKind::Io, detail: branch },
            _ => unexpected_sync(),
        },
        SyncStepView::Analyse { reference } => match reply {
            SyncReplyView::Analysis { up_to_date, fast_forward } => if up_to_date {
                SyncStepView::Finished { advanced: false }
            } else if fast_forward {
                SyncStepView::FastForward { reference }
            } else {
                SyncStepView::Finished { advanced: false }
            },
            SyncReplyView::Refused => SyncStepView::Failed {
                kind: ErrorKind::Io,
                detail: reference,
            },
            _ => unexpected_sync(),
        },
        SyncStepView::FastForward { reference } => match reply {
            SyncReplyView::Done => SyncStepView::Finished { advanced: true },
            SyncReplyView::Refused => SyncStepView::Failed {
                kind: ErrorKind::Io,
                detail: reference,
            },
            _ => unexpected_sync(),
        },
        SyncStepView::Finished { .. } => step,
        SyncStepView::Failed { .. } => step,
    }
}

/// The first step of syncing with `remote_name`.
pub fn begin_fetch_and_fast_forward(remote_name: &str) -> (s: SyncStep)
    ensures
        s@ == (SyncStepView::Fetch {
            remote: remote_name@,
            refspec: fetch_refspec_of(remote_name@),
        }),
{
    SyncStep::Fetch { remote: copy_str(remote_name), refspec: fetch_refspec(remote_name) }
}

/// Fetches and fast-forwards, step by step: given the step that was just
/// carried out and the backend's reply, the step to carry out next.
pub fn fetch_and_fast_forward(step: SyncStep, reply: SyncReply) -> (next: SyncStep)
    ensures
        next@ == sync_next(step@, reply@),
{
    match step {
        SyncStep::Fetch { remote, refspec } => match reply {
            SyncReply::Done => SyncStep::ReadHead,
            SyncReply::Unauthenticated { url } => SyncStep::Failed {
                error: authentication_failure(url.as_str()),
            },
            SyncReply::Refused => SyncStep::Failed {
                error: TixError { kind: ErrorKind::Io, detail: remote },
            },
            SyncReply::Missing => SyncStep::Failed {
                error: TixError { kind: ErrorKind::NotFound, detail: remote },
            },
            _ => unexpected_sync_step(),
        },
        SyncStep::ReadHead => match reply {
            SyncReply::Head { reference, branch } => if char_count(reference.as_str()) == 0 {
                SyncStep::Finished { advanced: false }
            } else {
                SyncStep::FindUpstream { reference, branch }
            },
            SyncReply::Missing => SyncStep::Finished { advanced: false },
            SyncReply::Refused => SyncStep::Finished { advanced: false },
            _ => unexpected_sync_step(),
        },
        SyncStep::FindUpstream { reference, branch } => match reply {
            SyncReply::Done => SyncStep::Analyse { reference },
            SyncReply::Missing => SyncStep::Finished { advanced: false },
            SyncReply::Refused => SyncStep::Failed {
                error: TixError { kind: ErrorKind::Io, detail: branch },
            },
            _ => unexpected_sync_step(),
        },
        SyncStep::Analyse { reference } => match reply {
            SyncReply::Analysis { up_to_date, fast_forward } => if up_to_date {
                SyncStep::Finished { advanced: false }
            } else if fast_forward {
                SyncStep::FastForward { reference }
            } else {
                SyncStep::Finished { advanced: false }
            },
            SyncReply::Refused => SyncStep::Failed {
                error: TixError { kind: ErrorKind::Io, detail: reference },
            },
            _ => unexpected_sync_step(),
        },
        SyncStep::FastForward { reference } => match reply {
            SyncReply::Done => SyncStep::Finished { advanced: true },
            SyncReply::Refused => SyncStep::Failed {
                error: TixError { kind: ErrorKind::Io, detail: reference },
            },
            _ => unexpected_sync_step(),
        },
        SyncStep::Finished { advanced } => SyncStep::Finished { advanced },
        SyncStep::Failed { error } => SyncStep::Failed { error },
    }
}

/// Where syncing with `remote` stands after the replies `replies`.
pub open spec fn sync_run(remote: Seq<char>, replies: Seq<SyncReplyView>) -> SyncStepView
    decreases replies.len(),
{
    if replies.len() == 0 {
        SyncStepView::Fetch { remote, refspec: fetch_refspec_of(remote) }
    } else {
        sync_next(sync_run(remote, replies.drop_last()), replies.last())
    }
}

/// The branch is moved only on a fast-forward: a run asks the backend to
/// advance the branch only right after an analysis that says "not up to
/// date, fast-forward possible". Up to date and diverged histories are never
/// touched.
pub proof fn lemma_only_fast_forward_advances(remote: Seq<char>, replies: Seq<SyncReplyView>)
    requires
        sync_run(remote, replies) is FastForward,
    ensures
        replies.len() >= 1,
        replies.last() == (SyncReplyView::Analysis { up_to_date: false, fast_forward: true }),
        sync_run(remote, replies.drop_last()) is Analyse,
{
    if replies.len() > 0 {
        let before = sync_run(remote, replies.drop_last());
        assert(sync_run(remote, replies) == sync_next(before, replies.last()));
    }
}

/// A run that ends with the branch advanced went through a fast-forward.
pub proof fn lemma_advanced_means_fast_forwarded(remote: Seq<char>, replies: Seq<SyncReplyView>)
    requires
        sync_run(remote, replies) == (SyncStepView::Finished { advanced: true }),
    ensures
        exists|n: int| 0 <= n < replies.len() && #[trigger] sync_run(remote, replies.take(n)) is FastForward,
    decreases replies.len(),
{
    if replies.len() > 0 {
        let rest = replies.drop_last();
        let before = sync_run(remote, rest);
        assert(sync_run(remote, replies) == sync_next(before, replies.last()));
        if before is FastForward {
            assert(replies.take(replies.len() - 1) == rest);
        } else {
            assert(before == (SyncStepView::Finished { advanced: true }));
            lemma_advanced_means_fast_forwarded(remote, rest);
            let n = choose|n: int| 0 <= n < rest.len() && #[trigger] sync_run(remote, rest.take(n)) is FastForward;
            assert(rest.take(n) == replies.take(n));
        }
    }
}

/// A sync fails for want of authentication only when the fetch was turned
/// down for it, and the failure then carries the remediation text for the
/// remote's URL.
pub proof fn lemma_sync_authentication_failure(remote: Seq<char>, replies: Seq<SyncReplyView>)
    requires
        sync_run(remote, replies) is Failed,
        sync_run(remote, replies)->kind == ErrorKind::AuthenticationFailed,
    ensures
        replies.len() >= 1,
        replies[0] is Unauthenticated,
        sync_run(remote, replies)->detail == failure_text(replies[0]->url),
    decreases replies.len(),
{
    if replies.len() > 0 {
        let rest = replies.drop_last();
        let before = sync_run(remote, rest);
        assert(sync_run(remote, replies) == sync_next(before, replies.last()));
        if rest.len() == 0 {
            assert(replies[0] == replies.last());
        } else {
            assert(rest[0] == replies[0]);
            if before is Failed && before->kind == ErrorKind::AuthenticationFailed {
                lemma_sync_authentication_failure(remote, rest);
            } else {
                lemma_sync_past_fetch(remote, rest);
            }
        }
    }
}

/// After its first reply a sync is never at the fetch again.
proof fn lemma_sync_past_fetch(remote: Seq<char>, replies: Seq<SyncReplyView>)
    requires
        replies.len() >= 1,
    ensures
        !(sync_run(remote, replies) is Fetch),
    decreases replies.len(),
{
    let rest = replies.drop_last();
    if rest.len() >= 1 {
        lemma_sync_past_fetch(remote, rest);
    }
}

// ---------------------------------------------------------------------------
// Cloning
// ---------------------------------------------------------------------------

/// How the backend's clone ended.
#[derive(Clone, Copy, Debug, PartialEq, Eq, Structural)]
pub enum CloneOutcome {
    /// The repository is cloned.
    Cloned,
    /// No credential was accepted.
    Unauthenticated,
    /// The clone failed for another reason.
    Refused,
}

/// What a clone of `url` into `target` comes to: a clone that no credential
/// opened ends with the authentication failure for `url`; any other failure
/// is reported on the target.
pub fn clone_repo(url: &str, target: &str, outcome: CloneOutcome) -> (r: Result<(), TixError>)
    ensures
        match outcome {
            CloneOutcome::Cloned => r is Ok,
            CloneOutcome::Unauthenticated => r is Err && r->Err_0.kind
                == ErrorKind::AuthenticationFailed && r->Err_0.detail@ == failure_text(url@),
            CloneOutcome::Refused => r is Err && r->Err_0.kind == ErrorKind::Io
                && r->Err_0.detail@ == target@,
        },
{
    match outcome {
        CloneOutcome::Cloned => Ok(()),
        CloneOutcome::Unauthenticated => Err(authentication_failure(url)),
        CloneOutcome::Refused => Err(TixError::new(ErrorKind::Io, target)),
    }
}

} // verus!
