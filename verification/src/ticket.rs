//! The record that each ticket workspace keeps of itself.
//!
//! The record names the ticket, its branch, the repositories that take part
//! and, for each of them, its branch and the name of its worktree. A record
//! in the first format holds the repositories but no branch for any of them;
//! `Ticket::load` gives each the ticket's branch.

use vstd::prelude::*;
use crate::alias_map::AliasMap;
use crate::alias_map::lemma_without_contains;
use crate::alias_map::without;
use crate::error::ErrorKind;
use crate::error::TixError;
use crate::text::char_count;
use crate::text::copy_str;
use crate::text::opt_ref_view;
use crate::text::opt_view;
use crate::text::replace_char;
use crate::text::replace_char_of;
use crate::text::same;
use crate::text::views;

verus! {

/// What a record holds.
#[derive(Debug)]
pub struct TicketMetadata {
    /// Ticket identifier, such as `JIRA-123`.
    pub id: String,
    /// Description given at setup, if any.
    pub description: Option<String>,
    /// When the record was made, in RFC 3339.
    pub created_at: String,
    /// The ticket's branch; the default for every repository.
    pub branch: String,
    /// The aliases of the repositories that take part.
    pub repos: Vec<String>,
    /// The branch of each repository.
    pub repo_branches: AliasMap<String>,
    /// The worktree name of each repository whose worktree was made.
    pub repo_worktrees: AliasMap<String>,
}

/// A ticket workspace: its directory and its record.
#[derive(Debug)]
pub struct Ticket {
    pub root: String,
    pub metadata: TicketMetadata,
}

/// The mathematical content of a record.
pub struct MetadataView {
    pub id: Seq<char>,
    pub description: Option<Seq<char>>,
    pub created_at: Seq<char>,
    pub branch: Seq<char>,
    pub repos: Seq<Seq<char>>,
    pub repo_branches: Map<Seq<char>, Seq<char>>,
    pub repo_worktrees: Map<Seq<char>, Seq<char>>,
}

/// The text of each pair of `p`, in order.
pub open spec fn pair_views(p: Seq<(String, String)>) -> Seq<(Seq<char>, Seq<char>)> {
    Seq::new(p.len(), |i: int| (p[i].0@, p[i].1@))
}

/// The map that inserting the pairs one after the other gives: for an alias
/// that occurs twice, the later branch.
pub open spec fn pairs_map(p: Seq<(Seq<char>, Seq<char>)>) -> Map<Seq<char>, Seq<char>>
    decreases p.len(),
{
    if p.len() == 0 {
        Map::empty()
    } else {
        pairs_map(p.drop_last()).insert(p.last().0, p.last().1)
    }
}

/// The aliases of the pairs, each once, in the order of first occurrence.
pub open spec fn pairs_keys(p: Seq<(Seq<char>, Seq<char>)>) -> Seq<Seq<char>>
    decreases p.len(),
{
    if p.len() == 0 {
        Seq::empty()
    } else {
        let before = pairs_keys(p.drop_last());
        if before.contains(p.last().0) {
            before
        } else {
            before.push(p.last().0)
        }
    }
}

/// The record of a ticket that has just been set up.
pub open spec fn fresh_metadata(
    id: Seq<char>,
    description: Option<Seq<char>>,
    created_at: Seq<char>,
    branch: Seq<char>,
    pairs: Seq<(Seq<char>, Seq<char>)>,
) -> MetadataView {
    MetadataView {
        id,
        description,
        created_at,
        branch,
        repos: pairs_keys(pairs),
        repo_branches: pairs_map(pairs),
        repo_worktrees: Map::empty(),
    }
}

impl MetadataView {
    /// Every alias that has a branch is one of the ticket's repositories.
    pub open spec fn consistent(self) -> bool {
        forall|k: Seq<char>| self.repo_branches.dom().contains(k) ==> self.repos.contains(k)
    }

    /// A record without any branch per repository but with repositories is
    /// one in the first format.
    pub open spec fn is_first_format(self) -> bool {
        self.repo_branches == Map::<Seq<char>, Seq<char>>::empty() && self.repos.len() > 0
    }

    /// The record as `load` hands it out: one in the first format has every
    /// repository on the ticket's branch; any other is unchanged.
    pub open spec fn healed(self) -> MetadataView {
        if self.is_first_format() {
            MetadataView {
                repo_branches: Map::new(
                    |k: Seq<char>| self.repos.contains(k),
                    |k: Seq<char>| self.branch,
                ),
                ..self
            }
        } else {
            self
        }
    }

    /// The record with `alias` among the repositories, on `branch` unless it
    /// has a branch already.
    pub open spec fn with_repo(self, alias: Seq<char>, branch: Seq<char>) -> MetadataView {
        MetadataView {
            repos: if self.repos.contains(alias) {
                self.repos
            } else {
                self.repos.push(alias)
            },
            repo_branches: if self.repo_branches.dom().contains(alias) {
                self.repo_branches
            } else {
                self.repo_branches.insert(alias, branch)
            },
            ..self
        }
    }

    /// `with_repo` for each of `aliases`, from the first to the last.
    pub open spec fn with_repos(self, aliases: Seq<Seq<char>>, branch: Seq<char>) -> MetadataView
        decreases aliases.len(),
    {
        if aliases.len() == 0 {
            self
        } else {
            self.with_repos(aliases.drop_last(), branch).with_repo(aliases.last(), branch)
        }
    }

    /// The record without any trace of `alias`.
    pub open spec fn without_repo(self, alias: Seq<char>) -> MetadataView {
        MetadataView {
            repos: without(self.repos, alias),
            repo_branches: self.repo_branches.remove(alias),
            repo_worktrees: self.repo_worktrees.remove(alias),
            ..self
        }
    }

    /// The record with `branch` as the ticket's branch if it had none.
    pub open spec fn with_branch_if_unset(self, branch: Seq<char>) -> MetadataView {
        if self.branch.len() == 0 {
            MetadataView { branch, ..self }
        } else {
            self
        }
    }

    /// The record with `name` as the worktree of `alias`.
    pub open spec fn with_worktree(self, alias: Seq<char>, name: Seq<char>) -> MetadataView {
        MetadataView { repo_worktrees: self.repo_worktrees.insert(alias, name), ..self }
    }
}

impl View for TicketMetadata {
    type V = MetadataView;

    open spec fn view(&self) -> MetadataView {
        MetadataView {
            id: self.id@,
            description: opt_view(self.description),
            created_at: self.created_at@,
            branch: self.branch@,
            repos: views(self.repos@),
            repo_branches: self.repo_branches.text(),
            repo_worktrees: self.repo_worktrees.text(),
        }
    }
}

// ---------------------------------------------------------------------------
// Laws of the record
// ---------------------------------------------------------------------------

/// After healing, a record in the first format maps every one of its
/// repositories to the ticket's branch, and is consistent.
pub proof fn lemma_heal_seeds_every_alias(m: MetadataView)
    requires
        m.repos.len() > 0,
        m.repo_branches == Map::<Seq<char>, Seq<char>>::empty(),
    ensures
        forall|a: Seq<char>|
            m.repos.contains(a) ==> m.healed().repo_branches.dom().contains(a)
                && #[trigger] m.healed().repo_branches[a] == m.branch,
        m.healed().consistent(),
        m.healed().repos == m.repos,
        m.healed().branch == m.branch,
{
}

/// Healing never touches a record that has a branch for some repository, and
/// never breaks consistency.
pub proof fn lemma_heal_keeps(m: MetadataView)
    ensures
        m.repo_branches != Map::<Seq<char>, Seq<char>>::empty() ==> m.healed() == m,
        m.repos.len() == 0 ==> m.healed() == m,
        m.consistent() ==> m.healed().consistent(),
        m.healed().healed() == m.healed(),
{
    if m.is_first_format() {
        let h = m.healed();
        let a = m.repos[0];
        assert(m.repos.contains(a));
        assert(h.repo_branches.dom().contains(a));
        assert(h.repo_branches != Map::<Seq<char>, Seq<char>>::empty());
    }
}

/// Adding repositories never changes the branch that an alias already has,
/// whatever branch the call names; an alias without one gets the branch of
/// the call; nothing else gets a branch; and every alias of the call is among
/// the repositories afterwards.
pub proof fn lemma_add_repos_never_overwrites(
    m: MetadataView,
    aliases: Seq<Seq<char>>,
    branch: Seq<char>,
)
    ensures
        forall|a: Seq<char>| #[trigger]
            m.repo_branches.dom().contains(a) ==> m.with_repos(
                aliases,
                branch,
            ).repo_branches.dom().contains(a) && m.with_repos(aliases, branch).repo_branches[a]
                == m.repo_branches[a],
        forall|a: Seq<char>| #[trigger]
            aliases.contains(a) && !m.repo_branches.dom().contains(a) ==> m.with_repos(
                aliases,
                branch,
            ).repo_branches.dom().contains(a) && m.with_repos(aliases, branch).repo_branches[a]
                == branch,
        forall|a: Seq<char>| #[trigger]
            m.with_repos(aliases, branch).repo_branches.dom().contains(a) ==> aliases.contains(a)
                || m.repo_branches.dom().contains(a),
        forall|a: Seq<char>| #[trigger]
            m.with_repos(aliases, branch).repos.contains(a) <==> aliases.contains(a)
                || m.repos.contains(a),
        m.repos.is_prefix_of(m.with_repos(aliases, branch).repos),
        m.repos.no_duplicates() ==> m.with_repos(aliases, branch).repos.no_duplicates(),
        m.consistent() ==> m.with_repos(aliases, branch).consistent(),
        m.with_repos(aliases, branch).id == m.id,
        m.with_repos(aliases, branch).description == m.description,
        m.with_repos(aliases, branch).created_at == m.created_at,
        m.with_repos(aliases, branch).branch == m.branch,
        m.with_repos(aliases, branch).repo_worktrees == m.repo_worktrees,
    decreases aliases.len(),
{
    if aliases.len() > 0 {
        let rest = aliases.drop_last();
        let last = aliases.last();
        let mid = m.with_repos(rest, branch);
        let end = m.with_repos(aliases, branch);
        lemma_add_repos_never_overwrites(m, rest, branch);
        assert(end == mid.with_repo(last, branch));
        assert(aliases =~= rest.push(last));
        assert forall|a: Seq<char>| aliases.contains(a) <==> rest.contains(a) || a == last by {
            if aliases.contains(a) {
                let j = aliases.index_of(a);
                if j < rest.len() {
                    assert(rest[j] == a);
                }
            }
            if rest.contains(a) {
                let j = rest.index_of(a);
                assert(aliases[j] == a);
            }
            if a == last {
                assert(aliases[aliases.len() - 1] == a);
            }
        }
        assert forall|a: Seq<char>| #[trigger] m.repo_branches.dom().contains(a) implies
            end.repo_branches.dom().contains(a) && end.repo_branches[a] == m.repo_branches[a] by {
            assert(mid.repo_branches.dom().contains(a));
        }
        assert forall|a: Seq<char>| #[trigger]
            aliases.contains(a) && !m.repo_branches.dom().contains(a) implies
            end.repo_branches.dom().contains(a) && end.repo_branches[a] == branch by {
            if rest.contains(a) {
                assert(mid.repo_branches.dom().contains(a));
            } else {
                assert(a == last);
                if mid.repo_branches.dom().contains(last) {
                    assert(rest.contains(last) || m.repo_branches.dom().contains(last));
                }
            }
        }
        assert forall|a: Seq<char>| #[trigger] end.repo_branches.dom().contains(a) implies
            aliases.contains(a) || m.repo_branches.dom().contains(a) by {
            if a != last {
                assert(mid.repo_branches.dom().contains(a));
            }
        }
        assert forall|a: Seq<char>| #[trigger] end.repos.contains(a) <==> aliases.contains(a)
            || m.repos.contains(a) by {
            assert(mid.repos.contains(a) <==> rest.contains(a) || m.repos.contains(a));
            assert(mid.repos.contains(last) <==> rest.contains(last) || m.repos.contains(last));
            if mid.repos.contains(last) {
            } else {
                if end.repos.contains(a) {
                    let j = end.repos.index_of(a);
                    if j < mid.repos.len() {
                        assert(mid.repos[j] == a);
                    }
                }
                if mid.repos.contains(a) {
                    let j = mid.repos.index_of(a);
                    assert(end.repos[j] == a);
                }
                assert(end.repos[mid.repos.len() as int] == last);
            }
        }
        assert(m.repos.is_prefix_of(end.repos)) by {
            assert(m.repos.is_prefix_of(mid.repos));
            assert(mid.repos.is_prefix_of(end.repos)) by {
                if !mid.repos.contains(last) {
                    assert(end.repos.subrange(0, mid.repos.len() as int) =~= mid.repos);
                }
            }
            assert(end.repos.subrange(0, m.repos.len() as int) =~= m.repos) by {
                assert(mid.repos.subrange(0, m.repos.len() as int) =~= m.repos);
                assert(end.repos.subrange(0, mid.repos.len() as int) =~= mid.repos);
            }
        }
        if m.repos.no_duplicates() {
            assert(mid.repos.no_duplicates());
            if !mid.repos.contains(last) {
                assert forall|i: int, j: int|
                    0 <= i < end.repos.len() && 0 <= j < end.repos.len() && i != j implies
                    end.repos[i] != end.repos[j] by {
                    if i < mid.repos.len() {
                        assert(mid.repos[i] == end.repos[i]);
                    }
                    if j < mid.repos.len() {
                        assert(mid.repos[j] == end.repos[j]);
                    }
                }
            }
        }
        if m.consistent() {
            assert forall|k: Seq<char>| end.repo_branches.dom().contains(k) implies
                end.repos.contains(k) by {
                if k == last {
                    assert(aliases.contains(k));
                } else {
                    assert(mid.repo_branches.dom().contains(k));
                    assert(mid.repos.contains(k));
                }
            }
        }
    } else {
        assert(m.repos.subrange(0, m.repos.len() as int) =~= m.repos);
    }
}

/// A second call with the same aliases changes nothing, even when it names
/// another branch.
pub proof fn lemma_add_repos_again_changes_nothing(
    m: MetadataView,
    aliases: Seq<Seq<char>>,
    first: Seq<char>,
    second: Seq<char>,
)
    ensures
        m.with_repos(aliases, first).with_repos(aliases, second) == m.with_repos(aliases, first),
{
    let once = m.with_repos(aliases, first);
    lemma_add_repos_never_overwrites(m, aliases, first);
    assert forall|a: Seq<char>| #[trigger] aliases.contains(a) implies once.repos.contains(a)
        && once.repo_branches.dom().contains(a) by {
        assert(once.repos.contains(a) <==> aliases.contains(a) || m.repos.contains(a));
        if m.repo_branches.dom().contains(a) {
        }
    }
    lemma_add_known_repos(once, aliases, second);
}

/// Adding aliases that all are repositories with a branch changes nothing.
pub proof fn lemma_add_known_repos(m: MetadataView, aliases: Seq<Seq<char>>, branch: Seq<char>)
    requires
        forall|a: Seq<char>| #[trigger]
            aliases.contains(a) ==> m.repos.contains(a) && m.repo_branches.dom().contains(a),
    ensures
        m.with_repos(aliases, branch) == m,
    decreases aliases.len(),
{
    if aliases.len() > 0 {
        let rest = aliases.drop_last();
        assert forall|a: Seq<char>| #[trigger] rest.contains(a) implies m.repos.contains(a)
            && m.repo_branches.dom().contains(a) by {
            let j = rest.index_of(a);
            assert(aliases[j] == a);
            assert(aliases.contains(a));
        }
        lemma_add_known_repos(m, rest, branch);
        assert(aliases[aliases.len() - 1] == aliases.last());
        assert(aliases.contains(aliases.last()));
    }
}

/// Removing a repository leaves no trace of it and keeps a consistent record
/// consistent.
pub proof fn lemma_remove_repo_leaves_no_trace(m: MetadataView, alias: Seq<char>)
    ensures
        !m.without_repo(alias).repos.contains(alias),
        !m.without_repo(alias).repo_branches.dom().contains(alias),
        !m.without_repo(alias).repo_worktrees.dom().contains(alias),
        m.consistent() ==> m.without_repo(alias).consistent(),
        forall|a: Seq<char>|
            a != alias ==> (#[trigger] m.without_repo(alias).repos.contains(a) <==> m.repos.contains(
                a,
            )),
{
    lemma_without_contains(m.repos, alias);
    let w = without(m.repos, alias);
    assert forall|a: Seq<char>| a != alias implies (#[trigger] w.contains(a) <==> m.repos.contains(
        a,
    )) by {}
    if m.consistent() {
        assert forall|k: Seq<char>| m.without_repo(alias).repo_branches.dom().contains(
            k,
        ) implies w.contains(k) by {
            assert(m.repo_branches.dom().contains(k));
            assert(m.repos.contains(k));
            assert(w.contains(k) <==> m.repos.contains(k));
        }
    }
}

/// What the pairs give: the aliases of the map are the listed ones, none
/// twice.
pub proof fn lemma_pairs(p: Seq<(Seq<char>, Seq<char>)>)
    ensures
        pairs_keys(p).no_duplicates(),
        forall|k: Seq<char>| #[trigger] pairs_map(p).dom().contains(k) <==> pairs_keys(p).contains(k),
        forall|i: int| 0 <= i < p.len() ==> pairs_keys(p).contains(#[trigger] p[i].0),
    decreases p.len(),
{
    if p.len() > 0 {
        let rest = p.drop_last();
        let before = pairs_keys(rest);
        let after = pairs_keys(p);
        lemma_pairs(rest);
        assert forall|k: Seq<char>| #[trigger] pairs_map(p).dom().contains(k) <==> after.contains(
            k,
        ) by {
            assert(pairs_map(rest).dom().contains(k) <==> before.contains(k));
            assert(pairs_map(p) == pairs_map(rest).insert(p.last().0, p.last().1));
            if before.contains(p.last().0) {
                assert(after == before);
            } else {
                assert(after == before.push(p.last().0));
            }
            if before.contains(k) {
                let j = before.index_of(k);
                assert(after[j] == k);
            }
            if after.contains(k) {
                let j = after.index_of(k);
                if j < before.len() {
                    assert(before[j] == k);
                }
            }
            if k == p.last().0 && !before.contains(k) {
                assert(after[before.len() as int] == k);
            }
        }
        assert forall|i: int| 0 <= i < p.len() implies after.contains(#[trigger] p[i].0) by {
            if i < rest.len() {
                assert(rest[i] == p[i]);
                assert(before.contains(rest[i].0));
                let j = before.index_of(p[i].0);
                assert(after[j] == p[i].0);
            } else {
                assert(p[i] == p.last());
                if before.contains(p.last().0) {
                } else {
                    assert(after[before.len() as int] == p.last().0);
                }
            }
        }
        if !before.contains(p.last().0) {
            assert forall|i: int, j: int|
                0 <= i < after.len() && 0 <= j < after.len() && i != j implies after[i]
                != after[j] by {
                if i < before.len() {
                    assert(before[i] == after[i]);
                }
                if j < before.len() {
                    assert(before[j] == after[j]);
                }
            }
        }
    }
}

// ---------------------------------------------------------------------------
// The record in memory
// ---------------------------------------------------------------------------

/// Whether `alias` is one of `list`.
pub fn contains_alias(list: &Vec<String>, alias: &str) -> (b: bool)
    ensures
        b == views(list@).contains(alias@),
{
    let mut i: usize = 0;
    while i < list.len()
        invariant
            i <= list.len(),
            forall|j: int| 0 <= j < i ==> views(list@)[j] != alias@,
        decreases list.len() - i,
    {
        if same(list[i].as_str(), alias) {
            assert(views(list@)[i as int] == alias@);
            return true;
        }
        i += 1;
    }
    false
}

/// The current time of the local clock in RFC 3339, from
/// `chrono::Local::now` and `DateTime::to_rfc3339`. The value depends on
/// when it is asked for, so nothing is promised of it. chrono panics on a
/// machine whose clock stands before 1970 or whose time-zone data is
/// unusable: that is a state of the machine, which no argument can exclude.
#[verifier::external_body]
fn now_rfc3339() -> (stamp: String) {
    chrono::Local::now().to_rfc3339()
}

impl TicketMetadata {
    /// A copy of the record.
    pub fn duplicate(&self) -> (m: TicketMetadata)
        ensures
            m@ == self@,
    {
        let mut repos: Vec<String> = Vec::new();
        let mut i: usize = 0;
        while i < self.repos.len()
            invariant
                i <= self.repos.len(),
                views(repos@) == views(self.repos@).take(i as int),
            decreases self.repos.len() - i,
        {
            let ghost prev = repos@;
            let r = self.repos[i].clone();
            repos.push(r);
            assert(views(repos@) =~= views(prev).push(r@));
            assert(views(self.repos@).take(i + 1) =~= views(self.repos@).take(i as int).push(
                views(self.repos@)[i as int],
            ));
            i += 1;
        }
        assert(views(self.repos@).take(self.repos.len() as int) == views(self.repos@));
        let repo_branches = copy_map(&self.repo_branches);
        let repo_worktrees = copy_map(&self.repo_worktrees);
        TicketMetadata {
            id: self.id.clone(),
            description: self.description.clone(),
            created_at: self.created_at.clone(),
            branch: self.branch.clone(),
            repos,
            repo_branches,
            repo_worktrees,
        }
    }

    /// Gives every repository of a record in the first format the ticket's
    /// branch.
    pub fn heal(&mut self)
        ensures
            final(self)@ == old(self)@.healed(),
    {
        if self.repo_branches.is_empty_text() && self.repos.len() > 0 {
            let ghost before = self@;
            let mut i: usize = 0;
            while i < self.repos.len()
                invariant
                    i <= self.repos.len(),
                    self.id == old(self).id,
                    self.description == old(self).description,
                    self.created_at == old(self).created_at,
                    self.branch == old(self).branch,
                    self.repos == old(self).repos,
                    self.repo_worktrees == old(self).repo_worktrees,
                    before == old(self)@,
                    forall|k: Seq<char>| #[trigger]
                        self.repo_branches.text().dom().contains(k) <==> views(self.repos@).take(
                            i as int,
                        ).contains(k),
                    forall|k: Seq<char>|
                        self.repo_branches.text().dom().contains(k)
                            ==> #[trigger] self.repo_branches.text()[k] == self.branch@,
                decreases self.repos.len() - i,
            {
                let ghost prefix = views(self.repos@).take(i as int);
                let ghost next = views(self.repos@).take(i + 1);
                let ghost alias = views(self.repos@)[i as int];
                proof {
                    assert(next =~= prefix.push(alias));
                    assert forall|k: Seq<char>| next.contains(k) <==> prefix.contains(k) || k
                        == alias by {
                        if next.contains(k) {
                            let j = next.index_of(k);
                            if j < prefix.len() {
                                assert(prefix[j] == k);
                            }
                        }
                        if prefix.contains(k) {
                            let j = prefix.index_of(k);
                            assert(next[j] == k);
                        }
                        if k == alias {
                            assert(next[i as int] == k);
                        }
                    }
                }
                self.repo_branches.insert_text(self.repos[i].as_str(), self.branch.as_str());
                i += 1;
            }
            proof {
                assert(views(self.repos@).take(self.repos.len() as int) == views(self.repos@));
                assert(self.repo_branches.text() =~= before.healed().repo_branches);
            }
        }
    }
}

/// A copy of a map from alias to text.
pub fn copy_map(m: &AliasMap<String>) -> (out: AliasMap<String>)
    ensures
        out.text() == m.text(),
        out.keys() == m.keys(),
{
    let mut out: AliasMap<String> = AliasMap::new();
    let mut i: usize = 0;
    m.know_coherent();
    assert(out.text() =~= Map::<Seq<char>, Seq<char>>::empty());
    while i < m.len()
        invariant
            i <= m.keys().len(),
            m.coherent(),
            out.coherent(),
            out.keys() == m.keys().take(i as int),
            forall|k: Seq<char>| #[trigger]
                out.text().dom().contains(k) ==> m.text().dom().contains(k) && out.text()[k]
                    == m.text()[k],
        decreases m.keys().len() - i,
    {
        let k = m.key_at(i);
        let v = m.text_at(i);
        proof {
            assert(!m.keys().take(i as int).contains(k@)) by {
                if m.keys().take(i as int).contains(k@) {
                    let j = m.keys().take(i as int).index_of(k@);
                    assert(m.keys()[j] == m.keys()[i as int]);
                }
            }
            assert(m.keys().take(i + 1) =~= m.keys().take(i as int).push(k@));
        }
        out.insert_text(k.as_str(), v.as_str());
        i += 1;
    }
    proof {
        assert(m.keys().take(m.keys().len() as int) == m.keys());
        assert forall|k: Seq<char>| m.text().dom().contains(k) implies out.text().dom().contains(
            k,
        ) by {
            assert(m.keys().contains(k));
            assert(out.keys().contains(k));
        }
        assert(out.text() =~= m.text());
    }
    out
}

impl Ticket {
    /// The ticket whose record `fresh_metadata` describes, made at
    /// `created_at`.
    pub fn stamp(
        root: &str,
        id: &str,
        description: Option<&String>,
        default_branch: &str,
        repo_branches: &[(String, String)],
        created_at: &str,
    ) -> (t: Ticket)
        ensures
            t.root@ == root@,
            t.metadata@ == fresh_metadata(
                id@,
                opt_ref_view(description),
                created_at@,
                default_branch@,
                pair_views(repo_branches@),
            ),
            t.metadata@.consistent(),
            t.metadata@.repos.no_duplicates(),
    {
        let ghost pairs = pair_views(repo_branches@);
        let mut branches: AliasMap<String> = AliasMap::new();
        let mut repos: Vec<String> = Vec::new();
        let mut i: usize = 0;
        assert(branches.text() =~= Map::<Seq<char>, Seq<char>>::empty());
        assert(views(repos@) =~= Seq::<Seq<char>>::empty());
        while i < repo_branches.len()
            invariant
                i <= repo_branches.len(),
                pairs == pair_views(repo_branches@),
                branches.text() == pairs_map(pairs.take(i as int)),
                views(repos@) == pairs_keys(pairs.take(i as int)),
            decreases repo_branches.len() - i,
        {
            proof {
                assert(pairs.take(i + 1).drop_last() == pairs.take(i as int));
                assert(pairs.take(i + 1).last() == pairs[i as int]);
                lemma_pairs(pairs.take(i as int));
            }
            let alias = &repo_branches[i].0;
            let branch = &repo_branches[i].1;
            let ghost before = repos@;
            if !contains_alias(&repos, alias.as_str()) {
                repos.push(alias.clone());
                assert(views(repos@) =~= views(before).push(alias@));
            }
            branches.insert_text(alias.as_str(), branch.as_str());
            i += 1;
        }
        proof {
            assert(pairs.take(repo_branches.len() as int) == pairs);
            lemma_pairs(pairs);
        }
        let worktrees: AliasMap<String> = AliasMap::new();
        assert(worktrees.text() =~= Map::<Seq<char>, Seq<char>>::empty());
        let description = match description {
            Some(d) => Some(d.clone()),
            None => None,
        };
        Ticket {
            root: copy_str(root),
            metadata: TicketMetadata {
                id: copy_str(id),
                description,
                created_at: copy_str(created_at),
                branch: copy_str(default_branch),
                repos,
                repo_branches: branches,
                repo_worktrees: worktrees,
            },
        }
    }

    /// A fresh ticket, made now: its repositories are the distinct aliases of
    /// the pairs, each on the branch of its last pair.
    pub fn create(
        root: &str,
        id: &str,
        description: Option<&String>,
        default_branch: &str,
        repo_branches: &[(String, String)],
    ) -> (t: Ticket)
        ensures
            t.root@ == root@,
            t.metadata@ == fresh_metadata(
                id@,
                opt_ref_view(description),
                t.metadata.created_at@,
                default_branch@,
                pair_views(repo_branches@),
            ),
            t.metadata@.consistent(),
            t.metadata@.repos.no_duplicates(),
    {
        let created_at = now_rfc3339();
        Ticket::stamp(root, id, description, default_branch, repo_branches, created_at.as_str())
    }

    /// The ticket at `root` from what was stored there: none without a
    /// stored record; otherwise the record, healed.
    pub fn load(root: &str, stored: Option<TicketMetadata>) -> (r: Result<Ticket, TixError>)
        ensures
            match stored {
                Some(m) => r is Ok && r->Ok_0.root@ == root@ && r->Ok_0.metadata@ == m@.healed(),
                None => r is Err && r->Err_0.kind == ErrorKind::NotFound && r->Err_0.detail@
                    == root@,
            },
            stored is Some && stored->0@.is_first_format() ==> forall|a: Seq<char>|
                stored->0@.repos.contains(a) ==> r->Ok_0.metadata@.repo_branches.dom().contains(a)
                    && #[trigger] r->Ok_0.metadata@.repo_branches[a] == stored->0@.branch,
    {
        match stored {
            Some(m) => {
                let mut metadata = m;
                metadata.heal();
                proof {
                    if m@.is_first_format() {
                        lemma_heal_seeds_every_alias(m@);
                    }
                }
                Ok(Ticket { root: copy_str(root), metadata })
            },
            None => Err(TixError::new(ErrorKind::NotFound, root)),
        }
    }

    /// Adds each of `repos` to the ticket's repositories and gives it
    /// `branch`, unless it has a branch already: that one is kept.
    pub fn add_repos_with_branch(&mut self, repos: &[String], branch: &str)
        ensures
            final(self).root == old(self).root,
            final(self).metadata@ == old(self).metadata@.with_repos(views(repos@), branch@),
            forall|a: Seq<char>| #[trigger]
                old(self).metadata@.repo_branches.dom().contains(a) ==> final(
                    self).metadata@.repo_branches.dom().contains(a) && final(
                    self).metadata@.repo_branches[a] == old(self).metadata@.repo_branches[a],
            old(self).metadata@.consistent() ==> final(self).metadata@.consistent(),
    {
        let ghost start = self.metadata@;
        let ghost aliases = views(repos@);
        let mut i: usize = 0;
        while i < repos.len()
            invariant
                i <= repos.len(),
                self.root == old(self).root,
                start == old(self).metadata@,
                aliases == views(repos@),
                self.metadata@ == start.with_repos(aliases.take(i as int), branch@),
            decreases repos.len() - i,
        {
            proof {
                assert(aliases.take(i + 1).drop_last() == aliases.take(i as int));
                assert(aliases.take(i + 1).last() == repos@[i as int]@);
            }
            self.add_repo_branch(repos[i].as_str(), branch);
            i += 1;
        }
        proof {
            assert(aliases.take(repos.len() as int) == aliases);
            lemma_add_repos_never_overwrites(start, aliases, branch@);
        }
    }

    /// Adds `repo` to the ticket's repositories and gives it `branch`,
    /// unless it has a branch already.
    pub fn add_repo_branch(&mut self, repo: &str, branch: &str)
        ensures
            final(self).root == old(self).root,
            final(self).metadata@ == old(self).metadata@.with_repo(repo@, branch@),
    {
        let ghost before = self.metadata.repos@;
        if !contains_alias(&self.metadata.repos, repo) {
            self.metadata.repos.push(copy_str(repo));
            assert(views(self.metadata.repos@) =~= views(before).push(repo@));
        }
        if !self.metadata.repo_branches.has_text(repo) {
            self.metadata.repo_branches.insert_text(repo, branch);
        }
    }

    /// Drops `repo` from the ticket's repositories, with its branch and its
    /// worktree name.
    pub fn remove_repo(&mut self, repo: &str)
        ensures
            final(self).root == old(self).root,
            final(self).metadata@ == old(self).metadata@.without_repo(repo@),
            !final(self).metadata@.repos.contains(repo@),
            old(self).metadata@.consistent() ==> final(self).metadata@.consistent(),
    {
        let ghost before = views(self.metadata.repos@);
        let mut kept: Vec<String> = Vec::new();
        let mut i: usize = 0;
        assert(views(kept@) =~= without(before.take(0), repo@));
        while i < self.metadata.repos.len()
            invariant
                i <= self.metadata.repos.len(),
                *self == *old(self),
                before == views(self.metadata.repos@),
                views(kept@) == without(before.take(i as int), repo@),
            decreases self.metadata.repos.len() - i,
        {
            proof {
                assert(before.take(i + 1).drop_last() == before.take(i as int));
                assert(before.take(i + 1).last() == before[i as int]);
            }
            let ghost prev = kept@;
            if !same(self.metadata.repos[i].as_str(), repo) {
                kept.push(self.metadata.repos[i].clone());
                assert(views(kept@) =~= views(prev).push(before[i as int]));
            }
            i += 1;
        }
        proof {
            assert(before.take(self.metadata.repos.len() as int) == before);
            lemma_remove_repo_leaves_no_trace(self.metadata@, repo@);
        }
        self.metadata.repos = kept;
        self.metadata.repo_branches.remove_text(repo);
        self.metadata.repo_worktrees.remove_text(repo);
    }

    /// Records `branch` as the ticket's branch if none is recorded, and says
    /// whether the record changed.
    pub fn ensure_branch(&mut self, branch: &str) -> (changed: bool)
        ensures
            final(self).root == old(self).root,
            final(self).metadata@ == old(self).metadata@.with_branch_if_unset(branch@),
            changed == (old(self).metadata@.branch.len() == 0),
    {
        if char_count(self.metadata.branch.as_str()) == 0 {
            self.metadata.branch = copy_str(branch);
            true
        } else {
            false
        }
    }

    /// Records `name` as the name of the worktree of `repo`.
    pub fn record_worktree(&mut self, repo: &str, name: &str)
        ensures
            final(self).root == old(self).root,
            final(self).metadata@ == old(self).metadata@.with_worktree(repo@, name@),
    {
        self.metadata.repo_worktrees.insert_text(repo, name);
    }
}

/// The name under which the worktree of `branch` is registered: the branch
/// with `_` for every `/`.
pub open spec fn worktree_name_of(branch: Seq<char>) -> Seq<char> {
    replace_char_of(branch, '/', '_')
}

/// No worktree name holds a `/`.
pub proof fn lemma_worktree_name_has_no_slash(branch: Seq<char>)
    ensures
        !worktree_name_of(branch).contains('/'),
        worktree_name_of(branch).len() == branch.len(),
{
    let name = worktree_name_of(branch);
    if name.contains('/') {
        let i = name.index_of('/');
        assert(name[i] == '/');
    }
}

/// The worktree name of a ticket's branch holds no `/`, whatever the prefix,
/// the ticket id and the description are.
pub proof fn lemma_worktree_name_of_branch_has_no_slash(
    prefix: Seq<char>,
    ticket_id: Seq<char>,
    description: Option<Seq<char>>,
)
    ensures
        !worktree_name_of(
            crate::commands::common::branch_name_of(prefix, ticket_id, description),
        ).contains('/'),
{
    lemma_worktree_name_has_no_slash(
        crate::commands::common::branch_name_of(prefix, ticket_id, description),
    );
}

/// The name of the worktree of `branch`.
pub fn worktree_name_for_branch(branch: &str) -> (name: String)
    ensures
        name@ == worktree_name_of(branch@),
        !name@.contains('/'),
{
    proof {
        lemma_worktree_name_has_no_slash(branch@);
    }
    replace_char(branch, '/', '_')
}

} // verus!
