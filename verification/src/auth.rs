//! The chain of ways to authenticate to a remote.
//!
//! The git backend asks for a credential through a callback, and may ask
//! again each time a credential is turned down. The ways to get one are
//! tried in a fixed order, each at most once while one remote operation
//! lasts: a key from the SSH agent, the system's credential helper, and the
//! external `git credential fill`. A `CredentialAttempt` remembers which of
//! them were tried; it is made when the operation starts and dropped when it
//! ends.

use vstd::prelude::*;
use crate::error::ErrorKind;
use crate::error::TixError;
use crate::text::concat3;
use crate::text::copy_str;
use crate::text::find_first;
use crate::text::first_index_of;
use crate::text::from_chars_range;
use crate::text::lines_of;
use crate::text::opt_view;
use crate::text::split_lines;
use crate::text::strip_prefix;
use crate::text::strip_prefix_of;
use crate::text::to_chars;
use crate::text::views;

verus! {

/// Which ways were tried since the remote operation began.
#[derive(Debug)]
pub struct CredentialAttempt {
    tried_ssh_agent: bool,
    tried_helper: bool,
    tried_external_fill: bool,
}

/// The flags of a `CredentialAttempt`.
pub struct AttemptView {
    pub tried_ssh_agent: bool,
    pub tried_helper: bool,
    pub tried_external_fill: bool,
}

/// What the backend asks for: the remote, the user named in its URL, and the
/// kinds of credential that it takes.
#[derive(Debug)]
pub struct Challenge {
    pub url: String,
    pub username: Option<String>,
    pub allows_ssh_key: bool,
    pub allows_user_pass: bool,
    pub allows_username: bool,
}

/// A `Challenge` with its texts as sequences.
pub struct ChallengeView {
    pub url: Seq<char>,
    pub username: Option<Seq<char>>,
    pub allows_ssh_key: bool,
    pub allows_user_pass: bool,
    pub allows_username: bool,
}

/// The way to try next.
#[derive(Debug)]
pub enum Strategy {
    /// Ask the SSH agent for a key of `username`.
    SshAgent { username: String },
    /// Ask the credential helper of the git configuration.
    CredentialHelper,
    /// Run `git credential fill` for `protocol` and `host`.
    ExternalFill { protocol: String, host: String },
    /// Every way that the challenge allows has been tried.
    Exhausted,
}

/// A `Strategy` with its texts as sequences.
pub enum StrategyView {
    SshAgent { username: Seq<char> },
    CredentialHelper,
    ExternalFill { protocol: Seq<char>, host: Seq<char> },
    Exhausted,
}

impl View for CredentialAttempt {
    type V = AttemptView;

    closed spec fn view(&self) -> AttemptView {
        AttemptView {
            tried_ssh_agent: self.tried_ssh_agent,
            tried_helper: self.tried_helper,
            tried_external_fill: self.tried_external_fill,
        }
    }
}

impl View for Challenge {
    type V = ChallengeView;

    open spec fn view(&self) -> ChallengeView {
        ChallengeView {
            url: self.url@,
            username: opt_view(self.username),
            allows_ssh_key: self.allows_ssh_key,
            allows_user_pass: self.allows_user_pass,
            allows_username: self.allows_username,
        }
    }
}

impl View for Strategy {
    type V = StrategyView;

    open spec fn view(&self) -> StrategyView {
        match *self {
            Strategy::SshAgent { username } => StrategyView::SshAgent { username: username@ },
            Strategy::CredentialHelper => StrategyView::CredentialHelper,
            Strategy::ExternalFill { protocol, host } => StrategyView::ExternalFill {
                protocol: protocol@,
                host: host@,
            },
            Strategy::Exhausted => StrategyView::Exhausted,
        }
    }
}

// ---------------------------------------------------------------------------
// The remote's protocol and host
// ---------------------------------------------------------------------------

/// What stands before the first `/` of `rest`: all of it where there is none.
pub open spec fn host_of(rest: Seq<char>) -> Seq<char> {
    rest.take(first_index_of(rest, '/', '/'))
}

/// The protocol and the host of an `https://` or `http://` URL; none for any
/// other.
pub open spec fn credential_target_of(url: Seq<char>) -> Option<(Seq<char>, Seq<char>)> {
    match strip_prefix_of(url, "https://"@) {
        Some(rest) => Some(("https"@, host_of(rest))),
        None => match strip_prefix_of(url, "http://"@) {
            Some(rest) => Some(("http"@, host_of(rest))),
            None => None,
        },
    }
}

fn host(rest: &str) -> (h: String)
    ensures
        h@ == host_of(rest@),
{
    let v = to_chars(rest);
    let k = find_first(&v, '/', '/');
    let h = from_chars_range(&v, 0, k);
    assert(v@.subrange(0, k as int) == v@.take(k as int));
    h
}

/// The protocol and the host by which credentials for `url` are looked up.
pub fn credential_target(url: &str) -> (r: Option<(String, String)>)
    ensures
        r is Some == credential_target_of(url@) is Some,
        r is Some ==> (r->0).0@ == (credential_target_of(url@)->0).0 && (r->0).1@
            == (credential_target_of(url@)->0).1,
{
    match strip_prefix(url, "https://") {
        Some(rest) => Some((copy_str("https"), host(rest.as_str()))),
        None => match strip_prefix(url, "http://") {
            Some(rest) => Some((copy_str("http"), host(rest.as_str()))),
            None => None,
        },
    }
}

// ---------------------------------------------------------------------------
// The chain
// ---------------------------------------------------------------------------

/// The user whose key the SSH agent is asked for: the one of the URL, else
/// `git`.
pub open spec fn ssh_user_of(challenge: ChallengeView) -> Seq<char> {
    match challenge.username {
        Some(u) => u,
        None => "git"@,
    }
}

/// Whether the challenge takes a user name or a user name with a password.
pub open spec fn allows_password(challenge: ChallengeView) -> bool {
    challenge.allows_user_pass || challenge.allows_username
}

/// The way to try next for `challenge`, and the flags afterwards.
///
/// The SSH agent comes first, where the challenge takes a key; then the
/// credential helper and, after it, `git credential fill`, where the
/// challenge takes a password. A way whose flag is set is passed over. The
/// external fill needs the protocol and the host of an HTTP(S) URL: for any
/// other URL it counts as tried and yields nothing.
pub open spec fn next_strategy(state: AttemptView, challenge: ChallengeView) -> (
    StrategyView,
    AttemptView,
) {
    if challenge.allows_ssh_key && !state.tried_ssh_agent {
        (
            StrategyView::SshAgent { username: ssh_user_of(challenge) },
            AttemptView { tried_ssh_agent: true, ..state },
        )
    } else if allows_password(challenge) && !state.tried_helper {
        (StrategyView::CredentialHelper, AttemptView { tried_helper: true, ..state })
    } else if allows_password(challenge) && !state.tried_external_fill {
        (
            match credential_target_of(challenge.url) {
                Some((protocol, host)) => StrategyView::ExternalFill { protocol, host },
                None => StrategyView::Exhausted,
            },
            AttemptView { tried_external_fill: true, ..state },
        )
    } else {
        (StrategyView::Exhausted, state)
    }
}

impl CredentialAttempt {
    /// The state at the start of a remote operation: nothing tried.
    pub fn new() -> (a: CredentialAttempt)
        ensures
            a@ == (AttemptView {
                tried_ssh_agent: false,
                tried_helper: false,
                tried_external_fill: false,
            }),
    {
        CredentialAttempt { tried_ssh_agent: false, tried_helper: false, tried_external_fill: false }
    }

    /// Whether the SSH agent was asked.
    pub fn tried_ssh_agent(&self) -> (b: bool)
        ensures
            b == self@.tried_ssh_agent,
    {
        self.tried_ssh_agent
    }

    /// Whether the credential helper was asked.
    pub fn tried_helper(&self) -> (b: bool)
        ensures
            b == self@.tried_helper,
    {
        self.tried_helper
    }

    /// Whether `git credential fill` was due.
    pub fn tried_external_fill(&self) -> (b: bool)
        ensures
            b == self@.tried_external_fill,
    {
        self.tried_external_fill
    }

    /// The way to try next for `challenge`. The caller tries it; if it gives
    /// no credential the caller asks again, and on `Exhausted` reports
    /// `authentication_failure`.
    pub fn next(&mut self, challenge: &Challenge) -> (s: Strategy)
        ensures
            s@ == next_strategy(old(self)@, challenge@).0,
            final(self)@ == next_strategy(old(self)@, challenge@).1,
    {
        let password = challenge.allows_user_pass || challenge.allows_username;
        if challenge.allows_ssh_key && !self.tried_ssh_agent {
            self.tried_ssh_agent = true;
            let username = match &challenge.username {
                Some(u) => u.clone(),
                None => copy_str("git"),
            };
            Strategy::SshAgent { username }
        } else if password && !self.tried_helper {
            self.tried_helper = true;
            Strategy::CredentialHelper
        } else if password && !self.tried_external_fill {
            self.tried_external_fill = true;
            match credential_target(challenge.url.as_str()) {
                Some((protocol, host)) => Strategy::ExternalFill { protocol, host },
                None => Strategy::Exhausted,
            }
        } else {
            Strategy::Exhausted
        }
    }
}

/// The ways that are handed out when `next` is called once for each of
/// `challenges`, starting from `state`; and the flags at the end.
pub open spec fn attempts(state: AttemptView, challenges: Seq<ChallengeView>) -> (
    Seq<StrategyView>,
    AttemptView,
)
    decreases challenges.len(),
{
    if challenges.len() == 0 {
        (Seq::empty(), state)
    } else {
        let before = attempts(state, challenges.drop_last());
        let step = next_strategy(before.1, challenges.last());
        (before.0.push(step.0), step.1)
    }
}

/// Whether two ways are the same kind of way.
pub open spec fn same_kind(a: StrategyView, b: StrategyView) -> bool {
    ||| a is SshAgent && b is SshAgent
    ||| a is CredentialHelper && b is CredentialHelper
    ||| a is ExternalFill && b is ExternalFill
}

/// Whether the flag of the way `s` is set in `state`.
pub open spec fn marked(state: AttemptView, s: StrategyView) -> bool {
    match s {
        StrategyView::SshAgent { .. } => state.tried_ssh_agent,
        StrategyView::CredentialHelper => state.tried_helper,
        StrategyView::ExternalFill { .. } => state.tried_external_fill,
        StrategyView::Exhausted => true,
    }
}

/// One call never hands out a way whose flag is set, sets the flag of the
/// way that it hands out, and clears none.
pub proof fn lemma_next_marks(state: AttemptView, challenge: ChallengeView)
    ensures
        ({
            let (s, after) = next_strategy(state, challenge);
            &&& !(s is Exhausted) ==> !marked(state, s) && marked(after, s)
            &&& state.tried_ssh_agent ==> after.tried_ssh_agent
            &&& state.tried_helper ==> after.tried_helper
            &&& state.tried_external_fill ==> after.tried_external_fill
        }),
{
}

/// Each way is tried at most once per session: however often the backend
/// asks, and whatever it asks for, no two of the ways handed out are of the
/// same kind. At most three ways are handed out before the chain is
/// exhausted for good.
pub proof fn lemma_each_strategy_at_most_once(challenges: Seq<ChallengeView>, i: int, j: int)
    requires
        0 <= i < j < challenges.len(),
    ensures
        ({
            let fresh = AttemptView {
                tried_ssh_agent: false,
                tried_helper: false,
                tried_external_fill: false,
            };
            !same_kind(attempts(fresh, challenges).0[i], attempts(fresh, challenges).0[j])
        }),
{
    let fresh = AttemptView {
        tried_ssh_agent: false,
        tried_helper: false,
        tried_external_fill: false,
    };
    lemma_attempts_marked(fresh, challenges);
    lemma_attempts_prefix(fresh, challenges, j);
    lemma_attempts_prefix(fresh, challenges, j + 1);
    let upto = attempts(fresh, challenges.take(j));
    lemma_attempts_marked(fresh, challenges.take(j));
    let at_j = next_strategy(upto.1, challenges[j]);
    assert(challenges.take(j + 1).drop_last() == challenges.take(j));
    assert(challenges.take(j + 1).last() == challenges[j]);
    let one_more = attempts(fresh, challenges.take(j + 1));
    assert(one_more.0 == upto.0.push(at_j.0));
    assert(one_more.0[j] == at_j.0);
    assert(attempts(fresh, challenges).0.take(j + 1)[j] == attempts(fresh, challenges).0[j]);
    assert(attempts(fresh, challenges).0[j] == at_j.0);
    assert(attempts(fresh, challenges).0.take(j)[i] == attempts(fresh, challenges).0[i]);
    assert(attempts(fresh, challenges).0[i] == upto.0[i]);
    lemma_next_marks(upto.1, challenges[j]);
}

/// Every way handed out so far has its flag set.
pub proof fn lemma_attempts_marked(state: AttemptView, challenges: Seq<ChallengeView>)
    ensures
        attempts(state, challenges).0.len() == challenges.len(),
        forall|i: int|
            0 <= i < challenges.len() ==> marked(
                attempts(state, challenges).1,
                #[trigger] attempts(state, challenges).0[i],
            ),
        state.tried_ssh_agent ==> attempts(state, challenges).1.tried_ssh_agent,
        state.tried_helper ==> attempts(state, challenges).1.tried_helper,
        state.tried_external_fill ==> attempts(state, challenges).1.tried_external_fill,
    decreases challenges.len(),
{
    if challenges.len() > 0 {
        let rest = challenges.drop_last();
        lemma_attempts_marked(state, rest);
        let before = attempts(state, rest);
        lemma_next_marks(before.1, challenges.last());
        let end = attempts(state, challenges);
        assert forall|i: int| 0 <= i < challenges.len() implies marked(
            end.1,
            #[trigger] end.0[i],
        ) by {
            if i < rest.len() {
                assert(end.0[i] == before.0[i]);
                assert(marked(before.1, before.0[i]));
            }
        }
    }
}

/// The ways handed out for the first `n` challenges do not depend on the
/// later ones.
pub proof fn lemma_attempts_prefix(state: AttemptView, challenges: Seq<ChallengeView>, n: int)
    requires
        0 <= n <= challenges.len(),
    ensures
        attempts(state, challenges.take(n)).0 == attempts(state, challenges).0.take(n),
    decreases challenges.len(),
{
    lemma_attempts_marked(state, challenges);
    lemma_attempts_marked(state, challenges.take(n));
    if n == challenges.len() {
        assert(challenges.take(n) == challenges);
        assert(attempts(state, challenges).0.take(n) == attempts(state, challenges).0);
    } else {
        let rest = challenges.drop_last();
        lemma_attempts_prefix(state, rest, n);
        assert(rest.take(n) == challenges.take(n));
        assert(attempts(state, challenges).0.take(n) =~= attempts(state, rest).0.take(n));
    }
}

/// Once every flag is set, the chain is exhausted whatever is asked.
pub proof fn lemma_exhausted_stays(state: AttemptView, challenge: ChallengeView)
    requires
        state.tried_ssh_agent,
        state.tried_helper,
        state.tried_external_fill,
    ensures
        next_strategy(state, challenge) == (StrategyView::Exhausted, state),
{
}

// ---------------------------------------------------------------------------
// The failure
// ---------------------------------------------------------------------------

/// What the user can do about a failed authentication.
pub open spec fn remediation() -> Seq<char> {
    ".\n\nThe repository requires authentication, but no valid credentials were found.\n\nPlease try one of the following:\n1. Configure git credential helper to cache your credentials:\n   git config --global credential.helper cache\n   Then run 'git fetch' manually in the repository to cache credentials\n\n2. Use SSH instead of HTTPS by updating the repository URL:\n   git remote set-url origin git@github.com:USER/REPO.git\n\n3. For GitHub, create a personal access token and use it as your password\n\nThe command-line 'git fetch' may work because it can prompt for credentials,\nbut programmatic access requires pre-configured authentication."@
}

/// The text of the failure to authenticate to `url`.
pub open spec fn failure_text(url: Seq<char>) -> Seq<char> {
    "Failed to authenticate to "@ + url + remediation()
}

/// The error that ends a remote operation once the chain is exhausted: it
/// names the remote and says what the user can do.
pub fn authentication_failure(url: &str) -> (e: TixError)
    ensures
        e.kind == ErrorKind::AuthenticationFailed,
        e.detail@ == failure_text(url@),
{
    let detail = concat3(
        "Failed to authenticate to ",
        url,
        ".\n\nThe repository requires authentication, but no valid credentials were found.\n\nPlease try one of the following:\n1. Configure git credential helper to cache your credentials:\n   git config --global credential.helper cache\n   Then run 'git fetch' manually in the repository to cache credentials\n\n2. Use SSH instead of HTTPS by updating the repository URL:\n   git remote set-url origin git@github.com:USER/REPO.git\n\n3. For GitHub, create a personal access token and use it as your password\n\nThe command-line 'git fetch' may work because it can prompt for credentials,\nbut programmatic access requires pre-configured authentication.",
    );
    TixError { kind: ErrorKind::AuthenticationFailed, detail }
}

// ---------------------------------------------------------------------------
// Talking to `git credential fill`
// ---------------------------------------------------------------------------

/// What is written to `git credential fill`.
pub open spec fn fill_input_of(protocol: Seq<char>, host: Seq<char>) -> Seq<char> {
    "protocol="@ + protocol + "\nhost="@ + host + "\n\n"@
}

/// The request that `git credential fill` reads: protocol, host, and an
/// empty line.
pub fn credential_fill_input(protocol: &str, host: &str) -> (out: String)
    ensures
        out@ == fill_input_of(protocol@, host@),
{
    let head = concat3("protocol=", protocol, "\nhost=");
    concat3(head.as_str(), host, "\n\n")
}

/// What follows `prefix` in the last line that begins with it.
pub open spec fn last_with_prefix(lines: Seq<Seq<char>>, prefix: Seq<char>) -> Option<Seq<char>>
    decreases lines.len(),
{
    if lines.len() == 0 {
        None
    } else {
        match strip_prefix_of(lines.last(), prefix) {
            Some(value) => Some(value),
            None => last_with_prefix(lines.drop_last(), prefix),
        }
    }
}

/// The user name and the password that `git credential fill` printed: both
/// must be there; of several lines for one of them the last counts.
pub open spec fn parsed_credentials(output: Seq<char>) -> Option<(Seq<char>, Seq<char>)> {
    match (
        last_with_prefix(lines_of(output), "username="@),
        last_with_prefix(lines_of(output), "password="@),
    ) {
        (Some(u), Some(p)) => Some((u, p)),
        _ => None,
    }
}

/// What a run of `git credential fill` gave: nothing where the command
/// failed, else the user name and the password that it printed.
pub open spec fn fill_result(exit_ok: bool, output: Seq<char>) -> Option<(Seq<char>, Seq<char>)> {
    if exit_ok {
        parsed_credentials(output)
    } else {
        None
    }
}

/// What follows `prefix` in the last of `lines` that begins with it.
pub fn find_last_with_prefix(lines: &Vec<String>, prefix: &str) -> (r: Option<String>)
    ensures
        r is Some == last_with_prefix(views(lines@), prefix@) is Some,
        r is Some ==> r->0@ == last_with_prefix(views(lines@), prefix@)->0,
{
    let ghost all = views(lines@);
    let mut n: usize = lines.len();
    assert(all.take(n as int) == all);
    while n > 0
        invariant
            n <= lines.len(),
            all == views(lines@),
            last_with_prefix(all, prefix@) == last_with_prefix(all.take(n as int), prefix@),
        decreases n,
    {
        proof {
            assert(all.take(n as int).last() == lines@[n - 1]@);
            assert(all.take(n as int).drop_last() == all.take(n - 1));
        }
        match strip_prefix(lines[n - 1].as_str(), prefix) {
            Some(value) => {
                return Some(value);
            },
            None => {},
        }
        n -= 1;
    }
    None
}

/// Reads the user name and the password out of what `git credential fill`
/// printed.
pub fn parse_credential_output(output: &str) -> (r: Option<(String, String)>)
    ensures
        r is Some == parsed_credentials(output@) is Some,
        r is Some ==> (r->0).0@ == (parsed_credentials(output@)->0).0 && (r->0).1@
            == (parsed_credentials(output@)->0).1,
{
    let lines = split_lines(output);
    let username = find_last_with_prefix(&lines, "username=");
    let password = find_last_with_prefix(&lines, "password=");
    match (username, password) {
        (Some(u), Some(p)) => Some((u, p)),
        _ => None,
    }
}

/// The credential that a run of `git credential fill` gave. `exit_ok` says
/// whether the command ran and ended well, `output` is what it printed. A
/// command that failed gives no credential, whatever it printed.
pub fn credential_from_fill(exit_ok: bool, output: &str) -> (r: Option<(String, String)>)
    ensures
        r is Some == fill_result(exit_ok, output@) is Some,
        r is Some ==> (r->0).0@ == (fill_result(exit_ok, output@)->0).0 && (r->0).1@ == (
            fill_result(exit_ok, output@)->0).1,
{
    if exit_ok {
        parse_credential_output(output)
    } else {
        None
    }
}

} // verus!
