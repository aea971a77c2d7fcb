//! The first configuration: what the prompts offer, and what the answers
//! become.

use vstd::prelude::*;
use crate::config::Config;
use crate::paths::expand_path_with;
use crate::paths::expanded_of;
use crate::paths::join;
use crate::paths::join_of;
use crate::text::char_count;
use crate::text::copy_str;

verus! {

/// The five settings that `init` asks for.
#[derive(Debug)]
pub struct InitAnswers {
    pub tickets_directory: String,
    pub code_directory: String,
    pub branch_prefix: String,
    pub github_base_url: String,
    pub default_repository_owner: String,
}

/// Expands a leading `~/` to the home directory of the current user.
pub fn expand_path(input: &str) -> (out: String)
    ensures
        exists|home: Option<Seq<char>>| out@ == expanded_of(input@, home),
        crate::text::strip_prefix_of(input@, "~/"@) is None ==> out@ == input@,
{
    crate::paths::expand_path(input)
}

/// `value`, or `default` where `value` is empty.
pub fn fallback<'a>(value: &'a str, default: &'a str) -> (r: &'a str)
    ensures
        r@ == if value@.len() == 0 {
            default@
        } else {
            value@
        },
{
    if char_count(value) == 0 {
        default
    } else {
        value
    }
}

/// The path that a prompt offers: the current one; else the candidate; else
/// the fallback.
pub fn default_path_str(current: &str, candidate: Option<String>, fallback: &str) -> (r: String)
    ensures
        r@ == if current@.len() > 0 {
            current@
        } else {
            match candidate {
                Some(c) => c@,
                None => fallback@,
            }
        },
{
    if char_count(current) > 0 {
        copy_str(current)
    } else {
        match candidate {
            Some(c) => c,
            None => copy_str(fallback),
        }
    }
}

/// `name` under the home directory, where one is known.
pub open spec fn under_home(home: Option<Seq<char>>, name: Seq<char>) -> Option<Seq<char>> {
    match home {
        Some(h) => Some(join_of(h, name)),
        None => None,
    }
}

/// `value`, or `default` where `value` is empty.
pub open spec fn or_default(value: Seq<char>, default: Seq<char>) -> Seq<char> {
    if value.len() == 0 {
        default
    } else {
        value
    }
}

/// The path that a prompt offers: the current one; else the candidate; else
/// the fallback.
pub open spec fn path_default(
    current: Seq<char>,
    candidate: Option<Seq<char>>,
    fallback: Seq<char>,
) -> Seq<char> {
    if current.len() > 0 {
        current
    } else {
        match candidate {
            Some(c) => c,
            None => fallback,
        }
    }
}

/// What the prompts offer: each setting as it is, or its default where it is
/// empty. The directories default to `tickets` and `code` under the home
/// directory, or under the working directory where no home is known.
pub fn prompt_defaults(config: &Config, home: Option<&str>) -> (d: InitAnswers)
    ensures
        d.tickets_directory@ == path_default(
            config.tickets_directory@,
            under_home(crate::text::str_opt_view(home), "tickets"@),
            "./tickets"@,
        ),
        d.code_directory@ == path_default(
            config.code_directory@,
            under_home(crate::text::str_opt_view(home), "code"@),
            "./code"@,
        ),
        d.branch_prefix@ == or_default(config.branch_prefix@, "feature"@),
        d.github_base_url@ == or_default(config.github_base_url@, "https://github.com"@),
        d.default_repository_owner@ == or_default(config.default_repository_owner@, "my-org"@),
{
    let tickets_candidate = match home {
        Some(h) => Some(join(h, "tickets")),
        None => None,
    };
    let code_candidate = match home {
        Some(h) => Some(join(h, "code")),
        None => None,
    };
    InitAnswers {
        tickets_directory: default_path_str(
            config.tickets_directory.as_str(),
            tickets_candidate,
            "./tickets",
        ),
        code_directory: default_path_str(config.code_directory.as_str(), code_candidate, "./code"),
        branch_prefix: copy_str(fallback(config.branch_prefix.as_str(), "feature")),
        github_base_url: copy_str(fallback(config.github_base_url.as_str(), "https://github.com")),
        default_repository_owner: copy_str(
            fallback(config.default_repository_owner.as_str(), "my-org"),
        ),
    }
}

/// Takes the answers into the configuration: the two directories expanded
/// against `home`, the rest as given. The registries are left alone.
pub fn run(config: &mut Config, answers: InitAnswers, home: Option<&str>)
    ensures
        final(config).tickets_directory@ == expanded_of(
            answers.tickets_directory@,
            crate::text::str_opt_view(home),
        ),
        final(config).code_directory@ == expanded_of(
            answers.code_directory@,
            crate::text::str_opt_view(home),
        ),
        final(config).branch_prefix@ == answers.branch_prefix@,
        final(config).github_base_url@ == answers.github_base_url@,
        final(config).default_repository_owner@ == answers.default_repository_owner@,
        final(config).repositories == old(config).repositories,
        final(config).plugins == old(config).plugins,
        final(config).jira_base_url == old(config).jira_base_url,
{
    config.tickets_directory = expand_path_with(answers.tickets_directory.as_str(), home);
    config.code_directory = expand_path_with(answers.code_directory.as_str(), home);
    config.branch_prefix = answers.branch_prefix;
    config.github_base_url = answers.github_base_url;
    config.default_repository_owner = answers.default_repository_owner;
}

} // verus!
