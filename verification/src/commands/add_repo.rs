//! Registering a repository in the configuration, without cloning it.

use vstd::prelude::*;
use crate::config::Config;
use crate::config::RepoDefinition;
use crate::error::ErrorKind;
use crate::error::TixError;
use crate::paths::join;
use crate::paths::join_of;
use crate::text::after_first;
use crate::text::after_first_of;
use crate::text::after_last;
use crate::text::after_last_of;
use crate::text::before_first;
use crate::text::before_first_of;
use crate::text::blank;
use crate::text::char_count;
use crate::text::concat2;
use crate::text::concat3;
use crate::text::contains;
use crate::text::contains_char;
use crate::text::contains_str;
use crate::text::copy_str;
use crate::text::is_blank;
use crate::text::str_opt_view;
use crate::text::strip_suffix_all;
use crate::text::strip_suffix_repeated;
use crate::text::trim;
use crate::text::trim_end;
use crate::text::trim_end_of;
use crate::text::trim_ws;

verus! {

/// A repository as the user named it: its name and the URL to clone it from.
#[derive(Debug)]
pub struct ParsedRepo {
    pub name: String,
    pub url: String,
}

/// What registering a repository did.
#[derive(Debug)]
pub struct Registration {
    /// The alias under which the repository is registered now.
    pub alias: String,
    /// Whether the alias was registered before; the old entry is gone.
    pub overwritten: bool,
}

/// What an input names, or why it names nothing.
pub enum Parsed {
    Repo { name: Seq<char>, url: Seq<char> },
    Refused { kind: ErrorKind, detail: Seq<char> },
}

/// The name of the repository at the end of a URL or a path: what follows
/// the last `/` or `:`, trailing `/` and `.git` left out. None where nothing
/// is left.
pub open spec fn repo_name_of(input: Seq<char>) -> Option<Seq<char>> {
    let name = strip_suffix_all(after_last_of(trim_end_of(input, '/', '/'), '/', ':'), ".git"@);
    if name.len() == 0 {
        None
    } else {
        Some(name)
    }
}

/// The base of clone URLs without trailing `/` and spaces.
pub open spec fn clean_base_of(base: Seq<char>) -> Seq<char> {
    trim_end_of(base, '/', ' ')
}

/// The clone URL of `owner/name` under `base`: `base/owner/name.git` where
/// the base has a scheme, `base:owner/name.git` where it has none (SSH).
pub open spec fn url_of(base: Seq<char>, owner: Seq<char>, name: Seq<char>) -> Seq<char> {
    if contains(base, "://"@) {
        trim_end_of(base, '/', '/') + "/"@ + owner + "/"@ + name + ".git"@
    } else {
        trim_end_of(base, ':', ':') + ":"@ + owner + "/"@ + name + ".git"@
    }
}

/// The URL of `owner/name`, or the refusal for want of a base.
pub open spec fn built_of(base: Seq<char>, owner: Seq<char>, name: Seq<char>) -> Parsed {
    if base.len() == 0 {
        Parsed::Refused { kind: ErrorKind::NotConfigured, detail: "github_base_url"@ }
    } else {
        Parsed::Repo { name, url: url_of(base, owner, name) }
    }
}

/// What `input` names. A full URL (it holds `://` or `@`) is kept as it is.
/// `owner/name` and a bare `name` are put under the configured base, the
/// latter with the default owner.
pub open spec fn parsed_of(base: Seq<char>, default_owner: Seq<char>, input: Seq<char>) -> Parsed {
    let trimmed = trim_end_of(trim_ws(input), '/', '/');
    if contains(trimmed, "://"@) || trimmed.contains('@') {
        match repo_name_of(trimmed) {
            Some(name) => Parsed::Repo { name, url: trimmed },
            None => Parsed::Refused { kind: ErrorKind::InvalidInput, detail: trimmed },
        }
    } else if trimmed.contains('/') {
        let owner = before_first_of(trimmed, '/', '/');
        let name = before_first_of(after_first_of(trimmed, '/', '/'), '/', '/');
        if owner.len() == 0 || name.len() == 0 {
            Parsed::Refused { kind: ErrorKind::InvalidInput, detail: trimmed }
        } else {
            built_of(clean_base_of(base), owner, name)
        }
    } else if default_owner.len() == 0 {
        Parsed::Refused { kind: ErrorKind::NotConfigured, detail: "default_repository_owner"@ }
    } else {
        built_of(clean_base_of(base), default_owner, trimmed)
    }
}

/// The alias and the definition under which `input` is registered, or why it
/// is not.
pub open spec fn planned_of(
    code_directory: Seq<char>,
    base: Seq<char>,
    default_owner: Seq<char>,
    input: Seq<char>,
    alias: Option<Seq<char>>,
) -> Parsed {
    if code_directory.len() == 0 {
        Parsed::Refused { kind: ErrorKind::NotConfigured, detail: "code_directory"@ }
    } else if is_blank(input) {
        Parsed::Refused { kind: ErrorKind::InvalidInput, detail: "repository"@ }
    } else {
        parsed_of(base, default_owner, input)
    }
}

/// The alias of a registration: the one asked for unless it is blank, else
/// the repository's name.
pub open spec fn alias_of(alias: Option<Seq<char>>, name: Seq<char>) -> Seq<char> {
    match alias {
        Some(a) => if is_blank(a) {
            name
        } else {
            a
        },
        None => name,
    }
}

/// The base of clone URLs as it is used: without trailing `/` and spaces.
pub fn clean_base(base: &str) -> (out: String)
    ensures
        out@ == clean_base_of(base@),
{
    trim_end(base, '/', ' ')
}

/// The name of the repository that a URL or a path ends in.
pub fn repo_name_from_path(input: &str) -> (r: Option<String>)
    ensures
        r is Some == repo_name_of(input@) is Some,
        r is Some ==> r->0@ == repo_name_of(input@)->0,
{
    let trimmed = trim_end(input, '/', '/');
    let last = after_last(trimmed.as_str(), '/', ':');
    let name = strip_suffix_repeated(last.as_str(), ".git");
    if char_count(name.as_str()) == 0 {
        None
    } else {
        Some(name)
    }
}

/// The clone URL of `owner/name` under `base`; refused where the base is
/// empty.
pub fn build_url(base: &str, owner: &str, name: &str) -> (r: Result<String, TixError>)
    ensures
        match built_of(base@, owner@, name@) {
            Parsed::Repo { name: n, url } => r is Ok && r->Ok_0@ == url,
            Parsed::Refused { kind, detail } => r is Err && r->Err_0.kind == kind
                && r->Err_0.detail@ == detail,
        },
{
    if char_count(base) == 0 {
        return Err(TixError::new(ErrorKind::NotConfigured, "github_base_url"));
    }
    let path = concat3(owner, "/", name);
    let tail = concat2(path.as_str(), ".git");
    let url = if contains_str(base, "://") {
        concat3(trim_end(base, '/', '/').as_str(), "/", tail.as_str())
    } else {
        concat3(trim_end(base, ':', ':').as_str(), ":", tail.as_str())
    };
    proof {
        let front = if contains(base@, "://"@) {
            trim_end_of(base@, '/', '/') + "/"@
        } else {
            trim_end_of(base@, ':', ':') + ":"@
        };
        assert(front + (owner@ + "/"@ + name@ + ".git"@) =~= front + owner@ + "/"@ + name@
            + ".git"@);
    }
    Ok(url)
}

/// The repository that `input` names: a full URL, `owner/name`, or a bare
/// name under the default owner.
pub fn parse_repo_input(config: &Config, input: &str) -> (r: Result<ParsedRepo, TixError>)
    ensures
        match parsed_of(config.github_base_url@, config.default_repository_owner@, input@) {
            Parsed::Repo { name, url } => r is Ok && r->Ok_0.name@ == name && r->Ok_0.url@ == url,
            Parsed::Refused { kind, detail } => r is Err && r->Err_0.kind == kind
                && r->Err_0.detail@ == detail,
        },
{
    let trimmed = trim_end(trim(input).as_str(), '/', '/');
    if contains_str(trimmed.as_str(), "://") || contains_char(trimmed.as_str(), '@') {
        return match repo_name_from_path(trimmed.as_str()) {
            Some(name) => Ok(ParsedRepo { name, url: trimmed }),
            None => Err(TixError { kind: ErrorKind::InvalidInput, detail: trimmed }),
        };
    }
    if contains_char(trimmed.as_str(), '/') {
        let owner = before_first(trimmed.as_str(), '/', '/');
        let rest = after_first(trimmed.as_str(), '/', '/');
        let name = before_first(rest.as_str(), '/', '/');
        if char_count(owner.as_str()) == 0 || char_count(name.as_str()) == 0 {
            return Err(TixError { kind: ErrorKind::InvalidInput, detail: trimmed });
        }
        let base = clean_base(config.github_base_url.as_str());
        return match build_url(base.as_str(), owner.as_str(), name.as_str()) {
            Ok(url) => Ok(ParsedRepo { name, url }),
            Err(e) => Err(e),
        };
    }
    if char_count(config.default_repository_owner.as_str()) == 0 {
        return Err(TixError::new(ErrorKind::NotConfigured, "default_repository_owner"));
    }
    let base = clean_base(config.github_base_url.as_str());
    match build_url(base.as_str(), config.default_repository_owner.as_str(), trimmed.as_str()) {
        Ok(url) => Ok(ParsedRepo { name: trimmed, url }),
        Err(e) => Err(e),
    }
}

/// The alias and the definition under which `repo_input` would be
/// registered: the clone goes under the code directory, in a directory named
/// by the alias.
pub fn plan_repo_registration(config: &Config, repo_input: &str, alias: Option<&str>) -> (r: Result<
    (String, RepoDefinition),
    TixError,
>)
    ensures
        match planned_of(
            config.code_directory@,
            config.github_base_url@,
            config.default_repository_owner@,
            repo_input@,
            str_opt_view(alias),
        ) {
            Parsed::Repo { name, url } => r is Ok && ({
                let chosen = alias_of(str_opt_view(alias), name);
                &&& (r->Ok_0).0@ == chosen
                &&& (r->Ok_0).1.url@ == url
                &&& (r->Ok_0).1.path@ == join_of(config.code_directory@, chosen)
            }),
            Parsed::Refused { kind, detail } => r is Err && r->Err_0.kind == kind
                && r->Err_0.detail@ == detail,
        },
{
    if char_count(config.code_directory.as_str()) == 0 {
        return Err(TixError::new(ErrorKind::NotConfigured, "code_directory"));
    }
    if blank(repo_input) {
        return Err(TixError::new(ErrorKind::InvalidInput, "repository"));
    }
    let parsed = match parse_repo_input(config, repo_input) {
        Ok(p) => p,
        Err(e) => {
            return Err(e);
        },
    };
    let chosen = match alias {
        Some(a) => if blank(a) {
            parsed.name
        } else {
            copy_str(a)
        },
        None => parsed.name,
    };
    let path = join(config.code_directory.as_str(), chosen.as_str());
    Ok((chosen, RepoDefinition { url: parsed.url, path }))
}

/// Registers `repo_input` in `config`, under `alias` or the repository's
/// name. An alias that is registered already is overwritten, and the result
/// says so. On a refusal the configuration is unchanged.
pub fn run(config: &mut Config, repo_input: &str, alias: Option<String>) -> (r: Result<
    Registration,
    TixError,
>)
    ensures
        final(config).branch_prefix == old(config).branch_prefix,
        final(config).github_base_url == old(config).github_base_url,
        final(config).default_repository_owner == old(config).default_repository_owner,
        final(config).code_directory == old(config).code_directory,
        final(config).tickets_directory == old(config).tickets_directory,
        final(config).plugins == old(config).plugins,
        final(config).jira_base_url == old(config).jira_base_url,
        match planned_of(
            old(config).code_directory@,
            old(config).github_base_url@,
            old(config).default_repository_owner@,
            repo_input@,
            crate::text::opt_view(alias),
        ) {
            Parsed::Repo { name, url } => r is Ok && ({
                let chosen = alias_of(crate::text::opt_view(alias), name);
                &&& r->Ok_0.alias@ == chosen
                &&& r->Ok_0.overwritten == old(config).repositories@.dom().contains(chosen)
                &&& final(config).repositories@.dom() == old(config).repositories@.dom().insert(
                    chosen,
                )
                &&& final(config).repositories@[chosen].url@ == url
                &&& final(config).repositories@[chosen].path@ == join_of(
                    old(config).code_directory@,
                    chosen,
                )
                &&& forall|k: Seq<char>|
                    k != chosen && old(config).repositories@.dom().contains(k) ==> #[trigger] final(config).repositories@[k] == old(config).repositories@[k]
            }),
            Parsed::Refused { kind, detail } => r is Err && r->Err_0.kind == kind
                && r->Err_0.detail@ == detail && final(config).repositories == old(config).repositories,
        },
{
    let asked = match &alias {
        Some(a) => Some(a.as_str()),
        None => None,
    };
    let (chosen, definition) = match plan_repo_registration(config, repo_input, asked) {
        Ok(p) => p,
        Err(e) => {
            return Err(e);
        },
    };
    let overwritten = config.repositories.insert(chosen.clone(), definition);
    Ok(Registration { alias: chosen, overwritten })
}

} // verus!
