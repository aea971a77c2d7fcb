//! Checking the configuration: what is wrong with it, and what may be.

use vstd::prelude::*;
use crate::config::Config;
use crate::config::RepoDefinition;
use crate::text::blank;
use crate::text::char_count;
use crate::text::concat2;
use crate::text::concat3;
use crate::text::is_blank;
use crate::text::views;

verus! {

/// What the checks found.
#[derive(Debug)]
pub struct DoctorReport {
    /// What has to be mended.
    pub errors: Vec<String>,
    /// What the user should know of.
    pub warnings: Vec<String>,
}

/// What is wrong with a text setting: it must not be blank.
pub open spec fn string_errors(field: Seq<char>, value: Seq<char>) -> Seq<Seq<char>> {
    if is_blank(value) {
        seq![field + " is not set"@]
    } else {
        Seq::empty()
    }
}

/// What is wrong with a directory setting: it must not be empty and, where
/// that is asked, the directory must exist.
pub open spec fn path_errors(field: Seq<char>, path: Seq<char>, must_exist: bool, exists: bool) -> Seq<
    Seq<char>,
> {
    if path.len() == 0 {
        seq![field + " is not set"@]
    } else if must_exist && !exists {
        seq![field + " does not exist: "@ + path]
    } else {
        Seq::empty()
    }
}

/// What may be wrong with a repository: no URL, no path, or a path at which
/// nothing is cloned yet.
pub open spec fn repo_warnings(alias: Seq<char>, url: Seq<char>, path: Seq<char>, exists: bool) -> Seq<
    Seq<char>,
> {
    let about_url = if is_blank(url) {
        seq!["Repo '"@ + alias + "' has empty url"@]
    } else {
        Seq::empty()
    };
    let about_path = if path.len() == 0 {
        seq!["Repo '"@ + alias + "' has empty path"@]
    } else if !exists {
        seq![
            "Repo '"@ + alias + "' path does not exist (will be cloned by setup-repos): "@ + path,
        ]
    } else {
        Seq::empty()
    };
    about_url + about_path
}

/// Checks a text setting: a blank one is an error.
pub fn check_string(field: &str, value: &str, errors: &mut Vec<String>, _warnings: &mut Vec<String>)
    ensures
        views(final(errors)@) == views(old(errors)@) + string_errors(field@, value@),
        *final(_warnings) == *old(_warnings),
{
    let ghost before = errors@;
    if blank(value) {
        let message = concat2(field, " is not set");
        errors.push(message);
        assert(views(errors@) =~= views(before) + seq![field@ + " is not set"@]);
    } else {
        assert(views(errors@) =~= views(before) + Seq::<Seq<char>>::empty());
    }
}

/// Checks a directory setting: an empty one is an error, and so is one
/// that must exist and does not.
pub fn check_path(
    field: &str,
    path: &str,
    must_exist: bool,
    exists: bool,
    errors: &mut Vec<String>,
    _warnings: &mut Vec<String>,
)
    ensures
        views(final(errors)@) == views(old(errors)@) + path_errors(
            field@,
            path@,
            must_exist,
            exists,
        ),
        *final(_warnings) == *old(_warnings),
{
    let ghost before = errors@;
    if char_count(path) == 0 {
        let message = concat2(field, " is not set");
        errors.push(message);
        assert(views(errors@) =~= views(before) + seq![field@ + " is not set"@]);
    } else if must_exist && !exists {
        let message = concat3(field, " does not exist: ", path);
        errors.push(message);
        assert(views(errors@) =~= views(before) + seq![field@ + " does not exist: "@ + path@]);
    } else {
        assert(views(errors@) =~= views(before) + Seq::<Seq<char>>::empty());
    }
}

/// Checks a repository: a blank URL, an empty path and a path without a
/// clone are worth a warning each.
pub fn check_repo(alias: &str, repo: &RepoDefinition, path_exists: bool, warnings: &mut Vec<String>)
    ensures
        views(final(warnings)@) == views(old(warnings)@) + repo_warnings(
            alias@,
            repo.url@,
            repo.path@,
            path_exists,
        ),
{
    let ghost before = warnings@;
    let ghost expected = repo_warnings(alias@, repo.url@, repo.path@, path_exists);
    if blank(repo.url.as_str()) {
        let message = concat3("Repo '", alias, "' has empty url");
        warnings.push(message);
        assert(views(warnings@) =~= views(before).push("Repo '"@ + alias@ + "' has empty url"@));
    }
    let ghost middle = warnings@;
    if char_count(repo.path.as_str()) == 0 {
        let message = concat3("Repo '", alias, "' has empty path");
        warnings.push(message);
        assert(views(warnings@) =~= views(middle).push("Repo '"@ + alias@ + "' has empty path"@));
    } else if !path_exists {
        let head = concat3(
            "Repo '",
            alias,
            "' path does not exist (will be cloned by setup-repos): ",
        );
        let message = concat2(head.as_str(), repo.path.as_str());
        warnings.push(message);
        assert(views(warnings@) =~= views(middle).push(
            "Repo '"@ + alias@ + "' path does not exist (will be cloned by setup-repos): "@
                + repo.path@,
        ));
    }
    assert(views(warnings@) =~= views(before) + expected);
}

/// Whether the clone of the repository at position `i` exists: flags that
/// are missing count as "no".
pub open spec fn flag_at(flags: Seq<bool>, i: int) -> bool {
    0 <= i < flags.len() && flags[i]
}

/// The warnings about the first `n` repositories, in the registry's order.
pub open spec fn registry_warnings(config: Config, flags: Seq<bool>, n: int) -> Seq<Seq<char>>
    decreases n,
{
    if n <= 0 {
        Seq::empty()
    } else {
        let alias = config.repositories.keys()[n - 1];
        let repo = config.repositories@[alias];
        registry_warnings(config, flags, n - 1) + repo_warnings(
            alias,
            repo.url@,
            repo.path@,
            flag_at(flags, n - 1),
        )
    }
}

/// The errors of the five settings, in the order in which they are checked.
pub open spec fn setting_errors(config: Config, tickets_exist: bool, code_exists: bool) -> Seq<
    Seq<char>,
> {
    string_errors("branch_prefix"@, config.branch_prefix@) + path_errors(
        "tickets_directory"@,
        config.tickets_directory@,
        true,
        tickets_exist,
    ) + path_errors("code_directory"@, config.code_directory@, true, code_exists) + string_errors(
        "github_base_url"@,
        config.github_base_url@,
    ) + string_errors("default_repository_owner"@, config.default_repository_owner@)
}

/// Checks the configuration. `tickets_directory_exists` and
/// `code_directory_exists` say what is on disk; `repo_paths_exist` says, for
/// each repository in the registry's order, whether its clone is there.
/// The check passes when there is no error; warnings do not fail it.
pub fn run(
    config: &Config,
    tickets_directory_exists: bool,
    code_directory_exists: bool,
    repo_paths_exist: &[bool],
) -> (report: DoctorReport)
    ensures
        views(report.errors@) == setting_errors(
            *config,
            tickets_directory_exists,
            code_directory_exists,
        ),
        views(report.warnings@) == registry_warnings(
            *config,
            repo_paths_exist@,
            config.repositories.keys().len() as int,
        ),
{
    let mut errors: Vec<String> = Vec::new();
    let mut warnings: Vec<String> = Vec::new();
    assert(views(errors@) =~= Seq::<Seq<char>>::empty());
    assert(views(warnings@) =~= Seq::<Seq<char>>::empty());
    check_string("branch_prefix", config.branch_prefix.as_str(), &mut errors, &mut warnings);
    check_path(
        "tickets_directory",
        config.tickets_directory.as_str(),
        true,
        tickets_directory_exists,
        &mut errors,
        &mut warnings,
    );
    check_path(
        "code_directory",
        config.code_directory.as_str(),
        true,
        code_directory_exists,
        &mut errors,
        &mut warnings,
    );
    check_string("github_base_url", config.github_base_url.as_str(), &mut errors, &mut warnings);
    check_string(
        "default_repository_owner",
        config.default_repository_owner.as_str(),
        &mut errors,
        &mut warnings,
    );
    assert(views(errors@) =~= setting_errors(
        *config,
        tickets_directory_exists,
        code_directory_exists,
    ));
    let mut i: usize = 0;
    while i < config.repositories.len()
        invariant
            i <= config.repositories.keys().len(),
            views(warnings@) == registry_warnings(*config, repo_paths_exist@, i as int),
        decreases config.repositories.keys().len() - i,
    {
        let alias = config.repositories.key_at(i);
        let repo = config.repositories.value_at(i);
        let exists = i < repo_paths_exist.len() && repo_paths_exist[i];
        check_repo(alias.as_str(), repo, exists, &mut warnings);
        i += 1;
    }
    DoctorReport { errors, warnings }
}

impl DoctorReport {
    /// Whether the check passed: there is no error.
    pub fn passed(&self) -> (ok: bool)
        ensures
            ok == (self.errors@.len() == 0),
    {
        self.errors.len() == 0
    }
}

} // verus!
