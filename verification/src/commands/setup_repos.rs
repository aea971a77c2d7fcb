//! Cloning the registered repositories that are not on disk yet.

use vstd::prelude::*;
use crate::commands::doctor::flag_at;
use crate::config::Config;
use crate::config::RepoDefinition;
use crate::error::ErrorKind;
use crate::error::TixError;
use crate::text::char_count;

verus! {

/// The positions, among the first `n` repositories of the registry, of those
/// whose clone is missing.
pub open spec fn missing_before(flags: Seq<bool>, n: int) -> Seq<int>
    decreases n,
{
    if n <= 0 {
        Seq::empty()
    } else if flag_at(flags, n - 1) {
        missing_before(flags, n - 1)
    } else {
        missing_before(flags, n - 1).push(n - 1)
    }
}

/// Whether `plan` holds the repositories at `positions` of the registry.
pub open spec fn plan_matches(
    plan: Seq<(String, RepoDefinition)>,
    config: Config,
    positions: Seq<int>,
) -> bool {
    &&& plan.len() == positions.len()
    &&& forall|k: int|
        0 <= k < plan.len() ==> {
            let alias = config.repositories.keys()[positions[k]];
            &&& (#[trigger] plan[k]).0@ == alias
            &&& plan[k].1 == config.repositories@[alias]
        }
}

/// The repositories that need cloning: those whose path does not exist.
/// `paths_exist` holds one flag for each repository, in the registry's
/// order; a repository without a flag counts as missing.
pub fn compute_clone_plan(config: &Config, paths_exist: &[bool]) -> (plan: Vec<
    (String, RepoDefinition),
>)
    ensures
        plan_matches(
            plan@,
            *config,
            missing_before(paths_exist@, config.repositories.keys().len() as int),
        ),
{
    let mut plan: Vec<(String, RepoDefinition)> = Vec::new();
    let mut i: usize = 0;
    while i < config.repositories.len()
        invariant
            i <= config.repositories.keys().len(),
            plan_matches(plan@, *config, missing_before(paths_exist@, i as int)),
        decreases config.repositories.keys().len() - i,
    {
        let exists = i < paths_exist.len() && paths_exist[i];
        if !exists {
            let alias = config.repositories.key_at(i);
            let repo = config.repositories.value_at(i);
            plan.push((alias.clone(), repo.duplicate()));
        }
        i += 1;
    }
    plan
}

/// Plans `setup-repos`: nothing to do without repositories; no plan without
/// a code directory; else the repositories to clone.
pub fn run(config: &Config, paths_exist: &[bool]) -> (r: Result<
    Vec<(String, RepoDefinition)>,
    TixError,
>)
    ensures
        config.repositories.keys().len() == 0 ==> r is Ok && r->Ok_0@.len() == 0,
        config.repositories.keys().len() > 0 && config.code_directory@.len() == 0 ==> r is Err
            && r->Err_0.kind == ErrorKind::NotConfigured && r->Err_0.detail@ == "code_directory"@,
        config.repositories.keys().len() > 0 && config.code_directory@.len() > 0 ==> r is Ok
            && plan_matches(
            r->Ok_0@,
            *config,
            missing_before(paths_exist@, config.repositories.keys().len() as int),
        ),
{
    if config.repositories.len() == 0 {
        return Ok(Vec::new());
    }
    if char_count(config.code_directory.as_str()) == 0 {
        return Err(TixError::new(ErrorKind::NotConfigured, "code_directory"));
    }
    Ok(compute_clone_plan(config, paths_exist))
}

/// How `setup-repos` ends: well if every clone was made; else with the
/// aliases that could not be cloned, separated by a comma and a space. One
/// failure does not stop the others from being tried.
pub fn conclude(failed: &Vec<String>) -> (r: Result<(), TixError>)
    ensures
        failed@.len() == 0 ==> r is Ok,
        failed@.len() > 0 ==> r is Err && r->Err_0.kind == ErrorKind::Io && r->Err_0.detail@
            == crate::text::joined_of(crate::text::views(failed@), ", "@),
{
    if failed.len() == 0 {
        return Ok(());
    }
    Err(TixError { kind: ErrorKind::Io, detail: crate::text::join_with(failed, ", ") })
}

} // verus!
