//! Plugins: where they live, how they are named, and which repository a
//! plugin is started in.
//!
//! Running a plugin (writing its context to a file, starting the
//! interpreter) is the caller's part. What is decided here: the order of the
//! list, the entry point, the directories, and the repository that the
//! working directory belongs to.

use vstd::prelude::*;
use crate::config::Config;
use crate::config::PluginDefinition;
use crate::error::ErrorKind;
use crate::error::TixError;
use crate::paths::has_parent_dir;
use crate::paths::has_parent_dir_of;
use crate::paths::is_absolute;
use crate::paths::is_absolute_path;
use crate::paths::join;
use crate::paths::join_of;
use crate::paths::parent;
use crate::paths::path_parent;
use crate::paths::path_starts_with;
use crate::paths::starts_with;
use crate::text::char_count;
use crate::text::copy_str;
use crate::text::from_chars;
use crate::text::in_order;
use crate::text::lex_le;
use crate::text::listed;
use crate::text::lists_each_below;
use crate::text::sorted_positions;
use crate::text::to_chars;
use crate::text::views;
use crate::ticket::TicketMetadata;
use crate::ticket::contains_alias;

verus! {

/// What a plugin is told when it is started.
#[derive(Debug)]
pub struct PluginContext {
    /// The name under which the plugin is registered.
    pub plugin_name: String,
    /// The ticket's directory.
    pub ticket_root: String,
    /// The directory from which the plugin was started.
    pub current_working_dir: String,
    /// The repository whose worktree that directory lies in, if any.
    pub current_repo_alias: Option<String>,
    /// The directory of that worktree.
    pub current_repo_path: Option<String>,
    /// The ticket's record.
    pub ticket: TicketMetadata,
    /// The configured code directory.
    pub code_directory: String,
    /// The configured tickets directory.
    pub tickets_directory: String,
    /// The plugin's cache directory.
    pub plugin_cache_dir: String,
    /// The plugin's state directory.
    pub plugin_state_dir: String,
    /// The plugin's state directory within the ticket.
    pub plugin_ticket_state_dir: String,
    /// The configuration; its registry holds the repositories by alias.
    pub config: Config,
}

// ---------------------------------------------------------------------------
// The list
// ---------------------------------------------------------------------------

/// The name of each entry.
pub open spec fn entry_names(entries: Seq<(String, PluginDefinition)>) -> Seq<Seq<char>> {
    Seq::new(entries.len(), |i: int| entries[i].0@)
}

/// The registered plugins, by name.
///
/// Every plugin of the registry is listed once, with its definition, and
/// the names stand in the order of strings.
pub fn list_plugins(config: &Config) -> (out: Vec<(String, PluginDefinition)>)
    ensures
        out@.len() == config.plugins.keys().len(),
        in_order(entry_names(out@)),
        forall|i: int|
            0 <= i < out@.len() ==> config.plugins@.dom().contains((#[trigger] out@[i]).0@)
                && out@[i].1 == config.plugins@[out@[i].0@],
        forall|k: Seq<char>|
            config.plugins@.dom().contains(k) ==> exists|i: int|
                0 <= i < out@.len() && (#[trigger] out@[i]).0@ == k,
{
    let names = config.plugins.keys_vec();
    let order = sorted_positions(&names);
    let ghost keys = config.plugins.keys();
    let mut out: Vec<(String, PluginDefinition)> = Vec::new();
    let mut i: usize = 0;
    while i < order.len()
        invariant
            i <= order@.len(),
            out@.len() == i,
            keys == config.plugins.keys(),
            keys == views(names@),
            config.plugins.coherent(),
            lists_each_below(order@, keys.len() as int),
            forall|k: int|
                0 <= k < i ==> (#[trigger] out@[k]).0@ == keys[order@[k] as int]
                    && config.plugins@.dom().contains(out@[k].0@) && out@[k].1
                    == config.plugins@[out@[k].0@],
        decreases order@.len() - i,
    {
        let at = order[i];
        let name = config.plugins.key_at(at);
        let definition = config.plugins.value_at(at);
        out.push((name.clone(), definition.duplicate()));
        i += 1;
    }
    proof {
        let listed_names = entry_names(out@);
        assert forall|a: int, b: int| 0 <= a < b < listed_names.len() implies lex_le(
            listed_names[a],
            listed_names[b],
        ) by {
            assert(listed_names[a] == out@[a].0@);
            assert(listed_names[b] == out@[b].0@);
        }
        assert forall|k: Seq<char>| config.plugins@.dom().contains(k) implies exists|i: int|
            0 <= i < out@.len() && (#[trigger] out@[i]).0@ == k by {
            assert(keys.contains(k));
            let v = keys.index_of(k);
            assert(listed(order@, v));
            let j = choose|j: int| 0 <= j < order@.len() && #[trigger] order@[j] == v;
            assert(out@[j].0@ == k);
        }
    }
    out
}

/// The arguments of an external subcommand: the plugin's name first, then
/// what is handed to the plugin. Without a name there is nothing to run.
pub fn run_external(args: Vec<String>) -> (r: Result<(String, Vec<String>), TixError>)
    ensures
        args@.len() == 0 ==> r is Err && r->Err_0.kind == ErrorKind::InvalidInput
            && r->Err_0.detail@ == "plugin"@,
        args@.len() > 0 ==> r is Ok && (r->Ok_0).0 == args@[0] && (r->Ok_0).1@ == args@.skip(1),
{
    if args.len() == 0 {
        return Err(TixError::new(ErrorKind::InvalidInput, "plugin"));
    }
    let mut args = args;
    let ghost all = args@;
    let name = args.remove(0);
    assert(args@ =~= all.skip(1));
    Ok((name, args))
}

// ---------------------------------------------------------------------------
// The entry point
// ---------------------------------------------------------------------------

/// The entry point of a plugin: an absolute one as it stands; a relative one
/// under the directory of the configuration file.
pub open spec fn entrypoint_of(config_path: Seq<char>, entrypoint: Seq<char>) -> Seq<char> {
    if is_absolute_path(entrypoint) {
        entrypoint
    } else {
        join_of(
            match path_parent(config_path) {
                Some(dir) => dir,
                None => "."@,
            },
            entrypoint,
        )
    }
}

/// The entry point of a plugin as it is run.
pub fn resolve_entrypoint(config_path: &str, entrypoint: &str) -> (out: String)
    ensures
        out@ == entrypoint_of(config_path@, entrypoint@),
{
    if is_absolute(entrypoint) {
        return copy_str(entrypoint);
    }
    match parent(config_path) {
        Some(dir) => join(dir.as_str(), entrypoint),
        None => join(".", entrypoint),
    }
}

/// An entry point must exist and must not be a directory.
pub fn validate_entrypoint(entrypoint: &str, exists: bool, is_dir: bool) -> (r: Result<
    (),
    TixError,
>)
    ensures
        !exists ==> r is Err && r->Err_0.kind == ErrorKind::NotFound && r->Err_0.detail@
            == entrypoint@,
        exists && is_dir ==> r is Err && r->Err_0.kind == ErrorKind::InvalidInput
            && r->Err_0.detail@ == entrypoint@,
        exists && !is_dir ==> r is Ok,
{
    if !exists {
        Err(TixError::new(ErrorKind::NotFound, entrypoint))
    } else if is_dir {
        Err(TixError::new(ErrorKind::InvalidInput, entrypoint))
    } else {
        Ok(())
    }
}

/// The text of the wrapper that loads a plugin and calls its `main` with
/// the context.
pub open spec fn shim_text() -> Seq<char> {
    "\nimport json\nimport sys\nimport importlib.util\nfrom dataclasses import dataclass\nfrom typing import Any, Dict, List\n\n@dataclass\nclass TixPluginContext:\n    plugin_name: str\n    ticket_root: str\n    current_working_dir: str\n    ticket: Dict[str, Any]\n    config: Dict[str, Any]\n    code_directory: str\n    tickets_directory: str\n    plugin_cache_dir: str\n    plugin_state_dir: str\n    plugin_ticket_state_dir: str\n    repositories: Dict[str, Any]\n\ndef load_context(path: str) -> TixPluginContext:\n    with open(path, \"r\", encoding=\"utf-8\") as f:\n        data = json.load(f)\n    return TixPluginContext(**data)\n\ndef load_plugin(entrypoint: str):\n    spec = importlib.util.spec_from_file_location(\"tix_plugin\", entrypoint)\n    if spec is None or spec.loader is None:\n        raise RuntimeError(f\"Could not load plugin from {entrypoint}\")\n    module = importlib.util.module_from_spec(spec)\n    spec.loader.exec_module(module)\n    return module\n\ndef main():\n    if len(sys.argv) < 2:\n        raise RuntimeError(\"Missing plugin entrypoint\")\n    entrypoint = sys.argv[1]\n    argv = sys.argv[2:]\n    ctx_path = os.environ.get(\"TIX_CONTEXT_PATH\")\n    if not ctx_path:\n        raise RuntimeError(\"TIX_CONTEXT_PATH is not set\")\n    ctx = load_context(ctx_path)\n    module = load_plugin(entrypoint)\n    if not hasattr(module, \"main\"):\n        raise RuntimeError(\"Plugin must define a main(context, argv) function\")\n    module.main(ctx, argv)\n\nif __name__ == \"__main__\":\n    import os\n    main()\n"@
}

/// The wrapper that loads a plugin and calls its `main` with the context.
pub fn python_shim() -> (shim: &'static str)
    ensures
        shim@ == shim_text(),
{
    "\nimport json\nimport sys\nimport importlib.util\nfrom dataclasses import dataclass\nfrom typing import Any, Dict, List\n\n@dataclass\nclass TixPluginContext:\n    plugin_name: str\n    ticket_root: str\n    current_working_dir: str\n    ticket: Dict[str, Any]\n    config: Dict[str, Any]\n    code_directory: str\n    tickets_directory: str\n    plugin_cache_dir: str\n    plugin_state_dir: str\n    plugin_ticket_state_dir: str\n    repositories: Dict[str, Any]\n\ndef load_context(path: str) -> TixPluginContext:\n    with open(path, \"r\", encoding=\"utf-8\") as f:\n        data = json.load(f)\n    return TixPluginContext(**data)\n\ndef load_plugin(entrypoint: str):\n    spec = importlib.util.spec_from_file_location(\"tix_plugin\", entrypoint)\n    if spec is None or spec.loader is None:\n        raise RuntimeError(f\"Could not load plugin from {entrypoint}\")\n    module = importlib.util.module_from_spec(spec)\n    spec.loader.exec_module(module)\n    return module\n\ndef main():\n    if len(sys.argv) < 2:\n        raise RuntimeError(\"Missing plugin entrypoint\")\n    entrypoint = sys.argv[1]\n    argv = sys.argv[2:]\n    ctx_path = os.environ.get(\"TIX_CONTEXT_PATH\")\n    if not ctx_path:\n        raise RuntimeError(\"TIX_CONTEXT_PATH is not set\")\n    ctx = load_context(ctx_path)\n    module = load_plugin(entrypoint)\n    if not hasattr(module, \"main\"):\n        raise RuntimeError(\"Plugin must define a main(context, argv) function\")\n    module.main(ctx, argv)\n\nif __name__ == \"__main__\":\n    import os\n    main()\n"
}

/// The arguments with which `uv` runs a plugin: the project, the
/// interpreter where one is asked for, then the wrapper with the entry point
/// and the plugin's own arguments.
pub open spec fn uv_arguments_of(
    project_root: Seq<char>,
    python: Option<Seq<char>>,
    shim: Seq<char>,
    entrypoint: Seq<char>,
    args: Seq<Seq<char>>,
) -> Seq<Seq<char>> {
    seq!["run"@, "--project"@, project_root] + match python {
        Some(version) => seq!["--python"@, version],
        None => Seq::empty(),
    } + seq!["--"@, "python"@, "-c"@, shim, entrypoint] + args
}

/// The arguments with which `uv` runs the plugin at `entrypoint`.
pub fn uv_arguments(
    project_root: &str,
    python: Option<&str>,
    entrypoint: &str,
    args: &[String],
) -> (out: Vec<String>)
    ensures
        views(out@) == uv_arguments_of(
            project_root@,
            crate::text::str_opt_view(python),
            shim_text(),
            entrypoint@,
            views(args@),
        ),
{
    let mut out: Vec<String> = Vec::new();
    out.push(copy_str("run"));
    out.push(copy_str("--project"));
    out.push(copy_str(project_root));
    match python {
        Some(version) => {
            out.push(copy_str("--python"));
            out.push(copy_str(version));
        },
        None => {},
    }
    out.push(copy_str("--"));
    out.push(copy_str("python"));
    out.push(copy_str("-c"));
    out.push(copy_str(python_shim()));
    out.push(copy_str(entrypoint));
    let ghost head = views(out@);
    assert(head =~= uv_arguments_of(
        project_root@,
        crate::text::str_opt_view(python),
        shim_text(),
        entrypoint@,
        Seq::empty(),
    ));
    let mut i: usize = 0;
    while i < args.len()
        invariant
            i <= args.len(),
            views(out@) == head + views(args@).take(i as int),
        decreases args.len() - i,
    {
        let ghost prev = out@;
        out.push(args[i].clone());
        assert(views(out@) =~= views(prev).push(args@[i as int]@));
        assert(views(args@).take(i + 1) =~= views(args@).take(i as int).push(args@[i as int]@));
        i += 1;
    }
    assert(views(args@).take(args.len() as int) == views(args@));
    out
}

/// The directories above an entry point in which a project file is looked
/// for, nearest first; none where the entry point has no parent.
pub fn project_root_candidates(entrypoint: &str) -> (r: Option<Vec<String>>)
    ensures
        r is Some == path_parent(entrypoint@) is Some,
        r is Some ==> r->0@.len() >= 1 && r->0@[0]@ == path_parent(entrypoint@)->0,
        r is Some ==> forall|i: int|
            0 <= i < r->0@.len() - 1 ==> path_parent(#[trigger] r->0@[i]@) == Some(
                r->0@[i + 1]@,
            ),
        r is Some ==> path_parent(r->0@.last()@) is None || r->0@.len() == path_parent(
            entrypoint@,
        )->0.len() + 1,
{
    match parent(entrypoint) {
        Some(dir) => Some(crate::commands::common::ticket_root_candidates(dir.as_str())),
        None => None,
    }
}

/// The root of the project that a plugin belongs to: the nearest directory
/// above its entry point that holds a `pyproject.toml`. `has_project_file`
/// says, for each of `candidates`, whether it holds one.
pub fn find_uv_project_root(candidates: Option<&Vec<String>>, has_project_file: &Vec<bool>) -> (r:
    Result<String, TixError>)
    ensures
        match candidates {
            Some(c) => match crate::commands::common::first_marked_of(
                views(c@),
                has_project_file@,
            ) {
                Some(root) => r is Ok && r->Ok_0@ == root,
                None => r is Err && r->Err_0.kind == ErrorKind::NotFound,
            },
            None => r is Err && r->Err_0.kind == ErrorKind::InvalidInput,
        },
{
    match candidates {
        Some(c) => match crate::commands::common::first_marked(c, has_project_file) {
            Some(root) => Ok(root),
            None => Err(TixError::new(ErrorKind::NotFound, "pyproject.toml")),
        },
        None => Err(TixError::new(ErrorKind::InvalidInput, "entrypoint")),
    }
}

// ---------------------------------------------------------------------------
// Directories
// ---------------------------------------------------------------------------

/// A character of a plugin's name as it stands in a directory name: ASCII
/// letters, digits, `-` and `_` are kept, anything else becomes `_`.
pub open spec fn safe_char(c: char) -> char {
    if crate::text::is_ascii_alphanumeric(c) || c == '-' || c == '_' {
        c
    } else {
        '_'
    }
}

/// The directory name of a plugin: each character made safe; `plugin` for an
/// empty name.
pub open spec fn safe_name_of(name: Seq<char>) -> Seq<char> {
    if name.len() == 0 {
        "plugin"@
    } else {
        Seq::new(name.len(), |i: int| safe_char(name[i]))
    }
}

/// The directory name of the plugin `name`.
pub fn sanitize_plugin_name(name: &str) -> (out: String)
    ensures
        out@ == safe_name_of(name@),
        out@.len() > 0,
{
    proof {
        reveal_strlit("plugin");
    }
    let v = to_chars(name);
    if v.len() == 0 {
        return copy_str("plugin");
    }
    let mut w: Vec<char> = Vec::new();
    let mut i: usize = 0;
    while i < v.len()
        invariant
            i <= v.len(),
            w@.len() == i,
            forall|k: int| 0 <= k < i ==> w@[k] == safe_char(v@[k]),
        decreases v.len() - i,
    {
        let c = v[i];
        let keep = ('a' <= c && c <= 'z') || ('A' <= c && c <= 'Z') || ('0' <= c && c <= '9') || c
            == '-' || c == '_';
        if keep {
            w.push(c);
        } else {
            w.push('_');
        }
        i += 1;
    }
    assert(w@ =~= safe_name_of(v@));
    from_chars(&w)
}

/// The directory of the plugin `name` under `base`.
pub open spec fn plugin_dir_of(base: Seq<char>, name: Seq<char>) -> Seq<char> {
    join_of(join_of(base, "plugins"@), safe_name_of(name))
}

fn plugin_dir(base: &str, plugin_name: &str) -> (out: String)
    ensures
        out@ == plugin_dir_of(base@, plugin_name@),
{
    let plugins = join(base, "plugins");
    let safe = sanitize_plugin_name(plugin_name);
    join(plugins.as_str(), safe.as_str())
}

/// The base directory that an `XDG_*_HOME` variable gives: the variable must
/// hold an absolute path without `..`; the application's own directory comes
/// below it.
pub open spec fn xdg_home_of(value: Option<Seq<char>>) -> Option<Seq<char>> {
    match value {
        Some(dir) => if dir.len() == 0 || !is_absolute_path(dir) || has_parent_dir_of(dir) {
            None
        } else {
            Some(join_of(dir, "tix"@))
        },
        None => None,
    }
}

/// The base directory that the value of an `XDG_*_HOME` variable gives.
pub fn xdg_home_path(value: Option<&str>) -> (r: Option<String>)
    ensures
        r is Some == xdg_home_of(crate::text::str_opt_view(value)) is Some,
        r is Some ==> r->0@ == xdg_home_of(crate::text::str_opt_view(value))->0,
{
    match value {
        Some(dir) => {
            if char_count(dir) == 0 || !is_absolute(dir) || has_parent_dir(dir) {
                None
            } else {
                Some(join(dir, "tix"))
            }
        },
        None => None,
    }
}

/// The directories that the operating system assigns to this application.
#[derive(Debug)]
pub struct ProjectPaths {
    pub config_dir: String,
    pub cache_dir: String,
    pub state_dir: Option<String>,
}

/// Asks `directories::ProjectDirs::from` for the directories of the
/// application `application` (without qualifier or organization) and hands
/// out `config_dir`, `cache_dir` and `state_dir` as text. They come from the
/// environment, so nothing is promised of them.
#[verifier::external_body]
pub(crate) fn project_paths(application: &str) -> (r: Option<ProjectPaths>) {
    directories::ProjectDirs::from("", "", application).map(
        |d|
            ProjectPaths {
                config_dir: d.config_dir().to_string_lossy().into_owned(),
                cache_dir: d.cache_dir().to_string_lossy().into_owned(),
                state_dir: d.state_dir().map(|p| p.to_string_lossy().into_owned()),
            },
    )
}

/// The root of a kind of plugin directory: what the `XDG_*_HOME` variable
/// gives where it is usable, else what the operating system assigns.
pub fn root_from(xdg_value: Option<&str>, assigned: Option<String>, what: &str) -> (r: Result<
    String,
    TixError,
>)
    ensures
        match xdg_home_of(crate::text::str_opt_view(xdg_value)) {
            Some(dir) => r is Ok && r->Ok_0@ == dir,
            None => match assigned {
                Some(dir) => r is Ok && r->Ok_0@ == dir@,
                None => r is Err && r->Err_0.kind == ErrorKind::NotConfigured && r->Err_0.detail@
                    == what@,
            },
        },
{
    match xdg_home_path(xdg_value) {
        Some(dir) => Ok(dir),
        None => match assigned {
            Some(dir) => Ok(dir),
            None => Err(TixError::new(ErrorKind::NotConfigured, what)),
        },
    }
}

/// The root of the plugin caches. `xdg_cache_home` is the value of the
/// variable of that name, if it is set.
pub fn plugin_cache_root(xdg_cache_home: Option<&str>) -> (r: Result<String, TixError>)
    ensures
        xdg_home_of(crate::text::str_opt_view(xdg_cache_home)) is Some ==> r is Ok
            && r->Ok_0@ == xdg_home_of(crate::text::str_opt_view(xdg_cache_home))->0,
        r is Err ==> r->Err_0.kind == ErrorKind::NotConfigured,
{
    let assigned = match project_paths("tix") {
        Some(p) => Some(p.cache_dir),
        None => None,
    };
    root_from(xdg_cache_home, assigned, "cache directory")
}

/// The root of the plugin states. `xdg_state_home` is the value of the
/// variable of that name, if it is set.
pub fn plugin_state_root(xdg_state_home: Option<&str>) -> (r: Result<String, TixError>)
    ensures
        xdg_home_of(crate::text::str_opt_view(xdg_state_home)) is Some ==> r is Ok
            && r->Ok_0@ == xdg_home_of(crate::text::str_opt_view(xdg_state_home))->0,
        r is Err ==> r->Err_0.kind == ErrorKind::NotConfigured,
{
    let assigned = match project_paths("tix") {
        Some(p) => p.state_dir,
        None => None,
    };
    root_from(xdg_state_home, assigned, "state directory")
}

/// The cache directory of a plugin, under the cache root.
pub fn plugin_cache_dir(cache_root: &str, plugin_name: &str) -> (out: String)
    ensures
        out@ == plugin_dir_of(cache_root@, plugin_name@),
{
    plugin_dir(cache_root, plugin_name)
}

/// The state directory of a plugin, under the state root.
pub fn plugin_state_dir(state_root: &str, plugin_name: &str) -> (out: String)
    ensures
        out@ == plugin_dir_of(state_root@, plugin_name@),
{
    plugin_dir(state_root, plugin_name)
}

/// The state directory of a plugin within a ticket.
pub fn plugin_ticket_state_dir(ticket_root: &str, plugin_name: &str) -> (out: String)
    ensures
        out@ == plugin_dir_of(join_of(ticket_root@, ".tix"@), plugin_name@),
{
    let stamp = join(ticket_root, ".tix");
    plugin_dir(stamp.as_str(), plugin_name)
}

// ---------------------------------------------------------------------------
// The repository of the working directory
// ---------------------------------------------------------------------------

/// `base`, followed by those of `more` that are not in it yet, each once.
pub open spec fn extended(base: Seq<Seq<char>>, more: Seq<Seq<char>>) -> Seq<Seq<char>>
    decreases more.len(),
{
    if more.len() == 0 {
        base
    } else {
        let before = extended(base, more.drop_last());
        if before.contains(more.last()) {
            before
        } else {
            before.push(more.last())
        }
    }
}

/// The aliases among which the repository of a directory is looked for:
/// those with a branch, then the other repositories of the record.
pub open spec fn candidate_aliases(ticket: TicketMetadata) -> Seq<Seq<char>> {
    extended(ticket.repo_branches.keys(), views(ticket.repos@))
}

/// The alias, among `candidates`, whose worktree `working_dir` lies in. Of
/// several (worktrees within worktrees) the one with the longest path; of
/// several with paths of one length the first.
pub open spec fn best_alias(
    ticket_root: Seq<char>,
    working_dir: Seq<char>,
    candidates: Seq<Seq<char>>,
) -> Option<Seq<char>>
    decreases candidates.len(),
{
    if candidates.len() == 0 {
        None
    } else {
        let before = best_alias(ticket_root, working_dir, candidates.drop_last());
        let path = join_of(ticket_root, candidates.last());
        if path_starts_with(working_dir, path) && (before is None || path.len() > join_of(
            ticket_root,
            before->0,
        ).len()) {
            Some(candidates.last())
        } else {
            before
        }
    }
}

/// The repository whose worktree `working_dir` lies in, with the worktree's
/// directory; neither where it lies in none.
pub fn detect_current_repo(ticket_root: &str, ticket: &TicketMetadata, working_dir: &str) -> (r: (
    Option<String>,
    Option<String>,
))
    ensures
        match best_alias(ticket_root@, working_dir@, candidate_aliases(*ticket)) {
            Some(alias) => r.0 is Some && r.0->0@ == alias && r.1 is Some && r.1->0@ == join_of(
                ticket_root@,
                alias,
            ),
            None => r.0 is None && r.1 is None,
        },
{
    let mut candidates = ticket.repo_branches.keys_vec();
    let ghost repos = views(ticket.repos@);
    let mut i: usize = 0;
    assert(repos.take(0).len() == 0);
    while i < ticket.repos.len()
        invariant
            i <= ticket.repos.len(),
            repos == views(ticket.repos@),
            views(candidates@) == extended(ticket.repo_branches.keys(), repos.take(i as int)),
        decreases ticket.repos.len() - i,
    {
        proof {
            assert(repos.take(i + 1).drop_last() == repos.take(i as int));
            assert(repos.take(i + 1).last() == ticket.repos@[i as int]@);
        }
        let ghost before = candidates@;
        if !contains_alias(&candidates, ticket.repos[i].as_str()) {
            candidates.push(ticket.repos[i].clone());
            assert(views(candidates@) =~= views(before).push(ticket.repos@[i as int]@));
        }
        i += 1;
    }
    assert(repos.take(ticket.repos.len() as int) == repos);
    let ghost all = views(candidates@);
    let mut best: Option<(String, String)> = None;
    let mut k: usize = 0;
    assert(all.take(0).len() == 0);
    while k < candidates.len()
        invariant
            k <= candidates.len(),
            all == views(candidates@),
            match best_alias(ticket_root@, working_dir@, all.take(k as int)) {
                Some(alias) => best is Some && (best->0).0@ == alias && (best->0).1@ == join_of(
                    ticket_root@,
                    alias,
                ),
                None => best is None,
            },
        decreases candidates.len() - k,
    {
        proof {
            assert(all.take(k + 1).drop_last() == all.take(k as int));
            assert(all.take(k + 1).last() == candidates@[k as int]@);
        }
        let path = join(ticket_root, candidates[k].as_str());
        if starts_with(working_dir, path.as_str()) {
            let replace = match &best {
                Some(found) => char_count(path.as_str()) > char_count(found.1.as_str()),
                None => true,
            };
            if replace {
                best = Some((candidates[k].clone(), path));
            }
        }
        k += 1;
    }
    assert(all.take(candidates.len() as int) == all);
    match best {
        Some((alias, path)) => (Some(alias), Some(path)),
        None => (None, None),
    }
}

/// What the plugin `plugin_name` is told when it is started from
/// `working_dir` within the ticket at `ticket_root`.
pub fn plugin_context(
    plugin_name: &str,
    ticket_root: &str,
    working_dir: &str,
    ticket: TicketMetadata,
    config: &Config,
    cache_root: &str,
    state_root: &str,
) -> (context: PluginContext)
    ensures
        context.plugin_name@ == plugin_name@,
        context.ticket_root@ == ticket_root@,
        context.current_working_dir@ == working_dir@,
        context.ticket == ticket,
        match best_alias(ticket_root@, working_dir@, candidate_aliases(ticket)) {
            Some(alias) => context.current_repo_alias is Some && context.current_repo_alias->0@
                == alias && context.current_repo_path is Some && context.current_repo_path->0@
                == join_of(ticket_root@, alias),
            None => context.current_repo_alias is None && context.current_repo_path is None,
        },
        context.code_directory@ == config.code_directory@,
        context.tickets_directory@ == config.tickets_directory@,
        context.plugin_cache_dir@ == plugin_dir_of(cache_root@, plugin_name@),
        context.plugin_state_dir@ == plugin_dir_of(state_root@, plugin_name@),
        context.plugin_ticket_state_dir@ == plugin_dir_of(
            join_of(ticket_root@, ".tix"@),
            plugin_name@,
        ),
        context.config.repositories@ == config.repositories@,
        context.config.plugins@ == config.plugins@,
{
    let (current_repo_alias, current_repo_path) = detect_current_repo(
        ticket_root,
        &ticket,
        working_dir,
    );
    PluginContext {
        plugin_name: copy_str(plugin_name),
        ticket_root: copy_str(ticket_root),
        current_working_dir: copy_str(working_dir),
        current_repo_alias,
        current_repo_path,
        ticket,
        code_directory: config.code_directory.clone(),
        tickets_directory: config.tickets_directory.clone(),
        plugin_cache_dir: plugin_cache_dir(cache_root, plugin_name),
        plugin_state_dir: plugin_state_dir(state_root, plugin_name),
        plugin_ticket_state_dir: plugin_ticket_state_dir(ticket_root, plugin_name),
        config: config.duplicate(),
    }
}

} // verus!
