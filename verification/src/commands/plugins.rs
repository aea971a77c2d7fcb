//! Registering plugins and listing them.

use vstd::prelude::*;
use crate::config::Config;
use crate::config::PluginDefinition;
use crate::error::ErrorKind;
use crate::error::TixError;
use crate::paths::is_absolute;
use crate::paths::is_absolute_path;
use crate::paths::join;
use crate::paths::join_of;
use crate::text::blank;
use crate::text::concat2;
use crate::text::concat3;
use crate::text::copy_str;
use crate::text::is_blank;
use crate::text::str_opt_view;

verus! {

/// The line that lists a plugin: its name with its description, or with its
/// entry point where it has no description.
pub open spec fn plugin_line_of(name: Seq<char>, plugin: PluginDefinition) -> Seq<char> {
    if is_blank(plugin.description@) {
        name + " ("@ + plugin.entrypoint@ + ")"@
    } else {
        name + " - "@ + plugin.description@
    }
}

/// One line for each of `plugins`, in their order.
pub fn list(plugins: &Vec<(String, PluginDefinition)>) -> (lines: Vec<String>)
    ensures
        lines@.len() == plugins@.len(),
        forall|i: int|
            0 <= i < lines@.len() ==> (#[trigger] lines@[i])@ == plugin_line_of(
                plugins@[i].0@,
                plugins@[i].1,
            ),
{
    let mut lines: Vec<String> = Vec::new();
    let mut i: usize = 0;
    while i < plugins.len()
        invariant
            i <= plugins.len(),
            lines@.len() == i,
            forall|k: int|
                0 <= k < i ==> (#[trigger] lines@[k])@ == plugin_line_of(
                    plugins@[k].0@,
                    plugins@[k].1,
                ),
        decreases plugins.len() - i,
    {
        let name = &plugins[i].0;
        let plugin = &plugins[i].1;
        let line = if blank(plugin.description.as_str()) {
            let head = concat3(name.as_str(), " (", plugin.entrypoint.as_str());
            concat2(head.as_str(), ")")
        } else {
            concat3(name.as_str(), " - ", plugin.description.as_str())
        };
        lines.push(line);
        i += 1;
    }
    lines
}

/// The entry point as an absolute path: a relative one is taken from the
/// working directory.
pub fn resolve_entrypoint_path(entrypoint: &str, current_dir: &str) -> (out: String)
    ensures
        out@ == if is_absolute_path(entrypoint@) {
            entrypoint@
        } else {
            join_of(current_dir@, entrypoint@)
        },
{
    if is_absolute(entrypoint) {
        copy_str(entrypoint)
    } else {
        join(current_dir, entrypoint)
    }
}

/// Registers the plugin `name` with the entry point `entrypoint`, which the
/// caller has resolved and found to be a file. A name that is taken is
/// refused and the configuration stays as it is.
pub fn register(
    config: &mut Config,
    name: &str,
    entrypoint: &str,
    description: Option<&str>,
    python: Option<&str>,
) -> (r: Result<(), TixError>)
    ensures
        final(config).branch_prefix == old(config).branch_prefix,
        final(config).github_base_url == old(config).github_base_url,
        final(config).default_repository_owner == old(config).default_repository_owner,
        final(config).code_directory == old(config).code_directory,
        final(config).tickets_directory == old(config).tickets_directory,
        final(config).repositories == old(config).repositories,
        final(config).jira_base_url == old(config).jira_base_url,
        old(config).plugins@.dom().contains(name@) ==> r is Err && r->Err_0.kind
            == ErrorKind::AlreadyExists && r->Err_0.detail@ == name@ && final(config).plugins
            == old(config).plugins,
        !old(config).plugins@.dom().contains(name@) ==> r is Ok && ({
            let plugin = final(config).plugins@[name@];
            &&& final(config).plugins@.dom() == old(config).plugins@.dom().insert(name@)
            &&& final(config).plugins.keys() == old(config).plugins.keys().push(name@)
            &&& plugin.entrypoint@ == entrypoint@
            &&& plugin.description@ == match description {
                Some(d) => d@,
                None => Seq::empty(),
            }
            &&& str_opt_view(python) == crate::text::opt_view(plugin.python)
            &&& forall|k: Seq<char>|
                old(config).plugins@.dom().contains(k) ==> #[trigger] final(config).plugins@[k]
                    == old(config).plugins@[k]
        }),
{
    if config.plugins.contains_key(name) {
        return Err(TixError::new(ErrorKind::AlreadyExists, name));
    }
    let plugin = PluginDefinition {
        entrypoint: copy_str(entrypoint),
        description: match description {
            Some(d) => copy_str(d),
            None => String::new(),
        },
        python: match python {
            Some(p) => Some(copy_str(p)),
            None => None,
        },
    };
    config.plugins.insert(copy_str(name), plugin);
    Ok(())
}

/// Takes the plugin `name` out of the registry. A name that is not
/// registered is refused.
pub fn deregister(config: &mut Config, name: &str) -> (r: Result<(), TixError>)
    ensures
        final(config).branch_prefix == old(config).branch_prefix,
        final(config).github_base_url == old(config).github_base_url,
        final(config).default_repository_owner == old(config).default_repository_owner,
        final(config).code_directory == old(config).code_directory,
        final(config).tickets_directory == old(config).tickets_directory,
        final(config).repositories == old(config).repositories,
        final(config).jira_base_url == old(config).jira_base_url,
        final(config).plugins@ == old(config).plugins@.remove(name@),
        old(config).plugins@.dom().contains(name@) ==> r is Ok,
        !old(config).plugins@.dom().contains(name@) ==> r is Err && r->Err_0.kind
            == ErrorKind::NotFound && r->Err_0.detail@ == name@,
{
    if config.plugins.remove(name) {
        Ok(())
    } else {
        Err(TixError::new(ErrorKind::NotFound, name))
    }
}

} // verus!
