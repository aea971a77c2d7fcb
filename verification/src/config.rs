//! The configuration: a few settings and the registry of repositories.

use vstd::prelude::*;
use crate::alias_map::AliasMap;
use crate::text::copy_str;

verus! {

/// A registered repository: where it is cloned from and where it lives.
#[derive(Debug)]
pub struct RepoDefinition {
    /// Remote URL, such as `git@github.com:owner/repo.git`.
    pub url: String,
    /// Local path of the clone.
    pub path: String,
}

/// A registered plugin.
#[derive(Debug)]
pub struct PluginDefinition {
    /// Path of the script that is run.
    pub entrypoint: String,
    /// One line on what the plugin does; may be empty.
    pub description: String,
    /// The interpreter version to ask for, if any.
    pub python: Option<String>,
}

/// The settings shared by all commands.
#[derive(Debug)]
pub struct Config {
    /// First part of every ticket branch, such as `feature`.
    pub branch_prefix: String,
    /// Base of clone URLs, over SSH or HTTPS.
    pub github_base_url: String,
    /// Owner that is assumed where only a repository name is given.
    pub default_repository_owner: String,
    /// Directory under which the repositories are cloned.
    pub code_directory: String,
    /// Directory under which the ticket workspaces are made.
    pub tickets_directory: String,
    /// The repositories, by alias.
    pub repositories: AliasMap<RepoDefinition>,
    /// The plugins, by name.
    pub plugins: AliasMap<PluginDefinition>,
    /// Base of the links to the issue tracker, if one is set.
    pub jira_base_url: Option<String>,
}

impl RepoDefinition {
    /// The definition of a repository cloned from `url` into `path`.
    pub fn new(url: &str, path: &str) -> (r: RepoDefinition)
        ensures
            r.url@ == url@,
            r.path@ == path@,
    {
        RepoDefinition { url: copy_str(url), path: copy_str(path) }
    }

    /// A copy of the definition.
    pub fn duplicate(&self) -> (r: RepoDefinition)
        ensures
            r == *self,
    {
        RepoDefinition { url: self.url.clone(), path: self.path.clone() }
    }
}

impl PluginDefinition {
    /// A copy of the definition.
    pub fn duplicate(&self) -> (r: PluginDefinition)
        ensures
            r == *self,
    {
        PluginDefinition {
            entrypoint: self.entrypoint.clone(),
            description: self.description.clone(),
            python: match &self.python {
                Some(p) => Some(p.clone()),
                None => None,
            },
        }
    }
}

impl Config {
    /// A copy of the configuration.
    pub fn duplicate(&self) -> (c: Config)
        ensures
            c.branch_prefix == self.branch_prefix,
            c.github_base_url == self.github_base_url,
            c.default_repository_owner == self.default_repository_owner,
            c.code_directory == self.code_directory,
            c.tickets_directory == self.tickets_directory,
            c.jira_base_url == self.jira_base_url,
            c.repositories@ == self.repositories@,
            c.repositories.keys() == self.repositories.keys(),
            c.plugins@ == self.plugins@,
            c.plugins.keys() == self.plugins.keys(),
    {
        let mut repositories: AliasMap<RepoDefinition> = AliasMap::new();
        let mut i: usize = 0;
        self.repositories.know_coherent();
        while i < self.repositories.len()
            invariant
                i <= self.repositories.keys().len(),
                self.repositories.coherent(),
                repositories.coherent(),
                repositories.keys() == self.repositories.keys().take(i as int),
                forall|k: Seq<char>| #[trigger]
                    repositories@.dom().contains(k) ==> self.repositories@.dom().contains(k)
                        && repositories@[k] == self.repositories@[k],
            decreases self.repositories.keys().len() - i,
        {
            let key = self.repositories.key_at(i);
            let value = self.repositories.value_at(i);
            proof {
                let keys = self.repositories.keys();
                assert(!keys.take(i as int).contains(key@)) by {
                    if keys.take(i as int).contains(key@) {
                        let j = keys.take(i as int).index_of(key@);
                        assert(keys[j] == keys[i as int]);
                    }
                }
                assert(keys.take(i + 1) =~= keys.take(i as int).push(key@));
            }
            repositories.insert(key.clone(), value.duplicate());
            i += 1;
        }
        let mut plugins: AliasMap<PluginDefinition> = AliasMap::new();
        let mut j: usize = 0;
        self.plugins.know_coherent();
        while j < self.plugins.len()
            invariant
                j <= self.plugins.keys().len(),
                self.plugins.coherent(),
                plugins.coherent(),
                plugins.keys() == self.plugins.keys().take(j as int),
                forall|k: Seq<char>| #[trigger]
                    plugins@.dom().contains(k) ==> self.plugins@.dom().contains(k) && plugins@[k]
                        == self.plugins@[k],
            decreases self.plugins.keys().len() - j,
        {
            let key = self.plugins.key_at(j);
            let value = self.plugins.value_at(j);
            proof {
                let keys = self.plugins.keys();
                assert(!keys.take(j as int).contains(key@)) by {
                    if keys.take(j as int).contains(key@) {
                        let m = keys.take(j as int).index_of(key@);
                        assert(keys[m] == keys[j as int]);
                    }
                }
                assert(keys.take(j + 1) =~= keys.take(j as int).push(key@));
            }
            plugins.insert(key.clone(), value.duplicate());
            j += 1;
        }
        proof {
            let rk = self.repositories.keys();
            assert(rk.take(rk.len() as int) == rk);
            assert forall|k: Seq<char>| self.repositories@.dom().contains(k) implies
                repositories@.dom().contains(k) by {
                assert(rk.contains(k));
                assert(repositories.keys().contains(k));
            }
            assert(repositories@ =~= self.repositories@);
            let pk = self.plugins.keys();
            assert(pk.take(pk.len() as int) == pk);
            assert forall|k: Seq<char>| self.plugins@.dom().contains(k) implies
                plugins@.dom().contains(k) by {
                assert(pk.contains(k));
                assert(plugins.keys().contains(k));
            }
            assert(plugins@ =~= self.plugins@);
        }
        Config {
            branch_prefix: self.branch_prefix.clone(),
            github_base_url: self.github_base_url.clone(),
            default_repository_owner: self.default_repository_owner.clone(),
            code_directory: self.code_directory.clone(),
            tickets_directory: self.tickets_directory.clone(),
            repositories,
            plugins,
            jira_base_url: match &self.jira_base_url {
                Some(u) => Some(u.clone()),
                None => None,
            },
        }
    }
}

impl Default for Config {
    fn default() -> (c: Config)
        ensures
            c.branch_prefix@.len() == 0,
            c.github_base_url@.len() == 0,
            c.default_repository_owner@.len() == 0,
            c.code_directory@.len() == 0,
            c.tickets_directory@.len() == 0,
            c.repositories@ == Map::<Seq<char>, RepoDefinition>::empty(),
            c.plugins@ == Map::<Seq<char>, PluginDefinition>::empty(),
            c.jira_base_url is None,
    {
        Config {
            branch_prefix: String::new(),
            github_base_url: String::new(),
            default_repository_owner: String::new(),
            code_directory: String::new(),
            tickets_directory: String::new(),
            repositories: AliasMap::new(),
            plugins: AliasMap::new(),
            jira_base_url: None,
        }
    }
}

} // verus!
