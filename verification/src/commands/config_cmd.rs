//! Showing and changing single settings.

use vstd::prelude::*;
use crate::config::Config;
use crate::error::ErrorKind;
use crate::error::TixError;
use crate::paths::expand_path_with;
use crate::paths::expanded_of;
use crate::paths::home_directory;
use crate::text::blank;
use crate::text::copy_str;
use crate::text::is_blank;
use crate::text::same;
use crate::text::str_opt_view;

verus! {

/// What the command did.
#[derive(Debug)]
pub enum ConfigOutcome {
    /// No value was given: this is the setting as it stands.
    Shown { value: String },
    /// The setting has the new value.
    Updated,
}

/// Whether `key` names a text setting.
pub open spec fn is_text_key(key: Seq<char>) -> bool {
    key == "branch_prefix"@ || key == "github_base_url"@ || key == "default_repository_owner"@
}

/// Whether `key` names a directory setting.
pub open spec fn is_path_key(key: Seq<char>) -> bool {
    key == "code_directory"@ || key == "tickets_directory"@
}

/// The setting that `key` names.
pub open spec fn setting_of(config: Config, key: Seq<char>) -> Seq<char> {
    if key == "branch_prefix"@ {
        config.branch_prefix@
    } else if key == "github_base_url"@ {
        config.github_base_url@
    } else if key == "default_repository_owner"@ {
        config.default_repository_owner@
    } else if key == "code_directory"@ {
        config.code_directory@
    } else {
        config.tickets_directory@
    }
}

/// Whether `after` is `before` with the setting `key` set to `value`, and
/// nothing else changed.
pub open spec fn is_update(before: Config, after: Config, key: Seq<char>, value: Seq<char>) -> bool {
    &&& after.branch_prefix@ == if key == "branch_prefix"@ {
        value
    } else {
        before.branch_prefix@
    }
    &&& after.github_base_url@ == if key == "github_base_url"@ {
        value
    } else {
        before.github_base_url@
    }
    &&& after.default_repository_owner@ == if key == "default_repository_owner"@ {
        value
    } else {
        before.default_repository_owner@
    }
    &&& after.code_directory@ == if key == "code_directory"@ {
        value
    } else {
        before.code_directory@
    }
    &&& after.tickets_directory@ == if key == "tickets_directory"@ {
        value
    } else {
        before.tickets_directory@
    }
    &&& after.repositories == before.repositories
    &&& after.plugins == before.plugins
    &&& after.jira_base_url == before.jira_base_url
}

/// Whether `after` holds the settings of `before`.
pub open spec fn same_settings(before: Config, after: Config) -> bool {
    &&& after.branch_prefix@ == before.branch_prefix@
    &&& after.github_base_url@ == before.github_base_url@
    &&& after.default_repository_owner@ == before.default_repository_owner@
    &&& after.code_directory@ == before.code_directory@
    &&& after.tickets_directory@ == before.tickets_directory@
    &&& after.repositories == before.repositories
    &&& after.plugins == before.plugins
    &&& after.jira_base_url == before.jira_base_url
}

/// Why the command is refused, if it is: the key is unknown (`NotFound`), or
/// a directory is to be set to a blank value (`InvalidInput`).
pub open spec fn config_refusal(key: Seq<char>, value: Option<Seq<char>>) -> Option<ErrorKind> {
    if !is_text_key(key) && !is_path_key(key) {
        Some(ErrorKind::NotFound)
    } else if is_path_key(key) && value is Some && is_blank(value->0) {
        Some(ErrorKind::InvalidInput)
    } else {
        None
    }
}

/// What the command comes to, with `home` as the home directory.
pub open spec fn config_result(
    before: Config,
    after: Config,
    key: Seq<char>,
    value: Option<Seq<char>>,
    home: Option<Seq<char>>,
    r: Result<ConfigOutcome, TixError>,
) -> bool {
    if config_refusal(key, value) is Some {
        &&& r is Err
        &&& r->Err_0.kind == config_refusal(key, value)->0
        &&& r->Err_0.detail@ == key
        &&& same_settings(before, after)
    } else {
        match value {
            None => {
                &&& r is Ok
                &&& r->Ok_0 is Shown
                &&& r->Ok_0->value@ == setting_of(before, key)
                &&& same_settings(before, after)
            },
            Some(v) => {
                &&& r is Ok
                &&& r->Ok_0 is Updated
                &&& is_update(
                    before,
                    after,
                    key,
                    if is_path_key(key) {
                        expanded_of(v, home)
                    } else {
                        v
                    },
                )
            },
        }
    }
}

/// Sets a text setting, or hands it out where no value is given.
pub fn set_string(field: &mut String, key: &str, value: Option<&str>) -> (r: Result<
    ConfigOutcome,
    TixError,
>)
    ensures
        match value {
            Some(v) => final(field)@ == v@ && r is Ok && r->Ok_0 is Updated,
            None => final(field)@ == old(field)@ && r is Ok && r->Ok_0 is Shown
                && r->Ok_0->value@ == old(field)@,
        },
{
    match value {
        Some(v) => {
            *field = copy_str(v);
            Ok(ConfigOutcome::Updated)
        },
        None => Ok(ConfigOutcome::Shown { value: field.clone() }),
    }
}

/// Sets a directory setting, with a leading `~/` expanded against `home`; or
/// hands it out where no value is given. A blank value is refused.
pub fn set_path(field: &mut String, key: &str, value: Option<&str>, home: Option<&str>) -> (r:
    Result<ConfigOutcome, TixError>)
    ensures
        match value {
            Some(v) => if is_blank(v@) {
                final(field)@ == old(field)@ && r is Err && r->Err_0.kind
                    == ErrorKind::InvalidInput && r->Err_0.detail@ == key@
            } else {
                final(field)@ == expanded_of(v@, str_opt_view(home)) && r is Ok
                    && r->Ok_0 is Updated
            },
            None => final(field)@ == old(field)@ && r is Ok && r->Ok_0 is Shown
                && r->Ok_0->value@ == old(field)@,
        },
{
    match value {
        Some(v) => {
            if blank(v) {
                return Err(TixError::new(ErrorKind::InvalidInput, key));
            }
            *field = expand_path_with(v, home);
            Ok(ConfigOutcome::Updated)
        },
        None => Ok(ConfigOutcome::Shown { value: field.clone() }),
    }
}

/// Shows or sets the setting `key`, with `home` as the home directory.
pub fn run_with_home(config: &mut Config, key: &str, value: Option<&str>, home: Option<&str>) -> (r:
    Result<ConfigOutcome, TixError>)
    ensures
        config_result(
            *old(config),
            *final(config),
            key@,
            str_opt_view(value),
            str_opt_view(home),
            r,
        ),
{
    proof {
        reveal_strlit("branch_prefix");
        reveal_strlit("github_base_url");
        reveal_strlit("default_repository_owner");
        reveal_strlit("code_directory");
        reveal_strlit("tickets_directory");
        assert("branch_prefix"@.len() == 13);
        assert("github_base_url"@.len() == 15);
        assert("default_repository_owner"@.len() == 24);
        assert("code_directory"@.len() == 14);
        assert("tickets_directory"@.len() == 17);
    }
    if same(key, "branch_prefix") {
        set_string(&mut config.branch_prefix, key, value)
    } else if same(key, "github_base_url") {
        set_string(&mut config.github_base_url, key, value)
    } else if same(key, "default_repository_owner") {
        set_string(&mut config.default_repository_owner, key, value)
    } else if same(key, "code_directory") {
        set_path(&mut config.code_directory, key, value, home)
    } else if same(key, "tickets_directory") {
        set_path(&mut config.tickets_directory, key, value, home)
    } else {
        Err(TixError::new(ErrorKind::NotFound, key))
    }
}

/// Shows or sets the setting `key`. A directory may start with `~/`, which
/// stands for the home directory of the current user.
pub fn run(config: &mut Config, key: &str, value: Option<&str>) -> (r: Result<
    ConfigOutcome,
    TixError,
>)
    ensures
        exists|home: Option<Seq<char>>|
            config_result(*old(config), *final(config), key@, str_opt_view(value), home, r),
{
    let home = home_directory();
    match &home {
        Some(h) => {
            let r = run_with_home(config, key, value, Some(h.as_str()));
            assert(config_result(*old(config), *config, key@, str_opt_view(value), Some(h@), r));
            r
        },
        None => {
            let r = run_with_home(config, key, value, None);
            assert(config_result(*old(config), *config, key@, str_opt_view(value), None, r));
            r
        },
    }
}

} // verus!
