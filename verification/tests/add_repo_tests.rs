use std::path::PathBuf;
use tix::alias_map::AliasMap;
use tix::commands::add_repo::{
    build_url, clean_base, parse_repo_input, plan_repo_registration, repo_name_from_path, run,
};
use tix::config::{Config, RepoDefinition};
use tix::error::ErrorKind;

fn base_config() -> Config {
    Config {
        branch_prefix: "feature".into(),
        github_base_url: "git@github.com".into(),
        default_repository_owner: "my-org".into(),
        code_directory: "/code".into(),
        tickets_directory: "/tickets".into(),
        repositories: AliasMap::new(),
        plugins: AliasMap::new(),
        jira_base_url: None,
    }
}

#[test]
fn repo_name_from_url_handles_git_suffix() {
    assert_eq!(
        repo_name_from_path("git@github.com:owner/repo.git"),
        Some("repo".into())
    );
    assert_eq!(
        repo_name_from_path("https://github.com/owner/repo"),
        Some("repo".into())
    );
}

#[test]
fn build_url_supports_https_and_ssh_bases() {
    assert_eq!(
        build_url("https://github.com", "owner", "repo").unwrap(),
        "https://github.com/owner/repo.git"
    );
    assert_eq!(
        build_url("git@github.com", "owner", "repo").unwrap(),
        "git@github.com:owner/repo.git"
    );
}

#[test]
fn parse_repo_input_full_url_keeps_input() {
    let config = base_config();
    let parsed = parse_repo_input(&config, "git@github.com:foo/bar.git").unwrap();
    assert_eq!(parsed.name, "bar");
    assert_eq!(parsed.url, "git@github.com:foo/bar.git");
}

#[test]
fn parse_repo_input_owner_name_uses_base() {
    let config = base_config();
    let parsed = parse_repo_input(&config, "foo/bar").unwrap();
    assert_eq!(parsed.name, "bar");
    assert_eq!(parsed.url, "git@github.com:foo/bar.git");
}

#[test]
fn parse_repo_input_name_only_uses_default_owner() {
    let config = base_config();
    let parsed = parse_repo_input(&config, "service").unwrap();
    assert_eq!(parsed.name, "service");
    assert_eq!(parsed.url, "git@github.com:my-org/service.git");
}

#[test]
fn plan_registration_sets_alias_and_path() {
    let config = base_config();
    let (alias, def) =
        plan_repo_registration(&config, "git@github.com:foo/bar.git", Some("api")).unwrap();
    assert_eq!(alias, "api");
    assert_eq!(def.url, "git@github.com:foo/bar.git");
    assert_eq!(PathBuf::from(def.path), PathBuf::from("/code/api"));
}

#[test]
fn repo_name_strips_repeated_suffix_and_slashes() {
    assert_eq!(repo_name_from_path("a/b.git.git///"), Some("b".into()));
    assert_eq!(repo_name_from_path("plain"), Some("plain".into()));
    assert_eq!(repo_name_from_path(".git"), None);
    assert_eq!(repo_name_from_path(""), None);
    assert_eq!(repo_name_from_path("host:"), None);
}

#[test]
fn build_url_trims_the_separator_of_its_base() {
    assert_eq!(
        build_url("https://github.com//", "o", "r").unwrap(),
        "https://github.com/o/r.git"
    );
    assert_eq!(build_url("git@host::", "o", "r").unwrap(), "git@host:o/r.git");
    let err = build_url("", "o", "r").unwrap_err();
    assert_eq!(err.kind, ErrorKind::NotConfigured);
    assert_eq!(err.detail, "github_base_url");
}

#[test]
fn clean_base_drops_trailing_slashes_and_spaces() {
    assert_eq!(clean_base("https://github.com/ / "), "https://github.com");
    assert_eq!(clean_base("git@github.com"), "git@github.com");
}

#[test]
fn parse_repo_input_trims_and_takes_two_segments() {
    let config = base_config();
    let parsed = parse_repo_input(&config, "  foo/bar/baz/  ").unwrap();
    assert_eq!(parsed.name, "bar");
    assert_eq!(parsed.url, "git@github.com:foo/bar.git");
}

#[test]
fn parse_repo_input_refusals() {
    let mut config = base_config();
    let err = parse_repo_input(&config, "/bar").unwrap_err();
    assert_eq!(err.kind, ErrorKind::InvalidInput);
    let err = parse_repo_input(&config, "git@host:").unwrap_err();
    assert_eq!(err.kind, ErrorKind::InvalidInput);
    assert_eq!(err.detail, "git@host:");
    let parsed = parse_repo_input(&config, "https://").unwrap();
    assert_eq!(parsed.name, "https:");
    config.default_repository_owner = String::new();
    let err = parse_repo_input(&config, "service").unwrap_err();
    assert_eq!(err.kind, ErrorKind::NotConfigured);
    assert_eq!(err.detail, "default_repository_owner");
    config.default_repository_owner = "me".into();
    config.github_base_url = " / ".into();
    let err = parse_repo_input(&config, "service").unwrap_err();
    assert_eq!(err.kind, ErrorKind::NotConfigured);
    assert_eq!(err.detail, "github_base_url");
}

#[test]
fn plan_registration_refusals_and_default_alias() {
    let mut config = base_config();
    let err = plan_repo_registration(&config, "   ", None).unwrap_err();
    assert_eq!(err.kind, ErrorKind::InvalidInput);
    let (alias, def) = plan_repo_registration(&config, "foo/bar", Some("  ")).unwrap();
    assert_eq!(alias, "bar");
    assert_eq!(def.path, "/code/bar");
    config.code_directory = String::new();
    let err = plan_repo_registration(&config, "foo/bar", None).unwrap_err();
    assert_eq!(err.kind, ErrorKind::NotConfigured);
    assert_eq!(err.detail, "code_directory");
}

#[test]
fn registering_twice_overwrites_and_says_so() {
    let mut config = base_config();
    let first = run(&mut config, "foo/bar", Some("api".to_string())).unwrap();
    assert_eq!(first.alias, "api");
    assert!(!first.overwritten);
    let second = run(&mut config, "other/thing", Some("api".to_string())).unwrap();
    assert!(second.overwritten);
    assert_eq!(config.repositories.len(), 1);
    let def: &RepoDefinition = config.repositories.get("api").unwrap();
    assert_eq!(def.url, "git@github.com:other/thing.git");
    assert_eq!(def.path, "/code/api");
    assert!(run(&mut config, "", None).is_err());
    assert_eq!(config.repositories.len(), 1);
}
