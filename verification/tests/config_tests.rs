use std::path::PathBuf;
use tix::alias_map::AliasMap;
use tix::commands::config_cmd::{run, run_with_home, set_path, set_string, ConfigOutcome};
use tix::commands::init::{self, default_path_str, expand_path, fallback, prompt_defaults, InitAnswers};
use tix::commands::setup_repos::{self, compute_clone_plan, conclude};
use tix::config::{Config, RepoDefinition};
use tix::error::ErrorKind;
use tix::paths::expand_path_with;

fn base_config() -> Config {
    Config {
        branch_prefix: "feature".into(),
        github_base_url: "git@github.com".into(),
        default_repository_owner: "my-org".into(),
        code_directory: "/code".into(),
        tickets_directory: "/tickets".into(),
        repositories: AliasMap::new(),
        plugins: AliasMap::new(),
        jira_base_url: None,
    }
}

#[test]
fn set_branch_prefix_updates_value() {
    let mut config = base_config();
    run(&mut config, "branch_prefix", Some("hotfix")).unwrap();
    assert_eq!(config.branch_prefix, "hotfix");
}

#[test]
fn path_expansion_supports_home_prefix() {
    let mut config = base_config();
    run(&mut config, "code_directory", Some("~/dev")).unwrap();
    let expected_prefix = home::home_dir()
        .map(|h| h.join("dev"))
        .unwrap_or_else(|| PathBuf::from("~/dev"));
    assert_eq!(PathBuf::from(config.code_directory), expected_prefix);
}

#[test]
fn unknown_key_errors() {
    let mut config = base_config();
    assert!(run(&mut config, "unknown", Some("x")).is_err());
}

#[test]
fn expand_path_handles_home_prefix() {
    let expanded = expand_path("~/mydir");
    if let Some(home) = home::home_dir() {
        assert_eq!(PathBuf::from(expanded), home.join("mydir"));
    } else {
        assert_eq!(PathBuf::from(expanded), PathBuf::from("~/mydir"));
    }
}

#[test]
fn expand_path_passthrough_other_paths() {
    assert_eq!(PathBuf::from(expand_path("/tmp/example")), PathBuf::from("/tmp/example"));
    assert_eq!(PathBuf::from(expand_path("relative/path")), PathBuf::from("relative/path"));
}

#[test]
fn expansion_against_a_given_home() {
    assert_eq!(expand_path_with("~/dev", Some("/home/al")), "/home/al/dev");
    assert_eq!(expand_path_with("~/dev", Some("/home/al/")), "/home/al/dev");
    assert_eq!(expand_path_with("~/", Some("/home/al")), "/home/al/");
    assert_eq!(expand_path_with("~/dev", None), "~/dev");
    assert_eq!(expand_path_with("~dev", Some("/home/al")), "~dev");
    assert_eq!(expand_path_with("/x/~/dev", Some("/home/al")), "/x/~/dev");
}

#[test]
fn config_shows_and_sets_each_key() {
    let mut config = base_config();
    match run_with_home(&mut config, "github_base_url", None, None).unwrap() {
        ConfigOutcome::Shown { value } => assert_eq!(value, "git@github.com"),
        other => panic!("{:?}", other),
    }
    assert!(matches!(
        run_with_home(&mut config, "default_repository_owner", Some("me"), None).unwrap(),
        ConfigOutcome::Updated
    ));
    assert_eq!(config.default_repository_owner, "me");
    run_with_home(&mut config, "tickets_directory", Some("~/t"), Some("/home/al")).unwrap();
    assert_eq!(config.tickets_directory, "/home/al/t");
    match run_with_home(&mut config, "tickets_directory", None, None).unwrap() {
        ConfigOutcome::Shown { value } => assert_eq!(value, "/home/al/t"),
        other => panic!("{:?}", other),
    }
    assert_eq!(config.code_directory, "/code");
    assert_eq!(config.branch_prefix, "feature");
}

#[test]
fn config_rejects_blank_paths_and_unknown_keys() {
    let mut config = base_config();
    let err = run_with_home(&mut config, "code_directory", Some("  "), None).unwrap_err();
    assert_eq!(err.kind, ErrorKind::InvalidInput);
    assert_eq!(err.detail, "code_directory");
    assert_eq!(config.code_directory, "/code");
    let err = run_with_home(&mut config, "nope", None, None).unwrap_err();
    assert_eq!(err.kind, ErrorKind::NotFound);
    assert_eq!(err.detail, "nope");
    run_with_home(&mut config, "branch_prefix", Some(""), None).unwrap();
    assert_eq!(config.branch_prefix, "");
}

#[test]
fn setters_change_only_on_a_value() {
    let mut field = "old".to_string();
    assert!(matches!(set_string(&mut field, "k", None).unwrap(), ConfigOutcome::Shown { .. }));
    assert_eq!(field, "old");
    set_string(&mut field, "k", Some("new")).unwrap();
    assert_eq!(field, "new");
    set_path(&mut field, "k", Some("~/p"), Some("/h")).unwrap();
    assert_eq!(field, "/h/p");
    assert!(set_path(&mut field, "k", Some(""), Some("/h")).is_err());
    assert_eq!(field, "/h/p");
}

#[test]
fn init_offers_defaults_and_takes_answers() {
    assert_eq!(fallback("", "d"), "d");
    assert_eq!(fallback("v", "d"), "v");
    assert_eq!(default_path_str("/cur", Some("/cand".into()), "./fb"), "/cur");
    assert_eq!(default_path_str("", Some("/cand".into()), "./fb"), "/cand");
    assert_eq!(default_path_str("", None, "./fb"), "./fb");

    let d = prompt_defaults(&Config::default(), Some("/home/al"));
    assert_eq!(d.tickets_directory, "/home/al/tickets");
    assert_eq!(d.code_directory, "/home/al/code");
    assert_eq!(d.branch_prefix, "feature");
    assert_eq!(d.github_base_url, "https://github.com");
    assert_eq!(d.default_repository_owner, "my-org");
    let d = prompt_defaults(&Config::default(), None);
    assert_eq!(d.tickets_directory, "./tickets");
    assert_eq!(d.code_directory, "./code");
    let d = prompt_defaults(&base_config(), Some("/home/al"));
    assert_eq!(d.tickets_directory, "/tickets");
    assert_eq!(d.github_base_url, "git@github.com");

    let mut config = base_config();
    init::run(
        &mut config,
        InitAnswers {
            tickets_directory: "~/t".into(),
            code_directory: "/c".into(),
            branch_prefix: "fix".into(),
            github_base_url: "https://g".into(),
            default_repository_owner: "o".into(),
        },
        Some("/home/al"),
    );
    assert_eq!(config.tickets_directory, "/home/al/t");
    assert_eq!(config.code_directory, "/c");
    assert_eq!(config.branch_prefix, "fix");
    assert_eq!(config.github_base_url, "https://g");
    assert_eq!(config.default_repository_owner, "o");
}

#[test]
fn compute_clone_plan_skips_existing_paths() {
    let mut config = base_config();
    config.repositories.insert(
        "exists".into(),
        RepoDefinition::new("git@github.com:org/existing.git", "/code/existing"),
    );
    config.repositories.insert(
        "missing".into(),
        RepoDefinition::new("git@github.com:org/missing.git", "/code/missing"),
    );
    let plan = compute_clone_plan(&config, &[true, false]);
    assert_eq!(plan.len(), 1);
    assert_eq!(plan[0].0, "missing");
    assert_eq!(plan[0].1.path, "/code/missing");
    assert_eq!(plan[0].1.url, "git@github.com:org/missing.git");
    assert_eq!(compute_clone_plan(&config, &[]).len(), 2);
    assert!(compute_clone_plan(&config, &[true, true]).is_empty());
}

#[test]
fn setup_repos_needs_a_code_directory() {
    let mut config = base_config();
    assert!(setup_repos::run(&config, &[]).unwrap().is_empty());
    config.repositories.insert("api".into(), RepoDefinition::new("u", "/code/api"));
    assert_eq!(setup_repos::run(&config, &[false]).unwrap().len(), 1);
    config.code_directory = String::new();
    let err = setup_repos::run(&config, &[false]).unwrap_err();
    assert_eq!(err.kind, ErrorKind::NotConfigured);
    assert_eq!(err.detail, "code_directory");
}

#[test]
fn failed_clones_are_reported_together() {
    assert!(conclude(&vec![]).is_ok());
    let err = conclude(&vec!["api".into()]).unwrap_err();
    assert_eq!(err.detail, "api");
    let err = conclude(&vec!["api".into(), "web".into(), "x".into()]).unwrap_err();
    assert_eq!(err.kind, ErrorKind::Io);
    assert_eq!(err.detail, "api, web, x");
    assert_eq!(err.message(), "operation failed: api, web, x");
}
