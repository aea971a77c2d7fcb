use std::path::PathBuf;
use tix::alias_map::AliasMap;
use tix::commands::doctor::{check_path, check_repo, check_string, run};
use tix::config::{Config, RepoDefinition};

#[test]
fn check_string_flags_empty() {
    let mut errors = Vec::new();
    let mut warnings = Vec::new();
    check_string("branch_prefix", "", &mut errors, &mut warnings);
    assert_eq!(errors.len(), 1);
}

#[test]
fn check_path_requires_existence_when_requested() {
    let mut errors = Vec::new();
    let mut warnings = Vec::new();
    let path = PathBuf::from("/nonexistent");
    check_path(
        "code_directory",
        path.to_str().unwrap(),
        true,
        path.exists(),
        &mut errors,
        &mut warnings,
    );
    assert_eq!(errors.len(), 1);
}

#[test]
fn check_repo_warns_on_missing_path() {
    let mut warnings = Vec::new();
    let path = PathBuf::from("/nope/api");
    check_repo(
        "api",
        &RepoDefinition {
            url: "git@github.com:org/api.git".into(),
            path: path.to_str().unwrap().into(),
        },
        path.exists(),
        &mut warnings,
    );
    assert!(!warnings.is_empty());
}

#[test]
fn check_messages_name_the_field() {
    let mut errors = Vec::new();
    let mut warnings = Vec::new();
    check_string("branch_prefix", " \t", &mut errors, &mut warnings);
    check_string("github_base_url", "x", &mut errors, &mut warnings);
    check_path("code_directory", "", true, true, &mut errors, &mut warnings);
    check_path("tickets_directory", "/t", true, false, &mut errors, &mut warnings);
    check_path("tickets_directory", "/t", false, false, &mut errors, &mut warnings);
    assert_eq!(
        errors,
        vec![
            "branch_prefix is not set",
            "code_directory is not set",
            "tickets_directory does not exist: /t"
        ]
    );
    assert!(warnings.is_empty());
}

#[test]
fn check_repo_messages() {
    let mut warnings = Vec::new();
    let repo = RepoDefinition { url: " ".into(), path: String::new() };
    check_repo("api", &repo, false, &mut warnings);
    let repo = RepoDefinition { url: "u".into(), path: "/code/web".into() };
    check_repo("web", &repo, false, &mut warnings);
    check_repo("web", &repo, true, &mut warnings);
    assert_eq!(
        warnings,
        vec![
            "Repo 'api' has empty url",
            "Repo 'api' has empty path",
            "Repo 'web' path does not exist (will be cloned by setup-repos): /code/web"
        ]
    );
}

#[test]
fn doctor_passes_with_warnings_and_fails_with_errors() {
    let mut config = Config {
        branch_prefix: "feature".into(),
        github_base_url: "https://github.com".into(),
        default_repository_owner: "my-org".into(),
        code_directory: "/code".into(),
        tickets_directory: "/tickets".into(),
        repositories: AliasMap::new(),
        plugins: AliasMap::new(),
        jira_base_url: None,
    };
    config.repositories.insert("api".into(), RepoDefinition::new("u", "/code/api"));
    config.repositories.insert("web".into(), RepoDefinition::new("u", "/code/web"));
    let report = run(&config, true, true, &[true, false]);
    assert!(report.passed());
    assert_eq!(
        report.warnings,
        vec!["Repo 'web' path does not exist (will be cloned by setup-repos): /code/web"]
    );
    let report = run(&Config::default(), false, false, &[]);
    assert!(!report.passed());
    assert_eq!(report.errors.len(), 5);
}
