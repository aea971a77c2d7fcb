use tix::alias_map::AliasMap;
use tix::commands::common::{
    build_branch_name, first_marked, is_tidy_name, locate_ticket_root, marker_path,
    sanitize_description, ticket_root_candidates,
};
use tix::config::Config;
use tix::defaults;
use tix::error::ErrorKind;
use tix::ticket::worktree_name_for_branch;

fn base_config() -> Config {
    Config {
        branch_prefix: defaults::DEFAULT_BRANCH_PREFIX.into(),
        github_base_url: defaults::DEFAULT_GITHUB_BASE_URL.into(),
        default_repository_owner: defaults::DEFAULT_REPOSITORY_OWNER.into(),
        code_directory: defaults::DEFAULT_CODE_DIR_FALLBACK.into(),
        tickets_directory: defaults::DEFAULT_TICKETS_DIR_FALLBACK.into(),
        repositories: AliasMap::new(),
        plugins: AliasMap::new(),
        jira_base_url: None,
    }
}

#[test]
fn branch_name_includes_description() {
    let cfg = base_config();
    let desc = "Short Summary".to_string();
    let name = build_branch_name(&cfg, "JIRA-1", Some(&desc));
    assert_eq!(name, "feature/JIRA-1-short-summary");
}

#[test]
fn sanitize_description_matches_branch_rules() {
    assert_eq!(sanitize_description("Short Summary"), "short-summary");
    assert_eq!(
        sanitize_description("Feat: Payment/Auth"),
        "feat-payment-auth"
    );
}

#[test]
fn branch_name_without_usable_description_is_prefix_and_id() {
    let cfg = base_config();
    assert_eq!(build_branch_name(&cfg, "JIRA-1", None), "feature/JIRA-1");
    let empty = "###".to_string();
    assert_eq!(build_branch_name(&cfg, "JIRA-1", Some(&empty)), "feature/JIRA-1");
}

#[test]
fn branch_name_is_the_same_each_time() {
    let cfg = base_config();
    let desc = "  Fix: the THING (again)  ".to_string();
    let first = build_branch_name(&cfg, "T-9", Some(&desc));
    let second = build_branch_name(&cfg, "T-9", Some(&desc));
    assert_eq!(first, second);
    assert_eq!(first, "feature/T-9-fix-the-thing-again");
}

#[test]
fn sanitized_text_is_tidy() {
    for input in ["--A--b--", "Ünïcode Ärger", "x", "a  b\tc\n", "UPPER lower 123"] {
        let out = sanitize_description(input);
        assert!(!out.starts_with('-'));
        assert!(!out.ends_with('-'));
        assert!(!out.contains("--"));
        assert!(!out.chars().any(|c| c.is_uppercase()));
        assert!(is_tidy_name(&out));
    }
    assert_eq!(sanitize_description("Ünïcode Ärger"), "ünïcode-ärger");
    assert_eq!(sanitize_description("UPPER lower 123"), "upper-lower-123");
    assert_eq!(sanitize_description("É"), "é");
    assert_eq!(sanitize_description("ΣΊΣΥΦΟΣ Ǆ"), "σίσυφοσ-ǆ");
}

#[test]
fn worktree_name_has_no_slash() {
    let cfg = base_config();
    let desc = "a/b c".to_string();
    let branch = build_branch_name(&cfg, "JIRA/7", Some(&desc));
    assert_eq!(branch, "feature/JIRA/7-a-b-c");
    let name = worktree_name_for_branch(&branch);
    assert_eq!(name, "feature_JIRA_7-a-b-c");
    assert!(!name.contains('/'));
    assert_eq!(worktree_name_for_branch("feature/test"), "feature_test");
    assert_eq!(worktree_name_for_branch(""), "");
}

#[test]
fn ticket_root_is_explicit_or_inferred() {
    let cfg = base_config();
    assert_eq!(
        locate_ticket_root(Some("JIRA-1"), &cfg, Some("/elsewhere")).unwrap(),
        "./tickets/JIRA-1"
    );
    assert_eq!(locate_ticket_root(None, &cfg, Some("/found")).unwrap(), "/found");
    let err = locate_ticket_root(None, &cfg, None).unwrap_err();
    assert_eq!(err.kind, ErrorKind::NotFound);
}

#[test]
fn locate_ticket_root_walks_upwards() {
    let candidates = ticket_root_candidates("/tickets/JIRA-1/api/src");
    assert_eq!(
        candidates,
        vec!["/tickets/JIRA-1/api/src", "/tickets/JIRA-1/api", "/tickets/JIRA-1", "/tickets", "/"]
    );
    assert_eq!(marker_path("/tickets/JIRA-1"), "/tickets/JIRA-1/.tix/info.toml");
    let marked = vec![false, false, true, false, true];
    let found = first_marked(&candidates, &marked);
    assert_eq!(found, Some("/tickets/JIRA-1".to_string()));
    assert_eq!(
        locate_ticket_root(None, &base_config(), found.as_deref()).unwrap(),
        "/tickets/JIRA-1"
    );
    assert_eq!(first_marked(&candidates, &vec![false; 5]), None);
    assert_eq!(first_marked(&candidates, &vec![]), None);
}

#[test]
fn sanitizing_twice_changes_nothing() {
    for input in ["--A--b--", "Ünïcode Ärger", "", "a  b\tc\n", "UPPER lower 123", "x-y"] {
        let once = sanitize_description(input);
        assert_eq!(sanitize_description(&once), once);
    }
}

#[test]
fn sanitizing_keeps_the_alphanumerics() {
    let input = "Fix: the THING (again) №7 ½";
    let out = sanitize_description(input);
    let kept: String = out.chars().filter(|c| *c != '-').collect();
    let expected: String = input
        .chars()
        .filter(|c| c.is_alphanumeric())
        .flat_map(|c| c.to_lowercase())
        .collect();
    assert_eq!(kept, expected);
    assert_eq!(out, "fix-the-thing-again-7-½");
}

#[test]
fn lowercase_forms_of_several_characters_are_kept_whole() {
    assert_eq!(sanitize_description("İstanbul"), "i\u{307}stanbul");
    let cfg = base_config();
    let desc = "Émile ZOLA".to_string();
    assert_eq!(build_branch_name(&cfg, "t-1", Some(&desc)), "feature/t-1-émile-zola");
}

#[test]
fn tidy_names_are_told_from_others() {
    for name in ["", "a", "feature/t-1-émile-zola", "a-b-c", "a/b", "ß1"] {
        assert!(is_tidy_name(name), "{:?}", name);
    }
    for name in ["-", "-a", "a-", "a--b", "A", "aÉ", "feature/JIRA-1", "x-Y", "--", "\u{1d400}"] {
        assert!(!is_tidy_name(name), "{:?}", name);
    }
}
