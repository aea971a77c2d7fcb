use std::path::PathBuf;
use tix::alias_map::AliasMap;
use tix::commands::list::{format_jira_link, format_path_with_home, order_by_id, row, truncate};
use tix::config::Config;
use tix::paths::format_path_with;
use tix::ticket::TicketMetadata;

#[test]
fn truncate_leaves_short_strings() {
    assert_eq!(truncate("hello", 10), "hello");
}

#[test]
fn truncate_shortens_long_strings() {
    assert_eq!(truncate("hello world", 8), "hello...");
}

#[test]
fn truncate_handles_zero_length() {
    assert_eq!(truncate("hello", 0), "");
}

#[test]
fn truncate_handles_utf8_characters() {
    assert_eq!(truncate("こんにちは世界", 5), "こん...");
    assert_eq!(truncate("🎉🎊🎈", 2), "🎉🎊");
}

#[test]
fn truncate_handles_small_max_len() {
    assert_eq!(truncate("hello", 3), "hel");
    assert_eq!(truncate("hello", 2), "he");
    assert_eq!(truncate("hello", 1), "h");
}

#[test]
fn format_jira_link_returns_empty_when_not_configured() {
    let config = Config {
        jira_base_url: None,
        ..Default::default()
    };
    assert_eq!(format_jira_link(&config, "JIRA-123"), "");
}

#[test]
fn format_jira_link_constructs_url_when_configured() {
    let config = Config {
        jira_base_url: Some("https://company.atlassian.net/browse".to_string()),
        ..Default::default()
    };
    assert_eq!(
        format_jira_link(&config, "JIRA-123"),
        "https://company.atlassian.net/browse/JIRA-123"
    );
}

#[test]
fn format_jira_link_handles_trailing_slash() {
    let config = Config {
        jira_base_url: Some("https://company.atlassian.net/browse/".to_string()),
        ..Default::default()
    };
    assert_eq!(
        format_jira_link(&config, "JIRA-123"),
        "https://company.atlassian.net/browse/JIRA-123"
    );
}

#[test]
fn format_path_with_home_uses_tilde() {
    if let Some(home) = home::home_dir() {
        let test_path = home.join("tickets/JIRA-123");
        let formatted = format_path_with_home(test_path.to_str().unwrap());
        assert!(formatted.starts_with("~/"));
    }
}

#[test]
fn format_path_with_home_passthrough_non_home_paths() {
    let test_path = PathBuf::from("/tmp/tickets/JIRA-123");
    let formatted = format_path_with_home(test_path.to_str().unwrap());
    assert_eq!(formatted, "/tmp/tickets/JIRA-123");
}

#[test]
fn truncate_at_the_boundaries() {
    assert_eq!(truncate("abcd", 4), "abcd");
    assert_eq!(truncate("abcde", 4), "a...");
    assert_eq!(truncate("abcd", 3), "abc");
    assert_eq!(truncate("", 3), "");
}

#[test]
fn path_is_shown_against_a_given_home() {
    assert_eq!(format_path_with("/home/al/tickets/J-1", Some("/home/al")), "~/tickets/J-1");
    assert_eq!(format_path_with("/home/al//tickets", Some("/home/al/")), "~/tickets");
    assert_eq!(format_path_with("/home/alice/x", Some("/home/al")), "/home/alice/x");
    assert_eq!(format_path_with("/tmp/x", None), "/tmp/x");
}

#[test]
fn row_cuts_long_columns() {
    let config = Config {
        jira_base_url: Some("https://j/browse".to_string()),
        ..Default::default()
    };
    let metadata = TicketMetadata {
        id: "JIRA-9".into(),
        description: Some("d".repeat(50)),
        created_at: "2024-01-01T00:00:00Z".into(),
        branch: "feature/JIRA-9".into(),
        repos: vec![],
        repo_branches: AliasMap::new(),
        repo_worktrees: AliasMap::new(),
    };
    let r = row(&config, "/home/al/tickets/JIRA-9", &metadata, Some("/home/al"));
    assert_eq!(r.ticket, "JIRA-9");
    assert_eq!(r.description, format!("{}...", "d".repeat(37)));
    assert_eq!(r.path, "~/tickets/JIRA-9");
    assert_eq!(r.link, "https://j/browse/JIRA-9");
}

#[test]
fn tickets_are_listed_by_id() {
    let ids: Vec<String> =
        ["JIRA-2", "JIRA-10", "ABC-1", "JIRA-2", "jira-1", ""].iter().map(|s| s.to_string()).collect();
    assert_eq!(order_by_id(&ids), vec![5, 2, 1, 0, 3, 4]);
    let mut expected: Vec<usize> = (0..ids.len()).collect();
    expected.sort_by(|a, b| ids[*a].cmp(&ids[*b]));
    assert_eq!(order_by_id(&ids), expected);
    assert!(order_by_id(&vec![]).is_empty());
}
