use tix::alias_map::AliasMap;
use tix::error::ErrorKind;
use tix::ticket::{contains_alias, copy_map, Ticket, TicketMetadata};

fn first_format_record() -> TicketMetadata {
    TicketMetadata {
        id: "JIRA-1".into(),
        description: Some("Old".into()),
        created_at: "2024-01-01T00:00:00Z".into(),
        branch: "feature/JIRA-1-old".into(),
        repos: vec!["api".into(), "web".into()],
        repo_branches: AliasMap::new(),
        repo_worktrees: AliasMap::new(),
    }
}

fn pairs(items: &[(&str, &str)]) -> Vec<(String, String)> {
    items.iter().map(|(a, b)| (a.to_string(), b.to_string())).collect()
}

#[test]
fn create_takes_distinct_aliases_from_the_pairs() {
    let description = "My Feature".to_string();
    let ticket = Ticket::create(
        "/tickets/JIRA-1",
        "JIRA-1",
        Some(&description),
        "feature/JIRA-1-my-feature",
        &pairs(&[("api", "b1"), ("web", "b2"), ("api", "b3")]),
    );
    assert_eq!(ticket.root, "/tickets/JIRA-1");
    assert_eq!(ticket.metadata.id, "JIRA-1");
    assert_eq!(ticket.metadata.description, Some(description));
    assert_eq!(ticket.metadata.branch, "feature/JIRA-1-my-feature");
    assert_eq!(ticket.metadata.repos, vec!["api", "web"]);
    assert_eq!(ticket.metadata.repo_branches.len(), 2);
    assert_eq!(ticket.metadata.repo_branches.get("api").unwrap(), "b3");
    assert_eq!(ticket.metadata.repo_branches.get("web").unwrap(), "b2");
    assert!(ticket.metadata.repo_worktrees.is_empty());
}

#[test]
fn create_stamps_the_current_time() {
    let ticket = Ticket::create("/t", "X-1", None, "feature/X-1", &[]);
    let stamp = &ticket.metadata.created_at;
    assert!(stamp.len() >= 20);
    assert_eq!(&stamp[4..5], "-");
    assert_eq!(&stamp[10..11], "T");
    assert!(stamp[0..4].parse::<u32>().unwrap() >= 2024);
    assert!(ticket.metadata.repos.is_empty());
}

#[test]
fn stamp_keeps_the_given_time() {
    let ticket = Ticket::stamp("/t", "X-1", None, "b", &pairs(&[("api", "b")]), "2024-05-06T07:08:09+00:00");
    assert_eq!(ticket.metadata.created_at, "2024-05-06T07:08:09+00:00");
    assert_eq!(ticket.metadata.description, None);
}

#[test]
fn load_without_a_record_is_not_found() {
    let err = Ticket::load("/tickets/JIRA-1", None).unwrap_err();
    assert_eq!(err.kind, ErrorKind::NotFound);
    assert_eq!(err.detail, "/tickets/JIRA-1");
}

#[test]
fn load_heals_a_record_without_branches() {
    let ticket = Ticket::load("/tickets/JIRA-1", Some(first_format_record())).unwrap();
    assert_eq!(ticket.metadata.repo_branches.len(), 2);
    assert_eq!(ticket.metadata.repo_branches.get("api").unwrap(), "feature/JIRA-1-old");
    assert_eq!(ticket.metadata.repo_branches.get("web").unwrap(), "feature/JIRA-1-old");
    assert_eq!(ticket.metadata.repos, vec!["api", "web"]);
}

#[test]
fn load_leaves_other_records_alone() {
    let mut record = first_format_record();
    record.repo_branches.insert("api".into(), "custom".into());
    let ticket = Ticket::load("/t", Some(record)).unwrap();
    assert_eq!(ticket.metadata.repo_branches.len(), 1);
    assert_eq!(ticket.metadata.repo_branches.get("api").unwrap(), "custom");
    assert!(ticket.metadata.repo_branches.get("web").is_none());

    let mut empty = first_format_record();
    empty.repos.clear();
    let ticket = Ticket::load("/t", Some(empty)).unwrap();
    assert!(ticket.metadata.repo_branches.is_empty());
}

#[test]
fn add_repos_never_overwrites_a_branch() {
    let mut ticket = Ticket::stamp("/t", "X-1", None, "b0", &pairs(&[("api", "b0")]), "now");
    ticket.add_repos_with_branch(&["api".to_string(), "web".to_string()], "other");
    assert_eq!(ticket.metadata.repos, vec!["api", "web"]);
    assert_eq!(ticket.metadata.repo_branches.get("api").unwrap(), "b0");
    assert_eq!(ticket.metadata.repo_branches.get("web").unwrap(), "other");
    ticket.add_repos_with_branch(&["web".to_string(), "api".to_string(), "web".to_string()], "third");
    assert_eq!(ticket.metadata.repos, vec!["api", "web"]);
    assert_eq!(ticket.metadata.repo_branches.get("api").unwrap(), "b0");
    assert_eq!(ticket.metadata.repo_branches.get("web").unwrap(), "other");
}

#[test]
fn add_repo_branch_adds_once() {
    let mut ticket = Ticket::stamp("/t", "X-1", None, "b0", &[], "now");
    ticket.add_repo_branch("api", "b1");
    ticket.add_repo_branch("api", "b2");
    assert_eq!(ticket.metadata.repos, vec!["api"]);
    assert_eq!(ticket.metadata.repo_branches.get("api").unwrap(), "b1");
}

#[test]
fn remove_repo_drops_every_trace() {
    let mut ticket = Ticket::stamp("/t", "X-1", None, "b0", &pairs(&[("api", "b0"), ("web", "b0")]), "now");
    ticket.metadata.repos.push("api".into());
    ticket.record_worktree("api", "b0");
    ticket.record_worktree("web", "b0");
    ticket.remove_repo("api");
    assert_eq!(ticket.metadata.repos, vec!["web"]);
    assert!(!ticket.metadata.repo_branches.contains_key("api"));
    assert!(!ticket.metadata.repo_worktrees.contains_key("api"));
    assert!(ticket.metadata.repo_worktrees.contains_key("web"));
    ticket.remove_repo("missing");
    assert_eq!(ticket.metadata.repos, vec!["web"]);
}

#[test]
fn ensure_branch_sets_only_an_empty_branch() {
    let mut ticket = Ticket::stamp("/t", "X-1", None, "", &[], "now");
    assert!(ticket.ensure_branch("feature/X-1"));
    assert_eq!(ticket.metadata.branch, "feature/X-1");
    assert!(!ticket.ensure_branch("feature/other"));
    assert_eq!(ticket.metadata.branch, "feature/X-1");
}

#[test]
fn duplicate_copies_the_record() {
    let mut record = first_format_record();
    record.repo_branches.insert("api".into(), "b".into());
    record.repo_worktrees.insert("api".into(), "w".into());
    let copy = record.duplicate();
    assert_eq!(copy.id, record.id);
    assert_eq!(copy.description, record.description);
    assert_eq!(copy.created_at, record.created_at);
    assert_eq!(copy.branch, record.branch);
    assert_eq!(copy.repos, record.repos);
    assert_eq!(copy.repo_branches.get("api").unwrap(), "b");
    assert_eq!(copy.repo_worktrees.get("api").unwrap(), "w");
    assert_eq!(copy_map(&record.repo_branches).keys_vec(), vec!["api"]);
}

#[test]
fn alias_lists_are_searched_by_text() {
    let list = vec!["api".to_string(), "web".to_string()];
    assert!(contains_alias(&list, "web"));
    assert!(!contains_alias(&list, "we"));
    assert!(!contains_alias(&vec![], "api"));
}

#[test]
fn alias_map_keeps_insertion_order() {
    let mut map: AliasMap<u32> = AliasMap::new();
    assert!(map.is_empty());
    assert!(!map.insert("b".into(), 1));
    assert!(!map.insert("a".into(), 2));
    assert!(map.insert("b".into(), 3));
    assert_eq!(map.len(), 2);
    assert_eq!(map.keys_vec(), vec!["b", "a"]);
    assert_eq!(map.get("b"), Some(&3));
    assert_eq!(map.position("a"), Some(1));
    assert_eq!(map.key_at(1), "a");
    assert_eq!(*map.value_at(0), 3);
    assert!(map.remove("b"));
    assert!(!map.remove("b"));
    assert_eq!(map.keys_vec(), vec!["a"]);
    assert!(!map.contains_key("b"));
}
