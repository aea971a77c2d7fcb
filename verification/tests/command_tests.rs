use tix::alias_map::AliasMap;
use tix::commands::add;
use tix::commands::destroy;
use tix::commands::remove;
use tix::commands::setup::{self, advance_job, begin_job, record_job, JobStep, TicketState};
use tix::config::{Config, RepoDefinition};
use tix::error::ErrorKind;
use tix::git::{begin_create_worktree, create_worktree, CreateReply, CreateStep, WorktreeRequest};
use tix::ticket::{Ticket, TicketMetadata};

fn config() -> Config {
    let mut config = Config {
        branch_prefix: "feature".into(),
        github_base_url: "https://github.com".into(),
        default_repository_owner: "my-org".into(),
        code_directory: "/code".into(),
        tickets_directory: "/tickets".into(),
        repositories: AliasMap::new(),
        plugins: AliasMap::new(),
        jira_base_url: None,
    };
    config.repositories.insert("api".into(), RepoDefinition::new("u-api", "/code/api"));
    config.repositories.insert("web".into(), RepoDefinition::new("u-web", "/code/web"));
    config
}

fn names(list: &[&str]) -> Vec<String> {
    list.iter().map(|s| s.to_string()).collect()
}

fn stored(ticket: &Ticket) -> TicketMetadata {
    ticket.metadata.duplicate()
}

#[test]
fn setup_creates_the_record_and_a_worktree() {
    let config = config();
    let plan = setup::run(
        &config,
        "JIRA-1",
        &names(&["api"]),
        false,
        Some("My Feature".to_string()),
        TicketState::Missing,
    );
    assert!(plan.create_directory);
    assert_eq!(plan.ticket_dir, "/tickets/JIRA-1");
    assert_eq!(plan.branch_name, "feature/JIRA-1-my-feature");
    assert_eq!(plan.ticket.metadata.branch, "feature/JIRA-1-my-feature");
    assert_eq!(
        plan.ticket.metadata.repo_branches.get("api").unwrap(),
        "feature/JIRA-1-my-feature"
    );
    assert_eq!(plan.ticket.metadata.repos, vec!["api"]);
    assert_eq!(plan.ticket.metadata.description.as_deref(), Some("My Feature"));
    assert!(plan.skipped.is_empty());
    assert_eq!(plan.worktrees.len(), 1);
    let job = &plan.worktrees[0];
    assert_eq!(job.alias, "api");
    assert_eq!(job.repo_path, "/code/api");
    assert_eq!(job.target_path, "/tickets/JIRA-1/api");
    assert_eq!(job.branch_name, "feature/JIRA-1-my-feature");
    assert_eq!(job.worktree_name, "feature_JIRA-1-my-feature");

    let request = WorktreeRequest {
        target_path: job.target_path.clone(),
        branch_name: job.branch_name.clone(),
        base_ref: None,
    };
    let mut step = begin_create_worktree();
    for reply in [
        CreateReply::Refused,
        CreateReply::DefaultBranch { reference: Some("refs/remotes/origin/main".into()) },
        CreateReply::Done,
        CreateReply::Done,
    ] {
        step = create_worktree(&request, step, reply);
    }
    assert!(matches!(&step, CreateStep::AddWorktree { name } if *name == job.worktree_name));
    assert!(matches!(create_worktree(&request, step, CreateReply::Done), CreateStep::Finished));

    let mut ticket = plan.ticket;
    record_job(&mut ticket, job);
    assert_eq!(
        ticket.metadata.repo_worktrees.get("api").unwrap(),
        "feature_JIRA-1-my-feature"
    );
}

#[test]
fn setup_without_repositories_stamps_a_bare_ticket() {
    let plan = setup::run(&config(), "JIRA-EMPTY", &[], false, None, TicketState::Missing);
    assert_eq!(plan.ticket.metadata.id, "JIRA-EMPTY");
    assert_eq!(plan.branch_name, "feature/JIRA-EMPTY");
    assert!(plan.ticket.metadata.repos.is_empty());
    assert!(plan.worktrees.is_empty());
}

#[test]
fn setup_passes_over_aliases_that_are_not_registered() {
    let plan = setup::run(
        &config(),
        "JIRA-INVALID",
        &names(&["missing", "web", "gone"]),
        false,
        None,
        TicketState::Unstamped,
    );
    assert!(!plan.create_directory);
    assert_eq!(plan.skipped, vec!["missing", "gone"]);
    assert_eq!(plan.ticket.metadata.repos, vec!["web"]);
    assert_eq!(plan.worktrees.len(), 1);
    assert_eq!(plan.worktrees[0].alias, "web");
}

#[test]
fn setup_of_all_takes_every_registered_repository() {
    let plan = setup::run(&config(), "J-2", &names(&["ignored"]), true, None, TicketState::Missing);
    assert!(plan.skipped.is_empty());
    assert_eq!(plan.ticket.metadata.repos, vec!["api", "web"]);
    let targets: Vec<&str> = plan.worktrees.iter().map(|j| j.target_path.as_str()).collect();
    assert_eq!(targets, vec!["/tickets/J-2/api", "/tickets/J-2/web"]);
}

#[test]
fn repeated_setup_keeps_recorded_branches() {
    let config = config();
    let first = setup::run(
        &config,
        "J-3",
        &names(&["api"]),
        false,
        Some("one".to_string()),
        TicketState::Missing,
    );
    let second = setup::run(
        &config,
        "J-3",
        &names(&["api", "web"]),
        false,
        Some("two".to_string()),
        TicketState::Stamped { metadata: stored(&first.ticket) },
    );
    assert!(!second.create_directory);
    assert_eq!(second.branch_name, "feature/J-3-two");
    assert_eq!(second.ticket.metadata.branch, "feature/J-3-one");
    assert_eq!(second.ticket.metadata.repo_branches.get("api").unwrap(), "feature/J-3-one");
    assert_eq!(second.ticket.metadata.repo_branches.get("web").unwrap(), "feature/J-3-two");
    assert_eq!(second.ticket.metadata.created_at, first.ticket.metadata.created_at);
}

#[test]
fn setup_heals_a_record_in_the_first_format() {
    let record = TicketMetadata {
        id: "J-4".into(),
        description: None,
        created_at: "then".into(),
        branch: String::new(),
        repos: vec!["api".into()],
        repo_branches: AliasMap::new(),
        repo_worktrees: AliasMap::new(),
    };
    let plan = setup::run(
        &config(),
        "J-4",
        &names(&["web"]),
        false,
        None,
        TicketState::Stamped { metadata: record },
    );
    assert_eq!(plan.ticket.metadata.branch, "feature/J-4");
    assert_eq!(plan.ticket.metadata.repo_branches.get("api").unwrap(), "");
    assert_eq!(plan.ticket.metadata.repo_branches.get("web").unwrap(), "feature/J-4");
    assert_eq!(plan.ticket.metadata.repos, vec!["api", "web"]);
}

#[test]
fn a_job_goes_on_when_the_fetch_fails_and_stops_when_the_worktree_fails() {
    assert_eq!(begin_job(), JobStep::Sync);
    assert_eq!(advance_job(JobStep::Sync, false), JobStep::Create);
    assert_eq!(advance_job(JobStep::Sync, true), JobStep::Create);
    assert_eq!(advance_job(JobStep::Create, true), JobStep::Record);
    assert_eq!(advance_job(JobStep::Create, false), JobStep::Next { created: false });
    assert_eq!(advance_job(JobStep::Record, true), JobStep::Next { created: true });
    assert_eq!(
        advance_job(JobStep::Next { created: true }, false),
        JobStep::Next { created: true }
    );
}

#[test]
fn add_resolves_the_branch_by_priority() {
    let config = config();
    let ticket = Ticket::stamp("/tickets/J-5", "J-5", None, "ticket-branch", &[], "now");
    let mut with_branch = stored(&ticket);
    with_branch.repo_branches.insert("web".into(), "stored/web".into());
    let plan =
        add::run(&config, "web", "/tickets/J-5", true, Some(with_branch), false, Some("main"))
            .unwrap();
    assert_eq!(plan.job.branch_name, "stored/web");
    assert_eq!(plan.job.worktree_name, "stored_web");
    assert_eq!(plan.job.repo_path, "/code/web");
    assert_eq!(plan.job.target_path, "/tickets/J-5/web");
    assert_eq!(plan.base_ref.as_deref(), Some("main"));
    assert!(plan.branch_was_stored);

    let plan = add::run(&config, "web", "/tickets/J-5", true, Some(stored(&ticket)), false, None)
        .unwrap();
    assert_eq!(plan.job.branch_name, "ticket-branch");
    assert!(!plan.branch_was_stored);
    assert_eq!(plan.base_ref, None);

    let description = "Some Thing".to_string();
    let bare = Ticket::stamp("/tickets/J-5", "J-5", Some(&description), "", &[], "now");
    let plan =
        add::run(&config, "web", "/tickets/J-5", true, Some(stored(&bare)), false, None).unwrap();
    assert_eq!(plan.job.branch_name, "feature/J-5-some-thing");

    let mut ticket = plan.ticket;
    add::record_added(&mut ticket, &plan.job);
    assert_eq!(ticket.metadata.branch, "feature/J-5-some-thing");
    assert_eq!(ticket.metadata.repos, vec!["web"]);
    assert_eq!(ticket.metadata.repo_branches.get("web").unwrap(), "feature/J-5-some-thing");
    assert_eq!(ticket.metadata.repo_worktrees.get("web").unwrap(), "feature_J-5-some-thing");
}

#[test]
fn add_refuses_in_order() {
    let config = config();
    let ticket = Ticket::stamp("/tickets/J-6", "J-6", None, "b", &[], "now");
    let err = add::run(&config, "web", "/tickets/J-6", false, Some(stored(&ticket)), false, None)
        .unwrap_err();
    assert_eq!(err.kind, ErrorKind::NotFound);
    assert_eq!(err.detail, "/tickets/J-6");
    let err = add::run(&config, "web", "/tickets/J-6", true, None, false, None).unwrap_err();
    assert_eq!(err.kind, ErrorKind::NotFound);
    assert_eq!(err.detail, "/tickets/J-6");
    let err = add::run(&config, "nope", "/tickets/J-6", true, Some(stored(&ticket)), true, None)
        .unwrap_err();
    assert_eq!(err.kind, ErrorKind::NotFound);
    assert_eq!(err.detail, "nope");
    let err = add::run(&config, "web", "/tickets/J-6", true, Some(stored(&ticket)), true, None)
        .unwrap_err();
    assert_eq!(err.kind, ErrorKind::AlreadyExists);
    assert_eq!(err.detail, "/tickets/J-6/web");
    assert!(add::ensure_ticket_exists("/t", true).is_ok());
    assert_eq!(add::ensure_ticket_exists("/t", false).unwrap_err().kind, ErrorKind::NotFound);
}

#[test]
fn remove_is_blocked_by_a_dirty_worktree() {
    let config = config();
    let setup_plan = setup::run(&config, "JIRA-3", &names(&["api"]), false, None, TicketState::Missing);
    let mut ticket = setup_plan.ticket;
    record_job(&mut ticket, &setup_plan.worktrees[0]);

    let err = remove::run(&config, "api", "/tickets/JIRA-3", Some(stored(&ticket)), true, Some(false))
        .unwrap_err();
    assert_eq!(err.kind, ErrorKind::DirtyWorkingTree);
    assert_eq!(err.detail, "/tickets/JIRA-3/api");

    let err = remove::run(&config, "api", "/tickets/JIRA-3", Some(stored(&ticket)), true, None)
        .unwrap_err();
    assert_eq!(err.kind, ErrorKind::Io);

    let plan = remove::run(&config, "api", "/tickets/JIRA-3", Some(stored(&ticket)), true, Some(true))
        .unwrap();
    assert_eq!(plan.target_path, "/tickets/JIRA-3/api");
    assert_eq!(plan.repo_path, "/code/api");
    assert_eq!(plan.worktree_name, "feature_JIRA-3");
    assert!(plan.name_was_stored);

    let mut stage = remove::RemoveStage::DeleteDirectory;
    stage = remove::advance(stage, true);
    assert_eq!(stage, remove::RemoveStage::Prune);
    stage = remove::advance(stage, false);
    assert_eq!(stage, remove::RemoveStage::UpdateRecord);
    let mut ticket = plan.ticket;
    ticket.remove_repo("api");
    stage = remove::advance(stage, true);
    assert_eq!(stage, remove::RemoveStage::Finished);
    assert!(ticket.metadata.repos.is_empty());
    assert!(!ticket.metadata.repo_branches.contains_key("api"));
    assert!(!ticket.metadata.repo_worktrees.contains_key("api"));
    assert_eq!(
        remove::advance(remove::RemoveStage::DeleteDirectory, false),
        remove::RemoveStage::Failed
    );
}

#[test]
fn remove_derives_the_worktree_name_where_none_is_stored() {
    let config = config();
    let ticket = Ticket::stamp("/t/J", "J", None, "tb", &[("api".to_string(), "x/y".to_string())], "now");
    let plan = remove::run(&config, "api", "/t/J", Some(stored(&ticket)), true, Some(true)).unwrap();
    assert_eq!(plan.worktree_name, "x_y");
    assert!(!plan.name_was_stored);
    let plan = remove::run(&config, "web", "/t/J", Some(stored(&ticket)), true, Some(true)).unwrap();
    assert_eq!(plan.worktree_name, "feature_J");
    let err = remove::run(&config, "web", "/t/J", Some(stored(&ticket)), false, Some(true))
        .unwrap_err();
    assert_eq!(err.kind, ErrorKind::NotFound);
    assert_eq!(err.detail, "/t/J/web");
    let err = remove::run(&config, "zzz", "/t/J", Some(stored(&ticket)), true, Some(true))
        .unwrap_err();
    assert_eq!(err.detail, "zzz");
    let err = remove::run(&config, "api", "/t/J", None, true, Some(true)).unwrap_err();
    assert_eq!(err.kind, ErrorKind::NotFound);
}

#[test]
fn destroy_is_refused_from_inside_the_ticket() {
    let config = config();
    let setup_plan = setup::run(&config, "JIRA-1", &names(&["api"]), false, None, TicketState::Missing);
    let mut ticket = setup_plan.ticket;
    record_job(&mut ticket, &setup_plan.worktrees[0]);
    let dirs = names(&["api"]);

    let err = destroy::run(
        &config,
        "JIRA-1",
        false,
        true,
        "/tickets/JIRA-1",
        "/tickets/JIRA-1/api",
        Some(&ticket.metadata),
        &dirs,
        &[Some(true)],
    )
    .unwrap_err();
    assert_eq!(err.kind, ErrorKind::InsideTicket);
    let err = destroy::run(
        &config, "JIRA-1", true, true, "/tickets/JIRA-1", "/tickets/JIRA-1",
        Some(&ticket.metadata), &dirs, &[Some(true)],
    )
    .unwrap_err();
    assert_eq!(err.kind, ErrorKind::InsideTicket);

    let plan = destroy::run(
        &config,
        "JIRA-1",
        false,
        true,
        "/tickets/JIRA-1",
        "/tickets/JIRA-10",
        Some(&ticket.metadata),
        &dirs,
        &[Some(true)],
    )
    .unwrap()
    .unwrap();
    assert_eq!(plan.ticket_dir, "/tickets/JIRA-1");
    assert_eq!(plan.directories, vec!["/tickets/JIRA-1/api"]);
    assert_eq!(plan.prunes.len(), 1);
    assert_eq!(plan.prunes[0].alias, "api");
    assert_eq!(plan.prunes[0].repo_path, "/code/api");
    assert_eq!(plan.prunes[0].worktree_name, "feature_JIRA-1");
    assert!(plan.unregistered.is_empty());
    assert!(destroy::ensure_not_inside("/tickets/JIRA-1", "/tickets").is_ok());
}

#[test]
fn destroy_of_a_missing_ticket_does_nothing() {
    let r = destroy::run(&config(), "J", false, false, "/tickets/J", "/tickets/J", None, &[], &[]);
    assert!(r.unwrap().is_none());
}

#[test]
fn destroy_needs_clean_worktrees_unless_forced() {
    let config = config();
    let dirs = names(&["api", "web"]);
    let err = destroy::run(
        &config, "J", false, true, "/tickets/J", "/", None, &dirs, &[Some(true), Some(false)],
    )
    .unwrap_err();
    assert_eq!(err.kind, ErrorKind::DirtyWorkingTree);
    assert_eq!(err.detail, "/tickets/J/web");
    let err = destroy::run(
        &config, "J", false, true, "/tickets/J", "/", None, &dirs, &[None, Some(false)],
    )
    .unwrap_err();
    assert_eq!(err.kind, ErrorKind::Io);
    assert_eq!(err.detail, "/tickets/J/api");
    let err = destroy::run(&config, "J", false, true, "/tickets/J", "/", None, &dirs, &[Some(true)])
        .unwrap_err();
    assert_eq!(err.kind, ErrorKind::Io);
    assert_eq!(err.detail, "/tickets/J/web");
    let plan = destroy::run(
        &config, "J", true, true, "/tickets/J", "/", None, &dirs, &[Some(false), None],
    )
    .unwrap()
    .unwrap();
    assert_eq!(plan.directories, vec!["/tickets/J/api", "/tickets/J/web"]);
}

#[test]
fn destroy_without_a_record_goes_by_the_directories() {
    let config = config();
    let dirs = names(&["api", "stray"]);
    let plan = destroy::run(
        &config, "J-7", false, true, "/tickets/J-7", "/", None, &dirs, &[Some(true), Some(true)],
    )
    .unwrap()
    .unwrap();
    assert_eq!(plan.prunes.len(), 1);
    assert_eq!(plan.prunes[0].alias, "api");
    assert_eq!(plan.prunes[0].worktree_name, "feature_J-7");
    assert_eq!(plan.unregistered, vec!["stray"]);
    assert_eq!(destroy::aliases_to_prune(&dirs, None), vec!["api", "stray"]);
}

#[test]
fn destroy_prunes_by_the_record_even_where_the_directory_is_gone() {
    let config = config();
    let mut ticket = Ticket::stamp(
        "/tickets/J-8",
        "J-8",
        None,
        "tb",
        &[("api".to_string(), "b/api".to_string()), ("old".to_string(), "b/old".to_string())],
        "now",
    );
    ticket.record_worktree("api", "stored-name");
    let plan = destroy::run(
        &config, "J-8", false, true, "/tickets/J-8", "/", Some(&ticket.metadata), &[], &[],
    )
    .unwrap()
    .unwrap();
    assert!(plan.directories.is_empty());
    assert_eq!(plan.prunes.len(), 1);
    assert_eq!(plan.prunes[0].worktree_name, "stored-name");
    assert_eq!(plan.unregistered, vec!["old"]);
    let (jobs, skipped) = destroy::prune_worktrees(
        &config,
        "J-8",
        Some(&ticket.metadata),
        &names(&["web", "api"]),
    );
    assert_eq!(jobs[0].worktree_name, "tb");
    assert_eq!(jobs[1].worktree_name, "stored-name");
    assert!(skipped.is_empty());
}

#[test]
fn ensure_not_inside_detects_nested() {
    let res = destroy::ensure_not_inside("/tmp/tests-destroy", "/tmp/tests-destroy/child");
    assert!(res.is_err());
    assert!(destroy::ensure_not_inside("/tmp/tests-destroy", "/tmp/tests-destroy-2").is_ok());
    assert!(destroy::ensure_not_inside("/tmp/tests-destroy/", "/tmp//tests-destroy/./x").is_err());
}

#[test]
fn record_directory_is_no_worktree() {
    let found = names(&["api", ".tix", "web", ".tix", ".tixx"]);
    assert_eq!(destroy::worktree_dirs(&found), vec!["api", "web", ".tixx"]);
    assert!(destroy::worktree_dirs(&[]).is_empty());
}
