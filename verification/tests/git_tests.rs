use tix::error::ErrorKind;
use tix::git::{
    begin_create_worktree, begin_fetch_and_fast_forward, begin_remove_worktree, clone_repo,
    create_worktree, fetch_and_fast_forward, fetch_refspec, is_clean, remove_worktree,
    resolve_default_branch, CloneOutcome, CreateReply, CreateStep, RemoveStep, SyncReply,
    SyncStep, WorktreeRequest,
};

fn request(base: Option<&str>) -> WorktreeRequest {
    WorktreeRequest {
        target_path: "/tickets/JIRA-1/api".into(),
        branch_name: "feature/JIRA-1-my-feature".into(),
        base_ref: base.map(|b| b.to_string()),
    }
}

fn run_create(request: &WorktreeRequest, replies: Vec<CreateReply>) -> (CreateStep, Vec<String>) {
    let mut step = begin_create_worktree();
    let mut asked = vec![format!("{:?}", step)];
    for reply in replies {
        step = create_worktree(request, step, reply);
        asked.push(format!("{:?}", step));
    }
    (step, asked)
}

fn run_sync(replies: Vec<SyncReply>) -> SyncStep {
    let mut step = begin_fetch_and_fast_forward("origin");
    for reply in replies {
        step = fetch_and_fast_forward(step, reply);
    }
    step
}

fn head() -> SyncReply {
    SyncReply::Head { reference: "refs/heads/main".into(), branch: "main".into() }
}

#[test]
fn clean_means_no_status_entry() {
    let query = tix::git::status_query();
    assert!(query.include_untracked);
    assert!(!query.include_ignored);
    assert!(is_clean(0));
    assert!(!is_clean(1));
    assert!(!is_clean(usize::MAX));
}

#[test]
fn default_branch_prefers_the_remote_head() {
    let d = resolve_default_branch(Some("refs/remotes/origin/main"), Some("refs/heads/dev"));
    assert_eq!(d.reference.as_deref(), Some("refs/remotes/origin/main"));
    assert!(!d.from_own_head);
    let d = resolve_default_branch(None, Some("refs/heads/dev"));
    assert_eq!(d.reference.as_deref(), Some("refs/heads/dev"));
    assert!(d.from_own_head);
    let d = resolve_default_branch(None, None);
    assert_eq!(d.reference, None);
    assert!(!d.from_own_head);
}

#[test]
fn new_branch_starts_from_the_default_branch() {
    let (end, asked) = run_create(
        &request(None),
        vec![
            CreateReply::Refused,
            CreateReply::DefaultBranch { reference: Some("refs/remotes/origin/main".into()) },
            CreateReply::Done,
            CreateReply::Done,
            CreateReply::Done,
        ],
    );
    assert!(matches!(end, CreateStep::Finished));
    assert_eq!(asked[0], "FindBranch");
    assert_eq!(asked[1], "ResolveDefaultBranch");
    assert_eq!(asked[2], "ResolveCommit { base: Some(\"refs/remotes/origin/main\") }");
    assert_eq!(asked[3], "CreateBranch");
    assert_eq!(asked[4], "AddWorktree { name: \"feature_JIRA-1-my-feature\" }");
}

#[test]
fn new_branch_starts_from_the_given_base() {
    let (_, asked) = run_create(&request(Some("release/1")), vec![CreateReply::Refused]);
    assert_eq!(asked[1], "ResolveCommit { base: Some(\"release/1\") }");
}

#[test]
fn new_branch_falls_back_to_head() {
    let (end, asked) = run_create(
        &request(None),
        vec![
            CreateReply::Refused,
            CreateReply::DefaultBranch { reference: None },
            CreateReply::Refused,
        ],
    );
    assert_eq!(asked[2], "ResolveCommit { base: None }");
    match end {
        CreateStep::Failed { error } => {
            assert_eq!(error.kind, ErrorKind::NotFound);
            assert_eq!(error.detail, "HEAD");
        }
        other => panic!("{:?}", other),
    }
}

#[test]
fn unresolved_base_is_not_found() {
    let (end, _) = run_create(
        &request(Some("nope")),
        vec![CreateReply::Refused, CreateReply::Refused],
    );
    match end {
        CreateStep::Failed { error } => {
            assert_eq!(error.kind, ErrorKind::NotFound);
            assert_eq!(error.detail, "nope");
        }
        other => panic!("{:?}", other),
    }
}

#[test]
fn existing_branch_is_reused_on_a_second_call() {
    let first = run_create(
        &request(None),
        vec![
            CreateReply::Refused,
            CreateReply::DefaultBranch { reference: Some("main".into()) },
            CreateReply::Done,
            CreateReply::Done,
            CreateReply::Done,
        ],
    );
    assert!(matches!(first.0, CreateStep::Finished));
    let (end, asked) = run_create(&request(None), vec![CreateReply::Done, CreateReply::Done]);
    assert!(matches!(end, CreateStep::Finished));
    assert_eq!(
        asked,
        vec!["FindBranch", "AddWorktree { name: \"feature_JIRA-1-my-feature\" }", "Finished"]
    );
}

#[test]
fn bound_worktree_name_already_exists() {
    let (end, _) = run_create(&request(None), vec![CreateReply::Done, CreateReply::Refused]);
    match end {
        CreateStep::Failed { error } => {
            assert_eq!(error.kind, ErrorKind::AlreadyExists);
            assert_eq!(error.detail, "/tickets/JIRA-1/api");
        }
        other => panic!("{:?}", other),
    }
}

#[test]
fn refused_branch_and_stray_replies_fail() {
    let (end, _) = run_create(
        &request(Some("main")),
        vec![CreateReply::Refused, CreateReply::Done, CreateReply::Refused],
    );
    match end {
        CreateStep::Failed { error } => assert_eq!(error.kind, ErrorKind::Io),
        other => panic!("{:?}", other),
    }
    let (end, _) = run_create(
        &request(None),
        vec![CreateReply::DefaultBranch { reference: None }, CreateReply::Done],
    );
    match end {
        CreateStep::Failed { error } => assert_eq!(error.kind, ErrorKind::InvalidInput),
        other => panic!("{:?}", other),
    }
    let (end, _) = run_create(
        &request(None),
        vec![CreateReply::Done, CreateReply::Done, CreateReply::Refused],
    );
    assert!(matches!(end, CreateStep::Finished));
}

#[test]
fn removing_an_unknown_worktree_is_a_no_op_twice() {
    for _ in 0..2 {
        let step = begin_remove_worktree("feature_test");
        assert!(matches!(&step, RemoveStep::FindWorktree { name } if name == "feature_test"));
        let step = remove_worktree(step, false);
        assert!(matches!(step, RemoveStep::Finished));
        let step = remove_worktree(step, true);
        assert!(matches!(step, RemoveStep::Finished));
    }
}

#[test]
fn known_worktree_is_pruned() {
    let step = remove_worktree(begin_remove_worktree("feature_test"), true);
    assert!(matches!(&step, RemoveStep::Prune { name } if name == "feature_test"));
    assert!(matches!(remove_worktree(step, true), RemoveStep::Finished));
    let step = remove_worktree(begin_remove_worktree("w"), true);
    match remove_worktree(step, false) {
        RemoveStep::Failed { error } => {
            assert_eq!(error.kind, ErrorKind::Io);
            assert_eq!(error.detail, "w");
        }
        other => panic!("{:?}", other),
    }
}

#[test]
fn refspec_fetches_every_branch() {
    assert_eq!(fetch_refspec("origin"), "refs/heads/*:refs/remotes/origin/*");
    match begin_fetch_and_fast_forward("up") {
        SyncStep::Fetch { remote, refspec } => {
            assert_eq!(remote, "up");
            assert_eq!(refspec, "refs/heads/*:refs/remotes/up/*");
        }
        other => panic!("{:?}", other),
    }
}

#[test]
fn fast_forward_advances_and_a_repeat_does_nothing() {
    let first = run_sync(vec![
        SyncReply::Done,
        head(),
        SyncReply::Done,
        SyncReply::Analysis { up_to_date: false, fast_forward: true },
        SyncReply::Done,
    ]);
    assert!(matches!(first, SyncStep::Finished { advanced: true }));
    let again = run_sync(vec![
        SyncReply::Done,
        head(),
        SyncReply::Done,
        SyncReply::Analysis { up_to_date: true, fast_forward: false },
    ]);
    assert!(matches!(again, SyncStep::Finished { advanced: false }));
}

#[test]
fn sync_asks_in_order() {
    let step = fetch_and_fast_forward(begin_fetch_and_fast_forward("origin"), SyncReply::Done);
    assert!(matches!(step, SyncStep::ReadHead));
    let step = fetch_and_fast_forward(step, head());
    assert!(matches!(&step, SyncStep::FindUpstream { reference, branch }
        if reference == "refs/heads/main" && branch == "main"));
    let step = fetch_and_fast_forward(step, SyncReply::Done);
    assert!(matches!(&step, SyncStep::Analyse { reference } if reference == "refs/heads/main"));
    let step = fetch_and_fast_forward(
        step,
        SyncReply::Analysis { up_to_date: false, fast_forward: true },
    );
    assert!(matches!(&step, SyncStep::FastForward { reference } if reference == "refs/heads/main"));
}

#[test]
fn diverged_history_is_left_alone() {
    let end = run_sync(vec![
        SyncReply::Done,
        head(),
        SyncReply::Done,
        SyncReply::Analysis { up_to_date: false, fast_forward: false },
    ]);
    assert!(matches!(end, SyncStep::Finished { advanced: false }));
    let end = run_sync(vec![
        SyncReply::Done,
        head(),
        SyncReply::Done,
        SyncReply::Analysis { up_to_date: true, fast_forward: true },
    ]);
    assert!(matches!(end, SyncStep::Finished { advanced: false }));
}

#[test]
fn detached_head_and_missing_upstream_are_silent() {
    let end = run_sync(vec![SyncReply::Done, SyncReply::Missing]);
    assert!(matches!(end, SyncStep::Finished { advanced: false }));
    let end = run_sync(vec![
        SyncReply::Done,
        SyncReply::Head { reference: String::new(), branch: String::new() },
    ]);
    assert!(matches!(end, SyncStep::Finished { advanced: false }));
    let end = run_sync(vec![SyncReply::Done, head(), SyncReply::Missing]);
    assert!(matches!(end, SyncStep::Finished { advanced: false }));
}

#[test]
fn failed_fetch_ends_the_sync() {
    match run_sync(vec![SyncReply::Unauthenticated { url: "https://h/r.git".into() }]) {
        SyncStep::Failed { error } => {
            assert_eq!(error.kind, ErrorKind::AuthenticationFailed);
            assert!(error.detail.starts_with("Failed to authenticate to https://h/r.git.\n"));
            assert!(error.detail.contains("Please try one of the following"));
        }
        other => panic!("{:?}", other),
    }
    match run_sync(vec![SyncReply::Refused, SyncReply::Done]) {
        SyncStep::Failed { error } => assert_eq!(error.kind, ErrorKind::Io),
        other => panic!("{:?}", other),
    }
    match run_sync(vec![SyncReply::Missing]) {
        SyncStep::Failed { error } => assert_eq!(error.kind, ErrorKind::NotFound),
        other => panic!("{:?}", other),
    }
    match run_sync(vec![SyncReply::Done, head(), SyncReply::Done, SyncReply::Done]) {
        SyncStep::Failed { error } => assert_eq!(error.kind, ErrorKind::InvalidInput),
        other => panic!("{:?}", other),
    }
    match run_sync(vec![
        SyncReply::Done,
        head(),
        SyncReply::Done,
        SyncReply::Analysis { up_to_date: false, fast_forward: true },
        SyncReply::Refused,
    ]) {
        SyncStep::Failed { error } => {
            assert_eq!(error.kind, ErrorKind::Io);
            assert_eq!(error.detail, "refs/heads/main");
        }
        other => panic!("{:?}", other),
    }
}

#[test]
fn clone_reports_how_it_ended() {
    assert!(clone_repo("https://h/r.git", "/code/r", CloneOutcome::Cloned).is_ok());
    let err = clone_repo("https://h/r.git", "/code/r", CloneOutcome::Unauthenticated).unwrap_err();
    assert_eq!(err.kind, ErrorKind::AuthenticationFailed);
    assert!(err.detail.starts_with("Failed to authenticate to https://h/r.git."));
    let err = clone_repo("https://h/r.git", "/code/r", CloneOutcome::Refused).unwrap_err();
    assert_eq!(err.kind, ErrorKind::Io);
    assert_eq!(err.detail, "/code/r");
}

#[test]
fn broken_backend_is_an_io_failure() {
    let (end, _) = run_create(&request(None), vec![CreateReply::Done, CreateReply::Broken]);
    match end {
        CreateStep::Failed { error } => {
            assert_eq!(error.kind, ErrorKind::Io);
            assert_eq!(error.detail, "/tickets/JIRA-1/api");
        }
        other => panic!("{:?}", other),
    }
    for replies in [
        vec![CreateReply::Broken],
        vec![CreateReply::Refused, CreateReply::Broken],
        vec![CreateReply::Refused, CreateReply::DefaultBranch { reference: None }, CreateReply::Broken],
        vec![
            CreateReply::Refused,
            CreateReply::DefaultBranch { reference: None },
            CreateReply::Done,
            CreateReply::Broken,
        ],
    ] {
        match run_create(&request(None), replies).0 {
            CreateStep::Failed { error } => {
                assert_eq!(error.kind, ErrorKind::Io);
                assert_eq!(error.detail, "feature/JIRA-1-my-feature");
            }
            other => panic!("{:?}", other),
        }
    }
}
