use tix::alias_map::AliasMap;
use tix::commands::info;
use tix::commands::plugins::{deregister, list, register, resolve_entrypoint_path};
use tix::commands::update::{
    archive_kind, asset_name, decide, detect_target, find_asset, install_destination, parse_tag,
    run, ArchiveKind, UpdateDecision,
};
use tix::config::{Config, PluginDefinition};
use tix::error::ErrorKind;
use tix::plugins::{plugin_cache_root, plugin_context, plugin_state_root};
use tix::ticket::TicketMetadata;

#[test]
fn targets_are_known_for_three_platforms() {
    let linux = detect_target("linux", "x86_64").unwrap();
    assert_eq!(linux.asset_suffix, "linux-x86_64");
    assert_eq!(linux.archive_ext, "tar.gz");
    assert_eq!(linux.exe_name, "tix");
    let mac = detect_target("macos", "aarch64").unwrap();
    assert_eq!(mac.asset_suffix, "macos-aarch64");
    assert_eq!(mac.archive_ext, "tar.gz");
    let windows = detect_target("windows", "x86_64").unwrap();
    assert_eq!(windows.asset_suffix, "windows-x86_64");
    assert_eq!(windows.archive_ext, "zip");
    assert_eq!(windows.exe_name, "tix.exe");
    let err = detect_target("linux", "aarch64").unwrap_err();
    assert_eq!(err.kind, ErrorKind::InvalidInput);
    assert_eq!(err.detail, "linux-aarch64");
    assert!(detect_target("macos", "x86_64").is_err());
}

#[test]
fn tags_name_versions() {
    assert_eq!(parse_tag("v1.2.3").unwrap(), "1.2.3");
    assert_eq!(parse_tag("1.2.3").unwrap(), "1.2.3");
    assert_eq!(parse_tag("vv0.10.0-rc.1+build.5").unwrap(), "0.10.0-rc.1+build.5");
    let err = parse_tag("v1.2").unwrap_err();
    assert_eq!(err.kind, ErrorKind::InvalidInput);
    assert_eq!(err.detail, "v1.2");
    assert!(parse_tag("release-1").is_err());
    assert!(parse_tag("").is_err());
}

#[test]
fn update_is_offered_only_for_a_newer_release() {
    let target = detect_target("linux", "x86_64").unwrap();
    match run("v1.3.0", "1.2.9", &target).unwrap() {
        UpdateDecision::Install { version, asset_name } => {
            assert_eq!(version, "1.3.0");
            assert_eq!(asset_name, "tix-v1.3.0-linux-x86_64.tar.gz");
        }
        other => panic!("{:?}", other),
    }
    assert!(matches!(run("v1.2.9", "1.2.9", &target).unwrap(), UpdateDecision::UpToDate));
    assert!(matches!(run("v1.2.8", "1.2.9", &target).unwrap(), UpdateDecision::UpToDate));
    assert!(matches!(run("v1.10.0", "1.9.0", &target).unwrap(), UpdateDecision::Install { .. }));
    assert!(matches!(run("v2.0.0-alpha", "2.0.0", &target).unwrap(), UpdateDecision::UpToDate));
    assert!(matches!(run("v2.0.0", "2.0.0-alpha", &target).unwrap(), UpdateDecision::Install { .. }));
    let err = run("nightly", "1.0.0", &target).unwrap_err();
    assert_eq!(err.detail, "nightly");
    let err = run("v1.0.0", "dev", &target).unwrap_err();
    assert_eq!(err.kind, ErrorKind::InvalidInput);
    assert_eq!(err.detail, "dev");
}

#[test]
fn decision_names_the_release_file() {
    let target = detect_target("windows", "x86_64").unwrap();
    assert_eq!(asset_name("0.4.0", &target), "tix-v0.4.0-windows-x86_64.zip");
    assert!(matches!(decide("0.4.0", false, &target), UpdateDecision::UpToDate));
    match decide("0.4.0", true, &target) {
        UpdateDecision::Install { version, asset_name } => {
            assert_eq!(version, "0.4.0");
            assert_eq!(asset_name, "tix-v0.4.0-windows-x86_64.zip");
        }
        other => panic!("{:?}", other),
    }
}

#[test]
fn release_files_are_found_by_name() {
    let names: Vec<String> = vec!["a.zip".into(), "b.tar.gz".into(), "a.zip".into()];
    assert_eq!(find_asset(&names, "a.zip"), Some(0));
    assert_eq!(find_asset(&names, "b.tar.gz"), Some(1));
    assert_eq!(find_asset(&names, "c"), None);
    assert_eq!(find_asset(&vec![], "a.zip"), None);
    assert_eq!(archive_kind("tar.gz").unwrap(), ArchiveKind::TarGz);
    assert_eq!(archive_kind("zip").unwrap(), ArchiveKind::Zip);
    assert_eq!(archive_kind("rar").unwrap_err().detail, "rar");
}

#[test]
fn program_is_installed_beside_the_running_one() {
    let target = detect_target("linux", "x86_64").unwrap();
    assert_eq!(
        install_destination(Some("/opt/tix"), Some("/usr/bin/tix"), &target).unwrap(),
        "/opt/tix"
    );
    assert_eq!(
        install_destination(None, Some("/usr/local/bin/tix-old"), &target).unwrap(),
        "/usr/local/bin/tix"
    );
    assert_eq!(
        install_destination(None, Some("/"), &target).unwrap_err().kind,
        ErrorKind::NotFound
    );
    assert!(install_destination(None, None, &target).is_err());
}

fn record(description: Option<&str>) -> TicketMetadata {
    TicketMetadata {
        id: "JIRA-123".into(),
        description: description.map(|d| d.to_string()),
        created_at: "2024-01-01T00:00:00Z".into(),
        branch: "feature/JIRA-123".into(),
        repos: vec!["api".into()],
        repo_branches: AliasMap::new(),
        repo_worktrees: AliasMap::new(),
    }
}

#[test]
fn info_line_shows_id_and_description() {
    assert_eq!(info::run(&record(Some("Add new feature"))), "[JIRA-123] Add new feature");
    assert_eq!(info::run(&record(None)), "[JIRA-123] ");
}

#[test]
fn plugins_are_registered_once() {
    let mut config = Config::default();
    register(&mut config, "fmt", "/p/fmt.py", Some("Formats"), Some("3.12")).unwrap();
    register(&mut config, "lint", "/p/lint.py", None, None).unwrap();
    let err = register(&mut config, "fmt", "/other.py", None, None).unwrap_err();
    assert_eq!(err.kind, ErrorKind::AlreadyExists);
    assert_eq!(err.detail, "fmt");
    let fmt: &PluginDefinition = config.plugins.get("fmt").unwrap();
    assert_eq!(fmt.entrypoint, "/p/fmt.py");
    assert_eq!(fmt.description, "Formats");
    assert_eq!(fmt.python.as_deref(), Some("3.12"));
    let lint = config.plugins.get("lint").unwrap();
    assert_eq!(lint.description, "");
    assert_eq!(lint.python, None);

    let lines = list(&tix::plugins::list_plugins(&config));
    assert_eq!(lines, vec!["fmt - Formats", "lint (/p/lint.py)"]);

    deregister(&mut config, "fmt").unwrap();
    assert!(!config.plugins.contains_key("fmt"));
    let err = deregister(&mut config, "fmt").unwrap_err();
    assert_eq!(err.kind, ErrorKind::NotFound);
    assert_eq!(config.plugins.len(), 1);
}

#[test]
fn plugin_entrypoint_is_taken_from_the_working_directory() {
    assert_eq!(resolve_entrypoint_path("plugin.py", "/work/dir"), "/work/dir/plugin.py");
    assert_eq!(resolve_entrypoint_path("/abs/plugin.py", "/work/dir"), "/abs/plugin.py");
}

#[test]
fn context_tells_the_plugin_where_it_runs() {
    let mut config = Config::default();
    config.code_directory = "/code".into();
    config.tickets_directory = "/tickets".into();
    config
        .repositories
        .insert("api".into(), tix::config::RepoDefinition::new("https://example.com/api", "/code/api"));
    let context = plugin_context(
        "my plugin",
        "/tickets/JIRA-123",
        "/tickets/JIRA-123/api/src",
        record(Some("Test")),
        &config,
        "/cache/tix",
        "/state/tix",
    );
    assert_eq!(context.plugin_name, "my plugin");
    assert_eq!(context.ticket_root, "/tickets/JIRA-123");
    assert_eq!(context.current_working_dir, "/tickets/JIRA-123/api/src");
    assert_eq!(context.current_repo_alias.as_deref(), Some("api"));
    assert_eq!(context.current_repo_path.as_deref(), Some("/tickets/JIRA-123/api"));
    assert_eq!(context.ticket.id, "JIRA-123");
    assert_eq!(context.code_directory, "/code");
    assert_eq!(context.tickets_directory, "/tickets");
    assert_eq!(context.plugin_cache_dir, "/cache/tix/plugins/my_plugin");
    assert_eq!(context.plugin_state_dir, "/state/tix/plugins/my_plugin");
    assert_eq!(context.plugin_ticket_state_dir, "/tickets/JIRA-123/.tix/plugins/my_plugin");
    assert_eq!(context.config.repositories.get("api").unwrap().path, "/code/api");
}

#[test]
fn assigned_directories_belong_to_the_application() {
    if let Ok(root) = plugin_cache_root(None) {
        assert!(root.contains("tix"), "{}", root);
    }
    if let Ok(root) = plugin_state_root(Some("not/absolute")) {
        assert!(root.contains("tix"), "{}", root);
    }
}
