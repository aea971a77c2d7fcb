use tix::auth::{
    authentication_failure, credential_fill_input, credential_from_fill, credential_target,
    parse_credential_output, Challenge, CredentialAttempt, Strategy,
};
use tix::text::split_lines;
use tix::error::ErrorKind;

fn challenge(url: &str, ssh: bool, password: bool) -> Challenge {
    Challenge {
        url: url.into(),
        username: None,
        allows_ssh_key: ssh,
        allows_user_pass: password,
        allows_username: false,
    }
}

#[test]
fn chain_runs_in_order_and_each_way_once() {
    let mut attempt = CredentialAttempt::new();
    let ch = challenge("https://github.com/org/repo.git", true, true);
    let mut seen = Vec::new();
    for _ in 0..6 {
        seen.push(format!("{:?}", attempt.next(&ch)));
    }
    assert_eq!(
        seen,
        vec![
            "SshAgent { username: \"git\" }",
            "CredentialHelper",
            "ExternalFill { protocol: \"https\", host: \"github.com\" }",
            "Exhausted",
            "Exhausted",
            "Exhausted",
        ]
    );
    assert!(attempt.tried_ssh_agent());
    assert!(attempt.tried_helper());
    assert!(attempt.tried_external_fill());
}

#[test]
fn chain_skips_what_the_challenge_does_not_take() {
    let mut attempt = CredentialAttempt::new();
    let ssh_only = challenge("git@github.com:org/repo.git", true, false);
    assert!(matches!(attempt.next(&ssh_only), Strategy::SshAgent { .. }));
    assert!(matches!(attempt.next(&ssh_only), Strategy::Exhausted));
    assert!(!attempt.tried_helper());
    let password = challenge("http://host/x", false, true);
    assert!(matches!(attempt.next(&password), Strategy::CredentialHelper));
    assert!(matches!(attempt.next(&ssh_only), Strategy::Exhausted));
    match attempt.next(&password) {
        Strategy::ExternalFill { protocol, host } => {
            assert_eq!(protocol, "http");
            assert_eq!(host, "host");
        }
        other => panic!("{:?}", other),
    }
    assert!(matches!(attempt.next(&password), Strategy::Exhausted));
}

#[test]
fn ssh_agent_is_asked_for_the_user_of_the_url() {
    let mut attempt = CredentialAttempt::new();
    let mut ch = challenge("ssh://deploy@host/repo", true, false);
    ch.username = Some("deploy".into());
    match attempt.next(&ch) {
        Strategy::SshAgent { username } => assert_eq!(username, "deploy"),
        other => panic!("{:?}", other),
    }
}

#[test]
fn external_fill_needs_an_http_url() {
    let mut attempt = CredentialAttempt::new();
    let mut ch = challenge("git@github.com:org/repo.git", false, false);
    ch.allows_username = true;
    assert!(matches!(attempt.next(&ch), Strategy::CredentialHelper));
    assert!(matches!(attempt.next(&ch), Strategy::Exhausted));
    assert!(attempt.tried_external_fill());
}

#[test]
fn credential_target_is_protocol_and_host() {
    assert_eq!(
        credential_target("https://github.com/org/repo.git"),
        Some(("https".into(), "github.com".into()))
    );
    assert_eq!(
        credential_target("http://localhost:8080"),
        Some(("http".into(), "localhost:8080".into()))
    );
    assert_eq!(credential_target("https://"), Some(("https".into(), "".into())));
    assert_eq!(credential_target("git@github.com:org/repo.git"), None);
    assert_eq!(credential_target("HTTPS://github.com"), None);
    assert_eq!(credential_target(""), None);
}

#[test]
fn fill_input_names_protocol_and_host() {
    assert_eq!(
        credential_fill_input("https", "github.com"),
        "protocol=https\nhost=github.com\n\n"
    );
}

#[test]
fn fill_output_is_parsed_line_by_line() {
    assert_eq!(
        parse_credential_output("protocol=https\nhost=h\nusername=al\npassword=s3=cret\n"),
        Some(("al".into(), "s3=cret".into()))
    );
    assert_eq!(
        parse_credential_output("username=a\r\npassword=p\r\nusername=b"),
        Some(("b".into(), "p".into()))
    );
    assert_eq!(parse_credential_output("username=a\n"), None);
    assert_eq!(parse_credential_output("password=p"), None);
    assert_eq!(parse_credential_output(" username=a\npassword=p"), None);
    assert_eq!(parse_credential_output(""), None);
    assert_eq!(
        parse_credential_output("username=\npassword=\n"),
        Some(("".into(), "".into()))
    );
}

#[test]
fn lines_are_split_like_text_lines() {
    for text in ["", "a", "a\n", "a\nb", "a\r\nb\r\n", "\n\n", "a\rb\n", "x\r", "\r\n", "a\n\r"] {
        let expected: Vec<String> = text.lines().map(|l| l.to_string()).collect();
        assert_eq!(split_lines(text), expected, "{:?}", text);
    }
}

#[test]
fn failure_names_the_remote_and_the_remedies() {
    let err = authentication_failure("https://github.com/org/repo.git");
    assert_eq!(err.kind, ErrorKind::AuthenticationFailed);
    assert!(err
        .detail
        .starts_with("Failed to authenticate to https://github.com/org/repo.git.\n\n"));
    assert!(err.detail.contains("git config --global credential.helper cache"));
    assert!(err.detail.contains("git remote set-url origin git@github.com:USER/REPO.git"));
    assert!(err.detail.contains("personal access token"));
    assert!(err.message().starts_with("authentication failed: Failed to authenticate to "));
}

#[test]
fn failed_fill_gives_no_credential() {
    let printed = "username=al\npassword=secret\n";
    assert_eq!(credential_from_fill(true, printed), Some(("al".into(), "secret".into())));
    assert_eq!(credential_from_fill(false, printed), None);
    assert_eq!(credential_from_fill(true, "username=al\n"), None);
    assert_eq!(credential_from_fill(false, ""), None);
}
