use tix::commands::completions::zsh_for_eval;

fn cli() -> clap::Command {
    clap::Command::new("tix")
        .subcommand(clap::Command::new("setup").arg(clap::Arg::new("ticket")))
        .subcommand(clap::Command::new("destroy").arg(clap::Arg::new("ticket")))
        .subcommand(clap::Command::new("doctor"))
}

#[test]
fn completions_zsh_works_with_eval() {
    let mut cmd = cli();
    let mut buffer = Vec::new();
    clap_complete::generate(clap_complete::Shell::Zsh, &mut cmd, "tix", &mut buffer);
    let generated = String::from_utf8(buffer).unwrap();
    assert!(generated.starts_with("#compdef tix"));
    let completions_script = zsh_for_eval(&generated);

    let first_line = completions_script.lines().next().unwrap();
    assert_eq!(
        first_line, "# compdef tix",
        "First line should be commented #compdef"
    );
    assert!(
        completions_script.contains("_tix() {"),
        "Should define _tix function"
    );
    assert!(
        completions_script.contains("compdef _tix tix"),
        "Should contain compdef call for eval"
    );
    assert!(
        completions_script.contains(r#"if [ "$funcstack[1]" = "_tix" ]; then"#),
        "Should contain funcstack conditional"
    );
}

#[test]
fn only_the_directive_of_the_first_line_is_changed() {
    assert_eq!(zsh_for_eval("#compdef tix\n\n_tix() {\n}\n"), "# compdef tix\n\n_tix() {\n}");
    assert_eq!(zsh_for_eval("x\n#compdef tix\n"), "x\n#compdef tix");
    assert_eq!(zsh_for_eval("#compdef"), "# compdef");
    assert_eq!(zsh_for_eval(" #compdef tix"), " #compdef tix");
    assert_eq!(zsh_for_eval("a\r\nb"), "a\nb");
    assert_eq!(zsh_for_eval(""), "");
    assert_eq!(zsh_for_eval("\n"), "");
}
