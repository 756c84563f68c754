use idcat::helper::config::{parse_repository, Config, RawConfig, Repository, TokenSource};
use idcat::helper::credential::{
    answers_for, credential_output, installation_token_url, is_github_https_request,
    parse_credential, plan_answer, repo_from_credential, Action, Repo,
};
use idcat::helper::token_source::{
    read_token, token_action, token_from_output, token_from_text, trim_token, SourceOutput,
    TokenAction, TokenError,
};

fn raw_config() -> RawConfig {
    RawConfig {
        github_app: "deployments".to_owned(),
        idcat_endpoint: "https://idcat.example.test".to_owned(),
        repository: None,
        token_path: None,
        token_command: None,
        token_executable: None,
        token_args: Vec::new(),
    }
}

#[test]
fn accepts_token_path() {
    let config = RawConfig {
        token_path: Some("/var/run/secrets/tokens/idcat".to_owned()),
        ..raw_config()
    };

    let config = Config::try_from(config).expect("config validates");

    assert!(matches!(config.token_source, TokenSource::Path(_)));
    assert!(!config.is_scoped());
    assert!(!config.uses_shell());
}

#[test]
fn accepts_token_executable_with_args() {
    let config = RawConfig {
        token_executable: Some("/usr/local/bin/tsh".to_owned()),
        token_args: vec![
            "apps".to_owned(),
            "config".to_owned(),
            "--format=json".to_owned(),
        ],
        ..raw_config()
    };

    let config = Config::try_from(config).expect("config validates");

    match config.token_source {
        TokenSource::Program { executable, args } => {
            assert_eq!(executable, "/usr/local/bin/tsh");
            assert_eq!(args, ["apps", "config", "--format=json"]);
        }
        other => panic!("expected a Program token source, got {other:?}"),
    }
}

#[test]
fn accepts_token_executable_without_args() {
    let config = RawConfig {
        token_executable: Some("/usr/local/bin/print-token".to_owned()),
        ..raw_config()
    };

    let config = Config::try_from(config).expect("config validates");

    match config.token_source {
        TokenSource::Program { args, .. } => assert!(args.is_empty()),
        other => panic!("expected a Program token source, got {other:?}"),
    }
}

#[test]
fn still_accepts_the_deprecated_token_command() {
    // An existing configuration keeps working, with a warning, rather than failing at startup.
    let config = RawConfig {
        token_command: Some("cat /var/run/secrets/tokens/idcat".to_owned()),
        ..raw_config()
    };

    let config = Config::try_from(config).expect("the deprecated form must keep working");

    assert!(matches!(config.token_source, TokenSource::ShellCommand(_)));
    assert!(config.uses_shell());
}

#[test]
fn rejects_missing_token_source() {
    let error = Config::try_from(raw_config()).expect_err("config should be rejected");

    assert!(
        error
            .to_text()
            .contains("must set one of token-path, token-executable or token-command"),
        "{error:?}"
    );
}

#[test]
fn rejects_multiple_token_sources() {
    let config = RawConfig {
        token_path: Some("/var/run/secrets/tokens/idcat".to_owned()),
        token_command: Some("cat /var/run/secrets/tokens/idcat".to_owned()),
        ..raw_config()
    };

    let error = Config::try_from(config).expect_err("config should be rejected");

    assert!(error.to_text().contains("only one of"), "{error:?}");
}

#[test]
fn rejects_token_executable_combined_with_token_command() {
    let config = RawConfig {
        token_executable: Some("/usr/local/bin/tsh".to_owned()),
        token_command: Some("tsh apps config".to_owned()),
        ..raw_config()
    };

    let error = Config::try_from(config).expect_err("config should be rejected");

    assert!(error.to_text().contains("only one of"), "{error:?}");
}

#[test]
fn rejects_token_args_without_token_executable() {
    let config = RawConfig {
        token_path: Some("/var/run/secrets/tokens/idcat".to_owned()),
        token_args: vec!["--format=json".to_owned()],
        ..raw_config()
    };

    let error = Config::try_from(config).expect_err("config should be rejected");

    assert!(
        error
            .to_text()
            .contains("token-args requires token-executable"),
        "{error:?}"
    );
}

#[test]
fn accepts_an_exact_repository() {
    let config = RawConfig {
        repository: Some("myorg/pilot".to_owned()),
        token_path: Some("/var/run/secrets/tokens/idcat".to_owned()),
        ..raw_config()
    };

    let config = Config::try_from(config).expect("config validates");

    assert_eq!(
        config.repository,
        Some(Repository {
            owner: "myorg".to_owned(),
            name: "pilot".to_owned()
        })
    );
    assert!(config.is_scoped());
}

#[test]
fn rejects_a_repository_that_is_not_owner_name() {
    for repository in ["pilot", "myorg/", "/pilot", "myorg/pilot/extra"] {
        let config = RawConfig {
            repository: Some(repository.to_owned()),
            token_path: Some("/var/run/secrets/tokens/idcat".to_owned()),
            ..raw_config()
        };

        assert!(
            Config::try_from(config).is_err(),
            "repository '{repository}' must be rejected"
        );
    }
}

#[test]
fn rejects_a_wildcard_repository() {
    let config = RawConfig {
        repository: Some("myorg/*".to_owned()),
        token_path: Some("/var/run/secrets/tokens/idcat".to_owned()),
        ..raw_config()
    };

    assert!(Config::try_from(config).is_err());
}

#[test]
fn empty_token_sources_are_refused() {
    let program = RawConfig {
        token_executable: Some(String::new()),
        ..raw_config()
    };
    assert_eq!(
        Config::try_from(program).unwrap_err().to_text(),
        "token-executable must not be empty"
    );

    let command = RawConfig {
        token_command: Some(String::new()),
        ..raw_config()
    };
    assert_eq!(
        Config::try_from(command).unwrap_err().to_text(),
        "token-command must not be empty"
    );
}

#[test]
fn repository_errors_name_the_repository() {
    assert_eq!(
        parse_repository("pilot").unwrap_err().to_text(),
        "repository must be in owner/name form, got 'pilot'"
    );
    assert_eq!(
        parse_repository("myorg/p?lot").unwrap_err().to_text(),
        "repository must name one exact repository, got 'myorg/p?lot'"
    );
}

fn repo(owner: &str, name: &str) -> Repo {
    Repo {
        owner: owner.to_owned(),
        name: name.to_owned(),
    }
}

fn configured(owner: &str, name: &str) -> Repository {
    Repository {
        owner: owner.to_owned(),
        name: name.to_owned(),
    }
}

#[test]
fn answers_for_the_configured_repository() {
    assert!(answers_for(
        Some(&configured("myorg", "pilot")),
        &repo("myorg", "pilot")
    ));
}

#[test]
fn does_not_answer_for_another_repository_in_the_same_org() {
    assert!(!answers_for(
        Some(&configured("myorg", "pilot")),
        &repo("myorg", "other")
    ));
}

#[test]
fn does_not_answer_for_the_same_repository_name_under_another_owner() {
    assert!(!answers_for(
        Some(&configured("myorg", "pilot")),
        &repo("otherorg", "pilot")
    ));
}

#[test]
fn does_not_answer_for_a_repository_whose_name_merely_starts_the_same() {
    assert!(!answers_for(
        Some(&configured("myorg", "pilot")),
        &repo("myorg", "pilot-internal")
    ));
}

#[test]
fn matches_case_insensitively_as_github_does() {
    assert!(answers_for(
        Some(&configured("MyOrg", "Pilot")),
        &repo("myorg", "pilot")
    ));
}

#[test]
fn answers_for_anything_when_no_repository_is_configured() {
    assert!(answers_for(None, &repo("myorg", "anything")));
}

/// What the programs of these tests do: `/bin/echo` prints its arguments, and a shell runs the two
/// commands that are given to it here.
fn perform(action: TokenAction) -> Result<SourceOutput, String> {
    let (executable, args) = match action {
        TokenAction::Run { executable, args } => (executable, args),
        TokenAction::ReadFile { path } => return Err(format!("{path} is not there")),
    };
    let echo = |args: &[String]| {
        if args.first().map(String::as_str) == Some("-n") {
            args[1..].join(" ")
        } else {
            format!("{}\n", args.join(" "))
        }
    };
    let (code, printed) = match executable.as_str() {
        "/bin/echo" => (0, echo(&args)),
        "/bin/sh" => match (args[0].as_str(), args[1].as_str()) {
            ("-c", "echo synthetic-token") => (0, echo(&["synthetic-token".to_owned()])),
            ("-c", "echo ghs_leaked; exit 3") => (3, echo(&["ghs_leaked".to_owned()])),
            other => panic!("unexpected command {other:?}"),
        },
        other => return Err(format!("{other} is not there")),
    };
    Ok(SourceOutput {
        success: code == 0,
        code: Some(code),
        bytes: printed.into_bytes(),
    })
}

fn token_of(source: &TokenSource) -> Result<String, TokenError> {
    read_token(source, perform(token_action(source)))
}

#[test]
fn reads_a_token_from_a_program_and_its_argument_array() {
    let source = TokenSource::Program {
        executable: "/bin/echo".to_owned(),
        args: vec!["synthetic-token".to_owned()],
    };

    assert_eq!(token_of(&source).unwrap(), "synthetic-token");
}

#[test]
fn passes_each_argument_verbatim_without_a_shell() {
    // A shell would substitute this; as an argument it must arrive intact.
    let source = TokenSource::Program {
        executable: "/bin/echo".to_owned(),
        args: vec!["$(echo injected)".to_owned()],
    };

    assert_eq!(
        token_action(&source),
        TokenAction::Run {
            executable: "/bin/echo".to_owned(),
            args: vec!["$(echo injected)".to_owned()],
        }
    );
    assert_eq!(token_of(&source).unwrap(), "$(echo injected)");
}

#[test]
fn does_not_split_an_argument_on_whitespace() {
    let source = TokenSource::Program {
        executable: "/bin/echo".to_owned(),
        args: vec!["-n".to_owned(), "one two".to_owned()],
    };

    assert_eq!(token_of(&source).unwrap(), "one two");
}

#[test]
fn rejects_an_empty_program_token() {
    let source = TokenSource::Program {
        executable: "/bin/echo".to_owned(),
        args: vec!["-n".to_owned(), String::new()],
    };

    let error = token_of(&source).unwrap_err();

    assert!(error.to_text().contains("empty token"), "{error:?}");
}

#[test]
fn reports_a_failing_program_without_echoing_its_output() {
    let source = TokenSource::Program {
        executable: "/bin/sh".to_owned(),
        args: vec!["-c".to_owned(), "echo ghs_leaked; exit 3".to_owned()],
    };

    let error = token_of(&source).unwrap_err();

    assert!(error.to_text().contains("status 3"), "{error:?}");
    assert!(
        !error.to_text().contains("ghs_leaked"),
        "a failure message must not echo what the token source printed: {error:?}"
    );
}

#[test]
fn the_deprecated_shell_command_still_works() {
    let source = TokenSource::ShellCommand("echo synthetic-token".to_owned());

    assert_eq!(
        token_action(&source),
        TokenAction::Run {
            executable: "/bin/sh".to_owned(),
            args: vec!["-c".to_owned(), "echo synthetic-token".to_owned()],
        }
    );
    assert_eq!(token_of(&source).unwrap(), "synthetic-token");
}

#[test]
fn reads_a_token_from_a_file() {
    let source = TokenSource::Path("/tmp/idcat-token-source-test".to_owned());
    assert_eq!(
        token_action(&source),
        TokenAction::ReadFile {
            path: "/tmp/idcat-token-source-test".to_owned()
        }
    );

    let contents = SourceOutput {
        success: true,
        code: None,
        bytes: b"synthetic-token\n".to_vec(),
    };
    assert_eq!(read_token(&source, Ok(contents)).unwrap(), "synthetic-token");
}

#[test]
fn token_failures_are_told_apart() {
    let path = TokenSource::Path("/nowhere".to_owned());
    assert_eq!(
        read_token(&path, Err("no such file".to_owned())).unwrap_err().to_text(),
        "failed to read token-path: /nowhere: no such file"
    );
    let binary = SourceOutput { success: true, code: Some(0), bytes: vec![0xff, 0xfe] };
    assert_eq!(
        read_token(&path, Ok(binary)).unwrap_err().to_text(),
        "failed to read token-path: /nowhere: stream did not contain valid UTF-8"
    );
    let blank = SourceOutput { success: true, code: Some(0), bytes: b" \n".to_vec() };
    assert_eq!(
        read_token(&path, Ok(blank)).unwrap_err().to_text(),
        "token-path produced an empty token"
    );

    let program = TokenSource::Program { executable: "/x".to_owned(), args: Vec::new() };
    assert_eq!(
        read_token(&program, Err("denied".to_owned())).unwrap_err().to_text(),
        "failed to execute token-executable: /x: denied"
    );
    let command = TokenSource::ShellCommand("y".to_owned());
    assert_eq!(
        read_token(&command, Err("denied".to_owned())).unwrap_err().to_text(),
        "failed to execute token-command: y: denied"
    );
}

#[test]
fn exit_statuses_are_written_out() {
    let output = |code: Option<i32>| SourceOutput { success: false, code, bytes: b"t".to_vec() };
    let text = |code| token_from_output(output(code), "token-command").unwrap_err().to_text();
    assert_eq!(text(Some(127)), "token-command exited with status 127");
    assert_eq!(text(Some(0)), "token-command exited with status 0");
    assert_eq!(text(Some(-9)), "token-command exited with status -9");
    assert_eq!(text(Some(i32::MIN)), "token-command exited with status -2147483648");
    assert_eq!(text(None), "token-command exited with status unknown");

    let binary = SourceOutput { success: true, code: Some(0), bytes: vec![0xc3, 0x28] };
    assert_eq!(
        token_from_output(binary, "token-command").unwrap_err().to_text(),
        "token-command output was not UTF-8: invalid utf-8 sequence of 1 bytes from index 0"
    );
    assert_eq!(
        token_from_text(Err("why".to_owned()), "token-executable").unwrap_err().to_text(),
        "token-executable output was not UTF-8: why"
    );
    assert_eq!(token_from_text(Ok(" t ".to_owned()), "token-executable").unwrap(), "t");
    assert_eq!(
        token_from_text(Ok(" ".to_owned()), "token-executable").unwrap_err().to_text(),
        "token-executable produced an empty token"
    );
    let accented = SourceOutput { success: true, code: Some(0), bytes: "\u{e9}t\u{e9}\n".as_bytes().to_vec() };
    assert_eq!(token_from_output(accented, "token-command").unwrap(), "\u{e9}t\u{e9}");
}

#[test]
fn tokens_are_trimmed_of_white_space() {
    assert_eq!(trim_token("\u{a0}\t a b \u{2003}\r\n", "empty").unwrap(), "a b");
    assert_eq!(trim_token("\u{3000}", "empty").unwrap_err().to_text(), "empty");
}

fn helper(repository: Option<&str>) -> Config {
    Config::try_from(RawConfig {
        repository: repository.map(str::to_owned),
        token_path: Some("/token".to_owned()),
        ..raw_config()
    })
    .unwrap()
}

#[test]
fn git_requests_are_read_up_to_the_empty_line() {
    let credential = parse_credential(
        "protocol=https\nhost=github.com\npath=myorg/pilot.git\nwwwauth[]=a=b\nnonsense\n\nhost=other\n",
    );
    assert_eq!(credential.get("protocol").unwrap(), "https");
    assert_eq!(credential.get("host").unwrap(), "github.com");
    assert_eq!(credential.get("wwwauth[]").unwrap(), "a=b");
    assert_eq!(credential.len(), 4);
    assert!(is_github_https_request(&credential));
    assert_eq!(repo_from_credential(&credential), Some(repo("myorg", "pilot")));
}

#[test]
fn only_github_repositories_over_https_are_answered() {
    let config = helper(None);
    let answer = |input: &str| plan_answer(&config, Action::Get, &parse_credential(input));
    assert_eq!(
        answer("protocol=https\nhost=github.com\npath=myorg/pilot.git\n"),
        Some(repo("myorg", "pilot"))
    );
    assert_eq!(
        answer("protocol=https\nhost=github.com\npath=/myorg/pilot"),
        Some(repo("myorg", "pilot"))
    );
    assert_eq!(answer("protocol=http\nhost=github.com\npath=myorg/pilot.git\n"), None);
    assert_eq!(answer("protocol=https\nhost=gitlab.com\npath=myorg/pilot.git\n"), None);
    assert_eq!(answer("protocol=https\nhost=github.com\n"), None);
    assert_eq!(answer("protocol=https\nhost=github.com\npath=myorg\n"), None);
    assert_eq!(answer("protocol=https\nhost=github.com\npath=myorg/.git\n"), None);
    assert_eq!(answer("protocol=https\nhost=github.com\npath=myorg/a/b\n"), None);
    assert_eq!(answer(""), None);
}

#[test]
fn the_configured_repository_is_a_boundary() {
    let config = helper(Some("myorg/pilot"));
    let request = |path: &str| {
        parse_credential(&format!("protocol=https\nhost=github.com\npath={path}\n"))
    };
    assert_eq!(
        plan_answer(&config, Action::Get, &request("MYORG/Pilot.git")),
        Some(repo("MYORG", "Pilot"))
    );
    assert_eq!(plan_answer(&config, Action::Get, &request("myorg/other.git")), None);
    assert_eq!(plan_answer(&config, Action::Store, &request("myorg/pilot.git")), None);
    assert_eq!(plan_answer(&config, Action::Erase, &request("myorg/pilot.git")), None);
}

#[test]
fn the_token_is_asked_for_and_printed() {
    assert_eq!(
        installation_token_url(&helper(None), &repo("myorg", "pilot")),
        "https://idcat.example.test/installation-token/deployments/myorg/pilot"
    );
    assert_eq!(
        credential_output("synthetic-token"),
        "username=x-access-token\npassword=synthetic-token\n\n"
    );
}
