use lerobot_mcp::cli::{Cli, CliError, CliOption, Command, HelpTopic, LogFormat, Transport};

#[test]
fn cli_parses_defaults() {
    // Simulate: lerobot-mcp (no args, all defaults)
    let cli = Cli::try_parse_from(&["lerobot-mcp"]).unwrap();
    assert!(matches!(cli.transport, Transport::Stdio));
    assert_eq!(cli.port, 8080);
    assert!(cli.hf_token.is_none());
    assert_eq!(cli.cache_ttl, 300);
}

#[test]
fn cli_parses_explicit_values() {
    let cli = Cli::try_parse_from(&[
        "lerobot-mcp",
        "--transport", "http",
        "--port", "3000",
        "--hf-token", "hf_abc123",
        "--cache-ttl", "600",
        "--log-format", "json",
    ])
    .unwrap();
    assert!(matches!(cli.transport, Transport::Http));
    assert_eq!(cli.port, 3000);
    assert_eq!(cli.hf_token.as_deref(), Some("hf_abc123"));
    assert_eq!(cli.cache_ttl, 600);
    assert!(matches!(cli.log_format, LogFormat::Json));
}

#[test]
fn cli_rejects_invalid_transport() {
    let result = Cli::try_parse_from(&["lerobot-mcp", "--transport", "websocket"]);
    assert!(result.is_err());
}

#[test]
fn cli_defaults_fill_everything() {
    let cli = Cli::try_parse_from(&["lerobot-mcp"]).unwrap();
    assert!(cli.command.is_none());
    assert_eq!(cli.cache_dir, "~/.cache/lerobot-mcp");
    assert!(matches!(cli.log_format, LogFormat::Pretty));
}

#[test]
fn cli_attached_and_short_values() {
    let cli = Cli::try_parse_from(&["lerobot-mcp", "-thttp", "-p=9000", "--cache-dir=/tmp/c", "-l", "json"]).unwrap();
    assert_eq!(cli.transport, Transport::Http);
    assert_eq!(cli.port, 9000);
    assert_eq!(cli.cache_dir, "/tmp/c");
    assert_eq!(cli.log_format, LogFormat::Json);
}

#[test]
fn cli_search_subcommand() {
    let cli = Cli::try_parse_from(&[
        "lerobot-mcp", "--port", "1", "search", "pick place", "--robot-type", "so100", "--min-episodes", "5",
    ])
    .unwrap();
    assert_eq!(cli.port, 1);
    match cli.command {
        Some(Command::Search { query, robot_type, min_episodes, limit }) => {
            assert_eq!(query, "pick place");
            assert_eq!(robot_type.as_deref(), Some("so100"));
            assert_eq!(min_episodes, Some(5));
            assert_eq!(limit, 10);
        }
        other => panic!("unexpected {other:?}"),
    }
    let cli = Cli::try_parse_from(&["lerobot-mcp", "search", "--limit", "3", "--", "--odd query"]).unwrap();
    match cli.command {
        Some(Command::Search { query, limit, .. }) => {
            assert_eq!(query, "--odd query");
            assert_eq!(limit, 3);
        }
        other => panic!("unexpected {other:?}"),
    }
}

#[test]
fn cli_serve_subcommand() {
    let cli = Cli::try_parse_from(&["lerobot-mcp", "-t", "stdio", "serve"]).unwrap();
    assert!(matches!(cli.command, Some(Command::Serve)));
    assert!(matches!(Cli::try_parse_from(&["lerobot-mcp", "serve", "extra"]), Err(CliError::UnexpectedArgument(_))));
}

#[test]
fn cli_errors() {
    assert!(matches!(Cli::try_parse_from(&["lerobot-mcp", "--help"]), Err(CliError::HelpRequested(HelpTopic::Main))));
    assert!(matches!(Cli::try_parse_from(&["lerobot-mcp", "-V"]), Err(CliError::VersionRequested)));
    assert!(matches!(Cli::try_parse_from(&["lerobot-mcp", "help"]), Err(CliError::HelpRequested(HelpTopic::Main))));
    assert!(matches!(Cli::try_parse_from(&["lerobot-mcp", "search"]), Err(CliError::MissingQuery)));
    assert!(matches!(
        Cli::try_parse_from(&["lerobot-mcp", "--port"]),
        Err(CliError::MissingValue(CliOption::Port))
    ));
    assert!(matches!(
        Cli::try_parse_from(&["lerobot-mcp", "--port", "70000"]),
        Err(CliError::InvalidValue(CliOption::Port, _))
    ));
    assert!(matches!(
        Cli::try_parse_from(&["lerobot-mcp", "--port", "1", "-p", "2"]),
        Err(CliError::RepeatedArgument(CliOption::Port))
    ));
    assert!(matches!(Cli::try_parse_from(&["lerobot-mcp", "--bogus"]), Err(CliError::UnexpectedArgument(_))));
    assert!(matches!(
        Cli::try_parse_from(&["lerobot-mcp", "--hf-token", "-x"]),
        Err(CliError::MissingValue(CliOption::HfToken))
    ));
}

#[test]
fn cli_numbers_read_like_rust() {
    assert_eq!(Cli::try_parse_from(&["lerobot-mcp", "--port=+80"]).unwrap().port, 80);
    assert_eq!(Cli::try_parse_from(&["lerobot-mcp", "--port=-0"]).unwrap().port, 0);
    assert!(Cli::try_parse_from(&["lerobot-mcp", "--port=-1"]).is_err());
    assert!(Cli::try_parse_from(&["lerobot-mcp", "--cache-ttl=-0"]).is_err());
    assert_eq!(
        Cli::try_parse_from(&["lerobot-mcp", "--cache-ttl", "18446744073709551615"]).unwrap().cache_ttl,
        u64::MAX
    );
    assert!(Cli::try_parse_from(&["lerobot-mcp", "--cache-ttl", "18446744073709551616"]).is_err());
    assert!(Cli::try_parse_from(&["lerobot-mcp", "--port", ""]).is_err());
}

#[test]
fn cli_environment_fills_absent_options() {
    let cli = Cli::try_parse_from_env(&["lerobot-mcp"], Some("hf_env"), Some("/var/cache")).unwrap();
    assert_eq!(cli.hf_token.as_deref(), Some("hf_env"));
    assert_eq!(cli.cache_dir, "/var/cache");
    let cli = Cli::try_parse_from_env(&["lerobot-mcp", "--hf-token", "hf_arg"], Some("hf_env"), None).unwrap();
    assert_eq!(cli.hf_token.as_deref(), Some("hf_arg"));
}

#[test]
fn cli_help_command_names_a_command() {
    let help = |args: &[&str]| Cli::try_parse_from(args);
    assert!(matches!(help(&["lerobot-mcp", "help", "search"]), Err(CliError::HelpRequested(HelpTopic::Search))));
    assert!(matches!(help(&["lerobot-mcp", "help", "serve"]), Err(CliError::HelpRequested(HelpTopic::Serve))));
    assert!(matches!(help(&["lerobot-mcp", "help", "help"]), Err(CliError::HelpRequested(HelpTopic::Help))));
    match help(&["lerobot-mcp", "help", "fly"]) {
        Err(CliError::UnrecognizedSubcommand(name)) => assert_eq!(name, "fly"),
        other => panic!("unexpected {other:?}"),
    }
    match help(&["lerobot-mcp", "help", "search", "--limit"]) {
        Err(CliError::UnrecognizedSubcommand(name)) => assert_eq!(name, "--limit"),
        other => panic!("unexpected {other:?}"),
    }
    // After `search`, "help" is the query.
    match help(&["lerobot-mcp", "search", "help"]).unwrap().command {
        Some(Command::Search { query, .. }) => assert_eq!(query, "help"),
        other => panic!("unexpected {other:?}"),
    }
}

#[test]
fn cli_empty_cache_dir_is_refused() {
    assert!(matches!(
        Cli::try_parse_from(&["lerobot-mcp", "--cache-dir="]),
        Err(CliError::MissingValue(CliOption::CacheDir))
    ));
    assert!(matches!(
        Cli::try_parse_from(&["lerobot-mcp", "--cache-dir", ""]),
        Err(CliError::MissingValue(CliOption::CacheDir))
    ));
    assert!(matches!(
        Cli::try_parse_from_env(&["lerobot-mcp"], None, Some("")),
        Err(CliError::MissingValue(CliOption::CacheDir))
    ));
    // A cache directory on the command line leaves the environment unread.
    let cli = Cli::try_parse_from_env(&["lerobot-mcp", "--cache-dir", "/c"], None, Some("")).unwrap();
    assert_eq!(cli.cache_dir, "/c");
    // An empty token is a token.
    let cli = Cli::try_parse_from_env(&["lerobot-mcp"], Some(""), None).unwrap();
    assert_eq!(cli.hf_token.as_deref(), Some(""));
}

#[test]
fn cli_help_options_ask_about_the_current_command() {
    let topic = |args: &[&str]| match Cli::try_parse_from(args) {
        Err(CliError::HelpRequested(t)) => t,
        other => panic!("unexpected {other:?}"),
    };
    assert_eq!(topic(&["lerobot-mcp", "-h"]), HelpTopic::Main);
    assert_eq!(topic(&["lerobot-mcp", "--port", "1", "--help"]), HelpTopic::Main);
    assert_eq!(topic(&["lerobot-mcp", "search", "--help"]), HelpTopic::Search);
    assert_eq!(topic(&["lerobot-mcp", "search", "q", "-h"]), HelpTopic::Search);
    assert_eq!(topic(&["lerobot-mcp", "serve", "--help"]), HelpTopic::Serve);
}
