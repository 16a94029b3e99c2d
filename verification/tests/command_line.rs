//! The command line and the names of hubs.

use clust::cli::{validate_hub_name, Cli, Commands, Refusal};
use clust::commands::DEFAULT_HUB;

fn parse(args: &[&str]) -> Result<Cli, Refusal> {
    let args: Vec<String> = args.iter().map(|a| a.to_string()).collect();
    Cli::try_parse_from(&args, "1.0.0")
}


#[test]
fn parse_no_args() {
    let cli = parse(&["clust"]).unwrap();
    assert!(!cli.background);
    assert!(cli.stop.is_none());
    assert!(cli.attach.is_none());
    assert!(!cli.default);
    assert!(!cli.accept_edits);
    assert!(cli.prompt.is_none());
    assert!(cli.command.is_none());
}

#[test]
fn parse_stop_short() {
    let cli = parse(&["clust", "-s", "abc123"]).unwrap();
    assert_eq!(cli.stop.as_deref(), Some("abc123"));
}

#[test]
fn parse_stop_long() {
    let cli = parse(&["clust", "--stop", "abc123"]).unwrap();
    assert_eq!(cli.stop.as_deref(), Some("abc123"));
}

#[test]
fn parse_stop_no_value_stops_hub() {
    let cli = parse(&["clust", "-s"]).unwrap();
    assert_eq!(cli.stop.as_deref(), Some(""));
}

#[test]
fn parse_stop_long_no_value() {
    let cli = parse(&["clust", "--stop"]).unwrap();
    assert_eq!(cli.stop.as_deref(), Some(""));
}

#[test]
fn parse_background_short() {
    let cli = parse(&["clust", "-b"]).unwrap();
    assert!(cli.background);
}

#[test]
fn parse_background_long() {
    let cli = parse(&["clust", "--background"]).unwrap();
    assert!(cli.background);
}

#[test]
fn parse_attach_short() {
    let cli = parse(&["clust", "-a", "abc123"]).unwrap();
    assert_eq!(cli.attach.as_deref(), Some("abc123"));
}

#[test]
fn parse_attach_long() {
    let cli = parse(&["clust", "--attach", "abc123"]).unwrap();
    assert_eq!(cli.attach.as_deref(), Some("abc123"));
}

#[test]
fn parse_default_short() {
    let cli = parse(&["clust", "-d"]).unwrap();
    assert!(cli.default);
}

#[test]
fn parse_default_long() {
    let cli = parse(&["clust", "--default"]).unwrap();
    assert!(cli.default);
}

#[test]
fn parse_prompt() {
    let cli = parse(&["clust", "do something"]).unwrap();
    assert_eq!(cli.prompt.as_deref(), Some("do something"));
}

#[test]
fn parse_subcommand_ls() {
    let cli = parse(&["clust", "ls"]).unwrap();
    assert!(matches!(
        cli.command,
        Some(Commands::Ls {
            select: false,
            hub: None
        })
    ));
}

#[test]
fn parse_ls_select_short() {
    let cli = parse(&["clust", "ls", "-i"]).unwrap();
    assert!(matches!(
        cli.command,
        Some(Commands::Ls {
            select: true,
            hub: None
        })
    ));
}

#[test]
fn parse_ls_select_long() {
    let cli = parse(&["clust", "ls", "--select"]).unwrap();
    assert!(matches!(
        cli.command,
        Some(Commands::Ls {
            select: true,
            hub: None
        })
    ));
}

#[test]
fn parse_subcommand_ui() {
    let cli = parse(&["clust", "ui"]).unwrap();
    assert!(matches!(cli.command, Some(Commands::Ui)));
}

#[test]
fn parse_background_with_prompt() {
    let cli = parse(&["clust", "-b", "run tests"]).unwrap();
    assert!(cli.background);
    assert_eq!(cli.prompt.as_deref(), Some("run tests"));
}

#[test]
fn parse_dot_as_prompt() {
    let cli = parse(&["clust", "."]).unwrap();
    assert_eq!(cli.prompt.as_deref(), Some("."));
}

#[test]
fn parse_accept_edits_short() {
    let cli = parse(&["clust", "-e"]).unwrap();
    assert!(cli.accept_edits);
}

#[test]
fn parse_accept_edits_long() {
    let cli = parse(&["clust", "--accept-edits"]).unwrap();
    assert!(cli.accept_edits);
}

#[test]
fn parse_accept_edits_with_prompt() {
    let cli = parse(&["clust", "-e", "fix the bug"]).unwrap();
    assert!(cli.accept_edits);
    assert_eq!(cli.prompt.as_deref(), Some("fix the bug"));
}

#[test]
fn parse_accept_edits_with_background() {
    let cli = parse(&["clust", "-e", "-b", "run tests"]).unwrap();
    assert!(cli.accept_edits);
    assert!(cli.background);
}

#[test]
fn parse_use_short() {
    let cli = parse(&["clust", "-u", "opencode"]).unwrap();
    assert_eq!(cli.use_agent.as_deref(), Some("opencode"));
}

#[test]
fn parse_use_long() {
    let cli = parse(&["clust", "--use", "opencode"]).unwrap();
    assert_eq!(cli.use_agent.as_deref(), Some("opencode"));
}

#[test]
fn parse_use_with_prompt() {
    let cli = parse(&["clust", "-u", "opencode", "fix the bug"]).unwrap();
    assert_eq!(cli.use_agent.as_deref(), Some("opencode"));
    assert_eq!(cli.prompt.as_deref(), Some("fix the bug"));
}

#[test]
fn parse_use_with_background() {
    let cli = parse(&["clust", "-u", "opencode", "-b"]).unwrap();
    assert_eq!(cli.use_agent.as_deref(), Some("opencode"));
    assert!(cli.background);
}

#[test]
fn parse_no_args_use_is_none() {
    let cli = parse(&["clust"]).unwrap();
    assert!(cli.use_agent.is_none());
}

// ── Repo subcommand tests ───────────────────────────────────────

#[test]
fn parse_repo_register_short() {
    let cli = parse(&["clust", "repo", "-R"]).unwrap();
    match cli.command {
        Some(Commands::Repo { register, remove, stop }) => {
            assert!(register);
            assert!(!remove);
            assert!(!stop);
        }
        _ => panic!("expected Repo command"),
    }
}

#[test]
fn parse_repo_register_long() {
    let cli = parse(&["clust", "repo", "--register"]).unwrap();
    match cli.command {
        Some(Commands::Repo { register, remove, stop }) => {
            assert!(register);
            assert!(!remove);
            assert!(!stop);
        }
        _ => panic!("expected Repo command"),
    }
}

#[test]
fn parse_repo_remove_short() {
    let cli = parse(&["clust", "repo", "-r"]).unwrap();
    match cli.command {
        Some(Commands::Repo { register, remove, stop }) => {
            assert!(!register);
            assert!(remove);
            assert!(!stop);
        }
        _ => panic!("expected Repo command"),
    }
}

#[test]
fn parse_repo_remove_long() {
    let cli = parse(&["clust", "repo", "--remove"]).unwrap();
    match cli.command {
        Some(Commands::Repo { register, remove, stop }) => {
            assert!(!register);
            assert!(remove);
            assert!(!stop);
        }
        _ => panic!("expected Repo command"),
    }
}

#[test]
fn parse_repo_stop_short() {
    let cli = parse(&["clust", "repo", "-s"]).unwrap();
    match cli.command {
        Some(Commands::Repo { register, remove, stop }) => {
            assert!(!register);
            assert!(!remove);
            assert!(stop);
        }
        _ => panic!("expected Repo command"),
    }
}

#[test]
fn parse_repo_stop_long() {
    let cli = parse(&["clust", "repo", "--stop"]).unwrap();
    match cli.command {
        Some(Commands::Repo { register, remove, stop }) => {
            assert!(!register);
            assert!(!remove);
            assert!(stop);
        }
        _ => panic!("expected Repo command"),
    }
}

#[test]
fn parse_repo_no_flags() {
    let cli = parse(&["clust", "repo"]).unwrap();
    match cli.command {
        Some(Commands::Repo { register, remove, stop }) => {
            assert!(!register);
            assert!(!remove);
            assert!(!stop);
        }
        _ => panic!("expected Repo command"),
    }
}

#[test]
fn parse_invalid_flag_errors() {
    assert!(parse(&["clust", "--nonsense"]).is_err());
}

// ── Hub flag tests ──────────────────────────────────────────────

#[test]
fn parse_hub_short() {
    let cli = parse(&["clust", "-H", "my_feature"]).unwrap();
    assert_eq!(cli.hub.as_deref(), Some("my_feature"));
}

#[test]
fn parse_hub_long() {
    let cli = parse(&["clust", "--hub", "my_feature"]).unwrap();
    assert_eq!(cli.hub.as_deref(), Some("my_feature"));
}

#[test]
fn parse_hub_with_prompt() {
    let cli = parse(&["clust", "-H", "my_feature", "fix bug"]).unwrap();
    assert_eq!(cli.hub.as_deref(), Some("my_feature"));
    assert_eq!(cli.prompt.as_deref(), Some("fix bug"));
}

#[test]
fn parse_no_args_hub_is_none() {
    let cli = parse(&["clust"]).unwrap();
    assert!(cli.hub.is_none());
}

#[test]
fn parse_ls_hub_short() {
    let cli = parse(&["clust", "ls", "-H", "my_feature"]).unwrap();
    match cli.command {
        Some(Commands::Ls { select, hub }) => {
            assert!(!select);
            assert_eq!(hub.as_deref(), Some("my_feature"));
        }
        _ => panic!("expected Ls command"),
    }
}

#[test]
fn parse_ls_hub_long() {
    let cli = parse(&["clust", "ls", "--hub", "my_feature"]).unwrap();
    match cli.command {
        Some(Commands::Ls { select, hub }) => {
            assert!(!select);
            assert_eq!(hub.as_deref(), Some("my_feature"));
        }
        _ => panic!("expected Ls command"),
    }
}

#[test]
fn parse_ls_hub_with_select() {
    let cli = parse(&["clust", "ls", "-i", "-H", "my_feature"]).unwrap();
    match cli.command {
        Some(Commands::Ls { select, hub }) => {
            assert!(select);
            assert_eq!(hub.as_deref(), Some("my_feature"));
        }
        _ => panic!("expected Ls command"),
    }
}

// ── Hub name validation tests ───────────────────────────────────

#[test]
fn validate_hub_name_valid() {
    assert!(validate_hub_name("default_hub").is_ok());
    assert!(validate_hub_name("my_feature").is_ok());
    assert!(validate_hub_name("a").is_ok());
    assert!(validate_hub_name("hub123").is_ok());
    assert!(validate_hub_name("my_hub_2").is_ok());
}

#[test]
fn default_hub_constant_passes_validation() {
    assert!(validate_hub_name(DEFAULT_HUB).is_ok());
}

#[test]
fn validate_hub_name_empty() {
    assert!(validate_hub_name("").is_err());
}

#[test]
fn validate_hub_name_starts_with_uppercase() {
    assert!(validate_hub_name("MyHub").is_err());
}

#[test]
fn validate_hub_name_starts_with_digit() {
    assert!(validate_hub_name("123hub").is_err());
}

#[test]
fn validate_hub_name_contains_uppercase() {
    assert!(validate_hub_name("myHub").is_err());
}

#[test]
fn validate_hub_name_contains_hyphen() {
    assert!(validate_hub_name("my-hub").is_err());
}

#[test]
fn validate_hub_name_starts_with_underscore() {
    assert!(validate_hub_name("_hub").is_err());
}

#[test]
fn validate_hub_name_trailing_underscore() {
    assert!(validate_hub_name("hub_").is_err());
    assert!(validate_hub_name("my_feature_").is_err());
}

#[test]
fn validate_hub_name_consecutive_underscores() {
    assert!(validate_hub_name("my__hub").is_err());
    assert!(validate_hub_name("a__b__c").is_err());
}
