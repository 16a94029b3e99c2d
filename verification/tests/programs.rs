//! Talking to the hub: reaching it, running commands, choosing agents, and what a command line
//! leads to.

use clust::cli::{Cli, Commands, Refusal, WtCommands};
use clust::commands::{
    choose_dir, confirmed, list_agents, started_in, started_of, CommandEvent, CommandRun,
    HubCommand, SessionEnd, Todo,
};
use clust::connection::{
    AgentAction, AgentConnection, AgentOutputEvent, AgentPhase, ConnectionEvent, PanelCommand,
    TerminalAction, TerminalConnection, TerminalOutputEvent, TerminalPhase,
};
use clust::default_agent::{agent_to_start, DefaultCheck, DefaultEvent, DefaultRun, DefaultTodo};
use clust::dispatch::{plan, Plan};
use clust::editor::{
    detect_installed_editors, find_editor_by_binary, known_editors, open_in_editor, shell_escape,
    EditorCategory,
};
use clust::hub::{
    agent_list_reply, agents_in_repo_of, agents_with_id, bind_timed_out, check_hub_protocol,
    count_hubs, missing_program, program_in, removal_timed_out, stop_agent_reply, stop_complaint,
    stopped_label, Reach, ReachEvent, ReachStep, Wait, WaitStep,
};
use clust::keys::KeyCode;
use clust::notes::{Act, Mark};
use clust::removal::{remove_repo, remove_worktree, repo_removal_question};
use clust::protocol::{AgentInfo, CliMessage, HubMessage};
use clust::selectors::{
    agent_selector, choose_agent, choose_default, default_selector, installed_agents,
    type_custom_agent, DefaultChoice, DefaultPickerResult, KnownAgent, Picking, SelectAction,
    Typing,
};
use clust::stopping::{StopEvent, StopRun, StopTodo, Target};
use clust::worktrees::detect_current_worktree_branch;

fn agent(id: &str, hub: &str, repo: Option<&str>) -> AgentInfo {
    AgentInfo {
        id: id.to_string(),
        agent_binary: "tool".to_string(),
        started_at: "2025-01-15T10:30:00Z".to_string(),
        attached_clients: 1,
        hub: hub.to_string(),
        working_dir: "/w".to_string(),
        repo_path: repo.map(|r| r.to_string()),
        branch_name: None,
        is_worktree: false,
        batch_title: None,
    }
}

fn known(binary: &str) -> KnownAgent {
    KnownAgent { binary: binary.to_string(), display_name: binary.to_uppercase(), tested: true }
}

fn parse_line(args: &[&str]) -> Result<Cli, Refusal> {
    let args: Vec<String> = args.iter().map(|a| a.to_string()).collect();
    Cli::try_parse_from(&args, "1.2.3")
}

// ── Reaching the hub ───────────────────────────────────────────────

#[test]
fn waiting_ends_in_time() {
    let mut wait = Wait::new(120);
    let mut slept = 0;
    loop {
        match wait.step(false) {
            WaitStep::Sleep => slept += 1,
            WaitStep::TimedOut => break,
            WaitStep::Ready => panic!("nothing is ready"),
        }
        assert!(slept < 100);
    }
    assert!(slept >= 1);
    assert_eq!(Wait::new(120).step(true), WaitStep::Ready);
    assert!(removal_timed_out("/s.sock").contains("/s.sock"));
    assert!(bind_timed_out("/hub.log").contains("/hub.log"));
}

#[test]
fn running_hub_is_used_as_it_is() {
    let mut reach = Reach::new();
    assert_eq!(reach.step(ReachEvent::Begin), ReachStep::TryConnect);
    assert_eq!(reach.step(ReachEvent::Answered(true)), ReachStep::CheckProtocol);
    assert_eq!(reach.step(ReachEvent::Compatible(true)), ReachStep::UseFresh);
    assert_eq!(reach.step(ReachEvent::Begin), ReachStep::Nothing);
}

#[test]
fn old_hub_is_replaced() {
    let mut reach = Reach::new();
    reach.step(ReachEvent::Begin);
    reach.step(ReachEvent::Answered(true));
    assert_eq!(reach.step(ReachEvent::Compatible(false)), ReachStep::StopOldHub);
    assert_eq!(reach.step(ReachEvent::ToldToStop), ReachStep::AwaitRemoval);
    assert_eq!(reach.step(ReachEvent::SocketGone(true)), ReachStep::SpawnHub);
    assert_eq!(reach.step(ReachEvent::Spawned(true)), ReachStep::AwaitBind);
    assert_eq!(reach.step(ReachEvent::Bound(true)), ReachStep::UseBound);
}

#[test]
fn missing_hub_is_spawned_and_may_fail() {
    let mut reach = Reach::new();
    reach.step(ReachEvent::Begin);
    assert_eq!(reach.step(ReachEvent::Answered(false)), ReachStep::SpawnHub);
    assert_eq!(reach.step(ReachEvent::Spawned(false)), ReachStep::Fail);
}

#[test]
fn replies_of_the_hub() {
    assert!(check_hub_protocol(Some(HubMessage::Pong { protocol_version: 7 }), 7).is_ok());
    assert!(check_hub_protocol(Some(HubMessage::Pong { protocol_version: 6 }), 7).is_err());
    assert!(check_hub_protocol(None, 7).is_err());
    let error = || HubMessage::Error { message: "no".to_string() };
    assert!(stop_complaint(HubMessage::HubShutdown).is_none());
    assert!(stop_complaint(error()).is_some());
    assert!(stop_agent_reply(HubMessage::AgentStopped { id: "a".to_string() }).is_ok());
    assert_eq!(stop_agent_reply(error()).unwrap_err(), "no");
    let list = HubMessage::AgentList { agents: vec![agent("a", "h", None)] };
    assert_eq!(agent_list_reply(list).unwrap().len(), 1);
    assert!(agent_list_reply(error()).is_err());
}

#[test]
fn agents_of_hubs_and_repositories() {
    let agents = vec![
        agent("a1", "one", Some("/src/x")),
        agent("b2", "two", Some("/src/y")),
        agent("c3", "one", None),
    ];
    assert_eq!(count_hubs(&agents), 2);
    assert_eq!(stopped_label(1), "clust hub stopped");
    assert_eq!(agents_with_id(&agents, "b2").len(), 1);
    assert_eq!(agents_with_id(&agents, "zz").len(), 0);
    let inside = agents_in_repo_of(&agents, "/src/x");
    assert_eq!(inside.len(), 1);
    assert_eq!(inside[0].id, "a1");
}

#[test]
fn programs_beside_this_one() {
    assert_eq!(program_in("/opt/bin", "clust-hub"), "/opt/bin/clust-hub");
    assert_eq!(program_in("/", "clust-hub"), "/clust-hub");
    assert_eq!(
        missing_program("clust-pool", "/opt/bin/clust-pool"),
        "clust-pool binary not found at /opt/bin/clust-pool"
    );
}

// ── Running commands ───────────────────────────────────────────────

#[test]
fn listing_asks_and_shows() {
    let mut run = CommandRun::new(HubCommand::List { hub: None, batch: None });
    let (acts, todo) = run.step(CommandEvent::Begin);
    assert!(acts.is_empty());
    assert!(matches!(todo, Todo::Connect { may_start: false }));
    let (_, todo) = run.step(CommandEvent::Connected);
    assert!(matches!(todo, Todo::Send(CliMessage::ListAgents { hub: None, batch: None })));
    let (_, todo) = run.step(CommandEvent::Sent);
    assert!(matches!(todo, Todo::Receive));
    let message = HubMessage::AgentList { agents: vec![agent("a1", "h", None)] };
    let (acts, _) = run.step(CommandEvent::Received { message, started: vec!["10:30".to_string()] });
    assert!(!acts.is_empty());
    // A command that is over stays silent.
    let (acts, todo) = run.step(CommandEvent::Connected);
    assert!(acts.is_empty());
    assert!(matches!(todo, Todo::Nothing));
}

#[test]
fn refused_request_is_reported() {
    let mut run = CommandRun::new(HubCommand::AddRepo { working_dir: "/src/x".to_string() });
    run.step(CommandEvent::Begin);
    run.step(CommandEvent::Connected);
    run.step(CommandEvent::Sent);
    let message = HubMessage::Error { message: "not a repository".to_string() };
    let (acts, todo) = run.step(CommandEvent::Received { message, started: Vec::new() });
    assert!(matches!(todo, Todo::Exit(1)));
    assert!(acts.iter().any(|a| match a {
        Act::SpinFailed(text) => text.contains("not a repository"),
        Act::Print(note) => note.mark == Mark::Cross,
        _ => false,
    }));
}

#[test]
fn attached_session_is_cleaned_up_only_when_the_agent_is_gone() {
    let attached = || HubMessage::AgentAttached {
        id: "a1".to_string(),
        agent_binary: "tool".to_string(),
        is_worktree: true,
        repo_path: Some("/src/x".to_string()),
        branch_name: Some("dev".to_string()),
    };
    for (end, cleans) in [(SessionEnd::AgentExited, true), (SessionEnd::Left, false)] {
        let mut run = CommandRun::new(HubCommand::Attach { id: "a1".to_string() });
        run.step(CommandEvent::Begin);
        run.step(CommandEvent::Connected);
        run.step(CommandEvent::Sent);
        let (_, todo) = run.step(CommandEvent::Received { message: attached(), started: Vec::new() });
        assert!(matches!(todo, Todo::Attach(_)));
        let (_, todo) = run.step(CommandEvent::SessionEnded(end));
        match todo {
            Todo::CleanUp { repo_path, branch_name } => {
                assert!(cleans);
                assert_eq!(repo_path, "/src/x");
                assert_eq!(branch_name, "dev");
            }
            Todo::Exit(0) => assert!(!cleans),
            _ => panic!("unexpected"),
        }
    }
}

#[test]
fn small_decisions() {
    assert_eq!(choose_dir(Some("/a".to_string()), Some("/b".to_string())), "/a");
    assert_eq!(choose_dir(None, Some("/b".to_string())), "/b");
    assert!(confirmed("y"));
    assert!(confirmed(" Y\n"));
    assert!(!confirmed("Yes\n"));
    assert!(!confirmed("no"));
    assert!(!confirmed(""));
    assert!(!list_agents(&Vec::new(), &Vec::new(), false).is_empty());
}

// ── Choosing agents ────────────────────────────────────────────────

#[test]
fn selectors_stop_at_their_ends() {
    let agents = vec![agent("a1", "h", None), agent("b2", "h", None)];
    let mut s = agent_selector(&agents);
    assert_eq!(s.step(KeyCode::Up), Picking::Redraw);
    assert_eq!(s.selected, 0);
    for _ in 0..9 {
        assert_eq!(s.step(KeyCode::Down), Picking::Redraw);
    }
    assert_eq!(s.selected, 3);
    assert_eq!(s.step(KeyCode::Tab), Picking::Ignored);
    assert_eq!(s.step(KeyCode::Enter), Picking::Chosen);
    assert!(matches!(choose_agent(&agents, 0), SelectAction::Cancel));
    assert!(matches!(choose_agent(&agents, 2), SelectAction::Attach(id) if id == "b2"));
    assert!(matches!(choose_agent(&agents, s.selected), SelectAction::NewAgent));
    // Leaving the list cancels.
    assert_eq!(s.step(KeyCode::Esc), Picking::Chosen);
    assert!(matches!(choose_agent(&agents, s.selected), SelectAction::Cancel));
}

#[test]
fn default_agent_is_picked_or_typed() {
    let all = vec![known("one"), known("two"), known("three")];
    let installed = installed_agents(&all, &vec![true, false, true]);
    assert_eq!(installed.len(), 2);
    assert_eq!(installed[1].binary, "three");
    assert_eq!(default_selector(&installed).count, 4);
    assert!(matches!(choose_default(&installed, 0), DefaultChoice::Cancel));
    assert!(matches!(choose_default(&installed, 1), DefaultChoice::Agent(b) if b == "one"));
    assert!(matches!(choose_default(&installed, 3), DefaultChoice::Custom));

    let mut buf = String::new();
    assert!(matches!(type_custom_agent(&mut buf, KeyCode::Char('x')), Typing::Typed('x')));
    assert!(matches!(type_custom_agent(&mut buf, KeyCode::Char('y')), Typing::Typed('y')));
    assert!(matches!(type_custom_agent(&mut buf, KeyCode::Backspace), Typing::Erased));
    let done = type_custom_agent(&mut buf, KeyCode::Enter);
    assert!(matches!(done, Typing::Done(DefaultPickerResult::Selected(s)) if s == "x"));
}

#[test]
fn existing_default_is_used_without_asking() {
    let mut run = DefaultRun::new(false);
    assert!(matches!(run.step(DefaultEvent::Begin).1, DefaultTodo::Connect));
    assert!(matches!(run.step(DefaultEvent::Connected).1, DefaultTodo::Send(CliMessage::GetDefault)));
    assert!(matches!(run.step(DefaultEvent::Sent).1, DefaultTodo::Receive));
    let reply = HubMessage::DefaultAgent { agent_binary: Some("tool".to_string()) };
    match run.step(DefaultEvent::Received(reply)).1 {
        DefaultTodo::Finish(DefaultCheck::Agent(binary)) => assert_eq!(binary, "tool"),
        _ => panic!("expected the default"),
    }
}

#[test]
fn agent_named_on_the_command_line_wins() {
    let named = agent_to_start(Some("mine".to_string()), DefaultCheck::Unknown);
    assert_eq!(named, Some(Some("mine".to_string())));
    assert_eq!(agent_to_start(None, DefaultCheck::Cancelled), None);
    let default = agent_to_start(None, DefaultCheck::Agent("tool".to_string()));
    assert_eq!(default, Some(Some("tool".to_string())));
}

// ── Command lines ──────────────────────────────────────────────────

#[test]
fn plans_of_command_lines() {
    assert!(matches!(plan(parse_line(&["clust", "ui"]).unwrap()), Plan::Ui { hub } if hub == "default_hub"));
    assert!(matches!(plan(parse_line(&["clust", "-s"]).unwrap()), Plan::StopHub));
    assert!(matches!(plan(parse_line(&["clust", "-s", "abc123"]).unwrap()), Plan::StopAgent(id) if id == "abc123"));
    assert!(matches!(plan(parse_line(&["clust", "-a", "abc123"]).unwrap()), Plan::Attach(id) if id == "abc123"));
    assert!(matches!(plan(parse_line(&["clust", "-d"]).unwrap()), Plan::PickDefault));
    assert!(matches!(plan(parse_line(&["clust", "repo", "-R"]).unwrap()), Plan::AddRepo));
    assert!(matches!(plan(parse_line(&["clust", "-H", "Bad"]).unwrap()), Plan::Reject(_)));
    match plan(parse_line(&["clust", "-b", "-H", "night", "go"]).unwrap()) {
        Plan::Start { prompt, background, hub, .. } => {
            assert_eq!(prompt.as_deref(), Some("go"));
            assert!(background);
            assert_eq!(hub, "night");
        }
        _ => panic!("expected Start"),
    }
}

#[test]
fn worktree_commands_are_read() {
    match parse_line(&["clust", "wt", "ls"]).unwrap().command {
        Some(Commands::Wt(WtCommands::Ls)) => {}
        other => panic!("unexpected {:?}", other),
    }
    match parse_line(&["clust", "wt", "info", "dev"]).unwrap().command {
        Some(Commands::Wt(WtCommands::Info { name })) => assert_eq!(name, "dev"),
        other => panic!("unexpected {:?}", other),
    }
}

#[test]
fn help_and_version_are_shown_instead() {
    let version = parse_line(&["clust", "--version"]).unwrap_err();
    assert_eq!(version.exit_code, 0);
    assert!(!version.to_stderr);
    assert!(version.text.contains("1.2.3"));
    let nonsense = parse_line(&["clust", "--nonsense"]).unwrap_err();
    assert_ne!(nonsense.exit_code, 0);
    assert!(nonsense.to_stderr);
}

#[test]
fn branch_of_a_worktree_directory() {
    assert_eq!(detect_current_worktree_branch("/src/x"), None);
    let found = detect_current_worktree_branch("/src/x/.clust/worktrees/feature__one/deep");
    assert_eq!(found.as_deref(), Some("feature/one"));
}

// ── Editors ────────────────────────────────────────────────────────

#[test]
fn editors_are_found_and_opened() {
    let known = known_editors();
    let found: Vec<bool> = known.iter().map(|e| e.binary == "vim" || e.binary == "code").collect();
    let editors = detect_installed_editors(&found);
    assert_eq!(editors.len(), 2);
    assert_eq!(editors[0].name, "VS Code");
    assert_eq!(editors[1].category, EditorCategory::Terminal);
    assert!(find_editor_by_binary(&editors, "emacs").is_none());
    let vim = find_editor_by_binary(&editors, "vim").unwrap();
    let ways = open_in_editor(vim, "/a b", false);
    assert_eq!(ways.len(), 4);
    assert_eq!(ways[1].program, "gnome-terminal");
    assert_eq!(ways[1].args, vec!["--", "vim", "/a b"]);
    let mac = open_in_editor(vim, "/it's", true);
    assert_eq!(
        mac[0].args[1],
        "tell app \"Terminal\" to do script \"cd '/it'\\''s' && vim .\""
    );
    let code = open_in_editor(&editors[0], "/a b", false);
    assert_eq!(code[0].args, vec!["/a b"]);
    assert_eq!(shell_escape("a'b"), "'a'\\''b'");
}

// ── Connections ────────────────────────────────────────────────────

#[test]
fn agent_connection_attaches_and_forwards() {
    let mut c = AgentConnection::new("a1".to_string(), 80, 24);
    let sent = c.step(ConnectionEvent::Connected);
    assert!(matches!(&sent[0], AgentAction::Send(CliMessage::AttachAgent { id }) if id == "a1"));
    let message = HubMessage::AgentAttached {
        id: "a1".to_string(),
        agent_binary: "tool".to_string(),
        is_worktree: false,
        repo_path: None,
        branch_name: None,
    };
    c.step(ConnectionEvent::Hub { message, shown: String::new() });
    let message = HubMessage::AgentReplayComplete { id: "a1".to_string() };
    c.step(ConnectionEvent::Hub { message, shown: String::new() });
    assert_eq!(c.phase, AgentPhase::Live);
    let typed = c.step(ConnectionEvent::Command(Some(PanelCommand::Input(vec![b'x']))));
    assert!(matches!(&typed[0], AgentAction::Send(CliMessage::AgentInput { data, .. }) if data == b"x"));
    let message = HubMessage::AgentExited { id: "a1".to_string(), exit_code: 3 };
    let gone = c.step(ConnectionEvent::Hub { message, shown: String::new() });
    assert!(matches!(&gone[0], AgentAction::Emit(AgentOutputEvent::Exited { exit_code: 3, .. })));
    assert_eq!(c.phase, AgentPhase::Closed);
    assert!(c.step(ConnectionEvent::Connected).is_empty());
}

#[test]
fn terminal_connection_reports_a_failed_start() {
    let mut c = TerminalConnection::new("/w".to_string(), 80, 24, None);
    c.step(ConnectionEvent::Connected);
    let message = HubMessage::Error { message: "no shell".to_string() };
    let actions = c.step(ConnectionEvent::Hub { message, shown: "shown".to_string() });
    assert!(actions.iter().any(|a| matches!(
        a,
        TerminalAction::Emit(TerminalOutputEvent::SpawnFailed { message }) if message == "hub rejected start (got shown)"
    )));
    assert!(matches!(c.phase, TerminalPhase::Closed));
}

#[test]
fn stopping_the_hub_offers_to_clean_up() {
    let agents = vec![agent("a1", "h1", None), agent("a2", "h2", None)];
    let mut run = StopRun::new(Target::Hub);
    let (acts, todo) = run.step(StopEvent::Begin);
    assert!(matches!(acts[..], [Act::Blank]));
    assert!(matches!(todo, StopTodo::ListAgents));
    let (acts, todo) = run.step(StopEvent::Listed(agents.clone()));
    assert!(matches!(&acts[..], [Act::Spin(s)] if s == "stopping clust hub"));
    assert!(matches!(todo, StopTodo::ListAgents));
    let (_, todo) = run.step(StopEvent::Listed(agents));
    assert!(matches!(todo, StopTodo::Connect));
    let (_, todo) = run.step(StopEvent::Connected);
    assert!(matches!(todo, StopTodo::Send(CliMessage::StopHub)));
    let (acts, todo) = run.step(StopEvent::Stopped);
    assert!(matches!(&acts[..], [Act::SpinOk(s)] if s == "clust hubs stopped"));
    match todo {
        StopTodo::CleanUp { stopped, all } => assert_eq!((stopped.len(), all.len()), (2, 2)),
        _ => panic!("no clean-up"),
    }
    assert!(matches!(run.step(StopEvent::CleanedUp).1, StopTodo::Return));
}

#[test]
fn stopping_an_agent_may_fail() {
    let mut run = StopRun::new(Target::Agent("a1".to_string()));
    run.step(StopEvent::Begin);
    let (acts, todo) = run.step(StopEvent::ListFailed);
    assert!(matches!(&acts[0], Act::Print(n) if n.to_stderr && n.mark == Mark::Caution));
    assert!(matches!(&acts[1], Act::Spin(s) if s == "stopping agent a1"));
    assert!(matches!(todo, StopTodo::Connect));
    let (_, todo) = run.step(StopEvent::Connected);
    assert!(matches!(todo, StopTodo::Send(CliMessage::StopAgent { id }) if id == "a1"));
    let (acts, todo) = run.step(StopEvent::StopFailed("no such agent".to_string()));
    let said = "failed to stop agent a1: no such agent";
    assert!(matches!(&acts[..], [Act::SpinFailed(s)] if s == said));
    assert!(matches!(todo, StopTodo::Exit(1)));
}

#[test]
fn no_running_hub_is_no_failure() {
    let mut run = StopRun::new(Target::Agent("a1".to_string()));
    run.step(StopEvent::Begin);
    let agents = vec![agent("a1", "h", None), agent("a2", "h", None)];
    run.step(StopEvent::Listed(agents));
    let (acts, todo) = run.step(StopEvent::ConnectFailed);
    assert!(matches!(&acts[..], [Act::SpinOk(s)] if s == "clust hub is not running"));
    match todo {
        StopTodo::CleanUp { stopped, all } => assert_eq!((stopped.len(), all.len()), (1, 2)),
        _ => panic!("no clean-up"),
    }
}

#[test]
fn worktrees_are_removed_by_name_or_by_place() {
    let (acts, wanted) = remove_worktree(Some("dev".to_string()), true, "/w".to_string());
    assert!(matches!(acts[..], [Act::Blank]));
    match wanted {
        Ok(HubCommand::RemoveWorktree { branch_name, delete_local, force, .. }) => {
            assert_eq!(branch_name, "dev");
            assert!(delete_local && !force);
        }
        _ => panic!("no command"),
    }
    let inside = "/r/.clust/worktrees/feat__x/src".to_string();
    match remove_worktree(None, false, inside).1 {
        Ok(HubCommand::RemoveWorktree { branch_name, .. }) => assert_eq!(branch_name, "feat/x"),
        _ => panic!("no command"),
    }
    let (acts, wanted) = remove_worktree(None, false, "/w".to_string());
    assert_eq!(acts.len(), 3);
    assert!(matches!(wanted, Err(1)));
}

#[test]
fn repositories_are_removed_after_a_yes() {
    let (acts, question) = repo_removal_question();
    assert_eq!(acts.len(), 3);
    assert_eq!(question, "are you sure? [y/N]");
    let (acts, wanted) = remove_repo(Some("y\n"), "/w".to_string());
    assert!(acts.is_empty());
    assert!(matches!(wanted, Some(HubCommand::RemoveRepo { working_dir }) if working_dir == "/w"));
    for answer in [Some("n\n"), Some(""), Some("yes"), None] {
        let (acts, wanted) = remove_repo(answer, "/w".to_string());
        assert_eq!(acts.len(), 3);
        assert!(wanted.is_none());
    }
}

#[test]
fn starts_go_with_their_agents() {
    let agents = vec![agent("a1", "h", None), agent("a2", "h", None)];
    let started = started_of(&agents);
    assert_eq!(started.len(), 2);
    assert!(started[0].starts_with("Jan 1"));
    assert_eq!(started_in(&HubMessage::AgentList { agents }), started);
    assert!(started_in(&HubMessage::Done).is_empty());
}

#[test]
fn repositories_are_registered_by_either_flag() {
    for flag in ["-a", "--add", "-R", "--register"] {
        let cli = parse_line(&["clust", "repo", flag]).unwrap();
        assert!(matches!(
            cli.command,
            Some(Commands::Repo { register: true, remove: false, stop: false })
        ));
    }
}

#[test]
fn refusals_fail_and_help_does_not() {
    let refusal = parse_line(&["clust", "--no-such-flag"]).unwrap_err();
    assert_eq!((refusal.exit_code, refusal.to_stderr), (2, true));
    assert!(refusal.text.contains("--no-such-flag"));
    let help = parse_line(&["clust", "--help"]).unwrap_err();
    assert_eq!((help.exit_code, help.to_stderr), (0, false));
    assert!(help.text.contains("--attach <ID>"));
    assert!(help.text.contains("--stop [<ID>]"));
    assert!(help.text.contains("--use <AGENT>"));
    assert!(help.text.contains("--hub <NAME>"));
    assert!(help.text.contains("[PROMPT]"));
    assert!(help.text.contains("e.g. --permission-mode acceptEdits"));
}
