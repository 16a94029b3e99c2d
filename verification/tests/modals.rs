//! The modal dialogs: what keys do and what is handed out at the end.

use clust::add_task_modal::{AddTaskModal, AddTaskResult};
use clust::batch_deps_modal::{BatchDepsModal, BatchDepsResult};
use clust::context_menu::{char_to_index, index_to_char, ContextMenu, ContextMenuItem, MenuResult};
use clust::create_agent_modal::{CreateAgentModal, ModalResult};
use clust::create_batch_modal::{BatchModalResult, CreateBatchModal, LaunchMode};
use clust::detached_agent_modal::{DetachedAgentModal, DetachedModalResult};
use clust::edit_prompt_modal::{EditPromptModal, EditPromptResult};
use clust::import_batch_modal::{
    file_outcome, parse_launch_mode, prompt_of_task, task_plan_mode, tasks_to_start, BatchJson,
    FileOutcome, ImportBatchModal, ImportBatchResult, TaskJson,
};
use clust::keys::{KeyCode, KeyEvent, KeyModifiers};
use clust::modal::{directory_path, plain_path};
use clust::orchestrator_modal::{OrchestratorModal, OrchestratorResult};
use clust::protocol::{BranchInfo, RepoInfo};
use clust::repo_modal::{repo_name_from_url, RepoModal, RepoModalResult};
use clust::style::Color;
use clust::term_complete::DirEntry;

fn press(code: KeyCode) -> KeyEvent {
    KeyEvent::new(code, KeyModifiers::none())
}

fn alt(c: char) -> KeyEvent {
    let mut modifiers = KeyModifiers::none();
    modifiers.alt = true;
    KeyEvent::new(KeyCode::Char(c), modifiers)
}

fn branch(name: &str) -> BranchInfo {
    BranchInfo {
        name: name.to_string(),
        is_head: false,
        is_remote: false,
        is_worktree: false,
        active_agent_count: 0,
    }
}

fn repo(name: &str, branches: &[&str]) -> RepoInfo {
    RepoInfo {
        path: format!("/src/{name}"),
        name: name.to_string(),
        color: None,
        local_branches: branches.iter().map(|b| branch(b)).collect(),
        remote_branches: Vec::new(),
    }
}

fn dir(name: &str) -> DirEntry {
    DirEntry { name: name.to_string(), is_dir: true }
}

fn file(name: &str) -> DirEntry {
    DirEntry { name: name.to_string(), is_dir: false }
}

// ── Editing a prompt ───────────────────────────────────────────────

fn edit_modal() -> EditPromptModal {
    EditPromptModal::new("t1".into(), "br".into(), "old".into())
}

#[test]
fn enter_with_text_submits() {
    let mut m = edit_modal();
    let r = m.handle_key(press(KeyCode::Enter));
    match r {
        EditPromptResult::Submitted { task_id, prompt } => {
            assert_eq!(task_id, "t1");
            assert_eq!(prompt, "old");
        }
        other => panic!("expected Submitted, got {:?}", other),
    }
}

#[test]
fn enter_with_blank_input_stays_pending() {
    let mut m = EditPromptModal::new("t1".into(), "br".into(), "".into());
    let r = m.handle_key(press(KeyCode::Enter));
    assert_eq!(r, EditPromptResult::Pending);
}

#[test]
fn esc_cancels() {
    let mut m = edit_modal();
    let r = m.handle_key(press(KeyCode::Esc));
    assert_eq!(r, EditPromptResult::Cancelled);
}

#[test]
fn typing_appends() {
    let mut m = edit_modal();
    m.handle_key(press(KeyCode::Char('!')));
    let r = m.handle_key(press(KeyCode::Enter));
    match r {
        EditPromptResult::Submitted { prompt, .. } => assert_eq!(prompt, "old!"),
        _ => panic!("expected Submitted"),
    }
}

#[test]
fn backspace_removes() {
    let mut m = edit_modal();
    m.handle_key(press(KeyCode::Backspace));
    let r = m.handle_key(press(KeyCode::Enter));
    match r {
        EditPromptResult::Submitted { prompt, .. } => assert_eq!(prompt, "ol"),
        _ => panic!("expected Submitted"),
    }
}

#[test]
fn pasted_prompt_becomes_one_line() {
    let mut m = edit_modal();
    m.handle_key(press(KeyCode::Left));
    m.handle_paste("a\r\nb");
    let r = m.handle_key(press(KeyCode::Enter));
    assert_eq!(
        r,
        EditPromptResult::Submitted { task_id: "t1".to_string(), prompt: "olabd".to_string() }
    );
}

// ── Directories ────────────────────────────────────────────────────

#[test]
fn paths_with_and_without_slashes() {
    assert_eq!(directory_path("/home/me"), "/home/me/");
    assert_eq!(directory_path("/"), "/");
    assert_eq!(plain_path("/home/me//"), "/home/me");
    assert_eq!(plain_path("/"), "/");
}

#[test]
fn detached_modal_walks_to_a_directory() {
    let mut m = DetachedAgentModal::new(Some("/home/me"));
    assert_eq!(m.directory_to_read(), Some("/home/me/"));
    m.refresh_entries(vec![dir("work"), file("notes.txt"), dir(".cache"), dir("art")]);
    assert_eq!(m.directory_to_read(), None);

    // The entries are sorted, so the second one is `work`.
    m.handle_key(press(KeyCode::Down));
    m.handle_key(press(KeyCode::Tab));
    assert_eq!(m.directory_to_read(), Some("/home/me/work/"));
    m.refresh_entries(vec![dir("clust"), dir("other")]);

    for c in "clu".chars() {
        m.handle_key(press(KeyCode::Char(c)));
    }
    m.handle_key(press(KeyCode::Enter));
    m.handle_key(alt('p'));
    m.handle_paste("fix it");
    match m.handle_key(press(KeyCode::Enter)) {
        DetachedModalResult::Completed(output) => {
            assert_eq!(output.working_dir, "/home/me/work/clust");
            assert_eq!(output.prompt.as_deref(), Some("fix it"));
            assert!(output.plan_mode);
        }
        other => panic!("expected Completed, got {:?}", other),
    }

    // Back to the directory that was confirmed.
    m.handle_key(press(KeyCode::Esc));
    assert_eq!(m.directory_to_read(), Some("/home/me/work/clust/"));
    m.handle_key(press(KeyCode::Backspace));
    assert_eq!(m.directory_to_read(), Some("/home/me/work/"));
}

#[test]
fn detached_modal_starts_in_the_root_without_a_home() {
    let mut m = DetachedAgentModal::new(None);
    assert_eq!(m.directory_to_read(), Some("/"));
    m.refresh_entries(Vec::new());
    m.handle_key(press(KeyCode::Backspace));
    assert_eq!(m.directory_to_read(), None);
    m.set_plan_mode(true);
    m.handle_key(press(KeyCode::Enter));
    match m.handle_key(press(KeyCode::Enter)) {
        DetachedModalResult::Completed(output) => {
            assert_eq!(output.working_dir, "/");
            assert_eq!(output.prompt, None);
            assert!(output.plan_mode);
        }
        other => panic!("expected Completed, got {:?}", other),
    }
}

// ── Adding a repository ────────────────────────────────────────────

#[test]
fn creating_a_repository_needs_a_name() {
    let mut m = RepoModal::new();
    m.handle_key(press(KeyCode::Enter), Some("/home/me"));
    assert_eq!(m.directory_to_read(), Some("/home/me/"));
    m.refresh_entries(vec![dir("src")]);
    m.handle_key(press(KeyCode::Enter), None);
    assert!(matches!(m.handle_key(press(KeyCode::Enter), None), RepoModalResult::Pending));
    m.handle_paste("  demo ");
    match m.handle_key(press(KeyCode::Enter), None) {
        RepoModalResult::CreateRepo(output) => {
            assert_eq!(output.parent_dir, "/home/me");
            assert_eq!(output.name, "demo");
        }
        other => panic!("expected CreateRepo, got {:?}", other),
    }
}

#[test]
fn cloning_a_repository_takes_a_url() {
    let mut m = RepoModal::new();
    m.handle_key(press(KeyCode::Down), None);
    m.handle_key(press(KeyCode::Enter), Some("/home/me/"));
    m.refresh_entries(Vec::new());
    m.handle_key(press(KeyCode::Enter), None);
    assert!(matches!(m.handle_key(press(KeyCode::Enter), None), RepoModalResult::Pending));
    m.handle_paste("git@example.com:team/tool.git");
    m.handle_key(press(KeyCode::Enter), None);
    match m.handle_key(press(KeyCode::Enter), None) {
        RepoModalResult::CloneRepo(output) => {
            assert_eq!(output.url, "git@example.com:team/tool.git");
            assert_eq!(output.parent_dir, "/home/me");
            assert_eq!(output.name, None);
        }
        other => panic!("expected CloneRepo, got {:?}", other),
    }
    assert!(matches!(RepoModal::new().handle_key(press(KeyCode::Esc), None), RepoModalResult::Cancelled));
}

#[test]
fn names_in_clone_urls() {
    assert_eq!(repo_name_from_url("git@example.com:team/tool.git").as_deref(), Some("tool"));
    assert_eq!(repo_name_from_url("https://example.com/a/b/").as_deref(), Some("b"));
    assert_eq!(repo_name_from_url("host:solo").as_deref(), Some("solo"));
    assert_eq!(repo_name_from_url("  /  ").as_deref(), None);
    assert_eq!(repo_name_from_url("").as_deref(), None);
}

// ── Starting an agent ──────────────────────────────────────────────

#[test]
fn agent_modal_goes_through_all_steps() {
    let mut m = CreateAgentModal::new(vec![repo("one", &["main"]), repo("two", &["main", "dev"])]);
    m.handle_key(press(KeyCode::Down), "");
    m.handle_key(press(KeyCode::Enter), "");
    m.handle_paste("dev");
    m.handle_key(press(KeyCode::Enter), "");
    m.handle_paste("My Feature");
    assert_eq!(m.input(), "My Feature");
    m.handle_key(press(KeyCode::Enter), "my-feature");
    match m.handle_key(press(KeyCode::Enter), "") {
        ModalResult::Completed(output) => {
            assert_eq!(output.repo_path, "/src/two");
            assert_eq!(output.target_branch.as_deref(), Some("dev"));
            assert_eq!(output.new_branch.as_deref(), Some("my-feature"));
            assert_eq!(output.prompt, None);
        }
        other => panic!("expected Completed, got {:?}", other),
    }
}

#[test]
fn repository_without_branches_needs_a_new_one() {
    let mut m = CreateAgentModal::new(vec![repo("fresh", &[])]);
    m.handle_key(press(KeyCode::Enter), "");
    m.handle_key(press(KeyCode::Enter), "");
    // Still in the step that names the branch: Esc goes back to the repositories.
    m.handle_key(press(KeyCode::Esc), "");
    assert!(matches!(m.handle_key(press(KeyCode::Esc), ""), ModalResult::Cancelled));
}

#[test]
fn modal_for_a_branch_skips_the_choice() {
    let mut m = CreateAgentModal::new_with_branch(Vec::new(), repo("one", &["main"]), "main".into());
    m.handle_paste("x");
    m.handle_key(press(KeyCode::Enter), "x");
    m.handle_paste("go");
    match m.handle_key(press(KeyCode::Enter), "") {
        ModalResult::Completed(output) => {
            assert_eq!(output.repo_path, "/src/one");
            assert_eq!(output.target_branch.as_deref(), Some("main"));
            assert_eq!(output.prompt.as_deref(), Some("go"));
        }
        other => panic!("expected Completed, got {:?}", other),
    }
    m.handle_key(press(KeyCode::Esc), "");
    assert!(matches!(m.handle_key(press(KeyCode::Esc), ""), ModalResult::Cancelled));
}

#[test]
fn repositories_match_by_path_too() {
    let mut m = CreateAgentModal::new(vec![repo("alpha", &["main"]), repo("beta", &["main"])]);
    m.handle_paste("src/beta");
    m.handle_key(press(KeyCode::Enter), "");
    m.handle_key(press(KeyCode::Enter), "");
    m.handle_key(press(KeyCode::Enter), "");
    match m.handle_key(press(KeyCode::Enter), "") {
        ModalResult::Completed(output) => {
            assert_eq!(output.repo_path, "/src/beta");
            assert_eq!(output.new_branch, None);
        }
        other => panic!("expected Completed, got {:?}", other),
    }
}

// ── Starting an orchestrator ───────────────────────────────────────

#[test]
fn orchestrator_needs_a_prompt_and_another_branch() {
    let mut m = OrchestratorModal::new(vec![repo("one", &["main"])]);
    m.handle_key(press(KeyCode::Enter), "");
    m.handle_key(press(KeyCode::Enter), "");
    // The branch to clone from cannot be the one to clone toward.
    m.handle_paste("main");
    m.handle_key(press(KeyCode::Enter), "main");
    assert_eq!(m.input(), "main");
    m.handle_key(press(KeyCode::Enter), "next");
    assert_eq!(m.input(), "");
    assert!(matches!(m.handle_key(press(KeyCode::Enter), ""), OrchestratorResult::Pending));
    m.handle_paste("plan\r\nit");
    match m.handle_key(press(KeyCode::Enter), "") {
        OrchestratorResult::Completed(output) => {
            assert_eq!(output.repo_path, "/src/one");
            assert_eq!(output.source_branch, "main");
            assert_eq!(output.new_branch, "next");
            assert_eq!(output.prompt, "plan\n\nit");
        }
        other => panic!("expected Completed, got {:?}", other),
    }
}

#[test]
fn orchestrator_without_branches_clones_from_main() {
    let mut m = OrchestratorModal::new(vec![repo("fresh", &[])]);
    m.handle_key(press(KeyCode::Enter), "");
    m.handle_key(press(KeyCode::Enter), "next");
    m.handle_paste("go");
    match m.handle_key(press(KeyCode::Enter), "") {
        OrchestratorResult::Completed(output) => assert_eq!(output.source_branch, "main"),
        other => panic!("expected Completed, got {:?}", other),
    }
}

// ── Creating a batch ───────────────────────────────────────────────

fn batch_at_launch_mode() -> CreateBatchModal {
    let mut m = CreateBatchModal::new(vec![repo("one", &["main"])]);
    m.handle_key(press(KeyCode::Enter));
    m.handle_key(press(KeyCode::Enter));
    m.handle_paste("  Night run ");
    m.handle_key(press(KeyCode::Enter));
    m
}

#[test]
fn manual_batches_have_no_limit() {
    let mut m = batch_at_launch_mode();
    m.handle_key(press(KeyCode::Down));
    match m.handle_key(press(KeyCode::Enter)) {
        BatchModalResult::Completed(output) => {
            assert_eq!(output.repo_path, "/src/one");
            assert_eq!(output.repo_name, "one");
            assert_eq!(output.branch_name, "main");
            assert_eq!(output.title.as_deref(), Some("Night run"));
            assert_eq!(output.max_concurrent, None);
            assert_eq!(output.launch_mode, LaunchMode::Manual);
        }
        other => panic!("expected Completed, got {:?}", other),
    }
}

fn limit_after(keys: &[KeyCode], pasted: &str) -> Option<usize> {
    let mut m = batch_at_launch_mode();
    m.handle_key(press(KeyCode::Enter));
    for k in keys {
        m.handle_key(press(*k));
    }
    m.handle_paste(pasted);
    match m.handle_key(press(KeyCode::Enter)) {
        BatchModalResult::Completed(output) => {
            assert_eq!(output.launch_mode, LaunchMode::Auto);
            output.max_concurrent
        }
        other => panic!("expected Completed, got {:?}", other),
    }
}

#[test]
fn limits_are_typed_and_stepped() {
    assert_eq!(limit_after(&[], ""), None);
    assert_eq!(limit_after(&[KeyCode::Up, KeyCode::Up], ""), Some(2));
    assert_eq!(limit_after(&[KeyCode::Up, KeyCode::Down], ""), None);
    assert_eq!(limit_after(&[KeyCode::Char('1'), KeyCode::Char('2')], ""), Some(12));
    assert_eq!(limit_after(&[KeyCode::Char('1'), KeyCode::Char('2'), KeyCode::Backspace], ""), Some(1));
    assert_eq!(limit_after(&[KeyCode::Char('0')], ""), None);
    assert_eq!(limit_after(&[], "4x2"), Some(42));
    // Four digits are full: the next one starts anew.
    assert_eq!(limit_after(&[], "12345"), Some(5));
}

#[test]
fn batch_needs_a_branch() {
    let mut m = CreateBatchModal::new(vec![repo("fresh", &[])]);
    m.handle_key(press(KeyCode::Enter));
    assert!(matches!(m.handle_key(press(KeyCode::Esc)), BatchModalResult::Cancelled));
}

#[test]
fn launch_mode_step_goes_back_to_the_title() {
    let mut m = batch_at_launch_mode();
    m.handle_key(press(KeyCode::Esc));
    m.handle_key(press(KeyCode::Char('!')));
    m.handle_key(press(KeyCode::Enter));
    m.handle_key(press(KeyCode::Down));
    match m.handle_key(press(KeyCode::Enter)) {
        BatchModalResult::Completed(output) => assert_eq!(output.title.as_deref(), Some("Night run!")),
        other => panic!("expected Completed, got {:?}", other),
    }
}

// ── Importing batches ──────────────────────────────────────────────

fn batch(tasks: usize) -> BatchJson {
    BatchJson {
        title: Some("imported".to_string()),
        prefix: None,
        suffix: None,
        launch_mode: None,
        max_concurrent: None,
        plan_mode: false,
        allow_bypass: false,
        tasks: (0..tasks)
            .map(|i| TaskJson {
                branch: format!("b{i}"),
                prompt: "do".to_string(),
                use_prefix: true,
                use_suffix: true,
                plan_mode: false,
            })
            .collect(),
        depends_on: Vec::new(),
    }
}

#[test]
fn importing_reads_a_file_and_chooses_a_place() {
    let mut m = ImportBatchModal::new(vec![repo("one", &["main"])], None, Some("/home/me"));
    assert_eq!(m.directory_to_read(), Some("/home/me/Downloads/"));
    m.refresh_entries(vec![file("b.json"), file("readme.md"), dir("zip"), file("a.json")]);
    // The directory comes first, then a.json and b.json.
    m.handle_key(press(KeyCode::Down));
    m.handle_key(press(KeyCode::Down));
    assert_eq!(m.file_to_read(), None);
    m.handle_key(press(KeyCode::Enter));
    assert_eq!(m.file_to_read(), Some("/home/me/Downloads/b.json"));

    m.try_parse_file(FileOutcome::Unreadable("gone".to_string()));
    m.handle_key(press(KeyCode::Enter));
    m.try_parse_file(FileOutcome::Batches(vec![batch(0)]));
    assert_eq!(m.file_to_read(), None);
    m.handle_key(press(KeyCode::Enter));
    m.try_parse_file(FileOutcome::Batches(vec![batch(0), batch(2)]));

    m.handle_key(press(KeyCode::Enter));
    match m.handle_key(press(KeyCode::Enter)) {
        ImportBatchResult::Completed(output) => {
            assert_eq!(output.batches.len(), 2);
            assert_eq!(output.batches[1].tasks[1].branch, "b1");
            assert_eq!(output.repo_path, "/src/one");
            assert_eq!(output.repo_name, "one");
            assert_eq!(output.branch_name, "main");
        }
        _ => panic!("expected Completed"),
    }
}

#[test]
fn files_hold_a_list_or_a_single_batch() {
    let list = file_outcome(Ok(vec![batch(1), batch(1)]), Err("no".to_string()));
    assert!(matches!(list, FileOutcome::Batches(b) if b.len() == 2));
    let single = file_outcome(Err("no".to_string()), Ok(batch(1)));
    assert!(matches!(single, FileOutcome::Batches(b) if b.len() == 1));
    let neither = file_outcome(Err("first".to_string()), Err("second".to_string()));
    assert!(matches!(neither, FileOutcome::Invalid(e) if e == "second"));
}

#[test]
fn launch_modes_by_name() {
    assert_eq!(parse_launch_mode(Some("MANUAL")), LaunchMode::Manual);
    assert_eq!(parse_launch_mode(Some("Manual")), LaunchMode::Manual);
    assert_eq!(parse_launch_mode(Some("auto")), LaunchMode::Auto);
    assert_eq!(parse_launch_mode(Some("")), LaunchMode::Auto);
    assert_eq!(parse_launch_mode(None), LaunchMode::Auto);
}

#[test]
fn tasks_follow_their_batch_unless_they_say_otherwise() {
    assert!(task_plan_mode(None, true));
    assert!(!task_plan_mode(None, false));
    assert!(!task_plan_mode(Some(false), true));
    assert!(task_plan_mode(Some(true), false));
}

// ── Adding a task ──────────────────────────────────────────────────

#[test]
fn task_needs_a_branch_and_a_prompt() {
    let mut m = AddTaskModal::new(3, "Night run".to_string(), true, false, false, false);
    assert!(matches!(m.handle_key(press(KeyCode::Enter)), AddTaskResult::Pending));
    m.handle_paste(" feature ");
    m.handle_key(press(KeyCode::Enter));
    m.handle_key(alt('p'));
    m.handle_key(alt('s'));
    // Not supported here, so it stays off.
    m.handle_key(alt('x'));
    assert!(matches!(m.handle_key(press(KeyCode::Enter)), AddTaskResult::Pending));
    m.handle_paste(" do it ");
    match m.handle_key(press(KeyCode::Enter)) {
        AddTaskResult::Completed(output) => {
            assert_eq!(output.batch_idx, 3);
            assert_eq!(output.branch_name, "feature");
            assert_eq!(output.prompt, "do it");
            assert!(output.use_prefix);
            assert!(!output.use_suffix);
            assert!(output.plan_mode);
            assert!(!output.exit_when_done);
        }
        other => panic!("expected Completed, got {:?}", other),
    }
    // Esc brings the branch name back, and then leaves.
    m.handle_key(press(KeyCode::Esc));
    assert!(matches!(m.handle_key(press(KeyCode::Esc)), AddTaskResult::Cancelled));
}

// ── Dependencies between batches ───────────────────────────────────

fn deps(id: &str, on: &[&str]) -> (String, String, Vec<String>) {
    (id.to_string(), id.to_uppercase(), on.iter().map(|d| d.to_string()).collect())
}

fn ticked_ids(m: &mut BatchDepsModal) -> Vec<String> {
    match m.handle_key(KeyCode::Enter) {
        BatchDepsResult::Completed(ids) => ids,
        other => panic!("expected Completed, got {:?}", other),
    }
}

#[test]
fn dependencies_never_form_a_cycle() {
    let mut m = BatchDepsModal::new(
        0,
        "Mine".to_string(),
        Some("me".to_string()),
        &vec!["c".to_string()],
        vec![deps("a", &["b"]), deps("b", &["me"]), deps("c", &["d"]), deps("d", &["c"])],
    );
    assert_eq!(m.batch_idx(), 0);
    assert!(m.would_create_cycle("a"));
    assert!(m.would_create_cycle("b"));
    assert!(m.would_create_cycle("me"));
    assert!(!m.would_create_cycle("c"));
    assert!(!m.would_create_cycle("unknown"));

    // a leads to us through b, so it stays off; d may be ticked, c unticked.
    m.handle_key(KeyCode::Char(' '));
    assert_eq!(ticked_ids(&mut m), vec!["c"]);
    m.handle_key(KeyCode::Down);
    m.handle_key(KeyCode::Down);
    m.handle_key(KeyCode::Char(' '));
    m.handle_key(KeyCode::Down);
    m.handle_key(KeyCode::Down);
    m.handle_key(KeyCode::Char(' '));
    assert_eq!(ticked_ids(&mut m), vec!["d"]);
    assert!(matches!(m.handle_key(KeyCode::Esc), BatchDepsResult::Cancelled));
}

#[test]
fn batch_without_an_id_cannot_be_in_a_cycle() {
    let m = BatchDepsModal::new(1, "Mine".to_string(), None, &Vec::new(), vec![deps("a", &["a"])]);
    assert!(!m.would_create_cycle("a"));
}

// ── Context menus ──────────────────────────────────────────────────

#[test]
fn menu_items_are_chosen_by_number_or_by_enter() {
    let labels = vec!["One".to_string(), "Two".to_string()];
    let mut menu = ContextMenu::new("Menu", labels);
    assert_eq!(menu.handle_key(KeyCode::Char('2')), MenuResult::Selected(1));
    assert_eq!(menu.handle_key(KeyCode::Char('3')), MenuResult::Nothing);
    menu.handle_key(KeyCode::Down);
    menu.handle_key(KeyCode::Down);
    assert_eq!(menu.handle_key(KeyCode::Enter), MenuResult::Selected(1));
    menu.handle_key(KeyCode::Up);
    assert_eq!(menu.handle_key(KeyCode::Enter), MenuResult::Selected(0));
    assert_eq!(menu.handle_key(KeyCode::Esc), MenuResult::Dismissed);

    let mut empty = ContextMenu::with_colors("Empty", Vec::new());
    empty.handle_key(KeyCode::Down);
    assert_eq!(empty.handle_key(KeyCode::Enter), MenuResult::Dismissed);
    let colored = ContextMenuItem { label: "x".to_string(), color: Some(Color::Indexed(3)) };
    assert_eq!(ContextMenu::with_colors("C", vec![colored]).items.len(), 1);
}

#[test]
fn item_numbers_go_round() {
    for i in 0..10 {
        assert_eq!(char_to_index(index_to_char(i)), Some(i));
    }
    assert_eq!(index_to_char(9), '0');
    assert_eq!(index_to_char(10), '?');
    assert_eq!(char_to_index('x'), None);
}

#[test]
fn batches_start_as_many_tasks_as_they_may() {
    assert_eq!(tasks_to_start(LaunchMode::Auto, None, 3, 5), 5);
    assert_eq!(tasks_to_start(LaunchMode::Auto, Some(2), 0, 5), 2);
    assert_eq!(tasks_to_start(LaunchMode::Auto, Some(2), 1, 5), 1);
    assert_eq!(tasks_to_start(LaunchMode::Auto, Some(2), 2, 5), 0);
    assert_eq!(tasks_to_start(LaunchMode::Auto, Some(4), 1, 2), 2);
    assert_eq!(tasks_to_start(LaunchMode::Manual, None, 0, 5), 0);
}

#[test]
fn prompts_of_tasks_take_what_the_batch_adds() {
    let batch = BatchJson {
        title: None,
        prefix: Some("before".to_string()),
        suffix: Some("after".to_string()),
        launch_mode: None,
        max_concurrent: None,
        plan_mode: false,
        allow_bypass: false,
        tasks: Vec::new(),
        depends_on: Vec::new(),
    };
    let mut task = TaskJson {
        branch: "b".to_string(),
        prompt: "do it".to_string(),
        use_prefix: true,
        use_suffix: true,
        plan_mode: false,
    };
    assert_eq!(prompt_of_task(&batch, &task), "before\n\ndo it\n\nafter");
    task.use_prefix = false;
    assert_eq!(prompt_of_task(&batch, &task), "do it\n\nafter");
    task.use_suffix = false;
    assert_eq!(prompt_of_task(&batch, &task), "do it");
}
