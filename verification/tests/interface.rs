//! The overview, the focus mode, and the building blocks of what they show.

use clust::branch_picker::BranchPicker;
use clust::connection::{AgentOutputEvent, PanelCommand, TerminalOutputEvent};
use clust::context_menu::ContextMenu;
use clust::detached_agent_modal::DetachedAgentModal;
use clust::diff_pane::{build_selection_text, diff_viewer, DiffFace, DiffPane};
use clust::edit_prompt_modal::EditPromptModal;
use clust::focus::{FocusEffect, FocusModeState, FocusSide, LeftPanelTab, PrInfo};
use clust::focus_view::{
    compare_label, compare_tab, completion_popup, focus_mode, left_tab_bar, push_branch_badges,
    terminal_label_strip, terminal_tab, CompareFace, LeftFace, TerminalContent,
};
use clust::gitdiff::{diff_event, git_output, parse_unified_diff, DiffEvent, GitRun};
use clust::keys::{KeyCode, KeyEvent, KeyModifiers};
use clust::layout::{
    center_area, center_column, split_bottom_row, split_columns, split_focus, split_rows,
    split_top_and_bottom_row, split_top_row, stack_rows, Constraint,
};
use clust::lists::{clamp_selection, scroll_halfway, scroll_to_center, select_next, select_prev};
use clust::modal_view::Following;
use clust::overview::{
    max_panels_for_width, panel_width_for_count, AgentTerminalCache, OverviewFocus, OverviewState,
    TerminalPanel,
};
use clust::overview_view::{display_name_of, overview_face};
use clust::protocol::{AgentInfo, BranchInfo, RepoInfo};
use clust::ranking::{filter_by_either, filter_names, rank};
use clust::sorting::{sort_by_keys, SortKey};
use clust::style::{Color, Line, Span, Style};
use clust::term_complete::{CompletionItem, CompletionKind, CompletionState, DirEntry};
use clust::view::{pad_to, Flow, Rect, Theme};

fn theme() -> Theme {
    let c = Color::Indexed;
    Theme {
        accent: c(1),
        accent_bright: c(2),
        accent_dim: c(3),
        accent_text: c(4),
        bg_active: c(5),
        bg_base: c(6),
        bg_hover: c(7),
        bg_input: c(8),
        bg_overlay: c(9),
        bg_raised: c(10),
        bg_surface: c(11),
        diff_add_bg: c(12),
        diff_del_bg: c(13),
        error: c(14),
        info: c(15),
        selection_bg: c(16),
        success: c(17),
        text_disabled: c(18),
        text_primary: c(19),
        text_secondary: c(20),
        text_tertiary: c(21),
        warning: c(22),
        repo_colors: vec![("red".to_string(), c(30))],
        dimmed: vec![(c(30), c(31))],
    }
}

fn area(width: u16, height: u16) -> Rect {
    Rect { x: 0, y: 0, width, height }
}

fn text_of(line: &Line) -> String {
    line.spans.iter().map(|s| s.content.as_str()).collect()
}

fn agent(id: &str, repo: Option<&str>) -> AgentInfo {
    AgentInfo {
        id: id.to_string(),
        agent_binary: "tool".to_string(),
        started_at: String::new(),
        attached_clients: 0,
        hub: "h".to_string(),
        working_dir: "/w".to_string(),
        repo_path: repo.map(|r| r.to_string()),
        branch_name: Some("main".to_string()),
        is_worktree: false,
        batch_title: None,
    }
}

fn repo(name: &str) -> RepoInfo {
    RepoInfo {
        path: format!("/src/{name}"),
        name: name.to_string(),
        color: Some("red".to_string()),
        local_branches: Vec::new(),
        remote_branches: Vec::new(),
    }
}

// ── Areas ──────────────────────────────────────────────────────────

#[test]
fn areas_are_split_as_asked() {
    let (top, rest) = split_top_row(area(80, 24));
    assert_eq!(top, Rect { x: 0, y: 0, width: 80, height: 1 });
    assert_eq!(rest, Rect { x: 0, y: 1, width: 80, height: 23 });
    let (rest, bottom) = split_bottom_row(area(80, 24));
    assert_eq!(rest.height, 23);
    assert_eq!(bottom.y, 23);
    let (_, middle, last) = split_top_and_bottom_row(area(80, 24));
    assert_eq!(middle, Rect { x: 0, y: 1, width: 80, height: 22 });
    assert_eq!(last, Rect { x: 0, y: 23, width: 80, height: 1 });
    let (left, right) = split_focus(area(100, 10));
    assert_eq!(left.width, 60);
    assert_eq!(right, Rect { x: 60, y: 0, width: 40, height: 10 });
    let rows = split_rows(area(10, 10), &vec![1, 2]);
    assert_eq!(rows[1], Rect { x: 0, y: 1, width: 10, height: 2 });
    assert_eq!(rows[2], Rect { x: 0, y: 3, width: 10, height: 7 });
    let columns = split_columns(area(90, 10), 3);
    assert_eq!(columns.iter().map(|c| c.width).sum::<u16>(), 90);
    for (i, column) in split_columns(area(91, 10), 4).iter().enumerate() {
        let exact = |steps: usize| steps as i64 * 91;
        assert!((column.x as i64 * 4 - exact(i)).abs() <= 4);
        assert!(((column.x + column.width) as i64 * 4 - exact(i + 1)).abs() <= 4);
    }
    assert_eq!(split_columns(area(80, 10), 1)[0].width, 40);
}

#[test]
fn stacked_rows_leave_the_rest_to_one() {
    let constraints = vec![
        Constraint::Length(1),
        Constraint::Min(3),
        Constraint::Length(1),
        Constraint::Length(1),
    ];
    let rows = stack_rows(area(20, 10), &constraints);
    assert_eq!(rows[1], Rect { x: 0, y: 1, width: 20, height: 7 });
    assert_eq!(rows[3], Rect { x: 0, y: 9, width: 20, height: 1 });
}

#[test]
fn things_stand_in_the_middle() {
    let middle = center_area(area(80, 24), 60, 14);
    assert_eq!((middle.width, middle.height), (60, 14));
    assert_eq!((middle.x, middle.y), (10, 5));
    assert_eq!(center_column(area(80, 24), 20), 30);
    assert_eq!(center_column(area(10, 24), 20), 0);
}

// ── Lists and rankings ─────────────────────────────────────────────

#[test]
fn lists_keep_the_selection_in_view() {
    assert_eq!(scroll_to_center(0, 100, 10), 0);
    assert_eq!(scroll_to_center(50, 100, 10), 45);
    assert_eq!(scroll_to_center(99, 100, 10), 90);
    assert_eq!(scroll_halfway(50, 100, 10), 45);
    assert_eq!(scroll_halfway(99, 100, 10), 90);
    assert_eq!(scroll_halfway(3, 5, 10), 0);
    assert_eq!(select_next(1, 2), 1);
    assert_eq!(select_prev(0), 0);
    assert_eq!(clamp_selection(9, 3), 2);
}

#[test]
fn fuzzy_matches_come_best_first() {
    let left = filter_names(&vec!["main", "feature", "maintenance"], "main");
    assert_eq!(left.len(), 2);
    assert!(left.iter().all(|m| m.0 != 1));
    assert!(left[0].1 >= left[1].1);
    assert_eq!(filter_names(&vec!["a", "b"], "").len(), 2);
    assert!(filter_names(&vec!["abc"], "zzz").is_empty());
    let either = filter_by_either(&vec!["x", "y"], &vec!["/one", "/two"], "two");
    assert_eq!(either.len(), 1);
    assert_eq!(either[0].0, 1);
    let ranked = rank(&vec![Some(1), None, Some(5), Some(1)]);
    assert_eq!(ranked, vec![(2, 5), (0, 1), (3, 1)]);
}

#[test]
fn keys_sort_by_group_then_name() {
    let key = |group: usize, name: &str| SortKey {
        group,
        name: Some(name.to_string()),
        id: name.to_string(),
    };
    let keys = vec![key(1, "b"), key(0, "z"), key(1, "a")];
    assert_eq!(sort_by_keys(&vec![0, 1, 2], &keys), vec![1, 2, 0]);
    assert_eq!(sort_by_keys(&vec![2, 0], &keys), vec![2, 0]);
}

// ── The overview ───────────────────────────────────────────────────

#[test]
fn panels_share_the_width() {
    assert_eq!(max_panels_for_width(0), 1);
    assert_eq!(max_panels_for_width(239), 3);
    assert_eq!(max_panels_for_width(240), 4);
    // A single panel gets half the width, and none gets less than it needs.
    assert_eq!(panel_width_for_count(200, 1), 100);
    assert_eq!(panel_width_for_count(300, 3), 100);
    assert_eq!(panel_width_for_count(100, 4), 60);
}

#[test]
fn overview_follows_the_list_of_agents() {
    let mut state = OverviewState::new();
    let first = state.sync_agent_set(&vec![agent("a1", Some("/src/x")), agent("b2", None)]);
    assert_eq!(first.opened, vec!["a1", "b2"]);
    assert!(first.closed.is_empty());
    let second = state.sync_agent_set(&vec![agent("b2", None)]);
    assert_eq!(second.closed, vec!["a1"]);
    assert!(second.opened.is_empty());
    assert_eq!(state.panels.len(), 1);

    state.drain_output_events(vec![AgentOutputEvent::Exited { id: "b2".to_string(), exit_code: 0 }]);
    assert!(state.panels[0].exited);
}

#[test]
fn overview_output_reaches_its_panel_only() {
    let mut state = OverviewState::new();
    state.sync_agent_set(&vec![agent("a1", None), agent("b2", None)]);
    state.drain_output_events(vec![AgentOutputEvent::Output {
        id: "b2".to_string(),
        data: b"hi".to_vec(),
    }]);
    let first_cell = |i: usize| state.panels[i].vterm.screen.grid[0][0].ch;
    assert_eq!(first_cell(0), ' ');
    assert_eq!(first_cell(1), 'h');
}

#[test]
fn focus_moves_between_panels() {
    let mut state = OverviewState::new();
    state.sync_agent_set(&vec![agent("a1", Some("/src/x")), agent("b2", Some("/src/x"))]);
    state.compute_sorted_indices(&vec![repo("x")]);
    state.enter_terminal();
    assert_eq!(state.focus, OverviewFocus::Terminal(0));
    state.focus_next();
    assert_eq!(state.focus, OverviewFocus::Terminal(1));
    state.focus_prev();
    assert_eq!(state.focus, OverviewFocus::Terminal(0));
    let sent = state.send_input(vec![b'x']);
    assert!(matches!(sent, Some((0, PanelCommand::Input(data))) if data == b"x"));
    state.select_agent_by_id("b2");
    assert_eq!(state.focus, OverviewFocus::Terminal(1));
    state.exit_terminal();
    assert_eq!(state.focus, OverviewFocus::OptionsBar);
    assert!(state.send_input(vec![b'x']).is_none());
}

#[test]
fn cached_terminals_come_back_and_keep_reading() {
    let mut state = OverviewState::new();
    let mut cache = AgentTerminalCache::new();
    cache.panels.push(TerminalPanel::new(20, 5));
    state.store_agent_terminals("a1".to_string(), cache);
    state.drain_cached_terminal_events(vec![vec![vec![
        TerminalOutputEvent::Started { id: "t1".to_string() },
        TerminalOutputEvent::Output { id: "t1".to_string(), data: b"ok".to_vec() },
    ]]]);
    let back = state.take_agent_terminals("a1");
    assert_eq!(back.panels.len(), 1);
    assert_eq!(back.panels[0].id, "t1");
    assert_eq!(back.panels[0].vterm.screen.grid[0][1].ch, 'k');
    assert_eq!(state.take_agent_terminals("a1").panels.len(), 0);
}

#[test]
fn overview_shows_panels_or_says_there_are_none() {
    let theme = theme();
    let mut state = OverviewState::new();
    let face = overview_face(area(120, 30), &mut state, &Vec::new(), &Vec::new(), &theme);
    assert!(face.panels.is_empty());
    let empty = face.empty.as_ref().unwrap();
    assert_eq!(empty.text.content, "No agents running");
    assert_eq!(empty.text.style, Style::new().fg(theme.text_tertiary));
    assert_eq!(empty.flow, Flow::Centered);
    assert_eq!(empty.ground, Style::new().bg(theme.bg_base));
    state.sync_agents(&vec![agent("a1", Some("/src/x"))], area(120, 29));
    let face = overview_face(area(120, 30), &mut state, &Vec::new(), &vec![repo("x")], &theme);
    assert_eq!(face.panels.len(), 1);
    assert!(face.empty.is_none());
    assert_eq!(face.bar_area, area(120, 1));
    assert_eq!(display_name_of("/src/x"), "x");
}

#[test]
fn collapsed_repositories_hide_their_agents() {
    let theme = theme();
    let repos = vec![repo("x"), repo("y")];
    let mut state = OverviewState::new();
    let agents = vec![
        agent("a1", Some("/src/x")),
        agent("a2", Some("/src/y")),
        agent("a3", None),
    ];
    state.sync_agents(&agents, area(200, 29));
    let face = overview_face(area(200, 30), &mut state, &Vec::new(), &repos, &theme);
    assert_eq!(face.bar.agent_indicators.len(), 3);
    state.collapsed_repos = vec!["/src/x".to_string(), String::new()];
    let face = overview_face(area(200, 30), &mut state, &Vec::new(), &repos, &theme);
    let shown: Vec<usize> = face.bar.agent_indicators.iter().map(|(_, g)| *g).collect();
    assert_eq!(shown, vec![1]);
    assert_eq!(face.panels.len(), 1);
    let text: String = face.bar.spans.iter().map(|s| s.content.as_str()).collect();
    assert_eq!(text.trim_end(), " ● x  ● y  ● Other  │  main");
    // Where every agent is hidden, the separator stays: there are panels.
    state.collapsed_repos.push("/src/y".to_string());
    let face = overview_face(area(200, 30), &mut state, &Vec::new(), &repos, &theme);
    assert!(face.bar.agent_indicators.is_empty());
    assert_eq!(face.bar.repo_buttons.len(), 3);
    let text: String = face.bar.spans.iter().map(|s| s.content.as_str()).collect();
    assert_eq!(text.trim_end(), " ● x  ● y  ● Other  │");
    // Without panels there is none.
    let mut state = OverviewState::new();
    let face = overview_face(area(200, 30), &mut state, &Vec::new(), &repos, &theme);
    let text: String = face.bar.spans.iter().map(|s| s.content.as_str()).collect();
    assert_eq!(text.trim_end(), " ● x  ● y");
}

#[test]
fn focused_panels_say_how_to_focus_on_their_agent() {
    let theme = theme();
    let mut state = OverviewState::new();
    state.sync_agents(&vec![agent("a1", None), agent("a2", None)], area(120, 29));
    state.focus = OverviewFocus::Terminal(0);
    let face = overview_face(area(120, 30), &mut state, &Vec::new(), &Vec::new(), &theme);
    let panel = face.panels[0].2.as_ref().unwrap();
    let hint = panel.hint.as_ref().unwrap();
    assert_eq!(hint.spans[0].content, " Shift+↓ ");
    assert_eq!(hint.spans[0].style, Style::new().fg(theme.accent_bright));
    assert_eq!(hint.spans[1].content, "focus ");
    assert_eq!(hint.spans[1].style, Style::new().fg(theme.text_secondary));
    assert_eq!(panel.border, Style::new().fg(theme.accent_bright));
    assert_eq!(panel.ground, Style::new().bg(theme.bg_base));
    let other = face.panels[1].2.as_ref().unwrap();
    assert!(other.hint.is_none());
    assert_eq!(other.border, Style::new().fg(theme.text_tertiary));
}

#[test]
fn hints_say_how_many_panels_are_out_of_view() {
    let theme = theme();
    let agents = vec![agent("a1", None), agent("a2", None), agent("a3", None), agent("a4", None)];
    let mut state = OverviewState::new();
    state.sync_agents(&agents, area(120, 29));
    state.scroll_offset = 1;
    let face = overview_face(area(120, 30), &mut state, &Vec::new(), &Vec::new(), &theme);
    assert_eq!(face.panels.len(), 2);
    let look = Style::new().fg(theme.text_secondary).bg(theme.bg_overlay);
    let (place, text) = face.left_hint.as_ref().unwrap();
    assert_eq!(text.content, " ◀ 1 ");
    assert_eq!(text.style, look);
    // As many cells as the text has bytes.
    assert_eq!(*place, Rect { x: 0, y: 1, width: 7, height: 1 });
    let (place, text) = face.right_hint.as_ref().unwrap();
    assert_eq!(text.content, " 1 ▶ ");
    assert_eq!(text.style, look);
    assert_eq!(*place, Rect { x: 115, y: 1, width: 5, height: 1 });
}

// ── The focus mode ─────────────────────────────────────────────────

fn focused() -> FocusModeState {
    let mut state = FocusModeState::new();
    state.open_agent(
        "a1",
        "tool",
        80,
        24,
        "/w",
        Some("/src/x"),
        Some("dev"),
        false,
        AgentTerminalCache::new(),
    );
    state
}

#[test]
fn tabs_go_round_in_a_circle() {
    let tab = LeftPanelTab::Changes;
    assert_eq!(tab.next().next().next(), tab);
    assert_eq!(tab.next().prev(), tab);
    assert_eq!(LeftPanelTab::Terminal.next(), LeftPanelTab::Changes);
}

#[test]
fn opening_an_agent_asks_for_its_connections() {
    let mut state = FocusModeState::new();
    assert!(!state.is_active());
    let effects = state.open_agent(
        "a1",
        "tool",
        80,
        24,
        "/w",
        Some("/src/x"),
        Some("dev"),
        false,
        AgentTerminalCache::new(),
    );
    assert!(state.is_active());
    assert!(effects.iter().any(|e| matches!(e, FocusEffect::ConnectAgent { id, .. } if id == "a1")));
    assert!(effects.iter().any(|e| matches!(e, FocusEffect::StartDiff { working_dir } if working_dir == "/w")));
    assert!(matches!(state.send_input(vec![1]), Some(PanelCommand::Input(_))));
    let (effects, kept) = state.detach();
    assert!(!state.is_active());
    assert!(!effects.is_empty());
    assert_eq!(kept.map(|(id, _)| id).as_deref(), Some("a1"));
}

#[test]
fn terminals_are_added_switched_and_closed() {
    let mut state = focused();
    let before = state.terminal_panels.len();
    state.add_terminal();
    state.add_terminal();
    assert_eq!(state.terminal_panels.len(), before + 2);
    let current = state.current_terminal_idx;
    state.next_terminal();
    state.prev_terminal();
    assert_eq!(state.current_terminal_idx, current);
    let effect = state.close_current_terminal();
    assert!(matches!(effect, Some(FocusEffect::CloseTerminal(_))));
    assert_eq!(state.terminal_panels.len(), before + 1);
}

#[test]
fn completion_opens_and_is_accepted() {
    let mut state = focused();
    if state.terminal_panels.is_empty() {
        state.add_terminal();
    }
    let key = |code: KeyCode| KeyEvent::new(code, KeyModifiers::none());
    let none: Vec<String> = Vec::new();
    let entries = vec![DirEntry { name: "src".to_string(), is_dir: true }];
    for c in "ls s".chars() {
        state.handle_terminal_type_key(&key(KeyCode::Char(c)), None, &none, &entries);
    }
    assert_eq!(state.completion_directory(None).as_deref(), Some("/w"));
    let bytes = state.handle_terminal_type_key(&key(KeyCode::Tab), None, &none, &entries);
    // The only candidate is inserted at once, and a directory ends in a slash.
    assert_eq!(bytes.as_deref(), Some("rc/".as_bytes()));
}

#[test]
fn pull_request_chooses_what_to_compare_with() {
    let mut state = focused();
    state.drain_pr_events(Some(PrInfo { number: 7, base_branch: "main".to_string() }));
    assert!(state.pr_info.is_some());
    assert_eq!(state.focus_side, FocusSide::Right);
}

#[test]
fn tab_bar_and_labels_are_drawn() {
    let theme = theme();
    let bar = left_tab_bar(area(100, 1), LeftPanelTab::Compare, true, &None, false, &theme);
    assert_eq!(bar.tabs.len(), 3);
    let mut panels = vec![TerminalPanel::new(20, 5), TerminalPanel::new(20, 5)];
    panels[1].id = "t2".to_string();
    let strip = terminal_label_strip(area(80, 1), &panels, 0, true, &theme);
    // A terminal without an id yet cannot be clicked.
    assert_eq!(strip.labels, vec![(Rect { x: 5, y: 0, width: 3, height: 1 }, 1)]);
    let text: String = strip.spans.iter().map(|s| s.content.as_str()).collect();
    assert!(text.starts_with(" 1*   2 "));
    assert!(strip.new_button.is_some());
    // However many terminals there are, the button stays.
    let many: Vec<TerminalPanel> = (0..40).map(|_| TerminalPanel::new(80, 24)).collect();
    let strip = terminal_label_strip(area(20, 1), &many, 0, true, &theme);
    assert_eq!(strip.new_button, Some(Rect { x: 17, y: 0, width: 3, height: 1 }));
    assert_eq!(strip.spans.last().unwrap().content, " + ");
    let label = compare_label(&Some("main".to_string()), 40, &theme);
    assert!(text_of(&label).contains("Comparing: main"));
    assert_eq!(text_of(&label).chars().count(), 40);
}

#[test]
fn completion_popup_stays_in_its_area() {
    let theme = theme();
    let state = CompletionState {
        prefix: "a".to_string(),
        items: vec![CompletionItem { display: "alpha".to_string(), kind: CompletionKind::File }],
        selected: 0,
        scroll: 0,
    };
    let face = completion_popup(area(40, 10), 38, 9, &state, &theme).unwrap();
    assert!(face.rect.x + face.rect.width <= 40);
    assert!(face.rect.y + face.rect.height <= 10);
    assert_eq!(face.block, Style::new().fg(theme.text_tertiary).bg(theme.bg_surface));
    assert_eq!(face.ground, Style::new().bg(theme.bg_surface));
}

#[test]
fn terminal_tab_says_why_there_is_no_screen() {
    let theme = theme();
    let mut state = focused();
    while !state.terminal_panels.is_empty() {
        state.close_current_terminal();
    }
    let face = terminal_tab(area(60, 10), &state, None, &theme).unwrap();
    assert_eq!(face.bar_ground, Style::new().bg(theme.bg_surface));
    match &face.content {
        TerminalContent::Message(m) => {
            assert_eq!(m.text.content, "No terminals — press n (or click [+]) to start one");
            assert_eq!(m.text.style, Style::new().fg(theme.text_tertiary));
            assert_eq!(m.flow, Flow::Centered);
        }
        TerminalContent::Screen { .. } => panic!("expected a message"),
    }
    state.add_terminal();
    let face = terminal_tab(area(60, 10), &state, None, &theme).unwrap();
    match &face.content {
        TerminalContent::Screen { ground, .. } => {
            assert_eq!(*ground, Style::new().bg(theme.bg_base));
        }
        TerminalContent::Message(_) => panic!("expected a screen"),
    }
}

#[test]
fn searching_for_a_branch_has_its_own_grounds() {
    let theme = theme();
    let mut state = focused();
    match compare_tab(area(60, 10), &state, &Vec::new(), None, &theme) {
        CompareFace::Diff { diff: DiffFace::Message(m), .. } => {
            assert_eq!(m.text.content, "Press Enter to select a branch to compare");
            assert_eq!(m.text.style, Style::new().fg(theme.text_tertiary));
        }
        _ => panic!("expected a message"),
    }
    state.compare_picker.enter_search();
    match compare_tab(area(60, 10), &state, &Vec::new(), None, &theme) {
        CompareFace::Search { input_ground, gap, ground, .. } => {
            assert_eq!(input_ground, Style::new().bg(theme.bg_input));
            assert_eq!(ground, Style::new().bg(theme.bg_base));
            assert_eq!(gap, Rect { x: 0, y: 2, width: 60, height: 1 });
        }
        CompareFace::Diff { .. } => panic!("expected a search"),
    }
}

#[test]
fn focus_mode_says_what_is_missing() {
    let theme = theme();
    let state = FocusModeState::new();
    let face = focus_mode(area(100, 20), &state, &Vec::new(), &Vec::new(), None, &theme);
    match &face.left {
        LeftFace::NoRepo(m) => {
            assert_eq!(m.text.content, "Agent not running inside repository");
            assert_eq!(m.text.style, Style::new().fg(theme.text_tertiary));
            assert_eq!(m.ground, Style::new().bg(theme.bg_base));
        }
        _ => panic!("expected a message"),
    }
    assert!(face.right.is_none());
    assert_eq!(face.empty.unwrap().text.content, "No agents running");
    let state = focused();
    let face = focus_mode(area(100, 20), &state, &Vec::new(), &Vec::new(), None, &theme);
    assert!(face.right.is_some());
    assert!(face.empty.is_none());
    let face = focus_mode(area(100, 1), &state, &Vec::new(), &Vec::new(), None, &theme);
    assert!(matches!(face.left, LeftFace::Blank(s) if s == Style::new().bg(theme.bg_base)));
}

#[test]
fn branch_badges_tell_what_a_branch_is() {
    let branch = BranchInfo {
        name: "main".to_string(),
        is_head: true,
        is_remote: false,
        is_worktree: true,
        active_agent_count: 2,
    };
    let mut spans: Vec<Span> = Vec::new();
    push_branch_badges(&mut spans, &branch, &theme());
    let text: String = spans.iter().map(|s| s.content.as_str()).collect();
    assert_eq!(text, " HEAD [worktree] (2 agents)");
}

#[test]
fn picker_searches_branches() {
    let mut picker = BranchPicker::new();
    let branch = |name: &str| BranchInfo {
        name: name.to_string(),
        is_head: false,
        is_remote: false,
        is_worktree: false,
        active_agent_count: 0,
    };
    picker.update_branches(vec![branch("main"), branch("dev")], Some("dev"));
    picker.enter_search();
    picker.handle_paste("main");
    assert_eq!(picker.filtered_branches().len(), 1);
    assert!(picker.handle_key(KeyEvent::new(KeyCode::Enter, KeyModifiers::none())));
    assert_eq!(picker.selected_branch.as_deref(), Some("main"));
}

// ── Diffs ──────────────────────────────────────────────────────────

const DIFF: &str = "diff --git a/f.rs b/f.rs\n--- a/f.rs\n+++ b/f.rs\n@@ -1,2 +1,2 @@\n-old\n+new\n same";

#[test]
fn diff_pane_moves_and_selects() {
    let mut pane = DiffPane::new();
    pane.apply_event(DiffEvent::Updated(parse_unified_diff(DIFF)));
    for _ in 0..20 {
        pane.cursor_down(3);
    }
    let last = pane.cursor;
    assert!(last < parse_unified_diff(DIFF).lines.len());
    assert!(pane.scroll <= last && last < pane.scroll + 3);
    pane.cursor_up(3);
    assert_eq!(pane.cursor, last - 1);
    assert!(!pane.has_selection());
    pane.toggle_anchor();
    assert!(pane.has_selection());
    pane.toggle_anchor();
    assert!(!pane.has_selection());
    let text = build_selection_text(&parse_unified_diff(DIFF), 5, Some(4));
    assert!(text.contains("-old"));
    assert!(text.contains("+new"));
}

#[test]
fn diff_viewer_shows_rows_or_a_message() {
    let theme = theme();
    let mut pane = DiffPane::new();
    pane.apply_event(DiffEvent::Updated(parse_unified_diff("")));
    let face = diff_viewer(area(60, 10), &pane, &Vec::new(), "No changes", None, false, &theme);
    assert!(matches!(face, DiffFace::Message(m) if m.text.content == "No changes"
        && m.text.style == Style::new().fg(theme.text_tertiary)
        && m.flow == Flow::Centered));
    pane.apply_event(DiffEvent::Error("git failed".to_string()));
    let face = diff_viewer(area(60, 10), &pane, &Vec::new(), "No changes", None, false, &theme);
    assert!(matches!(face, DiffFace::Error(e) if e.text.content.contains("git failed")
        && e.text.style == Style::new().fg(theme.error)
        && e.flow == Flow::Wrapped
        && e.ground == Style::new().bg(theme.bg_base)));
    pane.apply_event(DiffEvent::Updated(parse_unified_diff(DIFF)));
    let face = diff_viewer(area(60, 10), &pane, &Vec::new(), "No changes", None, true, &theme);
    match face {
        DiffFace::Rows { lines, hint, .. } => {
            assert!(lines.iter().any(|l| text_of(l).contains("new")));
            let (place, text) = hint.unwrap();
            assert_eq!(place, Rect { x: 0, y: 9, width: 60, height: 1 });
            assert_eq!(text.content, " v select  Enter send  Esc cancel");
            assert_eq!(text.style, Style::new().fg(theme.text_tertiary).bg(theme.bg_surface));
        }
        _ => panic!("expected rows"),
    }
}

#[test]
fn git_output_becomes_an_event() {
    assert!(matches!(diff_event(Ok(DIFF.to_string())), DiffEvent::Updated(d) if d.file_names == vec!["f.rs"]));
    assert!(matches!(diff_event(Err("no".to_string())), DiffEvent::Error(e) if e == "no"));
    assert!(git_output(GitRun::Failed("missing".to_string())).is_err());
    assert!(git_output(GitRun::Refused("no repository".to_string())).is_err());
    assert!(git_output(GitRun::NotText("bytes".to_string())).is_err());
    assert_eq!(git_output(GitRun::Printed("out".to_string())).as_deref(), Ok("out"));
}

// ── Modals as they are shown ───────────────────────────────────────

#[test]
fn modals_stand_in_a_frame() {
    let theme = theme();
    let modal = EditPromptModal::new("t".into(), "dev".into(), "hello".into());
    let face = modal.render(area(100, 40), &theme);
    assert_eq!((face.area.width, face.area.height), (70, 24));
    assert_eq!(text_of(&face.title), " Edit prompt \u{2014} dev ");
    assert_eq!(face.parts.len(), 3);
    assert_eq!(text_of(&face.parts[1].lines[0]), "> hello ");
    assert_eq!(text_of(&face.parts[2].lines[0]), "5 chars");
    let empty = EditPromptModal::new("t".into(), "dev".into(), " ".into());
    let face = empty.render(area(100, 40), &theme);
    assert_eq!(text_of(&face.parts[2].lines[0]), "prompt cannot be empty");
    assert_ne!(Following::Last, Following::Still);
}

#[test]
fn directory_list_shows_the_selection() {
    let theme = theme();
    let mut modal = DetachedAgentModal::new(Some("/home/me"));
    let entry = |name: &str| DirEntry { name: name.to_string(), is_dir: true };
    modal.refresh_entries(vec![entry("b"), entry("a")]);
    let face = modal.render(area(100, 40), false, &theme);
    assert_eq!((face.area.width, face.area.height), (60, 24));
    assert_eq!(text_of(&face.parts[1].lines[0]), "/home/me/");
    assert_eq!(text_of(&face.parts[3].lines[0]), "  > a");
    assert_eq!(text_of(&face.parts[3].lines[1]), "    b");
    assert!(text_of(&face.parts[4].lines[0]).contains("Alt+P"));
}

#[test]
fn menus_are_as_wide_as_their_labels() {
    let theme = theme();
    let menu = ContextMenu::new("Pick", vec!["Open".to_string(), "Close it".to_string()]);
    let face = menu.render(area(80, 24), &theme);
    assert_eq!((face.area.width, face.area.height), (19, 5));
    assert_eq!(face.area.y, 9);
    assert_eq!(face.inner.width, 15);
    assert_eq!(text_of(&face.lines[0]), " 1 Open        ");
    assert_eq!(text_of(&face.lines[1]).chars().count(), 15);
}

#[test]
fn rows_are_padded_to_their_width() {
    let mut spans = vec![Span::of("ab", Style::new())];
    pad_to(&mut spans, 5, Style::new());
    let text: String = spans.iter().map(|s| s.content.as_str()).collect();
    assert_eq!(text, "ab   ");
    assert_eq!(theme().repo_color("red"), Color::Indexed(30));
    assert_eq!(theme().repo_color("none"), Color::Indexed(1));
    assert_eq!(theme().dim_color(Color::Indexed(30)), Color::Indexed(31));
}
