//! Focus mode: one agent, with the changes it made, a comparison of branches and shells.
//!
//! The state here is plain data. Connections and background tasks belong to the caller: what
//! has to be done with them is returned as effects, and what came from them is passed in.

use vstd::prelude::*;

use crate::branch_picker;
use crate::diff_pane;
use crate::editing;
use crate::keys;
use crate::lists;
use crate::overview;
use crate::ranking;
use crate::screen;
use crate::term_complete;
use crate::text;
use crate::branch_picker::{BranchPicker, BranchPickerMode};
use crate::connection::{AgentOutputEvent, PanelCommand, TerminalOutputEvent};
use crate::diff_pane::DiffPane;
use crate::gitdiff::DiffEvent;
use crate::keys::{key_event_to_bytes, KeyCode, KeyEvent};
use crate::overview::{AgentPanel, AgentTerminalCache, TerminalPanel};
use crate::protocol::{BranchInfo, RepoInfo};
use crate::screen::SCROLLBACK_CAPACITY;
use crate::term_complete::{
    compute_completions, directory_to_read, CompletionItem, CompletionKind, CompletionState,
    DirEntry, MAX_BUFFER_LEN, POPUP_VISIBLE_ROWS,
};
use crate::text::{chars_of, copy_of, joined, starts_with, string_of, text_eq};
use crate::virtual_terminal::VirtualTerminal;

verus! {

/// Which side of the focus view has keyboard focus.
#[derive(Clone, Copy, Debug, PartialEq, Eq, Structural)]
pub enum FocusSide {
    Left,
    Right,
}

/// Tabs available in the left panel.
#[derive(Clone, Copy, Debug, PartialEq, Eq, Structural)]
pub enum LeftPanelTab {
    Changes,
    Compare,
    Terminal,
}

impl LeftPanelTab {
    pub open spec fn following(self) -> LeftPanelTab {
        match self {
            LeftPanelTab::Changes => LeftPanelTab::Compare,
            LeftPanelTab::Compare => LeftPanelTab::Terminal,
            LeftPanelTab::Terminal => LeftPanelTab::Changes,
        }
    }

    pub open spec fn preceding(self) -> LeftPanelTab {
        match self {
            LeftPanelTab::Changes => LeftPanelTab::Terminal,
            LeftPanelTab::Compare => LeftPanelTab::Changes,
            LeftPanelTab::Terminal => LeftPanelTab::Compare,
        }
    }

    pub open spec fn name(self) -> Seq<char> {
        match self {
            LeftPanelTab::Changes => "Changes"@,
            LeftPanelTab::Compare => "Compare"@,
            LeftPanelTab::Terminal => "Terminal"@,
        }
    }

    pub fn next(self) -> (tab: Self)
        ensures
            tab == self.following(),
    {
        match self {
            LeftPanelTab::Changes => LeftPanelTab::Compare,
            LeftPanelTab::Compare => LeftPanelTab::Terminal,
            LeftPanelTab::Terminal => LeftPanelTab::Changes,
        }
    }

    pub fn prev(self) -> (tab: Self)
        ensures
            tab == self.preceding(),
    {
        match self {
            LeftPanelTab::Changes => LeftPanelTab::Terminal,
            LeftPanelTab::Compare => LeftPanelTab::Changes,
            LeftPanelTab::Terminal => LeftPanelTab::Compare,
        }
    }

    pub fn label(&self) -> (s: &'static str)
        ensures
            s@ == self.name(),
    {
        match self {
            LeftPanelTab::Changes => "Changes",
            LeftPanelTab::Compare => "Compare",
            LeftPanelTab::Terminal => "Terminal",
        }
    }
}

/// A pull request for the agent's branch.
#[derive(Clone, Debug)]
pub struct PrInfo {
    pub number: usize,
    pub base_branch: String,
}

/// What the caller has to do.
pub enum FocusEffect {
    /// Open a connection to the agent.
    ConnectAgent { id: String, cols: u16, rows: u16 },
    /// Detach from the agent and end its connection.
    CloseAgent,
    /// Start a shell for the terminal that was added at the end of the list.
    StartTerminal { working_dir: String, cols: u16, rows: u16, agent_id: Option<String> },
    /// Detach from the terminal that stood at this place before the call and end its
    /// connection.
    CloseTerminal(usize),
    /// Tell the terminal its size; `terminal_resized` confirms it.
    ResizeTerminal { idx: usize, cols: u16, rows: u16 },
    /// Refresh the changes from time to time.
    StartDiff { working_dir: String },
    StopDiff,
    /// Look once for a pull request.
    DetectPr { working_dir: String },
    StopPrDetection,
    /// Refresh the comparison of two branches from time to time.
    StartCompare { working_dir: String, base: String, branch: String },
    StopCompare,
}

#[verifier::ext_equal]
pub ghost enum EffectView {
    ConnectAgent { id: Seq<char>, cols: u16, rows: u16 },
    CloseAgent,
    StartTerminal {
        working_dir: Seq<char>,
        cols: u16,
        rows: u16,
        agent_id: Option<Seq<char>>,
    },
    CloseTerminal(int),
    ResizeTerminal { idx: int, cols: u16, rows: u16 },
    StartDiff { working_dir: Seq<char> },
    StopDiff,
    DetectPr { working_dir: Seq<char> },
    StopPrDetection,
    StartCompare { working_dir: Seq<char>, base: Seq<char>, branch: Seq<char> },
    StopCompare,
}

impl View for FocusEffect {
    type V = EffectView;

    open spec fn view(&self) -> EffectView {
        match *self {
            FocusEffect::ConnectAgent { id, cols, rows } => EffectView::ConnectAgent {
                id: id@,
                cols,
                rows,
            },
            FocusEffect::CloseAgent => EffectView::CloseAgent,
            FocusEffect::StartTerminal { working_dir, cols, rows, agent_id } =>
                EffectView::StartTerminal {
                working_dir: working_dir@,
                cols,
                rows,
                agent_id: overview::opt_view(agent_id),
            },
            FocusEffect::CloseTerminal(i) => EffectView::CloseTerminal(i as int),
            FocusEffect::ResizeTerminal { idx, cols, rows } => EffectView::ResizeTerminal {
                idx: idx as int,
                cols,
                rows,
            },
            FocusEffect::StartDiff { working_dir } => EffectView::StartDiff {
                working_dir: working_dir@,
            },
            FocusEffect::StopDiff => EffectView::StopDiff,
            FocusEffect::DetectPr { working_dir } => EffectView::DetectPr {
                working_dir: working_dir@,
            },
            FocusEffect::StopPrDetection => EffectView::StopPrDetection,
            FocusEffect::StartCompare { working_dir, base, branch } => EffectView::StartCompare {
                working_dir: working_dir@,
                base: base@,
                branch: branch@,
            },
            FocusEffect::StopCompare => EffectView::StopCompare,
        }
    }
}

pub open spec fn effects_view(effects: Seq<FocusEffect>) -> Seq<EffectView> {
    effects.map_values(|e: FocusEffect| e@)
}

/// The effect, where it is due.
pub open spec fn when(due: bool, effect: EffectView) -> Seq<EffectView> {
    if due {
        seq![effect]
    } else {
        Seq::empty()
    }
}

fn push_effect(effects: &mut Vec<FocusEffect>, effect: FocusEffect)
    ensures
        effects_view(final(effects)@) == effects_view(old(effects)@).push(effect@),
{
    let ghost before = effects_view(effects@);
    effects.push(effect);
    assert(effects_view(effects@) =~= before.push(effect@));
}

fn push_when(effects: &mut Vec<FocusEffect>, due: bool, effect: FocusEffect)
    ensures
        effects_view(final(effects)@) == effects_view(old(effects)@) + when(due, effect@),
{
    let ghost before = effects_view(effects@);
    if due {
        push_effect(effects, effect);
    }
    assert(effects_view(effects@) =~= before + when(due, effect@));
}

fn no_effects() -> (effects: Vec<FocusEffect>)
    ensures
        effects_view(effects@) == Seq::<EffectView>::empty(),
{
    let effects: Vec<FocusEffect> = Vec::new();
    assert(effects_view(effects@) =~= Seq::<EffectView>::empty());
    effects
}

/// The state of focus mode.
pub struct FocusModeState {
    pub panel: Option<AgentPanel>,
    pub panel_cols: u16,
    pub panel_rows: u16,
    // Left panel state
    pub focus_side: FocusSide,
    pub left_tab: LeftPanelTab,
    /// The uncommitted changes.
    pub changes: DiffPane,
    /// Whether the changes are being refreshed.
    pub diff_running: bool,
    pub working_dir: Option<String>,
    pub repo_path: Option<String>,
    pub branch_name: Option<String>,
    // Branch compare tab state
    pub compare_picker: BranchPicker,
    pub compare: DiffPane,
    /// Whether the comparison is being refreshed.
    pub compare_running: bool,
    // PR detection state
    pub pr_info: Option<PrInfo>,
    pub pr_running: bool,
    // Terminal tab state — multiple shells per agent
    pub terminal_panels: Vec<TerminalPanel>,
    pub current_terminal_idx: usize,
    /// Sub-mode within the Terminal tab. `false` = Navigate (keys are TUI
    /// commands), `true` = Type (keys forwarded to the active PTY). Default is
    /// Navigate so the user is never accidentally typing into a shell they
    /// didn't expect to be in.
    pub terminal_input_focused: bool,
    pub terminal_cols: u16,
    pub terminal_rows: u16,
    /// Transient one-line message displayed at the bottom of the terminal
    /// content area.
    pub terminal_status_message: Option<String>,
    /// Active tab-completion popup, if any. Tied to the active terminal — only
    /// one popup is open at a time across all terminals.
    pub completion: Option<CompletionState>,
}

#[verifier::ext_equal]
pub ghost struct PrView {
    pub number: usize,
    pub base_branch: Seq<char>,
}

pub open spec fn pr_view(pr: PrInfo) -> PrView {
    PrView { number: pr.number, base_branch: pr.base_branch@ }
}

#[verifier::ext_equal]
pub ghost struct PopupView {
    pub prefix: Seq<char>,
    pub items: Seq<term_complete::ItemView>,
    pub selected: int,
    pub scroll: int,
}

pub open spec fn popup_view(c: CompletionState) -> PopupView {
    PopupView {
        prefix: c.prefix@,
        items: term_complete::items_view(c.items@),
        selected: c.selected as int,
        scroll: c.scroll as int,
    }
}

#[verifier::ext_equal]
pub ghost struct FocusView {
    pub panel: Option<overview::PanelView>,
    pub panel_cols: u16,
    pub panel_rows: u16,
    pub focus_side: FocusSide,
    pub left_tab: LeftPanelTab,
    pub changes: diff_pane::PaneView,
    pub diff_running: bool,
    pub working_dir: Option<Seq<char>>,
    pub repo_path: Option<Seq<char>>,
    pub branch_name: Option<Seq<char>>,
    pub picker: branch_picker::PickerView,
    pub branches: Seq<BranchInfo>,
    pub compare: diff_pane::PaneView,
    pub compare_running: bool,
    pub pr_info: Option<PrView>,
    pub pr_running: bool,
    pub terminals: Seq<overview::TerminalView>,
    pub current: int,
    pub typing: bool,
    pub terminal_cols: u16,
    pub terminal_rows: u16,
    pub status: Option<Seq<char>>,
    pub popup: Option<PopupView>,
}

impl View for FocusModeState {
    type V = FocusView;

    open spec fn view(&self) -> FocusView {
        FocusView {
            panel: match self.panel {
                Some(p) => Some(p@),
                None => None,
            },
            panel_cols: self.panel_cols,
            panel_rows: self.panel_rows,
            focus_side: self.focus_side,
            left_tab: self.left_tab,
            changes: self.changes@,
            diff_running: self.diff_running,
            working_dir: overview::opt_view(self.working_dir),
            repo_path: overview::opt_view(self.repo_path),
            branch_name: overview::opt_view(self.branch_name),
            picker: self.compare_picker@,
            branches: self.compare_picker.branches@,
            compare: self.compare@,
            compare_running: self.compare_running,
            pr_info: match self.pr_info {
                Some(pr) => Some(pr_view(pr)),
                None => None,
            },
            pr_running: self.pr_running,
            terminals: overview::terminals_view(self.terminal_panels@),
            current: self.current_terminal_idx as int,
            typing: self.terminal_input_focused,
            terminal_cols: self.terminal_cols,
            terminal_rows: self.terminal_rows,
            status: overview::opt_view(self.terminal_status_message),
            popup: match self.completion {
                Some(c) => Some(popup_view(c)),
                None => None,
            },
        }
    }
}

/// The picker of a fresh session.
pub open spec fn fresh_picker() -> branch_picker::PickerView {
    branch_picker::PickerView {
        mode: BranchPickerMode::Selected,
        edit: crate::editing::Edit { text: Seq::empty(), at: 0 },
        selected_idx: 0,
        selected_branch: None,
        names: Seq::empty(),
    }
}

impl FocusView {
    pub open spec fn fresh() -> FocusView {
        FocusView {
            panel: None,
            panel_cols: 80,
            panel_rows: 24,
            focus_side: FocusSide::Right,
            left_tab: LeftPanelTab::Changes,
            changes: diff_pane::PaneView::empty(),
            diff_running: false,
            working_dir: None,
            repo_path: None,
            branch_name: None,
            picker: fresh_picker(),
            branches: Seq::empty(),
            compare: diff_pane::PaneView::empty(),
            compare_running: false,
            pr_info: None,
            pr_running: false,
            terminals: Seq::empty(),
            current: 0,
            typing: false,
            terminal_cols: 80,
            terminal_rows: 24,
            status: None,
            popup: None,
        }
    }

    /// The comparison given up: nothing is shown of it any more.
    pub open spec fn compare_stopped(self) -> FocusView {
        FocusView {
            compare: diff_pane::PaneView { diff: None, scroll: 0, error: None, ..self.compare },
            compare_running: false,
            ..self
        }
    }

    /// Everything but the terminals given up.
    pub open spec fn panel_closed(self) -> FocusView {
        FocusView {
            panel: None,
            changes: diff_pane::PaneView::empty(),
            diff_running: false,
            working_dir: None,
            repo_path: None,
            pr_info: None,
            pr_running: false,
            status: None,
            ..self.compare_stopped()
        }
    }

    pub open spec fn closing_panel(self) -> Seq<EffectView> {
        when(self.panel is Some, EffectView::CloseAgent) + when(
            self.diff_running,
            EffectView::StopDiff,
        ) + when(self.compare_running, EffectView::StopCompare) + when(
            self.pr_running,
            EffectView::StopPrDetection,
        )
    }

    pub open spec fn terminals_closed(self) -> FocusView {
        FocusView { terminals: Seq::empty(), current: 0, typing: false, popup: None, ..self }
    }

    pub open spec fn closing_terminals(self) -> Seq<EffectView> {
        Seq::new(self.terminals.len(), |i: int| EffectView::CloseTerminal(i))
    }

    /// A shell that has not reported in yet, as the current terminal.
    pub open spec fn terminal_added(self) -> FocusView {
        FocusView {
            terminals: self.terminals.push(
                overview::TerminalView {
                    id: Seq::empty(),
                    screen: screen::ScreenView::fresh(
                        self.terminal_cols as int,
                        self.terminal_rows as int,
                        SCROLLBACK_CAPACITY as int,
                    ),
                    input: Seq::empty(),
                    exited: false,
                    scroll_offset: 0,
                    typed: Seq::empty(),
                },
            ),
            current: self.terminals.len() as int,
            status: None,
            ..self
        }
    }

    pub open spec fn starting_terminal(
        self,
        working_dir: Seq<char>,
        agent_id: Option<Seq<char>>,
    ) -> EffectView {
        EffectView::StartTerminal {
            working_dir,
            cols: self.terminal_cols,
            rows: self.terminal_rows,
            agent_id,
        }
    }

    /// The session of an agent, before its terminals are there.
    pub open spec fn agent_opened(
        self,
        agent: overview::AgentView,
        cols: u16,
        rows: u16,
        working_dir: Seq<char>,
    ) -> FocusView {
        FocusView {
            panel: Some(overview::PanelView::opened(agent, cols as int, rows as int)),
            panel_cols: cols,
            panel_rows: rows,
            focus_side: FocusSide::Right,
            left_tab: LeftPanelTab::Changes,
            changes: diff_pane::PaneView::empty(),
            diff_running: agent.repo_path is Some,
            working_dir: Some(working_dir),
            repo_path: agent.repo_path,
            branch_name: agent.branch_name,
            picker: fresh_picker(),
            branches: Seq::empty(),
            compare: diff_pane::PaneView::empty(),
            pr_info: None,
            pr_running: agent.repo_path is Some && agent.branch_name is Some,
            ..self.panel_closed().terminals_closed()
        }
    }

    pub open spec fn opening_agent(
        self,
        agent: overview::AgentView,
        cols: u16,
        rows: u16,
        working_dir: Seq<char>,
    ) -> Seq<EffectView> {
        self.closing_panel() + self.closing_terminals() + seq![
            EffectView::ConnectAgent { id: agent.id, cols, rows },
        ] + when(agent.repo_path is Some, EffectView::StartDiff { working_dir }) + when(
            agent.repo_path is Some && agent.branch_name is Some,
            EffectView::DetectPr { working_dir },
        )
    }

    /// Whether a terminal has another size than it should.
    pub open spec fn misfits(self, t: overview::TerminalView) -> bool {
        t.screen.cols != self.terminal_cols || t.screen.rows != self.terminal_rows
    }

    /// The resizes that the first `n` terminals need.
    pub open spec fn refitting(self, n: nat) -> Seq<EffectView>
        decreases n,
    {
        if n == 0 {
            Seq::empty()
        } else {
            self.refitting((n - 1) as nat) + when(
                self.misfits(self.terminals[n - 1]),
                EffectView::ResizeTerminal {
                    idx: n - 1,
                    cols: self.terminal_cols,
                    rows: self.terminal_rows,
                },
            )
        }
    }

    /// The terminals of an earlier session taken over.
    pub open spec fn terminals_installed(self, terminals: Seq<overview::TerminalView>, current: int) -> FocusView {
        FocusView {
            terminals,
            current: overview::imin(current, if terminals.len() > 0 {
                terminals.len() - 1
            } else {
                0
            }),
            ..self
        }
    }

    pub open spec fn terminal_size_changed(self, cols: u16, rows: u16) -> FocusView {
        FocusView { terminal_cols: cols, terminal_rows: rows, ..self }
    }

    // ── Keys in the terminal ──

    pub open spec fn current_typed(self, typed: Seq<char>) -> FocusView {
        FocusView {
            terminals: self.terminals.update(
                self.current,
                overview::TerminalView { typed, ..self.terminals[self.current] },
            ),
            ..self
        }
    }

    /// The next shell is current, after the last one the first.
    pub open spec fn next_shell(self) -> FocusView {
        if self.terminals.len() <= 1 {
            self
        } else {
            FocusView {
                current: (self.current + 1) % (self.terminals.len() as int),
                popup: None,
                ..self
            }
        }
    }

    /// The shell before is current, before the first one the last.
    pub open spec fn previous_shell(self) -> FocusView {
        if self.terminals.len() <= 1 {
            self
        } else {
            FocusView {
                current: if self.current == 0 {
                    self.terminals.len() - 1
                } else {
                    self.current - 1
                },
                popup: None,
                ..self
            }
        }
    }

    /// The current shell is gone, and the one that takes its place is current, or else the last.
    pub open spec fn current_shell_closed(self) -> FocusView {
        let left = self.terminals.remove(self.current);
        FocusView {
            terminals: left,
            current: if left.len() == 0 {
                0
            } else {
                overview::imin(self.current, left.len() - 1)
            },
            popup: None,
            ..self
        }
    }

    pub open spec fn has_current(self) -> bool {
        self.current < self.terminals.len()
    }

    /// What is sent, where there is a terminal to send it to.
    pub open spec fn sent(self, bytes: Seq<u8>) -> Option<Seq<u8>> {
        if self.has_current() {
            Some(bytes)
        } else {
            None
        }
    }

    /// A candidate taken: the shell gets the rest of the word, and so does its mirror.
    pub open spec fn completed(self, prefix: Seq<char>, item: term_complete::ItemView) -> (
        FocusView,
        Option<Seq<u8>>,
    ) {
        if prefix.is_prefix_of(item.display) {
            let suffix = item.display.skip(prefix.len() as int);
            let end = completion_end(item.kind);
            let typed = self.terminals[self.current].typed;
            (
                if self.has_current() {
                    self.current_typed(term_complete::buffered(term_complete::buffered(typed, suffix), seq![end]))
                } else {
                    self
                },
                self.sent(vstd::utf8::encode_utf8(suffix).push(end as u8)),
            )
        } else {
            (self, None)
        }
    }

    pub open spec fn popup_closed(self) -> FocusView {
        FocusView { popup: None, ..self }
    }

    /// The popup's own reaction to a key; `None` where the key goes on to the shell.
    pub open spec fn popup_key(self, popup: PopupView, code: KeyCode) -> Option<
        (FocusView, Option<Seq<u8>>),
    > {
        match code {
            KeyCode::Up => Some((FocusView { popup: Some(popup.up()), ..self }, None)),
            KeyCode::Down => Some((FocusView { popup: Some(popup.down()), ..self }, None)),
            KeyCode::Tab | KeyCode::Enter => Some(
                if popup.selected < popup.items.len() {
                    self.popup_closed().completed(popup.prefix, popup.items[popup.selected])
                } else {
                    (self.popup_closed(), None)
                },
            ),
            KeyCode::Esc => Some((self.popup_closed(), None)),
            _ => None,
        }
    }

    /// What completing the word before the cursor does; `None` where there is nothing to offer.
    pub open spec fn completion_started(
        self,
        home: Option<Seq<char>>,
        commands: Seq<Seq<char>>,
        entries: Seq<DirEntry>,
    ) -> Option<(FocusView, Option<Seq<u8>>)> {
        let typed = self.terminals[self.current].typed;
        let items = term_complete::completions(typed, self.completion_dir(), home, commands, entries);
        if !self.has_current() || typed.len() == 0 || items.len() == 0 {
            None
        } else if items.len() == 1 {
            Some(self.completed(term_complete::last_word(typed), items[0]))
        } else {
            Some(
                (
                    FocusView {
                        popup: Some(
                            PopupView { prefix: term_complete::last_word(typed), items, selected: 0, scroll: 0 },
                        ),
                        ..self
                    },
                    None,
                ),
            )
        }
    }

    pub open spec fn completion_dir(self) -> Seq<char> {
        match self.working_dir {
            Some(dir) => dir,
            None => "."@,
        }
    }

    /// The mirror of what was typed, after a key.
    pub open spec fn mirrored(self, key: KeyEvent) -> FocusView {
        if !self.has_current() {
            self
        } else {
            self.current_typed(typed_after(self.terminals[self.current].typed, key))
        }
    }

    /// A key that goes to the shell.
    pub open spec fn forwarded(self, key: KeyEvent) -> (FocusView, Option<Seq<u8>>) {
        (
            self.mirrored(key),
            if key.code == KeyCode::Esc {
                self.sent(seq![0x1bu8])
            } else {
                match keys::key_bytes(key) {
                    Some(bytes) => self.sent(bytes),
                    None => None,
                }
            },
        )
    }

    /// A key typed into the terminal: the state after it, and what the shell gets.
    pub open spec fn after_type_key(
        self,
        key: KeyEvent,
        home: Option<Seq<char>>,
        commands: Seq<Seq<char>>,
        entries: Seq<DirEntry>,
    ) -> (FocusView, Option<Seq<u8>>) {
        let taken = match self.popup {
            Some(popup) => self.popup_key(popup, key.code),
            None => None,
        };
        match taken {
            Some(outcome) => outcome,
            None => {
                let rest = self.popup_closed();
                if is_plain_tab(key) {
                    match rest.completion_started(home, commands, entries) {
                        Some(outcome) => outcome,
                        None => rest.forwarded(key),
                    }
                } else {
                    rest.forwarded(key)
                }
            },
        }
    }

    // ── Comparing ──

    /// What comparing takes: a directory, the base and the agent's branch.
    pub open spec fn starting_compare(self) -> Seq<EffectView> {
        when(self.compare_running, EffectView::StopCompare) + (match (
            self.working_dir,
            self.branch_name,
            self.picker.selected_branch,
        ) {
            (Some(working_dir), Some(branch), Some(base)) => seq![
                EffectView::StartCompare { working_dir, base, branch },
            ],
            _ => Seq::empty(),
        })
    }

    pub open spec fn compare_started(self) -> FocusView {
        FocusView {
            compare_running: self.working_dir is Some && self.branch_name is Some
                && self.picker.selected_branch is Some,
            ..self.compare_stopped()
        }
    }

    /// A pull request found: its base is compared, and shown unless the user has moved on.
    pub open spec fn pr_found(self, pr: PrView) -> FocusView {
        FocusView {
            pr_info: Some(pr),
            picker: branch_picker::PickerView {
                selected_branch: Some(resolved(self.branches, pr.base_branch)),
                mode: BranchPickerMode::Selected,
                ..self.picker
            },
            left_tab: if self.left_tab == LeftPanelTab::Changes {
                LeftPanelTab::Compare
            } else {
                self.left_tab
            },
            ..self
        }
    }
}

impl PopupView {
    pub open spec fn up(self) -> PopupView {
        if self.selected == 0 {
            self
        } else {
            PopupView {
                selected: self.selected - 1,
                scroll: overview::imin(self.scroll, self.selected - 1),
                ..self
            }
        }
    }

    pub open spec fn down(self) -> PopupView {
        if self.selected + 1 >= self.items.len() {
            self
        } else {
            let selected = self.selected + 1;
            PopupView {
                selected,
                scroll: if selected >= self.scroll + POPUP_VISIBLE_ROWS {
                    selected + 1 - POPUP_VISIBLE_ROWS
                } else {
                    self.scroll
                },
                ..self
            }
        }
    }
}

/// What ends a completed word: a directory goes on, anything else is done.
pub open spec fn completion_end(kind: CompletionKind) -> char {
    match kind {
        CompletionKind::Directory => '/',
        _ => ' ',
    }
}

pub open spec fn is_plain_tab(key: KeyEvent) -> bool {
    key.code == KeyCode::Tab && !key.modifiers.control && !key.modifiers.alt
        && !key.modifiers.shift
}

/// The keys that drop the line of a shell when held with Control.
pub open spec fn drops_line(c: char) -> bool {
    c == 'c' || c == 'C' || c == 'u' || c == 'U' || c == 'g' || c == 'G'
}

/// What stands typed after a key: printable keys are appended, and command boundaries clear it.
pub open spec fn typed_after(typed: Seq<char>, key: KeyEvent) -> Seq<char> {
    if key.code == KeyCode::Enter {
        Seq::empty()
    } else if key.modifiers.control {
        match key.code {
            KeyCode::Char(c) => if drops_line(c) {
                Seq::empty()
            } else {
                typed
            },
            _ => typed,
        }
    } else {
        match key.code {
            KeyCode::Char(c) => term_complete::buffered(typed, seq![c]),
            KeyCode::Backspace => if typed.len() > 0 {
                typed.drop_last()
            } else {
                typed
            },
            _ => typed,
        }
    }
}

/// Whether a branch of this name is listed, among the local ones only where asked.
pub open spec fn has_branch(branches: Seq<BranchInfo>, name: Seq<char>, local_only: bool) -> bool {
    exists|i: int|
        0 <= i < branches.len() && (#[trigger] branches[i]).name@ == name && !(local_only
            && branches[i].is_remote)
}

/// The best available ref for a short branch name.
pub open spec fn resolved(branches: Seq<BranchInfo>, short: Seq<char>) -> Seq<char> {
    if !has_branch(branches, short, true) && has_branch(branches, "origin/"@ + short, false) {
        "origin/"@ + short
    } else {
        short
    }
}

/// The agent's panel after an event, if it is about it.
pub open spec fn panel_after(panel: Option<overview::PanelView>, event: AgentOutputEvent) -> Option<
    overview::PanelView,
> {
    match panel {
        Some(p) => if p.id == overview::event_id(event) {
            Some(p.after_event(event))
        } else {
            Some(p)
        },
        None => None,
    }
}

pub open spec fn panel_after_all(
    panel: Option<overview::PanelView>,
    events: Seq<AgentOutputEvent>,
) -> Option<overview::PanelView>
    decreases events.len(),
{
    if events.len() == 0 {
        panel
    } else {
        panel_after(panel_after_all(panel, events.drop_last()), events.last())
    }
}

pub open spec fn pane_after_all(pane: diff_pane::PaneView, events: Seq<DiffEvent>) -> diff_pane::PaneView
    decreases events.len(),
{
    if events.len() == 0 {
        pane
    } else {
        pane_after_all(pane, events.drop_last()).after_event(events.last())
    }
}

/// The branches of the first repository at a path: the local ones, then the others.
pub open spec fn branches_at(repos: Seq<RepoInfo>, path: Option<Seq<char>>) -> Seq<BranchInfo>
    decreases repos.len(),
{
    if repos.len() == 0 || path is None {
        Seq::empty()
    } else if Some(repos[0].path@) == path {
        repos[0].local_branches@ + repos[0].remote_branches@
    } else {
        branches_at(repos.skip(1), path)
    }
}

fn copy_branch(b: &BranchInfo) -> (c: BranchInfo)
    ensures
        c == *b,
{
    BranchInfo {
        name: b.name.clone(),
        is_head: b.is_head,
        is_remote: b.is_remote,
        is_worktree: b.is_worktree,
        active_agent_count: b.active_agent_count,
    }
}

fn append_branches(out: &mut Vec<BranchInfo>, branches: &Vec<BranchInfo>)
    ensures
        final(out)@ == old(out)@ + branches@,
{
    let ghost before = out@;
    let mut i: usize = 0;
    assert(before + branches@.take(0) =~= before);
    while i < branches.len()
        invariant
            i <= branches@.len(),
            out@ == before + branches@.take(i as int),
        decreases branches@.len() - i,
    {
        out.push(copy_branch(&branches[i]));
        i += 1;
        assert(out@ =~= before + branches@.take(i as int));
    }
    assert(branches@.take(i as int) =~= branches@);
}

fn owned(s: Option<&str>) -> (t: Option<String>)
    ensures
        overview::opt_view(t) == term_complete::opt_text(s),
{
    match s {
        Some(x) => Some(copy_of(x)),
        None => None,
    }
}

fn bytes_of(s: &str) -> (bytes: Vec<u8>)
    ensures
        bytes@ == vstd::utf8::encode_utf8(s@),
{
    let mut bytes: Vec<u8> = Vec::new();
    bytes.extend_from_slice(s.as_bytes());
    assert(bytes@ =~= vstd::utf8::encode_utf8(s@));
    bytes
}

// ── The session ────────────────────────────────────────────────────

impl FocusModeState {
    pub open spec fn wf(self) -> bool {
        &&& self.panel matches Some(p) ==> p.vterm.screen@.wf()
        &&& self.compare_picker.wf()
        &&& overview::all_terminals_wf(self.terminal_panels@)
        &&& self.current_terminal_idx == 0 || self.current_terminal_idx
            < self.terminal_panels@.len()
    }

    pub fn new() -> (state: Self)
        ensures
            state.wf(),
            state@ == FocusView::fresh(),
    {
        let state = FocusModeState {
            panel: None,
            panel_cols: 80,
            panel_rows: 24,
            focus_side: FocusSide::Right,
            left_tab: LeftPanelTab::Changes,
            changes: DiffPane::new(),
            diff_running: false,
            working_dir: None,
            repo_path: None,
            branch_name: None,
            compare_picker: BranchPicker::new(),
            compare: DiffPane::new(),
            compare_running: false,
            pr_info: None,
            pr_running: false,
            terminal_panels: Vec::new(),
            current_terminal_idx: 0,
            terminal_input_focused: false,
            terminal_cols: 80,
            terminal_rows: 24,
            terminal_status_message: None,
            completion: None,
        };
        assert(state@ =~= FocusView::fresh());
        state
    }

    /// Open an agent in focus mode, replacing any existing panel.
    ///
    /// `existing_terminals`, if non-empty, are cached `TerminalPanel`s from a
    /// previous focus-mode session for the same agent. When non-empty, the
    /// shell sessions and their scrollback are reused instead of spawning a
    /// new terminal.
    pub fn open_agent(
        &mut self,
        agent_id: &str,
        agent_binary: &str,
        cols: u16,
        rows: u16,
        working_dir: &str,
        repo_path: Option<&str>,
        branch_name: Option<&str>,
        is_worktree: bool,
        existing_terminals: AgentTerminalCache,
    ) -> (effects: Vec<FocusEffect>)
        requires
            old(self).wf(),
            existing_terminals.wf(),
        ensures
            final(self).wf(),
            ({
                let agent = overview::AgentView {
                    id: agent_id@,
                    agent_binary: agent_binary@,
                    started_at: Seq::empty(),
                    branch_name: term_complete::opt_text(branch_name),
                    repo_path: term_complete::opt_text(repo_path),
                    is_worktree,
                };
                let opened = old(self)@.agent_opened(agent, cols, rows, working_dir@);
                let first = old(self)@.opening_agent(agent, cols, rows, working_dir@);
                if existing_terminals.panels@.len() == 0 {
                    &&& final(self)@ == opened.terminal_added()
                    &&& effects_view(effects@) == first.push(
                        opened.starting_terminal(working_dir@, Some(agent_id@)),
                    )
                } else {
                    let installed = opened.terminals_installed(
                        overview::terminals_view(existing_terminals.panels@),
                        existing_terminals.current_idx as int,
                    );
                    &&& final(self)@ == installed
                    &&& effects_view(effects@) == first + installed.refitting(
                        installed.terminals.len(),
                    )
                }
            }),
    {
        let ghost start = self@;
        let ghost agent = overview::AgentView {
            id: agent_id@,
            agent_binary: agent_binary@,
            started_at: Seq::empty(),
            branch_name: term_complete::opt_text(branch_name),
            repo_path: term_complete::opt_text(repo_path),
            is_worktree,
        };
        let mut effects = self.close_panel();
        self.panel_cols = cols;
        self.panel_rows = rows;
        self.focus_side = FocusSide::Right;
        self.left_tab = LeftPanelTab::Changes;
        self.changes = DiffPane::new();
        self.working_dir = Some(copy_of(working_dir));
        self.repo_path = owned(repo_path);
        self.branch_name = owned(branch_name);
        self.compare_picker = BranchPicker::new();
        self.compare = DiffPane::new();
        self.pr_info = None;
        push_effect(&mut effects, FocusEffect::ConnectAgent { id: copy_of(agent_id), cols, rows });
        let panel = AgentPanel {
            id: copy_of(agent_id),
            agent_binary: copy_of(agent_binary),
            branch_name: owned(branch_name),
            repo_path: owned(repo_path),
            is_worktree,
            // Focus mode has a single panel and never sorts it, so the
            // creation timestamp is irrelevant here.
            started_at: String::new(),
            vterm: VirtualTerminal::new(cols as usize, rows as usize),
            exited: false,
            worktree_cleanup_shown: false,
            panel_scroll_offset: 0,
        };
        assert(panel@ =~= overview::PanelView::opened(agent, cols as int, rows as int));
        self.panel = Some(panel);
        // The changes are refreshed only inside a repository, and a pull request is looked for
        // only if there is a branch
        let in_repo = repo_path.is_some();
        let on_branch = in_repo && branch_name.is_some();
        self.diff_running = in_repo;
        self.pr_running = on_branch;
        push_when(
            &mut effects,
            in_repo,
            FocusEffect::StartDiff { working_dir: copy_of(working_dir) },
        );
        push_when(
            &mut effects,
            on_branch,
            FocusEffect::DetectPr { working_dir: copy_of(working_dir) },
        );
        let ghost opened = start.agent_opened(agent, cols, rows, working_dir@);
        proof {
            assert(self@ =~= opened);
            assert(effects_view(effects@) =~= start.opening_agent(agent, cols, rows, working_dir@));
        }
        // Start (or restore) terminal sessions. Each terminal is linked to
        // this agent so its shell is killed alongside the agent (prevents
        // orphaned dev servers, etc.).
        if existing_terminals.panels.len() == 0 {
            let effect = self.spawn_new_terminal(working_dir, Some(copy_of(agent_id)));
            push_effect(&mut effects, effect);
        } else {
            let mut more = self.install_existing_terminals(existing_terminals);
            let ghost first = effects_view(effects@);
            let ghost second = effects_view(more@);
            effects.append(&mut more);
            assert(effects_view(effects@) =~= first + second);
        }
        effects
    }

    /// Install previously-cached terminal panels. The shells are already running, so all that
    /// may be needed is a resize to the current dimensions.
    fn install_existing_terminals(&mut self, cache: AgentTerminalCache) -> (effects: Vec<
        FocusEffect,
    >)
        requires
            old(self).wf(),
            cache.wf(),
        ensures
            final(self).wf(),
            final(self)@ == old(self)@.terminals_installed(
                overview::terminals_view(cache.panels@),
                cache.current_idx as int,
            ),
            effects_view(effects@) == final(self)@.refitting(final(self)@.terminals.len()),
    {
        let last = cache.panels.len().saturating_sub(1);
        let AgentTerminalCache { panels, current_idx } = cache;
        self.terminal_panels = panels;
        self.current_terminal_idx = if current_idx < last {
            current_idx
        } else {
            last
        };
        let mut effects = no_effects();
        let mut i: usize = 0;
        while i < self.terminal_panels.len()
            invariant
                i <= self.terminal_panels@.len(),
                effects_view(effects@) == self@.refitting(i as nat),
            decreases self.terminal_panels@.len() - i,
        {
            let panel = &self.terminal_panels[i];
            assert(self@.terminals[i as int] == panel@);
            let misfit = panel.vterm.screen.cols() != self.terminal_cols as usize
                || panel.vterm.screen.rows() != self.terminal_rows as usize;
            push_when(
                &mut effects,
                misfit,
                FocusEffect::ResizeTerminal {
                    idx: i,
                    cols: self.terminal_cols,
                    rows: self.terminal_rows,
                },
            );
            i += 1;
        }
        assert(self@.terminals.len() == self.terminal_panels@.len());
        effects
    }

    /// Brings a terminal's own screen to the size that its shell has been told.
    pub fn terminal_resized(&mut self, idx: usize)
        requires
            old(self).wf(),
            idx < old(self)@.terminals.len(),
        ensures
            final(self).wf(),
            final(self)@ == (FocusView {
                terminals: old(self)@.terminals.update(
                    idx as int,
                    overview::TerminalView {
                        screen: old(self)@.terminals[idx as int].screen.resized_afresh(
                            old(self)@.terminal_cols as int,
                            old(self)@.terminal_rows as int,
                        ),
                        ..old(self)@.terminals[idx as int]
                    },
                ),
                ..old(self)@
            }),
    {
        let ghost before = self@;
        let (cols, rows) = (self.terminal_cols as usize, self.terminal_rows as usize);
        assert(before.terminals[idx as int] == self.terminal_panels@[idx as int]@);
        self.terminal_panels[idx].vterm.resize(cols, rows);
        proof {
            let new = overview::TerminalView {
                screen: before.terminals[idx as int].screen.resized_afresh(cols as int, rows as int),
                ..before.terminals[idx as int]
            };
            assert(self@.terminals[idx as int] =~= new);
            assert(self@.terminals =~= before.terminals.update(idx as int, new));
        }
    }

    /// Takes in the pending output of the agent, in order.
    pub fn drain_output_events(&mut self, events: Vec<AgentOutputEvent>)
        requires
            old(self).wf(),
        ensures
            final(self).wf(),
            final(self)@ == (FocusView {
                panel: panel_after_all(old(self)@.panel, events@),
                ..old(self)@
            }),
    {
        let ghost start = self@;
        let mut i: usize = 0;
        assert(events@.take(0) =~= Seq::<AgentOutputEvent>::empty());
        while i < events.len()
            invariant
                i <= events@.len(),
                self.wf(),
                self@ == (FocusView {
                    panel: panel_after_all(start.panel, events@.take(i as int)),
                    ..start
                }),
            decreases events@.len() - i,
        {
            let ghost before = self@;
            let event = &events[i];
            self.apply_output_event(event);
            i += 1;
            proof {
                assert(events@.take(i as int).drop_last() =~= events@.take(i - 1));
                assert(self@ =~= (FocusView {
                    panel: panel_after_all(start.panel, events@.take(i as int)),
                    ..start
                }));
            }
        }
        assert(events@.take(i as int) =~= events@);
    }

    fn apply_output_event(&mut self, event: &AgentOutputEvent)
        requires
            old(self).wf(),
        ensures
            final(self).wf(),
            final(self)@ == (FocusView {
                panel: panel_after(old(self)@.panel, *event),
                ..old(self)@
            }),
    {
        let ghost before = self@;
        let mut panel = self.panel.take();
        if let Some(p) = &mut panel {
            match event {
                AgentOutputEvent::Output { id, data } => {
                    if text_eq(p.id.as_str(), id.as_str()) {
                        p.vterm.process(data.as_slice());
                    }
                },
                AgentOutputEvent::Exited { id, .. } => {
                    if text_eq(p.id.as_str(), id.as_str()) {
                        p.exited = true;
                    }
                },
                AgentOutputEvent::ConnectionLost { id } => {
                    if text_eq(p.id.as_str(), id.as_str()) {
                        p.exited = true;
                    }
                },
            }
        }
        self.panel = panel;
        proof {
            if self.panel is Some {
                let p = self.panel->0;
                if before.panel->0.id == overview::event_id(*event) {
                    assert(p@ =~= before.panel->0.after_event(*event));
                } else {
                    assert(p@ =~= before.panel->0);
                }
            }
        }
    }

    /// Takes in the pending refreshes of the changes, in order.
    pub fn drain_diff_events(&mut self, events: Vec<DiffEvent>)
        requires
            old(self).wf(),
        ensures
            final(self).wf(),
            final(self)@ == (FocusView {
                changes: pane_after_all(old(self)@.changes, events@),
                ..old(self)@
            }),
    {
        drain_pane(&mut self.changes, events);
    }

    /// Takes in the pending refreshes of the comparison, in order.
    pub fn drain_compare_diff_events(&mut self, events: Vec<DiffEvent>)
        requires
            old(self).wf(),
        ensures
            final(self).wf(),
            final(self)@ == (FocusView {
                compare: pane_after_all(old(self)@.compare, events@),
                ..old(self)@
            }),
    {
        drain_pane(&mut self.compare, events);
    }

    /// The command that sends input bytes to the focused agent, if there is one.
    pub fn send_input(&self, data: Vec<u8>) -> (command: Option<PanelCommand>)
        ensures
            command == (if self@.panel is Some {
                Some(PanelCommand::Input(data))
            } else {
                None
            }),
    {
        if self.panel.is_some() {
            Some(PanelCommand::Input(data))
        } else {
            None
        }
    }

    /// Handle terminal resize. Returns the command for the agent, if the size has changed and
    /// there is one; `panel_resized` confirms it.
    pub fn handle_resize(&mut self, cols: u16, rows: u16) -> (command: Option<PanelCommand>)
        requires
            old(self).wf(),
        ensures
            final(self).wf(),
            final(self)@ == (FocusView { panel_cols: cols, panel_rows: rows, ..old(self)@ }),
            command == (if old(self)@.panel is Some && !(old(self)@.panel_cols == cols && old(
                self,
            )@.panel_rows == rows) {
                Some(PanelCommand::Resize { cols, rows })
            } else {
                None
            }),
    {
        if cols == self.panel_cols && rows == self.panel_rows {
            return None;
        }
        self.panel_cols = cols;
        self.panel_rows = rows;
        self.force_resize()
    }

    /// Brings the panel's own screen to the size that its agent has been told.
    pub fn panel_resized(&mut self)
        requires
            old(self).wf(),
        ensures
            final(self).wf(),
            final(self)@ == (FocusView {
                panel: match old(self)@.panel {
                    Some(p) => Some(
                        overview::PanelView {
                            screen: p.screen.resized_afresh(
                                old(self)@.panel_cols as int,
                                old(self)@.panel_rows as int,
                            ),
                            ..p
                        },
                    ),
                    None => None,
                },
                ..old(self)@
            }),
    {
        let ghost before = self@;
        let mut panel = self.panel.take();
        if let Some(p) = &mut panel {
            p.vterm.resize(self.panel_cols as usize, self.panel_rows as usize);
        }
        self.panel = panel;
        proof {
            if self.panel is Some {
                let p = self.panel->0;
                assert(p@ =~= (overview::PanelView {
                    screen: before.panel->0.screen.resized_afresh(
                        before.panel_cols as int,
                        before.panel_rows as int,
                    ),
                    ..before.panel->0
                }));
            }
        }
    }

    /// The command that tells the agent the current dimensions unconditionally.
    pub fn force_resize(&self) -> (command: Option<PanelCommand>)
        ensures
            command == (if self@.panel is Some {
                Some(PanelCommand::Resize { cols: self@.panel_cols, rows: self@.panel_rows })
            } else {
                None
            }),
    {
        if self.panel.is_some() {
            Some(PanelCommand::Resize { cols: self.panel_cols, rows: self.panel_rows })
        } else {
            None
        }
    }

    /// Shut down the current panel and clean up. Tears down the terminals too.
    pub fn shutdown(&mut self) -> (effects: Vec<FocusEffect>)
        requires
            old(self).wf(),
        ensures
            final(self).wf(),
            final(self)@ == old(self)@.panel_closed().terminals_closed(),
            effects_view(effects@) == old(self)@.closing_panel() + old(self)@.closing_terminals(),
    {
        self.close_panel()
    }

    /// Step out of focus mode while keeping the terminal panels alive.
    /// Returns the agent's id and its terminals, so the caller can stash the
    /// terminals for reuse next time focus mode opens for the same agent. The
    /// agent panel (a focus-mode-only second connection) and all auxiliary
    /// tasks are torn down as usual.
    pub fn detach(&mut self) -> (outcome: (Vec<FocusEffect>, Option<(String, AgentTerminalCache)>))
        requires
            old(self).wf(),
        ensures
            final(self).wf(),
            match old(self)@.panel {
                None => {
                    &&& final(self)@ == old(self)@
                    &&& outcome.0@.len() == 0
                    &&& outcome.1 is None
                },
                Some(p) => {
                    &&& final(self)@ == old(self)@.panel_closed().terminals_closed()
                    &&& effects_view(outcome.0@) == old(self)@.closing_panel()
                    &&& match outcome.1 {
                        Some((id, cache)) => {
                            &&& id@ == p.id
                            &&& cache.wf()
                            &&& cache.panels@.len() > 0
                            &&& cache.panels@ == old(self).terminal_panels@
                            &&& cache.current_idx == old(self).current_terminal_idx
                        },
                        None => old(self)@.terminals.len() == 0,
                    }
                },
            },
    {
        let agent_id = match &self.panel {
            Some(p) => p.id.clone(),
            None => return (Vec::new(), None),
        };
        let effects = self.close_panel_keep_terminal();
        let mut panels: Vec<TerminalPanel> = Vec::new();
        std::mem::swap(&mut panels, &mut self.terminal_panels);
        let current_idx = self.current_terminal_idx;
        self.current_terminal_idx = 0;
        self.terminal_input_focused = false;
        self.completion = None;
        assert(self@ =~= old(self)@.panel_closed().terminals_closed());
        assert(old(self)@.terminals.len() == panels@.len());
        if panels.len() == 0 {
            return (effects, None);
        }
        (effects, Some((agent_id, AgentTerminalCache { panels, current_idx })))
    }

    pub fn is_active(&self) -> (yes: bool)
        ensures
            yes == (self@.panel is Some),
    {
        self.panel.is_some()
    }

    fn close_panel(&mut self) -> (effects: Vec<FocusEffect>)
        requires
            old(self).wf(),
        ensures
            final(self).wf(),
            final(self)@ == old(self)@.panel_closed().terminals_closed(),
            effects_view(effects@) == old(self)@.closing_panel() + old(self)@.closing_terminals(),
    {
        let mut effects = self.close_panel_keep_terminal();
        // Stop all terminals
        let mut more = self.close_all_terminals();
        let ghost first = effects_view(effects@);
        let ghost second = effects_view(more@);
        effects.append(&mut more);
        assert(effects_view(effects@) =~= first + second);
        assert(second =~= old(self)@.closing_terminals());
        effects
    }

    /// Same as `close_panel` except the terminal panel is left untouched. Used
    /// by `detach` so the caller can take the terminal panel for caching.
    fn close_panel_keep_terminal(&mut self) -> (effects: Vec<FocusEffect>)
        requires
            old(self).wf(),
        ensures
            final(self).wf(),
            final(self)@ == old(self)@.panel_closed(),
            effects_view(effects@) == old(self)@.closing_panel(),
            final(self).terminal_panels == old(self).terminal_panels,
            final(self).current_terminal_idx == old(self).current_terminal_idx,
    {
        let ghost start = self@;
        let mut effects = no_effects();
        push_when(&mut effects, self.panel.is_some(), FocusEffect::CloseAgent);
        self.panel = None;
        push_when(&mut effects, self.diff_running, FocusEffect::StopDiff);
        self.diff_running = false;
        self.changes = DiffPane::new();
        self.working_dir = None;
        self.repo_path = None;
        push_when(&mut effects, self.compare_running, FocusEffect::StopCompare);
        self.stop_compare_diff();
        push_when(&mut effects, self.pr_running, FocusEffect::StopPrDetection);
        self.pr_running = false;
        self.pr_info = None;
        // Clear any transient terminal status banner.
        self.terminal_status_message = None;
        proof {
            assert(self@ =~= start.panel_closed());
            assert(effects_view(effects@) =~= start.closing_panel());
        }
        effects
    }

    /// Gives up the comparison; the caller stops its task.
    fn stop_compare_diff(&mut self)
        requires
            old(self).wf(),
        ensures
            final(self).wf(),
            final(self)@ == old(self)@.compare_stopped(),
            *final(self) == (FocusModeState {
                compare: final(self).compare,
                compare_running: false,
                ..*old(self)
            }),
    {
        self.compare_running = false;
        self.compare.diff = None;
        self.compare.scroll = 0;
        self.compare.error = None;
    }

    // Terminal session management — supports multiple terminals per agent

    /// Appends a new terminal to the list and makes it the active terminal. The new terminal
    /// inherits the agent's lifetime (hub kills it when the agent exits) by passing `agent_id`.
    fn spawn_new_terminal(&mut self, working_dir: &str, agent_id: Option<String>) -> (effect:
        FocusEffect)
        requires
            old(self).wf(),
        ensures
            final(self).wf(),
            final(self)@ == old(self)@.terminal_added(),
            effect@ == old(self)@.starting_terminal(working_dir@, overview::opt_view(agent_id)),
    {
        let ghost before = self@;
        let panel = TerminalPanel::new(self.terminal_cols, self.terminal_rows);
        self.terminal_panels.push(panel);
        self.current_terminal_idx = self.terminal_panels.len() - 1;
        // Clear any stale spawn-failure banner — the user just asked for a
        // fresh attempt.
        self.terminal_status_message = None;
        assert(self@.terminals =~= before.terminals.push(panel@));
        FocusEffect::StartTerminal {
            working_dir: copy_of(working_dir),
            cols: self.terminal_cols,
            rows: self.terminal_rows,
            agent_id,
        }
    }

    /// Add a new terminal session for the currently-open agent. No-op if no
    /// agent is open (call from focus mode only).
    pub fn add_terminal(&mut self) -> (effect: Option<FocusEffect>)
        requires
            old(self).wf(),
        ensures
            final(self).wf(),
            match old(self)@.working_dir {
                None => final(self)@ == old(self)@ && effect is None,
                Some(dir) => {
                    &&& final(self)@ == old(self)@.terminal_added()
                    &&& effect matches Some(e) && e@ == old(self)@.starting_terminal(
                        dir,
                        match old(self)@.panel {
                            Some(p) => Some(p.id),
                            None => None,
                        },
                    )
                },
            },
    {
        let working_dir = match &self.working_dir {
            Some(dir) => dir.clone(),
            None => return None,
        };
        let agent_id = match &self.panel {
            Some(p) => Some(p.id.clone()),
            None => None,
        };
        Some(self.spawn_new_terminal(working_dir.as_str(), agent_id))
    }

    /// Close the currently-active terminal. The active index is clamped to the new
    /// length.
    pub fn close_current_terminal(&mut self) -> (effect: Option<FocusEffect>)
        requires
            old(self).wf(),
        ensures
            final(self).wf(),
            if old(self)@.has_current() {
                &&& final(self)@ == old(self)@.current_shell_closed()
                &&& effect == Some(FocusEffect::CloseTerminal(old(self).current_terminal_idx))
            } else {
                final(self)@ == old(self)@ && effect is None
            },
    {
        let ghost before = self@;
        assert(before.terminals.len() == self.terminal_panels@.len());
        let closed = self.current_terminal_idx;
        if closed >= self.terminal_panels.len() {
            return None;
        }
        self.terminal_panels.remove(closed);
        self.completion = None;
        if self.terminal_panels.len() == 0 {
            self.current_terminal_idx = 0;
        } else if self.current_terminal_idx >= self.terminal_panels.len() {
            self.current_terminal_idx = self.terminal_panels.len() - 1;
        }
        assert(self@.terminals =~= before.terminals.remove(closed as int));
        Some(FocusEffect::CloseTerminal(closed))
    }

    /// Switch to the next terminal in the list (wraps around).
    pub fn next_terminal(&mut self)
        requires
            old(self).wf(),
        ensures
            final(self).wf(),
            final(self)@ == old(self)@.next_shell(),
    {
        let count = self.terminal_panels.len();
        assert(self@.terminals.len() == count);
        if count <= 1 {
            return ;
        }
        self.current_terminal_idx = (self.current_terminal_idx + 1) % count;
        self.completion = None;
    }

    /// Switch to the previous terminal in the list (wraps around).
    pub fn prev_terminal(&mut self)
        requires
            old(self).wf(),
        ensures
            final(self).wf(),
            final(self)@ == old(self)@.previous_shell(),
    {
        let count = self.terminal_panels.len();
        assert(self@.terminals.len() == count);
        if count <= 1 {
            return ;
        }
        self.current_terminal_idx = if self.current_terminal_idx == 0 {
            count - 1
        } else {
            self.current_terminal_idx - 1
        };
        self.completion = None;
    }

    /// Switch to the terminal at the given index, if valid.
    pub fn select_terminal(&mut self, idx: usize)
        requires
            old(self).wf(),
        ensures
            final(self).wf(),
            final(self)@ == (if idx < old(self)@.terminals.len() {
                FocusView { current: idx as int, popup: None, ..old(self)@ }
            } else {
                old(self)@
            }),
    {
        assert(self@.terminals.len() == self.terminal_panels@.len());
        if idx < self.terminal_panels.len() {
            self.current_terminal_idx = idx;
            self.completion = None;
        }
    }

    /// Borrow the active terminal panel, if any.
    pub fn current_terminal(&self) -> (panel: Option<&TerminalPanel>)
        ensures
            panel == (if self@.has_current() {
                Some(&self.terminal_panels@[self@.current])
            } else {
                None
            }),
    {
        assert(self@.terminals.len() == self.terminal_panels@.len());
        if self.current_terminal_idx < self.terminal_panels.len() {
            Some(&self.terminal_panels[self.current_terminal_idx])
        } else {
            None
        }
    }

    /// Mutably borrow the active terminal panel, if any.
    pub fn current_terminal_mut(&mut self) -> (panel: Option<&mut TerminalPanel>)
        ensures
            match panel {
                Some(p) => {
                    &&& old(self)@.has_current()
                    &&& *p == old(self).terminal_panels@[old(self)@.current]
                    &&& final(self).terminal_panels@ == old(self).terminal_panels@.update(
                        old(self)@.current,
                        *final(p),
                    )
                    &&& *final(self) == (FocusModeState {
                        terminal_panels: final(self).terminal_panels,
                        ..*old(self)
                    })
                },
                None => !old(self)@.has_current() && *final(self) == *old(self),
            },
    {
        assert(self@.terminals.len() == self.terminal_panels@.len());
        let idx = self.current_terminal_idx;
        if idx < self.terminal_panels.len() {
            Some(&mut self.terminal_panels[idx])
        } else {
            None
        }
    }

    /// Tear down every terminal in the list. Used when the focus-mode panel
    /// is fully closed (not on detach — detach hands ownership out instead).
    fn close_all_terminals(&mut self) -> (effects: Vec<FocusEffect>)
        requires
            old(self).wf(),
        ensures
            final(self).wf(),
            final(self)@ == old(self)@.terminals_closed(),
            effects_view(effects@) == old(self)@.closing_terminals(),
    {
        let ghost start = self@;
        let count = self.terminal_panels.len();
        let mut effects = no_effects();
        let mut i: usize = 0;
        assert(start.terminals.len() == count);
        assert(start.closing_terminals().take(0) =~= Seq::<EffectView>::empty());
        while i < count
            invariant
                i <= count,
                count == start.terminals.len(),
                effects_view(effects@) == start.closing_terminals().take(i as int),
            decreases count - i,
        {
            push_effect(&mut effects, FocusEffect::CloseTerminal(i));
            i += 1;
            assert(start.closing_terminals().take(i as int) =~= start.closing_terminals().take(
                i - 1,
            ).push(EffectView::CloseTerminal(i - 1)));
        }
        assert(start.closing_terminals().take(i as int) =~= start.closing_terminals());
        self.terminal_panels = Vec::new();
        self.current_terminal_idx = 0;
        self.terminal_input_focused = false;
        self.completion = None;
        assert(self@ =~= start.terminals_closed());
        effects
    }

    /// Takes in the pending output of every terminal, so that backgrounded shells keep
    /// accumulating scrollback; `pending` holds one list per terminal.
    ///
    /// The last failure to start among them is kept as a one-line notice.
    pub fn drain_terminal_events(&mut self, pending: Vec<Vec<TerminalOutputEvent>>)
        requires
            old(self).wf(),
            pending@.len() == old(self)@.terminals.len(),
        ensures
            final(self).wf(),
            final(self)@ == (FocusView {
                terminals: overview::drained(old(self)@.terminals, overview::batches_view(pending@)),
                status: match overview::last_some(overview::failures_of(overview::batches_view(pending@))) {
                    Some(message) => Some("Failed to spawn terminal: "@ + message),
                    None => old(self)@.status,
                },
                ..old(self)@
            }),
    {
        let mut panels: Vec<TerminalPanel> = Vec::new();
        std::mem::swap(&mut panels, &mut self.terminal_panels);
        let mut all = AgentTerminalCache { panels, current_idx: 0 };
        let failure = all.drain_events(pending);
        let AgentTerminalCache { panels: drained_panels, .. } = all;
        self.terminal_panels = drained_panels;
        assert(self.terminal_panels@.len() == overview::terminals_view(self.terminal_panels@).len());
        if let Some(message) = failure {
            self.terminal_status_message = Some(
                joined("Failed to spawn terminal: ", message.as_str()),
            );
        }
    }

    /// The command that sends input bytes to the active terminal, if there is one.
    pub fn send_terminal_input(&self, data: Vec<u8>) -> (command: Option<(usize, PanelCommand)>)
        ensures
            command == (if self@.has_current() {
                Some((self.current_terminal_idx, PanelCommand::Input(data)))
            } else {
                None
            }),
    {
        if self.current_terminal().is_some() {
            Some((self.current_terminal_idx, PanelCommand::Input(data)))
        } else {
            None
        }
    }
}

fn drain_pane(pane: &mut DiffPane, events: Vec<DiffEvent>)
    ensures
        final(pane)@ == pane_after_all(old(pane)@, events@),
{
    let ghost start = pane@;
    let ghost all = events@;
    let mut left = events;
    let mut queue: Vec<DiffEvent> = Vec::new();
    while left.len() > 0
        invariant
            left@.len() + queue@.len() == all.len(),
            left@ == all.take(left@.len() as int),
            forall|k: int|
                0 <= k < queue@.len() ==> #[trigger] queue@[k] == all[all.len() - 1 - k],
        decreases left@.len(),
    {
        let ghost n = left@.len() as int;
        if let Some(e) = left.pop() {
            assert(e == all[n - 1]);
            queue.push(e);
            assert(left@ =~= all.take(n - 1));
        }
    }
    assert(all.take(0) =~= Seq::<DiffEvent>::empty());
    while queue.len() > 0
        invariant
            queue@.len() <= all.len(),
            forall|k: int|
                0 <= k < queue@.len() ==> #[trigger] queue@[k] == all[all.len() - 1 - k],
            pane@ == pane_after_all(start, all.take(all.len() - queue@.len())),
        decreases queue@.len(),
    {
        let ghost done = all.len() - queue@.len();
        if let Some(event) = queue.pop() {
            assert(event == all[done]);
            assert(all.take(done + 1).drop_last() =~= all.take(done));
            pane.apply_event(event);
        }
    }
    assert(all.take(all.len() as int) =~= all);
}

// ── Typing into a terminal ─────────────────────────────────────────

impl FocusModeState {
    /// Single entry point for keystrokes that arrive while the Terminal tab is
    /// focused in Type sub-mode. Owns three concerns:
    ///   1. Driving the completion popup when one is open.
    ///   2. Intercepting plain Tab to start a new completion.
    ///   3. Tracking the local input buffer used by completion, then
    ///      forwarding the key to the PTY.
    ///
    /// Returns what the active terminal's shell gets. `commands` are the programs that can be
    /// run, and `entries` the listing of the directory that `completion_directory` names.
    pub fn handle_terminal_type_key(
        &mut self,
        key: &KeyEvent,
        home: Option<&str>,
        commands: &Vec<String>,
        entries: &Vec<DirEntry>,
    ) -> (bytes: Option<Vec<u8>>)
        requires
            old(self).wf(),
        ensures
            final(self).wf(),
            (final(self)@, bytes_view(bytes)) == old(self)@.after_type_key(
                *key,
                term_complete::opt_text(home),
                text::strings_view(commands@),
                entries@,
            ),
    {
        let ghost start = self@;
        // 1. Popup is open — give it first crack at the key.
        let open = self.completion.take();
        assert(self@ =~= start.popup_closed());
        if let Some(mut popup) = open {
            let ghost shown = popup_view(popup);
            match key.code {
                KeyCode::Up => {
                    popup.move_up();
                    assert(popup_view(popup) =~= shown.up());
                    self.completion = Some(popup);
                    return None;
                },
                KeyCode::Down => {
                    assert(shown.items.len() == popup.items@.len());
                    popup.move_down();
                    assert(popup_view(popup) =~= shown.down());
                    self.completion = Some(popup);
                    return None;
                },
                KeyCode::Tab | KeyCode::Enter => {
                    return self.accept_completion(popup);
                },
                KeyCode::Esc => {
                    return None;
                },
                // Any other key dismisses the popup and falls through to
                // normal handling — so the shell sees the keystroke and
                // the user can re-press Tab once they've typed more.
                _ => {},
            }
        }
        let ghost rest = self@;
        // 2. Plain Tab — try TUI-level completion. Modifier+Tab variants are
        //    forwarded as-is so existing shell bindings keep working.
        let plain_tab = key.code == KeyCode::Tab && !key.modifiers.control && !key.modifiers.alt
            && !key.modifiers.shift;
        if plain_tab {
            match self.try_start_completion(home, commands, entries) {
                Some(bytes) => return bytes,
                None => {},
            }
        }
        // 3. Track the buffer (best-effort) and forward bytes to the PTY.
        self.update_input_buffer(key);
        let active = self.current_terminal().is_some();
        assert(self@.has_current() == rest.has_current());
        if !active {
            return None;
        }
        if key.code == KeyCode::Esc {
            let bytes: Vec<u8> = vec![0x1b];
            assert(bytes@ =~= seq![0x1bu8]);
            Some(bytes)
        } else {
            key_event_to_bytes(key)
        }
    }

    /// Update the local input buffer in response to a keystroke. Reset on
    /// command boundaries (Enter, Ctrl+C, Ctrl+U, Ctrl+G); append on printable
    /// characters; pop on Backspace. Other keys (arrows, F-keys, Ctrl+letter
    /// other than the resets) are deliberately ignored — tracking them
    /// faithfully would require shadowing the shell's full line editor.
    fn update_input_buffer(&mut self, key: &KeyEvent)
        requires
            old(self).wf(),
        ensures
            final(self).wf(),
            final(self)@ == old(self)@.mirrored(*key),
    {
        let ghost before = self@;
        assert(before.terminals.len() == self.terminal_panels@.len());
        let idx = self.current_terminal_idx;
        if idx >= self.terminal_panels.len() {
            return ;
        }
        assert(before.terminals[idx as int] == self.terminal_panels@[idx as int]@);
        let buffer = &mut self.terminal_panels[idx].input_buffer;
        match key.code {
            KeyCode::Enter => buffer.clear(),
            KeyCode::Char(c) => {
                if key.modifiers.control {
                    if c == 'c' || c == 'C' || c == 'u' || c == 'U' || c == 'g' || c == 'G' {
                        buffer.clear();
                    }
                } else {
                    buffer.push_char(c);
                }
            },
            KeyCode::Backspace => {
                if !key.modifiers.control {
                    buffer.pop_char();
                }
            },
            _ => {},
        }
        proof {
            let typed = typed_after(before.terminals[idx as int].typed, *key);
            assert(self@.terminals[idx as int] =~= (overview::TerminalView {
                typed,
                ..before.terminals[idx as int]
            }));
            assert(self@ =~= before.current_typed(typed));
        }
    }

    /// The directory whose listing completing the current word would need.
    pub fn completion_directory(&self, home: Option<&str>) -> (dir: Option<String>)
        ensures
            match dir {
                Some(d) => {
                    let typed = self@.terminals[self@.current].typed;
                    &&& self@.has_current()
                    &&& term_complete::last_word(typed).len() > 0
                    &&& !term_complete::completes_command(typed)
                    &&& term_complete::path_query(
                        term_complete::last_word(typed),
                        self@.completion_dir(),
                        term_complete::opt_text(home),
                    ) matches Some(q) && q.dir == d@
                },
                None => {
                    let typed = self@.terminals[self@.current].typed;
                    ||| !self@.has_current()
                    ||| term_complete::last_word(typed).len() == 0
                    ||| term_complete::completes_command(typed)
                    ||| term_complete::path_query(term_complete::last_word(typed), self@.completion_dir(), term_complete::opt_text(home)) is None
                },
            },
    {
        let panel = match self.current_terminal() {
            Some(p) => p,
            None => return None,
        };
        assert(self@.terminals[self@.current] == panel@);
        let dir = match &self.working_dir {
            Some(d) => d.as_str(),
            None => ".",
        };
        directory_to_read(panel.input_buffer.as_str(), dir, home)
    }

    /// Compute completions for the active terminal's buffer. Returns what is sent to the shell
    /// when the keystroke was consumed (single-match inserted inline, or
    /// multi-match popup opened).
    fn try_start_completion(
        &mut self,
        home: Option<&str>,
        commands: &Vec<String>,
        entries: &Vec<DirEntry>,
    ) -> (outcome: Option<Option<Vec<u8>>>)
        requires
            old(self).wf(),
        ensures
            final(self).wf(),
            ({
                let started = old(self)@.completion_started(
                    term_complete::opt_text(home),
                    text::strings_view(commands@),
                    entries@,
                );
                match outcome {
                    Some(bytes) => started == Some((final(self)@, bytes_view(bytes))),
                    None => started is None && final(self)@ == old(self)@,
                }
            }),
    {
        let result = {
            let panel = match self.current_terminal() {
                Some(p) => p,
                None => return None,
            };
            assert(self@.terminals[self@.current] == panel@);
            if panel.input_buffer.is_empty() {
                return None;
            }
            let dir = match &self.working_dir {
                Some(d) => d.as_str(),
                None => ".",
            };
            match compute_completions(panel.input_buffer.as_str(), dir, home, commands, entries) {
                Some(r) => r,
                None => return None,
            }
        };
        assert(term_complete::items_view(result.items@).len() == result.items@.len());
        if result.items.len() == 1 {
            assert(term_complete::items_view(result.items@)[0] == result.items@[0]@);
            let bytes = self.insert_completion(result.prefix.as_str(), &result.items[0]);
            return Some(bytes);
        }
        let ghost before = self@;
        let popup = CompletionState {
            prefix: result.prefix,
            items: result.items,
            selected: 0,
            scroll: 0,
        };
        self.completion = Some(popup);
        assert(self@ =~= (FocusView { popup: Some(popup_view(popup)), ..before }));
        Some(None)
    }

    fn accept_completion(&mut self, state: CompletionState) -> (bytes: Option<Vec<u8>>)
        requires
            old(self).wf(),
        ensures
            final(self).wf(),
            (final(self)@, bytes_view(bytes)) == (if state.selected < state.items@.len() {
                old(self)@.completed(state.prefix@, term_complete::items_view(state.items@)[state.selected as int])
            } else {
                (old(self)@, None)
            }),
    {
        if state.selected < state.items.len() {
            assert(term_complete::items_view(state.items@)[state.selected as int]
                == state.items@[state.selected as int]@);
            self.insert_completion(state.prefix.as_str(), &state.items[state.selected])
        } else {
            None
        }
    }

    /// The bytes the shell needs to grow `prefix` into `item.display`
    /// (plus a trailing `/` for directories or space for files/commands). They are
    /// mirrored into the local input buffer so the next Tab can
    /// continue from the new state.
    fn insert_completion(&mut self, prefix: &str, item: &CompletionItem) -> (bytes: Option<Vec<u8>>)
        requires
            old(self).wf(),
        ensures
            final(self).wf(),
            (final(self)@, bytes_view(bytes)) == old(self)@.completed(prefix@, item@),
    {
        let ghost before = self@;
        let display = chars_of(item.display.as_str());
        if !starts_with(display.as_slice(), prefix) {
            return None;
        }
        let from = prefix.unicode_len();
        assert(prefix@.len() <= display@.len());
        let suffix = string_of(display.as_slice(), from, display.len());
        assert(suffix@ =~= item@.display.skip(prefix@.len() as int));
        let (trailing, byte): (char, u8) = match item.kind {
            CompletionKind::Directory => ('/', 0x2f),
            _ => (' ', 0x20),
        };
        let idx = self.current_terminal_idx;
        assert(before.terminals.len() == self.terminal_panels@.len());
        if idx >= self.terminal_panels.len() {
            return None;
        }
        assert(before.terminals[idx as int] == self.terminal_panels@[idx as int]@);
        let buffer = &mut self.terminal_panels[idx].input_buffer;
        buffer.push_str(suffix.as_str());
        buffer.push_char(trailing);
        proof {
            let typed = term_complete::buffered(
                term_complete::buffered(before.terminals[idx as int].typed, suffix@),
                seq![trailing],
            );
            assert(self@.terminals[idx as int] =~= (overview::TerminalView {
                typed,
                ..before.terminals[idx as int]
            }));
            assert(self@ =~= before.current_typed(typed));
        }
        let mut bytes = bytes_of(suffix.as_str());
        bytes.push(byte);
        Some(bytes)
    }

    /// Handle terminal panel resize. Every terminal is to be resized, so the user sees
    /// consistent geometry whichever terminal they switch to; `terminal_resized` confirms each.
    pub fn handle_terminal_resize(&mut self, cols: u16, rows: u16) -> (effects: Vec<FocusEffect>)
        requires
            old(self).wf(),
        ensures
            final(self).wf(),
            final(self)@ == old(self)@.terminal_size_changed(cols, rows),
            effects_view(effects@) == (if cols == old(self)@.terminal_cols && rows == old(
                self,
            )@.terminal_rows {
                Seq::empty()
            } else {
                Seq::new(
                    old(self)@.terminals.len(),
                    |i: int| EffectView::ResizeTerminal { idx: i, cols, rows },
                )
            }),
    {
        let mut effects = no_effects();
        if cols == self.terminal_cols && rows == self.terminal_rows {
            return effects;
        }
        self.terminal_cols = cols;
        self.terminal_rows = rows;
        let ghost all = Seq::new(
            self@.terminals.len(),
            |i: int| EffectView::ResizeTerminal { idx: i, cols, rows },
        );
        let count = self.terminal_panels.len();
        let mut i: usize = 0;
        assert(self@.terminals.len() == count);
        assert(all.take(0) =~= Seq::<EffectView>::empty());
        while i < count
            invariant
                i <= count,
                count == all.len(),
                all == Seq::new(
                    count as nat,
                    |i: int| EffectView::ResizeTerminal { idx: i, cols, rows },
                ),
                effects_view(effects@) == all.take(i as int),
            decreases count - i,
        {
            push_effect(&mut effects, FocusEffect::ResizeTerminal { idx: i, cols, rows });
            i += 1;
            assert(all.take(i as int) =~= all.take(i - 1).push(all[i - 1]));
        }
        assert(all.take(i as int) =~= all);
        effects
    }
}

pub open spec fn bytes_view(bytes: Option<Vec<u8>>) -> Option<Seq<u8>> {
    match bytes {
        Some(b) => Some(b@),
        None => None,
    }
}

// ── Comparing ──────────────────────────────────────────────────────

fn contains_branch(branches: &Vec<BranchInfo>, name: &str, local_only: bool) -> (found: bool)
    ensures
        found == has_branch(branches@, name@, local_only),
{
    let mut i: usize = 0;
    while i < branches.len()
        invariant
            i <= branches@.len(),
            forall|k: int|
                0 <= k < i ==> !((#[trigger] branches@[k]).name@ == name@ && !(local_only
                    && branches@[k].is_remote)),
        decreases branches@.len() - i,
    {
        if text_eq(branches[i].name.as_str(), name) && !(local_only && branches[i].is_remote) {
            assert(branches@[i as int].name@ == name@);
            return true;
        }
        i += 1;
    }
    false
}

impl FocusModeState {
    /// Start the branch compare diff for the selected branch.
    pub fn start_compare_diff(&mut self) -> (effects: Vec<FocusEffect>)
        requires
            old(self).wf(),
        ensures
            final(self).wf(),
            final(self)@ == old(self)@.compare_started(),
            effects_view(effects@) == old(self)@.starting_compare(),
    {
        let ghost start = self@;
        let mut effects = no_effects();
        push_when(&mut effects, self.compare_running, FocusEffect::StopCompare);
        self.stop_compare_diff();
        assert(effects_view(effects@) =~= when(start.compare_running, EffectView::StopCompare));
        let due = self.working_dir.is_some() && self.branch_name.is_some()
            && self.compare_picker.selected_branch.is_some();
        if let Some(working_dir) = &self.working_dir {
            if let Some(branch) = &self.branch_name {
                if let Some(base) = &self.compare_picker.selected_branch {
                    push_effect(
                        &mut effects,
                        FocusEffect::StartCompare {
                            working_dir: working_dir.clone(),
                            base: base.clone(),
                            branch: branch.clone(),
                        },
                    );
                }
            }
        }
        self.compare_running = due;
        proof {
            assert(self@ =~= start.compare_started());
            assert(effects_view(effects@) =~= start.starting_compare());
        }
        effects
    }

    /// Takes in the result of looking for a pull request, and compares with its base if there
    /// is one.
    pub fn drain_pr_events(&mut self, result: Option<PrInfo>) -> (effects: Vec<FocusEffect>)
        requires
            old(self).wf(),
        ensures
            final(self).wf(),
            match result {
                None => final(self)@ == old(self)@ && effects@.len() == 0,
                Some(pr) => {
                    let found = old(self)@.pr_found(pr_view(pr));
                    &&& final(self)@ == found.compare_started()
                    &&& effects_view(effects@) == found.starting_compare()
                },
            },
    {
        let ghost start = self@;
        match result {
            None => Vec::new(),
            Some(pr) => {
                // Resolve the base branch name for git diff
                let base = self.resolve_branch_for_compare(pr.base_branch.as_str());
                self.pr_info = Some(pr);
                // Auto-configure the compare picker
                self.compare_picker.selected_branch = Some(base);
                self.compare_picker.mode = BranchPickerMode::Selected;
                // Only auto-switch to Compare if user hasn't navigated away from the default tab
                if self.left_tab == LeftPanelTab::Changes {
                    self.left_tab = LeftPanelTab::Compare;
                }
                assert(self@ =~= start.pr_found(pr_view(pr)));
                self.start_compare_diff()
            },
        }
    }

    /// Resolve a short branch name (e.g. "main") to the best available git ref.
    fn resolve_branch_for_compare(&self, short_name: &str) -> (name: String)
        ensures
            name@ == resolved(self@.branches, short_name@),
    {
        // Check if the short name exists as a local branch
        if contains_branch(&self.compare_picker.branches, short_name, true) {
            return copy_of(short_name);
        }
        // Check for origin/<name> in the branch list
        let remote_name = joined("origin/", short_name);
        if contains_branch(&self.compare_picker.branches, remote_name.as_str(), false) {
            return remote_name;
        }
        // Fallback: let git resolve the ref
        copy_of(short_name)
    }

    /// Update the branch picker's branch list from the current repos data.
    pub fn update_compare_branches(&mut self, repos: &Vec<RepoInfo>)
        requires
            old(self).wf(),
        ensures
            final(self).wf(),
            ({
                let branches = branch_picker::other_branches(
                    branches_at(repos@, old(self)@.repo_path),
                    old(self)@.branch_name,
                );
                final(self)@ == (FocusView {
                    branches,
                    picker: branch_picker::PickerView {
                        names: branch_picker::branch_names(branches),
                        selected_idx: lists::clamped_to(
                            old(self)@.picker.selected_idx,
                            ranking::filtered(branch_picker::branch_names(branches), old(self)@.picker.edit.text).len() as int,
                        ),
                        ..old(self)@.picker
                    },
                    ..old(self)@
                })
            }),
    {
        let ghost start = self@;
        let mut branches: Vec<BranchInfo> = Vec::new();
        if let Some(path) = &self.repo_path {
            let mut i: usize = 0;
            let mut found = false;
            assert(repos@.skip(0) =~= repos@);
            while i < repos.len() && !found
                invariant
                    i <= repos@.len(),
                    overview::opt_view(self.repo_path) == Some(path@),
                    !found ==> branches@.len() == 0 && branches_at(repos@, Some(path@))
                        == branches_at(repos@.skip(i as int), Some(path@)),
                    found ==> branches@ == branches_at(repos@, Some(path@)),
                decreases repos@.len() - i,
            {
                if text_eq(repos[i].path.as_str(), path.as_str()) {
                    append_branches(&mut branches, &repos[i].local_branches);
                    append_branches(&mut branches, &repos[i].remote_branches);
                    assert(branches@ =~= branches_at(repos@.skip(i as int), Some(path@)));
                    found = true;
                }
                assert(repos@.skip(i as int).skip(1) =~= repos@.skip(i + 1));
                i += 1;
            }
        }
        assert(branches@ =~= branches_at(repos@, start.repo_path));
        let own = match &self.branch_name {
            Some(b) => Some(b.as_str()),
            None => None,
        };
        self.compare_picker.update_branches(branches, own);
    }

    // ── The changes ──

    /// Scroll diff view up by one line.
    pub fn diff_scroll_up(&mut self)
        requires
            old(self).wf(),
        ensures
            final(self).wf(),
            final(self)@ == (FocusView { changes: old(self)@.changes.scrolled_up(), ..old(self)@ }),
    {
        self.changes.scroll_up();
    }

    /// Scroll diff view down by one line.
    pub fn diff_scroll_down(&mut self)
        requires
            old(self).wf(),
        ensures
            final(self).wf(),
            final(self)@ == (FocusView {
                changes: old(self)@.changes.scrolled_down(),
                ..old(self)@
            }),
    {
        self.changes.scroll_down();
    }

    /// Move diff cursor up, auto-scrolling the viewport if needed.
    pub fn diff_cursor_up(&mut self, viewport_height: usize)
        requires
            old(self).wf(),
        ensures
            final(self).wf(),
            final(self)@ == (FocusView {
                changes: old(self)@.changes.cursor_up(viewport_height as int),
                ..old(self)@
            }),
    {
        self.changes.cursor_up(viewport_height);
    }

    /// Move diff cursor down, auto-scrolling the viewport if needed.
    pub fn diff_cursor_down(&mut self, viewport_height: usize)
        requires
            old(self).wf(),
        ensures
            final(self).wf(),
            final(self)@ == (FocusView {
                changes: old(self)@.changes.cursor_down(viewport_height as int),
                ..old(self)@
            }),
    {
        self.changes.cursor_down(viewport_height);
    }

    /// Toggle selection anchor at the current cursor position.
    pub fn diff_toggle_anchor(&mut self)
        requires
            old(self).wf(),
        ensures
            final(self).wf(),
            final(self)@ == (FocusView {
                changes: old(self)@.changes.anchor_toggled(),
                ..old(self)@
            }),
    {
        self.changes.toggle_anchor();
    }

    pub fn diff_cancel_selection(&mut self)
        requires
            old(self).wf(),
        ensures
            final(self).wf(),
            final(self)@ == (FocusView {
                changes: diff_pane::PaneView { sel_anchor: None, ..old(self)@.changes },
                ..old(self)@
            }),
    {
        self.changes.cancel_selection();
    }

    /// The command that sends the text of the current diff selection to the agent terminal.
    pub fn diff_send_selection(&self) -> (command: Option<PanelCommand>)
        ensures
            sends_text(command, self@.panel is Some, self@.changes.selected_text()),
    {
        self.send_text(self.changes.selection())
    }

    fn send_text(&self, text: Option<String>) -> (command: Option<PanelCommand>)
        requires
            text matches Some(t) ==> t@.len() > 0,
        ensures
            match text {
                Some(t) => sends_text(command, self@.panel is Some, t@),
                None => command is None,
            },
    {
        match text {
            Some(t) => self.send_input(bytes_of(t.as_str())),
            None => None,
        }
    }

    pub fn diff_has_selection(&self) -> (yes: bool)
        ensures
            yes == (self@.changes.sel_anchor is Some),
    {
        self.changes.has_selection()
    }

    // ── The comparison ──

    /// Scroll compare diff view up by one line.
    pub fn compare_scroll_up(&mut self)
        requires
            old(self).wf(),
        ensures
            final(self).wf(),
            final(self)@ == (FocusView { compare: old(self)@.compare.scrolled_up(), ..old(self)@ }),
    {
        self.compare.scroll_up();
    }

    /// Scroll compare diff view down by one line.
    pub fn compare_scroll_down(&mut self)
        requires
            old(self).wf(),
        ensures
            final(self).wf(),
            final(self)@ == (FocusView {
                compare: old(self)@.compare.scrolled_down(),
                ..old(self)@
            }),
    {
        self.compare.scroll_down();
    }

    /// Move compare cursor up, auto-scrolling the viewport if needed.
    pub fn compare_cursor_up(&mut self, viewport_height: usize)
        requires
            old(self).wf(),
        ensures
            final(self).wf(),
            final(self)@ == (FocusView {
                compare: old(self)@.compare.cursor_up(viewport_height as int),
                ..old(self)@
            }),
    {
        self.compare.cursor_up(viewport_height);
    }

    /// Move compare cursor down, auto-scrolling the viewport if needed.
    pub fn compare_cursor_down(&mut self, viewport_height: usize)
        requires
            old(self).wf(),
        ensures
            final(self).wf(),
            final(self)@ == (FocusView {
                compare: old(self)@.compare.cursor_down(viewport_height as int),
                ..old(self)@
            }),
    {
        self.compare.cursor_down(viewport_height);
    }

    pub fn compare_toggle_anchor(&mut self)
        requires
            old(self).wf(),
        ensures
            final(self).wf(),
            final(self)@ == (FocusView {
                compare: old(self)@.compare.anchor_toggled(),
                ..old(self)@
            }),
    {
        self.compare.toggle_anchor();
    }

    pub fn compare_cancel_selection(&mut self)
        requires
            old(self).wf(),
        ensures
            final(self).wf(),
            final(self)@ == (FocusView {
                compare: diff_pane::PaneView { sel_anchor: None, ..old(self)@.compare },
                ..old(self)@
            }),
    {
        self.compare.cancel_selection();
    }

    /// The command that sends the text of the selection in the comparison to the agent.
    pub fn compare_send_selection(&self) -> (command: Option<PanelCommand>)
        ensures
            sends_text(command, self@.panel is Some, self@.compare.selected_text()),
    {
        self.send_text(self.compare.selection())
    }

    pub fn compare_has_selection(&self) -> (yes: bool)
        ensures
            yes == (self@.compare.sel_anchor is Some),
    {
        self.compare.has_selection()
    }
}

/// Whether a command sends a text, where there is an agent and there is any.
pub open spec fn sends_text(command: Option<PanelCommand>, active: bool, text: Seq<char>) -> bool {
    match command {
        Some(PanelCommand::Input(data)) => active && text.len() > 0 && data@
            == vstd::utf8::encode_utf8(text),
        Some(_) => false,
        None => !active || text.len() == 0,
    }
}

// ── Laws ───────────────────────────────────────────────────────────

/// Going to the next tab and back leads to where one was, and the other way round.
pub proof fn tabs_go_round(tab: LeftPanelTab)
    ensures
        tab.following().preceding() == tab,
        tab.preceding().following() == tab,
        tab.following().following().following() == tab,
{
}

/// Stepping out and opening the same agent again with the terminals that were handed out finds
/// the same terminals, with the same one current.
pub proof fn detached_terminals_come_back(
    state: FocusView,
    agent: overview::AgentView,
    cols: u16,
    rows: u16,
    working_dir: Seq<char>,
)
    requires
        0 <= state.current < state.terminals.len(),
    ensures
        ({
            let reopened = state.panel_closed().terminals_closed().agent_opened(
                agent,
                cols,
                rows,
                working_dir,
            ).terminals_installed(state.terminals, state.current);
            reopened.terminals == state.terminals && reopened.current == state.current
        }),
{
}

/// The name that is compared is always the short one, or that of the remote it is listed under.
pub proof fn resolved_branch_is_listed_or_short(branches: Seq<BranchInfo>, short: Seq<char>)
    ensures
        resolved(branches, short) == short || has_branch(
            branches,
            resolved(branches, short),
            false,
        ),
{
}

/// While the popup is open, the keys that drive it never reach the shell as such.
pub proof fn popup_keeps_its_keys(
    state: FocusView,
    key: KeyEvent,
    home: Option<Seq<char>>,
    commands: Seq<Seq<char>>,
    entries: Seq<DirEntry>,
)
    requires
        state.popup is Some,
        key.code == KeyCode::Up || key.code == KeyCode::Down || key.code == KeyCode::Esc,
    ensures
        state.after_type_key(key, home, commands, entries).1 is None,
        state.after_type_key(key, home, commands, entries).0.terminals == state.terminals,
{
}

/// Taking a candidate makes the shell's line end in that candidate: what was typed before the
/// word, the candidate, and what ends it.
pub proof fn completion_completes_the_word(state: FocusView, before: Seq<char>, item: term_complete::ItemView, prefix: Seq<char>)
    requires
        0 <= state.current < state.terminals.len(),
        state.terminals[state.current].typed == before + prefix,
        prefix.is_prefix_of(item.display),
        editing::byte_len(before + item.display + seq![completion_end(item.kind)]) <= MAX_BUFFER_LEN,
    ensures
        state.completed(prefix, item).0.terminals[state.current].typed == before + item.display
            + seq![completion_end(item.kind)],
{
    let suffix = item.display.skip(prefix.len() as int);
    let end = seq![completion_end(item.kind)];
    let typed = before + prefix;
    assert(typed + suffix =~= before + item.display);
    crate::editing::lemma_encode_concat(typed, suffix);
    crate::editing::lemma_encode_concat(before + item.display, end);
    assert((typed + suffix) + end =~= before + item.display + end);
}

/// The tabs stand in the order in which they are shown: changes, comparison, shells.
pub proof fn tabs_stand_in_order(tab: LeftPanelTab)
    ensures
        tab == LeftPanelTab::Changes ==> tab.following() == LeftPanelTab::Compare
            && tab.preceding() == LeftPanelTab::Terminal,
        tab == LeftPanelTab::Compare ==> tab.following() == LeftPanelTab::Terminal
            && tab.preceding() == LeftPanelTab::Changes,
{
}

proof fn lemma_in_sum<A>(a: Seq<A>, b: Seq<A>, x: A)
    ensures
        (a + b).contains(x) <==> a.contains(x) || b.contains(x),
{
    if a.contains(x) {
        let i = a.index_of(x);
        assert((a + b)[i] == x);
    }
    if b.contains(x) {
        let i = b.index_of(x);
        assert((a + b)[a.len() + i] == x);
    }
}

proof fn lemma_in_when(due: bool, effect: EffectView, x: EffectView)
    ensures
        ({
            let effects = when(due, effect);
            effects.contains(x) <==> due && x == effect
        }),
{
    if due {
        assert(when(due, effect)[0] == effect);
    }
}

/// Leaving an agent closes its connection and stops just those tasks that are running.
pub proof fn running_tasks_are_stopped(state: FocusView, x: EffectView)
    ensures
        state.closing_panel().contains(x) <==> {
            ||| x == EffectView::CloseAgent && state.panel is Some
            ||| x == EffectView::StopDiff && state.diff_running
            ||| x == EffectView::StopCompare && state.compare_running
            ||| x == EffectView::StopPrDetection && state.pr_running
        },
        state.panel_closed().closing_panel().len() == 0,
        state.panel_closed().panel is None,
        state.panel_closed().working_dir is None,
        state.panel_closed().repo_path is None,
        state.panel_closed().pr_info is None,
        state.panel_closed().changes.diff is None,
        state.panel_closed().compare.diff is None,
        state.panel_closed().terminals == state.terminals,
        state.panel_closed().current == state.current,
{
    let a = when(state.panel is Some, EffectView::CloseAgent);
    let b = when(state.diff_running, EffectView::StopDiff);
    let c = when(state.compare_running, EffectView::StopCompare);
    let d = when(state.pr_running, EffectView::StopPrDetection);
    lemma_in_when(state.panel is Some, EffectView::CloseAgent, x);
    lemma_in_when(state.diff_running, EffectView::StopDiff, x);
    lemma_in_when(state.compare_running, EffectView::StopCompare, x);
    lemma_in_when(state.pr_running, EffectView::StopPrDetection, x);
    lemma_in_sum(a, b, x);
    lemma_in_sum(a + b, c, x);
    lemma_in_sum(a + b + c, d, x);
}

/// Every shell is closed by its place, and none is left.
pub proof fn every_shell_is_closed(state: FocusView, i: int)
    ensures
        state.closing_terminals().len() == state.terminals.len(),
        0 <= i < state.terminals.len() ==> state.closing_terminals()[i]
            == EffectView::CloseTerminal(i),
        state.terminals_closed().terminals.len() == 0,
        !state.terminals_closed().has_current(),
        !state.terminals_closed().typing,
        state.terminals_closed().popup is None,
        state.terminals_closed().panel == state.panel,
{
}

/// An agent that is opened is the one that is connected to, at the size of its panel, and its
/// changes and pull request are looked for where it works, if it works in a repository (and,
/// for the pull request, on a branch). All that was running for the agent before is stopped.
pub proof fn opened_agents_are_connected_to(
    state: FocusView,
    agent: overview::AgentView,
    cols: u16,
    rows: u16,
    working_dir: Seq<char>,
    x: EffectView,
)
    requires
        !(x is CloseTerminal),
    ensures
        state.opening_agent(agent, cols, rows, working_dir).contains(x) <==> {
            ||| x is ConnectAgent && x->ConnectAgent_id == agent.id && x->ConnectAgent_cols == cols
                && x->ConnectAgent_rows == rows
            ||| x is StartDiff && x->StartDiff_working_dir == working_dir && agent.repo_path is Some
            ||| x is DetectPr && x->DetectPr_working_dir == working_dir && agent.repo_path is Some
                && agent.branch_name is Some
            ||| state.closing_panel().contains(x)
        },
{
    let a = state.closing_panel();
    let b = state.closing_terminals();
    let c = seq![EffectView::ConnectAgent { id: agent.id, cols, rows }];
    let diff = EffectView::StartDiff { working_dir };
    let pr = EffectView::DetectPr { working_dir };
    let d = when(agent.repo_path is Some, diff);
    let on_branch = agent.repo_path is Some && agent.branch_name is Some;
    lemma_in_when(agent.repo_path is Some, diff, x);
    lemma_in_when(on_branch, pr, x);
    assert(c[0] == EffectView::ConnectAgent { id: agent.id, cols, rows });
    assert(c.contains(x) <==> x == c[0]);
    assert(!b.contains(x));
    lemma_in_sum(a, b, x);
    lemma_in_sum(a + b, c, x);
    lemma_in_sum(a + b + c, d, x);
    lemma_in_sum(a + b + c + d, when(on_branch, pr), x);
}

/// An agent's view starts out with its own panel, the changes tab, nothing compared and no
/// shells; the keyboard goes to the agent.
pub proof fn opened_agents_start_out_clean(
    state: FocusView,
    agent: overview::AgentView,
    cols: u16,
    rows: u16,
    working_dir: Seq<char>,
)
    ensures
        ({
            let opened = state.agent_opened(agent, cols, rows, working_dir);
            &&& opened.panel is Some
            &&& opened.panel->0.id == agent.id
            &&& cols > 0 ==> opened.panel->0.screen.cols == cols
            &&& rows > 0 ==> opened.panel->0.screen.rows == rows
            &&& opened.panel_cols == cols
            &&& opened.panel_rows == rows
            &&& opened.focus_side == FocusSide::Right
            &&& opened.left_tab == LeftPanelTab::Changes
            &&& opened.working_dir == Some(working_dir)
            &&& opened.repo_path == agent.repo_path
            &&& opened.branch_name == agent.branch_name
            &&& opened.diff_running <==> agent.repo_path is Some
            &&& opened.pr_running <==> agent.repo_path is Some && agent.branch_name is Some
            &&& !opened.compare_running
            &&& opened.changes.diff is None
            &&& opened.compare.diff is None
            &&& opened.picker.selected_branch is None
            &&& opened.pr_info is None
            &&& opened.terminals.len() == 0
            &&& opened.status is None
            &&& opened.terminal_cols == state.terminal_cols
            &&& opened.terminal_rows == state.terminal_rows
        }),
{
}

/// A new shell comes after the others, which stay as they are, becomes the current one, and is
/// started with the size it is shown at.
pub proof fn new_shells_come_last(
    state: FocusView,
    working_dir: Seq<char>,
    agent_id: Option<Seq<char>>,
    i: int,
)
    requires
        state.terminal_cols > 0,
        state.terminal_rows > 0,
    ensures
        ({
            let after = state.terminal_added();
            let start = state.starting_terminal(working_dir, agent_id);
            &&& after.terminals.len() == state.terminals.len() + 1
            &&& 0 <= i < state.terminals.len() ==> after.terminals[i] == state.terminals[i]
            &&& after.has_current()
            &&& after.current == state.terminals.len()
            &&& !after.misfits(after.terminals[after.current])
            &&& after.terminals[after.current].typed.len() == 0
            &&& !after.terminals[after.current].exited
            &&& after.status is None
            &&& start is StartTerminal
            &&& start->StartTerminal_working_dir == working_dir
            &&& start->StartTerminal_agent_id == agent_id
            &&& start->StartTerminal_cols == after.terminals[after.current].screen.cols
            &&& start->StartTerminal_rows == after.terminals[after.current].screen.rows
        }),
{
}

/// Of the first shells, just those are resized whose screen is not of the size they are shown
/// at, each by its place and to that size.
pub proof fn misfits_are_resized(state: FocusView, n: nat, x: EffectView)
    requires
        n <= state.terminals.len(),
    ensures
        state.refitting(n).contains(x) <==> {
            &&& x is ResizeTerminal
            &&& 0 <= x->ResizeTerminal_idx < n
            &&& x->ResizeTerminal_cols == state.terminal_cols
            &&& x->ResizeTerminal_rows == state.terminal_rows
            &&& ({
                let screen = state.terminals[x->ResizeTerminal_idx].screen;
                screen.cols != state.terminal_cols || screen.rows != state.terminal_rows
            })
        },
    decreases n,
{
    if n > 0 {
        let effect = EffectView::ResizeTerminal {
            idx: n - 1,
            cols: state.terminal_cols,
            rows: state.terminal_rows,
        };
        let due = state.misfits(state.terminals[n - 1]);
        misfits_are_resized(state, (n - 1) as nat, x);
        lemma_in_when(due, effect, x);
        lemma_in_sum(state.refitting((n - 1) as nat), when(due, effect), x);
    }
}

/// What is typed goes to the end of the line that is kept, and erasing takes it off again. A
/// line that is sent off or dropped is kept no longer.
pub proof fn typed_lines_are_followed(typed: Seq<char>, key: KeyEvent, erase: KeyEvent)
    requires
        erase.code == KeyCode::Backspace,
        !erase.modifiers.control,
    ensures
        key.code == KeyCode::Enter ==> typed_after(typed, key).len() == 0,
        ({
            let c = key.code->Char_0;
            let fits = editing::byte_len(typed) + editing::byte_len(seq![c]) <= MAX_BUFFER_LEN;
            key.code is Char && !key.modifiers.control && fits ==> {
                &&& typed_after(typed, key).len() == typed.len() + 1
                &&& typed_after(typed, key).last() == c
                &&& typed_after(typed_after(typed, key), erase) == typed
            }
        }),
        ({
            let c = key.code->Char_0;
            let drops = c == 'c' || c == 'C' || c == 'u' || c == 'U' || c == 'g' || c == 'G';
            key.code is Char && key.modifiers.control ==> typed_after(typed, key) == if drops {
                Seq::empty()
            } else {
                typed
            }
        }),
        typed.len() > 0 ==> typed_after(typed, erase).push(typed.last()) == typed,
        key.code == KeyCode::Up || key.code == KeyCode::Left || key.code == KeyCode::Right
            || key.code == KeyCode::Down ==> typed_after(typed, key) == typed,
{
    let c = key.code->Char_0;
    assert((typed + seq![c]).drop_last() =~= typed);
    if typed.len() > 0 {
        assert(typed.drop_last().push(typed.last()) =~= typed);
    }
}

/// With no candidates shown, a key that is no tab is sent to the current shell as a terminal
/// would send it, and no other shell is touched. Without a shell nothing is sent.
pub proof fn keys_go_to_the_current_shell(
    state: FocusView,
    key: KeyEvent,
    home: Option<Seq<char>>,
    commands: Seq<Seq<char>>,
    entries: Seq<DirEntry>,
    i: int,
)
    requires
        state.popup is None,
        key.code != KeyCode::Tab,
        state.current >= 0,
    ensures
        ({
            let (after, sent) = state.after_type_key(key, home, commands, entries);
            &&& state.current >= state.terminals.len() ==> sent is None && after == state
            &&& state.current < state.terminals.len() ==> {
                &&& key.code == KeyCode::Esc ==> sent == Some(seq![0x1bu8])
                &&& key.code != KeyCode::Esc ==> sent == keys::key_bytes(key)
                &&& after.terminals.len() == state.terminals.len()
                &&& after.current == state.current
                &&& 0 <= i < state.terminals.len() && i != state.current ==> after.terminals[i]
                    == state.terminals[i]
                &&& after.terminals[state.current].screen == state.terminals[state.current].screen
                &&& after.terminals[state.current].typed == typed_after(
                    state.terminals[state.current].typed,
                    key,
                )
            }
        }),
{
}

/// A single candidate is taken at once. Several are shown, with the first one selected and
/// nothing sent. Without any, the shell gets the tab.
pub proof fn tabs_ask_for_candidates(
    state: FocusView,
    key: KeyEvent,
    home: Option<Seq<char>>,
    commands: Seq<Seq<char>>,
    entries: Seq<DirEntry>,
)
    requires
        state.popup is None,
        key.code == KeyCode::Tab,
        !key.modifiers.control && !key.modifiers.alt && !key.modifiers.shift,
        0 <= state.current < state.terminals.len(),
        state.terminals[state.current].typed.len() > 0,
    ensures
        ({
            let (after, sent) = state.after_type_key(key, home, commands, entries);
            let typed = state.terminals[state.current].typed;
            let dir = if state.working_dir is Some {
                state.working_dir->0
            } else {
                "."@
            };
            let items = term_complete::completions(typed, dir, home, commands, entries);
            &&& items.len() == 0 ==> sent == keys::key_bytes(key) && after.popup is None
            &&& items.len() == 1 ==> after.popup is None && (after, sent) == state.completed(
                term_complete::last_word(typed),
                items[0],
            )
            &&& items.len() > 1 ==> {
                &&& sent is None
                &&& after.terminals == state.terminals
                &&& after.popup is Some
                &&& after.popup->0.items == items
                &&& after.popup->0.prefix == term_complete::last_word(typed)
                &&& after.popup->0.selected == 0
                &&& after.popup->0.scroll == 0
            }
        }),
{
}

/// The candidate that is taken is the selected one, and the candidates are shown no longer.
pub proof fn the_selected_candidate_is_taken(
    state: FocusView,
    key: KeyEvent,
    home: Option<Seq<char>>,
    commands: Seq<Seq<char>>,
    entries: Seq<DirEntry>,
)
    requires
        state.popup is Some,
        0 <= state.popup->0.selected < state.popup->0.items.len(),
        key.code == KeyCode::Tab || key.code == KeyCode::Enter,
    ensures
        ({
            let popup = state.popup->0;
            let (after, sent) = state.after_type_key(key, home, commands, entries);
            let item = popup.items[popup.selected];
            let closed = FocusView { popup: None, ..state };
            &&& after.popup is None
            &&& (after, sent) == closed.completed(popup.prefix, item)
        }),
{
}

/// What is sent for a candidate is what is missing of it, and what ends it: a slash after a
/// directory, a blank after anything else.
pub proof fn the_missing_part_is_sent(
    state: FocusView,
    prefix: Seq<char>,
    rest: Seq<char>,
    item: term_complete::ItemView,
)
    requires
        0 <= state.current < state.terminals.len(),
        item.display == prefix + rest,
    ensures
        state.completed(prefix, item).1 is Some,
        state.completed(prefix, item).1->0 == vstd::utf8::encode_utf8(rest).push(
            if item.kind == CompletionKind::Directory {
                0x2fu8
            } else {
                0x20u8
            },
        ),
{
    assert(item.display.skip(prefix.len() as int) =~= rest);
    assert(prefix =~= item.display.take(prefix.len() as int));
}

/// The selection among the candidates goes one up or one down, not past the ends, and stays
/// among those that are shown.
pub proof fn candidates_are_stepped_through(popup: PopupView)
    requires
        0 <= popup.selected < popup.items.len(),
        popup.scroll <= popup.selected < popup.scroll + POPUP_VISIBLE_ROWS,
    ensures
        popup.selected > 0 ==> popup.up().selected == popup.selected - 1,
        popup.selected == 0 ==> popup.up() == popup,
        popup.selected + 1 < popup.items.len() ==> popup.down().selected == popup.selected + 1,
        popup.selected + 1 == popup.items.len() ==> popup.down() == popup,
        popup.up().items == popup.items,
        popup.down().items == popup.items,
        popup.up().prefix == popup.prefix,
        popup.down().prefix == popup.prefix,
        popup.up().scroll <= popup.up().selected < popup.up().scroll + POPUP_VISIBLE_ROWS,
        popup.down().scroll <= popup.down().selected < popup.down().scroll + POPUP_VISIBLE_ROWS,
        popup.scroll <= popup.selected - 1 ==> popup.up().scroll == popup.scroll,
        popup.selected + 1 < popup.scroll + POPUP_VISIBLE_ROWS ==> popup.down().scroll
            == popup.scroll,
{
}

/// Comparing needs a directory, the agent's branch and a branch to compare it with, and is
/// asked for with just these. What was compared before is dropped.
pub proof fn comparisons_are_asked_for(state: FocusView)
    ensures
        ({
            let ready = state.working_dir is Some && state.branch_name is Some
                && state.picker.selected_branch is Some;
            let effects = state.starting_compare();
            &&& state.compare_started().compare_running <==> ready
            &&& state.compare_started().compare.diff is None
            &&& state.compare_started().picker == state.picker
            &&& effects.len() == (if state.compare_running {
                1int
            } else {
                0
            }) + (if ready {
                1int
            } else {
                0
            })
            &&& state.compare_running ==> effects[0] == EffectView::StopCompare
            &&& ready ==> {
                &&& effects.last() is StartCompare
                &&& effects.last()->StartCompare_working_dir == state.working_dir->0
                &&& effects.last()->StartCompare_branch == state.branch_name->0
                &&& effects.last()->StartCompare_base == state.picker.selected_branch->0
            }
        }),
{
}

/// A pull request that was found is kept, and what it goes into is what is compared with: the
/// local branch where there is one, and else the one of the remote where that is listed. The
/// changes tab gives way to the comparison, any other tab stays.
pub proof fn found_pull_requests_are_compared(state: FocusView, pr: PrView)
    ensures
        ({
            let after = state.pr_found(pr);
            let chosen = after.picker.selected_branch;
            let at_remote = "origin/"@ + pr.base_branch;
            &&& after.pr_info == Some(pr)
            &&& after.picker.mode == BranchPickerMode::Selected
            &&& has_branch(state.branches, pr.base_branch, true) ==> chosen == Some(pr.base_branch)
            &&& !has_branch(state.branches, pr.base_branch, true) && has_branch(
                state.branches,
                at_remote,
                false,
            ) ==> chosen == Some(at_remote)
            &&& !has_branch(state.branches, at_remote, false) ==> chosen == Some(pr.base_branch)
            &&& state.left_tab == LeftPanelTab::Changes ==> after.left_tab == LeftPanelTab::Compare
            &&& state.left_tab != LeftPanelTab::Changes ==> after.left_tab == state.left_tab
            &&& after.terminals == state.terminals
            &&& after.changes == state.changes
        }),
{
}

/// A branch is listed as local if it is in the list and is no remote one.
pub proof fn branches_are_looked_up(branches: Seq<BranchInfo>, i: int)
    requires
        0 <= i < branches.len(),
    ensures
        has_branch(branches, branches[i].name@, false),
        !branches[i].is_remote ==> has_branch(branches, branches[i].name@, true),
{
}

/// Output of another agent leaves the panel alone, and the panel's own reaches it, in order.
pub proof fn output_reaches_its_panel(
    panel: overview::PanelView,
    events: Seq<AgentOutputEvent>,
    event: AgentOutputEvent,
)
    ensures
        ({
            let before = panel_after_all(Some(panel), events);
            let after = panel_after_all(Some(panel), events.push(event));
            &&& before is Some
            &&& after is Some
            &&& before->0.id == overview::event_id(event) ==> after->0 == before->0.after_event(event)
            &&& before->0.id != overview::event_id(event) ==> after == before
        }),
        panel_after_all(None, events) is None,
    decreases events.len(),
{
    if events.len() > 0 {
        output_reaches_its_panel(panel, events.drop_last(), events.last());
        assert(events.drop_last().push(events.last()) =~= events);
    }
    assert(events.push(event).drop_last() =~= events);
}

/// The branches to compare with are those of the first repository at the path, local ones
/// before remote ones.
pub proof fn branches_come_from_the_repository(repos: Seq<RepoInfo>, i: int, path: Seq<char>)
    requires
        0 <= i < repos.len(),
        repos[i].path@ == path,
        forall|j: int| 0 <= j < i ==> (#[trigger] repos[j]).path@ != path,
    ensures
        branches_at(repos, Some(path)) == repos[i].local_branches@ + repos[i].remote_branches@,
        branches_at(repos, None).len() == 0,
    decreases i,
{
    if i > 0 {
        assert(repos[0].path@ != path);
        let rest = repos.skip(1);
        assert forall|j: int| 0 <= j < i - 1 implies (#[trigger] rest[j]).path@ != path by {
            assert(rest[j] == repos[j + 1]);
        }
        branches_come_from_the_repository(rest, i - 1, path);
    }
}

/// The shells are gone through in order and round, and back the other way; candidates for
/// another shell's line are not shown.
pub proof fn shells_are_gone_through_in_order(state: FocusView)
    requires
        0 <= state.current < state.terminals.len(),
        state.terminals.len() > 1,
    ensures
        ({
            let next = state.next_shell();
            let back = state.previous_shell();
            &&& state.current + 1 < state.terminals.len() ==> next.current == state.current + 1
            &&& state.current + 1 == state.terminals.len() ==> next.current == 0
            &&& next.previous_shell().current == state.current
            &&& back.next_shell().current == state.current
            &&& next.terminals == state.terminals
            &&& back.terminals == state.terminals
            &&& next.popup is None
            &&& back.popup is None
        }),
{
    let n = state.terminals.len() as int;
    let back = state.previous_shell();
    if state.current + 1 < n {
        vstd::arithmetic::div_mod::lemma_small_mod((state.current + 1) as nat, n as nat);
    } else {
        vstd::arithmetic::div_mod::lemma_mod_self_0(n);
    }
    if back.current + 1 < n {
        vstd::arithmetic::div_mod::lemma_small_mod((back.current + 1) as nat, n as nat);
    } else {
        vstd::arithmetic::div_mod::lemma_mod_self_0(n);
    }
}

/// Closing takes the current shell alone away; the others keep their order, and one of them is
/// current, the one that took its place where there is one.
pub proof fn closing_takes_the_current_shell(state: FocusView, i: int)
    requires
        0 <= state.current < state.terminals.len(),
        0 <= i < state.terminals.len(),
    ensures
        ({
            let after = state.current_shell_closed();
            &&& after.terminals.len() == state.terminals.len() - 1
            &&& i < state.current ==> after.terminals[i] == state.terminals[i]
            &&& i > state.current ==> after.terminals[i - 1] == state.terminals[i]
            &&& after.terminals.len() > 0 ==> after.has_current()
            &&& state.current < after.terminals.len() ==> after.current == state.current
            &&& after.popup is None
        }),
{
}

} // verus!
