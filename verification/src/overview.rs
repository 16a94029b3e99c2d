//! The overview: one panel per agent, side by side.
//!
//! The state here is plain data. What has to be sent to an agent's connection is returned as
//! commands, and what came from there is passed in as events.

use vstd::prelude::*;

use crate::screen;
use crate::sorting;
use crate::text;
use crate::connection::{AgentOutputEvent, PanelCommand, TerminalOutputEvent};
use crate::protocol::{AgentInfo, RepoInfo};
use crate::screen::SCROLLBACK_CAPACITY;
use crate::sorting::{sort_by_keys, SortKey};
use crate::term_complete::InputBuffer;
use crate::text::text_eq;
use crate::view::Rect;
use crate::virtual_terminal::VirtualTerminal;

verus! {

/// Minimum width in columns for a single agent panel.
pub const MIN_PANEL_WIDTH: u16 = 60;

pub open spec fn imin(a: int, b: int) -> int {
    if a <= b {
        a
    } else {
        b
    }
}

pub open spec fn imax(a: int, b: int) -> int {
    if a >= b {
        a
    } else {
        b
    }
}

/// How many panels fit side by side: at least one.
pub open spec fn panels_fitting(width: u16) -> int {
    imax(width as int / MIN_PANEL_WIDTH as int, 1)
}

/// Maximum number of panels that fit side-by-side at the minimum width.
pub fn max_panels_for_width(available_width: u16) -> (n: usize)
    ensures
        n == panels_fitting(available_width),
        1 <= n,
{
    let n = available_width / MIN_PANEL_WIDTH;
    if n > 1 {
        n as usize
    } else {
        1
    }
}

/// The width of each of `count` panels: an even share, of at least two.
pub open spec fn panel_width(width: u16, count: usize) -> int {
    imax(width as int / imax((count as u16) as int, 2), MIN_PANEL_WIDTH as int)
}

/// Width of each panel when `count` panels share the available width evenly.
/// A single panel still only gets half the screen, except that no panel is narrower than
/// `MIN_PANEL_WIDTH`.
pub fn panel_width_for_count(available_width: u16, count: usize) -> (w: u16)
    ensures
        w == panel_width(available_width, count),
{
    let n: u16 = #[verifier::truncate] (count as u16);
    let slots: u16 = if n > 2 {
        n
    } else {
        2
    };
    let w = available_width / slots;
    if w > MIN_PANEL_WIDTH {
        w
    } else {
        MIN_PANEL_WIDTH
    }
}

/// The panels that fit at the minimum width do fit at the width they are given.
pub proof fn fitting_panels_fit(width: u16, count: usize)
    requires
        MIN_PANEL_WIDTH <= width,
        1 <= count <= panels_fitting(width),
    ensures
        count * panel_width(width, count) <= width,
{
    let w = width as int;
    let c = count as int;
    let fit = w / 60;
    assert(c <= fit);
    assert(c <= 65535);
    assert((count as u16) as int == c);
    if c >= 2 {
        assert(60 * c <= w) by (nonlinear_arith)
            requires
                c <= w / 60,
        ;
        assert(w / c >= 60) by (nonlinear_arith)
            requires
                60 * c <= w,
                c >= 2,
        ;
        assert(c * (w / c) <= w) by (nonlinear_arith)
            requires
                c >= 2,
                w >= 0,
        ;
    }
}

/// Focus state within the overview tab.
#[derive(Clone, Copy, Debug, PartialEq, Eq, Structural)]
pub enum OverviewFocus {
    OptionsBar,
    /// Index into the panels.
    Terminal(usize),
}

// ── Terminal panels ────────────────────────────────────────────────

/// A terminal shell panel in focus mode.
pub struct TerminalPanel {
    pub id: String,
    pub vterm: VirtualTerminal,
    pub exited: bool,
    pub scroll_offset: usize,
    /// Local mirror of what the user has typed since the last command boundary,
    /// used to drive Tab completion. The shell still owns its own input state
    /// over the PTY; this is just a best-effort echo of recent keystrokes.
    pub input_buffer: InputBuffer,
}

#[verifier::ext_equal]
pub ghost struct TerminalView {
    pub id: Seq<char>,
    pub screen: screen::ScreenView,
    pub input: Seq<u8>,
    pub exited: bool,
    pub scroll_offset: int,
    pub typed: Seq<char>,
}

impl View for TerminalPanel {
    type V = TerminalView;

    open spec fn view(&self) -> TerminalView {
        TerminalView {
            id: self.id@,
            screen: self.vterm.screen@,
            input: self.vterm.input(),
            exited: self.exited,
            scroll_offset: self.scroll_offset as int,
            typed: self.input_buffer@,
        }
    }
}

pub open spec fn terminals_view(panels: Seq<TerminalPanel>) -> Seq<TerminalView> {
    panels.map_values(|p: TerminalPanel| p@)
}

impl TerminalView {
    /// Whether an event with this id is meant for the panel: its own, or any while it has none.
    pub open spec fn is_mine(self, id: Seq<char>) -> bool {
        self.id.len() == 0 || self.id == id
    }

    pub open spec fn named(self, id: Seq<char>) -> TerminalView {
        TerminalView {
            id: if self.id.len() == 0 {
                id
            } else {
                self.id
            },
            ..self
        }
    }

    pub open spec fn after_event(self, event: TerminalOutputEvent) -> TerminalView {
        match event {
            TerminalOutputEvent::Started { id } => self.named(id@),
            TerminalOutputEvent::Output { id, data } => if self.is_mine(id@) {
                TerminalView {
                    screen: self.screen.fed(self.input, data@),
                    input: self.input + data@,
                    ..self.named(id@)
                }
            } else {
                self
            },
            TerminalOutputEvent::Exited { id } => TerminalView {
                exited: self.exited || self.is_mine(id@),
                ..self
            },
            TerminalOutputEvent::ConnectionLost { id } => TerminalView {
                exited: self.exited || self.is_mine(id@),
                ..self
            },
            TerminalOutputEvent::SpawnFailed { .. } => TerminalView { exited: true, ..self },
        }
    }

    pub open spec fn after_events(self, events: Seq<TerminalOutputEvent>) -> TerminalView
        decreases events.len(),
    {
        if events.len() == 0 {
            self
        } else {
            self.after_events(events.drop_last()).after_event(events.last())
        }
    }
}

/// The last failure to start among events.
pub open spec fn last_failure(events: Seq<TerminalOutputEvent>) -> Option<Seq<char>>
    decreases events.len(),
{
    if events.len() == 0 {
        None
    } else {
        match failure_of(events.last()) {
            Some(message) => Some(message),
            None => last_failure(events.drop_last()),
        }
    }
}

/// The failure to start that an event reports.
pub open spec fn failure_of(event: TerminalOutputEvent) -> Option<Seq<char>> {
    match event {
        TerminalOutputEvent::SpawnFailed { message } => Some(message@),
        _ => None,
    }
}

pub open spec fn opt_view(s: Option<String>) -> Option<Seq<char>> {
    match s {
        Some(t) => Some(t@),
        None => None,
    }
}

impl TerminalPanel {
    pub open spec fn wf(self) -> bool {
        self.vterm.screen@.wf() && self.input_buffer.wf()
    }

    /// A panel whose shell has not reported in yet.
    pub fn new(cols: u16, rows: u16) -> (p: Self)
        ensures
            p.wf(),
            p@ == (TerminalView {
                id: Seq::empty(),
                screen: screen::ScreenView::fresh(cols as int, rows as int, SCROLLBACK_CAPACITY as int),
                input: Seq::empty(),
                exited: false,
                scroll_offset: 0,
                typed: Seq::empty(),
            }),
    {
        TerminalPanel {
            id: String::new(),
            vterm: VirtualTerminal::new(cols as usize, rows as usize),
            exited: false,
            scroll_offset: 0,
            input_buffer: InputBuffer::new(),
        }
    }

    /// Takes in one event. Returns the message of a failure to start.
    pub fn apply_event(&mut self, event: TerminalOutputEvent) -> (failure: Option<String>)
        requires
            old(self).wf(),
        ensures
            final(self).wf(),
            final(self)@ == old(self)@.after_event(event),
            opt_view(failure) == failure_of(event),
    {
        match event {
            TerminalOutputEvent::Started { id } => {
                if self.id.as_str().is_empty() {
                    self.id = id;
                }
                None
            },
            TerminalOutputEvent::Output { id, data } => {
                if self.id.as_str().is_empty() || text_eq(self.id.as_str(), id.as_str()) {
                    if self.id.as_str().is_empty() {
                        self.id = id;
                    }
                    self.vterm.process(data.as_slice());
                }
                None
            },
            TerminalOutputEvent::Exited { id } => {
                if self.id.as_str().is_empty() || text_eq(self.id.as_str(), id.as_str()) {
                    self.exited = true;
                }
                None
            },
            TerminalOutputEvent::ConnectionLost { id } => {
                if self.id.as_str().is_empty() || text_eq(self.id.as_str(), id.as_str()) {
                    self.exited = true;
                }
                None
            },
            TerminalOutputEvent::SpawnFailed { message } => {
                self.exited = true;
                Some(message)
            },
        }
    }

    /// Takes in the pending events, in order. Should be called every main-loop tick whether or
    /// not focus mode is currently displaying this panel.
    ///
    /// Returns the message of the last failure to start among them, so the caller can surface
    /// it on the status line.
    pub fn drain_events(&mut self, events: Vec<TerminalOutputEvent>) -> (failure: Option<String>)
        requires
            old(self).wf(),
        ensures
            final(self).wf(),
            final(self)@ == old(self)@.after_events(events@),
            opt_view(failure) == last_failure(events@),
    {
        let ghost start = self@;
        let ghost all = events@;
        let mut failure: Option<String> = None;
        let mut queue = reversed_events(events);
        assert(all.take(0) =~= Seq::<TerminalOutputEvent>::empty());
        while queue.len() > 0
            invariant
                self.wf(),
                queue@.len() <= all.len(),
                forall|k: int|
                    0 <= k < queue@.len() ==> #[trigger] queue@[k] == all[all.len() - 1 - k],
                self@ == start.after_events(all.take(all.len() - queue@.len())),
                opt_view(failure) == last_failure(all.take(all.len() - queue@.len())),
            decreases queue@.len(),
        {
            let ghost done = all.len() - queue@.len();
            if let Some(event) = queue.pop() {
                assert(event == all[done]);
                assert(all.take(done + 1).drop_last() =~= all.take(done));
                assert(all.take(done + 1).last() == event);
                let found = self.apply_event(event);
                if found.is_some() {
                    failure = found;
                }
            }
        }
        assert(all.take(all.len() as int) =~= all);
        failure
    }
}

/// Events, last first.
fn reversed_events(events: Vec<TerminalOutputEvent>) -> (queue: Vec<TerminalOutputEvent>)
    ensures
        queue@.len() == events@.len(),
        forall|k: int|
            0 <= k < queue@.len() ==> #[trigger] queue@[k] == events@[events@.len() - 1 - k],
{
    let ghost all = events@;
    let mut left = events;
    let mut queue: Vec<TerminalOutputEvent> = Vec::new();
    while left.len() > 0
        invariant
            left@.len() + queue@.len() == all.len(),
            left@ == all.take(left@.len() as int),
            forall|k: int|
                0 <= k < queue@.len() ==> #[trigger] queue@[k] == all[all.len() - 1 - k],
        decreases left@.len(),
    {
        let ghost n = left@.len() as int;
        if let Some(e) = left.pop() {
            assert(e == all[n - 1]);
            queue.push(e);
            assert(left@ =~= all.take(n - 1));
        }
    }
    queue
}

/// Cached focus-mode terminals for one agent. Stashed on `OverviewState` while
/// focus mode is closed so shell sessions and their scrollback survive across
/// re-entries. `current_idx` remembers which terminal was active.
pub struct AgentTerminalCache {
    pub panels: Vec<TerminalPanel>,
    pub current_idx: usize,
}

/// The last of several optional messages.
pub open spec fn last_some(messages: Seq<Option<Seq<char>>>) -> Option<Seq<char>>
    decreases messages.len(),
{
    if messages.len() == 0 {
        None
    } else if messages.last() is Some {
        messages.last()
    } else {
        last_some(messages.drop_last())
    }
}

pub open spec fn all_terminals_wf(panels: Seq<TerminalPanel>) -> bool {
    forall|i: int| 0 <= i < panels.len() ==> (#[trigger] panels[i]).wf()
}

/// The panels after each has taken in its own events.
pub open spec fn drained(panels: Seq<TerminalView>, pending: Seq<Seq<TerminalOutputEvent>>) -> Seq<
    TerminalView,
> {
    Seq::new(panels.len(), |i: int| panels[i].after_events(pending[i]))
}

pub open spec fn batches_view(pending: Seq<Vec<TerminalOutputEvent>>) -> Seq<
    Seq<TerminalOutputEvent>,
> {
    pending.map_values(|b: Vec<TerminalOutputEvent>| b@)
}

pub open spec fn failures_of(pending: Seq<Seq<TerminalOutputEvent>>) -> Seq<Option<Seq<char>>> {
    pending.map_values(|b: Seq<TerminalOutputEvent>| last_failure(b))
}

impl AgentTerminalCache {
    pub open spec fn wf(self) -> bool {
        all_terminals_wf(self.panels@)
    }

    pub fn new() -> (c: Self)
        ensures
            c.wf(),
            c.panels@.len() == 0,
            c.current_idx == 0,
    {
        AgentTerminalCache { panels: Vec::new(), current_idx: 0 }
    }

    /// Takes in the pending events of every cached panel so backgrounded shells keep
    /// accumulating scrollback while focus mode is closed or while the user is
    /// looking at a sibling terminal; `pending` holds one list per panel. Returns the most
    /// recent spawn-failure message, if any, so the UI can surface it.
    pub fn drain_events(&mut self, pending: Vec<Vec<TerminalOutputEvent>>) -> (failure: Option<
        String,
    >)
        requires
            old(self).wf(),
            pending@.len() == old(self).panels@.len(),
        ensures
            final(self).wf(),
            final(self).current_idx == old(self).current_idx,
            terminals_view(final(self).panels@) == drained(
                terminals_view(old(self).panels@),
                batches_view(pending@),
            ),
            opt_view(failure) == last_some(failures_of(batches_view(pending@))),
    {
        let ghost before = terminals_view(self.panels@);
        let ghost batches = batches_view(pending@);
        let ghost failures = failures_of(batches);
        let ghost all = pending@;
        let mut last: Option<String> = None;
        let mut left = pending;
        let mut queue: Vec<Vec<TerminalOutputEvent>> = Vec::new();
        while left.len() > 0
            invariant
                left@.len() + queue@.len() == all.len(),
                left@ == all.take(left@.len() as int),
                forall|k: int|
                    0 <= k < queue@.len() ==> #[trigger] queue@[k] == all[all.len() - 1 - k],
            decreases left@.len(),
        {
            let ghost n = left@.len() as int;
            if let Some(b) = left.pop() {
                assert(b == all[n - 1]);
                queue.push(b);
                assert(left@ =~= all.take(n - 1));
            }
        }
        let mut i: usize = 0;
        assert(failures.take(0) =~= Seq::<Option<Seq<char>>>::empty());
        while i < self.panels.len()
            invariant
                i <= self.panels@.len(),
                self.current_idx == old(self).current_idx,
                all_terminals_wf(self.panels@),
                self.panels@.len() == before.len(),
                all.len() == before.len(),
                batches == batches_view(all),
                failures == failures_of(batches),
                queue@.len() == all.len() - i,
                forall|k: int|
                    0 <= k < queue@.len() ==> #[trigger] queue@[k] == all[all.len() - 1 - k],
                forall|k: int|
                    0 <= k < i ==> (#[trigger] self.panels@[k])@ == before[k].after_events(
                        batches[k],
                    ),
                forall|k: int|
                    i <= k < before.len() ==> (#[trigger] self.panels@[k])@ == before[k],
                opt_view(last) == last_some(failures.take(i as int)),
            decreases self.panels@.len() - i,
        {
            if let Some(events) = queue.pop() {
                assert(events == all[i as int]);
                assert(batches[i as int] == events@);
                assert(failures[i as int] == last_failure(events@));
                let found = self.panels[i].drain_events(events);
                assert(failures.take(i + 1).drop_last() =~= failures.take(i as int));
                if found.is_some() {
                    last = found;
                }
            }
            i += 1;
        }
        proof {
            assert(failures.take(i as int) =~= failures);
            assert(terminals_view(self.panels@) =~= drained(before, batches));
        }
        last
    }
}

impl Default for AgentTerminalCache {
    fn default() -> (c: Self)
        ensures
            c.wf(),
            c.panels@.len() == 0,
            c.current_idx == 0,
    {
        AgentTerminalCache::new()
    }
}

// ── Agent panels ───────────────────────────────────────────────────

/// A single agent panel in the overview.
pub struct AgentPanel {
    pub id: String,
    pub agent_binary: String,
    pub branch_name: Option<String>,
    pub repo_path: Option<String>,
    pub is_worktree: bool,
    /// RFC 3339 timestamp of when the hub spawned this agent. A sort key in the overview, so
    /// newly-spawned agents are appended at the end of their group.
    pub started_at: String,
    pub vterm: VirtualTerminal,
    pub exited: bool,
    /// Whether the worktree cleanup dialog has already been shown for this panel.
    pub worktree_cleanup_shown: bool,
    /// Vertical scroll offset for scrollback (0 = live, >0 = scrolled back).
    pub panel_scroll_offset: usize,
}

#[verifier::ext_equal]
pub ghost struct PanelView {
    pub id: Seq<char>,
    pub agent_binary: Seq<char>,
    pub branch_name: Option<Seq<char>>,
    pub repo_path: Option<Seq<char>>,
    pub is_worktree: bool,
    pub started_at: Seq<char>,
    pub screen: screen::ScreenView,
    pub input: Seq<u8>,
    pub exited: bool,
    pub worktree_cleanup_shown: bool,
    pub scroll_offset: int,
}

impl View for AgentPanel {
    type V = PanelView;

    open spec fn view(&self) -> PanelView {
        PanelView {
            id: self.id@,
            agent_binary: self.agent_binary@,
            branch_name: opt_view(self.branch_name),
            repo_path: opt_view(self.repo_path),
            is_worktree: self.is_worktree,
            started_at: self.started_at@,
            screen: self.vterm.screen@,
            input: self.vterm.input(),
            exited: self.exited,
            worktree_cleanup_shown: self.worktree_cleanup_shown,
            scroll_offset: self.panel_scroll_offset as int,
        }
    }
}

pub open spec fn panels_view(panels: Seq<AgentPanel>) -> Seq<PanelView> {
    panels.map_values(|p: AgentPanel| p@)
}

/// An agent as the hub lists it, as plain values.
#[verifier::ext_equal]
pub ghost struct AgentView {
    pub id: Seq<char>,
    pub agent_binary: Seq<char>,
    pub started_at: Seq<char>,
    pub branch_name: Option<Seq<char>>,
    pub repo_path: Option<Seq<char>>,
    pub is_worktree: bool,
}

pub open spec fn agent_view(a: AgentInfo) -> AgentView {
    AgentView {
        id: a.id@,
        agent_binary: a.agent_binary@,
        started_at: a.started_at@,
        branch_name: opt_view(a.branch_name),
        repo_path: opt_view(a.repo_path),
        is_worktree: a.is_worktree,
    }
}

pub open spec fn agents_view(agents: Seq<AgentInfo>) -> Seq<AgentView> {
    agents.map_values(|a: AgentInfo| agent_view(a))
}

fn copy_option(s: &Option<String>) -> (t: Option<String>)
    ensures
        t == *s,
{
    match s {
        Some(x) => Some(x.clone()),
        None => None,
    }
}

impl PanelView {
    /// The panel of an agent that has just appeared.
    pub open spec fn opened(agent: AgentView, cols: int, rows: int) -> PanelView {
        PanelView {
            id: agent.id,
            agent_binary: agent.agent_binary,
            branch_name: agent.branch_name,
            repo_path: agent.repo_path,
            is_worktree: agent.is_worktree,
            started_at: agent.started_at,
            screen: screen::ScreenView::fresh(cols, rows, SCROLLBACK_CAPACITY as int),
            input: Seq::empty(),
            exited: false,
            worktree_cleanup_shown: false,
            scroll_offset: 0,
        }
    }

    pub open spec fn after_event(self, event: AgentOutputEvent) -> PanelView {
        match event {
            AgentOutputEvent::Output { data, .. } => PanelView {
                screen: self.screen.fed(self.input, data@),
                input: self.input + data@,
                ..self
            },
            _ => PanelView { exited: true, ..self },
        }
    }
}

/// The id that an event is about.
pub open spec fn event_id(event: AgentOutputEvent) -> Seq<char> {
    match event {
        AgentOutputEvent::Output { id, .. } => id@,
        AgentOutputEvent::Exited { id, .. } => id@,
        AgentOutputEvent::ConnectionLost { id } => id@,
    }
}

/// The place of the first panel with this id, or the number of panels.
pub open spec fn panel_at(panels: Seq<PanelView>, id: Seq<char>) -> nat
    decreases panels.len(),
{
    if panels.len() == 0 || panels[0].id == id {
        0
    } else {
        1 + panel_at(panels.skip(1), id)
    }
}

proof fn lemma_panel_at(panels: Seq<PanelView>, id: Seq<char>, n: int)
    requires
        0 <= n <= panels.len(),
        n < panels.len() ==> panels[n].id == id,
        forall|i: int| 0 <= i < n ==> (#[trigger] panels[i]).id != id,
    ensures
        panel_at(panels, id) == n,
    decreases panels.len(),
{
    if panels.len() > 0 && n > 0 {
        assert(panels[0].id != id);
        assert forall|i: int| 0 <= i < n - 1 implies (#[trigger] panels.skip(1)[i]).id != id by {
            assert(panels[i + 1].id != id);
        }
        lemma_panel_at(panels.skip(1), id, n - 1);
    }
}

proof fn lemma_panel_at_range(panels: Seq<PanelView>, id: Seq<char>)
    ensures
        panel_at(panels, id) <= panels.len(),
        panel_at(panels, id) < panels.len() ==> panels[panel_at(panels, id) as int].id == id,
        forall|i: int| 0 <= i < panel_at(panels, id) ==> (#[trigger] panels[i]).id != id,
    decreases panels.len(),
{
    if panels.len() > 0 && panels[0].id != id {
        lemma_panel_at_range(panels.skip(1), id);
        assert forall|i: int| 0 <= i < panel_at(panels, id) implies (#[trigger] panels[i]).id
            != id by {
            if i > 0 {
                assert(panels.skip(1)[i - 1].id != id);
            }
        }
    }
}

pub open spec fn panels_wf(panels: Seq<AgentPanel>) -> bool {
    forall|i: int| 0 <= i < panels.len() ==> (#[trigger] panels[i]).vterm.screen@.wf()
}

/// The panels after an event: the first with the event's id takes it in.
pub open spec fn panels_after_event(panels: Seq<PanelView>, event: AgentOutputEvent) -> Seq<
    PanelView,
> {
    let i = panel_at(panels, event_id(event)) as int;
    if i < panels.len() {
        panels.update(i, panels[i].after_event(event))
    } else {
        panels
    }
}

pub open spec fn panels_after_events(panels: Seq<PanelView>, events: Seq<AgentOutputEvent>) -> Seq<
    PanelView,
>
    decreases events.len(),
{
    if events.len() == 0 {
        panels
    } else {
        panels_after_event(panels_after_events(panels, events.drop_last()), events.last())
    }
}

/// Whether an agent with this id is listed.
pub open spec fn listed(agents: Seq<AgentView>, id: Seq<char>) -> bool {
    exists|i: int| 0 <= i < agents.len() && (#[trigger] agents[i]).id == id
}

/// The panels whose agents are still listed.
pub open spec fn living(panels: Seq<PanelView>, agents: Seq<AgentView>) -> Seq<PanelView>
    decreases panels.len(),
{
    if panels.len() == 0 {
        panels
    } else {
        let rest = living(panels.drop_last(), agents);
        if listed(agents, panels.last().id) {
            rest.push(panels.last())
        } else {
            rest
        }
    }
}

/// The ids of the panels whose agents are gone.
pub open spec fn gone(panels: Seq<PanelView>, agents: Seq<AgentView>) -> Seq<Seq<char>>
    decreases panels.len(),
{
    if panels.len() == 0 {
        Seq::empty()
    } else {
        let rest = gone(panels.drop_last(), agents);
        if listed(agents, panels.last().id) {
            rest
        } else {
            rest.push(panels.last().id)
        }
    }
}

/// The panels with a new one behind them for each agent that had none.
pub open spec fn with_opened(
    panels: Seq<PanelView>,
    agents: Seq<AgentView>,
    cols: int,
    rows: int,
) -> Seq<PanelView>
    decreases agents.len(),
{
    if agents.len() == 0 {
        panels
    } else {
        let before = with_opened(panels, agents.drop_last(), cols, rows);
        let agent = agents.last();
        if panel_at(before, agent.id) < before.len() {
            before
        } else {
            before.push(PanelView::opened(agent, cols, rows))
        }
    }
}

/// The panels with what may change during an agent's life brought up to date.
pub open spec fn with_metadata(panels: Seq<PanelView>, agents: Seq<AgentView>) -> Seq<PanelView>
    decreases agents.len(),
{
    if agents.len() == 0 {
        panels
    } else {
        let before = with_metadata(panels, agents.drop_last());
        let agent = agents.last();
        let i = panel_at(before, agent.id) as int;
        if i < before.len() {
            before.update(
                i,
                PanelView {
                    branch_name: agent.branch_name,
                    repo_path: agent.repo_path,
                    ..before[i]
                },
            )
        } else {
            before
        }
    }
}

// ── The overview's state ───────────────────────────────────────────

/// Top-level overview state.
pub struct OverviewState {
    pub panels: Vec<AgentPanel>,
    pub focus: OverviewFocus,
    /// Index of the last focused terminal (for Shift+Down to return to).
    pub last_terminal_idx: usize,
    pub scroll_offset: usize,
    pub panel_cols: u16,
    pub panel_rows: u16,
    pub viewport_width: u16,
    pub initialized: bool,
    /// Repo paths that are currently collapsed in the filter bar, each once.
    /// Collapsed repos hide their agents from both the overview panels and the bar indicators.
    pub collapsed_repos: Vec<String>,
    /// Cursor position within the repo groups (when OptionsBar is focused).
    pub filter_cursor: usize,
    /// Sorted+filtered panel indices, recomputed each frame.
    /// Used by both rendering and keyboard navigation.
    pub sorted_indices: Vec<usize>,
    /// Cached focus-mode terminal panels by agent id, each id once. Stashed here while
    /// focus mode is closed so shell sessions and their scrollback survive
    /// across re-entries for the same agent. Each agent may own multiple
    /// terminals; `current_idx` tracks which one was active.
    pub agent_terminals: Vec<(String, AgentTerminalCache)>,
}

#[verifier::ext_equal]
pub ghost struct OverviewView {
    pub panels: Seq<PanelView>,
    pub focus: OverviewFocus,
    pub last_terminal_idx: int,
    pub scroll_offset: int,
    pub panel_cols: u16,
    pub panel_rows: u16,
    pub viewport_width: u16,
    pub initialized: bool,
    pub collapsed: Seq<Seq<char>>,
    pub filter_cursor: int,
    pub sorted: Seq<usize>,
}

impl View for OverviewState {
    type V = OverviewView;

    open spec fn view(&self) -> OverviewView {
        OverviewView {
            panels: panels_view(self.panels@),
            focus: self.focus,
            last_terminal_idx: self.last_terminal_idx as int,
            scroll_offset: self.scroll_offset as int,
            panel_cols: self.panel_cols,
            panel_rows: self.panel_rows,
            viewport_width: self.viewport_width,
            initialized: self.initialized,
            collapsed: text::strings_view(self.collapsed_repos@),
            filter_cursor: self.filter_cursor as int,
            sorted: self.sorted_indices@,
        }
    }
}

/// Cached terminals, by agent id.
pub type TerminalCaches = Seq<(String, AgentTerminalCache)>;

/// The place of the cache for an agent, or the number of caches.
pub open spec fn cache_at(caches: TerminalCaches, id: Seq<char>) -> nat
    decreases caches.len(),
{
    if caches.len() == 0 || caches[0].0@ == id {
        0
    } else {
        1 + cache_at(caches.skip(1), id)
    }
}

proof fn lemma_cache_at(caches: TerminalCaches, id: Seq<char>, n: int)
    requires
        0 <= n <= caches.len(),
        n < caches.len() ==> caches[n].0@ == id,
        forall|i: int| 0 <= i < n ==> (#[trigger] caches[i]).0@ != id,
    ensures
        cache_at(caches, id) == n,
    decreases caches.len(),
{
    if caches.len() > 0 && n > 0 {
        assert(caches[0].0@ != id);
        assert forall|i: int| 0 <= i < n - 1 implies (#[trigger] caches.skip(1)[i]).0@ != id by {
            assert(caches[i + 1].0@ != id);
        }
        lemma_cache_at(caches.skip(1), id, n - 1);
    }
}

/// No two caches are for the same agent, and all of them are in order.
pub open spec fn caches_wf(caches: TerminalCaches) -> bool {
    &&& forall|i: int| 0 <= i < caches.len() ==> (#[trigger] caches[i]).1.wf()
    &&& forall|i: int, j: int|
        0 <= i < j < caches.len() ==> (#[trigger] caches[i]).0@ != (#[trigger] caches[j]).0@
}

/// Whether a cache is another one after its panels have taken in their events.
pub open spec fn cache_drained(
    before: (String, AgentTerminalCache),
    after: (String, AgentTerminalCache),
    pending: Seq<Vec<TerminalOutputEvent>>,
) -> bool {
    &&& after.0@ == before.0@
    &&& after.1.wf()
    &&& after.1.current_idx == before.1.current_idx
    &&& terminals_view(after.1.panels@) == drained(
        terminals_view(before.1.panels@),
        batches_view(pending),
    )
}

/// The caches whose agents are still listed.
pub open spec fn living_caches(caches: TerminalCaches, agents: Seq<AgentView>) -> TerminalCaches
    decreases caches.len(),
{
    if caches.len() == 0 {
        caches
    } else {
        let rest = living_caches(caches.drop_last(), agents);
        if listed(agents, caches.last().0@) {
            rest.push(caches.last())
        } else {
            rest
        }
    }
}

/// The caches whose agents are gone.
pub open spec fn gone_caches(caches: TerminalCaches, agents: Seq<AgentView>) -> TerminalCaches
    decreases caches.len(),
{
    if caches.len() == 0 {
        caches
    } else {
        let rest = gone_caches(caches.drop_last(), agents);
        if listed(agents, caches.last().0@) {
            rest
        } else {
            rest.push(caches.last())
        }
    }
}

/// The place of an index in a list of indices.
pub open spec fn place_of(indices: Seq<usize>, idx: usize) -> Option<int>
    decreases indices.len(),
{
    if indices.len() == 0 {
        None
    } else if indices[0] == idx {
        Some(0)
    } else {
        match place_of(indices.skip(1), idx) {
            Some(p) => Some(p + 1),
            None => None,
        }
    }
}

proof fn lemma_place_of(indices: Seq<usize>, idx: usize, p: int)
    requires
        0 <= p <= indices.len(),
        p < indices.len() ==> indices[p] == idx,
        forall|i: int| 0 <= i < p ==> indices[i] != idx,
    ensures
        place_of(indices, idx) == (if p < indices.len() {
            Some(p)
        } else {
            None
        }),
    decreases indices.len(),
{
    if indices.len() > 0 && p > 0 {
        assert(indices[0] != idx);
        assert forall|i: int| 0 <= i < p - 1 implies indices.skip(1)[i] != idx by {
            assert(indices[i + 1] != idx);
        }
        lemma_place_of(indices.skip(1), idx, p - 1);
    }
}

fn position(indices: &Vec<usize>, idx: usize) -> (p: Option<usize>)
    ensures
        place_of(indices@, idx) == (match p {
            Some(i) => Some(i as int),
            None => None,
        }),
        p matches Some(i) ==> i < indices@.len() && indices@[i as int] == idx,
{
    let mut i: usize = 0;
    while i < indices.len()
        invariant
            i <= indices@.len(),
            forall|k: int| 0 <= k < i ==> indices@[k] != idx,
        decreases indices@.len() - i,
    {
        if indices[i] == idx {
            proof {
                lemma_place_of(indices@, idx, i as int);
            }
            return Some(i);
        }
        i += 1;
    }
    proof {
        lemma_place_of(indices@, idx, i as int);
    }
    None
}

impl OverviewView {
    pub open spec fn fresh() -> OverviewView {
        OverviewView {
            panels: Seq::empty(),
            focus: OverviewFocus::OptionsBar,
            last_terminal_idx: 0,
            scroll_offset: 0,
            panel_cols: 80,
            panel_rows: 24,
            viewport_width: 0,
            initialized: false,
            collapsed: Seq::empty(),
            filter_cursor: 0,
            sorted: Seq::empty(),
        }
    }

    /// The focus pulled back to a panel that exists, or to the bar.
    pub open spec fn clamped(self) -> OverviewView {
        let n = self.panels.len() as int;
        if n == 0 {
            OverviewView { focus: OverviewFocus::OptionsBar, ..self }
        } else {
            OverviewView {
                focus: match self.focus {
                    OverviewFocus::Terminal(idx) => if idx >= n {
                        OverviewFocus::Terminal((n - 1) as usize)
                    } else {
                        self.focus
                    },
                    OverviewFocus::OptionsBar => self.focus,
                },
                last_terminal_idx: imin(self.last_terminal_idx, n - 1),
                scroll_offset: if self.sorted.len() > 0 {
                    imin(self.scroll_offset, self.sorted.len() - 1)
                } else {
                    self.scroll_offset
                },
                ..self
            }
        }
    }

    /// The state after the hub has listed its agents.
    pub open spec fn synced(self, agents: Seq<AgentView>) -> OverviewView {
        OverviewView {
            panels: with_metadata(
                with_opened(
                    living(self.panels, agents),
                    agents,
                    self.panel_cols as int,
                    self.panel_rows as int,
                ),
                agents,
            ),
            initialized: true,
            ..self
        }.clamped()
    }

    /// The size of panels for a content area; nothing changes without agents.
    pub open spec fn sized(self, agent_count: usize, area: Rect) -> OverviewView {
        if agent_count == 0 {
            self
        } else {
            let remaining = imax(agent_count - self.scroll_offset, 1);
            let visible = imin(remaining, panels_fitting(area.width));
            OverviewView {
                viewport_width: area.width,
                panel_rows: imax(area.height - 6, 1) as u16,
                panel_cols: imax(panel_width(area.width, visible as usize) - 2, 1) as u16,
                ..self
            }
        }
    }

    /// How many panels can be seen.
    pub open spec fn visible_count(self, width: u16) -> int {
        imin(imax(self.sorted.len() - self.scroll_offset, 0), panels_fitting(width))
    }

    /// The view scrolled so that a panel is in it.
    pub open spec fn showing(self, idx: usize) -> OverviewView {
        match place_of(self.sorted, idx) {
            Some(pos) => {
                let scroll = imin(self.scroll_offset, pos);
                let fit = panels_fitting(self.viewport_width);
                OverviewView {
                    scroll_offset: if self.viewport_width > 0 && pos >= scroll + fit {
                        pos + 1 - fit
                    } else {
                        scroll
                    },
                    ..self
                }
            },
            None => self,
        }
    }

    /// A panel gets the focus and comes into view.
    pub open spec fn focused_on(self, idx: usize) -> OverviewView {
        OverviewView {
            focus: OverviewFocus::Terminal(idx),
            last_terminal_idx: idx as int,
            ..self
        }.showing(idx)
    }

    /// The focus moves on by `step` places in the sorted list, around its ends.
    pub open spec fn focus_moved(self, step: int) -> OverviewView {
        match self.focus {
            OverviewFocus::Terminal(idx) => match place_of(self.sorted, idx) {
                Some(pos) => {
                    let n = self.sorted.len() as int;
                    let next = pos + step;
                    self.focused_on(
                        self.sorted[if next < 0 {
                            n - 1
                        } else if next >= n {
                            0
                        } else {
                            next
                        }],
                    )
                },
                None => self,
            },
            OverviewFocus::OptionsBar => self,
        }
    }

    pub open spec fn terminal_entered(self) -> OverviewView {
        if self.sorted.len() == 0 {
            self
        } else if self.sorted.contains(self.last_terminal_idx as usize) {
            OverviewView {
                focus: OverviewFocus::Terminal(self.last_terminal_idx as usize),
                ..self
            }.showing(self.last_terminal_idx as usize)
        } else {
            self.focused_on(self.sorted[0])
        }
    }

    pub open spec fn terminal_left(self) -> OverviewView {
        OverviewView {
            last_terminal_idx: match self.focus {
                OverviewFocus::Terminal(idx) => idx as int,
                OverviewFocus::OptionsBar => self.last_terminal_idx,
            },
            focus: OverviewFocus::OptionsBar,
            ..self
        }
    }

    /// The focused panel's view moves to another scroll offset.
    pub open spec fn panel_scrolled(self, up: bool) -> OverviewView {
        match self.focus {
            OverviewFocus::Terminal(idx) => if idx < self.panels.len() {
                let p = self.panels[idx as int];
                let page = p.screen.rows;
                OverviewView {
                    panels: self.panels.update(
                        idx as int,
                        PanelView {
                            scroll_offset: if up {
                                imin(
                                    p.scroll_offset + page,
                                    p.screen.scrollback.len() as int,
                                )
                            } else {
                                imax(p.scroll_offset - page, 0)
                            },
                            ..p
                        },
                    ),
                    ..self
                }
            } else {
                self
            },
            OverviewFocus::OptionsBar => self,
        }
    }
}

/// What has to be done after the panels have been brought in line with the agents.
pub struct SyncOutcome {
    /// The ids of the panels that were closed.
    pub closed: Vec<String>,
    /// The terminals of agents that are gone.
    pub closed_terminals: Vec<(String, AgentTerminalCache)>,
    /// The ids of the panels that were opened.
    pub opened: Vec<String>,
}

/// The place of a repository in the list, by its path: the last one counts, and the end where
/// there is none.
pub open spec fn repo_order(repos: Seq<RepoInfo>, path: Option<Seq<char>>) -> usize
    decreases repos.len(),
{
    match path {
        Some(p) => if repos.len() == 0 {
            usize::MAX
        } else if repos.last().path@ == p {
            (repos.len() - 1) as usize
        } else {
            repo_order(repos.drop_last(), path)
        },
        None => usize::MAX,
    }
}

/// The repository that a panel is listed under; the empty path stands for none.
pub open spec fn group_path(path: Option<Seq<char>>) -> Seq<char> {
    match path {
        Some(p) => p,
        None => Seq::empty(),
    }
}

/// The indices of the first `n` panels whose repositories are not collapsed.
pub open spec fn shown_panels(panels: Seq<PanelView>, collapsed: Seq<Seq<char>>, n: nat) -> Seq<
    usize,
>
    decreases n,
{
    if n == 0 {
        Seq::empty()
    } else {
        let rest = shown_panels(panels, collapsed, (n - 1) as nat);
        if collapsed.contains(group_path(panels[n - 1].repo_path)) {
            rest
        } else {
            rest.push((n - 1) as usize)
        }
    }
}

/// The sort keys of panels: repository, then creation time, then id.
pub open spec fn panel_keys(panels: Seq<PanelView>, repos: Seq<RepoInfo>) -> Seq<sorting::KeyView> {
    panels.map_values(
        |p: PanelView|
            sorting::KeyView {
                group: repo_order(repos, p.repo_path) as int,
                name: Some(p.started_at),
                id: p.id,
            },
    )
}

/// Whether an outcome names the agents and terminals that have gone, and the agents that are new.
pub open spec fn reports_sync(
    outcome: SyncOutcome,
    before: OverviewView,
    caches: Seq<(String, AgentTerminalCache)>,
    agents: Seq<AgentView>,
) -> bool {
    let left = living(before.panels, agents);
    let opened = with_opened(left, agents, before.panel_cols as int, before.panel_rows as int);
    &&& text::strings_view(outcome.closed@) == gone(before.panels, agents)
    &&& outcome.closed_terminals@ == gone_caches(caches, agents)
    &&& text::strings_view(outcome.opened@) == opened.skip(left.len() as int).map_values(
        |p: PanelView| p.id,
    )
}

pub fn order_of_repo(repos: &Vec<RepoInfo>, path: &Option<String>) -> (order: usize)
    ensures
        order == repo_order(repos@, opt_view(*path)),
{
    match path {
        Some(p) => {
            let mut i: usize = repos.len();
            assert(repos@.take(i as int) =~= repos@);
            while i > 0
                invariant
                    i <= repos@.len(),
                    opt_view(*path) == Some(p@),
                    repo_order(repos@, Some(p@)) == repo_order(repos@.take(i as int), Some(p@)),
                decreases i,
            {
                assert(repos@.take(i as int).drop_last() =~= repos@.take(i - 1));
                if text_eq(repos[i - 1].path.as_str(), p.as_str()) {
                    return i - 1;
                }
                i -= 1;
            }
            usize::MAX
        },
        None => usize::MAX,
    }
}

/// Whether a string is in a list of strings.
pub fn contains_text(list: &Vec<String>, s: &str) -> (found: bool)
    ensures
        found == text::strings_view(list@).contains(s@),
{
    let mut i: usize = 0;
    while i < list.len()
        invariant
            i <= list@.len(),
            forall|k: int| 0 <= k < i ==> text::strings_view(list@)[k] != s@,
        decreases list@.len() - i,
    {
        if text_eq(list[i].as_str(), s) {
            assert(text::strings_view(list@)[i as int] == s@);
            return true;
        }
        i += 1;
    }
    false
}

fn is_listed(agents: &Vec<AgentInfo>, id: &str) -> (found: bool)
    ensures
        found == listed(agents_view(agents@), id@),
{
    let ghost views = agents_view(agents@);
    let mut i: usize = 0;
    while i < agents.len()
        invariant
            i <= agents@.len(),
            views == agents_view(agents@),
            forall|k: int| 0 <= k < i ==> (#[trigger] views[k]).id != id@,
        decreases agents@.len() - i,
    {
        if text_eq(agents[i].id.as_str(), id) {
            assert(views[i as int].id == id@);
            return true;
        }
        i += 1;
    }
    false
}

impl OverviewState {
    pub open spec fn wf(self) -> bool {
        &&& panels_wf(self.panels@)
        &&& caches_wf(self.agent_terminals@)
    }

    pub fn new() -> (state: Self)
        ensures
            state.wf(),
            state@ == OverviewView::fresh(),
            state.agent_terminals@.len() == 0,
    {
        let state = OverviewState {
            panels: Vec::new(),
            focus: OverviewFocus::OptionsBar,
            last_terminal_idx: 0,
            scroll_offset: 0,
            panel_cols: 80,
            panel_rows: 24,
            viewport_width: 0,
            initialized: false,
            collapsed_repos: Vec::new(),
            filter_cursor: 0,
            sorted_indices: Vec::new(),
            agent_terminals: Vec::new(),
        };
        assert(state@ =~= OverviewView::fresh());
        state
    }

    fn find_cache(&self, agent_id: &str) -> (at: usize)
        ensures
            at == cache_at(self.agent_terminals@, agent_id@),
            at <= self.agent_terminals@.len(),
            at < self.agent_terminals@.len() ==> self.agent_terminals@[at as int].0@ == agent_id@,
            forall|k: int|
                0 <= k < at ==> (#[trigger] self.agent_terminals@[k]).0@ != agent_id@,
    {
        let mut i: usize = 0;
        while i < self.agent_terminals.len()
            invariant
                i <= self.agent_terminals@.len(),
                forall|k: int|
                    0 <= k < i ==> (#[trigger] self.agent_terminals@[k]).0@ != agent_id@,
            decreases self.agent_terminals@.len() - i,
        {
            if text_eq(self.agent_terminals[i].0.as_str(), agent_id) {
                proof {
                    lemma_cache_at(self.agent_terminals@, agent_id@, i as int);
                }
                return i;
            }
            i += 1;
        }
        proof {
            lemma_cache_at(self.agent_terminals@, agent_id@, i as int);
        }
        i
    }

    /// Take the cached focus-mode terminals for an agent. Returns an empty
    /// cache if none exist yet.
    pub fn take_agent_terminals(&mut self, agent_id: &str) -> (cache: AgentTerminalCache)
        requires
            old(self).wf(),
        ensures
            final(self).wf(),
            final(self)@ == old(self)@,
            cache.wf(),
            ({
                let caches = old(self).agent_terminals@;
                let at = cache_at(caches, agent_id@) as int;
                if at < caches.len() {
                    cache == caches[at].1 && final(self).agent_terminals@ == caches.remove(at)
                } else {
                    &&& cache.panels@.len() == 0
                    &&& cache.current_idx == 0
                    &&& final(self).agent_terminals@ == caches
                }
            }),
    {
        let at = self.find_cache(agent_id);
        if at < self.agent_terminals.len() {
            let (_id, cache) = self.agent_terminals.remove(at);
            cache
        } else {
            AgentTerminalCache::new()
        }
    }

    /// Stash focus-mode terminals for an agent so they can be reused next time
    /// focus mode is opened for that agent. An empty cache is dropped instead
    /// of stored.
    pub fn store_agent_terminals(&mut self, agent_id: String, cache: AgentTerminalCache)
        requires
            old(self).wf(),
            cache.wf(),
        ensures
            final(self).wf(),
            final(self)@ == old(self)@,
            ({
                let caches = old(self).agent_terminals@;
                let at = cache_at(caches, agent_id@) as int;
                final(self).agent_terminals@ == (if cache.panels@.len() == 0 {
                    caches
                } else if at < caches.len() {
                    caches.update(at, (caches[at].0, cache))
                } else {
                    caches.push((agent_id, cache))
                })
            }),
    {
        if cache.panels.len() == 0 {
            return ;
        }
        let at = self.find_cache(agent_id.as_str());
        let ghost before = self.agent_terminals@;
        if at < self.agent_terminals.len() {
            self.agent_terminals[at].1 = cache;
            assert(self.agent_terminals@ =~= before.update(at as int, (before[at as int].0, cache)));
        } else {
            self.agent_terminals.push((agent_id, cache));
        }
    }

    /// Takes in pending output events for every cached focus-mode terminal so
    /// scrollback keeps accumulating while focus mode is closed; `pending` holds one list
    /// per panel of each cache.
    pub fn drain_cached_terminal_events(&mut self, pending: Vec<Vec<Vec<TerminalOutputEvent>>>)
        requires
            old(self).wf(),
            pending@.len() == old(self).agent_terminals@.len(),
            forall|i: int|
                0 <= i < pending@.len() ==> (#[trigger] pending@[i])@.len() == old(self).agent_terminals@[i].1.panels@.len(),
        ensures
            final(self).wf(),
            final(self)@ == old(self)@,
            final(self).agent_terminals@.len() == old(self).agent_terminals@.len(),
            forall|i: int|
                0 <= i < pending@.len() ==> cache_drained(
                    old(self).agent_terminals@[i],
                    #[trigger] final(self).agent_terminals@[i],
                    pending@[i]@,
                ),
    {
        let ghost all = pending@;
        let ghost before = self.agent_terminals@;
        let mut left = pending;
        let mut i: usize = 0;
        assert(all.skip(0) =~= all);
        while i < self.agent_terminals.len()
            invariant
                i <= self.agent_terminals@.len(),
                self.agent_terminals@.len() == before.len(),
                all.len() == before.len(),
                left@ == all.skip(i as int),
                caches_wf(before),
                panels_wf(self.panels@),
                self@ == old(self)@,
                forall|k: int|
                    0 <= k < all.len() ==> (#[trigger] all[k])@.len() == before[k].1.panels@.len(),
                forall|k: int|
                    0 <= k < i ==> cache_drained(
                        before[k],
                        #[trigger] self.agent_terminals@[k],
                        all[k]@,
                    ),
                forall|k: int|
                    i <= k < before.len() ==> #[trigger] self.agent_terminals@[k] == before[k],
            decreases self.agent_terminals@.len() - i,
        {
            let events = left.remove(0);
            assert(events == all[i as int]);
            let (id, mut cache) = self.agent_terminals.remove(i);
            let _ = cache.drain_events(events);
            self.agent_terminals.insert(i, (id, cache));
            i += 1;
            assert(left@ =~= all.skip(i as int));
        }
        assert(caches_wf(self.agent_terminals@)) by {
            let now = self.agent_terminals@;
            assert forall|k: int, j: int| 0 <= k < j < now.len() implies (#[trigger] now[k]).0@ != (
            #[trigger] now[j]).0@ by {
                assert(before[k].0@ != before[j].0@);
            }
        }
    }

    fn find_panel(&self, id: &str) -> (at: usize)
        ensures
            at == panel_at(self@.panels, id@),
            at <= self.panels@.len(),
    {
        let ghost views = self@.panels;
        let mut i: usize = 0;
        while i < self.panels.len()
            invariant
                i <= self.panels@.len(),
                views == panels_view(self.panels@),
                forall|k: int| 0 <= k < i ==> (#[trigger] views[k]).id != id@,
            decreases self.panels@.len() - i,
        {
            if text_eq(self.panels[i].id.as_str(), id) {
                proof {
                    lemma_panel_at(views, id@, i as int);
                }
                return i;
            }
            i += 1;
        }
        proof {
            lemma_panel_at(views, id@, i as int);
        }
        i
    }

    fn close_missing(&mut self, agents: &Vec<AgentInfo>) -> (closed: Vec<String>)
        requires
            old(self).wf(),
        ensures
            final(self).wf(),
            final(self)@ == (OverviewView {
                panels: living(old(self)@.panels, agents_view(agents@)),
                ..old(self)@
            }),
            final(self).agent_terminals == old(self).agent_terminals,
            text::strings_view(closed@) == gone(old(self)@.panels, agents_view(agents@)),
    {
        let ghost all = self@.panels;
        let ghost list = agents_view(agents@);
        let ghost start = self@;
        let mut closed: Vec<String> = Vec::new();
        let mut i: usize = 0;
        let ghost mut done: int = 0;
        assert(self@.panels =~= living(all.take(0), list) + all.skip(0));
        assert(text::strings_view(closed@) =~= gone(all.take(0), list));
        while i < self.panels.len()
            invariant
                self.wf(),
                0 <= done <= all.len(),
                list == agents_view(agents@),
                self.agent_terminals == old(self).agent_terminals,
                self@ == (OverviewView { panels: self@.panels, ..start }),
                self@.panels.len() == self.panels@.len(),
                i == living(all.take(done), list).len(),
                self@.panels == living(all.take(done), list) + all.skip(done),
                text::strings_view(closed@) == gone(all.take(done), list),
            decreases self.panels@.len() - i,
        {
            let ghost front = living(all.take(done), list);
            let ghost before_closed = text::strings_view(closed@);
            let ghost before = self.panels@;
            proof {
                assert(self@.panels[i as int] == all[done]);
                assert(all.take(done + 1).drop_last() =~= all.take(done));
            }
            if !is_listed(agents, self.panels[i].id.as_str()) {
                let panel = self.panels.remove(i);
                assert(self@.panels =~= panels_view(before).remove(i as int));
                assert(self@.panels =~= front + all.skip(done + 1));
                closed.push(panel.id);
                assert(text::strings_view(closed@) =~= before_closed.push(all[done].id));
            } else {
                i += 1;
                assert(self@.panels =~= front.push(all[done]) + all.skip(done + 1));
            }
            proof {
                done = done + 1;
            }
        }
        assert(all.take(done) =~= all);
        assert(self@.panels =~= living(all, list));
        closed
    }

    fn close_missing_terminals(&mut self, agents: &Vec<AgentInfo>) -> (closed: Vec<
        (String, AgentTerminalCache),
    >)
        requires
            old(self).wf(),
        ensures
            final(self).wf(),
            final(self)@ == old(self)@,
            final(self).agent_terminals@ == living_caches(
                old(self).agent_terminals@,
                agents_view(agents@),
            ),
            closed@ == gone_caches(old(self).agent_terminals@, agents_view(agents@)),
    {
        let ghost all = self.agent_terminals@;
        let ghost list = agents_view(agents@);
        let ghost start = self@;
        let mut closed: Vec<(String, AgentTerminalCache)> = Vec::new();
        let mut i: usize = 0;
        let ghost mut done: int = 0;
        assert(self.agent_terminals@ =~= living_caches(all.take(0), list) + all.skip(0));
        while i < self.agent_terminals.len()
            invariant
                self.wf(),
                self@ == start,
                0 <= done <= all.len(),
                list == agents_view(agents@),
                i == living_caches(all.take(done), list).len(),
                self.agent_terminals@ == living_caches(all.take(done), list) + all.skip(done),
                closed@ == gone_caches(all.take(done), list),
            decreases self.agent_terminals@.len() - i,
        {
            let ghost front = living_caches(all.take(done), list);
            proof {
                assert(self.agent_terminals@[i as int] == all[done]);
                assert(all.take(done + 1).drop_last() =~= all.take(done));
            }
            if !is_listed(agents, self.agent_terminals[i].0.as_str()) {
                let cache = self.agent_terminals.remove(i);
                assert(self.agent_terminals@ =~= front + all.skip(done + 1));
                closed.push(cache);
            } else {
                i += 1;
                assert(self.agent_terminals@ =~= front.push(all[done]) + all.skip(done + 1));
            }
            proof {
                done = done + 1;
            }
        }
        assert(all.take(done) =~= all);
        assert(self.agent_terminals@ =~= living_caches(all, list));
        closed
    }

    fn open_new(&mut self, agents: &Vec<AgentInfo>) -> (opened: Vec<String>)
        requires
            old(self).wf(),
        ensures
            final(self).wf(),
            final(self)@ == (OverviewView {
                panels: with_opened(
                    old(self)@.panels,
                    agents_view(agents@),
                    old(self)@.panel_cols as int,
                    old(self)@.panel_rows as int,
                ),
                ..old(self)@
            }),
            final(self).agent_terminals == old(self).agent_terminals,
            text::strings_view(opened@) == final(self)@.panels.skip(
                old(self)@.panels.len() as int,
            ).map_values(|p: PanelView| p.id),
    {
        let ghost start = self@;
        let ghost list = agents_view(agents@);
        let ghost cols = self.panel_cols as int;
        let ghost rows = self.panel_rows as int;
        let mut opened: Vec<String> = Vec::new();
        let mut i: usize = 0;
        assert(list.take(0) =~= Seq::<AgentView>::empty());
        assert(text::strings_view(opened@) =~= start.panels.skip(start.panels.len() as int).map_values(
            |p: PanelView| p.id,
        ));
        while i < agents.len()
            invariant
                self.wf(),
                i <= agents@.len(),
                list == agents_view(agents@),
                cols == self.panel_cols,
                rows == self.panel_rows,
                self.agent_terminals == old(self).agent_terminals,
                self@ == (OverviewView {
                    panels: with_opened(start.panels, list.take(i as int), cols, rows),
                    ..start
                }),
                start.panels.len() <= self@.panels.len(),
                text::strings_view(opened@) == self@.panels.skip(
                    start.panels.len() as int,
                ).map_values(|p: PanelView| p.id),
            decreases agents@.len() - i,
        {
            assert(list.take(i + 1).drop_last() =~= list.take(i as int));
            let ghost before = self@.panels;
            let ghost before_ids = text::strings_view(opened@);
            let at = self.find_panel(agents[i].id.as_str());
            if at == self.panels.len() {
                let agent = &agents[i];
                let panel = AgentPanel {
                    id: agent.id.clone(),
                    agent_binary: agent.agent_binary.clone(),
                    branch_name: copy_option(&agent.branch_name),
                    repo_path: copy_option(&agent.repo_path),
                    is_worktree: agent.is_worktree,
                    started_at: agent.started_at.clone(),
                    vterm: VirtualTerminal::new(self.panel_cols as usize, self.panel_rows as usize),
                    exited: false,
                    worktree_cleanup_shown: false,
                    panel_scroll_offset: 0,
                };
                self.panels.push(panel);
                opened.push(agents[i].id.clone());
                proof {
                    let new = PanelView::opened(list[i as int], cols, rows);
                    assert(panel@ =~= new);
                    assert(self@.panels =~= before.push(new));
                    assert(text::strings_view(opened@) =~= before_ids.push(new.id));
                    assert(self@.panels.skip(start.panels.len() as int).map_values(
                        |p: PanelView| p.id,
                    ) =~= before.skip(start.panels.len() as int).map_values(
                        |p: PanelView| p.id,
                    ).push(new.id));
                }
            }
            i += 1;
        }
        assert(list.take(i as int) =~= list);
        opened
    }

    fn update_metadata(&mut self, agents: &Vec<AgentInfo>)
        requires
            old(self).wf(),
        ensures
            final(self).wf(),
            final(self)@ == (OverviewView {
                panels: with_metadata(old(self)@.panels, agents_view(agents@)),
                ..old(self)@
            }),
            final(self).agent_terminals == old(self).agent_terminals,
    {
        let ghost start = self@;
        let ghost list = agents_view(agents@);
        let mut i: usize = 0;
        assert(list.take(0) =~= Seq::<AgentView>::empty());
        while i < agents.len()
            invariant
                self.wf(),
                i <= agents@.len(),
                list == agents_view(agents@),
                self.agent_terminals == old(self).agent_terminals,
                self@ == (OverviewView {
                    panels: with_metadata(start.panels, list.take(i as int)),
                    ..start
                }),
            decreases agents@.len() - i,
        {
            assert(list.take(i + 1).drop_last() =~= list.take(i as int));
            let ghost before = self@.panels;
            let at = self.find_panel(agents[i].id.as_str());
            if at < self.panels.len() {
                self.panels[at].branch_name = copy_option(&agents[i].branch_name);
                self.panels[at].repo_path = copy_option(&agents[i].repo_path);
                proof {
                    let new = PanelView {
                        branch_name: list[i as int].branch_name,
                        repo_path: list[i as int].repo_path,
                        ..before[at as int]
                    };
                    assert(self@.panels[at as int] =~= new);
                    assert(self@.panels =~= before.update(at as int, new));
                }
            }
            i += 1;
        }
        assert(list.take(i as int) =~= list);
    }

    /// Synchronize the panel set with the current agent list (lifecycle only).
    ///
    /// Adds panels for new agents, removes panels for agents that disappeared, prunes stale
    /// terminal cache entries, and updates per-panel metadata. Does **not** touch panel
    /// dimensions. The caller ends the connections of what was closed and opens connections
    /// for what was opened.
    pub fn sync_agent_set(&mut self, agents: &Vec<AgentInfo>) -> (outcome: SyncOutcome)
        requires
            old(self).wf(),
        ensures
            final(self).wf(),
            final(self)@ == old(self)@.synced(agents_view(agents@)),
            final(self).agent_terminals@ == living_caches(
                old(self).agent_terminals@,
                agents_view(agents@),
            ),
            reports_sync(outcome, old(self)@, old(self).agent_terminals@, agents_view(agents@)),
    {
        let closed = self.close_missing(agents);
        let closed_terminals = self.close_missing_terminals(agents);
        let opened = self.open_new(agents);
        self.update_metadata(agents);
        self.initialized = true;
        self.clamp_focus();
        SyncOutcome { closed, closed_terminals, opened }
    }

    fn clamp_focus(&mut self)
        requires
            old(self).wf(),
        ensures
            final(self).wf(),
            final(self)@ == old(self)@.clamped(),
            final(self).agent_terminals == old(self).agent_terminals,
    {
        let n = self.panels.len();
        if n == 0 {
            self.focus = OverviewFocus::OptionsBar;
            return ;
        }
        if let OverviewFocus::Terminal(idx) = self.focus {
            if idx >= n {
                self.focus = OverviewFocus::Terminal(n - 1);
            }
        }
        if self.last_terminal_idx > n - 1 {
            self.last_terminal_idx = n - 1;
        }
        // Clamp scroll to sorted_indices bounds (may be empty if not yet computed)
        let shown = self.sorted_indices.len();
        if shown > 0 && self.scroll_offset > shown - 1 {
            self.scroll_offset = shown - 1;
        }
    }

    fn recalculate_panel_size(&mut self, agent_count: usize, content_area: Rect)
        ensures
            final(self)@ == old(self)@.sized(agent_count, content_area),
            final(self).panels == old(self).panels,
            final(self).agent_terminals == old(self).agent_terminals,
    {
        if agent_count == 0 {
            return ;
        }
        self.viewport_width = content_area.width;
        // The content area already excludes the tab bar and status bar. Three rows go to the
        // grouped filter bar, and each panel has two borders and a header.
        let rows = content_area.height.saturating_sub(3).saturating_sub(3);
        self.panel_rows = if rows > 1 {
            rows
        } else {
            1
        };
        // Derive panel width from the number of panels that will be visible.
        // The terminal gets the inner width: total minus 2 border columns.
        let left = agent_count.saturating_sub(self.scroll_offset);
        let remaining: usize = if left > 1 {
            left
        } else {
            1
        };
        let max_fit = max_panels_for_width(content_area.width);
        let visible: usize = if remaining < max_fit {
            remaining
        } else {
            max_fit
        };
        let pw = panel_width_for_count(content_area.width, visible);
        let cols = pw.saturating_sub(2);
        self.panel_cols = if cols > 1 {
            cols
        } else {
            1
        };
    }

    /// The command that tells a connection the size of panels.
    pub fn resize_command(&self) -> (command: PanelCommand)
        ensures
            command == (PanelCommand::Resize { cols: self.panel_cols, rows: self.panel_rows }),
    {
        PanelCommand::Resize { cols: self.panel_cols, rows: self.panel_rows }
    }

    /// Recalculate the overview-grid panel dimensions from the content area.
    ///
    /// Returns the panels whose size is no longer right. The caller sends each of them the
    /// resize command and confirms it with `panel_resized` once it is sent, so that a panel is
    /// not left empty without its agent redrawing it.
    pub fn resize_panels_to(&mut self, content_area: Rect) -> (stale: Vec<usize>)
        requires
            old(self).wf(),
        ensures
            final(self).wf(),
            final(self)@ == old(self)@.sized(old(self).panels.len(), content_area),
            final(self).agent_terminals == old(self).agent_terminals,
            stale@ == stale_panels(
                final(self)@.panels,
                final(self)@.panel_cols as int,
                final(self)@.panel_rows as int,
                final(self)@.panels.len(),
            ),
    {
        let count = self.panels.len();
        self.recalculate_panel_size(count, content_area);
        let mut stale: Vec<usize> = Vec::new();
        let mut i: usize = 0;
        while i < self.panels.len()
            invariant
                i <= self.panels@.len(),
                stale@ == stale_panels(
                    self@.panels,
                    self@.panel_cols as int,
                    self@.panel_rows as int,
                    i as nat,
                ),
            decreases self.panels@.len() - i,
        {
            let (pw, ph) = (self.panel_cols as usize, self.panel_rows as usize);
            assert(self@.panels[i as int] == self.panels@[i as int]@);
            if self.panels[i].vterm.screen.cols() != pw || self.panels[i].vterm.screen.rows()
                != ph {
                stale.push(i);
            }
            i += 1;
        }
        stale
    }

    /// Brings a panel's own screen to the size that its agent has been told.
    pub fn panel_resized(&mut self, idx: usize)
        requires
            old(self).wf(),
            idx < old(self).panels@.len(),
        ensures
            final(self).wf(),
            final(self).agent_terminals == old(self).agent_terminals,
            final(self)@ == (OverviewView {
                panels: old(self)@.panels.update(
                    idx as int,
                    PanelView {
                        screen: old(self)@.panels[idx as int].screen.resized_afresh(
                            old(self)@.panel_cols as int,
                            old(self)@.panel_rows as int,
                        ),
                        ..old(self)@.panels[idx as int]
                    },
                ),
                ..old(self)@
            }),
    {
        let ghost before = self@;
        let (pw, ph) = (self.panel_cols as usize, self.panel_rows as usize);
        self.panels[idx].vterm.resize(pw, ph);
        proof {
            let new = PanelView {
                screen: before.panels[idx as int].screen.resized_afresh(pw as int, ph as int),
                ..before.panels[idx as int]
            };
            assert(self@.panels[idx as int] =~= new);
            assert(self@.panels =~= before.panels.update(idx as int, new));
        }
    }

    /// Synchronize panels with the current agent list **and** resize them
    /// for the overview grid. Convenience for callers that own the overview layout.
    pub fn sync_agents(&mut self, agents: &Vec<AgentInfo>, content_area: Rect) -> (result: (
        SyncOutcome,
        Vec<usize>,
    ))
        requires
            old(self).wf(),
        ensures
            final(self).wf(),
            ({
                let synced = old(self)@.synced(agents_view(agents@));
                &&& final(self)@ == synced.sized(synced.panels.len() as usize, content_area)
                &&& final(self).agent_terminals@ == living_caches(
                    old(self).agent_terminals@,
                    agents_view(agents@),
                )
                &&& reports_sync(
                    result.0,
                    old(self)@,
                    old(self).agent_terminals@,
                    agents_view(agents@),
                )
                &&& result.1@ == stale_panels(
                    final(self)@.panels,
                    final(self)@.panel_cols as int,
                    final(self)@.panel_rows as int,
                    final(self)@.panels.len(),
                )
            }),
    {
        let outcome = self.sync_agent_set(agents);
        let stale = self.resize_panels_to(content_area);
        (outcome, stale)
    }

    /// Takes in one event of a connection.
    pub fn apply_event(&mut self, event: AgentOutputEvent)
        requires
            old(self).wf(),
        ensures
            final(self).wf(),
            final(self).agent_terminals == old(self).agent_terminals,
            final(self)@ == (OverviewView {
                panels: panels_after_event(old(self)@.panels, event),
                ..old(self)@
            }),
    {
        let ghost before = self@;
        match event {
            AgentOutputEvent::Output { id, data } => {
                let at = self.find_panel(id.as_str());
                if at < self.panels.len() {
                    self.panels[at].vterm.process(data.as_slice());
                    proof {
                        let new = before.panels[at as int].after_event(event);
                        assert(self@.panels[at as int] =~= new);
                        assert(self@.panels =~= before.panels.update(at as int, new));
                    }
                }
            },
            AgentOutputEvent::Exited { id, .. } => self.mark_exited(id.as_str(), Ghost(event)),
            AgentOutputEvent::ConnectionLost { id } => self.mark_exited(id.as_str(), Ghost(event)),
        }
    }

    fn mark_exited(&mut self, id: &str, Ghost(event): Ghost<AgentOutputEvent>)
        requires
            old(self).wf(),
            event_id(event) == id@,
            !(event is Output),
        ensures
            final(self).wf(),
            final(self).agent_terminals == old(self).agent_terminals,
            final(self)@ == (OverviewView {
                panels: panels_after_event(old(self)@.panels, event),
                ..old(self)@
            }),
    {
        let ghost before = self@;
        let at = self.find_panel(id);
        if at < self.panels.len() {
            self.panels[at].exited = true;
            proof {
                let new = before.panels[at as int].after_event(event);
                assert(self@.panels[at as int] =~= new);
                assert(self@.panels =~= before.panels.update(at as int, new));
            }
        }
    }

    /// Takes in all pending events of the connections, in order.
    pub fn drain_output_events(&mut self, events: Vec<AgentOutputEvent>)
        requires
            old(self).wf(),
        ensures
            final(self).wf(),
            final(self).agent_terminals == old(self).agent_terminals,
            final(self)@ == (OverviewView {
                panels: panels_after_events(old(self)@.panels, events@),
                ..old(self)@
            }),
    {
        let ghost start = self@;
        let ghost all = events@;
        let mut left = events;
        let mut queue: Vec<AgentOutputEvent> = Vec::new();
        while left.len() > 0
            invariant
                left@.len() + queue@.len() == all.len(),
                left@ == all.take(left@.len() as int),
                forall|k: int|
                    0 <= k < queue@.len() ==> #[trigger] queue@[k] == all[all.len() - 1 - k],
            decreases left@.len(),
        {
            let ghost n = left@.len() as int;
            if let Some(e) = left.pop() {
                assert(e == all[n - 1]);
                queue.push(e);
                assert(left@ =~= all.take(n - 1));
            }
        }
        assert(all.take(0) =~= Seq::<AgentOutputEvent>::empty());
        while queue.len() > 0
            invariant
                self.wf(),
                self.agent_terminals == old(self).agent_terminals,
                queue@.len() <= all.len(),
                forall|k: int|
                    0 <= k < queue@.len() ==> #[trigger] queue@[k] == all[all.len() - 1 - k],
                self@ == (OverviewView {
                    panels: panels_after_events(
                        start.panels,
                        all.take(all.len() - queue@.len()),
                    ),
                    ..start
                }),
            decreases queue@.len(),
        {
            let ghost done = all.len() - queue@.len();
            if let Some(event) = queue.pop() {
                assert(event == all[done]);
                assert(all.take(done + 1).drop_last() =~= all.take(done));
                self.apply_event(event);
            }
        }
        assert(all.take(all.len() as int) =~= all);
    }

    /// Handle terminal resize. Returns the panels to tell: all of them where the size of panels
    /// has changed, else none.
    pub fn handle_resize(&mut self, agent_count: usize, content_area: Rect) -> (stale: Vec<usize>)
        requires
            old(self).wf(),
        ensures
            final(self).wf(),
            final(self).agent_terminals == old(self).agent_terminals,
            final(self)@ == old(self)@.sized(agent_count, content_area),
            stale@ == (if final(self)@.panel_cols == old(self)@.panel_cols && final(
                self)@.panel_rows == old(self)@.panel_rows {
                Seq::empty()
            } else {
                first_indices(old(self)@.panels.len())
            }),
    {
        let old_cols = self.panel_cols;
        let old_rows = self.panel_rows;
        self.recalculate_panel_size(agent_count, content_area);
        if self.panel_cols == old_cols && self.panel_rows == old_rows {
            return Vec::new();
        }
        self.all_panels()
    }

    fn all_panels(&self) -> (all: Vec<usize>)
        ensures
            all@ == first_indices(self@.panels.len()),
    {
        let mut all: Vec<usize> = Vec::new();
        let mut i: usize = 0;
        while i < self.panels.len()
            invariant
                i <= self.panels@.len(),
                all@ == first_indices(i as nat),
            decreases self.panels@.len() - i,
        {
            all.push(i);
            i += 1;
            assert(all@ =~= first_indices(i as nat));
        }
        all
    }

    /// Re-send current panel dimensions to the hub for all panels.
    /// Unlike `handle_resize`, this does not skip when dimensions are unchanged,
    /// because the hub's PTY may have been resized by another client.
    pub fn force_resize_all(&self) -> (commands: Vec<(usize, PanelCommand)>)
        ensures
            commands@ == Seq::new(
                self@.panels.len(),
                |i: int|
                    (
                        i as usize,
                        PanelCommand::Resize { cols: self.panel_cols, rows: self.panel_rows },
                    ),
            ),
    {
        let mut commands: Vec<(usize, PanelCommand)> = Vec::new();
        let mut i: usize = 0;
        while i < self.panels.len()
            invariant
                i <= self.panels@.len(),
                commands@ == Seq::new(
                    i as nat,
                    |i: int|
                        (
                            i as usize,
                            PanelCommand::Resize { cols: self.panel_cols, rows: self.panel_rows },
                        ),
                ),
            decreases self.panels@.len() - i,
        {
            commands.push((i, self.resize_command()));
            i += 1;
            assert(commands@ =~= Seq::new(
                i as nat,
                |i: int|
                    (
                        i as usize,
                        PanelCommand::Resize { cols: self.panel_cols, rows: self.panel_rows },
                    ),
            ));
        }
        commands
    }

    /// The panel that has the focus, if it exists.
    fn focused_panel(&self) -> (idx: Option<usize>)
        ensures
            idx == focused_index(self@),
    {
        match self.focus {
            OverviewFocus::Terminal(idx) => if idx < self.panels.len() {
                Some(idx)
            } else {
                None
            },
            OverviewFocus::OptionsBar => None,
        }
    }

    /// Re-send current panel dimensions to the hub for the focused panel only.
    pub fn force_resize_focused(&self) -> (command: Option<(usize, PanelCommand)>)
        ensures
            command == (match focused_index(self@) {
                Some(idx) => Some(
                    (
                        idx,
                        PanelCommand::Resize { cols: self.panel_cols, rows: self.panel_rows },
                    ),
                ),
                None => None,
            }),
    {
        match self.focused_panel() {
            Some(idx) => Some((idx, self.resize_command())),
            None => None,
        }
    }

    /// Gives up all panels; the caller detaches and ends their connections.
    pub fn shutdown(&mut self) -> (closed: Vec<AgentPanel>)
        requires
            old(self).wf(),
        ensures
            final(self).wf(),
            closed@ == old(self).panels@,
            final(self)@ == (OverviewView { panels: Seq::empty(), ..old(self)@ }),
            final(self).agent_terminals == old(self).agent_terminals,
    {
        let mut closed: Vec<AgentPanel> = Vec::new();
        std::mem::swap(&mut closed, &mut self.panels);
        assert(self@.panels =~= Seq::<PanelView>::empty());
        closed
    }

    /// Number of panels that fit in the given width (uses sorted/filtered list).
    pub fn visible_panel_count(&self, width: u16) -> (n: usize)
        ensures
            n == self@.visible_count(width),
    {
        let remaining = self.sorted_indices.len().saturating_sub(self.scroll_offset);
        let max_fit = max_panels_for_width(width);
        if remaining < max_fit {
            remaining
        } else {
            max_fit
        }
    }

    /// Ensure a global panel index is visible on screen by adjusting scroll_offset.
    /// Works on position within sorted_indices.
    pub fn ensure_visible_sorted(&mut self, global_idx: usize)
        requires
            old(self).wf(),
        ensures
            final(self).wf(),
            final(self)@ == old(self)@.showing(global_idx),
            final(self).agent_terminals == old(self).agent_terminals,
            final(self).panels == old(self).panels,
    {
        let count = self.sorted_indices.len();
        if let Some(pos) = position(&self.sorted_indices, global_idx) {
            assert(pos < count);
            if pos < self.scroll_offset {
                self.scroll_offset = pos;
            }
            if self.viewport_width > 0 {
                let fully_visible = max_panels_for_width(self.viewport_width);
                if pos >= self.scroll_offset.saturating_add(fully_visible) {
                    self.scroll_offset = pos - (fully_visible - 1);
                }
            }
        }
    }

    fn focus_on(&mut self, idx: usize)
        requires
            old(self).wf(),
        ensures
            final(self).wf(),
            final(self)@ == old(self)@.focused_on(idx),
            final(self).agent_terminals == old(self).agent_terminals,
            final(self).panels == old(self).panels,
    {
        self.focus = OverviewFocus::Terminal(idx);
        self.last_terminal_idx = idx;
        self.ensure_visible_sorted(idx);
    }

    /// Move focus to the previous agent terminal (sorted order).
    pub fn focus_prev(&mut self)
        requires
            old(self).wf(),
        ensures
            final(self).wf(),
            final(self)@ == old(self)@.focus_moved(-1),
            final(self).agent_terminals == old(self).agent_terminals,
            final(self).panels == old(self).panels,
    {
        if let OverviewFocus::Terminal(idx) = self.focus {
            if let Some(pos) = position(&self.sorted_indices, idx) {
                let new_pos = if pos > 0 {
                    pos - 1
                } else {
                    self.sorted_indices.len() - 1
                };
                let new_idx = self.sorted_indices[new_pos];
                self.focus_on(new_idx);
            }
        }
    }

    /// Move focus to the next agent terminal (sorted order).
    pub fn focus_next(&mut self)
        requires
            old(self).wf(),
        ensures
            final(self).wf(),
            final(self)@ == old(self)@.focus_moved(1),
            final(self).agent_terminals == old(self).agent_terminals,
            final(self).panels == old(self).panels,
    {
        if let OverviewFocus::Terminal(idx) = self.focus {
            if let Some(pos) = position(&self.sorted_indices, idx) {
                let count = self.sorted_indices.len();
                let new_pos = if pos + 1 < count {
                    pos + 1
                } else {
                    0
                };
                let new_idx = self.sorted_indices[new_pos];
                self.focus_on(new_idx);
            }
        }
    }

    /// Select and focus a specific agent by its ID.
    pub fn select_agent_by_id(&mut self, agent_id: &str)
        requires
            old(self).wf(),
        ensures
            final(self).wf(),
            final(self)@ == (if panel_at(old(self)@.panels, agent_id@) < old(self)@.panels.len() {
                old(self)@.focused_on(panel_at(old(self)@.panels, agent_id@) as usize)
            } else {
                old(self)@
            }),
            final(self).agent_terminals == old(self).agent_terminals,
            final(self).panels == old(self).panels,
    {
        let at = self.find_panel(agent_id);
        if at < self.panels.len() {
            self.focus_on(at);
        }
    }

    /// Enter terminal focus from options bar.
    pub fn enter_terminal(&mut self)
        requires
            old(self).wf(),
        ensures
            final(self).wf(),
            final(self)@ == old(self)@.terminal_entered(),
            final(self).agent_terminals == old(self).agent_terminals,
            final(self).panels == old(self).panels,
    {
        if self.sorted_indices.len() == 0 {
            return ;
        }
        // Try to return to the last focused terminal if it's still visible
        let last = self.last_terminal_idx;
        proof {
            lemma_place_contains(self.sorted_indices@, last);
        }
        if position(&self.sorted_indices, last).is_some() {
            self.focus = OverviewFocus::Terminal(last);
            self.ensure_visible_sorted(last);
        } else {
            // Fall back to the first visible panel in sorted order
            let idx = self.sorted_indices[0];
            self.focus_on(idx);
        }
    }

    /// Return to options bar from terminal.
    pub fn exit_terminal(&mut self)
        requires
            old(self).wf(),
        ensures
            final(self).wf(),
            final(self)@ == old(self)@.terminal_left(),
            final(self).agent_terminals == old(self).agent_terminals,
            final(self).panels == old(self).panels,
    {
        if let OverviewFocus::Terminal(idx) = self.focus {
            self.last_terminal_idx = idx;
        }
        self.focus = OverviewFocus::OptionsBar;
    }

    /// What to send when the user types: the bytes, to the focused agent.
    pub fn send_input(&self, data: Vec<u8>) -> (command: Option<(usize, PanelCommand)>)
        ensures
            command == (match focused_index(self@) {
                Some(idx) => Some((idx, PanelCommand::Input(data))),
                None => None,
            }),
    {
        match self.focused_panel() {
            Some(idx) => Some((idx, PanelCommand::Input(data))),
            None => None,
        }
    }

    /// Scroll the focused panel's scrollback up by one page.
    pub fn panel_scroll_up(&mut self)
        requires
            old(self).wf(),
        ensures
            final(self).wf(),
            final(self)@ == old(self)@.panel_scrolled(true),
            final(self).agent_terminals == old(self).agent_terminals,
    {
        let ghost before = self@;
        if let Some(idx) = self.focused_panel() {
            assert(self@.panels[idx as int] == self.panels@[idx as int]@);
            let page = self.panels[idx].vterm.screen.rows();
            let max = self.panels[idx].vterm.screen.scrollback_len();
            let next = self.panels[idx].panel_scroll_offset.saturating_add(page);
            self.panels[idx].panel_scroll_offset = if next < max {
                next
            } else {
                max
            };
            proof {
                let after = before.panel_scrolled(true).panels;
                assert(self@.panels[idx as int] =~= after[idx as int]);
                assert(self@.panels =~= after);
            }
        }
    }

    /// Scroll the focused panel's scrollback down by one page.
    pub fn panel_scroll_down(&mut self)
        requires
            old(self).wf(),
        ensures
            final(self).wf(),
            final(self)@ == old(self)@.panel_scrolled(false),
            final(self).agent_terminals == old(self).agent_terminals,
    {
        let ghost before = self@;
        if let Some(idx) = self.focused_panel() {
            assert(self@.panels[idx as int] == self.panels@[idx as int]@);
            let page = self.panels[idx].vterm.screen.rows();
            let offset = self.panels[idx].panel_scroll_offset;
            self.panels[idx].panel_scroll_offset = offset.saturating_sub(page);
            proof {
                let after = before.panel_scrolled(false).panels;
                assert(self@.panels[idx as int] =~= after[idx as int]);
                assert(self@.panels =~= after);
            }
        }
    }

    /// Scroll viewport left (within sorted/filtered list).
    pub fn scroll_left(&mut self)
        requires
            old(self).wf(),
        ensures
            final(self).wf(),
            final(self)@ == (OverviewView {
                scroll_offset: imax(old(self)@.scroll_offset - 1, 0),
                ..old(self)@
            }),
            final(self).agent_terminals == old(self).agent_terminals,
    {
        if self.scroll_offset > 0 {
            self.scroll_offset -= 1;
        }
    }

    /// Scroll viewport right (within sorted/filtered list).
    pub fn scroll_right(&mut self, visible_width: u16)
        requires
            old(self).wf(),
        ensures
            final(self).wf(),
            final(self)@ == (OverviewView {
                scroll_offset: if old(self)@.scroll_offset + old(self)@.visible_count(
                    visible_width,
                ) < old(self)@.sorted.len() {
                    old(self)@.scroll_offset + 1
                } else {
                    old(self)@.scroll_offset
                },
                ..old(self)@
            }),
            final(self).agent_terminals == old(self).agent_terminals,
    {
        let visible = self.visible_panel_count(visible_width);
        if self.scroll_offset.saturating_add(visible) < self.sorted_indices.len() {
            self.scroll_offset += 1;
        }
    }

    /// Compute panel indices sorted by repo group order, then creation time
    /// (newly-spawned agents appear at the end of their group). Panels whose
    /// repo is collapsed are excluded from the result.
    pub fn compute_sorted_indices(&mut self, repos: &Vec<RepoInfo>)
        requires
            old(self).wf(),
        ensures
            final(self).wf(),
            final(self)@ == (OverviewView {
                sorted: sorting::sorted(
                    shown_panels(
                        old(self)@.panels,
                        old(self)@.collapsed,
                        old(self)@.panels.len(),
                    ),
                    panel_keys(old(self)@.panels, repos@),
                ),
                ..old(self)@
            }),
            final(self).agent_terminals == old(self).agent_terminals,
            forall|k: int| 0 <= k < final(self)@.sorted.len() ==> (#[trigger] final(
                self)@.sorted[k]) < final(self)@.panels.len(),
    {
        let ghost views = self@.panels;
        let mut keys: Vec<SortKey> = Vec::new();
        let mut chosen: Vec<usize> = Vec::new();
        let mut i: usize = 0;
        while i < self.panels.len()
            invariant
                i <= self.panels@.len(),
                views == panels_view(self.panels@),
                keys@.len() == i,
                forall|k: int|
                    0 <= k < i ==> (#[trigger] keys@[k])@ == panel_keys(views, repos@)[k],
                forall|k: int| 0 <= k < chosen@.len() ==> (#[trigger] chosen@[k]) < i,
                chosen@ == shown_panels(views, self@.collapsed, i as nat),
            decreases self.panels@.len() - i,
        {
            assert(views[i as int] == self.panels@[i as int]@);
            let collapsed = match &self.panels[i].repo_path {
                Some(rp) => contains_text(&self.collapsed_repos, rp.as_str()),
                None => {
                    let none = String::new();
                    contains_text(&self.collapsed_repos, none.as_str())
                },
            };
            keys.push(
                SortKey {
                    group: order_of_repo(repos, &self.panels[i].repo_path),
                    name: Some(self.panels[i].started_at.clone()),
                    id: self.panels[i].id.clone(),
                },
            );
            if !collapsed {
                chosen.push(i);
            }
            i += 1;
        }
        assert(sorting::keys_view(keys@) =~= panel_keys(views, repos@));
        self.sorted_indices = sort_by_keys(&chosen, &keys);
    }
}

/// The indices below `n`.
pub open spec fn first_indices(n: nat) -> Seq<usize> {
    Seq::new(n, |i: int| i as usize)
}

/// The panel that has the focus, if it exists.
pub open spec fn focused_index(state: OverviewView) -> Option<usize> {
    match state.focus {
        OverviewFocus::Terminal(idx) => if idx < state.panels.len() {
            Some(idx)
        } else {
            None
        },
        OverviewFocus::OptionsBar => None,
    }
}

proof fn lemma_place_contains(indices: Seq<usize>, idx: usize)
    ensures
        place_of(indices, idx) is Some <==> indices.contains(idx),
        place_of(indices, idx) matches Some(p) ==> 0 <= p < indices.len() && indices[p] == idx,
    decreases indices.len(),
{
    if indices.len() > 0 && indices[0] != idx {
        lemma_place_contains(indices.skip(1), idx);
        if indices.contains(idx) {
            let k = indices.index_of(idx);
            assert(indices.skip(1)[k - 1] == idx);
        }
        if indices.skip(1).contains(idx) {
            let k = indices.skip(1).index_of(idx);
            assert(indices[k + 1] == idx);
        }
    }
}

// ── Laws ───────────────────────────────────────────────────────────

/// After a synchronisation no panel belongs to an agent that is gone, and the focus is on a
/// panel that exists.
pub proof fn synced_panels_are_living(state: OverviewView, agents: Seq<AgentView>)
    ensures
        forall|i: int|
            0 <= i < state.synced(agents).panels.len() ==> listed(
                agents,
                (#[trigger] state.synced(agents).panels[i]).id,
            ),
        state.synced(agents).focus matches OverviewFocus::Terminal(idx) ==> idx < state.synced(
            agents,
        ).panels.len() || state.synced(agents).panels.len() > usize::MAX,
{
    lemma_living(state.panels, agents);
    let kept = living(state.panels, agents);
    lemma_opened(kept, agents, agents, state.panel_cols as int, state.panel_rows as int);
    let all = with_opened(kept, agents, state.panel_cols as int, state.panel_rows as int);
    lemma_metadata_keeps_ids(all, agents);
    assert forall|i: int| 0 <= i < state.synced(agents).panels.len() implies listed(
        agents,
        (#[trigger] state.synced(agents).panels[i]).id,
    ) by {
        assert(listed(agents, all[i].id));
    }
}

proof fn lemma_living(panels: Seq<PanelView>, agents: Seq<AgentView>)
    ensures
        forall|i: int|
            0 <= i < living(panels, agents).len() ==> listed(
                agents,
                (#[trigger] living(panels, agents)[i]).id,
            ),
    decreases panels.len(),
{
    if panels.len() > 0 {
        lemma_living(panels.drop_last(), agents);
    }
}

proof fn lemma_opened(
    panels: Seq<PanelView>,
    agents: Seq<AgentView>,
    all: Seq<AgentView>,
    cols: int,
    rows: int,
)
    requires
        forall|i: int| 0 <= i < panels.len() ==> listed(all, (#[trigger] panels[i]).id),
        forall|i: int| 0 <= i < agents.len() ==> listed(all, (#[trigger] agents[i]).id),
    ensures
        forall|i: int|
            0 <= i < with_opened(panels, agents, cols, rows).len() ==> listed(
                all,
                (#[trigger] with_opened(panels, agents, cols, rows)[i]).id,
            ),
        forall|k: int|
            0 <= k < agents.len() ==> panel_at(
                with_opened(panels, agents, cols, rows),
                (#[trigger] agents[k]).id,
            ) < with_opened(panels, agents, cols, rows).len(),
    decreases agents.len(),
{
    if agents.len() > 0 {
        let front = agents.drop_last();
        assert forall|i: int| 0 <= i < front.len() implies listed(
            all,
            (#[trigger] front[i]).id,
        ) by {
            assert(listed(all, agents[i].id));
        }
        lemma_opened(panels, front, all, cols, rows);
        let before = with_opened(panels, front, cols, rows);
        let after = with_opened(panels, agents, cols, rows);
        assert(listed(all, agents[agents.len() - 1].id));
        assert forall|k: int| 0 <= k < agents.len() implies panel_at(
            after,
            (#[trigger] agents[k]).id,
        ) < after.len() by {
            lemma_panel_at_range(after, agents[k].id);
            if k < front.len() {
                assert(front[k] == agents[k]);
                lemma_panel_at_range(before, front[k].id);
                let p = panel_at(before, front[k].id) as int;
                assert(after[p].id == agents[k].id);
            } else if after.len() > before.len() {
                assert(after[before.len() as int].id == agents[k].id);
            }
        }
    }
}

proof fn lemma_metadata_keeps_ids(panels: Seq<PanelView>, agents: Seq<AgentView>)
    ensures
        with_metadata(panels, agents).len() == panels.len(),
        forall|i: int|
            0 <= i < panels.len() ==> (#[trigger] with_metadata(panels, agents)[i]).id
                == panels[i].id,
    decreases agents.len(),
{
    if agents.len() > 0 {
        lemma_metadata_keeps_ids(panels, agents.drop_last());
    }
}

/// After a synchronisation every listed agent has a panel.
pub proof fn synced_agents_have_panels(state: OverviewView, agents: Seq<AgentView>, k: int)
    requires
        0 <= k < agents.len(),
    ensures
        panel_at(state.synced(agents).panels, agents[k].id) < state.synced(agents).panels.len(),
{
    lemma_living(state.panels, agents);
    let kept = living(state.panels, agents);
    assert forall|i: int| 0 <= i < agents.len() implies listed(
        agents,
        (#[trigger] agents[i]).id,
    ) by {}
    lemma_opened(kept, agents, agents, state.panel_cols as int, state.panel_rows as int);
    let all = with_opened(kept, agents, state.panel_cols as int, state.panel_rows as int);
    lemma_metadata_keeps_ids(all, agents);
    let panels = state.synced(agents).panels;
    lemma_panel_at_range(all, agents[k].id);
    lemma_panel_at_range(panels, agents[k].id);
    let p = panel_at(all, agents[k].id) as int;
    assert(panels[p].id == all[p].id);
}

/// A panel that gets the focus is in view afterwards.
pub proof fn focused_panel_comes_into_view(state: OverviewView, idx: usize)
    requires
        state.sorted.contains(idx),
        state.viewport_width > 0,
        state.scroll_offset >= 0,
    ensures
        ({
            let after = state.focused_on(idx);
            let pos = place_of(after.sorted, idx)->0;
            after.scroll_offset <= pos < after.scroll_offset + panels_fitting(
                after.viewport_width,
            )
        }),
{
    lemma_place_contains(state.sorted, idx);
}

/// Going to the next agent and back leads to the agent one came from.
pub proof fn focus_next_and_back(state: OverviewView)
    requires
        state.focus matches OverviewFocus::Terminal(idx) && state.sorted.contains(idx),
        forall|i: int, j: int|
            0 <= i < j < state.sorted.len() ==> state.sorted[i] != state.sorted[j],
    ensures
        state.focus_moved(1).focus_moved(-1).focus == state.focus,
        state.focus_moved(-1).focus_moved(1).focus == state.focus,
{
    let idx = state.focus->Terminal_0;
    lemma_place_contains(state.sorted, idx);
    let pos = place_of(state.sorted, idx)->0;
    let n = state.sorted.len() as int;
    let next = if pos + 1 >= n {
        0
    } else {
        pos + 1
    };
    let prev = if pos - 1 < 0 {
        n - 1
    } else {
        pos - 1
    };
    lemma_place_of(state.sorted, state.sorted[next], next);
    lemma_place_of(state.sorted, state.sorted[prev], prev);
    lemma_place_of(state.sorted, idx, pos);
    assert(state.focus_moved(1).sorted == state.sorted);
    assert(state.focus_moved(-1).sorted == state.sorted);
}

/// The first `n` panels whose size is not the given one.
pub open spec fn stale_panels(panels: Seq<PanelView>, cols: int, rows: int, n: nat) -> Seq<usize>
    decreases n,
{
    if n == 0 {
        Seq::empty()
    } else {
        let rest = stale_panels(panels, cols, rows, (n - 1) as nat);
        if panels[n - 1].screen.cols != cols || panels[n - 1].screen.rows != rows {
            rest.push((n - 1) as usize)
        } else {
            rest
        }
    }
}

/// The focus goes from an agent to the one beside it in the order that is shown, and from the last
/// to the first and back.
pub proof fn focus_goes_in_the_order_shown(state: OverviewView, pos: int)
    requires
        0 <= pos < state.sorted.len(),
        state.focus == OverviewFocus::Terminal(state.sorted[pos]),
        forall|i: int, j: int|
            0 <= i < j < state.sorted.len() ==> state.sorted[i] != state.sorted[j],
    ensures
        ({
            let n = state.sorted.len() as int;
            let next = state.focus_moved(1).focus;
            let prev = state.focus_moved(-1).focus;
            &&& pos + 1 < n ==> next == OverviewFocus::Terminal(state.sorted[pos + 1])
            &&& pos + 1 == n ==> next == OverviewFocus::Terminal(state.sorted[0])
            &&& pos > 0 ==> prev == OverviewFocus::Terminal(state.sorted[pos - 1])
            &&& pos == 0 ==> prev == OverviewFocus::Terminal(state.sorted[n - 1])
        }),
{
    lemma_place_of(state.sorted, state.sorted[pos], pos);
}

/// Leaving the terminals and going back leads to the agent that had the focus, where it is shown,
/// and else to the first that is.
pub proof fn going_back_leads_to_the_last_agent(state: OverviewView, idx: usize)
    requires
        state.focus == OverviewFocus::Terminal(idx),
        state.sorted.len() > 0,
    ensures
        state.terminal_left().focus == OverviewFocus::OptionsBar,
        state.sorted.contains(idx) ==> state.terminal_left().terminal_entered().focus
            == OverviewFocus::Terminal(idx),
        !state.sorted.contains(idx) ==> state.terminal_left().terminal_entered().focus
            == OverviewFocus::Terminal(state.sorted[0]),
{
}

/// The panel in focus scrolls back by as many rows as it has, up to the oldest row that is kept,
/// and forward again to the newest; no other panel scrolls.
pub proof fn panels_scroll_by_pages(state: OverviewView, idx: usize, k: int)
    requires
        state.focus == OverviewFocus::Terminal(idx),
        idx < state.panels.len(),
        0 <= k < state.panels.len(),
    ensures
        ({
            let p = state.panels[idx as int];
            let up = state.panel_scrolled(true).panels;
            let down = state.panel_scrolled(false).panels;
            let page = p.screen.rows;
            &&& p.scroll_offset + page <= p.screen.scrollback.len() ==> up[idx as int].scroll_offset
                == p.scroll_offset + page
            &&& p.scroll_offset + page > p.screen.scrollback.len() ==> up[idx as int].scroll_offset
                == p.screen.scrollback.len()
            &&& p.scroll_offset >= page ==> down[idx as int].scroll_offset == p.scroll_offset - page
            &&& p.scroll_offset < page ==> down[idx as int].scroll_offset == 0
            &&& up[idx as int].screen == p.screen && down[idx as int].screen == p.screen
            &&& k != idx ==> up[k] == state.panels[k] && down[k] == state.panels[k]
        }),
{
}

/// Output goes to the panel of the agent that it comes from, which draws it, and to no other.
pub proof fn output_goes_to_its_own_panel(
    panels: Seq<PanelView>,
    id: String,
    data: Vec<u8>,
    i: int,
    k: int,
)
    requires
        0 <= i < panels.len(),
        0 <= k < panels.len(),
        panels[i].id == id@,
        forall|a: int, b: int| 0 <= a < b < panels.len() ==> panels[a].id != panels[b].id,
    ensures
        ({
            let after = panels_after_event(panels, AgentOutputEvent::Output { id, data });
            &&& after.len() == panels.len()
            &&& after[i].screen == panels[i].screen.fed(panels[i].input, data@)
            &&& after[i].input == panels[i].input + data@
            &&& after[i].exited == panels[i].exited
            &&& k != i ==> after[k] == panels[k]
        }),
{
    lemma_panel_at_is(panels, id@, i);
}

/// An agent that has gone is marked as such in its own panel, and its screen stays.
pub proof fn ends_go_to_their_own_panel(
    panels: Seq<PanelView>,
    event: AgentOutputEvent,
    i: int,
    k: int,
)
    requires
        0 <= i < panels.len(),
        0 <= k < panels.len(),
        !(event is Output),
        panels[i].id == event_id(event),
        forall|a: int, b: int| 0 <= a < b < panels.len() ==> panels[a].id != panels[b].id,
    ensures
        ({
            let after = panels_after_event(panels, event);
            &&& after[i].exited && after[i].screen == panels[i].screen
            &&& k != i ==> after[k] == panels[k]
        }),
{
    lemma_panel_at_is(panels, event_id(event), i);
}

proof fn lemma_panel_at_is(panels: Seq<PanelView>, id: Seq<char>, i: int)
    requires
        0 <= i < panels.len(),
        panels[i].id == id,
        forall|a: int, b: int| 0 <= a < b < panels.len() ==> panels[a].id != panels[b].id,
    ensures
        panel_at(panels, id) == i,
    decreases panels.len(),
{
    if i > 0 {
        let rest = panels.skip(1);
        assert(panels[0].id != panels[i].id);
        assert forall|a: int, b: int| 0 <= a < b < rest.len() implies rest[a].id != rest[b].id by {
            assert(panels[a + 1].id != panels[b + 1].id);
        }
        lemma_panel_at_is(rest, id, i - 1);
    }
}

/// A terminal takes the output that comes under its id, or under any while it has none yet, and
/// draws it; output for another is left alone. Its end is told the same way.
pub proof fn terminals_take_their_own_output(
    terminal: TerminalView,
    id: String,
    data: Vec<u8>,
)
    ensures
        ({
            let mine = terminal.id.len() == 0 || terminal.id == id@;
            let out = terminal.after_event(TerminalOutputEvent::Output { id, data });
            let end = terminal.after_event(TerminalOutputEvent::Exited { id });
            &&& mine ==> out.screen == terminal.screen.fed(terminal.input, data@) && out.id == id@
            &&& !mine ==> out == terminal
            &&& mine ==> end.exited
            &&& !mine ==> end == terminal
            &&& end.screen == terminal.screen
        }),
        terminal.id.len() == 0 ==> terminal.after_event(TerminalOutputEvent::Started { id }).id
            == id@,
        terminal.id.len() > 0 ==> terminal.after_event(TerminalOutputEvent::Started { id }).id
            == terminal.id,
{
}

/// What was reported last is what is told of a terminal that could not be started.
pub proof fn the_last_failure_is_told(events: Seq<TerminalOutputEvent>, event: TerminalOutputEvent)
    ensures
        event matches TerminalOutputEvent::SpawnFailed { message } ==> last_failure(
            events.push(event),
        ) == Some(message@),
        !(event is SpawnFailed) ==> last_failure(events.push(event)) == last_failure(events),
{
    assert(events.push(event).drop_last() =~= events);
}

/// Agents are shown by repository, in the order of the list of repositories and those without any
/// last; within a repository the one that was started first goes first.
pub proof fn agents_are_shown_by_repository_and_age(
    panels: Seq<PanelView>,
    repos: Seq<RepoInfo>,
    a: int,
    b: int,
)
    requires
        0 <= a < panels.len(),
        0 <= b < panels.len(),
    ensures
        ({
            let keys = panel_keys(panels, repos);
            let x = repo_order(repos, panels[a].repo_path);
            let y = repo_order(repos, panels[b].repo_path);
            &&& x < y ==> keys[a].lt(keys[b])
            &&& x == y && text::lex_lt(panels[a].started_at, panels[b].started_at) ==> keys[a].lt(
                keys[b],
            )
        }),
{
    text::lex_order_is_total(panels[a].started_at, panels[b].started_at, panels[a].started_at);
}

/// A repository has its place in the list; what is not listed comes behind all that is.
pub proof fn repositories_have_their_place(repos: Seq<RepoInfo>, i: int, path: Option<Seq<char>>)
    requires
        0 <= i < repos.len() < usize::MAX,
        forall|a: int, b: int| 0 <= a < b < repos.len() ==> repos[a].path@ != repos[b].path@,
    ensures
        repo_order(repos, Some(repos[i].path@)) == i,
        path is None ==> repo_order(repos, path) >= repos.len(),
        path is Some && (forall|k: int| 0 <= k < repos.len() ==> (#[trigger] repos[k]).path@
            != path->0) ==> repo_order(repos, path) >= repos.len(),
    decreases repos.len(),
{
    lemma_listed_place(repos, i);
    lemma_unlisted_place(repos, path);
}

proof fn lemma_listed_place(repos: Seq<RepoInfo>, i: int)
    requires
        0 <= i < repos.len() < usize::MAX,
        forall|a: int, b: int| 0 <= a < b < repos.len() ==> repos[a].path@ != repos[b].path@,
    ensures
        repo_order(repos, Some(repos[i].path@)) == i,
    decreases repos.len(),
{
    let front = repos.drop_last();
    if i < front.len() {
        assert(repos[i].path@ != repos[repos.len() - 1].path@);
        assert forall|a: int, b: int| 0 <= a < b < front.len() implies front[a].path@
            != front[b].path@ by {
            assert(repos[a].path@ != repos[b].path@);
        }
        lemma_listed_place(front, i);
        assert(front[i] == repos[i]);
    }
}

proof fn lemma_unlisted_place(repos: Seq<RepoInfo>, path: Option<Seq<char>>)
    ensures
        path is None ==> repo_order(repos, path) == usize::MAX,
        path is Some && (forall|k: int| 0 <= k < repos.len() ==> (#[trigger] repos[k]).path@
            != path->0) ==> repo_order(repos, path) == usize::MAX,
    decreases repos.len(),
{
    if repos.len() > 0 {
        let front = repos.drop_last();
        lemma_unlisted_place(front, path);
        if path is Some && (forall|k: int| 0 <= k < repos.len() ==> (#[trigger] repos[k]).path@
            != path->0) {
            assert(repos[repos.len() - 1].path@ != path->0);
            assert forall|k: int| 0 <= k < front.len() implies (#[trigger] front[k]).path@
                != path->0 by {
                assert(repos[k].path@ != path->0);
            }
        }
    }
}

/// The panel of an agent stands where its id is found first.
pub proof fn panels_are_found_by_id(panels: Seq<PanelView>, id: Seq<char>)
    ensures
        panel_at(panels, id) <= panels.len(),
        panel_at(panels, id) < panels.len() ==> panels[panel_at(panels, id) as int].id == id,
        forall|i: int| 0 <= i < panel_at(panels, id) && i < panels.len() ==> (#[trigger] panels[i]).id
            != id,
    decreases panels.len(),
{
    if panels.len() > 0 && panels[0].id != id {
        let rest = panels.skip(1);
        panels_are_found_by_id(rest, id);
        assert forall|i: int| 0 <= i < panel_at(panels, id) && i < panels.len() implies (
        #[trigger] panels[i]).id != id by {
            if i > 0 {
                assert(rest[i - 1] == panels[i]);
            }
        }
    }
}

/// What is told of an agent is taken over by its own panel, which stays what it is otherwise,
/// and by no other.
pub proof fn panels_take_over_what_is_told(
    panels: Seq<PanelView>,
    agents: Seq<AgentView>,
    agent: AgentView,
    i: int,
)
    requires
        0 <= i < with_metadata(panels, agents).len(),
    ensures
        ({
            let before = with_metadata(panels, agents);
            let after = with_metadata(panels, agents.push(agent));
            let own = panel_at(before, agent.id);
            &&& after.len() == before.len()
            &&& i != own ==> after[i] == before[i]
            &&& i == own ==> {
                &&& before[i].id == agent.id
                &&& after[i].branch_name == agent.branch_name
                &&& after[i].repo_path == agent.repo_path
                &&& after[i].id == before[i].id
                &&& after[i].screen == before[i].screen
                &&& after[i].exited == before[i].exited
            }
        }),
{
    assert(agents.push(agent).drop_last() =~= agents);
    panels_are_found_by_id(with_metadata(panels, agents), agent.id);
}

/// An agent without a panel gets one, behind the others and of the size that panels have; one
/// with a panel keeps it.
pub proof fn new_agents_get_a_panel(
    panels: Seq<PanelView>,
    agents: Seq<AgentView>,
    agent: AgentView,
    cols: int,
    rows: int,
)
    requires
        cols > 0,
        rows > 0,
    ensures
        ({
            let before = with_opened(panels, agents, cols, rows);
            let after = with_opened(panels, agents.push(agent), cols, rows);
            let known = exists|i: int| 0 <= i < before.len() && (#[trigger] before[i]).id == agent.id;
            &&& known ==> after == before
            &&& !known ==> {
                &&& after.drop_last() == before
                &&& after.last().id == agent.id
                &&& after.last().agent_binary == agent.agent_binary
                &&& after.last().branch_name == agent.branch_name
                &&& after.last().repo_path == agent.repo_path
                &&& after.last().screen.cols == cols
                &&& after.last().screen.rows == rows
                &&& !after.last().exited
            }
        }),
{
    let before = with_opened(panels, agents, cols, rows);
    let after = with_opened(panels, agents.push(agent), cols, rows);
    assert(agents.push(agent).drop_last() =~= agents);
    panels_are_found_by_id(before, agent.id);
    if panel_at(before, agent.id) < before.len() {
        assert(before[panel_at(before, agent.id) as int].id == agent.id);
    } else {
        assert(after.drop_last() =~= before);
    }
}

/// The panels of agents that are gone are closed, the others stay in their order; the same is
/// so of the shells kept for them.
pub proof fn what_is_gone_is_closed(
    panels: Seq<PanelView>,
    panel: PanelView,
    caches: TerminalCaches,
    cache: (String, AgentTerminalCache),
    agents: Seq<AgentView>,
)
    ensures
        listed(agents, panel.id) ==> living(panels.push(panel), agents) == living(
            panels,
            agents,
        ).push(panel) && gone(panels.push(panel), agents) == gone(panels, agents),
        !listed(agents, panel.id) ==> living(panels.push(panel), agents) == living(panels, agents)
            && gone(panels.push(panel), agents) == gone(panels, agents).push(panel.id),
        listed(agents, cache.0@) ==> living_caches(caches.push(cache), agents) == living_caches(
            caches,
            agents,
        ).push(cache) && gone_caches(caches.push(cache), agents) == gone_caches(caches, agents),
        !listed(agents, cache.0@) ==> living_caches(caches.push(cache), agents) == living_caches(
            caches,
            agents,
        ) && gone_caches(caches.push(cache), agents) == gone_caches(caches, agents).push(cache),
{
    assert(panels.push(panel).drop_last() =~= panels);
    assert(caches.push(cache).drop_last() =~= caches);
}

/// The focus never stands on a panel that is not there, nor does what is remembered of it, and
/// without panels it stands on the bar.
pub proof fn focus_stands_on_a_panel(state: OverviewView)
    requires
        state.last_terminal_idx >= 0,
        state.panels.len() <= usize::MAX,
    ensures
        ({
            let after = state.clamped();
            let n = state.panels.len();
            &&& n == 0 ==> after.focus == OverviewFocus::OptionsBar
            &&& n > 0 ==> after.last_terminal_idx < n
            &&& n > 0 && after.focus is Terminal ==> after.focus->Terminal_0 < n
            &&& n > 0 && state.focus is OptionsBar ==> after.focus is OptionsBar
            &&& n > 0 && state.focus is Terminal ==> after.focus is Terminal
            &&& state.focus is Terminal && state.focus->Terminal_0 < n ==> after.focus == state.focus
            &&& 0 <= state.last_terminal_idx < n ==> after.last_terminal_idx
                == state.last_terminal_idx
            &&& state.sorted.len() > 0 && n > 0 ==> after.scroll_offset < state.sorted.len()
            &&& after.panels == state.panels
        }),
{
}

/// Panels have the height that the bars leave and the width that is theirs, without the border.
pub proof fn panels_have_what_is_left(state: OverviewView, agent_count: usize, area: Rect)
    requires
        agent_count > 0,
        area.height > 6,
        0 <= state.scroll_offset,
    ensures
        ({
            let after = state.sized(agent_count, area);
            let left = imax(agent_count - state.scroll_offset, 1);
            let shown = imin(left, panels_fitting(area.width));
            &&& after.panel_rows + 6 == area.height
            &&& after.panel_cols + 2 == panel_width(area.width, shown as usize)
            &&& after.viewport_width == area.width
            &&& after.panels == state.panels
            &&& 1 <= shown <= left
        }),
        state.sized(0, area) == state,
{
}

/// Panels share the width evenly: two have half of it each, and no panel is narrower than
/// allowed.
pub proof fn panels_share_the_width(width: u16, count: usize)
    requires
        2 <= count <= u16::MAX,
        count <= panels_fitting(width),
    ensures
        panel_width(width, count) * count <= width,
        width < (panel_width(width, count) + 1) * count,
        panel_width(width, 1) == panel_width(width, 2),
        panel_width(width, count) >= MIN_PANEL_WIDTH,
{
    let w = width as int;
    let c = count as int;
    let m = MIN_PANEL_WIDTH as int;
    assert(w / c >= m) by (nonlinear_arith)
        requires
            c <= w / m,
            m > 0,
            c > 0,
            w >= 0,
    ;
    assert((w / c) * c <= w && w < (w / c + 1) * c) by (nonlinear_arith)
        requires
            c > 0,
            w >= 0,
    ;
}

/// Those panels are resized whose screen is of another size than panels have.
pub proof fn misfits_are_resized(panels: Seq<PanelView>, cols: int, rows: int, n: nat, i: usize)
    requires
        n <= panels.len() <= usize::MAX,
    ensures
        stale_panels(panels, cols, rows, n).contains(i) <==> i < n && (panels[i as int].screen.cols
            != cols || panels[i as int].screen.rows != rows),
    decreases n,
{
    if n > 0 {
        let rest = stale_panels(panels, cols, rows, (n - 1) as nat);
        misfits_are_resized(panels, cols, rows, (n - 1) as nat, i);
        let last = (n - 1) as usize;
        lemma_pushed(rest, last, i);
    }
}

proof fn lemma_pushed(s: Seq<usize>, last: usize, i: usize)
    ensures
        s.push(last).contains(i) <==> s.contains(i) || i == last,
{
    if s.contains(i) {
        assert(s.push(last)[s.index_of(i)] == i);
    }
    assert(s.push(last)[s.len() as int] == last);
    if s.push(last).contains(i) && i != last {
        let k = s.push(last).index_of(i);
        assert(s[k] == i);
    }
}

/// A panel is shown unless its repository is collapsed.
pub proof fn collapsed_repositories_are_hidden(
    panels: Seq<PanelView>,
    collapsed: Seq<Seq<char>>,
    n: nat,
    i: usize,
)
    requires
        n <= panels.len() <= usize::MAX,
    ensures
        shown_panels(panels, collapsed, n).contains(i) <==> i < n && !collapsed.contains(
            group_path(panels[i as int].repo_path),
        ),
    decreases n,
{
    if n > 0 {
        let rest = shown_panels(panels, collapsed, (n - 1) as nat);
        collapsed_repositories_are_hidden(panels, collapsed, (n - 1) as nat, i);
        lemma_pushed(rest, (n - 1) as usize, i);
    }
}

/// Each shell takes the output that came for it, one event after the other.
pub proof fn shells_take_their_own_events(
    panels: Seq<TerminalView>,
    pending: Seq<Seq<TerminalOutputEvent>>,
    i: int,
    event: TerminalOutputEvent,
)
    requires
        0 <= i < panels.len(),
    ensures
        drained(panels, pending).len() == panels.len(),
        drained(panels, pending)[i] == panels[i].after_events(pending[i]),
        panels[i].after_events(pending[i].push(event)) == panels[i].after_events(
            pending[i],
        ).after_event(event),
        panels[i].after_events(Seq::empty()) == panels[i],
{
    assert(pending[i].push(event).drop_last() =~= pending[i]);
}

/// The shells of an agent are found under its id, the first time it occurs.
pub proof fn shells_are_found_by_agent(caches: TerminalCaches, id: Seq<char>)
    ensures
        cache_at(caches, id) <= caches.len(),
        cache_at(caches, id) < caches.len() ==> caches[cache_at(caches, id) as int].0@ == id,
        forall|i: int| 0 <= i < cache_at(caches, id) && i < caches.len() ==> (#[trigger] caches[i]).0@
            != id,
    decreases caches.len(),
{
    if caches.len() > 0 && caches[0].0@ != id {
        let rest = caches.skip(1);
        shells_are_found_by_agent(rest, id);
        assert forall|i: int| 0 <= i < cache_at(caches, id) && i < caches.len() implies (
        #[trigger] caches[i]).0@ != id by {
            if i > 0 {
                assert(rest[i - 1] == caches[i]);
            }
        }
    }
}

} // verus!
