//! Choosing from a list at the prompt, and setting the default agent.

use vstd::prelude::*;

use crate::commands;
use crate::formatting;
use crate::lists;
use crate::notes;
use crate::overview;
use crate::text;
use crate::commands::repo_text;
use crate::formatting::{column_of, format_attached};
use crate::keys::KeyCode;
use crate::lists::{select_next, select_prev};
use crate::notes::{no_pieces, push_piece, Ink, Piece};
use crate::protocol::AgentInfo;
use crate::text::{chars_of, copy_of, joined, string_of, text_eq};

verus! {

// ── Moving through a list ──────────────────────────────────────────

/// What a key does in a list.
#[derive(Debug, Clone, Copy, PartialEq, Eq, Structural)]
pub enum Picking {
    /// The list is shown again.
    Redraw,
    /// The key means nothing here.
    Ignored,
    /// The selected entry is chosen.
    Chosen,
}

/// A list with a selected entry. The first entry cancels.
#[derive(Debug, Clone, Copy, PartialEq, Eq, Structural)]
pub struct Selector {
    pub selected: usize,
    pub count: usize,
}

impl Selector {
    pub open spec fn wf(self) -> bool {
        self.selected < self.count
    }

    pub open spec fn after_key(self, code: KeyCode) -> (int, Picking) {
        match code {
            KeyCode::Up => (lists::prev_in(self.selected as int), Picking::Redraw),
            KeyCode::Down => (
                lists::next_in(self.selected as int, self.count as int),
                Picking::Redraw,
            ),
            KeyCode::Enter => (self.selected as int, Picking::Chosen),
            KeyCode::Esc => (0, Picking::Chosen),
            KeyCode::Char(c) => if c == 'q' {
                (0, Picking::Chosen)
            } else {
                (self.selected as int, Picking::Ignored)
            },
            _ => (self.selected as int, Picking::Ignored),
        }
    }

    /// Takes a key.
    pub fn step(&mut self, code: KeyCode) -> (picking: Picking)
        requires
            old(self).wf(),
        ensures
            final(self).wf(),
            final(self).count == old(self).count,
            (final(self).selected as int, picking) == old(self).after_key(code),
    {
        match code {
            KeyCode::Up => {
                self.selected = select_prev(self.selected);
                Picking::Redraw
            },
            KeyCode::Down => {
                self.selected = select_next(self.selected, self.count);
                Picking::Redraw
            },
            KeyCode::Enter => Picking::Chosen,
            KeyCode::Esc => {
                self.selected = 0;
                Picking::Chosen
            },
            KeyCode::Char(c) => if c == 'q' {
                self.selected = 0;
                Picking::Chosen
            } else {
                Picking::Ignored
            },
            _ => Picking::Ignored,
        }
    }
}

/// Leaving a list by Esc or `q` always cancels.
pub proof fn leaving_cancels(s: Selector)
    ensures
        s.after_key(KeyCode::Esc) == (0int, Picking::Chosen),
        s.after_key(KeyCode::Char('q')) == (0int, Picking::Chosen),
{
}

/// The mark of the selected entry.
pub open spec fn pointer(selected: bool) -> Seq<notes::PieceView> {
    if selected {
        seq![
            notes::piece(Ink::Plain, "  "@),
            notes::piece(Ink::Accent, "▸"@),
            notes::piece(Ink::Plain, " "@),
        ]
    } else {
        seq![notes::piece(Ink::Plain, "    "@)]
    }
}

fn pointer_pieces(selected: bool) -> (pieces: Vec<Piece>)
    ensures
        notes::pieces_view(pieces@) == pointer(selected),
{
    let mut pieces = no_pieces();
    if selected {
        push_piece(&mut pieces, Ink::Plain, "  ");
        push_piece(&mut pieces, Ink::Accent, "▸");
        push_piece(&mut pieces, Ink::Plain, " ");
    } else {
        push_piece(&mut pieces, Ink::Plain, "    ");
    }
    assert(notes::pieces_view(pieces@) =~= pointer(selected));
    pieces
}

pub open spec fn entry_ink(selected: bool) -> Ink {
    if selected {
        Ink::Primary
    } else {
        Ink::Tertiary
    }
}

fn ink_of(selected: bool) -> (ink: Ink)
    ensures
        ink == entry_ink(selected),
{
    if selected {
        Ink::Primary
    } else {
        Ink::Tertiary
    }
}

// ── Choosing an agent ──────────────────────────────────────────────

/// What was chosen in the list of agents.
#[derive(Debug, Clone)]
pub enum SelectAction {
    Cancel,
    Attach(String),
    NewAgent,
}

/// The list of agents: a way out, the agents, and a new one.
pub fn agent_selector(agents: &Vec<AgentInfo>) -> (s: Selector)
    requires
        agents@.len() <= usize::MAX - 2,
    ensures
        s.wf(),
        s == (Selector { selected: 0, count: (agents@.len() + 2) as usize }),
{
    Selector { selected: 0, count: agents.len() + 2 }
}

pub open spec fn agent_chosen(agents: Seq<AgentInfo>, selected: int) -> SelectAction {
    if selected == 0 {
        SelectAction::Cancel
    } else if selected <= agents.len() {
        SelectAction::Attach(agents[selected - 1].id)
    } else {
        SelectAction::NewAgent
    }
}

/// What an entry of the list of agents stands for.
pub fn choose_agent(agents: &Vec<AgentInfo>, selected: usize) -> (action: SelectAction)
    ensures
        action == agent_chosen(agents@, selected as int),
{
    if selected == 0 {
        SelectAction::Cancel
    } else if selected <= agents.len() {
        SelectAction::Attach(agents[selected - 1].id.clone())
    } else {
        SelectAction::NewAgent
    }
}

/// An agent in the list.
pub open spec fn agent_entry(agent: AgentInfo, started: Seq<char>, selected: bool) -> Seq<
    notes::PieceView,
> {
    let ink = entry_ink(selected);
    seq![
        notes::piece(Ink::Accent, formatting::column(agent.id@, 8)),
        notes::piece(Ink::Plain, " "@),
        notes::piece(ink, formatting::column(agent.agent_binary@, 12)),
        notes::piece(Ink::Plain, " "@),
        notes::piece(ink, formatting::column(commands::repo_or_dash(overview::opt_view(agent.repo_path)), 16)),
        notes::piece(Ink::Plain, " "@),
        notes::piece(ink, formatting::column(commands::or_dash(overview::opt_view(agent.branch_name)), 20)),
        notes::piece(Ink::Plain, " "@),
        notes::piece(
            if selected {
                Ink::Success
            } else {
                Ink::Tertiary
            },
            formatting::column("running"@, 10),
        ),
        notes::piece(Ink::Plain, " "@),
        notes::piece(ink, formatting::column(started, 14)),
        notes::piece(Ink::Plain, " "@),
        notes::piece(ink, formatting::attached_text(agent.attached_clients as int)),
    ]
}

/// Entry `i` of the list of agents.
pub open spec fn selector_row(
    agents: Seq<AgentInfo>,
    started: Seq<Seq<char>>,
    i: int,
    selected: bool,
) -> Seq<notes::PieceView> {
    pointer(selected) + (if i == 0 {
        seq![notes::piece(entry_ink(selected), "cancel"@)]
    } else if i <= agents.len() {
        agent_entry(agents[i - 1], started[i - 1], selected)
    } else {
        seq![notes::piece(entry_ink(selected), "new agent +"@)]
    })
}

fn push_cell(pieces: &mut Vec<Piece>, ink: Ink, text: &str, width: usize)
    ensures
        notes::pieces_view(final(pieces)@) == notes::pieces_view(old(pieces)@).push(
            notes::piece(ink, formatting::column(text@, width as int)),
        ).push(notes::piece(Ink::Plain, " "@)),
{
    let cell = column_of(text, width);
    push_piece(pieces, ink, cell.as_str());
    push_piece(pieces, Ink::Plain, " ");
}

/// One entry of the list of agents; `started` says of each when it was started.
pub fn selector_line(agents: &Vec<AgentInfo>, started: &Vec<String>, i: usize, selected: bool) -> (
    pieces: Vec<Piece>)
    requires
        started@.len() == agents@.len(),
    ensures
        notes::pieces_view(pieces@) == selector_row(
            agents@,
            text::strings_view(started@),
            i as int,
            selected,
        ),
{
    let mut pieces = pointer_pieces(selected);
    let ghost first = notes::pieces_view(pieces@);
    let ink = ink_of(selected);
    if i == 0 {
        push_piece(&mut pieces, ink, "cancel");
    } else if i <= agents.len() {
        let agent = &agents[i - 1];
        let repo = repo_text(&agent.repo_path);
        let branch = match &agent.branch_name {
            Some(b) => b.clone(),
            None => copy_of("—"),
        };
        let attached = format_attached(agent.attached_clients);
        let state = if selected {
            Ink::Success
        } else {
            Ink::Tertiary
        };
        push_cell(&mut pieces, Ink::Accent, agent.id.as_str(), 8);
        push_cell(&mut pieces, ink, agent.agent_binary.as_str(), 12);
        push_cell(&mut pieces, ink, repo.as_str(), 16);
        push_cell(&mut pieces, ink, branch.as_str(), 20);
        push_cell(&mut pieces, state, "running", 10);
        push_cell(&mut pieces, ink, started[i - 1].as_str(), 14);
        push_piece(&mut pieces, ink, attached.as_str());
        assert(notes::pieces_view(pieces@) =~= first + agent_entry(
            *agent,
            text::strings_view(started@)[i - 1],
            selected,
        ));
    } else {
        push_piece(&mut pieces, ink, "new agent +");
    }
    assert(notes::pieces_view(pieces@) =~= selector_row(
        agents@,
        text::strings_view(started@),
        i as int,
        selected,
    ));
    pieces
}

// ── Choosing a default agent ───────────────────────────────────────

/// An agent program that is known by name.
#[derive(Debug, Clone)]
pub struct KnownAgent {
    pub binary: String,
    pub display_name: String,
    pub tested: bool,
}

/// What was chosen as the default agent.
#[derive(Debug, Clone)]
pub enum DefaultPickerResult {
    Cancel,
    Selected(String),
}

/// What an entry of the list stands for.
#[derive(Debug, Clone)]
pub enum DefaultChoice {
    Cancel,
    Agent(String),
    /// The user types a command.
    Custom,
}

/// The list of agent programs: a way out, the programs, and any other command. It starts on the
/// first program.
pub fn default_selector(installed: &Vec<KnownAgent>) -> (s: Selector)
    requires
        installed@.len() <= usize::MAX - 2,
    ensures
        s.wf(),
        s == (Selector { selected: 1, count: (installed@.len() + 2) as usize }),
{
    Selector { selected: 1, count: installed.len() + 2 }
}

pub open spec fn default_chosen(installed: Seq<KnownAgent>, selected: int) -> DefaultChoice {
    if selected == 0 {
        DefaultChoice::Cancel
    } else if selected <= installed.len() {
        DefaultChoice::Agent(installed[selected - 1].binary)
    } else {
        DefaultChoice::Custom
    }
}

/// What an entry of the list of agent programs stands for.
pub fn choose_default(installed: &Vec<KnownAgent>, selected: usize) -> (choice: DefaultChoice)
    ensures
        choice == default_chosen(installed@, selected as int),
{
    if selected == 0 {
        DefaultChoice::Cancel
    } else if selected <= installed.len() {
        DefaultChoice::Agent(installed[selected - 1].binary.clone())
    } else {
        DefaultChoice::Custom
    }
}

/// Whether a program is among the installed ones.
pub open spec fn is_installed(installed: Seq<KnownAgent>, binary: Seq<char>) -> bool {
    exists|i: int| 0 <= i < installed.len() && (#[trigger] installed[i]).binary@ == binary
}

/// An agent program in the list: its name and command, whether it is tested and whether it is
/// the default.
pub open spec fn program_entry(agent: KnownAgent, current: Option<Seq<char>>, selected: bool) -> Seq<
    notes::PieceView,
> {
    let named = seq![
        notes::piece(entry_ink(selected), agent.display_name@),
        notes::piece(Ink::Plain, " "@),
        notes::piece(
            if selected {
                Ink::Secondary
            } else {
                Ink::Tertiary
            },
            "("@ + agent.binary@ + ")"@,
        ),
    ];
    let tagged = if agent.tested {
        named
    } else {
        named.push(notes::piece(Ink::Plain, " "@)).push(notes::piece(Ink::WarningText, "UNTESTED"@))
    };
    if current == Some(agent.binary@) {
        tagged.push(notes::piece(Ink::Plain, " "@)).push(notes::piece(Ink::Success, "✔"@))
    } else {
        tagged
    }
}

/// The entry for any other command; it carries the default where that is none of the list.
pub open spec fn custom_entry(
    installed: Seq<KnownAgent>,
    current: Option<Seq<char>>,
    selected: bool,
) -> Seq<notes::PieceView> {
    let first = seq![notes::piece(entry_ink(selected), "Custom..."@)];
    match current {
        Some(binary) => if is_installed(installed, binary) {
            first
        } else {
            first + seq![
                notes::piece(Ink::Plain, " "@),
                notes::piece(Ink::Success, "✔"@),
                notes::piece(Ink::Plain, " "@),
                notes::piece(Ink::Secondary, "("@ + binary + ")"@),
            ]
        },
        None => first,
    }
}

pub open spec fn default_row(
    installed: Seq<KnownAgent>,
    current: Option<Seq<char>>,
    i: int,
    selected: bool,
) -> Seq<notes::PieceView> {
    pointer(selected) + (if i == 0 {
        seq![notes::piece(entry_ink(selected), "cancel"@)]
    } else if i <= installed.len() {
        program_entry(installed[i - 1], current, selected)
    } else {
        custom_entry(installed, current, selected)
    })
}

fn find_installed(installed: &Vec<KnownAgent>, binary: &str) -> (found: bool)
    ensures
        found == is_installed(installed@, binary@),
{
    let mut i: usize = 0;
    while i < installed.len()
        invariant
            i <= installed@.len(),
            forall|k: int| 0 <= k < i ==> (#[trigger] installed@[k]).binary@ != binary@,
        decreases installed@.len() - i,
    {
        if text_eq(installed[i].binary.as_str(), binary) {
            assert(installed@[i as int].binary@ == binary@);
            return true;
        }
        i += 1;
    }
    false
}

/// One entry of the list of agent programs.
pub fn default_selector_line(
    installed: &Vec<KnownAgent>,
    current: &Option<String>,
    i: usize,
    selected: bool,
) -> (pieces: Vec<Piece>)
    ensures
        notes::pieces_view(pieces@) == default_row(installed@, overview::opt_view(*current), i as int, selected),
{
    let mut pieces = pointer_pieces(selected);
    let ghost first = notes::pieces_view(pieces@);
    let ink = ink_of(selected);
    if i == 0 {
        push_piece(&mut pieces, ink, "cancel");
    } else if i <= installed.len() {
        let agent = &installed[i - 1];
        push_piece(&mut pieces, ink, agent.display_name.as_str());
        push_piece(&mut pieces, Ink::Plain, " ");
        let mut program = joined("(", agent.binary.as_str());
        program.push_str(")");
        push_piece(
            &mut pieces,
            if selected {
                Ink::Secondary
            } else {
                Ink::Tertiary
            },
            program.as_str(),
        );
        if !agent.tested {
            push_piece(&mut pieces, Ink::Plain, " ");
            push_piece(&mut pieces, Ink::WarningText, "UNTESTED");
        }
        let is_current = match current {
            Some(c) => text_eq(c.as_str(), agent.binary.as_str()),
            None => false,
        };
        if is_current {
            push_piece(&mut pieces, Ink::Plain, " ");
            push_piece(&mut pieces, Ink::Success, "✔");
        }
        assert(notes::pieces_view(pieces@) =~= first + program_entry(*agent, overview::opt_view(*current), selected));
    } else {
        push_piece(&mut pieces, ink, "Custom...");
        if let Some(c) = current {
            // Show checkmark if current default is not a known agent
            if !find_installed(installed, c.as_str()) {
                push_piece(&mut pieces, Ink::Plain, " ");
                push_piece(&mut pieces, Ink::Success, "✔");
                push_piece(&mut pieces, Ink::Plain, " ");
                let mut program = joined("(", c.as_str());
                program.push_str(")");
                push_piece(&mut pieces, Ink::Secondary, program.as_str());
            }
        }
        assert(notes::pieces_view(pieces@) =~= first + custom_entry(
            installed@,
            overview::opt_view(*current),
            selected,
        ));
    }
    assert(notes::pieces_view(pieces@) =~= default_row(
        installed@,
        overview::opt_view(*current),
        i as int,
        selected,
    ));
    pieces
}

/// Keeps the known agents whose programs were found: `found` says so of each.
pub open spec fn installed_of(known: Seq<KnownAgent>, found: Seq<bool>) -> Seq<KnownAgent>
    decreases known.len(),
{
    if known.len() == 0 {
        known
    } else {
        let rest = installed_of(known.drop_last(), found);
        if found[known.len() - 1] {
            rest.push(known.last())
        } else {
            rest
        }
    }
}

fn copy_known(a: &KnownAgent) -> (b: KnownAgent)
    ensures
        b == *a,
{
    KnownAgent {
        binary: a.binary.clone(),
        display_name: a.display_name.clone(),
        tested: a.tested,
    }
}

/// The known agents whose programs were found.
pub fn installed_agents(known: &Vec<KnownAgent>, found: &Vec<bool>) -> (installed: Vec<KnownAgent>)
    requires
        found@.len() == known@.len(),
    ensures
        installed@ == installed_of(known@, found@),
{
    let mut installed: Vec<KnownAgent> = Vec::new();
    let mut i: usize = 0;
    assert(known@.take(0) =~= Seq::<KnownAgent>::empty());
    while i < known.len()
        invariant
            i <= known@.len(),
            found@.len() == known@.len(),
            installed@ == installed_of(known@.take(i as int), found@),
        decreases known@.len() - i,
    {
        assert(known@.take(i + 1).drop_last() =~= known@.take(i as int));
        if found[i] {
            installed.push(copy_known(&known[i]));
        }
        i += 1;
    }
    assert(known@.take(i as int) =~= known@);
    installed
}

// ── Typing a command ───────────────────────────────────────────────

/// What a key did while a command is typed.
#[derive(Debug, Clone)]
pub enum Typing {
    /// A character was typed, or the last one taken back.
    Typed(char),
    Erased,
    Ignored,
    Done(DefaultPickerResult),
}

/// What a key does to the command typed so far.
pub open spec fn typed_key(typed: Seq<char>, code: KeyCode) -> Seq<char> {
    match code {
        KeyCode::Backspace => if typed.len() > 0 {
            typed.drop_last()
        } else {
            typed
        },
        KeyCode::Char(c) => typed.push(c),
        _ => typed,
    }
}

/// A key while a custom agent command is typed.
pub fn type_custom_agent(buf: &mut String, code: KeyCode) -> (typing: Typing)
    ensures
        final(buf)@ == typed_key(old(buf)@, code),
        match code {
            KeyCode::Enter => if old(buf)@.len() > 0 {
                typing matches Typing::Done(DefaultPickerResult::Selected(s)) && s@ == old(buf)@
            } else {
                typing is Ignored
            },
            KeyCode::Esc => typing == Typing::Done(DefaultPickerResult::Cancel),
            KeyCode::Backspace => if old(buf)@.len() > 0 {
                typing is Erased
            } else {
                typing is Ignored
            },
            KeyCode::Char(c) => typing == Typing::Typed(c),
            _ => typing is Ignored,
        },
{
    match code {
        KeyCode::Enter => if buf.as_str().is_empty() {
            Typing::Ignored
        } else {
            Typing::Done(DefaultPickerResult::Selected(buf.clone()))
        },
        KeyCode::Esc => Typing::Done(DefaultPickerResult::Cancel),
        KeyCode::Backspace => {
            let chars = chars_of(buf.as_str());
            if chars.len() == 0 {
                Typing::Ignored
            } else {
                *buf = string_of(chars.as_slice(), 0, chars.len() - 1);
                assert(buf@ =~= old(buf)@.drop_last());
                Typing::Erased
            }
        },
        KeyCode::Char(c) => {
            buf.push(c);
            Typing::Typed(c)
        },
        _ => Typing::Ignored,
    }
}

/// Up and down move the mark by one entry and stop at the ends, and Enter takes the entry that is
/// marked.
pub proof fn marks_move_and_enter_takes(s: Selector)
    requires
        s.wf(),
    ensures
        s.after_key(KeyCode::Enter) == (s.selected as int, Picking::Chosen),
        s.selected > 0 ==> s.after_key(KeyCode::Up).0 == s.selected - 1,
        s.selected == 0 ==> s.after_key(KeyCode::Up).0 == 0,
        s.selected + 1 < s.count ==> s.after_key(KeyCode::Down).0 == s.selected + 1,
        s.selected + 1 == s.count ==> s.after_key(KeyCode::Down).0 == s.selected,
        !(s.after_key(KeyCode::Up).1 is Chosen) && !(s.after_key(KeyCode::Down).1 is Chosen),
{
}

/// What is taken is what the marked row shows: cancelling, the agent whose id stands there, or a
/// new one.
pub proof fn agents_are_taken_as_shown(agents: Seq<AgentInfo>, started: Seq<Seq<char>>, i: int)
    requires
        0 <= i <= agents.len() + 1,
    ensures
        ({
            let row = selector_row(agents, started, i, true);
            let shown = row.last().text;
            match agent_chosen(agents, i) {
                SelectAction::Cancel => shown == "cancel"@ && i == 0,
                SelectAction::NewAgent => shown == "new agent +"@ && i == agents.len() + 1,
                SelectAction::Attach(id) => row[3].text == formatting::column(id@, 8) && 1 <= i
                    <= agents.len() && id == agents[i - 1].id,
            }
        }),
{
}

/// What is taken for the default is what the marked row shows: cancelling, the program of the agent
/// that is named there, or one of the user's own.
pub proof fn defaults_are_taken_as_shown(
    installed: Seq<KnownAgent>,
    current: Option<Seq<char>>,
    i: int,
)
    requires
        0 <= i <= installed.len() + 1,
    ensures
        ({
            let row = default_row(installed, current, i, true);
            match default_chosen(installed, i) {
                DefaultChoice::Cancel => row.last().text == "cancel"@ && i == 0,
                DefaultChoice::Custom => row[3].text == "Custom..."@ && i == installed.len() + 1,
                DefaultChoice::Agent(binary) => row[5].text == "("@ + binary@ + ")"@ && 1 <= i
                    <= installed.len() && row[3].text == installed[i - 1].display_name@,
            }
        }),
{
}

/// Only the marked row carries the mark, and the present default carries a tick.
pub proof fn rows_are_marked(agent: KnownAgent, current: Option<Seq<char>>, selected: bool)
    ensures
        pointer(true)[1].text == "▸"@,
        pointer(false).len() == 1,
        current == Some(agent.binary@) ==> program_entry(agent, current, selected).last().text
            == "✔"@,
        current != Some(agent.binary@) ==> program_entry(agent, current, selected).last().text
            != "✔"@,
{
    reveal_strlit("✔");
    reveal_strlit("UNTESTED");
    reveal_strlit("(");
    reveal_strlit(")");
    assert("✔"@.len() == 1 && "UNTESTED"@.len() == 8);
    assert(("("@ + agent.binary@ + ")"@).len() >= 2);
}

/// The agents to choose from are those of the known ones that were found.
pub proof fn found_agents_can_be_chosen(known: Seq<KnownAgent>, found: Seq<bool>, k: int)
    requires
        0 <= k < known.len() <= found.len(),
        found[k],
    ensures
        installed_of(known, found).contains(known[k]),
        installed_of(known, found).len() <= known.len(),
    decreases known.len(),
{
    let all = installed_of(known, found);
    let front = known.drop_last();
    let rest = installed_of(front, found);
    lemma_installed_is_short(front, found);
    if k < front.len() {
        found_agents_can_be_chosen(front, found, k);
        let j = choose|j: int| 0 <= j < rest.len() && rest[j] == front[k];
        assert(all[j] == known[k]);
    } else {
        assert(all[rest.len() as int] == known[k]);
    }
}

proof fn lemma_installed_is_short(known: Seq<KnownAgent>, found: Seq<bool>)
    ensures
        installed_of(known, found).len() <= known.len(),
    decreases known.len(),
{
    if known.len() > 0 {
        lemma_installed_is_short(known.drop_last(), found);
    }
}

/// An agent's row tells its id, what it runs, its repository, its branch, that it runs, its
/// start and its terminals, each in its own column.
pub proof fn agents_are_told_in_columns(agent: AgentInfo, started: Seq<char>, selected: bool)
    ensures
        ({
            let row = agent_entry(agent, started, selected);
            &&& row.len() == 13
            &&& row[0].text == formatting::column(agent.id@, 8)
            &&& row[2].text == formatting::column(agent.agent_binary@, 12)
            &&& agent.repo_path is Some ==> row[4].text == formatting::column(
                commands::repo_or_dash(Some(agent.repo_path->0@)),
                16,
            )
            &&& agent.branch_name is Some ==> row[6].text == formatting::column(
                agent.branch_name->0@,
                20,
            )
            &&& row[8].text == formatting::column("running"@, 10)
            &&& row[10].text == formatting::column(started, 14)
            &&& row[12].text == formatting::attached_text(agent.attached_clients as int)
            &&& row[2].ink == Ink::Primary <==> selected
            &&& row[8].ink == Ink::Success <==> selected
        }),
{
}

/// A program that is not tested is told so, and the one that is the default has a tick behind
/// everything else.
pub proof fn programs_are_told_with_their_marks(
    agent: KnownAgent,
    current: Option<Seq<char>>,
    selected: bool,
)
    ensures
        ({
            let row = program_entry(agent, current, selected);
            let untested = if agent.tested {
                0int
            } else {
                2
            };
            let tick = if current == Some(agent.binary@) {
                2int
            } else {
                0
            };
            &&& row.len() == 3 + untested + tick
            &&& row[0].text == agent.display_name@
            &&& row[2].text == "("@ + agent.binary@ + ")"@
            &&& !agent.tested ==> row[4].text == "UNTESTED"@
        }),
{
}

/// The entry for a program of one's own shows the default where that is none of the others.
pub proof fn own_programs_are_shown(
    installed: Seq<KnownAgent>,
    current: Option<Seq<char>>,
    selected: bool,
    i: int,
)
    ensures
        ({
            let row = custom_entry(installed, current, selected);
            let listed = current is Some && 0 <= i < installed.len() && installed[i].binary@
                == current->0;
            &&& row[0].text == "Custom..."@
            &&& current is None ==> row.len() == 1
            &&& listed ==> row.len() == 1
            &&& current is Some && !is_installed(installed, current->0) ==> row.len() == 5
                && row[4].text == "("@ + current->0 + ")"@
        }),
{
}

/// Letters are typed at the end, and erasing takes the last one away.
pub proof fn names_are_typed_at_the_end(typed: Seq<char>, c: char)
    ensures
        typed_key(typed, KeyCode::Char(c)) == typed.push(c),
        typed_key(typed_key(typed, KeyCode::Char(c)), KeyCode::Backspace) == typed,
        typed_key(Seq::empty(), KeyCode::Backspace).len() == 0,
        typed_key(typed, KeyCode::Up) == typed,
{
    assert(typed.push(c).drop_last() =~= typed);
}

} // verus!
