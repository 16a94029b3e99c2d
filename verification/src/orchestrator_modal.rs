//! Modal for starting an orchestrator agent: choose a repository and the branch to clone from,
//! name the branch to clone toward, and describe what to plan.

use vstd::prelude::*;

use crate::branch_picker;
use crate::editing;
use crate::layout;
use crate::modal;
use crate::modal_view;
use crate::style;
use crate::text;
use crate::view;
use crate::keys::{KeyCode, KeyEvent};
use crate::layout::Constraint;
use crate::modal::{Chooser, RepoList};
use crate::modal_view::{
    branch_list_part, input_part, line_in, line_in_two, lines_part, modal_frame, push_part,
    repo_list_part, text_part, Following, ModalFace, ModalSize,
};
use crate::protocol::RepoInfo;
use crate::style::Line;
use crate::text::{blank, chars_of, copy_of, text_eq};
use crate::view::{style_ink, Rect, Theme};

verus! {

#[derive(Clone, Copy, Debug, PartialEq, Eq, Structural)]
pub enum OrchestratorStep {
    SelectRepo,
    SelectSourceBranch,
    EnterNewBranch,
    EnterPrompt,
}

#[derive(Debug, Clone)]
pub enum OrchestratorResult {
    Pending,
    Cancelled,
    Completed(OrchestratorOutput),
}

#[derive(Debug, Clone)]
pub struct OrchestratorOutput {
    pub repo_path: String,
    pub source_branch: String,
    pub new_branch: String,
    pub prompt: String,
}

pub ghost enum ResultView {
    Pending,
    Cancelled,
    Completed {
        repo_path: Seq<char>,
        source_branch: Seq<char>,
        new_branch: Seq<char>,
        prompt: Seq<char>,
    },
}

impl View for OrchestratorResult {
    type V = ResultView;

    open spec fn view(&self) -> ResultView {
        match *self {
            OrchestratorResult::Pending => ResultView::Pending,
            OrchestratorResult::Cancelled => ResultView::Cancelled,
            OrchestratorResult::Completed(o) => ResultView::Completed {
                repo_path: o.repo_path@,
                source_branch: o.source_branch@,
                new_branch: o.new_branch@,
                prompt: o.prompt@,
            },
        }
    }
}

pub struct OrchestratorModal {
    step: OrchestratorStep,
    chooser: Chooser,
    list: RepoList,
    /// The path of the chosen repository.
    selected_repo: Option<String>,
    source_branch: Option<String>,
    new_branch_name: Option<String>,
    /// Whether to show "prompt is required" feedback.
    prompt_error: bool,
}

#[verifier::ext_equal]
pub ghost struct OrchestratorView {
    pub step: OrchestratorStep,
    pub chooser: modal::ChooserView,
    pub list: modal::RepoListView,
    pub selected_repo: Option<Seq<char>>,
    pub source_branch: Option<Seq<char>>,
    pub new_branch_name: Option<Seq<char>>,
    pub prompt_error: bool,
}

impl View for OrchestratorModal {
    type V = OrchestratorView;

    closed spec fn view(&self) -> OrchestratorView {
        OrchestratorView {
            step: self.step,
            chooser: self.chooser@,
            list: self.list@,
            selected_repo: branch_picker::text_in(self.selected_repo),
            source_branch: branch_picker::text_in(self.source_branch),
            new_branch_name: branch_picker::text_in(self.new_branch_name),
            prompt_error: self.prompt_error,
        }
    }
}

/// A text with every carriage return turned into a line end.
pub open spec fn with_line_ends(s: Seq<char>) -> Seq<char> {
    s.map_values(
        |c: char|
            if c == '\r' {
                '\n'
            } else {
                c
            },
    )
}

fn line_ends_of(s: &str) -> (t: String)
    ensures
        t@ == with_line_ends(s@),
{
    let chars = chars_of(s);
    let mut t = String::new();
    let mut i: usize = 0;
    assert(t@ =~= with_line_ends(s@).take(0));
    while i < chars.len()
        invariant
            i <= chars@.len(),
            chars@ == s@,
            t@ == with_line_ends(s@).take(i as int),
        decreases chars@.len() - i,
    {
        if chars[i] == '\r' {
            t.push('\n');
        } else {
            t.push(chars[i]);
        }
        i += 1;
        assert(t@ =~= with_line_ends(s@).take(i as int));
    }
    assert(t@ =~= with_line_ends(s@));
    t
}

impl OrchestratorView {
    /// Behind the first step a repository is chosen, and behind the third a branch is named
    /// that is not the one to clone from.
    pub open spec fn wf(self) -> bool {
        &&& self.step != OrchestratorStep::SelectRepo ==> self.selected_repo is Some
        &&& self.step == OrchestratorStep::EnterPrompt ==> {
            &&& self.new_branch_name matches Some(name)
            &&& name.len() > 0
            &&& self.source_branch != self.new_branch_name
        }
    }

    /// On to another step, with nothing typed.
    pub open spec fn at(self, step: OrchestratorStep) -> OrchestratorView {
        OrchestratorView { step, chooser: modal::fresh(), ..self }
    }

    pub open spec fn repo_matches(self) -> Seq<(usize, i64)> {
        self.list.repo_matches(self.chooser.edit.text)
    }

    pub open spec fn branch_matches(self) -> Seq<(usize, i64)> {
        self.list.branch_matches(self.chooser.edit.text)
    }

    /// How many entries the list of this step has.
    pub open spec fn count(self) -> int {
        match self.step {
            OrchestratorStep::SelectRepo => self.repo_matches().len() as int,
            OrchestratorStep::SelectSourceBranch => self.branch_matches().len() as int,
            _ => 0,
        }
    }

    /// `sanitized` is what was typed, as a branch name.
    pub open spec fn after_enter(self, sanitized: Seq<char>) -> OrchestratorView {
        match self.step {
            OrchestratorStep::SelectRepo => match self.chooser.choice(self.repo_matches()) {
                Some(idx) => {
                    let list = self.list.opened(idx);
                    OrchestratorView {
                        list,
                        selected_repo: Some(self.list.repos[idx].path@),
                        ..self.at(
                            if list.branches.len() > 0 {
                                OrchestratorStep::SelectSourceBranch
                            } else {
                                OrchestratorStep::EnterNewBranch
                            },
                        )
                    }
                },
                None => self,
            },
            OrchestratorStep::SelectSourceBranch => match self.chooser.choice(
                self.branch_matches(),
            ) {
                Some(idx) => OrchestratorView {
                    source_branch: Some(self.list.branches[idx].name@),
                    ..self.at(OrchestratorStep::EnterNewBranch)
                },
                None => self,
            },
            OrchestratorStep::EnterNewBranch => if sanitized.len() == 0 || self.source_branch
                == Some(sanitized) {
                self
            } else {
                OrchestratorView {
                    new_branch_name: Some(sanitized),
                    ..self.at(OrchestratorStep::EnterPrompt)
                }
            },
            OrchestratorStep::EnterPrompt => if text::is_blank(self.chooser.edit.text) {
                OrchestratorView { prompt_error: true, ..self }
            } else {
                self
            },
        }
    }

    pub open spec fn after_esc(self) -> OrchestratorView {
        match self.step {
            OrchestratorStep::SelectRepo => self,
            OrchestratorStep::SelectSourceBranch => OrchestratorView {
                selected_repo: None,
                list: self.list.closed(),
                ..self.at(OrchestratorStep::SelectRepo)
            },
            OrchestratorStep::EnterNewBranch => OrchestratorView {
                source_branch: None,
                ..self.at(OrchestratorStep::SelectSourceBranch)
            },
            OrchestratorStep::EnterPrompt => OrchestratorView {
                new_branch_name: None,
                prompt_error: false,
                ..self.at(OrchestratorStep::EnterNewBranch)
            },
        }
    }

    pub open spec fn after_key(self, key: KeyEvent, sanitized: Seq<char>) -> OrchestratorView {
        match key.code {
            KeyCode::Esc => self.after_esc(),
            KeyCode::Enter => self.after_enter(sanitized),
            KeyCode::Up => OrchestratorView { chooser: self.chooser.up(), ..self },
            KeyCode::Down => OrchestratorView {
                chooser: self.chooser.down(self.count()),
                ..self
            },
            KeyCode::Backspace => OrchestratorView {
                chooser: self.chooser.erased(),
                prompt_error: self.prompt_error && self.chooser.edit.at <= 0,
                ..self
            },
            KeyCode::Left => OrchestratorView { chooser: self.chooser.left(), ..self },
            KeyCode::Right => OrchestratorView { chooser: self.chooser.right(), ..self },
            KeyCode::Char(c) => if key.modifiers.control {
                self
            } else {
                OrchestratorView {
                    chooser: self.chooser.typed(seq![c]),
                    prompt_error: false,
                    ..self
                }
            },
            _ => self,
        }
    }

    pub open spec fn answer(self, key: KeyEvent) -> ResultView {
        match (key.code, self.step) {
            (KeyCode::Esc, OrchestratorStep::SelectRepo) => ResultView::Cancelled,
            (KeyCode::Enter, OrchestratorStep::EnterPrompt) => if text::is_blank(
                self.chooser.edit.text,
            ) {
                ResultView::Pending
            } else {
                ResultView::Completed {
                    repo_path: self.selected_repo->0,
                    source_branch: match self.source_branch {
                        Some(source) => source,
                        None => "main"@,
                    },
                    new_branch: self.new_branch_name->0,
                    prompt: self.chooser.edit.text,
                }
            },
            _ => ResultView::Pending,
        }
    }

    /// A prompt keeps its line ends; everything else is one line.
    pub open spec fn pasted(self, text: Seq<char>) -> OrchestratorView {
        OrchestratorView {
            chooser: self.chooser.typed(
                if self.step == OrchestratorStep::EnterPrompt {
                    with_line_ends(text)
                } else {
                    editing::one_line(text)
                },
            ),
            prompt_error: false,
            ..self
        }
    }
}

impl OrchestratorModal {
    pub closed spec fn wf(self) -> bool {
        self.chooser.wf() && self.list.wf() && self@.wf()
    }

    pub fn new(repos: Vec<RepoInfo>) -> (modal: Self)
        ensures
            modal.wf(),
            modal@ == (OrchestratorView {
                step: OrchestratorStep::SelectRepo,
                chooser: modal::fresh(),
                list: modal::RepoListView { repos: repos@, branches: Seq::empty() },
                selected_repo: None,
                source_branch: None,
                new_branch_name: None,
                prompt_error: false,
            }),
    {
        OrchestratorModal {
            step: OrchestratorStep::SelectRepo,
            chooser: Chooser::new(),
            list: RepoList::new(repos),
            selected_repo: None,
            source_branch: None,
            new_branch_name: None,
            prompt_error: false,
        }
    }

    /// What was typed.
    pub fn input(&self) -> (s: &str)
        ensures
            s@ == self@.chooser.edit.text,
    {
        self.chooser.field.input.as_str()
    }

    fn filtered_count(&self) -> (n: usize)
        requires
            self.wf(),
        ensures
            n == self@.count(),
    {
        match self.step {
            OrchestratorStep::SelectRepo => self.list.repo_matches(self.input()).len(),
            OrchestratorStep::SelectSourceBranch => self.list.branch_matches(self.input()).len(),
            _ => 0,
        }
    }

    fn choose_repo(&mut self)
        requires
            old(self).wf(),
            old(self)@.step == OrchestratorStep::SelectRepo,
        ensures
            final(self).wf(),
            forall|s: Seq<char>| final(self)@ == #[trigger] old(self)@.after_enter(s),
    {
        let matches = self.list.repo_matches(self.input());
        if let Some(idx) = self.chooser.choice(&matches) {
            self.selected_repo = Some(copy_of(self.list.repos[idx].path.as_str()));
            self.list.open(idx);
            self.step = if self.list.branch_count() > 0 {
                OrchestratorStep::SelectSourceBranch
            } else {
                OrchestratorStep::EnterNewBranch
            };
            self.chooser.reset();
        }
    }

    /// Whether a name is that of the branch to clone from.
    fn is_source(&self, name: &str) -> (yes: bool)
        ensures
            yes == (self@.source_branch == Some(name@)),
    {
        match &self.source_branch {
            Some(source) => text_eq(source.as_str(), name),
            None => false,
        }
    }

    fn handle_enter(&mut self, sanitized: &str) -> (result: OrchestratorResult)
        requires
            old(self).wf(),
        ensures
            final(self).wf(),
            final(self)@ == old(self)@.after_enter(sanitized@),
            forall|key: KeyEvent|
                key.code == KeyCode::Enter ==> result@ == #[trigger] old(self)@.answer(key),
    {
        match self.step {
            OrchestratorStep::SelectRepo => {
                self.choose_repo();
            },
            OrchestratorStep::SelectSourceBranch => {
                let matches = self.list.branch_matches(self.input());
                if let Some(idx) = self.chooser.choice(&matches) {
                    let name = copy_of(self.list.branch(idx).name.as_str());
                    self.source_branch = Some(name);
                    self.step = OrchestratorStep::EnterNewBranch;
                    self.chooser.reset();
                }
            },
            OrchestratorStep::EnterNewBranch => {
                if !sanitized.is_empty() && !self.is_source(sanitized) {
                    self.new_branch_name = Some(copy_of(sanitized));
                    self.step = OrchestratorStep::EnterPrompt;
                    self.chooser.reset();
                }
            },
            OrchestratorStep::EnterPrompt => {
                if blank(self.input()) {
                    self.prompt_error = true;
                } else if let (Some(path), Some(name)) = (
                    &self.selected_repo,
                    &self.new_branch_name,
                ) {
                    let source = match &self.source_branch {
                        Some(source) => copy_of(source.as_str()),
                        None => copy_of("main"),
                    };
                    return OrchestratorResult::Completed(
                        OrchestratorOutput {
                            repo_path: copy_of(path.as_str()),
                            source_branch: source,
                            new_branch: copy_of(name.as_str()),
                            prompt: copy_of(self.input()),
                        },
                    );
                }
            },
        }
        OrchestratorResult::Pending
    }

    fn handle_esc(&mut self) -> (cancelled: bool)
        requires
            old(self).wf(),
        ensures
            final(self).wf(),
            final(self)@ == old(self)@.after_esc(),
            cancelled == (old(self)@.step == OrchestratorStep::SelectRepo),
    {
        match self.step {
            OrchestratorStep::SelectRepo => {
                return true;
            },
            OrchestratorStep::SelectSourceBranch => {
                self.step = OrchestratorStep::SelectRepo;
                self.selected_repo = None;
                self.list.close();
            },
            OrchestratorStep::EnterNewBranch => {
                self.step = OrchestratorStep::SelectSourceBranch;
                self.source_branch = None;
            },
            OrchestratorStep::EnterPrompt => {
                self.step = OrchestratorStep::EnterNewBranch;
                self.new_branch_name = None;
                self.prompt_error = false;
            },
        }
        self.chooser.reset();
        false
    }

    /// `sanitized` is what was typed, as a branch name.
    pub fn handle_key(&mut self, key: KeyEvent, sanitized: &str) -> (result: OrchestratorResult)
        requires
            old(self).wf(),
        ensures
            final(self).wf(),
            final(self)@ == old(self)@.after_key(key, sanitized@),
            result@ == old(self)@.answer(key),
    {
        match key.code {
            KeyCode::Esc => {
                if self.handle_esc() {
                    return OrchestratorResult::Cancelled;
                }
            },
            KeyCode::Enter => {
                return self.handle_enter(sanitized);
            },
            KeyCode::Up => self.chooser.up(),
            KeyCode::Down => {
                let count = self.filtered_count();
                self.chooser.down(count);
            },
            KeyCode::Backspace => {
                if self.chooser.erase() {
                    self.prompt_error = false;
                }
            },
            KeyCode::Left => self.chooser.left(),
            KeyCode::Right => self.chooser.right(),
            KeyCode::Char(c) => {
                if !key.modifiers.control {
                    self.chooser.type_char(c);
                    self.prompt_error = false;
                }
            },
            _ => {},
        }
        OrchestratorResult::Pending
    }

    pub fn handle_paste(&mut self, text: &str)
        requires
            old(self).wf(),
        ensures
            final(self).wf(),
            final(self)@ == old(self)@.pasted(text@),
    {
        if self.step == OrchestratorStep::EnterPrompt {
            let kept = line_ends_of(text);
            self.chooser.field.type_text(kept.as_str());
            self.chooser.selected_idx = 0;
        } else {
            self.chooser.paste_line(text);
        }
        self.prompt_error = false;
    }
}

// ── What is shown ──────────────────────────────────────────────────

pub open spec fn size() -> ModalSize {
    ModalSize { width: 64, percent: 65, least: 12 }
}

/// A hint, the input, a gap, the list, and the status; in the last step the input takes the
/// room of what is not shown.
pub open spec fn rows(step: OrchestratorStep) -> Seq<Constraint> {
    if step == OrchestratorStep::EnterPrompt {
        seq![
            Constraint::Length(1),
            Constraint::Min(3),
            Constraint::Length(0),
            Constraint::Length(0),
            Constraint::Length(0),
            Constraint::Length(1),
        ]
    } else {
        seq![
            Constraint::Length(1),
            Constraint::Length(1),
            Constraint::Length(1),
            Constraint::Min(0),
            Constraint::Length(0),
            Constraint::Length(1),
        ]
    }
}

pub open spec fn step_title(step: OrchestratorStep) -> Seq<char> {
    match step {
        OrchestratorStep::SelectRepo => "Orchestrator \u{2014} Step 1/4 \u{2014} Select repository"@,
        OrchestratorStep::SelectSourceBranch => "Orchestrator \u{2014} Step 2/4 \u{2014} Clone from"@,
        OrchestratorStep::EnterNewBranch => "Orchestrator \u{2014} Step 3/4 \u{2014} Clone toward"@,
        OrchestratorStep::EnterPrompt => "Orchestrator \u{2014} Step 4/4 \u{2014} Enter prompt"@,
    }
}

pub open spec fn step_hint(step: OrchestratorStep) -> Seq<char> {
    match step {
        OrchestratorStep::SelectRepo => "Type to filter, Enter to select, Esc to cancel"@,
        OrchestratorStep::SelectSourceBranch => "Pick the branch to clone from. Enter to select, Esc to go back"@,
        OrchestratorStep::EnterNewBranch => "Type the new integration branch name. Enter to continue, Esc to go back"@,
        OrchestratorStep::EnterPrompt => "Describe what to plan. PROMPT IS REQUIRED. Enter to launch, Esc to go back"@,
    }
}

impl OrchestratorView {
    /// What is said of the branch to be named.
    pub open spec fn branch_hint(self, theme: Theme) -> Seq<Seq<style::SpanView>> {
        let hint = seq![
            view::span(
                "Type a new branch name to clone toward (required)"@,
                view::ink(theme.text_tertiary),
            ),
        ];
        match self.source_branch {
            Some(source) => seq![
                hint,
                seq![
                    view::span("  Cloning from: "@, view::ink(theme.text_tertiary)),
                    view::span(
                        source,
                        view::ink(theme.accent_bright).spec_add(style::bold_only()),
                    ),
                ],
            ],
            None => seq![hint],
        }
    }

    pub open spec fn status(self, theme: Theme, area: Rect) -> modal_view::ParagraphView {
        if self.prompt_error {
            modal_view::plain_text(
                area,
                "Prompt is required"@,
                view::ink(theme.error).spec_add(style::bold_only()),
            )
        } else {
            modal_view::plain_text(area, "Orchestrator agent"@, view::ink(theme.text_disabled))
        }
    }

    pub open spec fn parts(self, theme: Theme, r: Seq<Rect>) -> Seq<modal_view::ParagraphView> {
        let top = seq![
            modal_view::plain_text(r[0], step_hint(self.step), view::ink(theme.text_tertiary)),
            modal_view::input_shown(theme, self.chooser.edit, r[1], Following::Still),
        ];
        let list = match self.step {
            OrchestratorStep::SelectRepo => top.push(
                modal_view::plain_lines(
                    r[3],
                    modal_view::list_rows(
                        theme,
                        modal_view::repo_items(self.list.repos),
                        self.repo_matches(),
                        self.chooser.selected,
                        r[3].height as int,
                    ),
                ),
            ),
            OrchestratorStep::SelectSourceBranch => top.push(
                modal_view::plain_lines(
                    r[3],
                    modal_view::list_rows(
                        theme,
                        modal_view::branch_items(theme, self.list.branches, false),
                        self.branch_matches(),
                        self.chooser.selected,
                        r[3].height as int,
                    ),
                ),
            ),
            OrchestratorStep::EnterNewBranch => top.push(
                modal_view::plain_lines(r[3], self.branch_hint(theme)),
            ),
            OrchestratorStep::EnterPrompt => top,
        };
        list.push(self.status(theme, r[5]))
    }
}

impl OrchestratorModal {
    fn title(&self) -> (s: &'static str)
        ensures
            s@ == step_title(self@.step),
    {
        match self.step {
            OrchestratorStep::SelectRepo => "Orchestrator \u{2014} Step 1/4 \u{2014} Select repository",
            OrchestratorStep::SelectSourceBranch => "Orchestrator \u{2014} Step 2/4 \u{2014} Clone from",
            OrchestratorStep::EnterNewBranch => "Orchestrator \u{2014} Step 3/4 \u{2014} Clone toward",
            OrchestratorStep::EnterPrompt => "Orchestrator \u{2014} Step 4/4 \u{2014} Enter prompt",
        }
    }

    fn hint(&self) -> (s: &'static str)
        ensures
            s@ == step_hint(self@.step),
    {
        match self.step {
            OrchestratorStep::SelectRepo => "Type to filter, Enter to select, Esc to cancel",
            OrchestratorStep::SelectSourceBranch => "Pick the branch to clone from. Enter to select, Esc to go back",
            OrchestratorStep::EnterNewBranch => "Type the new integration branch name. Enter to continue, Esc to go back",
            OrchestratorStep::EnterPrompt => "Describe what to plan. PROMPT IS REQUIRED. Enter to launch, Esc to go back",
        }
    }

    fn branch_hint_lines(&self, theme: &Theme) -> (lines: Vec<Line>)
        ensures
            style::lines_view(lines@) == self@.branch_hint(*theme),
    {
        let mut lines = vec![
            line_in(
                "Type a new branch name to clone toward (required)",
                style_ink(theme.text_tertiary),
            ),
        ];
        if let Some(source) = &self.source_branch {
            lines.push(
                line_in_two(
                    "  Cloning from: ",
                    style_ink(theme.text_tertiary),
                    source.as_str(),
                    style_ink(theme.accent_bright).bold(),
                ),
            );
        }
        assert(style::lines_view(lines@) =~= self@.branch_hint(*theme));
        lines
    }

    /// The modal within `area`.
    pub fn render(&self, area: Rect, theme: &Theme) -> (face: ModalFace)
        requires
            self.wf(),
        ensures
            modal_view::framed(face, area, size(), *theme, step_title(self@.step)),
            layout::laid_out(face.rows@, rows(self@.step), modal_view::inside(face.area)),
            modal_view::paragraphs_view(face.parts@) == self@.parts(*theme, face.rows@),
    {
        let constraints = if self.step == OrchestratorStep::EnterPrompt {
            vec![
                Constraint::Length(1),
                Constraint::Min(3),
                Constraint::Length(0),
                Constraint::Length(0),
                Constraint::Length(0),
                Constraint::Length(1),
            ]
        } else {
            vec![
                Constraint::Length(1),
                Constraint::Length(1),
                Constraint::Length(1),
                Constraint::Min(0),
                Constraint::Length(0),
                Constraint::Length(1),
            ]
        };
        assert(constraints@ =~= rows(self.step));
        let size = ModalSize { width: 64, percent: 65, least: 12 };
        let mut face = modal_frame(area, size, self.title(), &constraints, theme);
        let mut parts = Vec::new();
        push_part(
            &mut parts,
            text_part(face.rows[0], self.hint(), style_ink(theme.text_tertiary)),
        );
        push_part(
            &mut parts,
            input_part(&self.chooser.field, face.rows[1], Following::Still, theme),
        );
        match self.step {
            OrchestratorStep::SelectRepo => push_part(
                &mut parts,
                repo_list_part(
                    face.rows[3],
                    &self.list,
                    self.input(),
                    self.chooser.selected_idx,
                    theme,
                ),
            ),
            OrchestratorStep::SelectSourceBranch => push_part(
                &mut parts,
                branch_list_part(
                    face.rows[3],
                    &self.list,
                    self.input(),
                    self.chooser.selected_idx,
                    false,
                    theme,
                ),
            ),
            OrchestratorStep::EnterNewBranch => push_part(
                &mut parts,
                lines_part(face.rows[3], self.branch_hint_lines(theme)),
            ),
            OrchestratorStep::EnterPrompt => {},
        }
        if self.prompt_error {
            push_part(
                &mut parts,
                text_part(face.rows[5], "Prompt is required", style_ink(theme.error).bold()),
            );
        } else {
            push_part(
                &mut parts,
                text_part(face.rows[5], "Orchestrator agent", style_ink(theme.text_disabled)),
            );
        }
        face.parts = parts;
        assert(modal_view::paragraphs_view(face.parts@) =~= self@.parts(*theme, face.rows@));
        face
    }
}

// ── Laws ───────────────────────────────────────────────────────────

/// An orchestrator starts with a prompt, and on a branch of its own.
pub proof fn orchestrators_have_a_prompt_and_a_branch(modal: OrchestratorView, key: KeyEvent)
    requires
        modal.wf(),
    ensures
        modal.answer(key) matches ResultView::Completed { new_branch, prompt, .. } ==> {
            &&& !text::is_blank(prompt)
            &&& new_branch.len() > 0
            &&& modal.source_branch != Some(new_branch)
        },
{
}

/// Enter takes what the selection stands on: the repository's path, then the name of the branch
/// to start from. Where there is no branch to start from, that step is passed over.
pub proof fn selections_are_taken(modal: OrchestratorView, key: KeyEvent, sanitized: Seq<char>)
    requires
        key.code == KeyCode::Enter,
        modal.chooser.selected >= 0,
    ensures
        ({
            let after = modal.after_key(key, sanitized);
            let repo = modal.list.repos[modal.repo_matches()[modal.chooser.selected].0 as int];
            modal.step == OrchestratorStep::SelectRepo && modal.chooser.selected
                < modal.repo_matches().len() ==> {
                &&& after.selected_repo == Some(repo.path@)
                &&& after.list.branches == repo.local_branches@
                &&& repo.local_branches@.len() > 0 ==> after.step
                    == OrchestratorStep::SelectSourceBranch
                &&& repo.local_branches@.len() == 0 ==> after.step
                    == OrchestratorStep::EnterNewBranch
            }
        }),
        ({
            let after = modal.after_key(key, sanitized);
            let picked = modal.branch_matches()[modal.chooser.selected].0 as int;
            modal.step == OrchestratorStep::SelectSourceBranch && modal.chooser.selected
                < modal.branch_matches().len() ==> {
                &&& after.source_branch == Some(modal.list.branches[picked].name@)
                &&& after.selected_repo == modal.selected_repo
                &&& after.step == OrchestratorStep::EnterNewBranch
            }
        }),
        ({
            let after = modal.after_key(key, sanitized);
            modal.step == OrchestratorStep::EnterNewBranch ==> {
                &&& sanitized.len() == 0 || modal.source_branch == Some(sanitized) ==> after == modal
                &&& sanitized.len() > 0 && modal.source_branch != Some(sanitized) ==> {
                    &&& after.new_branch_name == Some(sanitized)
                    &&& after.source_branch == modal.source_branch
                    &&& after.step == OrchestratorStep::EnterPrompt
                }
            }
        }),
{
}

/// The orchestrator starts with what was chosen and typed at each step, from the main branch
/// where none was chosen. A blank prompt is pointed out instead.
pub proof fn orchestrators_start_as_chosen(modal: OrchestratorView, key: KeyEvent, sanitized: Seq<char>)
    requires
        key.code == KeyCode::Enter,
        modal.step == OrchestratorStep::EnterPrompt,
        modal.selected_repo is Some,
        modal.new_branch_name is Some,
    ensures
        ({
            let made = modal.answer(key);
            let typed = modal.chooser.edit.text;
            &&& text::is_blank(typed) ==> made is Pending && modal.after_key(
                key,
                sanitized,
            ).prompt_error
            &&& !text::is_blank(typed) ==> {
                &&& made is Completed
                &&& made->repo_path == modal.selected_repo->0
                &&& made->new_branch == modal.new_branch_name->0
                &&& made->prompt == typed
                &&& modal.source_branch is Some ==> made->source_branch == modal.source_branch->0
                &&& modal.source_branch is None ==> made->source_branch == "main"@
            }
        }),
{
}

/// Esc goes one step back and forgets what that step had chosen, and cancels at the first.
pub proof fn esc_goes_one_step_back(modal: OrchestratorView, key: KeyEvent, sanitized: Seq<char>)
    requires
        key.code == KeyCode::Esc,
    ensures
        ({
            let after = modal.after_key(key, sanitized);
            &&& modal.answer(key) is Cancelled <==> modal.step == OrchestratorStep::SelectRepo
            &&& modal.step == OrchestratorStep::SelectSourceBranch ==> after.step
                == OrchestratorStep::SelectRepo && after.selected_repo is None
            &&& modal.step == OrchestratorStep::EnterNewBranch ==> after.step
                == OrchestratorStep::SelectSourceBranch && after.source_branch is None
                && after.selected_repo == modal.selected_repo
            &&& modal.step == OrchestratorStep::EnterPrompt ==> after.step
                == OrchestratorStep::EnterNewBranch && after.new_branch_name is None
                && !after.prompt_error && after.source_branch == modal.source_branch
        }),
{
}

/// A paste keeps its lines in a prompt, however they were ended, and loses them elsewhere. Any
/// edit takes back that the prompt was pointed out.
pub proof fn pasted_prompts_keep_their_lines(modal: OrchestratorView, pasted: Seq<char>, i: int)
    requires
        0 <= i < pasted.len(),
    ensures
        with_line_ends(pasted).len() == pasted.len(),
        pasted[i] != '\r' ==> with_line_ends(pasted)[i] == pasted[i],
        pasted[i] == '\r' ==> with_line_ends(pasted)[i] == '\n',
        modal.step == OrchestratorStep::EnterPrompt ==> modal.pasted(pasted).chooser.edit
            == modal.chooser.edit.inserted(with_line_ends(pasted)),
        modal.step != OrchestratorStep::EnterPrompt ==> modal.pasted(pasted).chooser.edit
            == modal.chooser.edit.inserted(editing::one_line(pasted)),
        !modal.pasted(pasted).prompt_error,
{
}

/// What is typed goes into the text of the step, and nothing that was chosen changes by it.
pub proof fn typing_changes_the_text_alone(modal: OrchestratorView, key: KeyEvent, sanitized: Seq<char>)
    requires
        key.code is Char,
    ensures
        ({
            let after = modal.after_key(key, sanitized);
            &&& key.modifiers.control ==> after == modal
            &&& !key.modifiers.control ==> !after.prompt_error && after.chooser.edit
                == modal.chooser.edit.inserted(seq![key.code->Char_0])
            &&& after.step == modal.step
            &&& after.selected_repo == modal.selected_repo
            &&& after.source_branch == modal.source_branch
            &&& after.new_branch_name == modal.new_branch_name
            &&& modal.answer(key) is Pending
        }),
{
}

/// The hint stands above the input, which shows what is typed, below it what there is to choose
/// from or what was chosen, and at the bottom whether the prompt is missing.
pub proof fn parts_stand_in_their_rows(modal: OrchestratorView, theme: Theme, r: Seq<Rect>)
    ensures
        ({
            let parts = modal.parts(theme, r);
            &&& parts[0].area == r[0]
            &&& parts[0].lines[0][0].content == step_hint(modal.step)
            &&& parts[1].area == r[1]
            &&& parts[1].lines[0] == modal_view::input_spans(theme, modal.chooser.edit)
            &&& parts.last().area == r[5]
            &&& parts.last().lines[0][0].style.fg == Some(
                if modal.prompt_error {
                    theme.error
                } else {
                    theme.text_disabled
                },
            )
            &&& modal.step != OrchestratorStep::EnterPrompt ==> parts.len() == 4 && parts[2].area
                == r[3]
            &&& modal.step == OrchestratorStep::SelectRepo ==> parts[2].lines
                == modal_view::list_rows(
                theme,
                modal_view::repo_items(modal.list.repos),
                modal.repo_matches(),
                modal.chooser.selected,
                r[3].height as int,
            )
            &&& modal.step == OrchestratorStep::SelectSourceBranch ==> parts[2].lines
                == modal_view::list_rows(
                theme,
                modal_view::branch_items(theme, modal.list.branches, false),
                modal.branch_matches(),
                modal.chooser.selected,
                r[3].height as int,
            )
            &&& modal.step == OrchestratorStep::EnterNewBranch && modal.source_branch is Some
                ==> parts[2].lines[1][1].content == modal.source_branch->0
        }),
{
}

} // verus!
