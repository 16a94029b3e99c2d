//! Modal for starting an agent: choose a repository and a branch, name a new branch, and enter a
//! prompt.

use vstd::prelude::*;

use crate::branch_picker;
use crate::detached_agent_modal;
use crate::editing;
use crate::layout;
use crate::modal;
use crate::modal_view;
use crate::style;
use crate::text;
use crate::view;
use crate::detached_agent_modal::prompt_in;
use crate::keys::{KeyCode, KeyEvent};
use crate::layout::Constraint;
use crate::modal::{Chooser, RepoList};
use crate::modal_view::{
    branch_list_part, input_part, line_in, line_in_two, lines_part, modal_frame, push_part,
    repo_list_part, text_part, Following, ModalFace, ModalSize,
};
use crate::protocol::RepoInfo;
use crate::style::Line;
use crate::text::{blank, copy_of};
use crate::view::{style_ink, Rect, Theme};

verus! {

#[derive(Clone, Copy, Debug, PartialEq, Eq, Structural)]
pub enum ModalStep {
    SelectRepo,
    SelectBranch,
    NewBranch,
    EnterPrompt,
}

#[derive(Debug, Clone)]
pub enum ModalResult {
    Pending,
    Cancelled,
    Completed(ModalOutput),
}

#[derive(Debug, Clone)]
pub struct ModalOutput {
    pub repo_path: String,
    pub target_branch: Option<String>,
    pub new_branch: Option<String>,
    pub prompt: Option<String>,
}

pub ghost enum ResultView {
    Pending,
    Cancelled,
    Completed {
        repo_path: Seq<char>,
        target_branch: Option<Seq<char>>,
        new_branch: Option<Seq<char>>,
        prompt: Option<Seq<char>>,
    },
}

impl View for ModalResult {
    type V = ResultView;

    open spec fn view(&self) -> ResultView {
        match *self {
            ModalResult::Pending => ResultView::Pending,
            ModalResult::Cancelled => ResultView::Cancelled,
            ModalResult::Completed(o) => ResultView::Completed {
                repo_path: o.repo_path@,
                target_branch: branch_picker::text_in(o.target_branch),
                new_branch: branch_picker::text_in(o.new_branch),
                prompt: branch_picker::text_in(o.prompt),
            },
        }
    }
}

pub struct CreateAgentModal {
    step: ModalStep,
    chooser: Chooser,
    list: RepoList,
    /// The path of the chosen repository.
    selected_repo: Option<String>,
    target_branch: Option<String>,
    new_branch_name: Option<String>,
    /// Whether new branch input is required (no branches exist)
    new_branch_required: bool,
    /// Whether the modal was opened with repo+branch pre-selected
    pre_selected: bool,
}

#[verifier::ext_equal]
pub ghost struct CreateAgentView {
    pub step: ModalStep,
    pub chooser: modal::ChooserView,
    pub list: modal::RepoListView,
    pub selected_repo: Option<Seq<char>>,
    pub target_branch: Option<Seq<char>>,
    pub new_branch_name: Option<Seq<char>>,
    pub new_branch_required: bool,
    pub pre_selected: bool,
}

impl View for CreateAgentModal {
    type V = CreateAgentView;

    closed spec fn view(&self) -> CreateAgentView {
        CreateAgentView {
            step: self.step,
            chooser: self.chooser@,
            list: self.list@,
            selected_repo: branch_picker::text_in(self.selected_repo),
            target_branch: branch_picker::text_in(self.target_branch),
            new_branch_name: branch_picker::text_in(self.new_branch_name),
            new_branch_required: self.new_branch_required,
            pre_selected: self.pre_selected,
        }
    }
}

/// A copy of a text that may be absent.
pub fn copy_of_option(s: &Option<String>) -> (t: Option<String>)
    ensures
        branch_picker::text_in(t) == branch_picker::text_in(*s),
{
    match s {
        Some(s) => Some(copy_of(s.as_str())),
        None => None,
    }
}

impl CreateAgentView {
    /// Behind the first step a repository is chosen, and a modal that was opened for a branch
    /// never shows the steps that choose one.
    pub open spec fn wf(self) -> bool {
        &&& self.step != ModalStep::SelectRepo ==> self.selected_repo is Some
        &&& self.pre_selected ==> self.step == ModalStep::NewBranch || self.step
            == ModalStep::EnterPrompt
    }

    /// On to another step, with nothing typed.
    pub open spec fn at(self, step: ModalStep) -> CreateAgentView {
        CreateAgentView { step, chooser: modal::fresh(), ..self }
    }

    pub open spec fn repo_matches(self) -> Seq<(usize, i64)> {
        self.list.repo_matches(self.chooser.edit.text)
    }

    pub open spec fn branch_matches(self) -> Seq<(usize, i64)> {
        self.list.branch_matches(self.chooser.edit.text)
    }

    /// How many entries the list of this step has.
    pub open spec fn count(self) -> int {
        match self.step {
            ModalStep::SelectRepo => self.repo_matches().len() as int,
            ModalStep::SelectBranch => self.branch_matches().len() as int,
            _ => 0,
        }
    }

    pub open spec fn repo_chosen(self, idx: int) -> CreateAgentView {
        let list = self.list.opened(idx);
        let empty = list.branches.len() == 0;
        CreateAgentView {
            list,
            selected_repo: Some(self.list.repos[idx].path@),
            new_branch_required: self.new_branch_required || empty,
            ..self.at(
                if empty {
                    ModalStep::NewBranch
                } else {
                    ModalStep::SelectBranch
                },
            )
        }
    }

    /// `sanitized` is what was typed, as a branch name.
    pub open spec fn after_enter(self, sanitized: Seq<char>) -> CreateAgentView {
        match self.step {
            ModalStep::SelectRepo => match self.chooser.choice(self.repo_matches()) {
                Some(idx) => self.repo_chosen(idx),
                None => self,
            },
            ModalStep::SelectBranch => match self.chooser.choice(self.branch_matches()) {
                Some(idx) => CreateAgentView {
                    target_branch: Some(self.list.branches[idx].name@),
                    ..self.at(ModalStep::NewBranch)
                },
                None => self,
            },
            ModalStep::NewBranch => if self.new_branch_required && sanitized.len() == 0 {
                self
            } else {
                CreateAgentView {
                    new_branch_name: if text::is_blank(self.chooser.edit.text) {
                        None
                    } else {
                        Some(sanitized)
                    },
                    ..self.at(ModalStep::EnterPrompt)
                }
            },
            ModalStep::EnterPrompt => self,
        }
    }

    /// Whether Esc leaves the modal.
    pub open spec fn esc_cancels(self) -> bool {
        self.step == ModalStep::SelectRepo || (self.step == ModalStep::NewBranch
            && self.pre_selected)
    }

    pub open spec fn after_esc(self) -> CreateAgentView {
        if self.esc_cancels() {
            self
        } else {
            match self.step {
                ModalStep::SelectBranch => CreateAgentView {
                    selected_repo: None,
                    list: self.list.closed(),
                    ..self.at(ModalStep::SelectRepo)
                },
                ModalStep::NewBranch => if self.new_branch_required {
                    CreateAgentView { selected_repo: None, ..self.at(ModalStep::SelectRepo) }
                } else {
                    CreateAgentView { target_branch: None, ..self.at(ModalStep::SelectBranch) }
                },
                _ => CreateAgentView { new_branch_name: None, ..self.at(ModalStep::NewBranch) },
            }
        }
    }

    pub open spec fn after_key(self, key: KeyEvent, sanitized: Seq<char>) -> CreateAgentView {
        match key.code {
            KeyCode::Esc => self.after_esc(),
            KeyCode::Enter => self.after_enter(sanitized),
            KeyCode::Up => CreateAgentView { chooser: self.chooser.up(), ..self },
            KeyCode::Down => CreateAgentView { chooser: self.chooser.down(self.count()), ..self },
            KeyCode::Backspace => CreateAgentView { chooser: self.chooser.erased(), ..self },
            KeyCode::Left => CreateAgentView { chooser: self.chooser.left(), ..self },
            KeyCode::Right => CreateAgentView { chooser: self.chooser.right(), ..self },
            KeyCode::Char(c) => if key.modifiers.alt || key.modifiers.control {
                self
            } else {
                CreateAgentView { chooser: self.chooser.typed(seq![c]), ..self }
            },
            _ => self,
        }
    }

    pub open spec fn answer(self, key: KeyEvent) -> ResultView {
        if key.code == KeyCode::Esc && self.esc_cancels() {
            ResultView::Cancelled
        } else if key.code == KeyCode::Enter && self.step == ModalStep::EnterPrompt {
            ResultView::Completed {
                repo_path: self.selected_repo->0,
                target_branch: self.target_branch,
                new_branch: self.new_branch_name,
                prompt: detached_agent_modal::prompt_of(self.chooser.edit.text),
            }
        } else {
            ResultView::Pending
        }
    }
}

impl CreateAgentModal {
    pub closed spec fn wf(self) -> bool {
        self.chooser.wf() && self.list.wf() && self@.wf()
    }

    pub fn new(repos: Vec<RepoInfo>) -> (modal: Self)
        ensures
            modal.wf(),
            modal@ == (CreateAgentView {
                step: ModalStep::SelectRepo,
                chooser: modal::fresh(),
                list: modal::RepoListView { repos: repos@, branches: Seq::empty() },
                selected_repo: None,
                target_branch: None,
                new_branch_name: None,
                new_branch_required: false,
                pre_selected: false,
            }),
    {
        CreateAgentModal {
            step: ModalStep::SelectRepo,
            chooser: Chooser::new(),
            list: RepoList::new(repos),
            selected_repo: None,
            target_branch: None,
            new_branch_name: None,
            new_branch_required: false,
            pre_selected: false,
        }
    }

    /// A modal that starts a worktree off a branch of a repository.
    pub fn new_with_branch(repos: Vec<RepoInfo>, repo: RepoInfo, branch_name: String) -> (modal: Self)
        ensures
            modal.wf(),
            modal@ == (CreateAgentView {
                step: ModalStep::NewBranch,
                chooser: modal::fresh(),
                list: modal::RepoListView { repos: repos@, branches: Seq::empty() },
                selected_repo: Some(repo.path@),
                target_branch: Some(branch_name@),
                new_branch_name: None,
                new_branch_required: true,
                pre_selected: true,
            }),
    {
        CreateAgentModal {
            step: ModalStep::NewBranch,
            chooser: Chooser::new(),
            list: RepoList::new(repos),
            selected_repo: Some(repo.path),
            target_branch: Some(branch_name),
            new_branch_name: None,
            new_branch_required: true,
            pre_selected: true,
        }
    }

    /// What was typed.
    pub fn input(&self) -> (s: &str)
        ensures
            s@ == self@.chooser.edit.text,
    {
        self.chooser.field.input.as_str()
    }

    fn filtered_count(&self) -> (n: usize)
        requires
            self.wf(),
        ensures
            n == self@.count(),
    {
        match self.step {
            ModalStep::SelectRepo => self.list.repo_matches(self.input()).len(),
            ModalStep::SelectBranch => self.list.branch_matches(self.input()).len(),
            _ => 0,
        }
    }

    fn choose_repo(&mut self)
        requires
            old(self).wf(),
            old(self)@.step == ModalStep::SelectRepo,
        ensures
            final(self).wf(),
            forall|s: Seq<char>| final(self)@ == #[trigger] old(self)@.after_enter(s),
    {
        let matches = self.list.repo_matches(self.input());
        if let Some(idx) = self.chooser.choice(&matches) {
            self.selected_repo = Some(copy_of(self.list.repos[idx].path.as_str()));
            self.list.open(idx);
            if self.list.branch_count() == 0 {
                self.new_branch_required = true;
                self.step = ModalStep::NewBranch;
            } else {
                self.step = ModalStep::SelectBranch;
            }
            self.chooser.reset();
        }
    }

    fn handle_enter(&mut self, sanitized: &str) -> (result: ModalResult)
        requires
            old(self).wf(),
        ensures
            final(self).wf(),
            final(self)@ == old(self)@.after_enter(sanitized@),
            forall|key: KeyEvent|
                key.code == KeyCode::Enter ==> result@ == #[trigger] old(self)@.answer(key),
    {
        match self.step {
            ModalStep::SelectRepo => {
                self.choose_repo();
            },
            ModalStep::SelectBranch => {
                let matches = self.list.branch_matches(self.input());
                if let Some(idx) = self.chooser.choice(&matches) {
                    let name = copy_of(self.list.branch(idx).name.as_str());
                    self.target_branch = Some(name);
                    self.step = ModalStep::NewBranch;
                    self.chooser.reset();
                }
            },
            ModalStep::NewBranch => {
                if !(self.new_branch_required && sanitized.is_empty()) {
                    self.new_branch_name = if blank(self.input()) {
                        None
                    } else {
                        Some(copy_of(sanitized))
                    };
                    self.step = ModalStep::EnterPrompt;
                    self.chooser.reset();
                }
            },
            ModalStep::EnterPrompt => {
                let prompt = prompt_in(self.input());
                if let Some(path) = &self.selected_repo {
                    return ModalResult::Completed(
                        ModalOutput {
                            repo_path: copy_of(path.as_str()),
                            target_branch: copy_of_option(&self.target_branch),
                            new_branch: copy_of_option(&self.new_branch_name),
                            prompt,
                        },
                    );
                }
            },
        }
        ModalResult::Pending
    }

    fn handle_esc(&mut self) -> (cancelled: bool)
        requires
            old(self).wf(),
        ensures
            final(self).wf(),
            final(self)@ == old(self)@.after_esc(),
            cancelled == old(self)@.esc_cancels(),
    {
        match self.step {
            ModalStep::SelectRepo => {
                return true;
            },
            ModalStep::SelectBranch => {
                self.step = ModalStep::SelectRepo;
                self.selected_repo = None;
                self.list.close();
            },
            ModalStep::NewBranch => {
                if self.pre_selected {
                    return true;
                } else if self.new_branch_required {
                    self.step = ModalStep::SelectRepo;
                    self.selected_repo = None;
                } else {
                    self.step = ModalStep::SelectBranch;
                    self.target_branch = None;
                }
            },
            ModalStep::EnterPrompt => {
                self.step = ModalStep::NewBranch;
                self.new_branch_name = None;
            },
        }
        self.chooser.reset();
        false
    }

    /// `sanitized` is what was typed, as a branch name.
    pub fn handle_key(&mut self, key: KeyEvent, sanitized: &str) -> (result: ModalResult)
        requires
            old(self).wf(),
        ensures
            final(self).wf(),
            final(self)@ == old(self)@.after_key(key, sanitized@),
            result@ == old(self)@.answer(key),
    {
        match key.code {
            KeyCode::Esc => {
                if self.handle_esc() {
                    return ModalResult::Cancelled;
                }
            },
            KeyCode::Enter => {
                return self.handle_enter(sanitized);
            },
            KeyCode::Up => self.chooser.up(),
            KeyCode::Down => {
                let count = self.filtered_count();
                self.chooser.down(count);
            },
            KeyCode::Backspace => {
                let _ = self.chooser.erase();
            },
            KeyCode::Left => self.chooser.left(),
            KeyCode::Right => self.chooser.right(),
            KeyCode::Char(c) => {
                if !(key.modifiers.alt || key.modifiers.control) {
                    self.chooser.type_char(c);
                }
            },
            _ => {},
        }
        ModalResult::Pending
    }

    pub fn handle_paste(&mut self, text: &str)
        requires
            old(self).wf(),
        ensures
            final(self).wf(),
            final(self)@ == (CreateAgentView {
                chooser: old(self)@.chooser.typed(editing::one_line(text@)),
                ..old(self)@
            }),
    {
        self.chooser.paste_line(text);
    }
}

// ── What is shown ──────────────────────────────────────────────────

pub open spec fn size() -> ModalSize {
    ModalSize { width: 60, percent: 60, least: 10 }
}

/// A hint, the input, a gap, and the list; in the last step the input takes all of it.
pub open spec fn rows(step: ModalStep) -> Seq<Constraint> {
    if step == ModalStep::EnterPrompt {
        seq![
            Constraint::Length(1),
            Constraint::Min(3),
            Constraint::Length(0),
            Constraint::Length(0),
        ]
    } else {
        seq![
            Constraint::Length(1),
            Constraint::Length(1),
            Constraint::Length(1),
            Constraint::Min(0),
        ]
    }
}

pub open spec fn step_title(step: ModalStep, pre_selected: bool) -> Seq<char> {
    if pre_selected {
        if step == ModalStep::NewBranch {
            "Step 1/2 \u{2014} New branch"@
        } else {
            "Step 2/2 \u{2014} Enter prompt"@
        }
    } else {
        match step {
            ModalStep::SelectRepo => "Step 1/4 \u{2014} Select repository"@,
            ModalStep::SelectBranch => "Step 2/4 \u{2014} Select target branch"@,
            ModalStep::NewBranch => "Step 3/4 \u{2014} New branch"@,
            ModalStep::EnterPrompt => "Step 4/4 \u{2014} Enter prompt"@,
        }
    }
}

pub open spec fn step_hint(step: ModalStep, pre_selected: bool) -> Seq<char> {
    match step {
        ModalStep::SelectRepo => "Type to filter, Enter to select, Esc to cancel"@,
        ModalStep::SelectBranch => "Type to filter, Enter to select, Esc to go back"@,
        ModalStep::NewBranch => if pre_selected {
            "Type branch name and press Enter, Esc to cancel"@
        } else {
            "Type branch name and press Enter, Esc to go back"@
        },
        ModalStep::EnterPrompt => "Type a prompt for the agent, Enter to start"@,
    }
}

impl CreateAgentView {
    /// What is said of the branch to be named.
    pub open spec fn branch_hint(self, theme: Theme) -> Seq<Seq<style::SpanView>> {
        let hint = seq![
            view::span(
                if self.new_branch_required {
                    "Enter a branch name to create (required)"@
                } else {
                    "Enter a new branch name, or press Enter to use the target branch"@
                },
                view::ink(theme.text_tertiary),
            ),
        ];
        match self.target_branch {
            Some(target) => seq![
                hint,
                seq![
                    view::span("  Target: "@, view::ink(theme.text_tertiary)),
                    view::span(target, view::ink(theme.accent_text).spec_add(style::bold_only())),
                ],
            ],
            None => seq![hint],
        }
    }

    pub open spec fn parts(self, theme: Theme, r: Seq<Rect>) -> Seq<modal_view::ParagraphView> {
        let top = seq![
            modal_view::plain_text(
                r[0],
                step_hint(self.step, self.pre_selected),
                view::ink(theme.text_tertiary),
            ),
            modal_view::input_shown(theme, self.chooser.edit, r[1], Following::Last),
        ];
        match self.step {
            ModalStep::SelectRepo => top.push(
                modal_view::plain_lines(
                    r[3],
                    modal_view::list_rows(
                        theme,
                        modal_view::repo_items(self.list.repos),
                        self.repo_matches(),
                        self.chooser.selected,
                        r[3].height as int,
                    ),
                ),
            ),
            ModalStep::SelectBranch => top.push(
                modal_view::plain_lines(
                    r[3],
                    modal_view::list_rows(
                        theme,
                        modal_view::branch_items(theme, self.list.branches, true),
                        self.branch_matches(),
                        self.chooser.selected,
                        r[3].height as int,
                    ),
                ),
            ),
            ModalStep::NewBranch => top.push(
                modal_view::plain_lines(r[3], self.branch_hint(theme)),
            ),
            ModalStep::EnterPrompt => top,
        }
    }
}

impl CreateAgentModal {
    fn title(&self) -> (s: &'static str)
        ensures
            s@ == step_title(self@.step, self@.pre_selected),
    {
        if self.pre_selected {
            if self.step == ModalStep::NewBranch {
                "Step 1/2 \u{2014} New branch"
            } else {
                "Step 2/2 \u{2014} Enter prompt"
            }
        } else {
            match self.step {
                ModalStep::SelectRepo => "Step 1/4 \u{2014} Select repository",
                ModalStep::SelectBranch => "Step 2/4 \u{2014} Select target branch",
                ModalStep::NewBranch => "Step 3/4 \u{2014} New branch",
                ModalStep::EnterPrompt => "Step 4/4 \u{2014} Enter prompt",
            }
        }
    }

    fn hint(&self) -> (s: &'static str)
        ensures
            s@ == step_hint(self@.step, self@.pre_selected),
    {
        match self.step {
            ModalStep::SelectRepo => "Type to filter, Enter to select, Esc to cancel",
            ModalStep::SelectBranch => "Type to filter, Enter to select, Esc to go back",
            ModalStep::NewBranch => if self.pre_selected {
                "Type branch name and press Enter, Esc to cancel"
            } else {
                "Type branch name and press Enter, Esc to go back"
            },
            ModalStep::EnterPrompt => "Type a prompt for the agent, Enter to start",
        }
    }

    fn branch_hint_lines(&self, theme: &Theme) -> (lines: Vec<Line>)
        ensures
            style::lines_view(lines@) == self@.branch_hint(*theme),
    {
        let hint = if self.new_branch_required {
            "Enter a branch name to create (required)"
        } else {
            "Enter a new branch name, or press Enter to use the target branch"
        };
        let mut lines = vec![line_in(hint, style_ink(theme.text_tertiary))];
        if let Some(target) = &self.target_branch {
            lines.push(
                line_in_two(
                    "  Target: ",
                    style_ink(theme.text_tertiary),
                    target.as_str(),
                    style_ink(theme.accent_text).bold(),
                ),
            );
        }
        assert(style::lines_view(lines@) =~= self@.branch_hint(*theme));
        lines
    }

    /// The modal within `area`.
    pub fn render(&self, area: Rect, theme: &Theme) -> (face: ModalFace)
        requires
            self.wf(),
        ensures
            modal_view::framed(
                face,
                area,
                size(),
                *theme,
                step_title(self@.step, self@.pre_selected),
            ),
            layout::laid_out(face.rows@, rows(self@.step), modal_view::inside(face.area)),
            modal_view::paragraphs_view(face.parts@) == self@.parts(*theme, face.rows@),
    {
        let constraints = if self.step == ModalStep::EnterPrompt {
            vec![
                Constraint::Length(1),
                Constraint::Min(3),
                Constraint::Length(0),
                Constraint::Length(0),
            ]
        } else {
            vec![
                Constraint::Length(1),
                Constraint::Length(1),
                Constraint::Length(1),
                Constraint::Min(0),
            ]
        };
        assert(constraints@ =~= rows(self.step));
        let size = ModalSize { width: 60, percent: 60, least: 10 };
        let mut face = modal_frame(area, size, self.title(), &constraints, theme);
        let mut parts = Vec::new();
        push_part(
            &mut parts,
            text_part(face.rows[0], self.hint(), style_ink(theme.text_tertiary)),
        );
        push_part(
            &mut parts,
            input_part(&self.chooser.field, face.rows[1], Following::Last, theme),
        );
        match self.step {
            ModalStep::SelectRepo => push_part(
                &mut parts,
                repo_list_part(
                    face.rows[3],
                    &self.list,
                    self.input(),
                    self.chooser.selected_idx,
                    theme,
                ),
            ),
            ModalStep::SelectBranch => push_part(
                &mut parts,
                branch_list_part(
                    face.rows[3],
                    &self.list,
                    self.input(),
                    self.chooser.selected_idx,
                    true,
                    theme,
                ),
            ),
            ModalStep::NewBranch => push_part(
                &mut parts,
                lines_part(face.rows[3], self.branch_hint_lines(theme)),
            ),
            ModalStep::EnterPrompt => {},
        }
        face.parts = parts;
        assert(modal_view::paragraphs_view(face.parts@) =~= self@.parts(*theme, face.rows@));
        face
    }
}

// ── Laws ───────────────────────────────────────────────────────────

/// Whatever is pressed, a repository stays chosen behind the first step, and the steps that
/// choose one are never reached in a modal that was opened for a branch.
pub proof fn steps_stay_in_order(modal: CreateAgentView, key: KeyEvent, sanitized: Seq<char>)
    requires
        modal.wf(),
    ensures
        modal.after_key(key, sanitized).wf(),
{
}

/// Where a branch must be named, the prompt is not reached without a name.
pub proof fn required_branches_are_named(
    modal: CreateAgentView,
    key: KeyEvent,
    sanitized: Seq<char>,
)
    requires
        modal.step == ModalStep::NewBranch,
        modal.new_branch_required,
        modal.after_key(key, sanitized).step == ModalStep::EnterPrompt,
    ensures
        sanitized.len() > 0,
        text::is_blank(modal.chooser.edit.text) || modal.after_key(key, sanitized).new_branch_name
            == Some(sanitized),
{
}

/// Enter takes what the selection stands on, step by step: the repository's path, then the
/// branch's name. A repository without branches needs a new one.
pub proof fn selections_are_taken(modal: CreateAgentView, key: KeyEvent, sanitized: Seq<char>)
    requires
        key.code == KeyCode::Enter,
        modal.chooser.selected >= 0,
    ensures
        ({
            let after = modal.after_key(key, sanitized);
            let picked = modal.repo_matches()[modal.chooser.selected].0 as int;
            let repo = modal.list.repos[picked];
            let empty = repo.local_branches@.len() == 0;
            modal.step == ModalStep::SelectRepo && modal.chooser.selected
                < modal.repo_matches().len() ==> {
                &&& after.selected_repo == Some(repo.path@)
                &&& after.list.branches == repo.local_branches@
                &&& empty ==> after.step == ModalStep::NewBranch && after.new_branch_required
                &&& !empty ==> after.step == ModalStep::SelectBranch && after.new_branch_required
                    == modal.new_branch_required
            }
        }),
        ({
            let after = modal.after_key(key, sanitized);
            let picked = modal.branch_matches()[modal.chooser.selected].0 as int;
            modal.step == ModalStep::SelectBranch && modal.chooser.selected
                < modal.branch_matches().len() ==> {
                &&& after.target_branch == Some(modal.list.branches[picked].name@)
                &&& after.step == ModalStep::NewBranch
                &&& after.selected_repo == modal.selected_repo
            }
        }),
        modal.answer(key) is Pending || modal.step == ModalStep::EnterPrompt,
{
}

/// A new branch goes by the name that was typed, as it may be used. Without one the chosen
/// branch is used, unless a new one is required.
pub proof fn new_branches_are_named(modal: CreateAgentView, key: KeyEvent, sanitized: Seq<char>)
    requires
        key.code == KeyCode::Enter,
        modal.step == ModalStep::NewBranch,
    ensures
        ({
            let after = modal.after_key(key, sanitized);
            let blank = text::is_blank(modal.chooser.edit.text);
            &&& modal.new_branch_required && sanitized.len() == 0 ==> after == modal
            &&& !(modal.new_branch_required && sanitized.len() == 0) ==> {
                &&& after.step == ModalStep::EnterPrompt
                &&& blank ==> after.new_branch_name is None
                &&& !blank ==> after.new_branch_name == Some(sanitized)
                &&& after.target_branch == modal.target_branch
                &&& after.selected_repo == modal.selected_repo
            }
        }),
{
}

/// The agent is created with what was chosen and typed at each step.
pub proof fn agents_are_created_as_chosen(modal: CreateAgentView, key: KeyEvent)
    requires
        key.code == KeyCode::Enter,
        modal.step == ModalStep::EnterPrompt,
        modal.selected_repo is Some,
    ensures
        ({
            let made = modal.answer(key);
            let typed = modal.chooser.edit.text;
            &&& made is Completed
            &&& made->repo_path == modal.selected_repo->0
            &&& made->target_branch == modal.target_branch
            &&& made->new_branch == modal.new_branch_name
            &&& text::is_blank(typed) ==> made->prompt is None
            &&& !text::is_blank(typed) ==> made->prompt == Some(typed)
        }),
{
}

/// Esc goes one step back and forgets what that step had chosen, and cancels at the first step.
pub proof fn esc_goes_one_step_back(modal: CreateAgentView, key: KeyEvent, sanitized: Seq<char>)
    requires
        key.code == KeyCode::Esc,
    ensures
        ({
            let after = modal.after_key(key, sanitized);
            let first = modal.step == ModalStep::SelectRepo || (modal.pre_selected && modal.step
                == ModalStep::NewBranch);
            &&& modal.answer(key) is Cancelled <==> first
            &&& modal.step == ModalStep::SelectBranch ==> after.step == ModalStep::SelectRepo
                && after.selected_repo is None
            &&& modal.step == ModalStep::NewBranch && !first && !modal.new_branch_required
                ==> after.step == ModalStep::SelectBranch && after.target_branch is None
                && after.selected_repo == modal.selected_repo
            &&& modal.step == ModalStep::NewBranch && !first && modal.new_branch_required
                ==> after.step == ModalStep::SelectRepo && after.selected_repo is None
            &&& modal.step == ModalStep::EnterPrompt ==> after.step == ModalStep::NewBranch
                && after.new_branch_name is None && after.target_branch == modal.target_branch
        }),
{
}

/// What is typed goes into the text of the step, and nothing that was chosen changes by it.
pub proof fn typing_changes_the_text_alone(modal: CreateAgentView, key: KeyEvent, sanitized: Seq<char>)
    requires
        key.code is Char,
    ensures
        ({
            let after = modal.after_key(key, sanitized);
            let held = key.modifiers.alt || key.modifiers.control;
            &&& held ==> after == modal
            &&& !held ==> after.chooser.edit == modal.chooser.edit.inserted(seq![key.code->Char_0])
            &&& after.step == modal.step
            &&& after.selected_repo == modal.selected_repo
            &&& after.target_branch == modal.target_branch
            &&& after.new_branch_name == modal.new_branch_name
            &&& modal.answer(key) is Pending
        }),
{
}

/// The hint stands above the input, which shows what is typed, and below it what there is to
/// choose from: repositories, then branches, then the branch that was chosen.
pub proof fn parts_stand_in_their_rows(modal: CreateAgentView, theme: Theme, r: Seq<Rect>)
    ensures
        ({
            let parts = modal.parts(theme, r);
            &&& parts[0].area == r[0]
            &&& parts[0].lines[0][0].content == step_hint(modal.step, modal.pre_selected)
            &&& parts[1].area == r[1]
            &&& parts[1].lines[0] == modal_view::input_spans(theme, modal.chooser.edit)
            &&& modal.step == ModalStep::EnterPrompt ==> parts.len() == 2
            &&& modal.step != ModalStep::EnterPrompt ==> parts.len() == 3 && parts[2].area == r[3]
            &&& modal.step == ModalStep::SelectRepo ==> parts[2].lines == modal_view::list_rows(
                theme,
                modal_view::repo_items(modal.list.repos),
                modal.repo_matches(),
                modal.chooser.selected,
                r[3].height as int,
            )
            &&& modal.step == ModalStep::SelectBranch ==> parts[2].lines == modal_view::list_rows(
                theme,
                modal_view::branch_items(theme, modal.list.branches, true),
                modal.branch_matches(),
                modal.chooser.selected,
                r[3].height as int,
            )
            &&& modal.step == ModalStep::NewBranch && modal.target_branch is Some
                ==> parts[2].lines[1][1].content == modal.target_branch->0
        }),
{
}

} // verus!
