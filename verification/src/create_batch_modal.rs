//! Modal for creating a batch: choose a repository and a branch, name the batch, and say how its
//! agents are launched.

use vstd::prelude::*;

use crate::branch_picker;
use crate::detached_agent_modal;
use crate::editing;
use crate::layout;
use crate::modal;
use crate::modal_view;
use crate::style;
use crate::text;
use crate::view;
use crate::create_agent_modal::copy_of_option;
use crate::detached_agent_modal::mod_key_name;
use crate::keys::{KeyCode, KeyEvent};
use crate::layout::Constraint;
use crate::modal::{Chooser, Field, RepoList};
use crate::modal_view::{
    branch_list_part, input_part, item_line, line_in, lines_part, modal_frame, plain_item,
    push_part, repo_list_part, text_part, Following, ModalFace, ModalSize, Paragraph,
};
use crate::protocol::RepoInfo;
use crate::style::{Line, Span};
use crate::text::{blank, chars_of, copy_of, decimal_of, trimmed_text};
use crate::view::{push_span, style_ink, style_on, Rect, Theme};

verus! {

/// How the agents of a batch are launched.
#[derive(Clone, Copy, Debug, PartialEq, Eq, Structural)]
pub enum LaunchMode {
    /// As many at a time as the batch allows.
    Auto,
    /// One by one, by hand.
    Manual,
}

#[derive(Clone, Copy, Debug, PartialEq, Eq, Structural)]
pub enum BatchModalStep {
    SelectRepo,
    SelectBranch,
    EnterTitle,
    SelectLaunchMode,
    SetConcurrency,
}

#[derive(Debug, Clone)]
pub enum BatchModalResult {
    Pending,
    Cancelled,
    Completed(BatchModalOutput),
}

#[derive(Debug, Clone)]
pub struct BatchModalOutput {
    pub repo_path: String,
    pub repo_name: String,
    pub branch_name: String,
    pub title: Option<String>,
    pub max_concurrent: Option<usize>,
    pub launch_mode: LaunchMode,
}

pub ghost enum ResultView {
    Pending,
    Cancelled,
    Completed {
        repo_path: Seq<char>,
        repo_name: Seq<char>,
        branch_name: Seq<char>,
        title: Option<Seq<char>>,
        max_concurrent: Option<usize>,
        launch_mode: LaunchMode,
    },
}

impl View for BatchModalResult {
    type V = ResultView;

    open spec fn view(&self) -> ResultView {
        match *self {
            BatchModalResult::Pending => ResultView::Pending,
            BatchModalResult::Cancelled => ResultView::Cancelled,
            BatchModalResult::Completed(o) => ResultView::Completed {
                repo_path: o.repo_path@,
                repo_name: o.repo_name@,
                branch_name: o.branch_name@,
                title: branch_picker::text_in(o.title),
                max_concurrent: o.max_concurrent,
                launch_mode: o.launch_mode,
            },
        }
    }
}

/// The repository that was chosen.
pub struct ChosenRepo {
    pub path: String,
    pub name: String,
}

#[verifier::ext_equal]
pub ghost struct ChosenView {
    pub path: Seq<char>,
    pub name: Seq<char>,
}

pub open spec fn chosen_view(repo: Option<ChosenRepo>) -> Option<ChosenView> {
    match repo {
        Some(r) => Some(ChosenView { path: r.path@, name: r.name@ }),
        None => None,
    }
}

pub open spec fn chosen(r: RepoInfo) -> ChosenView {
    ChosenView { path: r.path@, name: r.name@ }
}

pub fn chosen_repo(r: &RepoInfo) -> (c: ChosenRepo)
    ensures
        chosen_view(Some(c)) == Some(chosen(*r)),
{
    ChosenRepo { path: copy_of(r.path.as_str()), name: copy_of(r.name.as_str()) }
}

pub struct CreateBatchModal {
    step: BatchModalStep,
    chooser: Chooser,
    list: RepoList,
    selected_repo: Option<ChosenRepo>,
    selected_branch: Option<String>,
    batch_title: Option<String>,
    launch_mode: LaunchMode,
    max_concurrent: Option<usize>,
}

#[verifier::ext_equal]
pub ghost struct CreateBatchView {
    pub step: BatchModalStep,
    pub chooser: modal::ChooserView,
    pub list: modal::RepoListView,
    pub selected_repo: Option<ChosenView>,
    pub selected_branch: Option<Seq<char>>,
    pub batch_title: Option<Seq<char>>,
    pub launch_mode: LaunchMode,
    pub max_concurrent: Option<usize>,
}

impl View for CreateBatchModal {
    type V = CreateBatchView;

    closed spec fn view(&self) -> CreateBatchView {
        CreateBatchView {
            step: self.step,
            chooser: self.chooser@,
            list: self.list@,
            selected_repo: chosen_view(self.selected_repo),
            selected_branch: branch_picker::text_in(self.selected_branch),
            batch_title: branch_picker::text_in(self.batch_title),
            launch_mode: self.launch_mode,
            max_concurrent: self.max_concurrent,
        }
    }
}

// ── The number of agents at a time ─────────────────────────────────

/// One more; from no limit to one.
pub open spec fn raised(n: Option<usize>) -> Option<usize> {
    match n {
        Some(v) => Some(
            if v < usize::MAX {
                (v + 1) as usize
            } else {
                v
            },
        ),
        None => Some(1),
    }
}

/// One less; from one to no limit.
pub open spec fn lowered(n: Option<usize>) -> Option<usize> {
    match n {
        Some(v) => if v > 1 {
            Some((v - 1) as usize)
        } else {
            None
        },
        None => None,
    }
}

/// With another digit behind it; a long number starts anew.
pub open spec fn with_digit(n: Option<usize>, digit: int) -> Option<usize> {
    match n {
        Some(v) => if v < 1000 {
            Some((v * 10 + digit) as usize)
        } else {
            Some(digit as usize)
        },
        None => Some(digit as usize),
    }
}

/// With all digits of a text behind it.
pub open spec fn with_digits(n: Option<usize>, s: Seq<char>) -> Option<usize>
    decreases s.len(),
{
    if s.len() == 0 {
        n
    } else {
        let before = with_digits(n, s.drop_last());
        if text::is_digit(s.last()) {
            with_digit(before, s.last() as int - '0' as int)
        } else {
            before
        }
    }
}

/// Without its last digit.
pub open spec fn without_digit(n: Option<usize>) -> Option<usize> {
    match n {
        Some(v) => if v >= 10 {
            Some((v / 10) as usize)
        } else {
            None
        },
        None => None,
    }
}

/// Zero means no limit.
pub open spec fn zero_is_none(n: Option<usize>) -> Option<usize> {
    if n == Some(0usize) {
        None
    } else {
        n
    }
}

fn append_digit(n: Option<usize>, c: char) -> (m: Option<usize>)
    requires
        text::is_digit(c),
    ensures
        m == with_digit(n, c as int - '0' as int),
{
    let digit: usize = (c as u32 - '0' as u32) as usize;
    match n {
        Some(v) => if v < 1000 {
            Some(v * 10 + digit)
        } else {
            Some(digit)
        },
        None => Some(digit),
    }
}

fn zero_to_none(n: Option<usize>) -> (m: Option<usize>)
    ensures
        m == zero_is_none(n),
{
    match n {
        Some(v) => if v == 0 {
            None
        } else {
            Some(v)
        },
        None => None,
    }
}

// ── Keys ───────────────────────────────────────────────────────────

impl CreateBatchView {
    /// Behind the first step a repository is chosen, and behind the second a branch.
    pub open spec fn wf(self) -> bool {
        &&& self.step != BatchModalStep::SelectRepo ==> self.selected_repo is Some
        &&& self.step != BatchModalStep::SelectRepo && self.step != BatchModalStep::SelectBranch
            ==> self.selected_branch is Some
        &&& self.max_concurrent != Some(0usize)
    }

    /// On to another step, with nothing typed.
    pub open spec fn at(self, step: BatchModalStep) -> CreateBatchView {
        CreateBatchView { step, chooser: modal::fresh(), ..self }
    }

    pub open spec fn repo_matches(self) -> Seq<(usize, i64)> {
        self.list.repo_matches(self.chooser.edit.text)
    }

    pub open spec fn branch_matches(self) -> Seq<(usize, i64)> {
        self.list.branch_matches(self.chooser.edit.text)
    }

    /// How many entries the list of this step has.
    pub open spec fn count(self) -> int {
        match self.step {
            BatchModalStep::SelectRepo => self.repo_matches().len() as int,
            BatchModalStep::SelectBranch => self.branch_matches().len() as int,
            _ => 0,
        }
    }

    pub open spec fn completed(self, max_concurrent: Option<usize>, launch_mode: LaunchMode) -> ResultView {
        ResultView::Completed {
            repo_path: self.selected_repo->0.path,
            repo_name: self.selected_repo->0.name,
            branch_name: self.selected_branch->0,
            title: self.batch_title,
            max_concurrent,
            launch_mode,
        }
    }

    pub open spec fn after_enter(self) -> CreateBatchView {
        match self.step {
            BatchModalStep::SelectRepo => match self.chooser.choice(self.repo_matches()) {
                Some(idx) => {
                    let list = self.list.opened(idx);
                    // Without a branch there is nothing to go on with
                    if list.branches.len() == 0 {
                        CreateBatchView { list, selected_repo: None, ..self }
                    } else {
                        CreateBatchView {
                            list,
                            selected_repo: Some(chosen(self.list.repos[idx])),
                            ..self.at(BatchModalStep::SelectBranch)
                        }
                    }
                },
                None => self,
            },
            BatchModalStep::SelectBranch => match self.chooser.choice(self.branch_matches()) {
                Some(idx) => CreateBatchView {
                    selected_branch: Some(self.list.branches[idx].name@),
                    ..self.at(BatchModalStep::EnterTitle)
                },
                None => self,
            },
            _ => CreateBatchView {
                batch_title: if text::is_blank(self.chooser.edit.text) {
                    None
                } else {
                    Some(text::trim(self.chooser.edit.text))
                },
                ..self.at(BatchModalStep::SelectLaunchMode)
            },
        }
    }

    pub open spec fn after_esc(self) -> CreateBatchView {
        match self.step {
            BatchModalStep::SelectRepo => self,
            BatchModalStep::SelectBranch => CreateBatchView {
                selected_repo: None,
                list: self.list.closed(),
                ..self.at(BatchModalStep::SelectRepo)
            },
            _ => CreateBatchView {
                selected_branch: None,
                ..self.at(BatchModalStep::SelectBranch)
            },
        }
    }

    /// In the steps with a line to type in.
    pub open spec fn after_typing_key(self, key: KeyEvent) -> CreateBatchView {
        match key.code {
            KeyCode::Esc => self.after_esc(),
            KeyCode::Enter => self.after_enter(),
            KeyCode::Up => CreateBatchView { chooser: self.chooser.up(), ..self },
            KeyCode::Down => CreateBatchView { chooser: self.chooser.down(self.count()), ..self },
            KeyCode::Backspace => CreateBatchView { chooser: self.chooser.erased(), ..self },
            KeyCode::Left => CreateBatchView { chooser: self.chooser.left(), ..self },
            KeyCode::Right => CreateBatchView { chooser: self.chooser.right(), ..self },
            KeyCode::Char(c) => if key.modifiers.alt || key.modifiers.control {
                self
            } else {
                CreateBatchView { chooser: self.chooser.typed(seq![c]), ..self }
            },
            _ => self,
        }
    }

    /// Where the launch mode is chosen.
    pub open spec fn after_launch_mode_key(self, key: KeyEvent) -> CreateBatchView {
        match key.code {
            KeyCode::Esc => CreateBatchView {
                step: BatchModalStep::EnterTitle,
                chooser: modal::ChooserView {
                    edit: match self.batch_title {
                        Some(title) => modal::text_at_end(title),
                        None => modal::no_text(),
                    },
                    selected: 0,
                },
                ..self
            },
            KeyCode::Up | KeyCode::Down => match self.launch_mode {
                LaunchMode::Auto => CreateBatchView {
                    launch_mode: LaunchMode::Manual,
                    chooser: modal::ChooserView { selected: 1, ..self.chooser },
                    ..self
                },
                LaunchMode::Manual => CreateBatchView {
                    launch_mode: LaunchMode::Auto,
                    chooser: modal::ChooserView { selected: 0, ..self.chooser },
                    ..self
                },
            },
            KeyCode::Enter => if self.launch_mode == LaunchMode::Auto {
                self.at(BatchModalStep::SetConcurrency)
            } else {
                self
            },
            _ => self,
        }
    }

    pub open spec fn limited(self, n: Option<usize>) -> CreateBatchView {
        CreateBatchView { max_concurrent: n, ..self }
    }

    /// Where the number of agents at a time is set.
    pub open spec fn after_concurrency_key(self, key: KeyEvent) -> CreateBatchView {
        match key.code {
            KeyCode::Esc => self.at(BatchModalStep::SelectLaunchMode),
            KeyCode::Up | KeyCode::Right => self.limited(raised(self.max_concurrent)),
            KeyCode::Down | KeyCode::Left => self.limited(lowered(self.max_concurrent)),
            KeyCode::Char(c) => if text::is_digit(c) {
                self.limited(
                    zero_is_none(with_digit(self.max_concurrent, c as int - '0' as int)),
                )
            } else {
                self
            },
            KeyCode::Backspace => self.limited(without_digit(self.max_concurrent)),
            _ => self,
        }
    }

    pub open spec fn after_key(self, key: KeyEvent) -> CreateBatchView {
        match self.step {
            BatchModalStep::SelectLaunchMode => self.after_launch_mode_key(key),
            BatchModalStep::SetConcurrency => self.after_concurrency_key(key),
            _ => self.after_typing_key(key),
        }
    }

    pub open spec fn answer(self, key: KeyEvent) -> ResultView {
        match (key.code, self.step) {
            (KeyCode::Esc, BatchModalStep::SelectRepo) => ResultView::Cancelled,
            (KeyCode::Enter, BatchModalStep::SelectLaunchMode) => if self.launch_mode
                == LaunchMode::Manual {
                self.completed(None, LaunchMode::Manual)
            } else {
                ResultView::Pending
            },
            (KeyCode::Enter, BatchModalStep::SetConcurrency) => self.completed(
                self.max_concurrent,
                LaunchMode::Auto,
            ),
            _ => ResultView::Pending,
        }
    }

    pub open spec fn pasted(self, text: Seq<char>) -> CreateBatchView {
        match self.step {
            BatchModalStep::SelectLaunchMode => self,
            BatchModalStep::SetConcurrency => self.limited(
                zero_is_none(with_digits(self.max_concurrent, text)),
            ),
            _ => CreateBatchView {
                chooser: self.chooser.typed(editing::one_line(text)),
                ..self
            },
        }
    }
}

impl CreateBatchModal {
    pub closed spec fn wf(self) -> bool {
        self.chooser.wf() && self.list.wf() && self@.wf()
    }

    pub fn new(repos: Vec<RepoInfo>) -> (modal: Self)
        ensures
            modal.wf(),
            modal@ == (CreateBatchView {
                step: BatchModalStep::SelectRepo,
                chooser: modal::fresh(),
                list: modal::RepoListView { repos: repos@, branches: Seq::empty() },
                selected_repo: None,
                selected_branch: None,
                batch_title: None,
                launch_mode: LaunchMode::Auto,
                max_concurrent: None,
            }),
    {
        CreateBatchModal {
            step: BatchModalStep::SelectRepo,
            chooser: Chooser::new(),
            list: RepoList::new(repos),
            selected_repo: None,
            selected_branch: None,
            batch_title: None,
            launch_mode: LaunchMode::Auto,
            max_concurrent: None,
        }
    }

    fn input(&self) -> (s: &str)
        ensures
            s@ == self@.chooser.edit.text,
    {
        self.chooser.field.input.as_str()
    }

    fn filtered_count(&self) -> (n: usize)
        requires
            self.wf(),
        ensures
            n == self@.count(),
    {
        match self.step {
            BatchModalStep::SelectRepo => self.list.repo_matches(self.input()).len(),
            BatchModalStep::SelectBranch => self.list.branch_matches(self.input()).len(),
            _ => 0,
        }
    }

    fn complete(&self, max_concurrent: Option<usize>, launch_mode: LaunchMode) -> (result:
        BatchModalResult)
        requires
            self@.selected_repo is Some,
            self@.selected_branch is Some,
        ensures
            result@ == self@.completed(max_concurrent, launch_mode),
    {
        match (&self.selected_repo, &self.selected_branch) {
            (Some(repo), Some(branch)) => BatchModalResult::Completed(
                BatchModalOutput {
                    repo_path: copy_of(repo.path.as_str()),
                    repo_name: copy_of(repo.name.as_str()),
                    branch_name: copy_of(branch.as_str()),
                    title: copy_of_option(&self.batch_title),
                    max_concurrent,
                    launch_mode,
                },
            ),
            _ => BatchModalResult::Pending,
        }
    }

    fn handle_enter(&mut self)
        requires
            old(self).wf(),
            old(self)@.step != BatchModalStep::SelectLaunchMode,
            old(self)@.step != BatchModalStep::SetConcurrency,
        ensures
            final(self).wf(),
            final(self)@ == old(self)@.after_enter(),
    {
        match self.step {
            BatchModalStep::SelectRepo => {
                let matches = self.list.repo_matches(self.input());
                if let Some(idx) = self.chooser.choice(&matches) {
                    let repo = chosen_repo(&self.list.repos[idx]);
                    self.list.open(idx);
                    if self.list.branch_count() == 0 {
                        self.selected_repo = None;
                    } else {
                        self.selected_repo = Some(repo);
                        self.step = BatchModalStep::SelectBranch;
                        self.chooser.reset();
                    }
                }
            },
            BatchModalStep::SelectBranch => {
                let matches = self.list.branch_matches(self.input());
                if let Some(idx) = self.chooser.choice(&matches) {
                    let name = copy_of(self.list.branch(idx).name.as_str());
                    self.selected_branch = Some(name);
                    self.step = BatchModalStep::EnterTitle;
                    self.chooser.reset();
                }
            },
            _ => {
                self.batch_title = if blank(self.input()) {
                    None
                } else {
                    Some(trimmed_text(self.input()))
                };
                self.step = BatchModalStep::SelectLaunchMode;
                self.chooser.reset();
            },
        }
    }

    fn handle_typing_key(&mut self, key: KeyEvent) -> (result: BatchModalResult)
        requires
            old(self).wf(),
            old(self)@.step != BatchModalStep::SelectLaunchMode,
            old(self)@.step != BatchModalStep::SetConcurrency,
        ensures
            final(self).wf(),
            final(self)@ == old(self)@.after_typing_key(key),
            result@ == old(self)@.answer(key),
    {
        match key.code {
            KeyCode::Esc => {
                match self.step {
                    BatchModalStep::SelectRepo => {
                        return BatchModalResult::Cancelled;
                    },
                    BatchModalStep::SelectBranch => {
                        self.step = BatchModalStep::SelectRepo;
                        self.selected_repo = None;
                        self.list.close();
                    },
                    _ => {
                        self.step = BatchModalStep::SelectBranch;
                        self.selected_branch = None;
                    },
                }
                self.chooser.reset();
            },
            KeyCode::Enter => self.handle_enter(),
            KeyCode::Up => self.chooser.up(),
            KeyCode::Down => {
                let count = self.filtered_count();
                self.chooser.down(count);
            },
            KeyCode::Backspace => {
                let _ = self.chooser.erase();
            },
            KeyCode::Left => self.chooser.left(),
            KeyCode::Right => self.chooser.right(),
            KeyCode::Char(c) => {
                if !(key.modifiers.alt || key.modifiers.control) {
                    self.chooser.type_char(c);
                }
            },
            _ => {},
        }
        BatchModalResult::Pending
    }

    fn handle_launch_mode_key(&mut self, key: KeyEvent) -> (result: BatchModalResult)
        requires
            old(self).wf(),
            old(self)@.step == BatchModalStep::SelectLaunchMode,
        ensures
            final(self).wf(),
            final(self)@ == old(self)@.after_launch_mode_key(key),
            result@ == old(self)@.answer(key),
    {
        match key.code {
            KeyCode::Esc => {
                self.step = BatchModalStep::EnterTitle;
                self.chooser.reset();
                if let Some(title) = &self.batch_title {
                    self.chooser.field = Field::with_text(title.as_str());
                }
            },
            KeyCode::Up | KeyCode::Down => match self.launch_mode {
                LaunchMode::Auto => {
                    self.launch_mode = LaunchMode::Manual;
                    self.chooser.selected_idx = 1;
                },
                LaunchMode::Manual => {
                    self.launch_mode = LaunchMode::Auto;
                    self.chooser.selected_idx = 0;
                },
            },
            KeyCode::Enter => match self.launch_mode {
                LaunchMode::Auto => {
                    self.step = BatchModalStep::SetConcurrency;
                    self.chooser.reset();
                },
                LaunchMode::Manual => {
                    return self.complete(None, LaunchMode::Manual);
                },
            },
            _ => {},
        }
        BatchModalResult::Pending
    }

    fn handle_concurrency_key(&mut self, key: KeyEvent) -> (result: BatchModalResult)
        requires
            old(self).wf(),
            old(self)@.step == BatchModalStep::SetConcurrency,
        ensures
            final(self).wf(),
            final(self)@ == old(self)@.after_concurrency_key(key),
            result@ == old(self)@.answer(key),
    {
        match key.code {
            KeyCode::Esc => {
                self.step = BatchModalStep::SelectLaunchMode;
                self.chooser.reset();
            },
            KeyCode::Enter => {
                return self.complete(self.max_concurrent, LaunchMode::Auto);
            },
            KeyCode::Up | KeyCode::Right => {
                self.max_concurrent = match self.max_concurrent {
                    Some(v) => Some(v.saturating_add(1)),
                    None => Some(1),
                };
            },
            KeyCode::Down | KeyCode::Left => {
                self.max_concurrent = match self.max_concurrent {
                    Some(v) => if v > 1 {
                        Some(v - 1)
                    } else {
                        None
                    },
                    None => None,
                };
            },
            KeyCode::Char(c) => {
                if c >= '0' && c <= '9' {
                    self.max_concurrent = zero_to_none(append_digit(self.max_concurrent, c));
                }
            },
            KeyCode::Backspace => {
                self.max_concurrent = match self.max_concurrent {
                    Some(v) => if v >= 10 {
                        Some(v / 10)
                    } else {
                        None
                    },
                    None => None,
                };
            },
            _ => {},
        }
        BatchModalResult::Pending
    }

    pub fn handle_key(&mut self, key: KeyEvent) -> (result: BatchModalResult)
        requires
            old(self).wf(),
        ensures
            final(self).wf(),
            final(self)@ == old(self)@.after_key(key),
            result@ == old(self)@.answer(key),
    {
        match self.step {
            BatchModalStep::SelectLaunchMode => self.handle_launch_mode_key(key),
            BatchModalStep::SetConcurrency => self.handle_concurrency_key(key),
            _ => self.handle_typing_key(key),
        }
    }

    pub fn handle_paste(&mut self, text: &str)
        requires
            old(self).wf(),
        ensures
            final(self).wf(),
            final(self)@ == old(self)@.pasted(text@),
    {
        match self.step {
            BatchModalStep::SelectLaunchMode => {},
            BatchModalStep::SetConcurrency => {
                let chars = chars_of(text);
                let mut n = self.max_concurrent;
                let mut i: usize = 0;
                assert(text@.take(0) =~= Seq::<char>::empty());
                while i < chars.len()
                    invariant
                        i <= chars@.len(),
                        chars@ == text@,
                        n == with_digits(self.max_concurrent, text@.take(i as int)),
                    decreases chars@.len() - i,
                {
                    let c = chars[i];
                    assert(text@.take(i + 1).drop_last() =~= text@.take(i as int));
                    if c >= '0' && c <= '9' {
                        n = append_digit(n, c);
                    }
                    i += 1;
                }
                assert(text@.take(i as int) =~= text@);
                self.max_concurrent = zero_to_none(n);
            },
            _ => self.chooser.paste_line(text),
        }
    }
}

// ── What is shown ──────────────────────────────────────────────────

pub open spec fn size() -> ModalSize {
    ModalSize { width: 60, percent: 60, least: 10 }
}

/// Whether a step has a list to choose from.
pub open spec fn has_list(step: BatchModalStep) -> bool {
    step != BatchModalStep::EnterTitle && step != BatchModalStep::SetConcurrency
}

/// A hint, the input, a gap above a list, and the list.
pub open spec fn rows(step: BatchModalStep) -> Seq<Constraint> {
    seq![
        Constraint::Length(1),
        Constraint::Length(1),
        Constraint::Length(
            if has_list(step) {
                1
            } else {
                0
            },
        ),
        Constraint::Min(0),
    ]
}

pub open spec fn step_name(step: BatchModalStep) -> Seq<char> {
    match step {
        BatchModalStep::SelectRepo => " \u{2014} Select repository"@,
        BatchModalStep::SelectBranch => " \u{2014} Select branch"@,
        BatchModalStep::EnterTitle => " \u{2014} Batch name"@,
        BatchModalStep::SelectLaunchMode => " \u{2014} Launch mode"@,
        BatchModalStep::SetConcurrency => " \u{2014} Max concurrent agents"@,
    }
}

pub open spec fn step_number(step: BatchModalStep) -> nat {
    match step {
        BatchModalStep::SelectRepo => 1,
        BatchModalStep::SelectBranch => 2,
        BatchModalStep::EnterTitle => 3,
        BatchModalStep::SelectLaunchMode => 4,
        BatchModalStep::SetConcurrency => 5,
    }
}

/// How many steps there are: by hand, there is no number to set.
pub open spec fn steps_in(launch_mode: LaunchMode) -> nat {
    match launch_mode {
        LaunchMode::Auto => 5,
        LaunchMode::Manual => 4,
    }
}

pub open spec fn step_title(step: BatchModalStep, launch_mode: LaunchMode) -> Seq<char> {
    "Step "@ + text::decimal(step_number(step)) + "/"@ + text::decimal(steps_in(launch_mode))
        + step_name(step)
}

pub open spec fn step_hint(step: BatchModalStep) -> Seq<char> {
    match step {
        BatchModalStep::SelectRepo => "Type to filter, Enter to select, Esc to cancel"@,
        BatchModalStep::SelectBranch => "Type to filter, Enter to select, Esc to go back"@,
        BatchModalStep::EnterTitle => "Name this batch (Enter for auto-name), Esc to go back"@,
        BatchModalStep::SelectLaunchMode => "\u{2191}/\u{2193} select mode, Enter to confirm, Esc to go back"@,
        BatchModalStep::SetConcurrency => "Set max concurrent agents, Enter to confirm, Esc to go back"@,
    }
}

/// The number of agents at a time, or a sign for no limit.
pub open spec fn limit_text(n: Option<usize>) -> Seq<char> {
    match n {
        Some(v) => text::decimal(v as nat),
        None => "\u{221E}"@,
    }
}

pub open spec fn limit_spans(theme: Theme, n: Option<usize>) -> Seq<style::SpanView> {
    seq![
        view::span("> "@, view::ink(theme.accent_bright).spec_add(style::bold_only())),
        view::span(limit_text(n), view::ink(theme.text_primary).spec_add(style::bold_only())),
        view::span(" "@, view::on(theme.bg_base, theme.text_primary)),
    ]
}

pub open spec fn limit_shown(theme: Theme, n: Option<usize>, area: Rect) -> modal_view::ParagraphView {
    modal_view::ParagraphView {
        area,
        lines: seq![limit_spans(theme, n)],
        background: Some(theme.bg_input),
        wrapped: false,
        scroll: 0,
    }
}

/// An empty line, and a hint below it.
pub open spec fn hint_lines(theme: Theme, hint: Seq<char>) -> Seq<Seq<style::SpanView>> {
    seq![Seq::empty(), seq![view::span(hint, view::ink(theme.text_tertiary))]]
}

pub open spec fn launch_mode_lines(theme: Theme, selected: int, macos: bool) -> Seq<
    Seq<style::SpanView>,
> {
    let auto = modal_view::ItemView {
        name: "Auto"@,
        detail: Some("Set max concurrency, agents auto-start"@),
        marks: Seq::empty(),
    };
    let manual = modal_view::ItemView {
        name: "Manual"@,
        detail: Some(
            "Start individual tasks with "@ + detached_agent_modal::mod_key(macos) + "+S"@,
        ),
        marks: Seq::empty(),
    };
    seq![
        modal_view::item_row(theme, auto, selected == 0),
        modal_view::item_row(theme, manual, selected == 1),
    ]
}

impl CreateBatchView {
    pub open spec fn parts(self, theme: Theme, macos: bool, r: Seq<Rect>) -> Seq<
        modal_view::ParagraphView,
    > {
        let hint = modal_view::plain_text(
            r[0],
            step_hint(self.step),
            view::ink(theme.text_tertiary),
        );
        let input = modal_view::input_shown(theme, self.chooser.edit, r[1], Following::Last);
        match self.step {
            BatchModalStep::SelectRepo => seq![
                hint,
                input,
                modal_view::plain_lines(
                    r[3],
                    modal_view::list_rows(
                        theme,
                        modal_view::repo_items(self.list.repos),
                        self.repo_matches(),
                        self.chooser.selected,
                        r[3].height as int,
                    ),
                ),
            ],
            BatchModalStep::SelectBranch => seq![
                hint,
                input,
                modal_view::plain_lines(
                    r[3],
                    modal_view::list_rows(
                        theme,
                        modal_view::branch_items(theme, self.list.branches, true),
                        self.branch_matches(),
                        self.chooser.selected,
                        r[3].height as int,
                    ),
                ),
            ],
            BatchModalStep::EnterTitle => seq![
                hint,
                input,
                modal_view::plain_lines(
                    r[3],
                    hint_lines(theme, "Press Enter with empty input to auto-name"@),
                ),
            ],
            BatchModalStep::SelectLaunchMode => seq![
                hint,
                modal_view::plain_lines(
                    r[3],
                    launch_mode_lines(theme, self.chooser.selected, macos),
                ),
            ],
            BatchModalStep::SetConcurrency => seq![
                hint,
                limit_shown(theme, self.max_concurrent, r[1]),
                modal_view::plain_lines(
                    r[3],
                    hint_lines(
                        theme,
                        "\u{2191}/\u{2193} adjust  \u{00b7}  type a number  \u{00b7}  0 or \u{2193} from 1 = unlimited"@,
                    ),
                ),
            ],
        }
    }
}

fn hint_part(area: Rect, hint: &str, theme: &Theme) -> (p: Paragraph)
    ensures
        p@ == modal_view::plain_lines(area, hint_lines(*theme, hint@)),
{
    let empty = Line { spans: Vec::new() };
    let lines = vec![empty, line_in(hint, style_ink(theme.text_tertiary))];
    assert(empty@ =~= Seq::<style::SpanView>::empty());
    assert(style::lines_view(lines@) =~= hint_lines(*theme, hint@));
    lines_part(area, lines)
}

impl CreateBatchModal {
    fn title(&self) -> (s: String)
        ensures
            s@ == step_title(self@.step, self@.launch_mode),
    {
        let number: usize = match self.step {
            BatchModalStep::SelectRepo => 1,
            BatchModalStep::SelectBranch => 2,
            BatchModalStep::EnterTitle => 3,
            BatchModalStep::SelectLaunchMode => 4,
            BatchModalStep::SetConcurrency => 5,
        };
        let total: usize = match self.launch_mode {
            LaunchMode::Auto => 5,
            LaunchMode::Manual => 4,
        };
        let mut s = copy_of("Step ");
        s.push_str(decimal_of(number).as_str());
        s.push_str("/");
        s.push_str(decimal_of(total).as_str());
        match self.step {
            BatchModalStep::SelectRepo => s.push_str(" \u{2014} Select repository"),
            BatchModalStep::SelectBranch => s.push_str(" \u{2014} Select branch"),
            BatchModalStep::EnterTitle => s.push_str(" \u{2014} Batch name"),
            BatchModalStep::SelectLaunchMode => s.push_str(" \u{2014} Launch mode"),
            BatchModalStep::SetConcurrency => s.push_str(" \u{2014} Max concurrent agents"),
        }
        s
    }

    fn hint(&self) -> (s: &'static str)
        ensures
            s@ == step_hint(self@.step),
    {
        match self.step {
            BatchModalStep::SelectRepo => "Type to filter, Enter to select, Esc to cancel",
            BatchModalStep::SelectBranch => "Type to filter, Enter to select, Esc to go back",
            BatchModalStep::EnterTitle => "Name this batch (Enter for auto-name), Esc to go back",
            BatchModalStep::SelectLaunchMode => "\u{2191}/\u{2193} select mode, Enter to confirm, Esc to go back",
            BatchModalStep::SetConcurrency => "Set max concurrent agents, Enter to confirm, Esc to go back",
        }
    }

    fn limit_part(&self, area: Rect, theme: &Theme) -> (p: Paragraph)
        ensures
            p@ == limit_shown(*theme, self@.max_concurrent, area),
    {
        let value = match self.max_concurrent {
            Some(v) => decimal_of(v),
            None => copy_of("\u{221E}"),
        };
        let mut spans: Vec<Span> = Vec::new();
        push_span(&mut spans, "> ", style_ink(theme.accent_bright).bold());
        push_span(&mut spans, value.as_str(), style_ink(theme.text_primary).bold());
        push_span(&mut spans, " ", style_on(theme.bg_base, theme.text_primary));
        let line = Line { spans };
        assert(line@ =~= limit_spans(*theme, self.max_concurrent));
        let lines = vec![line];
        assert(style::lines_view(lines@) =~= seq![line@]);
        Paragraph { area, lines, background: Some(theme.bg_input), wrapped: false, scroll: 0 }
    }

    fn launch_mode_part(&self, area: Rect, macos: bool, theme: &Theme) -> (p: Paragraph)
        ensures
            p@ == modal_view::plain_lines(
                area,
                launch_mode_lines(*theme, self@.chooser.selected, macos),
            ),
    {
        let mut by_hand = copy_of("Start individual tasks with ");
        by_hand.push_str(mod_key_name(macos));
        by_hand.push_str("+S");
        let auto = plain_item("Auto", Some("Set max concurrency, agents auto-start"));
        let manual = plain_item("Manual", Some(by_hand.as_str()));
        let lines = vec![
            item_line(&auto, self.chooser.selected_idx == 0, theme),
            item_line(&manual, self.chooser.selected_idx == 1, theme),
        ];
        assert(style::lines_view(lines@) =~= launch_mode_lines(
            *theme,
            self.chooser.selected_idx as int,
            macos,
        ));
        lines_part(area, lines)
    }

    fn list_part(&self, area: Rect, macos: bool, theme: &Theme) -> (p: Paragraph)
        requires
            self.wf(),
        ensures
            forall|r: Seq<Rect>|
                r[3] == area ==> p@ == (#[trigger] self@.parts(*theme, macos, r)).last(),
    {
        match self.step {
            BatchModalStep::SelectRepo => repo_list_part(
                area,
                &self.list,
                self.input(),
                self.chooser.selected_idx,
                theme,
            ),
            BatchModalStep::SelectBranch => branch_list_part(
                area,
                &self.list,
                self.input(),
                self.chooser.selected_idx,
                true,
                theme,
            ),
            BatchModalStep::EnterTitle => hint_part(
                area,
                "Press Enter with empty input to auto-name",
                theme,
            ),
            BatchModalStep::SelectLaunchMode => self.launch_mode_part(area, macos, theme),
            BatchModalStep::SetConcurrency => hint_part(
                area,
                "\u{2191}/\u{2193} adjust  \u{00b7}  type a number  \u{00b7}  0 or \u{2193} from 1 = unlimited",
                theme,
            ),
        }
    }

    /// The modal within `area`.
    pub fn render(&self, area: Rect, macos: bool, theme: &Theme) -> (face: ModalFace)
        requires
            self.wf(),
        ensures
            modal_view::framed(
                face,
                area,
                size(),
                *theme,
                step_title(self@.step, self@.launch_mode),
            ),
            layout::laid_out(face.rows@, rows(self@.step), modal_view::inside(face.area)),
            modal_view::paragraphs_view(face.parts@) == self@.parts(*theme, macos, face.rows@),
    {
        let listed = match self.step {
            BatchModalStep::EnterTitle | BatchModalStep::SetConcurrency => false,
            _ => true,
        };
        let gap: u16 = if listed {
            1
        } else {
            0
        };
        let constraints = vec![
            Constraint::Length(1),
            Constraint::Length(1),
            Constraint::Length(gap),
            Constraint::Min(0),
        ];
        assert(constraints@ =~= rows(self.step));
        let size = ModalSize { width: 60, percent: 60, least: 10 };
        let mut face = modal_frame(area, size, self.title().as_str(), &constraints, theme);
        let mut parts = Vec::new();
        push_part(
            &mut parts,
            text_part(face.rows[0], self.hint(), style_ink(theme.text_tertiary)),
        );
        match self.step {
            BatchModalStep::SelectLaunchMode => {},
            BatchModalStep::SetConcurrency => push_part(
                &mut parts,
                self.limit_part(face.rows[1], theme),
            ),
            _ => push_part(
                &mut parts,
                input_part(&self.chooser.field, face.rows[1], Following::Last, theme),
            ),
        }
        push_part(&mut parts, self.list_part(face.rows[3], macos, theme));
        face.parts = parts;
        assert(modal_view::paragraphs_view(face.parts@) =~= self@.parts(
            *theme,
            macos,
            face.rows@,
        ));
        face
    }
}

// ── Laws ───────────────────────────────────────────────────────────

/// Raising the limit and lowering it again changes nothing, up to the largest number.
pub proof fn raising_and_lowering_cancel(n: Option<usize>)
    requires
        n != Some(0usize),
        n != Some(usize::MAX),
    ensures
        lowered(raised(n)) == n,
{
}

/// A batch has no limit or one that lets at least one agent start.
pub proof fn limits_let_an_agent_start(modal: CreateBatchView, key: KeyEvent, text: Seq<char>)
    requires
        modal.wf(),
    ensures
        modal.after_key(key).max_concurrent != Some(0usize),
        modal.pasted(text).max_concurrent != Some(0usize),
{
}

/// Typing a digit and removing it again changes nothing, while the number is short.
pub proof fn erasing_undoes_a_digit(n: usize, digit: int)
    requires
        1 <= n < 1000,
        0 <= digit <= 9,
    ensures
        without_digit(with_digit(Some(n), digit)) == Some(n),
{
}

/// A repository with branches is taken by its path and name, a branch by its name, and a title
/// without the white space around it, if there is one.
pub proof fn selections_are_taken(modal: CreateBatchView, key: KeyEvent)
    requires
        key.code == KeyCode::Enter,
        modal.chooser.selected >= 0,
    ensures
        ({
            let after = modal.after_key(key);
            let repo = modal.list.repos[modal.repo_matches()[modal.chooser.selected].0 as int];
            modal.step == BatchModalStep::SelectRepo && modal.chooser.selected
                < modal.repo_matches().len() && repo.local_branches@.len() > 0 ==> {
                &&& after.selected_repo is Some
                &&& after.selected_repo->0.path == repo.path@
                &&& after.selected_repo->0.name == repo.name@
                &&& after.step == BatchModalStep::SelectBranch
                &&& after.list.branches == repo.local_branches@
            }
        }),
        ({
            let after = modal.after_key(key);
            let picked = modal.branch_matches()[modal.chooser.selected].0 as int;
            modal.step == BatchModalStep::SelectBranch && modal.chooser.selected
                < modal.branch_matches().len() ==> {
                &&& after.selected_branch == Some(modal.list.branches[picked].name@)
                &&& after.selected_repo == modal.selected_repo
                &&& after.step == BatchModalStep::EnterTitle
            }
        }),
        ({
            let after = modal.after_key(key);
            let typed = modal.chooser.edit.text;
            modal.step == BatchModalStep::EnterTitle ==> {
                &&& text::is_blank(typed) ==> after.batch_title is None
                &&& !text::is_blank(typed) ==> after.batch_title == Some(text::trim(typed))
                &&& after.step == BatchModalStep::SelectLaunchMode
                &&& after.selected_branch == modal.selected_branch
            }
        }),
{
}

/// A batch that starts by hand is complete once that is said and has no limit. One that starts
/// by itself is complete with its limit. Either is of the repository, branch and title chosen.
pub proof fn batches_are_made_as_chosen(modal: CreateBatchView, key: KeyEvent)
    requires
        key.code == KeyCode::Enter,
        modal.selected_repo is Some,
        modal.selected_branch is Some,
    ensures
        ({
            let made = modal.answer(key);
            let by_hand = modal.step == BatchModalStep::SelectLaunchMode && modal.launch_mode
                == LaunchMode::Manual;
            let limited = modal.step == BatchModalStep::SetConcurrency;
            &&& made is Completed <==> by_hand || limited
            &&& made is Completed ==> {
                &&& made->repo_path == modal.selected_repo->0.path
                &&& made->repo_name == modal.selected_repo->0.name
                &&& made->branch_name == modal.selected_branch->0
                &&& made->title == modal.batch_title
                &&& by_hand ==> made->max_concurrent is None && made->launch_mode
                    == LaunchMode::Manual
                &&& limited ==> made->max_concurrent == modal.max_concurrent && made->launch_mode
                    == LaunchMode::Auto
            }
            &&& modal.step == BatchModalStep::SelectLaunchMode && modal.launch_mode
                == LaunchMode::Auto ==> modal.after_key(key).step == BatchModalStep::SetConcurrency
        }),
{
}

/// Up and down both go to the other way of starting, which is then the selected one.
pub proof fn launch_modes_take_turns(modal: CreateBatchView, key: KeyEvent)
    requires
        key.code == KeyCode::Up || key.code == KeyCode::Down,
        modal.step == BatchModalStep::SelectLaunchMode,
    ensures
        modal.after_key(key).launch_mode != modal.launch_mode,
        modal.after_key(key).chooser.selected == (if modal.launch_mode == LaunchMode::Auto {
            1int
        } else {
            0
        }),
        modal.after_key(key).after_key(key).launch_mode == modal.launch_mode,
        modal.after_key(key).step == modal.step,
{
}

/// Up and right raise the limit by one, down and left lower it, below one there is none, and
/// digits are typed behind those that are there.
pub proof fn limits_are_set_by_keys(modal: CreateBatchView, key: KeyEvent, n: usize)
    requires
        modal.step == BatchModalStep::SetConcurrency,
        modal.max_concurrent == Some(n),
        0 < n < usize::MAX,
    ensures
        ({
            let after = modal.after_key(key).max_concurrent;
            let d = key.code->Char_0 as int - '0' as int;
            &&& key.code == KeyCode::Up || key.code == KeyCode::Right ==> after == Some(
                (n + 1) as usize,
            )
            &&& key.code == KeyCode::Down || key.code == KeyCode::Left ==> (n > 1 ==> after == Some(
                (n - 1) as usize,
            )) && (n == 1 ==> after is None)
            &&& key.code is Char && 0 <= d <= 9 && n < 1000 ==> after == Some((n * 10 + d) as usize)
            &&& key.code is Char && 1 <= d <= 9 && n >= 1000 ==> after == Some(d as usize)
            &&& key.code is Char && !(0 <= d <= 9) ==> after == Some(n)
            &&& key.code == KeyCode::Backspace && n >= 10 ==> after == Some((n / 10) as usize)
            &&& key.code == KeyCode::Backspace && n < 10 ==> after is None
        }),
{
}

/// Without a limit there is one again once it is raised or a digit other than zero is typed.
pub proof fn unlimited_batches_get_a_limit(modal: CreateBatchView, key: KeyEvent)
    requires
        modal.step == BatchModalStep::SetConcurrency,
        modal.max_concurrent is None,
    ensures
        ({
            let after = modal.after_key(key).max_concurrent;
            let d = key.code->Char_0 as int - '0' as int;
            &&& key.code == KeyCode::Up || key.code == KeyCode::Right ==> after == Some(1usize)
            &&& key.code == KeyCode::Down || key.code == KeyCode::Left ==> after is None
            &&& key.code is Char && 1 <= d <= 9 ==> after == Some(d as usize)
            &&& key.code is Char && d == 0 ==> after is None
        }),
{
}

/// Esc goes one step back, to the title as it was typed where that is the step, and cancels at
/// the first step alone.
pub proof fn esc_goes_one_step_back(modal: CreateBatchView, key: KeyEvent)
    requires
        key.code == KeyCode::Esc,
    ensures
        ({
            let after = modal.after_key(key);
            &&& modal.answer(key) is Cancelled <==> modal.step == BatchModalStep::SelectRepo
            &&& modal.step != BatchModalStep::SelectRepo ==> step_number(after.step) == step_number(
                modal.step,
            ) - 1
            &&& modal.step == BatchModalStep::SelectBranch ==> after.selected_repo is None
            &&& modal.step == BatchModalStep::EnterTitle ==> after.selected_branch is None
                && after.selected_repo == modal.selected_repo
            &&& modal.step == BatchModalStep::SelectLaunchMode && modal.batch_title is Some
                ==> after.chooser.edit.text == modal.batch_title->0
            &&& modal.step == BatchModalStep::SelectLaunchMode && modal.batch_title is None
                ==> after.chooser.edit.text.len() == 0
            &&& modal.step == BatchModalStep::SetConcurrency ==> after.max_concurrent
                == modal.max_concurrent
        }),
{
}

/// What is pasted is typed at the steps that take text; where a number is asked for its digits
/// are.
pub proof fn pasted_text_is_typed(modal: CreateBatchView, text: Seq<char>)
    ensures
        modal.step == BatchModalStep::SelectLaunchMode ==> modal.pasted(text) == modal,
        modal.step == BatchModalStep::EnterTitle ==> modal.pasted(text).chooser.edit
            == modal.chooser.edit.inserted(editing::one_line(text)),
        modal.step == BatchModalStep::SetConcurrency ==> modal.pasted(text).chooser
            == modal.chooser,
        modal.pasted(text).step == modal.step,
{
}

/// Digits are typed one after the other, and what is none is passed over.
pub proof fn digits_are_typed_in_order(n: Option<usize>, s: Seq<char>, c: char)
    ensures
        text::is_digit(c) ==> with_digits(n, s.push(c)) == with_digit(
            with_digits(n, s),
            c as int - '0' as int,
        ),
        !text::is_digit(c) ==> with_digits(n, s.push(c)) == with_digits(n, s),
        with_digits(n, Seq::empty()) == n,
{
    assert(s.push(c).drop_last() =~= s);
}

/// A limit is shown as its number.
pub proof fn limits_are_shown_as_numbers(theme: Theme, n: usize)
    ensures
        limit_spans(theme, Some(n))[1].content == text::decimal(n as nat),
        limit_spans(theme, None)[1].content == seq!['\u{221E}'],
{
    reveal_strlit("\u{221E}");
    assert("\u{221E}"@ =~= seq!['\u{221E}']);
}

/// The hint stands first. At the steps with text the input shows it, at that for the limit it
/// is shown, and the two ways of starting are listed with the selected one marked.
pub proof fn parts_stand_in_their_rows(modal: CreateBatchView, theme: Theme, macos: bool, r: Seq<Rect>)
    ensures
        ({
            let parts = modal.parts(theme, macos, r);
            let texts = modal.step == BatchModalStep::SelectRepo || modal.step
                == BatchModalStep::SelectBranch || modal.step == BatchModalStep::EnterTitle;
            &&& parts[0].area == r[0]
            &&& parts[0].lines[0][0].content == step_hint(modal.step)
            &&& parts.last().area == r[3]
            &&& texts ==> parts[1].area == r[1] && parts[1].lines[0] == modal_view::input_spans(
                theme,
                modal.chooser.edit,
            )
            &&& modal.step == BatchModalStep::SetConcurrency ==> parts[1].area == r[1]
                && parts[1].lines[0] == limit_spans(theme, modal.max_concurrent)
            &&& modal.step == BatchModalStep::SelectLaunchMode ==> {
                &&& parts[1].lines.len() == 2
                &&& parts[1].lines[0][1].content == "Auto"@
                &&& parts[1].lines[1][1].content == "Manual"@
                &&& modal.chooser.selected == 0 ==> parts[1].lines[0][1].style.fg == Some(
                    theme.text_primary,
                )
                &&& modal.chooser.selected == 1 ==> parts[1].lines[1][1].style.fg == Some(
                    theme.text_primary,
                )
            }
            &&& modal.step == BatchModalStep::SelectRepo ==> parts[2].lines
                == modal_view::list_rows(
                theme,
                modal_view::repo_items(modal.list.repos),
                modal.repo_matches(),
                modal.chooser.selected,
                r[3].height as int,
            )
            &&& modal.step == BatchModalStep::SelectBranch ==> parts[2].lines
                == modal_view::list_rows(
                theme,
                modal_view::branch_items(theme, modal.list.branches, true),
                modal.branch_matches(),
                modal.chooser.selected,
                r[3].height as int,
            )
        }),
{
}

/// The title counts the steps: one that starts by itself has a step more, for its limit.
pub proof fn titles_count_the_steps(step: BatchModalStep, launch_mode: LaunchMode)
    ensures
        ({
            let title = step_title(step, launch_mode);
            let of = if launch_mode == LaunchMode::Auto {
                5nat
            } else {
                4nat
            };
            let at = if step == BatchModalStep::SelectRepo {
                1nat
            } else if step == BatchModalStep::SelectBranch {
                2nat
            } else if step == BatchModalStep::EnterTitle {
                3nat
            } else if step == BatchModalStep::SelectLaunchMode {
                4nat
            } else {
                5nat
            };
            &&& title[5] as int - '0' as int == at
            &&& title[7] as int - '0' as int == of
        }),
{
    reveal_strlit("Step ");
    reveal_strlit("/");
    text::decimal_is_digit_by_digit(step_number(step));
    text::decimal_is_digit_by_digit(steps_in(launch_mode));
}

} // verus!
