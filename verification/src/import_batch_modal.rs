//! Modal for importing batches from a JSON file: walk to the file, then choose the repository
//! and the branch that the batches work on.

use vstd::prelude::*;

use crate::branch_picker;
use crate::create_batch_modal;
use crate::editing;
use crate::layout;
use crate::modal;
use crate::modal_view;
use crate::view;
use crate::create_batch_modal::{chosen_repo, ChosenRepo, LaunchMode};
use crate::keys::{KeyCode, KeyEvent};
use crate::layout::Constraint;
use crate::modal::{Browser, Chooser, RepoList};
use crate::modal_view::{
    branch_list_part, entry_list_part, input_part, modal_frame, push_part, repo_list_part,
    text_part, Following, ModalFace, ModalSize,
};
use crate::protocol::RepoInfo;
use crate::term_complete::DirEntry;
use crate::text::{copy_of, joined, text_eq};
use crate::view::{style_ink, Rect, Theme};

verus! {

// ── Batches in a file ──────────────────────────────────────────────

/// A batch as a file describes it.
#[derive(Debug, Clone)]
pub struct BatchJson {
    /// Optional batch title. Falls back to auto-naming ("Batch N") if omitted.
    pub title: Option<String>,
    /// Optional prompt prefix prepended to every task prompt.
    pub prefix: Option<String>,
    /// Optional prompt suffix appended to every task prompt.
    pub suffix: Option<String>,
    /// Launch mode: "auto" (default) or "manual".
    pub launch_mode: Option<String>,
    /// Max concurrent agents (auto mode only). Absent means unlimited.
    pub max_concurrent: Option<usize>,
    /// Whether agents start in plan mode.
    pub plan_mode: bool,
    /// Whether agents can bypass permission prompts.
    pub allow_bypass: bool,
    /// The tasks to create in this batch.
    pub tasks: Vec<TaskJson>,
    /// The titles of batches that this batch depends on.
    pub depends_on: Vec<String>,
}

/// A task of a batch as a file describes it.
#[derive(Debug, Clone)]
pub struct TaskJson {
    /// Branch name for the worktree.
    pub branch: String,
    /// The prompt for the agent.
    pub prompt: String,
    /// Whether the batch prompt prefix is applied to the task.
    pub use_prefix: bool,
    /// Whether the batch prompt suffix is applied to the task.
    pub use_suffix: bool,
    /// Whether the task starts in plan mode.
    pub plan_mode: bool,
}

/// Whether a task starts in plan mode: as its batch does, unless the task itself says so.
pub fn task_plan_mode(task: Option<bool>, batch: bool) -> (plan: bool)
    ensures
        plan == match task {
            Some(own) => own,
            None => batch,
        },
{
    match task {
        Some(own) => own,
        None => batch,
    }
}

/// What came of reading a file.
#[derive(Debug, Clone)]
pub enum FileOutcome {
    /// Its batches.
    Batches(Vec<BatchJson>),
    /// It holds no batches, for this reason.
    Invalid(String),
    /// It could not be read, for this reason.
    Unreadable(String),
}

pub ghost enum OutcomeView {
    Batches(Seq<BatchJson>),
    Invalid(Seq<char>),
    Unreadable(Seq<char>),
}

impl View for FileOutcome {
    type V = OutcomeView;

    open spec fn view(&self) -> OutcomeView {
        match *self {
            FileOutcome::Batches(b) => OutcomeView::Batches(b@),
            FileOutcome::Invalid(e) => OutcomeView::Invalid(e@),
            FileOutcome::Unreadable(e) => OutcomeView::Unreadable(e@),
        }
    }
}

/// The batches of a file, read as a list of batches or else as a single one.
pub fn file_outcome(list: Result<Vec<BatchJson>, String>, single: Result<BatchJson, String>) -> (outcome:
    FileOutcome)
    ensures
        match (list, single) {
            (Ok(batches), _) => outcome@ == OutcomeView::Batches(batches@),
            (Err(_), Ok(batch)) => outcome@ == OutcomeView::Batches(seq![batch]),
            (Err(_), Err(e)) => outcome@ == OutcomeView::Invalid(e@),
        },
{
    match list {
        Ok(batches) => FileOutcome::Batches(batches),
        Err(_) => match single {
            Ok(batch) => {
                let one = vec![batch];
                assert(one@ =~= seq![batch]);
                FileOutcome::Batches(one)
            },
            Err(e) => FileOutcome::Invalid(e),
        },
    }
}

/// Whether there is any task to do.
pub open spec fn has_tasks(batches: Seq<BatchJson>) -> bool {
    exists|i: int| 0 <= i < batches.len() && (#[trigger] batches[i]).tasks@.len() > 0
}

fn any_tasks(batches: &Vec<BatchJson>) -> (yes: bool)
    ensures
        yes == has_tasks(batches@),
{
    let mut i: usize = 0;
    while i < batches.len()
        invariant
            i <= batches@.len(),
            forall|k: int| 0 <= k < i ==> (#[trigger] batches@[k]).tasks@.len() == 0,
        decreases batches@.len() - i,
    {
        if batches[i].tasks.len() > 0 {
            assert(batches@[i as int].tasks@.len() > 0);
            return true;
        }
        i += 1;
    }
    false
}

// ── The launch mode by name ────────────────────────────────────────

/// What `str::to_lowercase` makes of a text.
pub uninterp spec fn lowercase_of(s: Seq<char>) -> Seq<char>;

pub open spec fn is_ascii_text(s: Seq<char>) -> bool {
    forall|i: int| 0 <= i < s.len() ==> (#[trigger] s[i]) as int <= 127
}

/// An ASCII letter in lower case; any other character stays.
pub open spec fn ascii_lower(c: char) -> char {
    if 'A' <= c <= 'Z' {
        (c as int + 32) as char
    } else {
        c
    }
}

/// `str::to_lowercase` gives a text in lower case, after Unicode's properties of characters.
/// Of ASCII text it changes the letters from A to Z alone.
#[verifier::external_body]
fn lowercase(s: &str) -> (lower: String)
    ensures
        lower@ == lowercase_of(s@),
        is_ascii_text(s@) ==> lower@ == s@.map_values(|c: char| ascii_lower(c)),
{
    s.to_lowercase()
}

/// The mode that a name in lower case stands for.
pub open spec fn mode_named(lower: Option<Seq<char>>) -> LaunchMode {
    if lower == Some("manual"@) {
        LaunchMode::Manual
    } else {
        LaunchMode::Auto
    }
}

pub fn launch_mode_named(lower: Option<&str>) -> (mode: LaunchMode)
    ensures
        mode == mode_named(
            match lower {
                Some(s) => Some(s@),
                None => None,
            },
        ),
{
    match lower {
        Some(s) => if text_eq(s, "manual") {
            LaunchMode::Manual
        } else {
            LaunchMode::Auto
        },
        None => LaunchMode::Auto,
    }
}

/// Parse the launch_mode string from JSON into the internal enum.
pub fn parse_launch_mode(s: Option<&str>) -> (mode: LaunchMode)
    ensures
        match s {
            Some(s) => {
                &&& mode == mode_named(Some(lowercase_of(s@)))
                &&& is_ascii_text(s@) ==> mode == mode_named(
                    Some(s@.map_values(|c: char| ascii_lower(c))),
                )
            },
            None => mode == LaunchMode::Auto,
        },
{
    match s {
        Some(s) => {
            let lower = lowercase(s);
            launch_mode_named(Some(lower.as_str()))
        },
        None => launch_mode_named(None),
    }
}

// ── Running a batch ────────────────────────────────────────────────

/// How many of the waiting tasks of a batch start now. A batch that is launched by hand starts
/// none by itself, and no more run at a time than its limit allows.
pub open spec fn starting_now(mode: LaunchMode, limit: Option<usize>, running: int, waiting: int) -> int {
    match (mode, limit) {
        (LaunchMode::Manual, _) => 0,
        (LaunchMode::Auto, None) => waiting,
        (LaunchMode::Auto, Some(limit)) => if running >= limit {
            0
        } else if waiting < limit - running {
            waiting
        } else {
            limit - running
        },
    }
}

pub fn tasks_to_start(mode: LaunchMode, limit: Option<usize>, running: usize, waiting: usize) -> (n:
    usize)
    ensures
        n == starting_now(mode, limit, running as int, waiting as int),
        n <= waiting,
{
    match (mode, limit) {
        (LaunchMode::Manual, _) => 0,
        (LaunchMode::Auto, None) => waiting,
        (LaunchMode::Auto, Some(limit)) => if running >= limit {
            0
        } else if waiting < limit - running {
            waiting
        } else {
            limit - running
        },
    }
}

/// The prompt of a task in its batch: the batch's prefix before it and its suffix behind it,
/// each as a paragraph of its own, unless the task does without.
pub open spec fn whole_prompt(batch: BatchJson, task: TaskJson) -> Seq<char> {
    (match batch.prefix {
        Some(prefix) if task.use_prefix => prefix@ + "\n\n"@,
        _ => Seq::empty(),
    }) + task.prompt@ + (match batch.suffix {
        Some(suffix) if task.use_suffix => "\n\n"@ + suffix@,
        _ => Seq::empty(),
    })
}

pub fn prompt_of_task(batch: &BatchJson, task: &TaskJson) -> (prompt: String)
    ensures
        prompt@ == whole_prompt(*batch, *task),
{
    let mut prompt = String::new();
    if task.use_prefix {
        if let Some(prefix) = &batch.prefix {
            prompt.push_str(prefix.as_str());
            prompt.push_str("\n\n");
        }
    }
    prompt.push_str(task.prompt.as_str());
    if task.use_suffix {
        if let Some(suffix) = &batch.suffix {
            prompt.push_str("\n\n");
            prompt.push_str(suffix.as_str());
        }
    }
    assert(prompt@ =~= whole_prompt(*batch, *task));
    prompt
}

/// A batch never has more tasks running than its limit allows, and leaves no place free while
/// tasks wait.
pub proof fn limits_are_kept_and_used(limit: usize, running: int, waiting: int)
    requires
        0 <= running,
        0 <= waiting,
    ensures
        ({
            let n = starting_now(LaunchMode::Auto, Some(limit), running, waiting);
            &&& running <= limit ==> running + n <= limit
            &&& running + n >= limit || n == waiting
        }),
{
}

// ── The modal ──────────────────────────────────────────────────────

pub enum ImportBatchResult {
    Pending,
    Cancelled,
    Completed(Box<ImportBatchOutput>),
}

pub struct ImportBatchOutput {
    pub batches: Vec<BatchJson>,
    /// The repo path selected by the user.
    pub repo_path: String,
    /// The repo name selected by the user.
    pub repo_name: String,
    /// The branch name selected by the user.
    pub branch_name: String,
}

pub ghost enum ResultView {
    Pending,
    Cancelled,
    Completed {
        batches: Seq<BatchJson>,
        repo_path: Seq<char>,
        repo_name: Seq<char>,
        branch_name: Seq<char>,
    },
}

impl View for ImportBatchResult {
    type V = ResultView;

    open spec fn view(&self) -> ResultView {
        match *self {
            ImportBatchResult::Pending => ResultView::Pending,
            ImportBatchResult::Cancelled => ResultView::Cancelled,
            ImportBatchResult::Completed(o) => ResultView::Completed {
                batches: o.batches@,
                repo_path: o.repo_path@,
                repo_name: o.repo_name@,
                branch_name: o.branch_name@,
            },
        }
    }
}

#[derive(Clone, Copy, Debug, PartialEq, Eq, Structural)]
pub enum Step {
    File,
    Repo,
    Branch,
}

pub struct ImportBatchModal {
    step: Step,
    chooser: Chooser,
    browser: Browser,
    /// The file that is yet to be read.
    wanted_file: Option<String>,
    parsed_batches: Option<Vec<BatchJson>>,
    parse_error: Option<String>,
    list: RepoList,
    selected_repo: Option<ChosenRepo>,
}

#[verifier::ext_equal]
pub ghost struct ImportBatchView {
    pub step: Step,
    pub chooser: modal::ChooserView,
    pub browser: modal::BrowserView,
    pub wanted_file: Option<Seq<char>>,
    pub parsed_batches: Option<Seq<BatchJson>>,
    pub parse_error: Option<Seq<char>>,
    pub list: modal::RepoListView,
    pub selected_repo: Option<create_batch_modal::ChosenView>,
}

pub open spec fn batches_view(batches: Option<Vec<BatchJson>>) -> Option<Seq<BatchJson>> {
    match batches {
        Some(b) => Some(b@),
        None => None,
    }
}

impl View for ImportBatchModal {
    type V = ImportBatchView;

    closed spec fn view(&self) -> ImportBatchView {
        ImportBatchView {
            step: self.step,
            chooser: self.chooser@,
            browser: self.browser@,
            wanted_file: branch_picker::text_in(self.wanted_file),
            parsed_batches: batches_view(self.parsed_batches),
            parse_error: branch_picker::text_in(self.parse_error),
            list: self.list@,
            selected_repo: create_batch_modal::chosen_view(self.selected_repo),
        }
    }
}

/// Where the walk starts: the downloads, or else the directory of that name in the home
/// directory, or else the root.
pub open spec fn start_directory(downloads: Option<&str>, home: Option<&str>) -> Seq<char> {
    match (downloads, home) {
        (Some(d), _) => d@,
        (None, Some(h)) => modal::as_directory(h@) + "Downloads"@,
        (None, None) => "/"@,
    }
}

impl ImportBatchView {
    /// Behind the second step a repository is chosen, and behind the first there are batches
    /// with tasks until they are handed out.
    pub open spec fn wf(self) -> bool {
        &&& self.step == Step::Branch ==> self.selected_repo is Some
        &&& self.parsed_batches matches Some(batches) ==> has_tasks(batches)
    }

    /// On to another step, with nothing typed and no complaint.
    pub open spec fn at(self, step: Step) -> ImportBatchView {
        ImportBatchView { step, chooser: modal::fresh(), parse_error: None, ..self }
    }

    pub open spec fn entry_matches(self) -> Seq<(usize, i64)> {
        self.browser.matches(self.chooser.edit.text)
    }

    pub open spec fn repo_matches(self) -> Seq<(usize, i64)> {
        self.list.repo_matches(self.chooser.edit.text)
    }

    pub open spec fn branch_matches(self) -> Seq<(usize, i64)> {
        self.list.branch_matches(self.chooser.edit.text)
    }

    /// How many entries the list of this step has.
    pub open spec fn count(self) -> int {
        match self.step {
            Step::File => self.entry_matches().len() as int,
            Step::Repo => self.repo_matches().len() as int,
            Step::Branch => self.branch_matches().len() as int,
        }
    }

    pub open spec fn entered(self, idx: int) -> ImportBatchView {
        ImportBatchView { browser: self.browser.entered(idx), ..self.at(Step::File) }
    }

    pub open spec fn after_tab(self) -> ImportBatchView {
        match self.chooser.choice(self.entry_matches()) {
            Some(idx) => if self.browser.entries[idx].is_dir {
                self.entered(idx)
            } else {
                self
            },
            None => self,
        }
    }

    pub open spec fn after_enter(self) -> ImportBatchView {
        match self.step {
            Step::File => match self.chooser.choice(self.entry_matches()) {
                Some(idx) => if self.browser.entries[idx].is_dir {
                    self.entered(idx)
                } else {
                    ImportBatchView {
                        wanted_file: Some(self.browser.base + self.browser.entries[idx].name),
                        ..self
                    }
                },
                None => self,
            },
            Step::Repo => match self.chooser.choice(self.repo_matches()) {
                Some(idx) => {
                    let list = self.list.opened(idx);
                    // Without a branch there is nothing to go on with
                    if list.branches.len() == 0 {
                        ImportBatchView { list, selected_repo: None, ..self }
                    } else {
                        ImportBatchView {
                            list,
                            selected_repo: Some(create_batch_modal::chosen(self.list.repos[idx])),
                            ..self.at(Step::Branch)
                        }
                    }
                },
                None => self,
            },
            Step::Branch => if self.chooser.choice(self.branch_matches()) is Some {
                ImportBatchView { parsed_batches: None, ..self }
            } else {
                self
            },
        }
    }

    pub open spec fn after_esc(self) -> ImportBatchView {
        match self.step {
            Step::File => self,
            Step::Repo => ImportBatchView { parsed_batches: None, ..self.at(Step::File) },
            Step::Branch => ImportBatchView {
                selected_repo: None,
                list: self.list.closed(),
                ..self.at(Step::Repo)
            },
        }
    }

    /// A file that was asked for is no longer wanted once another key is pressed.
    pub open spec fn after_key(self, key: KeyEvent) -> ImportBatchView {
        let s = ImportBatchView { wanted_file: None, ..self };
        match key.code {
            KeyCode::Esc => s.after_esc(),
            KeyCode::Tab => if s.step == Step::File {
                s.after_tab()
            } else {
                s
            },
            KeyCode::Enter => s.after_enter(),
            KeyCode::Up => ImportBatchView { chooser: s.chooser.up(), ..s },
            KeyCode::Down => ImportBatchView { chooser: s.chooser.down(s.count()), ..s },
            KeyCode::Backspace => if s.step == Step::File && s.chooser.edit.text.len() == 0 {
                // One directory level up
                if modal::parent_of(s.browser.base) is Some {
                    ImportBatchView {
                        browser: s.browser.above(),
                        chooser: modal::ChooserView { selected: 0, ..s.chooser },
                        ..s
                    }
                } else {
                    s
                }
            } else if s.chooser.edit.at > 0 {
                ImportBatchView { chooser: s.chooser.erased(), parse_error: None, ..s }
            } else {
                s
            },
            KeyCode::Left => ImportBatchView { chooser: s.chooser.left(), ..s },
            KeyCode::Right => ImportBatchView { chooser: s.chooser.right(), ..s },
            KeyCode::Char(c) => if key.modifiers.alt || key.modifiers.control {
                s
            } else {
                ImportBatchView { chooser: s.chooser.typed(seq![c]), parse_error: None, ..s }
            },
            _ => s,
        }
    }

    pub open spec fn answer(self, key: KeyEvent) -> ResultView {
        match (key.code, self.step) {
            (KeyCode::Esc, Step::File) => ResultView::Cancelled,
            (KeyCode::Enter, Step::Branch) => match (
                self.chooser.choice(self.branch_matches()),
                self.parsed_batches,
            ) {
                (Some(idx), Some(batches)) => ResultView::Completed {
                    batches,
                    repo_path: self.selected_repo->0.path,
                    repo_name: self.selected_repo->0.name,
                    branch_name: self.list.branches[idx].name@,
                },
                _ => ResultView::Pending,
            },
            _ => ResultView::Pending,
        }
    }

    /// What came of reading the file: its batches, or a complaint.
    pub open spec fn after_file(self, outcome: OutcomeView) -> ImportBatchView {
        let s = ImportBatchView { wanted_file: None, ..self };
        match outcome {
            OutcomeView::Batches(batches) => if has_tasks(batches) {
                ImportBatchView { parsed_batches: Some(batches), ..s.at(Step::Repo) }
            } else {
                ImportBatchView { parse_error: Some("JSON has no tasks"@), ..s }
            },
            OutcomeView::Invalid(e) => ImportBatchView {
                parse_error: Some("Invalid JSON: "@ + e),
                ..s
            },
            OutcomeView::Unreadable(e) => ImportBatchView {
                parse_error: Some("Cannot read file: "@ + e),
                ..s
            },
        }
    }
}

impl ImportBatchModal {
    pub closed spec fn wf(self) -> bool {
        self.chooser.wf() && self.list.wf() && self@.wf()
    }

    pub fn new(repos: Vec<RepoInfo>, downloads: Option<&str>, home: Option<&str>) -> (modal: Self)
        ensures
            modal.wf(),
            modal@ == (ImportBatchView {
                step: Step::File,
                chooser: modal::fresh(),
                browser: modal::unread_directory(
                    modal::as_directory(start_directory(downloads, home)),
                ),
                wanted_file: None,
                parsed_batches: None,
                parse_error: None,
                list: modal::RepoListView { repos: repos@, branches: Seq::empty() },
                selected_repo: None,
            }),
    {
        let browser = match (downloads, home) {
            (Some(d), _) => Browser::open(d),
            (None, Some(h)) => {
                let mut path = modal::directory_path(h);
                path.push_str("Downloads");
                Browser::open(path.as_str())
            },
            (None, None) => Browser::open("/"),
        };
        ImportBatchModal {
            step: Step::File,
            chooser: Chooser::new(),
            browser,
            wanted_file: None,
            parsed_batches: None,
            parse_error: None,
            list: RepoList::new(repos),
            selected_repo: None,
        }
    }

    fn input(&self) -> (s: &str)
        ensures
            s@ == self@.chooser.edit.text,
    {
        self.chooser.field.input.as_str()
    }

    /// The directory whose listing is yet to come.
    pub fn directory_to_read(&self) -> (path: Option<&str>)
        ensures
            match path {
                Some(p) => self@.browser.unread && p@ == self@.browser.base,
                None => !self@.browser.unread,
            },
    {
        self.browser.directory_to_read()
    }

    /// Takes in the listing of that directory.
    pub fn refresh_entries(&mut self, listing: Vec<DirEntry>)
        requires
            old(self).wf(),
        ensures
            final(self).wf(),
            final(self)@ == (ImportBatchView {
                browser: old(self)@.browser.read(modal::entries_view(listing@), true),
                ..old(self)@
            }),
    {
        self.browser.read(listing, true);
    }

    /// The file that is yet to be read.
    pub fn file_to_read(&self) -> (path: Option<&str>)
        ensures
            match path {
                Some(p) => self@.wanted_file == Some(p@),
                None => self@.wanted_file is None,
            },
    {
        match &self.wanted_file {
            Some(path) => Some(path.as_str()),
            None => None,
        }
    }

    /// Takes in what came of reading that file.
    pub fn try_parse_file(&mut self, outcome: FileOutcome)
        requires
            old(self).wf(),
        ensures
            final(self).wf(),
            final(self)@ == old(self)@.after_file(outcome@),
    {
        self.wanted_file = None;
        match outcome {
            FileOutcome::Batches(batches) => {
                if any_tasks(&batches) {
                    self.parsed_batches = Some(batches);
                    self.step = Step::Repo;
                    self.reset_input();
                } else {
                    self.parse_error = Some(copy_of("JSON has no tasks"));
                }
            },
            FileOutcome::Invalid(e) => {
                self.parse_error = Some(joined("Invalid JSON: ", e.as_str()));
            },
            FileOutcome::Unreadable(e) => {
                self.parse_error = Some(joined("Cannot read file: ", e.as_str()));
            },
        }
    }

    fn reset_input(&mut self)
        ensures
            final(self).chooser.wf(),
            final(self)@ == old(self)@.at(old(self)@.step),
            final(self).list == old(self).list,
    {
        self.chooser.reset();
        self.parse_error = None;
    }

    fn filtered_count(&self) -> (n: usize)
        requires
            self.wf(),
        ensures
            n == self@.count(),
    {
        match self.step {
            Step::File => self.browser.matches(self.input()).len(),
            Step::Repo => self.list.repo_matches(self.input()).len(),
            Step::Branch => self.list.branch_matches(self.input()).len(),
        }
    }

    fn enter_directory(&mut self, idx: usize)
        requires
            old(self).wf(),
            old(self)@.step == Step::File,
            idx < old(self)@.browser.entries.len(),
        ensures
            final(self).wf(),
            final(self)@ == old(self)@.entered(idx as int),
    {
        self.browser.enter(idx);
        self.reset_input();
    }

    fn handle_esc(&mut self) -> (cancelled: bool)
        requires
            old(self).wf(),
        ensures
            final(self).wf(),
            final(self)@ == old(self)@.after_esc(),
            cancelled == (old(self)@.step == Step::File),
    {
        match self.step {
            Step::File => true,
            Step::Repo => {
                self.step = Step::File;
                self.parsed_batches = None;
                self.reset_input();
                false
            },
            Step::Branch => {
                self.step = Step::Repo;
                self.selected_repo = None;
                self.list.close();
                self.reset_input();
                false
            },
        }
    }

    fn handle_enter(&mut self) -> (result: ImportBatchResult)
        requires
            old(self).wf(),
        ensures
            final(self).wf(),
            final(self)@ == old(self)@.after_enter(),
            forall|key: KeyEvent|
                key.code == KeyCode::Enter ==> result@ == #[trigger] old(self)@.answer(key),
    {
        match self.step {
            Step::File => {
                let matches = self.browser.matches(self.input());
                if let Some(idx) = self.chooser.choice(&matches) {
                    if self.browser.entries[idx].is_dir {
                        self.enter_directory(idx);
                    } else {
                        let path = joined(
                            self.browser.base_path.as_str(),
                            self.browser.entries[idx].name.as_str(),
                        );
                        self.wanted_file = Some(path);
                    }
                }
            },
            Step::Repo => {
                let matches = self.list.repo_matches(self.input());
                if let Some(idx) = self.chooser.choice(&matches) {
                    let repo = chosen_repo(&self.list.repos[idx]);
                    self.list.open(idx);
                    if self.list.branch_count() == 0 {
                        self.selected_repo = None;
                    } else {
                        self.selected_repo = Some(repo);
                        self.step = Step::Branch;
                        self.reset_input();
                    }
                }
            },
            Step::Branch => {
                let matches = self.list.branch_matches(self.input());
                if let Some(idx) = self.chooser.choice(&matches) {
                    let branch_name = copy_of(self.list.branch(idx).name.as_str());
                    let taken = self.parsed_batches.take();
                    if let (Some(batches), Some(repo)) = (taken, &self.selected_repo) {
                        return ImportBatchResult::Completed(
                            Box::new(
                                ImportBatchOutput {
                                    batches,
                                    repo_path: copy_of(repo.path.as_str()),
                                    repo_name: copy_of(repo.name.as_str()),
                                    branch_name,
                                },
                            ),
                        );
                    }
                }
            },
        }
        ImportBatchResult::Pending
    }

    fn erase(&mut self)
        requires
            old(self).wf(),
            old(self)@.wanted_file is None,
        ensures
            final(self).wf(),
            forall|key: KeyEvent|
                key.code == KeyCode::Backspace ==> final(self)@ == #[trigger] old(self)@.after_key(
                    key,
                ),
    {
        if self.step == Step::File && self.input().is_empty() {
            if self.browser.go_up() {
                self.chooser.selected_idx = 0;
            }
        } else if self.chooser.erase() {
            self.parse_error = None;
        }
    }

    pub fn handle_key(&mut self, key: KeyEvent) -> (result: ImportBatchResult)
        requires
            old(self).wf(),
        ensures
            final(self).wf(),
            final(self)@ == old(self)@.after_key(key),
            result@ == old(self)@.answer(key),
    {
        let ghost before = self@;
        self.wanted_file = None;
        proof {
            assert(self@ =~= (ImportBatchView { wanted_file: None, ..before }));
            assert(self@.answer(key) == before.answer(key));
            assert(self@.after_key(key) == before.after_key(key));
        }
        match key.code {
            KeyCode::Esc => {
                if self.handle_esc() {
                    return ImportBatchResult::Cancelled;
                }
            },
            KeyCode::Tab => {
                if self.step == Step::File {
                    // Tab enters a directory
                    let matches = self.browser.matches(self.input());
                    if let Some(idx) = self.chooser.choice(&matches) {
                        if self.browser.entries[idx].is_dir {
                            self.enter_directory(idx);
                        }
                    }
                }
            },
            KeyCode::Enter => {
                return self.handle_enter();
            },
            KeyCode::Up => self.chooser.up(),
            KeyCode::Down => {
                let count = self.filtered_count();
                self.chooser.down(count);
            },
            KeyCode::Backspace => self.erase(),
            KeyCode::Left => self.chooser.left(),
            KeyCode::Right => self.chooser.right(),
            KeyCode::Char(c) => {
                if !(key.modifiers.alt || key.modifiers.control) {
                    self.chooser.type_char(c);
                    self.parse_error = None;
                }
            },
            _ => {},
        }
        ImportBatchResult::Pending
    }

    pub fn handle_paste(&mut self, text: &str)
        requires
            old(self).wf(),
        ensures
            final(self).wf(),
            final(self)@ == (ImportBatchView {
                chooser: old(self)@.chooser.typed(editing::one_line(text@)),
                parse_error: None,
                ..old(self)@
            }),
    {
        self.chooser.paste_line(text);
        self.parse_error = None;
    }
}

// ── What is shown ──────────────────────────────────────────────────

pub open spec fn size() -> ModalSize {
    ModalSize { width: 64, percent: 65, least: 12 }
}

/// A hint, the path in the first step, the input, a gap, and the list.
pub open spec fn rows(step: Step) -> Seq<Constraint> {
    if step == Step::File {
        seq![
            Constraint::Length(1),
            Constraint::Length(1),
            Constraint::Length(1),
            Constraint::Length(1),
            Constraint::Min(0),
        ]
    } else {
        seq![
            Constraint::Length(1),
            Constraint::Length(1),
            Constraint::Length(1),
            Constraint::Min(0),
        ]
    }
}

pub open spec fn step_title(step: Step) -> Seq<char> {
    match step {
        Step::File => "Step 1/3 \u{2014} Select batch JSON file"@,
        Step::Repo => "Step 2/3 \u{2014} Select repository"@,
        Step::Branch => "Step 3/3 \u{2014} Select branch"@,
    }
}

pub open spec fn step_hint(step: Step) -> Seq<char> {
    match step {
        Step::File => "Type to filter, Tab to enter dir, Backspace to go up, Esc to cancel"@,
        Step::Repo => "Type to filter, Enter to select, Esc to go back"@,
        Step::Branch => "Type to filter, Enter to import, Esc to go back"@,
    }
}

impl ImportBatchView {
    /// The path being looked at, or a complaint in its place.
    pub open spec fn path_shown(self, theme: Theme, area: Rect) -> modal_view::ParagraphView {
        match self.parse_error {
            Some(e) => modal_view::plain_text(area, e, view::ink(theme.error)),
            None => modal_view::plain_text(
                area,
                self.browser.base,
                view::ink(theme.accent_text),
            ),
        }
    }

    pub open spec fn parts(self, theme: Theme, r: Seq<Rect>) -> Seq<modal_view::ParagraphView> {
        let hint = modal_view::plain_text(
            r[0],
            step_hint(self.step),
            view::ink(theme.text_tertiary),
        );
        match self.step {
            Step::File => seq![
                hint,
                self.path_shown(theme, r[1]),
                modal_view::input_shown(theme, self.chooser.edit, r[2], Following::Last),
                modal_view::plain_lines(
                    r[4],
                    modal_view::list_rows(
                        theme,
                        modal_view::entry_items(theme, self.browser.entries, true),
                        self.entry_matches(),
                        self.chooser.selected,
                        r[4].height as int,
                    ),
                ),
            ],
            Step::Repo => seq![
                hint,
                modal_view::input_shown(theme, self.chooser.edit, r[1], Following::Last),
                modal_view::plain_lines(
                    r[3],
                    modal_view::list_rows(
                        theme,
                        modal_view::repo_items(self.list.repos),
                        self.repo_matches(),
                        self.chooser.selected,
                        r[3].height as int,
                    ),
                ),
            ],
            Step::Branch => seq![
                hint,
                modal_view::input_shown(theme, self.chooser.edit, r[1], Following::Last),
                modal_view::plain_lines(
                    r[3],
                    modal_view::list_rows(
                        theme,
                        modal_view::branch_items(theme, self.list.branches, true),
                        self.branch_matches(),
                        self.chooser.selected,
                        r[3].height as int,
                    ),
                ),
            ],
        }
    }
}

impl ImportBatchModal {
    /// The modal within `area`.
    pub fn render(&self, area: Rect, theme: &Theme) -> (face: ModalFace)
        requires
            self.wf(),
        ensures
            modal_view::framed(face, area, size(), *theme, step_title(self@.step)),
            layout::laid_out(face.rows@, rows(self@.step), modal_view::inside(face.area)),
            modal_view::paragraphs_view(face.parts@) == self@.parts(*theme, face.rows@),
    {
        let constraints = if self.step == Step::File {
            vec![
                Constraint::Length(1),
                Constraint::Length(1),
                Constraint::Length(1),
                Constraint::Length(1),
                Constraint::Min(0),
            ]
        } else {
            vec![
                Constraint::Length(1),
                Constraint::Length(1),
                Constraint::Length(1),
                Constraint::Min(0),
            ]
        };
        assert(constraints@ =~= rows(self.step));
        let (title, hint) = match self.step {
            Step::File => (
                "Step 1/3 \u{2014} Select batch JSON file",
                "Type to filter, Tab to enter dir, Backspace to go up, Esc to cancel",
            ),
            Step::Repo => (
                "Step 2/3 \u{2014} Select repository",
                "Type to filter, Enter to select, Esc to go back",
            ),
            Step::Branch => (
                "Step 3/3 \u{2014} Select branch",
                "Type to filter, Enter to import, Esc to go back",
            ),
        };
        let size = ModalSize { width: 64, percent: 65, least: 12 };
        let mut face = modal_frame(area, size, title, &constraints, theme);
        let selected = self.chooser.selected_idx;
        let mut parts = Vec::new();
        push_part(&mut parts, text_part(face.rows[0], hint, style_ink(theme.text_tertiary)));
        match self.step {
            Step::File => {
                let path = match &self.parse_error {
                    Some(e) => text_part(face.rows[1], e.as_str(), style_ink(theme.error)),
                    None => text_part(
                        face.rows[1],
                        self.browser.base_path.as_str(),
                        style_ink(theme.accent_text),
                    ),
                };
                push_part(&mut parts, path);
                push_part(
                    &mut parts,
                    input_part(&self.chooser.field, face.rows[2], Following::Last, theme),
                );
                push_part(
                    &mut parts,
                    entry_list_part(
                        face.rows[4],
                        &self.browser,
                        self.input(),
                        selected,
                        true,
                        theme,
                    ),
                );
            },
            Step::Repo => {
                push_part(
                    &mut parts,
                    input_part(&self.chooser.field, face.rows[1], Following::Last, theme),
                );
                push_part(
                    &mut parts,
                    repo_list_part(face.rows[3], &self.list, self.input(), selected, theme),
                );
            },
            Step::Branch => {
                push_part(
                    &mut parts,
                    input_part(&self.chooser.field, face.rows[1], Following::Last, theme),
                );
                push_part(
                    &mut parts,
                    branch_list_part(
                        face.rows[3],
                        &self.list,
                        self.input(),
                        selected,
                        true,
                        theme,
                    ),
                );
            },
        }
        face.parts = parts;
        assert(modal_view::paragraphs_view(face.parts@) =~= self@.parts(*theme, face.rows@));
        face
    }
}

// ── Laws ───────────────────────────────────────────────────────────

/// What is imported has something to do.
pub proof fn imported_batches_have_tasks(modal: ImportBatchView, key: KeyEvent)
    requires
        modal.wf(),
    ensures
        modal.answer(key) matches ResultView::Completed { batches, .. } ==> has_tasks(batches),
{
}

/// A file without a task in it keeps the modal where it is, with a complaint.
pub proof fn files_without_tasks_are_refused(modal: ImportBatchView, outcome: OutcomeView)
    requires
        outcome matches OutcomeView::Batches(batches) ==> !has_tasks(batches),
    ensures
        modal.after_file(outcome).step == modal.step,
        modal.after_file(outcome).parse_error is Some,
        modal.after_file(outcome).parsed_batches == modal.parsed_batches,
{
}

/// Enter goes into a directory and asks for a file that is selected, by its place under the
/// directory shown; Tab goes into directories alone.
pub proof fn files_are_asked_for_by_path(modal: ImportBatchView, key: KeyEvent)
    requires
        modal.step == Step::File,
        0 <= modal.chooser.selected < modal.entry_matches().len(),
    ensures
        ({
            let after = modal.after_key(key);
            let picked = modal.entry_matches()[modal.chooser.selected].0 as int;
            let entry = modal.browser.entries[picked];
            &&& key.code == KeyCode::Enter && !entry.is_dir ==> after.wanted_file == Some(
                modal.browser.base + entry.name,
            ) && after.browser == modal.browser && after.step == Step::File
            &&& (key.code == KeyCode::Enter || key.code == KeyCode::Tab) && entry.is_dir ==> {
                &&& after.wanted_file is None
                &&& after.browser.base == modal::child_of(modal.browser.base, entry.name)
                &&& after.browser.unread
            }
            &&& key.code == KeyCode::Tab && !entry.is_dir ==> after.browser == modal.browser
                && after.wanted_file is None
        }),
{
}

/// A repository with branches is taken by its path and name; without branches one stays.
pub proof fn repositories_are_taken(modal: ImportBatchView, key: KeyEvent)
    requires
        key.code == KeyCode::Enter,
        modal.step == Step::Repo,
        0 <= modal.chooser.selected < modal.repo_matches().len(),
    ensures
        ({
            let after = modal.after_key(key);
            let repo = modal.list.repos[modal.repo_matches()[modal.chooser.selected].0 as int];
            &&& repo.local_branches@.len() > 0 ==> {
                &&& after.step == Step::Branch
                &&& after.selected_repo is Some
                &&& after.selected_repo->0.path == repo.path@
                &&& after.selected_repo->0.name == repo.name@
                &&& after.list.branches == repo.local_branches@
                &&& after.parsed_batches == modal.parsed_batches
            }
            &&& repo.local_branches@.len() == 0 ==> after.step == Step::Repo
                && after.selected_repo is None
        }),
{
}

/// The batches that were read are imported for the repository and the branch that were chosen.
pub proof fn batches_are_imported_as_chosen(modal: ImportBatchView, key: KeyEvent)
    requires
        key.code == KeyCode::Enter,
        modal.step == Step::Branch,
        modal.selected_repo is Some,
        modal.parsed_batches is Some,
        0 <= modal.chooser.selected < modal.branch_matches().len(),
    ensures
        ({
            let made = modal.answer(key);
            let picked = modal.branch_matches()[modal.chooser.selected].0 as int;
            &&& made is Completed
            &&& made->batches == modal.parsed_batches->0
            &&& made->repo_path == modal.selected_repo->0.path
            &&& made->repo_name == modal.selected_repo->0.name
            &&& made->branch_name == modal.list.branches[picked].name@
            &&& modal.after_key(key).parsed_batches is None
        }),
{
}

/// A file with tasks leads on to the repository with just these batches. Anything else is told,
/// with the reason that was given, and one stays at the files.
pub proof fn files_lead_on_or_are_told_of(modal: ImportBatchView, outcome: OutcomeView)
    ensures
        ({
            let after = modal.after_file(outcome);
            let good = outcome is Batches && exists|i: int|
                0 <= i < outcome->Batches_0.len() && (#[trigger] outcome->Batches_0[i]).tasks@.len()
                    > 0;
            let told = after.parse_error;
            &&& after.wanted_file is None
            &&& good ==> {
                &&& after.step == Step::Repo
                &&& after.parsed_batches == Some(outcome->Batches_0)
                &&& told is None
            }
            &&& !good ==> {
                &&& after.step == modal.step
                &&& after.parsed_batches == modal.parsed_batches
                &&& told is Some
            }
            &&& outcome is Invalid ==> modal::ends_in(told->0, outcome->Invalid_0)
            &&& outcome is Unreadable ==> modal::ends_in(told->0, outcome->Unreadable_0)
        }),
{
    if outcome is Invalid {
        let e = outcome->Invalid_0;
        let s = "Invalid JSON: "@ + e;
        assert(s.skip(s.len() - e.len()) =~= e);
    }
    if outcome is Unreadable {
        let e = outcome->Unreadable_0;
        let s = "Cannot read file: "@ + e;
        assert(s.skip(s.len() - e.len()) =~= e);
    }
}

/// Esc goes one step back and forgets what that step had chosen, and cancels at the first.
pub proof fn esc_goes_one_step_back(modal: ImportBatchView, key: KeyEvent)
    requires
        key.code == KeyCode::Esc,
    ensures
        ({
            let after = modal.after_key(key);
            &&& modal.answer(key) is Cancelled <==> modal.step == Step::File
            &&& modal.step == Step::Repo ==> after.step == Step::File && after.parsed_batches
                is None
            &&& modal.step == Step::Branch ==> after.step == Step::Repo && after.selected_repo
                is None && after.parsed_batches == modal.parsed_batches
            &&& after.browser == modal.browser
        }),
{
}

/// A task's prompt stands between the batch's own beginning and end, each where the batch has
/// one and the task uses it.
pub proof fn prompts_stand_between_beginning_and_end(batch: BatchJson, task: TaskJson)
    ensures
        ({
            let whole = whole_prompt(batch, task);
            let gap = seq!['\n', '\n'];
            let head = if batch.prefix is Some && task.use_prefix {
                batch.prefix->0@ + gap
            } else {
                Seq::empty()
            };
            let tail = if batch.suffix is Some && task.use_suffix {
                gap + batch.suffix->0@
            } else {
                Seq::empty()
            };
            &&& whole.len() == head.len() + task.prompt@.len() + tail.len()
            &&& whole.take(head.len() as int) == head
            &&& whole.skip(whole.len() - tail.len()) == tail
            &&& whole.subrange(head.len() as int, (head.len() + task.prompt@.len()) as int)
                == task.prompt@
        }),
{
    reveal_strlit("\n\n");
    let gap = seq!['\n', '\n'];
    assert("\n\n"@ =~= gap);
    let whole = whole_prompt(batch, task);
    let head = if batch.prefix is Some && task.use_prefix {
        batch.prefix->0@ + gap
    } else {
        Seq::empty()
    };
    let tail = if batch.suffix is Some && task.use_suffix {
        gap + batch.suffix->0@
    } else {
        Seq::empty()
    };
    assert(whole =~= head + task.prompt@ + tail);
    assert(whole.take(head.len() as int) =~= head);
    assert(whole.skip(whole.len() - tail.len()) =~= tail);
    assert(whole.subrange(head.len() as int, (head.len() + task.prompt@.len()) as int)
        =~= task.prompt@);
}

/// A batch starts by hand only where that is what it says.
pub proof fn modes_are_read_by_name(named: Option<Seq<char>>)
    ensures
        mode_named(named) == LaunchMode::Manual <==> named == Some("manual"@),
        mode_named(None) == LaunchMode::Auto,
{
}

/// As many tasks start as the limit leaves room for, none of a batch that starts by hand, and
/// all of one without a limit.
pub proof fn tasks_start_up_to_the_limit(limit: usize, running: int, waiting: int)
    requires
        running >= 0,
        waiting >= 0,
    ensures
        starting_now(LaunchMode::Manual, Some(limit), running, waiting) == 0,
        starting_now(LaunchMode::Manual, None, running, waiting) == 0,
        starting_now(LaunchMode::Auto, None, running, waiting) == waiting,
        running + waiting <= limit ==> starting_now(
            LaunchMode::Auto,
            Some(limit),
            running,
            waiting,
        ) == waiting,
        running <= limit <= running + waiting ==> starting_now(
            LaunchMode::Auto,
            Some(limit),
            running,
            waiting,
        ) == limit - running,
        running >= limit ==> starting_now(LaunchMode::Auto, Some(limit), running, waiting) == 0,
{
}

/// Where to look first is the folder for downloads, or that of its usual name at home.
pub proof fn downloads_are_looked_at_first(downloads: Option<&str>, home: Option<&str>)
    ensures
        downloads is Some ==> start_directory(downloads, home) == downloads->0@,
        downloads is None && home is Some ==> start_directory(downloads, home)
            == modal::as_directory(home->0@) + "Downloads"@,
        downloads is None && home is None ==> start_directory(downloads, home) == "/"@,
{
}

/// The files are shown below the path they lie under, or below what is wrong with one; later
/// the repositories and then the branches are shown below the input.
pub proof fn parts_stand_in_their_rows(modal: ImportBatchView, theme: Theme, r: Seq<Rect>)
    ensures
        ({
            let parts = modal.parts(theme, r);
            let files = modal.step == Step::File;
            &&& parts[0].area == r[0]
            &&& parts[0].lines[0][0].content == step_hint(modal.step)
            &&& files ==> {
                &&& parts[1].area == r[1]
                &&& modal.parse_error is Some ==> parts[1].lines[0][0].content
                    == modal.parse_error->0 && parts[1].lines[0][0].style.fg == Some(theme.error)
                &&& modal.parse_error is None ==> parts[1].lines[0][0].content == modal.browser.base
                &&& parts[2].area == r[2]
                &&& parts[2].lines[0] == modal_view::input_spans(theme, modal.chooser.edit)
                &&& parts[3].area == r[4]
            }
            &&& !files ==> {
                &&& parts[1].area == r[1]
                &&& parts[1].lines[0] == modal_view::input_spans(theme, modal.chooser.edit)
                &&& parts[2].area == r[3]
            }
            &&& modal.step == Step::Repo ==> parts[2].lines == modal_view::list_rows(
                theme,
                modal_view::repo_items(modal.list.repos),
                modal.repo_matches(),
                modal.chooser.selected,
                r[3].height as int,
            )
        }),
{
}

} // verus!
