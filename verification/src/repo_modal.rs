//! Modal for adding a repository: create a new one or clone an existing one, in a directory that
//! is walked to.

use vstd::prelude::*;

use crate::branch_picker;
use crate::editing;
use crate::layout;
use crate::modal;
use crate::modal_view;
use crate::style;
use crate::text;
use crate::view;
use crate::keys::{KeyCode, KeyEvent};
use crate::layout::Constraint;
use crate::modal::{plain_path, trim_slashes, Browser, Chooser};
use crate::modal_view::{
    entry_list_part, input_part, item_line, lines_part, modal_frame, plain_item, push_part,
    text_part, Following, ModalFace, ModalSize,
};
use crate::style::Line;
use crate::term_complete::DirEntry;
use crate::text::{chars_of, copy_of, string_of, trimmed_text};
use crate::view::{style_ink, Rect, Theme};

verus! {

#[derive(Clone, Copy, Debug, PartialEq, Eq, Structural)]
pub enum RepoAction {
    Create,
    Clone,
}

#[derive(Clone, Copy, Debug, PartialEq, Eq, Structural)]
pub enum Step {
    ChooseAction,
    SelectDirectory,
    EnterUrl,
    EnterName,
}

#[derive(Debug, Clone)]
pub enum RepoModalResult {
    Pending,
    Cancelled,
    CreateRepo(CreateRepoOutput),
    CloneRepo(CloneRepoOutput),
}

#[derive(Debug, Clone)]
pub struct CreateRepoOutput {
    pub parent_dir: String,
    pub name: String,
}

#[derive(Debug, Clone)]
pub struct CloneRepoOutput {
    pub url: String,
    pub parent_dir: String,
    pub name: Option<String>,
}

pub ghost enum ResultView {
    Pending,
    Cancelled,
    CreateRepo { parent_dir: Seq<char>, name: Seq<char> },
    CloneRepo { url: Seq<char>, parent_dir: Seq<char>, name: Option<Seq<char>> },
}

impl View for RepoModalResult {
    type V = ResultView;

    open spec fn view(&self) -> ResultView {
        match *self {
            RepoModalResult::Pending => ResultView::Pending,
            RepoModalResult::Cancelled => ResultView::Cancelled,
            RepoModalResult::CreateRepo(o) => ResultView::CreateRepo {
                parent_dir: o.parent_dir@,
                name: o.name@,
            },
            RepoModalResult::CloneRepo(o) => ResultView::CloneRepo {
                url: o.url@,
                parent_dir: o.parent_dir@,
                name: branch_picker::text_in(o.name),
            },
        }
    }
}

pub struct RepoModal {
    step: Step,
    action: RepoAction,
    chooser: Chooser,
    browser: Browser,
    parent_dir: String,
    url: String,
}

#[verifier::ext_equal]
pub ghost struct RepoModalView {
    pub step: Step,
    pub action: RepoAction,
    pub chooser: modal::ChooserView,
    pub browser: modal::BrowserView,
    pub parent_dir: Seq<char>,
    pub url: Seq<char>,
}

impl View for RepoModal {
    type V = RepoModalView;

    closed spec fn view(&self) -> RepoModalView {
        RepoModalView {
            step: self.step,
            action: self.action,
            chooser: self.chooser@,
            browser: self.browser@,
            parent_dir: self.parent_dir@,
            url: self.url@,
        }
    }
}

/// The home directory, or the root where there is none.
pub open spec fn home_or_root(home: Option<&str>) -> Seq<char> {
    match home {
        Some(h) => h@,
        None => "/"@,
    }
}

impl RepoModalView {
    /// Only the steps with a list have anything selected but the first entry.
    pub open spec fn wf(self) -> bool {
        self.step == Step::EnterUrl || self.step == Step::EnterName ==> self.chooser.selected == 0
    }

    /// The directories that match what was typed.
    pub open spec fn matches(self) -> Seq<(usize, i64)> {
        self.browser.matches(self.chooser.edit.text)
    }

    /// The selected directory is entered, if there is one.
    pub open spec fn entered(self) -> RepoModalView {
        match self.chooser.choice(self.matches()) {
            Some(i) => RepoModalView {
                browser: self.browser.entered(i),
                chooser: modal::fresh(),
                ..self
            },
            None => self,
        }
    }

    /// On to another step, with nothing typed.
    pub open spec fn at(self, step: Step) -> RepoModalView {
        RepoModalView { step, chooser: modal::fresh(), ..self }
    }

    /// Back to the directory that was confirmed.
    pub open spec fn back_to_directory(self) -> RepoModalView {
        RepoModalView {
            browser: modal::unread_directory(modal::as_directory(self.parent_dir)),
            ..self.at(Step::SelectDirectory)
        }
    }

    /// The directory being looked at is the one to work in.
    pub open spec fn confirmed(self) -> RepoModalView {
        RepoModalView {
            parent_dir: modal::as_plain_path(self.browser.base),
            ..self.at(
                match self.action {
                    RepoAction::Clone => Step::EnterUrl,
                    RepoAction::Create => Step::EnterName,
                },
            )
        }
    }

    pub open spec fn after_enter(self, home: Option<&str>) -> RepoModalView {
        let typed = text::trim(self.chooser.edit.text);
        match self.step {
            Step::ChooseAction => RepoModalView {
                action: if self.chooser.selected == 0 {
                    RepoAction::Create
                } else {
                    RepoAction::Clone
                },
                browser: modal::unread_directory(modal::as_directory(home_or_root(home))),
                ..self.at(Step::SelectDirectory)
            },
            // Filter text that matches a directory leads into it first
            Step::SelectDirectory => if self.chooser.edit.text.len() > 0 {
                self.entered().confirmed()
            } else {
                self.confirmed()
            },
            Step::EnterUrl => if typed.len() == 0 {
                self
            } else {
                RepoModalView { url: typed, ..self.at(Step::EnterName) }
            },
            Step::EnterName => self,
        }
    }

    pub open spec fn after_esc(self) -> RepoModalView {
        match self.step {
            Step::ChooseAction => self,
            Step::SelectDirectory => self.at(Step::ChooseAction),
            Step::EnterUrl => self.back_to_directory(),
            Step::EnterName => match self.action {
                RepoAction::Clone => self.at(Step::EnterUrl),
                RepoAction::Create => self.back_to_directory(),
            },
        }
    }

    pub open spec fn after_key(self, key: KeyEvent, home: Option<&str>) -> RepoModalView {
        match key.code {
            KeyCode::Esc => self.after_esc(),
            KeyCode::Tab => if self.step == Step::SelectDirectory {
                self.entered()
            } else {
                self
            },
            KeyCode::Enter => self.after_enter(home),
            KeyCode::Up => RepoModalView { chooser: self.chooser.up(), ..self },
            KeyCode::Down => match self.step {
                Step::ChooseAction => RepoModalView { chooser: self.chooser.down(2), ..self },
                Step::SelectDirectory => RepoModalView {
                    chooser: self.chooser.down(self.matches().len() as int),
                    ..self
                },
                _ => self,
            },
            KeyCode::Backspace => if self.step == Step::SelectDirectory
                && self.chooser.edit.text.len() == 0 {
                // One directory level up
                if modal::parent_of(self.browser.base) is Some {
                    RepoModalView {
                        browser: self.browser.above(),
                        chooser: modal::ChooserView { selected: 0, ..self.chooser },
                        ..self
                    }
                } else {
                    self
                }
            } else {
                RepoModalView { chooser: self.chooser.erased(), ..self }
            },
            KeyCode::Left => RepoModalView { chooser: self.chooser.left(), ..self },
            KeyCode::Right => RepoModalView { chooser: self.chooser.right(), ..self },
            KeyCode::Char(c) => if key.modifiers.alt || key.modifiers.control {
                self
            } else {
                RepoModalView { chooser: self.chooser.typed(seq![c]), ..self }
            },
            _ => self,
        }
    }

    pub open spec fn answer(self, key: KeyEvent) -> ResultView {
        let typed = text::trim(self.chooser.edit.text);
        match (key.code, self.step) {
            (KeyCode::Esc, Step::ChooseAction) => ResultView::Cancelled,
            (KeyCode::Enter, Step::EnterName) => match self.action {
                RepoAction::Create => if typed.len() == 0 {
                    ResultView::Pending
                } else {
                    ResultView::CreateRepo { parent_dir: self.parent_dir, name: typed }
                },
                RepoAction::Clone => ResultView::CloneRepo {
                    url: self.url,
                    parent_dir: self.parent_dir,
                    name: if typed.len() == 0 {
                        None
                    } else {
                        Some(typed)
                    },
                },
            },
            _ => ResultView::Pending,
        }
    }
}

impl RepoModal {
    pub closed spec fn wf(self) -> bool {
        self.chooser.wf() && self@.wf()
    }

    pub fn new() -> (modal: Self)
        ensures
            modal.wf(),
            modal@ == (RepoModalView {
                step: Step::ChooseAction,
                action: RepoAction::Create,
                chooser: modal::fresh(),
                browser: modal::BrowserView {
                    base: ""@,
                    entries: Seq::empty(),
                    unread: false,
                },
                parent_dir: ""@,
                url: ""@,
            }),
    {
        RepoModal {
            step: Step::ChooseAction,
            action: RepoAction::Create,
            chooser: Chooser::new(),
            browser: Browser::nowhere(),
            parent_dir: copy_of(""),
            url: copy_of(""),
        }
    }

    /// The directory whose listing is yet to come.
    pub fn directory_to_read(&self) -> (path: Option<&str>)
        ensures
            match path {
                Some(p) => self@.browser.unread && p@ == self@.browser.base,
                None => !self@.browser.unread,
            },
    {
        self.browser.directory_to_read()
    }

    /// Takes in the listing of that directory.
    pub fn refresh_entries(&mut self, listing: Vec<DirEntry>)
        requires
            old(self).wf(),
        ensures
            final(self).wf(),
            final(self)@ == (RepoModalView {
                browser: old(self)@.browser.read(modal::entries_view(listing@), false),
                ..old(self)@
            }),
    {
        self.browser.read(listing, false);
    }

    fn autocomplete_selected(&mut self)
        requires
            old(self).wf(),
        ensures
            final(self).wf(),
            final(self)@ == old(self)@.entered(),
    {
        let matches = self.browser.matches(self.chooser.field.input.as_str());
        if let Some(idx) = self.chooser.choice(&matches) {
            self.browser.enter(idx);
            self.chooser.reset();
        }
    }

    fn confirm_directory(&mut self)
        requires
            old(self).wf(),
        ensures
            final(self).wf(),
            final(self)@ == old(self)@.confirmed(),
    {
        self.parent_dir = plain_path(self.browser.base_path.as_str());
        self.chooser.reset();
        self.step = match self.action {
            RepoAction::Clone => Step::EnterUrl,
            RepoAction::Create => Step::EnterName,
        };
    }

    fn return_to_directory(&mut self)
        requires
            old(self).wf(),
        ensures
            final(self).wf(),
            final(self)@ == old(self)@.back_to_directory(),
    {
        self.step = Step::SelectDirectory;
        self.chooser.reset();
        self.browser = Browser::open(self.parent_dir.as_str());
    }

    fn handle_esc(&mut self) -> (cancelled: bool)
        requires
            old(self).wf(),
        ensures
            final(self).wf(),
            final(self)@ == old(self)@.after_esc(),
            cancelled == (old(self)@.step == Step::ChooseAction),
    {
        match self.step {
            Step::ChooseAction => {
                return true;
            },
            Step::SelectDirectory => {
                self.step = Step::ChooseAction;
                self.chooser.reset();
            },
            Step::EnterUrl => self.return_to_directory(),
            Step::EnterName => match self.action {
                RepoAction::Clone => {
                    self.step = Step::EnterUrl;
                    self.chooser.reset();
                },
                RepoAction::Create => self.return_to_directory(),
            },
        }
        false
    }

    fn handle_enter(&mut self, home: Option<&str>) -> (result: RepoModalResult)
        requires
            old(self).wf(),
        ensures
            final(self).wf(),
            final(self)@ == old(self)@.after_enter(home),
            forall|key: KeyEvent|
                key.code == KeyCode::Enter ==> result@ == #[trigger] old(self)@.answer(key),
    {
        match self.step {
            Step::ChooseAction => {
                self.action = if self.chooser.selected_idx == 0 {
                    RepoAction::Create
                } else {
                    RepoAction::Clone
                };
                self.step = Step::SelectDirectory;
                self.chooser.reset();
                self.browser = match home {
                    Some(h) => Browser::open(h),
                    None => Browser::open("/"),
                };
            },
            Step::SelectDirectory => {
                if !self.chooser.field.input.as_str().is_empty() {
                    self.autocomplete_selected();
                }
                self.confirm_directory();
            },
            Step::EnterUrl => {
                let url = trimmed_text(self.chooser.field.input.as_str());
                if !url.as_str().is_empty() {
                    self.url = url;
                    self.step = Step::EnterName;
                    self.chooser.reset();
                }
            },
            Step::EnterName => {
                let name = trimmed_text(self.chooser.field.input.as_str());
                let empty = name.as_str().is_empty();
                match self.action {
                    RepoAction::Create => {
                        if !empty {
                            return RepoModalResult::CreateRepo(
                                CreateRepoOutput {
                                    parent_dir: copy_of(self.parent_dir.as_str()),
                                    name,
                                },
                            );
                        }
                    },
                    RepoAction::Clone => {
                        return RepoModalResult::CloneRepo(
                            CloneRepoOutput {
                                url: copy_of(self.url.as_str()),
                                parent_dir: copy_of(self.parent_dir.as_str()),
                                name: if empty {
                                    None
                                } else {
                                    Some(name)
                                },
                            },
                        );
                    },
                }
            },
        }
        RepoModalResult::Pending
    }

    /// `home` is the home directory, where walking starts.
    pub fn handle_key(&mut self, key: KeyEvent, home: Option<&str>) -> (result: RepoModalResult)
        requires
            old(self).wf(),
        ensures
            final(self).wf(),
            final(self)@ == old(self)@.after_key(key, home),
            result@ == old(self)@.answer(key),
    {
        match key.code {
            KeyCode::Esc => {
                if self.handle_esc() {
                    return RepoModalResult::Cancelled;
                }
            },
            KeyCode::Tab => {
                if self.step == Step::SelectDirectory {
                    self.autocomplete_selected();
                }
            },
            KeyCode::Enter => {
                return self.handle_enter(home);
            },
            KeyCode::Up => self.chooser.up(),
            KeyCode::Down => match self.step {
                Step::ChooseAction => self.chooser.down(2),
                Step::SelectDirectory => {
                    let matches = self.browser.matches(self.chooser.field.input.as_str());
                    self.chooser.down(matches.len());
                },
                _ => {},
            },
            KeyCode::Backspace => {
                if self.step == Step::SelectDirectory
                    && self.chooser.field.input.as_str().is_empty() {
                    if self.browser.go_up() {
                        self.chooser.selected_idx = 0;
                    }
                } else {
                    let _ = self.chooser.erase();
                }
            },
            KeyCode::Left => self.chooser.left(),
            KeyCode::Right => self.chooser.right(),
            KeyCode::Char(c) => {
                if !(key.modifiers.alt || key.modifiers.control) {
                    self.chooser.type_char(c);
                }
            },
            _ => {},
        }
        RepoModalResult::Pending
    }

    pub fn handle_paste(&mut self, text: &str)
        requires
            old(self).wf(),
        ensures
            final(self).wf(),
            final(self)@ == (RepoModalView {
                chooser: old(self)@.chooser.typed(editing::one_line(text@)),
                ..old(self)@
            }),
    {
        self.chooser.paste_line(text);
    }
}

// ── The name in a URL ──────────────────────────────────────────────

/// What follows the last `c`, or all of a text without one.
pub open spec fn after_last(s: Seq<char>, c: char) -> Seq<char>
    decreases s.len(),
{
    if s.len() == 0 || s.last() == c {
        Seq::empty()
    } else {
        after_last(s.drop_last(), c).push(s.last())
    }
}

/// A text without an ending that it may have.
pub open spec fn without_end(s: Seq<char>, end: Seq<char>) -> Seq<char> {
    if modal::ends_in(s, end) {
        s.take(s.len() - end.len())
    } else {
        s
    }
}

/// The last component of a clone URL, without `.git`.
pub open spec fn name_in_url(url: Seq<char>) -> Option<Seq<char>> {
    let s = without_end(modal::without_slashes(text::trim(url)), ".git"@);
    let name = after_last(after_last(s, ':'), '/');
    if name.len() == 0 {
        None
    } else {
        Some(name)
    }
}

fn after_last_char(s: &str, c: char) -> (t: String)
    ensures
        t@ == after_last(s@, c),
{
    let chars = chars_of(s);
    let mut n: usize = chars.len();
    while n > 0 && chars[n - 1] != c
        invariant
            n <= chars@.len(),
            chars@ == s@,
            forall|k: int| n <= k < s@.len() ==> s@[k] != c,
        decreases n,
    {
        n -= 1;
    }
    let t = string_of(chars.as_slice(), n, chars.len());
    proof {
        lemma_after_last_from(s@, c, n as int);
        assert(t@ =~= s@.skip(n as int));
    }
    t
}

proof fn lemma_after_last_from(s: Seq<char>, c: char, n: int)
    requires
        0 <= n <= s.len(),
        forall|k: int| n <= k < s.len() ==> s[k] != c,
    ensures
        n == 0 || s[n - 1] == c ==> after_last(s, c) == s.skip(n),
    decreases s.len(),
{
    if n == 0 || s[n - 1] == c {
        if s.len() == n {
            assert(s.skip(n) =~= Seq::<char>::empty());
            assert(after_last(s, c) =~= Seq::<char>::empty());
        } else {
            assert(s[s.len() - 1] != c);
            let front = s.drop_last();
            assert(forall|k: int| n <= k < front.len() ==> front[k] == s[k]);
            lemma_after_last_from(front, c, n);
            assert(front.skip(n).push(s.last()) =~= s.skip(n));
        }
    }
}

/// Extract a repository name from a clone URL.
pub fn repo_name_from_url(url: &str) -> (name: Option<String>)
    ensures
        branch_picker::text_in(name) == name_in_url(url@),
{
    let s = trim_slashes(trimmed_text(url).as_str());
    let chars = chars_of(s.as_str());
    let s = if modal::name_ends_in(s.as_str(), ".git") {
        proof {
            reveal_strlit(".git");
        }
        let t = string_of(chars.as_slice(), 0, chars.len() - 4);
        assert(t@ =~= s@.take(s@.len() - 4));
        t
    } else {
        s
    };
    let behind = after_last_char(s.as_str(), ':');
    let name = after_last_char(behind.as_str(), '/');
    if name.as_str().is_empty() {
        None
    } else {
        Some(name)
    }
}

proof fn lemma_after_last_has_none(s: Seq<char>, c: char, d: char)
    ensures
        !after_last(s, c).contains(c),
        !s.contains(d) ==> !after_last(s, c).contains(d),
    decreases s.len(),
{
    if s.len() > 0 && s.last() != c {
        let front = s.drop_last();
        lemma_after_last_has_none(front, c, d);
        let rest = after_last(front, c);
        assert forall|x: char| rest.push(s.last()).contains(x) implies rest.contains(x) || x
            == s.last() by {
            let i = rest.push(s.last()).index_of(x);
            if i < rest.len() {
                assert(rest[i] == x);
            }
        }
        assert forall|x: char| front.contains(x) implies s.contains(x) by {
            let i = front.index_of(x);
            assert(s[i] == x);
        }
        assert(s[s.len() - 1] == s.last());
    }
}

/// The name that a URL gives is one path component.
pub proof fn name_in_url_is_one_component(url: Seq<char>)
    ensures
        name_in_url(url) matches Some(name) ==> name.len() > 0 && !name.contains('/')
            && !name.contains(':'),
{
    let s = without_end(modal::without_slashes(text::trim(url)), ".git"@);
    lemma_after_last_has_none(s, ':', ':');
    lemma_after_last_has_none(after_last(s, ':'), '/', ':');
}

// ── What is shown ──────────────────────────────────────────────────

pub open spec fn size() -> ModalSize {
    ModalSize { width: 60, percent: 60, least: 10 }
}

pub open spec fn rows(step: Step) -> Seq<Constraint> {
    match step {
        Step::ChooseAction => seq![
            Constraint::Length(1),
            Constraint::Length(1),
            Constraint::Min(0),
        ],
        Step::SelectDirectory => seq![
            Constraint::Length(1),
            Constraint::Length(1),
            Constraint::Length(1),
            Constraint::Length(1),
            Constraint::Min(0),
        ],
        _ => seq![Constraint::Length(1), Constraint::Length(1), Constraint::Min(3)],
    }
}

pub open spec fn step_title(step: Step, action: RepoAction) -> Seq<char> {
    match (step, action) {
        (Step::ChooseAction, _) => "Add Repository"@,
        (Step::SelectDirectory, RepoAction::Create) => "Create \u{2014} Select parent directory"@,
        (Step::SelectDirectory, RepoAction::Clone) => "Clone \u{2014} Select destination"@,
        (Step::EnterUrl, _) => "Clone \u{2014} Repository URL"@,
        (Step::EnterName, RepoAction::Create) => "Create \u{2014} Repository name"@,
        (Step::EnterName, RepoAction::Clone) => "Clone \u{2014} Directory name"@,
    }
}

/// What to enter in a step without a list.
pub open spec fn entry_hint(step: Step, action: RepoAction) -> Seq<char> {
    match (step, action) {
        (Step::EnterUrl, _) => "Enter the git clone URL"@,
        (_, RepoAction::Create) => "Enter repository name"@,
        (_, RepoAction::Clone) => "Enter name (optional, press Enter to use default)"@,
    }
}

impl RepoModalView {
    /// What was entered so far.
    pub open spec fn context(self) -> Seq<char> {
        if self.step == Step::EnterName && self.action == RepoAction::Clone {
            "Directory: "@ + self.parent_dir + "  URL: "@ + self.url + "  Default name: "@ + (
            match name_in_url(self.url) {
                Some(name) => name,
                None => ""@,
            })
        } else {
            "Directory: "@ + self.parent_dir
        }
    }

    pub open spec fn parts(self, theme: Theme, r: Seq<Rect>) -> Seq<modal_view::ParagraphView> {
        let ink = view::ink(theme.text_tertiary);
        match self.step {
            Step::ChooseAction => seq![
                modal_view::plain_text(
                    r[0],
                    "Select an action, Enter to confirm, Esc to cancel"@,
                    ink,
                ),
                modal_view::plain_lines(
                    r[2],
                    seq![
                        modal_view::name_spans(
                            theme,
                            "Create new repository"@,
                            self.chooser.selected == 0,
                        ),
                        modal_view::name_spans(
                            theme,
                            "Clone existing repository"@,
                            self.chooser.selected == 1,
                        ),
                    ],
                ),
            ],
            Step::SelectDirectory => seq![
                modal_view::plain_text(
                    r[0],
                    "Type to filter, Tab to enter dir, Enter to confirm, Esc to go back"@,
                    ink,
                ),
                modal_view::plain_text(r[1], self.browser.base, view::ink(theme.accent_text)),
                modal_view::input_shown(theme, self.chooser.edit, r[2], Following::Always),
                modal_view::plain_lines(
                    r[4],
                    modal_view::list_rows(
                        theme,
                        modal_view::entry_items(theme, self.browser.entries, false),
                        self.matches(),
                        self.chooser.selected,
                        r[4].height as int,
                    ),
                ),
            ],
            _ => seq![
                modal_view::plain_text(
                    r[0],
                    entry_hint(self.step, self.action) + ", Esc to go back"@,
                    ink,
                ),
                modal_view::plain_text(r[1], self.context(), view::ink(theme.text_secondary)),
                modal_view::input_shown(theme, self.chooser.edit, r[2], Following::Always),
            ],
        }
    }
}

impl RepoModal {
    fn title(&self) -> (s: &'static str)
        ensures
            s@ == step_title(self@.step, self@.action),
    {
        match (self.step, self.action) {
            (Step::ChooseAction, _) => "Add Repository",
            (Step::SelectDirectory, RepoAction::Create) => "Create \u{2014} Select parent directory",
            (Step::SelectDirectory, RepoAction::Clone) => "Clone \u{2014} Select destination",
            (Step::EnterUrl, _) => "Clone \u{2014} Repository URL",
            (Step::EnterName, RepoAction::Create) => "Create \u{2014} Repository name",
            (Step::EnterName, RepoAction::Clone) => "Clone \u{2014} Directory name",
        }
    }

    fn constraints(&self) -> (c: Vec<Constraint>)
        ensures
            c@ == rows(self@.step),
    {
        let c = match self.step {
            Step::ChooseAction => vec![
                Constraint::Length(1),
                Constraint::Length(1),
                Constraint::Min(0),
            ],
            Step::SelectDirectory => vec![
                Constraint::Length(1),
                Constraint::Length(1),
                Constraint::Length(1),
                Constraint::Length(1),
                Constraint::Min(0),
            ],
            _ => vec![Constraint::Length(1), Constraint::Length(1), Constraint::Min(3)],
        };
        assert(c@ =~= rows(self.step));
        c
    }

    /// What was entered so far.
    fn context(&self) -> (s: String)
        ensures
            s@ == self@.context(),
    {
        let mut s = copy_of("Directory: ");
        s.push_str(self.parent_dir.as_str());
        if self.step == Step::EnterName && self.action == RepoAction::Clone {
            s.push_str("  URL: ");
            s.push_str(self.url.as_str());
            s.push_str("  Default name: ");
            match repo_name_from_url(self.url.as_str()) {
                Some(name) => s.push_str(name.as_str()),
                None => s.push_str(""),
            }
        }
        s
    }

    fn action_lines(&self, theme: &Theme) -> (lines: Vec<Line>)
        ensures
            style::lines_view(lines@) == seq![
                modal_view::name_spans(
                    *theme,
                    "Create new repository"@,
                    self@.chooser.selected == 0,
                ),
                modal_view::name_spans(
                    *theme,
                    "Clone existing repository"@,
                    self@.chooser.selected == 1,
                ),
            ],
    {
        let first = plain_item("Create new repository", None);
        let second = plain_item("Clone existing repository", None);
        let lines = vec![
            item_line(&first, self.chooser.selected_idx == 0, theme),
            item_line(&second, self.chooser.selected_idx == 1, theme),
        ];
        assert(lines@[0]@ =~= modal_view::name_spans(
            *theme,
            "Create new repository"@,
            self.chooser.selected_idx == 0,
        ));
        assert(lines@[1]@ =~= modal_view::name_spans(
            *theme,
            "Clone existing repository"@,
            self.chooser.selected_idx == 1,
        ));
        assert(style::lines_view(lines@) =~= seq![lines@[0]@, lines@[1]@]);
        lines
    }

    /// The modal within `area`.
    pub fn render(&self, area: Rect, theme: &Theme) -> (face: ModalFace)
        requires
            self.wf(),
        ensures
            modal_view::framed(
                face,
                area,
                size(),
                *theme,
                step_title(self@.step, self@.action),
            ),
            layout::laid_out(face.rows@, rows(self@.step), modal_view::inside(face.area)),
            modal_view::paragraphs_view(face.parts@) == self@.parts(*theme, face.rows@),
    {
        let size = ModalSize { width: 60, percent: 60, least: 10 };
        let mut face = modal_frame(area, size, self.title(), &self.constraints(), theme);
        let ink = style_ink(theme.text_tertiary);
        let mut parts = Vec::new();
        match self.step {
            Step::ChooseAction => {
                push_part(
                    &mut parts,
                    text_part(
                        face.rows[0],
                        "Select an action, Enter to confirm, Esc to cancel",
                        ink,
                    ),
                );
                push_part(&mut parts, lines_part(face.rows[2], self.action_lines(theme)));
            },
            Step::SelectDirectory => {
                push_part(
                    &mut parts,
                    text_part(
                        face.rows[0],
                        "Type to filter, Tab to enter dir, Enter to confirm, Esc to go back",
                        ink,
                    ),
                );
                push_part(
                    &mut parts,
                    text_part(
                        face.rows[1],
                        self.browser.base_path.as_str(),
                        style_ink(theme.accent_text),
                    ),
                );
                push_part(
                    &mut parts,
                    input_part(&self.chooser.field, face.rows[2], Following::Always, theme),
                );
                push_part(
                    &mut parts,
                    entry_list_part(
                        face.rows[4],
                        &self.browser,
                        self.chooser.field.input.as_str(),
                        self.chooser.selected_idx,
                        false,
                        theme,
                    ),
                );
            },
            _ => {
                let mut hint = match (self.step, self.action) {
                    (Step::EnterUrl, _) => copy_of("Enter the git clone URL"),
                    (_, RepoAction::Create) => copy_of("Enter repository name"),
                    (_, RepoAction::Clone) => copy_of(
                        "Enter name (optional, press Enter to use default)",
                    ),
                };
                hint.push_str(", Esc to go back");
                push_part(&mut parts, text_part(face.rows[0], hint.as_str(), ink));
                push_part(
                    &mut parts,
                    text_part(
                        face.rows[1],
                        self.context().as_str(),
                        style_ink(theme.text_secondary),
                    ),
                );
                push_part(
                    &mut parts,
                    input_part(&self.chooser.field, face.rows[2], Following::Always, theme),
                );
            },
        }
        face.parts = parts;
        assert(modal_view::paragraphs_view(face.parts@) =~= self@.parts(*theme, face.rows@));
        face
    }
}

/// The first entry makes a repository, the second one copies one, and either begins with the
/// directory at home.
pub proof fn actions_are_taken_as_listed(modal: RepoModalView, key: KeyEvent, home: Option<&str>)
    requires
        key.code == KeyCode::Enter,
        modal.step == Step::ChooseAction,
        0 <= modal.chooser.selected < 2,
    ensures
        ({
            let after = modal.after_key(key, home);
            &&& after.action == RepoAction::Create <==> modal.chooser.selected == 0
            &&& after.step == Step::SelectDirectory
            &&& after.browser.unread
            &&& home is Some ==> after.browser.base == modal::as_directory(home->0@)
            &&& home is None ==> after.browser.base == modal::as_directory("/"@)
            &&& modal.answer(key) is Pending
        }),
{
}

/// The directory that is confirmed is the one shown, or the one selected in it where there is
/// text to select by. A copy then needs its address, a new repository its name.
pub proof fn directories_are_confirmed(modal: RepoModalView, key: KeyEvent, home: Option<&str>)
    requires
        key.code == KeyCode::Enter,
        modal.step == Step::SelectDirectory,
        modal.chooser.selected >= 0,
    ensures
        ({
            let after = modal.after_key(key, home);
            let picked = modal.matches()[modal.chooser.selected].0 as int;
            let typed = modal.chooser.edit.text.len() > 0;
            let found = modal.chooser.selected < modal.matches().len();
            &&& after.action == modal.action
            &&& modal.action == RepoAction::Clone ==> after.step == Step::EnterUrl
            &&& modal.action == RepoAction::Create ==> after.step == Step::EnterName
            &&& !typed || !found ==> after.parent_dir == modal::as_plain_path(modal.browser.base)
            &&& typed && found ==> after.parent_dir == modal::as_plain_path(
                modal::child_of(modal.browser.base, modal.browser.entries[picked].name),
            )
        }),
{
}

/// The address is taken without white space around it, and asked for until there is one.
pub proof fn addresses_are_taken(modal: RepoModalView, key: KeyEvent, home: Option<&str>)
    requires
        key.code == KeyCode::Enter,
        modal.step == Step::EnterUrl,
    ensures
        ({
            let after = modal.after_key(key, home);
            let typed = text::trim(modal.chooser.edit.text);
            &&& typed.len() == 0 ==> after == modal
            &&& typed.len() > 0 ==> after.url == typed && after.step == Step::EnterName
                && after.parent_dir == modal.parent_dir && after.action == modal.action
        }),
{
}

/// A repository is made under its name in the directory confirmed, and only with a name. A copy
/// is made from its address, in that directory, and may do without a name.
pub proof fn repositories_are_made_as_asked(modal: RepoModalView, key: KeyEvent)
    requires
        key.code == KeyCode::Enter,
        modal.step == Step::EnterName,
    ensures
        ({
            let made = modal.answer(key);
            let typed = text::trim(modal.chooser.edit.text);
            &&& modal.action == RepoAction::Create ==> {
                &&& typed.len() == 0 ==> made is Pending
                &&& typed.len() > 0 ==> made is CreateRepo && made->CreateRepo_parent_dir
                    == modal.parent_dir && made->CreateRepo_name == typed
            }
            &&& modal.action == RepoAction::Clone ==> {
                &&& made is CloneRepo
                &&& made->url == modal.url
                &&& made->CloneRepo_parent_dir == modal.parent_dir
                &&& typed.len() == 0 ==> made->CloneRepo_name is None
                &&& typed.len() > 0 ==> made->CloneRepo_name == Some(typed)
            }
        }),
{
}

/// Esc goes back to the step before, which for a name is the address where there is one, and
/// cancels at the first step alone.
pub proof fn esc_goes_one_step_back(modal: RepoModalView, key: KeyEvent, home: Option<&str>)
    requires
        key.code == KeyCode::Esc,
    ensures
        ({
            let after = modal.after_key(key, home);
            &&& modal.answer(key) is Cancelled <==> modal.step == Step::ChooseAction
            &&& modal.step == Step::SelectDirectory ==> after.step == Step::ChooseAction
            &&& modal.step == Step::EnterUrl ==> after.step == Step::SelectDirectory
            &&& modal.step == Step::EnterName && modal.action == RepoAction::Clone ==> after.step
                == Step::EnterUrl
            &&& modal.step == Step::EnterName && modal.action == RepoAction::Create ==> after.step
                == Step::SelectDirectory
            &&& after.step == Step::SelectDirectory ==> after.browser.base == modal::as_directory(
                modal.parent_dir,
            )
            &&& after.action == modal.action
        }),
{
}

/// Tab goes into the selected directory, erasing with nothing typed goes up.
pub proof fn directories_are_walked(modal: RepoModalView, key: KeyEvent, home: Option<&str>)
    requires
        modal.step == Step::SelectDirectory,
        0 <= modal.chooser.selected < modal.matches().len(),
    ensures
        ({
            let after = modal.after_key(key, home);
            let picked = modal.matches()[modal.chooser.selected].0 as int;
            let up = modal::parent_of(modal.browser.base);
            &&& key.code == KeyCode::Tab ==> {
                &&& after.browser.base == modal::child_of(
                    modal.browser.base,
                    modal.browser.entries[picked].name,
                )
                &&& after.browser.unread
                &&& after.step == modal.step
            }
            &&& key.code == KeyCode::Backspace && modal.chooser.edit.text.len() == 0 ==> {
                &&& up is Some ==> after.browser.base == up->0 && after.browser.unread
                &&& up is None ==> after == modal
            }
        }),
{
}

proof fn lemma_after_last(front: Seq<char>, c: char, tail: Seq<char>)
    requires
        !tail.contains(c),
    ensures
        after_last(front.push(c) + tail, c) == tail,
        after_last(tail, c) == tail,
    decreases tail.len(),
{
    let s = front.push(c) + tail;
    if tail.len() == 0 {
        assert(s =~= front.push(c));
        assert(after_last(s, c) =~= tail);
    } else {
        let shorter = tail.drop_last();
        assert(tail.contains(tail.last()));
        if shorter.contains(c) {
            let i = shorter.index_of(c);
            assert(tail[i] == c);
        }
        lemma_after_last(front, c, shorter);
        assert(s.drop_last() =~= front.push(c) + shorter);
        assert(shorter.push(tail.last()) =~= tail);
    }
}

/// The name in an address is what stands behind its last slash.
pub proof fn names_stand_behind_the_last_slash(front: Seq<char>, name: Seq<char>)
    requires
        !name.contains('/'),
    ensures
        after_last(front.push('/') + name, '/') == name,
        after_last(name, '/') == name,
{
    lemma_after_last(front, '/', name);
}

/// An ending is taken off once, and only where it is one.
pub proof fn endings_are_taken_off(s: Seq<char>, end: Seq<char>)
    ensures
        without_end(s + end, end) == s,
        !modal::ends_in(s, end) ==> without_end(s, end) == s,
{
    let whole = s + end;
    assert(whole.skip(whole.len() - end.len()) =~= end);
    assert(whole.take(s.len() as int) =~= s);
}

/// The two actions are listed with the selected one marked; a directory is shown with its path
/// and its entries, and what is typed goes with where it is for.
pub proof fn parts_stand_in_their_rows(modal: RepoModalView, theme: Theme, r: Seq<Rect>)
    ensures
        ({
            let parts = modal.parts(theme, r);
            let typing = modal.step == Step::EnterUrl || modal.step == Step::EnterName;
            &&& parts[0].area == r[0]
            &&& modal.step == Step::ChooseAction ==> {
                &&& parts[1].area == r[2]
                &&& parts[1].lines[0][1].content == "Create new repository"@
                &&& parts[1].lines[1][1].content == "Clone existing repository"@
                &&& modal.chooser.selected == 0 ==> parts[1].lines[0][1].style.fg == Some(
                    theme.text_primary,
                )
                &&& modal.chooser.selected == 1 ==> parts[1].lines[1][1].style.fg == Some(
                    theme.text_primary,
                )
            }
            &&& modal.step == Step::SelectDirectory ==> {
                &&& parts[1].area == r[1]
                &&& parts[1].lines[0][0].content == modal.browser.base
                &&& parts[2].area == r[2]
                &&& parts[2].lines[0] == modal_view::input_spans(theme, modal.chooser.edit)
                &&& parts[3].area == r[4]
            }
            &&& typing ==> {
                &&& parts[1].area == r[1]
                &&& parts[1].lines[0][0].content == modal.context()
                &&& parts[2].area == r[2]
                &&& parts[2].lines[0] == modal_view::input_spans(theme, modal.chooser.edit)
            }
        }),
{
}

/// What is typed at the last step of a copy goes with its directory and its address.
pub proof fn contexts_name_the_directory(modal: RepoModalView)
    ensures
        modal.context().subrange(11, 11 + modal.parent_dir.len() as int) == modal.parent_dir,
        modal.step == Step::EnterName && modal.action == RepoAction::Clone
            ==> modal.context().subrange(
            18 + modal.parent_dir.len() as int,
            18 + modal.parent_dir.len() + modal.url.len() as int,
        ) == modal.url,
{
    reveal_strlit("Directory: ");
    reveal_strlit("  URL: ");
    assert(modal.context().subrange(11, 11 + modal.parent_dir.len() as int) =~= modal.parent_dir);
    if modal.step == Step::EnterName && modal.action == RepoAction::Clone {
        assert(modal.context().subrange(
            18 + modal.parent_dir.len() as int,
            18 + modal.parent_dir.len() + modal.url.len() as int,
        ) =~= modal.url);
    }
}

} // verus!
