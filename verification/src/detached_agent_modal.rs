//! Modal for starting an agent in any directory: walk to the directory, then enter a prompt.

use vstd::prelude::*;

use crate::branch_picker;
use crate::editing;
use crate::layout;
use crate::modal;
use crate::modal_view;
use crate::style;
use crate::text;
use crate::view;
use crate::keys::{KeyCode, KeyEvent};
use crate::layout::Constraint;
use crate::modal::{plain_path, Browser, Chooser};
use crate::modal_view::{
    entry_list_part, input_part, modal_frame, one_line_part, push_part, text_part, Following,
    ModalFace, ModalSize,
};
use crate::style::{Line, Span};
use crate::term_complete::DirEntry;
use crate::text::{blank, copy_of};
use crate::view::{push_span, style_ink, Rect, Theme};

verus! {

#[derive(Clone, Copy, Debug, PartialEq, Eq, Structural)]
pub enum DetachedModalStep {
    SelectDirectory,
    EnterPrompt,
}

#[derive(Debug, Clone)]
pub enum DetachedModalResult {
    Pending,
    Cancelled,
    Completed(DetachedModalOutput),
}

#[derive(Debug, Clone)]
pub struct DetachedModalOutput {
    pub working_dir: String,
    pub prompt: Option<String>,
    pub plan_mode: bool,
}

pub ghost enum ResultView {
    Pending,
    Cancelled,
    Completed { working_dir: Seq<char>, prompt: Option<Seq<char>>, plan_mode: bool },
}

impl View for DetachedModalResult {
    type V = ResultView;

    open spec fn view(&self) -> ResultView {
        match *self {
            DetachedModalResult::Pending => ResultView::Pending,
            DetachedModalResult::Cancelled => ResultView::Cancelled,
            DetachedModalResult::Completed(output) => ResultView::Completed {
                working_dir: output.working_dir@,
                prompt: branch_picker::text_in(output.prompt),
                plan_mode: output.plan_mode,
            },
        }
    }
}

pub struct DetachedAgentModal {
    step: DetachedModalStep,
    chooser: Chooser,
    browser: Browser,
    /// Confirmed working directory (set when transitioning to EnterPrompt).
    working_dir: String,
    plan_mode: bool,
}

#[verifier::ext_equal]
pub ghost struct DetachedView {
    pub step: DetachedModalStep,
    pub chooser: modal::ChooserView,
    pub browser: modal::BrowserView,
    pub working_dir: Seq<char>,
    pub plan_mode: bool,
}

impl View for DetachedAgentModal {
    type V = DetachedView;

    closed spec fn view(&self) -> DetachedView {
        DetachedView {
            step: self.step,
            chooser: self.chooser@,
            browser: self.browser@,
            working_dir: self.working_dir@,
            plan_mode: self.plan_mode,
        }
    }
}

/// What was typed, unless it is blank.
pub open spec fn prompt_of(text: Seq<char>) -> Option<Seq<char>> {
    if text::is_blank(text) {
        None
    } else {
        Some(text)
    }
}

pub fn prompt_in(text: &str) -> (prompt: Option<String>)
    ensures
        branch_picker::text_in(prompt) == prompt_of(text@),
{
    if blank(text) {
        None
    } else {
        Some(copy_of(text))
    }
}

impl DetachedView {
    pub open spec fn choosing(self) -> bool {
        self.step == DetachedModalStep::SelectDirectory
    }

    /// The directories that match what was typed.
    pub open spec fn matches(self) -> Seq<(usize, i64)> {
        self.browser.matches(self.chooser.edit.text)
    }

    /// The selected directory is entered, if there is one.
    pub open spec fn entered(self) -> DetachedView {
        match self.chooser.choice(self.matches()) {
            Some(i) => DetachedView {
                browser: self.browser.entered(i),
                chooser: modal::fresh(),
                ..self
            },
            None => self,
        }
    }

    /// The directory being looked at becomes the working directory.
    pub open spec fn confirmed(self) -> DetachedView {
        DetachedView {
            working_dir: modal::as_plain_path(self.browser.base),
            step: DetachedModalStep::EnterPrompt,
            chooser: modal::fresh(),
            ..self
        }
    }

    pub open spec fn after_key(self, key: KeyEvent) -> DetachedView {
        match key.code {
            KeyCode::Esc => if self.choosing() {
                self
            } else {
                DetachedView {
                    step: DetachedModalStep::SelectDirectory,
                    browser: modal::unread_directory(modal::as_directory(self.working_dir)),
                    chooser: modal::fresh(),
                    ..self
                }
            },
            KeyCode::Tab => if self.choosing() {
                self.entered()
            } else {
                self
            },
            KeyCode::Enter => if self.choosing() {
                // Filter text that matches a directory leads into it first
                if self.chooser.edit.text.len() > 0 {
                    self.entered().confirmed()
                } else {
                    self.confirmed()
                }
            } else {
                self
            },
            KeyCode::Up => DetachedView { chooser: self.chooser.up(), ..self },
            KeyCode::Down => if self.choosing() {
                DetachedView { chooser: self.chooser.down(self.matches().len() as int), ..self }
            } else {
                self
            },
            KeyCode::Backspace => if self.choosing() && self.chooser.edit.text.len() == 0 {
                // One directory level up
                if modal::parent_of(self.browser.base) is Some {
                    DetachedView {
                        browser: self.browser.above(),
                        chooser: modal::ChooserView { selected: 0, ..self.chooser },
                        ..self
                    }
                } else {
                    self
                }
            } else {
                DetachedView { chooser: self.chooser.erased(), ..self }
            },
            KeyCode::Left => DetachedView { chooser: self.chooser.left(), ..self },
            KeyCode::Right => DetachedView { chooser: self.chooser.right(), ..self },
            KeyCode::Char(c) => if key.modifiers.alt {
                if c == 'p' {
                    DetachedView { plan_mode: !self.plan_mode, ..self }
                } else {
                    self
                }
            } else if key.modifiers.control {
                self
            } else {
                DetachedView { chooser: self.chooser.typed(seq![c]), ..self }
            },
            _ => self,
        }
    }

    pub open spec fn answer(self, key: KeyEvent) -> ResultView {
        match (key.code, self.step) {
            (KeyCode::Esc, DetachedModalStep::SelectDirectory) => ResultView::Cancelled,
            (KeyCode::Enter, DetachedModalStep::EnterPrompt) => ResultView::Completed {
                working_dir: self.working_dir,
                prompt: prompt_of(self.chooser.edit.text),
                plan_mode: self.plan_mode,
            },
            _ => ResultView::Pending,
        }
    }
}

impl DetachedAgentModal {
    pub closed spec fn wf(self) -> bool {
        self.chooser.wf()
    }

    /// Starts in the home directory, or in the root where there is none.
    pub fn new(home: Option<&str>) -> (modal: Self)
        ensures
            modal.wf(),
            ({
                let base = modal::as_directory(
                    match home {
                        Some(h) => h@,
                        None => "/"@,
                    },
                );
                modal@ == (DetachedView {
                    step: DetachedModalStep::SelectDirectory,
                    chooser: modal::fresh(),
                    browser: modal::unread_directory(base),
                    working_dir: base,
                    plan_mode: false,
                })
            }),
    {
        let browser = match home {
            Some(h) => Browser::open(h),
            None => Browser::open("/"),
        };
        let working_dir = copy_of(browser.base_path.as_str());
        DetachedAgentModal {
            step: DetachedModalStep::SelectDirectory,
            chooser: Chooser::new(),
            browser,
            working_dir,
            plan_mode: false,
        }
    }

    pub fn set_plan_mode(&mut self, val: bool)
        requires
            old(self).wf(),
        ensures
            final(self).wf(),
            final(self)@ == (DetachedView { plan_mode: val, ..old(self)@ }),
    {
        self.plan_mode = val;
    }

    /// The directory whose listing is yet to come.
    pub fn directory_to_read(&self) -> (path: Option<&str>)
        ensures
            match path {
                Some(p) => self@.browser.unread && p@ == self@.browser.base,
                None => !self@.browser.unread,
            },
    {
        self.browser.directory_to_read()
    }

    /// Takes in the listing of that directory.
    pub fn refresh_entries(&mut self, listing: Vec<DirEntry>)
        requires
            old(self).wf(),
        ensures
            final(self).wf(),
            final(self)@ == (DetachedView {
                browser: old(self)@.browser.read(modal::entries_view(listing@), false),
                ..old(self)@
            }),
    {
        self.browser.read(listing, false);
    }

    fn autocomplete_selected(&mut self)
        requires
            old(self).wf(),
        ensures
            final(self).wf(),
            final(self)@ == old(self)@.entered(),
    {
        let matches = self.browser.matches(self.chooser.field.input.as_str());
        if let Some(idx) = self.chooser.choice(&matches) {
            self.browser.enter(idx);
            self.chooser.reset();
        }
    }

    fn confirm_directory(&mut self)
        requires
            old(self).wf(),
        ensures
            final(self).wf(),
            final(self)@ == old(self)@.confirmed(),
    {
        self.working_dir = plain_path(self.browser.base_path.as_str());
        self.step = DetachedModalStep::EnterPrompt;
        self.chooser.reset();
    }

    pub fn handle_key(&mut self, key: KeyEvent) -> (result: DetachedModalResult)
        requires
            old(self).wf(),
        ensures
            final(self).wf(),
            final(self)@ == old(self)@.after_key(key),
            result@ == old(self)@.answer(key),
    {
        let choosing = self.step == DetachedModalStep::SelectDirectory;
        match key.code {
            KeyCode::Esc => {
                if choosing {
                    return DetachedModalResult::Cancelled;
                }
                self.step = DetachedModalStep::SelectDirectory;
                self.browser = Browser::open(self.working_dir.as_str());
                self.chooser.reset();
            },
            KeyCode::Tab => {
                if choosing {
                    self.autocomplete_selected();
                }
            },
            KeyCode::Enter => {
                if !choosing {
                    return DetachedModalResult::Completed(
                        DetachedModalOutput {
                            working_dir: copy_of(self.working_dir.as_str()),
                            prompt: prompt_in(self.chooser.field.input.as_str()),
                            plan_mode: self.plan_mode,
                        },
                    );
                }
                if !self.chooser.field.input.as_str().is_empty() {
                    self.autocomplete_selected();
                }
                self.confirm_directory();
            },
            KeyCode::Up => self.chooser.up(),
            KeyCode::Down => {
                if choosing {
                    let matches = self.browser.matches(self.chooser.field.input.as_str());
                    self.chooser.down(matches.len());
                }
            },
            KeyCode::Backspace => {
                if choosing && self.chooser.field.input.as_str().is_empty() {
                    if self.browser.go_up() {
                        self.chooser.selected_idx = 0;
                    }
                } else {
                    let _ = self.chooser.erase();
                }
            },
            KeyCode::Left => self.chooser.left(),
            KeyCode::Right => self.chooser.right(),
            KeyCode::Char(c) => {
                if key.modifiers.alt {
                    if c == 'p' {
                        self.plan_mode = !self.plan_mode;
                    }
                } else if !key.modifiers.control {
                    self.chooser.type_char(c);
                }
            },
            _ => {},
        }
        DetachedModalResult::Pending
    }

    pub fn handle_paste(&mut self, text: &str)
        requires
            old(self).wf(),
        ensures
            final(self).wf(),
            final(self)@ == (DetachedView {
                chooser: old(self)@.chooser.typed(editing::one_line(text@)),
                ..old(self)@
            }),
    {
        self.chooser.paste_line(text);
    }
}

// ── What is shown ──────────────────────────────────────────────────

pub open spec fn size() -> ModalSize {
    ModalSize { width: 60, percent: 60, least: 10 }
}

/// A hint, the path, the input, a gap, the list, and the status; in the second step the input
/// takes the room of what is not shown.
pub open spec fn rows(step: DetachedModalStep) -> Seq<Constraint> {
    match step {
        DetachedModalStep::SelectDirectory => seq![
            Constraint::Length(1),
            Constraint::Length(1),
            Constraint::Length(1),
            Constraint::Length(1),
            Constraint::Min(0),
            Constraint::Length(0),
            Constraint::Length(1),
        ],
        DetachedModalStep::EnterPrompt => seq![
            Constraint::Length(1),
            Constraint::Length(0),
            Constraint::Min(3),
            Constraint::Length(0),
            Constraint::Length(0),
            Constraint::Length(0),
            Constraint::Length(1),
        ],
    }
}

pub open spec fn step_title(step: DetachedModalStep) -> Seq<char> {
    match step {
        DetachedModalStep::SelectDirectory => "Step 1/2 \u{2014} Select directory"@,
        DetachedModalStep::EnterPrompt => "Step 2/2 \u{2014} Enter prompt"@,
    }
}

pub open spec fn step_hint(step: DetachedModalStep) -> Seq<char> {
    match step {
        DetachedModalStep::SelectDirectory => "Type to filter, Tab to enter dir, Enter to confirm, Esc to cancel"@,
        DetachedModalStep::EnterPrompt => "Type a prompt for the agent, Enter to start"@,
    }
}

/// The key that toggles are reached with.
pub open spec fn mod_key(macos: bool) -> Seq<char> {
    if macos {
        "Opt"@
    } else {
        "Alt"@
    }
}

pub fn mod_key_name(macos: bool) -> (s: &'static str)
    ensures
        s@ == mod_key(macos),
{
    if macos {
        "Opt"
    } else {
        "Alt"
    }
}

/// Whether agents only plan at first.
pub open spec fn plan_span(theme: Theme, plan_mode: bool) -> style::SpanView {
    if plan_mode {
        view::span("PLAN"@, view::ink(theme.warning).spec_add(style::bold_only()))
    } else {
        view::span("Normal"@, view::ink(theme.text_disabled))
    }
}

pub fn push_plan_span(spans: &mut Vec<Span>, plan_mode: bool, theme: &Theme)
    ensures
        style::spans_view(final(spans)@) == style::spans_view(old(spans)@).push(
            plan_span(*theme, plan_mode),
        ),
{
    if plan_mode {
        push_span(spans, "PLAN", style_ink(theme.warning).bold());
    } else {
        push_span(spans, "Normal", style_ink(theme.text_disabled));
    }
}

pub open spec fn status_spans(theme: Theme, plan_mode: bool, macos: bool) -> Seq<style::SpanView> {
    seq![
        plan_span(theme, plan_mode),
        view::span(
            "  "@ + mod_key(macos) + "+P toggle plan mode"@,
            view::ink(theme.text_disabled),
        ),
    ]
}

impl DetachedView {
    pub open spec fn parts(self, theme: Theme, macos: bool, r: Seq<Rect>) -> Seq<
        modal_view::ParagraphView,
    > {
        let hint = modal_view::plain_text(
            r[0],
            step_hint(self.step),
            view::ink(theme.text_tertiary),
        );
        let input = modal_view::input_shown(theme, self.chooser.edit, r[2], Following::Last);
        let status = modal_view::plain_lines(
            r[6],
            seq![status_spans(theme, self.plan_mode, macos)],
        );
        if self.choosing() {
            seq![
                hint,
                modal_view::plain_text(r[1], self.browser.base, view::ink(theme.accent_text)),
                input,
                modal_view::plain_lines(
                    r[4],
                    modal_view::list_rows(
                        theme,
                        modal_view::entry_items(theme, self.browser.entries, false),
                        self.matches(),
                        self.chooser.selected,
                        r[4].height as int,
                    ),
                ),
                status,
            ]
        } else {
            seq![hint, input, status]
        }
    }
}

impl DetachedAgentModal {
    /// The modal within `area`.
    pub fn render(&self, area: Rect, macos: bool, theme: &Theme) -> (face: ModalFace)
        requires
            self.wf(),
        ensures
            modal_view::framed(face, area, size(), *theme, step_title(self@.step)),
            layout::laid_out(face.rows@, rows(self@.step), modal_view::inside(face.area)),
            modal_view::paragraphs_view(face.parts@) == self@.parts(*theme, macos, face.rows@),
    {
        let choosing = self.step == DetachedModalStep::SelectDirectory;
        let constraints = if choosing {
            vec![
                Constraint::Length(1),
                Constraint::Length(1),
                Constraint::Length(1),
                Constraint::Length(1),
                Constraint::Min(0),
                Constraint::Length(0),
                Constraint::Length(1),
            ]
        } else {
            vec![
                Constraint::Length(1),
                Constraint::Length(0),
                Constraint::Min(3),
                Constraint::Length(0),
                Constraint::Length(0),
                Constraint::Length(0),
                Constraint::Length(1),
            ]
        };
        assert(constraints@ =~= rows(self.step));
        let (title, hint) = match self.step {
            DetachedModalStep::SelectDirectory => (
                "Step 1/2 \u{2014} Select directory",
                "Type to filter, Tab to enter dir, Enter to confirm, Esc to cancel",
            ),
            DetachedModalStep::EnterPrompt => (
                "Step 2/2 \u{2014} Enter prompt",
                "Type a prompt for the agent, Enter to start",
            ),
        };
        let size = ModalSize { width: 60, percent: 60, least: 10 };
        let mut face = modal_frame(area, size, title, &constraints, theme);
        let mut parts = Vec::new();
        push_part(&mut parts, text_part(face.rows[0], hint, style_ink(theme.text_tertiary)));
        if choosing {
            push_part(
                &mut parts,
                text_part(
                    face.rows[1],
                    self.browser.base_path.as_str(),
                    style_ink(theme.accent_text),
                ),
            );
        }
        push_part(
            &mut parts,
            input_part(&self.chooser.field, face.rows[2], Following::Last, theme),
        );
        if choosing {
            push_part(
                &mut parts,
                entry_list_part(
                    face.rows[4],
                    &self.browser,
                    self.chooser.field.input.as_str(),
                    self.chooser.selected_idx,
                    false,
                    theme,
                ),
            );
        }
        let mut spans: Vec<Span> = Vec::new();
        push_plan_span(&mut spans, self.plan_mode, theme);
        let mut toggle = copy_of("  ");
        toggle.push_str(mod_key_name(macos));
        toggle.push_str("+P toggle plan mode");
        push_span(&mut spans, toggle.as_str(), style_ink(theme.text_disabled));
        let line = Line { spans };
        assert(line@ =~= status_spans(*theme, self.plan_mode, macos));
        push_part(&mut parts, one_line_part(face.rows[6], line));
        face.parts = parts;
        assert(modal_view::paragraphs_view(face.parts@) =~= self@.parts(
            *theme,
            macos,
            face.rows@,
        ));
        face
    }
}

// ── Laws ───────────────────────────────────────────────────────────

/// Esc in the second step leads back to the directory that was confirmed, and confirming it
/// once more leads to the same working directory.
pub proof fn going_back_keeps_the_directory(modal: DetachedView, esc: KeyEvent, enter: KeyEvent)
    requires
        modal.step == DetachedModalStep::EnterPrompt,
        modal.working_dir.len() > 0,
        modal.working_dir == modal::as_plain_path(modal.working_dir),
        esc.code == KeyCode::Esc,
        enter.code == KeyCode::Enter,
    ensures
        modal.after_key(esc).choosing(),
        modal.answer(esc) == ResultView::Pending,
        modal.after_key(esc).after_key(enter).step == DetachedModalStep::EnterPrompt,
        modal.after_key(esc).after_key(enter).working_dir == modal.working_dir,
{
    reveal_strlit("/");
    let dir = modal.working_dir;
    let base = modal::as_directory(dir);
    if dir.last() != '/' {
        assert(base.last() == '/');
        assert(base.drop_last() =~= dir);
        assert(modal::without_slashes(dir) == dir);
        assert(modal::without_slashes(base) == modal::without_slashes(base.drop_last()));
    }
}

/// The directory that is confirmed is the one that is shown, or the one selected in it where
/// there is text to select by; it is confirmed as a plain path.
pub proof fn shown_directories_are_confirmed(modal: DetachedView, key: KeyEvent)
    requires
        key.code == KeyCode::Enter,
        modal.step == DetachedModalStep::SelectDirectory,
        modal.chooser.selected >= 0,
    ensures
        ({
            let after = modal.after_key(key);
            let picked = modal.matches()[modal.chooser.selected].0 as int;
            let typed = modal.chooser.edit.text.len() > 0;
            let found = modal.chooser.selected < modal.matches().len();
            &&& after.step == DetachedModalStep::EnterPrompt
            &&& after.chooser.edit.text.len() == 0
            &&& after.plan_mode == modal.plan_mode
            &&& modal.answer(key) is Pending
            &&& !typed || !found ==> after.working_dir == modal::as_plain_path(modal.browser.base)
            &&& typed && found ==> after.working_dir == modal::as_plain_path(
                modal::child_of(modal.browser.base, modal.browser.entries[picked].name),
            )
        }),
{
}

/// An agent starts in the directory that was confirmed, with the prompt that was typed, if it
/// is not blank, and in the mode that is set.
pub proof fn agents_start_as_asked(modal: DetachedView, key: KeyEvent)
    requires
        key.code == KeyCode::Enter,
        modal.step == DetachedModalStep::EnterPrompt,
    ensures
        ({
            let made = modal.answer(key);
            let typed = modal.chooser.edit.text;
            &&& made is Completed
            &&& made->working_dir == modal.working_dir
            &&& text::is_blank(typed) ==> made->prompt is None
            &&& !text::is_blank(typed) ==> made->prompt == Some(typed)
            &&& made->plan_mode == modal.plan_mode
        }),
{
}

/// Tab goes into the selected directory, erasing with nothing typed goes up, and either has the
/// directory read anew.
pub proof fn directories_are_walked(modal: DetachedView, key: KeyEvent)
    requires
        modal.step == DetachedModalStep::SelectDirectory,
        0 <= modal.chooser.selected < modal.matches().len(),
    ensures
        ({
            let after = modal.after_key(key);
            let picked = modal.matches()[modal.chooser.selected].0 as int;
            let up = modal::parent_of(modal.browser.base);
            &&& key.code == KeyCode::Tab ==> {
                &&& after.browser.base == modal::child_of(
                    modal.browser.base,
                    modal.browser.entries[picked].name,
                )
                &&& after.browser.unread
                &&& after.step == modal.step
            }
            &&& key.code == KeyCode::Backspace && modal.chooser.edit.text.len() == 0 ==> {
                &&& up is Some ==> after.browser.base == up->0 && after.browser.unread
                &&& up is None ==> after == modal
            }
            &&& key.code == KeyCode::Backspace && modal.chooser.edit.text.len() > 0
                ==> after.browser == modal.browser && after.chooser.edit
                == modal.chooser.edit.erased()
        }),
{
}

/// With Alt a letter turns the plan mode on and off; without it letters are typed.
pub proof fn modes_are_turned_and_text_is_typed(modal: DetachedView, key: KeyEvent)
    requires
        key.code is Char,
        !key.modifiers.control,
    ensures
        ({
            let c = key.code->Char_0;
            let after = modal.after_key(key);
            &&& after.plan_mode == (modal.plan_mode != (key.modifiers.alt && c == 'p'))
            &&& key.modifiers.alt ==> after.chooser == modal.chooser
            &&& !key.modifiers.alt ==> after.chooser.edit == modal.chooser.edit.inserted(seq![c])
            &&& after.working_dir == modal.working_dir
            &&& modal.answer(key) is Pending
        }),
{
}

/// Esc cancels at the first step, and at the second leads back to choosing.
pub proof fn esc_cancels_or_goes_back(modal: DetachedView, key: KeyEvent)
    requires
        key.code == KeyCode::Esc,
    ensures
        modal.answer(key) is Cancelled <==> modal.step == DetachedModalStep::SelectDirectory,
        modal.after_key(key).step == DetachedModalStep::SelectDirectory,
        modal.step == DetachedModalStep::EnterPrompt ==> modal.after_key(key).browser.base
            == modal::as_directory(modal.working_dir),
{
}

/// The mode that is set is shown.
pub proof fn modes_are_shown(theme: Theme, plan_mode: bool)
    ensures
        plan_span(theme, plan_mode).content[0] == 'P' <==> plan_mode,
        plan_mode ==> plan_span(theme, plan_mode).style.fg == Some(theme.warning),
{
    reveal_strlit("PLAN");
    reveal_strlit("Normal");
}

/// While a directory is chosen its path and its entries are shown, and at either step the input
/// and the mode.
pub proof fn parts_stand_in_their_rows(modal: DetachedView, theme: Theme, macos: bool, r: Seq<Rect>)
    ensures
        ({
            let parts = modal.parts(theme, macos, r);
            let choosing = modal.step == DetachedModalStep::SelectDirectory;
            let input = if choosing {
                parts[2]
            } else {
                parts[1]
            };
            &&& parts.len() == (if choosing {
                5int
            } else {
                3
            })
            &&& parts[0].area == r[0]
            &&& parts[0].lines[0][0].content == step_hint(modal.step)
            &&& input.area == r[2]
            &&& input.lines[0] == modal_view::input_spans(theme, modal.chooser.edit)
            &&& parts.last().area == r[6]
            &&& parts.last().lines[0][0] == plan_span(theme, modal.plan_mode)
            &&& choosing ==> parts[1].area == r[1] && parts[1].lines[0][0].content
                == modal.browser.base
            &&& choosing ==> parts[3].area == r[4] && parts[3].lines == modal_view::list_rows(
                theme,
                modal_view::entry_items(theme, modal.browser.entries, false),
                modal.matches(),
                modal.chooser.selected,
                r[4].height as int,
            )
        }),
{
}

} // verus!
