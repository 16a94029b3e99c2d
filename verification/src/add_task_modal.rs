//! Modal for adding a task to a batch: name its branch, then enter its prompt.

use vstd::prelude::*;

use crate::detached_agent_modal;
use crate::editing;
use crate::layout;
use crate::modal;
use crate::modal_view;
use crate::style;
use crate::text;
use crate::view;
use crate::detached_agent_modal::{mod_key_name, push_plan_span};
use crate::keys::{KeyCode, KeyEvent};
use crate::layout::Constraint;
use crate::modal::Field;
use crate::modal_view::{
    input_part, line_in_two, modal_frame, one_line_part, push_part, text_part, Following, ModalFace,
    ModalSize,
};
use crate::style::{Line, Span, Style};
use crate::text::{copy_of, trimmed_text};
use crate::view::{push_span, style_ink, Rect, Theme};

verus! {

#[derive(Clone, Copy, Debug, PartialEq, Eq, Structural)]
pub enum AddTaskStep {
    EnterBranch,
    EnterPrompt,
}

#[derive(Debug, Clone)]
pub enum AddTaskResult {
    Pending,
    Cancelled,
    Completed(AddTaskOutput),
}

#[derive(Debug, Clone)]
pub struct AddTaskOutput {
    pub batch_idx: usize,
    pub branch_name: String,
    pub prompt: String,
    pub use_prefix: bool,
    pub use_suffix: bool,
    pub plan_mode: bool,
    pub exit_when_done: bool,
}

/// What can be switched on and off.
#[derive(Clone, Copy, Debug, PartialEq, Eq, Structural)]
pub struct Switches {
    pub use_prefix: bool,
    pub use_suffix: bool,
    pub plan_mode: bool,
    pub exit_when_done: bool,
}

pub ghost enum ResultView {
    Pending,
    Cancelled,
    Completed { batch_idx: usize, branch_name: Seq<char>, prompt: Seq<char>, switches: Switches },
}

impl View for AddTaskResult {
    type V = ResultView;

    open spec fn view(&self) -> ResultView {
        match *self {
            AddTaskResult::Pending => ResultView::Pending,
            AddTaskResult::Cancelled => ResultView::Cancelled,
            AddTaskResult::Completed(o) => ResultView::Completed {
                batch_idx: o.batch_idx,
                branch_name: o.branch_name@,
                prompt: o.prompt@,
                switches: Switches {
                    use_prefix: o.use_prefix,
                    use_suffix: o.use_suffix,
                    plan_mode: o.plan_mode,
                    exit_when_done: o.exit_when_done,
                },
            },
        }
    }
}

pub struct AddTaskModal {
    step: AddTaskStep,
    field: Field,
    batch_idx: usize,
    batch_title: String,
    branch_name: String,
    switches: Switches,
    has_prefix: bool,
    has_suffix: bool,
    /// Whether the batch's agent binary supports the auto-exit Stop hook.
    /// When `false`, the toggle is hidden and the flag stays at `false`.
    supports_exit_when_done: bool,
}

#[verifier::ext_equal]
pub ghost struct AddTaskView {
    pub step: AddTaskStep,
    pub edit: editing::Edit,
    pub batch_idx: usize,
    pub batch_title: Seq<char>,
    pub branch_name: Seq<char>,
    pub switches: Switches,
    pub has_prefix: bool,
    pub has_suffix: bool,
    pub supports_exit_when_done: bool,
}

impl View for AddTaskModal {
    type V = AddTaskView;

    closed spec fn view(&self) -> AddTaskView {
        AddTaskView {
            step: self.step,
            edit: self.field@,
            batch_idx: self.batch_idx,
            batch_title: self.batch_title@,
            branch_name: self.branch_name@,
            switches: self.switches,
            has_prefix: self.has_prefix,
            has_suffix: self.has_suffix,
            supports_exit_when_done: self.supports_exit_when_done,
        }
    }
}

impl AddTaskView {
    /// Agents that cannot exit by themselves are not told to, and behind the first step the
    /// branch has a name.
    pub open spec fn wf(self) -> bool {
        &&& self.switches.exit_when_done ==> self.supports_exit_when_done
        &&& self.step == AddTaskStep::EnterPrompt ==> self.branch_name.len() > 0
    }

    pub open spec fn with(self, edit: editing::Edit) -> AddTaskView {
        AddTaskView { edit, ..self }
    }

    /// What Alt and a letter switches.
    pub open spec fn switched(self, c: char) -> AddTaskView {
        let s = self.switches;
        AddTaskView {
            switches: match c {
                'p' => Switches { plan_mode: !s.plan_mode, ..s },
                'a' => Switches { use_prefix: !s.use_prefix, ..s },
                's' => Switches { use_suffix: !s.use_suffix, ..s },
                'x' => if self.supports_exit_when_done {
                    Switches { exit_when_done: !s.exit_when_done, ..s }
                } else {
                    s
                },
                _ => s,
            },
            ..self
        }
    }

    pub open spec fn after_key(self, key: KeyEvent) -> AddTaskView {
        let typed = text::trim(self.edit.text);
        match key.code {
            KeyCode::Esc => match self.step {
                AddTaskStep::EnterBranch => self,
                AddTaskStep::EnterPrompt => AddTaskView {
                    step: AddTaskStep::EnterBranch,
                    edit: modal::text_at_end(self.branch_name),
                    ..self
                },
            },
            KeyCode::Enter => if self.step == AddTaskStep::EnterBranch && typed.len() > 0 {
                AddTaskView {
                    branch_name: typed,
                    step: AddTaskStep::EnterPrompt,
                    edit: modal::no_text(),
                    ..self
                }
            } else {
                self
            },
            KeyCode::Backspace => self.with(self.edit.erased()),
            KeyCode::Left => self.with(self.edit.left()),
            KeyCode::Right => self.with(self.edit.right()),
            KeyCode::Char(c) => if key.modifiers.alt {
                self.switched(c)
            } else if key.modifiers.control {
                self
            } else {
                self.with(self.edit.inserted(seq![c]))
            },
            _ => self,
        }
    }

    pub open spec fn answer(self, key: KeyEvent) -> ResultView {
        let typed = text::trim(self.edit.text);
        match (key.code, self.step) {
            (KeyCode::Esc, AddTaskStep::EnterBranch) => ResultView::Cancelled,
            (KeyCode::Enter, AddTaskStep::EnterPrompt) => if typed.len() > 0 {
                ResultView::Completed {
                    batch_idx: self.batch_idx,
                    branch_name: self.branch_name,
                    prompt: typed,
                    switches: self.switches,
                }
            } else {
                ResultView::Pending
            },
            _ => ResultView::Pending,
        }
    }
}

impl AddTaskModal {
    pub closed spec fn wf(self) -> bool {
        self.field.wf() && self@.wf()
    }

    pub fn new(
        batch_idx: usize,
        batch_title: String,
        has_prefix: bool,
        has_suffix: bool,
        batch_plan_mode: bool,
        supports_exit_when_done: bool,
    ) -> (modal: Self)
        ensures
            modal.wf(),
            modal@ == (AddTaskView {
                step: AddTaskStep::EnterBranch,
                edit: modal::no_text(),
                batch_idx,
                batch_title: batch_title@,
                branch_name: ""@,
                switches: Switches {
                    use_prefix: true,
                    use_suffix: true,
                    plan_mode: batch_plan_mode,
                    exit_when_done: false,
                },
                has_prefix,
                has_suffix,
                supports_exit_when_done,
            }),
    {
        AddTaskModal {
            step: AddTaskStep::EnterBranch,
            field: Field::new(),
            batch_idx,
            batch_title,
            branch_name: copy_of(""),
            switches: Switches {
                use_prefix: true,
                use_suffix: true,
                plan_mode: batch_plan_mode,
                exit_when_done: false,
            },
            has_prefix,
            has_suffix,
            supports_exit_when_done,
        }
    }

    fn flip(&mut self, c: char)
        requires
            old(self).wf(),
        ensures
            final(self).wf(),
            final(self)@ == old(self)@.switched(c),
    {
        let s = self.switches;
        self.switches = match c {
            'p' => Switches { plan_mode: !s.plan_mode, ..s },
            'a' => Switches { use_prefix: !s.use_prefix, ..s },
            's' => Switches { use_suffix: !s.use_suffix, ..s },
            'x' => if self.supports_exit_when_done {
                Switches { exit_when_done: !s.exit_when_done, ..s }
            } else {
                s
            },
            _ => s,
        };
    }

    pub fn handle_key(&mut self, key: KeyEvent) -> (result: AddTaskResult)
        requires
            old(self).wf(),
        ensures
            final(self).wf(),
            final(self)@ == old(self)@.after_key(key),
            result@ == old(self)@.answer(key),
    {
        match key.code {
            KeyCode::Esc => match self.step {
                AddTaskStep::EnterBranch => {
                    return AddTaskResult::Cancelled;
                },
                AddTaskStep::EnterPrompt => {
                    self.step = AddTaskStep::EnterBranch;
                    self.field = Field::with_text(self.branch_name.as_str());
                },
            },
            KeyCode::Enter => {
                let typed = trimmed_text(self.field.input.as_str());
                if !typed.as_str().is_empty() {
                    match self.step {
                        AddTaskStep::EnterBranch => {
                            self.branch_name = typed;
                            self.step = AddTaskStep::EnterPrompt;
                            self.field = Field::new();
                        },
                        AddTaskStep::EnterPrompt => {
                            return AddTaskResult::Completed(
                                AddTaskOutput {
                                    batch_idx: self.batch_idx,
                                    branch_name: copy_of(self.branch_name.as_str()),
                                    prompt: typed,
                                    use_prefix: self.switches.use_prefix,
                                    use_suffix: self.switches.use_suffix,
                                    plan_mode: self.switches.plan_mode,
                                    exit_when_done: self.switches.exit_when_done,
                                },
                            );
                        },
                    }
                }
            },
            KeyCode::Backspace => {
                let _ = self.field.erase();
            },
            KeyCode::Left => self.field.left(),
            KeyCode::Right => self.field.right(),
            KeyCode::Char(c) => {
                if key.modifiers.alt {
                    self.flip(c);
                } else if !key.modifiers.control {
                    self.field.type_char(c);
                }
            },
            _ => {},
        }
        AddTaskResult::Pending
    }

    pub fn handle_paste(&mut self, text: &str)
        requires
            old(self).wf(),
        ensures
            final(self).wf(),
            final(self)@ == old(self)@.with(old(self)@.edit.inserted(editing::one_line(text@))),
    {
        self.field.paste_line(text);
    }
}

// ── What is shown ──────────────────────────────────────────────────

pub open spec fn size() -> ModalSize {
    ModalSize { width: 60, percent: 60, least: 10 }
}

/// A hint, the input, a gap, more about it, a gap, and the status. The prompt takes the room
/// that is left; before that, what is said about the branch takes it.
pub open spec fn rows(step: AddTaskStep) -> Seq<Constraint> {
    if step == AddTaskStep::EnterPrompt {
        seq![
            Constraint::Length(1),
            Constraint::Min(3),
            Constraint::Length(1),
            Constraint::Length(1),
            Constraint::Length(1),
            Constraint::Length(1),
        ]
    } else {
        seq![
            Constraint::Length(1),
            Constraint::Length(1),
            Constraint::Length(1),
            Constraint::Min(0),
            Constraint::Length(1),
            Constraint::Length(1),
        ]
    }
}

pub open spec fn step_title(step: AddTaskStep, batch_title: Seq<char>) -> Seq<char> {
    (match step {
        AddTaskStep::EnterBranch => "Step 1/2 \u{2014} Branch name ("@,
        AddTaskStep::EnterPrompt => "Step 2/2 \u{2014} Task prompt ("@,
    }) + batch_title + ")"@
}

pub open spec fn step_hint(step: AddTaskStep) -> Seq<char> {
    match step {
        AddTaskStep::EnterBranch => "Enter branch name, Enter to continue, Esc to cancel"@,
        AddTaskStep::EnterPrompt => "Enter prompt for the agent, Enter to add task, Esc to go back"@,
    }
}

/// Something that is on or off; it stands out where it is on and takes effect.
pub open spec fn switch_span(
    theme: Theme,
    on: bool,
    effective: bool,
    yes: Seq<char>,
    no: Seq<char>,
) -> style::SpanView {
    if on {
        view::span(
            yes,
            view::ink(
                if effective {
                    theme.success
                } else {
                    theme.text_disabled
                },
            ),
        )
    } else {
        view::span(no, view::ink(theme.text_disabled))
    }
}

fn push_switch(
    spans: &mut Vec<Span>,
    on: bool,
    effective: bool,
    yes: &str,
    no: &str,
    theme: &Theme,
)
    ensures
        style::spans_view(final(spans)@) == style::spans_view(old(spans)@).push(
            switch_span(*theme, on, effective, yes@, no@),
        ),
{
    if on {
        let ink = if effective {
            theme.success
        } else {
            theme.text_disabled
        };
        push_span(spans, yes, style_ink(ink));
    } else {
        push_span(spans, no, style_ink(theme.text_disabled));
    }
}

impl AddTaskView {
    pub open spec fn status_hint(self, macos: bool) -> Seq<char> {
        let key = detached_agent_modal::mod_key(macos);
        let keys = "  "@ + key + "+P plan  "@ + key + "+A/S pfx/sfx"@;
        if self.supports_exit_when_done {
            keys + "  "@ + key + "+X exit"@
        } else {
            keys
        }
    }

    pub open spec fn status_spans(self, theme: Theme, macos: bool) -> Seq<style::SpanView> {
        let gap = view::span("  "@, style::plain_style());
        let s = self.switches;
        let first = seq![
            detached_agent_modal::plan_span(theme, s.plan_mode),
            gap,
            switch_span(
                theme,
                s.use_prefix,
                self.has_prefix,
                "\u{2713} Pfx"@,
                "\u{2717} Pfx"@,
            ),
            gap,
            switch_span(
                theme,
                s.use_suffix,
                self.has_suffix,
                "\u{2713} Sfx"@,
                "\u{2717} Sfx"@,
            ),
        ];
        let switches = if self.supports_exit_when_done {
            first.push(gap).push(
                switch_span(
                    theme,
                    s.exit_when_done,
                    true,
                    "\u{2713} Exit"@,
                    "\u{2717} Exit"@,
                ),
            )
        } else {
            first
        };
        switches.push(view::span(self.status_hint(macos), view::ink(theme.text_disabled)))
    }

    pub open spec fn info(self, theme: Theme, area: Rect) -> modal_view::ParagraphView {
        match self.step {
            AddTaskStep::EnterBranch => modal_view::plain_text(
                area,
                "Branch name is required"@,
                view::ink(theme.text_tertiary),
            ),
            AddTaskStep::EnterPrompt => modal_view::plain_lines(
                area,
                seq![
                    seq![
                        view::span("Branch: "@, view::ink(theme.text_tertiary)),
                        view::span(self.branch_name, view::ink(theme.accent)),
                    ],
                ],
            ),
        }
    }

    pub open spec fn parts(self, theme: Theme, macos: bool, r: Seq<Rect>) -> Seq<
        modal_view::ParagraphView,
    > {
        seq![
            modal_view::plain_text(r[0], step_hint(self.step), view::ink(theme.text_tertiary)),
            modal_view::input_shown(theme, self.edit, r[1], Following::WithRoom),
            self.info(theme, r[3]),
            modal_view::plain_lines(r[5], seq![self.status_spans(theme, macos)]),
        ]
    }
}

impl AddTaskModal {
    fn status_line(&self, macos: bool, theme: &Theme) -> (line: Line)
        ensures
            line@ == self@.status_spans(*theme, macos),
    {
        let key = mod_key_name(macos);
        let s = self.switches;
        let mut spans: Vec<Span> = Vec::new();
        push_plan_span(&mut spans, s.plan_mode, theme);
        push_span(&mut spans, "  ", Style::new());
        push_switch(
            &mut spans,
            s.use_prefix,
            self.has_prefix,
            "\u{2713} Pfx",
            "\u{2717} Pfx",
            theme,
        );
        push_span(&mut spans, "  ", Style::new());
        push_switch(
            &mut spans,
            s.use_suffix,
            self.has_suffix,
            "\u{2713} Sfx",
            "\u{2717} Sfx",
            theme,
        );
        let mut hint = copy_of("  ");
        hint.push_str(key);
        hint.push_str("+P plan  ");
        hint.push_str(key);
        hint.push_str("+A/S pfx/sfx");
        if self.supports_exit_when_done {
            push_span(&mut spans, "  ", Style::new());
            push_switch(
                &mut spans,
                s.exit_when_done,
                true,
                "\u{2713} Exit",
                "\u{2717} Exit",
                theme,
            );
            hint.push_str("  ");
            hint.push_str(key);
            hint.push_str("+X exit");
        }
        push_span(&mut spans, hint.as_str(), style_ink(theme.text_disabled));
        let line = Line { spans };
        assert(line@ =~= self@.status_spans(*theme, macos));
        line
    }

    /// The modal within `area`.
    pub fn render(&self, area: Rect, macos: bool, theme: &Theme) -> (face: ModalFace)
        requires
            self.wf(),
        ensures
            modal_view::framed(
                face,
                area,
                size(),
                *theme,
                step_title(self@.step, self@.batch_title),
            ),
            layout::laid_out(face.rows@, rows(self@.step), modal_view::inside(face.area)),
            modal_view::paragraphs_view(face.parts@) == self@.parts(*theme, macos, face.rows@),
    {
        let constraints = match self.step {
            AddTaskStep::EnterPrompt => vec![
                Constraint::Length(1),
                Constraint::Min(3),
                Constraint::Length(1),
                Constraint::Length(1),
                Constraint::Length(1),
                Constraint::Length(1),
            ],
            AddTaskStep::EnterBranch => vec![
                Constraint::Length(1),
                Constraint::Length(1),
                Constraint::Length(1),
                Constraint::Min(0),
                Constraint::Length(1),
                Constraint::Length(1),
            ],
        };
        assert(constraints@ =~= rows(self.step));
        let (mut title, hint) = match self.step {
            AddTaskStep::EnterBranch => (
                copy_of("Step 1/2 \u{2014} Branch name ("),
                "Enter branch name, Enter to continue, Esc to cancel",
            ),
            AddTaskStep::EnterPrompt => (
                copy_of("Step 2/2 \u{2014} Task prompt ("),
                "Enter prompt for the agent, Enter to add task, Esc to go back",
            ),
        };
        title.push_str(self.batch_title.as_str());
        title.push_str(")");
        let size = ModalSize { width: 60, percent: 60, least: 10 };
        let mut face = modal_frame(area, size, title.as_str(), &constraints, theme);
        let mut parts = Vec::new();
        push_part(&mut parts, text_part(face.rows[0], hint, style_ink(theme.text_tertiary)));
        push_part(&mut parts, input_part(&self.field, face.rows[1], Following::WithRoom, theme));
        let info = match self.step {
            AddTaskStep::EnterBranch => text_part(
                face.rows[3],
                "Branch name is required",
                style_ink(theme.text_tertiary),
            ),
            AddTaskStep::EnterPrompt => one_line_part(
                face.rows[3],
                line_in_two(
                    "Branch: ",
                    style_ink(theme.text_tertiary),
                    self.branch_name.as_str(),
                    style_ink(theme.accent),
                ),
            ),
        };
        push_part(&mut parts, info);
        push_part(&mut parts, one_line_part(face.rows[5], self.status_line(macos, theme)));
        face.parts = parts;
        assert(modal_view::paragraphs_view(face.parts@) =~= self@.parts(
            *theme,
            macos,
            face.rows@,
        ));
        face
    }
}

// ── Laws ───────────────────────────────────────────────────────────

/// A task that is added has a branch and a prompt, and exits by itself only where that is
/// supported.
pub proof fn added_tasks_are_complete(modal: AddTaskView, key: KeyEvent)
    requires
        modal.wf(),
    ensures
        modal.answer(key) matches ResultView::Completed { branch_name, prompt, switches, .. } ==> {
            &&& branch_name.len() > 0
            &&& prompt.len() > 0
            &&& switches.exit_when_done ==> modal.supports_exit_when_done
        },
{
}

/// Switching twice changes nothing.
pub proof fn switches_flip_back(modal: AddTaskView, c: char)
    ensures
        modal.switched(c).switched(c) == modal,
{
}

/// The branch that was typed, without white space around it, and the prompt typed after it make
/// up the task, with the switches as they stand, for the batch that the modal was opened for.
pub proof fn tasks_are_what_was_typed(modal: AddTaskView, key: KeyEvent, prompt: Seq<char>)
    requires
        key.code == KeyCode::Enter,
        modal.step == AddTaskStep::EnterBranch,
        text::trim(modal.edit.text).len() > 0,
        text::trim(prompt).len() > 0,
    ensures
        ({
            let named = modal.after_key(key);
            let done = AddTaskView { edit: modal::text_at_end(prompt), ..named };
            let task = done.answer(key);
            &&& modal.answer(key) is Pending
            &&& named.step == AddTaskStep::EnterPrompt
            &&& named.edit.text.len() == 0
            &&& task is Completed
            &&& task->branch_name == text::trim(modal.edit.text)
            &&& task->prompt == text::trim(prompt)
            &&& task->batch_idx == modal.batch_idx
            &&& task->switches == modal.switches
        }),
{
}

/// A task needs a branch and a prompt: without what a step asks for, Enter does nothing.
pub proof fn tasks_need_a_branch_and_a_prompt(modal: AddTaskView, key: KeyEvent)
    requires
        key.code == KeyCode::Enter,
        text::trim(modal.edit.text).len() == 0,
    ensures
        modal.after_key(key) == modal,
        modal.answer(key) is Pending,
{
}

/// Esc cancels at the first step, and at the second leads back to the branch, to be typed on.
pub proof fn esc_leads_back_to_the_branch(modal: AddTaskView, key: KeyEvent)
    requires
        key.code == KeyCode::Esc,
    ensures
        modal.answer(key) is Cancelled <==> modal.step == AddTaskStep::EnterBranch,
        !(modal.answer(key) is Completed),
        modal.step == AddTaskStep::EnterPrompt ==> {
            &&& modal.after_key(key).step == AddTaskStep::EnterBranch
            &&& modal.after_key(key).edit.text == modal.branch_name
            &&& modal.after_key(key).edit.at == modal.branch_name.len()
            &&& modal.after_key(key).switches == modal.switches
        },
{
}

/// With Alt each of four letters turns its own switch and no other; without it letters are
/// typed. What cannot be done is not switched on.
pub proof fn letters_turn_their_switch(modal: AddTaskView, key: KeyEvent)
    requires
        key.code is Char,
        !key.modifiers.control,
    ensures
        ({
            let c = key.code->Char_0;
            let before = modal.switches;
            let after = modal.after_key(key).switches;
            let alt = key.modifiers.alt;
            &&& after.plan_mode == (before.plan_mode != (alt && c == 'p'))
            &&& after.use_prefix == (before.use_prefix != (alt && c == 'a'))
            &&& after.use_suffix == (before.use_suffix != (alt && c == 's'))
            &&& after.exit_when_done == (before.exit_when_done != (alt && c == 'x'
                && modal.supports_exit_when_done))
            &&& alt ==> modal.after_key(key).edit == modal.edit
            &&& !alt ==> modal.after_key(key).edit == modal.edit.inserted(seq![c])
            &&& modal.after_key(key).step == modal.step
            &&& modal.answer(key) is Pending
        }),
{
}

/// The line below shows each switch as it stands: a tick where it is on, a cross where it is
/// off, and for an exit only where there can be one.
pub proof fn switches_are_shown_as_they_stand(modal: AddTaskView, theme: Theme, macos: bool)
    ensures
        ({
            let spans = modal.status_spans(theme, macos);
            let s = modal.switches;
            &&& spans.len() == (if modal.supports_exit_when_done {
                8int
            } else {
                6
            })
            &&& spans[0] == detached_agent_modal::plan_span(theme, s.plan_mode)
            &&& spans[2].content[0] == '\u{2713}' <==> s.use_prefix
            &&& spans[4].content[0] == '\u{2713}' <==> s.use_suffix
            &&& spans[2].content[2] == 'P'
            &&& spans[4].content[2] == 'S'
            &&& spans[2].style.fg == Some(theme.success) || !s.use_prefix || !modal.has_prefix
            &&& spans[4].style.fg == Some(theme.success) || !s.use_suffix || !modal.has_suffix
            &&& modal.supports_exit_when_done ==> {
                &&& spans[6].content[0] == '\u{2713}' <==> s.exit_when_done
                &&& spans[6].content[2] == 'E'
            }
        }),
{
    reveal_strlit("\u{2713} Pfx");
    reveal_strlit("\u{2717} Pfx");
    reveal_strlit("\u{2713} Sfx");
    reveal_strlit("\u{2717} Sfx");
    reveal_strlit("\u{2713} Exit");
    reveal_strlit("\u{2717} Exit");
}

/// The hint stands above the input, which shows what is typed, and the switches stand below.
pub proof fn parts_stand_in_their_rows(modal: AddTaskView, theme: Theme, macos: bool, r: Seq<Rect>)
    ensures
        ({
            let parts = modal.parts(theme, macos, r);
            &&& parts.len() == 4
            &&& parts[0].area == r[0]
            &&& parts[0].lines[0][0].content == step_hint(modal.step)
            &&& parts[1].area == r[1]
            &&& parts[1].lines[0] == modal_view::input_spans(theme, modal.edit)
            &&& parts[2].area == r[3]
            &&& parts[3].area == r[5]
            &&& parts[3].lines[0] == modal.status_spans(theme, macos)
            &&& modal.step == AddTaskStep::EnterPrompt ==> parts[2].lines[0][1].content
                == modal.branch_name
        }),
{
}

} // verus!
