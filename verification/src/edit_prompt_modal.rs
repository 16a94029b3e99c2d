//! Inline modal for editing a scheduled task's prompt.
//!
//! Pre-populates with the current prompt; Enter saves a non-empty value, Esc cancels.

use vstd::prelude::*;

use crate::editing;
use crate::layout;
use crate::modal;
use crate::modal_view;
use crate::text;
use crate::view;
use crate::keys::{KeyCode, KeyEvent};
use crate::layout::Constraint;
use crate::modal::Field;
use crate::modal_view::{
    input_part, modal_frame, push_part, text_part, Following, ModalFace, ModalSize,
};
use crate::text::{blank, copy_of, decimal_of};
use crate::view::{style_ink, Rect, Theme};

verus! {

#[derive(Debug, Clone, PartialEq, Eq)]
pub enum EditPromptResult {
    Pending,
    Cancelled,
    Submitted { task_id: String, prompt: String },
}

pub ghost enum ResultView {
    Pending,
    Cancelled,
    Submitted { task_id: Seq<char>, prompt: Seq<char> },
}

impl View for EditPromptResult {
    type V = ResultView;

    open spec fn view(&self) -> ResultView {
        match *self {
            EditPromptResult::Pending => ResultView::Pending,
            EditPromptResult::Cancelled => ResultView::Cancelled,
            EditPromptResult::Submitted { task_id, prompt } => ResultView::Submitted {
                task_id: task_id@,
                prompt: prompt@,
            },
        }
    }
}

pub struct EditPromptModal {
    task_id: String,
    branch_name: String,
    field: Field,
}

#[verifier::ext_equal]
pub ghost struct EditPromptView {
    pub task_id: Seq<char>,
    pub branch_name: Seq<char>,
    pub edit: editing::Edit,
}

impl View for EditPromptModal {
    type V = EditPromptView;

    closed spec fn view(&self) -> EditPromptView {
        EditPromptView {
            task_id: self.task_id@,
            branch_name: self.branch_name@,
            edit: self.field@,
        }
    }
}

impl EditPromptView {
    pub open spec fn with(self, edit: editing::Edit) -> EditPromptView {
        EditPromptView { edit, ..self }
    }

    pub open spec fn after_key(self, key: KeyEvent) -> EditPromptView {
        match key.code {
            KeyCode::Backspace => self.with(self.edit.erased()),
            KeyCode::Left => self.with(self.edit.left()),
            KeyCode::Right => self.with(self.edit.right()),
            KeyCode::Char(c) => if key.modifiers.alt || key.modifiers.control
                || key.modifiers.meta {
                self
            } else {
                self.with(self.edit.inserted(seq![c]))
            },
            _ => self,
        }
    }

    /// Enter saves the prompt unless it is blank.
    pub open spec fn answer(self, key: KeyEvent) -> ResultView {
        match key.code {
            KeyCode::Esc => ResultView::Cancelled,
            KeyCode::Enter => if text::is_blank(self.edit.text) {
                ResultView::Pending
            } else {
                ResultView::Submitted { task_id: self.task_id, prompt: self.edit.text }
            },
            _ => ResultView::Pending,
        }
    }
}

impl EditPromptModal {
    pub closed spec fn wf(self) -> bool {
        self.field.wf()
    }

    pub fn new(task_id: String, branch_name: String, current_prompt: String) -> (modal: Self)
        ensures
            modal.wf(),
            modal@ == (EditPromptView {
                task_id: task_id@,
                branch_name: branch_name@,
                edit: modal::text_at_end(current_prompt@),
            }),
    {
        let field = Field::with_text(current_prompt.as_str());
        EditPromptModal { task_id, branch_name, field }
    }

    pub fn handle_key(&mut self, key: KeyEvent) -> (result: EditPromptResult)
        requires
            old(self).wf(),
        ensures
            final(self).wf(),
            final(self)@ == old(self)@.after_key(key),
            result@ == old(self)@.answer(key),
    {
        match key.code {
            KeyCode::Esc => {
                return EditPromptResult::Cancelled;
            },
            KeyCode::Enter => {
                // Reject empty submissions: the same rule as creation
                if !blank(self.field.input.as_str()) {
                    return EditPromptResult::Submitted {
                        task_id: copy_of(self.task_id.as_str()),
                        prompt: copy_of(self.field.input.as_str()),
                    };
                }
            },
            KeyCode::Backspace => {
                let _ = self.field.erase();
            },
            KeyCode::Left => self.field.left(),
            KeyCode::Right => self.field.right(),
            KeyCode::Char(c) => {
                if !(key.modifiers.alt || key.modifiers.control || key.modifiers.meta) {
                    self.field.type_char(c);
                }
            },
            _ => {},
        }
        EditPromptResult::Pending
    }

    pub fn handle_paste(&mut self, text: &str)
        requires
            old(self).wf(),
        ensures
            final(self).wf(),
            final(self)@ == old(self)@.with(old(self)@.edit.inserted(editing::one_line(text@))),
    {
        self.field.paste_line(text);
    }
}

// ── What is shown ──────────────────────────────────────────────────

pub open spec fn size() -> ModalSize {
    ModalSize { width: 70, percent: 60, least: 10 }
}

/// A hint, the prompt, a gap, and the status.
pub open spec fn rows() -> Seq<Constraint> {
    seq![
        Constraint::Length(1),
        Constraint::Min(3),
        Constraint::Length(1),
        Constraint::Length(1),
    ]
}

/// What is said of the prompt: how long it is, or that it cannot be saved.
pub open spec fn status(theme: Theme, prompt: Seq<char>, area: Rect) -> modal_view::ParagraphView {
    if text::is_blank(prompt) {
        modal_view::plain_text(area, "prompt cannot be empty"@, view::ink(theme.error))
    } else {
        modal_view::plain_text(
            area,
            text::decimal(prompt.len()) + " chars"@,
            view::ink(theme.text_disabled),
        )
    }
}

impl EditPromptView {
    pub open spec fn parts(self, theme: Theme, r: Seq<Rect>) -> Seq<modal_view::ParagraphView> {
        seq![
            modal_view::plain_text(
                r[0],
                "Update the prompt \u{2014} Enter to save, Esc to cancel"@,
                view::ink(theme.text_tertiary),
            ),
            modal_view::input_shown(theme, self.edit, r[1], Following::Still),
            status(theme, self.edit.text, r[3]),
        ]
    }
}

impl EditPromptModal {
    /// The modal within `area`.
    pub fn render(&self, area: Rect, theme: &Theme) -> (face: ModalFace)
        requires
            self.wf(),
        ensures
            modal_view::framed(
                face,
                area,
                size(),
                *theme,
                "Edit prompt \u{2014} "@ + self@.branch_name,
            ),
            layout::laid_out(face.rows@, rows(), modal_view::inside(face.area)),
            modal_view::paragraphs_view(face.parts@) == self@.parts(*theme, face.rows@),
    {
        let mut title = copy_of("Edit prompt \u{2014} ");
        title.push_str(self.branch_name.as_str());
        let constraints = vec![
            Constraint::Length(1),
            Constraint::Min(3),
            Constraint::Length(1),
            Constraint::Length(1),
        ];
        assert(constraints@ =~= rows());
        let size = ModalSize { width: 70, percent: 60, least: 10 };
        let mut face = modal_frame(area, size, title.as_str(), &constraints, theme);
        let mut parts = Vec::new();
        push_part(
            &mut parts,
            text_part(
                face.rows[0],
                "Update the prompt \u{2014} Enter to save, Esc to cancel",
                style_ink(theme.text_tertiary),
            ),
        );
        push_part(&mut parts, input_part(&self.field, face.rows[1], Following::Still, theme));
        let prompt = self.field.input.as_str();
        if blank(prompt) {
            push_part(
                &mut parts,
                text_part(face.rows[3], "prompt cannot be empty", style_ink(theme.error)),
            );
        } else {
            let mut text = decimal_of(prompt.unicode_len());
            text.push_str(" chars");
            push_part(
                &mut parts,
                text_part(face.rows[3], text.as_str(), style_ink(theme.text_disabled)),
            );
        }
        face.parts = parts;
        assert(modal_view::paragraphs_view(face.parts@) =~= self@.parts(*theme, face.rows@));
        face
    }
}

/// What Enter saves is never blank.
pub proof fn saved_prompts_are_not_blank(modal: EditPromptView, key: KeyEvent)
    ensures
        modal.answer(key) matches ResultView::Submitted { prompt, .. } ==> !text::is_blank(prompt)
            && prompt == modal.edit.text,
{
}

/// Enter hands out the text as it stands, for the task that it is the prompt of; Esc cancels,
/// and nothing else ends the modal.
pub proof fn prompts_are_saved_as_they_stand(modal: EditPromptView, key: KeyEvent)
    ensures
        ({
            let made = modal.answer(key);
            &&& made is Submitted <==> key.code == KeyCode::Enter && !text::is_blank(
                modal.edit.text,
            )
            &&& made is Submitted ==> made->task_id == modal.task_id && made->prompt
                == modal.edit.text
            &&& made is Cancelled <==> key.code == KeyCode::Esc
        }),
{
}

/// Keys edit the text and nothing else; with a modifier held down letters are not typed.
pub proof fn keys_edit_the_prompt(modal: EditPromptView, key: KeyEvent)
    ensures
        ({
            let after = modal.after_key(key);
            let held = key.modifiers.alt || key.modifiers.control || key.modifiers.meta;
            &&& after.task_id == modal.task_id
            &&& after.branch_name == modal.branch_name
            &&& key.code == KeyCode::Backspace ==> after.edit == modal.edit.erased()
            &&& key.code == KeyCode::Left ==> after.edit == modal.edit.left()
            &&& key.code == KeyCode::Right ==> after.edit == modal.edit.right()
            &&& key.code is Char && !held ==> after.edit == modal.edit.inserted(
                seq![key.code->Char_0],
            )
            &&& key.code is Char && held ==> after == modal
            &&& key.code == KeyCode::Up || key.code == KeyCode::Enter ==> after == modal
        }),
{
}

/// Below the text stands how long it is, or that it may not be blank.
pub proof fn lengths_are_told(theme: Theme, prompt: Seq<char>, area: Rect)
    ensures
        ({
            let told = status(theme, prompt, area).lines[0][0];
            let digits = text::decimal(prompt.len());
            &&& text::is_blank(prompt) ==> told.style.fg == Some(theme.error)
            &&& !text::is_blank(prompt) ==> told.content.take(digits.len() as int) == digits
                && told.style.fg == Some(theme.text_disabled)
        }),
{
    let digits = text::decimal(prompt.len());
    assert((digits + " chars"@).take(digits.len() as int) =~= digits);
}

/// The input shows the prompt as it stands, and what there is to say of it stands below.
pub proof fn parts_stand_in_their_rows(modal: EditPromptView, theme: Theme, r: Seq<Rect>)
    ensures
        ({
            let parts = modal.parts(theme, r);
            &&& parts.len() == 3
            &&& parts[0].area == r[0]
            &&& parts[1].area == r[1]
            &&& parts[1].lines[0] == modal_view::input_spans(theme, modal.edit)
            &&& parts[2].area == r[3]
            &&& parts[2] == status(theme, modal.edit.text, r[3])
        }),
{
}

} // verus!
