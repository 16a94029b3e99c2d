//! The branch picker of the compare tab.

use vstd::prelude::*;

use crate::editing;
use crate::lists;
use crate::ranking;
use crate::keys::{KeyCode, KeyEvent};
use crate::lists::{clamp_selection, scroll_to_center, select_next, select_prev};
use crate::protocol::BranchInfo;
use crate::ranking::filter_names;
use crate::text::text_eq;

verus! {

#[derive(Clone, Copy, Debug, PartialEq, Eq, Structural)]
pub enum BranchPickerMode {
    /// User is typing in the search field; branch list is visible.
    Searching,
    /// A branch has been selected; diff is shown below the label.
    Selected,
}

/// Chooses one branch of a list by searching it.
pub struct BranchPicker {
    pub mode: BranchPickerMode,
    pub input: String,
    /// A byte offset into `input`.
    pub cursor_pos: usize,
    pub selected_idx: usize,
    pub selected_branch: Option<String>,
    pub branches: Vec<BranchInfo>,
}

#[verifier::ext_equal]
pub ghost struct PickerView {
    pub mode: BranchPickerMode,
    pub edit: editing::Edit,
    pub selected_idx: int,
    pub selected_branch: Option<Seq<char>>,
    pub names: Seq<Seq<char>>,
}

/// The names of branches.
pub open spec fn branch_names(branches: Seq<BranchInfo>) -> Seq<Seq<char>> {
    branches.map_values(|b: BranchInfo| b.name@)
}

pub open spec fn text_in(s: Option<String>) -> Option<Seq<char>> {
    match s {
        Some(t) => Some(t@),
        None => None,
    }
}

impl View for BranchPicker {
    type V = PickerView;

    open spec fn view(&self) -> PickerView {
        PickerView {
            mode: self.mode,
            edit: editing::edit(self.input@, self.cursor_pos),
            selected_idx: self.selected_idx as int,
            selected_branch: text_in(self.selected_branch),
            names: branch_names(self.branches@),
        }
    }
}

impl PickerView {
    /// The entries that match what was typed.
    pub open spec fn matches(self) -> Seq<(usize, i64)> {
        ranking::filtered(self.names, self.edit.text)
    }

    /// The picker after a key, and whether a branch was chosen.
    pub open spec fn after_key(self, code: KeyCode) -> (PickerView, bool) {
        match code {
            KeyCode::Enter => if self.selected_idx < self.matches().len() {
                (
                    PickerView {
                        selected_branch: Some(
                            self.names[self.matches()[self.selected_idx].0 as int],
                        ),
                        mode: BranchPickerMode::Selected,
                        ..self
                    },
                    true,
                )
            } else {
                (self, false)
            },
            KeyCode::Esc => (PickerView { mode: BranchPickerMode::Selected, ..self }, false),
            KeyCode::Up => (
                PickerView { selected_idx: lists::prev_in(self.selected_idx), ..self },
                false,
            ),
            KeyCode::Down => (
                PickerView {
                    selected_idx: lists::next_in(self.selected_idx, self.matches().len() as int),
                    ..self
                },
                false,
            ),
            KeyCode::Char(c) => (
                PickerView { edit: self.edit.inserted(seq![c]), selected_idx: 0, ..self },
                false,
            ),
            KeyCode::Backspace => (
                PickerView {
                    edit: self.edit.erased(),
                    selected_idx: if self.edit.at > 0 {
                        0
                    } else {
                        self.selected_idx
                    },
                    ..self
                },
                false,
            ),
            KeyCode::Left => (PickerView { edit: self.edit.left(), ..self }, false),
            KeyCode::Right => (PickerView { edit: self.edit.right(), ..self }, false),
            _ => (self, false),
        }
    }

    pub open spec fn after_paste(self, text: Seq<char>) -> PickerView {
        PickerView {
            edit: self.edit.inserted(editing::one_line(text)),
            selected_idx: 0,
            ..self
        }
    }
}

/// The branches that are not the agent's own.
pub open spec fn other_branches(branches: Seq<BranchInfo>, own: Option<Seq<char>>) -> Seq<
    BranchInfo,
>
    decreases branches.len(),
{
    if branches.len() == 0 {
        branches
    } else {
        let rest = other_branches(branches.drop_last(), own);
        if own == Some(branches.last().name@) {
            rest
        } else {
            rest.push(branches.last())
        }
    }
}

impl BranchPicker {
    /// The cursor stands between two characters.
    pub open spec fn wf(self) -> bool {
        editing::cursor_ok(self.input@, self.cursor_pos as int)
    }

    pub fn new() -> (picker: Self)
        ensures
            picker.wf(),
            picker@ == (PickerView {
                mode: BranchPickerMode::Selected,
                edit: editing::Edit { text: Seq::empty(), at: 0 },
                selected_idx: 0,
                selected_branch: None,
                names: Seq::empty(),
            }),
            picker.branches@ == Seq::<BranchInfo>::empty(),
    {
        let picker = BranchPicker {
            mode: BranchPickerMode::Selected,
            input: String::new(),
            cursor_pos: 0,
            selected_idx: 0,
            selected_branch: None,
            branches: Vec::new(),
        };
        proof {
            editing::lemma_cursor_ends(picker.input@);
            assert(picker@.names =~= Seq::<Seq<char>>::empty());
        }
        picker
    }

    /// Update the branch list. Filters out the agent's own branch.
    pub fn update_branches(&mut self, branches: Vec<BranchInfo>, agent_branch: Option<&str>)
        requires
            old(self).wf(),
        ensures
            final(self).wf(),
            final(self).branches@ == other_branches(
                branches@,
                match agent_branch {
                    Some(b) => Some(b@),
                    None => None,
                },
            ),
            final(self)@ == (PickerView {
                names: branch_names(final(self).branches@),
                selected_idx: lists::clamped_to(
                    old(self)@.selected_idx,
                    ranking::filtered(branch_names(final(self).branches@), old(self)@.edit.text).len() as int,
                ),
                ..old(self)@
            }),
    {
        let ghost own = match agent_branch {
            Some(b) => Some(b@),
            None => None,
        };
        let ghost all = branches@;
        let mut kept = branches;
        let mut i: usize = 0;
        let ghost mut done: int = 0;
        assert(kept@ =~= other_branches(all.take(0), own) + all.skip(0));
        while i < kept.len()
            invariant
                0 <= done <= all.len(),
                own == (match agent_branch {
                    Some(b) => Some(b@),
                    None => None,
                }),
                i == other_branches(all.take(done), own).len(),
                kept@ == other_branches(all.take(done), own) + all.skip(done),
            decreases kept@.len() - i,
        {
            let ghost before = kept@;
            let ghost front = other_branches(all.take(done), own);
            proof {
                assert(kept@[i as int] == all[done]);
                assert(all.take(done + 1).drop_last() =~= all.take(done));
            }
            let is_own = match agent_branch {
                Some(name) => text_eq(kept[i].name.as_str(), name),
                None => false,
            };
            if is_own {
                kept.remove(i);
                assert(kept@ =~= front + all.skip(done + 1));
            } else {
                i += 1;
                assert(kept@ =~= front.push(all[done]) + all.skip(done + 1));
            }
            proof {
                done = done + 1;
            }
        }
        assert(all.take(done) =~= all);
        assert(kept@ =~= other_branches(all, own));
        self.branches = kept;
        // Clamp selection
        let count = self.filtered_branches().len();
        self.selected_idx = clamp_selection(self.selected_idx, count);
    }

    /// Returns filtered branches as (original_index, score) sorted by score descending.
    pub fn filtered_branches(&self) -> (left: Vec<(usize, i64)>)
        ensures
            left@ == self@.matches(),
    {
        let mut names: Vec<&str> = Vec::new();
        let mut i: usize = 0;
        while i < self.branches.len()
            invariant
                i <= self.branches@.len(),
                names@.len() == i,
                forall|k: int|
                    0 <= k < i ==> (#[trigger] names@[k])@ == self.branches@[k].name@,
            decreases self.branches@.len() - i,
        {
            names.push(self.branches[i].name.as_str());
            i += 1;
        }
        assert(names@.map_values(|s: &str| s@) =~= self@.names);
        filter_names(&names, self.input.as_str())
    }

    /// Enter searching mode, resetting the input.
    pub fn enter_search(&mut self)
        ensures
            final(self).wf(),
            final(self)@ == (PickerView {
                mode: BranchPickerMode::Searching,
                edit: editing::Edit { text: Seq::empty(), at: 0 },
                selected_idx: 0,
                ..old(self)@
            }),
            final(self).branches == old(self).branches,
    {
        self.mode = BranchPickerMode::Searching;
        self.input = String::new();
        self.cursor_pos = 0;
        self.selected_idx = 0;
        proof {
            editing::lemma_cursor_ends(self.input@);
        }
    }

    /// Handle a key event while in Searching mode.
    /// Returns `true` if a branch was selected (caller should start diff task).
    pub fn handle_key(&mut self, key: KeyEvent) -> (chosen: bool)
        requires
            old(self).wf(),
        ensures
            final(self).wf(),
            (final(self)@, chosen) == old(self)@.after_key(key.code),
            final(self).branches == old(self).branches,
    {
        match key.code {
            KeyCode::Enter => {
                let matches = self.filtered_branches();
                if self.selected_idx < matches.len() {
                    let count = self.branches.len();
                    proof {
                        ranking::lemma_filtered_in_range(self@.names, self@.edit.text);
                    }
                    let idx = matches[self.selected_idx].0;
                    self.selected_branch = Some(self.branches[idx].name.clone());
                    self.mode = BranchPickerMode::Selected;
                    return true;
                }
                false
            },
            KeyCode::Esc => {
                self.mode = BranchPickerMode::Selected;
                false
            },
            KeyCode::Up => {
                self.selected_idx = select_prev(self.selected_idx);
                false
            },
            KeyCode::Down => {
                let count = self.filtered_branches().len();
                self.selected_idx = select_next(self.selected_idx, count);
                false
            },
            KeyCode::Char(c) => {
                editing::insert_char(&mut self.input, &mut self.cursor_pos, c);
                self.selected_idx = 0;
                false
            },
            KeyCode::Backspace => {
                if editing::backspace(&mut self.input, &mut self.cursor_pos) {
                    self.selected_idx = 0;
                }
                false
            },
            KeyCode::Left => {
                editing::move_left(&self.input, &mut self.cursor_pos);
                false
            },
            KeyCode::Right => {
                editing::move_right(&self.input, &mut self.cursor_pos);
                false
            },
            _ => false,
        }
    }

    /// Pastes text into the search field; line ends are left out.
    pub fn handle_paste(&mut self, text: &str)
        requires
            old(self).wf(),
        ensures
            final(self).wf(),
            final(self)@ == old(self)@.after_paste(text@),
            final(self).branches == old(self).branches,
    {
        editing::paste(&mut self.input, &mut self.cursor_pos, text);
        self.selected_idx = 0;
    }

    /// Compute scroll offset to keep the selected item centered.
    pub fn compute_scroll(&self, total: usize, visible: usize) -> (first: usize)
        ensures
            first == lists::centered_scroll(self@.selected_idx, total as int, visible as int),
    {
        scroll_to_center(self.selected_idx, total, visible)
    }
}

impl Default for BranchPicker {
    fn default() -> (picker: Self)
        ensures
            picker.wf(),
            picker@ == (PickerView {
                mode: BranchPickerMode::Selected,
                edit: editing::Edit { text: Seq::empty(), at: 0 },
                selected_idx: 0,
                selected_branch: None,
                names: Seq::empty(),
            }),
            picker.branches@ == Seq::<BranchInfo>::empty(),
    {
        BranchPicker::new()
    }
}

/// The agent's own branch is never offered, and every other branch is.
pub proof fn own_branch_is_never_offered(branches: Seq<BranchInfo>, own: Seq<char>)
    ensures
        forall|b: BranchInfo|
            #[trigger] other_branches(branches, Some(own)).contains(b) <==> branches.contains(b)
                && b.name@ != own,
    decreases branches.len(),
{
    let kept = other_branches(branches, Some(own));
    if branches.len() > 0 {
        let front = branches.drop_last();
        let rest = other_branches(front, Some(own));
        own_branch_is_never_offered(front, own);
        assert forall|b: BranchInfo| #[trigger] kept.contains(b) <==> branches.contains(b)
            && b.name@ != own by {
            if kept.contains(b) {
                let i = kept.index_of(b);
                if i < rest.len() {
                    assert(rest[i] == b);
                    assert(rest.contains(b));
                    let j = front.index_of(b);
                    assert(branches[j] == b);
                } else {
                    assert(branches[branches.len() - 1] == b);
                }
            }
            if branches.contains(b) && b.name@ != own {
                let j = branches.index_of(b);
                if j < front.len() {
                    assert(front[j] == b);
                    assert(front.contains(b));
                    assert(rest.contains(b));
                    let i = rest.index_of(b);
                    assert(kept[i] == b);
                } else {
                    assert(kept[rest.len() as int] == b);
                }
            }
        }
    }
}

/// What the picker chose is the name of a branch in its list.
pub proof fn chosen_branch_is_in_the_list(picker: PickerView)
    requires
        picker.names.len() <= usize::MAX,
        0 <= picker.selected_idx,
        picker.after_key(KeyCode::Enter).1,
    ensures
        picker.after_key(KeyCode::Enter).0.selected_branch is Some,
        picker.names.contains(picker.after_key(KeyCode::Enter).0.selected_branch->0),
{
    ranking::lemma_filtered_in_range(picker.names, picker.edit.text);
}

/// Up and down step through the branches that match, Enter takes the one stepped to, and Esc
/// leaves the choice as it was.
pub proof fn branches_are_stepped_through(picker: PickerView)
    requires
        0 <= picker.selected_idx < picker.matches().len(),
    ensures
        ({
            let (up, up_done) = picker.after_key(KeyCode::Up);
            let (down, down_done) = picker.after_key(KeyCode::Down);
            let (taken, done) = picker.after_key(KeyCode::Enter);
            let (left, left_done) = picker.after_key(KeyCode::Esc);
            &&& picker.selected_idx > 0 ==> up.selected_idx == picker.selected_idx - 1
            &&& picker.selected_idx == 0 ==> up.selected_idx == 0
            &&& picker.selected_idx + 1 < picker.matches().len() ==> down.selected_idx
                == picker.selected_idx + 1
            &&& picker.selected_idx + 1 == picker.matches().len() ==> down.selected_idx
                == picker.selected_idx
            &&& !up_done && !down_done && !left_done && done
            &&& up.edit == picker.edit && down.edit == picker.edit
            &&& up.selected_branch == picker.selected_branch
            &&& down.selected_branch == picker.selected_branch
            &&& left.selected_branch == picker.selected_branch
            &&& left.mode == BranchPickerMode::Selected
            &&& taken.mode == BranchPickerMode::Selected
            &&& taken.selected_branch == Some(
                picker.names[picker.matches()[picker.selected_idx].0 as int],
            )
            &&& taken.names == picker.names && up.names == picker.names
        }),
{
}

/// What is typed or pasted goes in at the cursor, and the best match is selected again; nothing
/// is chosen by typing.
pub proof fn typing_narrows_the_branches(picker: PickerView, c: char, pasted: Seq<char>)
    requires
        0 <= picker.edit.at <= picker.edit.text.len(),
    ensures
        ({
            let (after, done) = picker.after_key(KeyCode::Char(c));
            let (erased, erased_done) = after.after_key(KeyCode::Backspace);
            let fed = picker.after_paste(pasted);
            let at = picker.edit.at;
            &&& !done && !erased_done
            &&& after.edit.text == picker.edit.text.take(at) + seq![c] + picker.edit.text.skip(at)
            &&& after.edit.at == at + 1
            &&& after.selected_idx == 0
            &&& after.selected_branch == picker.selected_branch
            &&& after.mode == picker.mode
            &&& erased.edit == picker.edit
            &&& erased.selected_idx == 0
            &&& fed.edit == picker.edit.inserted(editing::one_line(pasted))
            &&& fed.selected_idx == 0
            &&& fed.selected_branch == picker.selected_branch
        }),
{
    editing::backspace_undoes_typing(picker.edit, c);
    editing::typing_goes_in_at_the_cursor(picker.edit, seq![c]);
}

/// A branch with no match typed for is not taken, and the cursor moves without choosing.
pub proof fn nothing_is_taken_without_a_match(picker: PickerView)
    ensures
        picker.selected_idx >= picker.matches().len() ==> picker.after_key(KeyCode::Enter) == (
            picker,
            false,
        ),
        picker.after_key(KeyCode::Left).0.edit == picker.edit.left(),
        picker.after_key(KeyCode::Right).0.edit == picker.edit.right(),
        picker.after_key(KeyCode::Left).0.selected_idx == picker.selected_idx,
        picker.after_key(KeyCode::Right).0.selected_idx == picker.selected_idx,
{
}

/// Every branch but the agent's own is offered, in the order in which they are listed.
pub proof fn other_branches_are_offered(branches: Seq<BranchInfo>, own: Option<Seq<char>>, next: BranchInfo)
    ensures
        own == Some(next.name@) ==> other_branches(branches.push(next), own) == other_branches(
            branches,
            own,
        ),
        own != Some(next.name@) ==> other_branches(branches.push(next), own) == other_branches(
            branches,
            own,
        ).push(next),
        own is None ==> other_branches(branches, own) == branches,
    decreases branches.len(),
{
    assert(branches.push(next).drop_last() =~= branches);
    if own is None && branches.len() > 0 {
        other_branches_are_offered(branches.drop_last(), own, branches.last());
        assert(branches.drop_last().push(branches.last()) =~= branches);
    }
}

} // verus!
