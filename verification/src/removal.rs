//! Before a worktree or a repository is removed: which one, and whether the user means it.

use vstd::prelude::*;

use crate::notes;
use crate::overview;
use crate::text;
use crate::worktrees;
use crate::commands::{confirmed, HubCommand};
use crate::notes::{complaint_of, line_of, no_acts, one_act, push_act, Act, Ink};
use crate::worktrees::detect_current_worktree_branch;

verus! {

/// The branch whose worktree is meant: the one that was named, or else that of the worktree that
/// the directory lies in.
pub open spec fn branch_meant(branch: Option<Seq<char>>, dir: Seq<char>) -> Option<Seq<char>> {
    match branch {
        Some(b) => Some(b),
        None => worktrees::branch_in(worktrees::components(dir, 0)),
    }
}

/// What is said where no worktree is meant.
pub open spec fn no_worktree_meant() -> Seq<notes::ActView> {
    seq![
        notes::ActView::Blank,
        notes::ActView::Print(
            notes::complaint(
                "not inside a clust worktree; use -b to specify the branch"@,
                false,
                false,
            ),
        ),
        notes::ActView::Blank,
    ]
}

/// What to print before a worktree is removed, and the command that removes it; or, where none
/// is meant, the exit code.
pub fn remove_worktree(branch: Option<String>, delete_local: bool, working_dir: String) -> (outcome: (
    Vec<Act>,
    Result<HubCommand, i32>,
))
    ensures
        match branch_meant(overview::opt_view(branch), working_dir@) {
            Some(name) => {
                &&& notes::acts_view(outcome.0@) == seq![notes::ActView::Blank]
                &&& outcome.1 matches Ok(
                    HubCommand::RemoveWorktree {
                        working_dir: dir,
                        repo_name,
                        branch_name,
                        delete_local: local,
                        force,
                    },
                )
                &&& dir == working_dir && repo_name is None && branch_name@ == name
                &&& local == delete_local && !force
            },
            None => {
                &&& notes::acts_view(outcome.0@) == no_worktree_meant()
                &&& outcome.1 == Err::<HubCommand, i32>(1)
            },
        },
{
    let mut acts = one_act(Act::Blank);
    let meant = match branch {
        Some(b) => Some(b),
        None => detect_current_worktree_branch(working_dir.as_str()),
    };
    match meant {
        Some(branch_name) => (
            acts,
            Ok(
                HubCommand::RemoveWorktree {
                    working_dir,
                    repo_name: None,
                    branch_name,
                    delete_local,
                    force: false,
                },
            ),
        ),
        None => {
            let complaint = complaint_of(
                "not inside a clust worktree; use -b to specify the branch",
                false,
                false,
            );
            push_act(&mut acts, Act::Print(complaint));
            push_act(&mut acts, Act::Blank);
            assert(notes::acts_view(acts@) =~= no_worktree_meant());
            (acts, Err(1))
        },
    }
}

/// The warning before a repository is removed.
pub open spec fn repo_warning() -> Seq<notes::ActView> {
    seq![
        notes::ActView::Blank,
        notes::ActView::Print(
            notes::line_note(
                Ink::Warning,
                "⚠ this will stop all agents working in this repo and remove it from clust"@,
            ),
        ),
        notes::ActView::Blank,
    ]
}

/// What to print before the user is asked whether a repository is to be removed, and the
/// question.
pub fn repo_removal_question() -> (asked: (Vec<Act>, &'static str))
    ensures
        notes::acts_view(asked.0@) == repo_warning(),
        asked.1@ == "are you sure? [y/N]"@,
{
    let mut acts = one_act(Act::Blank);
    let warning = line_of(
        Ink::Warning,
        "⚠ this will stop all agents working in this repo and remove it from clust",
    );
    push_act(&mut acts, Act::Print(warning));
    push_act(&mut acts, Act::Blank);
    assert(notes::acts_view(acts@) =~= repo_warning());
    (acts, "are you sure? [y/N]")
}

/// What is said where a repository is to stay.
pub open spec fn repo_kept() -> Seq<notes::ActView> {
    seq![
        notes::ActView::Blank,
        notes::ActView::Print(notes::line_note(Ink::Secondary, "cancelled"@)),
        notes::ActView::Blank,
    ]
}

/// Whether an answer is a yes; one that could not be read is none.
pub open spec fn agreed(answer: Option<Seq<char>>) -> bool {
    answer matches Some(a) && (text::trim(a) == "y"@ || text::trim(a) == "Y"@)
}

/// What to print after the answer, and the command that removes the repository, where the user
/// agreed.
pub fn remove_repo(answer: Option<&str>, working_dir: String) -> (outcome: (
    Vec<Act>,
    Option<HubCommand>,
))
    ensures
        if agreed(
            match answer {
                Some(a) => Some(a@),
                None => None,
            },
        ) {
            &&& outcome.0@.len() == 0
            &&& outcome.1 == Some(HubCommand::RemoveRepo { working_dir })
        } else {
            &&& notes::acts_view(outcome.0@) == repo_kept()
            &&& outcome.1 is None
        },
{
    let yes = match answer {
        Some(a) => confirmed(a),
        None => false,
    };
    if yes {
        let acts = no_acts();
        assert(acts@.len() == notes::acts_view(acts@).len());
        (acts, Some(HubCommand::RemoveRepo { working_dir }))
    } else {
        let mut acts = one_act(Act::Blank);
        push_act(&mut acts, Act::Print(line_of(Ink::Secondary, "cancelled")));
        push_act(&mut acts, Act::Blank);
        assert(notes::acts_view(acts@) =~= repo_kept());
        (acts, None)
    }
}

// ── Laws ───────────────────────────────────────────────────────────

/// A branch that is named is the one meant, wherever one stands.
pub proof fn named_branches_are_meant(branch: Seq<char>, dir: Seq<char>)
    ensures
        branch_meant(Some(branch), dir) == Some(branch),
        branch_meant(None, dir) == worktrees::branch_in(worktrees::components(dir, 0)),
{
}

/// Only a yes is a yes, in either case and with white space around it.
pub proof fn only_a_yes_agrees(before: Seq<char>, answer: Seq<char>, after: Seq<char>)
    requires
        forall|i: int| 0 <= i < before.len() ==> text::is_white(#[trigger] before[i]),
        forall|i: int| 0 <= i < after.len() ==> text::is_white(#[trigger] after[i]),
        answer.len() > 0,
        !text::is_white(answer[0]),
        !text::is_white(answer.last()),
    ensures
        agreed(Some(before + answer + after)) <==> answer == seq!['y'] || answer == seq!['Y'],
        !agreed(None),
{
    reveal_strlit("y");
    reveal_strlit("Y");
    text::trimming_takes_off_what_is_around(before, answer, after);
    assert("y"@ =~= seq!['y']);
    assert("Y"@ =~= seq!['Y']);
}

} // verus!
