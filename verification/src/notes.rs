//! What a command prints, as painted pieces of text.

use vstd::prelude::*;

use crate::text::copy_of;

verus! {

/// The colour of a piece of text, by its role.
#[derive(Debug, Clone, Copy, PartialEq, Eq, Structural)]
pub enum Ink {
    /// No colour of its own.
    Plain,
    Accent,
    AccentBright,
    Primary,
    Secondary,
    Tertiary,
    Success,
    Warning,
    WarningText,
    Error,
}

/// A piece of text in one colour.
#[derive(Debug, Clone)]
pub struct Piece {
    pub ink: Ink,
    pub text: String,
}

#[verifier::ext_equal]
pub ghost struct PieceView {
    pub ink: Ink,
    pub text: Seq<char>,
}

impl View for Piece {
    type V = PieceView;

    open spec fn view(&self) -> PieceView {
        PieceView { ink: self.ink, text: self.text@ }
    }
}

pub open spec fn pieces_view(pieces: Seq<Piece>) -> Seq<PieceView> {
    pieces.map_values(|p: Piece| p@)
}

pub open spec fn piece(ink: Ink, text: Seq<char>) -> PieceView {
    PieceView { ink, text }
}

/// Appends a piece.
pub fn push_piece(pieces: &mut Vec<Piece>, ink: Ink, text: &str)
    ensures
        pieces_view(final(pieces)@) == pieces_view(old(pieces)@).push(piece(ink, text@)),
{
    let ghost before = pieces_view(pieces@);
    pieces.push(Piece { ink, text: copy_of(text) });
    assert(pieces_view(pieces@) =~= before.push(piece(ink, text@)));
}

pub fn no_pieces() -> (pieces: Vec<Piece>)
    ensures
        pieces_view(pieces@) == Seq::<PieceView>::empty(),
{
    let pieces: Vec<Piece> = Vec::new();
    assert(pieces_view(pieces@) =~= Seq::<PieceView>::empty());
    pieces
}

/// A sign in front of a line.
#[derive(Debug, Clone, Copy, PartialEq, Eq, Structural)]
pub enum Mark {
    Bare,
    Tick,
    Cross,
    Caution,
}

/// A line of output, set in by two columns.
#[derive(Debug, Clone)]
pub struct Note {
    /// Whether it goes to the standard error output.
    pub to_stderr: bool,
    pub mark: Mark,
    pub pieces: Vec<Piece>,
    /// Whether an empty line comes before it.
    pub spaced_before: bool,
    /// Whether an empty line comes after it.
    pub spaced_after: bool,
}

#[verifier::ext_equal]
pub ghost struct NoteView {
    pub to_stderr: bool,
    pub mark: Mark,
    pub pieces: Seq<PieceView>,
    pub spaced_before: bool,
    pub spaced_after: bool,
}

impl View for Note {
    type V = NoteView;

    open spec fn view(&self) -> NoteView {
        NoteView {
            to_stderr: self.to_stderr,
            mark: self.mark,
            pieces: pieces_view(self.pieces@),
            spaced_before: self.spaced_before,
            spaced_after: self.spaced_after,
        }
    }
}

/// A line on the standard output.
pub open spec fn plain_note(pieces: Seq<PieceView>) -> NoteView {
    NoteView {
        to_stderr: false,
        mark: Mark::Bare,
        pieces,
        spaced_before: false,
        spaced_after: false,
    }
}

pub fn note_of(pieces: Vec<Piece>) -> (n: Note)
    ensures
        n@ == plain_note(pieces_view(pieces@)),
{
    Note { to_stderr: false, mark: Mark::Bare, pieces, spaced_before: false, spaced_after: false }
}

/// A line on the standard output in one colour.
pub open spec fn line_note(ink: Ink, text: Seq<char>) -> NoteView {
    plain_note(seq![piece(ink, text)])
}

pub fn line_of(ink: Ink, text: &str) -> (n: Note)
    ensures
        n@ == line_note(ink, text@),
{
    let mut pieces = no_pieces();
    push_piece(&mut pieces, ink, text);
    assert(pieces_view(pieces@) =~= seq![piece(ink, text@)]);
    note_of(pieces)
}

/// A complaint on the standard error output.
pub open spec fn complaint(text: Seq<char>, spaced_before: bool, spaced_after: bool) -> NoteView {
    NoteView {
        to_stderr: true,
        mark: Mark::Cross,
        pieces: seq![piece(Ink::Primary, text)],
        spaced_before,
        spaced_after,
    }
}

pub fn complaint_of(text: &str, spaced_before: bool, spaced_after: bool) -> (n: Note)
    ensures
        n@ == complaint(text@, spaced_before, spaced_after),
{
    let mut pieces = no_pieces();
    push_piece(&mut pieces, Ink::Primary, text);
    let n = Note { to_stderr: true, mark: Mark::Cross, pieces, spaced_before, spaced_after };
    assert(n@.pieces =~= seq![piece(Ink::Primary, text@)]);
    n
}

/// That something has worked.
pub open spec fn success(text: Seq<char>) -> NoteView {
    NoteView {
        to_stderr: false,
        mark: Mark::Tick,
        pieces: seq![piece(Ink::Primary, text)],
        spaced_before: false,
        spaced_after: true,
    }
}

pub fn success_of(text: &str) -> (n: Note)
    ensures
        n@ == success(text@),
{
    let mut pieces = no_pieces();
    push_piece(&mut pieces, Ink::Primary, text);
    let n = Note {
        to_stderr: false,
        mark: Mark::Tick,
        pieces,
        spaced_before: false,
        spaced_after: true,
    };
    assert(n@.pieces =~= seq![piece(Ink::Primary, text@)]);
    n
}

/// What is said when worktrees cannot be offered for cleaning up.
pub open spec fn cleanup_skipped() -> NoteView {
    NoteView {
        to_stderr: true,
        mark: Mark::Caution,
        pieces: seq![
            piece(
                Ink::Secondary,
                "could not query hub for running agents; worktree cleanup prompt skipped"@,
            ),
        ],
        spaced_before: false,
        spaced_after: false,
    }
}

pub fn cleanup_skipped_note() -> (n: Note)
    ensures
        n@ == cleanup_skipped(),
{
    let mut pieces = no_pieces();
    push_piece(
        &mut pieces,
        Ink::Secondary,
        "could not query hub for running agents; worktree cleanup prompt skipped",
    );
    let n = Note {
        to_stderr: true,
        mark: Mark::Caution,
        pieces,
        spaced_before: false,
        spaced_after: false,
    };
    assert(n@ =~= cleanup_skipped());
    n
}

// ── What a command does ────────────────────────────────────────────

/// What the caller has to do for a command, in order.
#[derive(Debug, Clone)]
pub enum Act {
    /// Print an empty line.
    Blank,
    Print(Note),
    /// Start the spinner with a message.
    Spin(String),
    /// End the spinner with a tick or with a cross.
    SpinOk(String),
    SpinFailed(String),
}

#[verifier::ext_equal]
pub ghost enum ActView {
    Blank,
    Print(NoteView),
    Spin(Seq<char>),
    SpinOk(Seq<char>),
    SpinFailed(Seq<char>),
}

impl View for Act {
    type V = ActView;

    open spec fn view(&self) -> ActView {
        match *self {
            Act::Blank => ActView::Blank,
            Act::Print(n) => ActView::Print(n@),
            Act::Spin(s) => ActView::Spin(s@),
            Act::SpinOk(s) => ActView::SpinOk(s@),
            Act::SpinFailed(s) => ActView::SpinFailed(s@),
        }
    }
}

pub open spec fn acts_view(acts: Seq<Act>) -> Seq<ActView> {
    acts.map_values(|a: Act| a@)
}

pub fn no_acts() -> (acts: Vec<Act>)
    ensures
        acts_view(acts@) == Seq::<ActView>::empty(),
{
    let acts: Vec<Act> = Vec::new();
    assert(acts_view(acts@) =~= Seq::<ActView>::empty());
    acts
}

pub fn push_act(acts: &mut Vec<Act>, act: Act)
    ensures
        acts_view(final(acts)@) == acts_view(old(acts)@).push(act@),
{
    let ghost before = acts_view(acts@);
    acts.push(act);
    assert(acts_view(acts@) =~= before.push(act@));
}

/// A single thing to do.
pub fn one_act(act: Act) -> (acts: Vec<Act>)
    ensures
        acts_view(acts@) == seq![act@],
{
    let mut acts = no_acts();
    push_act(&mut acts, act);
    assert(acts_view(acts@) =~= seq![act@]);
    acts
}

// ── Laws ───────────────────────────────────────────────────────────

/// Complaints and cautions go to the error stream, anything else to the output; every note says
/// what it was given to say.
pub proof fn notes_go_where_they_belong(
    ink: Ink,
    text: Seq<char>,
    spaced_before: bool,
    spaced_after: bool,
)
    ensures
        complaint(text, spaced_before, spaced_after).to_stderr,
        complaint(text, spaced_before, spaced_after).mark == Mark::Cross,
        complaint(text, spaced_before, spaced_after).spaced_before == spaced_before,
        complaint(text, spaced_before, spaced_after).spaced_after == spaced_after,
        complaint(text, spaced_before, spaced_after).pieces[0].text == text,
        cleanup_skipped().to_stderr,
        cleanup_skipped().mark == Mark::Caution,
        !success(text).to_stderr,
        success(text).mark == Mark::Tick,
        success(text).pieces[0].text == text,
        !line_note(ink, text).to_stderr,
        line_note(ink, text).mark == Mark::Bare,
        line_note(ink, text).pieces.len() == 1,
        line_note(ink, text).pieces[0].ink == ink,
        line_note(ink, text).pieces[0].text == text,
{
}

} // verus!
