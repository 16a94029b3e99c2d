//! A virtual terminal: an escape sequence parser that drives a screen.

use vstd::prelude::*;

use crate::screen;
use crate::screen::{SCROLLBACK_CAPACITY, Screen};

verus! {

/// The parser of escape sequences of the `vte` crate.
#[verifier::external_type_specification]
#[verifier::external_body]
pub struct ExParser<const N: usize>(vte::Parser<N>);

/// The parameters of a control sequence, as the `vte` crate hands them out.
#[verifier::external_type_specification]
#[verifier::external_body]
pub struct ExParams(vte::Params);

/// What the parser asks of a terminal.
pub enum Action {
    /// Draw a character.
    Print(char),
    /// Run a control character.
    Execute(u8),
    /// Run a control sequence.
    Csi { params: Vec<Vec<u16>>, intermediates: Vec<u8>, action: char },
    /// Run an escape sequence.
    Esc { intermediates: Vec<u8>, byte: u8 },
}

pub ghost enum ActionView {
    Print(char),
    Execute(u8),
    Csi { params: Seq<Seq<u16>>, intermediates: Seq<u8>, action: char },
    Esc { intermediates: Seq<u8>, byte: u8 },
}

impl View for Action {
    type V = ActionView;

    open spec fn view(&self) -> ActionView {
        match self {
            Action::Print(c) => ActionView::Print(*c),
            Action::Execute(byte) => ActionView::Execute(*byte),
            Action::Csi { params, intermediates, action } => ActionView::Csi {
                params: screen::params_view(params@),
                intermediates: intermediates@,
                action: *action,
            },
            Action::Esc { intermediates, byte } => ActionView::Esc {
                intermediates: intermediates@,
                byte: *byte,
            },
        }
    }
}

impl ActionView {
    /// Whether every parameter of a control sequence holds at least one number.
    pub open spec fn ok(self) -> bool {
        self matches ActionView::Csi { params, .. } ==> screen::params_ok(params)
    }
}

/// The actions of a list, as their views.
pub open spec fn actions_view(actions: Seq<Action>) -> Seq<ActionView> {
    actions.map_values(|a: Action| a@)
}

impl screen::ScreenView {
    /// The screen after one action.
    pub open spec fn acted(self, action: ActionView) -> screen::ScreenView {
        match action {
            ActionView::Print(c) => self.printed(c),
            ActionView::Execute(byte) => self.executed(byte),
            ActionView::Csi { params, intermediates, action } => self.csi(
                params,
                intermediates,
                action,
            ),
            ActionView::Esc { intermediates, byte } => self.esc(intermediates, byte),
        }
    }

    /// The screen after a list of actions.
    pub open spec fn acted_all(self, actions: Seq<ActionView>) -> screen::ScreenView
        decreases actions.len(),
    {
        if actions.len() == 0 {
            self
        } else {
            self.acted_all(actions.drop_last()).acted(actions.last())
        }
    }

    /// The screen after `data` has come in behind the bytes `before`.
    pub open spec fn fed(self, before: Seq<u8>, data: Seq<u8>) -> screen::ScreenView
        decreases data.len(),
    {
        if data.len() == 0 {
            self
        } else {
            self.fed(before, data.drop_last()).acted_all(
                parser_actions(before + data.drop_last(), data.last()),
            )
        }
    }
}

/// Writes down what a parser asks for.
struct Recorder {
    actions: Vec<Action>,
}

/// The numbers of each parameter in a parameter list.
pub uninterp spec fn param_numbers(params: vte::Params) -> Seq<Seq<u16>>;

/// The parameters of a control sequence as plain numbers.
///
/// `vte::Params::iter` yields one slice per parameter, in order. A parameter enters the list
/// with its first number, so no slice is empty.
#[verifier::external_body]
fn plain_params(params: &vte::Params) -> (plain: Vec<Vec<u16>>)
    ensures
        screen::params_view(plain@) == param_numbers(*params),
        screen::params_ok(screen::params_view(plain@)),
{
    params.iter().map(|p| p.to_vec()).collect()
}

fn copy_bytes(bytes: &[u8]) -> (copy: Vec<u8>)
    ensures
        copy@ == bytes@,
{
    let mut copy: Vec<u8> = Vec::new();
    copy.extend_from_slice(bytes);
    assert(copy@ =~= bytes@);
    copy
}

impl vte::Perform for Recorder {
    fn print(&mut self, c: char) {
        self.actions.push(Action::Print(c));
    }

    fn execute(&mut self, byte: u8) {
        self.actions.push(Action::Execute(byte));
    }

    fn csi_dispatch(
        &mut self,
        params: &vte::Params,
        intermediates: &[u8],
        _ignore: bool,
        action: char,
    ) {
        let params = plain_params(params);
        let intermediates = copy_bytes(intermediates);
        self.actions.push(Action::Csi { params, intermediates, action });
    }

    fn esc_dispatch(&mut self, intermediates: &[u8], _ignore: bool, byte: u8) {
        let intermediates = copy_bytes(intermediates);
        self.actions.push(Action::Esc { intermediates, byte });
    }
}

/// The bytes that a parser has read since it was made.
pub uninterp spec fn bytes_read(parser: vte::Parser) -> Seq<u8>;

/// What a parser that has read the bytes `before` asks for when `byte` follows.
pub uninterp spec fn parser_actions(before: Seq<u8>, byte: u8) -> Seq<ActionView>;

/// Whether bytes are ASCII and none of them begins an escape sequence.
pub open spec fn no_escapes(bytes: Seq<u8>) -> bool {
    forall|i: int| 0 <= i < bytes.len() ==> #[trigger] bytes[i] < 0x80 && bytes[i] != 0x1b
}

/// What such a byte asks for: a character to draw, or a control character to run.
pub open spec fn plain_action(byte: u8) -> ActionView {
    if byte >= 0x20 {
        ActionView::Print(byte as char)
    } else {
        ActionView::Execute(byte)
    }
}

pub open spec fn plain_actions(bytes: Seq<u8>) -> Seq<ActionView> {
    bytes.map_values(|b: u8| plain_action(b))
}

/// `vte::Parser::new` makes a parser that has read nothing.
#[verifier::external_body]
fn new_parser() -> (parser: vte::Parser)
    ensures
        bytes_read(parser) == Seq::<u8>::empty(),
{
    vte::Parser::new()
}

/// `vte::Parser::advance` reads one byte and calls its performer for each action that the byte
/// completes.
///
/// The parser holds no state but what it derives from the bytes it has read, so the actions
/// are a function of those bytes. A control sequence comes with parameters that each hold at
/// least one number. While no escape sequence was begun and all bytes are ASCII, each byte asks
/// for one character to be drawn or one control character to be run.
#[verifier::external_body]
fn advance(parser: &mut vte::Parser, byte: u8) -> (actions: Vec<Action>)
    ensures
        bytes_read(*final(parser)) == bytes_read(*old(parser)).push(byte),
        actions_view(actions@) == parser_actions(bytes_read(*old(parser)), byte),
        forall|i: int| 0 <= i < actions@.len() ==> (#[trigger] actions@[i])@.ok(),
        no_escapes(bytes_read(*old(parser)).push(byte)) ==> actions_view(actions@) == seq![
            plain_action(byte),
        ],
{
    let mut recorder = Recorder { actions: Vec::new() };
    parser.advance(&mut recorder, byte);
    recorder.actions
}

/// A screen that can be fed with the output of a program.
pub struct VirtualTerminal {
    pub parser: vte::Parser,
    pub screen: Screen,
}

impl VirtualTerminal {
    /// All bytes that were fed so far.
    pub open spec fn input(self) -> Seq<u8> {
        bytes_read(self.parser)
    }

    pub fn new(cols: usize, rows: usize) -> (vt: Self)
        ensures
            vt.input() == Seq::<u8>::empty(),
            vt.screen@ == screen::ScreenView::fresh(cols as int, rows as int, SCROLLBACK_CAPACITY as int),
            vt.screen@.wf(),
    {
        VirtualTerminal { parser: new_parser(), screen: Screen::new(cols, rows) }
    }

    pub fn with_scrollback_capacity(
        cols: usize,
        rows: usize,
        scrollback_capacity: usize,
    ) -> (vt: Self)
        ensures
            vt.input() == Seq::<u8>::empty(),
            vt.screen@ == screen::ScreenView::fresh(cols as int, rows as int, scrollback_capacity as int),
            vt.screen@.wf(),
    {
        VirtualTerminal {
            parser: new_parser(),
            screen: Screen::with_scrollback_capacity(cols, rows, scrollback_capacity),
        }
    }

    /// Feeds a chunk of output.
    pub fn process(&mut self, data: &[u8])
        requires
            old(self).screen@.wf(),
        ensures
            final(self).input() == old(self).input() + data@,
            final(self).screen@ == old(self).screen@.fed(old(self).input(), data@),
            final(self).screen@.wf(),
            no_escapes(old(self).input() + data@) ==> final(self).screen@ == old(self).screen@.acted_all(plain_actions(data@)),
    {
        let ghost start = self.screen@;
        let ghost before = self.input();
        let mut i: usize = 0;
        assert(before + data@.take(0) =~= before);
        assert(plain_actions(data@.take(0)) =~= Seq::<ActionView>::empty());
        while i < data.len()
            invariant
                i <= data@.len(),
                self.screen@.wf(),
                self.input() == before + data@.take(i as int),
                self.screen@ == start.fed(before, data@.take(i as int)),
                no_escapes(before + data@) ==> self.screen@ == start.acted_all(
                    plain_actions(data@.take(i as int)),
                ),
            decreases data@.len() - i,
        {
            let ghost now = self.screen@;
            let actions = advance(&mut self.parser, data[i]);
            self.screen.perform_all(&actions);
            i += 1;
            proof {
                let read = before + data@.take(i as int);
                if no_escapes(before + data@) {
                    assert forall|k: int| 0 <= k < read.len() implies #[trigger] read[k] < 0x80
                        && read[k] != 0x1b by {
                        assert((before + data@)[k] == read[k]);
                    }
                    let one = plain_action(data@[i - 1]);
                    assert(seq![one].drop_last() =~= Seq::<ActionView>::empty());
                    assert(now.acted_all(seq![one].drop_last()) == now);
                    assert(plain_actions(data@.take(i as int)).drop_last() =~= plain_actions(
                        data@.take(i - 1),
                    ));
                }
                assert(data@.take(i as int).drop_last() =~= data@.take(i - 1));
                assert(before + data@.take(i as int) =~= (before + data@.take(i - 1)).push(
                    data@[i - 1],
                ));
            }
        }
        assert(data@.take(i as int) =~= data@);
    }

    /// Resizes the screen and drops the scrollback.
    pub fn resize(&mut self, cols: usize, rows: usize)
        requires
            old(self).screen@.wf(),
        ensures
            final(self).input() == old(self).input(),
            final(self).screen@ == old(self).screen@.resized_afresh(cols as int, rows as int),
            final(self).screen@.wf(),
    {
        self.screen.resize(cols, rows);
    }

    /// Resizes the screen and keeps the scrollback.
    pub fn resize_keep_scrollback(&mut self, cols: usize, rows: usize)
        requires
            old(self).screen@.wf(),
        ensures
            final(self).input() == old(self).input(),
            final(self).screen@ == old(self).screen@.resized(cols as int, rows as int),
            final(self).screen@.wf(),
    {
        self.screen.resize_keep_scrollback(cols, rows);
    }
}

impl Screen {
    /// Runs one action.
    pub fn perform(&mut self, action: &Action)
        requires
            old(self)@.wf(),
            action@.ok(),
        ensures
            final(self)@ == old(self)@.acted(action@),
            final(self)@.wf(),
    {
        match action {
            Action::Print(c) => self.print(*c),
            Action::Execute(byte) => self.execute(*byte),
            Action::Csi { params, intermediates, action } => self.csi_dispatch(
                params,
                intermediates,
                *action,
            ),
            Action::Esc { intermediates, byte } => self.esc_dispatch(intermediates, *byte),
        }
    }

    /// Runs a list of actions in order.
    pub fn perform_all(&mut self, actions: &Vec<Action>)
        requires
            old(self)@.wf(),
            forall|i: int| 0 <= i < actions@.len() ==> (#[trigger] actions@[i])@.ok(),
        ensures
            final(self)@ == old(self)@.acted_all(actions_view(actions@)),
            final(self)@.wf(),
    {
        let ghost start = self@;
        let ghost all = actions_view(actions@);
        let mut i: usize = 0;
        assert(all.take(0) =~= Seq::<ActionView>::empty());
        while i < actions.len()
            invariant
                i <= actions@.len(),
                all == actions_view(actions@),
                forall|k: int| 0 <= k < actions@.len() ==> (#[trigger] actions@[k])@.ok(),
                self@.wf(),
                self@ == start.acted_all(all.take(i as int)),
            decreases actions@.len() - i,
        {
            self.perform(&actions[i]);
            i += 1;
            assert(all.take(i as int).drop_last() =~= all.take(i - 1));
        }
        assert(all.take(i as int) =~= all);
    }
}

/// How output is cut into chunks does not matter: feeding two chunks one after the other gives
/// the same screen as feeding them joined.
pub proof fn feeding_ignores_chunk_borders(
    screen: screen::ScreenView,
    before: Seq<u8>,
    first: Seq<u8>,
    second: Seq<u8>,
)
    ensures
        screen.fed(before, first).fed(before + first, second) == screen.fed(before, first + second),
    decreases second.len(),
{
    if second.len() == 0 {
        assert(first + second =~= first);
    } else {
        feeding_ignores_chunk_borders(screen, before, first, second.drop_last());
        assert((first + second).drop_last() =~= first + second.drop_last());
        assert(before + first + second.drop_last() =~= before + (first + second.drop_last()));
    }
}

/// Plain bytes are drawn as characters, and what is below the blank is run.
pub proof fn plain_bytes_are_drawn(screen: screen::ScreenView, byte: u8)
    requires
        byte < 0x80,
        byte != 0x1b,
    ensures
        byte >= 0x20 ==> screen.acted(plain_action(byte)) == screen.printed(byte as char),
        byte < 0x20 ==> screen.acted(plain_action(byte)) == screen.executed(byte),
{
}

/// What the parser asks for is done in order.
pub proof fn actions_are_done_in_order(
    screen: screen::ScreenView,
    actions: Seq<ActionView>,
    next: ActionView,
)
    ensures
        screen.acted_all(actions.push(next)) == screen.acted_all(actions).acted(next),
        screen.acted_all(Seq::empty()) == screen,
{
    assert(actions.push(next).drop_last() =~= actions);
}

} // verus!
