//! Output filter chain for terminal multiplexing.
//!
//! All PTY output passes through a `FilterChain` before it reaches the terminal. New filters
//! implement the `OutputFilter` trait and are added to the chain.

use vstd::prelude::*;

verus! {

/// What a filter does, as a machine over its internal state.
///
/// Both functions return the next state and the bytes that come out.
pub ghost struct Machine {
    pub on_data: spec_fn(Seq<u8>, Seq<u8>) -> (Seq<u8>, Seq<u8>),
    pub on_flush: spec_fn(Seq<u8>) -> (Seq<u8>, Seq<u8>),
}

/// A filter that processes terminal output bytes.
pub trait OutputFilter: Send {
    /// The machine that this filter runs; it never changes.
    spec fn machine(&self) -> Machine;

    /// The machine's current state.
    spec fn state(&self) -> Seq<u8>;

    /// Process a chunk of output data. Returns bytes safe to write to the terminal.
    fn filter(&mut self, data: &[u8]) -> (out: Vec<u8>)
        ensures
            final(self).machine() == old(self).machine(),
            final(self).state() == (old(self).machine().on_data)(old(self).state(), data@).0,
            out@ == (old(self).machine().on_data)(old(self).state(), data@).1,
    ;

    /// Flush any buffered data. Called when the session ends.
    fn flush(&mut self) -> (out: Vec<u8>)
        ensures
            final(self).machine() == old(self).machine(),
            final(self).state() == (old(self).machine().on_flush)(old(self).state()).0,
            out@ == (old(self).machine().on_flush)(old(self).state()).1,
    ;
}

// ── Filter chain ───────────────────────────────────────────────────

/// One filter of a chain: its machine and where that machine stands.
pub ghost struct Link {
    pub machine: Machine,
    pub state: Seq<u8>,
}

impl Link {
    pub open spec fn after_data(self, data: Seq<u8>) -> Link {
        Link { state: (self.machine.on_data)(self.state, data).0, ..self }
    }

    pub open spec fn data_out(self, data: Seq<u8>) -> Seq<u8> {
        (self.machine.on_data)(self.state, data).1
    }

    pub open spec fn after_flush(self) -> Link {
        Link { state: (self.machine.on_flush)(self.state).0, ..self }
    }

    pub open spec fn flush_out(self) -> Seq<u8> {
        (self.machine.on_flush)(self.state).1
    }
}

/// The links after `data` has gone through all of them, first to last.
pub open spec fn links_after_data(links: Seq<Link>, data: Seq<u8>) -> Seq<Link>
    decreases links.len(),
{
    if links.len() == 0 {
        links
    } else {
        let through = links_data_out(links.drop_last(), data);
        links_after_data(links.drop_last(), data).push(links.last().after_data(through))
    }
}

/// What comes out of the last link when `data` enters the first.
pub open spec fn links_data_out(links: Seq<Link>, data: Seq<u8>) -> Seq<u8>
    decreases links.len(),
{
    if links.len() == 0 {
        data
    } else {
        links.last().data_out(links_data_out(links.drop_last(), data))
    }
}

/// The links after link `i` alone has been flushed through the links behind it.
pub open spec fn links_after_flush_one(links: Seq<Link>, i: int) -> Seq<Link> {
    let flushed = links[i].flush_out();
    let head = links.take(i).push(links[i].after_flush());
    if flushed.len() == 0 {
        head + links.skip(i + 1)
    } else {
        head + links_after_data(links.skip(i + 1), flushed)
    }
}

/// What comes out at the end when link `i` alone is flushed.
pub open spec fn links_flush_one_out(links: Seq<Link>, i: int) -> Seq<u8> {
    let flushed = links[i].flush_out();
    if flushed.len() == 0 {
        Seq::empty()
    } else {
        links_data_out(links.skip(i + 1), flushed)
    }
}

/// The links after the first `n` of them have been flushed, in order.
pub open spec fn links_after_flush(links: Seq<Link>, n: nat) -> Seq<Link>
    decreases n,
{
    if n == 0 {
        links
    } else {
        links_after_flush_one(links_after_flush(links, (n - 1) as nat), n - 1)
    }
}

/// Everything that comes out while the first `n` links are flushed, in order.
pub open spec fn links_flush_out(links: Seq<Link>, n: nat) -> Seq<u8>
    decreases n,
{
    if n == 0 {
        Seq::empty()
    } else {
        links_flush_out(links, (n - 1) as nat)
            + links_flush_one_out(links_after_flush(links, (n - 1) as nat), n - 1)
    }
}

/// A chain of output filters applied in sequence.
#[verifier::reject_recursive_types(F)]
pub struct FilterChain<F: OutputFilter + ?Sized = dyn OutputFilter> {
    filters: Vec<Box<F>>,
}

impl<F: OutputFilter + ?Sized> View for FilterChain<F> {
    type V = Seq<Link>;

    closed spec fn view(&self) -> Seq<Link> {
        Seq::new(self.filters@.len(), |i: int| Link {
            machine: self.filters@[i].machine(),
            state: self.filters@[i].state(),
        })
    }
}

impl FilterChain<dyn OutputFilter> {
    pub fn new() -> (chain: Self)
        ensures
            chain@ == Seq::<Link>::empty(),
    {
        Self::empty()
    }
}

impl<F: OutputFilter + ?Sized> FilterChain<F> {
    fn empty() -> (chain: Self)
        ensures
            chain@ == Seq::<Link>::empty(),
    {
        let chain = FilterChain { filters: Vec::new() };
        assert(chain@ =~= Seq::<Link>::empty());
        chain
    }

    /// Adds a filter behind those that are already there.
    pub fn push(&mut self, filter: Box<F>)
        ensures
            final(self)@ == old(self)@.push(
                Link { machine: filter.machine(), state: filter.state() },
            ),
    {
        let ghost link = Link { machine: filter.machine(), state: filter.state() };
        self.filters.push(filter);
        assert(self@ =~= old(self)@.push(link));
    }

    /// Sends `data` through the filters from `start` on.
    fn filter_from(&mut self, start: usize, data: Vec<u8>) -> (out: Vec<u8>)
        requires
            start <= old(self)@.len(),
        ensures
            final(self)@ == old(self)@.take(start as int) + links_after_data(
                old(self)@.skip(start as int),
                data@,
            ),
            final(self)@.len() == old(self)@.len(),
            out@ == links_data_out(old(self)@.skip(start as int), data@),
    {
        let ghost before = self@;
        let ghost tail = before.skip(start as int);
        let mut output = data;
        let mut i: usize = start;
        assert(tail.take(0) =~= Seq::<Link>::empty());
        assert(self@ =~= before.take(start as int) + links_after_data(tail.take(0), data@)
            + before.skip(start as int));
        while i < self.filters.len()
            invariant
                start <= i <= self.filters@.len(),
                before.len() == self.filters@.len(),
                tail == before.skip(start as int),
                links_after_data(tail.take(i - start), data@).len() == i - start,
                self@ == before.take(start as int) + links_after_data(tail.take(i - start), data@)
                    + before.skip(i as int),
                output@ == links_data_out(tail.take(i - start), data@),
            decreases self.filters@.len() - i,
        {
            let ghost current = self@;
            let ghost entering = output@;
            assert(current[i as int] == before[i as int]);
            output = self.filters[i].filter(output.as_slice());
            proof {
                let done = tail.take(i - start + 1);
                assert(done.drop_last() =~= tail.take(i - start));
                assert(done.last() == before[i as int]);
                assert(self@ =~= current.update(i as int, before[i as int].after_data(entering)));
                assert(self@ =~= before.take(start as int) + links_after_data(done, data@)
                    + before.skip(i + 1));
            }
            i += 1;
        }
        proof {
            assert(tail.take(i - start) =~= tail);
            assert(self@ =~= before.take(start as int) + links_after_data(tail, data@));
        }
        output
    }

    /// Sends `data` through all filters in order and returns what the last one lets out.
    pub fn filter(&mut self, data: &[u8]) -> (out: Vec<u8>)
        ensures
            final(self)@ == links_after_data(old(self)@, data@),
            out@ == links_data_out(old(self)@, data@),
    {
        let mut input: Vec<u8> = Vec::new();
        input.extend_from_slice(data);
        assert(input@ =~= data@);
        let out = self.filter_from(0, input);
        assert(old(self)@.skip(0) =~= old(self)@);
        assert(self@ =~= links_after_data(old(self)@, data@));
        out
    }

    /// Flushes each filter in order, sending what it held through the filters behind it.
    pub fn flush(&mut self) -> (out: Vec<u8>)
        ensures
            final(self)@ == links_after_flush(old(self)@, old(self)@.len()),
            out@ == links_flush_out(old(self)@, old(self)@.len()),
    {
        let ghost before = self@;
        let mut all_output: Vec<u8> = Vec::new();
        let mut i: usize = 0;
        while i < self.filters.len()
            invariant
                i <= self.filters@.len(),
                before.len() == self.filters@.len(),
                self@ == links_after_flush(before, i as nat),
                all_output@ == links_flush_out(before, i as nat),
            decreases self.filters@.len() - i,
        {
            let ghost current = self@;
            let flushed = self.filters[i].flush();
            let ghost freed = flushed@;
            let ghost middle = self@;
            assert(middle =~= current.update(i as int, current[i as int].after_flush()));
            assert(middle.take(i + 1) =~= current.take(i as int).push(
                current[i as int].after_flush(),
            ));
            assert(middle.skip(i + 1) =~= current.skip(i + 1));
            if flushed.len() > 0 {
                let mut out = self.filter_from(i + 1, flushed);
                all_output.append(&mut out);
            } else {
                assert(self@ =~= middle.take(i + 1) + middle.skip(i + 1));
                assert(freed.len() == 0);
            }
            proof {
                assert(self@ =~= links_after_flush_one(current, i as int));
                assert(all_output@ =~= links_flush_out(before, i as nat) + links_flush_one_out(
                    current,
                    i as int,
                ));
            }
            i += 1;
        }
        all_output
    }
}

impl Default for FilterChain<dyn OutputFilter> {
    fn default() -> (chain: Self)
        ensures
            chain@ == Seq::<Link>::empty(),
    {
        FilterChain::new()
    }
}

// ── Escape Sequence Assembler ──────────────────────────────────────

/// Maximum pending buffer size before safety-flush (8 KB).
pub const MAX_PENDING: usize = 8192;

/// Parser state for the ANSI escape sequence state machine.
#[derive(Debug, Clone, Copy, PartialEq, Eq, Structural)]
pub enum ParseState {
    /// Normal text — not inside any escape sequence.
    Ground,
    /// Received ESC (0x1B), waiting for the next byte.
    Escape,
    /// ESC followed by an intermediate byte (space, #, (, ), *, +)
    /// or SS2/SS3 (N, O). Waiting for one final byte.
    EscapeIntermediate,
    /// Inside a CSI sequence (ESC [). Reading parameter bytes.
    CsiParam,
    /// CSI intermediate bytes (0x20–0x2F) after parameters.
    CsiIntermediate,
    /// Inside an OSC string (ESC ]). Terminated by BEL or ST.
    OscString,
    /// Inside OSC, received ESC — checking for ST (ESC \).
    OscStringEsc,
    /// Inside a string command: DCS (ESC P), APC (ESC _),
    /// PM (ESC ^), or SOS (ESC X). Terminated by ST (ESC \).
    StringCommand,
    /// Inside string command, received ESC — checking for ST.
    StringCommandEsc,
}

/// The bytes that, right after ESC, announce exactly one more byte.
pub open spec fn wants_one_more(byte: u8) -> bool {
    byte == 0x20 || byte == 0x23 || 0x28 <= byte <= 0x2b || byte == 0x4e || byte == 0x4f
}

/// The bytes that, right after ESC, open a string that only ST ends: P, _, ^ and X.
pub open spec fn opens_string(byte: u8) -> bool {
    byte == 0x50 || byte == 0x5f || byte == 0x5e || byte == 0x58
}

/// One step of the escape sequence grammar.
pub open spec fn next_state(state: ParseState, byte: u8) -> ParseState {
    match state {
        ParseState::Ground => if byte == 0x1b {
            ParseState::Escape
        } else {
            ParseState::Ground
        },
        ParseState::Escape => if byte == 0x5b {
            ParseState::CsiParam
        } else if byte == 0x5d {
            ParseState::OscString
        } else if opens_string(byte) {
            ParseState::StringCommand
        } else if wants_one_more(byte) {
            ParseState::EscapeIntermediate
        } else {
            ParseState::Ground
        },
        ParseState::EscapeIntermediate => ParseState::Ground,
        ParseState::CsiParam => if 0x30 <= byte <= 0x3f {
            ParseState::CsiParam
        } else if 0x20 <= byte <= 0x2f {
            ParseState::CsiIntermediate
        } else {
            ParseState::Ground
        },
        ParseState::CsiIntermediate => if 0x20 <= byte <= 0x2f {
            ParseState::CsiIntermediate
        } else {
            ParseState::Ground
        },
        ParseState::OscString => if byte == 0x07 {
            ParseState::Ground
        } else if byte == 0x1b {
            ParseState::OscStringEsc
        } else {
            ParseState::OscString
        },
        ParseState::OscStringEsc => if byte == 0x5c {
            ParseState::Ground
        } else {
            ParseState::OscString
        },
        ParseState::StringCommand => if byte == 0x1b {
            ParseState::StringCommandEsc
        } else {
            ParseState::StringCommand
        },
        ParseState::StringCommandEsc => if byte == 0x5c {
            ParseState::Ground
        } else {
            ParseState::StringCommand
        },
    }
}

/// Where the grammar stands after `bytes`, read from normal text.
pub open spec fn state_after(bytes: Seq<u8>) -> ParseState
    decreases bytes.len(),
{
    if bytes.len() == 0 {
        ParseState::Ground
    } else {
        next_state(state_after(bytes.drop_last()), bytes.last())
    }
}

/// The length of the longest prefix of `bytes` that splits no escape sequence.
pub open spec fn safe_len(bytes: Seq<u8>) -> nat
    decreases bytes.len(),
{
    if state_after(bytes) == ParseState::Ground {
        bytes.len()
    } else {
        safe_len(bytes.drop_last())
    }
}

/// What the assembler holds back and lets out when `data` follows the bytes it holds.
pub open spec fn assemble(pending: Seq<u8>, data: Seq<u8>) -> (Seq<u8>, Seq<u8>) {
    let all = pending + data;
    if all.len() > MAX_PENDING {
        (Seq::empty(), all)
    } else {
        (all.skip(safe_len(all) as int), all.take(safe_len(all) as int))
    }
}

/// The assembler as a filter machine; its state is what it holds back.
pub open spec fn assembler_machine() -> Machine {
    Machine {
        on_data: |pending: Seq<u8>, data: Seq<u8>| assemble(pending, data),
        on_flush: |pending: Seq<u8>| (Seq::<u8>::empty(), pending),
    }
}

/// Ensures ANSI escape sequences are never split across writes.
///
/// Buffers any partial escape sequence at the end of a chunk and
/// prepends it to the next chunk, guaranteeing that only complete
/// sequences (or ground-state text) are written to the terminal.
pub struct EscapeSequenceAssembler {
    pub pending: Vec<u8>,
}

impl EscapeSequenceAssembler {
    pub fn new() -> (assembler: Self)
        ensures
            assembler.pending@ == Seq::<u8>::empty(),
    {
        EscapeSequenceAssembler { pending: Vec::new() }
    }

    fn step(state: ParseState, byte: u8) -> (next: ParseState)
        ensures
            next == next_state(state, byte),
    {
        match state {
            ParseState::Ground => if byte == 0x1b {
                ParseState::Escape
            } else {
                ParseState::Ground
            },
            ParseState::Escape => match byte {
                // [
                0x5b => ParseState::CsiParam,
                // ]
                0x5d => ParseState::OscString,
                // DCS, APC, PM, SOS
                0x50 | 0x5f | 0x5e | 0x58 => ParseState::StringCommand,
                // Intermediate bytes that need one more final byte
                0x20 | 0x23 | 0x28 | 0x29 | 0x2a | 0x2b => ParseState::EscapeIntermediate,
                // SS2/SS3: ESC N / ESC O followed by one character
                0x4e | 0x4f => ParseState::EscapeIntermediate,
                // Final byte of a two-character sequence, or unknown: complete
                _ => ParseState::Ground,
            },
            // After ESC + intermediate/SS2/SS3, the next byte completes the sequence
            ParseState::EscapeIntermediate => ParseState::Ground,
            ParseState::CsiParam => match byte {
                // Parameter bytes: 0–9 ; < = > ?
                0x30..=0x3f => ParseState::CsiParam,
                0x20..=0x2f => ParseState::CsiIntermediate,
                // Final byte, or invalid: the sequence is over
                _ => ParseState::Ground,
            },
            ParseState::CsiIntermediate => match byte {
                0x20..=0x2f => ParseState::CsiIntermediate,
                _ => ParseState::Ground,
            },
            ParseState::OscString => match byte {
                // BEL terminates OSC
                0x07 => ParseState::Ground,
                // ESC might be the start of ST (ESC \)
                0x1b => ParseState::OscStringEsc,
                _ => ParseState::OscString,
            },
            ParseState::OscStringEsc => if byte == 0x5c {
                ParseState::Ground
            } else {
                ParseState::OscString
            },
            ParseState::StringCommand => match byte {
                0x1b => ParseState::StringCommandEsc,
                _ => ParseState::StringCommand,
            },
            ParseState::StringCommandEsc => if byte == 0x5c {
                ParseState::Ground
            } else {
                ParseState::StringCommand
            },
        }
    }
}

impl Default for EscapeSequenceAssembler {
    fn default() -> (assembler: Self)
        ensures
            assembler.pending@ == Seq::<u8>::empty(),
    {
        EscapeSequenceAssembler::new()
    }
}

impl OutputFilter for EscapeSequenceAssembler {
    open spec fn machine(&self) -> Machine {
        assembler_machine()
    }

    open spec fn state(&self) -> Seq<u8> {
        self.pending@
    }

    fn filter(&mut self, data: &[u8]) -> (out: Vec<u8>)
        ensures
            (final(self).pending@, out@) == assemble(old(self).pending@, data@),
    {
        // Combine pending bytes with new data
        let mut combined: Vec<u8> = Vec::new();
        std::mem::swap(&mut combined, &mut self.pending);
        combined.extend_from_slice(data);
        assert(combined@ =~= old(self).pending@ + data@);

        // Safety valve: if the buffer is too large, let everything out
        if combined.len() > MAX_PENDING {
            return combined;
        }
        // Parse from Ground: pending bytes are always the start of an
        // incomplete sequence and get re-parsed from scratch.

        let mut state = ParseState::Ground;
        let mut safe_end: usize = 0;
        let mut i: usize = 0;
        while i < combined.len()
            invariant
                safe_end <= i <= combined@.len(),
                state == state_after(combined@.take(i as int)),
                safe_end == safe_len(combined@.take(i as int)),
            decreases combined@.len() - i,
        {
            assert(combined@.take(i + 1).drop_last() =~= combined@.take(i as int));
            state = Self::step(state, combined[i]);
            i += 1;
            if state == ParseState::Ground {
                safe_end = i;
            }
        }
        assert(combined@.take(i as int) =~= combined@);
        self.pending = combined.split_off(safe_end);
        combined
    }

    fn flush(&mut self) -> (out: Vec<u8>)
        ensures
            final(self).pending@ == Seq::<u8>::empty(),
            out@ == old(self).pending@,
    {
        let mut held: Vec<u8> = Vec::new();
        std::mem::swap(&mut held, &mut self.pending);
        held
    }
}

// ── Laws ───────────────────────────────────────────────────────────

proof fn lemma_safe_len(bytes: Seq<u8>)
    ensures
        safe_len(bytes) <= bytes.len(),
        state_after(bytes.take(safe_len(bytes) as int)) == ParseState::Ground,
        forall|k: int|
            safe_len(bytes) < k <= bytes.len() ==> state_after(#[trigger] bytes.take(k))
                != ParseState::Ground,
    decreases bytes.len(),
{
    assert(bytes.take(bytes.len() as int) =~= bytes);
    if state_after(bytes) != ParseState::Ground {
        let shorter = bytes.drop_last();
        lemma_safe_len(shorter);
        assert forall|k: int| safe_len(bytes) < k <= bytes.len() implies state_after(
            #[trigger] bytes.take(k),
        ) != ParseState::Ground by {
            if k < bytes.len() {
                assert(bytes.take(k) =~= shorter.take(k));
            }
        }
        assert(bytes.take(safe_len(bytes) as int) =~= shorter.take(safe_len(bytes) as int));
    }
}

/// Reading on from normal text is like starting afresh.
proof fn lemma_state_after_ground(head: Seq<u8>, tail: Seq<u8>)
    requires
        state_after(head) == ParseState::Ground,
    ensures
        state_after(head + tail) == state_after(tail),
    decreases tail.len(),
{
    if tail.len() == 0 {
        assert(head + tail =~= head);
    } else {
        lemma_state_after_ground(head, tail.drop_last());
        assert((head + tail).drop_last() =~= head + tail.drop_last());
    }
}

/// The safe length of `head + tail`, where `head` ends in normal text.
proof fn lemma_safe_len_ground(head: Seq<u8>, tail: Seq<u8>)
    requires
        state_after(head) == ParseState::Ground,
    ensures
        safe_len(head + tail) == head.len() + safe_len(tail),
    decreases tail.len(),
{
    lemma_state_after_ground(head, tail);
    if state_after(tail) != ParseState::Ground {
        assert((head + tail).drop_last() =~= head + tail.drop_last());
        lemma_safe_len_ground(head, tail.drop_last());
    }
}

/// The assembler never loses, adds or reorders a byte: what it lets out followed by what it
/// still holds is what it held followed by what came in.
pub proof fn assembler_keeps_every_byte(pending: Seq<u8>, data: Seq<u8>)
    ensures
        assemble(pending, data).1 + assemble(pending, data).0 == pending + data,
{
    lemma_safe_len(pending + data);
    let all = pending + data;
    assert(assemble(pending, data).1 + assemble(pending, data).0 =~= all);
}

/// Below the safety limit, what the assembler lets out ends outside any escape sequence, and
/// every byte it holds back is part of one unfinished sequence: no prefix of the held bytes,
/// however long, brings the grammar back to normal text.
pub proof fn assembler_never_splits_a_sequence(pending: Seq<u8>, data: Seq<u8>)
    requires
        (pending + data).len() <= MAX_PENDING,
    ensures
        state_after(assemble(pending, data).1) == ParseState::Ground,
        forall|k: int|
            0 < k <= assemble(pending, data).0.len() ==> state_after(
                #[trigger] assemble(pending, data).0.take(k),
            ) != ParseState::Ground,
{
    let all = pending + data;
    lemma_safe_len(all);
    let cut = safe_len(all) as int;
    let (held, out) = assemble(pending, data);
    assert forall|k: int| 0 < k <= held.len() implies state_after(#[trigger] held.take(k))
        != ParseState::Ground by {
        lemma_state_after_ground(out, held.take(k));
        assert(out + held.take(k) =~= all.take(cut + k));
    }
}

/// The bytes held back never exceed the safety limit.
pub proof fn assembler_buffer_is_bounded(pending: Seq<u8>, data: Seq<u8>)
    ensures
        assemble(pending, data).0.len() <= MAX_PENDING,
{
    lemma_safe_len(pending + data);
}

/// How the output is cut into chunks does not matter: as long as the safety limit is not
/// reached, two chunks one after the other give the same output, and leave the same bytes
/// held, as the two chunks joined.
pub proof fn assembler_ignores_chunk_borders(pending: Seq<u8>, first: Seq<u8>, second: Seq<u8>)
    requires
        (pending + first + second).len() <= MAX_PENDING,
    ensures
        ({
            let (held1, out1) = assemble(pending, first);
            let (held2, out2) = assemble(held1, second);
            assemble(pending, first + second) == (held2, out1 + out2)
        }),
{
    let (held1, out1) = assemble(pending, first);
    let (held2, out2) = assemble(held1, second);
    assembler_keeps_every_byte(pending, first);
    assembler_keeps_every_byte(held1, second);
    lemma_safe_len(pending + first);
    lemma_safe_len(held1 + second);
    let all = pending + (first + second);
    assert(all =~= out1 + (held1 + second));
    lemma_safe_len_ground(out1, held1 + second);
    assert(all.take(safe_len(all) as int) =~= out1 + out2);
    assert(all.skip(safe_len(all) as int) =~= held2);
}

/// A filter machine that only delays bytes: it keeps the bytes that it holds in its state,
/// and lets all of them out on a flush.
pub open spec fn only_delays(machine: Machine) -> bool {
    &&& forall|held: Seq<u8>, data: Seq<u8>|
        (#[trigger] (machine.on_data)(held, data)).1 + (machine.on_data)(held, data).0 == held
            + data
    &&& forall|held: Seq<u8>|
        #[trigger] (machine.on_flush)(held) == (Seq::<u8>::empty(), held)
}

/// The assembler only delays bytes.
pub proof fn assembler_only_delays()
    ensures
        only_delays(assembler_machine()),
{
    let machine = assembler_machine();
    assert forall|held: Seq<u8>, data: Seq<u8>|
        (#[trigger] (machine.on_data)(held, data)).1 + (machine.on_data)(held, data).0 == held
            + data by {
        assembler_keeps_every_byte(held, data);
    }
}

/// The bytes inside a chain, in the order in which they will leave it.
pub open spec fn held_in(links: Seq<Link>) -> Seq<u8>
    decreases links.len(),
{
    if links.len() == 0 {
        Seq::empty()
    } else {
        links.last().state + held_in(links.drop_last())
    }
}

/// Whether every filter of a chain only delays bytes.
pub open spec fn all_delay(links: Seq<Link>) -> bool {
    forall|i: int| 0 <= i < links.len() ==> only_delays(#[trigger] links[i].machine)
}

/// A chain of filters that only delay bytes is itself such a filter: what comes out followed
/// by what the chain still holds is what it held followed by what came in.
pub proof fn chain_keeps_every_byte(links: Seq<Link>, data: Seq<u8>)
    requires
        all_delay(links),
    ensures
        links_data_out(links, data) + held_in(links_after_data(links, data)) == held_in(links)
            + data,
        links_after_data(links, data).len() == links.len(),
        all_delay(links_after_data(links, data)),
    decreases links.len(),
{
    if links.len() == 0 {
        assert(links_data_out(links, data) + held_in(links_after_data(links, data)) =~= held_in(
            links,
        ) + data);
    } else {
        let front = links.drop_last();
        assert forall|i: int| 0 <= i < front.len() implies only_delays(
            #[trigger] front[i].machine,
        ) by {
            assert(links[i].machine == front[i].machine);
        }
        chain_keeps_every_byte(front, data);
        let through = links_data_out(front, data);
        let after = links_after_data(links, data);
        let last = links.last();
        assert(only_delays(links[links.len() - 1].machine));
        assert(after.drop_last() =~= links_after_data(front, data));
        assert(after.last() == last.after_data(through));
        assert(last.data_out(through) + last.after_data(through).state == last.state + through);
        assert(links_data_out(links, data) + held_in(after) =~= (last.data_out(through)
            + last.after_data(through).state) + held_in(links_after_data(front, data)));
        assert((last.state + through) + held_in(links_after_data(front, data)) =~= last.state + (
        through + held_in(links_after_data(front, data))));
        assert(held_in(links) + data =~= last.state + (held_in(front) + data));
        assert forall|i: int| 0 <= i < after.len() implies only_delays(
            #[trigger] after[i].machine,
        ) by {
            if i < front.len() {
                assert(only_delays(links_after_data(front, data)[i].machine));
            }
        }
    }
}

proof fn lemma_held_split(head: Seq<Link>, tail: Seq<Link>)
    ensures
        held_in(head + tail) == held_in(tail) + held_in(head),
    decreases tail.len(),
{
    if tail.len() == 0 {
        assert(head + tail =~= head);
        assert(held_in(tail) + held_in(head) =~= held_in(head));
    } else {
        lemma_held_split(head, tail.drop_last());
        assert((head + tail).drop_last() =~= head + tail.drop_last());
        assert(held_in(head + tail) =~= held_in(tail) + held_in(head));
    }
}

proof fn lemma_held_nothing(links: Seq<Link>)
    requires
        forall|i: int| 0 <= i < links.len() ==> (#[trigger] links[i]).state.len() == 0,
    ensures
        held_in(links) == Seq::<u8>::empty(),
    decreases links.len(),
{
    if links.len() > 0 {
        let front = links.drop_last();
        assert forall|i: int| 0 <= i < front.len() implies (#[trigger] front[i]).state.len()
            == 0 by {
            assert(links[i].state.len() == 0);
        }
        lemma_held_nothing(front);
        assert(links[links.len() - 1].state.len() == 0);
        assert(held_in(links) =~= Seq::<u8>::empty());
    }
}

/// Flushing the first `n` filters lets out, in order, what the chain still owed, and empties
/// those filters.
proof fn lemma_flush_prefix(links: Seq<Link>, n: nat)
    requires
        all_delay(links),
        n <= links.len(),
    ensures
        links_after_flush(links, n).len() == links.len(),
        all_delay(links_after_flush(links, n)),
        links_flush_out(links, n) + held_in(links_after_flush(links, n)) == held_in(links),
        forall|i: int|
            0 <= i < n ==> (#[trigger] links_after_flush(links, n)[i]).state == Seq::<
                u8,
            >::empty(),
    decreases n,
{
    if n == 0 {
        assert(links_flush_out(links, n) + held_in(links_after_flush(links, n)) =~= held_in(links));
    } else {
        let i = n - 1;
        lemma_flush_prefix(links, i as nat);
        let before = links_after_flush(links, i as nat);
        let after = links_after_flush(links, n);
        let flushed = before[i].flush_out();
        let head = before.take(i).push(before[i].after_flush());
        let tail = before.skip(i + 1);
        assert(only_delays(before[i].machine));
        assert((before[i].machine.on_flush)(before[i].state) == (
            Seq::<u8>::empty(),
            before[i].state,
        ));
        assert(flushed == before[i].state);
        assert forall|k: int| 0 <= k < tail.len() implies only_delays(
            #[trigger] tail[k].machine,
        ) by {
            assert(only_delays(before[i + 1 + k].machine));
        }
        let new_tail = if flushed.len() == 0 {
            tail
        } else {
            links_after_data(tail, flushed)
        };
        let out = links_flush_one_out(before, i);
        chain_keeps_every_byte(tail, flushed);
        if flushed.len() == 0 {
            assert(out + held_in(new_tail) =~= held_in(tail) + flushed);
        }
        assert(out + held_in(new_tail) == held_in(tail) + flushed);
        assert(after == head + new_tail);
        assert(before =~= before.take(i).push(before[i]) + tail);
        lemma_held_split(head, new_tail);
        lemma_held_split(before.take(i).push(before[i]), tail);
        assert(head.drop_last() =~= before.take(i));
        assert(before.take(i).push(before[i]).drop_last() =~= before.take(i));
        lemma_held_nothing(before.take(i));
        assert(held_in(head) =~= Seq::<u8>::empty());
        assert(held_in(before.take(i).push(before[i])) =~= flushed);
        assert(out + held_in(after) =~= held_in(before));
        assert(links_flush_out(links, n) + held_in(after) =~= links_flush_out(links, i as nat) + (
        out + held_in(after)));
        assert forall|k: int| 0 <= k < after.len() implies only_delays(
            #[trigger] after[k].machine,
        ) by {
            if k <= i {
                assert(only_delays(before[k].machine));
            } else {
                assert(only_delays(new_tail[k - i - 1].machine));
            }
        }
        assert forall|k: int| 0 <= k < n implies (#[trigger] after[k]).state == Seq::<
            u8,
        >::empty() by {
            if k < i {
                assert(after[k] == before[k]);
            } else {
                assert(after[k] == before[i].after_flush());
            }
        }
    }
}

/// At the end of a session nothing is lost: flushing a chain of filters that only delay bytes
/// lets out exactly the bytes that the chain held, in order, and leaves it empty.
pub proof fn chain_flush_lets_everything_out(links: Seq<Link>)
    requires
        all_delay(links),
    ensures
        links_flush_out(links, links.len()) == held_in(links),
        held_in(links_after_flush(links, links.len())) == Seq::<u8>::empty(),
{
    lemma_flush_prefix(links, links.len());
    lemma_held_nothing(links_after_flush(links, links.len()));
    assert(links_flush_out(links, links.len()) =~= held_in(links));
}

/// Whether every byte lies between two others.
pub open spec fn all_between(bytes: Seq<u8>, low: u8, high: u8) -> bool {
    forall|i: int| 0 <= i < bytes.len() ==> low <= #[trigger] bytes[i] <= high
}

proof fn lemma_stays(before: Seq<u8>, more: Seq<u8>, state: ParseState, low: u8, high: u8)
    requires
        state_after(before) == state,
        all_between(more, low, high),
        forall|b: u8| low <= b <= high ==> #[trigger] next_state(state, b) == state,
    ensures
        state_after(before + more) == state,
    decreases more.len(),
{
    if more.len() == 0 {
        assert(before + more =~= before);
    } else {
        let front = more.drop_last();
        assert forall|i: int| 0 <= i < front.len() implies low <= #[trigger] front[i] <= high by {
            assert(front[i] == more[i]);
        }
        lemma_stays(before, front, state, low, high);
        assert((before + more).drop_last() =~= before + front);
        assert(next_state(state, more.last()) == state);
    }
}

/// Output without an escape is never held back: it begins no sequence.
pub proof fn plain_output_is_no_sequence(before: Seq<u8>, plain: Seq<u8>)
    requires
        state_after(before) == ParseState::Ground,
        forall|i: int| 0 <= i < plain.len() ==> #[trigger] plain[i] != 0x1b,
    ensures
        state_after(before + plain) == ParseState::Ground,
    decreases plain.len(),
{
    if plain.len() == 0 {
        assert(before + plain =~= before);
    } else {
        let front = plain.drop_last();
        assert forall|i: int| 0 <= i < front.len() implies #[trigger] front[i] != 0x1b by {
            assert(front[i] == plain[i]);
        }
        plain_output_is_no_sequence(before, front);
        assert((before + plain).drop_last() =~= before + front);
    }
}

/// A control sequence goes from its escape and bracket over its parameters, and what stands
/// between them and its end, to its last byte, and not a byte further.
pub proof fn control_sequences_end_with_their_last_byte(
    before: Seq<u8>,
    params: Seq<u8>,
    inner: Seq<u8>,
    last: u8,
)
    requires
        state_after(before) == ParseState::Ground,
        all_between(params, 0x30, 0x3f),
        all_between(inner, 0x20, 0x2f),
        0x40 <= last <= 0x7e,
    ensures
        ({
            let begun = before.push(0x1b);
            let open = begun.push(0x5b);
            &&& state_after(begun) != ParseState::Ground
            &&& state_after(open) != ParseState::Ground
            &&& state_after(open + params) != ParseState::Ground
            &&& state_after(open + params + inner) != ParseState::Ground
            &&& state_after((open + params + inner).push(last)) == ParseState::Ground
        }),
{
    let begun = before.push(0x1b);
    let open = begun.push(0x5b);
    assert(begun.drop_last() =~= before);
    assert(open.drop_last() =~= begun);
    assert(state_after(open) == ParseState::CsiParam);
    lemma_stays(open, params, ParseState::CsiParam, 0x30, 0x3f);
    let head = open + params;
    if inner.len() == 0 {
        assert(head + inner =~= head);
    } else {
        let first = head.push(inner[0]);
        assert(first.drop_last() =~= head);
        assert(state_after(first) == ParseState::CsiIntermediate);
        let rest = inner.skip(1);
        assert forall|i: int| 0 <= i < rest.len() implies 0x20 <= #[trigger] rest[i] <= 0x2f by {
            assert(rest[i] == inner[i + 1]);
        }
        lemma_stays(first, rest, ParseState::CsiIntermediate, 0x20, 0x2f);
        assert(first + rest =~= head + inner);
    }
    assert((head + inner).push(last).drop_last() =~= head + inner);
}

proof fn lemma_stays_open(before: Seq<u8>, text: Seq<u8>, state: ParseState)
    requires
        state_after(before) == state,
        state == ParseState::OscString || state == ParseState::StringCommand,
        forall|i: int| 0 <= i < text.len() ==> #[trigger] text[i] != 0x1b && text[i] != 0x07,
    ensures
        state_after(before + text) == state,
    decreases text.len(),
{
    if text.len() == 0 {
        assert(before + text =~= before);
    } else {
        let front = text.drop_last();
        assert forall|i: int| 0 <= i < front.len() implies #[trigger] front[i] != 0x1b && front[i]
            != 0x07 by {
            assert(front[i] == text[i]);
        }
        lemma_stays_open(before, front, state);
        assert((before + text).drop_last() =~= before + front);
    }
}

/// A command to the system goes on until a bell or until an escape with a backslash, and so do
/// the other strings, save that no bell ends these.
pub proof fn strings_end_with_their_terminator(before: Seq<u8>, opening: u8, text: Seq<u8>)
    requires
        state_after(before) == ParseState::Ground,
        opening == 0x5d || opening == 0x50 || opening == 0x58 || opening == 0x5e || opening == 0x5f,
        forall|i: int| 0 <= i < text.len() ==> #[trigger] text[i] != 0x1b && text[i] != 0x07,
    ensures
        ({
            let open = before.push(0x1b).push(opening) + text;
            &&& state_after(open) != ParseState::Ground
            &&& state_after(open.push(0x07)) == ParseState::Ground <==> opening == 0x5d
            &&& state_after(open.push(0x1b)) != ParseState::Ground
            &&& state_after(open.push(0x1b).push(0x5c)) == ParseState::Ground
            &&& state_after(open.push(0x1b).push(0x41)) == state_after(open)
        }),
{
    let begun = before.push(0x1b);
    let first = begun.push(opening);
    assert(begun.drop_last() =~= before);
    assert(state_after(begun) == ParseState::Escape);
    assert(first.drop_last() =~= begun);
    assert(state_after(first) == next_state(ParseState::Escape, opening));
    lemma_stays_open(first, text, state_after(first));
    let open = first + text;
    assert(open.push(0x07).drop_last() =~= open);
    assert(open.push(0x1b).drop_last() =~= open);
    assert(state_after(open.push(0x07)) == next_state(state_after(open), 0x07));
    assert(state_after(open.push(0x1b)) == next_state(state_after(open), 0x1b));
    assert(open.push(0x1b).push(0x5c).drop_last() =~= open.push(0x1b));
    assert(open.push(0x1b).push(0x41).drop_last() =~= open.push(0x1b));
}

/// Choosing a character set takes one byte after the bracket, and any other escape is over with
/// the byte behind it.
pub proof fn short_escapes_end_early(before: Seq<u8>, byte: u8, next: u8)
    requires
        state_after(before) == ParseState::Ground,
    ensures
        ({
            let one = before.push(0x1b).push(byte);
            let set = 0x28 <= byte <= 0x2b;
            let key = byte == 0x37 || byte == 0x38 || byte == 0x3d || byte == 0x3e || byte == 0x4d
                || byte == 0x63;
            &&& set ==> state_after(one) != ParseState::Ground
            &&& set ==> state_after(one.push(next)) == ParseState::Ground
            &&& key ==> state_after(one) == ParseState::Ground
        }),
{
    let begun = before.push(0x1b);
    assert(begun.drop_last() =~= before);
    assert(state_after(begun) == ParseState::Escape);
    let one = begun.push(byte);
    assert(one.drop_last() =~= begun);
    assert(state_after(one) == next_state(ParseState::Escape, byte));
    assert(one.push(next).drop_last() =~= one);
    assert(state_after(one.push(next)) == next_state(state_after(one), next));
}

} // verus!
