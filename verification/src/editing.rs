//! Editing one line of text at a cursor.
//!
//! A cursor is a byte offset into the text's UTF-8 form. It always stands between two
//! characters, so contracts speak of it as the number of characters before it.

use vstd::prelude::*;

use crate::text::{chars_of, copy_of, string_of};

verus! {

/// The length of a text in bytes.
pub open spec fn byte_len(text: Seq<char>) -> nat {
    vstd::utf8::encode_utf8(text).len()
}

/// Whether the byte offset `pos` stands right behind the first `k` characters of `text`.
pub open spec fn stands_at(text: Seq<char>, pos: int, k: int) -> bool {
    0 <= k <= text.len() && byte_len(text.take(k)) == pos
}

/// Whether the byte offset `pos` stands between two characters of `text`, or at an end.
pub open spec fn cursor_ok(text: Seq<char>, pos: int) -> bool {
    exists|k: int| stands_at(text, pos, k)
}

/// How many characters of `text` stand before the cursor.
pub open spec fn cursor(text: Seq<char>, pos: int) -> int {
    choose|k: int| stands_at(text, pos, k)
}

/// A text and a place in it.
#[verifier::ext_equal]
pub ghost struct Edit {
    pub text: Seq<char>,
    pub at: int,
}

/// The text and the cursor's place, for a cursor that is in order.
pub open spec fn edit(text: Seq<char>, pos: usize) -> Edit {
    Edit { text, at: cursor(text, pos as int) }
}

impl Edit {
    /// `inserted` is put in at the cursor, which goes behind it.
    pub open spec fn inserted(self, inserted: Seq<char>) -> Edit {
        Edit {
            text: self.text.take(self.at) + inserted + self.text.skip(self.at),
            at: self.at + inserted.len(),
        }
    }

    /// The character before the cursor is removed, if there is one.
    pub open spec fn erased(self) -> Edit {
        if self.at > 0 {
            Edit { text: self.text.remove(self.at - 1), at: self.at - 1 }
        } else {
            self
        }
    }

    pub open spec fn left(self) -> Edit {
        if self.at > 0 {
            Edit { at: self.at - 1, ..self }
        } else {
            self
        }
    }

    pub open spec fn right(self) -> Edit {
        if self.at < self.text.len() {
            Edit { at: self.at + 1, ..self }
        } else {
            self
        }
    }
}

/// What a paste into one line leaves of a text: everything but line ends.
pub open spec fn one_line(s: Seq<char>) -> Seq<char>
    decreases s.len(),
{
    if s.len() == 0 {
        s
    } else if s.last() == '\n' || s.last() == '\r' {
        one_line(s.drop_last())
    } else {
        one_line(s.drop_last()).push(s.last())
    }
}

// ── Byte offsets and characters ────────────────────────────────────

pub proof fn lemma_encode_concat(a: Seq<char>, b: Seq<char>)
    ensures
        vstd::utf8::encode_utf8(a + b) == vstd::utf8::encode_utf8(a) + vstd::utf8::encode_utf8(b),
        byte_len(a + b) == byte_len(a) + byte_len(b),
    decreases a.len(),
{
    if a.len() == 0 {
        assert(a + b =~= b);
        assert(vstd::utf8::encode_utf8(a) + vstd::utf8::encode_utf8(b) =~= vstd::utf8::encode_utf8(b));
    } else {
        lemma_encode_concat(a.drop_first(), b);
        assert((a + b).drop_first() =~= a.drop_first() + b);
        assert(vstd::utf8::encode_utf8(a + b) =~= vstd::utf8::encode_utf8(a) + vstd::utf8::encode_utf8(b));
    }
}

proof fn lemma_longer_has_more_bytes(text: Seq<char>)
    ensures
        text.len() > 0 ==> byte_len(text) > 0,
{
}

/// Two places with the same byte offset are the same place.
pub proof fn lemma_place_is_unique(text: Seq<char>, pos: int, j: int, k: int)
    requires
        stands_at(text, pos, j),
        stands_at(text, pos, k),
    ensures
        j == k,
{
    if j < k {
        let middle = text.subrange(j, k);
        assert(text.take(k) =~= text.take(j) + middle);
        lemma_encode_concat(text.take(j), middle);
        lemma_longer_has_more_bytes(middle);
    } else if k < j {
        let middle = text.subrange(k, j);
        assert(text.take(j) =~= text.take(k) + middle);
        lemma_encode_concat(text.take(k), middle);
        lemma_longer_has_more_bytes(middle);
    }
}

/// The place that a byte offset stands at, by a witness.
pub proof fn lemma_cursor_is(text: Seq<char>, pos: int, k: int)
    requires
        stands_at(text, pos, k),
    ensures
        cursor_ok(text, pos),
        cursor(text, pos) == k,
{
    lemma_place_is_unique(text, pos, cursor(text, pos), k);
}

proof fn lemma_boundary(text: Seq<char>, k: int)
    requires
        0 <= k <= text.len(),
    ensures
        vstd::utf8::is_char_boundary(vstd::utf8::encode_utf8(text), byte_len(text.take(k)) as int),
    decreases k,
{
    vstd::utf8::encode_utf8_valid_utf8(text);
    if k == 0 {
        assert(text.take(0) =~= Seq::<char>::empty());
    } else {
        vstd::utf8::encode_utf8_first_scalar(text);
        lemma_boundary(text.drop_first(), k - 1);
        assert(vstd::utf8::pop_first_scalar(vstd::utf8::encode_utf8(text))
            =~= vstd::utf8::encode_utf8(text.drop_first()));
        assert(text.take(k).drop_first() =~= text.drop_first().take(k - 1));
        assert(text =~= text.take(k) + text.skip(k));
        lemma_encode_concat(text.take(k), text.skip(k));
    }
}

/// The text before and the text behind the cursor.
fn split_at_cursor(input: &str, pos: usize) -> (halves: (&str, &str))
    requires
        cursor_ok(input@, pos as int),
    ensures
        halves.0@ == input@.take(cursor(input@, pos as int)),
        halves.1@ == input@.skip(cursor(input@, pos as int)),
{
    let ghost text = input@;
    let ghost k = cursor(text, pos as int);
    proof {
        lemma_boundary(text, k);
        assert(text =~= text.take(k) + text.skip(k));
        lemma_encode_concat(text.take(k), text.skip(k));
    }
    let (a, b) = input.split_at(pos);
    proof {
        vstd::utf8::encode_utf8_decode_utf8(a@);
        vstd::utf8::encode_utf8_decode_utf8(b@);
        vstd::utf8::encode_utf8_decode_utf8(text.take(k));
        vstd::utf8::encode_utf8_decode_utf8(text.skip(k));
        assert(vstd::utf8::encode_utf8(a@) =~= vstd::utf8::encode_utf8(text.take(k)));
        assert(vstd::utf8::encode_utf8(b@) =~= vstd::utf8::encode_utf8(text.skip(k)));
    }
    (a, b)
}

/// The length of a string in bytes.
fn bytes_in(s: &str) -> (n: usize)
    ensures
        n == byte_len(s@),
{
    s.as_bytes().len()
}

/// A cursor at the very start or the very end is in order.
pub proof fn lemma_cursor_ends(text: Seq<char>)
    ensures
        stands_at(text, 0, 0),
        stands_at(text, byte_len(text) as int, text.len() as int),
        cursor_ok(text, 0),
        cursor_ok(text, byte_len(text) as int),
        cursor(text, 0) == 0,
        cursor(text, byte_len(text) as int) == text.len(),
{
    assert(text.take(0) =~= Seq::<char>::empty());
    assert(text.take(text.len() as int) =~= text);
    lemma_cursor_is(text, 0, 0);
    lemma_cursor_is(text, byte_len(text) as int, text.len() as int);
}

// ── Operations ─────────────────────────────────────────────────────

/// Puts `inserted` in at the cursor, which goes behind it.
pub fn insert_text(input: &mut String, pos: &mut usize, inserted: &str)
    requires
        cursor_ok(old(input)@, *old(pos) as int),
    ensures
        cursor_ok(final(input)@, *final(pos) as int),
        edit(final(input)@, *final(pos)) == edit(old(input)@, *old(pos)).inserted(inserted@),
{
    let ghost before = edit(input@, *pos);
    let mut text = String::new();
    let (a, b) = split_at_cursor(input.as_str(), *pos);
    text.push_str(a);
    text.push_str(inserted);
    let new_pos = bytes_in(text.as_str());
    let ghost head = text@;
    text.push_str(b);
    proof {
        let after = before.inserted(inserted@);
        assert(head =~= before.text.take(before.at) + inserted@);
        assert(text@ =~= after.text);
        assert(text@.take(after.at) =~= head);
        lemma_cursor_is(text@, new_pos as int, after.at);
    }
    *input = text;
    *pos = new_pos;
}

/// Puts one character in at the cursor, which goes behind it.
pub fn insert_char(input: &mut String, pos: &mut usize, c: char)
    requires
        cursor_ok(old(input)@, *old(pos) as int),
    ensures
        cursor_ok(final(input)@, *final(pos) as int),
        edit(final(input)@, *final(pos)) == edit(old(input)@, *old(pos)).inserted(seq![c]),
{
    let mut s = String::new();
    s.push(c);
    assert(s@ =~= seq![c]);
    insert_text(input, pos, s.as_str());
}

/// A text without its line ends.
pub fn one_line_of(text: &str) -> (s: String)
    ensures
        s@ == one_line(text@),
{
    let chars = chars_of(text);
    let mut s = String::new();
    let mut i: usize = 0;
    assert(chars@.take(0) =~= Seq::<char>::empty());
    while i < chars.len()
        invariant
            i <= chars@.len(),
            chars@ == text@,
            s@ == one_line(chars@.take(i as int)),
        decreases chars@.len() - i,
    {
        let c = chars[i];
        assert(chars@.take(i + 1).drop_last() =~= chars@.take(i as int));
        if !(c == '\n' || c == '\r') {
            s.push(c);
        }
        i += 1;
    }
    assert(chars@.take(i as int) =~= chars@);
    s
}

/// Pastes a text into one line: its line ends are left out.
pub fn paste(input: &mut String, pos: &mut usize, text: &str)
    requires
        cursor_ok(old(input)@, *old(pos) as int),
    ensures
        cursor_ok(final(input)@, *final(pos) as int),
        edit(final(input)@, *final(pos)) == edit(old(input)@, *old(pos)).inserted(
            one_line(text@),
        ),
{
    let s = one_line_of(text);
    insert_text(input, pos, s.as_str());
}

/// Where the cursor stands after one step to the left.
fn pos_before(a: &str) -> (pos: usize)
    requires
        a@.len() > 0,
    ensures
        pos == byte_len(a@.drop_last()),
{
    let chars = chars_of(a);
    let shorter = string_of(chars.as_slice(), 0, chars.len() - 1);
    assert(shorter@ =~= a@.drop_last());
    bytes_in(shorter.as_str())
}

/// Moves the cursor one character to the left, if there is one.
pub fn move_left(input: &String, pos: &mut usize)
    requires
        cursor_ok(input@, *old(pos) as int),
    ensures
        cursor_ok(input@, *final(pos) as int),
        edit(input@, *final(pos)) == edit(input@, *old(pos)).left(),
{
    let ghost before = edit(input@, *pos);
    let (a, _b) = split_at_cursor(input.as_str(), *pos);
    if !a.is_empty() {
        *pos = pos_before(a);
        proof {
            assert(a@.drop_last() =~= input@.take(before.at - 1));
            lemma_cursor_is(input@, *pos as int, before.at - 1);
        }
    }
}

/// Moves the cursor one character to the right, if there is one.
pub fn move_right(input: &String, pos: &mut usize)
    requires
        cursor_ok(input@, *old(pos) as int),
    ensures
        cursor_ok(input@, *final(pos) as int),
        edit(input@, *final(pos)) == edit(input@, *old(pos)).right(),
{
    let ghost before = edit(input@, *pos);
    let (a, b) = split_at_cursor(input.as_str(), *pos);
    if !b.is_empty() {
        let mut longer = String::new();
        longer.push_str(a);
        longer.push(b.get_char(0));
        *pos = bytes_in(longer.as_str());
        proof {
            assert(longer@ =~= input@.take(before.at + 1));
            lemma_cursor_is(input@, *pos as int, before.at + 1);
        }
    }
}

/// Removes the character before the cursor, if there is one.
///
/// Returns whether there was one.
pub fn backspace(input: &mut String, pos: &mut usize) -> (erased: bool)
    requires
        cursor_ok(old(input)@, *old(pos) as int),
    ensures
        cursor_ok(final(input)@, *final(pos) as int),
        edit(final(input)@, *final(pos)) == edit(old(input)@, *old(pos)).erased(),
        erased == (edit(old(input)@, *old(pos)).at > 0),
        !erased ==> *final(input) == *old(input) && *final(pos) == *old(pos),
{
    let ghost before = edit(input@, *pos);
    let mut text = String::new();
    let (a, b) = split_at_cursor(input.as_str(), *pos);
    if a.is_empty() {
        return false;
    }
    let chars = chars_of(a);
    let shorter = string_of(chars.as_slice(), 0, chars.len() - 1);
    let new_pos = bytes_in(shorter.as_str());
    text.push_str(shorter.as_str());
    text.push_str(b);
    proof {
        let after = before.erased();
        assert(shorter@ =~= before.text.take(before.at - 1));
        assert(text@ =~= after.text);
        assert(text@.take(after.at) =~= shorter@);
        lemma_cursor_is(text@, new_pos as int, after.at);
    }
    *input = text;
    *pos = new_pos;
    true
}

/// Which character the cursor stands before.
pub fn char_index(input: &str, pos: usize) -> (at: usize)
    requires
        cursor_ok(input@, pos as int),
    ensures
        at == cursor(input@, pos as int),
        at <= input@.len(),
{
    let (before, _after) = split_at_cursor(input, pos);
    before.unicode_len()
}

/// A text with a cursor in it: what stands before the cursor, the character below it, and what
/// follows. At the end the cursor stands on a space.
#[verifier::ext_equal]
pub ghost struct AtCursor {
    pub before: Seq<char>,
    pub below: Seq<char>,
    pub after: Seq<char>,
}

pub open spec fn at_cursor(text: Seq<char>, at: int) -> AtCursor {
    if at < text.len() {
        AtCursor { before: text.take(at), below: seq![text[at]], after: text.skip(at + 1) }
    } else {
        AtCursor { before: text.take(at), below: " "@, after: ""@ }
    }
}

/// The three parts of a text around its cursor.
pub fn around_cursor(text: &str, pos: usize) -> (parts: (String, String, String))
    requires
        cursor_ok(text@, pos as int),
    ensures
        ({
            let e = edit(text@, pos);
            let a = at_cursor(e.text, e.at);
            parts.0@ == a.before && parts.1@ == a.below && parts.2@ == a.after
        }),
{
    let chars = chars_of(text);
    let at = char_index(text, pos);
    let before = string_of(chars.as_slice(), 0, at);
    assert(before@ =~= text@.take(at as int));
    if at < chars.len() {
        let below = string_of(chars.as_slice(), at, at + 1);
        let after = string_of(chars.as_slice(), at + 1, chars.len());
        assert(below@ =~= seq![text@[at as int]]);
        assert(after@ =~= text@.skip(at + 1));
        (before, below, after)
    } else {
        (before, copy_of(" "), copy_of(""))
    }
}

// ── Laws ───────────────────────────────────────────────────────────

/// Erasing undoes typing: after a character has been typed, one backspace gives back the text
/// and the cursor.
pub proof fn backspace_undoes_typing(e: Edit, c: char)
    requires
        0 <= e.at <= e.text.len(),
    ensures
        e.inserted(seq![c]).erased() == e,
{
    assert(e.inserted(seq![c]).erased() =~= e);
}

/// A step to the left and one to the right cancel out, away from the ends.
pub proof fn left_and_right_cancel(e: Edit)
    requires
        0 <= e.at <= e.text.len(),
    ensures
        e.at > 0 ==> e.left().right() == e,
        e.at < e.text.len() ==> e.right().left() == e,
        e.left().text == e.text,
        e.right().text == e.text,
{
}

/// Inserting two texts one after the other is inserting them joined; so typing a text
/// character by character is pasting it.
pub proof fn inserting_piecewise_is_inserting(e: Edit, a: Seq<char>, b: Seq<char>)
    requires
        0 <= e.at <= e.text.len(),
    ensures
        e.inserted(a).inserted(b) == e.inserted(a + b),
{
    assert(e.inserted(a).inserted(b) =~= e.inserted(a + b));
}

/// A pasted line holds no line ends.
pub proof fn pasted_line_has_no_line_ends(s: Seq<char>)
    ensures
        forall|i: int|
            0 <= i < one_line(s).len() ==> one_line(s)[i] != '\n' && one_line(s)[i] != '\r',
        one_line(s).len() <= s.len(),
    decreases s.len(),
{
    if s.len() > 0 {
        pasted_line_has_no_line_ends(s.drop_last());
    }
}

/// What is typed stands before the cursor, right behind what stood there, and what followed still
/// follows.
pub proof fn typing_goes_in_at_the_cursor(e: Edit, more: Seq<char>)
    requires
        0 <= e.at <= e.text.len(),
    ensures
        ({
            let t = e.inserted(more);
            &&& t.text.len() == e.text.len() + more.len()
            &&& t.text.take(e.at) == e.text.take(e.at)
            &&& t.text.subrange(e.at, t.at) == more
            &&& t.text.skip(t.at) == e.text.skip(e.at)
            &&& t.at == e.at + more.len()
        }),
{
    let t = e.inserted(more);
    assert(t.text.take(e.at) =~= e.text.take(e.at));
    assert(t.text.subrange(e.at, t.at) =~= more);
    assert(t.text.skip(t.at) =~= e.text.skip(e.at));
}

/// Erasing takes the one character before the cursor, and at the start nothing.
pub proof fn erasing_takes_the_character_before(e: Edit)
    requires
        0 <= e.at <= e.text.len(),
    ensures
        e.at == 0 ==> e.erased() == e,
        e.at > 0 ==> e.erased().text == e.text.take(e.at - 1) + e.text.skip(e.at) && e.erased().at
            == e.at - 1,
{
    if e.at > 0 {
        assert(e.erased().text =~= e.text.take(e.at - 1) + e.text.skip(e.at));
    }
}

/// The cursor goes left and right by one character and stops at the ends.
pub proof fn cursor_steps_by_characters(e: Edit)
    requires
        0 <= e.at <= e.text.len(),
    ensures
        e.at > 0 ==> e.left().at == e.at - 1,
        e.at == 0 ==> e.left().at == 0,
        e.at < e.text.len() ==> e.right().at == e.at + 1,
        e.at == e.text.len() ==> e.right().at == e.at,
{
}

/// Only line ends are lost from a pasted line: every other character stays, in its place among
/// the others.
pub proof fn pasting_loses_line_ends_alone(s: Seq<char>, c: char)
    ensures
        c != '\n' && c != '\r' ==> one_line(s.push(c)) == one_line(s).push(c),
        c == '\n' || c == '\r' ==> one_line(s.push(c)) == one_line(s),
        one_line(Seq::empty()) == Seq::<char>::empty(),
{
    assert(s.push(c).drop_last() =~= s);
}

/// What is shown around the cursor is the text: what comes before it, the character below it, or a
/// blank at the end, and what follows.
pub proof fn cursor_stands_in_its_text(text: Seq<char>, at: int)
    requires
        0 <= at <= text.len(),
    ensures
        ({
            let shown = at_cursor(text, at);
            &&& shown.before == text.take(at)
            &&& shown.below.len() == 1
            &&& at < text.len() ==> shown.before + shown.below + shown.after == text
            &&& at == text.len() ==> shown.before == text && shown.below[0] == ' '
                && shown.after.len() == 0
        }),
{
    reveal_strlit(" ");
    reveal_strlit("");
    let shown = at_cursor(text, at);
    if at < text.len() {
        assert(shown.before + shown.below + shown.after =~= text);
    } else {
        assert(text.take(at) =~= text);
    }
}

} // verus!
