//! Text helpers: strings as sequences of characters.

use vstd::prelude::*;

verus! {

/// `String::push` appends one character.
pub assume_specification[ String::push ](s: &mut String, c: char)
    ensures
        final(s)@ == old(s)@.push(c),
;

/// `String::push_str` appends the whole of another string.
pub assume_specification[ String::push_str ](s: &mut String, other: &str)
    ensures
        final(s)@ == old(s)@ + other@,
;

// ── Characters ─────────────────────────────────────────────────────

/// The characters of `s`, in order.
pub fn chars_of(s: &str) -> (chars: Vec<char>)
    ensures
        chars@ == s@,
{
    let mut chars: Vec<char> = Vec::new();
    for c in it: s.chars()
        invariant
            chars@ == it.seq().take(it.index() as int),
            it.seq() == s@,
    {
        chars.push(c);
    }
    chars
}

/// The string made of `chars[from..to]`.
pub fn string_of(chars: &[char], from: usize, to: usize) -> (s: String)
    requires
        from <= to <= chars@.len(),
    ensures
        s@ == chars@.subrange(from as int, to as int),
{
    let mut s = String::new();
    let mut i: usize = from;
    while i < to
        invariant
            from <= i <= to <= chars@.len(),
            s@ == chars@.subrange(from as int, i as int),
        decreases to - i,
    {
        s.push(chars[i]);
        i += 1;
    }
    s
}

/// Whether two strings hold the same characters.
pub fn text_eq(a: &str, b: &str) -> (same: bool)
    ensures
        same == (a@ == b@),
{
    let x = a.as_bytes();
    let y = b.as_bytes();
    proof {
        vstd::utf8::encode_utf8_decode_utf8(a@);
        vstd::utf8::encode_utf8_decode_utf8(b@);
    }
    if x.len() != y.len() {
        return false;
    }
    let mut i: usize = 0;
    while i < x.len()
        invariant
            i <= x@.len(),
            x@.len() == y@.len(),
            x@.take(i as int) == y@.take(i as int),
            x@ == vstd::utf8::encode_utf8(a@),
            y@ == vstd::utf8::encode_utf8(b@),
        decreases x@.len() - i,
    {
        if x[i] != y[i] {
            assert(a@ != b@);
            return false;
        }
        assert(x@.take(i + 1) =~= x@.take(i as int).push(x@[i as int]));
        assert(y@.take(i + 1) =~= y@.take(i as int).push(y@[i as int]));
        i += 1;
    }
    assert(x@.take(i as int) =~= x@);
    assert(y@.take(i as int) =~= y@);
    true
}

/// A fresh string with the characters of `s`.
pub fn copy_of(s: &str) -> (t: String)
    ensures
        t@ == s@,
{
    s.to_owned()
}

/// Two strings as one.
pub fn joined(a: &str, b: &str) -> (t: String)
    ensures
        t@ == a@ + b@,
{
    let mut t = a.to_owned();
    t.push_str(b);
    t
}

// ── Numbers ────────────────────────────────────────────────────────

/// The decimal digit `d` as a character.
pub open spec fn digit(d: int) -> char {
    (48 + d) as char
}

/// `n` in decimal notation, without leading zeros.
pub open spec fn decimal(n: nat) -> Seq<char>
    decreases n,
{
    if n < 10 {
        seq![digit(n as int)]
    } else {
        decimal(n / 10).push(digit((n % 10) as int))
    }
}

/// Appends `n` to `out` in decimal notation.
pub fn push_decimal(out: &mut String, n: usize)
    ensures
        final(out)@ == old(out)@ + decimal(n as nat),
    decreases n,
{
    if n >= 10 {
        push_decimal(out, n / 10);
    }
    let d: u8 = (n % 10) as u8;
    out.push((48u8 + d) as char);
    assert(out@ =~= old(out)@ + decimal(n as nat));
}

/// `n` in decimal notation.
pub fn decimal_of(n: usize) -> (s: String)
    ensures
        s@ == decimal(n as nat),
{
    let mut s = String::new();
    push_decimal(&mut s, n);
    assert(s@ =~= decimal(n as nat));
    s
}

// ── Order ──────────────────────────────────────────────────────────

/// The dictionary order of strings, by code point.
pub open spec fn lex_lt(a: Seq<char>, b: Seq<char>) -> bool
    decreases a.len(),
{
    if b.len() == 0 {
        false
    } else if a.len() == 0 {
        true
    } else if a[0] != b[0] {
        (a[0] as int) < (b[0] as int)
    } else {
        lex_lt(a.drop_first(), b.drop_first())
    }
}

pub open spec fn lex_le(a: Seq<char>, b: Seq<char>) -> bool {
    !lex_lt(b, a)
}

/// The dictionary order is total, antisymmetric and transitive.
pub proof fn lex_order_is_total(a: Seq<char>, b: Seq<char>, c: Seq<char>)
    ensures
        lex_le(a, b) || lex_le(b, a),
        lex_le(a, b) && lex_le(b, a) ==> a == b,
        lex_le(a, b) && lex_le(b, c) ==> lex_le(a, c),
        lex_lt(a, b) && lex_lt(b, c) ==> lex_lt(a, c),
    decreases a.len(),
{
    if a.len() > 0 && b.len() > 0 {
        if c.len() > 0 {
            lex_order_is_total(a.drop_first(), b.drop_first(), c.drop_first());
        } else {
            lex_order_is_total(a.drop_first(), b.drop_first(), c);
        }
        if a[0] == b[0] && a.drop_first() == b.drop_first() {
            assert(a =~= seq![a[0]] + a.drop_first());
            assert(b =~= seq![b[0]] + b.drop_first());
        }
    } else if a.len() == 0 && b.len() == 0 {
        assert(a =~= b);
    }
}

/// Whether `a` comes strictly before `b` in the dictionary order.
pub fn text_lt(a: &str, b: &str) -> (less: bool)
    ensures
        less == lex_lt(a@, b@),
{
    let x = chars_of(a);
    let y = chars_of(b);
    let mut i: usize = 0;
    assert(x@.skip(0) =~= a@);
    assert(y@.skip(0) =~= b@);
    loop
        invariant
            i <= x@.len(),
            i <= y@.len(),
            x@ == a@,
            y@ == b@,
            lex_lt(a@, b@) == lex_lt(x@.skip(i as int), y@.skip(i as int)),
        decreases x@.len() - i,
    {
        if i >= y.len() {
            return false;
        }
        if i >= x.len() {
            return true;
        }
        if x[i] != y[i] {
            return x[i] < y[i];
        }
        assert(x@.skip(i as int).drop_first() =~= x@.skip(i + 1));
        assert(y@.skip(i as int).drop_first() =~= y@.skip(i + 1));
        i += 1;
    }
}

// ── Searching ──────────────────────────────────────────────────────

/// Whether `chars` begins with `prefix`.
pub fn starts_with(chars: &[char], prefix: &str) -> (found: bool)
    ensures
        found == prefix@.is_prefix_of(chars@),
{
    let p = chars_of(prefix);
    if p.len() > chars.len() {
        return false;
    }
    let mut i: usize = 0;
    while i < p.len()
        invariant
            i <= p@.len() <= chars@.len(),
            p@ == prefix@,
            p@.take(i as int) == chars@.take(i as int),
        decreases p@.len() - i,
    {
        if p[i] != chars[i] {
            assert(chars@.take(p@.len() as int)[i as int] != p@[i as int]);
            return false;
        }
        assert(p@.take(i + 1) =~= p@.take(i as int).push(p@[i as int]));
        assert(chars@.take(i + 1) =~= chars@.take(i as int).push(chars@[i as int]));
        i += 1;
    }
    assert(p@.take(i as int) =~= p@);
    true
}

/// The first place at or after `from` where `pattern` occurs in `s`.
pub open spec fn first_occurrence(s: Seq<char>, pattern: Seq<char>, from: int) -> Option<int>
    decreases s.len() - from,
{
    if from + pattern.len() > s.len() {
        None
    } else if s.subrange(from, from + pattern.len()) == pattern {
        Some(from)
    } else if from + pattern.len() == s.len() {
        None
    } else {
        first_occurrence(s, pattern, from + 1)
    }
}

/// The part of `s` before the first occurrence of `pattern`, or all of it.
pub open spec fn before_first(s: Seq<char>, pattern: Seq<char>) -> Seq<char> {
    match first_occurrence(s, pattern, 0) {
        Some(i) => s.take(i),
        None => s,
    }
}

/// What pins `first_occurrence` down.
pub proof fn lemma_first_occurrence_is(s: Seq<char>, pattern: Seq<char>, from: int, n: int)
    requires
        0 <= from <= n,
        n + pattern.len() <= s.len(),
        s.subrange(n, n + pattern.len()) == pattern,
        forall|k: int|
            from <= k < n ==> #[trigger] s.subrange(k, k + pattern.len()) != pattern,
    ensures
        first_occurrence(s, pattern, from) == Some(n),
    decreases n - from,
{
    if from < n {
        assert(s.subrange(from, from + pattern.len()) != pattern);
        lemma_first_occurrence_is(s, pattern, from + 1, n);
    }
}

/// Where `pattern` first occurs in `chars`.
pub fn find_text(chars: &[char], pattern: &str) -> (at: Option<usize>)
    ensures
        first_occurrence(chars@, pattern@, 0) == (match at {
            Some(i) => Some(i as int),
            None => None,
        }),
        at matches Some(i) ==> i + pattern@.len() <= chars@.len(),
{
    let p = chars_of(pattern);
    let mut i: usize = 0;
    while i <= chars.len() && p.len() <= chars.len() - i
        invariant
            i <= chars@.len() + 1,
            p@ == pattern@,
            first_occurrence(chars@, pattern@, 0) == first_occurrence(
                chars@,
                pattern@,
                i as int,
            ),
        decreases chars@.len() + 1 - i,
    {
        let mut k: usize = 0;
        while k < p.len() && chars[i + k] == p[k]
            invariant
                k <= p@.len(),
                i + p@.len() <= chars@.len() <= usize::MAX,
                p@.take(k as int) == chars@.subrange(i as int, i + k),
            decreases p@.len() - k,
        {
            assert(p@.take(k + 1) =~= p@.take(k as int).push(p@[k as int]));
            assert(chars@.subrange(i as int, i + k + 1) =~= chars@.subrange(
                i as int,
                i + k,
            ).push(chars@[i + k]));
            k += 1;
        }
        if k == p.len() {
            assert(p@.take(k as int) =~= p@);
            return Some(i);
        }
        assert(chars@.subrange(i as int, i + p@.len())[k as int] != p@[k as int]);
        if i == chars.len() {
            return None;
        }
        i += 1;
    }
    None
}

/// The string before the first occurrence of `pattern` in `chars`, or all of it.
pub fn before_first_text(chars: &[char], pattern: &str) -> (s: String)
    ensures
        s@ == before_first(chars@, pattern@),
{
    match find_text(chars, pattern) {
        Some(i) => {
            let s = string_of(chars, 0, i);
            assert(s@ =~= chars@.take(i as int));
            s
        },
        None => {
            let s = string_of(chars, 0, chars.len());
            assert(s@ =~= chars@);
            s
        },
    }
}

/// How many characters come before the first `c` in `s`: all, where there is none.
pub open spec fn index_of_char(s: Seq<char>, c: char) -> nat
    decreases s.len(),
{
    if s.len() == 0 || s[0] == c {
        0
    } else {
        1 + index_of_char(s.skip(1), c)
    }
}

pub proof fn lemma_index_of_char(s: Seq<char>, c: char)
    ensures
        index_of_char(s, c) <= s.len(),
        index_of_char(s, c) < s.len() ==> s[index_of_char(s, c) as int] == c,
        forall|i: int| 0 <= i < index_of_char(s, c) ==> s[i] != c,
    decreases s.len(),
{
    if s.len() > 0 && s[0] != c {
        lemma_index_of_char(s.skip(1), c);
        assert forall|i: int| 0 <= i < index_of_char(s, c) implies s[i] != c by {
            if i > 0 {
                assert(s.skip(1)[i - 1] == s[i]);
            }
        }
    }
}

/// What pins `index_of_char` down.
pub proof fn lemma_index_of_char_is(s: Seq<char>, c: char, n: int)
    requires
        0 <= n <= s.len(),
        n < s.len() ==> s[n] == c,
        forall|i: int| 0 <= i < n ==> s[i] != c,
    ensures
        index_of_char(s, c) == n,
{
    lemma_index_of_char(s, c);
}

/// The position of the first `c` in `chars[from..]`, or the end.
pub fn char_from(chars: &[char], c: char, from: usize) -> (at: usize)
    requires
        from <= chars@.len(),
    ensures
        from <= at <= chars@.len(),
        at - from == index_of_char(chars@.skip(from as int), c),
{
    let mut i: usize = from;
    while i < chars.len() && chars[i] != c
        invariant
            from <= i <= chars@.len(),
            forall|k: int| from <= k < i ==> chars@[k] != c,
        decreases chars@.len() - i,
    {
        i += 1;
    }
    proof {
        let tail = chars@.skip(from as int);
        assert forall|k: int| 0 <= k < i - from implies tail[k] != c by {
            assert(tail[k] == chars@[from + k]);
        }
        lemma_index_of_char_is(tail, c, i - from);
    }
    i
}

// ── Lines ──────────────────────────────────────────────────────────

/// A line without the carriage return that may end it.
pub open spec fn without_cr(line: Seq<char>) -> Seq<char> {
    if line.len() > 0 && line.last() == '\r' {
        line.drop_last()
    } else {
        line
    }
}

/// The lines of a text. A line ends with a line feed, or with a carriage return and a line
/// feed; the last line may end without either.
pub open spec fn lines_of(s: Seq<char>) -> Seq<Seq<char>>
    decreases s.len(),
{
    let n = index_of_char(s, '\n');
    if s.len() == 0 {
        Seq::empty()
    } else if n >= s.len() {
        seq![s]
    } else {
        seq![without_cr(s.take(n as int))] + lines_of(s.skip(n as int + 1))
    }
}

/// The lines of two texts, the first of which ends with a line end, are the lines of both.
pub proof fn lines_of_joined_texts(a: Seq<char>, b: Seq<char>)
    requires
        a.len() == 0 || a.last() == '\n',
    ensures
        lines_of(a + b) == lines_of(a) + lines_of(b),
    decreases a.len(),
{
    if a.len() == 0 {
        assert(a + b =~= b);
        assert(lines_of(a) + lines_of(b) =~= lines_of(b));
    } else {
        let s = a + b;
        lemma_index_of_char(a, '\n');
        let n = index_of_char(a, '\n') as int;
        assert(a[a.len() - 1] == '\n');
        assert(n < a.len());
        assert forall|i: int| 0 <= i < n implies s[i] != '\n' by {
            assert(s[i] == a[i]);
        }
        lemma_index_of_char_is(s, '\n', n);
        assert(s.take(n) =~= a.take(n));
        let rest = a.skip(n + 1);
        assert(s.skip(n + 1) =~= rest + b);
        if rest.len() > 0 {
            assert(rest.last() == a.last());
        }
        lines_of_joined_texts(rest, b);
        assert(lines_of(s) =~= lines_of(a) + lines_of(b));
    }
}

/// Character lists, as their views.
pub open spec fn chars_view(lists: Seq<Vec<char>>) -> Seq<Seq<char>> {
    lists.map_values(|l: Vec<char>| l@)
}

/// Strings, as their views.
pub open spec fn strings_view(strings: Seq<String>) -> Seq<Seq<char>> {
    strings.map_values(|s: String| s@)
}

fn copy_chars(chars: &[char], from: usize, to: usize) -> (copy: Vec<char>)
    requires
        from <= to <= chars@.len(),
    ensures
        copy@ == chars@.subrange(from as int, to as int),
{
    let mut copy: Vec<char> = Vec::new();
    let mut i: usize = from;
    while i < to
        invariant
            from <= i <= to <= chars@.len(),
            copy@ == chars@.subrange(from as int, i as int),
        decreases to - i,
    {
        copy.push(chars[i]);
        i += 1;
    }
    copy
}

/// The lines of a text, each as its characters.
pub fn split_lines(text: &str) -> (lines: Vec<Vec<char>>)
    ensures
        chars_view(lines@) == lines_of(text@),
{
    let chars = chars_of(text);
    let mut lines: Vec<Vec<char>> = Vec::new();
    let mut at: usize = 0;
    assert(chars@.skip(0) =~= chars@);
    assert(chars_view(lines@) + lines_of(chars@) =~= lines_of(text@));
    while at < chars.len()
        invariant
            at <= chars@.len(),
            chars_view(lines@) + lines_of(chars@.skip(at as int)) == lines_of(text@),
        decreases chars@.len() - at,
    {
        let end = char_from(chars.as_slice(), '\n', at);
        let ghost rest = chars@.skip(at as int);
        let ghost before = chars_view(lines@);
        if end == chars.len() {
            let line = copy_chars(chars.as_slice(), at, end);
            assert(line@ =~= rest);
            lines.push(line);
            assert(chars_view(lines@) =~= before.push(rest));
            assert(chars@.skip(end as int) =~= Seq::<char>::empty());
            assert(chars_view(lines@) + lines_of(chars@.skip(end as int)) =~= before + seq![rest]);
            at = end;
        } else {
            let ghost full = rest.take(end - at);
            assert(full =~= chars@.subrange(at as int, end as int));
            let stop: usize = if end > at && chars[end - 1] == '\r' {
                end - 1
            } else {
                end
            };
            let line = copy_chars(chars.as_slice(), at, stop);
            assert(line@ =~= without_cr(full));
            lines.push(line);
            assert(chars_view(lines@) =~= before.push(without_cr(full)));
            assert(rest.skip(end - at + 1) =~= chars@.skip(end + 1));
            assert(chars_view(lines@) + lines_of(chars@.skip(end + 1)) =~= before + (
            seq![without_cr(full)] + lines_of(chars@.skip(end + 1))));
            at = end + 1;
        }
    }
    assert(chars@.skip(at as int) =~= Seq::<char>::empty());
    assert(chars_view(lines@) =~= lines_of(text@));
    lines
}

// ── White space ────────────────────────────────────────────────────

/// The characters with the Unicode property `White_Space`.
pub open spec fn is_white(c: char) -> bool {
    let n = c as int;
    9 <= n <= 13 || n == 0x20 || n == 0x85 || n == 0xa0 || n == 0x1680 || 0x2000 <= n <= 0x200a || n
        == 0x2028 || n == 0x2029 || n == 0x202f || n == 0x205f || n == 0x3000
}

pub fn white(c: char) -> (yes: bool)
    ensures
        yes == is_white(c),
{
    match c {
        '\u{9}'..='\u{d}' | ' ' | '\u{85}' | '\u{a0}' | '\u{1680}' => true,
        '\u{2000}'..='\u{200a}' | '\u{2028}' | '\u{2029}' | '\u{202f}' | '\u{205f}' => true,
        '\u{3000}' => true,
        _ => false,
    }
}

/// How many white characters `s` begins with.
pub open spec fn white_len(s: Seq<char>) -> nat
    decreases s.len(),
{
    if s.len() > 0 && is_white(s[0]) {
        1 + white_len(s.skip(1))
    } else {
        0
    }
}

/// How many characters come before the first white one.
pub open spec fn word_len(s: Seq<char>) -> nat
    decreases s.len(),
{
    if s.len() > 0 && !is_white(s[0]) {
        1 + word_len(s.skip(1))
    } else {
        0
    }
}

pub proof fn lemma_white_len(s: Seq<char>)
    ensures
        white_len(s) <= s.len(),
        white_len(s) < s.len() ==> !is_white(s[white_len(s) as int]),
        forall|i: int| 0 <= i < white_len(s) ==> is_white(s[i]),
    decreases s.len(),
{
    if s.len() > 0 && is_white(s[0]) {
        lemma_white_len(s.skip(1));
        assert forall|i: int| 0 <= i < white_len(s) implies is_white(s[i]) by {
            if i > 0 {
                assert(s.skip(1)[i - 1] == s[i]);
            }
        }
    }
}

pub proof fn lemma_word_len(s: Seq<char>)
    ensures
        word_len(s) <= s.len(),
        word_len(s) < s.len() ==> is_white(s[word_len(s) as int]),
        forall|i: int| 0 <= i < word_len(s) ==> !is_white(s[i]),
    decreases s.len(),
{
    if s.len() > 0 && !is_white(s[0]) {
        lemma_word_len(s.skip(1));
        assert forall|i: int| 0 <= i < word_len(s) implies !is_white(s[i]) by {
            if i > 0 {
                assert(s.skip(1)[i - 1] == s[i]);
            }
        }
    }
}

/// `s` without the white characters at its end.
pub open spec fn trim_end(s: Seq<char>) -> Seq<char>
    decreases s.len(),
{
    if s.len() > 0 && is_white(s.last()) {
        trim_end(s.drop_last())
    } else {
        s
    }
}

/// `s` without the white characters at both ends.
pub open spec fn trim(s: Seq<char>) -> Seq<char> {
    trim_end(s.skip(white_len(s) as int))
}

/// `text` without the white characters at both ends.
pub fn trimmed_text(text: &str) -> (t: String)
    ensures
        t@ == trim(text@),
{
    let chars = chars_of(text);
    let mut from: usize = 0;
    while from < chars.len() && white(chars[from])
        invariant
            from <= chars@.len(),
            forall|k: int| 0 <= k < from ==> is_white(chars@[k]),
        decreases chars@.len() - from,
    {
        from += 1;
    }
    proof {
        lemma_white_len(chars@);
        if white_len(chars@) < from {
            assert(is_white(chars@[white_len(chars@) as int]));
        }
    }
    let ghost tail = chars@.skip(from as int);
    let mut to: usize = chars.len();
    assert(chars@.subrange(from as int, to as int) =~= tail);
    while to > from && white(chars[to - 1])
        invariant
            from <= to <= chars@.len(),
            trim_end(tail) == trim_end(chars@.subrange(from as int, to as int)),
        decreases to,
    {
        assert(chars@.subrange(from as int, to as int).drop_last() =~= chars@.subrange(
            from as int,
            to - 1,
        ));
        to -= 1;
    }
    string_of(chars.as_slice(), from, to)
}

/// The words of a text: its longest runs without white characters.
pub open spec fn words_of(s: Seq<char>) -> Seq<Seq<char>>
    decreases s.len(),
{
    let t = s.skip(white_len(s) as int);
    let n = word_len(t) as int;
    if n <= 0 || t.len() == 0 || n > t.len() {
        Seq::empty()
    } else {
        proof {
            lemma_white_len(s);
        }
        seq![t.take(n)] + words_of(t.skip(n))
    }
}

/// A run of characters without white space is the first word of a text that goes on with white
/// space, or not at all; white space before it does not count.
pub proof fn lemma_first_word(gap: Seq<char>, word: Seq<char>, rest: Seq<char>)
    requires
        forall|i: int| 0 <= i < gap.len() ==> is_white(#[trigger] gap[i]),
        word.len() > 0,
        forall|i: int| 0 <= i < word.len() ==> !is_white(#[trigger] word[i]),
        rest.len() == 0 || is_white(rest[0]),
    ensures
        words_of(gap + word + rest) == seq![word] + words_of(rest),
{
    let s = gap + word + rest;
    lemma_white_len(s);
    let w = white_len(s) as int;
    if w < gap.len() {
        assert(s[w] == gap[w]);
    }
    if w > gap.len() {
        assert(s[gap.len() as int] == word[0]);
    }
    let t = s.skip(w);
    assert(t =~= word + rest);
    lemma_word_len(t);
    let n = word_len(t) as int;
    if n < word.len() {
        assert(t[n] == word[n]);
    }
    if n > word.len() {
        assert(t[word.len() as int] == rest[0]);
    }
    assert(t.take(n) =~= word);
    assert(t.skip(n) =~= rest);
}

/// The first word of `chars[from..]`, as its borders; they are equal where there is none.
pub fn next_word(chars: &[char], from: usize) -> (word: (usize, usize))
    requires
        from <= chars@.len(),
    ensures
        from <= word.0 <= word.1 <= chars@.len(),
        word.0 == word.1 ==> words_of(chars@.skip(from as int)) == Seq::<Seq<char>>::empty(),
        word.0 < word.1 ==> words_of(chars@.skip(from as int)) == seq![
            chars@.subrange(word.0 as int, word.1 as int),
        ] + words_of(chars@.skip(word.1 as int)),
{
    let ghost s = chars@.skip(from as int);
    let mut start: usize = from;
    while start < chars.len() && white(chars[start])
        invariant
            from <= start <= chars@.len(),
            s == chars@.skip(from as int),
            forall|k: int| 0 <= k < start - from ==> is_white(#[trigger] s[k]),
        decreases chars@.len() - start,
    {
        assert(s[start - from] == chars@[start as int]);
        start += 1;
    }
    proof {
        lemma_white_len(s);
        if white_len(s) < start - from {
            assert(is_white(s[white_len(s) as int]));
        }
        if white_len(s) > start - from {
            assert(is_white(s[start - from]));
        }
    }
    let ghost t = s.skip(start - from);
    assert(t =~= chars@.skip(start as int));
    let mut end: usize = start;
    while end < chars.len() && !white(chars[end])
        invariant
            start <= end <= chars@.len(),
            t == chars@.skip(start as int),
            forall|k: int| 0 <= k < end - start ==> !is_white(#[trigger] t[k]),
        decreases chars@.len() - end,
    {
        assert(t[end - start] == chars@[end as int]);
        end += 1;
    }
    proof {
        lemma_word_len(t);
        if word_len(t) < end - start {
            assert(!is_white(t[word_len(t) as int]));
        }
        if word_len(t) > end - start {
            assert(!is_white(t[end - start]));
        }
        assert(t.take(end - start) =~= chars@.subrange(start as int, end as int));
        assert(t.skip(end - start) =~= chars@.skip(end as int));
    }
    (start, end)
}

// ── Reading numbers ────────────────────────────────────────────────

pub open spec fn is_digit(c: char) -> bool {
    '0' <= c <= '9'
}

/// The value of a string of decimal digits; `None` where some character is no digit.
pub open spec fn digits_value(s: Seq<char>) -> Option<nat>
    decreases s.len(),
{
    if s.len() == 0 {
        Some(0)
    } else {
        match digits_value(s.drop_last()) {
            Some(v) => if is_digit(s.last()) {
                Some((v * 10 + (s.last() as int - 48)) as nat)
            } else {
                None
            },
            None => None,
        }
    }
}

/// A number in decimal notation, with an optional plus sign, that a machine word can hold.
pub open spec fn parse_number(s: Seq<char>) -> Option<nat> {
    let digits = if s.len() > 0 && s[0] == '+' {
        s.skip(1)
    } else {
        s
    };
    if digits.len() == 0 {
        None
    } else {
        match digits_value(digits) {
            Some(v) => if v <= usize::MAX {
                Some(v)
            } else {
                None
            },
            None => None,
        }
    }
}

proof fn lemma_digits_value_prefix(s: Seq<char>, k: int)
    requires
        0 <= k <= s.len(),
        digits_value(s) is Some,
    ensures
        digits_value(s.take(k)) is Some,
        digits_value(s.take(k))->0 <= digits_value(s)->0,
    decreases s.len(),
{
    if k == s.len() {
        assert(s.take(k) =~= s);
    } else {
        lemma_digits_value_prefix(s.drop_last(), k);
        assert(s.drop_last().take(k) =~= s.take(k));
    }
}

/// Reads the number that `chars[from..to]` spells.
pub fn parse_usize(chars: &[char], from: usize, to: usize) -> (n: Option<usize>)
    requires
        from <= to <= chars@.len(),
    ensures
        parse_number(chars@.subrange(from as int, to as int)) == (match n {
            Some(v) => Some(v as nat),
            None => None,
        }),
{
    let ghost s = chars@.subrange(from as int, to as int);
    let start: usize = if from < to && chars[from] == '+' {
        from + 1
    } else {
        from
    };
    let ghost digits = chars@.subrange(start as int, to as int);
    assert(digits =~= if s.len() > 0 && s[0] == '+' {
        s.skip(1)
    } else {
        s
    });
    if start == to {
        return None;
    }
    let mut value: usize = 0;
    let mut i: usize = start;
    while i < to
        invariant
            start <= i <= to <= chars@.len(),
            digits == chars@.subrange(start as int, to as int),
            digits.len() > 0,
            s == chars@.subrange(from as int, to as int),
            digits == (if s.len() > 0 && s[0] == '+' {
                s.skip(1)
            } else {
                s
            }),
            digits_value(digits.take(i - start)) == Some(value as nat),
        decreases to - i,
    {
        let c = chars[i];
        let ghost next = digits.take(i - start + 1);
        assert(next.drop_last() =~= digits.take(i - start));
        assert(next.last() == c);
        if !('0' <= c && c <= '9') {
            proof {
                if digits_value(digits) is Some {
                    lemma_digits_value_prefix(digits, i - start + 1);
                }
            }
            return None;
        }
        let d: usize = digit_of(c);
        if value > usize::MAX / 10 || value * 10 > usize::MAX - d {
            proof {
                if digits_value(digits) is Some {
                    lemma_digits_value_prefix(digits, i - start + 1);
                }
            }
            return None;
        }
        value = value * 10 + d;
        i += 1;
    }
    assert(digits.take(i - start) =~= digits);
    Some(value)
}

fn digit_of(c: char) -> (d: usize)
    requires
        is_digit(c),
    ensures
        d == c as int - 48,
        d < 10,
{
    match c {
        '0' => 0,
        '1' => 1,
        '2' => 2,
        '3' => 3,
        '4' => 4,
        '5' => 5,
        '6' => 6,
        '7' => 7,
        '8' => 8,
        _ => 9,
    }
}

/// Reading a number in decimal notation gives the number back.
pub proof fn parse_undoes_decimal(n: usize)
    ensures
        parse_number(decimal(n as nat)) == Some(n as nat),
{
    lemma_decimal_digits(n as nat);
}

proof fn lemma_decimal_digits(n: nat)
    ensures
        decimal(n).len() > 0,
        decimal(n)[0] != '+',
        digits_value(decimal(n)) == Some(n),
    decreases n,
{
    let d = (n % 10) as int;
    assert(is_digit(digit(d)) && digit(d) as int - 48 == d);
    if n < 10 {
        assert(decimal(n).drop_last() =~= Seq::<char>::empty());
        assert(decimal(n).last() == digit(d));
        assert(digits_value(decimal(n).drop_last()) == Some(0nat));
    } else {
        lemma_decimal_digits(n / 10);
        assert(decimal(n).drop_last() =~= decimal(n / 10));
    }
}

/// Numbers are written with digits alone, the last one first to count: it is the remainder by
/// ten, and what comes before it is the rest.
pub proof fn decimal_is_digit_by_digit(n: nat)
    ensures
        forall|i: int| 0 <= i < decimal(n).len() ==> '0' <= #[trigger] decimal(n)[i] <= '9',
        decimal(n).last() as int - '0' as int == n % 10,
        n >= 10 ==> decimal(n).drop_last() == decimal(n / 10),
        n < 10 ==> decimal(n).len() == 1,
    decreases n,
{
    let d = (n % 10) as int;
    assert(is_digit(digit(d)) && digit(d) as int - 48 == d);
    if n >= 10 {
        decimal_is_digit_by_digit(n / 10);
        assert(decimal(n).drop_last() =~= decimal(n / 10));
        assert forall|i: int| 0 <= i < decimal(n).len() implies '0' <= #[trigger] decimal(n)[i] <= '9' by {
            if i < decimal(n).len() - 1 {
                assert(decimal(n / 10)[i] == decimal(n)[i]);
            }
        }
    }
}

/// Ten to the `k`.
pub open spec fn ten_to(k: nat) -> nat
    decreases k,
{
    if k == 0 {
        1
    } else {
        10 * ten_to((k - 1) as nat)
    }
}

/// A number below ten to the `k` has at most `k` digits.
pub proof fn numbers_have_few_digits(n: nat, k: nat)
    requires
        k >= 1,
        n < ten_to(k),
    ensures
        1 <= decimal(n).len() <= k,
    decreases k,
{
    if n >= 10 {
        reveal_with_fuel(ten_to, 2);
        assert(k >= 2);
        assert(n / 10 < ten_to((k - 1) as nat));
        numbers_have_few_digits(n / 10, (k - 1) as nat);
    }
}

/// Whether there is nothing but white space in a text.
pub open spec fn is_blank(s: Seq<char>) -> bool {
    trim(s).len() == 0
}

pub fn blank(s: &str) -> (yes: bool)
    ensures
        yes == is_blank(s@),
{
    trimmed_text(s).as_str().is_empty()
}

/// Trimming takes off the white space around a text and nothing else.
pub proof fn trimming_takes_off_what_is_around(before: Seq<char>, text: Seq<char>, after: Seq<char>)
    requires
        forall|i: int| 0 <= i < before.len() ==> is_white(#[trigger] before[i]),
        forall|i: int| 0 <= i < after.len() ==> is_white(#[trigger] after[i]),
        text.len() > 0,
        !is_white(text[0]),
        !is_white(text.last()),
    ensures
        trim(before + text + after) == text,
        is_blank(before),
        !is_blank(before + text + after),
{
    let s = before + text + after;
    lemma_white_len(s);
    let n = white_len(s) as int;
    if n < before.len() {
        assert(s[n] == before[n]);
    }
    if n > before.len() {
        assert(s[before.len() as int] == text[0]);
    }
    assert(s.skip(n) =~= text + after);
    lemma_trim_end(text, after);
    lemma_white_len(before);
    let m = white_len(before) as int;
    if m < before.len() {
        assert(is_white(before[m]));
    }
    assert(before.skip(m) =~= Seq::<char>::empty());
}

proof fn lemma_trim_end(text: Seq<char>, after: Seq<char>)
    requires
        forall|i: int| 0 <= i < after.len() ==> is_white(#[trigger] after[i]),
        text.len() > 0,
        !is_white(text.last()),
    ensures
        trim_end(text + after) == text,
    decreases after.len(),
{
    if after.len() == 0 {
        assert(text + after =~= text);
    } else {
        assert((text + after).drop_last() =~= text + after.drop_last());
        assert((text + after).last() == after.last());
        assert(is_white(after[after.len() - 1]));
        lemma_trim_end(text, after.drop_last());
    }
}

/// In the dictionary order the first characters that differ decide, and where there are none the
/// shorter text goes first.
pub proof fn first_difference_decides(
    common: Seq<char>,
    a: char,
    b: char,
    rest_a: Seq<char>,
    rest_b: Seq<char>,
)
    ensures
        a < b ==> lex_lt(common + (seq![a] + rest_a), common + (seq![b] + rest_b)),
        lex_lt(common, common + (seq![b] + rest_b)),
        !lex_lt(common + (seq![b] + rest_b), common),
        lex_le(common, common),
    decreases common.len(),
{
    let x = common + (seq![a] + rest_a);
    let y = common + (seq![b] + rest_b);
    if common.len() > 0 {
        first_difference_decides(common.drop_first(), a, b, rest_a, rest_b);
        assert(x.drop_first() =~= common.drop_first() + (seq![a] + rest_a));
        assert(y.drop_first() =~= common.drop_first() + (seq![b] + rest_b));
        assert(x[0] == common[0] && y[0] == common[0]);
    } else {
        assert(x[0] == a && y[0] == b);
    }
}

/// The words of a text are what stands between its white space: two words with a gap between them
/// are these two.
pub proof fn words_stand_between_gaps(
    before: Seq<char>,
    first: Seq<char>,
    gap: Seq<char>,
    second: Seq<char>,
)
    requires
        forall|i: int| 0 <= i < before.len() ==> is_white(#[trigger] before[i]),
        forall|i: int| 0 <= i < gap.len() ==> is_white(#[trigger] gap[i]),
        forall|i: int| 0 <= i < first.len() ==> !is_white(#[trigger] first[i]),
        forall|i: int| 0 <= i < second.len() ==> !is_white(#[trigger] second[i]),
        first.len() > 0,
        second.len() > 0,
        gap.len() > 0,
    ensures
        words_of(before + first + (gap + second)) == seq![first, second],
{
    let none = Seq::<char>::empty();
    assert(is_white(gap[0]));
    lemma_first_word(before, first, gap + second);
    lemma_first_word(gap, second, none);
    assert(gap + second + none =~= gap + second);
    assert(words_of(none) =~= Seq::<Seq<char>>::empty());
    assert(words_of(gap + second) =~= seq![second]);
    assert(words_of(before + first + (gap + second)) =~= seq![first, second]);
}

/// A text without a line end is one line; a line end, with or without a carriage return before it,
/// ends a line and is no part of it.
pub proof fn line_ends_separate_lines(line: Seq<char>, rest: Seq<char>)
    requires
        line.len() > 0,
        line.last() != '\r',
        forall|i: int| 0 <= i < line.len() ==> #[trigger] line[i] != '\n',
    ensures
        lines_of(line) == seq![line],
        lines_of(line + seq!['\n'] + rest) == seq![line] + lines_of(rest),
        lines_of(line + seq!['\r', '\n'] + rest) == seq![line] + lines_of(rest),
{
    lemma_index_of_char_is(line, '\n', line.len() as int);
    let a = line + seq!['\n'] + rest;
    lemma_index_of_char_is(a, '\n', line.len() as int);
    assert(a.take(line.len() as int) =~= line);
    assert(a.skip(line.len() as int + 1) =~= rest);
    let b = line + seq!['\r', '\n'] + rest;
    lemma_index_of_char_is(b, '\n', line.len() as int + 1);
    assert(b.take(line.len() as int + 1) =~= line.push('\r'));
    assert(line.push('\r').drop_last() =~= line);
    assert(b.skip(line.len() as int + 2) =~= rest);
}

} // verus!
