//! Wrapping styled text into rows.

use vstd::prelude::*;

use crate::style;
use crate::view;
use crate::style::{Span, Style};
use crate::text::{chars_of, string_of};
use crate::view::push_span;

verus! {

/// Rows of spans under construction: those that are full, and the one being filled.
#[verifier::ext_equal]
pub ghost struct Wrap {
    pub rows: Seq<Seq<style::SpanView>>,
    pub row: Seq<style::SpanView>,
}

impl Wrap {
    /// `content` goes into the row being filled as far as there is room, the rest into the
    /// rows behind it.
    pub open spec fn put(self, content: Seq<char>, style: Style, width: int) -> Wrap
        decreases
                content.len(),
                (if view::spans_width(self.row) >= width {
                    1int
                } else {
                    0
                }),
        when width > 0
    {
        let room = width - view::spans_width(self.row);
        if content.len() == 0 {
            self
        } else if room <= 0 {
            Wrap { rows: self.rows.push(self.row), row: Seq::empty() }.put(content, style, width)
        } else {
            let n = if content.len() <= room {
                content.len() as int
            } else {
                room
            };
            Wrap { rows: self.rows, row: self.row.push(view::span(content.take(n), style)) }.put(
                content.skip(n),
                style,
                width,
            )
        }
    }

    pub open spec fn put_all(self, spans: Seq<style::SpanView>, width: int) -> Wrap
        decreases spans.len(),
    {
        if spans.len() == 0 {
            self
        } else {
            self.put_all(spans.drop_last(), width).put(
                spans.last().content,
                spans.last().style,
                width,
            )
        }
    }
}

pub open spec fn new_wrap() -> Wrap {
    Wrap { rows: Seq::empty(), row: Seq::empty() }
}

/// Spans wrapped into rows of at most `width` characters. Without any width there is one empty
/// row.
pub open spec fn wrapped(spans: Seq<style::SpanView>, width: int) -> Seq<Seq<style::SpanView>> {
    if width <= 0 {
        seq![Seq::empty()]
    } else {
        let done = new_wrap().put_all(spans, width);
        done.rows.push(done.row)
    }
}

/// Rows of spans, as their views.
pub open spec fn rows_of_spans(rows: Seq<Vec<Span>>) -> Seq<Seq<style::SpanView>> {
    rows.map_values(|r: Vec<Span>| style::spans_view(r@))
}

struct Wrapper {
    rows: Vec<Vec<Span>>,
    row: Vec<Span>,
    used: usize,
}

impl Wrapper {
    spec fn view(self) -> Wrap {
        Wrap { rows: rows_of_spans(self.rows@), row: style::spans_view(self.row@) }
    }

    spec fn ok(self, width: int) -> bool {
        self.used == view::spans_width(self.view().row) && self.used <= width
    }

    fn flush(&mut self)
        ensures
            final(self).view() == (Wrap {
                rows: old(self).view().rows.push(old(self).view().row),
                row: Seq::empty(),
            }),
            final(self).used == 0,
    {
        let ghost before = self.view();
        let mut full: Vec<Span> = Vec::new();
        std::mem::swap(&mut full, &mut self.row);
        self.rows.push(full);
        self.used = 0;
        assert(rows_of_spans(self.rows@) =~= before.rows.push(before.row));
        assert(style::spans_view(self.row@) =~= Seq::<style::SpanView>::empty());
    }

    fn put(&mut self, content: &str, style: Style, width: usize)
        requires
            width > 0,
            old(self).ok(width as int),
        ensures
            final(self).ok(width as int),
            final(self).view() == old(self).view().put(content@, style, width as int),
    {
        let chars = chars_of(content);
        let ghost start = self.view();
        let mut at: usize = 0;
        assert(chars@.skip(0) =~= content@);
        while at < chars.len()
            invariant
                width > 0,
                at <= chars@.len(),
                chars@ == content@,
                self.ok(width as int),
                self.view().put(chars@.skip(at as int), style, width as int) == start.put(
                    content@,
                    style,
                    width as int,
                ),
            decreases
                    chars@.len() - at,
                    (if self.used >= width {
                        1int
                    } else {
                        0
                    }),
        {
            let room = width - self.used;
            if room == 0 {
                // No room on the current row: flush it and start fresh on the next pass
                self.flush();
            } else {
                let left = chars.len() - at;
                let n: usize = if left <= room {
                    left
                } else {
                    room
                };
                let ghost before = self.view();
                let ghost rest = chars@.skip(at as int);
                let chunk = string_of(chars.as_slice(), at, at + n);
                assert(chunk@ =~= rest.take(n as int));
                push_span(&mut self.row, chunk.as_str(), style);
                self.used += n;
                at += n;
                proof {
                    assert(rest.skip(n as int) =~= chars@.skip(at as int));
                    assert(self.view().row.drop_last() =~= before.row);
                }
            }
        }
        assert(chars@.skip(at as int) =~= Seq::<char>::empty());
    }
}

/// Split a list of styled spans into rows of at most `max_width` characters.
/// Preserves styles across wrap boundaries by splitting individual spans as needed.
pub fn wrap_spans(spans: Vec<Span>, max_width: usize) -> (rows: Vec<Vec<Span>>)
    ensures
        rows_of_spans(rows@) == wrapped(style::spans_view(spans@), max_width as int),
        rows@.len() >= 1,
{
    // When the available width is zero (e.g., the diff body is narrower than
    // the gutter) there is no room to render content. Return a single empty
    // row so callers iterate exactly once.
    if max_width == 0 {
        let none: Vec<Span> = Vec::new();
        let rows = vec![none];
        assert(style::spans_view(none@) =~= Seq::<style::SpanView>::empty());
        assert(rows_of_spans(rows@) =~= wrapped(style::spans_view(spans@), max_width as int));
        return rows;
    }
    let ghost all = style::spans_view(spans@);
    let mut w = Wrapper { rows: Vec::new(), row: Vec::new(), used: 0 };
    assert(w.view() =~= new_wrap());
    let mut i: usize = 0;
    assert(all.take(0) =~= Seq::<style::SpanView>::empty());
    while i < spans.len()
        invariant
            max_width > 0,
            i <= spans@.len(),
            all == style::spans_view(spans@),
            w.ok(max_width as int),
            w.view() == new_wrap().put_all(all.take(i as int), max_width as int),
        decreases spans@.len() - i,
    {
        assert(all.take(i + 1).drop_last() =~= all.take(i as int));
        assert(all.take(i + 1).last() == spans@[i as int]@);
        w.put(spans[i].content.as_str(), spans[i].style, max_width);
        i += 1;
    }
    assert(all.take(i as int) =~= all);
    w.flush();
    assert(w.view().rows.len() == w.rows@.len());
    w.rows
}

// ── Laws ───────────────────────────────────────────────────────────

/// The text of rows, one after the other.
pub open spec fn rows_text(rows: Seq<Seq<style::SpanView>>) -> Seq<char>
    decreases rows.len(),
{
    if rows.len() == 0 {
        Seq::empty()
    } else {
        rows_text(rows.drop_last()) + style::line_text(rows.last())
    }
}

spec fn wrap_text(w: Wrap) -> Seq<char> {
    rows_text(w.rows) + style::line_text(w.row)
}

spec fn wrap_fits(w: Wrap, width: int) -> bool {
    &&& forall|i: int| 0 <= i < w.rows.len() ==> view::spans_width(#[trigger] w.rows[i]) == width
    &&& 0 <= view::spans_width(w.row) <= width
}

proof fn lemma_put(w: Wrap, content: Seq<char>, style: Style, width: int)
    requires
        width > 0,
        wrap_fits(w, width),
    ensures
        wrap_fits(w.put(content, style, width), width),
        wrap_text(w.put(content, style, width)) == wrap_text(w) + content,
    decreases
            content.len(),
            (if view::spans_width(w.row) >= width {
                1int
            } else {
                0
            }),
{
    let room = width - view::spans_width(w.row);
    if content.len() == 0 {
        assert(wrap_text(w) + content =~= wrap_text(w));
    } else if room <= 0 {
        let next = Wrap { rows: w.rows.push(w.row), row: Seq::empty() };
        assert(next.rows.drop_last() =~= w.rows);
        assert(wrap_text(next) =~= wrap_text(w));
        lemma_put(next, content, style, width);
    } else {
        let n = if content.len() <= room {
            content.len() as int
        } else {
            room
        };
        let next = Wrap { rows: w.rows, row: w.row.push(view::span(content.take(n), style)) };
        assert(next.row.drop_last() =~= w.row);
        assert(wrap_text(next) =~= wrap_text(w) + content.take(n));
        lemma_put(next, content.skip(n), style, width);
        assert(content =~= content.take(n) + content.skip(n));
        assert(wrap_text(w) + content.take(n) + content.skip(n) =~= wrap_text(w) + content);
    }
}

proof fn lemma_put_all(spans: Seq<style::SpanView>, width: int)
    requires
        width > 0,
    ensures
        wrap_fits(new_wrap().put_all(spans, width), width),
        wrap_text(new_wrap().put_all(spans, width)) == style::line_text(spans),
    decreases spans.len(),
{
    if spans.len() == 0 {
        assert(wrap_text(new_wrap()) =~= Seq::<char>::empty());
    } else {
        lemma_put_all(spans.drop_last(), width);
        lemma_put(
            new_wrap().put_all(spans.drop_last(), width),
            spans.last().content,
            spans.last().style,
            width,
        );
    }
}

/// Wrapping loses no character: the rows, one after the other, spell the text.
pub proof fn wrapping_keeps_the_text(spans: Seq<style::SpanView>, width: int)
    requires
        width > 0,
    ensures
        rows_text(wrapped(spans, width)) == style::line_text(spans),
{
    lemma_put_all(spans, width);
    let done = new_wrap().put_all(spans, width);
    assert(wrapped(spans, width).drop_last() =~= done.rows);
}

/// No row is wider than allowed, and every row but the last is exactly that wide.
pub proof fn wrapped_rows_fit(spans: Seq<style::SpanView>, width: int, i: int)
    requires
        width > 0,
        0 <= i < wrapped(spans, width).len(),
    ensures
        view::spans_width(wrapped(spans, width)[i]) <= width,
        i < wrapped(spans, width).len() - 1 ==> view::spans_width(wrapped(spans, width)[i]) == width,
{
    lemma_put_all(spans, width);
}

/// The characters of spans, each with its style.
pub open spec fn styled_chars(spans: Seq<style::SpanView>) -> Seq<(char, Style)>
    decreases spans.len(),
{
    if spans.len() == 0 {
        Seq::empty()
    } else {
        styled_chars(spans.drop_last()) + spans.last().content.map_values(
            |c: char| (c, spans.last().style),
        )
    }
}

/// The characters of rows, one row after the other, each with its style.
pub open spec fn styled_rows(rows: Seq<Seq<style::SpanView>>) -> Seq<(char, Style)>
    decreases rows.len(),
{
    if rows.len() == 0 {
        Seq::empty()
    } else {
        styled_rows(rows.drop_last()) + styled_chars(rows.last())
    }
}

spec fn wrap_chars(w: Wrap) -> Seq<(char, Style)> {
    styled_rows(w.rows) + styled_chars(w.row)
}

spec fn in_style(content: Seq<char>, style: Style) -> Seq<(char, Style)> {
    content.map_values(|c: char| (c, style))
}

proof fn lemma_put_styled(w: Wrap, content: Seq<char>, style: Style, width: int)
    requires
        width > 0,
        wrap_fits(w, width),
    ensures
        wrap_chars(w.put(content, style, width)) == wrap_chars(w) + in_style(content, style),
    decreases
            content.len(),
            (if view::spans_width(w.row) >= width {
                1int
            } else {
                0
            }),
{
    let room = width - view::spans_width(w.row);
    if content.len() == 0 {
        assert(wrap_chars(w) + in_style(content, style) =~= wrap_chars(w));
    } else if room <= 0 {
        let next = Wrap { rows: w.rows.push(w.row), row: Seq::empty() };
        assert(next.rows.drop_last() =~= w.rows);
        assert(wrap_chars(next) =~= wrap_chars(w));
        assert(wrap_fits(next, width));
        lemma_put_styled(next, content, style, width);
    } else {
        let n = if content.len() <= room {
            content.len() as int
        } else {
            room
        };
        let piece = view::span(content.take(n), style);
        let next = Wrap { rows: w.rows, row: w.row.push(piece) };
        assert(next.row.drop_last() =~= w.row);
        assert(styled_chars(next.row) =~= styled_chars(w.row) + in_style(content.take(n), style));
        assert(wrap_chars(next) =~= wrap_chars(w) + in_style(content.take(n), style));
        assert(view::spans_width(next.row) == view::spans_width(w.row) + n);
        lemma_put_styled(next, content.skip(n), style, width);
        assert(in_style(content, style) =~= in_style(content.take(n), style) + in_style(
            content.skip(n),
            style,
        ));
        assert(wrap_chars(w) + in_style(content.take(n), style) + in_style(content.skip(n), style)
            =~= wrap_chars(w) + in_style(content, style));
    }
}

proof fn lemma_put_all_styled(spans: Seq<style::SpanView>, width: int)
    requires
        width > 0,
    ensures
        wrap_chars(new_wrap().put_all(spans, width)) == styled_chars(spans),
    decreases spans.len(),
{
    if spans.len() == 0 {
        assert(wrap_chars(new_wrap()) =~= Seq::<(char, Style)>::empty());
    } else {
        let rest = spans.drop_last();
        lemma_put_all_styled(rest, width);
        lemma_put_all(rest, width);
        lemma_put_styled(
            new_wrap().put_all(rest, width),
            spans.last().content,
            spans.last().style,
            width,
        );
        assert(in_style(spans.last().content, spans.last().style)
            =~= spans.last().content.map_values(|c: char| (c, spans.last().style)));
    }
}

/// Wrapping keeps every character in its own style.
pub proof fn wrapping_keeps_the_styles(spans: Seq<style::SpanView>, width: int)
    requires
        width > 0,
    ensures
        styled_rows(wrapped(spans, width)) == styled_chars(spans),
{
    lemma_put_all_styled(spans, width);
    let done = new_wrap().put_all(spans, width);
    assert(wrapped(spans, width).drop_last() =~= done.rows);
}

} // verus!
