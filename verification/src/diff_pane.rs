//! A pane that shows a diff, with a cursor and a selection.

use vstd::prelude::*;

use crate::gitdiff;
use crate::layout;
use crate::overview;
use crate::style;
use crate::text;
use crate::view;
use crate::wrapping;
use crate::gitdiff::{DiffEvent, DiffLineKind, ParsedDiff};
use crate::layout::split_bottom_row;
use crate::style::{Color, Line, Span, Style};
use crate::text::joined;
use crate::view::{
    failure_notice, message_notice, push_span, space_text, style_ground, style_on, Notice, Rect,
    Theme,
};
use crate::wrapping::wrap_spans;

verus! {

/// A diff, what part of it is in view, and what is selected in it.
pub struct DiffPane {
    pub diff: Option<ParsedDiff>,
    pub scroll: usize,
    pub cursor: usize,
    pub sel_anchor: Option<usize>,
    pub error: Option<String>,
}

#[verifier::ext_equal]
pub ghost struct PaneView {
    pub diff: Option<gitdiff::ParsedDiffView>,
    pub scroll: int,
    pub cursor: int,
    pub sel_anchor: Option<usize>,
    pub error: Option<Seq<char>>,
}

impl View for DiffPane {
    type V = PaneView;

    open spec fn view(&self) -> PaneView {
        PaneView {
            diff: match self.diff {
                Some(d) => Some(d@),
                None => None,
            },
            scroll: self.scroll as int,
            cursor: self.cursor as int,
            sel_anchor: self.sel_anchor,
            error: overview::opt_view(self.error),
        }
    }
}

impl PaneView {
    pub open spec fn empty() -> PaneView {
        PaneView { diff: None, scroll: 0, cursor: 0, sel_anchor: None, error: None }
    }

    /// The index of the last line, or zero.
    pub open spec fn last_line(self) -> int {
        match self.diff {
            Some(d) => overview::imax(d.lines.len() - 1, 0),
            None => 0,
        }
    }

    pub open spec fn after_event(self, event: DiffEvent) -> PaneView {
        match event {
            DiffEvent::Updated(d) => {
                let last = overview::imax(d@.lines.len() - 1, 0);
                PaneView {
                    diff: Some(d@),
                    scroll: overview::imin(self.scroll, last),
                    cursor: overview::imin(self.cursor, last),
                    sel_anchor: None,
                    error: None,
                }
            },
            DiffEvent::Error(message) => PaneView { error: Some(message@), ..self },
        }
    }

    /// The view moved so that the cursor is in it.
    pub open spec fn cursor_shown(self, height: int) -> PaneView {
        if height == 0 {
            self
        } else if self.cursor < self.scroll {
            PaneView { scroll: self.cursor, ..self }
        } else if self.cursor >= self.scroll + height {
            PaneView { scroll: overview::imax(self.cursor - (height - 1), 0), ..self }
        } else {
            self
        }
    }

    pub open spec fn cursor_up(self, height: int) -> PaneView {
        PaneView { cursor: overview::imax(self.cursor - 1, 0), ..self }.cursor_shown(height)
    }

    pub open spec fn cursor_down(self, height: int) -> PaneView {
        PaneView {
            cursor: if self.diff is Some {
                overview::imin(self.cursor + 1, self.last_line())
            } else {
                self.cursor
            },
            ..self
        }.cursor_shown(height)
    }

    pub open spec fn scrolled_up(self) -> PaneView {
        PaneView { scroll: overview::imax(self.scroll - 1, 0), ..self }
    }

    pub open spec fn scrolled_down(self) -> PaneView {
        PaneView {
            scroll: if self.diff is Some && self.scroll < self.last_line() {
                self.scroll + 1
            } else {
                self.scroll
            },
            ..self
        }
    }

    pub open spec fn anchor_toggled(self) -> PaneView {
        PaneView {
            sel_anchor: if self.sel_anchor is Some {
                None
            } else {
                Some(self.cursor as usize)
            },
            ..self
        }
    }

    /// What is sent when the selection is sent: its text, where it has any.
    pub open spec fn selected_text(self) -> Seq<char> {
        match self.diff {
            Some(d) => if d.lines.len() > 0 {
                selection_text(d, self.cursor, self.sel_anchor)
            } else {
                Seq::empty()
            },
            None => Seq::empty(),
        }
    }
}

// ── Selected text ──────────────────────────────────────────────────

/// The first and the last line of a selection.
pub open spec fn selection_range(count: int, cursor: int, anchor: Option<usize>) -> (int, int) {
    let last = overview::imax(count - 1, 0);
    match anchor {
        Some(a) => (overview::imin(overview::imin(a as int, cursor), last), overview::imin(overview::imax(a as int, cursor), last)),
        None => (overview::imin(cursor, last), overview::imin(cursor, last)),
    }
}

/// Whether a line holds text of a file, and does not only structure the diff.
pub open spec fn is_code(kind: DiffLineKind) -> bool {
    kind == DiffLineKind::Add || kind == DiffLineKind::Delete || kind == DiffLineKind::Context
}

pub open spec fn line_sign(kind: DiffLineKind) -> char {
    if kind == DiffLineKind::Add {
        '+'
    } else if kind == DiffLineKind::Delete {
        '-'
    } else {
        ' '
    }
}

/// The file of the last line with text among lines.
pub open spec fn last_file(lines: Seq<gitdiff::DiffLineView>) -> Option<int>
    decreases lines.len(),
{
    if lines.len() == 0 {
        None
    } else if is_code(lines.last().kind) {
        Some(lines.last().file_idx)
    } else {
        last_file(lines.drop_last())
    }
}

/// Lines with text, each with its sign, and the name of the file wherever it changes.
pub open spec fn lines_text(lines: Seq<gitdiff::DiffLineView>, names: Seq<Seq<char>>) -> Seq<char>
    decreases lines.len(),
{
    if lines.len() == 0 {
        Seq::empty()
    } else {
        let front = lines_text(lines.drop_last(), names);
        let line = lines.last();
        if is_code(line.kind) {
            let named = if last_file(lines.drop_last()) != Some(line.file_idx) && line.file_idx
                < names.len() {
                front + "# file: "@ + names[line.file_idx] + seq!['\n']
            } else {
                front
            };
            named + seq![line_sign(line.kind)] + line.content + seq!['\n']
        } else {
            front
        }
    }
}

/// The text of a selection.
pub open spec fn selection_text(diff: gitdiff::ParsedDiffView, cursor: int, anchor: Option<usize>) -> Seq<
    char,
> {
    let (lo, hi) = selection_range(diff.lines.len() as int, cursor, anchor);
    lines_text(diff.lines.subrange(lo, hi + 1), diff.file_names)
}

/// Build text payload from a diff selection range (or single cursor line).
pub fn build_selection_text(diff: &ParsedDiff, cursor: usize, anchor: Option<usize>) -> (out:
    String)
    requires
        diff@.lines.len() > 0,
    ensures
        out@ == selection_text(diff@, cursor as int, anchor),
{
    let count = diff.lines.len();
    assert(diff@.lines.len() == count);
    let last = count - 1;
    let (first, second) = match anchor {
        Some(a) => if a < cursor {
            (a, cursor)
        } else {
            (cursor, a)
        },
        None => (cursor, cursor),
    };
    let lo = if first < last {
        first
    } else {
        last
    };
    let hi = if second < last {
        second
    } else {
        last
    };
    let ghost chosen = diff@.lines.subrange(lo as int, hi + 1);
    let ghost names = diff@.file_names;
    let mut out = String::new();
    let mut last_file_idx: Option<usize> = None;
    let mut i: usize = lo;
    assert(chosen.take(0) =~= Seq::<gitdiff::DiffLineView>::empty());
    while i <= hi
        invariant
            lo <= i <= hi + 1,
            hi < diff@.lines.len(),
            diff@.lines.len() == count,
            diff.lines@.len() == count,
            chosen == diff@.lines.subrange(lo as int, hi + 1),
            names == diff@.file_names,
            out@ == lines_text(chosen.take(i - lo), names),
            last_file(chosen.take(i - lo)) == (match last_file_idx {
                Some(f) => Some(f as int),
                None => None,
            }),
        decreases hi + 1 - i,
    {
        let line = &diff.lines[i];
        let ghost done = chosen.take(i - lo);
        let ghost next = chosen.take(i - lo + 1);
        proof {
            assert(next.drop_last() =~= done);
            assert(next.last() == line@);
        }
        match line.kind {
            DiffLineKind::Add | DiffLineKind::Delete | DiffLineKind::Context => {
                let changes = match last_file_idx {
                    Some(f) => f != line.file_idx,
                    None => true,
                };
                if changes {
                    if line.file_idx < diff.file_names.len() {
                        out.push_str("# file: ");
                        out.push_str(diff.file_names[line.file_idx].as_str());
                        out.push('\n');
                        assert(out@ =~= lines_text(done, names) + "# file: "@
                            + names[line.file_idx as int] + seq!['\n']);
                    }
                    last_file_idx = Some(line.file_idx);
                }
                let ghost named = out@;
                let sign = match line.kind {
                    DiffLineKind::Add => '+',
                    DiffLineKind::Delete => '-',
                    _ => ' ',
                };
                out.push(sign);
                out.push_str(line.content.as_str());
                out.push('\n');
                assert(out@ =~= named + seq![line_sign(line.kind)] + line.content@ + seq!['\n']);
            },
            // Structural lines are left out
            _ => {},
        }
        i += 1;
    }
    assert(chosen.take(i - lo) =~= chosen);
    out
}

// ── State ──────────────────────────────────────────────────────────

impl DiffPane {
    pub fn new() -> (pane: Self)
        ensures
            pane@ == PaneView::empty(),
    {
        DiffPane { diff: None, scroll: 0, cursor: 0, sel_anchor: None, error: None }
    }

    /// Takes in a refresh: the view and the cursor are pulled back into the new diff and the
    /// selection ends; after an error the last diff stays.
    pub fn apply_event(&mut self, event: DiffEvent)
        ensures
            final(self)@ == old(self)@.after_event(event),
    {
        match event {
            DiffEvent::Updated(parsed) => {
                // Clamp scroll and cursor to new diff length
                let max = parsed.lines.len().saturating_sub(1);
                assert(parsed@.lines.len() == parsed.lines@.len());
                if self.scroll > max {
                    self.scroll = max;
                }
                if self.cursor > max {
                    self.cursor = max;
                }
                self.sel_anchor = None;
                self.diff = Some(parsed);
                self.error = None;
            },
            DiffEvent::Error(message) => {
                self.error = Some(message);
            },
        }
    }

    fn last_line(&self) -> (n: usize)
        ensures
            n == self@.last_line(),
    {
        match &self.diff {
            Some(d) => {
                assert(d@.lines.len() == d.lines@.len());
                d.lines.len().saturating_sub(1)
            },
            None => 0,
        }
    }

    /// Scroll diff view up by one line.
    pub fn scroll_up(&mut self)
        ensures
            final(self)@ == old(self)@.scrolled_up(),
    {
        self.scroll = self.scroll.saturating_sub(1);
    }

    /// Scroll diff view down by one line.
    pub fn scroll_down(&mut self)
        ensures
            final(self)@ == old(self)@.scrolled_down(),
    {
        let max = self.last_line();
        if self.diff.is_some() && self.scroll < max {
            self.scroll += 1;
        }
    }

    fn ensure_cursor_visible(&mut self, viewport_height: usize)
        ensures
            final(self)@ == old(self)@.cursor_shown(viewport_height as int),
    {
        if viewport_height == 0 {
            return ;
        }
        if self.cursor < self.scroll {
            self.scroll = self.cursor;
        } else if self.cursor - self.scroll >= viewport_height {
            self.scroll = self.cursor - (viewport_height - 1);
        }
    }

    /// Move diff cursor up, auto-scrolling the viewport if needed.
    pub fn cursor_up(&mut self, viewport_height: usize)
        ensures
            final(self)@ == old(self)@.cursor_up(viewport_height as int),
    {
        self.cursor = self.cursor.saturating_sub(1);
        self.ensure_cursor_visible(viewport_height);
    }

    /// Move diff cursor down, auto-scrolling the viewport if needed.
    pub fn cursor_down(&mut self, viewport_height: usize)
        ensures
            final(self)@ == old(self)@.cursor_down(viewport_height as int),
    {
        let max = self.last_line();
        if self.diff.is_some() {
            self.cursor = if self.cursor < max {
                self.cursor + 1
            } else {
                max
            };
        }
        self.ensure_cursor_visible(viewport_height);
    }

    /// Toggle selection anchor at the current cursor position.
    pub fn toggle_anchor(&mut self)
        ensures
            final(self)@ == old(self)@.anchor_toggled(),
    {
        if self.sel_anchor.is_some() {
            self.sel_anchor = None;
        } else {
            self.sel_anchor = Some(self.cursor);
        }
    }

    pub fn cancel_selection(&mut self)
        ensures
            final(self)@ == (PaneView { sel_anchor: None, ..old(self)@ }),
    {
        self.sel_anchor = None;
    }

    pub fn has_selection(&self) -> (yes: bool)
        ensures
            yes == self@.sel_anchor is Some,
    {
        self.sel_anchor.is_some()
    }

    /// The text of the selection, where it has any.
    pub fn selection(&self) -> (text: Option<String>)
        ensures
            match text {
                Some(t) => t@ == self@.selected_text() && t@.len() > 0,
                None => self@.selected_text().len() == 0,
            },
    {
        match &self.diff {
            Some(d) => {
                assert(d@.lines.len() == d.lines@.len());
                if d.lines.len() == 0 {
                    return None;
                }
                let text = build_selection_text(d, self.cursor, self.sel_anchor);
                if text.as_str().is_empty() {
                    None
                } else {
                    Some(text)
                }
            },
            None => None,
        }
    }
}

impl Default for DiffPane {
    fn default() -> (pane: Self)
        ensures
            pane@ == PaneView::empty(),
    {
        DiffPane::new()
    }
}

// ── What a diff looks like ─────────────────────────────────────────

/// The width of the gutter: two numbers and a border.
pub const GUTTER_WIDTH: u16 = 9;

/// What a diff is shown with.
#[verifier::ext_equal]
pub ghost struct DiffLook {
    pub diff: gitdiff::ParsedDiffView,
    /// For each line the styled form of its text; empty where there is none.
    pub highlights: Seq<Seq<style::SpanView>>,
    pub accent: Color,
    pub cursor: Option<usize>,
    pub sel_anchor: Option<usize>,
    pub width: int,
}

/// A number, right-aligned in four columns.
pub open spec fn number4(n: Option<usize>) -> Seq<char> {
    match n {
        Some(v) => view::spaces(overview::imax(4 - text::decimal(v as nat).len(), 0) as nat) + text::decimal(v as nat),
        None => "    "@,
    }
}

impl DiffLook {
    pub open spec fn is_cursor(self, i: int) -> bool {
        self.cursor matches Some(c) && c == i
    }

    pub open spec fn is_selected(self, i: int) -> bool {
        match (self.cursor, self.sel_anchor) {
            (Some(c), Some(a)) => overview::imin(a as int, c as int) <= i <= overview::imax(a as int, c as int),
            _ => false,
        }
    }

    /// The ground of a line: the cursor's, the selection's, or that of its kind.
    pub open spec fn line_ground(self, theme: Theme, i: int) -> Color {
        if self.is_cursor(i) {
            theme.bg_active
        } else if self.is_selected(i) {
            theme.selection_bg
        } else {
            match self.diff.lines[i].kind {
                DiffLineKind::FileHeader => self.accent,
                DiffLineKind::FileMetadata => theme.bg_surface,
                DiffLineKind::HunkHeader => theme.bg_surface,
                DiffLineKind::Add => theme.diff_add_bg,
                DiffLineKind::Delete => theme.diff_del_bg,
                DiffLineKind::Context => theme.bg_base,
            }
        }
    }

    pub open spec fn line_ink(self, theme: Theme, i: int) -> Color {
        match self.diff.lines[i].kind {
            DiffLineKind::FileHeader => theme.bg_base,
            DiffLineKind::FileMetadata => theme.text_tertiary,
            DiffLineKind::HunkHeader => self.accent,
            DiffLineKind::Add => theme.text_primary,
            DiffLineKind::Delete => theme.text_primary,
            DiffLineKind::Context => theme.text_secondary,
        }
    }

    pub open spec fn content_style(self, theme: Theme, i: int) -> Style {
        let style = view::on(self.line_ink(theme, i), self.line_ground(theme, i));
        if self.diff.lines[i].kind == DiffLineKind::FileHeader {
            style.spec_add(style::bold_only())
        } else {
            style
        }
    }

    /// A line's text; a file header shows the file's name instead of the raw line.
    pub open spec fn content(self, i: int) -> Seq<char> {
        let line = self.diff.lines[i];
        if line.kind == DiffLineKind::FileHeader && line.file_idx < self.diff.file_names.len() {
            " "@ + self.diff.file_names[line.file_idx]
        } else {
            line.content
        }
    }

    pub open spec fn content_spans(self, theme: Theme, i: int) -> Seq<style::SpanView> {
        if is_code(self.diff.lines[i].kind) && i < self.highlights.len() && self.highlights[i].len()
            > 0 {
            self.highlights[i]
        } else {
            seq![view::span(self.content(i), self.content_style(theme, i))]
        }
    }

    pub open spec fn content_width(self) -> int {
        overview::imax(self.width - GUTTER_WIDTH, 0)
    }

    pub open spec fn content_rows(self, theme: Theme, i: int) -> Seq<Seq<style::SpanView>> {
        wrapping::wrapped(self.content_spans(theme, i), self.content_width())
    }

    /// Row `r` of a line: the gutter, the text and what fills it up. Only the first row of a
    /// line with text carries numbers.
    pub open spec fn row(self, theme: Theme, i: int, r: int) -> Seq<style::SpanView> {
        let line = self.diff.lines[i];
        let bg = self.line_ground(theme, i);
        let numbered = r == 0 && is_code(line.kind);
        let gutter = if numbered {
            number4(line.old_lineno) + number4(line.new_lineno)
        } else {
            "        "@
        };
        let border = if numbered {
            "│"@
        } else {
            " "@
        };
        let text = self.content_rows(theme, i)[r];
        let fill = self.content_width() - view::spans_width(text);
        let row = seq![
            view::span(gutter, view::on(theme.text_tertiary, bg)),
            view::span(border, view::on(theme.text_disabled, bg)),
        ] + text;
        if fill > 0 {
            row.push(view::span(view::spaces(fill as nat), self.content_style(theme, i)))
        } else {
            row
        }
    }

    /// The rows of one line.
    pub open spec fn rows_of(self, theme: Theme, i: int) -> Seq<Seq<style::SpanView>> {
        Seq::new(self.content_rows(theme, i).len(), |r: int| self.row(theme, i, r))
    }

    /// The rows of the lines in `from..to`.
    pub open spec fn rows(self, theme: Theme, from: int, to: int) -> Seq<Seq<style::SpanView>>
        decreases to - from,
    {
        if to <= from {
            Seq::empty()
        } else {
            self.rows(theme, from, to - 1) + self.rows_of(theme, to - 1)
        }
    }

    /// What is in view: rows from the line `scroll` on, as many as there is room for, and empty
    /// rows below the end.
    pub open spec fn in_view(self, theme: Theme, scroll: int, height: int) -> Seq<Seq<style::SpanView>> {
        let rows = self.rows(theme, scroll, self.diff.lines.len() as int);
        Seq::new(
            height as nat,
            |k: int|
                if k < rows.len() {
                    rows[k]
                } else {
                    seq![view::span(view::spaces(self.width as nat), view::ground(theme.bg_base))]
                },
        )
    }
}

fn push_number4(out: &mut String, n: Option<usize>)
    ensures
        final(out)@ == old(out)@ + number4(n),
{
    let ghost before = out@;
    match n {
        Some(v) => {
            let digits = crate::text::decimal_of(v);
            let len = digits.as_str().unicode_len();
            let lead = space_text(4usize.saturating_sub(len));
            out.push_str(lead.as_str());
            out.push_str(digits.as_str());
        },
        None => out.push_str("    "),
    }
    assert(out@ =~= before + number4(n));
}

/// What a diff is shown with, in executable form.
pub struct DiffShow<'a> {
    pub diff: &'a ParsedDiff,
    pub highlights: &'a Vec<Vec<Span>>,
    pub accent: Color,
    pub cursor: Option<usize>,
    pub sel_anchor: Option<usize>,
    pub width: u16,
}

impl<'a> DiffShow<'a> {
    pub open spec fn look(self) -> DiffLook {
        DiffLook {
            diff: self.diff@,
            highlights: wrapping::rows_of_spans(self.highlights@),
            accent: self.accent,
            cursor: self.cursor,
            sel_anchor: self.sel_anchor,
            width: self.width as int,
        }
    }

    fn ground_of(&self, theme: &Theme, i: usize) -> (color: Color)
        requires
            i < self.diff.lines@.len(),
        ensures
            color == self.look().line_ground(*theme, i as int),
    {
        assert(self.diff@.lines[i as int] == self.diff.lines@[i as int]@);
        let is_cursor = match self.cursor {
            Some(c) => c == i,
            None => false,
        };
        if is_cursor {
            return theme.bg_active;
        }
        if let Some(c) = self.cursor {
            if let Some(a) = self.sel_anchor {
                let (lo, hi) = if a < c {
                    (a, c)
                } else {
                    (c, a)
                };
                if lo <= i && i <= hi {
                    return theme.selection_bg;
                }
            }
        }
        match self.diff.lines[i].kind {
            DiffLineKind::FileHeader => self.accent,
            DiffLineKind::FileMetadata => theme.bg_surface,
            DiffLineKind::HunkHeader => theme.bg_surface,
            DiffLineKind::Add => theme.diff_add_bg,
            DiffLineKind::Delete => theme.diff_del_bg,
            DiffLineKind::Context => theme.bg_base,
        }
    }

    fn style_of(&self, theme: &Theme, i: usize, bg: Color) -> (style: Style)
        requires
            i < self.diff.lines@.len(),
            bg == self.look().line_ground(*theme, i as int),
        ensures
            style == self.look().content_style(*theme, i as int),
    {
        assert(self.diff@.lines[i as int] == self.diff.lines@[i as int]@);
        match self.diff.lines[i].kind {
            DiffLineKind::FileHeader => style_on(theme.bg_base, bg).bold(),
            DiffLineKind::FileMetadata => style_on(theme.text_tertiary, bg),
            DiffLineKind::HunkHeader => style_on(self.accent, bg),
            DiffLineKind::Add => style_on(theme.text_primary, bg),
            DiffLineKind::Delete => style_on(theme.text_primary, bg),
            DiffLineKind::Context => style_on(theme.text_secondary, bg),
        }
    }

    fn is_code_line(&self, i: usize) -> (yes: bool)
        requires
            i < self.diff.lines@.len(),
        ensures
            yes == is_code(self.diff@.lines[i as int].kind),
    {
        assert(self.diff@.lines[i as int] == self.diff.lines@[i as int]@);
        match self.diff.lines[i].kind {
            DiffLineKind::Add | DiffLineKind::Delete | DiffLineKind::Context => true,
            _ => false,
        }
    }

    fn spans_of(&self, theme: &Theme, i: usize, style: Style) -> (spans: Vec<Span>)
        requires
            i < self.diff.lines@.len(),
            style == self.look().content_style(*theme, i as int),
        ensures
            style::spans_view(spans@) == self.look().content_spans(*theme, i as int),
    {
        let ghost look = self.look();
        let mut spans: Vec<Span> = Vec::new();
        assert(self.diff@.lines[i as int] == self.diff.lines@[i as int]@);
        if self.is_code_line(i) && i < self.highlights.len() && self.highlights[i].len() > 0 {
            let styled = &self.highlights[i];
            assert(look.highlights[i as int] == style::spans_view(styled@));
            let mut k: usize = 0;
            while k < styled.len()
                invariant
                    k <= styled@.len(),
                    style::spans_view(spans@) == style::spans_view(styled@).take(k as int),
                decreases styled@.len() - k,
            {
                let ghost before = style::spans_view(spans@);
                let copy = styled[k].copy();
                spans.push(copy);
                k += 1;
                assert(style::spans_view(spans@) =~= before.push(copy@));
                assert(style::spans_view(styled@).take(k as int) =~= style::spans_view(styled@).take(
                    k - 1,
                ).push(styled@[k - 1]@));
            }
            assert(style::spans_view(styled@).take(k as int) =~= style::spans_view(styled@));
            return spans;
        }
        let line = &self.diff.lines[i];
        let header = match line.kind {
            DiffLineKind::FileHeader => true,
            _ => false,
        };
        if header && line.file_idx < self.diff.file_names.len() {
            let name = joined(" ", self.diff.file_names[line.file_idx].as_str());
            push_span(&mut spans, name.as_str(), style);
        } else {
            push_span(&mut spans, line.content.as_str(), style);
        }
        assert(style::spans_view(spans@) =~= look.content_spans(*theme, i as int));
        spans
    }

    /// One row of a line.
    fn row_of(
        &self,
        theme: &Theme,
        i: usize,
        r: usize,
        text: Vec<Span>,
        bg: Color,
        style: Style,
    ) -> (line: Line)
        requires
            i < self.diff.lines@.len(),
            bg == self.look().line_ground(*theme, i as int),
            style == self.look().content_style(*theme, i as int),
            r < self.look().content_rows(*theme, i as int).len(),
            style::spans_view(text@) == self.look().content_rows(*theme, i as int)[r as int],
        ensures
            line@ == self.look().row(*theme, i as int, r as int),
    {
        let ghost look = self.look();
        let numbered = r == 0 && self.is_code_line(i);
        let mut spans: Vec<Span> = Vec::new();
        assert(self.diff@.lines[i as int] == self.diff.lines@[i as int]@);
        let gutter_style = style_on(theme.text_tertiary, bg);
        let border_style = style_on(theme.text_disabled, bg);
        if numbered {
            let mut gutter = String::new();
            push_number4(&mut gutter, self.diff.lines[i].old_lineno);
            push_number4(&mut gutter, self.diff.lines[i].new_lineno);
            assert(gutter@ =~= number4(self.diff.lines@[i as int].old_lineno) + number4(
                self.diff.lines@[i as int].new_lineno,
            ));
            push_span(&mut spans, gutter.as_str(), gutter_style);
            push_span(&mut spans, "│", border_style);
        } else {
            push_span(&mut spans, "        ", gutter_style);
            push_span(&mut spans, " ", border_style);
        }
        let ghost first = style::spans_view(spans@);
        let ghost own = style::spans_view(text@);
        let ghost text_spans = text@;
        let mut rest = text;
        let ghost gutter_spans = spans@;
        spans.append(&mut rest);
        assert(style::spans_view(spans@) =~= first + own);
        let width = self.width.saturating_sub(GUTTER_WIDTH);
        let used = text_width(&spans, 2, Ghost(first), Ghost(own));
        let fill = (width as usize).saturating_sub(used);
        if fill > 0 {
            let pad = space_text(fill);
            push_span(&mut spans, pad.as_str(), style);
        }
        let line = Line { spans };
        assert(line@ =~= look.row(*theme, i as int, r as int));
        line
    }
}

/// The width of `spans[from..]`, up to the machine's limit.
fn text_width(
    spans: &Vec<Span>,
    from: usize,
    Ghost(first): Ghost<Seq<style::SpanView>>,
    Ghost(own): Ghost<Seq<style::SpanView>>,
) -> (n: usize)
    requires
        first.len() == from,
        style::spans_view(spans@) == first + own,
    ensures
        n == overview::imin(view::spans_width(own), usize::MAX as int),
{
    let mut n: usize = 0;
    let mut i: usize = from;
    assert(own.take(0) =~= Seq::<style::SpanView>::empty());
    assert(style::spans_view(spans@).len() == spans@.len());
    while i < spans.len()
        invariant
            from <= i <= spans@.len(),
            first.len() == from,
            spans@.len() == first.len() + own.len(),
            style::spans_view(spans@) == first + own,
            0 <= view::spans_width(own.take(i - from)),
            n == overview::imin(view::spans_width(own.take(i - from)), usize::MAX as int),
        decreases spans@.len() - i,
    {
        let w = spans[i].content.as_str().unicode_len();
        assert(style::spans_view(spans@)[i as int] == spans@[i as int]@);
        assert(own[i - from] == spans@[i as int]@);
        n = n.saturating_add(w);
        i += 1;
        assert(own.take(i - from).drop_last() =~= own.take(i - from - 1));
        assert(own.take(i - from).last() == own[i - from - 1]);
    }
    assert(own.take(i - from) =~= own);
    n
}

/// The rows of a diff that are in view.
pub fn diff_rows(show: &DiffShow, scroll: usize, height: u16, theme: &Theme) -> (lines: Vec<Line>)
    ensures
        style::lines_view(lines@) == show.look().in_view(*theme, scroll as int, height as int),
{
    let ghost look = show.look();
    let ghost total = look.diff.lines.len() as int;
    let ghost all = look.rows(*theme, scroll as int, total);
    let visible = height as usize;
    let mut lines: Vec<Line> = Vec::new();
    let mut at: usize = scroll;
    assert(show.diff@.lines.len() == show.diff.lines@.len());
    assert(style::lines_view(lines@) =~= Seq::<Seq<style::SpanView>>::empty());
    while lines.len() < visible && at < show.diff.lines.len()
        invariant
            scroll <= at,
            at <= total || at == scroll,
            total == show.diff.lines@.len(),
            look == show.look(),
            lines@.len() <= visible,
            style::lines_view(lines@) == first_rows(
                look.rows(*theme, scroll as int, at as int),
                visible as int,
            ),
        decreases total - at,
    {
        let ghost done = look.rows(*theme, scroll as int, at as int);
        let bg = show.ground_of(theme, at);
        let style = show.style_of(theme, at, bg);
        let spans = show.spans_of(theme, at, style);
        let width = show.width.saturating_sub(GUTTER_WIDTH) as usize;
        let mut rows = wrap_spans(spans, width);
        let ghost contents = look.content_rows(*theme, at as int);
        let ghost own = look.rows_of(*theme, at as int);
        assert(contents == wrapping::rows_of_spans(rows@));
        let count = rows.len();
        let mut r: usize = 0;
        let mut left = reverse_rows(rows);
        assert(first_rows(done + own.take(0), visible as int) =~= style::lines_view(lines@)) by {
            assert(done + own.take(0) =~= done);
        }
        while r < count && lines.len() < visible
            invariant
                r <= count,
                at < show.diff.lines@.len(),
                look == show.look(),
                done == look.rows(*theme, scroll as int, at as int),
                contents == look.content_rows(*theme, at as int),
                own == look.rows_of(*theme, at as int),
                contents.len() == count,
                bg == look.line_ground(*theme, at as int),
                style == look.content_style(*theme, at as int),
                left@.len() == count - r,
                forall|k: int|
                    0 <= k < left@.len() ==> style::spans_view((#[trigger] left@[k])@) == contents[count
                        - 1 - k],
                lines@.len() <= visible,
                style::lines_view(lines@) == first_rows(done + own.take(r as int), visible as int),
            decreases count - r,
        {
            if let Some(text) = left.pop() {
                let ghost before = style::lines_view(lines@);
                assert(before.len() == lines@.len());
                let line = show.row_of(theme, at, r, text, bg, style);
                lines.push(line);
                proof {
                    assert(style::lines_view(lines@) =~= before.push(line@));
                    assert(own.take(r + 1) =~= own.take(r as int).push(own[r as int]));
                    assert(done + own.take(r + 1) =~= (done + own.take(r as int)).push(
                        own[r as int],
                    ));
                    assert(style::lines_view(lines@) =~= first_rows(
                        done + own.take(r + 1),
                        visible as int,
                    ));
                }
            }
            r += 1;
        }
        proof {
            assert(style::lines_view(lines@).len() == lines@.len());
            if r < count {
                assert(lines@.len() == visible);
                assert(first_rows(done + own, visible as int) =~= first_rows(
                    done + own.take(r as int),
                    visible as int,
                ));
            } else {
                assert(own.take(r as int) =~= own);
            }
        }
        at += 1;
        assert(look.rows(*theme, scroll as int, at as int) =~= done + own);
    }
    proof {
        assert(style::lines_view(lines@).len() == lines@.len());
        lemma_rows_prefix(look, *theme, scroll as int, at as int, total);
    }
    // Fill remaining visible area with empty lines
    let ghost fixed = style::lines_view(lines@);
    let ghost view = look.in_view(*theme, scroll as int, height as int);
    let ghost start = lines@.len();
    assert(fixed =~= view.take(start as int));
    while lines.len() < visible
        invariant
            start <= lines@.len() <= visible,
            look == show.look(),
            visible == height,
            view == look.in_view(*theme, scroll as int, height as int),
            all == look.rows(*theme, scroll as int, look.diff.lines.len() as int),
            start < visible ==> start == all.len(),
            style::lines_view(lines@) == view.take(lines@.len() as int),
        decreases visible - lines@.len(),
    {
        let ghost before = style::lines_view(lines@);
        let fill = space_text(show.width as usize);
        let mut spans: Vec<Span> = Vec::new();
        push_span(&mut spans, fill.as_str(), style_ground(theme.bg_base));
        let line = Line { spans };
        assert(line@ =~= seq![view::span(view::spaces(look.width as nat), view::ground(theme.bg_base))]);
        let ghost n = lines@.len() as int;
        lines.push(line);
        assert(style::lines_view(lines@) =~= before.push(line@));
        assert(view.take(n + 1) =~= view.take(n).push(view[n]));
    }
    assert(view.take(lines@.len() as int) =~= view);
    lines
}

/// The first `n` of some rows, or all of them.
pub open spec fn first_rows(rows: Seq<Seq<style::SpanView>>, n: int) -> Seq<Seq<style::SpanView>> {
    rows.take(overview::imin(rows.len() as int, n))
}

proof fn lemma_rows_prefix(look: DiffLook, theme: Theme, from: int, mid: int, to: int)
    requires
        from <= mid,
        mid <= to || mid == from,
    ensures
        look.rows(theme, from, mid).len() <= look.rows(theme, from, to).len(),
        look.rows(theme, from, mid) == look.rows(theme, from, to).take(
            look.rows(theme, from, mid).len() as int,
        ),
    decreases to - mid,
{
    let part = look.rows(theme, from, mid);
    if mid >= to {
        if mid > to {
            assert(part =~= Seq::<Seq<style::SpanView>>::empty());
        }
        assert(part =~= look.rows(theme, from, to).take(part.len() as int));
    } else {
        lemma_rows_prefix(look, theme, from, mid, to - 1);
        let shorter = look.rows(theme, from, to - 1);
        assert(part =~= (shorter + look.rows_of(theme, to - 1)).take(part.len() as int));
    }
}

fn reverse_rows(rows: Vec<Vec<Span>>) -> (queue: Vec<Vec<Span>>)
    ensures
        queue@.len() == rows@.len(),
        forall|k: int|
            0 <= k < queue@.len() ==> style::spans_view((#[trigger] queue@[k])@) == wrapping::rows_of_spans(
                rows@,
            )[rows@.len() - 1 - k],
{
    let ghost all = rows@;
    let mut left = rows;
    let mut queue: Vec<Vec<Span>> = Vec::new();
    while left.len() > 0
        invariant
            left@.len() + queue@.len() == all.len(),
            left@ == all.take(left@.len() as int),
            forall|k: int|
                0 <= k < queue@.len() ==> #[trigger] queue@[k] == all[all.len() - 1 - k],
        decreases left@.len(),
    {
        let ghost n = left@.len() as int;
        if let Some(r) = left.pop() {
            assert(r == all[n - 1]);
            queue.push(r);
            assert(left@ =~= all.take(n - 1));
        }
    }
    queue
}

// ── The whole viewer ───────────────────────────────────────────────

/// What a diff viewer shows.
pub enum DiffFace {
    /// What went wrong.
    Error(Notice),
    /// Why there is no diff.
    Message(Notice),
    /// The rows of the diff, and below them a hint.
    Rows { body_area: Rect, lines: Vec<Line>, hint: Option<(Rect, Span)> },
}

/// The hint below a diff: what the keys do.
pub open spec fn diff_hint(selecting: bool) -> Seq<char> {
    if selecting {
        " ↑↓ extend  Enter send  Esc cancel"@
    } else {
        " v select  Enter send  Esc cancel"@
    }
}

/// Whether rows show a diff in an area of the size that the layout gave them.
pub open spec fn rows_show(
    face: DiffFace,
    diff: gitdiff::ParsedDiffView,
    highlights: Seq<Seq<style::SpanView>>,
    scroll: int,
    accent: Color,
    cursor: Option<usize>,
    sel_anchor: Option<usize>,
    area: Rect,
    theme: Theme,
) -> bool {
    &&& face matches DiffFace::Rows { body_area, lines, hint }
    &&& {
        let look = DiffLook {
            diff,
            highlights,
            accent,
            cursor,
            sel_anchor,
            width: body_area.width as int,
        };
        &&& style::lines_view(lines@) == look.in_view(theme, scroll, body_area.height as int)
        &&& hint is Some <==> cursor is Some && area.height >= 2
        &&& hint is None ==> body_area == area
        &&& hint matches Some(h) ==> {
            &&& h.1@ == view::span(
                diff_hint(sel_anchor is Some),
                view::on(theme.text_tertiary, theme.bg_surface),
            )
            &&& layout::in_range(area) ==> {
                &&& body_area == layout::part(true, area, 0, area.height - 1)
                &&& h.0 == layout::part(true, area, area.height - 1, 1)
            }
        }
    }
}

/// Shows a diff, or why there is none. The cursor's line and the selection stand out where
/// there is a cursor, and a hint says what the keys do.
pub fn diff_viewer(
    area: Rect,
    pane: &DiffPane,
    highlights: &Vec<Vec<Span>>,
    empty_message: &str,
    repo_color: Option<Color>,
    show_cursor: bool,
    theme: &Theme,
) -> (face: DiffFace)
    ensures
        match (pane@.error, pane@.diff) {
            (Some(e), _) => face matches DiffFace::Error(m) && m@ == view::failure(*theme, e),
            (None, None) => face matches DiffFace::Message(m) && m@ == view::message(
                *theme,
                "Loading diff..."@,
            ),
            (None, Some(d)) => if d.lines.len() == 0 {
                face matches DiffFace::Message(m) && m@ == view::message(*theme, empty_message@)
            } else {
                rows_show(
                    face,
                    d,
                    wrapping::rows_of_spans(highlights@),
                    pane@.scroll,
                    match repo_color {
                        Some(c) => c,
                        None => theme.accent,
                    },
                    if show_cursor {
                        Some(pane.cursor)
                    } else {
                        None
                    },
                    if show_cursor {
                        pane.sel_anchor
                    } else {
                        None
                    },
                    area,
                    *theme,
                )
            },
        },
{
    if let Some(e) = &pane.error {
        return DiffFace::Error(failure_notice(e.as_str(), theme));
    }
    let diff = match &pane.diff {
        Some(d) => d,
        None => return DiffFace::Message(message_notice("Loading diff...", theme)),
    };
    assert(diff@.lines.len() == diff.lines@.len());
    if diff.lines.len() == 0 {
        return DiffFace::Message(message_notice(empty_message, theme));
    }
    let accent = match repo_color {
        Some(c) => c,
        None => theme.accent,
    };
    let cursor = if show_cursor {
        Some(pane.cursor)
    } else {
        None
    };
    let sel_anchor = if show_cursor {
        pane.sel_anchor
    } else {
        None
    };
    // Split area for hint bar when cursor is active
    let (body_area, hint) = if show_cursor && area.height >= 2 {
        let (body, hint_area) = split_bottom_row(area);
        let text = if sel_anchor.is_some() {
            " ↑↓ extend  Enter send  Esc cancel"
        } else {
            " v select  Enter send  Esc cancel"
        };
        let line = Span::of(text, style_on(theme.text_tertiary, theme.bg_surface));
        (body, Some((hint_area, line)))
    } else {
        (area, None)
    };
    let show = DiffShow { diff, highlights, accent, cursor, sel_anchor, width: body_area.width };
    let lines = diff_rows(&show, pane.scroll, body_area.height, theme);
    DiffFace::Rows { body_area, lines, hint }
}

// ── Laws ───────────────────────────────────────────────────────────

/// Moving the cursor keeps it in view, and within the diff.
pub proof fn moved_cursor_stays_in_view(pane: PaneView, height: int)
    requires
        height > 0,
        pane.scroll >= 0,
        0 <= pane.cursor <= pane.last_line(),
    ensures
        ({
            let p = pane.cursor_down(height);
            &&& p.scroll <= p.cursor < p.scroll + height
            &&& 0 <= p.cursor <= p.last_line()
        }),
        ({
            let p = pane.cursor_up(height);
            &&& p.scroll <= p.cursor < p.scroll + height
            &&& 0 <= p.cursor <= p.last_line()
        }),
{
}

/// A refresh never leaves the view or the cursor behind the end of the diff.
pub proof fn refreshed_pane_stays_within_the_diff(pane: PaneView, diff: ParsedDiff)
    requires
        pane.scroll >= 0,
        pane.cursor >= 0,
    ensures
        ({
            let p = pane.after_event(DiffEvent::Updated(diff));
            0 <= p.scroll <= p.last_line() && 0 <= p.cursor <= p.last_line()
        }),
{
}

/// Setting an anchor and taking it back leaves the selection as it was without one.
pub proof fn anchor_toggles(pane: PaneView)
    requires
        pane.sel_anchor is None,
    ensures
        pane.anchor_toggled().anchor_toggled() == pane,
{
}

/// The cursor goes by one line, up towards the first and down towards the last, and stays there;
/// the view scrolls by one line the same way.
pub proof fn panes_move_by_lines(pane: PaneView, height: int)
    requires
        pane.diff is Some,
        0 <= pane.cursor <= pane.last_line(),
        0 <= pane.scroll <= pane.last_line(),
    ensures
        pane.cursor > 0 ==> pane.cursor_up(height).cursor == pane.cursor - 1,
        pane.cursor == 0 ==> pane.cursor_up(height).cursor == 0,
        pane.cursor < pane.last_line() ==> pane.cursor_down(height).cursor == pane.cursor + 1,
        pane.cursor == pane.last_line() ==> pane.cursor_down(height).cursor == pane.cursor,
        pane.scroll > 0 ==> pane.scrolled_up().scroll == pane.scroll - 1,
        pane.scroll == 0 ==> pane.scrolled_up().scroll == 0,
        pane.scroll < pane.last_line() ==> pane.scrolled_down().scroll == pane.scroll + 1,
        pane.scroll == pane.last_line() ==> pane.scrolled_down().scroll == pane.scroll,
        pane.scrolled_up().cursor == pane.cursor && pane.scrolled_down().cursor == pane.cursor,
        pane.cursor_up(height).diff == pane.diff && pane.cursor_down(height).diff == pane.diff,
        pane.cursor_up(height).sel_anchor == pane.sel_anchor,
        pane.cursor_down(height).sel_anchor == pane.sel_anchor,
{
}

/// A refresh shows the new diff, and no error; a refresh that went wrong shows why, and the diff
/// from before stays below it.
pub proof fn refreshes_show_what_they_brought(pane: PaneView, diff: ParsedDiff, e: String)
    ensures
        pane.after_event(DiffEvent::Updated(diff)).diff == Some(diff@),
        pane.after_event(DiffEvent::Updated(diff)).error is None,
        pane.after_event(DiffEvent::Error(e)).error == Some(e@),
        pane.after_event(DiffEvent::Error(e)).diff == pane.diff,
{
}

/// What is selected are the lines from the anchor to the cursor, both among them, in whichever
/// order they stand; without an anchor it is the cursor's line.
pub proof fn selections_reach_from_anchor_to_cursor(count: int, cursor: int, anchor: usize)
    requires
        0 <= cursor < count,
        0 <= anchor < count,
    ensures
        ({
            let (lo, hi) = selection_range(count, cursor, Some(anchor));
            &&& lo <= hi
            &&& lo == cursor && hi == anchor || lo == anchor && hi == cursor
        }),
        selection_range(count, cursor, None) == (cursor, cursor),
{
}

/// A selected line of code is sent with the sign of its kind before it and a line end behind it,
/// below the name of its file where the line before was of another; other lines are not sent.
pub proof fn selected_lines_are_sent_with_their_signs(
    lines: Seq<gitdiff::DiffLineView>,
    line: gitdiff::DiffLineView,
    names: Seq<Seq<char>>,
)
    ensures
        ({
            let before = lines_text(lines, names);
            let after = lines_text(lines.push(line), names);
            let same_file = last_file(lines) == Some(line.file_idx) || line.file_idx >= names.len();
            let heading = if same_file {
                Seq::empty()
            } else {
                "# file: "@ + names[line.file_idx] + seq!['\n']
            };
            match line.kind {
                DiffLineKind::Add => after == before + heading + seq!['+'] + line.content
                    + seq!['\n'],
                DiffLineKind::Delete => after == before + heading + seq!['-'] + line.content
                    + seq!['\n'],
                DiffLineKind::Context => after == before + heading + seq![' '] + line.content
                    + seq!['\n'],
                _ => after == before,
            }
        }),
{
    assert(lines.push(line).drop_last() =~= lines);
    let before = lines_text(lines, names);
    let after = lines_text(lines.push(line), names);
    let same_file = last_file(lines) == Some(line.file_idx) || line.file_idx >= names.len();
    let heading = if same_file {
        Seq::empty()
    } else {
        "# file: "@ + names[line.file_idx] + seq!['\n']
    };
    if is_code(line.kind) {
        assert(after =~= before + heading + seq![line_sign(line.kind)] + line.content + seq!['\n']);
    }
}

/// A line number takes four cells, right-aligned; a number that is not there leaves them blank.
pub proof fn numbers_are_aligned(n: usize)
    requires
        n < 10000,
    ensures
        number4(Some(n)).len() == 4,
        number4(Some(n)).skip(4 - text::decimal(n as nat).len()) == text::decimal(n as nat),
        number4(None).len() == 4,
        forall|i: int| 0 <= i < 4 ==> #[trigger] number4(None)[i] == ' ',
{
    reveal_strlit("    ");
    reveal_with_fuel(text::ten_to, 5);
    crate::text::numbers_have_few_digits(n as nat, 4);
    assert(number4(Some(n)).skip(4 - text::decimal(n as nat).len()) =~= text::decimal(n as nat));
}

/// The first row of a line of code begins with its number in the old file, then that in the new
/// one, and a border; the rows that follow it begin blank.
pub proof fn rows_begin_with_their_numbers(look: DiffLook, theme: Theme, i: int, r: int)
    requires
        0 <= i < look.diff.lines.len(),
        r >= 0,
    ensures
        ({
            let line = look.diff.lines[i];
            let row = look.row(theme, i, r);
            let code = line.kind == DiffLineKind::Add || line.kind == DiffLineKind::Delete
                || line.kind == DiffLineKind::Context;
            if code && r == 0 {
                &&& row[0].content == number4(line.old_lineno) + number4(line.new_lineno)
                &&& row[1].content == "│"@
            } else {
                &&& row[0].content == "        "@
                &&& row[1].content == " "@
            }
        }),
        look.row(theme, i, r).len() >= 2 + look.content_rows(theme, i)[r].len(),
        look.row(theme, i, r).subrange(2, 2int + look.content_rows(theme, i)[r].len())
            == look.content_rows(theme, i)[r],
{
    let text = look.content_rows(theme, i)[r];
    assert(look.row(theme, i, r).subrange(2, 2int + text.len()) =~= text);
}

/// Added, deleted and unchanged lines are told apart by their ground, unless the cursor or the
/// selection is on them; the cursor stands out from the selection.
pub proof fn kinds_are_told_apart(look: DiffLook, theme: Theme, i: int)
    requires
        0 <= i < look.diff.lines.len(),
    ensures
        ({
            let ground = look.line_ground(theme, i);
            let kind = look.diff.lines[i].kind;
            let marked = look.is_cursor(i) || look.is_selected(i);
            &&& !marked && kind == DiffLineKind::Add ==> ground == theme.diff_add_bg
            &&& !marked && kind == DiffLineKind::Delete ==> ground == theme.diff_del_bg
            &&& !marked && kind == DiffLineKind::Context ==> ground == theme.bg_base
            &&& look.cursor == Some(i as usize) && i <= usize::MAX ==> ground == theme.bg_active
            &&& look.is_selected(i) && !look.is_cursor(i) ==> ground == theme.selection_bg
        }),
{
}

/// The view begins with the line that it is scrolled to.
pub proof fn views_begin_where_they_are_scrolled_to(
    look: DiffLook,
    theme: Theme,
    scroll: int,
    height: int,
)
    requires
        0 <= scroll < look.diff.lines.len(),
        height > 0,
    ensures
        look.in_view(theme, scroll, height).len() == height,
        look.in_view(theme, scroll, height)[0] == look.row(theme, scroll, 0),
{
    lemma_rows_prefix(look, theme, scroll, scroll + 1, look.diff.lines.len() as int);
    reveal_with_fuel(DiffLook::rows, 2);
    let first = look.rows(theme, scroll, scroll + 1);
    let all = look.rows(theme, scroll, look.diff.lines.len() as int);
    assert(look.rows(theme, scroll, scroll) =~= Seq::<Seq<style::SpanView>>::empty());
    assert(first =~= look.rows_of(theme, scroll));
    assert(look.content_rows(theme, scroll).len() > 0);
    assert(first[0] == look.row(theme, scroll, 0));
    assert(all.take(first.len() as int)[0] == all[0]);
}

/// A file is shown by its name, any other line by its text.
pub proof fn files_are_shown_by_name(look: DiffLook, i: int)
    requires
        0 <= i < look.diff.lines.len(),
    ensures
        ({
            let line = look.diff.lines[i];
            &&& line.kind == DiffLineKind::FileHeader && line.file_idx < look.diff.file_names.len()
                ==> look.content(i).skip(1) == look.diff.file_names[line.file_idx]
            &&& line.kind != DiffLineKind::FileHeader ==> look.content(i) == line.content
        }),
{
    reveal_strlit(" ");
    let line = look.diff.lines[i];
    if line.kind == DiffLineKind::FileHeader && line.file_idx < look.diff.file_names.len() {
        assert(look.content(i).skip(1) =~= look.diff.file_names[line.file_idx]);
    }
}

/// The text of a line of code is shown as it was highlighted, where it was; any other in the
/// color of its kind, the name of a file in bold.
pub proof fn lines_are_shown_highlighted(look: DiffLook, theme: Theme, i: int)
    requires
        0 <= i < look.diff.lines.len(),
    ensures
        ({
            let kind = look.diff.lines[i].kind;
            let code = kind == DiffLineKind::Add || kind == DiffLineKind::Delete || kind
                == DiffLineKind::Context;
            let highlighted = i < look.highlights.len() && look.highlights[i].len() > 0;
            let spans = look.content_spans(theme, i);
            &&& code && highlighted ==> spans == look.highlights[i]
            &&& !(code && highlighted) ==> {
                &&& spans.len() == 1
                &&& spans[0].content == look.content(i)
                &&& spans[0].style.bg == Some(look.line_ground(theme, i))
                &&& kind == DiffLineKind::Add || kind == DiffLineKind::Delete
                    ==> spans[0].style.fg == Some(theme.text_primary)
                &&& kind == DiffLineKind::Context ==> spans[0].style.fg == Some(
                    theme.text_secondary,
                )
                &&& kind == DiffLineKind::HunkHeader ==> spans[0].style.fg == Some(look.accent)
                &&& kind == DiffLineKind::FileMetadata ==> spans[0].style.fg == Some(
                    theme.text_tertiary,
                )
                &&& kind == DiffLineKind::FileHeader ==> spans[0].style.fg == Some(theme.bg_base)
                    && spans[0].style.add_modifier.bold
            }
        }),
{
}

/// A file's name stands on the accent, and what is said of a file or a hunk on a ground of its
/// own.
pub proof fn headers_stand_out(look: DiffLook, theme: Theme, i: int)
    requires
        0 <= i < look.diff.lines.len(),
        !look.is_cursor(i),
        !look.is_selected(i),
    ensures
        ({
            let kind = look.diff.lines[i].kind;
            let ground = look.line_ground(theme, i);
            &&& kind == DiffLineKind::FileHeader ==> ground == look.accent
            &&& kind == DiffLineKind::FileMetadata || kind == DiffLineKind::HunkHeader ==> ground
                == theme.bg_surface
        }),
{
}

/// The lines of the selection are those from the anchor to the cursor, whichever comes first,
/// both of them included.
pub proof fn selections_hold_both_ends(look: DiffLook, i: int)
    ensures
        look.is_selected(i) <==> look.cursor is Some && look.sel_anchor is Some && ((
        look.sel_anchor->0 <= i <= look.cursor->0) || (look.cursor->0 <= i <= look.sel_anchor->0)),
        look.is_cursor(i) <==> look.cursor is Some && look.cursor->0 == i,
{
}

/// The hint tells how to begin a selection, or how to extend the one begun.
pub proof fn hints_tell_of_the_selection(selecting: bool)
    ensures
        diff_hint(selecting)[1] == 'v' <==> !selecting,
{
    reveal_strlit(" ↑↓ extend  Enter send  Esc cancel");
    reveal_strlit(" v select  Enter send  Esc cancel");
}

} // verus!
