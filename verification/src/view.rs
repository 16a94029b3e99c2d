//! Building blocks of what is shown: areas, colours by their role, and one-line bars.

use vstd::prelude::*;

use crate::style;
use crate::style::{Color, Span, Style};
use crate::text::text_eq;

verus! {

/// An area of the terminal, in cells.
#[derive(Debug, Clone, Copy, PartialEq, Eq, Structural)]
pub struct Rect {
    pub x: u16,
    pub y: u16,
    pub width: u16,
    pub height: u16,
}

/// The colours of the interface, by their role.
pub struct Theme {
    pub accent: Color,
    pub accent_bright: Color,
    pub accent_dim: Color,
    pub accent_text: Color,
    pub bg_active: Color,
    pub bg_base: Color,
    pub bg_hover: Color,
    pub bg_input: Color,
    pub bg_overlay: Color,
    pub bg_raised: Color,
    pub bg_surface: Color,
    pub diff_add_bg: Color,
    pub diff_del_bg: Color,
    pub error: Color,
    pub info: Color,
    pub selection_bg: Color,
    pub success: Color,
    pub text_disabled: Color,
    pub text_primary: Color,
    pub text_secondary: Color,
    pub text_tertiary: Color,
    pub warning: Color,
    /// The colours that a repository can have, by name.
    pub repo_colors: Vec<(String, Color)>,
    /// The dimmed form of colours that have one.
    pub dimmed: Vec<(Color, Color)>,
}

/// The colour that the first entry with this name gives.
pub open spec fn color_named(table: Seq<(String, Color)>, name: Seq<char>, otherwise: Color) -> Color
    decreases table.len(),
{
    if table.len() == 0 {
        otherwise
    } else if table[0].0@ == name {
        table[0].1
    } else {
        color_named(table.skip(1), name, otherwise)
    }
}

/// The dimmed form of a colour: what the first entry for it gives, or the colour itself.
pub open spec fn dimmed_color(table: Seq<(Color, Color)>, color: Color) -> Color
    decreases table.len(),
{
    if table.len() == 0 {
        color
    } else if table[0].0 == color {
        table[0].1
    } else {
        dimmed_color(table.skip(1), color)
    }
}

impl Theme {
    pub open spec fn repo(self, name: Seq<char>) -> Color {
        color_named(self.repo_colors@, name, self.accent)
    }

    pub open spec fn dim(self, color: Color) -> Color {
        dimmed_color(self.dimmed@, color)
    }

    /// The colour of a repository, by the name of that colour; the accent for an unknown name.
    pub fn repo_color(&self, name: &str) -> (color: Color)
        ensures
            color == self.repo(name@),
    {
        let mut i: usize = 0;
        assert(self.repo_colors@.skip(0) =~= self.repo_colors@);
        while i < self.repo_colors.len()
            invariant
                i <= self.repo_colors@.len(),
                self.repo(name@) == color_named(
                    self.repo_colors@.skip(i as int),
                    name@,
                    self.accent,
                ),
            decreases self.repo_colors@.len() - i,
        {
            if text_eq(self.repo_colors[i].0.as_str(), name) {
                return self.repo_colors[i].1;
            }
            assert(self.repo_colors@.skip(i as int).skip(1) =~= self.repo_colors@.skip(i + 1));
            i += 1;
        }
        self.accent
    }

    /// The dimmed form of a colour.
    pub fn dim_color(&self, color: Color) -> (dim: Color)
        ensures
            dim == self.dim(color),
    {
        let mut i: usize = 0;
        assert(self.dimmed@.skip(0) =~= self.dimmed@);
        while i < self.dimmed.len()
            invariant
                i <= self.dimmed@.len(),
                self.dim(color) == dimmed_color(self.dimmed@.skip(i as int), color),
            decreases self.dimmed@.len() - i,
        {
            if self.dimmed[i].0 == color {
                return self.dimmed[i].1;
            }
            assert(self.dimmed@.skip(i as int).skip(1) =~= self.dimmed@.skip(i + 1));
            i += 1;
        }
        color
    }
}

/// Text in `fg` on the ground `bg`.
pub open spec fn on(fg: Color, bg: Color) -> Style {
    style::plain_style().spec_fg(fg).spec_bg(bg)
}

/// Nothing but the ground `bg`.
pub open spec fn ground(bg: Color) -> Style {
    style::plain_style().spec_bg(bg)
}

/// Text in `fg` on whatever lies below.
pub open spec fn ink(fg: Color) -> Style {
    style::plain_style().spec_fg(fg)
}

pub fn style_on(fg: Color, bg: Color) -> (s: Style)
    ensures
        s == on(fg, bg),
{
    Style::new().fg(fg).bg(bg)
}

pub fn style_ground(bg: Color) -> (s: Style)
    ensures
        s == ground(bg),
{
    Style::new().bg(bg)
}

pub fn style_ink(fg: Color) -> (s: Style)
    ensures
        s == ink(fg),
{
    Style::new().fg(fg)
}

pub open spec fn span(content: Seq<char>, style: Style) -> style::SpanView {
    style::SpanView { content, style }
}

/// `n` spaces.
pub open spec fn spaces(n: nat) -> Seq<char> {
    Seq::new(n, |i: int| ' ')
}

pub fn space_text(n: usize) -> (s: String)
    ensures
        s@ == spaces(n as nat),
{
    repeated(' ', n)
}

/// `c`, `n` times.
pub open spec fn times(c: char, n: nat) -> Seq<char> {
    Seq::new(n, |i: int| c)
}

pub fn repeated(c: char, n: usize) -> (s: String)
    ensures
        s@ == times(c, n as nat),
{
    let mut s = String::new();
    let mut i: usize = 0;
    assert(s@ =~= times(c, 0));
    while i < n
        invariant
            i <= n,
            s@ == times(c, i as nat),
        decreases n - i,
    {
        s.push(c);
        i += 1;
        assert(s@ =~= times(c, i as nat));
    }
    s
}

/// Appends a span.
pub fn push_span(spans: &mut Vec<Span>, text: &str, style: Style)
    ensures
        style::spans_view(final(spans)@) == style::spans_view(old(spans)@).push(span(text@, style)),
        final(spans)@.len() == old(spans)@.len() + 1,
{
    let ghost before = spans@;
    let s = Span::of(text, style);
    spans.push(s);
    assert(style::spans_view(spans@) =~= style::spans_view(before).push(span(text@, style)));
}

/// How a notice stands in its area.
#[derive(Debug, Clone, Copy, PartialEq, Eq, Structural)]
pub enum Flow {
    /// On one line, in the middle.
    Centered,
    /// From the left, on as many lines as it takes.
    Wrapped,
}

/// A text that has an area to itself.
#[derive(Debug, Clone)]
pub struct Notice {
    pub text: Span,
    pub flow: Flow,
    /// What the area looks like below the text.
    pub ground: Style,
}

pub ghost struct NoticeView {
    pub text: style::SpanView,
    pub flow: Flow,
    pub ground: Style,
}

impl View for Notice {
    type V = NoticeView;

    open spec fn view(&self) -> NoticeView {
        NoticeView { text: self.text@, flow: self.flow, ground: self.ground }
    }
}

/// A message in place of what there is nothing of.
pub open spec fn message(theme: Theme, text: Seq<char>) -> NoticeView {
    NoticeView {
        text: span(text, ink(theme.text_tertiary)),
        flow: Flow::Centered,
        ground: ground(theme.bg_base),
    }
}

/// What went wrong.
pub open spec fn failure(theme: Theme, text: Seq<char>) -> NoticeView {
    NoticeView {
        text: span(text, ink(theme.error)),
        flow: Flow::Wrapped,
        ground: ground(theme.bg_base),
    }
}

pub fn message_notice(text: &str, theme: &Theme) -> (notice: Notice)
    ensures
        notice@ == message(*theme, text@),
{
    Notice {
        text: Span::of(text, style_ink(theme.text_tertiary)),
        flow: Flow::Centered,
        ground: style_ground(theme.bg_base),
    }
}

pub fn failure_notice(text: &str, theme: &Theme) -> (notice: Notice)
    ensures
        notice@ == failure(*theme, text@),
{
    Notice {
        text: Span::of(text, style_ink(theme.error)),
        flow: Flow::Wrapped,
        ground: style_ground(theme.bg_base),
    }
}

/// How many characters a row of spans has.
pub open spec fn spans_width(spans: Seq<style::SpanView>) -> int
    decreases spans.len(),
{
    if spans.len() == 0 {
        0
    } else {
        spans_width(spans.drop_last()) + spans.last().content.len()
    }
}

/// How many characters a row of spans has, up to the machine's limit.
fn width_of(spans: &Vec<Span>) -> (n: usize)
    ensures
        n == (if spans_width(style::spans_view(spans@)) <= usize::MAX {
            spans_width(style::spans_view(spans@))
        } else {
            usize::MAX as int
        }),
{
    let ghost views = style::spans_view(spans@);
    let mut n: usize = 0;
    let mut i: usize = 0;
    while i < spans.len()
        invariant
            i <= spans@.len(),
            views == style::spans_view(spans@),
            0 <= spans_width(views.take(i as int)),
            n == (if spans_width(views.take(i as int)) <= usize::MAX {
                spans_width(views.take(i as int))
            } else {
                usize::MAX as int
            }),
        decreases spans@.len() - i,
    {
        let w = spans[i].content.as_str().unicode_len();
        n = n.saturating_add(w);
        i += 1;
        assert(views.take(i as int).drop_last() =~= views.take(i - 1));
        assert(views.take(i as int).last() == spans@[i - 1]@);
    }
    assert(views.take(i as int) =~= views);
    n
}

/// A row of spans filled up with spaces to a width.
pub open spec fn padded(spans: Seq<style::SpanView>, width: int, style: Style) -> Seq<style::SpanView> {
    let left = width - spans_width(spans);
    if left > 0 {
        spans.push(span(spaces(left as nat), style))
    } else {
        spans
    }
}

/// Fills a row of spans up with spaces to a width.
pub fn pad_to(spans: &mut Vec<Span>, width: u16, style: Style)
    ensures
        style::spans_view(final(spans)@) == padded(style::spans_view(old(spans)@), width as int, style),
{
    let n = width_of(spans);
    let left = (width as usize).saturating_sub(n);
    if left > 0 {
        let fill = space_text(left);
        push_span(spans, fill.as_str(), style);
    }
}

/// A padded row is at least as wide as asked, and exactly so unless it was wider before.
pub proof fn padded_row_fills_its_width(spans: Seq<style::SpanView>, width: int, style: Style)
    requires
        width >= 0,
    ensures
        spans_width(padded(spans, width, style)) == (if spans_width(spans) < width {
            width
        } else {
            spans_width(spans)
        }),
{
    let left = width - spans_width(spans);
    if left > 0 {
        let row = padded(spans, width, style);
        assert(row.drop_last() =~= spans);
        assert(spaces(left as nat).len() == left);
    }
}

// ── One-line bars ──────────────────────────────────────────────────

/// Where an item of a bar begins: behind the items before it.
pub open spec fn item_x(start: int, widths: Seq<int>, i: int) -> int
    decreases i,
{
    if i <= 0 {
        start
    } else {
        item_x(start, widths, i - 1) + widths[i - 1]
    }
}

/// The cells of an item that begins at `x`, where it ends within the bar.
pub open spec fn item_rect(area: Rect, x: int, width: int) -> Option<Rect> {
    if x + width <= area.x + area.width {
        Some(Rect { x: x as u16, y: area.y, width: width as u16, height: 1 })
    } else {
        None
    }
}

/// A running position in a bar.
pub struct BarCursor {
    pub area: Rect,
    /// The next column; it stops at the machine's limit, far behind any bar.
    pub x: usize,
}

impl BarCursor {
    /// Whether the cursor stands at column `x`, or both lie far behind the bar.
    pub open spec fn at(self, x: int) -> bool {
        x >= 0 && self.x == (if x <= usize::MAX {
            x
        } else {
            usize::MAX as int
        })
    }

    pub fn new(area: Rect) -> (c: Self)
        ensures
            c.area == area,
            c.at(area.x as int),
    {
        BarCursor { area, x: area.x as usize }
    }

    /// Takes the next `w` columns; returns their cells if they lie within the bar. `width` is
    /// `w`, up to the machine's limit, and `x` is where the cursor stands.
    pub(crate) fn take(&mut self, width: usize, Ghost(x): Ghost<int>, Ghost(w): Ghost<int>) -> (rect:
        Option<Rect>)
        requires
            old(self).at(x),
            w >= 0,
            width == (if w <= usize::MAX {
                w
            } else {
                usize::MAX as int
            }),
        ensures
            final(self).area == old(self).area,
            final(self).at(x + w),
            rect == item_rect(old(self).area, x, w),
    {
        let right: usize = self.area.x as usize + self.area.width as usize;
        let rect = if self.x <= right && width <= right - self.x {
            // An empty item at the far end of the widest bar has no cell to begin in
            Some(
                Rect {
                    x: #[verifier::truncate]
                    (self.x as u16),
                    y: self.area.y,
                    width: #[verifier::truncate]
                    (width as u16),
                    height: 1,
                },
            )
        } else {
            None
        };
        self.x = self.x.saturating_add(width);
        rect
    }
}

/// A name has the color of its first entry in the table, and a name without one the color that
/// stands in for it.
pub proof fn names_have_their_color(
    table: Seq<(String, Color)>,
    name: Seq<char>,
    otherwise: Color,
    i: int,
)
    requires
        0 <= i <= table.len(),
        forall|j: int| 0 <= j < i ==> (#[trigger] table[j]).0@ != name,
    ensures
        i < table.len() && table[i].0@ == name ==> color_named(table, name, otherwise)
            == table[i].1,
        i == table.len() ==> color_named(table, name, otherwise) == otherwise,
    decreases table.len(),
{
    if i > 0 {
        assert(table[0].0@ != name);
        let rest = table.skip(1);
        assert forall|j: int| 0 <= j < i - 1 implies (#[trigger] rest[j]).0@ != name by {
            assert(rest[j] == table[j + 1]);
        }
        names_have_their_color(rest, name, otherwise, i - 1);
    }
}

/// A color is dimmed to what its first entry in the table says, and one without an entry stays.
pub proof fn colors_are_dimmed(table: Seq<(Color, Color)>, color: Color, i: int)
    requires
        0 <= i <= table.len(),
        forall|j: int| 0 <= j < i ==> (#[trigger] table[j]).0 != color,
    ensures
        i < table.len() && table[i].0 == color ==> dimmed_color(table, color) == table[i].1,
        i == table.len() ==> dimmed_color(table, color) == color,
    decreases table.len(),
{
    if i > 0 {
        assert(table[0].0 != color);
        let rest = table.skip(1);
        assert forall|j: int| 0 <= j < i - 1 implies (#[trigger] rest[j]).0 != color by {
            assert(rest[j] == table[j + 1]);
        }
        colors_are_dimmed(rest, color, i - 1);
    }
}

/// A padded row begins with the row, and what is behind it is blank.
pub proof fn padding_goes_behind(spans: Seq<style::SpanView>, width: int, style: Style, k: int)
    ensures
        ({
            let row = padded(spans, width, style);
            &&& row.take(spans.len() as int) == spans
            &&& row.len() <= spans.len() + 1
            &&& row.len() > spans.len() ==> row.last().style == style
            &&& row.len() > spans.len() && 0 <= k < row.last().content.len()
                ==> row.last().content[k] == ' '
        }),
{
    assert(padded(spans, width, style).take(spans.len() as int) =~= spans);
}

/// The items of a bar stand side by side, the first one at the start. One that would stick out
/// of the bar has no place in it.
pub proof fn items_stand_side_by_side(start: int, widths: Seq<int>, i: int, area: Rect)
    requires
        0 <= i < widths.len(),
        0 <= widths[i] <= u16::MAX,
        0 <= item_x(start, widths, i) <= u16::MAX,
    ensures
        item_x(start, widths, 0) == start,
        item_x(start, widths, i + 1) == item_x(start, widths, i) + widths[i],
        ({
            let x = item_x(start, widths, i);
            let place = item_rect(area, x, widths[i]);
            &&& place is Some <==> x + widths[i] <= area.x + area.width
            &&& place is Some ==> place->0.x == x && place->0.width == widths[i] && place->0.y
                == area.y && place->0.height == 1
        }),
{
}

/// Ink colors the letters alone, a ground what is behind them, and both together do both.
pub proof fn ink_and_ground_are_kept_apart(fg: Color, bg: Color)
    ensures
        ink(fg).fg == Some(fg),
        ink(fg).bg is None,
        ground(bg).bg == Some(bg),
        ground(bg).fg is None,
        on(fg, bg).fg == Some(fg),
        on(fg, bg).bg == Some(bg),
{
}

/// A failure is told in the color for errors and wrapped; any other message is centered.
pub proof fn failures_are_told_apart(theme: Theme, text: Seq<char>)
    ensures
        failure(theme, text).text.content == text,
        failure(theme, text).text.style.fg == Some(theme.error),
        failure(theme, text).flow == Flow::Wrapped,
        message(theme, text).text.content == text,
        message(theme, text).text.style.fg == Some(theme.text_tertiary),
        message(theme, text).flow == Flow::Centered,
        failure(theme, text).ground.bg == Some(theme.bg_base),
        message(theme, text).ground.bg == Some(theme.bg_base),
{
}

} // verus!
