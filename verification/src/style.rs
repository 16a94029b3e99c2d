//! Colours, text attributes and styled text.

use vstd::prelude::*;

verus! {

/// A terminal colour.
#[derive(Debug, Clone, Copy, PartialEq, Eq, Structural)]
pub enum Color {
    Reset,
    Black,
    Red,
    Green,
    Yellow,
    Blue,
    Magenta,
    Cyan,
    Gray,
    DarkGray,
    LightRed,
    LightGreen,
    LightYellow,
    LightBlue,
    LightMagenta,
    LightCyan,
    White,
    Rgb(u8, u8, u8),
    Indexed(u8),
}

/// A set of text attributes.
#[derive(Debug, Clone, Copy, PartialEq, Eq, Structural)]
pub struct Modifier {
    pub bold: bool,
    pub dim: bool,
    pub italic: bool,
    pub underlined: bool,
    pub reversed: bool,
    pub hidden: bool,
    pub crossed_out: bool,
}

impl Modifier {
    /// No attribute at all.
    pub fn empty() -> (m: Modifier)
        ensures
            m == no_modifier(),
    {
        Modifier {
            bold: false,
            dim: false,
            italic: false,
            underlined: false,
            reversed: false,
            hidden: false,
            crossed_out: false,
        }
    }

    pub open spec fn spec_union(self, other: Modifier) -> Modifier {
        Modifier {
            bold: self.bold || other.bold,
            dim: self.dim || other.dim,
            italic: self.italic || other.italic,
            underlined: self.underlined || other.underlined,
            reversed: self.reversed || other.reversed,
            hidden: self.hidden || other.hidden,
            crossed_out: self.crossed_out || other.crossed_out,
        }
    }

    pub open spec fn spec_minus(self, other: Modifier) -> Modifier {
        Modifier {
            bold: self.bold && !other.bold,
            dim: self.dim && !other.dim,
            italic: self.italic && !other.italic,
            underlined: self.underlined && !other.underlined,
            reversed: self.reversed && !other.reversed,
            hidden: self.hidden && !other.hidden,
            crossed_out: self.crossed_out && !other.crossed_out,
        }
    }

    /// The attributes of either set.
    pub fn union(self, other: Modifier) -> (m: Modifier)
        ensures
            m == self.spec_union(other),
    {
        Modifier {
            bold: self.bold || other.bold,
            dim: self.dim || other.dim,
            italic: self.italic || other.italic,
            underlined: self.underlined || other.underlined,
            reversed: self.reversed || other.reversed,
            hidden: self.hidden || other.hidden,
            crossed_out: self.crossed_out || other.crossed_out,
        }
    }

    /// The attributes of this set that are not in `other`.
    pub fn minus(self, other: Modifier) -> (m: Modifier)
        ensures
            m == self.spec_minus(other),
    {
        Modifier {
            bold: self.bold && !other.bold,
            dim: self.dim && !other.dim,
            italic: self.italic && !other.italic,
            underlined: self.underlined && !other.underlined,
            reversed: self.reversed && !other.reversed,
            hidden: self.hidden && !other.hidden,
            crossed_out: self.crossed_out && !other.crossed_out,
        }
    }
}

pub open spec fn no_modifier() -> Modifier {
    Modifier {
        bold: false,
        dim: false,
        italic: false,
        underlined: false,
        reversed: false,
        hidden: false,
        crossed_out: false,
    }
}

pub open spec fn bold_only() -> Modifier {
    Modifier { bold: true, ..no_modifier() }
}

/// How a piece of text looks: a change to apply to what lies below it.
///
/// `add_modifier` holds the attributes that are switched on and `sub_modifier` those that are
/// switched off; an absent colour leaves the colour below.
#[derive(Debug, Clone, Copy, PartialEq, Eq, Structural)]
pub struct Style {
    pub fg: Option<Color>,
    pub bg: Option<Color>,
    pub add_modifier: Modifier,
    pub sub_modifier: Modifier,
}

pub open spec fn plain_style() -> Style {
    Style { fg: None, bg: None, add_modifier: no_modifier(), sub_modifier: no_modifier() }
}

impl Default for Style {
    fn default() -> (s: Style)
        ensures
            s == plain_style(),
    {
        Style { fg: None, bg: None, add_modifier: Modifier::empty(), sub_modifier: Modifier::empty() }
    }
}

impl Style {
    /// The style with nothing set.
    pub fn new() -> (s: Style)
        ensures
            s == plain_style(),
    {
        Style { fg: None, bg: None, add_modifier: Modifier::empty(), sub_modifier: Modifier::empty() }
    }

    pub open spec fn spec_fg(self, color: Color) -> Style {
        Style { fg: Some(color), ..self }
    }

    pub open spec fn spec_bg(self, color: Color) -> Style {
        Style { bg: Some(color), ..self }
    }

    /// Switches attributes on.
    pub open spec fn spec_add(self, m: Modifier) -> Style {
        Style {
            add_modifier: self.add_modifier.spec_union(m),
            sub_modifier: self.sub_modifier.spec_minus(m),
            ..self
        }
    }

    /// Switches attributes off.
    pub open spec fn spec_remove(self, m: Modifier) -> Style {
        Style {
            add_modifier: self.add_modifier.spec_minus(m),
            sub_modifier: self.sub_modifier.spec_union(m),
            ..self
        }
    }

    /// Sets the foreground colour.
    pub fn fg(self, color: Color) -> (s: Style)
        ensures
            s == self.spec_fg(color),
    {
        Style { fg: Some(color), ..self }
    }

    /// Sets the background colour.
    pub fn bg(self, color: Color) -> (s: Style)
        ensures
            s == self.spec_bg(color),
    {
        Style { bg: Some(color), ..self }
    }

    /// Switches attributes on.
    pub fn add_modifier(self, m: Modifier) -> (s: Style)
        ensures
            s == self.spec_add(m),
    {
        Style {
            add_modifier: self.add_modifier.union(m),
            sub_modifier: self.sub_modifier.minus(m),
            ..self
        }
    }

    /// Switches attributes off.
    pub fn remove_modifier(self, m: Modifier) -> (s: Style)
        ensures
            s == self.spec_remove(m),
    {
        Style {
            add_modifier: self.add_modifier.minus(m),
            sub_modifier: self.sub_modifier.union(m),
            ..self
        }
    }

    /// Switches bold on.
    pub fn bold(self) -> (s: Style)
        ensures
            s == self.spec_add(bold_only()),
    {
        self.add_modifier(Modifier { bold: true, ..Modifier::empty() })
    }
}

/// A run of text in one style.
#[derive(Debug, Clone)]
pub struct Span {
    pub content: String,
    pub style: Style,
}

pub ghost struct SpanView {
    pub content: Seq<char>,
    pub style: Style,
}

impl View for Span {
    type V = SpanView;

    open spec fn view(&self) -> SpanView {
        SpanView { content: self.content@, style: self.style }
    }
}

impl Span {
    pub fn new(content: String, style: Style) -> (span: Span)
        ensures
            span@ == (SpanView { content: content@, style }),
    {
        Span { content, style }
    }

    /// A span with a copy of `text`.
    pub fn of(text: &str, style: Style) -> (span: Span)
        ensures
            span@ == (SpanView { content: text@, style }),
    {
        Span { content: crate::text::copy_of(text), style }
    }

    pub fn copy(&self) -> (span: Span)
        ensures
            span@ == self@,
    {
        Span { content: self.content.clone(), style: self.style }
    }
}

/// The spans of a list, as their views.
pub open spec fn spans_view(spans: Seq<Span>) -> Seq<SpanView> {
    spans.map_values(|s: Span| s@)
}

/// One line of styled text.
#[derive(Debug, Clone)]
pub struct Line {
    pub spans: Vec<Span>,
}

impl View for Line {
    type V = Seq<SpanView>;

    open spec fn view(&self) -> Seq<SpanView> {
        spans_view(self.spans@)
    }
}

/// The lines of a list, as their views.
pub open spec fn lines_view(lines: Seq<Line>) -> Seq<Seq<SpanView>> {
    lines.map_values(|l: Line| l@)
}

/// The text of a line of spans, styles dropped.
pub open spec fn line_text(line: Seq<SpanView>) -> Seq<char>
    decreases line.len(),
{
    if line.len() == 0 {
        Seq::empty()
    } else {
        line_text(line.drop_last()) + line.last().content
    }
}

/// Switching an attribute on and off again, or off and on again, leaves the attribute's last
/// setting only: the two sets of a style stay disjoint if they were.
pub proof fn style_sets_stay_disjoint(style: Style, m: Modifier)
    requires
        style.add_modifier.spec_minus(style.sub_modifier) == style.add_modifier,
    ensures
        ({
            let s = style.spec_add(m);
            s.add_modifier.spec_minus(s.sub_modifier) == s.add_modifier
        }),
        ({
            let s = style.spec_remove(m);
            s.add_modifier.spec_minus(s.sub_modifier) == s.add_modifier
        }),
{
}

/// Switching attributes on makes exactly these show, and no longer hides them; switching them off
/// does the opposite. Colours stay.
pub proof fn attributes_are_switched(style: Style, m: Modifier)
    ensures
        ({
            let on = style.spec_add(m);
            let off = style.spec_remove(m);
            &&& on.fg == style.fg && on.bg == style.bg
            &&& off.fg == style.fg && off.bg == style.bg
            &&& m.bold ==> on.add_modifier.bold && !on.sub_modifier.bold
            &&& m.bold ==> !off.add_modifier.bold && off.sub_modifier.bold
            &&& m.dim ==> on.add_modifier.dim && !on.sub_modifier.dim
            &&& m.dim ==> !off.add_modifier.dim && off.sub_modifier.dim
            &&& m.italic ==> on.add_modifier.italic && !on.sub_modifier.italic
            &&& m.italic ==> !off.add_modifier.italic && off.sub_modifier.italic
            &&& m.underlined ==> on.add_modifier.underlined && !on.sub_modifier.underlined
            &&& m.underlined ==> !off.add_modifier.underlined && off.sub_modifier.underlined
            &&& m.reversed ==> on.add_modifier.reversed && !on.sub_modifier.reversed
            &&& m.reversed ==> !off.add_modifier.reversed && off.sub_modifier.reversed
            &&& m.hidden ==> on.add_modifier.hidden && !on.sub_modifier.hidden
            &&& m.hidden ==> !off.add_modifier.hidden && off.sub_modifier.hidden
            &&& m.crossed_out ==> on.add_modifier.crossed_out && !on.sub_modifier.crossed_out
            &&& m.crossed_out ==> !off.add_modifier.crossed_out && off.sub_modifier.crossed_out
        }),
        style.spec_add(no_modifier()) == style,
        style.spec_remove(no_modifier()) == style,
{
}

} // verus!
