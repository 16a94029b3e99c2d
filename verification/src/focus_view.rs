//! What focus mode shows: the tabs, the terminals and the comparison of branches.

use vstd::prelude::*;

use crate::diff_pane;
use crate::editing;
use crate::focus;
use crate::layout;
use crate::lists;
use crate::overview;
use crate::overview_view;
use crate::style;
use crate::term_complete;
use crate::text;
use crate::view;
use crate::wrapping;
use crate::branch_picker::{BranchPicker, BranchPickerMode};
use crate::diff_pane::{diff_viewer, DiffFace, DiffPane};
use crate::editing::around_cursor;
use crate::focus::{FocusModeState, FocusSide, LeftPanelTab, PrInfo};
use crate::layout::{split_focus, split_rows, split_top_and_bottom_row, split_top_row, Constraint};
use crate::overview::TerminalPanel;
use crate::overview_view::{agent_panel_face, empty_state, repo_color_of, AgentPanelFace};
use crate::protocol::BranchInfo;
use crate::style::{Color, Line, Span, Style};
use crate::term_complete::{CompletionState, POPUP_VISIBLE_ROWS};
use crate::text::{chars_of, copy_of, joined, push_decimal, string_of};
use crate::view::{
    message_notice, pad_to, push_span, space_text, style_ground, style_ink, style_on, Notice, Rect,
    Theme,
};

verus! {

// ── The tab bar ────────────────────────────────────────────────────

/// The colours of a tab or label: those of the focused side, of the other side, and of what is
/// not active.
pub open spec fn tab_colors(theme: Theme, active: bool, focused: bool) -> (Color, Color) {
    if active && focused {
        (theme.text_primary, theme.bg_overlay)
    } else if active {
        (theme.text_secondary, theme.bg_raised)
    } else {
        (theme.text_tertiary, theme.bg_surface)
    }
}

pub open spec fn bold_if(style: Style, bold: bool) -> Style {
    if bold {
        style.spec_add(style::bold_only())
    } else {
        style
    }
}

pub open spec fn tab_style(theme: Theme, active: bool, focused: bool) -> Style {
    let (fg, bg) = tab_colors(theme, active, focused);
    bold_if(view::on(fg, bg), active)
}

/// A tab: its name, and behind it the pull request that is compared, or what keys do in the
/// terminal.
pub open spec fn tab_spans(
    theme: Theme,
    tab: LeftPanelTab,
    active: bool,
    focused: bool,
    pr: Option<focus::PrView>,
    typing: bool,
) -> Seq<style::SpanView> {
    let (fg, bg) = tab_colors(theme, active, focused);
    let name = view::span(" "@ + tab.name() + " "@, tab_style(theme, active, focused));
    if tab == LeftPanelTab::Compare && pr is Some {
        seq![
            name,
            view::span(
                "PR #"@ + text::decimal(pr->0.number as nat) + " "@,
                bold_if(view::on(theme.info, bg), active),
            ),
        ]
    } else if tab == LeftPanelTab::Terminal && active {
        seq![
            name,
            if typing {
                view::span(" · type "@, bold_if(view::on(theme.info, bg), true))
            } else {
                view::span(" · nav "@, bold_if(view::on(theme.text_tertiary, bg), true))
            },
        ]
    } else {
        seq![name]
    }
}

/// What a tab bar is drawn with.
#[verifier::ext_equal]
pub ghost struct TabBar {
    pub active: LeftPanelTab,
    pub focused: bool,
    pub pr: Option<focus::PrView>,
    pub typing: bool,
}

pub open spec fn tab_at(i: int) -> LeftPanelTab {
    if i == 0 {
        LeftPanelTab::Changes
    } else if i == 1 {
        LeftPanelTab::Compare
    } else {
        LeftPanelTab::Terminal
    }
}

impl TabBar {
    pub open spec fn tab(self, theme: Theme, i: int) -> Seq<style::SpanView> {
        let tab = tab_at(i);
        tab_spans(theme, tab, tab == self.active, self.focused, self.pr, self.typing)
    }

    pub open spec fn separator(self, theme: Theme) -> style::SpanView {
        view::span("│"@, view::on(theme.text_tertiary, theme.bg_surface))
    }

    /// The first `n` tabs, with what parts them.
    pub open spec fn tabs(self, theme: Theme, n: int) -> Seq<style::SpanView>
        decreases n,
    {
        if n <= 0 {
            Seq::empty()
        } else {
            let before = self.tabs(theme, n - 1);
            if n == 1 {
                before + self.tab(theme, 0)
            } else {
                before.push(self.separator(theme)) + self.tab(theme, n - 1)
            }
        }
    }

    /// Where tab `i` begins.
    pub open spec fn tab_x(self, theme: Theme, area: Rect, i: int) -> int {
        area.x + view::spans_width(self.tabs(theme, i)) + if i > 0 {
            1int
        } else {
            0
        }
    }

    /// The cells of tab `i`.
    pub open spec fn tab_rect(self, theme: Theme, area: Rect, i: int) -> Rect {
        Rect {
            x: self.tab_x(theme, area, i) as u16,
            y: area.y,
            width: view::spans_width(self.tab(theme, i)) as u16,
            height: 1,
        }
    }

    /// Whether all tabs lie within the range of coordinates.
    pub open spec fn fits(self, theme: Theme, area: Rect) -> bool {
        area.x + view::spans_width(self.tabs(theme, 3)) <= u16::MAX
    }
}

pub proof fn lemma_width_adds(a: Seq<style::SpanView>, b: Seq<style::SpanView>)
    ensures
        view::spans_width(a + b) == view::spans_width(a) + view::spans_width(b),
        view::spans_width(b) >= 0,
    decreases b.len(),
{
    if b.len() == 0 {
        assert(a + b =~= a);
    } else {
        assert((a + b).drop_last() =~= a + b.drop_last());
        lemma_width_adds(a, b.drop_last());
    }
}

pub proof fn lemma_width_of_one(s: style::SpanView)
    ensures
        view::spans_width(seq![s]) == s.content.len(),
{
    reveal_with_fuel(view::spans_width, 2);
    assert(seq![s].drop_last() =~= Seq::<style::SpanView>::empty());
}

pub proof fn lemma_width_of_two(s: style::SpanView, t: style::SpanView)
    ensures
        view::spans_width(seq![s, t]) == s.content.len() + t.content.len(),
{
    assert(seq![s, t] =~= seq![s] + seq![t]);
    lemma_width_adds(seq![s], seq![t]);
    lemma_width_of_one(s);
    lemma_width_of_one(t);
}

/// The tab bar of the left side.
pub struct TabBarFace {
    pub spans: Vec<Span>,
    pub tabs: Vec<(Rect, LeftPanelTab)>,
}

fn bold_when(style: Style, bold: bool) -> (s: Style)
    ensures
        s == bold_if(style, bold),
{
    if bold {
        style.bold()
    } else {
        style
    }
}

fn colors_of(theme: &Theme, active: bool, focused: bool) -> (c: (Color, Color))
    ensures
        c == tab_colors(*theme, active, focused),
{
    if active && focused {
        (theme.text_primary, theme.bg_overlay)
    } else if active {
        (theme.text_secondary, theme.bg_raised)
    } else {
        (theme.text_tertiary, theme.bg_surface)
    }
}

/// Appends a tab; returns its width.
fn push_tab(
    spans: &mut Vec<Span>,
    theme: &Theme,
    tab: LeftPanelTab,
    active: bool,
    focused: bool,
    pr: &Option<PrInfo>,
    typing: bool,
) -> (width: u16)
    requires
        view::spans_width(tab_spans(*theme, tab, active, focused, opt_pr(*pr), typing)) <= u16::MAX,
    ensures
        style::spans_view(final(spans)@) == style::spans_view(old(spans)@) + tab_spans(
            *theme,
            tab,
            active,
            focused,
            opt_pr(*pr),
            typing,
        ),
        width == view::spans_width(tab_spans(*theme, tab, active, focused, opt_pr(*pr), typing)),
{
    let ghost before = style::spans_view(spans@);
    let ghost own = tab_spans(*theme, tab, active, focused, opt_pr(*pr), typing);
    let (fg, bg) = colors_of(theme, active, focused);
    let mut label = joined(" ", tab.label());
    label.push_str(" ");
    let label_width = label.as_str().unicode_len();
    let style = bold_when(style_on(fg, bg), active);
    push_span(spans, label.as_str(), style);
    let ghost name = view::span(label@, tab_style(*theme, active, focused));
    assert(own[0] == name);
    let is_compare = match tab {
        LeftPanelTab::Compare => true,
        _ => false,
    };
    let is_terminal = match tab {
        LeftPanelTab::Terminal => true,
        _ => false,
    };
    if is_compare {
        if let Some(pr) = pr {
            // The pull request goes behind the name of the Compare tab
            let mut text = copy_of("PR #");
            push_decimal(&mut text, pr.number);
            text.push_str(" ");
            let more = text.as_str().unicode_len();
            push_span(spans, text.as_str(), bold_when(style_on(theme.info, bg), active));
            proof {
                assert(own =~= seq![own[0], own[1]]);
                lemma_width_of_two(own[0], own[1]);
                assert(style::spans_view(spans@) =~= before + own);
            }
            return (label_width + more) as u16;
        }
    }
    if is_terminal && active {
        // A hint so the user can see at a glance whether typing reaches the shell
        let (text, ink) = if typing {
            (" · type ", theme.info)
        } else {
            (" · nav ", theme.text_tertiary)
        };
        let more = text.unicode_len();
        push_span(spans, text, bold_when(style_on(ink, bg), true));
        proof {
            assert(own =~= seq![own[0], own[1]]);
            lemma_width_of_two(own[0], own[1]);
            assert(style::spans_view(spans@) =~= before + own);
        }
        return (label_width + more) as u16;
    }
    proof {
        assert(own =~= seq![own[0]]);
        lemma_width_of_one(own[0]);
        assert(style::spans_view(spans@) =~= before + own);
    }
    label_width as u16
}

pub open spec fn opt_pr(pr: Option<PrInfo>) -> Option<focus::PrView> {
    match pr {
        Some(p) => Some(focus::pr_view(p)),
        None => None,
    }
}

/// The tab bar: the three tabs side by side, and where a click on each of them lies.
pub fn left_tab_bar(
    area: Rect,
    active: LeftPanelTab,
    panel_focused: bool,
    pr_info: &Option<PrInfo>,
    typing: bool,
    theme: &Theme,
) -> (face: TabBarFace)
    requires
        (TabBar { active, focused: panel_focused, pr: opt_pr(*pr_info), typing }).fits(*theme, area),
    ensures
        ({
            let bar = TabBar { active, focused: panel_focused, pr: opt_pr(*pr_info), typing };
            &&& style::spans_view(face.spans@) == view::padded(
                bar.tabs(*theme, 3),
                area.width as int,
                view::ground(theme.bg_surface),
            )
            &&& face.tabs@ == Seq::new(
                3,
                |i: int| (bar.tab_rect(*theme, area, i), tab_at(i)),
            )
        }),
{
    let ghost bar = TabBar { active, focused: panel_focused, pr: opt_pr(*pr_info), typing };
    let ghost goal = Seq::new(3, |i: int| (bar.tab_rect(*theme, area, i), tab_at(i)));
    let all = vec![LeftPanelTab::Changes, LeftPanelTab::Compare, LeftPanelTab::Terminal];
    let mut spans: Vec<Span> = Vec::new();
    let mut tabs: Vec<(Rect, LeftPanelTab)> = Vec::new();
    let mut x: u16 = area.x;
    let mut i: usize = 0;
    assert(style::spans_view(spans@) =~= bar.tabs(*theme, 0));
    assert(tabs@ =~= goal.take(0));
    while i < all.len()
        invariant
            i <= 3,
            all@ == seq![LeftPanelTab::Changes, LeftPanelTab::Compare, LeftPanelTab::Terminal],
            bar == (TabBar { active, focused: panel_focused, pr: opt_pr(*pr_info), typing }),
            goal == Seq::new(3, |i: int| (bar.tab_rect(*theme, area, i), tab_at(i))),
            bar.fits(*theme, area),
            style::spans_view(spans@) == bar.tabs(*theme, i as int),
            x == area.x + view::spans_width(bar.tabs(*theme, i as int)),
            tabs@ == goal.take(i as int),
        decreases 3 - i,
    {
        let ghost done = bar.tabs(*theme, i as int);
        proof {
            lemma_tabs_grow(bar, *theme, i + 1, 3);
            lemma_width_adds(done, seq![bar.separator(*theme)]);
            lemma_width_of_one(bar.separator(*theme));
            reveal_strlit("│");
            lemma_width_adds(done.push(bar.separator(*theme)), bar.tab(*theme, i as int));
            lemma_width_adds(done, bar.tab(*theme, i as int));
            assert(done.push(bar.separator(*theme)) =~= done + seq![bar.separator(*theme)]);
        }
        if i > 0 {
            push_span(&mut spans, "│", style_on(theme.text_tertiary, theme.bg_surface));
            x += 1;
        }
        let tab = all[i];
        assert(tab == tab_at(i as int));
        let ghost parted = style::spans_view(spans@);
        let width = push_tab(&mut spans, theme, tab, tab == active, panel_focused, pr_info, typing);
        assert(x == bar.tab_x(*theme, area, i as int));
        tabs.push((Rect { x, y: area.y, width, height: 1 }, tab));
        x += width;
        i += 1;
        proof {
            assert(goal.take(i as int) =~= goal.take(i - 1).push(goal[i - 1]));
            assert(style::spans_view(spans@) =~= bar.tabs(*theme, i as int));
        }
    }
    // Fill rest with background
    pad_to(&mut spans, area.width, style_ground(theme.bg_surface));
    assert(goal.take(3) =~= goal);
    TabBarFace { spans, tabs }
}

proof fn lemma_tabs_grow(bar: TabBar, theme: Theme, i: int, n: int)
    requires
        0 <= i <= n,
    ensures
        view::spans_width(bar.tabs(theme, i)) <= view::spans_width(bar.tabs(theme, n)),
    decreases n - i,
{
    if i < n {
        lemma_tabs_grow(bar, theme, i, n - 1);
        let before = bar.tabs(theme, n - 1);
        lemma_width_adds(before, seq![bar.separator(theme)]);
        lemma_width_adds(before.push(bar.separator(theme)), bar.tab(theme, n - 1));
        lemma_width_adds(before, bar.tab(theme, n - 1));
        assert(before.push(bar.separator(theme)) =~= before + seq![bar.separator(theme)]);
    }
}

/// The tabs fit wherever 120 columns remain.
pub proof fn tabs_take_few_columns(bar: TabBar, theme: Theme, area: Rect)
    requires
        area.x + 120 <= u16::MAX,
    ensures
        bar.fits(theme, area),
{
    assert forall|i: int| 0 <= i < 3 implies #[trigger] view::spans_width(bar.tab(theme, i)) <= 34 by {
        let tab = tab_at(i);
        reveal_strlit(" ");
        reveal_strlit("Changes");
        reveal_strlit("Compare");
        reveal_strlit("Terminal");
        reveal_strlit("PR #");
        reveal_strlit(" · type ");
        reveal_strlit(" · nav ");
        let own = bar.tab(theme, i);
        if bar.pr is Some {
            let n = bar.pr->0.number as nat;
            reveal_with_fuel(text::ten_to, 21);
            crate::text::numbers_have_few_digits(n, 20);
        }
        if own.len() == 1 {
            assert(own =~= seq![own[0]]);
            lemma_width_of_one(own[0]);
        } else {
            assert(own =~= seq![own[0], own[1]]);
            lemma_width_of_two(own[0], own[1]);
        }
    }
    reveal_strlit("│");
    let sep = bar.separator(theme);
    lemma_width_of_one(sep);
    reveal_with_fuel(TabBar::tabs, 4);
    let first = bar.tab(theme, 0);
    let none = Seq::<style::SpanView>::empty();
    let one = bar.tabs(theme, 1);
    let two = bar.tabs(theme, 2);
    lemma_width_adds(none, first);
    lemma_width_adds(one, seq![sep]);
    lemma_width_adds(one.push(sep), bar.tab(theme, 1));
    lemma_width_adds(two, seq![sep]);
    lemma_width_adds(two.push(sep), bar.tab(theme, 2));
    assert(one.push(sep) =~= one + seq![sep]);
    assert(two.push(sep) =~= two + seq![sep]);
    assert(view::spans_width(none) == 0);
}

// ── The strip of terminals ─────────────────────────────────────────

/// A terminal's label: its number, and whether its shell has ended or it is the current one.
pub open spec fn terminal_label(t: overview::TerminalView, idx: int, current: int) -> Seq<char> {
    " "@ + text::decimal((idx + 1) as nat) + (if t.exited {
        "× "@
    } else if idx == current {
        "* "@
    } else {
        " "@
    })
}

/// What the strip of terminals is drawn with.
#[verifier::ext_equal]
pub ghost struct Strip {
    pub terminals: Seq<overview::TerminalView>,
    pub current: int,
    pub focused: bool,
    pub area: Rect,
}

/// The strip while it is filled from the left.
#[verifier::ext_equal]
pub ghost struct Labels {
    pub x: int,
    pub spans: Seq<style::SpanView>,
    pub targets: Seq<(Rect, usize)>,
}

impl Strip {
    pub open spec fn end(self) -> int {
        overview::imin(self.area.x + self.area.width, u16::MAX as int)
    }

    /// Where labels have to end, to leave room for the button.
    pub open spec fn labels_end(self) -> int {
        overview::imax(self.end() - 3, 0)
    }

    pub open spec fn label(self, i: int) -> Seq<char> {
        terminal_label(self.terminals[i], i, self.current)
    }

    pub open spec fn start(self) -> Labels {
        Labels { x: self.area.x as int, spans: Seq::empty(), targets: Seq::empty() }
    }

    /// Label `i` in its place. It can be clicked once its shell has reported in.
    pub open spec fn with_label(self, theme: Theme, s: Labels, i: int) -> Labels {
        let label = self.label(i);
        let end = s.x + label.len();
        let spans = s.spans.push(
            view::span(label, tab_style(theme, i == self.current, self.focused)),
        );
        let gap = i + 1 < self.terminals.len() && end < self.labels_end();
        Labels {
            x: if gap {
                end + 1
            } else {
                end
            },
            spans: if gap {
                spans.push(view::span(" "@, view::ground(theme.bg_surface)))
            } else {
                spans
            },
            targets: if self.terminals[i].id.len() > 0 {
                s.targets.push(
                    (
                        Rect {
                            x: s.x as u16,
                            y: self.area.y,
                            width: label.len() as u16,
                            height: 1,
                        },
                        i as usize,
                    ),
                )
            } else {
                s.targets
            },
        }
    }

    /// The labels from `i` on, as far as there is room, and an ellipsis where they are cut off.
    pub open spec fn labelled(self, theme: Theme, s: Labels, i: int) -> Labels
        decreases self.terminals.len() - i,
    {
        if i >= self.terminals.len() {
            s
        } else if s.x + self.label(i).len() > self.labels_end() {
            if s.x < self.labels_end() {
                Labels {
                    x: s.x + 1,
                    spans: s.spans.push(view::span("…"@, view::on(theme.text_tertiary, theme.bg_surface))),
                    ..s
                }
            } else {
                s
            }
        } else {
            self.labelled(theme, self.with_label(theme, s, i), i + 1)
        }
    }

    pub open spec fn button_fits(self, s: Labels) -> bool {
        s.x + 3 <= self.end()
    }

    /// The whole strip: the button for a new terminal goes to the far right, if it fits.
    pub open spec fn spans(self, theme: Theme) -> Seq<style::SpanView> {
        let s = self.labelled(theme, self.start(), 0);
        if self.button_fits(s) {
            let gap = self.end() - s.x - 3;
            let filled = if gap > 0 {
                s.spans.push(view::span(view::spaces(gap as nat), view::ground(theme.bg_surface)))
            } else {
                s.spans
            };
            filled.push(view::span(" + "@, bold_if(view::on(theme.text_secondary, theme.bg_raised), true)))
        } else {
            s.spans
        }
    }

    pub open spec fn button(self, theme: Theme) -> Option<Rect> {
        if self.button_fits(self.labelled(theme, self.start(), 0)) {
            Some(Rect { x: (self.end() - 3) as u16, y: self.area.y, width: 3, height: 1 })
        } else {
            None
        }
    }
}

/// The strip of terminals.
pub struct TerminalStripFace {
    pub spans: Vec<Span>,
    pub labels: Vec<(Rect, usize)>,
    pub new_button: Option<Rect>,
}

/// The per-terminal label strip: `[1] [2*] [3]    [+]`. The active
/// terminal is shown with the strong overlay background; idle terminals use
/// the surface background.
pub fn terminal_label_strip(
    area: Rect,
    panels: &Vec<TerminalPanel>,
    current_idx: usize,
    panel_focused: bool,
    theme: &Theme,
) -> (face: TerminalStripFace)
    ensures
        ({
            let strip = Strip {
                terminals: overview::terminals_view(panels@),
                current: current_idx as int,
                focused: panel_focused,
                area,
            };
            &&& style::spans_view(face.spans@) == strip.spans(*theme)
            &&& face.labels@ == strip.labelled(*theme, strip.start(), 0).targets
            &&& face.new_button == strip.button(*theme)
        }),
{
    let ghost strip = Strip {
        terminals: overview::terminals_view(panels@),
        current: current_idx as int,
        focused: panel_focused,
        area,
    };
    let ghost whole = strip.labelled(*theme, strip.start(), 0);
    let mut spans: Vec<Span> = Vec::new();
    let mut labels: Vec<(Rect, usize)> = Vec::new();
    let end: u16 = area.x.saturating_add(area.width);
    let labels_end: u16 = end.saturating_sub(3);
    let mut x: u16 = area.x;
    let mut truncated = false;
    let mut i: usize = 0;
    assert(style::spans_view(spans@) =~= Seq::<style::SpanView>::empty());
    while i < panels.len() && !truncated
        invariant
            i <= panels@.len(),
            strip == (Strip {
                terminals: overview::terminals_view(panels@),
                current: current_idx as int,
                focused: panel_focused,
                area,
            }),
            end == strip.end(),
            labels_end == strip.labels_end(),
            x <= labels_end || spans@.len() == 0,
            whole == strip.labelled(
                *theme,
                Labels { x: x as int, spans: style::spans_view(spans@), targets: labels@ },
                i as int,
            ),
            truncated ==> i < panels@.len() && x + strip.label(i as int).len() > labels_end,
        decreases
                panels@.len() - i,
                if truncated {
                    0int
                } else {
                    1
                },
    {
        let ghost s = Labels { x: x as int, spans: style::spans_view(spans@), targets: labels@ };
        let panel = &panels[i];
        assert(strip.terminals[i as int] == panel@);
        let is_active = i == current_idx;
        let mut label = copy_of(" ");
        push_decimal(&mut label, i + 1);
        if panel.exited {
            label.push_str("× ");
        } else if is_active {
            label.push_str("* ");
        } else {
            label.push_str(" ");
        }
        assert(label@ =~= strip.label(i as int));
        let (fg, bg) = colors_of(theme, is_active, panel_focused);
        let width = label.as_str().unicode_len();
        // If this label would extend past the reserved budget, stop adding
        // labels. Click rects beyond the visible region must not be registered or clicks land
        // on hidden cells.
        if x > labels_end || width > (labels_end - x) as usize {
            truncated = true;
        } else {
            let w = width as u16;
            // The label is shown even when the panel id is empty, but without a target, so the
            // user can't switch into a panel that hasn't received its hub-assigned id yet.
            if !panel.id.as_str().is_empty() {
                labels.push((Rect { x, y: area.y, width: w, height: 1 }, i));
            }
            push_span(&mut spans, label.as_str(), bold_when(style_on(fg, bg), is_active));
            x += w;
            // separator between labels (small gap)
            if i + 1 < panels.len() && x < labels_end {
                push_span(&mut spans, " ", style_ground(theme.bg_surface));
                x += 1;
            }
            proof {
                assert(strip.terminals.len() == panels@.len());
                assert(Labels { x: x as int, spans: style::spans_view(spans@), targets: labels@ }
                    =~= strip.with_label(*theme, s, i as int));
            }
            i += 1;
        }
    }
    assert(strip.terminals.len() == panels@.len());
    if truncated && x < labels_end {
        push_span(&mut spans, "…", style_on(theme.text_tertiary, theme.bg_surface));
        x += 1;
    }
    assert(whole == (Labels { x: x as int, spans: style::spans_view(spans@), targets: labels@ }));
    // Spacer up to the right-aligned button. It is shown only if it fits.
    let mut new_button: Option<Rect> = None;
    if x <= end && end - x >= 3 {
        let gap = end - x - 3;
        if gap > 0 {
            let fill = space_text(gap as usize);
            push_span(&mut spans, fill.as_str(), style_ground(theme.bg_surface));
        }
        push_span(
            &mut spans,
            " + ",
            bold_when(style_on(theme.text_secondary, theme.bg_raised), true),
        );
        new_button = Some(Rect { x: end - 3, y: area.y, width: 3, height: 1 });
    }
    TerminalStripFace { spans, labels, new_button }
}

/// The labels and the button never overlap: every label that can be clicked ends before the
/// room that is kept for the button.
pub proof fn labels_end_before_the_button(strip: Strip, theme: Theme, s: Labels, i: int, k: int)
    requires
        0 <= i,
        0 <= s.x,
        0 <= k < strip.labelled(theme, s, i).targets.len(),
        forall|j: int|
            0 <= j < s.targets.len() ==> (#[trigger] s.targets[j]).0.x + s.targets[j].0.width
                <= strip.labels_end(),
    ensures
        strip.labelled(theme, s, i).targets[k].0.x + strip.labelled(
            theme,
            s,
            i,
        ).targets[k].0.width <= strip.labels_end(),
    decreases strip.terminals.len() - i,
{
    if i < strip.terminals.len() && s.x + strip.label(i).len() <= strip.labels_end() {
        let next = strip.with_label(theme, s, i);
        assert forall|j: int| 0 <= j < next.targets.len() implies (#[trigger] next.targets[j]).0.x
            + next.targets[j].0.width <= strip.labels_end() by {
            if j < s.targets.len() {
                assert(next.targets[j] == s.targets[j]);
            }
        }
        labels_end_before_the_button(strip, theme, next, i + 1, k);
    }
}

proof fn lemma_labels_leave_room(strip: Strip, theme: Theme, s: Labels, i: int)
    requires
        s.x <= strip.labels_end(),
    ensures
        strip.labelled(theme, s, i).x <= strip.labels_end(),
    decreases strip.terminals.len() - i,
{
    if i < strip.terminals.len() && s.x + strip.label(i).len() <= strip.labels_end() {
        lemma_labels_leave_room(strip, theme, strip.with_label(theme, s, i), i + 1);
    }
}

/// The button for a new terminal is always there, at the far right, wherever the strip has room
/// for it: however many terminals there are, their labels do not push it out.
pub proof fn the_button_is_always_there(strip: Strip, theme: Theme)
    requires
        strip.area.width >= 3,
        layout::in_range(strip.area),
    ensures
        strip.button(theme) == Some(
            Rect {
                x: (strip.area.x + strip.area.width - 3) as u16,
                y: strip.area.y,
                width: 3,
                height: 1,
            },
        ),
        strip.spans(theme).last() == view::span(
            " + "@,
            bold_if(view::on(theme.text_secondary, theme.bg_raised), true),
        ),
{
    lemma_labels_leave_room(strip, theme, strip.start(), 0);
}

// ── The completion popup ───────────────────────────────────────────

/// The widest of some candidates.
pub open spec fn widest(items: Seq<term_complete::ItemView>) -> int
    decreases items.len(),
{
    if items.len() == 0 {
        0
    } else {
        overview::imax(widest(items.drop_last()), (items.last().display.len() as u16) as int)
    }
}

pub open spec fn popup_width(popup: focus::PopupView, area: Rect) -> int {
    // Borders and padding on both sides
    let desired = overview::imax(overview::imin(widest(popup.items) + 4, u16::MAX as int), 10);
    overview::imin(desired, overview::imax(area.width as int, 1))
}

pub open spec fn popup_height(popup: focus::PopupView, area: Rect) -> int {
    overview::imin(
        overview::imin(popup.items.len() as int, POPUP_VISIBLE_ROWS as int) + 2,
        overview::imax(area.height as int, 1),
    )
}

/// Where a popup goes: above the cursor where there is room, else below it, and never over the
/// right edge.
pub open spec fn popup_rect(popup: focus::PopupView, area: Rect, cursor_x: u16, cursor_y: u16) -> Rect {
    let width = popup_width(popup, area);
    let height = popup_height(popup, area);
    let above = overview::imax(cursor_y - area.y, 0);
    let y = if above >= height {
        cursor_y - height
    } else {
        overview::imin(
            overview::imin(cursor_y + 1, u16::MAX as int),
            area.y + overview::imax(area.height - height, 0),
        )
    };
    let x = overview::imax(
        overview::imin(cursor_x as int, area.x + overview::imax(area.width - width, 0)),
        area.x as int,
    );
    Rect { x: x as u16, y: y as u16, width: width as u16, height: height as u16 }
}

pub open spec fn popup_row(theme: Theme, popup: focus::PopupView, i: int) -> Seq<style::SpanView> {
    seq![
        view::span(
            " "@ + popup.items[i].display + " "@,
            if i == popup.selected {
                view::on(theme.text_primary, theme.selection_bg).spec_add(style::bold_only())
            } else {
                view::on(theme.text_secondary, theme.bg_surface)
            },
        ),
    ]
}

/// The candidates in view, one row each.
pub open spec fn popup_rows(theme: Theme, popup: focus::PopupView) -> Seq<Seq<style::SpanView>> {
    Seq::new(
        overview::imax(
            overview::imin(popup.items.len() - popup.scroll, POPUP_VISIBLE_ROWS as int),
            0,
        ) as nat,
        |k: int| popup_row(theme, popup, popup.scroll + k),
    )
}

/// The completion popup: a small bordered list near the shell cursor.
pub struct PopupFace {
    pub rect: Rect,
    /// The look of the bordered block, and what lies below it.
    pub block: Style,
    pub ground: Style,
    pub lines: Vec<Line>,
}

/// Whether a face shows a popup near a cursor.
pub open spec fn popup_shows(
    face: PopupFace,
    popup: focus::PopupView,
    area: Rect,
    cursor_x: u16,
    cursor_y: u16,
    theme: Theme,
) -> bool {
    &&& face.rect == popup_rect(popup, area, cursor_x, cursor_y)
    &&& face.block == view::on(theme.text_tertiary, theme.bg_surface)
    &&& face.ground == view::ground(theme.bg_surface)
    &&& style::lines_view(face.lines@) == popup_rows(theme, popup)
}

/// The tab-completion popup as a small bordered list near the shell
/// cursor. Placed above the cursor when there's room above; otherwise below.
pub fn completion_popup(
    area: Rect,
    cursor_x: u16,
    cursor_y: u16,
    state: &CompletionState,
    theme: &Theme,
) -> (face: Option<PopupFace>)
    requires
        layout::in_range(area),
    ensures
        match face {
            Some(f) => {
                &&& state.items@.len() > 0
                &&& popup_shows(f, focus::popup_view(*state), area, cursor_x, cursor_y, *theme)
            },
            None => state.items@.len() == 0,
        },
{
    let ghost popup = focus::popup_view(*state);
    let count = state.items.len();
    assert(popup.items.len() == count);
    if count == 0 {
        return None;
    }
    let mut most: u16 = 0;
    let mut i: usize = 0;
    assert(popup.items.take(0) =~= Seq::<term_complete::ItemView>::empty());
    while i < count
        invariant
            i <= count,
            count == state.items@.len(),
            popup == focus::popup_view(*state),
            most == widest(popup.items.take(i as int)),
        decreases count - i,
    {
        let n = state.items[i].display.as_str().unicode_len();
        let w: u16 = #[verifier::truncate] (n as u16);
        if w > most {
            most = w;
        }
        i += 1;
        assert(popup.items.take(i as int).drop_last() =~= popup.items.take(i - 1));
        assert(popup.items.take(i as int).last() == state.items@[i - 1]@);
    }
    assert(popup.items.take(i as int) =~= popup.items);
    let desired: u16 = most.saturating_add(4);
    let desired: u16 = if desired > 10 {
        desired
    } else {
        10
    };
    let room: u16 = if area.width > 1 {
        area.width
    } else {
        1
    };
    let width: u16 = if desired < room {
        desired
    } else {
        room
    };
    let rows: u16 = if count < POPUP_VISIBLE_ROWS {
        count as u16
    } else {
        POPUP_VISIBLE_ROWS as u16
    };
    let high: u16 = if area.height > 1 {
        area.height
    } else {
        1
    };
    let height: u16 = if rows + 2 < high {
        rows + 2
    } else {
        high
    };
    assert(width == popup_width(popup, area));
    assert(height == popup_height(popup, area));
    // Prefer placing above the cursor row so the user can still see what they
    // typed. Fall back to below if the cursor is too close to the top of the
    // panel.
    let above = cursor_y.saturating_sub(area.y);
    let y = if above >= height {
        cursor_y - height
    } else {
        let below = cursor_y.saturating_add(1);
        let lowest = area.y + area.height.saturating_sub(height);
        if below < lowest {
            below
        } else {
            lowest
        }
    };
    // Anchor to the cursor column, but never let the popup spill off the right
    // edge of the panel.
    let rightmost = area.x + area.width.saturating_sub(width);
    let anchored = if cursor_x < rightmost {
        cursor_x
    } else {
        rightmost
    };
    let x = if anchored > area.x {
        anchored
    } else {
        area.x
    };
    let ghost goal = popup_rows(*theme, popup);
    let mut lines: Vec<Line> = Vec::new();
    let mut at: usize = state.scroll;
    assert(style::lines_view(lines@) =~= goal.take(0));
    while at < count && lines.len() < POPUP_VISIBLE_ROWS
        invariant
            state.scroll <= at,
            at <= count || at == state.scroll,
            count == state.items@.len(),
            popup == focus::popup_view(*state),
            goal == popup_rows(*theme, popup),
            lines@.len() == at - state.scroll,
            lines@.len() <= POPUP_VISIBLE_ROWS,
            lines@.len() <= goal.len(),
            style::lines_view(lines@) == goal.take(lines@.len() as int),
        decreases count - at,
    {
        let item = &state.items[at];
        assert(popup.items[at as int] == item@);
        let style = if at == state.selected {
            style_on(theme.text_primary, theme.selection_bg).bold()
        } else {
            style_on(theme.text_secondary, theme.bg_surface)
        };
        let mut text = joined(" ", item.display.as_str());
        text.push_str(" ");
        let mut spans: Vec<Span> = Vec::new();
        push_span(&mut spans, text.as_str(), style);
        let line = Line { spans };
        let ghost n = lines@.len() as int;
        let ghost before = style::lines_view(lines@);
        assert(n < goal.len());
        assert(line@ =~= goal[n]);
        lines.push(line);
        assert(style::lines_view(lines@) =~= before.push(line@));
        assert(goal.take(n + 1) =~= goal.take(n).push(goal[n]));
        at += 1;
    }
    assert(goal.take(lines@.len() as int) =~= goal);
    Some(
        PopupFace {
            rect: Rect { x, y, width, height },
            block: style_on(theme.text_tertiary, theme.bg_surface),
            ground: style_ground(theme.bg_surface),
            lines,
        },
    )
}

/// The popup never leaves the area sideways, and its last row never lies below it.
pub proof fn popup_stays_in_the_area(popup: focus::PopupView, area: Rect, cursor_x: u16, cursor_y: u16)
    requires
        layout::in_range(area),
        area.width >= 1,
        area.height >= 1,
        area.y <= cursor_y < area.y + area.height,
        area.x <= cursor_x < area.x + area.width,
    ensures
        ({
            let r = popup_rect(popup, area, cursor_x, cursor_y);
            &&& area.x <= r.x && r.x + r.width <= area.x + area.width
            &&& area.y <= r.y && r.y + r.height <= area.y + area.height
        }),
{
    assert(widest(popup.items) >= 0) by {
        lemma_widest_bounds(popup.items);
    }
}

proof fn lemma_widest_bounds(items: Seq<term_complete::ItemView>)
    ensures
        0 <= widest(items) <= u16::MAX,
    decreases items.len(),
{
    if items.len() > 0 {
        lemma_widest_bounds(items.drop_last());
    }
}

// ── The terminal tab ───────────────────────────────────────────────

/// What the part below the strip shows.
pub enum TerminalContent {
    /// Why there is no screen.
    Message(Notice),
    /// The screen of the current terminal, and the look below it.
    Screen {
        lines: Vec<Line>,
        ground: Style,
        cursor: Option<(u16, u16)>,
        popup: Option<PopupFace>,
    },
}

/// What the terminal tab shows.
pub struct TerminalTabFace {
    pub label_area: Rect,
    pub strip: TerminalStripFace,
    pub content_area: Rect,
    pub content: TerminalContent,
    /// The line at the bottom that says what went wrong.
    pub status: Option<(Rect, Span)>,
    /// What the strip and the line at the bottom look like below their texts.
    pub bar_ground: Style,
}

/// Where the hardware cursor goes: only where typing reaches the shell, whose own cursor is
/// shown and in view.
pub open spec fn cursor_cell(
    area: Rect,
    typing: bool,
    scrolled: bool,
    shell_cursor: Option<(u16, u16)>,
) -> Option<(u16, u16)> {
    match shell_cursor {
        Some((row, col)) => if typing && !scrolled && col < area.width && row < area.height {
            Some(((area.x + col) as u16, (area.y + row) as u16))
        } else {
            None
        },
        None => None,
    }
}

/// Whether the content is what the current terminal has to show.
pub open spec fn content_shows(
    content: TerminalContent,
    state: FocusModeState,
    area: Rect,
    shell_cursor: Option<(u16, u16)>,
    theme: Theme,
) -> bool {
    let v = state@;
    if v.terminals.len() == 0 {
        content matches TerminalContent::Message(m) && m@ == view::message(
            theme,
            "No terminals — press n (or click [+]) to start one"@,
        )
    } else if v.terminals[v.current].exited {
        content matches TerminalContent::Message(m) && m@ == view::message(
            theme,
            "Terminal session ended — press x to close, n to start a new one"@,
        )
    } else {
        let t = v.terminals[v.current];
        &&& content matches TerminalContent::Screen { lines, ground, cursor, popup }
        &&& ground == view::ground(theme.bg_base)
        &&& overview_view::shows_rows(lines@, t.screen.visible_rows(t.scroll_offset))
        &&& cursor == cursor_cell(
            area,
            v.focus_side == FocusSide::Left && v.typing,
            t.scroll_offset > 0,
            shell_cursor,
        )
        &&& match (v.popup, cursor, popup) {
            (Some(p), Some((x, y)), Some(f)) => {
                &&& p.items.len() > 0
                &&& popup_shows(f, p, area, x, y, theme)
            },
            (Some(p), Some(_), None) => p.items.len() == 0,
            (_, _, popup) => popup is None,
        }
    }
}

/// Whether the terminal tab shows the strip of terminals, what the current one has to show below
/// it, and a status line at the bottom if there is something to say and room for it.
pub open spec fn terminal_tab_shows(
    face: Option<TerminalTabFace>,
    state: FocusModeState,
    area: Rect,
    shell_cursor: Option<(u16, u16)>,
    theme: Theme,
) -> bool {
    &&& face is Some <==> area.height >= 1
    &&& face matches Some(f) ==> {
        let strip = Strip {
            terminals: state@.terminals,
            current: state@.current,
            focused: state@.focus_side == FocusSide::Left,
            area: f.label_area,
        };
        let below = if state@.status is Some && area.height >= 3 {
            1int
        } else {
            0
        };
        &&& f.label_area == layout::part(true, area, 0, 1)
        &&& f.content_area == layout::part(true, area, 1, area.height - 1 - below)
        &&& style::spans_view(f.strip.spans@) == strip.spans(theme)
        &&& f.strip.labels@ == strip.labelled(theme, strip.start(), 0).targets
        &&& f.strip.new_button == strip.button(theme)
        &&& content_shows(f.content, state, f.content_area, shell_cursor, theme)
        &&& f.bar_ground == view::ground(theme.bg_surface)
        &&& match f.status {
            Some((place, line)) => {
                &&& below == 1
                &&& place == layout::part(true, area, area.height - 1, 1)
                &&& line@ == view::span(
                    " "@ + state@.status->0 + " "@,
                    view::on(theme.error, theme.bg_surface),
                )
            },
            None => below == 0,
        }
    }
}

/// The terminal tab: the strip of terminals, the current one's screen and a status line.
/// `shell_cursor` is the row and column of the shell's cursor, unless the shell hides it.
pub fn terminal_tab(
    area: Rect,
    state: &FocusModeState,
    shell_cursor: Option<(u16, u16)>,
    theme: &Theme,
) -> (face: Option<TerminalTabFace>)
    requires
        state.wf(),
        layout::in_range(area),
    ensures
        terminal_tab_shows(face, *state, area, shell_cursor, *theme),
{
    if area.height < 1 {
        return None;
    }
    let focused = match state.focus_side {
        FocusSide::Left => true,
        FocusSide::Right => false,
    };
    // Split into label strip (1 row) + content + optional status row.
    let (label_area, content_area, status) = match &state.terminal_status_message {
        Some(message) => if area.height >= 3 {
            let (label_area, content_area, place) = split_top_and_bottom_row(area);
            let mut text = joined(" ", message.as_str());
            text.push_str(" ");
            let line = Span::of(text.as_str(), style_on(theme.error, theme.bg_surface));
            (label_area, content_area, Some((place, line)))
        } else {
            let (label_area, content_area) = split_top_row(area);
            (label_area, content_area, None)
        },
        None => {
            let (label_area, content_area) = split_top_row(area);
            (label_area, content_area, None)
        },
    };
    let strip = terminal_label_strip(
        label_area,
        &state.terminal_panels,
        state.current_terminal_idx,
        focused,
        theme,
    );
    let content = terminal_content(content_area, state, focused, shell_cursor, theme);
    let bar_ground = style_ground(theme.bg_surface);
    Some(TerminalTabFace { label_area, strip, content_area, content, status, bar_ground })
}

fn terminal_content(
    area: Rect,
    state: &FocusModeState,
    focused: bool,
    shell_cursor: Option<(u16, u16)>,
    theme: &Theme,
) -> (content: TerminalContent)
    requires
        state.wf(),
        layout::in_range(area),
        focused == (state@.focus_side == FocusSide::Left),
    ensures
        content_shows(content, *state, area, shell_cursor, *theme),
{
    assert(state@.terminals.len() == state.terminal_panels@.len());
    if state.terminal_panels.len() == 0 {
        return TerminalContent::Message(
            message_notice("No terminals — press n (or click [+]) to start one", theme),
        );
    }
    let panel = &state.terminal_panels[state.current_terminal_idx];
    assert(state@.terminals[state@.current] == panel@);
    if panel.exited {
        return TerminalContent::Message(
            message_notice(
                "Terminal session ended — press x to close, n to start a new one",
                theme,
            ),
        );
    }
    let lines = panel.vterm.screen.to_ratatui_lines_scrolled(panel.scroll_offset);
    // Show the hardware cursor only when the terminal is the active input
    // target. In Navigate mode the cursor is hidden so the user has a clear visual cue that
    // typing won't reach the shell.
    let cursor = match shell_cursor {
        Some((row, col)) => if focused && state.terminal_input_focused && panel.scroll_offset == 0
            && col < area.width && row < area.height {
            Some((area.x + col, area.y + row))
        } else {
            None
        },
        None => None,
    };
    // The tab-completion popup, if any, anchored near the shell cursor.
    let popup = match (&state.completion, cursor) {
        (Some(completion), Some((x, y))) => {
            assert(term_complete::items_view(completion.items@).len() == completion.items@.len());
            completion_popup(area, x, y, completion, theme)
        },
        _ => None,
    };
    TerminalContent::Screen { lines, ground: style_ground(theme.bg_base), cursor, popup }
}

// ── The comparison ─────────────────────────────────────────────────

/// A text cut or filled up to a width; a cut one ends in an ellipsis.
pub open spec fn fitted(text: Seq<char>, width: int) -> Seq<char> {
    if text.len() > width {
        text.take(overview::imax(width - 1, 0)).push('…')
    } else {
        text + view::spaces((width - text.len()) as nat)
    }
}

/// What is compared, and the key that changes it.
pub open spec fn compare_label_spans(theme: Theme, selected: Option<Seq<char>>, width: int) -> Seq<
    style::SpanView,
> {
    let (label, hint) = match selected {
        Some(branch) => (" Comparing: "@ + branch, " [Enter] change "@),
        None => (" No branch selected"@, " [Enter] select "@),
    };
    seq![
        view::span(
            fitted(label, overview::imax(width - hint.len(), 0)),
            view::on(theme.text_secondary, theme.bg_surface),
        ),
        view::span(hint, view::on(theme.text_tertiary, theme.bg_surface)),
    ]
}

pub fn compare_label(selected: &Option<String>, width: u16, theme: &Theme) -> (line: Line)
    ensures
        line@ == compare_label_spans(*theme, overview::opt_view(*selected), width as int),
{
    let (label, hint) = match selected {
        Some(branch) => (joined(" Comparing: ", branch.as_str()), " [Enter] change "),
        None => (copy_of(" No branch selected"), " [Enter] select "),
    };
    let room = (width as usize).saturating_sub(hint.unicode_len());
    let chars = chars_of(label.as_str());
    let shown = if chars.len() > room {
        // Truncate label if needed
        let keep = if room > 0 {
            room - 1
        } else {
            0
        };
        let mut cut = string_of(chars.as_slice(), 0, keep);
        cut.push('…');
        assert(cut@ =~= fitted(label@, room as int));
        cut
    } else {
        let fill = space_text(room - chars.len());
        let t = joined(label.as_str(), fill.as_str());
        assert(t@ =~= fitted(label@, room as int));
        t
    };
    let mut spans: Vec<Span> = Vec::new();
    push_span(&mut spans, shown.as_str(), style_on(theme.text_secondary, theme.bg_surface));
    push_span(&mut spans, hint, style_on(theme.text_tertiary, theme.bg_surface));
    let line = Line { spans };
    assert(line@ =~= compare_label_spans(*theme, overview::opt_view(*selected), width as int));
    line
}

/// A fitted label is exactly as wide as its room.
pub proof fn fitted_text_fills_its_room(text: Seq<char>, width: int)
    requires
        width >= 1,
    ensures
        fitted(text, width).len() == width,
{
}

/// What the picker says above its input.
pub open spec fn picker_hint_spans(theme: Theme, width: int) -> Seq<style::SpanView> {
    let text = view::span(" Select a branch to compare against"@, view::on(theme.text_secondary, theme.bg_base));
    if width > 35 {
        seq![text, view::span(view::spaces((width - 35) as nat), view::ground(theme.bg_base))]
    } else {
        seq![text]
    }
}

pub fn picker_hint(width: u16, theme: &Theme) -> (line: Line)
    ensures
        line@ == picker_hint_spans(*theme, width as int),
{
    let mut spans: Vec<Span> = Vec::new();
    push_span(
        &mut spans,
        " Select a branch to compare against",
        style_on(theme.text_secondary, theme.bg_base),
    );
    let remaining = (width as usize).saturating_sub(35);
    if remaining > 0 {
        let fill = space_text(remaining);
        push_span(&mut spans, fill.as_str(), style_ground(theme.bg_base));
    }
    let line = Line { spans };
    assert(line@ =~= picker_hint_spans(*theme, width as int));
    line
}

pub open spec fn picker_input_spans(theme: Theme, text: Seq<char>, at: int) -> Seq<style::SpanView> {
    let a = editing::at_cursor(text, at);
    seq![
        view::span(" > "@, view::ink(theme.accent_bright).spec_add(style::bold_only())),
        view::span(a.before, view::ink(theme.text_primary)),
        view::span(a.below, view::on(theme.bg_base, theme.text_primary)),
        view::span(a.after, view::ink(theme.text_primary)),
    ]
}

/// The picker's input line, with its cursor.
pub fn picker_input(picker: &BranchPicker, theme: &Theme) -> (line: Line)
    requires
        picker.wf(),
    ensures
        line@ == picker_input_spans(*theme, picker@.edit.text, picker@.edit.at),
{
    let (before, below, after) = around_cursor(picker.input.as_str(), picker.cursor_pos);
    let mut spans: Vec<Span> = Vec::new();
    push_span(&mut spans, " > ", style_ink(theme.accent_bright).bold());
    push_span(&mut spans, before.as_str(), style_ink(theme.text_primary));
    push_span(&mut spans, below.as_str(), style_on(theme.bg_base, theme.text_primary));
    push_span(&mut spans, after.as_str(), style_ink(theme.text_primary));
    let line = Line { spans };
    assert(line@ =~= picker_input_spans(*theme, picker@.edit.text, picker@.edit.at));
    line
}

/// What is said of a branch behind its name.
pub open spec fn branch_badges(theme: Theme, b: BranchInfo) -> Seq<style::SpanView> {
    badge(b.is_remote, " [remote]"@, view::ink(theme.text_tertiary)) + local_badges(theme, b)
}

/// What is said of a local branch behind its name.
pub open spec fn local_badges(theme: Theme, b: BranchInfo) -> Seq<style::SpanView> {
    badge(b.is_head, " HEAD"@, view::ink(theme.success)) + badge(b.is_worktree, " [worktree]"@, view::ink(theme.info)) + badge(
        b.active_agent_count > 0,
        " ("@ + text::decimal(b.active_agent_count as nat) + " agent"@ + (if b.active_agent_count == 1 {
            ""@
        } else {
            "s"@
        }) + ")"@,
        view::ink(theme.warning),
    )
}

pub open spec fn badge(shown: bool, text: Seq<char>, style: Style) -> Seq<style::SpanView> {
    if shown {
        seq![view::span(text, style)]
    } else {
        Seq::empty()
    }
}

fn push_badge(spans: &mut Vec<Span>, shown: bool, text: &str, style: Style)
    ensures
        style::spans_view(final(spans)@) == style::spans_view(old(spans)@) + badge(shown, text@, style),
{
    let ghost before = style::spans_view(spans@);
    if shown {
        push_span(spans, text, style);
    }
    assert(style::spans_view(spans@) =~= before + badge(shown, text@, style));
}

/// Appends what is said of a branch behind its name.
pub fn push_branch_badges(spans: &mut Vec<Span>, branch: &BranchInfo, theme: &Theme)
    ensures
        style::spans_view(final(spans)@) == style::spans_view(old(spans)@) + branch_badges(*theme, *branch),
{
    let ghost before = style::spans_view(spans@);
    push_badge(spans, branch.is_remote, " [remote]", style_ink(theme.text_tertiary));
    push_local_badges(spans, branch, theme);
    assert(style::spans_view(spans@) =~= before + branch_badges(*theme, *branch));
}

/// Appends what is said of a local branch behind its name.
pub fn push_local_badges(spans: &mut Vec<Span>, branch: &BranchInfo, theme: &Theme)
    ensures
        style::spans_view(final(spans)@) == style::spans_view(old(spans)@) + local_badges(*theme, *branch),
{
    let ghost before = style::spans_view(spans@);
    push_badge(spans, branch.is_head, " HEAD", style_ink(theme.success));
    push_badge(spans, branch.is_worktree, " [worktree]", style_ink(theme.info));
    let mut text = copy_of(" (");
    push_decimal(&mut text, branch.active_agent_count);
    text.push_str(" agent");
    if branch.active_agent_count == 1 {
        text.push_str("");
    } else {
        text.push_str("s");
    }
    text.push_str(")");
    push_badge(
        spans,
        branch.active_agent_count > 0,
        text.as_str(),
        style_ink(theme.warning),
    );
    assert(style::spans_view(spans@) =~= before + local_badges(*theme, *branch));
}

/// A branch in the list of the picker.
pub open spec fn branch_row(theme: Theme, b: BranchInfo, selected: bool) -> Seq<style::SpanView> {
    (if selected {
        seq![
            view::span("  > "@, view::ink(theme.accent_bright).spec_add(style::bold_only())),
            view::span(b.name@, view::ink(theme.text_primary).spec_add(style::bold_only())),
        ]
    } else {
        seq![view::span("    "@, style::plain_style()), view::span(b.name@, view::ink(theme.text_secondary))]
    }) + branch_badges(theme, b)
}

/// The list of the picker: the matching branches around the selected one, and empty rows below
/// the last.
pub open spec fn branch_rows(
    theme: Theme,
    branches: Seq<BranchInfo>,
    matches: Seq<(usize, i64)>,
    selected: int,
    width: int,
    height: int,
) -> Seq<Seq<style::SpanView>> {
    let scroll = lists::centered_scroll(selected, matches.len() as int, height);
    Seq::new(
        height as nat,
        |k: int|
            if scroll + k < matches.len() {
                branch_row(
                    theme,
                    branches[matches[scroll + k].0 as int],
                    scroll + k == selected,
                )
            } else {
                seq![view::span(view::spaces(width as nat), view::ground(theme.bg_base))]
            },
    )
}

pub fn branch_line(branch: &BranchInfo, selected: bool, theme: &Theme) -> (line: Line)
    ensures
        line@ == branch_row(*theme, *branch, selected),
{
    let mut spans: Vec<Span> = Vec::new();
    if selected {
        push_span(&mut spans, "  > ", style_ink(theme.accent_bright).bold());
        push_span(&mut spans, branch.name.as_str(), style_ink(theme.text_primary).bold());
    } else {
        push_span(&mut spans, "    ", Style::new());
        push_span(&mut spans, branch.name.as_str(), style_ink(theme.text_secondary));
    }
    push_branch_badges(&mut spans, branch, theme);
    let line = Line { spans };
    assert(line@ =~= branch_row(*theme, *branch, selected));
    line
}

/// The picker's list of branches.
pub fn picker_branch_list(picker: &BranchPicker, width: u16, height: u16, theme: &Theme) -> (lines:
    Vec<Line>)
    requires
        picker.wf(),
    ensures
        style::lines_view(lines@) == branch_rows(
            *theme,
            picker.branches@,
            picker@.matches(),
            picker@.selected_idx,
            width as int,
            height as int,
        ),
{
    let count = picker.branches.len();
    assert(picker@.names.len() == count);
    let filtered = picker.filtered_branches();
    let visible = height as usize;
    let scroll = picker.compute_scroll(filtered.len(), visible);
    let ghost goal = branch_rows(
        *theme,
        picker.branches@,
        picker@.matches(),
        picker@.selected_idx,
        width as int,
        height as int,
    );
    let mut lines: Vec<Line> = Vec::new();
    assert(style::lines_view(lines@) =~= goal.take(0));
    proof {
        crate::ranking::lemma_filtered_in_range(picker@.names, picker@.edit.text);
    }
    while lines.len() < visible
        invariant
            lines@.len() <= visible,
            visible == height,
            picker.wf(),
            filtered@ == picker@.matches(),
            scroll == lists::centered_scroll(picker@.selected_idx, filtered@.len() as int, height as int),
            scroll <= filtered@.len(),
            forall|k: int|
                0 <= k < filtered@.len() ==> (#[trigger] filtered@[k]).0 < picker@.names.len(),
            goal == branch_rows(
                *theme,
                picker.branches@,
                picker@.matches(),
                picker@.selected_idx,
                width as int,
                height as int,
            ),
            style::lines_view(lines@) == goal.take(lines@.len() as int),
        decreases visible - lines@.len(),
    {
        let n = lines.len();
        let line = if n < filtered.len() - scroll {
            let (idx, _score) = filtered[scroll + n];
            assert(picker@.names.len() == picker.branches@.len());
            branch_line(&picker.branches[idx], scroll + n == picker.selected_idx, theme)
        } else {
            let fill = space_text(width as usize);
            let mut spans: Vec<Span> = Vec::new();
            push_span(&mut spans, fill.as_str(), style_ground(theme.bg_base));
            let line = Line { spans };
            assert(line@ =~= goal[n as int]);
            line
        };
        let ghost before = style::lines_view(lines@);
        assert(line@ == goal[n as int]);
        lines.push(line);
        assert(style::lines_view(lines@) =~= before.push(line@));
        assert(goal.take(n + 1) =~= goal.take(n as int).push(goal[n as int]));
    }
    assert(goal.take(lines@.len() as int) =~= goal);
    lines
}

/// What the compare tab shows.
pub enum CompareFace {
    /// A branch is being searched.
    Search {
        hint: (Rect, Line),
        input: (Rect, Line),
        /// What the input line looks like below its text.
        input_ground: Style,
        gap: Rect,
        list: (Rect, Vec<Line>),
        /// What the gap and the list look like below their texts.
        ground: Style,
    },
    /// A branch is compared.
    Diff { label: (Rect, Line), diff_area: Rect, diff: DiffFace },
}

/// Whether a diff viewer shows a pane: why there is nothing to show, or its rows.
pub open spec fn viewer_shows(
    face: DiffFace,
    pane: DiffPane,
    highlights: Seq<Vec<Span>>,
    empty_message: Seq<char>,
    repo_color: Option<Color>,
    show_cursor: bool,
    area: Rect,
    theme: Theme,
) -> bool {
    match (pane@.error, pane@.diff) {
        (Some(e), _) => face matches DiffFace::Error(m) && m@ == view::failure(theme, e),
        (None, None) => face matches DiffFace::Message(m) && m@ == view::message(
            theme,
            "Loading diff..."@,
        ),
        (None, Some(d)) => if d.lines.len() == 0 {
            face matches DiffFace::Message(m) && m@ == view::message(theme, empty_message)
        } else {
            diff_pane::rows_show(
                face,
                d,
                wrapping::rows_of_spans(highlights),
                pane@.scroll,
                match repo_color {
                    Some(c) => c,
                    None => theme.accent,
                },
                if show_cursor {
                    Some(pane.cursor)
                } else {
                    None
                },
                if show_cursor {
                    pane.sel_anchor
                } else {
                    None
                },
                area,
                theme,
            )
        },
    }
}

/// Whether the compare tab shows the state of a comparison.
pub open spec fn compare_shows(
    face: CompareFace,
    state: FocusModeState,
    highlights: Seq<Vec<Span>>,
    repo_color: Option<Color>,
    area: Rect,
    theme: Theme,
) -> bool {
    let picker = state@.picker;
    match picker.mode {
        BranchPickerMode::Searching => {
            &&& face matches CompareFace::Search { hint, input, input_ground, gap, list, ground }
            &&& input_ground == view::ground(theme.bg_input)
            &&& ground == view::ground(theme.bg_base)
            &&& hint.1@ == picker_hint_spans(theme, hint.0.width as int)
            &&& input.1@ == picker_input_spans(theme, picker.edit.text, picker.edit.at)
            &&& style::lines_view(list.1@) == branch_rows(
                theme,
                state@.branches,
                picker.matches(),
                picker.selected_idx,
                list.0.width as int,
                list.0.height as int,
            )
            &&& area.height >= 3 ==> {
                &&& hint.0 == layout::part(true, area, 0, 1)
                &&& input.0 == layout::part(true, area, 1, 1)
                &&& gap == layout::part(true, area, 2, 1)
                &&& list.0 == layout::part(true, area, 3, area.height - 3)
            }
        },
        BranchPickerMode::Selected => {
            &&& face matches CompareFace::Diff { label, diff_area, diff }
            &&& label.1@ == compare_label_spans(
                theme,
                picker.selected_branch,
                label.0.width as int,
            )
            &&& area.height >= 1 ==> {
                &&& label.0 == layout::part(true, area, 0, 1)
                &&& diff_area == layout::part(true, area, 1, area.height - 1)
            }
            &&& if picker.selected_branch is Some {
                viewer_shows(
                    diff,
                    state.compare,
                    highlights,
                    "No differences"@,
                    repo_color,
                    state@.focus_side == FocusSide::Left,
                    diff_area,
                    theme,
                )
            } else {
                diff matches DiffFace::Message(m) && m@ == view::message(
                    theme,
                    "Press Enter to select a branch to compare"@,
                )
            }
        },
    }
}

/// The compare tab: the branch picker, or what is compared and how it differs.
pub fn compare_tab(
    area: Rect,
    state: &FocusModeState,
    highlights: &Vec<Vec<Span>>,
    repo_color: Option<Color>,
    theme: &Theme,
) -> (face: CompareFace)
    requires
        state.wf(),
        layout::in_range(area),
    ensures
        compare_shows(face, *state, highlights@, repo_color, area, *theme),
{
    let picker = &state.compare_picker;
    match picker.mode {
        BranchPickerMode::Searching => {
            let heights: Vec<u16> = vec![1, 1, 1];
            proof {
                let cs = layout::stacked(heights@);
                assert(cs =~= seq![
                    Constraint::Length(1),
                    Constraint::Length(1),
                    Constraint::Length(1),
                    Constraint::Min(0),
                ]);
                reveal_with_fuel(layout::fixed_total, 5);
                reveal_with_fuel(layout::part_start, 5);
                assert(layout::fixed_total(cs) == 3) by {
                    assert(cs.drop_last().last() == Constraint::Length(1));
                    assert(cs.drop_last().drop_last().last() == Constraint::Length(1));
                    assert(cs.drop_last().drop_last().drop_last().last() == Constraint::Length(1));
                }
            }
            let parts = split_rows(area, &heights);
            let hint = picker_hint(parts[0].width, theme);
            let input = picker_input(picker, theme);
            let list = picker_branch_list(picker, parts[3].width, parts[3].height, theme);
            CompareFace::Search {
                hint: (parts[0], hint),
                input: (parts[1], input),
                input_ground: style_ground(theme.bg_input),
                gap: parts[2],
                list: (parts[3], list),
                ground: style_ground(theme.bg_base),
            }
        },
        BranchPickerMode::Selected => {
            let (label_area, diff_area) = split_top_row(area);
            let label = compare_label(&picker.selected_branch, label_area.width, theme);
            let diff = if picker.selected_branch.is_some() {
                let focused = match state.focus_side {
                    FocusSide::Left => true,
                    FocusSide::Right => false,
                };
                diff_viewer(
                    diff_area,
                    &state.compare,
                    highlights,
                    "No differences",
                    repo_color,
                    focused,
                    theme,
                )
            } else {
                DiffFace::Message(
                    message_notice("Press Enter to select a branch to compare", theme),
                )
            };
            CompareFace::Diff { label: (label_area, label), diff_area, diff }
        },
    }
}

// ── The left side ──────────────────────────────────────────────────

/// What the active tab of the left side shows.
pub enum TabContent {
    Changes(DiffFace),
    Compare(CompareFace),
    Terminal(Option<TerminalTabFace>),
}

/// What the left side shows.
pub enum LeftFace {
    /// Too low for anything but its ground.
    Blank(Style),
    /// The agent does not run inside a repository.
    NoRepo(Notice),
    Tabs { tab_area: Rect, bar: TabBarFace, content_area: Rect, content: TabContent },
}

pub open spec fn bar_of(state: FocusModeState) -> TabBar {
    TabBar {
        active: state@.left_tab,
        focused: state@.focus_side == FocusSide::Left,
        pr: state@.pr_info,
        typing: state@.typing,
    }
}

/// Whether the left side shows the active tab below the bar of tabs.
pub open spec fn left_shows(
    face: LeftFace,
    state: FocusModeState,
    highlights: Seq<Vec<Span>>,
    repo_color: Option<Color>,
    shell_cursor: Option<(u16, u16)>,
    area: Rect,
    theme: Theme,
) -> bool {
    if state@.repo_path is None {
        face matches LeftFace::NoRepo(m) && m@ == view::message(
            theme,
            "Agent not running inside repository"@,
        )
    } else if area.height < 2 {
        face == LeftFace::Blank(view::ground(theme.bg_base))
    } else {
        &&& face matches LeftFace::Tabs { tab_area, bar, content_area, content }
        &&& tab_area == layout::part(true, area, 0, 1)
        &&& content_area == layout::part(true, area, 1, area.height - 1)
        &&& style::spans_view(bar.spans@) == view::padded(
            bar_of(state).tabs(theme, 3),
            tab_area.width as int,
            view::ground(theme.bg_surface),
        )
        &&& bar.tabs@ == Seq::new(
            3,
            |i: int| (bar_of(state).tab_rect(theme, tab_area, i), tab_at(i)),
        )
        &&& match state@.left_tab {
            LeftPanelTab::Changes => content matches TabContent::Changes(d) && viewer_shows(
                d,
                state.changes,
                highlights,
                "No uncommitted changes"@,
                repo_color,
                state@.focus_side == FocusSide::Left,
                content_area,
                theme,
            ),
            LeftPanelTab::Compare => content matches TabContent::Compare(c) && compare_shows(
                c,
                state,
                highlights,
                repo_color,
                content_area,
                theme,
            ),
            LeftPanelTab::Terminal => content matches TabContent::Terminal(t) && terminal_tab_shows(
                t,
                state,
                content_area,
                shell_cursor,
                theme,
            ),
        }
    }
}

/// The left side of focus mode: the bar of tabs, and below it the active one. `highlights` are
/// the styled forms of the lines of the diff that is shown.
pub fn left_panel(
    area: Rect,
    state: &FocusModeState,
    highlights: &Vec<Vec<Span>>,
    repo_color: Option<Color>,
    shell_cursor: Option<(u16, u16)>,
    theme: &Theme,
) -> (face: LeftFace)
    requires
        state.wf(),
        layout::in_range(area),
        bar_of(*state).fits(*theme, area),
    ensures
        left_shows(face, *state, highlights@, repo_color, shell_cursor, area, *theme),
{
    if state.repo_path.is_none() {
        return LeftFace::NoRepo(message_notice("Agent not running inside repository", theme));
    }
    if area.height < 2 {
        return LeftFace::Blank(style_ground(theme.bg_base));
    }
    let (tab_area, content_area) = split_top_row(area);
    let focused = match state.focus_side {
        FocusSide::Left => true,
        FocusSide::Right => false,
    };
    let bar = left_tab_bar(
        tab_area,
        state.left_tab,
        focused,
        &state.pr_info,
        state.terminal_input_focused,
        theme,
    );
    let content = match state.left_tab {
        LeftPanelTab::Changes => TabContent::Changes(
            diff_viewer(
                content_area,
                &state.changes,
                highlights,
                "No uncommitted changes",
                repo_color,
                focused,
                theme,
            ),
        ),
        LeftPanelTab::Compare => TabContent::Compare(
            compare_tab(content_area, state, highlights, repo_color, theme),
        ),
        LeftPanelTab::Terminal => TabContent::Terminal(
            terminal_tab(content_area, state, shell_cursor, theme),
        ),
    };
    LeftFace::Tabs { tab_area, bar, content_area, content }
}

/// What focus mode shows.
pub struct FocusFace {
    pub left_area: Rect,
    pub right_area: Rect,
    pub left: LeftFace,
    /// The agent's panel; `None` where there is none, or where it is too low.
    pub right: Option<AgentPanelFace>,
    /// What stands in place of the agent's panel where there is no agent.
    pub empty: Option<Notice>,
}

/// Focus mode: the left side, and the agent's panel on the right.
pub fn focus_mode(
    area: Rect,
    state: &FocusModeState,
    highlights: &Vec<Vec<Span>>,
    repo_colors: &Vec<(String, String)>,
    shell_cursor: Option<(u16, u16)>,
    theme: &Theme,
) -> (face: FocusFace)
    requires
        state.wf(),
        layout::in_range(area),
        bar_of(*state).fits(*theme, area),
    ensures
        ({
            let tint = overview_view::tint_at(*theme, repo_colors@, state@.repo_path);
            let left = layout::percent(area.width as int, 60);
            &&& face.left_area == layout::part(false, area, 0, left)
            &&& face.right_area == layout::part(false, area, left, area.width - left)
            &&& left_shows(
                face.left,
                *state,
                highlights@,
                tint,
                shell_cursor,
                face.left_area,
                *theme,
            )
            &&& match state@.panel {
                Some(p) => face.empty is None && overview_view::face_shows(
                    face.right,
                    face.right_area,
                    p,
                    *theme,
                    state@.focus_side == FocusSide::Right,
                    false,
                    tint,
                ),
                None => face.right is None && (face.empty matches Some(m) && m@
                    == overview_view::no_agents(*theme)),
            }
        }),
{
    let (left_area, right_area) = split_focus(area);
    let tint = repo_color_of(theme, repo_colors, &state.repo_path);
    proof {
        let left = layout::percent(area.width as int, 60);
        assert(0 <= left <= area.width) by (nonlinear_arith)
            requires
                left == (area.width as int * 60 + 50) / 100,
        ;
    }
    let left = left_panel(left_area, state, highlights, tint, shell_cursor, theme);
    let right_focused = match state.focus_side {
        FocusSide::Left => false,
        FocusSide::Right => true,
    };
    let (right, empty) = match &state.panel {
        Some(panel) => (
            agent_panel_face(right_area, panel, theme, right_focused, true, tint),
            None,
        ),
        None => (None, Some(empty_state(theme))),
    };
    FocusFace { left_area, right_area, left, right, empty }
}

/// The tab that is open stands out, the more so where the keyboard goes to it, and each tab has
/// its name on it.
pub proof fn open_tabs_stand_out(
    theme: Theme,
    tab: LeftPanelTab,
    active: bool,
    focused: bool,
    pr: Option<focus::PrView>,
    typing: bool,
)
    ensures
        ({
            let spans = tab_spans(theme, tab, active, focused, pr, typing);
            let name = tab.name();
            &&& spans[0].content.len() == name.len() + 2
            &&& spans[0].content.subrange(1, name.len() + 1int) == name
            &&& active && focused ==> spans[0].style.fg == Some(theme.text_primary)
                && spans[0].style.bg == Some(theme.bg_overlay)
            &&& active && !focused ==> spans[0].style.fg == Some(theme.text_secondary)
                && spans[0].style.bg == Some(theme.bg_raised)
            &&& !active ==> spans[0].style.fg == Some(theme.text_tertiary) && spans[0].style.bg
                == Some(theme.bg_surface)
            &&& spans.len() == 2 <==> (tab == LeftPanelTab::Compare && pr is Some) || (tab
                == LeftPanelTab::Terminal && active)
        }),
{
    reveal_strlit(" ");
    let name = tab.name();
    assert((" "@ + name + " "@).subrange(1, name.len() + 1int) =~= name);
}

/// The number of a pull request stands on the comparison, and on the open shells whether keys
/// are typed or lead around.
pub proof fn tabs_tell_more(theme: Theme, focused: bool, pr: focus::PrView, typing: bool)
    ensures
        ({
            let compare = tab_spans(
                theme,
                LeftPanelTab::Compare,
                false,
                focused,
                Some(pr),
                typing,
            );
            let digits = text::decimal(pr.number as nat);
            &&& compare[1].content.len() == digits.len() + 5
            &&& compare[1].content.subrange(4, digits.len() + 4int) == digits
        }),
        ({
            let shells = tab_spans(theme, LeftPanelTab::Terminal, true, focused, None, typing);
            &&& typing ==> shells[1].content == " · type "@
            &&& !typing ==> shells[1].content == " · nav "@
        }),
{
    reveal_strlit("PR #");
    reveal_strlit(" ");
    let digits = text::decimal(pr.number as nat);
    assert(("PR #"@ + digits + " "@).subrange(4, digits.len() + 4int) =~= digits);
}

/// The tabs stand side by side with one column between them, and are clicked where they are.
pub proof fn tabs_stand_side_by_side(bar: TabBar, theme: Theme, area: Rect, i: int)
    requires
        0 <= i < 2,
        bar.fits(theme, area),
    ensures
        bar.tab_x(theme, area, 0) == area.x,
        bar.tab_x(theme, area, i + 1) == bar.tab_x(theme, area, i) + view::spans_width(
            bar.tab(theme, i),
        ) + 1,
        bar.tab_rect(theme, area, i).y == area.y,
        bar.tab_rect(theme, area, i).height == 1,
        tab_at(i + 1) == tab_at(i).following(),
        tab_at(0) == LeftPanelTab::Changes,
{
    reveal_strlit("│");
    assert(bar.tabs(theme, 0).len() == 0);
    if i == 0 {
        lemma_width_adds(bar.tabs(theme, 0), bar.tab(theme, 0));
        assert(bar.tabs(theme, 1) == bar.tabs(theme, 0) + bar.tab(theme, 0));
    } else {
        let before = bar.tabs(theme, 1);
        let separated = before.push(bar.separator(theme));
        assert(separated.drop_last() =~= before);
        lemma_width_adds(separated, bar.tab(theme, 1));
        assert(bar.tabs(theme, 2) == separated + bar.tab(theme, 1));
    }
}

/// A shell goes by its number, from one on, with a cross once it has ended and a star while it
/// is the current one.
pub proof fn shells_go_by_their_number(t: overview::TerminalView, idx: int, current: int)
    requires
        idx >= 0,
    ensures
        ({
            let label = terminal_label(t, idx, current);
            let digits = text::decimal((idx + 1) as nat);
            let mark = label[digits.len() + 1int];
            &&& label[0] == ' '
            &&& label.subrange(1, digits.len() + 1int) == digits
            &&& t.exited ==> mark == '×'
            &&& !t.exited && idx == current ==> mark == '*'
            &&& !t.exited && idx != current ==> mark == ' ' && label.len() == digits.len() + 2
        }),
{
    reveal_strlit(" ");
    reveal_strlit("× ");
    reveal_strlit("* ");
    let label = terminal_label(t, idx, current);
    let digits = text::decimal((idx + 1) as nat);
    assert(label.subrange(1, digits.len() + 1int) =~= digits);
}

/// A shell's label is clicked where it is drawn, and leads to that shell; the next one is drawn
/// behind it. A shell that has no id yet cannot be clicked.
pub proof fn labels_are_clicked_where_they_are(strip: Strip, theme: Theme, s: Labels, i: int)
    requires
        0 <= i < strip.terminals.len() <= usize::MAX,
        0 <= s.x,
        s.x + strip.label(i).len() <= u16::MAX,
    ensures
        ({
            let after = strip.with_label(theme, s, i);
            let there = strip.terminals[i].id.len() > 0;
            &&& there ==> {
                &&& after.targets.len() == s.targets.len() + 1
                &&& after.targets.last().0.x == s.x
                &&& after.targets.last().0.width == strip.label(i).len()
                &&& after.targets.last().0.y == strip.area.y
                &&& after.targets.last().1 == i
            }
            &&& !there ==> after.targets == s.targets
            &&& after.spans[s.spans.len() as int].content == strip.label(i)
            &&& s.x + strip.label(i).len() <= after.x <= s.x + strip.label(i).len() + 1
        }),
{
}

/// The candidates stand above the cursor where there is room for them, and else below it, as
/// far as they fit; they begin in the cursor's column unless they would stick out.
pub proof fn candidates_stand_by_the_cursor(
    popup: focus::PopupView,
    area: Rect,
    cursor_x: u16,
    cursor_y: u16,
)
    requires
        area.x + area.width <= u16::MAX,
        area.y + area.height < u16::MAX,
        area.x <= cursor_x < area.x + area.width,
        area.y <= cursor_y < area.y + area.height,
    ensures
        ({
            let r = popup_rect(popup, area, cursor_x, cursor_y);
            &&& cursor_y - area.y >= r.height ==> r.y + r.height == cursor_y
            &&& cursor_y - area.y < r.height && cursor_y + 1 + r.height <= area.y + area.height
                ==> r.y == cursor_y + 1
            &&& cursor_x + r.width <= area.x + area.width ==> r.x == cursor_x
            &&& cursor_x + r.width > area.x + area.width ==> r.x + r.width == area.x + area.width
        }),
{
}

/// The candidates are shown from the first one in view on, in order, the selected one alone
/// standing out.
pub proof fn candidates_are_shown_in_order(theme: Theme, popup: focus::PopupView, k: int)
    requires
        0 <= popup.scroll,
        0 <= k < popup_rows(theme, popup).len(),
    ensures
        ({
            let row = popup_rows(theme, popup)[k];
            let display = popup.items[popup.scroll + k].display;
            &&& popup_rows(theme, popup).len() <= POPUP_VISIBLE_ROWS
            &&& popup.scroll + k < popup.items.len()
            &&& row.len() == 1
            &&& row[0].content.subrange(1, display.len() + 1int) == display
            &&& popup.scroll + k == popup.selected ==> row[0].style.bg == Some(theme.selection_bg)
                && row[0].style.fg == Some(theme.text_primary)
            &&& popup.scroll + k != popup.selected ==> row[0].style.bg == Some(theme.bg_surface)
                && row[0].style.fg == Some(theme.text_secondary)
        }),
{
    reveal_strlit(" ");
    let display = popup.items[popup.scroll + k].display;
    assert((" "@ + display + " "@).subrange(1, display.len() + 1int) =~= display);
}

/// The cursor is drawn where the shell has it, and only while keys are typed into what is shown.
pub proof fn cursors_are_drawn_in_their_cell(area: Rect, row: u16, col: u16)
    requires
        area.x + area.width <= u16::MAX,
        area.y + area.height <= u16::MAX,
    ensures
        ({
            let inside = col < area.width && row < area.height;
            let cell = cursor_cell(area, true, false, Some((row, col)));
            &&& cell is Some <==> inside
            &&& inside ==> {
                let (x, y) = cell->0;
                x == area.x + col && y == area.y + row
            }
        }),
        cursor_cell(area, false, false, Some((row, col))) is None,
        cursor_cell(area, true, true, Some((row, col))) is None,
        cursor_cell(area, true, false, None) is None,
{
}

/// A text that is too long is cut and ends with dots; any other stays whole, blanks behind it.
pub proof fn long_texts_are_cut(text: Seq<char>, width: int)
    requires
        width > 0,
    ensures
        text.len() > width ==> fitted(text, width).take(width - 1) == text.take(width - 1)
            && fitted(text, width).last() == '…',
        text.len() <= width ==> fitted(text, width).take(text.len() as int) == text,
{
    if text.len() > width {
        assert(fitted(text, width).take(width - 1) =~= text.take(width - 1));
    } else {
        assert(fitted(text, width).take(text.len() as int) =~= text);
    }
}

/// The bar above a comparison names the branch that is compared with, as far as there is room.
pub proof fn compared_branches_are_named(theme: Theme, branch: Seq<char>, width: int)
    requires
        width >= branch.len() + 40,
    ensures
        ({
            let spans = compare_label_spans(theme, Some(branch), width);
            &&& spans[0].content.subrange(12, branch.len() + 12int) == branch
            &&& spans[0].content.len() + spans[1].content.len() == width
        }),
{
    reveal_strlit(" Comparing: ");
    reveal_strlit(" [Enter] change ");
    let label = " Comparing: "@ + branch;
    let room = width - " [Enter] change "@.len();
    assert(fitted(label, room).subrange(12, branch.len() + 12int) =~= branch);
}

/// A branch carries a badge for each thing that is so of it, and no other.
pub proof fn branches_carry_their_badges(theme: Theme, b: BranchInfo)
    ensures
        ({
            let all = branch_badges(theme, b);
            let own = local_badges(theme, b);
            let remote = if b.is_remote {
                1int
            } else {
                0
            };
            let head = if b.is_head {
                1int
            } else {
                0
            };
            let worktree = if b.is_worktree {
                1int
            } else {
                0
            };
            let agents = if b.active_agent_count > 0 {
                1int
            } else {
                0
            };
            &&& all.len() == remote + own.len()
            &&& own.len() == head + worktree + agents
            &&& b.is_remote ==> all[0].content == " [remote]"@
            &&& b.is_head ==> own[0].content == " HEAD"@
            &&& b.is_worktree ==> own[head].content == " [worktree]"@
            &&& b.active_agent_count > 0 ==> own.last().content.subrange(
                2,
                2int + text::decimal(b.active_agent_count as nat).len(),
            ) == text::decimal(b.active_agent_count as nat)
        }),
{
    reveal_strlit(" (");
    let digits = text::decimal(b.active_agent_count as nat);
    if b.active_agent_count > 0 {
        let last = local_badges(theme, b).last().content;
        assert(last.subrange(2, 2int + digits.len()) =~= digits);
    }
}

/// The branches that match are listed in order, the selected one in view and marked.
pub proof fn listed_branches_show_the_selected_one(
    theme: Theme,
    branches: Seq<BranchInfo>,
    matches: Seq<(usize, i64)>,
    selected: int,
    width: int,
    height: int,
)
    requires
        0 <= selected < matches.len(),
        0 < height,
    ensures
        ({
            let rows = branch_rows(theme, branches, matches, selected, width, height);
            let first = lists::centered_scroll(selected, matches.len() as int, height);
            &&& rows.len() == height
            &&& 0 <= selected - first < height
            &&& rows[selected - first] == branch_row(
                theme,
                branches[matches[selected].0 as int],
                true,
            )
            &&& forall|k: int|
                0 <= k < height && first + k < matches.len() && first + k != selected
                    ==> #[trigger] rows[k] == branch_row(
                    theme,
                    branches[matches[first + k].0 as int],
                    false,
                )
        }),
{
    lists::centered_scroll_shows_the_selection(selected, matches.len() as int, height);
}

/// A row names its branch, and the selected one alone has an arrow in front of it.
pub proof fn rows_name_their_branch(theme: Theme, b: BranchInfo, selected: bool)
    ensures
        ({
            let row = branch_row(theme, b, selected);
            &&& row[0].content[2] == '>' <==> selected
            &&& row[1].content == b.name@
            &&& row.skip(2) == branch_badges(theme, b)
            &&& selected ==> row[1].style.fg == Some(theme.text_primary)
            &&& !selected ==> row[1].style.fg == Some(theme.text_secondary)
        }),
{
    reveal_strlit("  > ");
    reveal_strlit("    ");
    assert(branch_row(theme, b, selected).skip(2) =~= branch_badges(theme, b));
}

} // verus!
