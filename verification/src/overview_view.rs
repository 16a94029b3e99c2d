//! What the overview shows: the filter bar, the agent panels and where a click leads.

use vstd::prelude::*;

use crate::editing;
use crate::layout;
use crate::overview;
use crate::screen;
use crate::sorting;
use crate::style;
use crate::text;
use crate::view;
use crate::layout::{clip, inner_area, split_columns, split_top_row};
use crate::overview::{contains_text, order_of_repo, AgentPanel, OverviewFocus, OverviewState};
use crate::protocol::RepoInfo;
use crate::sorting::{sort_by_keys, SortKey};
use crate::style::{Color, Line, Span, Style};
use crate::text::{chars_of, copy_of, joined, push_decimal, string_of, text_eq};
use crate::view::{
    message_notice, pad_to, push_span, style_ground, style_ink, style_on, BarCursor, Notice, Rect,
    Theme,
};

verus! {

// ── File names ─────────────────────────────────────────────────────

/// A path without trailing slashes and trailing `/.` steps.
pub open spec fn without_trailing(path: Seq<char>) -> Seq<char>
    decreases path.len(),
{
    if path.len() > 0 && path.last() == '/' {
        without_trailing(path.drop_last())
    } else if path.len() >= 2 && path.last() == '.' && path[path.len() - 2] == '/' {
        without_trailing(path.take(path.len() - 2))
    } else {
        path
    }
}

/// What follows the last slash.
pub open spec fn leaf_of(path: Seq<char>) -> Seq<char>
    decreases path.len(),
{
    if path.len() == 0 || path.last() == '/' {
        Seq::empty()
    } else {
        leaf_of(path.drop_last()).push(path.last())
    }
}

/// The last component of a path, where that is a name and not `.`, `..` or the root.
pub open spec fn file_name(path: Seq<char>) -> Option<Seq<char>> {
    let leaf = leaf_of(without_trailing(path));
    if leaf.len() == 0 || leaf == seq!['.'] || leaf == seq!['.', '.'] {
        None
    } else {
        Some(leaf)
    }
}

/// The last component of a path, or the whole path where it has none.
pub open spec fn display_name(path: Seq<char>) -> Seq<char> {
    match file_name(path) {
        Some(name) => name,
        None => path,
    }
}

/// The last component of a path, where that is a name.
pub fn file_name_of(path: &str) -> (name: Option<String>)
    ensures
        overview::opt_view(name) == file_name(path@),
{
    let chars = chars_of(path);
    let mut end: usize = chars.len();
    assert(chars@.take(end as int) =~= chars@);
    while end > 0 && (chars[end - 1] == '/' || (end >= 2 && chars[end - 1] == '.' && chars[end - 2]
        == '/'))
        invariant
            end <= chars@.len(),
            without_trailing(chars@) == without_trailing(chars@.take(end as int)),
        decreases end,
    {
        let ghost now = chars@.take(end as int);
        if chars[end - 1] == '/' {
            assert(now.drop_last() =~= chars@.take(end - 1));
            end -= 1;
        } else {
            assert(now.take(now.len() - 2) =~= chars@.take(end - 2));
            end -= 2;
        }
    }
    let ghost short = chars@.take(end as int);
    let mut start: usize = end;
    assert(short.take(end as int) =~= short);
    assert(short.skip(end as int) =~= Seq::<char>::empty());
    assert(leaf_of(short) =~= leaf_of(short.take(end as int)) + short.skip(end as int));
    while start > 0 && chars[start - 1] != '/'
        invariant
            start <= end <= chars@.len(),
            short == chars@.take(end as int),
            leaf_of(short) == leaf_of(short.take(start as int)) + short.skip(start as int),
        decreases start,
    {
        assert(short.take(start as int).drop_last() =~= short.take(start - 1));
        assert(short.take(start as int).last() == chars@[start - 1]);
        assert(leaf_of(short) =~= leaf_of(short.take(start - 1)) + short.skip(start - 1));
        start -= 1;
    }
    let leaf = string_of(chars.as_slice(), start, end);
    proof {
        assert(leaf_of(short.take(start as int)) =~= Seq::<char>::empty());
        assert(leaf@ =~= leaf_of(short));
    }
    if start == end {
        return None;
    }
    if end - start == 1 && chars[start] == '.' {
        assert(leaf@ =~= seq!['.']);
        return None;
    }
    if end - start == 2 && chars[start] == '.' && chars[start + 1] == '.' {
        assert(leaf@ =~= seq!['.', '.']);
        return None;
    }
    proof {
        if leaf@ == seq!['.'] {
            assert(leaf@[0] == '.');
        }
        if leaf@ == seq!['.', '.'] {
            assert(leaf@[0] == '.' && leaf@[1] == '.');
        }
    }
    Some(leaf)
}

/// A name for a path: its last component, or all of it.
pub fn display_name_of(path: &str) -> (name: String)
    ensures
        name@ == display_name(path@),
{
    match file_name_of(path) {
        Some(name) => name,
        None => copy_of(path),
    }
}

// ── Agent panels ───────────────────────────────────────────────────

/// The colour of a panel's border.
pub open spec fn border_color(theme: Theme, focused: bool, repo: Option<Color>) -> Color {
    match repo {
        Some(c) => if focused {
            c
        } else {
            theme.dim(c)
        },
        None => if focused {
            theme.accent_bright
        } else {
            theme.text_tertiary
        },
    }
}

/// The part of a panel's header that says where its agent works.
pub open spec fn place_spans(
    panel: overview::PanelView,
    theme: Theme,
    repo: Option<Color>,
    bg: Color,
) -> Seq<style::SpanView> {
    let faint = view::on(theme.text_tertiary, bg);
    match (panel.repo_path, panel.branch_name) {
        (Some(path), branch) => {
            let named = seq![
                view::span("· "@, faint),
                view::span(
                    display_name(path),
                    view::on(
                        match repo {
                            Some(c) => c,
                            None => theme.accent,
                        },
                        bg,
                    ),
                ),
            ];
            match branch {
                Some(b) => named.push(view::span("/"@ + b, faint)).push(view::span(" "@, view::ground(bg))),
                None => named.push(view::span(" "@, view::ground(bg))),
            }
        },
        (None, Some(b)) => seq![view::span("· "@, faint), view::span(b, faint), view::span(" "@, view::ground(bg))],
        (None, None) => Seq::empty(),
    }
}

/// The header of a panel, before it is filled up to the panel's width.
pub open spec fn header_spans(
    panel: overview::PanelView,
    theme: Theme,
    focused: bool,
    repo: Option<Color>,
) -> Seq<style::SpanView> {
    let bg = header_ground(theme, focused);
    let id_color = if focused {
        theme.accent_bright
    } else {
        theme.accent
    };
    let first = seq![
        view::span(" "@, view::ground(bg)),
        view::span(panel.id, view::on(id_color, bg)),
        view::span(" · "@, view::on(theme.text_tertiary, bg)),
        view::span(panel.agent_binary, view::on(theme.text_secondary, bg)),
        view::span(" "@, view::ground(bg)),
    ];
    let state = if panel.exited {
        seq![view::span("[exited]"@, view::on(theme.error, bg)), view::span(" "@, view::ground(bg))]
    } else {
        seq![view::span("●"@, view::on(theme.success, bg)), view::span(" "@, view::ground(bg))]
    };
    let scrolled = if panel.scroll_offset > 0 {
        seq![view::span("↑"@ + text::decimal(panel.scroll_offset as nat) + " "@, view::on(theme.warning, bg))]
    } else {
        Seq::empty()
    };
    first + place_spans(panel, theme, repo, bg) + state + scrolled
}

/// The hint how to focus on an agent.
pub open spec fn focus_hint(theme: Theme) -> Seq<style::SpanView> {
    seq![
        view::span(" Shift+↓ "@, view::ink(theme.accent_bright)),
        view::span("focus "@, view::ink(theme.text_secondary)),
    ]
}

pub open spec fn header_ground(theme: Theme, focused: bool) -> Color {
    if focused {
        theme.bg_overlay
    } else {
        theme.bg_raised
    }
}

/// What a panel shows.
pub struct AgentPanelFace {
    pub area: Rect,
    pub border: Style,
    /// What the panel looks like below its texts.
    pub ground: Style,
    /// How to focus on the agent: stands in the middle of the lower border.
    pub hint: Option<Line>,
    pub header_area: Rect,
    pub header: Vec<Span>,
    pub content_area: Rect,
    pub lines: Vec<Line>,
}

fn push_place(
    spans: &mut Vec<Span>,
    panel: &AgentPanel,
    theme: &Theme,
    repo: Option<Color>,
    bg: Color,
)
    ensures
        style::spans_view(final(spans)@) == style::spans_view(old(spans)@) + place_spans(
            panel@,
            *theme,
            repo,
            bg,
        ),
{
    let ghost before = style::spans_view(spans@);
    let faint = style_on(theme.text_tertiary, bg);
    match &panel.repo_path {
        Some(path) => {
            let fg = match repo {
                Some(c) => c,
                None => theme.accent,
            };
            push_span(spans, "· ", faint);
            let name = display_name_of(path.as_str());
            push_span(spans, name.as_str(), style_on(fg, bg));
            if let Some(branch) = &panel.branch_name {
                let text = joined("/", branch.as_str());
                push_span(spans, text.as_str(), faint);
            }
            push_span(spans, " ", style_ground(bg));
        },
        None => if let Some(branch) = &panel.branch_name {
            push_span(spans, "· ", faint);
            push_span(spans, branch.as_str(), faint);
            push_span(spans, " ", style_ground(bg));
        },
    }
    assert(style::spans_view(spans@) =~= before + place_spans(panel@, *theme, repo, bg));
}

/// The header of a panel, filled up to a width.
pub fn agent_panel_header(
    panel: &AgentPanel,
    theme: &Theme,
    focused: bool,
    repo_color: Option<Color>,
    width: u16,
) -> (spans: Vec<Span>)
    ensures
        style::spans_view(spans@) == view::padded(
            header_spans(panel@, *theme, focused, repo_color),
            width as int,
            view::ground(header_ground(*theme, focused)),
        ),
{
    let bg = if focused {
        theme.bg_overlay
    } else {
        theme.bg_raised
    };
    let id_color = if focused {
        theme.accent_bright
    } else {
        theme.accent
    };
    let mut spans: Vec<Span> = Vec::new();
    push_span(&mut spans, " ", style_ground(bg));
    push_span(&mut spans, panel.id.as_str(), style_on(id_color, bg));
    push_span(&mut spans, " · ", style_on(theme.text_tertiary, bg));
    push_span(&mut spans, panel.agent_binary.as_str(), style_on(theme.text_secondary, bg));
    push_span(&mut spans, " ", style_ground(bg));
    let ghost first = style::spans_view(spans@);
    push_place(&mut spans, panel, theme, repo_color, bg);
    let ghost placed = style::spans_view(spans@);
    if panel.exited {
        push_span(&mut spans, "[exited]", style_on(theme.error, bg));
    } else {
        push_span(&mut spans, "●", style_on(theme.success, bg));
    }
    push_span(&mut spans, " ", style_ground(bg));
    let ghost stated = style::spans_view(spans@);
    // Scroll indicator
    if panel.panel_scroll_offset > 0 {
        let mut text = copy_of("↑");
        push_decimal(&mut text, panel.panel_scroll_offset);
        text.push_str(" ");
        push_span(&mut spans, text.as_str(), style_on(theme.warning, bg));
    }
    assert(style::spans_view(spans@) =~= header_spans(panel@, *theme, focused, repo_color));
    pad_to(&mut spans, width, style_ground(bg));
    spans
}

/// What a panel shows in an area; nothing where the area is too low for it.
pub fn agent_panel_face(
    area: Rect,
    panel: &AgentPanel,
    theme: &Theme,
    focused: bool,
    in_focus_mode: bool,
    repo_color: Option<Color>,
) -> (face: Option<AgentPanelFace>)
    requires
        panel.vterm.screen@.wf(),
    ensures
        face_shows(face, area, panel@, *theme, focused, !in_focus_mode, repo_color),
{
    if area.height < 3 {
        return None;
    }
    let border = match repo_color {
        Some(c) => if focused {
            c
        } else {
            theme.dim_color(c)
        },
        None => if focused {
            theme.accent_bright
        } else {
            theme.text_tertiary
        },
    };
    // The inner area holds the header (1 row) and the terminal content
    let (header_area, content_area) = split_top_row(inner_area(clip(area)));
    let header = agent_panel_header(panel, theme, focused, repo_color, header_area.width);
    let lines = panel.vterm.screen.to_ratatui_lines_scrolled(panel.panel_scroll_offset);
    let hint = if focused && !in_focus_mode {
        let mut spans: Vec<Span> = Vec::new();
        push_span(&mut spans, " Shift+↓ ", style_ink(theme.accent_bright));
        push_span(&mut spans, "focus ", style_ink(theme.text_secondary));
        let line = Line { spans };
        assert(line@ =~= focus_hint(*theme));
        Some(line)
    } else {
        None
    };
    Some(
        AgentPanelFace {
            area,
            border: style_ink(border),
            ground: style_ground(theme.bg_base),
            hint,
            header_area,
            header,
            content_area,
            lines,
        },
    )
}

/// Whether lines show the rows of a screen, one each.
pub open spec fn shows_rows(lines: Seq<Line>, rows: Seq<Seq<crate::screen::Cell>>) -> bool {
    &&& lines.len() == rows.len()
    &&& forall|i: int| 0 <= i < lines.len() ==> (#[trigger] lines[i])@ == screen::row_runs(rows[i])
}

// ── The filter bar ─────────────────────────────────────────────────

/// A chip of the filter bar: a repository, or all agents without one.
#[verifier::ext_equal]
pub ghost struct ChipView {
    pub name: Seq<char>,
    pub path: Seq<char>,
    pub color: Color,
    pub collapsed: bool,
    pub cursor: bool,
}

/// The colour that a repository's own colour name stands for.
pub open spec fn repo_tint(theme: Theme, name: Option<Seq<char>>) -> Color {
    match name {
        Some(n) => theme.repo(n),
        None => theme.accent,
    }
}

/// The settings that a filter bar is drawn with.
#[verifier::ext_equal]
pub ghost struct BarState {
    pub focused: bool,
    pub collapsed: Seq<Seq<char>>,
    pub visible: Seq<usize>,
    pub filter_cursor: int,
}

pub open spec fn has_other(panels: Seq<overview::PanelView>) -> bool {
    exists|i: int| 0 <= i < panels.len() && (#[trigger] panels[i]).repo_path is None
}

pub open spec fn repo_chip(theme: Theme, bar: BarState, repos: Seq<RepoInfo>, i: int) -> ChipView {
    ChipView {
        name: repos[i].name@,
        path: repos[i].path@,
        color: repo_tint(theme, overview::opt_view(repos[i].color)),
        collapsed: bar.collapsed.contains(repos[i].path@),
        cursor: bar.focused && i == bar.filter_cursor,
    }
}

pub open spec fn other_chip(theme: Theme, bar: BarState, repos: Seq<RepoInfo>) -> ChipView {
    ChipView {
        name: "Other"@,
        path: Seq::empty(),
        color: theme.accent,
        collapsed: bar.collapsed.contains(Seq::<char>::empty()),
        cursor: bar.focused && repos.len() == bar.filter_cursor,
    }
}

/// The chips of the bar: one per repository, and one for agents without any.
pub open spec fn chips(
    theme: Theme,
    bar: BarState,
    repos: Seq<RepoInfo>,
    panels: Seq<overview::PanelView>,
) -> Seq<ChipView> {
    let own = Seq::new(repos.len(), |i: int| repo_chip(theme, bar, repos, i));
    if has_other(panels) {
        own.push(other_chip(theme, bar, repos))
    } else {
        own
    }
}

pub open spec fn bar_ground(theme: Theme, focused: bool) -> Color {
    header_ground(theme, focused)
}

pub open spec fn chip_ground(theme: Theme, focused: bool, chip: ChipView) -> Color {
    if chip.cursor {
        theme.bg_active
    } else {
        bar_ground(theme, focused)
    }
}

/// A chip is a dot in the repository's colour and its name; both are dimmed while the
/// repository is collapsed.
pub open spec fn chip_spans(theme: Theme, focused: bool, chip: ChipView) -> Seq<style::SpanView> {
    let bg = chip_ground(theme, focused, chip);
    seq![
        view::span(
            " ● "@,
            view::on(
                if chip.collapsed {
                    theme.dim(chip.color)
                } else {
                    chip.color
                },
                bg,
            ),
        ),
        view::span(
            chip.name + " "@,
            view::on(
                if chip.collapsed {
                    theme.text_disabled
                } else {
                    theme.text_primary
                },
                bg,
            ),
        ),
    ]
}

/// How many columns a chip takes: the dot, the name's bytes and a space.
pub open spec fn chip_width(chip: ChipView) -> int {
    editing::byte_len(chip.name) as int + 4
}

pub open spec fn chip_widths(all: Seq<ChipView>) -> Seq<int> {
    all.map_values(|c: ChipView| chip_width(c))
}

pub open spec fn all_chip_spans(theme: Theme, focused: bool, all: Seq<ChipView>) -> Seq<style::SpanView>
    decreases all.len(),
{
    if all.len() == 0 {
        Seq::empty()
    } else {
        all_chip_spans(theme, focused, all.drop_last()) + chip_spans(theme, focused, all.last())
    }
}

/// The cells of the first `n` chips that lie within the bar, with their repositories.
pub open spec fn chip_targets(area: Rect, all: Seq<ChipView>, n: nat) -> Seq<(Rect, Seq<char>)>
    decreases n,
{
    if n == 0 {
        Seq::empty()
    } else {
        let rest = chip_targets(area, all, (n - 1) as nat);
        match view::item_rect(
            area,
            view::item_x(area.x as int, chip_widths(all), n - 1),
            chip_width(all[n - 1]),
        ) {
            Some(rect) => rest.push((rect, all[n - 1].path)),
            None => rest,
        }
    }
}

/// The sort keys of the indicators: repository, then branch, then id.
pub open spec fn indicator_keys(panels: Seq<overview::PanelView>, repos: Seq<RepoInfo>) -> Seq<sorting::KeyView> {
    panels.map_values(
        |p: overview::PanelView|
            sorting::KeyView {
                group: overview::repo_order(repos, p.repo_path) as int,
                name: p.branch_name,
                id: p.id,
            },
    )
}

/// The agents in the bar, in order: those whose repositories are not collapsed.
pub open spec fn indicator_order(
    panels: Seq<overview::PanelView>,
    repos: Seq<RepoInfo>,
    collapsed: Seq<Seq<char>>,
) -> Seq<usize> {
    sorting::sorted(
        overview::shown_panels(panels, collapsed, panels.len()),
        indicator_keys(panels, repos),
    )
}

/// The colour name of the first repository with this path.
pub open spec fn repo_color_name(repos: Seq<RepoInfo>, path: Seq<char>) -> Option<Seq<char>>
    decreases repos.len(),
{
    if repos.len() == 0 {
        None
    } else if repos[0].path@ == path {
        overview::opt_view(repos[0].color)
    } else {
        repo_color_name(repos.skip(1), path)
    }
}

pub open spec fn panel_tint(theme: Theme, repos: Seq<RepoInfo>, panel: overview::PanelView) -> Color {
    match panel.repo_path {
        Some(path) => repo_tint(theme, repo_color_name(repos, path)),
        None => theme.accent,
    }
}

/// An indicator's text: the branch, or the id where there is none.
pub open spec fn indicator_text(panel: overview::PanelView) -> Seq<char> {
    " "@ + (match panel.branch_name {
        Some(b) => b,
        None => panel.id,
    }) + " "@
}

pub open spec fn indicator_style(
    theme: Theme,
    bar: BarState,
    repos: Seq<RepoInfo>,
    panel: overview::PanelView,
    idx: usize,
) -> Style {
    let tint = panel_tint(theme, repos, panel);
    if bar.visible.contains(idx) {
        view::on(theme.text_primary, tint)
    } else {
        view::on(tint, bar_ground(theme, bar.focused))
    }
}

pub open spec fn indicator_span(
    theme: Theme,
    bar: BarState,
    repos: Seq<RepoInfo>,
    panels: Seq<overview::PanelView>,
    idx: usize,
) -> style::SpanView {
    view::span(
        indicator_text(panels[idx as int]),
        indicator_style(theme, bar, repos, panels[idx as int], idx),
    )
}

pub open spec fn indicator_widths(panels: Seq<overview::PanelView>, order: Seq<usize>) -> Seq<int> {
    order.map_values(|idx: usize| editing::byte_len(indicator_text(panels[idx as int])) as int)
}

/// The cells of the first `n` indicators that lie within the bar, with their panels.
pub open spec fn indicator_targets(
    area: Rect,
    start: int,
    panels: Seq<overview::PanelView>,
    order: Seq<usize>,
    n: nat,
) -> Seq<(Rect, usize)>
    decreases n,
{
    if n == 0 {
        Seq::empty()
    } else {
        let rest = indicator_targets(area, start, panels, order, (n - 1) as nat);
        let widths = indicator_widths(panels, order);
        match view::item_rect(area, view::item_x(start, widths, n - 1), widths[n - 1]) {
            Some(rect) => rest.push((rect, order[n - 1])),
            None => rest,
        }
    }
}

/// Everything in the bar before it is filled up.
pub open spec fn bar_spans(
    theme: Theme,
    bar: BarState,
    repos: Seq<RepoInfo>,
    panels: Seq<overview::PanelView>,
) -> Seq<style::SpanView> {
    let order = indicator_order(panels, repos, bar.collapsed);
    let first = all_chip_spans(theme, bar.focused, chips(theme, bar, repos, panels));
    let separated = if panels.len() > 0 {
        first.push(view::span(" │ "@, view::on(theme.text_tertiary, bar_ground(theme, bar.focused))))
    } else {
        first
    };
    separated + Seq::new(
        order.len(),
        |i: int| indicator_span(theme, bar, repos, panels, order[i]),
    )
}

/// Where the indicators begin: behind the chips, and the separator if there are any panels.
pub open spec fn indicators_start(
    area: Rect,
    all: Seq<ChipView>,
    panels: Seq<overview::PanelView>,
) -> int {
    view::item_x(area.x as int, chip_widths(all), all.len() as int) + if panels.len() > 0 {
        3int
    } else {
        0
    }
}

/// The filter bar.
pub struct OptionsBar {
    pub background: Color,
    /// Empty where there is no group to show.
    pub spans: Vec<Span>,
    pub repo_buttons: Vec<(Rect, String)>,
    pub agent_indicators: Vec<(Rect, usize)>,
}

pub open spec fn buttons_view(buttons: Seq<(Rect, String)>) -> Seq<(Rect, Seq<char>)> {
    buttons.map_values(|b: (Rect, String)| (b.0, b.1@))
}

/// A chip in executable form.
struct Chip<'a> {
    name: &'a str,
    path: &'a str,
    color: Color,
    collapsed: bool,
    cursor: bool,
}

impl<'a> Chip<'a> {
    spec fn view(self) -> ChipView {
        ChipView {
            name: self.name@,
            path: self.path@,
            color: self.color,
            collapsed: self.collapsed,
            cursor: self.cursor,
        }
    }
}

fn push_chip(spans: &mut Vec<Span>, theme: &Theme, focused: bool, chip: &Chip)
    ensures
        style::spans_view(final(spans)@) == style::spans_view(old(spans)@) + chip_spans(
            *theme,
            focused,
            chip.view(),
        ),
{
    let ghost before = style::spans_view(spans@);
    let bar_bg = if focused {
        theme.bg_overlay
    } else {
        theme.bg_raised
    };
    let bg = if chip.cursor {
        theme.bg_active
    } else {
        bar_bg
    };
    let (dot, ink) = if chip.collapsed {
        (theme.dim_color(chip.color), theme.text_disabled)
    } else {
        (chip.color, theme.text_primary)
    };
    push_span(spans, " ● ", style_on(dot, bg));
    let name = joined(chip.name, " ");
    push_span(spans, name.as_str(), style_on(ink, bg));
    assert(style::spans_view(spans@) =~= before + chip_spans(*theme, focused, chip.view()));
}

fn tint_of(theme: &Theme, name: &Option<String>) -> (color: Color)
    ensures
        color == repo_tint(*theme, overview::opt_view(*name)),
{
    match name {
        Some(n) => theme.repo_color(n.as_str()),
        None => theme.accent,
    }
}

fn any_without_repo(panels: &Vec<AgentPanel>) -> (found: bool)
    ensures
        found == has_other(overview::panels_view(panels@)),
{
    let ghost views = overview::panels_view(panels@);
    let mut i: usize = 0;
    while i < panels.len()
        invariant
            i <= panels@.len(),
            views == overview::panels_view(panels@),
            forall|k: int| 0 <= k < i ==> (#[trigger] views[k]).repo_path is Some,
        decreases panels@.len() - i,
    {
        if panels[i].repo_path.is_none() {
            assert(views[i as int].repo_path is None);
            return true;
        }
        i += 1;
    }
    false
}

fn panel_color(theme: &Theme, repos: &Vec<RepoInfo>, panel: &AgentPanel) -> (color: Color)
    ensures
        color == panel_tint(*theme, repos@, panel@),
{
    match &panel.repo_path {
        Some(path) => {
            let mut i: usize = 0;
            assert(repos@.skip(0) =~= repos@);
            while i < repos.len()
                invariant
                    i <= repos@.len(),
                    overview::opt_view(panel.repo_path) == Some(path@),
                    repo_color_name(repos@, path@) == repo_color_name(
                        repos@.skip(i as int),
                        path@,
                    ),
                decreases repos@.len() - i,
            {
                assert(repos@.skip(i as int).skip(1) =~= repos@.skip(i + 1));
                if text_eq(repos[i].path.as_str(), path.as_str()) {
                    return tint_of(theme, &repos[i].color);
                }
                i += 1;
            }
            theme.accent
        },
        None => theme.accent,
    }
}

fn contains_index(list: &Vec<usize>, idx: usize) -> (found: bool)
    ensures
        found == list@.contains(idx),
{
    let mut i: usize = 0;
    while i < list.len()
        invariant
            i <= list@.len(),
            forall|k: int| 0 <= k < i ==> list@[k] != idx,
        decreases list@.len() - i,
    {
        if list[i] == idx {
            assert(list@[i as int] == idx);
            return true;
        }
        i += 1;
    }
    false
}

fn place_chip(
    bar: &mut OptionsBar,
    cursor: &mut BarCursor,
    theme: &Theme,
    focused: bool,
    chip: &Chip,
    Ghost(all): Ghost<Seq<ChipView>>,
    Ghost(n): Ghost<int>,
)
    requires
        0 <= n < all.len(),
        all[n] == chip.view(),
        old(cursor).at(view::item_x(old(cursor).area.x as int, chip_widths(all), n)),
        style::spans_view(old(bar).spans@) == all_chip_spans(*theme, focused, all.take(n)),
        buttons_view(old(bar).repo_buttons@) == chip_targets(old(cursor).area, all, n as nat),
    ensures
        final(cursor).area == old(cursor).area,
        final(cursor).at(view::item_x(old(cursor).area.x as int, chip_widths(all), n + 1)),
        style::spans_view(final(bar).spans@) == all_chip_spans(*theme, focused, all.take(n + 1)),
        buttons_view(final(bar).repo_buttons@) == chip_targets(
            old(cursor).area,
            all,
            (n + 1) as nat,
        ),
        final(bar).background == old(bar).background,
        final(bar).agent_indicators == old(bar).agent_indicators,
{
    let ghost x = view::item_x(cursor.area.x as int, chip_widths(all), n);
    let ghost before = buttons_view(bar.repo_buttons@);
    let width = chip.name.as_bytes().len().saturating_add(4);
    assert(chip_widths(all)[n] == chip_width(all[n]));
    let rect = cursor.take(width, Ghost(x), Ghost(chip_width(all[n])));
    if let Some(r) = rect {
        let path = copy_of(chip.path);
        bar.repo_buttons.push((r, path));
        assert(buttons_view(bar.repo_buttons@) =~= before.push((r, chip.path@)));
    }
    push_chip(&mut bar.spans, theme, focused, chip);
    assert(all.take(n + 1).drop_last() =~= all.take(n));
}

fn place_indicator(
    bar: &mut OptionsBar,
    cursor: &mut BarCursor,
    theme: &Theme,
    state: &OverviewState,
    repos: &Vec<RepoInfo>,
    visible: &Vec<usize>,
    idx: usize,
    Ghost(settings): Ghost<BarState>,
    Ghost(order): Ghost<Seq<usize>>,
    Ghost(start): Ghost<int>,
    Ghost(n): Ghost<int>,
)
    requires
        idx < state.panels@.len(),
        0 <= n < order.len(),
        order[n] == idx,
        settings.visible == visible@,
        old(bar).background == bar_ground(*theme, settings.focused),
        old(cursor).at(view::item_x(start, indicator_widths(state@.panels, order), n)),
        old(bar).agent_indicators@ == indicator_targets(
            old(cursor).area,
            start,
            state@.panels,
            order,
            n as nat,
        ),
    ensures
        final(cursor).area == old(cursor).area,
        final(cursor).at(view::item_x(start, indicator_widths(state@.panels, order), n + 1)),
        style::spans_view(final(bar).spans@) == style::spans_view(old(bar).spans@).push(
            indicator_span(*theme, settings, repos@, state@.panels, idx),
        ),
        final(bar).agent_indicators@ == indicator_targets(
            old(cursor).area,
            start,
            state@.panels,
            order,
            (n + 1) as nat,
        ),
        final(bar).background == old(bar).background,
        final(bar).repo_buttons == old(bar).repo_buttons,
{
    let panel = &state.panels[idx];
    assert(state@.panels[idx as int] == panel@);
    let ghost widths = indicator_widths(state@.panels, order);
    let tint = panel_color(theme, repos, panel);
    let style = if contains_index(visible, idx) {
        // Inverse video: repo color background, primary text
        style_on(theme.text_primary, tint)
    } else {
        style_on(tint, bar.background)
    };
    let mut text = copy_of(" ");
    match &panel.branch_name {
        Some(b) => text.push_str(b.as_str()),
        None => text.push_str(panel.id.as_str()),
    }
    text.push_str(" ");
    let width = text.as_str().as_bytes().len();
    assert(text@ == indicator_text(panel@));
    assert(widths[n] == width);
    let ghost x = view::item_x(start, widths, n);
    if let Some(rect) = cursor.take(width, Ghost(x), Ghost(width as int)) {
        bar.agent_indicators.push((rect, idx));
    }
    push_span(&mut bar.spans, text.as_str(), style);
}

/// Whether a filter bar shows the repositories and the agents.
pub open spec fn bar_shows(
    bar: OptionsBar,
    area: Rect,
    state: overview::OverviewView,
    repos: Seq<RepoInfo>,
    visible: Seq<usize>,
    focused: bool,
    theme: Theme,
) -> bool {
    let panels = state.panels;
    let settings = BarState {
        focused,
        collapsed: state.collapsed,
        visible,
        filter_cursor: state.filter_cursor,
    };
    let all = chips(theme, settings, repos, panels);
    let order = indicator_order(panels, repos, state.collapsed);
    let start = indicators_start(area, all, panels);
    &&& bar.background == bar_ground(theme, focused)
    &&& style::spans_view(bar.spans@) == (if all.len() == 0 {
        Seq::empty()
    } else {
        view::padded(
            bar_spans(theme, settings, repos, panels),
            area.width as int,
            view::ground(bar_ground(theme, focused)),
        )
    })
    &&& buttons_view(bar.repo_buttons@) == chip_targets(area, all, all.len())
    &&& bar.agent_indicators@ == (if all.len() == 0 {
        Seq::empty()
    } else {
        indicator_targets(area, start, panels, order, order.len())
    })
}

/// The agents in the filter bar, in order.
fn agents_in_bar(state: &OverviewState, repos: &Vec<RepoInfo>) -> (order: Vec<usize>)
    ensures
        order@ == indicator_order(state@.panels, repos@, state@.collapsed),
        forall|k: int| 0 <= k < order@.len() ==> (#[trigger] order@[k]) < state.panels@.len(),
{
    let ghost panels = state@.panels;
    let mut keys: Vec<SortKey> = Vec::new();
    let mut chosen: Vec<usize> = Vec::new();
    let mut i: usize = 0;
    while i < state.panels.len()
        invariant
            i <= state.panels@.len(),
            panels == overview::panels_view(state.panels@),
            keys@.len() == i,
            chosen@ == overview::shown_panels(panels, state@.collapsed, i as nat),
            forall|k: int| 0 <= k < chosen@.len() ==> (#[trigger] chosen@[k]) < i,
            forall|k: int|
                0 <= k < i ==> (#[trigger] keys@[k])@ == indicator_keys(panels, repos@)[k],
        decreases state.panels@.len() - i,
    {
        assert(panels[i as int] == state.panels@[i as int]@);
        let collapsed = match &state.panels[i].repo_path {
            Some(path) => contains_text(&state.collapsed_repos, path.as_str()),
            None => {
                let none = String::new();
                contains_text(&state.collapsed_repos, none.as_str())
            },
        };
        let name = match &state.panels[i].branch_name {
            Some(b) => Some(b.clone()),
            None => None,
        };
        keys.push(
            SortKey {
                group: order_of_repo(repos, &state.panels[i].repo_path),
                name,
                id: state.panels[i].id.clone(),
            },
        );
        if !collapsed {
            chosen.push(i);
        }
        i += 1;
    }
    assert(sorting::keys_view(keys@) =~= indicator_keys(panels, repos@));
    sort_by_keys(&chosen, &keys)
}

/// The filter bar of the overview: a chip per repository, then an indicator per agent whose
/// repository is not collapsed. Agents that are in view are shown in inverse video.
pub fn options_bar(
    area: Rect,
    state: &OverviewState,
    repos: &Vec<RepoInfo>,
    visible: &Vec<usize>,
    focused: bool,
    theme: &Theme,
) -> (bar: OptionsBar)
    ensures
        bar_shows(bar, area, state@, repos@, visible@, focused, *theme),
{
    let ghost panels = state@.panels;
    let ghost settings = BarState {
        focused,
        collapsed: state@.collapsed,
        visible: visible@,
        filter_cursor: state@.filter_cursor,
    };
    let ghost all = chips(*theme, settings, repos@, panels);
    let background = if focused {
        theme.bg_overlay
    } else {
        theme.bg_raised
    };
    let mut bar = OptionsBar {
        background,
        spans: Vec::new(),
        repo_buttons: Vec::new(),
        agent_indicators: Vec::new(),
    };
    let other = any_without_repo(&state.panels);
    assert(style::spans_view(bar.spans@) =~= Seq::<style::SpanView>::empty());
    assert(buttons_view(bar.repo_buttons@) =~= chip_targets(area, all, 0));
    if repos.len() == 0 && !other {
        return bar;
    }
    let mut cursor = BarCursor::new(area);
    let mut i: usize = 0;
    assert(all.take(0) =~= Seq::<ChipView>::empty());
    while i < repos.len()
        invariant
            i <= repos@.len(),
            all == chips(*theme, settings, repos@, panels),
            repos@.len() <= all.len(),
            panels == state@.panels,
            settings == (BarState {
                focused,
                collapsed: state@.collapsed,
                visible: visible@,
                filter_cursor: state@.filter_cursor,
            }),
            cursor.area == area,
            cursor.at(view::item_x(area.x as int, chip_widths(all), i as int)),
            style::spans_view(bar.spans@) == all_chip_spans(*theme, focused, all.take(i as int)),
            buttons_view(bar.repo_buttons@) == chip_targets(area, all, i as nat),
            bar.background == bar_ground(*theme, focused),
            bar.agent_indicators@.len() == 0,
        decreases repos@.len() - i,
    {
        let chip = Chip {
            name: repos[i].name.as_str(),
            path: repos[i].path.as_str(),
            color: tint_of(theme, &repos[i].color),
            collapsed: contains_text(&state.collapsed_repos, repos[i].path.as_str()),
            cursor: focused && i == state.filter_cursor,
        };
        assert(all[i as int] =~= chip.view());
        place_chip(&mut bar, &mut cursor, theme, focused, &chip, Ghost(all), Ghost(i as int));
        i += 1;
    }
    // "Other" chip for agents with no repo
    if other {
        let none = String::new();
        let chip = Chip {
            name: "Other",
            path: none.as_str(),
            color: theme.accent,
            collapsed: contains_text(&state.collapsed_repos, none.as_str()),
            cursor: focused && repos.len() == state.filter_cursor,
        };
        assert(all[i as int] =~= chip.view());
        place_chip(&mut bar, &mut cursor, theme, focused, &chip, Ghost(all), Ghost(i as int));
    }
    assert(all.take(all.len() as int) =~= all);
    let ghost chips_end = view::item_x(area.x as int, chip_widths(all), all.len() as int);
    let ghost first = style::spans_view(bar.spans@);
    // The agents, sorted by repo order
    let order = agents_in_bar(state, repos);
    assert(panels.len() == state.panels@.len());
    if state.panels.len() > 0 {
        push_span(&mut bar.spans, " │ ", style_on(theme.text_tertiary, bar.background));
        let _rect = cursor.take(3, Ghost(chips_end), Ghost(3));
    }
    let ghost separated = style::spans_view(bar.spans@);
    let ghost start = indicators_start(area, all, panels);
    let ghost marks = Seq::new(
        order@.len(),
        |i: int| indicator_span(*theme, settings, repos@, panels, order@[i]),
    );
    let mut j: usize = 0;
    assert(separated + marks.take(0) =~= separated);
    while j < order.len()
        invariant
            j <= order@.len(),
            panels == state@.panels,
            settings == (BarState {
                focused,
                collapsed: state@.collapsed,
                visible: visible@,
                filter_cursor: state@.filter_cursor,
            }),
            forall|m: int| 0 <= m < order@.len() ==> (#[trigger] order@[m]) < state.panels@.len(),
            marks == Seq::new(
                order@.len(),
                |i: int| indicator_span(*theme, settings, repos@, panels, order@[i]),
            ),
            cursor.area == area,
            cursor.at(view::item_x(start, indicator_widths(panels, order@), j as int)),
            style::spans_view(bar.spans@) == separated + marks.take(j as int),
            bar.agent_indicators@ == indicator_targets(area, start, panels, order@, j as nat),
            bar.background == bar_ground(*theme, focused),
            buttons_view(bar.repo_buttons@) == chip_targets(area, all, all.len()),
        decreases order@.len() - j,
    {
        place_indicator(
            &mut bar,
            &mut cursor,
            theme,
            state,
            repos,
            visible,
            order[j],
            Ghost(settings),
            Ghost(order@),
            Ghost(start),
            Ghost(j as int),
        );
        j += 1;
        assert(separated + marks.take(j as int) =~= (separated + marks.take(j - 1)).push(
            marks[j - 1],
        ));
    }
    assert(marks.take(j as int) =~= marks);
    // Fill remaining width with background
    pad_to(&mut bar.spans, area.width, style_ground(background));
    bar
}

pub proof fn lemma_shown_panels(
    panels: Seq<overview::PanelView>,
    collapsed: Seq<Seq<char>>,
    n: nat,
    g: usize,
)
    requires
        n <= panels.len() <= usize::MAX,
    ensures
        overview::shown_panels(panels, collapsed, n).contains(g) <==> g < n && !collapsed.contains(
            overview::group_path(panels[g as int].repo_path),
        ),
    decreases n,
{
    if n > 0 {
        let rest = overview::shown_panels(panels, collapsed, (n - 1) as nat);
        let all = overview::shown_panels(panels, collapsed, n);
        lemma_shown_panels(panels, collapsed, (n - 1) as nat, g);
        if all != rest {
            let last = (n - 1) as usize;
            assert(all == rest.push(last));
            if rest.contains(g) {
                let k = choose|k: int| 0 <= k < rest.len() && rest[k] == g;
                assert(all[k] == g);
            }
            if g == last {
                assert(all[rest.len() as int] == g);
            }
            if all.contains(g) && g != last {
                let k = choose|k: int| 0 <= k < all.len() && all[k] == g;
                assert(rest[k] == g);
            }
        }
    }
}

pub proof fn lemma_targets_are_in_order(
    area: Rect,
    start: int,
    panels: Seq<overview::PanelView>,
    order: Seq<usize>,
    n: nat,
)
    requires
        n <= order.len(),
    ensures
        forall|k: int|
            0 <= k < indicator_targets(area, start, panels, order, n).len() ==> order.contains(
                (#[trigger] indicator_targets(area, start, panels, order, n)[k]).1,
            ),
    decreases n,
{
    if n > 0 {
        lemma_targets_are_in_order(area, start, panels, order, (n - 1) as nat);
        assert(order.contains(order[n - 1]));
        let rest = indicator_targets(area, start, panels, order, (n - 1) as nat);
        let all = indicator_targets(area, start, panels, order, n);
        assert forall|k: int| 0 <= k < all.len() implies order.contains((#[trigger] all[k]).1) by {
            if k < rest.len() {
                assert(all[k] == rest[k]);
            }
        }
    }
}

/// The bar has an indicator for exactly the agents whose repositories are not collapsed, and no
/// cell of the bar leads to an agent of a collapsed one.
pub proof fn collapsed_repos_hide_their_agents(
    bar: OptionsBar,
    area: Rect,
    state: overview::OverviewView,
    repos: Seq<RepoInfo>,
    visible: Seq<usize>,
    focused: bool,
    theme: Theme,
)
    requires
        state.panels.len() <= usize::MAX,
        bar_shows(bar, area, state, repos, visible, focused, theme),
    ensures
        forall|g: usize|
            #[trigger] indicator_order(state.panels, repos, state.collapsed).contains(g) <==> g
                < state.panels.len() && !state.collapsed.contains(
                overview::group_path(state.panels[g as int].repo_path),
            ),
        forall|k: int|
            0 <= k < bar.agent_indicators@.len() ==> {
                let g = (#[trigger] bar.agent_indicators@[k]).1;
                &&& g < state.panels.len()
                &&& !state.collapsed.contains(
                    overview::group_path(state.panels[g as int].repo_path),
                )
            },
{
    broadcast use vstd::seq_lib::group_to_multiset_ensures;

    let shown = overview::shown_panels(state.panels, state.collapsed, state.panels.len());
    let keys = indicator_keys(state.panels, repos);
    let order = indicator_order(state.panels, repos, state.collapsed);
    crate::sorting::sorting_permutes_into_order(shown, keys);
    assert forall|g: usize| #[trigger] order.contains(g) <==> g < state.panels.len()
        && !state.collapsed.contains(
        overview::group_path(state.panels[g as int].repo_path),
    ) by {
        lemma_shown_panels(state.panels, state.collapsed, state.panels.len(), g);
        assert(order.contains(g) <==> order.to_multiset().count(g) > 0);
        assert(shown.contains(g) <==> shown.to_multiset().count(g) > 0);
    }
    let settings = BarState {
        focused,
        collapsed: state.collapsed,
        visible,
        filter_cursor: state.filter_cursor,
    };
    let start = indicators_start(area, chips(theme, settings, repos, state.panels), state.panels);
    lemma_targets_are_in_order(area, start, state.panels, order, order.len());
}

// ── The whole overview ─────────────────────────────────────────────

/// The part of the sorted list that is in view: from the first to behind the last.
pub open spec fn range_in_view(state: overview::OverviewView, width: u16) -> (int, int) {
    let n = state.sorted.len() as int;
    let visible = state.visible_count(width);
    if n == 0 || visible == 0 {
        (0, 0)
    } else {
        let scroll = overview::imin(state.scroll_offset, n - 1);
        (scroll, overview::imin(scroll + visible, n))
    }
}

/// The part of the sorted list that is in view.
pub fn panels_in_view(state: &OverviewState, width: u16) -> (range: (usize, usize))
    ensures
        (range.0 as int, range.1 as int) == range_in_view(state@, width),
        range.0 <= range.1 <= state@.sorted.len(),
        range.1 - range.0 <= overview::panels_fitting(width),
{
    let n = state.sorted_indices.len();
    let visible = state.visible_panel_count(width);
    if n == 0 || visible == 0 {
        return (0, 0);
    }
    let scroll = if state.scroll_offset < n - 1 {
        state.scroll_offset
    } else {
        n - 1
    };
    let end = if visible < n - scroll {
        scroll + visible
    } else {
        n
    };
    (scroll, end)
}

/// The colour name that a table of repositories gives a path.
pub open spec fn listed_color(table: Seq<(String, String)>, path: Seq<char>) -> Option<Seq<char>>
    decreases table.len(),
{
    if table.len() == 0 {
        None
    } else if table[0].0@ == path {
        Some(table[0].1@)
    } else {
        listed_color(table.skip(1), path)
    }
}

/// The colour of a repository, where there is one and it has a colour.
pub open spec fn tint_at(
    theme: Theme,
    table: Seq<(String, String)>,
    repo_path: Option<Seq<char>>,
) -> Option<Color> {
    match repo_path {
        Some(path) => match listed_color(table, path) {
            Some(name) => Some(theme.repo(name)),
            None => None,
        },
        None => None,
    }
}

pub fn repo_color_of(
    theme: &Theme,
    table: &Vec<(String, String)>,
    repo_path: &Option<String>,
) -> (color: Option<Color>)
    ensures
        color == tint_at(*theme, table@, overview::opt_view(*repo_path)),
{
    match repo_path {
        Some(path) => {
            let mut i: usize = 0;
            assert(table@.skip(0) =~= table@);
            while i < table.len()
                invariant
                    i <= table@.len(),
                    overview::opt_view(*repo_path) == Some(path@),
                    listed_color(table@, path@) == listed_color(table@.skip(i as int), path@),
                decreases table@.len() - i,
            {
                assert(table@.skip(i as int).skip(1) =~= table@.skip(i + 1));
                if text_eq(table[i].0.as_str(), path.as_str()) {
                    return Some(theme.repo_color(table[i].1.as_str()));
                }
                i += 1;
            }
            None
        },
        None => None,
    }
}

/// Whether a face shows a panel.
pub open spec fn face_shows(
    face: Option<AgentPanelFace>,
    area: Rect,
    panel: overview::PanelView,
    theme: Theme,
    focused: bool,
    hinted: bool,
    color: Option<Color>,
) -> bool {
    &&& face is Some <==> area.height >= 3
    &&& face matches Some(f) ==> {
        let inner = layout::within_border(area);
        &&& f.area == area
        &&& layout::in_range(area) ==> {
            &&& f.header_area == layout::part(true, inner, 0, 1)
            &&& f.content_area == layout::part(true, inner, 1, inner.height - 1)
        }
        &&& f.border == view::ink(border_color(theme, focused, color))
        &&& f.ground == view::ground(theme.bg_base)
        &&& f.hint is Some <==> focused && hinted
        &&& f.hint matches Some(line) ==> line@ == focus_hint(theme)
        &&& style::spans_view(f.header@) == view::padded(
            header_spans(panel, theme, focused, color),
            f.header_area.width as int,
            view::ground(header_ground(theme, focused)),
        )
        &&& shows_rows(f.lines@, panel.screen.visible_rows(panel.scroll_offset))
    }
}

/// The panels `sorted[scroll..]`, one in each area, with what each shows.
pub fn panel_faces(
    state: &OverviewState,
    scroll: usize,
    areas: &Vec<Rect>,
    repo_colors: &Vec<(String, String)>,
    theme: &Theme,
) -> (faces: Vec<(Rect, usize, Option<AgentPanelFace>)>)
    requires
        overview::panels_wf(state.panels@),
        scroll + areas@.len() <= state@.sorted.len(),
        forall|k: int|
            0 <= k < state@.sorted.len() ==> (#[trigger] state@.sorted[k]) < state@.panels.len(),
    ensures
        faces@.len() == areas@.len(),
        forall|i: int|
            0 <= i < faces@.len() ==> {
                let idx = state@.sorted[scroll + i];
                let panel = state@.panels[idx as int];
                &&& (#[trigger] faces@[i]).0 == areas@[i]
                &&& faces@[i].1 == idx
                &&& face_shows(
                    faces@[i].2,
                    areas@[i],
                    panel,
                    *theme,
                    state@.focus == OverviewFocus::Terminal(idx),
                    true,
                    tint_at(*theme, repo_colors@, panel.repo_path),
                )
            },
{
    let mut faces: Vec<(Rect, usize, Option<AgentPanelFace>)> = Vec::new();
    let count = state.sorted_indices.len();
    let mut i: usize = 0;
    while i < areas.len()
        invariant
            i <= areas@.len(),
            overview::panels_wf(state.panels@),
            scroll + areas@.len() <= state@.sorted.len(),
            state@.sorted.len() == count,
            forall|k: int|
                0 <= k < state@.sorted.len() ==> (#[trigger] state@.sorted[k])
                    < state@.panels.len(),
            faces@.len() == i,
            forall|i: int|
                0 <= i < faces@.len() ==> {
                    let idx = state@.sorted[scroll + i];
                    let panel = state@.panels[idx as int];
                    &&& (#[trigger] faces@[i]).0 == areas@[i]
                    &&& faces@[i].1 == idx
                    &&& face_shows(
                        faces@[i].2,
                        areas@[i],
                        panel,
                        *theme,
                        state@.focus == OverviewFocus::Terminal(idx),
                        true,
                        tint_at(*theme, repo_colors@, panel.repo_path),
                    )
                },
        decreases areas@.len() - i,
    {
        let idx = state.sorted_indices[scroll + i];
        assert(state@.sorted[scroll + i] < state@.panels.len());
        let panel = &state.panels[idx];
        assert(state@.panels[idx as int] == panel@);
        let focused = match state.focus {
            OverviewFocus::Terminal(f) => f == idx,
            OverviewFocus::OptionsBar => false,
        };
        let color = repo_color_of(theme, repo_colors, &panel.repo_path);
        let face = agent_panel_face(areas[i], panel, theme, focused, false, color);
        faces.push((areas[i], idx, face));
        i += 1;
    }
    faces
}

/// The hint that panels lie to the left of the view.
pub open spec fn left_hint(scroll: int) -> Seq<char> {
    " ◀ "@ + text::decimal(scroll as nat) + " "@
}

/// The hint that panels lie to the right of the view.
pub open spec fn right_hint(count: int) -> Seq<char> {
    " "@ + text::decimal(count as nat) + " ▶ "@
}

/// Where the left hint stands: in the upper left corner of the panels. It has a cell per byte.
pub open spec fn left_hint_rect(area: Rect, scroll: int) -> Rect {
    Rect { width: editing::byte_len(left_hint(scroll)) as u16, height: 1, ..area }
}

/// Where the right hint stands: it ends in the upper right corner of the panels.
pub open spec fn right_hint_rect(area: Rect, count: int) -> Rect {
    let width = right_hint(count).len();
    Rect {
        x: overview::imax(area.x + area.width - width, 0) as u16,
        width: width as u16,
        height: 1,
        ..area
    }
}

/// Whether hints say how many panels lie outside of the view on either side.
pub open spec fn hints_show(
    left: Option<(Rect, Span)>,
    right: Option<(Rect, Span)>,
    scroll: int,
    end: int,
    count: int,
    area: Rect,
    theme: Theme,
) -> bool {
    let look = view::on(theme.text_secondary, theme.bg_overlay);
    &&& left is Some <==> scroll > 0
    &&& left matches Some((rect, text)) ==> rect == left_hint_rect(area, scroll) && text@
        == view::span(left_hint(scroll), look)
    &&& right is Some <==> end < count
    &&& right matches Some((rect, text)) ==> rect == right_hint_rect(area, count - end) && text@
        == view::span(right_hint(count - end), look)
}

/// The hints how many panels lie outside of the view on either side.
pub fn scroll_hints(scroll: usize, end: usize, count: usize, area: Rect, theme: &Theme) -> (hints: (
    Option<(Rect, Span)>,
    Option<(Rect, Span)>,
))
    requires
        scroll <= end <= count,
        area.x + area.width <= u16::MAX,
    ensures
        hints_show(
            hints.0,
            hints.1,
            scroll as int,
            end as int,
            count as int,
            area,
            *theme,
        ),
{
    let look = style_on(theme.text_secondary, theme.bg_overlay);
    let left = if scroll > 0 {
        let mut s = copy_of(" ◀ ");
        push_decimal(&mut s, scroll);
        s.push_str(" ");
        let width: u16 = #[verifier::truncate] (s.as_str().as_bytes().len() as u16);
        Some((Rect { width, height: 1, ..area }, Span::of(s.as_str(), look)))
    } else {
        None
    };
    let right = if end < count {
        let mut s = copy_of(" ");
        push_decimal(&mut s, count - end);
        s.push_str(" ▶ ");
        let n = s.as_str().unicode_len();
        let width: u16 = #[verifier::truncate] (n as u16);
        let right_edge: usize = area.x as usize + area.width as usize;
        let x: u16 = if n < right_edge {
            (right_edge - n) as u16
        } else {
            0
        };
        Some((Rect { x, width, height: 1, ..area }, Span::of(s.as_str(), look)))
    } else {
        None
    };
    (left, right)
}

/// What is said where no agent has a panel.
pub open spec fn no_agents(theme: Theme) -> view::NoticeView {
    view::message(theme, "No agents running"@)
}

pub fn empty_state(theme: &Theme) -> (notice: Notice)
    ensures
        notice@ == no_agents(*theme),
{
    message_notice("No agents running", theme)
}

/// What the overview shows.
pub struct OverviewFace {
    pub bar_area: Rect,
    pub bar: OptionsBar,
    pub panels_area: Rect,
    /// The panels in view with their areas and indices; none where no agent is in view.
    pub panels: Vec<(Rect, usize, Option<AgentPanelFace>)>,
    /// What stands in place of panels where there are none.
    pub empty: Option<Notice>,
    pub left_hint: Option<(Rect, Span)>,
    pub right_hint: Option<(Rect, Span)>,
}

/// What the overview shows in an area. Brings the sorted list up to date first.
///
/// How wide the panels are is left to the layout, which rounds their shares.
pub fn overview_face(
    area: Rect,
    state: &mut OverviewState,
    repo_colors: &Vec<(String, String)>,
    repos: &Vec<RepoInfo>,
    theme: &Theme,
) -> (face: OverviewFace)
    requires
        old(state).wf(),
    ensures
        final(state).wf(),
        final(state).agent_terminals == old(state).agent_terminals,
        final(state)@ == (overview::OverviewView {
            sorted: sorting::sorted(
                crate::overview::shown_panels(
                    old(state)@.panels,
                    old(state)@.collapsed,
                    old(state)@.panels.len(),
                ),
                crate::overview::panel_keys(old(state)@.panels, repos@),
            ),
            ..old(state)@
        }),
        ({
            let s = final(state)@;
            let (scroll, end) = range_in_view(s, face.panels_area.width);
            &&& face.panels@.len() == end - scroll
            &&& forall|i: int|
                0 <= i < face.panels@.len() ==> (#[trigger] face.panels@[i]).1 == s.sorted[scroll
                    + i] && face_shows(
                    face.panels@[i].2,
                    face.panels@[i].0,
                    s.panels[s.sorted[scroll + i] as int],
                    *theme,
                    s.focus == OverviewFocus::Terminal(s.sorted[scroll + i]),
                    true,
                    tint_at(
                        *theme,
                        repo_colors@,
                        s.panels[s.sorted[scroll + i] as int].repo_path,
                    ),
                ) && layout::lies_within(face.panels@[i].0, layout::clipped(face.panels_area))
                    && layout::fills_share(
                    face.panels@[i].0,
                    i,
                    layout::column_slots(end - scroll),
                    false,
                    layout::clipped(face.panels_area),
                )
            &&& layout::in_range(area) && area.height >= 1 ==> {
                &&& face.bar_area == layout::part(true, area, 0, 1)
                &&& face.panels_area == layout::part(true, area, 1, area.height - 1)
            }
            &&& bar_shows(
                face.bar,
                face.bar_area,
                s,
                repos@,
                s.sorted.subrange(scroll, end),
                s.focus == OverviewFocus::OptionsBar,
                *theme,
            )
            &&& match face.empty {
                Some(notice) => face.panels@.len() == 0 && notice@ == no_agents(*theme),
                None => face.panels@.len() > 0,
            }
            &&& if end > scroll {
                hints_show(
                    face.left_hint,
                    face.right_hint,
                    scroll,
                    end,
                    s.sorted.len() as int,
                    face.panels_area,
                    *theme,
                )
            } else {
                face.left_hint is None && face.right_hint is None
            }
        }),
{
    // Split into filter bar (1 row) + panels area
    let (bar_area, panels_area) = split_top_row(area);
    state.compute_sorted_indices(repos);
    let (scroll, end) = panels_in_view(state, panels_area.width);
    // The panels that are currently visible on screen
    let mut visible: Vec<usize> = Vec::new();
    let mut i: usize = scroll;
    while i < end
        invariant
            scroll <= i <= end <= state@.sorted.len(),
            visible@ == state@.sorted.subrange(scroll as int, i as int),
        decreases end - i,
    {
        visible.push(state.sorted_indices[i]);
        i += 1;
    }
    let focused = match state.focus {
        OverviewFocus::OptionsBar => true,
        OverviewFocus::Terminal(_) => false,
    };
    let bar = options_bar(bar_area, state, repos, &visible, focused, theme);
    if end == scroll {
        return OverviewFace {
            bar_area,
            bar,
            panels_area,
            panels: Vec::new(),
            empty: Some(empty_state(theme)),
            left_hint: None,
            right_hint: None,
        };
    }
    assert(end - scroll <= overview::panels_fitting(panels_area.width) <= 1092);
    let areas = split_columns(panels_area, end - scroll);
    let panels = panel_faces(state, scroll, &areas, repo_colors, theme);
    let (left_hint, right_hint) = scroll_hints(
        scroll,
        end,
        state.sorted_indices.len(),
        panels_area,
        theme,
    );
    OverviewFace { bar_area, bar, panels_area, panels, empty: None, left_hint, right_hint }
}

proof fn lemma_leaf(front: Seq<char>, name: Seq<char>)
    requires
        !name.contains('/'),
    ensures
        leaf_of(front.push('/') + name) == name,
        leaf_of(name) == name,
    decreases name.len(),
{
    let path = front.push('/') + name;
    if name.len() == 0 {
        assert(path =~= front.push('/'));
        assert(leaf_of(path) =~= name);
        assert(leaf_of(name) =~= name);
    } else {
        let shorter = name.drop_last();
        assert(name.contains(name.last()));
        if shorter.contains('/') {
            let i = shorter.index_of('/');
            assert(name[i] == '/');
        }
        lemma_leaf(front, shorter);
        assert(path.drop_last() =~= front.push('/') + shorter);
        assert(shorter.push(name.last()) =~= name);
    }
}

/// A path goes by its last part, whether or not a slash stands behind it.
pub proof fn paths_go_by_their_last_part(front: Seq<char>, name: Seq<char>)
    requires
        name.len() > 0,
        !name.contains('/'),
        name != seq!['.'],
        name != seq!['.', '.'],
    ensures
        display_name(front.push('/') + name) == name,
        display_name((front.push('/') + name).push('/')) == name,
        display_name(name) == name,
{
    let path = front.push('/') + name;
    lemma_leaf(front, name);
    assert(name.contains(name.last()));
    assert(path.last() == name.last());
    if path.last() == '.' && path[path.len() - 2] == '/' {
        if name.len() >= 2 {
            assert(path[path.len() - 2] == name[name.len() - 2]);
            assert(name.contains(name[name.len() - 2]));
        } else {
            assert(name =~= seq!['.']);
        }
    }
    assert(without_trailing(path) == path);
    assert(path.push('/').drop_last() =~= path);
    assert(without_trailing(path.push('/')) == path);
    if name.last() == '.' && name.len() >= 2 && name[name.len() - 2] == '/' {
        assert(name.contains(name[name.len() - 2]));
    }
    assert(without_trailing(name) == name);
}

/// A panel in focus has its repository's color around it, any other that color dimmed; without
/// a repository it is an accent, and a faint border elsewhere.
pub proof fn borders_tell_the_repository(theme: Theme, color: Color)
    ensures
        border_color(theme, true, Some(color)) == color,
        border_color(theme, false, Some(color)) == theme.dim(color),
        border_color(theme, true, None) == theme.accent_bright,
        border_color(theme, false, None) == theme.text_tertiary,
        header_ground(theme, true) == theme.bg_overlay,
        header_ground(theme, false) == theme.bg_raised,
{
}

/// A panel's header names the agent, what it runs and where, and whether it still runs; how far
/// one has scrolled back stands at its end.
pub proof fn headers_tell_of_their_agent(
    panel: overview::PanelView,
    theme: Theme,
    focused: bool,
    repo: Option<Color>,
)
    ensures
        ({
            let spans = header_spans(panel, theme, focused, repo);
            let place = place_spans(panel, theme, repo, header_ground(theme, focused));
            let at = 5 + place.len();
            &&& spans[1].content == panel.id
            &&& spans[3].content == panel.agent_binary
            &&& spans.subrange(5, at as int) == place
            &&& panel.exited ==> spans[at as int].content == "[exited]"@ && spans[at as int].style.fg
                == Some(theme.error)
            &&& !panel.exited ==> spans[at as int].style.fg == Some(theme.success)
            &&& spans.len() == at + 2 + (if panel.scroll_offset > 0 {
                1int
            } else {
                0
            })
            &&& panel.repo_path is Some ==> place[1].content == display_name(panel.repo_path->0)
            &&& panel.repo_path is Some && panel.branch_name is Some ==> place[2].content == "/"@
                + panel.branch_name->0
            &&& panel.repo_path is None && panel.branch_name is Some ==> place[1].content
                == panel.branch_name->0
            &&& panel.repo_path is None && panel.branch_name is None ==> place.len() == 0
            &&& panel.repo_path is Some && repo is Some ==> place[1].style.fg == repo
        }),
{
    let spans = header_spans(panel, theme, focused, repo);
    let place = place_spans(panel, theme, repo, header_ground(theme, focused));
    let at = (5 + place.len()) as int;
    assert(spans.subrange(5, at) =~= place);
}

/// Every repository has a chip of its own, in order, and what belongs to none has one behind
/// them, where there is something. A chip tells whether its repository is collapsed.
pub proof fn repositories_have_chips(
    theme: Theme,
    bar: BarState,
    repos: Seq<RepoInfo>,
    panels: Seq<overview::PanelView>,
    i: int,
    p: int,
)
    requires
        0 <= i < repos.len(),
        0 <= p < panels.len(),
    ensures
        ({
            let all = chips(theme, bar, repos, panels);
            &&& repos.len() <= all.len() <= repos.len() + 1
            &&& all[i].name == repos[i].name@
            &&& all[i].path == repos[i].path@
            &&& all[i].collapsed <==> bar.collapsed.contains(repos[i].path@)
            &&& all[i].cursor <==> bar.focused && bar.filter_cursor == i
            &&& panels[p].repo_path is None ==> all.len() == repos.len() + 1
            &&& all.len() == repos.len() + 1 ==> all.last().path.len() == 0
        }),
{
    if panels[p].repo_path is None {
        assert(has_other(panels));
    }
}

/// A chip shows its name and its color, both faint while it is collapsed, and has a ground of
/// its own where the cursor stands.
pub proof fn chips_show_their_state(theme: Theme, focused: bool, chip: ChipView)
    ensures
        ({
            let spans = chip_spans(theme, focused, chip);
            &&& spans.len() == 2
            &&& spans[1].content == chip.name.push(' ')
            &&& chip.collapsed ==> spans[0].style.fg == Some(theme.dim(chip.color))
                && spans[1].style.fg == Some(theme.text_disabled)
            &&& !chip.collapsed ==> spans[0].style.fg == Some(chip.color) && spans[1].style.fg
                == Some(theme.text_primary)
            &&& chip.cursor ==> spans[0].style.bg == Some(theme.bg_active)
            &&& !chip.cursor ==> spans[0].style.bg == Some(header_ground(theme, focused))
            &&& spans[1].style.bg == spans[0].style.bg
        }),
        editing::byte_len(chip.name) == chip.name.len() ==> view::spans_width(
            chip_spans(theme, focused, chip),
        ) == chip_width(chip),
{
    reveal_strlit(" ");
    reveal_strlit(" ● ");
    assert(chip.name + " "@ =~= chip.name.push(' '));
    let spans = chip_spans(theme, focused, chip);
    reveal_with_fuel(view::spans_width, 3);
    assert(spans.drop_last() =~= seq![spans[0]]);
    assert(seq![spans[0]].drop_last() =~= Seq::<style::SpanView>::empty());
}

/// A click on a chip is one on its repository: the places of chips follow the places they are
/// drawn at, and a chip that sticks out of the bar has none.
pub proof fn chips_are_clicked_where_they_are(area: Rect, all: Seq<ChipView>, n: nat)
    requires
        n < all.len(),
        0 <= view::item_x(area.x as int, chip_widths(all), n as int) <= u16::MAX,
        chip_width(all[n as int]) <= u16::MAX,
    ensures
        ({
            let before = chip_targets(area, all, n);
            let after = chip_targets(area, all, n + 1);
            let x = view::item_x(area.x as int, chip_widths(all), n as int);
            let fits = x + chip_width(all[n as int]) <= area.x + area.width;
            &&& !fits ==> after == before
            &&& fits ==> {
                &&& after.drop_last() == before
                &&& after.last().0.x == x
                &&& after.last().0.width == chip_width(all[n as int])
                &&& after.last().0.y == area.y
                &&& after.last().1 == all[n as int].path
            }
        }),
        chip_targets(area, all, 0).len() == 0,
{
    let before = chip_targets(area, all, n);
    let after = chip_targets(area, all, n + 1);
    if after.len() > before.len() {
        assert(after.drop_last() =~= before);
    }
}

/// A click on an agent's name is one on that agent, as with chips.
pub proof fn names_are_clicked_where_they_are(
    area: Rect,
    start: int,
    panels: Seq<overview::PanelView>,
    order: Seq<usize>,
    n: nat,
)
    requires
        n < order.len(),
        0 <= view::item_x(start, indicator_widths(panels, order), n as int) <= u16::MAX,
        indicator_widths(panels, order)[n as int] <= u16::MAX,
    ensures
        ({
            let before = indicator_targets(area, start, panels, order, n);
            let after = indicator_targets(area, start, panels, order, n + 1);
            let widths = indicator_widths(panels, order);
            let x = view::item_x(start, widths, n as int);
            let fits = x + widths[n as int] <= area.x + area.width;
            &&& !fits ==> after == before
            &&& fits ==> {
                &&& after.drop_last() == before
                &&& after.last().0.x == x
                &&& after.last().0.width == widths[n as int]
                &&& after.last().0.y == area.y
                &&& after.last().1 == order[n as int]
            }
        }),
        indicator_targets(area, start, panels, order, 0).len() == 0,
{
    let before = indicator_targets(area, start, panels, order, n);
    let after = indicator_targets(area, start, panels, order, n + 1);
    if after.len() > before.len() {
        assert(after.drop_last() =~= before);
    }
}

/// An agent goes by its branch, or by its id without one. One that is in view has its
/// repository's color as its ground, any other has its name in that color.
pub proof fn agents_go_by_their_branch(
    theme: Theme,
    bar: BarState,
    repos: Seq<RepoInfo>,
    panels: Seq<overview::PanelView>,
    idx: usize,
)
    requires
        idx < panels.len(),
    ensures
        ({
            let span = indicator_span(theme, bar, repos, panels, idx);
            let panel = panels[idx as int];
            let name = if panel.branch_name is Some {
                panel.branch_name->0
            } else {
                panel.id
            };
            let tint = panel_tint(theme, repos, panel);
            &&& span.content.len() == name.len() + 2
            &&& span.content.subrange(1, name.len() + 1int) == name
            &&& bar.visible.contains(idx) ==> span.style.bg == Some(tint)
            &&& !bar.visible.contains(idx) ==> span.style.fg == Some(tint)
            &&& panel.repo_path is None ==> tint == theme.accent
        }),
{
    reveal_strlit(" ");
    let panel = panels[idx as int];
    let name = if panel.branch_name is Some {
        panel.branch_name->0
    } else {
        panel.id
    };
    assert(indicator_text(panel).subrange(1, name.len() + 1int) =~= name);
}

/// A repository's color is the one in its own entry, the first with its path, and an accent
/// where it names none.
pub proof fn repositories_have_their_color(theme: Theme, repos: Seq<RepoInfo>, i: int)
    requires
        0 <= i < repos.len(),
        forall|j: int| 0 <= j < i ==> (#[trigger] repos[j]).path@ != repos[i].path@,
    ensures
        repo_color_name(repos, repos[i].path@) == overview::opt_view(repos[i].color),
        repos[i].color is Some ==> repo_tint(theme, repo_color_name(repos, repos[i].path@))
            == theme.repo(repos[i].color->0@),
        repos[i].color is None ==> repo_tint(theme, repo_color_name(repos, repos[i].path@))
            == theme.accent,
    decreases i,
{
    if i > 0 {
        assert(repos[0].path@ != repos[i].path@);
        let rest = repos.skip(1);
        assert forall|j: int| 0 <= j < i - 1 implies (#[trigger] rest[j]).path@
            != rest[i - 1].path@ by {
            assert(rest[j] == repos[j + 1]);
        }
        repositories_have_their_color(theme, rest, i - 1);
    }
}

/// A path has the color of its first entry in the table, and none without one.
pub proof fn listed_paths_have_their_color(
    theme: Theme,
    table: Seq<(String, String)>,
    path: Seq<char>,
    i: int,
)
    requires
        0 <= i <= table.len(),
        forall|j: int| 0 <= j < i ==> (#[trigger] table[j]).0@ != path,
    ensures
        i < table.len() && table[i].0@ == path ==> tint_at(theme, table, Some(path)) == Some(
            theme.repo(table[i].1@),
        ),
        i == table.len() ==> tint_at(theme, table, Some(path)) is None,
        tint_at(theme, table, None) is None,
    decreases table.len(),
{
    if i > 0 {
        assert(table[0].0@ != path);
        let rest = table.skip(1);
        assert forall|j: int| 0 <= j < i - 1 implies (#[trigger] rest[j]).0@ != path by {
            assert(rest[j] == table[j + 1]);
        }
        listed_paths_have_their_color(theme, rest, path, i - 1);
    }
}

/// The panels in view begin with the one scrolled to, are as many as fit, and end with the last.
pub proof fn panels_in_view_begin_where_scrolled_to(state: overview::OverviewView, width: u16)
    requires
        state.scroll_offset >= 0,
        state.visible_count(width) >= 0,
    ensures
        ({
            let (first, end) = range_in_view(state, width);
            let n = state.sorted.len();
            let visible = state.visible_count(width);
            &&& 0 <= first <= end <= n
            &&& end - first <= visible
            &&& n > 0 && visible > 0 && state.scroll_offset < n ==> first == state.scroll_offset
            &&& n > 0 && visible > 0 ==> first < end
            &&& n > 0 && visible > 0 && first + visible <= n ==> end == first + visible
            &&& n > 0 && visible > 0 && first + visible > n ==> end == n
        }),
{
}

/// The hints at the sides tell how many panels lie beyond them, with an arrow that way.
pub proof fn hints_count_what_is_hidden(area: Rect, n: int)
    requires
        n >= 0,
        right_hint(n).len() <= area.width,
        area.x + area.width <= u16::MAX,
    ensures
        left_hint(n).len() == text::decimal(n as nat).len() + 4,
        left_hint(n).subrange(3, left_hint(n).len() - 1) == text::decimal(n as nat),
        left_hint(n)[1] == '◀',
        right_hint(n).subrange(1, right_hint(n).len() - 3) == text::decimal(n as nat),
        right_hint(n)[right_hint(n).len() - 2] == '▶',
        left_hint_rect(area, n).x == area.x,
        left_hint_rect(area, n).y == area.y,
        right_hint_rect(area, n).x + right_hint_rect(area, n).width == area.x + area.width,
        right_hint_rect(area, n).y == area.y,
{
    reveal_strlit(" ◀ ");
    reveal_strlit(" ▶ ");
    reveal_strlit(" ");
    assert(left_hint(n).subrange(3, left_hint(n).len() - 1) =~= text::decimal(n as nat));
    assert(right_hint(n).subrange(1, right_hint(n).len() - 3) =~= text::decimal(n as nat));
}

} // verus!
