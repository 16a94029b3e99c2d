//! How modal dialogs are shown: a titled frame in the middle of the screen, and rows of text
//! within it.

use vstd::prelude::*;

use crate::branch_picker;
use crate::editing;
use crate::focus_view;
use crate::layout;
use crate::lists;
use crate::modal;
use crate::style;
use crate::view;
use crate::editing::around_cursor;
use crate::focus_view::push_local_badges;
use crate::layout::{center_area, clip, inner_area, stack_rows, Constraint};
use crate::lists::scroll_halfway;
use crate::modal::{Browser, Field, RepoList};
use crate::protocol::{BranchInfo, RepoInfo};
use crate::ranking::Match;
use crate::style::{Color, Line, Span, Style};
use crate::text::copy_of;
use crate::view::{push_span, style_ground, style_ink, style_on, Rect, Theme};

verus! {

// ── Paragraphs ─────────────────────────────────────────────────────

/// Lines of text in an area.
pub struct Paragraph {
    pub area: Rect,
    pub lines: Vec<Line>,
    /// What fills the area below the text.
    pub background: Option<Color>,
    /// Whether long lines go on below.
    pub wrapped: bool,
    /// How many rows are scrolled off the top.
    pub scroll: u16,
}

#[verifier::ext_equal]
pub ghost struct ParagraphView {
    pub area: Rect,
    pub lines: Seq<Seq<style::SpanView>>,
    pub background: Option<Color>,
    pub wrapped: bool,
    pub scroll: u16,
}

impl View for Paragraph {
    type V = ParagraphView;

    open spec fn view(&self) -> ParagraphView {
        ParagraphView {
            area: self.area,
            lines: style::lines_view(self.lines@),
            background: self.background,
            wrapped: self.wrapped,
            scroll: self.scroll,
        }
    }
}

pub open spec fn paragraphs_view(parts: Seq<Paragraph>) -> Seq<ParagraphView> {
    parts.map_values(|p: Paragraph| p@)
}

/// Lines as they are.
pub open spec fn plain_lines(area: Rect, lines: Seq<Seq<style::SpanView>>) -> ParagraphView {
    ParagraphView { area, lines, background: None, wrapped: false, scroll: 0 }
}

/// One line in one style.
pub open spec fn plain_text(area: Rect, text: Seq<char>, style: Style) -> ParagraphView {
    plain_lines(area, seq![seq![view::span(text, style)]])
}

pub fn lines_part(area: Rect, lines: Vec<Line>) -> (p: Paragraph)
    ensures
        p@ == plain_lines(area, style::lines_view(lines@)),
{
    Paragraph { area, lines, background: None, wrapped: false, scroll: 0 }
}

/// A line of one span.
pub fn line_in(text: &str, style: Style) -> (line: Line)
    ensures
        line@ == seq![view::span(text@, style)],
{
    let mut spans: Vec<Span> = Vec::new();
    push_span(&mut spans, text, style);
    let line = Line { spans };
    assert(line@ =~= seq![view::span(text@, style)]);
    line
}

/// A line of two spans.
pub fn line_in_two(a: &str, a_style: Style, b: &str, b_style: Style) -> (line: Line)
    ensures
        line@ == seq![view::span(a@, a_style), view::span(b@, b_style)],
{
    let mut spans: Vec<Span> = Vec::new();
    push_span(&mut spans, a, a_style);
    push_span(&mut spans, b, b_style);
    let line = Line { spans };
    assert(line@ =~= seq![view::span(a@, a_style), view::span(b@, b_style)]);
    line
}

pub fn one_line_part(area: Rect, line: Line) -> (p: Paragraph)
    ensures
        p@ == plain_lines(area, seq![line@]),
{
    let lines = vec![line];
    assert(style::lines_view(lines@) =~= seq![line@]);
    lines_part(area, lines)
}

pub fn text_part(area: Rect, text: &str, style: Style) -> (p: Paragraph)
    ensures
        p@ == plain_text(area, text@, style),
{
    one_line_part(area, line_in(text, style))
}

/// Appends a paragraph.
pub fn push_part(parts: &mut Vec<Paragraph>, p: Paragraph)
    ensures
        paragraphs_view(final(parts)@) == paragraphs_view(old(parts)@).push(p@),
{
    let ghost before = parts@;
    parts.push(p);
    assert(paragraphs_view(parts@) =~= paragraphs_view(before).push(p@));
}

// ── The frame ──────────────────────────────────────────────────────

/// How large a dialog gets: no wider than `width`, `percent` of the height and no less than
/// `least`, and always some cells short of the whole screen.
#[derive(Debug, Clone, Copy)]
pub struct ModalSize {
    pub width: u16,
    pub percent: u16,
    pub least: u16,
}

pub open spec fn less(a: int, b: int) -> int {
    if a >= b {
        a - b
    } else {
        0
    }
}

pub open spec fn smaller(a: int, b: int) -> int {
    if a < b {
        a
    } else {
        b
    }
}

pub open spec fn larger(a: int, b: int) -> int {
    if a < b {
        b
    } else {
        a
    }
}

impl ModalSize {
    pub open spec fn width_in(self, area: Rect) -> int {
        smaller(self.width as int, less(area.width as int, 4))
    }

    pub open spec fn height_in(self, area: Rect) -> int {
        smaller(
            larger(area.height * self.percent / 100, self.least as int),
            less(area.height as int, 2),
        )
    }
}

/// A dialog as it is shown: a framed area that is cleared first, and the texts in it.
pub struct ModalFace {
    pub area: Rect,
    pub border: Style,
    pub ground: Style,
    pub title: Line,
    /// The rows that the inside of the frame is divided into.
    pub rows: Vec<Rect>,
    pub parts: Vec<Paragraph>,
}

/// The inside of a frame: within the border, and one more cell away from its sides.
pub open spec fn inside(area: Rect) -> Rect {
    let b = layout::within_border(area);
    Rect {
        x: smaller(b.x + 1, u16::MAX as int) as u16,
        width: less(b.width as int, 2) as u16,
        ..b
    }
}

pub fn inside_of(area: Rect) -> (r: Rect)
    requires
        layout::in_range(area),
    ensures
        r == inside(area),
        layout::in_range(r),
{
    let b = inner_area(area);
    Rect { x: b.x.saturating_add(1), width: b.width.saturating_sub(2), ..b }
}

/// Whether an area has as much room on one side as on the other, to within a cell.
pub open spec fn stands_in_the_middle(r: Rect, whole: Rect) -> bool {
    &&& layout::centered(r.x - whole.x, r.width as int, whole.width as int)
    &&& layout::centered(r.y - whole.y, r.height as int, whole.height as int)
}

/// Whether a dialog stands in its frame, in the middle of an area.
pub open spec fn framed(face: ModalFace, area: Rect, size: ModalSize, theme: Theme, title: Seq<char>) -> bool {
    let whole = layout::clipped(area);
    &&& layout::lies_within(face.area, whole)
    &&& face.area.width == size.width_in(whole)
    &&& face.area.height == size.height_in(whole)
    &&& stands_in_the_middle(face.area, whole)
    &&& face.border == view::ink(theme.accent_dim)
    &&& face.ground == view::ground(theme.bg_overlay)
    &&& face.title@ == seq![
        view::span(
            " "@ + title + " "@,
            view::ink(theme.accent_bright).spec_add(style::bold_only()),
        ),
    ]
}

/// The area of a dialog.
pub fn modal_area(area: Rect, size: ModalSize) -> (r: Rect)
    ensures
        layout::lies_within(r, layout::clipped(area)),
        r.width == size.width_in(layout::clipped(area)),
        r.height == size.height_in(layout::clipped(area)),
        stands_in_the_middle(r, layout::clipped(area)),
        layout::in_range(r),
{
    let whole = clip(area);
    let width = if size.width < whole.width.saturating_sub(4) {
        size.width
    } else {
        whole.width.saturating_sub(4)
    };
    assert(whole.height * size.percent <= u16::MAX * u16::MAX) by (nonlinear_arith)
        requires
            0 <= whole.height <= u16::MAX,
            0 <= size.percent <= u16::MAX,
    ;
    let share: u32 = whole.height as u32 * size.percent as u32 / 100;
    let wanted: u32 = if share < size.least as u32 {
        size.least as u32
    } else {
        share
    };
    let room = whole.height.saturating_sub(2);
    let height = if wanted < room as u32 {
        wanted as u16
    } else {
        room
    };
    center_area(area, width, height)
}

/// The frame of a dialog with nothing in it yet, divided into rows.
pub fn modal_frame(
    area: Rect,
    size: ModalSize,
    title: &str,
    constraints: &Vec<Constraint>,
    theme: &Theme,
) -> (face: ModalFace)
    requires
        forall|i: int| 0 <= i < constraints@.len() ==> !((#[trigger] constraints@[i]) is Ratio),
    ensures
        framed(face, area, size, *theme, title@),
        layout::laid_out(face.rows@, constraints@, inside(face.area)),
        face.parts@.len() == 0,
{
    let r = modal_area(area, size);
    let rows = stack_rows(inside_of(r), constraints);
    let mut text = copy_of(" ");
    text.push_str(title);
    text.push_str(" ");
    ModalFace {
        area: r,
        border: style_ink(theme.accent_dim),
        ground: style_ground(theme.bg_overlay),
        title: line_in(text.as_str(), style_ink(theme.accent_bright).bold()),
        rows,
        parts: Vec::new(),
    }
}

// ── The input line ─────────────────────────────────────────────────

/// The line being typed, with its cursor.
pub open spec fn input_spans(theme: Theme, edit: editing::Edit) -> Seq<style::SpanView> {
    let a = editing::at_cursor(edit.text, edit.at);
    seq![
        view::span("> "@, view::ink(theme.accent_bright).spec_add(style::bold_only())),
        view::span(a.before, view::ink(theme.text_primary)),
        view::span(a.below, view::on(theme.bg_base, theme.text_primary)),
        view::span(a.after, view::ink(theme.text_primary)),
    ]
}

/// The row that the cursor stands in, where rows have `width` cells.
pub open spec fn cursor_row(at: int, width: int) -> int {
    if width > 0 {
        (2 + at) / width
    } else {
        0
    }
}

/// How far to scroll so that row `row` is the last of `height`.
pub open spec fn scroll_to_last(row: int, height: int) -> u16 {
    if row >= height {
        (row - height + 1) as u16
    } else {
        0
    }
}

/// How far to scroll so that row `row` has an empty row below it.
pub open spec fn scroll_with_room(row: int, height: int) -> u16 {
    if row > less(height, 2) {
        (row - less(height, 2)) as u16
    } else {
        0
    }
}

/// How the input line is kept in view.
#[derive(Debug, Clone, Copy, PartialEq, Eq, Structural)]
pub enum Following {
    /// It is not scrolled.
    Still,
    /// The cursor's row is the last one in view.
    Last,
    /// The cursor's row is the last one in view, also where the area has no width.
    Always,
    /// The cursor's row has an empty row below it.
    WithRoom,
}

pub open spec fn input_scroll(following: Following, at: int, area: Rect) -> u16 {
    let row = cursor_row(at, area.width as int);
    match following {
        Following::Still => 0,
        Following::Last => if area.width > 0 {
            scroll_to_last(row, area.height as int)
        } else {
            0
        },
        Following::Always => scroll_to_last(row, area.height as int),
        Following::WithRoom => scroll_with_room(row, area.height as int),
    }
}

pub open spec fn input_shown(theme: Theme, edit: editing::Edit, area: Rect, following: Following) -> ParagraphView {
    ParagraphView {
        area,
        lines: seq![input_spans(theme, edit)],
        background: Some(theme.bg_input),
        wrapped: true,
        scroll: input_scroll(following, edit.at, area),
    }
}

fn scroll_of(following: Following, at: usize, area: Rect) -> (n: u16)
    ensures
        n == input_scroll(following, at as int, area),
{
    let width: u128 = area.width as u128;
    let height: u128 = area.height as u128;
    let row: u128 = if width > 0 {
        (2 + at as u128) / width
    } else {
        0
    };
    let last: u16 = if row >= height {
        #[verifier::truncate]
        ((row - height + 1) as u16)
    } else {
        0
    };
    match following {
        Following::Still => 0,
        Following::Last => if width > 0 {
            last
        } else {
            0
        },
        Following::Always => last,
        Following::WithRoom => {
            let room: u128 = if height >= 2 {
                height - 2
            } else {
                0
            };
            if row > room {
                #[verifier::truncate]
                ((row - room) as u16)
            } else {
                0
            }
        },
    }
}

/// The line being typed, with its cursor.
pub fn input_part(field: &Field, area: Rect, following: Following, theme: &Theme) -> (p: Paragraph)
    requires
        field.wf(),
    ensures
        p@ == input_shown(*theme, field@, area, following),
{
    let (before, below, after) = around_cursor(field.input.as_str(), field.cursor_pos);
    let mut spans: Vec<Span> = Vec::new();
    push_span(&mut spans, "> ", style_ink(theme.accent_bright).bold());
    push_span(&mut spans, before.as_str(), style_ink(theme.text_primary));
    push_span(&mut spans, below.as_str(), style_on(theme.bg_base, theme.text_primary));
    push_span(&mut spans, after.as_str(), style_ink(theme.text_primary));
    let line = Line { spans };
    assert(line@ =~= input_spans(*theme, field@));
    let lines = vec![line];
    assert(style::lines_view(lines@) =~= seq![line@]);
    let scroll = scroll_of(following, field.cursor_char(), area);
    Paragraph { area, lines, background: Some(theme.bg_input), wrapped: true, scroll }
}

/// The row that the cursor stands in is among those in view.
pub proof fn cursor_row_stays_in_view(following: Following, at: int, area: Rect)
    requires
        following != Following::Still,
        at >= 0,
        area.width > 0,
        area.height > 0,
        cursor_row(at, area.width as int) <= u16::MAX,
    ensures
        input_scroll(following, at, area) <= cursor_row(at, area.width as int),
        cursor_row(at, area.width as int) < input_scroll(following, at, area) + area.height,
{
    let w = area.width as int;
    assert((2 + at) / w >= 0) by (nonlinear_arith)
        requires
            w > 0,
            at >= 0,
    ;
}

// ── Lists ──────────────────────────────────────────────────────────

/// An entry of a list: its name, more about it, and marks behind that.
pub struct ListItem {
    pub name: String,
    pub detail: Option<String>,
    pub marks: Vec<Span>,
}

#[verifier::ext_equal]
pub ghost struct ItemView {
    pub name: Seq<char>,
    pub detail: Option<Seq<char>>,
    pub marks: Seq<style::SpanView>,
}

impl View for ListItem {
    type V = ItemView;

    open spec fn view(&self) -> ItemView {
        ItemView {
            name: self.name@,
            detail: branch_picker::text_in(self.detail),
            marks: style::spans_view(self.marks@),
        }
    }
}

pub open spec fn items_view(items: Seq<ListItem>) -> Seq<ItemView> {
    items.map_values(|i: ListItem| i@)
}

/// A name in a list.
pub open spec fn name_spans(theme: Theme, name: Seq<char>, selected: bool) -> Seq<style::SpanView> {
    if selected {
        seq![
            view::span("  > "@, view::ink(theme.accent_bright).spec_add(style::bold_only())),
            view::span(name, view::ink(theme.text_primary).spec_add(style::bold_only())),
        ]
    } else {
        seq![
            view::span("    "@, style::plain_style()),
            view::span(name, view::ink(theme.text_secondary)),
        ]
    }
}

pub open spec fn detail_spans(theme: Theme, detail: Option<Seq<char>>, selected: bool) -> Seq<style::SpanView> {
    match detail {
        Some(d) => seq![
            view::span("  "@, style::plain_style()),
            view::span(
                d,
                view::ink(
                    if selected {
                        theme.text_tertiary
                    } else {
                        theme.text_disabled
                    },
                ),
            ),
        ],
        None => Seq::empty(),
    }
}

/// An entry of a list as it is shown.
pub open spec fn item_row(theme: Theme, item: ItemView, selected: bool) -> Seq<style::SpanView> {
    name_spans(theme, item.name, selected) + detail_spans(theme, item.detail, selected)
        + item.marks
}

/// The entries around the selected one that fit into `height` rows.
pub open spec fn list_rows(
    theme: Theme,
    items: Seq<ItemView>,
    matches: Seq<Match>,
    selected: int,
    height: int,
) -> Seq<Seq<style::SpanView>> {
    let first = lists::halfway_scroll(selected, matches.len() as int, height);
    Seq::new(
        smaller(matches.len() - first, height) as nat,
        |k: int| item_row(theme, items[matches[first + k].0 as int], first + k == selected),
    )
}

pub fn item_line(item: &ListItem, selected: bool, theme: &Theme) -> (line: Line)
    ensures
        line@ == item_row(*theme, item@, selected),
{
    let mut spans: Vec<Span> = Vec::new();
    if selected {
        push_span(&mut spans, "  > ", style_ink(theme.accent_bright).bold());
        push_span(&mut spans, item.name.as_str(), style_ink(theme.text_primary).bold());
    } else {
        push_span(&mut spans, "    ", Style::new());
        push_span(&mut spans, item.name.as_str(), style_ink(theme.text_secondary));
    }
    assert(style::spans_view(spans@) =~= name_spans(*theme, item@.name, selected));
    if let Some(d) = &item.detail {
        push_span(&mut spans, "  ", Style::new());
        let ink = if selected {
            theme.text_tertiary
        } else {
            theme.text_disabled
        };
        push_span(&mut spans, d.as_str(), style_ink(ink));
    }
    let ghost head = style::spans_view(spans@);
    assert(head =~= name_spans(*theme, item@.name, selected) + detail_spans(
        *theme,
        item@.detail,
        selected,
    ));
    let mut i: usize = 0;
    while i < item.marks.len()
        invariant
            i <= item.marks@.len(),
            style::spans_view(spans@) =~= head + style::spans_view(item.marks@).take(i as int),
        decreases item.marks@.len() - i,
    {
        let m = item.marks[i].copy();
        let ghost before = style::spans_view(spans@);
        spans.push(m);
        assert(style::spans_view(spans@) =~= before.push(m@));
        i += 1;
    }
    assert(style::spans_view(item.marks@).take(i as int) =~= style::spans_view(item.marks@));
    Line { spans }
}

/// The entries around the selected one.
pub fn list_part(
    area: Rect,
    items: &Vec<ListItem>,
    matches: &Vec<Match>,
    selected: usize,
    theme: &Theme,
) -> (p: Paragraph)
    requires
        forall|k: int| 0 <= k < matches@.len() ==> (#[trigger] matches@[k]).0 < items@.len(),
    ensures
        p@ == plain_lines(
            area,
            list_rows(
                *theme,
                items_view(items@),
                matches@,
                selected as int,
                area.height as int,
            ),
        ),
{
    let first = scroll_halfway(selected, matches.len(), area.height as usize);
    let ghost rows = list_rows(
        *theme,
        items_view(items@),
        matches@,
        selected as int,
        area.height as int,
    );
    let mut lines: Vec<Line> = Vec::new();
    let mut k: usize = 0;
    while k < area.height as usize && k < matches.len() - first
        invariant
            first == lists::halfway_scroll(
                selected as int,
                matches@.len() as int,
                area.height as int,
            ),
            first <= matches@.len(),
            k <= rows.len(),
            rows == list_rows(
                *theme,
                items_view(items@),
                matches@,
                selected as int,
                area.height as int,
            ),
            forall|j: int| 0 <= j < matches@.len() ==> (#[trigger] matches@[j]).0 < items@.len(),
            style::lines_view(lines@) == rows.take(k as int),
        decreases rows.len() - k,
    {
        let ghost before = style::lines_view(lines@);
        let at = matches[first + k].0;
        let line = item_line(&items[at], first + k == selected, theme);
        lines.push(line);
        assert(style::lines_view(lines@) =~= before.push(line@));
        assert(rows[k as int] == line@);
        k += 1;
        assert(style::lines_view(lines@) =~= rows.take(k as int));
    }
    assert(rows.take(k as int) =~= rows);
    lines_part(area, lines)
}

/// A repository in a list: its name and its path.
pub open spec fn repo_item(r: RepoInfo) -> ItemView {
    ItemView { name: r.name@, detail: Some(r.path@), marks: Seq::empty() }
}

pub open spec fn repo_items(repos: Seq<RepoInfo>) -> Seq<ItemView> {
    repos.map_values(|r: RepoInfo| repo_item(r))
}

/// A branch in a list, with its marks where they are shown.
pub open spec fn branch_item(theme: Theme, b: BranchInfo, marked: bool) -> ItemView {
    ItemView {
        name: b.name@,
        detail: None,
        marks: if marked {
            focus_view::local_badges(theme, b)
        } else {
            Seq::empty()
        },
    }
}

pub open spec fn branch_items(theme: Theme, branches: Seq<BranchInfo>, marked: bool) -> Seq<ItemView> {
    branches.map_values(|b: BranchInfo| branch_item(theme, b, marked))
}

/// An entry of a directory in a list; directories may be marked by a slash.
pub open spec fn entry_item(theme: Theme, e: modal::EntryView, marked: bool) -> ItemView {
    ItemView {
        name: e.name,
        detail: None,
        marks: if marked && e.is_dir {
            seq![view::span("/"@, view::ink(theme.accent))]
        } else {
            Seq::empty()
        },
    }
}

pub open spec fn entry_items(theme: Theme, entries: Seq<modal::EntryView>, marked: bool) -> Seq<ItemView> {
    entries.map_values(|e: modal::EntryView| entry_item(theme, e, marked))
}

pub fn plain_item(name: &str, detail: Option<&str>) -> (item: ListItem)
    ensures
        item@ == (ItemView {
            name: name@,
            detail: match detail {
                Some(d) => Some(d@),
                None => None,
            },
            marks: Seq::empty(),
        }),
{
    let detail = match detail {
        Some(d) => Some(copy_of(d)),
        None => None,
    };
    let item = ListItem { name: copy_of(name), detail, marks: Vec::new() };
    assert(item@.marks =~= Seq::<style::SpanView>::empty());
    item
}

/// The matching repositories.
pub fn repo_list_part(
    area: Rect,
    list: &RepoList,
    pattern: &str,
    selected: usize,
    theme: &Theme,
) -> (p: Paragraph)
    ensures
        p@ == plain_lines(
            area,
            list_rows(
                *theme,
                repo_items(list@.repos),
                list@.repo_matches(pattern@),
                selected as int,
                area.height as int,
            ),
        ),
{
    let mut items: Vec<ListItem> = Vec::new();
    let mut i: usize = 0;
    while i < list.repos.len()
        invariant
            i <= list.repos@.len(),
            items@.len() == i,
            forall|k: int| 0 <= k < i ==> (#[trigger] items@[k])@ == repo_item(list.repos@[k]),
        decreases list.repos@.len() - i,
    {
        let r = &list.repos[i];
        items.push(plain_item(r.name.as_str(), Some(r.path.as_str())));
        i += 1;
    }
    assert(items_view(items@) =~= repo_items(list@.repos));
    list_part(area, &items, &list.repo_matches(pattern), selected, theme)
}

/// The matching branches.
pub fn branch_list_part(
    area: Rect,
    list: &RepoList,
    pattern: &str,
    selected: usize,
    marked: bool,
    theme: &Theme,
) -> (p: Paragraph)
    requires
        list.wf(),
    ensures
        p@ == plain_lines(
            area,
            list_rows(
                *theme,
                branch_items(*theme, list@.branches, marked),
                list@.branch_matches(pattern@),
                selected as int,
                area.height as int,
            ),
        ),
{
    let n = list.branch_count();
    let mut items: Vec<ListItem> = Vec::new();
    let mut i: usize = 0;
    while i < n
        invariant
            i <= n,
            list.wf(),
            n == list@.branches.len(),
            items@.len() == i,
            forall|k: int|
                0 <= k < i ==> (#[trigger] items@[k])@ == branch_item(
                    *theme,
                    list@.branches[k],
                    marked,
                ),
        decreases n - i,
    {
        let b = list.branch(i);
        let mut marks: Vec<Span> = Vec::new();
        assert(style::spans_view(marks@) =~= Seq::<style::SpanView>::empty());
        if marked {
            push_local_badges(&mut marks, b, theme);
            assert(style::spans_view(marks@) =~= focus_view::local_badges(*theme, *b));
        }
        items.push(ListItem { name: copy_of(b.name.as_str()), detail: None, marks });
        i += 1;
    }
    assert(items_view(items@) =~= branch_items(*theme, list@.branches, marked));
    list_part(area, &items, &list.branch_matches(pattern), selected, theme)
}

/// The matching entries of a directory.
pub fn entry_list_part(
    area: Rect,
    browser: &Browser,
    pattern: &str,
    selected: usize,
    marked: bool,
    theme: &Theme,
) -> (p: Paragraph)
    ensures
        p@ == plain_lines(
            area,
            list_rows(
                *theme,
                entry_items(*theme, browser@.entries, marked),
                browser@.matches(pattern@),
                selected as int,
                area.height as int,
            ),
        ),
{
    let mut items: Vec<ListItem> = Vec::new();
    let mut i: usize = 0;
    while i < browser.entries.len()
        invariant
            i <= browser.entries@.len(),
            items@.len() == i,
            forall|k: int|
                0 <= k < i ==> (#[trigger] items@[k])@ == entry_item(
                    *theme,
                    browser.entries@[k]@,
                    marked,
                ),
        decreases browser.entries@.len() - i,
    {
        let e = &browser.entries[i];
        let mut marks: Vec<Span> = Vec::new();
        assert(style::spans_view(marks@) =~= Seq::<style::SpanView>::empty());
        if marked && e.is_dir {
            push_span(&mut marks, "/", style_ink(theme.accent));
            assert(style::spans_view(marks@) =~= seq![view::span("/"@, view::ink(theme.accent))]);
        }
        items.push(ListItem { name: copy_of(e.name.as_str()), detail: None, marks });
        i += 1;
    }
    assert(items_view(items@) =~= entry_items(*theme, browser@.entries, marked));
    list_part(area, &items, &browser.matches(pattern), selected, theme)
}

// ── Laws ───────────────────────────────────────────────────────────

/// The text of an input is shown behind the prompt, with the cursor's character turned round.
pub proof fn inputs_show_their_text(theme: Theme, edit: editing::Edit)
    requires
        0 <= edit.at <= edit.text.len(),
    ensures
        ({
            let spans = input_spans(theme, edit);
            &&& spans.len() == 4
            &&& spans[0].content == seq!['>', ' ']
            &&& spans[1].content == edit.text.take(edit.at)
            &&& spans[2].content.len() == 1
            &&& edit.at < edit.text.len() ==> spans[2].content[0] == edit.text[edit.at]
            &&& edit.at == edit.text.len() ==> spans[2].content[0] == ' '
            &&& edit.at < edit.text.len() ==> spans[3].content == edit.text.skip(edit.at + 1)
            &&& spans[2].style.bg == Some(theme.text_primary)
            &&& spans[2].style.fg == Some(theme.bg_base)
            &&& spans[1].style.fg == Some(theme.text_primary)
            &&& spans[3].style == spans[1].style
        }),
{
    reveal_strlit("> ");
    editing::cursor_stands_in_its_text(edit.text, edit.at);
    let a = editing::at_cursor(edit.text, edit.at);
    if edit.at < edit.text.len() {
        let whole = a.before + a.below + a.after;
        assert(whole[edit.at] == a.below[0]);
        assert(whole.skip(edit.at + 1) =~= a.after);
    }
    assert("> "@ =~= seq!['>', ' ']);
}

/// A row of a list shows the name and then what more there is, and the selected row alone is
/// marked.
pub proof fn rows_show_their_entries(theme: Theme, item: ItemView, selected: bool)
    ensures
        ({
            let row = item_row(theme, item, selected);
            let more = if item.detail is Some {
                4int
            } else {
                2
            };
            &&& row.len() == more + item.marks.len()
            &&& row[0].content.len() == 4
            &&& row[0].content.contains('>') <==> selected
            &&& row[1].content == item.name
            &&& item.detail is Some ==> row[3].content == item.detail->0
            &&& row.skip(more) == item.marks
            &&& row[1].style.fg == Some(
                if selected {
                    theme.text_primary
                } else {
                    theme.text_secondary
                },
            )
        }),
{
    reveal_strlit("  > ");
    reveal_strlit("    ");
    let row = item_row(theme, item, selected);
    let more = if item.detail is Some {
        4int
    } else {
        2
    };
    assert(row.skip(more) =~= item.marks);
    assert("  > "@[2] == '>');
    assert(row[0].content == name_spans(theme, item.name, selected)[0].content);
}

/// A list shows the entries that match, in their order, among them the selected one.
pub proof fn lists_show_the_selected_entry(
    theme: Theme,
    items: Seq<ItemView>,
    matches: Seq<Match>,
    selected: int,
    height: int,
)
    requires
        0 <= selected < matches.len(),
        0 < height,
    ensures
        ({
            let rows = list_rows(theme, items, matches, selected, height);
            let first = lists::halfway_scroll(selected, matches.len() as int, height);
            &&& rows.len() <= height
            &&& rows.len() <= matches.len()
            &&& 0 <= selected - first < rows.len()
            &&& rows[selected - first] == item_row(theme, items[matches[selected].0 as int], true)
            &&& forall|k: int|
                0 <= k < rows.len() && first + k != selected ==> #[trigger] rows[k] == item_row(
                    theme,
                    items[matches[first + k].0 as int],
                    false,
                )
        }),
{
    lists::halfway_scroll_shows_the_selection(selected, matches.len() as int, height);
}

/// Repositories are listed by name with their path behind it, branches by name, and entries of
/// a directory by name with a slash behind directories where these are marked.
pub proof fn entries_are_told_by_name(
    theme: Theme,
    repo: RepoInfo,
    branch: BranchInfo,
    entry: modal::EntryView,
    marked: bool,
)
    ensures
        repo_item(repo).name == repo.name@,
        repo_item(repo).detail == Some(repo.path@),
        repo_item(repo).marks.len() == 0,
        branch_item(theme, branch, marked).name == branch.name@,
        branch_item(theme, branch, marked).detail is None,
        !marked ==> branch_item(theme, branch, marked).marks.len() == 0,
        entry_item(theme, entry, marked).name == entry.name,
        entry_item(theme, entry, marked).marks.len() == (if marked && entry.is_dir {
            1int
        } else {
            0
        }),
        marked && entry.is_dir ==> entry_item(theme, entry, marked).marks[0].content == seq!['/'],
{
    reveal_strlit("/");
    assert("/"@ =~= seq!['/']);
}

/// A modal takes no more room than there is, leaves a margin where there is one, and takes its
/// share of the height unless that is less than it needs.
pub proof fn modals_leave_a_margin(size: ModalSize, area: Rect)
    requires
        size.percent <= 100,
    ensures
        size.width_in(area) <= size.width,
        area.width >= 4 ==> size.width_in(area) <= area.width - 4,
        area.width >= size.width + 4 ==> size.width_in(area) == size.width,
        area.height >= 2 ==> size.height_in(area) <= area.height - 2,
        area.height >= 2 && size.least <= area.height - 2 ==> size.height_in(area) >= size.least,
        area.height >= 2 && size.least <= area.height * size.percent / 100 <= area.height - 2
            ==> size.height_in(area) == area.height * size.percent / 100,
{
}

/// What is inside a frame keeps a column and a row free on each side, and a column more for
/// padding.
pub proof fn frames_surround_what_is_inside(area: Rect)
    requires
        area.width >= 4,
        area.height >= 2,
        area.x + area.width <= u16::MAX,
        area.y + area.height <= u16::MAX,
    ensures
        inside(area).x == area.x + 2,
        inside(area).width == area.width - 4,
        inside(area).y == area.y + 1,
        inside(area).height == area.height - 2,
{
}

} // verus!
