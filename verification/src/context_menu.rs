//! Modal menu with numbered items.

use vstd::prelude::*;

use crate::layout;
use crate::modal_view;
use crate::style;
use crate::text;
use crate::view;
use crate::keys::KeyCode;
use crate::layout::center_column;
use crate::modal_view::inside_of;
use crate::style::{Color, Line, Span, Style};
use crate::text::copy_of;
use crate::view::{pad_to, push_span, style_ground, style_ink, style_on, Rect, Theme};

verus! {

/// Result of processing a key event in the context menu.
#[derive(Debug, Clone, Copy, PartialEq, Eq, Structural)]
pub enum MenuResult {
    /// Key was handled but no action taken yet.
    Nothing,
    /// User selected an item (index).
    Selected(usize),
    /// User dismissed the menu.
    Dismissed,
}

/// A single item in the context menu.
#[derive(Debug, Clone)]
pub struct ContextMenuItem {
    pub label: String,
    /// Optional colored indicator dot shown before the label.
    pub color: Option<Color>,
}

#[verifier::ext_equal]
pub ghost struct MenuItemView {
    pub label: Seq<char>,
    pub color: Option<Color>,
}

impl View for ContextMenuItem {
    type V = MenuItemView;

    open spec fn view(&self) -> MenuItemView {
        MenuItemView { label: self.label@, color: self.color }
    }
}

pub open spec fn menu_items(items: Seq<ContextMenuItem>) -> Seq<MenuItemView> {
    items.map_values(|i: ContextMenuItem| i@)
}

/// Reusable modal context menu with numbered items, arrow navigation, and enter/esc.
pub struct ContextMenu {
    pub title: String,
    pub items: Vec<ContextMenuItem>,
    pub selected_idx: usize,
}

#[verifier::ext_equal]
pub ghost struct MenuView {
    pub title: Seq<char>,
    pub items: Seq<MenuItemView>,
    pub selected: int,
}

impl View for ContextMenu {
    type V = MenuView;

    open spec fn view(&self) -> MenuView {
        MenuView {
            title: self.title@,
            items: menu_items(self.items@),
            selected: self.selected_idx as int,
        }
    }
}

// ── Numbers of items ───────────────────────────────────────────────

/// The item that a number character stands for: '1' for the first, '0' for the tenth.
pub open spec fn index_for(c: char) -> Option<int> {
    if '1' <= c <= '9' {
        Some(c as int - '1' as int)
    } else if c == '0' {
        Some(9)
    } else {
        None
    }
}

/// The character that is shown for an item.
pub open spec fn char_for(idx: int) -> char {
    if 0 <= idx <= 8 {
        ('1' as int + idx) as char
    } else if idx == 9 {
        '0'
    } else {
        '?'
    }
}

/// Map a number character to a 0-based item index.
pub fn char_to_index(c: char) -> (idx: Option<usize>)
    ensures
        match idx {
            Some(i) => index_for(c) == Some(i as int),
            None => index_for(c) is None,
        },
{
    if '1' <= c && c <= '9' {
        Some((c as u32 - '1' as u32) as usize)
    } else if c == '0' {
        Some(9)
    } else {
        None
    }
}

/// Map a 0-based index to the display number character.
pub fn index_to_char(idx: usize) -> (c: char)
    ensures
        c == char_for(idx as int),
{
    if idx <= 8 {
        (0x31u8 + idx as u8) as char
    } else if idx == 9 {
        '0'
    } else {
        '?'
    }
}

/// The character that is shown for one of the first ten items stands for that item, and for no
/// other.
pub proof fn numbers_and_items_agree(idx: int, c: char)
    ensures
        0 <= idx < 10 ==> index_for(char_for(idx)) == Some(idx),
        index_for(c) matches Some(i) ==> 0 <= i < 10 && char_for(i) == c,
{
}

// ── Keys ───────────────────────────────────────────────────────────

impl MenuView {
    pub open spec fn after_key(self, code: KeyCode) -> MenuView {
        match code {
            KeyCode::Up => MenuView {
                selected: if self.selected > 0 {
                    self.selected - 1
                } else {
                    0
                },
                ..self
            },
            KeyCode::Down => if self.items.len() > 0 {
                MenuView {
                    selected: if self.selected + 1 < self.items.len() {
                        self.selected + 1
                    } else {
                        self.items.len() - 1
                    },
                    ..self
                }
            } else {
                self
            },
            _ => self,
        }
    }

    pub open spec fn answer(self, code: KeyCode) -> MenuResult {
        match code {
            KeyCode::Enter => if self.items.len() == 0 {
                MenuResult::Dismissed
            } else {
                MenuResult::Selected(self.selected as usize)
            },
            KeyCode::Esc => MenuResult::Dismissed,
            KeyCode::Char(c) => match index_for(c) {
                Some(i) => if i < self.items.len() {
                    MenuResult::Selected(i as usize)
                } else {
                    MenuResult::Nothing
                },
                None => MenuResult::Nothing,
            },
            _ => MenuResult::Nothing,
        }
    }
}

/// Up and down in a list that stops at its ends.
pub fn moved(selected: usize, count: usize, down: bool) -> (n: usize)
    ensures
        n == (if !down {
            if selected > 0 {
                selected - 1
            } else {
                0
            }
        } else if count == 0 {
            selected as int
        } else if selected + 1 < count {
            selected + 1
        } else {
            count - 1
        }),
{
    if !down {
        selected.saturating_sub(1)
    } else if count == 0 {
        selected
    } else if selected < count - 1 {
        selected + 1
    } else {
        count - 1
    }
}

impl ContextMenu {
    /// Create a new context menu with string labels (no color indicators).
    pub fn new(title: &str, labels: Vec<String>) -> (menu: Self)
        ensures
            menu@ == (MenuView {
                title: title@,
                items: text::strings_view(labels@).map_values(
                    |label: Seq<char>| MenuItemView { label, color: None },
                ),
                selected: 0,
            }),
    {
        let mut items: Vec<ContextMenuItem> = Vec::new();
        let mut i: usize = 0;
        while i < labels.len()
            invariant
                i <= labels@.len(),
                items@.len() == i,
                forall|k: int|
                    0 <= k < i ==> (#[trigger] items@[k])@ == (MenuItemView {
                        label: labels@[k]@,
                        color: None,
                    }),
            decreases labels@.len() - i,
        {
            items.push(ContextMenuItem { label: copy_of(labels[i].as_str()), color: None });
            i += 1;
        }
        let menu = ContextMenu { title: copy_of(title), items, selected_idx: 0 };
        assert(menu@.items =~= text::strings_view(labels@).map_values(
            |label: Seq<char>| MenuItemView { label, color: None },
        ));
        menu
    }

    /// Create a new context menu with colored items.
    pub fn with_colors(title: &str, items: Vec<ContextMenuItem>) -> (menu: Self)
        ensures
            menu@ == (MenuView { title: title@, items: menu_items(items@), selected: 0 }),
    {
        ContextMenu { title: copy_of(title), items, selected_idx: 0 }
    }

    /// Process a key event. Returns the menu result.
    pub fn handle_key(&mut self, code: KeyCode) -> (result: MenuResult)
        ensures
            final(self)@ == old(self)@.after_key(code),
            result == old(self)@.answer(code),
    {
        let count = self.items.len();
        match code {
            KeyCode::Up => {
                self.selected_idx = moved(self.selected_idx, count, false);
            },
            KeyCode::Down => {
                self.selected_idx = moved(self.selected_idx, count, true);
            },
            KeyCode::Enter => {
                return if count == 0 {
                    MenuResult::Dismissed
                } else {
                    MenuResult::Selected(self.selected_idx)
                };
            },
            KeyCode::Esc => {
                return MenuResult::Dismissed;
            },
            KeyCode::Char(c) => {
                if let Some(idx) = char_to_index(c) {
                    if idx < count {
                        return MenuResult::Selected(idx);
                    }
                }
            },
            _ => {},
        }
        MenuResult::Nothing
    }
}

/// A selection within the items stays within them.
pub proof fn selection_stays_in_the_menu(menu: MenuView, code: KeyCode)
    requires
        0 <= menu.selected < menu.items.len(),
        menu.items.len() <= usize::MAX,
    ensures
        0 <= menu.after_key(code).selected < menu.items.len(),
        menu.answer(code) matches MenuResult::Selected(i) ==> i < menu.items.len(),
{
}

// ── What is shown ──────────────────────────────────────────────────

/// A menu as it is shown: a framed area that is cleared first, and the rows in it.
pub struct MenuFace {
    pub area: Rect,
    pub inner: Rect,
    pub border: Style,
    pub ground: Style,
    pub title: Line,
    pub lines: Vec<Line>,
}

/// Whether a menu of `width` times `height` cells stands in its frame in an area, cut off where
/// it does not fit.
pub open spec fn menu_framed(
    face: MenuFace,
    area: Rect,
    width: u16,
    height: u16,
    theme: Theme,
    title: Seq<char>,
) -> bool {
    &&& area.x <= face.area.x <= area.x + area.width
    &&& width <= area.width ==> face.area.x + width <= area.x + area.width && layout::centered(
        face.area.x - area.x,
        width as int,
        area.width as int,
    )
    &&& face.area.y == area.y + modal_view::less(area.height as int, height as int) / 2
    &&& face.area.width == modal_view::smaller(width as int, area.width as int)
    &&& face.area.height == modal_view::smaller(height as int, area.height as int)
    &&& face.inner == modal_view::inside(layout::clipped(face.area))
    &&& face.border == view::ink(theme.text_tertiary)
    &&& face.ground == view::ground(theme.bg_overlay)
    &&& face.title@ == seq![
        view::span(" "@, style::plain_style()),
        view::span(title, view::ink(theme.text_primary).spec_add(style::bold_only())),
        view::span(" "@, style::plain_style()),
    ]
}

/// The frame of a menu with nothing in it yet.
pub fn menu_frame(area: Rect, width: u16, height: u16, title: &str, theme: &Theme) -> (face: MenuFace)
    requires
        layout::in_range(area),
    ensures
        menu_framed(face, area, width, height, *theme, title@),
        face.lines@.len() == 0,
{
    let x = center_column(area, width);
    let shown = Rect {
        x,
        y: area.y + area.height.saturating_sub(height) / 2,
        width: if width < area.width {
            width
        } else {
            area.width
        },
        height: if height < area.height {
            height
        } else {
            area.height
        },
    };
    let mut spans: Vec<Span> = Vec::new();
    push_span(&mut spans, " ", Style::new());
    push_span(&mut spans, title, style_ink(theme.text_primary).bold());
    push_span(&mut spans, " ", Style::new());
    let title_line = Line { spans };
    assert(title_line@ =~= seq![
        view::span(" "@, style::plain_style()),
        view::span(title@, view::ink(theme.text_primary).spec_add(style::bold_only())),
        view::span(" "@, style::plain_style()),
    ]);
    MenuFace {
        area: shown,
        inner: inside_of(layout::clip(shown)),
        border: style_ink(theme.text_tertiary),
        ground: style_ground(theme.bg_overlay),
        title: title_line,
        lines: Vec::new(),
    }
}

/// The longest label.
pub open spec fn longest(items: Seq<MenuItemView>) -> int
    decreases items.len(),
{
    if items.len() == 0 {
        0
    } else {
        modal_view::larger(longest(items.drop_last()), items.last().label.len() as int)
    }
}

/// How wide a menu is: a number, a dot and a label with room around it, or its title.
pub open spec fn menu_width(menu: MenuView) -> u16 {
    (modal_view::larger(5 + 2 + longest(menu.items) + 2, menu.title.len() as int + 4) + 2) as u16
}

pub open spec fn menu_height(menu: MenuView) -> u16 {
    (menu.items.len() + 3) as u16
}

/// The ground of a row.
pub open spec fn row_ground(theme: Theme, selected: bool) -> Color {
    if selected {
        theme.bg_hover
    } else {
        theme.bg_overlay
    }
}

/// The colour of a label.
pub open spec fn label_ink(theme: Theme, selected: bool) -> Color {
    if selected {
        theme.text_primary
    } else {
        theme.text_secondary
    }
}

pub open spec fn menu_row(theme: Theme, item: MenuItemView, idx: int, selected: bool, width: int) -> Seq<
    style::SpanView,
> {
    let bg = row_ground(theme, selected);
    let number = seq![
        view::span(seq![' ', char_for(idx), ' '], view::on(theme.text_tertiary, bg)),
    ];
    let dot = match item.color {
        Some(color) => number.push(view::span("\u{25CF} "@, view::on(color, bg))),
        None => number,
    };
    let label = dot.push(view::span(item.label, view::on(label_ink(theme, selected), bg)));
    view::padded(label, width, view::ground(bg))
}

pub open spec fn menu_rows(theme: Theme, menu: MenuView, width: int) -> Seq<Seq<style::SpanView>> {
    Seq::new(
        menu.items.len(),
        |i: int| menu_row(theme, menu.items[i], i, i == menu.selected, width),
    )
}

fn menu_line(item: &ContextMenuItem, idx: usize, selected: bool, width: u16, theme: &Theme) -> (line:
    Line)
    ensures
        line@ == menu_row(*theme, item@, idx as int, selected, width as int),
{
    let bg = if selected {
        theme.bg_hover
    } else {
        theme.bg_overlay
    };
    let ink = if selected {
        theme.text_primary
    } else {
        theme.text_secondary
    };
    let mut number = String::new();
    number.push(' ');
    number.push(index_to_char(idx));
    number.push(' ');
    assert(number@ =~= seq![' ', char_for(idx as int), ' ']);
    let mut spans: Vec<Span> = Vec::new();
    push_span(&mut spans, number.as_str(), style_on(theme.text_tertiary, bg));
    assert(style::spans_view(spans@) =~= seq![
        view::span(number@, view::on(theme.text_tertiary, bg)),
    ]);
    if let Some(color) = item.color {
        push_span(&mut spans, "\u{25CF} ", style_on(color, bg));
    }
    push_span(&mut spans, item.label.as_str(), style_on(ink, bg));
    pad_to(&mut spans, width, style_ground(bg));
    Line { spans }
}

impl ContextMenu {
    fn label_max(&self) -> (n: usize)
        ensures
            n == longest(self@.items),
    {
        let ghost views = self@.items;
        let mut n: usize = 0;
        let mut i: usize = 0;
        assert(views.take(0) =~= Seq::<MenuItemView>::empty());
        while i < self.items.len()
            invariant
                i <= self.items@.len(),
                views == menu_items(self.items@),
                n == longest(views.take(i as int)),
            decreases self.items@.len() - i,
        {
            let len = self.items[i].label.as_str().unicode_len();
            assert(views.take(i + 1).drop_last() =~= views.take(i as int));
            if n < len {
                n = len;
            }
            i += 1;
        }
        assert(views.take(i as int) =~= views);
        n
    }

    /// The menu as a centered modal overlay. Its area and the area of its rows tell what the
    /// mouse hits.
    pub fn render(&self, area: Rect, theme: &Theme) -> (face: MenuFace)
        requires
            layout::in_range(area),
        ensures
            menu_framed(
                face,
                area,
                menu_width(self@),
                menu_height(self@),
                *theme,
                self@.title,
            ),
            style::lines_view(face.lines@) == menu_rows(*theme, self@, face.inner.width as int),
    {
        let label_max: u128 = self.label_max() as u128;
        let title_len: u128 = self.title.as_str().unicode_len() as u128;
        let item_width: u128 = 5 + 2 + label_max + 2;
        let content_width: u128 = if item_width < title_len + 4 {
            title_len + 4
        } else {
            item_width
        };
        let width: u16 = #[verifier::truncate]
        ((content_width + 2) as u16);
        let height: u16 = #[verifier::truncate]
        ((self.items.len() as u128 + 3) as u16);
        let mut face = menu_frame(area, width, height, self.title.as_str(), theme);
        let ghost rows = menu_rows(*theme, self@, face.inner.width as int);
        let mut lines: Vec<Line> = Vec::new();
        let mut i: usize = 0;
        assert(style::lines_view(lines@) =~= rows.take(0));
        while i < self.items.len()
            invariant
                i <= self.items@.len(),
                rows == menu_rows(*theme, self@, face.inner.width as int),
                style::lines_view(lines@) == rows.take(i as int),
            decreases self.items@.len() - i,
        {
            let ghost before = style::lines_view(lines@);
            let line = menu_line(
                &self.items[i],
                i,
                i == self.selected_idx,
                face.inner.width,
                theme,
            );
            lines.push(line);
            assert(style::lines_view(lines@) =~= before.push(line@));
            assert(rows[i as int] == line@);
            i += 1;
            assert(style::lines_view(lines@) =~= rows.take(i as int));
        }
        assert(rows.take(i as int) =~= rows);
        face.lines = lines;
        face
    }
}

// ── Laws ───────────────────────────────────────────────────────────

/// Up and down go to the neighbouring item and stop at the ends.
pub proof fn items_are_stepped_through(menu: MenuView)
    requires
        0 <= menu.selected < menu.items.len(),
    ensures
        menu.selected > 0 ==> menu.after_key(KeyCode::Up).selected == menu.selected - 1,
        menu.selected == 0 ==> menu.after_key(KeyCode::Up) == menu,
        menu.selected + 1 < menu.items.len() ==> menu.after_key(KeyCode::Down).selected
            == menu.selected + 1,
        menu.selected + 1 == menu.items.len() ==> menu.after_key(KeyCode::Down) == menu,
        menu.after_key(KeyCode::Up).items == menu.items,
        menu.after_key(KeyCode::Down).items == menu.items,
{
}

/// Enter takes the item that is selected, a number the item that it is shown in front of, and
/// Esc takes none. A number that stands in front of no item does nothing.
pub proof fn items_are_taken(menu: MenuView, i: int, c: char)
    requires
        0 <= menu.selected < menu.items.len() <= usize::MAX,
        0 <= i < 10,
    ensures
        menu.answer(KeyCode::Enter) == MenuResult::Selected(menu.selected as usize),
        menu.answer(KeyCode::Esc) == MenuResult::Dismissed,
        i < menu.items.len() ==> menu.answer(KeyCode::Char(char_for(i))) == MenuResult::Selected(
            i as usize,
        ),
        i >= menu.items.len() ==> menu.answer(KeyCode::Char(char_for(i))) == MenuResult::Nothing,
        !('0' <= c <= '9') ==> menu.answer(KeyCode::Char(c)) == MenuResult::Nothing,
        menu.answer(KeyCode::Up) == MenuResult::Nothing,
        menu.answer(KeyCode::Down) == MenuResult::Nothing,
{
}

/// Every row shows the number that takes its item, and the item's label. The selected row, and
/// no other, has the ground of what is pointed at.
pub proof fn rows_show_their_items(theme: Theme, menu: MenuView, width: int, i: int)
    requires
        0 <= i < menu.items.len(),
    ensures
        ({
            let row = menu_rows(theme, menu, width)[i];
            let item = menu.items[i];
            let at = if item.color is Some {
                2int
            } else {
                1
            };
            let bg = if i == menu.selected {
                theme.bg_hover
            } else {
                theme.bg_overlay
            };
            &&& menu_rows(theme, menu, width).len() == menu.items.len()
            &&& row.len() > at
            &&& row[0].content == seq![' ', char_for(i), ' ']
            &&& row[at].content == item.label
            &&& forall|k: int| 0 <= k < row.len() ==> (#[trigger] row[k]).style.bg == Some(bg)
            &&& item.color is Some ==> row[1].style.fg == item.color
            &&& row[at].style.fg == Some(
                if i == menu.selected {
                    theme.text_primary
                } else {
                    theme.text_secondary
                },
            )
        }),
{
}

/// The menu is wide enough for each of its labels, with the number and the dot before it and
/// some room behind, and for its title.
pub proof fn labels_fit_into_the_menu(menu: MenuView, i: int)
    requires
        0 <= i < menu.items.len(),
        longest(menu.items) + 11 <= u16::MAX,
        menu.title.len() + 6 <= u16::MAX,
        menu.items.len() + 3 <= u16::MAX,
    ensures
        menu.items[i].label.len() + 9 + 2 <= menu_width(menu),
        menu.title.len() + 4 + 2 <= menu_width(menu),
        menu_height(menu) == menu.items.len() + 3,
{
    lemma_longest(menu.items, i);
}

proof fn lemma_longest(items: Seq<MenuItemView>, i: int)
    requires
        0 <= i < items.len(),
    ensures
        items[i].label.len() <= longest(items),
    decreases items.len(),
{
    if i < items.len() - 1 {
        lemma_longest(items.drop_last(), i);
    }
}

} // verus!
