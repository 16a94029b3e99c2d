//! A screen of styled character cells, driven by terminal actions.

use std::collections::VecDeque;

use vstd::prelude::*;

use crate::style;
use crate::text;
use crate::style::{Color, Line, Modifier, Span, Style};
use crate::text::push_decimal;

verus! {

/// Maximum number of scrollback lines retained per overview panel.
pub const SCROLLBACK_CAPACITY: usize = 2000;

// ── Cells ──────────────────────────────────────────────────────────

/// One character cell.
#[derive(Debug, Clone, Copy)]
pub struct Cell {
    pub ch: char,
    pub style: Style,
}

pub open spec fn blank_cell() -> Cell {
    Cell { ch: ' ', style: style::plain_style() }
}

/// A row of `cols` blank cells.
pub open spec fn blank_row(cols: int) -> Seq<Cell> {
    Seq::new(cols as nat, |i: int| blank_cell())
}

/// A grid of blank cells.
pub open spec fn blank_grid(cols: int, rows: int) -> Seq<Seq<Cell>> {
    Seq::new(rows as nat, |i: int| blank_row(cols))
}

impl Default for Cell {
    fn default() -> (cell: Cell)
        ensures
            cell == blank_cell(),
    {
        Cell { ch: ' ', style: Style::new() }
    }
}

fn new_blank_row(cols: usize) -> (row: Vec<Cell>)
    ensures
        row@ == blank_row(cols as int),
{
    let mut row: Vec<Cell> = Vec::new();
    let mut i: usize = 0;
    while i < cols
        invariant
            i <= cols,
            row@ == blank_row(i as int),
        decreases cols - i,
    {
        row.push(Cell { ch: ' ', style: Style::new() });
        i += 1;
        assert(row@ =~= blank_row(i as int));
    }
    row
}

fn copy_row(row: &Vec<Cell>) -> (copy: Vec<Cell>)
    ensures
        copy@ == row@,
{
    let mut copy: Vec<Cell> = Vec::new();
    let mut i: usize = 0;
    while i < row.len()
        invariant
            i <= row@.len(),
            copy@ == row@.take(i as int),
        decreases row@.len() - i,
    {
        copy.push(row[i]);
        i += 1;
        assert(row@.take(i as int) =~= row@.take(i - 1).push(row@[i - 1]));
    }
    assert(row@.take(i as int) =~= row@);
    copy
}

/// The rows of a list, as their views.
pub open spec fn rows_view(rows: Seq<Vec<Cell>>) -> Seq<Seq<Cell>> {
    rows.map_values(|r: Vec<Cell>| r@)
}

fn new_blank_grid(cols: usize, rows: usize) -> (grid: Vec<Vec<Cell>>)
    ensures
        rows_view(grid@) == blank_grid(cols as int, rows as int),
        grid@.len() == rows,
{
    let mut grid: Vec<Vec<Cell>> = Vec::new();
    let mut i: usize = 0;
    assert(rows_view(grid@) =~= blank_grid(cols as int, 0));
    while i < rows
        invariant
            i <= rows,
            grid@.len() == i,
            rows_view(grid@) == blank_grid(cols as int, i as int),
        decreases rows - i,
    {
        let row = new_blank_row(cols);
        let ghost before = grid@;
        grid.push(row);
        i += 1;
        assert(rows_view(grid@) =~= rows_view(before).push(blank_row(cols as int)));
        assert(rows_view(grid@) =~= blank_grid(cols as int, i as int));
    }
    grid
}

// ── The screen as a mathematical value ─────────────────────────────

/// The state of a screen.
#[verifier::ext_equal]
pub ghost struct ScreenView {
    pub grid: Seq<Seq<Cell>>,
    pub cols: int,
    pub rows: int,
    pub cursor_row: int,
    pub cursor_col: int,
    pub wrap_pending: bool,
    pub saved_cursor: (int, int),
    pub current_style: Style,
    pub scroll_top: int,
    pub scroll_bottom: int,
    pub scrollback: Seq<Seq<Cell>>,
    pub capacity: int,
}

pub open spec fn min(a: int, b: int) -> int {
    if a <= b {
        a
    } else {
        b
    }
}

pub open spec fn max(a: int, b: int) -> int {
    if a >= b {
        a
    } else {
        b
    }
}

/// The last `capacity` rows of a scrollback.
pub open spec fn trimmed(rows: Seq<Seq<Cell>>, capacity: int) -> Seq<Seq<Cell>> {
    if rows.len() > capacity {
        rows.skip(rows.len() - capacity)
    } else {
        rows
    }
}

/// Whether a row shows anything.
pub open spec fn row_is_blank(row: Seq<Cell>) -> bool {
    forall|i: int| 0 <= i < row.len() ==> #[trigger] row[i] == blank_cell()
}

/// The number of rows up to and with the last one that shows anything.
pub open spec fn used_rows(grid: Seq<Seq<Cell>>) -> int
    decreases grid.len(),
{
    if grid.len() == 0 {
        0
    } else if row_is_blank(grid.last()) {
        used_rows(grid.drop_last())
    } else {
        grid.len() as int
    }
}

/// A row with the cells in `from..to` made blank.
pub open spec fn row_erased(row: Seq<Cell>, from: int, to: int) -> Seq<Cell> {
    Seq::new(
        row.len(),
        |i: int|
            if from <= i < to {
                blank_cell()
            } else {
                row[i]
            },
    )
}

/// A grid with the rows in `from..to` made blank.
pub open spec fn rows_cleared(grid: Seq<Seq<Cell>>, from: int, to: int, cols: int) -> Seq<
    Seq<Cell>,
> {
    Seq::new(
        grid.len(),
        |i: int|
            if from <= i < to {
                blank_row(cols)
            } else {
                grid[i]
            },
    )
}

/// `seq[from..to]` shifted back by `n`: the first `n` items of the range fall out and `n`
/// times `filler` follows the rest.
pub open spec fn shifted_out<T>(seq: Seq<T>, from: int, to: int, n: int, filler: T) -> Seq<T> {
    let k = min(n, to - from);
    seq.take(from) + seq.subrange(from + k, to) + Seq::new(k as nat, |i: int| filler) + seq.skip(to)
}

/// `seq[from..to]` shifted forward by `n`: `n` times `filler` comes first and the last `n`
/// items of the range fall out.
pub open spec fn shifted_in<T>(seq: Seq<T>, from: int, to: int, n: int, filler: T) -> Seq<T> {
    let k = min(n, to - from);
    seq.take(from) + Seq::new(k as nat, |i: int| filler) + seq.subrange(from, to - k) + seq.skip(to)
}

impl ScreenView {
    /// What holds of every screen between two actions.
    pub open spec fn wf(self) -> bool {
        &&& self.rows >= 1
        &&& self.cols >= 1
        &&& self.grid.len() == self.rows
        &&& forall|i: int| 0 <= i < self.rows ==> (#[trigger] self.grid[i]).len() == self.cols
        &&& 0 <= self.cursor_row < self.rows
        &&& 0 <= self.cursor_col < self.cols
        &&& 0 <= self.scroll_top <= self.scroll_bottom < self.rows
        &&& 0 <= self.capacity
        &&& self.scrollback.len() <= self.capacity
        &&& 0 <= self.saved_cursor.0
        &&& 0 <= self.saved_cursor.1
    }

    /// A fresh screen; each side is at least one.
    pub open spec fn fresh(cols: int, rows: int, capacity: int) -> ScreenView {
        let c = max(cols, 1);
        let r = max(rows, 1);
        ScreenView {
            grid: blank_grid(c, r),
            cols: c,
            rows: r,
            cursor_row: 0,
            cursor_col: 0,
            wrap_pending: false,
            saved_cursor: (0, 0),
            current_style: style::plain_style(),
            scroll_top: 0,
            scroll_bottom: r - 1,
            scrollback: Seq::empty(),
            capacity,
        }
    }

    /// A screen of another size: cleared, cursor home, scroll region whole. The saved cursor
    /// and the scrollback stay. Nothing changes if the size is the same.
    pub open spec fn resized(self, cols: int, rows: int) -> ScreenView {
        let c = max(cols, 1);
        let r = max(rows, 1);
        if c == self.cols && r == self.rows {
            self
        } else {
            ScreenView {
                saved_cursor: self.saved_cursor,
                scrollback: self.scrollback,
                ..ScreenView::fresh(cols, rows, self.capacity)
            }
        }
    }

    /// As `resized`, and the scrollback is dropped where the size changes.
    pub open spec fn resized_afresh(self, cols: int, rows: int) -> ScreenView {
        if max(cols, 1) == self.cols && max(rows, 1) == self.rows {
            self
        } else {
            ScreenView { scrollback: Seq::empty(), ..self.resized(cols, rows) }
        }
    }

    /// The scroll region moves up by one row; the row that leaves it goes to the scrollback.
    pub open spec fn scrolled_up(self) -> ScreenView {
        if self.scroll_top < self.scroll_bottom {
            ScreenView {
                grid: shifted_out(
                    self.grid,
                    self.scroll_top,
                    self.scroll_bottom + 1,
                    1,
                    blank_row(self.cols),
                ),
                scrollback: trimmed(
                    self.scrollback.push(self.grid[self.scroll_top]),
                    self.capacity,
                ),
                ..self
            }
        } else {
            self
        }
    }

    /// The scroll region moves down by one row; the row that leaves it is lost.
    pub open spec fn scrolled_down(self) -> ScreenView {
        if self.scroll_top < self.scroll_bottom {
            ScreenView {
                grid: shifted_in(
                    self.grid,
                    self.scroll_top,
                    self.scroll_bottom + 1,
                    1,
                    blank_row(self.cols),
                ),
                ..self
            }
        } else {
            self
        }
    }

    pub open spec fn scrolled_up_by(self, n: int) -> ScreenView
        decreases n,
    {
        if n <= 0 {
            self
        } else {
            self.scrolled_up_by(n - 1).scrolled_up()
        }
    }

    pub open spec fn scrolled_down_by(self, n: int) -> ScreenView
        decreases n,
    {
        if n <= 0 {
            self
        } else {
            self.scrolled_down_by(n - 1).scrolled_down()
        }
    }

    /// One row down, scrolling at the bottom of the scroll region.
    pub open spec fn line_fed(self) -> ScreenView {
        if self.cursor_row == self.scroll_bottom {
            self.scrolled_up()
        } else if self.cursor_row + 1 < self.rows {
            ScreenView { cursor_row: self.cursor_row + 1, ..self }
        } else {
            self
        }
    }

    /// One row up, scrolling at the top of the scroll region.
    pub open spec fn reverse_indexed(self) -> ScreenView {
        if self.cursor_row == self.scroll_top {
            self.scrolled_down()
        } else if self.cursor_row > 0 {
            ScreenView { cursor_row: self.cursor_row - 1, ..self }
        } else {
            self
        }
    }

    /// The rows that are in use go to the scrollback.
    pub open spec fn saved_to_scrollback(self) -> ScreenView {
        ScreenView {
            scrollback: trimmed(
                self.scrollback + self.grid.take(used_rows(self.grid)),
                self.capacity,
            ),
            ..self
        }
    }

    pub open spec fn with_row(self, row: Seq<Cell>) -> ScreenView {
        ScreenView { grid: self.grid.update(self.cursor_row, row), ..self }
    }

    pub open spec fn cursor_line(self) -> Seq<Cell> {
        self.grid[self.cursor_row]
    }

    pub open spec fn line_erased(self, mode: u16) -> ScreenView {
        if mode == 0 {
            self.with_row(row_erased(self.cursor_line(), self.cursor_col, self.cols))
        } else if mode == 1 {
            self.with_row(row_erased(self.cursor_line(), 0, self.cursor_col + 1))
        } else if mode == 2 {
            self.with_row(row_erased(self.cursor_line(), 0, self.cols))
        } else {
            self
        }
    }

    pub open spec fn with_rows_cleared(self, from: int, to: int) -> ScreenView {
        ScreenView { grid: rows_cleared(self.grid, from, to, self.cols), ..self }
    }

    pub open spec fn display_erased(self, mode: u16) -> ScreenView {
        if mode == 0 {
            let kept = if self.cursor_row == 0 && self.cursor_col == 0 {
                self.saved_to_scrollback()
            } else {
                self
            };
            kept.line_erased(0).with_rows_cleared(self.cursor_row + 1, self.rows)
        } else if mode == 1 {
            self.with_rows_cleared(0, self.cursor_row).line_erased(1)
        } else if mode == 2 || mode == 3 {
            self.saved_to_scrollback().with_rows_cleared(0, self.rows)
        } else {
            self
        }
    }

    /// A character is written at the cursor; at the right margin the wrap waits for the next.
    pub open spec fn printed(self, c: char) -> ScreenView {
        let s = if self.wrap_pending {
            ScreenView { wrap_pending: false, cursor_col: 0, ..self }.line_fed()
        } else {
            self
        };
        let t = s.with_row(
            s.cursor_line().update(s.cursor_col, Cell { ch: c, style: s.current_style }),
        );
        if s.cursor_col + 1 >= s.cols {
            ScreenView { wrap_pending: true, ..t }
        } else {
            ScreenView { cursor_col: s.cursor_col + 1, ..t }
        }
    }

    /// A control character.
    pub open spec fn executed(self, byte: u8) -> ScreenView {
        let s = ScreenView { wrap_pending: false, ..self };
        if 0x0a <= byte <= 0x0c {
            s.line_fed()
        } else if byte == 0x0d {
            ScreenView { cursor_col: 0, ..s }
        } else if byte == 0x08 {
            ScreenView { cursor_col: max(s.cursor_col - 1, 0), ..s }
        } else if byte == 0x09 {
            ScreenView { cursor_col: min((s.cursor_col / 8 + 1) * 8, s.cols - 1), ..s }
        } else {
            s
        }
    }

    pub open spec fn moved_to(self, row: int, col: int) -> ScreenView {
        ScreenView {
            cursor_row: min(max(row, 0), self.rows - 1),
            cursor_col: min(max(col, 0), self.cols - 1),
            ..self
        }
    }

    pub open spec fn cursor_saved(self) -> ScreenView {
        ScreenView { saved_cursor: (self.cursor_row, self.cursor_col), ..self }
    }

    pub open spec fn cursor_restored(self) -> ScreenView {
        self.moved_to(self.saved_cursor.0, self.saved_cursor.1)
    }

    pub open spec fn in_scroll_region(self) -> bool {
        self.scroll_top <= self.cursor_row <= self.scroll_bottom
    }

    /// The scroll region becomes rows `first..=second`, counted from one, where that is a
    /// region of at least two rows of the screen; the cursor goes home either way.
    pub open spec fn region_set(self, first: int, second: int) -> ScreenView {
        let top = max(first, 1);
        let bottom = if second == 0 {
            self.rows
        } else {
            second
        };
        let s = if top < bottom && bottom <= self.rows {
            ScreenView { scroll_top: top - 1, scroll_bottom: bottom - 1, ..self }
        } else {
            self
        };
        ScreenView { cursor_row: 0, cursor_col: 0, ..s }
    }

    /// A control sequence with the parameters `params` and the final character `action`.
    pub open spec fn csi(
        self,
        params: Seq<Seq<u16>>,
        intermediates: Seq<u8>,
        action: char,
    ) -> ScreenView {
        let first = param_or_zero(params, 0);
        let second = param_or_zero(params, 1);
        let private = intermediates.len() > 0 && intermediates[0] == 0x3f;
        let n = max(first as int, 1);
        let m = max(second as int, 1);
        let s = if moves_cursor(action) {
            ScreenView { wrap_pending: false, ..self }
        } else {
            self
        };
        if action == 'A' {
            s.moved_to(s.cursor_row - n, s.cursor_col)
        } else if action == 'B' {
            s.moved_to(s.cursor_row + n, s.cursor_col)
        } else if action == 'C' {
            s.moved_to(s.cursor_row, s.cursor_col + n)
        } else if action == 'D' {
            s.moved_to(s.cursor_row, s.cursor_col - n)
        } else if action == 'E' {
            s.moved_to(s.cursor_row + n, 0)
        } else if action == 'F' {
            s.moved_to(s.cursor_row - n, 0)
        } else if action == 'G' {
            s.moved_to(s.cursor_row, n - 1)
        } else if action == 'H' || action == 'f' {
            s.moved_to(n - 1, m - 1)
        } else if action == 'J' {
            s.display_erased(first)
        } else if action == 'K' {
            s.line_erased(first)
        } else if action == 'L' && s.in_scroll_region() {
            ScreenView {
                grid: shifted_in(
                    s.grid,
                    s.cursor_row,
                    s.scroll_bottom + 1,
                    n,
                    blank_row(s.cols),
                ),
                ..s
            }
        } else if action == 'M' && s.in_scroll_region() {
            ScreenView {
                grid: shifted_out(
                    s.grid,
                    s.cursor_row,
                    s.scroll_bottom + 1,
                    n,
                    blank_row(s.cols),
                ),
                ..s
            }
        } else if action == 'P' {
            s.with_row(shifted_out(s.cursor_line(), s.cursor_col, s.cols, n, blank_cell()))
        } else if action == '@' {
            s.with_row(shifted_in(s.cursor_line(), s.cursor_col, s.cols, n, blank_cell()))
        } else if action == 'S' && !private {
            s.scrolled_up_by(n)
        } else if action == 'T' && !private {
            s.scrolled_down_by(n)
        } else if action == 'm' {
            ScreenView { current_style: sgr(s.current_style, params), ..s }
        } else if action == 'r' && !private {
            s.region_set(first as int, second as int)
        } else if action == 'X' {
            s.with_row(row_erased(s.cursor_line(), s.cursor_col, s.cursor_col + n))
        } else if action == 's' && !private {
            s.cursor_saved()
        } else if action == 'u' && !private {
            s.cursor_restored()
        } else {
            s
        }
    }

    /// An escape sequence with the final byte `byte`.
    pub open spec fn esc(self, intermediates: Seq<u8>, byte: u8) -> ScreenView {
        if intermediates.len() > 0 {
            self
        } else if byte == 0x44 {
            self.line_fed()
        } else if byte == 0x4d {
            self.reverse_indexed()
        } else if byte == 0x37 {
            self.cursor_saved()
        } else if byte == 0x38 {
            self.cursor_restored()
        } else {
            self
        }
    }
}

/// The first number of parameter `i`, or zero where there is none.
pub open spec fn param_or_zero(params: Seq<Seq<u16>>, i: int) -> u16 {
    if i < params.len() {
        params[i][0]
    } else {
        0
    }
}

/// Whether every parameter holds at least one number.
pub open spec fn params_ok(params: Seq<Seq<u16>>) -> bool {
    forall|i: int| 0 <= i < params.len() ==> (#[trigger] params[i]).len() > 0
}

/// The final characters of the control sequences that cancel a pending wrap.
pub open spec fn moves_cursor(action: char) -> bool {
    'A' <= action <= 'H' || action == 'f' || action == 'r' || action == 's' || action == 'u'
}

// ── Showing a screen ───────────────────────────────────────────────

/// A row as runs of cells in one style.
pub open spec fn row_runs(row: Seq<Cell>) -> Seq<style::SpanView>
    decreases row.len(),
{
    if row.len() == 0 {
        Seq::empty()
    } else {
        let runs = row_runs(row.drop_last());
        let cell = row.last();
        if runs.len() > 0 && runs.last().style == cell.style {
            runs.drop_last().push(
                style::SpanView { content: runs.last().content.push(cell.ch), style: cell.style },
            )
        } else {
            runs.push(style::SpanView { content: seq![cell.ch], style: cell.style })
        }
    }
}

/// The number that selects a colour in a rendition sequence, relative to the colour base.
pub open spec fn color_number(color: Color) -> int {
    match color {
        Color::Black => 0,
        Color::Red => 1,
        Color::Green => 2,
        Color::Yellow => 3,
        Color::Blue => 4,
        Color::Magenta => 5,
        Color::Cyan => 6,
        Color::White => 7,
        Color::Indexed(_) => 8,
        Color::Rgb(_, _, _) => 8,
        Color::Reset => 9,
        Color::DarkGray => 60,
        Color::LightRed => 61,
        Color::LightGreen => 62,
        Color::LightYellow => 63,
        Color::LightBlue => 64,
        Color::LightMagenta => 65,
        Color::LightCyan => 66,
        Color::Gray => 67,
    }
}

/// The rendition parameters of a colour, each with its separator in front.
pub open spec fn color_sgr(color: Color, fg: bool) -> Seq<char> {
    let number = seq![';'] + text::decimal((color_number(color) + if fg {
        30int
    } else {
        40
    }) as nat);
    match color {
        Color::Indexed(n) => number + ";5;"@ + text::decimal(n as nat),
        Color::Rgb(r, g, b) => number + ";2;"@ + text::decimal(r as nat) + seq![';'] + text::decimal(g as nat)
            + seq![';'] + text::decimal(b as nat),
        _ => number,
    }
}

pub open spec fn when(cond: bool, text: Seq<char>) -> Seq<char> {
    if cond {
        text
    } else {
        Seq::empty()
    }
}

/// The rendition parameters of a style, each with its separator in front.
pub open spec fn style_sgr(style: Style) -> Seq<char> {
    let m = style.add_modifier;
    (match style.fg {
        Some(c) => color_sgr(c, true),
        None => Seq::empty(),
    }) + (match style.bg {
        Some(c) => color_sgr(c, false),
        None => Seq::empty(),
    }) + when(m.bold, ";1"@) + when(m.dim, ";2"@) + when(m.italic, ";3"@) + when(
        m.underlined,
        ";4"@,
    ) + when(m.reversed, ";7"@) + when(m.hidden, ";8"@) + when(m.crossed_out, ";9"@)
}

/// The style in force after a row has been written.
pub open spec fn style_after(row: Seq<Cell>) -> Style {
    if row.len() == 0 {
        style::plain_style()
    } else {
        row.last().style
    }
}

/// A row's characters with a rendition sequence wherever the style changes.
pub open spec fn ansi_cells(row: Seq<Cell>) -> Seq<char>
    decreases row.len(),
{
    if row.len() == 0 {
        Seq::empty()
    } else {
        let front = row.drop_last();
        let cell = row.last();
        (ansi_cells(front) + when(
            cell.style != style_after(front),
            "\x1b[0"@ + style_sgr(cell.style) + seq!['m'],
        )).push(cell.ch)
    }
}

/// A row for a raw terminal: its cells, and a reset at the end if a style is left in force.
pub open spec fn ansi_row(row: Seq<Cell>) -> Seq<char> {
    ansi_cells(row) + when(style_after(row) != style::plain_style(), "\x1b[0m"@)
}

impl ScreenView {
    /// Scrollback and grid in one, oldest row first.
    pub open spec fn history(self) -> Seq<Seq<Cell>> {
        self.scrollback + self.grid
    }

    /// The rows in view when scrolled back by `offset` rows: as many as the screen has, or
    /// what is left of them at the far end.
    pub open spec fn visible_rows(self, offset: int) -> Seq<Seq<Cell>> {
        let end = max(self.history().len() - offset, 0);
        self.history().subrange(max(end - self.rows, 0), end)
    }
}

// ── Graphic rendition ──────────────────────────────────────────────

pub open spec fn ansi_color_spec(idx: int) -> Color {
    if idx == 0 {
        Color::Black
    } else if idx == 1 {
        Color::Red
    } else if idx == 2 {
        Color::Green
    } else if idx == 3 {
        Color::Yellow
    } else if idx == 4 {
        Color::Blue
    } else if idx == 5 {
        Color::Magenta
    } else if idx == 6 {
        Color::Cyan
    } else if idx == 7 {
        Color::White
    } else {
        Color::Reset
    }
}

pub open spec fn ansi_bright_color_spec(idx: int) -> Color {
    if idx == 0 {
        Color::DarkGray
    } else if idx == 1 {
        Color::LightRed
    } else if idx == 2 {
        Color::LightGreen
    } else if idx == 3 {
        Color::LightYellow
    } else if idx == 4 {
        Color::LightBlue
    } else if idx == 5 {
        Color::LightMagenta
    } else if idx == 6 {
        Color::LightCyan
    } else if idx == 7 {
        Color::Gray
    } else {
        Color::Reset
    }
}

/// The attributes that a rendition code switches on.
pub open spec fn sgr_on(code: u16) -> Modifier {
    Modifier {
        bold: code == 1,
        dim: code == 2,
        italic: code == 3,
        underlined: code == 4,
        reversed: code == 7,
        hidden: code == 8,
        crossed_out: code == 9,
    }
}

/// The attributes that a rendition code switches off.
pub open spec fn sgr_off(code: u16) -> Modifier {
    Modifier {
        bold: code == 22,
        dim: code == 22,
        italic: code == 23,
        underlined: code == 24,
        reversed: code == 27,
        hidden: code == 28,
        crossed_out: code == 29,
    }
}

/// The colour that a parameter of its own spells out, as in `38:5:n` or `38:2:r:g:b`.
pub open spec fn inline_color(param: Seq<u16>) -> Option<Color> {
    if param.len() >= 3 && param[1] == 5 {
        Some(Color::Indexed(param[2] as u8))
    } else if param.len() >= 5 && param[1] == 2 {
        Some(Color::Rgb(param[2] as u8, param[3] as u8, param[4] as u8))
    } else {
        None
    }
}

/// The colour that the parameters after a bare `38` or `48` spell out, and how many of them
/// it takes. A missing component counts as zero, a missing index as no colour.
pub open spec fn following_color(rest: Seq<Seq<u16>>) -> (Option<Color>, nat) {
    if rest.len() == 0 {
        (None, 0)
    } else if rest[0][0] == 5 {
        if rest.len() == 1 {
            (None, 1)
        } else {
            (Some(Color::Indexed(rest[1][0] as u8)), 2)
        }
    } else if rest[0][0] == 2 {
        (
            Some(
                Color::Rgb(
                    param_or_zero(rest, 1) as u8,
                    param_or_zero(rest, 2) as u8,
                    param_or_zero(rest, 3) as u8,
                ),
            ),
            min(rest.len() as int, 4) as nat,
        )
    } else {
        (None, 1)
    }
}

pub open spec fn with_color(style: Style, color: Option<Color>, foreground: bool) -> Style {
    match color {
        Some(c) => if foreground {
            style.spec_fg(c)
        } else {
            style.spec_bg(c)
        },
        None => style,
    }
}

/// The effect of one code that takes no further parameter.
pub open spec fn sgr_one(style: Style, code: u16) -> Style {
    if code == 0 {
        style::plain_style()
    } else if 1 <= code <= 4 || 7 <= code <= 9 {
        style.spec_add(sgr_on(code))
    } else if 22 <= code <= 24 || 27 <= code <= 29 {
        style.spec_remove(sgr_off(code))
    } else if 30 <= code <= 37 {
        style.spec_fg(ansi_color_spec(code - 30))
    } else if code == 39 {
        style.spec_fg(Color::Reset)
    } else if 40 <= code <= 47 {
        style.spec_bg(ansi_color_spec(code - 40))
    } else if code == 49 {
        style.spec_bg(Color::Reset)
    } else if 90 <= code <= 97 {
        style.spec_fg(ansi_bright_color_spec(code - 90))
    } else if 100 <= code <= 107 {
        style.spec_bg(ansi_bright_color_spec(code - 100))
    } else {
        style
    }
}

/// The effect of a list of rendition parameters, one after the other.
pub open spec fn sgr_all(style: Style, params: Seq<Seq<u16>>) -> Style
    decreases params.len(),
{
    if params.len() == 0 {
        style
    } else {
        let param = params[0];
        let code = param[0];
        let rest = params.skip(1);
        if code == 38 || code == 48 {
            if inline_color(param) is Some {
                sgr_all(with_color(style, inline_color(param), code == 38), rest)
            } else {
                let (color, taken) = following_color(rest);
                sgr_all(with_color(style, color, code == 38), rest.skip(taken as int))
            }
        } else {
            sgr_all(sgr_one(style, code), rest)
        }
    }
}

/// A graphic rendition sequence; without parameters it resets.
pub open spec fn sgr(style: Style, params: Seq<Seq<u16>>) -> Style {
    if params.len() == 0 {
        style::plain_style()
    } else {
        sgr_all(style, params)
    }
}

fn ansi_color(idx: u16) -> (color: Color)
    ensures
        color == ansi_color_spec(idx as int),
{
    match idx {
        0 => Color::Black,
        1 => Color::Red,
        2 => Color::Green,
        3 => Color::Yellow,
        4 => Color::Blue,
        5 => Color::Magenta,
        6 => Color::Cyan,
        7 => Color::White,
        _ => Color::Reset,
    }
}

fn ansi_bright_color(idx: u16) -> (color: Color)
    ensures
        color == ansi_bright_color_spec(idx as int),
{
    match idx {
        0 => Color::DarkGray,
        1 => Color::LightRed,
        2 => Color::LightGreen,
        3 => Color::LightYellow,
        4 => Color::LightBlue,
        5 => Color::LightMagenta,
        6 => Color::LightCyan,
        7 => Color::Gray,
        _ => Color::Reset,
    }
}

fn color256(idx: u16) -> (color: Color)
    ensures
        color == Color::Indexed(idx as u8),
{
    Color::Indexed(#[verifier::truncate] (idx as u8))
}

/// The parameters of a control sequence, as their views.
pub open spec fn params_view(params: Seq<Vec<u16>>) -> Seq<Seq<u16>> {
    params.map_values(|p: Vec<u16>| p@)
}

fn first_of(params: &Vec<Vec<u16>>, i: usize) -> (n: u16)
    requires
        params_ok(params_view(params@)),
    ensures
        n == param_or_zero(params_view(params@), i as int),
{
    if i < params.len() {
        assert(params_view(params@)[i as int].len() > 0);
        params[i][0]
    } else {
        0
    }
}

/// Makes the cells in `from..to` blank.
fn erase_cells(row: &mut Vec<Cell>, from: usize, to: usize)
    ensures
        final(row)@ == row_erased(old(row)@, from as int, to as int),
{
    let ghost before = row@;
    let mut i: usize = from;
    assert(row@ =~= row_erased(before, from as int, i as int));
    while i < to && i < row.len()
        invariant
            from <= i,
            from < to ==> i <= to,
            from >= to ==> i == from,
            row@.len() == before.len(),
            row@ == row_erased(before, from as int, i as int),
        decreases row@.len() - i,
    {
        row[i] = Cell { ch: ' ', style: Style::new() };
        i += 1;
        assert(row@ =~= row_erased(before, from as int, i as int));
    }
    assert(row@ =~= row_erased(before, from as int, to as int));
}

/// Removes `n` cells at `at` and fills up with blanks on the right.
fn delete_cells(row: &mut Vec<Cell>, at: usize, n: usize)
    requires
        at <= old(row)@.len(),
    ensures
        final(row)@ == shifted_out(
            old(row)@,
            at as int,
            old(row)@.len() as int,
            n as int,
            blank_cell(),
        ),
{
    let ghost before = row@;
    let len = row.len();
    let count: usize = if n < len - at {
        n
    } else {
        len - at
    };
    let mut i: usize = 0;
    assert(row@ =~= shifted_out(before, at as int, len as int, 0, blank_cell()));
    while i < count
        invariant
            i <= count <= len - at,
            at <= len,
            before.len() == len,
            row@.len() == len,
            row@ == shifted_out(before, at as int, len as int, i as int, blank_cell()),
        decreases count - i,
    {
        row.remove(at);
        row.push(Cell { ch: ' ', style: Style::new() });
        i += 1;
        assert(row@ =~= shifted_out(before, at as int, len as int, i as int, blank_cell()));
    }
}

/// Inserts `n` blank cells at `at`; as many fall out on the right.
fn insert_cells(row: &mut Vec<Cell>, at: usize, n: usize)
    requires
        at <= old(row)@.len(),
    ensures
        final(row)@ == shifted_in(
            old(row)@,
            at as int,
            old(row)@.len() as int,
            n as int,
            blank_cell(),
        ),
{
    let ghost before = row@;
    let len = row.len();
    let count: usize = if n < len - at {
        n
    } else {
        len - at
    };
    let mut i: usize = 0;
    assert(row@ =~= shifted_in(before, at as int, len as int, 0, blank_cell()));
    while i < count
        invariant
            i <= count <= len - at,
            at <= len,
            before.len() == len,
            row@.len() == len,
            row@ == shifted_in(before, at as int, len as int, i as int, blank_cell()),
        decreases count - i,
    {
        row.pop();
        row.insert(at, Cell { ch: ' ', style: Style::new() });
        i += 1;
        assert(row@ =~= shifted_in(before, at as int, len as int, i as int, blank_cell()));
    }
}

fn row_blank(row: &Vec<Cell>) -> (blank: bool)
    ensures
        blank == row_is_blank(row@),
{
    let mut i: usize = 0;
    while i < row.len()
        invariant
            i <= row@.len(),
            forall|k: int| 0 <= k < i ==> #[trigger] row@[k] == blank_cell(),
        decreases row@.len() - i,
    {
        if row[i].ch != ' ' || row[i].style != Style::new() {
            assert(row@[i as int] != blank_cell());
            return false;
        }
        i += 1;
    }
    true
}

/// Removes row `from` and puts a blank row in at `to`, counted after the removal.
fn move_rows(grid: &mut Vec<Vec<Cell>>, from: usize, to: usize, cols: usize) -> (gone: Vec<Cell>)
    requires
        from < old(grid)@.len(),
        to < old(grid)@.len(),
    ensures
        gone@ == rows_view(old(grid)@)[from as int],
        rows_view(final(grid)@) == rows_view(old(grid)@).remove(from as int).insert(
            to as int,
            blank_row(cols as int),
        ),
        final(grid)@.len() == old(grid)@.len(),
{
    let ghost before = grid@;
    let gone = grid.remove(from);
    let blank = new_blank_row(cols);
    grid.insert(to, blank);
    proof {
        assert(gone@ == rows_view(before)[from as int]);
        assert(rows_view(grid@) =~= rows_view(before).remove(from as int).insert(
            to as int,
            blank_row(cols as int),
        ));
    }
    gone
}

// ── The screen ─────────────────────────────────────────────────────

/// A terminal screen: a grid of cells, a cursor, a scroll region and a scrollback.
pub struct Screen {
    pub grid: Vec<Vec<Cell>>,
    pub cols: usize,
    pub rows: usize,
    cursor_row: usize,
    cursor_col: usize,
    wrap_pending: bool,
    saved_cursor: (usize, usize),
    current_style: Style,
    scroll_top: usize,
    /// The last row of the scroll region.
    scroll_bottom: usize,
    /// Lines scrolled off the top of the screen, oldest first.
    scrollback: VecDeque<Vec<Cell>>,
    scrollback_capacity: usize,
}

impl View for Screen {
    type V = ScreenView;

    closed spec fn view(&self) -> ScreenView {
        ScreenView {
            grid: rows_view(self.grid@),
            cols: self.cols as int,
            rows: self.rows as int,
            cursor_row: self.cursor_row as int,
            cursor_col: self.cursor_col as int,
            wrap_pending: self.wrap_pending,
            saved_cursor: (self.saved_cursor.0 as int, self.saved_cursor.1 as int),
            current_style: self.current_style,
            scroll_top: self.scroll_top as int,
            scroll_bottom: self.scroll_bottom as int,
            scrollback: rows_view(self.scrollback@),
            capacity: self.scrollback_capacity as int,
        }
    }
}

impl Screen {
    pub fn new(cols: usize, rows: usize) -> (screen: Self)
        ensures
            screen@ == ScreenView::fresh(cols as int, rows as int, SCROLLBACK_CAPACITY as int),
            screen@.wf(),
    {
        Self::with_scrollback_capacity(cols, rows, SCROLLBACK_CAPACITY)
    }

    pub fn with_scrollback_capacity(
        cols: usize,
        rows: usize,
        scrollback_capacity: usize,
    ) -> (screen: Self)
        ensures
            screen@ == ScreenView::fresh(cols as int, rows as int, scrollback_capacity as int),
            screen@.wf(),
    {
        let cols: usize = if cols > 1 {
            cols
        } else {
            1
        };
        let rows: usize = if rows > 1 {
            rows
        } else {
            1
        };
        let screen = Screen {
            grid: new_blank_grid(cols, rows),
            cols,
            rows,
            cursor_row: 0,
            cursor_col: 0,
            wrap_pending: false,
            saved_cursor: (0, 0),
            current_style: Style::new(),
            scroll_top: 0,
            scroll_bottom: rows - 1,
            scrollback: VecDeque::new(),
            scrollback_capacity,
        };
        assert(screen@.scrollback =~= Seq::<Seq<Cell>>::empty());
        screen
    }

    /// Resize the screen and drop the scrollback.
    pub fn resize(&mut self, cols: usize, rows: usize)
        requires
            old(self)@.wf(),
        ensures
            final(self)@ == old(self)@.resized_afresh(cols as int, rows as int),
            final(self)@.wf(),
    {
        let changes = !((if cols > 1 {
            cols
        } else {
            1
        }) == self.cols && (if rows > 1 {
            rows
        } else {
            1
        }) == self.rows);
        self.resize_keep_scrollback(cols, rows);
        if changes {
            self.scrollback.clear();
            assert(self@.scrollback =~= Seq::<Seq<Cell>>::empty());
        }
    }

    /// Resize the screen but keep scrollback history intact.
    /// Used by the attached terminal where scrollback must survive window resizes.
    pub fn resize_keep_scrollback(&mut self, cols: usize, rows: usize)
        requires
            old(self)@.wf(),
        ensures
            final(self)@ == old(self)@.resized(cols as int, rows as int),
            final(self)@.wf(),
    {
        let cols: usize = if cols > 1 {
            cols
        } else {
            1
        };
        let rows: usize = if rows > 1 {
            rows
        } else {
            1
        };
        if cols == self.cols && rows == self.rows {
            return ;
        }
        // Clear the grid to prevent stale content after the resize.
        // The agent will send a full redraw after receiving SIGWINCH.

        self.grid = new_blank_grid(cols, rows);
        self.cols = cols;
        self.rows = rows;
        self.cursor_row = 0;
        self.cursor_col = 0;
        self.scroll_top = 0;
        self.scroll_bottom = rows - 1;
        self.current_style = Style::new();
        self.wrap_pending = false;
    }

    pub fn cols(&self) -> (n: usize)
        ensures
            n == self@.cols,
    {
        self.cols
    }

    pub fn rows(&self) -> (n: usize)
        ensures
            n == self@.rows,
    {
        self.rows
    }

    /// The row and the column of the cursor.
    pub fn cursor_position(&self) -> (at: (usize, usize))
        ensures
            at.0 == self@.cursor_row,
            at.1 == self@.cursor_col,
    {
        (self.cursor_row, self.cursor_col)
    }

    /// Number of scrollback lines available.
    pub fn scrollback_len(&self) -> (n: usize)
        ensures
            n == self@.scrollback.len(),
    {
        self.scrollback.len()
    }

    // -- Private helpers -----------------------------------------------------

    /// Appends a row to the scrollback; the oldest leaves where it is full.
    fn push_scrollback(&mut self, row: Vec<Cell>)
        requires
            old(self)@.scrollback.len() <= old(self)@.capacity,
        ensures
            final(self)@ == (ScreenView {
                scrollback: trimmed(old(self)@.scrollback.push(row@), old(self)@.capacity),
                ..old(self)@
            }),
            final(self)@.scrollback.len() <= final(self)@.capacity,
    {
        let ghost before = self@.scrollback;
        self.scrollback.push_back(row);
        assert(self@.scrollback =~= before.push(row@));
        if self.scrollback.len() > self.scrollback_capacity {
            let ghost full = self@.scrollback;
            self.scrollback.pop_front();
            assert(self@.scrollback =~= full.skip(1));
        }
    }

    /// Save non-blank grid rows to scrollback before a full-screen clear.
    fn save_grid_to_scrollback(&mut self)
        requires
            old(self)@.wf(),
        ensures
            final(self)@ == old(self)@.saved_to_scrollback(),
            final(self)@.wf(),
    {
        let ghost before = self@;
        let mut end: usize = self.grid.len();
        assert(before.grid.take(end as int) =~= before.grid);
        while end > 0 && row_blank(&self.grid[end - 1])
            invariant
                self@ == before,
                before.wf(),
                end <= before.rows,
                self.grid@.len() == before.rows,
                used_rows(before.grid) == used_rows(before.grid.take(end as int)),
            decreases end,
        {
            assert(before.grid.take(end as int).drop_last() =~= before.grid.take(end - 1));
            assert(before.grid.take(end as int).last() == self.grid@[end - 1]@);
            end -= 1;
        }
        proof {
            if end > 0 {
                assert(before.grid.take(end as int).last() == self.grid@[end - 1]@);
            }
        }
        assert(used_rows(before.grid) == end);
        let mut i: usize = 0;
        assert(before.scrollback + before.grid.take(0) =~= before.scrollback);
        while i < end
            invariant
                before.wf(),
                i <= end <= before.rows,
                self.grid@.len() == before.rows,
                self@.wf(),
                self@ == (ScreenView {
                    scrollback: trimmed(
                        before.scrollback + before.grid.take(i as int),
                        before.capacity,
                    ),
                    ..before
                }),
            decreases end - i,
        {
            let row = copy_row(&self.grid[i]);
            let ghost current = self@;
            self.push_scrollback(row);
            proof {
                let all = before.scrollback + before.grid.take(i as int);
                let next = before.scrollback + before.grid.take(i + 1);
                assert(row@ == before.grid[i as int]);
                assert(next =~= all.push(row@));
                assert(self@.scrollback =~= trimmed(next, before.capacity));
            }
            i += 1;
        }
    }

    fn scroll_up(&mut self)
        requires
            old(self)@.wf(),
        ensures
            final(self)@ == old(self)@.scrolled_up(),
            final(self)@.wf(),
    {
        if self.scroll_top < self.scroll_bottom {
            let ghost before = self@;
            let row = move_rows(&mut self.grid, self.scroll_top, self.scroll_bottom, self.cols);
            assert(self@.grid =~= before.scrolled_up().grid);
            self.push_scrollback(row);
            assert(self@ =~= before.scrolled_up());
        }
    }

    fn scroll_down(&mut self)
        requires
            old(self)@.wf(),
        ensures
            final(self)@ == old(self)@.scrolled_down(),
            final(self)@.wf(),
    {
        if self.scroll_top < self.scroll_bottom {
            let ghost before = self@;
            let _row = move_rows(&mut self.grid, self.scroll_bottom, self.scroll_top, self.cols);
            assert(self@.grid =~= before.scrolled_down().grid);
            assert(self@ =~= before.scrolled_down());
        }
    }

    fn linefeed(&mut self)
        requires
            old(self)@.wf(),
        ensures
            final(self)@ == old(self)@.line_fed(),
            final(self)@.wf(),
    {
        if self.cursor_row == self.scroll_bottom {
            self.scroll_up();
        } else if self.cursor_row + 1 < self.rows {
            self.cursor_row += 1;
        }
    }

    fn reverse_index(&mut self)
        requires
            old(self)@.wf(),
        ensures
            final(self)@ == old(self)@.reverse_indexed(),
            final(self)@.wf(),
    {
        if self.cursor_row == self.scroll_top {
            self.scroll_down();
        } else if self.cursor_row > 0 {
            self.cursor_row -= 1;
        }
    }

    /// Makes the rows in `from..to` blank.
    fn clear_rows(&mut self, from: usize, to: usize)
        requires
            old(self)@.wf(),
            from <= to <= old(self)@.rows,
        ensures
            final(self)@ == old(self)@.with_rows_cleared(from as int, to as int),
            final(self)@.wf(),
    {
        let ghost before = self@;
        let mut r: usize = from;
        assert(self@ =~= before.with_rows_cleared(from as int, from as int));
        while r < to
            invariant
                before.wf(),
                self@.wf(),
                from <= r <= to <= before.rows,
                self.grid@.len() == before.rows,
                self.cols == before.cols,
                self@ == before.with_rows_cleared(from as int, r as int),
            decreases to - r,
        {
            let ghost current = self.grid@;
            let row = new_blank_row(self.cols);
            self.grid[r] = row;
            r += 1;
            assert(rows_view(self.grid@) =~= rows_view(current).update(
                r - 1,
                blank_row(before.cols),
            ));
            assert(self@.grid =~= before.with_rows_cleared(from as int, r as int).grid);
            assert(self@ =~= before.with_rows_cleared(from as int, r as int));
        }
    }

    /// Runs `erase_cells` on the cursor's row.
    fn erase_in_cursor_row(&mut self, from: usize, to: usize)
        requires
            old(self)@.wf(),
        ensures
            final(self)@ == old(self)@.with_row(
                row_erased(old(self)@.cursor_line(), from as int, to as int),
            ),
            final(self)@.wf(),
    {
        let ghost before = self@;
        let r = self.cursor_row;
        erase_cells(&mut self.grid[r], from, to);
        assert(self@.grid =~= before.grid.update(
            r as int,
            row_erased(before.cursor_line(), from as int, to as int),
        ));
    }

    fn erase_in_line(&mut self, mode: u16)
        requires
            old(self)@.wf(),
        ensures
            final(self)@ == old(self)@.line_erased(mode),
            final(self)@.wf(),
    {
        match mode {
            // From cursor to end of line
            0 => {
                self.erase_in_cursor_row(self.cursor_col, self.cols);
            },
            // From start of line to cursor
            1 => {
                self.erase_in_cursor_row(0, self.cursor_col + 1);
            },
            // Entire line
            2 => {
                self.erase_in_cursor_row(0, self.cols);
            },
            _ => {},
        }
    }

    fn erase_in_display(&mut self, mode: u16)
        requires
            old(self)@.wf(),
        ensures
            final(self)@ == old(self)@.display_erased(mode),
            final(self)@.wf(),
    {
        match mode {
            // From cursor to end of screen
            0 => {
                // Cursor home and erase is a common full-clear pattern: save the screen first.
                if self.cursor_row == 0 && self.cursor_col == 0 {
                    self.save_grid_to_scrollback();
                }
                self.erase_in_line(0);
                self.clear_rows(self.cursor_row + 1, self.rows);
            },
            // From start of screen to cursor
            1 => {
                self.clear_rows(0, self.cursor_row);
                self.erase_in_line(1);
            },
            // Entire screen
            2 | 3 => {
                self.save_grid_to_scrollback();
                self.clear_rows(0, self.rows);
            },
            _ => {},
        }
    }

    fn write_char(&mut self, c: char)
        requires
            old(self)@.wf(),
        ensures
            final(self)@ == old(self)@.printed(c),
            final(self)@.wf(),
    {
        if self.wrap_pending {
            self.wrap_pending = false;
            self.cursor_col = 0;
            self.linefeed();
        }
        let ghost before = self@;
        let r = self.cursor_row;
        let col = self.cursor_col;
        let cell = Cell { ch: c, style: self.current_style };
        self.grid[r][col] = cell;
        assert(self@.grid =~= before.grid.update(
            r as int,
            before.cursor_line().update(col as int, cell),
        ));
        if self.cursor_col + 1 >= self.cols {
            self.wrap_pending = true;
        } else {
            self.cursor_col += 1;
        }
    }

    /// Parse an extended colour from the parameters that start at `at`.
    ///
    /// Returns the colour and how many parameters it took.
    fn parse_extended_color(params: &Vec<Vec<u16>>, at: usize) -> (found: (Option<Color>, usize))
        requires
            params_ok(params_view(params@)),
            at <= params@.len(),
        ensures
            (found.0, found.1 as nat) == following_color(
                params_view(params@).skip(at as int),
            ),
            at + found.1 <= params@.len(),
    {
        let ghost all = params_view(params@);
        let ghost rest = all.skip(at as int);
        let left = params.len() - at;
        assert(forall|k: int| 0 <= k < rest.len() ==> #[trigger] rest[k] == all[at + k]);
        if left == 0 {
            return (None, 0);
        }
        let mode = first_of(params, at);
        if mode == 5 {
            // 256-color: next param is color index
            if left == 1 {
                (None, 1)
            } else {
                (Some(color256(first_of(params, at + 1))), 2)
            }
        } else if mode == 2 {
            // True-color: next three params are R, G, B
            let r: u16 = if left > 1 {
                first_of(params, at + 1)
            } else {
                0
            };
            let g: u16 = if left > 2 {
                first_of(params, at + 2)
            } else {
                0
            };
            let b: u16 = if left > 3 {
                first_of(params, at + 3)
            } else {
                0
            };
            let taken: usize = if left < 4 {
                left
            } else {
                4
            };
            (
                Some(
                    Color::Rgb(
                        #[verifier::truncate]
                        (r as u8),
                        #[verifier::truncate]
                        (g as u8),
                        #[verifier::truncate]
                        (b as u8),
                    ),
                ),
                taken,
            )
        } else {
            (None, 1)
        }
    }

    /// The colour that one parameter spells out by itself.
    fn inline_color_of(param: &Vec<u16>) -> (color: Option<Color>)
        ensures
            color == inline_color(param@),
    {
        if param.len() >= 3 && param[1] == 5 {
            Some(color256(param[2]))
        } else if param.len() >= 5 && param[1] == 2 {
            Some(
                Color::Rgb(
                    #[verifier::truncate]
                    (param[2] as u8),
                    #[verifier::truncate]
                    (param[3] as u8),
                    #[verifier::truncate]
                    (param[4] as u8),
                ),
            )
        } else {
            None
        }
    }

    /// The style after one rendition code that takes no further parameter.
    fn sgr_code(style: Style, code: u16) -> (after: Style)
        requires
            code != 38,
            code != 48,
        ensures
            after == sgr_one(style, code),
    {
        let none = Modifier::empty();
        match code {
            0 => Style::new(),
            1 => style.add_modifier(Modifier { bold: true, ..none }),
            2 => style.add_modifier(Modifier { dim: true, ..none }),
            3 => style.add_modifier(Modifier { italic: true, ..none }),
            4 => style.add_modifier(Modifier { underlined: true, ..none }),
            7 => style.add_modifier(Modifier { reversed: true, ..none }),
            8 => style.add_modifier(Modifier { hidden: true, ..none }),
            9 => style.add_modifier(Modifier { crossed_out: true, ..none }),
            22 => style.remove_modifier(Modifier { bold: true, dim: true, ..none }),
            23 => style.remove_modifier(Modifier { italic: true, ..none }),
            24 => style.remove_modifier(Modifier { underlined: true, ..none }),
            27 => style.remove_modifier(Modifier { reversed: true, ..none }),
            28 => style.remove_modifier(Modifier { hidden: true, ..none }),
            29 => style.remove_modifier(Modifier { crossed_out: true, ..none }),
            // Standard foreground colors
            30..=37 => style.fg(ansi_color(code - 30)),
            39 => style.fg(Color::Reset),
            // Standard background colors
            40..=47 => style.bg(ansi_color(code - 40)),
            49 => style.bg(Color::Reset),
            // Bright foreground colors
            90..=97 => style.fg(ansi_bright_color(code - 90)),
            // Bright background colors
            100..=107 => style.bg(ansi_bright_color(code - 100)),
            _ => style,
        }
    }

    fn apply_sgr(&mut self, params: &Vec<Vec<u16>>)
        requires
            old(self)@.wf(),
            params_ok(params_view(params@)),
        ensures
            final(self)@ == (ScreenView {
                current_style: sgr(old(self)@.current_style, params_view(params@)),
                ..old(self)@
            }),
            final(self)@.wf(),
    {
        if params.len() == 0 {
            self.current_style = Style::new();
            return ;
        }
        let ghost all = params_view(params@);
        let ghost before = self@;
        let mut style = self.current_style;
        let mut i: usize = 0;
        assert(all.skip(0) =~= all);
        while i < params.len()
            invariant
                i <= params@.len(),
                all == params_view(params@),
                params_ok(all),
                sgr_all(style, all.skip(i as int)) == sgr_all(before.current_style, all),
            decreases params@.len() - i,
        {
            let code = first_of(params, i);
            let ghost left = all.skip(i as int);
            assert(left[0] == params@[i as int]@);
            assert(left.skip(1) =~= all.skip(i + 1));
            if code == 38 || code == 48 {
                let own = Self::inline_color_of(&params[i]);
                let (color, taken) = if own.is_some() {
                    (own, 0)
                } else {
                    // Try consuming next params (semicolon-separated)
                    Self::parse_extended_color(params, i + 1)
                };
                if let Some(c) = color {
                    style = if code == 38 {
                        style.fg(c)
                    } else {
                        style.bg(c)
                    };
                }
                assert(left.skip(1).skip(taken as int) =~= all.skip(i + 1 + taken));
                i = i + 1 + taken;
            } else {
                style = Self::sgr_code(style, code);
                i += 1;
            }
        }
        self.current_style = style;
    }

    // -- Terminal actions ----------------------------------------------------

    /// Draws one character.
    pub fn print(&mut self, c: char)
        requires
            old(self)@.wf(),
        ensures
            final(self)@ == old(self)@.printed(c),
            final(self)@.wf(),
    {
        self.write_char(c);
    }

    /// Runs one control character.
    pub fn execute(&mut self, byte: u8)
        requires
            old(self)@.wf(),
        ensures
            final(self)@ == old(self)@.executed(byte),
            final(self)@.wf(),
    {
        self.wrap_pending = false;
        match byte {
            // Line feed / vertical tab / form feed
            0x0a..=0x0c => self.linefeed(),
            // Carriage return
            0x0d => {
                self.cursor_col = 0;
            },
            // Backspace
            0x08 => {
                self.cursor_col = self.cursor_col.saturating_sub(1);
            },
            // Tab
            0x09 => {
                let stop = self.cursor_col - self.cursor_col % 8;
                self.cursor_col = if self.cols - stop > 8 {
                    stop + 8
                } else {
                    self.cols - 1
                };
            },
            _ => {},
        }
    }

    fn move_to(&mut self, row: usize, col: usize)
        requires
            old(self)@.wf(),
        ensures
            final(self)@ == old(self)@.moved_to(row as int, col as int),
            final(self)@.wf(),
    {
        self.cursor_row = if row < self.rows {
            row
        } else {
            self.rows - 1
        };
        self.cursor_col = if col < self.cols {
            col
        } else {
            self.cols - 1
        };
    }

    fn set_region(&mut self, first: u16, second: u16)
        requires
            old(self)@.wf(),
        ensures
            final(self)@ == old(self)@.region_set(first as int, second as int),
            final(self)@.wf(),
    {
        let top: usize = if first > 1 {
            first as usize
        } else {
            1
        };
        let bottom: usize = if second == 0 {
            self.rows
        } else {
            second as usize
        };
        if top < bottom && bottom <= self.rows {
            self.scroll_top = top - 1;
            self.scroll_bottom = bottom - 1;
        }
        self.cursor_row = 0;
        self.cursor_col = 0;
    }

    fn insert_lines(&mut self, n: usize)
        requires
            old(self)@.wf(),
        ensures
            final(self)@ == (if old(self)@.in_scroll_region() {
                ScreenView {
                    grid: shifted_in(
                        old(self)@.grid,
                        old(self)@.cursor_row,
                        old(self)@.scroll_bottom + 1,
                        n as int,
                        blank_row(old(self)@.cols),
                    ),
                    ..old(self)@
                }
            } else {
                old(self)@
            }),
            final(self)@.wf(),
    {
        let ghost before = self@;
        let row = self.cursor_row;
        let bottom = self.scroll_bottom;
        if self.cursor_row >= self.scroll_top && self.cursor_row <= self.scroll_bottom {
            let mut i: usize = 0;
            let ghost blank = blank_row(before.cols);
            assert(self@.grid =~= shifted_in(before.grid, row as int, bottom + 1, 0, blank));
            while i < n
                invariant
                    before.wf(),
                    i <= n,
                    row == before.cursor_row,
                    bottom == before.scroll_bottom,
                    row <= bottom,
                    self.cols == before.cols,
                    blank == blank_row(before.cols),
                    self.grid@.len() == before.rows,
                    self@ == (ScreenView {
                        grid: shifted_in(before.grid, row as int, bottom + 1, i as int, blank),
                        ..before
                    }),
                decreases n - i,
            {
                let ghost current = self@.grid;
                let _gone = move_rows(&mut self.grid, bottom, row, self.cols);
                i += 1;
                assert(self@.grid == current.remove(bottom as int).insert(row as int, blank));
                assert(self@.grid =~= shifted_in(
                    before.grid,
                    row as int,
                    bottom + 1,
                    i as int,
                    blank,
                ));
            }
        }
    }

    fn delete_lines(&mut self, n: usize)
        requires
            old(self)@.wf(),
        ensures
            final(self)@ == (if old(self)@.in_scroll_region() {
                ScreenView {
                    grid: shifted_out(
                        old(self)@.grid,
                        old(self)@.cursor_row,
                        old(self)@.scroll_bottom + 1,
                        n as int,
                        blank_row(old(self)@.cols),
                    ),
                    ..old(self)@
                }
            } else {
                old(self)@
            }),
            final(self)@.wf(),
    {
        let ghost before = self@;
        let row = self.cursor_row;
        let bottom = self.scroll_bottom;
        if self.cursor_row >= self.scroll_top && self.cursor_row <= self.scroll_bottom {
            let mut i: usize = 0;
            let ghost blank = blank_row(before.cols);
            assert(self@.grid =~= shifted_out(before.grid, row as int, bottom + 1, 0, blank));
            while i < n
                invariant
                    before.wf(),
                    i <= n,
                    row == before.cursor_row,
                    bottom == before.scroll_bottom,
                    row <= bottom,
                    self.cols == before.cols,
                    blank == blank_row(before.cols),
                    self.grid@.len() == before.rows,
                    self@ == (ScreenView {
                        grid: shifted_out(before.grid, row as int, bottom + 1, i as int, blank),
                        ..before
                    }),
                decreases n - i,
            {
                let ghost current = self@.grid;
                let _gone = move_rows(&mut self.grid, row, bottom, self.cols);
                i += 1;
                assert(self@.grid == current.remove(row as int).insert(bottom as int, blank));
                assert(self@.grid =~= shifted_out(
                    before.grid,
                    row as int,
                    bottom + 1,
                    i as int,
                    blank,
                ));
            }
        }
    }

    fn scroll_up_by(&mut self, n: usize)
        requires
            old(self)@.wf(),
        ensures
            final(self)@ == old(self)@.scrolled_up_by(n as int),
            final(self)@.wf(),
    {
        let ghost before = self@;
        let mut i: usize = 0;
        while i < n
            invariant
                i <= n,
                self@.wf(),
                self@ == before.scrolled_up_by(i as int),
            decreases n - i,
        {
            self.scroll_up();
            i += 1;
        }
    }

    fn scroll_down_by(&mut self, n: usize)
        requires
            old(self)@.wf(),
        ensures
            final(self)@ == old(self)@.scrolled_down_by(n as int),
            final(self)@.wf(),
    {
        let ghost before = self@;
        let mut i: usize = 0;
        while i < n
            invariant
                i <= n,
                self@.wf(),
                self@ == before.scrolled_down_by(i as int),
            decreases n - i,
        {
            self.scroll_down();
            i += 1;
        }
    }

    fn delete_chars(&mut self, n: usize)
        requires
            old(self)@.wf(),
        ensures
            final(self)@ == old(self)@.with_row(
                shifted_out(
                    old(self)@.cursor_line(),
                    old(self)@.cursor_col,
                    old(self)@.cols,
                    n as int,
                    blank_cell(),
                ),
            ),
            final(self)@.wf(),
    {
        let ghost before = self@;
        let r = self.cursor_row;
        assert(before.grid[r as int].len() == before.cols);
        delete_cells(&mut self.grid[r], self.cursor_col, n);
        assert(self@.grid =~= before.grid.update(r as int, self.grid@[r as int]@));
    }

    fn insert_chars(&mut self, n: usize)
        requires
            old(self)@.wf(),
        ensures
            final(self)@ == old(self)@.with_row(
                shifted_in(
                    old(self)@.cursor_line(),
                    old(self)@.cursor_col,
                    old(self)@.cols,
                    n as int,
                    blank_cell(),
                ),
            ),
            final(self)@.wf(),
    {
        let ghost before = self@;
        let r = self.cursor_row;
        assert(before.grid[r as int].len() == before.cols);
        insert_cells(&mut self.grid[r], self.cursor_col, n);
        assert(self@.grid =~= before.grid.update(r as int, self.grid@[r as int]@));
    }

    /// Runs one control sequence.
    pub fn csi_dispatch(&mut self, params: &Vec<Vec<u16>>, intermediates: &Vec<u8>, action: char)
        requires
            old(self)@.wf(),
            params_ok(params_view(params@)),
        ensures
            final(self)@ == old(self)@.csi(params_view(params@), intermediates@, action),
            final(self)@.wf(),
    {
        let first = first_of(params, 0);
        let second = first_of(params, 1);
        // Check for private mode indicator
        let private = intermediates.len() > 0 && intermediates[0] == 0x3f;
        let n: usize = if first > 1 {
            first as usize
        } else {
            1
        };
        let m: usize = if second > 1 {
            second as usize
        } else {
            1
        };
        // Clear wrap pending on any CSI that moves the cursor
        match action {
            'A' | 'B' | 'C' | 'D' | 'E' | 'F' | 'G' | 'H' | 'f' | 'r' | 's' | 'u' => {
                self.wrap_pending = false;
            },
            _ => {},
        }
        let row = self.cursor_row;
        let col = self.cursor_col;
        match action {
            // CUU — Cursor Up
            'A' => self.move_to(row.saturating_sub(n), col),
            // CUD — Cursor Down
            'B' => self.move_to(row.saturating_add(n), col),
            // CUF — Cursor Forward
            'C' => self.move_to(row, col.saturating_add(n)),
            // CUB — Cursor Back
            'D' => self.move_to(row, col.saturating_sub(n)),
            // CNL — Cursor Next Line
            'E' => self.move_to(row.saturating_add(n), 0),
            // CPL — Cursor Previous Line
            'F' => self.move_to(row.saturating_sub(n), 0),
            // CHA — Cursor Horizontal Absolute
            'G' => self.move_to(row, n - 1),
            // CUP / HVP — Cursor Position
            'H' | 'f' => self.move_to(n - 1, m - 1),
            // ED — Erase in Display
            'J' => self.erase_in_display(first),
            // EL — Erase in Line
            'K' => self.erase_in_line(first),
            // IL — Insert Lines
            'L' => self.insert_lines(n),
            // DL — Delete Lines
            'M' => self.delete_lines(n),
            // DCH — Delete Characters
            'P' => self.delete_chars(n),
            // SU — Scroll Up
            'S' => {
                if !private {
                    self.scroll_up_by(n);
                }
            },
            // SD — Scroll Down
            'T' => {
                if !private {
                    self.scroll_down_by(n);
                }
            },
            // ICH — Insert Characters
            '@' => self.insert_chars(n),
            // SGR — Select Graphic Rendition
            'm' => self.apply_sgr(params),
            // DECSTBM — Set Scrolling Region
            'r' => {
                if !private {
                    self.set_region(first, second);
                }
            },
            // ECH — Erase Characters
            'X' => {
                self.erase_in_cursor_row(col, col.saturating_add(n));
                proof {
                    let s = old(self)@;
                    assert(row_erased(s.cursor_line(), s.cursor_col, s.cursor_col + n)
                        =~= self@.cursor_line());
                }
            },
            // Cursor save/restore (CSI s / CSI u)
            's' => {
                if !private {
                    self.saved_cursor = (row, col);
                }
            },
            'u' => {
                if !private {
                    self.move_to(self.saved_cursor.0, self.saved_cursor.1);
                }
            },
            // Private modes and the rest — ignore
            _ => {},
        }
    }

    /// Runs one escape sequence.
    pub fn esc_dispatch(&mut self, intermediates: &Vec<u8>, byte: u8)
        requires
            old(self)@.wf(),
        ensures
            final(self)@ == old(self)@.esc(intermediates@, byte),
            final(self)@.wf(),
    {
        if intermediates.len() > 0 {
            return ;
        }
        match byte {
            // IND — Index (move cursor down, scroll if at bottom of scroll region)
            0x44 => self.linefeed(),
            // RI — Reverse Index
            0x4d => self.reverse_index(),
            // DECSC — Save Cursor
            0x37 => {
                self.saved_cursor = (self.cursor_row, self.cursor_col);
            },
            // DECRC — Restore Cursor
            0x38 => self.move_to(self.saved_cursor.0, self.saved_cursor.1),
            _ => {},
        }
    }

    // -- Showing -------------------------------------------------------------

    /// The live screen as styled lines.
    pub fn to_ratatui_lines(&self) -> (lines: Vec<Line>)
        requires
            self@.wf(),
        ensures
            lines@.len() == self@.rows,
            forall|i: int|
                0 <= i < lines@.len() ==> (#[trigger] lines@[i])@ == row_runs(self@.grid[i]),
    {
        let lines = self.to_ratatui_lines_scrolled(0);
        assert(self@.visible_rows(0) =~= self@.grid);
        lines
    }

    /// Render lines from the combined scrollback + grid at the given offset.
    /// `offset` is measured in lines from the bottom (0 = live screen).
    pub fn to_ratatui_lines_scrolled(&self, offset: usize) -> (lines: Vec<Line>)
        requires
            self@.wf(),
        ensures
            lines@.len() == self@.visible_rows(offset as int).len(),
            forall|i: int|
                0 <= i < lines@.len() ==> (#[trigger] lines@[i])@ == row_runs(
                    self@.visible_rows(offset as int)[i],
                ),
    {
        let (start, end) = self.window(offset);
        let mut lines: Vec<Line> = Vec::new();
        let mut i: u128 = start;
        while i < end
            invariant
                self@.wf(),
                start <= i <= end,
                end <= self@.history().len(),
                self@.visible_rows(offset as int) == self@.history().subrange(
                    start as int,
                    end as int,
                ),
                lines@.len() == i - start,
                forall|k: int|
                    0 <= k < lines@.len() ==> (#[trigger] lines@[k])@ == row_runs(
                        self@.visible_rows(offset as int)[k],
                    ),
            decreases end - i,
        {
            let line = Self::row_to_line(self.history_row(i));
            lines.push(line);
            i += 1;
        }
        lines
    }

    /// Render lines from the combined scrollback + grid at the given offset,
    /// returning each line as a string with embedded ANSI SGR escape codes.
    /// Used by the attached terminal which renders via direct stdout writes.
    pub fn to_ansi_lines_scrolled(&self, offset: usize) -> (lines: Vec<String>)
        requires
            self@.wf(),
        ensures
            lines@.len() == self@.visible_rows(offset as int).len(),
            forall|i: int|
                0 <= i < lines@.len() ==> (#[trigger] lines@[i])@ == ansi_row(
                    self@.visible_rows(offset as int)[i],
                ),
    {
        let (start, end) = self.window(offset);
        let mut lines: Vec<String> = Vec::new();
        let mut i: u128 = start;
        while i < end
            invariant
                self@.wf(),
                start <= i <= end,
                end <= self@.history().len(),
                self@.visible_rows(offset as int) == self@.history().subrange(
                    start as int,
                    end as int,
                ),
                lines@.len() == i - start,
                forall|k: int|
                    0 <= k < lines@.len() ==> (#[trigger] lines@[k])@ == ansi_row(
                        self@.visible_rows(offset as int)[k],
                    ),
            decreases end - i,
        {
            let line = Self::row_to_ansi_string(self.history_row(i));
            lines.push(line);
            i += 1;
        }
        lines
    }

    /// The rows of the history that are in view at `offset`.
    fn window(&self, offset: usize) -> (w: (u128, u128))
        requires
            self@.wf(),
        ensures
            w.0 <= w.1 <= self@.history().len(),
            self@.visible_rows(offset as int) == self@.history().subrange(w.0 as int, w.1 as int),
    {
        let total: u128 = self.scrollback.len() as u128 + self.grid.len() as u128;
        let end: u128 = if total > offset as u128 {
            total - offset as u128
        } else {
            0
        };
        let start: u128 = if end > self.rows as u128 {
            end - self.rows as u128
        } else {
            0
        };
        (start, end)
    }

    /// Row `i` of the history.
    fn history_row(&self, i: u128) -> (row: &Vec<Cell>)
        requires
            self@.wf(),
            i < self@.history().len(),
        ensures
            row@ == self@.history()[i as int],
    {
        let old_rows = self.scrollback.len() as u128;
        if i < old_rows {
            &self.scrollback[i as usize]
        } else {
            &self.grid[(i - old_rows) as usize]
        }
    }

    fn row_to_line(row: &Vec<Cell>) -> (line: Line)
        ensures
            line@ == row_runs(row@),
    {
        let mut spans: Vec<Span> = Vec::new();
        if row.len() == 0 {
            let line = Line { spans };
            assert(line@ =~= row_runs(row@));
            return line;
        }
        let mut text = String::new();
        let mut cur_style = row[0].style;
        let mut i: usize = 0;
        assert(style::spans_view(spans@) =~= row_runs(row@.take(0)));
        while i < row.len()
            invariant
                i <= row@.len(),
                i > 0 ==> text@.len() > 0,
                i == 0 ==> text@.len() == 0 && spans@.len() == 0,
                i == 0 && row@.len() > 0 ==> cur_style == row@[0].style,
                row_runs(row@.take(i as int)) == (if i == 0 {
                    style::spans_view(spans@)
                } else {
                    style::spans_view(spans@).push(style::SpanView { content: text@, style: cur_style })
                }),
            decreases row@.len() - i,
        {
            let cell = row[i];
            let ghost runs = row_runs(row@.take(i as int));
            let ghost text_before = text@;
            let ghost style_before = cur_style;
            let ghost spans_before = style::spans_view(spans@);
            assert(row@.take(i + 1).drop_last() =~= row@.take(i as int));
            if cell.style != cur_style {
                if !text.as_str().is_empty() {
                    let span = Span::new(text, cur_style);
                    spans.push(span);
                    assert(style::spans_view(spans@) =~= spans_before.push(
                        style::SpanView { content: text_before, style: style_before },
                    ));
                }
                text = String::new();
                cur_style = cell.style;
            }
            text.push(cell.ch);
            i += 1;
            proof {
                let now = style::spans_view(spans@).push(style::SpanView { content: text@, style: cur_style });
                assert(row@.take(i as int).last() == cell);
                if cell.style == style_before && i > 1 {
                    assert(runs.drop_last() =~= spans_before);
                    assert(text@ == text_before.push(cell.ch));
                } else {
                    assert(text@ =~= seq![cell.ch]);
                }
                assert(row_runs(row@.take(i as int)) =~= now);
            }
        }
        assert(row@.take(i as int) =~= row@);
        let ghost spans_before = style::spans_view(spans@);
        let ghost text_before = text@;
        let span = Span::new(text, cur_style);
        spans.push(span);
        assert(style::spans_view(spans@) =~= spans_before.push(
            style::SpanView { content: text_before, style: cur_style },
        ));
        Line { spans }
    }

    fn row_to_ansi_string(row: &Vec<Cell>) -> (out: String)
        ensures
            out@ == ansi_row(row@),
    {
        let mut out = String::new();
        let mut cur_style = Style::new();
        let mut i: usize = 0;
        assert(ansi_cells(row@.take(0)) =~= out@);
        while i < row.len()
            invariant
                i <= row@.len(),
                cur_style == style_after(row@.take(i as int)),
                out@ == ansi_cells(row@.take(i as int)),
            decreases row@.len() - i,
        {
            let cell = row[i];
            let ghost before = out@;
            assert(row@.take(i + 1).drop_last() =~= row@.take(i as int));
            if cell.style != cur_style {
                out.push_str("\x1b[0");
                Self::push_style_sgr(&mut out, &cell.style);
                out.push('m');
                assert(out@ =~= before + ("\x1b[0"@ + style_sgr(cell.style) + seq!['m']));
                cur_style = cell.style;
            } else {
                assert(out@ =~= before + Seq::<char>::empty());
            }
            out.push(cell.ch);
            i += 1;
        }
        assert(row@.take(i as int) =~= row@);
        let ghost before = out@;
        if cur_style != Style::new() {
            out.push_str("\x1b[0m");
        } else {
            assert(out@ =~= before + Seq::<char>::empty());
        }
        out
    }

    fn push_style_sgr(out: &mut String, style: &Style)
        ensures
            final(out)@ == old(out)@ + style_sgr(*style),
    {
        let ghost start = out@;
        let ghost mut done = Seq::<char>::empty();
        if let Some(fg) = style.fg {
            Self::push_color_sgr(out, fg, true);
            proof {
                done = color_sgr(fg, true);
            }
        }
        let ghost fg_part = done;
        assert(out@ =~= start + done);
        if let Some(bg) = style.bg {
            Self::push_color_sgr(out, bg, false);
            proof {
                done = done + color_sgr(bg, false);
            }
        }
        assert(done =~= fg_part + match style.bg {
            Some(c) => color_sgr(c, false),
            None => Seq::<char>::empty(),
        });
        assert(out@ =~= start + done);
        let m = style.add_modifier;
        Self::push_when(out, m.bold, ";1", Ghost(start), Ghost(done));
        let ghost done = done + when(m.bold, ";1"@);
        Self::push_when(out, m.dim, ";2", Ghost(start), Ghost(done));
        let ghost done = done + when(m.dim, ";2"@);
        Self::push_when(out, m.italic, ";3", Ghost(start), Ghost(done));
        let ghost done = done + when(m.italic, ";3"@);
        Self::push_when(out, m.underlined, ";4", Ghost(start), Ghost(done));
        let ghost done = done + when(m.underlined, ";4"@);
        Self::push_when(out, m.reversed, ";7", Ghost(start), Ghost(done));
        let ghost done = done + when(m.reversed, ";7"@);
        Self::push_when(out, m.hidden, ";8", Ghost(start), Ghost(done));
        let ghost done = done + when(m.hidden, ";8"@);
        Self::push_when(out, m.crossed_out, ";9", Ghost(start), Ghost(done));
    }

    /// Appends `text` if `cond` holds; `done` is what has been appended to `start` before.
    fn push_when(
        out: &mut String,
        cond: bool,
        text: &str,
        Ghost(start): Ghost<Seq<char>>,
        Ghost(done): Ghost<Seq<char>>,
    )
        requires
            old(out)@ == start + done,
        ensures
            final(out)@ == start + (done + when(cond, text@)),
    {
        if cond {
            out.push_str(text);
        }
        assert(out@ =~= start + (done + when(cond, text@)));
    }

    fn color_code(color: Color) -> (n: usize)
        ensures
            n == color_number(color),
    {
        match color {
            Color::Black => 0,
            Color::Red => 1,
            Color::Green => 2,
            Color::Yellow => 3,
            Color::Blue => 4,
            Color::Magenta => 5,
            Color::Cyan => 6,
            Color::White => 7,
            Color::Indexed(_) => 8,
            Color::Rgb(_, _, _) => 8,
            Color::Reset => 9,
            Color::DarkGray => 60,
            Color::LightRed => 61,
            Color::LightGreen => 62,
            Color::LightYellow => 63,
            Color::LightBlue => 64,
            Color::LightMagenta => 65,
            Color::LightCyan => 66,
            Color::Gray => 67,
        }
    }

    fn push_color_sgr(out: &mut String, color: Color, fg: bool)
        ensures
            final(out)@ == old(out)@ + color_sgr(color, fg),
    {
        let ghost before = out@;
        let base: usize = if fg {
            30
        } else {
            40
        };
        out.push(';');
        push_decimal(out, base + Self::color_code(color));
        match color {
            Color::Indexed(n) => {
                out.push_str(";5;");
                push_decimal(out, n as usize);
            },
            Color::Rgb(r, g, b) => {
                out.push_str(";2;");
                push_decimal(out, r as usize);
                out.push(';');
                push_decimal(out, g as usize);
                out.push(';');
                push_decimal(out, b as usize);
            },
            _ => {},
        }
        assert(out@ =~= before + color_sgr(color, fg));
    }
}

// ── Laws ───────────────────────────────────────────────────────────

/// Showing a row keeps its text: the runs of a row, one after the other, spell its characters.
pub proof fn row_runs_keep_the_text(row: Seq<Cell>)
    ensures
        style::line_text(row_runs(row)) == row.map_values(|c: Cell| c.ch),
    decreases row.len(),
{
    let chars = row.map_values(|c: Cell| c.ch);
    if row.len() == 0 {
        assert(chars =~= Seq::<char>::empty());
    } else {
        let front = row.drop_last();
        let runs = row_runs(front);
        let cell = row.last();
        row_runs_keep_the_text(front);
        assert(chars =~= front.map_values(|c: Cell| c.ch).push(cell.ch));
        let all = row_runs(row);
        if runs.len() > 0 && runs.last().style == cell.style {
            assert(all.drop_last() =~= runs.drop_last());
            assert(style::line_text(all) =~= style::line_text(runs).push(cell.ch));
        } else {
            assert(all.drop_last() =~= runs);
            assert(style::line_text(all) =~= style::line_text(runs).push(cell.ch));
        }
    }
}

/// The runs of a row are as long as can be: two neighbours never share a style, and no run is
/// empty.
pub proof fn row_runs_are_maximal(row: Seq<Cell>)
    ensures
        forall|i: int|
            0 <= i < row_runs(row).len() ==> (#[trigger] row_runs(row)[i]).content.len() > 0,
        forall|i: int, j: int|
            0 <= i && j == i + 1 && j < row_runs(row).len() ==> (#[trigger] row_runs(row)[i]).style
                != (#[trigger] row_runs(row)[j]).style,
        row.len() > 0 ==> row_runs(row).len() > 0 && row_runs(row).last().style
            == row.last().style,
    decreases row.len(),
{
    if row.len() > 0 {
        row_runs_are_maximal(row.drop_last());
    }
}

/// Without an offset the live screen is shown.
pub proof fn unscrolled_view_is_the_screen(screen: ScreenView)
    requires
        screen.wf(),
    ensures
        screen.visible_rows(0) == screen.grid,
{
    assert(screen.visible_rows(0) =~= screen.grid);
}

/// A saved cursor comes back from wherever it went.
pub proof fn restored_cursor_is_the_saved_one(screen: ScreenView, row: int, col: int)
    requires
        screen.wf(),
    ensures
        screen.cursor_saved().moved_to(row, col).cursor_restored() == screen.cursor_saved(),
{
}

/// Resizing to the size that was just set changes nothing.
pub proof fn resizing_again_changes_nothing(screen: ScreenView, cols: int, rows: int)
    ensures
        screen.resized(cols, rows).resized(cols, rows) == screen.resized(cols, rows),
        screen.resized_afresh(cols, rows).resized_afresh(cols, rows) == screen.resized_afresh(
            cols,
            rows,
        ),
{
}

/// A scrollback never grows beyond its capacity, and what it keeps is the newest.
pub proof fn scrollback_keeps_the_newest(rows: Seq<Seq<Cell>>, capacity: int)
    requires
        capacity >= 0,
    ensures
        trimmed(rows, capacity).len() == min(rows.len() as int, capacity),
        trimmed(rows, capacity) == rows.skip(rows.len() - trimmed(rows, capacity).len()),
{
    assert(rows.skip(0) =~= rows);
}

} // verus!
