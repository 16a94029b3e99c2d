//! What control sequences and control characters do to a screen, cell by cell.

use vstd::prelude::*;

use crate::keys;
use crate::screen;
use crate::style;
use crate::text;
use crate::keys::{KeyCode, KeyEvent, KeyModifiers};
use crate::screen::{Cell, ScreenView};
use crate::style::{Color, Style};

verus! {

/// One number as the parameters of a control sequence.
pub open spec fn one_number(n: u16) -> Seq<Seq<u16>> {
    seq![seq![n]]
}

/// Two numbers as the parameters of a control sequence.
pub open spec fn two_numbers(a: u16, b: u16) -> Seq<Seq<u16>> {
    seq![seq![a], seq![b]]
}

/// Whether two screens differ in where the cursor is at most, and no wrap is left waiting.
pub open spec fn only_moved(s: ScreenView, t: ScreenView) -> bool {
    &&& t.grid == s.grid
    &&& t.cols == s.cols
    &&& t.rows == s.rows
    &&& t.saved_cursor == s.saved_cursor
    &&& t.current_style == s.current_style
    &&& t.scroll_top == s.scroll_top
    &&& t.scroll_bottom == s.scroll_bottom
    &&& t.scrollback == s.scrollback
    &&& t.capacity == s.capacity
    &&& !t.wrap_pending
}

/// Whether two screens differ in their cells at most.
pub open spec fn only_redrawn(s: ScreenView, t: ScreenView) -> bool {
    &&& t.grid.len() == s.grid.len()
    &&& t.cols == s.cols
    &&& t.rows == s.rows
    &&& t.cursor_row == s.cursor_row
    &&& t.cursor_col == s.cursor_col
    &&& t.wrap_pending == s.wrap_pending
    &&& t.saved_cursor == s.saved_cursor
    &&& t.current_style == s.current_style
    &&& t.scroll_top == s.scroll_top
    &&& t.scroll_bottom == s.scroll_bottom
    &&& t.capacity == s.capacity
}

// ── The cursor ─────────────────────────────────────────────────────

/// `CSI n A` moves the cursor up by `n` rows, or to the top where there are fewer; nothing else
/// changes.
pub proof fn cursor_goes_up(s: ScreenView, n: u16, extra: Seq<u8>)
    requires
        s.wf(),
        n >= 1,
    ensures
        ({
            let t = s.csi(one_number(n), extra, 'A');
            &&& only_moved(s, t)
            &&& t.cursor_col == s.cursor_col
            &&& t.cursor_row <= s.cursor_row
            &&& s.cursor_row >= n ==> s.cursor_row - t.cursor_row == n
            &&& s.cursor_row < n ==> t.cursor_row == 0
        }),
{
}

/// `CSI n B` moves the cursor down by `n` rows, or to the bottom where there are fewer; nothing
/// else changes.
pub proof fn cursor_goes_down(s: ScreenView, n: u16, extra: Seq<u8>)
    requires
        s.wf(),
        n >= 1,
    ensures
        ({
            let t = s.csi(one_number(n), extra, 'B');
            &&& only_moved(s, t)
            &&& t.cursor_col == s.cursor_col
            &&& t.cursor_row >= s.cursor_row
            &&& s.cursor_row + n < s.rows ==> t.cursor_row - s.cursor_row == n
            &&& s.cursor_row + n >= s.rows ==> t.cursor_row == s.rows - 1
        }),
{
}

/// `CSI n C` moves the cursor right by `n` columns, or to the margin where there are fewer;
/// nothing else changes.
pub proof fn cursor_goes_right(s: ScreenView, n: u16, extra: Seq<u8>)
    requires
        s.wf(),
        n >= 1,
    ensures
        ({
            let t = s.csi(one_number(n), extra, 'C');
            &&& only_moved(s, t)
            &&& t.cursor_row == s.cursor_row
            &&& t.cursor_col >= s.cursor_col
            &&& s.cursor_col + n < s.cols ==> t.cursor_col - s.cursor_col == n
            &&& s.cursor_col + n >= s.cols ==> t.cursor_col == s.cols - 1
        }),
{
}

/// `CSI n D` moves the cursor left by `n` columns, or to the first where there are fewer;
/// nothing else changes.
pub proof fn cursor_goes_left(s: ScreenView, n: u16, extra: Seq<u8>)
    requires
        s.wf(),
        n >= 1,
    ensures
        ({
            let t = s.csi(one_number(n), extra, 'D');
            &&& only_moved(s, t)
            &&& t.cursor_row == s.cursor_row
            &&& t.cursor_col <= s.cursor_col
            &&& s.cursor_col >= n ==> s.cursor_col - t.cursor_col == n
            &&& s.cursor_col < n ==> t.cursor_col == 0
        }),
{
}

/// Up and down undo each other, and so do left and right, where no edge is in the way.
pub proof fn opposite_moves_cancel(s: ScreenView, n: u16, extra: Seq<u8>)
    requires
        s.wf(),
        n >= 1,
    ensures
        s.cursor_row >= n ==> {
            let t = s.csi(one_number(n), extra, 'A').csi(one_number(n), extra, 'B');
            t.cursor_row == s.cursor_row && t.cursor_col == s.cursor_col
        },
        s.cursor_row + n < s.rows ==> {
            let t = s.csi(one_number(n), extra, 'B').csi(one_number(n), extra, 'A');
            t.cursor_row == s.cursor_row && t.cursor_col == s.cursor_col
        },
        s.cursor_col >= n ==> {
            let t = s.csi(one_number(n), extra, 'D').csi(one_number(n), extra, 'C');
            t.cursor_row == s.cursor_row && t.cursor_col == s.cursor_col
        },
        s.cursor_col + n < s.cols ==> {
            let t = s.csi(one_number(n), extra, 'C').csi(one_number(n), extra, 'D');
            t.cursor_row == s.cursor_row && t.cursor_col == s.cursor_col
        },
{
}

/// `CSI n E` and `CSI n F` go to the first column `n` rows down and up, as far as there are rows.
pub proof fn lines_are_stepped_over(s: ScreenView, n: u16, extra: Seq<u8>)
    requires
        s.wf(),
        n >= 1,
    ensures
        ({
            let t = s.csi(one_number(n), extra, 'E');
            &&& only_moved(s, t)
            &&& t.cursor_col == 0
            &&& s.cursor_row + n < s.rows ==> t.cursor_row - s.cursor_row == n
            &&& s.cursor_row + n >= s.rows ==> t.cursor_row == s.rows - 1
        }),
        ({
            let t = s.csi(one_number(n), extra, 'F');
            &&& only_moved(s, t)
            &&& t.cursor_col == 0
            &&& s.cursor_row >= n ==> s.cursor_row - t.cursor_row == n
            &&& s.cursor_row < n ==> t.cursor_row == 0
        }),
{
}

/// `CSI r ; c H`, and the same with `f`, puts the cursor on row `r` and column `c`, counted from
/// one; `CSI c G` puts it on column `c` of its row. What lies outside ends at the edge.
pub proof fn cursor_is_put_in_place(s: ScreenView, r: u16, c: u16, extra: Seq<u8>)
    requires
        s.wf(),
        r >= 1,
        c >= 1,
    ensures
        ({
            let t = s.csi(two_numbers(r, c), extra, 'H');
            &&& only_moved(s, t)
            &&& r <= s.rows ==> t.cursor_row + 1 == r
            &&& r > s.rows ==> t.cursor_row + 1 == s.rows
            &&& c <= s.cols ==> t.cursor_col + 1 == c
            &&& c > s.cols ==> t.cursor_col + 1 == s.cols
        }),
        s.csi(two_numbers(r, c), extra, 'f') == s.csi(two_numbers(r, c), extra, 'H'),
        ({
            let t = s.csi(one_number(c), extra, 'G');
            &&& only_moved(s, t)
            &&& t.cursor_row == s.cursor_row
            &&& c <= s.cols ==> t.cursor_col + 1 == c
            &&& c > s.cols ==> t.cursor_col + 1 == s.cols
        }),
{
}

/// The final characters of the sequences whose first parameter is a count or a place.
pub open spec fn counts(action: char) -> bool {
    ||| 'A' <= action <= 'H'
    ||| action == 'f' || action == 'L' || action == 'M' || action == 'P' || action == '@'
    ||| action == 'S' || action == 'T' || action == 'X'
}

/// A count or a place that is missing, or zero, is one.
pub proof fn missing_counts_are_one(s: ScreenView, extra: Seq<u8>, action: char)
    requires
        counts(action),
    ensures
        s.csi(Seq::empty(), extra, action) == s.csi(one_number(1), extra, action),
        s.csi(one_number(0), extra, action) == s.csi(one_number(1), extra, action),
        s.csi(two_numbers(0, 0), extra, action) == s.csi(two_numbers(1, 1), extra, action),
        s.csi(one_number(1), extra, action) == s.csi(two_numbers(1, 1), extra, action),
{
}

/// Between saving the cursor and restoring it, by either pair of sequences, it may go anywhere on
/// the screen.
pub proof fn saved_cursor_is_where_it_was(s: ScreenView, r: u16, c: u16)
    requires
        s.wf(),
        r >= 1,
        c >= 1,
    ensures
        ({
            let away = s.csi(Seq::empty(), Seq::empty(), 's').csi(
                two_numbers(r, c),
                Seq::empty(),
                'H',
            );
            let t = away.csi(Seq::empty(), Seq::empty(), 'u');
            &&& (t.cursor_row, t.cursor_col) == (s.cursor_row, s.cursor_col)
            &&& t.grid == s.grid
        }),
        ({
            let away = s.esc(Seq::empty(), 0x37).csi(two_numbers(r, c), Seq::empty(), 'H');
            let t = away.esc(Seq::empty(), 0x38);
            &&& (t.cursor_row, t.cursor_col) == (s.cursor_row, s.cursor_col)
            &&& t.grid == s.grid
        }),
{
}

// ── Erasing ────────────────────────────────────────────────────────

/// Whether a cell lies before the cursor, in reading order.
pub open spec fn before_cursor(s: ScreenView, row: int, col: int) -> bool {
    row < s.cursor_row || row == s.cursor_row && col < s.cursor_col
}

/// Whether a cell is the one that the cursor is on.
pub open spec fn under_cursor(s: ScreenView, row: int, col: int) -> bool {
    row == s.cursor_row && col == s.cursor_col
}

/// `CSI 0 K`, `1 K` and `2 K` blank the cells of the cursor's row from the cursor on, up to and
/// with it, and all of them. No other cell changes, and neither does the scrollback.
pub proof fn lines_are_erased(s: ScreenView, mode: u16, extra: Seq<u8>, row: int, col: int)
    requires
        s.wf(),
        mode <= 2,
        0 <= row < s.rows,
        0 <= col < s.cols,
    ensures
        ({
            let t = s.csi(one_number(mode), extra, 'K');
            let gone = row == s.cursor_row && (mode == 0 && col >= s.cursor_col || mode == 1
                && col <= s.cursor_col || mode == 2);
            &&& only_redrawn(s, t)
            &&& t.scrollback == s.scrollback
            &&& gone ==> t.grid[row][col] == (Cell { ch: ' ', style: style::plain_style() })
            &&& !gone ==> t.grid[row][col] == s.grid[row][col]
        }),
{
}

/// `CSI 0 J`, `1 J` and `2 J` blank all cells from the cursor on, up to and with it, and all cells
/// of the screen; `3 J` does as `2 J`. No other cell changes, and the cursor stays.
pub proof fn screens_are_erased(s: ScreenView, mode: u16, extra: Seq<u8>, row: int, col: int)
    requires
        s.wf(),
        mode <= 3,
        0 <= row < s.rows,
        0 <= col < s.cols,
    ensures
        ({
            let t = s.csi(one_number(mode), extra, 'J');
            let gone = mode == 0 && !before_cursor(s, row, col) || mode == 1 && (before_cursor(
                s,
                row,
                col,
            ) || under_cursor(s, row, col)) || mode >= 2;
            &&& only_redrawn(s, t)
            &&& gone ==> t.grid[row][col] == (Cell { ch: ' ', style: style::plain_style() })
            &&& !gone ==> t.grid[row][col] == s.grid[row][col]
        }),
{
}

/// What is erased from a whole screen is not lost: the rows in use, and no others, are appended
/// to the scrollback where it has room for them.
pub proof fn erased_screens_are_kept(s: ScreenView, mode: u16, extra: Seq<u8>)
    requires
        s.wf(),
        mode == 2 || mode == 3 || mode == 0 && s.cursor_row == 0 && s.cursor_col == 0,
        s.scrollback.len() + s.rows <= s.capacity,
    ensures
        ({
            let t = s.csi(one_number(mode), extra, 'J');
            let kept = t.scrollback.len() - s.scrollback.len();
            &&& 0 <= kept <= s.rows
            &&& t.scrollback.take(s.scrollback.len() as int) == s.scrollback
            &&& t.scrollback.skip(s.scrollback.len() as int) == s.grid.take(kept)
            &&& kept > 0 ==> exists|col: int|
                0 <= col < s.cols && #[trigger] s.grid[kept - 1][col] != (Cell {
                    ch: ' ',
                    style: style::plain_style(),
                })
            &&& forall|row: int, col: int|
                kept <= row < s.rows && 0 <= col < s.cols ==> #[trigger] s.grid[row][col] == (Cell {
                    ch: ' ',
                    style: style::plain_style(),
                })
        }),
{
    let t = s.csi(one_number(mode), extra, 'J');
    lemma_used_rows(s.grid);
    let kept = screen::used_rows(s.grid);
    assert(t.scrollback =~= s.scrollback + s.grid.take(kept));
    assert(t.scrollback.take(s.scrollback.len() as int) =~= s.scrollback);
    assert(t.scrollback.skip(s.scrollback.len() as int) =~= s.grid.take(kept));
    if kept > 0 {
        let row = s.grid[kept - 1];
        assert(row.len() == s.cols);
        let col = choose|col: int| 0 <= col < row.len() && #[trigger] row[col] != screen::blank_cell();
        assert(s.grid[kept - 1][col] != screen::blank_cell());
    }
    assert forall|row: int, col: int| kept <= row < s.rows && 0 <= col < s.cols implies #[trigger] s.grid[row][col]
        == screen::blank_cell() by {
        assert(screen::row_is_blank(s.grid[row]));
        assert(s.grid[row].len() == s.cols);
    }
}

proof fn lemma_used_rows(grid: Seq<Seq<Cell>>)
    ensures
        0 <= screen::used_rows(grid) <= grid.len(),
        screen::used_rows(grid) > 0 ==> !screen::row_is_blank(grid[screen::used_rows(grid) - 1]),
        forall|row: int|
            screen::used_rows(grid) <= row < grid.len() ==> screen::row_is_blank(#[trigger] grid[row]),
    decreases grid.len(),
{
    if grid.len() > 0 && screen::row_is_blank(grid.last()) {
        lemma_used_rows(grid.drop_last());
        assert forall|row: int| screen::used_rows(grid) <= row < grid.len() implies screen::row_is_blank(
            #[trigger] grid[row],
        ) by {
            if row < grid.len() - 1 {
                assert(grid.drop_last()[row] == grid[row]);
            }
        }
    }
}

/// `CSI n X` blanks `n` cells from the cursor on, as far as the row goes, and moves none.
pub proof fn cells_are_erased(s: ScreenView, n: u16, extra: Seq<u8>, row: int, col: int)
    requires
        s.wf(),
        n >= 1,
        0 <= row < s.rows,
        0 <= col < s.cols,
    ensures
        ({
            let t = s.csi(one_number(n), extra, 'X');
            let gone = row == s.cursor_row && s.cursor_col <= col < s.cursor_col + n;
            &&& only_redrawn(s, t)
            &&& t.scrollback == s.scrollback
            &&& gone ==> t.grid[row][col] == (Cell { ch: ' ', style: style::plain_style() })
            &&& !gone ==> t.grid[row][col] == s.grid[row][col]
        }),
{
}

// ── Inserting and deleting ─────────────────────────────────────────

/// `CSI n P` takes `n` cells out at the cursor: what stood behind them moves left, and blank cells
/// follow at the margin. Cells before the cursor and other rows stay.
pub proof fn cells_are_deleted(s: ScreenView, n: u16, extra: Seq<u8>, row: int, col: int)
    requires
        s.wf(),
        n >= 1,
        0 <= row < s.rows,
        0 <= col < s.cols,
    ensures
        ({
            let t = s.csi(one_number(n), extra, 'P');
            &&& only_redrawn(s, t)
            &&& t.scrollback == s.scrollback
            &&& t.grid[row].len() == s.cols
            &&& t.grid[row][col] == (if row != s.cursor_row || col < s.cursor_col {
                s.grid[row][col]
            } else if col + n < s.cols {
                s.grid[row][col + n]
            } else {
                Cell { ch: ' ', style: style::plain_style() }
            })
        }),
{
    assert(s.grid[s.cursor_row].len() == s.cols);
}

/// `CSI n @` puts `n` blank cells in at the cursor: what stood there moves right, and out at the
/// margin. Cells before the cursor and other rows stay.
pub proof fn cells_are_inserted(s: ScreenView, n: u16, extra: Seq<u8>, row: int, col: int)
    requires
        s.wf(),
        n >= 1,
        0 <= row < s.rows,
        0 <= col < s.cols,
    ensures
        ({
            let t = s.csi(one_number(n), extra, '@');
            &&& only_redrawn(s, t)
            &&& t.scrollback == s.scrollback
            &&& t.grid[row].len() == s.cols
            &&& t.grid[row][col] == (if row != s.cursor_row || col < s.cursor_col {
                s.grid[row][col]
            } else if col < s.cursor_col + n {
                Cell { ch: ' ', style: style::plain_style() }
            } else {
                s.grid[row][col - n]
            })
        }),
{
    assert(s.grid[s.cursor_row].len() == s.cols);
}

/// `CSI n M` takes `n` rows out at the cursor: the rows below, down to the end of the scroll
/// region, move up, and blank rows follow. Outside of the region it does nothing.
pub proof fn rows_are_deleted(s: ScreenView, n: u16, extra: Seq<u8>, row: int, col: int)
    requires
        s.wf(),
        n >= 1,
        0 <= row < s.rows,
        0 <= col < s.cols,
    ensures
        ({
            let t = s.csi(one_number(n), extra, 'M');
            let inside = s.scroll_top <= s.cursor_row <= s.scroll_bottom;
            &&& only_redrawn(s, t)
            &&& t.scrollback == s.scrollback
            &&& t.grid[row].len() == s.cols
            &&& t.grid[row][col] == (if !inside || row < s.cursor_row || row > s.scroll_bottom {
                s.grid[row][col]
            } else if row + n <= s.scroll_bottom {
                s.grid[row + n][col]
            } else {
                Cell { ch: ' ', style: style::plain_style() }
            })
        }),
{
}

/// `CSI n L` puts `n` blank rows in at the cursor: the rows from there on move down, and out at
/// the end of the scroll region. Outside of the region it does nothing.
pub proof fn rows_are_inserted(s: ScreenView, n: u16, extra: Seq<u8>, row: int, col: int)
    requires
        s.wf(),
        n >= 1,
        0 <= row < s.rows,
        0 <= col < s.cols,
    ensures
        ({
            let t = s.csi(one_number(n), extra, 'L');
            let inside = s.scroll_top <= s.cursor_row <= s.scroll_bottom;
            &&& only_redrawn(s, t)
            &&& t.scrollback == s.scrollback
            &&& t.grid[row].len() == s.cols
            &&& t.grid[row][col] == (if !inside || row < s.cursor_row || row > s.scroll_bottom {
                s.grid[row][col]
            } else if row < s.cursor_row + n {
                Cell { ch: ' ', style: style::plain_style() }
            } else {
                s.grid[row - n][col]
            })
        }),
{
}

// ── Scrolling ──────────────────────────────────────────────────────

/// `CSI n S` moves the rows of the scroll region up by `n`, as far as it goes; blank rows come in
/// at its end. The cursor and the rows outside of the region stay.
pub proof fn screens_scroll_up(s: ScreenView, n: u16, row: int, col: int)
    requires
        s.wf(),
        n >= 1,
        s.scroll_top < s.scroll_bottom,
        0 <= row < s.rows,
        0 <= col < s.cols,
    ensures
        ({
            let t = s.csi(one_number(n), Seq::empty(), 'S');
            &&& only_redrawn(s, t)
            &&& t.grid[row].len() == s.cols
            &&& t.grid[row][col] == (if row < s.scroll_top || row > s.scroll_bottom {
                s.grid[row][col]
            } else if row + n <= s.scroll_bottom {
                s.grid[row + n][col]
            } else {
                Cell { ch: ' ', style: style::plain_style() }
            })
        }),
{
    lemma_scrolled_up(s, n as int);
}

proof fn lemma_scrolled_once(s: ScreenView)
    requires
        s.wf(),
        s.scroll_top < s.scroll_bottom,
    ensures
        s.scrolled_up().wf(),
        only_redrawn(s, s.scrolled_up()),
        forall|row: int|
            0 <= row < s.rows ==> #[trigger] s.scrolled_up().grid[row] == (if row < s.scroll_top
                || row > s.scroll_bottom {
                s.grid[row]
            } else if row < s.scroll_bottom {
                s.grid[row + 1]
            } else {
                screen::blank_row(s.cols)
            }),
{
}

proof fn lemma_scrolled_up(s: ScreenView, n: int)
    requires
        s.wf(),
        n >= 0,
        s.scroll_top < s.scroll_bottom,
    ensures
        s.scrolled_up_by(n).wf(),
        only_redrawn(s, s.scrolled_up_by(n)),
        forall|row: int|
            0 <= row < s.rows ==> #[trigger] s.scrolled_up_by(n).grid[row] == (if row < s.scroll_top
                || row > s.scroll_bottom {
                s.grid[row]
            } else if row + n <= s.scroll_bottom {
                s.grid[row + n]
            } else {
                screen::blank_row(s.cols)
            }),
    decreases n,
{
    if n > 0 {
        lemma_scrolled_up(s, n - 1);
        let p = s.scrolled_up_by(n - 1);
        let t = s.scrolled_up_by(n);
        assert(t == p.scrolled_up());
        lemma_scrolled_once(p);
        assert forall|row: int| 0 <= row < s.rows implies #[trigger] t.grid[row] == (if row
            < s.scroll_top || row > s.scroll_bottom {
            s.grid[row]
        } else if row + n <= s.scroll_bottom {
            s.grid[row + n]
        } else {
            screen::blank_row(s.cols)
        }) by {
            assert(p.scrolled_up().grid[row] == t.grid[row]);
            if s.scroll_top <= row < s.scroll_bottom {
                assert(t.grid[row] == p.grid[row + 1]);
                assert(p.grid[row + 1] == s.scrolled_up_by(n - 1).grid[row + 1]);
            } else {
                assert(p.grid[row] == s.scrolled_up_by(n - 1).grid[row]);
            }
        }
    }
}

/// `CSI n T` moves the rows of the scroll region down by `n`, as far as it goes; blank rows come
/// in at its top. The cursor, the scrollback and the rows outside of the region stay.
pub proof fn screens_scroll_down(s: ScreenView, n: u16, row: int, col: int)
    requires
        s.wf(),
        n >= 1,
        s.scroll_top < s.scroll_bottom,
        0 <= row < s.rows,
        0 <= col < s.cols,
    ensures
        ({
            let t = s.csi(one_number(n), Seq::empty(), 'T');
            &&& only_redrawn(s, t)
            &&& t.scrollback == s.scrollback
            &&& t.grid[row].len() == s.cols
            &&& t.grid[row][col] == (if row < s.scroll_top || row > s.scroll_bottom {
                s.grid[row][col]
            } else if row >= s.scroll_top + n {
                s.grid[row - n][col]
            } else {
                Cell { ch: ' ', style: style::plain_style() }
            })
        }),
{
    lemma_scrolled_down(s, n as int);
}

proof fn lemma_scrolled_down(s: ScreenView, n: int)
    requires
        s.wf(),
        n >= 0,
        s.scroll_top < s.scroll_bottom,
    ensures
        s.scrolled_down_by(n).wf(),
        only_redrawn(s, s.scrolled_down_by(n)),
        s.scrolled_down_by(n).scrollback == s.scrollback,
        forall|row: int|
            0 <= row < s.rows ==> #[trigger] s.scrolled_down_by(n).grid[row] == (if row
                < s.scroll_top || row > s.scroll_bottom {
                s.grid[row]
            } else if row >= s.scroll_top + n {
                s.grid[row - n]
            } else {
                screen::blank_row(s.cols)
            }),
    decreases n,
{
    if n > 0 {
        lemma_scrolled_down(s, n - 1);
    }
}

/// The row that leaves the region at its top is the newest of the scrollback, behind all that was
/// there; the oldest leaves where there is no room.
pub proof fn rows_that_leave_are_kept(s: ScreenView)
    requires
        s.wf(),
        s.capacity >= 1,
        s.scroll_top < s.scroll_bottom,
    ensures
        ({
            let t = s.csi(one_number(1), Seq::empty(), 'S');
            &&& t.scrollback.last() == s.grid[s.scroll_top]
            &&& t.scrollback.len() <= s.capacity
            &&& s.scrollback.len() < s.capacity ==> t.scrollback.drop_last() == s.scrollback
            &&& s.scrollback.len() == s.capacity ==> t.scrollback.drop_last()
                == s.scrollback.skip(1)
        }),
{
    reveal_with_fuel(ScreenView::scrolled_up_by, 2);
    let t = s.csi(one_number(1), Seq::empty(), 'S');
    if s.scrollback.len() < s.capacity {
        assert(t.scrollback.drop_last() =~= s.scrollback);
    } else {
        assert(t.scrollback.drop_last() =~= s.scrollback.skip(1));
    }
}

/// `CSI top ; bottom r` makes these rows, counted from one, the scroll region, and the cursor goes
/// home. Nothing is redrawn. A region that is no two rows of the screen is not set.
pub proof fn regions_are_set(s: ScreenView, top: u16, bottom: u16)
    requires
        s.wf(),
        top >= 1,
        bottom >= 1,
    ensures
        ({
            let t = s.csi(two_numbers(top, bottom), Seq::empty(), 'r');
            &&& t.grid == s.grid && t.scrollback == s.scrollback
            &&& (t.cursor_row, t.cursor_col) == (0int, 0int)
            &&& top < bottom <= s.rows ==> t.scroll_top + 1 == top && t.scroll_bottom + 1 == bottom
            &&& !(top < bottom <= s.rows) ==> t.scroll_top == s.scroll_top && t.scroll_bottom
                == s.scroll_bottom
        }),
        ({
            let t = s.csi(Seq::empty(), Seq::empty(), 'r');
            s.rows >= 2 ==> t.scroll_top == 0 && t.scroll_bottom == s.rows - 1
        }),
{
}

/// Sequences of a private mode neither scroll nor set a region, and neither save nor restore the
/// cursor.
pub proof fn private_modes_are_left_alone(s: ScreenView, params: Seq<Seq<u16>>, action: char)
    requires
        action == 'S' || action == 'T' || action == 'r' || action == 's' || action == 'u' || action
            == 'h' || action == 'l',
    ensures
        ({
            let t = s.csi(params, seq![0x3fu8], action);
            &&& t.grid == s.grid && t.scrollback == s.scrollback
            &&& (t.cursor_row, t.cursor_col) == (s.cursor_row, s.cursor_col)
            &&& (t.scroll_top, t.scroll_bottom) == (s.scroll_top, s.scroll_bottom)
            &&& t.saved_cursor == s.saved_cursor
            &&& t.current_style == s.current_style
        }),
{
}

// ── Characters ─────────────────────────────────────────────────────

/// A character is drawn under the cursor in the current style, and the cursor goes on by one.
/// At the margin it stays until the next character.
pub proof fn characters_are_drawn(s: ScreenView, c: char, row: int, col: int)
    requires
        s.wf(),
        !s.wrap_pending,
        0 <= row < s.rows,
        0 <= col < s.cols,
    ensures
        ({
            let t = s.printed(c);
            &&& t.grid[row][col] == (if row == s.cursor_row && col == s.cursor_col {
                Cell { ch: c, style: s.current_style }
            } else {
                s.grid[row][col]
            })
            &&& t.cursor_row == s.cursor_row
            &&& s.cursor_col + 1 < s.cols ==> t.cursor_col == s.cursor_col + 1 && !t.wrap_pending
            &&& s.cursor_col + 1 == s.cols ==> t.cursor_col == s.cursor_col && t.wrap_pending
            &&& t.current_style == s.current_style
            &&& t.scrollback == s.scrollback
            &&& (t.scroll_top, t.scroll_bottom) == (s.scroll_top, s.scroll_bottom)
            &&& t.saved_cursor == s.saved_cursor
        }),
{
}

/// A character that no longer fits goes to the start of the next row, as if a carriage return and
/// a line feed came before it.
pub proof fn full_rows_wrap(s: ScreenView, c: char)
    requires
        s.wf(),
        s.wrap_pending,
    ensures
        s.printed(c) == s.executed(0x0d).executed(0x0a).printed(c),
{
}

/// A carriage return goes to the first column, a backspace one column back, and nothing is
/// redrawn.
pub proof fn returns_and_backspaces_move_the_cursor(s: ScreenView)
    requires
        s.wf(),
    ensures
        ({
            let t = s.executed(0x0d);
            only_moved(s, t) && t.cursor_row == s.cursor_row && t.cursor_col == 0
        }),
        ({
            let t = s.executed(0x08);
            &&& only_moved(s, t)
            &&& t.cursor_row == s.cursor_row
            &&& s.cursor_col > 0 ==> t.cursor_col == s.cursor_col - 1
            &&& s.cursor_col == 0 ==> t.cursor_col == 0
        }),
{
}

/// A tab goes to the next column that eight divides, or to the margin, and passes no such column
/// over. Nothing is redrawn.
pub proof fn tabs_go_to_the_next_stop(s: ScreenView, stop: int)
    requires
        s.wf(),
        stop > s.cursor_col,
        stop % 8 == 0,
    ensures
        ({
            let t = s.executed(0x09);
            &&& only_moved(s, t)
            &&& t.cursor_row == s.cursor_row
            &&& s.cursor_col <= t.cursor_col <= s.cursor_col + 8
            &&& t.cursor_col < s.cols - 1 ==> t.cursor_col > s.cursor_col && t.cursor_col % 8 == 0
            &&& s.cursor_col < s.cols - 1 ==> t.cursor_col > s.cursor_col
            &&& t.cursor_col <= stop
        }),
{
}

/// A line feed, and `ESC D`, goes down by a row and keeps the column; at the end of the scroll
/// region it scrolls instead.
pub proof fn line_feeds_go_down_or_scroll(s: ScreenView, byte: u8)
    requires
        s.wf(),
        byte == 0x0a || byte == 0x0b || byte == 0x0c,
    ensures
        ({
            let t = s.executed(byte);
            &&& t.cursor_col == s.cursor_col
            &&& s.cursor_row != s.scroll_bottom ==> only_moved(s, t)
            &&& s.cursor_row != s.scroll_bottom && s.cursor_row < s.rows - 1 ==> t.cursor_row
                == s.cursor_row + 1
            &&& s.cursor_row == s.scroll_bottom ==> {
                let up = s.csi(one_number(1), Seq::empty(), 'S');
                t.cursor_row == s.cursor_row && t.grid == up.grid && t.scrollback == up.scrollback
            }
        }),
        ({
            let t = s.esc(Seq::empty(), 0x44);
            let u = s.executed(0x0a);
            t.grid == u.grid && t.scrollback == u.scrollback && t.cursor_row == u.cursor_row
                && t.cursor_col == u.cursor_col
        }),
{
    reveal_with_fuel(ScreenView::scrolled_up_by, 2);
}

/// `ESC M` goes up by a row and keeps the column; at the top of the scroll region it scrolls down
/// instead.
pub proof fn reverse_feeds_go_up_or_scroll(s: ScreenView)
    requires
        s.wf(),
    ensures
        ({
            let t = s.esc(Seq::empty(), 0x4d);
            &&& t.cursor_col == s.cursor_col
            &&& t.scrollback == s.scrollback
            &&& s.cursor_row != s.scroll_top ==> t.grid == s.grid
            &&& s.cursor_row != s.scroll_top && s.cursor_row > 0 ==> t.cursor_row == s.cursor_row
                - 1
            &&& s.cursor_row == s.scroll_top ==> {
                let down = s.csi(one_number(1), Seq::empty(), 'T');
                t.cursor_row == s.cursor_row && t.grid == down.grid
            }
        }),
{
    reveal_with_fuel(ScreenView::scrolled_down_by, 2);
}

// ── Size and view ──────────────────────────────────────────────────

/// A new screen is blank and of the size asked for, at least one cell; the cursor is home, text
/// is plain, all of it scrolls, and nothing has been kept.
pub proof fn new_screens_are_blank(cols: int, rows: int, capacity: int)
    requires
        capacity >= 0,
    ensures
        ({
            let s = ScreenView::fresh(cols, rows, capacity);
            &&& s.wf()
            &&& cols >= 1 ==> s.cols == cols
            &&& rows >= 1 ==> s.rows == rows
            &&& cols < 1 ==> s.cols == 1
            &&& rows < 1 ==> s.rows == 1
            &&& forall|r: int, c: int|
                0 <= r < s.rows && 0 <= c < s.cols ==> (#[trigger] s.grid[r][c]).ch == ' '
                    && s.grid[r][c].style == style::plain_style()
            &&& s.cursor_row == 0 && s.cursor_col == 0 && !s.wrap_pending
            &&& s.current_style == style::plain_style()
            &&& s.scroll_top == 0 && s.scroll_bottom == s.rows - 1
            &&& s.scrollback.len() == 0 && s.capacity == capacity
        }),
{
}

/// A screen that gets another size is as a new one of that size, except that its scrollback and
/// the saved cursor stay; the other way of resizing drops the scrollback too.
pub proof fn resized_screens_start_over(s: ScreenView, cols: int, rows: int)
    requires
        s.wf(),
        cols >= 1,
        rows >= 1,
        cols != s.cols || rows != s.rows,
    ensures
        ({
            let t = s.resized(cols, rows);
            let new = ScreenView::fresh(cols, rows, s.capacity);
            &&& t.cols == cols && t.rows == rows && t.grid == new.grid
            &&& t.cursor_row == 0 && t.cursor_col == 0
            &&& t.scroll_top == 0 && t.scroll_bottom == rows - 1
            &&& t.scrollback == s.scrollback && t.capacity == s.capacity
            &&& t.saved_cursor == s.saved_cursor
        }),
        ({
            let t = s.resized_afresh(cols, rows);
            &&& t.cols == cols && t.rows == rows
            &&& t.grid == s.resized(cols, rows).grid
            &&& t.scrollback.len() == 0
        }),
{
}

/// Scrolling back by `offset` rows shows the rows that stood `offset` above those of the screen,
/// as far as the history goes.
pub proof fn scrolling_back_shows_older_rows(s: ScreenView, offset: int, i: int)
    requires
        s.wf(),
        0 <= offset <= s.scrollback.len(),
        0 <= i < s.rows,
    ensures
        ({
            let v = s.visible_rows(offset);
            &&& v.len() == s.rows
            &&& i >= offset ==> v[i] == s.grid[i - offset]
            &&& i < offset ==> v[i] == s.scrollback[s.scrollback.len() - offset + i]
        }),
{
}

// ── Graphic rendition ──────────────────────────────────────────────

/// `CSI m` changes the style that text is drawn in from now on, and nothing else.
pub proof fn renditions_change_the_style_alone(s: ScreenView, params: Seq<Seq<u16>>, extra: Seq<u8>)
    ensures
        ({
            let t = s.csi(params, extra, 'm');
            &&& only_redrawn(s, ScreenView { current_style: s.current_style, ..t })
            &&& t.grid == s.grid && t.scrollback == s.scrollback
            &&& t.current_style == screen::sgr(s.current_style, params)
        }),
{
}

/// Without a code, and with code zero, text is plain again.
pub proof fn renditions_are_reset(style: Style)
    ensures
        screen::sgr(style, Seq::empty()) == style::plain_style(),
        screen::sgr(style, one_number(0)) == style::plain_style(),
{
    reveal_with_fuel(screen::sgr_all, 3);
}

/// The codes of the text attributes, and those that switch them off again.
pub proof fn attribute_codes(style: Style)
    ensures
        ({
            let none = style::no_modifier();
            &&& screen::sgr(style, one_number(1)) == style.spec_add(
                style::Modifier { bold: true, ..none },
            )
            &&& screen::sgr(style, one_number(2)) == style.spec_add(
                style::Modifier { dim: true, ..none },
            )
            &&& screen::sgr(style, one_number(3)) == style.spec_add(
                style::Modifier { italic: true, ..none },
            )
            &&& screen::sgr(style, one_number(4)) == style.spec_add(
                style::Modifier { underlined: true, ..none },
            )
            &&& screen::sgr(style, one_number(7)) == style.spec_add(
                style::Modifier { reversed: true, ..none },
            )
            &&& screen::sgr(style, one_number(8)) == style.spec_add(
                style::Modifier { hidden: true, ..none },
            )
            &&& screen::sgr(style, one_number(9)) == style.spec_add(
                style::Modifier { crossed_out: true, ..none },
            )
            &&& screen::sgr(style, one_number(22)) == style.spec_remove(
                style::Modifier { bold: true, dim: true, ..none },
            )
            &&& screen::sgr(style, one_number(23)) == style.spec_remove(
                style::Modifier { italic: true, ..none },
            )
            &&& screen::sgr(style, one_number(24)) == style.spec_remove(
                style::Modifier { underlined: true, ..none },
            )
            &&& screen::sgr(style, one_number(27)) == style.spec_remove(
                style::Modifier { reversed: true, ..none },
            )
            &&& screen::sgr(style, one_number(28)) == style.spec_remove(
                style::Modifier { hidden: true, ..none },
            )
            &&& screen::sgr(style, one_number(29)) == style.spec_remove(
                style::Modifier { crossed_out: true, ..none },
            )
        }),
{
    reveal_with_fuel(screen::sgr_all, 3);
}

/// The eight colours of a terminal in the order of their codes.
pub open spec fn eight_colors() -> Seq<Color> {
    seq![
        Color::Black,
        Color::Red,
        Color::Green,
        Color::Yellow,
        Color::Blue,
        Color::Magenta,
        Color::Cyan,
        Color::White,
    ]
}

/// Their bright forms.
pub open spec fn eight_bright_colors() -> Seq<Color> {
    seq![
        Color::DarkGray,
        Color::LightRed,
        Color::LightGreen,
        Color::LightYellow,
        Color::LightBlue,
        Color::LightMagenta,
        Color::LightCyan,
        Color::Gray,
    ]
}

/// The codes of the colours: the thirties colour the text and the forties its ground, the nineties
/// and the hundreds do so brightly, and a nine at the end goes back to the terminal's own.
pub proof fn color_codes(style: Style, i: int)
    requires
        0 <= i < 8,
    ensures
        screen::sgr(style, one_number((30 + i) as u16)) == (Style {
            fg: Some(eight_colors()[i]),
            ..style
        }),
        screen::sgr(style, one_number((40 + i) as u16)) == (Style {
            bg: Some(eight_colors()[i]),
            ..style
        }),
        screen::sgr(style, one_number((90 + i) as u16)) == (Style {
            fg: Some(eight_bright_colors()[i]),
            ..style
        }),
        screen::sgr(style, one_number((100 + i) as u16)) == (Style {
            bg: Some(eight_bright_colors()[i]),
            ..style
        }),
        screen::sgr(style, one_number(39)) == (Style { fg: Some(Color::Reset), ..style }),
        screen::sgr(style, one_number(49)) == (Style { bg: Some(Color::Reset), ..style }),
{
    reveal_with_fuel(screen::sgr_all, 3);
}

/// The colours beyond the sixteen: by their number in the palette, or by their parts, for the text
/// and for its ground, written in one parameter or in several.
pub proof fn extended_colors(style: Style, n: u8, r: u8, g: u8, b: u8)
    ensures
        screen::sgr(style, seq![seq![38u16], seq![5u16], seq![n as u16]]) == (Style {
            fg: Some(Color::Indexed(n)),
            ..style
        }),
        screen::sgr(style, seq![seq![48u16], seq![5u16], seq![n as u16]]) == (Style {
            bg: Some(Color::Indexed(n)),
            ..style
        }),
        screen::sgr(
            style,
            seq![seq![38u16], seq![2u16], seq![r as u16], seq![g as u16], seq![b as u16]],
        ) == (Style { fg: Some(Color::Rgb(r, g, b)), ..style }),
        screen::sgr(
            style,
            seq![seq![48u16], seq![2u16], seq![r as u16], seq![g as u16], seq![b as u16]],
        ) == (Style { bg: Some(Color::Rgb(r, g, b)), ..style }),
        screen::sgr(style, seq![seq![38u16, 5u16, n as u16]]) == (Style {
            fg: Some(Color::Indexed(n)),
            ..style
        }),
        screen::sgr(style, seq![seq![48u16, 5u16, n as u16]]) == (Style {
            bg: Some(Color::Indexed(n)),
            ..style
        }),
        screen::sgr(style, seq![seq![38u16, 2u16, r as u16, g as u16, b as u16]]) == (Style {
            fg: Some(Color::Rgb(r, g, b)),
            ..style
        }),
        screen::sgr(style, seq![seq![48u16, 2u16, r as u16, g as u16, b as u16]]) == (Style {
            bg: Some(Color::Rgb(r, g, b)),
            ..style
        }),
{
    let none = Seq::<Seq<u16>>::empty();
    assert(screen::sgr_all(style, none) == style);
    lemma_reads_color(style, Color::Indexed(n), true, none);
    lemma_reads_color(style, Color::Indexed(n), false, none);
    lemma_reads_color(style, Color::Rgb(r, g, b), true, none);
    lemma_reads_color(style, Color::Rgb(r, g, b), false, none);
    assert(singles(color_numbers(Color::Indexed(n), true)) + none =~= seq![
        seq![38u16],
        seq![5u16],
        seq![n as u16],
    ]);
    assert(singles(color_numbers(Color::Indexed(n), false)) + none =~= seq![
        seq![48u16],
        seq![5u16],
        seq![n as u16],
    ]);
    assert(singles(color_numbers(Color::Rgb(r, g, b), true)) + none =~= seq![
        seq![38u16],
        seq![2u16],
        seq![r as u16],
        seq![g as u16],
        seq![b as u16],
    ]);
    assert(singles(color_numbers(Color::Rgb(r, g, b), false)) + none =~= seq![
        seq![48u16],
        seq![2u16],
        seq![r as u16],
        seq![g as u16],
        seq![b as u16],
    ]);
    assert(screen::sgr_all(style.spec_fg(Color::Indexed(n)), none) == style.spec_fg(Color::Indexed(n)));
    assert(screen::sgr_all(style.spec_bg(Color::Indexed(n)), none) == style.spec_bg(Color::Indexed(n)));
    assert(seq![seq![38u16, 5u16, n as u16]].skip(1) =~= none);
    assert(seq![seq![48u16, 5u16, n as u16]].skip(1) =~= none);
    assert(seq![seq![38u16, 2u16, r as u16, g as u16, b as u16]].skip(1) =~= none);
    assert(seq![seq![48u16, 2u16, r as u16, g as u16, b as u16]].skip(1) =~= none);
    reveal_with_fuel(screen::sgr_all, 2);
}

/// Numbers, each as a parameter of its own.
pub open spec fn singles(numbers: Seq<u16>) -> Seq<Seq<u16>> {
    numbers.map_values(|n: u16| seq![n])
}

/// Numbers as they are written, each with a semicolon before it.
pub open spec fn written(numbers: Seq<u16>) -> Seq<char>
    decreases numbers.len(),
{
    if numbers.len() == 0 {
        Seq::empty()
    } else {
        written(numbers.drop_last()) + seq![';'] + text::decimal(numbers.last() as nat)
    }
}

proof fn lemma_written(a: Seq<u16>, b: Seq<u16>)
    ensures
        written(a + b) == written(a) + written(b),
        singles(a + b) == singles(a) + singles(b),
    decreases b.len(),
{
    assert(singles(a + b) =~= singles(a) + singles(b));
    if b.len() == 0 {
        assert(a + b =~= a);
        assert(written(a) + written(b) =~= written(a));
    } else {
        lemma_written(a, b.drop_last());
        assert((a + b).drop_last() =~= a + b.drop_last());
        assert(written(a + b) =~= written(a) + written(b));
    }
}

/// The numbers that spell a colour.
spec fn color_numbers(color: Color, fg: bool) -> Seq<u16> {
    let first = (screen::color_number(color) + if fg {
        30int
    } else {
        40
    }) as u16;
    match color {
        Color::Indexed(n) => seq![first, 5u16, n as u16],
        Color::Rgb(r, g, b) => seq![first, 2u16, r as u16, g as u16, b as u16],
        _ => seq![first],
    }
}

proof fn lemma_written_color(color: Color, fg: bool)
    ensures
        written(color_numbers(color, fg)) == screen::color_sgr(color, fg),
{
    reveal_strlit(";5;");
    reveal_strlit(";2;");
    reveal_with_fuel(written, 6);
    let codes = color_numbers(color, fg);
    let first = seq![codes[0]];
    crate::text::decimal_is_digit_by_digit(5);
    crate::text::decimal_is_digit_by_digit(2);
    assert(text::decimal(5) =~= seq!['5']);
    assert(text::decimal(2) =~= seq!['2']);
    assert(";5;"@ =~= seq![';', '5', ';']);
    assert(";2;"@ =~= seq![';', '2', ';']);
    assert(first.drop_last() =~= Seq::<u16>::empty());
    assert(written(first) =~= seq![';'] + text::decimal(codes[0] as nat));
    match color {
        Color::Indexed(n) => {
            lemma_written(first, seq![5u16, n as u16]);
            assert(codes =~= first + seq![5u16, n as u16]);
            assert(seq![5u16, n as u16].drop_last() =~= seq![5u16]);
            assert(seq![5u16].drop_last() =~= Seq::<u16>::empty());
            assert(written(codes) =~= screen::color_sgr(color, fg));
        },
        Color::Rgb(r, g, b) => {
            let rest = seq![2u16, r as u16, g as u16, b as u16];
            lemma_written(first, rest);
            assert(codes =~= first + rest);
            assert(rest.drop_last() =~= seq![2u16, r as u16, g as u16]);
            assert(seq![2u16, r as u16, g as u16].drop_last() =~= seq![2u16, r as u16]);
            assert(seq![2u16, r as u16].drop_last() =~= seq![2u16]);
            assert(seq![2u16].drop_last() =~= Seq::<u16>::empty());
            assert(written(codes) =~= screen::color_sgr(color, fg));
        },
        _ => {},
    }
}

proof fn lemma_reads_color(style: Style, color: Color, fg: bool, rest: Seq<Seq<u16>>)
    ensures
        screen::sgr_all(style, singles(color_numbers(color, fg)) + rest) == screen::sgr_all(
            if fg {
                style.spec_fg(color)
            } else {
                style.spec_bg(color)
            },
            rest,
        ),
{
    let codes = singles(color_numbers(color, fg));
    let params = codes + rest;
    assert(params[0] == codes[0]);
    assert(params.skip(1) =~= codes.skip(1) + rest);
    match color {
        Color::Indexed(n) => {
            let tail = params.skip(1);
            assert(tail[0] == codes[1] && tail[1] == codes[2]);
            assert(tail.skip(2) =~= rest);
            assert((n as u16) as u8 == n);
        },
        Color::Rgb(r, g, b) => {
            let tail = params.skip(1);
            assert(tail[0] == codes[1] && tail[1] == codes[2] && tail[2] == codes[3] && tail[3]
                == codes[4]);
            assert(tail.skip(4) =~= rest);
            assert((r as u16) as u8 == r && (g as u16) as u8 == g && (b as u16) as u8 == b);
        },
        _ => {
            assert(codes.skip(1) + rest =~= rest);
        },
    }
}

/// The number of an attribute where it shows.
spec fn number_if(cond: bool, n: u16) -> Seq<u16> {
    if cond {
        seq![n]
    } else {
        Seq::empty()
    }
}

proof fn lemma_reads_attribute(style: Style, cond: bool, n: u16, rest: Seq<Seq<u16>>)
    requires
        1 <= n <= 4 || 7 <= n <= 9,
    ensures
        screen::sgr_all(style, singles(number_if(cond, n)) + rest) == screen::sgr_all(
            if cond {
                style.spec_add(screen::sgr_on(n))
            } else {
                style
            },
            rest,
        ),
{
    let params = singles(number_if(cond, n)) + rest;
    if cond {
        assert(params[0] == seq![n]);
        assert(params.skip(1) =~= rest);
    } else {
        assert(params =~= rest);
    }
}

proof fn lemma_written_attribute(cond: bool, n: u16, text: Seq<char>)
    requires
        text == seq![';'] + text::decimal(n as nat),
    ensures
        written(number_if(cond, n)) == screen::when(cond, text),
{
    if cond {
        reveal_with_fuel(written, 2);
        assert(seq![n].drop_last() =~= Seq::<u16>::empty());
        assert(written(seq![n]) =~= text);
    }
}

/// The numbers that spell a style.
spec fn style_numbers(style: Style) -> Seq<u16> {
    let m = style.add_modifier;
    fg_numbers(style) + bg_numbers(style) + number_if(m.bold, 1) + number_if(m.dim, 2) + number_if(
        m.italic,
        3,
    ) + number_if(m.underlined, 4) + number_if(m.reversed, 7) + number_if(m.hidden, 8) + number_if(
        m.crossed_out,
        9,
    )
}

spec fn fg_numbers(style: Style) -> Seq<u16> {
    match style.fg {
        Some(c) => color_numbers(c, true),
        None => Seq::empty(),
    }
}

spec fn bg_numbers(style: Style) -> Seq<u16> {
    match style.bg {
        Some(c) => color_numbers(c, false),
        None => Seq::empty(),
    }
}

proof fn lemma_written_attributes(m: style::Modifier)
    ensures
        written(number_if(m.bold, 1)) == screen::when(m.bold, ";1"@),
        written(number_if(m.dim, 2)) == screen::when(m.dim, ";2"@),
        written(number_if(m.italic, 3)) == screen::when(m.italic, ";3"@),
        written(number_if(m.underlined, 4)) == screen::when(m.underlined, ";4"@),
        written(number_if(m.reversed, 7)) == screen::when(m.reversed, ";7"@),
        written(number_if(m.hidden, 8)) == screen::when(m.hidden, ";8"@),
        written(number_if(m.crossed_out, 9)) == screen::when(m.crossed_out, ";9"@),
{
    reveal_strlit(";1");
    reveal_strlit(";2");
    reveal_strlit(";3");
    reveal_strlit(";4");
    reveal_strlit(";7");
    reveal_strlit(";8");
    reveal_strlit(";9");
    crate::text::decimal_is_digit_by_digit(1);
    crate::text::decimal_is_digit_by_digit(2);
    crate::text::decimal_is_digit_by_digit(3);
    crate::text::decimal_is_digit_by_digit(4);
    crate::text::decimal_is_digit_by_digit(7);
    crate::text::decimal_is_digit_by_digit(8);
    crate::text::decimal_is_digit_by_digit(9);
    assert(";1"@ =~= seq![';'] + text::decimal(1));
    assert(";2"@ =~= seq![';'] + text::decimal(2));
    assert(";3"@ =~= seq![';'] + text::decimal(3));
    assert(";4"@ =~= seq![';'] + text::decimal(4));
    assert(";7"@ =~= seq![';'] + text::decimal(7));
    assert(";8"@ =~= seq![';'] + text::decimal(8));
    assert(";9"@ =~= seq![';'] + text::decimal(9));
    lemma_written_attribute(m.bold, 1, ";1"@);
    lemma_written_attribute(m.dim, 2, ";2"@);
    lemma_written_attribute(m.italic, 3, ";3"@);
    lemma_written_attribute(m.underlined, 4, ";4"@);
    lemma_written_attribute(m.reversed, 7, ";7"@);
    lemma_written_attribute(m.hidden, 8, ";8"@);
    lemma_written_attribute(m.crossed_out, 9, ";9"@);
}

proof fn lemma_written_style(style: Style)
    ensures
        written(style_numbers(style)) == screen::style_sgr(style),
{
    let m = style.add_modifier;
    let fg = fg_numbers(style);
    let bg = bg_numbers(style);
    let a1 = number_if(m.bold, 1);
    let a2 = number_if(m.dim, 2);
    let a3 = number_if(m.italic, 3);
    let a4 = number_if(m.underlined, 4);
    let a7 = number_if(m.reversed, 7);
    let a8 = number_if(m.hidden, 8);
    let a9 = number_if(m.crossed_out, 9);
    lemma_written_attributes(m);
    if let Some(c) = style.fg {
        lemma_written_color(c, true);
    }
    if let Some(c) = style.bg {
        lemma_written_color(c, false);
    }
    lemma_written(fg, bg);
    lemma_written(fg + bg, a1);
    lemma_written(fg + bg + a1, a2);
    lemma_written(fg + bg + a1 + a2, a3);
    lemma_written(fg + bg + a1 + a2 + a3, a4);
    lemma_written(fg + bg + a1 + a2 + a3 + a4, a7);
    lemma_written(fg + bg + a1 + a2 + a3 + a4 + a7, a8);
    lemma_written(fg + bg + a1 + a2 + a3 + a4 + a7 + a8, a9);
}

proof fn lemma_read_colors(style: Style, rest: Seq<Seq<u16>>)
    ensures
        screen::sgr_all(
            style::plain_style(),
            singles(fg_numbers(style)) + (singles(bg_numbers(style)) + rest),
        ) == screen::sgr_all(
            Style { fg: style.fg, bg: style.bg, ..style::plain_style() },
            rest,
        ),
{
    let plain = style::plain_style();
    let rb = singles(bg_numbers(style)) + rest;
    let s1 = Style { fg: style.fg, ..plain };
    if let Some(c) = style.fg {
        lemma_reads_color(plain, c, true, rb);
    } else {
        assert(singles(fg_numbers(style)) + rb =~= rb);
    }
    if let Some(c) = style.bg {
        lemma_reads_color(s1, c, false, rest);
    } else {
        assert(rb =~= rest);
    }
}

spec fn add_if(style: Style, cond: bool, n: u16) -> Style {
    if cond {
        style.spec_add(screen::sgr_on(n))
    } else {
        style
    }
}

proof fn lemma_read_attributes(style: Style, m: style::Modifier)
    requires
        style.add_modifier == style::no_modifier(),
        style.sub_modifier == style::no_modifier(),
    ensures
        screen::sgr_all(style, attribute_params(m)) == (Style { add_modifier: m, ..style }),
{
    let none = Seq::<Seq<u16>>::empty();
    let r9 = singles(number_if(m.crossed_out, 9)) + none;
    let r8 = singles(number_if(m.hidden, 8)) + r9;
    let r7 = singles(number_if(m.reversed, 7)) + r8;
    let r4 = singles(number_if(m.underlined, 4)) + r7;
    let r3 = singles(number_if(m.italic, 3)) + r4;
    let r2 = singles(number_if(m.dim, 2)) + r3;
    let t1 = add_if(style, m.bold, 1);
    let t2 = add_if(t1, m.dim, 2);
    let t3 = add_if(t2, m.italic, 3);
    let t4 = add_if(t3, m.underlined, 4);
    let t7 = add_if(t4, m.reversed, 7);
    let t8 = add_if(t7, m.hidden, 8);
    let t9 = add_if(t8, m.crossed_out, 9);
    lemma_reads_attribute(style, m.bold, 1, r2);
    lemma_reads_attribute(t1, m.dim, 2, r3);
    lemma_reads_attribute(t2, m.italic, 3, r4);
    lemma_reads_attribute(t3, m.underlined, 4, r7);
    lemma_reads_attribute(t4, m.reversed, 7, r8);
    lemma_reads_attribute(t7, m.hidden, 8, r9);
    lemma_reads_attribute(t8, m.crossed_out, 9, none);
    assert(screen::sgr_all(t9, none) == t9);
    assert(t9 == (Style { add_modifier: m, ..style }));
}

proof fn lemma_singles(a: Seq<u16>, b: Seq<u16>, rest: Seq<Seq<u16>>)
    ensures
        singles(a + b) + rest == singles(a) + (singles(b) + rest),
{
    assert(singles(a + b) + rest =~= singles(a) + (singles(b) + rest));
}

/// The parameters that spell the attributes of a style.
spec fn attribute_params(m: style::Modifier) -> Seq<Seq<u16>> {
    singles(number_if(m.bold, 1)) + (singles(number_if(m.dim, 2)) + (singles(
        number_if(m.italic, 3),
    ) + (singles(number_if(m.underlined, 4)) + (singles(number_if(m.reversed, 7)) + (singles(
        number_if(m.hidden, 8),
    ) + (singles(number_if(m.crossed_out, 9)) + Seq::<Seq<u16>>::empty()))))))
}

proof fn lemma_style_params(style: Style)
    ensures
        singles(style_numbers(style)) == singles(fg_numbers(style)) + (singles(bg_numbers(style))
            + attribute_params(style.add_modifier)),
{
    let m = style.add_modifier;
    let none = Seq::<Seq<u16>>::empty();
    let n0 = fg_numbers(style) + bg_numbers(style);
    let n1 = n0 + number_if(m.bold, 1);
    let n2 = n1 + number_if(m.dim, 2);
    let n3 = n2 + number_if(m.italic, 3);
    let n4 = n3 + number_if(m.underlined, 4);
    let n7 = n4 + number_if(m.reversed, 7);
    let n8 = n7 + number_if(m.hidden, 8);
    let r9 = singles(number_if(m.crossed_out, 9)) + none;
    let r8 = singles(number_if(m.hidden, 8)) + r9;
    let r7 = singles(number_if(m.reversed, 7)) + r8;
    let r4 = singles(number_if(m.underlined, 4)) + r7;
    let r3 = singles(number_if(m.italic, 3)) + r4;
    let r2 = singles(number_if(m.dim, 2)) + r3;
    let r1 = singles(number_if(m.bold, 1)) + r2;
    assert(singles(style_numbers(style)) + none =~= singles(style_numbers(style)));
    lemma_singles(n8, number_if(m.crossed_out, 9), none);
    lemma_singles(n7, number_if(m.hidden, 8), r9);
    lemma_singles(n4, number_if(m.reversed, 7), r8);
    lemma_singles(n3, number_if(m.underlined, 4), r7);
    lemma_singles(n2, number_if(m.italic, 3), r4);
    lemma_singles(n1, number_if(m.dim, 2), r3);
    lemma_singles(n0, number_if(m.bold, 1), r2);
    lemma_singles(fg_numbers(style), bg_numbers(style), r1);
}

/// Drawing a style on a raw terminal gives the style back: what is written for it, behind a reset,
/// is a list of codes, and a terminal that reads them draws in that style.
pub proof fn written_styles_are_read_back(style: Style)
    requires
        style.sub_modifier == style::no_modifier(),
    ensures
        exists|numbers: Seq<u16>|
            #[trigger] written(numbers) == screen::style_sgr(style) && screen::sgr(
                style::plain_style(),
                one_number(0) + singles(numbers),
            ) == style,
{
    let numbers = style_numbers(style);
    lemma_written_style(style);
    lemma_style_params(style);
    let plain = style::plain_style();
    let all = singles(numbers);
    let params = one_number(0) + all;
    assert(params[0] == seq![0u16]);
    assert(params.skip(1) =~= all);
    assert(screen::sgr(plain, params) == screen::sgr_all(plain, all));
    lemma_read_colors(style, attribute_params(style.add_modifier));
    let colored = Style { fg: style.fg, bg: style.bg, ..plain };
    lemma_read_attributes(colored, style.add_modifier);
    assert(style == (Style { add_modifier: style.add_modifier, ..colored }));
}

/// A row for a raw terminal begins with its first cell and goes on cell by cell: each is its
/// character, behind a sequence that sets its style where the style is another than before. At the
/// end text is plain again.
pub proof fn raw_rows_are_drawn_cell_by_cell(row: Seq<Cell>, cell: Cell)
    ensures
        ({
            let more = row.push(cell);
            let before = if row.len() > 0 {
                row.last().style
            } else {
                style::plain_style()
            };
            let sequence = if cell.style == before {
                Seq::empty()
            } else {
                "\x1b[0"@ + screen::style_sgr(cell.style) + seq!['m']
            };
            let end = if cell.style == style::plain_style() {
                Seq::empty()
            } else {
                "\x1b[0m"@
            };
            &&& screen::ansi_cells(more) == screen::ansi_cells(row) + sequence + seq![cell.ch]
            &&& screen::ansi_row(more) == screen::ansi_cells(more) + end
        }),
        screen::ansi_row(Seq::empty()) == Seq::<char>::empty(),
{
    let more = row.push(cell);
    assert(more.drop_last() =~= row);
    assert(screen::ansi_row(Seq::empty()) =~= Seq::<char>::empty());
    let before = if row.len() > 0 {
        row.last().style
    } else {
        style::plain_style()
    };
    let sequence = if cell.style == before {
        Seq::empty()
    } else {
        "\x1b[0"@ + screen::style_sgr(cell.style) + seq!['m']
    };
    assert(screen::ansi_cells(more) =~= screen::ansi_cells(row) + sequence + seq![cell.ch]);
}

/// In the runs of a row every cell keeps its style: a run of the front of the row and the cell
/// behind it in the same style make one run, and another style begins a run of its own.
pub proof fn cells_keep_their_style_in_runs(row: Seq<Cell>, cell: Cell)
    ensures
        ({
            let runs = screen::row_runs(row);
            let more = screen::row_runs(row.push(cell));
            &&& more.last().style == cell.style
            &&& more.last().content.last() == cell.ch
            &&& row.len() > 0 && row.last().style == cell.style ==> more.len() == runs.len()
            &&& row.len() == 0 || row.last().style != cell.style ==> more.len() == runs.len() + 1
                && more.drop_last() == runs
        }),
{
    crate::screen::row_runs_are_maximal(row);
    assert(row.push(cell).drop_last() =~= row);
    let runs = screen::row_runs(row);
    let more = screen::row_runs(row.push(cell));
    if row.len() == 0 || row.last().style != cell.style {
        assert(more.drop_last() =~= runs);
    }
}

// ── Keys ───────────────────────────────────────────────────────────

/// The bytes of an arrow key are a control sequence that moves a cursor by one cell in the
/// direction of the key, where there is room, and in no other.
pub proof fn arrow_keys_point_the_way(s: ScreenView, modifiers: KeyModifiers, code: KeyCode)
    requires
        s.wf(),
        code == KeyCode::Up || code == KeyCode::Down || code == KeyCode::Left || code
            == KeyCode::Right,
    ensures
        ({
            let bytes = keys::key_bytes(KeyEvent { code, modifiers });
            &&& bytes is Some
            &&& bytes->0.len() == 3 && bytes->0[0] == 0x1b && bytes->0[1] == '[' as u8
            &&& {
                let t = s.csi(Seq::empty(), Seq::empty(), bytes->0[2] as char);
                &&& only_moved(s, t)
                &&& code == KeyCode::Up ==> t.cursor_col == s.cursor_col && (s.cursor_row > 0
                    ==> t.cursor_row == s.cursor_row - 1)
                &&& code == KeyCode::Down ==> t.cursor_col == s.cursor_col && (s.cursor_row
                    < s.rows - 1 ==> t.cursor_row == s.cursor_row + 1)
                &&& code == KeyCode::Left ==> t.cursor_row == s.cursor_row && (s.cursor_col > 0
                    ==> t.cursor_col == s.cursor_col - 1)
                &&& code == KeyCode::Right ==> t.cursor_row == s.cursor_row && (s.cursor_col
                    < s.cols - 1 ==> t.cursor_col == s.cursor_col + 1)
            }
        }),
{
}

/// The bytes of the Home key are a control sequence that takes a cursor to the upper left corner.
pub proof fn home_key_goes_home(s: ScreenView, modifiers: KeyModifiers)
    requires
        s.wf(),
    ensures
        ({
            let bytes = keys::key_bytes(KeyEvent { code: KeyCode::Home, modifiers });
            &&& bytes is Some
            &&& bytes->0.len() == 3 && bytes->0[0] == 0x1b && bytes->0[1] == '[' as u8
            &&& {
                let t = s.csi(Seq::empty(), Seq::empty(), bytes->0[2] as char);
                only_moved(s, t) && t.cursor_row == 0 && t.cursor_col == 0
            }
        }),
{
}

} // verus!
