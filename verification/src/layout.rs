//! Splitting areas of the terminal.

use ratatui::layout::{Constraint as Size, Direction, Flex, Layout, Rect as Area};

use vstd::prelude::*;

use crate::view::Rect;

verus! {

/// What one part of a split area asks for.
#[derive(Debug, Clone, Copy, PartialEq, Eq, Structural)]
pub enum Constraint {
    Length(u16),
    Min(u16),
    Fill(u16),
    Percentage(u16),
    Ratio(u32, u32),
}

/// The part of an area that takes `size` cells from `start` on in one direction, and all of the
/// area in the other.
pub open spec fn part(vertical: bool, area: Rect, start: int, size: int) -> Rect {
    if vertical {
        Rect { y: (area.y + start) as u16, height: size as u16, ..area }
    } else {
        Rect { x: (area.x + start) as u16, width: size as u16, ..area }
    }
}

/// How far an area reaches in the direction that it is split in.
pub open spec fn extent(vertical: bool, area: Rect) -> int {
    if vertical {
        area.height as int
    } else {
        area.width as int
    }
}

/// What all fixed lengths take together.
pub open spec fn fixed_total(constraints: Seq<Constraint>) -> int
    decreases constraints.len(),
{
    if constraints.len() == 0 {
        0
    } else {
        fixed_total(constraints.drop_last()) + (match constraints.last() {
            Constraint::Length(n) => n as int,
            _ => 0,
        })
    }
}

/// Whether a part has a minimum that `rest` meets.
pub open spec fn takes(constraint: Constraint, rest: int) -> bool {
    constraint matches Constraint::Min(least) && least <= rest
}

/// Whether one part takes what fixed lengths leave, and that is `rest`.
pub open spec fn one_takes_the_rest(constraints: Seq<Constraint>, rest: int) -> bool {
    exists|r: int|
        0 <= r < constraints.len() && takes(#[trigger] constraints[r], rest) && forall|i: int|
            0 <= i < constraints.len() && i != r ==> (#[trigger] constraints[i]) is Length
}

/// The size of a part among fixed lengths and one part that takes the rest.
pub open spec fn part_size(constraint: Constraint, rest: int) -> int {
    match constraint {
        Constraint::Length(n) => n as int,
        _ => rest,
    }
}

/// Where part `i` begins: behind the parts before it.
pub open spec fn part_start(constraints: Seq<Constraint>, rest: int, i: int) -> int
    decreases i,
{
    if i <= 0 {
        0
    } else {
        part_start(constraints, rest, i - 1) + part_size(constraints[i - 1], rest)
    }
}

/// A share of an extent in percent, to the nearest cell.
pub open spec fn percent(extent: int, p: int) -> int {
    (extent * p + 50) / 100
}

/// Two shares that make up the whole.
pub open spec fn two_shares(p: u16) -> Seq<Constraint> {
    seq![Constraint::Percentage(p), Constraint::Percentage((100 - p) as u16)]
}

/// A fixed length between two equal fills.
pub open spec fn in_the_middle(n: u16) -> Seq<Constraint> {
    seq![Constraint::Fill(1), Constraint::Length(n), Constraint::Fill(1)]
}

/// Whether an area lies within another.
pub open spec fn lies_within(inner: Rect, area: Rect) -> bool {
    &&& area.x <= inner.x && inner.x + inner.width <= area.x + area.width
    &&& area.y <= inner.y && inner.y + inner.height <= area.y + area.height
}

/// Every part lies within the area, and has all of it in the other direction.
pub open spec fn all_across(parts: Seq<Rect>, vertical: bool, area: Rect) -> bool {
    forall|i: int|
        0 <= i < parts.len() ==> lies_within(#[trigger] parts[i], area) && if vertical {
            parts[i].width == area.width
        } else {
            parts[i].height == area.height
        }
}

/// Fixed lengths that fit are given as asked, and one part takes the rest.
pub open spec fn lengths_kept(
    parts: Seq<Rect>,
    constraints: Seq<Constraint>,
    vertical: bool,
    area: Rect,
) -> bool {
    let rest = extent(vertical, area) - fixed_total(constraints);
    one_takes_the_rest(constraints, rest) ==> forall|i: int|
        0 <= i < parts.len() ==> #[trigger] parts[i] == part(
            vertical,
            area,
            part_start(constraints, rest, i),
            part_size(constraints[i], rest),
        )
}

/// Two shares that make up the whole meet at the nearest cell.
pub open spec fn shares_met(
    parts: Seq<Rect>,
    constraints: Seq<Constraint>,
    vertical: bool,
    area: Rect,
) -> bool {
    forall|p: u16|
        p <= 100 && constraints == #[trigger] two_shares(p) ==> {
            let first = percent(extent(vertical, area), p as int);
            &&& parts[0] == part(vertical, area, 0, first)
            &&& parts[1] == part(vertical, area, first, extent(vertical, area) - first)
        }
}

/// Whether `size` cells from `start` on have as much room before them as behind them in an
/// extent, to within one cell on each side.
pub open spec fn centered(start: int, size: int, extent: int) -> bool {
    -2 <= 2 * start + size - extent <= 2
}

/// Where an area begins within another, in the direction that it is split in.
pub open spec fn offset(vertical: bool, inner: Rect, area: Rect) -> int {
    if vertical {
        inner.y - area.y
    } else {
        inner.x - area.x
    }
}

/// A fixed length that fits has its size between two equal fills, and stands in the middle.
pub open spec fn middle_kept(
    parts: Seq<Rect>,
    constraints: Seq<Constraint>,
    vertical: bool,
    area: Rect,
) -> bool {
    forall|n: u16|
        n <= extent(vertical, area) && constraints == #[trigger] in_the_middle(n) ==> {
            &&& extent(vertical, parts[1]) == n
            &&& centered(offset(vertical, parts[1], area), n as int, extent(vertical, area))
        }
}

/// A number of equal shares, each one of `slots` equal parts of the whole.
pub open spec fn equal_shares(count: nat, slots: u32) -> Seq<Constraint> {
    Seq::new(count, |i: int| Constraint::Ratio(1, slots))
}

/// Whether an edge lies within one cell of `steps` equal parts of an extent, out of `slots`.
pub open spec fn near_share(edge: int, steps: int, slots: int, extent: int) -> bool {
    -slots <= edge * slots - steps * extent <= slots
}

/// Whether part `i` reaches from one equal share to the next.
pub open spec fn fills_share(p: Rect, i: int, slots: int, vertical: bool, area: Rect) -> bool {
    let start = offset(vertical, p, area);
    &&& near_share(start, i, slots, extent(vertical, area))
    &&& near_share(start + extent(vertical, p), i + 1, slots, extent(vertical, area))
}

/// Equal shares that fit lie one behind the other, each edge within one cell of its place.
pub open spec fn shares_even(
    parts: Seq<Rect>,
    constraints: Seq<Constraint>,
    vertical: bool,
    area: Rect,
) -> bool {
    forall|slots: u32|
        0 < slots && constraints.len() <= slots && constraints == #[trigger] equal_shares(
            constraints.len(),
            slots,
        ) ==> forall|i: int|
            0 <= i < parts.len() ==> fills_share(
                #[trigger] parts[i],
                i,
                slots as int,
                vertical,
                area,
            )
}

/// `ratatui::layout::Layout::split` divides an area into one part per constraint.
///
/// Every part lies within the area and has all of its extent in the other direction. From the
/// start of the area, fixed lengths that fit are given as asked and in order, and one part with
/// a minimum among them takes what they leave, where that is enough. Two percentages that add
/// up to the whole meet at the nearest cell. Between two equal fills a fixed length that fits
/// has its size, and the room on its two sides is shared to within a cell. Equal ratios that make up no more than the whole follow each other, and each
/// begins and ends within one cell of its exact place, which the solver rounds. Nothing is
/// claimed of other constraints, nor of lengths that do not fit: there the solver may settle
/// for one result or another.
#[verifier::external_body]
fn split(vertical: bool, constraints: &Vec<Constraint>, area: Rect) -> (parts: Vec<Rect>)
    requires
        forall|i: int|
            0 <= i < constraints@.len() ==> (#[trigger] constraints@[i] matches Constraint::Ratio(
                _,
                d,
            ) ==> d > 0),
        area.x + area.width <= u16::MAX,
        area.y + area.height <= u16::MAX,
    ensures
        parts@.len() == constraints@.len(),
        all_across(parts@, vertical, area),
        lengths_kept(parts@, constraints@, vertical, area),
        shares_met(parts@, constraints@, vertical, area),
        middle_kept(parts@, constraints@, vertical, area),
        shares_even(parts@, constraints@, vertical, area),
{
    let direction = [Direction::Horizontal, Direction::Vertical][vertical as usize];
    let sizes = constraints.iter().map(|c| match c {
        Constraint::Length(n) => Size::Length(*n),
        Constraint::Min(n) => Size::Min(*n),
        Constraint::Fill(n) => Size::Fill(*n),
        Constraint::Percentage(n) => Size::Percentage(*n),
        Constraint::Ratio(n, d) => Size::Ratio(*n, *d),
    });
    let parts = Layout::new(direction, sizes).split(Area::new(area.x, area.y, area.width, area.height));
    parts.iter().map(|r| Rect { x: r.x, y: r.y, width: r.width, height: r.height }).collect()
}

/// Whether an area lies within the range of coordinates.
pub open spec fn in_range(area: Rect) -> bool {
    area.x + area.width <= u16::MAX && area.y + area.height <= u16::MAX
}

/// An area cut off where coordinates end.
pub open spec fn clipped(area: Rect) -> Rect {
    Rect {
        width: if area.x + area.width <= u16::MAX {
            area.width
        } else {
            (u16::MAX - area.x) as u16
        },
        height: if area.y + area.height <= u16::MAX {
            area.height
        } else {
            (u16::MAX - area.y) as u16
        },
        ..area
    }
}

pub fn clip(area: Rect) -> (r: Rect)
    ensures
        r == clipped(area),
        in_range(r),
{
    let width = if area.width <= u16::MAX - area.x {
        area.width
    } else {
        u16::MAX - area.x
    };
    let height = if area.height <= u16::MAX - area.y {
        area.height
    } else {
        u16::MAX - area.y
    };
    Rect { width, height, ..area }
}

/// One row on top of the rest.
pub fn split_top_row(area: Rect) -> (parts: (Rect, Rect))
    ensures
        clipped(area).height >= 1 ==> {
            &&& parts.0 == part(true, clipped(area), 0, 1)
            &&& parts.1 == part(true, clipped(area), 1, clipped(area).height - 1)
        },
        lies_within(parts.0, clipped(area)) && parts.0.width == clipped(area).width,
        lies_within(parts.1, clipped(area)) && parts.1.width == clipped(area).width,
{
    let constraints = vec![Constraint::Length(1), Constraint::Min(0)];
    proof {
        let cs = constraints@;
        reveal_with_fuel(fixed_total, 3);
        reveal_with_fuel(part_start, 3);
        assert(takes(cs[1], clipped(area).height - fixed_total(cs)) || clipped(area).height < fixed_total(cs));
    }
    let parts = split(true, &constraints, clip(area));
    (parts[0], parts[1])
}

/// One row below the rest.
pub fn split_bottom_row(area: Rect) -> (parts: (Rect, Rect))
    ensures
        clipped(area).height >= 1 ==> {
            let rest = clipped(area).height - 1;
            &&& parts.0 == part(true, clipped(area), 0, rest)
            &&& parts.1 == part(true, clipped(area), rest, 1)
        },
        lies_within(parts.0, clipped(area)) && parts.0.width == clipped(area).width,
        lies_within(parts.1, clipped(area)) && parts.1.width == clipped(area).width,
{
    let constraints = vec![Constraint::Min(0), Constraint::Length(1)];
    proof {
        let cs = constraints@;
        reveal_with_fuel(fixed_total, 3);
        reveal_with_fuel(part_start, 3);
        assert(takes(cs[0], clipped(area).height - fixed_total(cs)) || clipped(area).height < fixed_total(cs));
    }
    let parts = split(true, &constraints, clip(area));
    (parts[0], parts[1])
}

/// One row on top and one below the rest.
pub fn split_top_and_bottom_row(area: Rect) -> (parts: (Rect, Rect, Rect))
    ensures
        clipped(area).height >= 2 ==> {
            let rest = clipped(area).height - 2;
            &&& parts.0 == part(true, clipped(area), 0, 1)
            &&& parts.1 == part(true, clipped(area), 1, rest)
            &&& parts.2 == part(true, clipped(area), 1 + rest, 1)
        },
        lies_within(parts.0, clipped(area)) && parts.0.width == clipped(area).width,
        lies_within(parts.1, clipped(area)) && parts.1.width == clipped(area).width,
        lies_within(parts.2, clipped(area)) && parts.2.width == clipped(area).width,
{
    let constraints = vec![Constraint::Length(1), Constraint::Min(0), Constraint::Length(1)];
    proof {
        let cs = constraints@;
        reveal_with_fuel(fixed_total, 4);
        reveal_with_fuel(part_start, 4);
        assert(takes(cs[1], clipped(area).height - fixed_total(cs)) || clipped(area).height < fixed_total(cs));
    }
    let parts = split(true, &constraints, clip(area));
    (parts[0], parts[1], parts[2])
}

/// How many slots a number of columns share the width in: two at least.
pub open spec fn column_slots(count: int) -> int {
    if count > 2 {
        count
    } else {
        2
    }
}

/// A number of columns side by side that share the width evenly, in at least two slots. Each
/// edge lies within one cell of its share: how the solver rounds is left open.
pub fn split_columns(area: Rect, count: usize) -> (parts: Vec<Rect>)
    requires
        count <= 1100,
    ensures
        parts@.len() == count,
        forall|i: int|
            0 <= i < count ==> {
                &&& lies_within(#[trigger] parts@[i], clipped(area))
                &&& parts@[i].height == clipped(area).height
                &&& fills_share(parts@[i], i, column_slots(count as int), false, clipped(area))
            },
{
    let slots: u32 = if count > 2 {
        count as u32
    } else {
        2
    };
    let mut constraints: Vec<Constraint> = Vec::new();
    let mut i: usize = 0;
    while i < count
        invariant
            i <= count,
            slots > 0,
            constraints@.len() == i,
            forall|k: int|
                0 <= k < i ==> #[trigger] constraints@[k] == Constraint::Ratio(1, slots),
        decreases count - i,
    {
        constraints.push(Constraint::Ratio(1, slots));
        i += 1;
    }
    assert(constraints@ =~= equal_shares(constraints@.len(), slots));
    split(false, &constraints, clip(area))
}

/// Two columns, of three and two fifths of the width.
pub fn split_focus(area: Rect) -> (parts: (Rect, Rect))
    ensures
        ({
            let left = percent(clipped(area).width as int, 60);
            &&& parts.0 == part(false, clipped(area), 0, left)
            &&& parts.1 == part(false, clipped(area), left, clipped(area).width - left)
        }),
{
    let constraints = vec![Constraint::Percentage(60), Constraint::Percentage(40)];
    assert(constraints@ =~= two_shares(60));
    let parts = split(false, &constraints, clip(area));
    (parts[0], parts[1])
}

/// The rows of an area that fixed heights take, with the rest below the last.
pub open spec fn stacked(heights: Seq<u16>) -> Seq<Constraint> {
    heights.map_values(|h: u16| Constraint::Length(h)).push(Constraint::Min(0))
}

/// A number of rows of fixed height on top of each other, with what is left below the last.
pub fn split_rows(area: Rect, heights: &Vec<u16>) -> (parts: Vec<Rect>)
    ensures
        parts@.len() == heights@.len() + 1,
        ({
            let rest = clipped(area).height - fixed_total(stacked(heights@));
            rest >= 0 ==> forall|i: int|
                0 <= i < parts@.len() ==> #[trigger] parts@[i] == part(
                    true,
                    clipped(area),
                    part_start(stacked(heights@), rest, i),
                    part_size(stacked(heights@)[i], rest),
                )
        }),
{
    let mut constraints: Vec<Constraint> = Vec::new();
    let mut i: usize = 0;
    while i < heights.len()
        invariant
            i <= heights@.len(),
            constraints@.len() == i,
            forall|k: int| 0 <= k < i ==> #[trigger] constraints@[k] == Constraint::Length(heights@[k]),
        decreases heights@.len() - i,
    {
        constraints.push(Constraint::Length(heights[i]));
        i += 1;
    }
    constraints.push(Constraint::Min(0));
    proof {
        assert(constraints@ =~= stacked(heights@));
        let rest = clipped(area).height - fixed_total(constraints@);
        assert(takes(constraints@[heights@.len() as int], rest) || rest < 0);
        assert(rest >= 0 ==> one_takes_the_rest(constraints@, rest));
    }
    split(true, &constraints, clip(area))
}

/// Whether rows divide an area from top to bottom as the constraints ask.
pub open spec fn laid_out(rows: Seq<Rect>, constraints: Seq<Constraint>, area: Rect) -> bool {
    &&& rows.len() == constraints.len()
    &&& all_across(rows, true, area)
    &&& lengths_kept(rows, constraints, true, area)
}

/// Rows on top of each other: fixed heights, and one that takes what they leave.
pub fn stack_rows(area: Rect, constraints: &Vec<Constraint>) -> (rows: Vec<Rect>)
    requires
        forall|i: int| 0 <= i < constraints@.len() ==> !((#[trigger] constraints@[i]) is Ratio),
        in_range(area),
    ensures
        laid_out(rows@, constraints@, area),
{
    split(true, constraints, area)
}

/// `ratatui::layout::Layout::split` with `Flex::Center` puts a single part in the middle of an
/// area, here of a fixed width.
///
/// The part begins within the area and, where the width fits, ends within it too, with the room
/// on its two sides shared to within a cell, as the solver rounds it.
#[verifier::external_body]
fn centered_start(area: Rect, width: u16) -> (x: u16)
    requires
        in_range(area),
    ensures
        area.x <= x <= area.x + area.width,
        width <= area.width ==> x + width <= area.x + area.width && centered(
            x - area.x,
            width as int,
            area.width as int,
        ),
{
    let row = Layout::horizontal([Size::Length(width)]).flex(Flex::Center);
    row.split(Area::new(area.x, area.y, area.width, area.height))[0].x
}

/// The first column of something of the given width in the middle of an area.
pub fn center_column(area: Rect, width: u16) -> (x: u16)
    ensures
        area.x <= x <= area.x + clipped(area).width,
        width <= clipped(area).width ==> x + width <= area.x + clipped(area).width && centered(
            x - area.x,
            width as int,
            clipped(area).width as int,
        ),
{
    centered_start(clip(area), width)
}

/// An area of the given size in the middle of another.
pub fn center_area(area: Rect, width: u16, height: u16) -> (middle: Rect)
    ensures
        lies_within(middle, clipped(area)),
        width <= clipped(area).width ==> middle.width == width && centered(
            middle.x - area.x,
            width as int,
            clipped(area).width as int,
        ),
        height <= clipped(area).height ==> middle.height == height && centered(
            middle.y - area.y,
            height as int,
            clipped(area).height as int,
        ),
{
    let rows_wanted = vec![Constraint::Fill(1), Constraint::Length(height), Constraint::Fill(1)];
    assert(rows_wanted@ =~= in_the_middle(height));
    let rows = split(true, &rows_wanted, clip(area));
    let columns_wanted = vec![
        Constraint::Fill(1),
        Constraint::Length(width),
        Constraint::Fill(1),
    ];
    assert(columns_wanted@ =~= in_the_middle(width));
    let columns = split(false, &columns_wanted, clip(rows[1]));
    columns[1]
}

/// The area within a border: one cell less on each side.
pub open spec fn within_border(area: Rect) -> Rect {
    Rect {
        x: if area.width > 0 {
            (area.x + 1) as u16
        } else {
            area.x
        },
        y: if area.height > 0 {
            (area.y + 1) as u16
        } else {
            area.y
        },
        width: (if area.width >= 2 {
            area.width - 2
        } else {
            0
        }) as u16,
        height: (if area.height >= 2 {
            area.height - 2
        } else {
            0
        }) as u16,
    }
}

pub fn inner_area(area: Rect) -> (inner: Rect)
    requires
        in_range(area),
    ensures
        inner == within_border(area),
        in_range(inner),
{
    Rect {
        x: if area.width > 0 {
            area.x + 1
        } else {
            area.x
        },
        y: if area.height > 0 {
            area.y + 1
        } else {
            area.y
        },
        width: area.width.saturating_sub(2),
        height: area.height.saturating_sub(2),
    }
}

// ── Laws ───────────────────────────────────────────────────────────

/// Parts that stand below each other share the columns of their area, parts side by side its
/// rows; each begins where it is said to and has its size.
pub proof fn parts_lie_where_they_are_said_to(area: Rect, start: int, size: int)
    requires
        0 <= start,
        0 <= size,
        start + size <= u16::MAX - area.x,
        start + size <= u16::MAX - area.y,
    ensures
        part(true, area, start, size).y == area.y + start,
        part(true, area, start, size).height == size,
        part(true, area, start, size).x == area.x,
        part(true, area, start, size).width == area.width,
        part(false, area, start, size).x == area.x + start,
        part(false, area, start, size).width == size,
        part(false, area, start, size).y == area.y,
        part(false, area, start, size).height == area.height,
        extent(true, area) == area.height,
        extent(false, area) == area.width,
{
}

/// Parts follow each other without a gap, and end where the area does if just one of them takes
/// what the others leave.
pub proof fn parts_follow_each_other(constraints: Seq<Constraint>, rest: int, i: int)
    requires
        0 <= i < constraints.len(),
    ensures
        part_start(constraints, rest, 0) == 0,
        part_start(constraints, rest, i + 1) == part_start(constraints, rest, i) + part_size(
            constraints[i],
            rest,
        ),
        constraints[i] is Length ==> part_size(constraints[i], rest) == constraints[i]->Length_0,
        constraints[i] is Min ==> part_size(constraints[i], rest) == rest,
{
}

/// A border takes a row and a column on each side.
pub proof fn borders_take_a_cell_on_each_side(area: Rect)
    requires
        area.width >= 2,
        area.height >= 2,
        in_range(area),
    ensures
        within_border(area).x == area.x + 1,
        within_border(area).y == area.y + 1,
        within_border(area).width + 2 == area.width,
        within_border(area).height + 2 == area.height,
        lies_within(within_border(area), area),
{
}

/// What lies within the range of coordinates is not cut, and anything else is cut to it.
pub proof fn areas_are_cut_to_the_range(area: Rect)
    ensures
        in_range(clipped(area)),
        in_range(area) ==> clipped(area) == area,
        clipped(area).x == area.x,
        clipped(area).y == area.y,
        clipped(area).width <= area.width,
        clipped(area).height <= area.height,
{
}

/// A share in percent is rounded to the nearest column, and the whole is the whole.
pub proof fn shares_are_rounded(extent: int, p: int)
    requires
        0 <= extent,
        0 <= p <= 100,
    ensures
        2 * extent * p - 100 <= 200 * percent(extent, p) <= 2 * extent * p + 100,
        percent(extent, 100) == extent,
        percent(extent, 0) == 0,
{
    let x = extent * p;
    assert(2 * extent * p == 2 * x) by (nonlinear_arith)
        requires
            x == extent * p,
    ;
}

} // verus!
