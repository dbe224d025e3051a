//! Rectangles of the terminal grid and their partition among the panes.

use ratatui::layout::Constraint as TermConstraint;
use ratatui::layout::Direction as TermDirection;
use ratatui::layout::Layout;
use ratatui::layout::Rect as TermRect;
use vstd::prelude::*;

verus! {

/// A rectangle of the terminal grid.
#[derive(Clone, Copy, Debug, PartialEq, Eq, Structural)]
pub struct Rect {
    /// The column of the top left corner.
    pub x: u16,
    /// The row of the top left corner.
    pub y: u16,
    pub width: u16,
    pub height: u16,
}

/// What a part of a split asks for along the direction of the split.
#[derive(Clone, Copy, Debug, PartialEq, Eq, Structural)]
pub enum Constraint {
    /// At least this many cells.
    Min(u16),
    /// At most this many cells.
    Max(u16),
    /// Exactly this many cells.
    Length(u16),
    /// This many hundredths of the whole.
    Percentage(u16),
    /// This fraction of the whole, numerator first.
    Ratio(u32, u32),
    /// A share of what the other parts leave, in proportion to this weight.
    Fill(u16),
}

/// The direction in which the parts of a split follow one another.
#[derive(Clone, Copy, Debug, PartialEq, Eq, Structural)]
pub enum Direction {
    Horizontal,
    Vertical,
}

/// Whether `part` spans `area` across the direction of a split: a part of a
/// vertical split has the columns of the area, a part of a horizontal split
/// its rows.
pub open spec fn spans(direction: Direction, area: Rect, part: Rect) -> bool {
    match direction {
        Direction::Vertical => part.x == area.x && part.width == area.width,
        Direction::Horizontal => part.y == area.y && part.height == area.height,
    }
}

/// Where an area begins along a direction: its first column for the
/// horizontal direction, its first row for the vertical one.
pub open spec fn start_of(direction: Direction, area: Rect) -> int {
    match direction {
        Direction::Horizontal => area.x as int,
        Direction::Vertical => area.y as int,
    }
}

/// How far an area reaches along a direction: its width for the horizontal
/// direction, its height for the vertical one.
pub open spec fn extent_of(direction: Direction, area: Rect) -> int {
    match direction {
        Direction::Horizontal => area.width as int,
        Direction::Vertical => area.height as int,
    }
}

/// Where an area ends along a direction: the column or row after its last.
pub open spec fn end_of(direction: Direction, area: Rect) -> int {
    start_of(direction, area) + extent_of(direction, area)
}

/// Where an area ends along a direction as far as the grid goes: its end,
/// or the last coordinate of the grid if the end lies beyond it.
pub open spec fn limit_of(direction: Direction, area: Rect) -> int {
    if end_of(direction, area) <= u16::MAX {
        end_of(direction, area)
    } else {
        u16::MAX as int
    }
}

/// Whether `part` begins and ends within `area` along a direction.
pub open spec fn within(direction: Direction, area: Rect, part: Rect) -> bool {
    &&& start_of(direction, area) <= start_of(direction, part)
    &&& end_of(direction, part) <= limit_of(direction, area)
}

/// Whether `part` is a part of `area` cut along a direction: it lies within
/// the area along the direction and spans it across.
pub open spec fn inside(direction: Direction, area: Rect, part: Rect) -> bool {
    spans(direction, area, part) && within(direction, area, part)
}

/// Whether `second` begins where `first` ends, or later, along a direction.
pub open spec fn follows(direction: Direction, first: Rect, second: Rect) -> bool {
    end_of(direction, first) <= start_of(direction, second)
}

/// Whether the parts follow one another along a direction, none beginning
/// before an earlier one has ended.
pub open spec fn in_sequence(direction: Direction, parts: Seq<Rect>) -> bool {
    forall|i: int, j: int|
        0 <= i < j < parts.len() ==> follows(direction, #[trigger] parts[i], #[trigger] parts[j])
}

/// Whether the parts lie within `area` along a direction, one after another.
pub open spec fn fits(direction: Direction, area: Rect, parts: Seq<Rect>) -> bool {
    &&& forall|i: int| 0 <= i < parts.len() ==> within(direction, area, #[trigger] parts[i])
    &&& in_sequence(direction, parts)
}

/// Calls `ratatui::layout::Layout::split` on a layout made by `Layout::new`
/// from the given direction and constraints, so with no margin and no
/// spacing. The contract claims that there is one part for each constraint,
/// that each part spans the area across the direction of the split, and that
/// each part begins and ends within the area along that direction: the
/// solver is required to keep every boundary between the two ends of the
/// area, which are whole cells, and a boundary is rounded to a whole cell
/// before a part is made of it. Where within the area the parts begin and
/// end is the solver's choice and is left open. So is their order: the
/// solver is required to keep the boundaries in order as well, but it
/// reckons in floating point and each boundary is rounded for itself, so
/// nothing is claimed of it here and [`settle`] looks after it.
#[verifier::external_body]
fn split(direction: Direction, constraints: &Vec<Constraint>, area: Rect) -> (parts: Vec<Rect>)
    ensures
        parts@.len() == constraints@.len(),
        forall|i: int| 0 <= i < parts@.len() ==> inside(direction, area, #[trigger] parts@[i]),
{
    let Rect { x, y, width, height } = area;
    let direction = match direction {
        Direction::Horizontal => TermDirection::Horizontal,
        Direction::Vertical => TermDirection::Vertical
    };
    Layout::new(direction, constraints.iter().map(|ask| match *ask {
        Constraint::Min(n) => TermConstraint::Min(n),
        Constraint::Max(n) => TermConstraint::Max(n),
        Constraint::Length(n) => TermConstraint::Length(n),
        Constraint::Percentage(n) => TermConstraint::Percentage(n),
        Constraint::Ratio(n, d) => TermConstraint::Ratio(n, d),
        Constraint::Fill(n) => TermConstraint::Fill(n)
    })).split(TermRect { x, y, width, height }).iter()
        .map(|&TermRect { x, y, width, height }| Rect { x, y, width, height }).collect()
}

/// A pane and the rectangle it draws itself into.
#[derive(Clone, Copy, Debug, PartialEq, Eq, Structural)]
pub struct Placement {
    /// The pane's index.
    pub pane: usize,
    pub area: Rect,
}

/// The two columns of a content area.
#[derive(Debug, PartialEq, Eq)]
pub struct Columns {
    /// The left column.
    pub left: Rect,
    /// The right column.
    pub right: Rect,
    /// The heights asked of the solver for the panes of the left column,
    /// from the top.
    pub left_heights: Vec<Constraint>,
    /// The heights asked of the solver for the panes of the right column,
    /// from the top.
    pub right_heights: Vec<Constraint>,
}

/// The partition of a frame.
#[derive(Debug, PartialEq, Eq)]
pub struct FrameLayout {
    /// What the panes have between them: the frame without the status line.
    pub content: Rect,
    /// The status line, below the content area.
    pub status: Rect,
    /// The columns of the content area, unless one pane has all of it.
    pub columns: Option<Columns>,
    /// The panes to draw, each with its rectangle, in drawing order.
    pub panes: Vec<Placement>,
}

/// The weight of the content area against the status line.
pub const CONTENT_WEIGHT: u16 = 1;

/// The most rows that the status line takes.
pub const STATUS_ROWS: u16 = 1;

/// The weight of the left column.
pub const LEFT_WEIGHT: u16 = 1;

/// The weight of the right column.
pub const RIGHT_WEIGHT: u16 = 3;

/// What the two rows of a frame ask for, from the top: the content area
/// takes what is left, the status line at most one row.
pub open spec fn frame_rows() -> Seq<Constraint> {
    seq![Constraint::Fill(CONTENT_WEIGHT), Constraint::Max(STATUS_ROWS)]
}

/// What the two columns of the content area ask for, from the left: shares
/// of one to three.
pub open spec fn content_columns() -> Seq<Constraint> {
    seq![Constraint::Fill(LEFT_WEIGHT), Constraint::Fill(RIGHT_WEIGHT)]
}

/// What the two rows of a frame ask for.
pub fn frame_constraints() -> (constraints: Vec<Constraint>)
    ensures
        constraints@ == frame_rows(),
{
    let mut constraints: Vec<Constraint> = Vec::new();
    constraints.push(Constraint::Fill(CONTENT_WEIGHT));
    constraints.push(Constraint::Max(STATUS_ROWS));
    constraints
}

/// What the two columns of the content area ask for.
pub fn column_constraints() -> (constraints: Vec<Constraint>)
    ensures
        constraints@ == content_columns(),
{
    let mut constraints: Vec<Constraint> = Vec::new();
    constraints.push(Constraint::Fill(LEFT_WEIGHT));
    constraints.push(Constraint::Fill(RIGHT_WEIGHT));
    constraints
}

/// Where an area begins along a direction.
fn start(direction: Direction, area: Rect) -> (start: u16)
    ensures
        start == start_of(direction, area),
{
    match direction {
        Direction::Horizontal => area.x,
        Direction::Vertical => area.y,
    }
}

/// How far an area reaches along a direction.
fn extent(direction: Direction, area: Rect) -> (extent: u16)
    ensures
        extent == extent_of(direction, area),
{
    match direction {
        Direction::Horizontal => area.width,
        Direction::Vertical => area.height,
    }
}

/// `part` with another beginning and extent along a direction.
fn placed(direction: Direction, part: Rect, start: u16, extent: u16) -> (placed: Rect)
    ensures
        start_of(direction, placed) == start,
        extent_of(direction, placed) == extent,
        spans(direction, part, placed),
{
    match direction {
        Direction::Horizontal => Rect { x: start, y: part.y, width: extent, height: part.height },
        Direction::Vertical => Rect { x: part.x, y: start, width: part.width, height: extent },
    }
}

/// The parts of a split, made to lie within the area one after another.
///
/// Each part is taken in turn. It is made to begin where the part before it
/// ends if it began earlier, and it is cut off at the ends of the area. What
/// it has across the direction of the split is left alone. Parts that lie
/// within the area one after another already, as the solver is meant to hand
/// them out, come back as they are.
pub fn settle(direction: Direction, area: Rect, parts: Vec<Rect>) -> (settled: Vec<Rect>)
    ensures
        settled@.len() == parts@.len(),
        forall|i: int|
            0 <= i < settled@.len() ==> within(direction, area, #[trigger] settled@[i]),
        forall|i: int|
            0 <= i < settled@.len() ==> spans(direction, parts@[i], #[trigger] settled@[i]),
        forall|i: int|
            0 <= i < settled@.len() ==> extent_of(direction, #[trigger] settled@[i]) <= extent_of(
                direction,
                parts@[i],
            ),
        in_sequence(direction, settled@),
        fits(direction, area, parts@) ==> settled@ == parts@,
{
    let low = start(direction, area);
    let reach: u32 = low as u32 + extent(direction, area) as u32;
    let high: u16 = if reach > 0xffff {
        0xffff
    } else {
        reach as u16
    };
    let mut settled: Vec<Rect> = Vec::new();
    let mut cursor: u16 = low;
    let mut i: usize = 0;
    while i < parts.len()
        invariant
            i <= parts.len(),
            settled@.len() == i,
            low == start_of(direction, area),
            high == limit_of(direction, area),
            low <= cursor <= high,
            i == 0 ==> cursor == low,
            forall|k: int|
                0 <= k < i ==> {
                    &&& within(direction, area, #[trigger] settled@[k])
                    &&& spans(direction, parts@[k], settled@[k])
                    &&& extent_of(direction, settled@[k]) <= extent_of(direction, parts@[k])
                    &&& end_of(direction, settled@[k]) <= cursor
                },
            in_sequence(direction, settled@),
            fits(direction, area, parts@.take(i as int)) ==> {
                &&& settled@ == parts@.take(i as int)
                &&& i > 0 ==> cursor == end_of(direction, parts@[i - 1])
            },
        decreases parts.len() - i,
    {
        let part = parts[i];
        let begin = start(direction, part);
        let end: u32 = begin as u32 + extent(direction, part) as u32;
        let from: u16 = if begin < cursor {
            cursor
        } else if begin > high {
            high
        } else {
            begin
        };
        let to: u16 = if end <= from as u32 {
            from
        } else if end >= high as u32 {
            high
        } else {
            end as u16
        };
        let ghost before = settled@;
        settled.push(placed(direction, part, from, to - from));
        proof {
            assert(parts@.take(i + 1).drop_last() =~= parts@.take(i as int));
            if fits(direction, area, parts@.take(i + 1)) {
                assert(within(direction, area, parts@.take(i + 1)[i as int]));
                assert forall|k: int| 0 <= k < i implies within(
                    direction,
                    area,
                    #[trigger] parts@.take(i as int)[k],
                ) by {
                    assert(within(direction, area, parts@.take(i + 1)[k]));
                }
                assert forall|k: int, l: int| 0 <= k < l < i implies follows(
                    direction,
                    #[trigger] parts@.take(i as int)[k],
                    #[trigger] parts@.take(i as int)[l],
                ) by {
                    assert(follows(direction, parts@.take(i + 1)[k], parts@.take(i + 1)[l]));
                }
                if i > 0 {
                    assert(follows(
                        direction,
                        parts@.take(i + 1)[i - 1],
                        parts@.take(i + 1)[i as int],
                    ));
                }
                assert(settled@[i as int] == part);
                assert(settled@ =~= parts@.take(i + 1));
            }
            assert forall|k: int, l: int| 0 <= k < l < i + 1 implies follows(
                direction,
                #[trigger] settled@[k],
                #[trigger] settled@[l],
            ) by {
                assert(settled@[k] == before[k]);
                if l < i {
                    assert(settled@[l] == before[l]);
                }
            }
        }
        cursor = to;
        i += 1;
    }
    assert(parts@.take(i as int) =~= parts@);
    settled
}

/// The two parts of a split in two.
pub fn pair(parts: &Vec<Rect>) -> (pair: (Rect, Rect))
    requires
        parts@.len() == 2,
    ensures
        pair == (parts@[0], parts@[1]),
{
    (parts[0], parts[1])
}

/// The two rows of a frame: the content area first and the status line
/// second, as the solver lays out [`frame_constraints`] from the top. Both
/// are parts of the frame, and the status line lies below the content area.
pub fn split_frame(area: Rect) -> (rows: (Rect, Rect))
    ensures
        inside(Direction::Vertical, area, rows.0),
        inside(Direction::Vertical, area, rows.1),
        follows(Direction::Vertical, rows.0, rows.1),
{
    let constraints = frame_constraints();
    let rows = settle(Direction::Vertical, area, split(Direction::Vertical, &constraints, area));
    pair(&rows)
}

/// The two columns of a content area: the left one first and the right one
/// second, as the solver lays out [`column_constraints`] from the left. Both
/// are parts of the content area, and the right column lies to the right of
/// the left one.
pub fn split_columns(content: Rect) -> (columns: (Rect, Rect))
    ensures
        inside(Direction::Horizontal, content, columns.0),
        inside(Direction::Horizontal, content, columns.1),
        follows(Direction::Horizontal, columns.0, columns.1),
{
    let constraints = column_constraints();
    let columns = settle(
        Direction::Horizontal,
        content,
        split(Direction::Horizontal, &constraints, content),
    );
    pair(&columns)
}

/// The rectangles of the panes of one column, from the top, as the solver
/// lays out the heights that the panes ask for. There is one for each
/// height, each is a part of the column, and each lies below the one before
/// it.
pub fn stack(heights: &Vec<Constraint>, column: Rect) -> (parts: Vec<Rect>)
    ensures
        parts@.len() == heights@.len(),
        forall|i: int|
            0 <= i < parts@.len() ==> inside(Direction::Vertical, column, #[trigger] parts@[i]),
        in_sequence(Direction::Vertical, parts@),
{
    settle(Direction::Vertical, column, split(Direction::Vertical, heights, column))
}

/// The heights of the five panes, divided between the columns: the first
/// two for the left column, the other three for the right one.
pub fn column_heights(heights: Vec<Constraint>) -> (columns: (Vec<Constraint>, Vec<Constraint>))
    requires
        heights@.len() == 5,
    ensures
        columns.0@ == heights@.subrange(0, 2),
        columns.1@ == heights@.subrange(2, 5),
{
    let mut left: Vec<Constraint> = Vec::new();
    left.push(heights[0]);
    left.push(heights[1]);
    let mut right: Vec<Constraint> = Vec::new();
    right.push(heights[2]);
    right.push(heights[3]);
    right.push(heights[4]);
    (left, right)
}

/// The placement of the one pane that has the whole content area.
pub open spec fn fullscreen_placements(pane: usize, content: Rect) -> Seq<Placement> {
    seq![(Placement { pane, area: content })]
}

/// The placements of the five panes in two columns: the first two panes in
/// the left column, the other three in the right one, each column from the
/// top.
pub open spec fn grid_placements(left: Seq<Rect>, right: Seq<Rect>) -> Seq<Placement> {
    seq![
        (Placement { pane: 0, area: left[0] }),
        (Placement { pane: 1, area: left[1] }),
        (Placement { pane: 2, area: right[0] }),
        (Placement { pane: 3, area: right[1] }),
        (Placement { pane: 4, area: right[2] }),
    ]
}

/// The placement of the one pane that has the whole content area.
pub fn place_fullscreen(pane: usize, content: Rect) -> (placements: Vec<Placement>)
    ensures
        placements@ == fullscreen_placements(pane, content),
{
    let mut placements: Vec<Placement> = Vec::new();
    placements.push(Placement { pane, area: content });
    placements
}

/// The placements of the five panes in two columns, given the rectangles of
/// the left column and those of the right column, each from the top.
pub fn place_grid(left: &Vec<Rect>, right: &Vec<Rect>) -> (placements: Vec<Placement>)
    requires
        left@.len() == 2,
        right@.len() == 3,
    ensures
        placements@ == grid_placements(left@, right@),
{
    let mut placements: Vec<Placement> = Vec::new();
    placements.push(Placement { pane: 0, area: left[0] });
    placements.push(Placement { pane: 1, area: left[1] });
    placements.push(Placement { pane: 2, area: right[0] });
    placements.push(Placement { pane: 3, area: right[1] });
    placements.push(Placement { pane: 4, area: right[2] });
    placements
}

} // verus!
