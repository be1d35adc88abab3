//! The playing field: a cube of `size` cells along each axis.
use vstd::prelude::*;
use crate::geometry::{Cell, Point};

verus! {

/// The number of cells along each axis of the playing field.
pub const SQUARES: i16 = 20;

/// Whether `p` lies inside a field of `size` cells per axis: each coordinate
/// is at least 0 and below `size`.
pub open spec fn in_grid(p: Point, size: int) -> bool {
    &&& 0 <= p.x < size
    &&& 0 <= p.y < size
    &&& 0 <= p.z < size
}

/// Whether `p` lies inside the playing field.
pub open spec fn on_board(p: Point) -> bool {
    in_grid(p, SQUARES as int)
}

/// A straight line between two points, in units of one cell edge.
#[derive(Clone, Copy, Debug, PartialEq, Eq, Structural)]
pub struct Line {
    pub start: Cell,
    pub end: Cell,
}

impl View for Line {
    type V = (Point, Point);

    open spec fn view(&self) -> (Point, Point) {
        (self.start@, self.end@)
    }
}

/// The line on the ground at `x == i`, from one side of the field to the
/// other.
pub open spec fn line_at_x(i: int, size: int) -> (Point, Point) {
    (Point { x: i, y: 0, z: 0 }, Point { x: i, y: 0, z: size })
}

/// The line on the ground at `z == i`, from one side of the field to the
/// other.
pub open spec fn line_at_z(i: int, size: int) -> (Point, Point) {
    (Point { x: 0, y: 0, z: i }, Point { x: size, y: 0, z: i })
}

/// The lines that divide the ground of a field of `size` cells per axis
/// into its cells: for each `i` from 1 to `size - 1`, in that order, the
/// line at `x == i` and then the line at `z == i`. The edges of the field
/// are not among them.
pub open spec fn ground_lines(size: int) -> Seq<(Point, Point)> {
    Seq::new(
        if size > 1 {
            (2 * (size - 1)) as nat
        } else {
            0
        },
        |k: int|
            if k % 2 == 0 {
                line_at_x(k / 2 + 1, size)
            } else {
                line_at_z(k / 2 + 1, size)
            },
    )
}

/// A playing field. Its size never changes.
#[derive(Clone, Copy, Debug, PartialEq, Eq, Structural)]
pub struct Grid {
    pub size: i16,
}

impl Grid {
    /// The playing field of the game, `SQUARES` cells along each axis.
    pub fn new() -> (g: Grid)
        ensures
            g.size == SQUARES,
    {
        Grid { size: SQUARES }
    }

    /// Whether the cell lies inside this field.
    pub fn contains(&self, c: Cell) -> (inside: bool)
        ensures
            inside == in_grid(c@, self.size as int),
    {
        let size: i32 = self.size as i32;
        0 <= c.x && c.x < size && 0 <= c.y && c.y < size && 0 <= c.z && c.z < size
    }

    /// The lines to draw on the ground of this field, in units of one cell
    /// edge.
    pub fn lines(&self) -> (lines: Vec<Line>)
        ensures
            lines@.map_values(|l: Line| l@) == ground_lines(self.size as int),
    {
        let size: i32 = self.size as i32;
        let mut lines: Vec<Line> = Vec::new();
        let mut i: i32 = 1;
        while i < size
            invariant
                size == self.size,
                1 <= i,
                i <= size || i == 1,
                lines@.len() == 2 * (i - 1),
                forall|k: int|
                    0 <= k < lines@.len() ==> (#[trigger] lines@[k])@ == ground_lines(size as int)[k],
            decreases size - i,
        {
            lines.push(Line { start: Cell { x: i, y: 0, z: 0 }, end: Cell { x: i, y: 0, z: size } });
            lines.push(Line { start: Cell { x: 0, y: 0, z: i }, end: Cell { x: size, y: 0, z: i } });
            i += 1;
        }
        assert(lines@.map_values(|l: Line| l@) =~= ground_lines(self.size as int));
        lines
    }
}

} // verus!
