//! Cells of the grid, displacements between them, and the four directions
//! in which the snake can be steered.
use vstd::prelude::*;

verus! {

/// A position or a displacement in whole cells, as a mathematical value.
pub struct Point {
    pub x: int,
    pub y: int,
    pub z: int,
}

impl Point {
    /// The sum of two displacements, coordinate by coordinate.
    pub open spec fn plus(self, other: Point) -> Point {
        Point { x: self.x + other.x, y: self.y + other.y, z: self.z + other.z }
    }

    /// This displacement taken `n` times.
    pub open spec fn times(self, n: int) -> Point {
        Point { x: n * self.x, y: n * self.y, z: n * self.z }
    }

    /// Whether each coordinate can be held in an `i32`.
    pub open spec fn fits(self) -> bool {
        &&& i32::MIN <= self.x <= i32::MAX
        &&& i32::MIN <= self.y <= i32::MAX
        &&& i32::MIN <= self.z <= i32::MAX
    }
}

/// A cell of the grid, or a displacement, with machine integers as
/// coordinates. One unit is one cell.
#[derive(Clone, Copy, Debug, PartialEq, Eq, Structural)]
pub struct Cell {
    pub x: i32,
    pub y: i32,
    pub z: i32,
}

impl View for Cell {
    type V = Point;

    open spec fn view(&self) -> Point {
        Point { x: self.x as int, y: self.y as int, z: self.z as int }
    }
}

impl Cell {
    /// The cell with the given coordinates.
    pub fn new(x: i32, y: i32, z: i32) -> (c: Cell)
        ensures
            c == (Cell { x, y, z }),
    {
        Cell { x, y, z }
    }

    /// The cell one step away from this one in direction `dir`.
    pub fn step(self, dir: Direction) -> (c: Cell)
        requires
            self@.plus(dir.delta()).fits(),
        ensures
            c@ == self@.plus(dir.delta()),
    {
        let d = dir.vector();
        Cell { x: self.x + d.x, y: self.y + d.y, z: self.z + d.z }
    }
}

/// The directions in which the snake can move: along the x axis (`Up` and
/// `Down`) and along the z axis (`Right` and `Left`).
#[derive(Clone, Copy, Debug, PartialEq, Eq, Structural)]
pub enum Direction {
    Left,
    Right,
    Up,
    Down,
}

impl Direction {
    /// The unit displacement of one step in this direction.
    pub open spec fn delta(self) -> Point {
        match self {
            Direction::Left => Point { x: 0, y: 0, z: -1 },
            Direction::Right => Point { x: 0, y: 0, z: 1 },
            Direction::Up => Point { x: 1, y: 0, z: 0 },
            Direction::Down => Point { x: -1, y: 0, z: 0 },
        }
    }

    /// The unit displacement of one step in this direction.
    pub fn vector(self) -> (v: Cell)
        ensures
            v@ == self.delta(),
    {
        match self {
            Direction::Left => Cell { x: 0, y: 0, z: -1 },
            Direction::Right => Cell { x: 0, y: 0, z: 1 },
            Direction::Up => Cell { x: 1, y: 0, z: 0 },
            Direction::Down => Cell { x: -1, y: 0, z: 0 },
        }
    }
}

} // verus!
