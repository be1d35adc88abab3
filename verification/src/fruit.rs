//! The fruit: where it may appear, and how a new one is drawn.
use vstd::prelude::*;
use crate::geometry::{Cell, Point};
use crate::grid::SQUARES;

verus! {

/// The height at which the game is played: the snake starts there and every
/// fruit appears there.
pub const FLOOR: i32 = 1;

/// Whether a new fruit may appear at `p`: on the floor, at any cell of the
/// playing field.
pub open spec fn spawnable(p: Point) -> bool {
    &&& 0 <= p.x < SQUARES
    &&& p.y == FLOOR
    &&& 0 <= p.z < SQUARES
}

/// Draws a whole number from the generator that `macroquad::rand` keeps for
/// the process, by `macroquad::rand::gen_range`. Believed of it: for a range
/// that starts at 0 or above and is not empty, the number is at least `low`
/// and below `high`. Which number comes is not stated; it changes from call
/// to call.
#[verifier::external_body]
fn gen_range(low: i16, high: i16) -> (n: i16)
    requires
        0 <= low < high,
    ensures
        low <= n < high,
{
    macroquad::rand::gen_range(low, high)
}

/// The cell on the floor with the given two coordinates.
pub fn fruit_at(x: i16, z: i16) -> (c: Cell)
    ensures
        c@ == (Point { x: x as int, y: FLOOR as int, z: z as int }),
{
    Cell { x: x as i32, y: FLOOR, z: z as i32 }
}

/// A cell for a new fruit, drawn at random among the cells of the floor.
/// The cell may be one that the snake occupies.
pub fn generate_fruit() -> (c: Cell)
    ensures
        spawnable(c@),
{
    let x = gen_range(0, SQUARES);
    let z = gen_range(0, SQUARES);
    fruit_at(x, z)
}

} // verus!
