//! The snake and the keys that steer it.
use std::collections::VecDeque;
use vstd::prelude::*;
use crate::geometry::{Cell, Direction, Point};

verus! {

/// The snake as a mathematical value.
pub struct SnakeModel {
    /// The direction of the next step.
    pub dir: Direction,
    /// The cell of the head.
    pub head: Point,
    /// The cells the head left behind, the one it left last first.
    pub body: Seq<Point>,
}

/// The views of a sequence of cells, in the same order.
pub open spec fn points(cells: Seq<Cell>) -> Seq<Point> {
    cells.map_values(|c: Cell| c@)
}

/// The snake: where it is heading, where its head is, and the cells of its
/// body, newest first.
pub struct Snake {
    pub dir: Direction,
    pub head: Cell,
    pub body: VecDeque<Cell>,
}

impl View for Snake {
    type V = SnakeModel;

    open spec fn view(&self) -> SnakeModel {
        SnakeModel { dir: self.dir, head: self.head@, body: points(self.body@) }
    }
}

/// The snake at the start of a game, as a mathematical value: no body, the
/// head at (0, 1, 0), heading up.
pub open spec fn initial_snake() -> SnakeModel {
    SnakeModel { dir: Direction::Up, head: Point { x: 0, y: 1, z: 0 }, body: Seq::empty() }
}

/// A sequence of points holds `c@` exactly when the cells it is the view of
/// hold `c`.
pub proof fn lemma_points_contains(cells: Seq<Cell>, c: Cell)
    ensures
        points(cells).contains(c@) <==> cells.contains(c),
{
    let ps = points(cells);
    if ps.contains(c@) {
        let i = choose|i: int| 0 <= i < ps.len() && ps[i] == c@;
        assert(cells[i]@ == c@);
        assert(cells[i] == c);
    }
    if cells.contains(c) {
        let i = choose|i: int| 0 <= i < cells.len() && cells[i] == c;
        assert(ps[i] == c@);
    }
}

impl Snake {
    /// The snake at the start of a game.
    pub fn new() -> (s: Snake)
        ensures
            s@ == initial_snake(),
    {
        let s = Snake { dir: Direction::Up, head: Cell { x: 0, y: 1, z: 0 }, body: VecDeque::new() };
        assert(s@.body =~= Seq::<Point>::empty());
        s
    }

    /// Whether a segment of the body lies on cell `c`.
    pub fn body_contains(&self, c: Cell) -> (found: bool)
        ensures
            found == self@.body.contains(c@),
    {
        let n = self.body.len();
        let mut i: usize = 0;
        while i < n
            invariant
                n == self.body@.len(),
                0 <= i <= n,
                forall|j: int| 0 <= j < i ==> self.body@[j] != c,
            decreases n - i,
        {
            if self.body[i] == c {
                proof {
                    lemma_points_contains(self.body@, c);
                }
                return true;
            }
            i += 1;
        }
        proof {
            lemma_points_contains(self.body@, c);
        }
        false
    }
}

/// The keys the game listens to.
#[derive(Clone, Copy, Debug, PartialEq, Eq, Structural)]
pub enum Key {
    A,
    D,
    W,
    S,
    R,
}

impl Key {
    /// The direction this key steers to, if it is one of the four that
    /// steer: `A` left, `D` right, `W` up, `S` down.
    pub open spec fn spec_direction(self) -> Option<Direction> {
        match self {
            Key::A => Some(Direction::Left),
            Key::D => Some(Direction::Right),
            Key::W => Some(Direction::Up),
            Key::S => Some(Direction::Down),
            Key::R => None,
        }
    }

    /// The direction this key steers to, if it is one of the four that
    /// steer.
    #[verifier::when_used_as_spec(spec_direction)]
    pub fn direction(self) -> (d: Option<Direction>)
        ensures
            d == self.spec_direction(),
    {
        match self {
            Key::A => Some(Direction::Left),
            Key::D => Some(Direction::Right),
            Key::W => Some(Direction::Up),
            Key::S => Some(Direction::Down),
            Key::R => None,
        }
    }
}

/// The direction after the keys pressed during one frame, given in the order
/// in which they were pressed: that of the last key that steers, and
/// `current` where none does.
pub open spec fn steer(current: Direction, keys: Seq<Key>) -> Direction
    decreases keys.len(),
{
    if keys.len() == 0 {
        current
    } else {
        match keys.last().direction() {
            Some(d) => d,
            None => steer(current, keys.drop_last()),
        }
    }
}

/// Whether `key` is among `keys`.
pub fn pressed(keys: &[Key], key: Key) -> (found: bool)
    ensures
        found == keys@.contains(key),
{
    let mut i: usize = 0;
    while i < keys.len()
        invariant
            0 <= i <= keys.len(),
            forall|j: int| 0 <= j < i ==> keys@[j] != key,
        decreases keys.len() - i,
    {
        if keys[i] == key {
            return true;
        }
        i += 1;
    }
    false
}

/// Turns the snake as the keys pressed during one frame ask: the last key
/// that steers sets the direction, whatever the direction was. Nothing else
/// of the snake changes.
pub fn handle_input(snake: &mut Snake, keys: &[Key])
    ensures
        final(snake).dir == steer(old(snake).dir, keys@),
        final(snake).head == old(snake).head,
        final(snake).body == old(snake).body,
{
    let mut i: usize = keys.len();
    assert(keys@.take(i as int) =~= keys@);
    while i > 0
        invariant
            0 <= i <= keys.len(),
            *snake == *old(snake),
            steer(snake.dir, keys@) == steer(snake.dir, keys@.take(i as int)),
        decreases i,
    {
        i -= 1;
        proof {
            let prefix = keys@.take(i as int + 1);
            assert(prefix.last() == keys@[i as int]);
            assert(prefix.drop_last() =~= keys@.take(i as int));
        }
        match keys[i].direction() {
            Some(d) => {
                snake.dir = d;
                return;
            },
            None => {},
        }
    }
}

} // verus!
