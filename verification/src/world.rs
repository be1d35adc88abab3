//! The game as a mathematical value, and what one tick does to it.
use vstd::prelude::*;
use crate::geometry::{Direction, Point};
use crate::grid::on_board;
use crate::snake::SnakeModel;

verus! {

/// Everything a tick reads and changes.
pub struct World {
    pub snake: SnakeModel,
    /// The cell of the fruit.
    pub fruit: Point,
    /// The number of fruits eaten.
    pub score: int,
    /// The time between two ticks, in tenths of a second.
    pub interval: int,
    /// Whether the game has ended.
    pub gameover: bool,
}

impl World {
    /// The cell the head moves to at the next tick.
    pub open spec fn next_head(self) -> Point {
        self.snake.head.plus(self.snake.dir.delta())
    }

    /// Whether the next tick eats the fruit: the head moves onto its cell.
    pub open spec fn eats(self) -> bool {
        self.next_head() == self.fruit
    }

    /// The body after the next tick. The cell the head leaves becomes the
    /// newest segment; the oldest segment goes unless the fruit is eaten.
    pub open spec fn next_body(self) -> Seq<Point> {
        let grown = seq![self.snake.head] + self.snake.body;
        if self.eats() {
            grown
        } else {
            grown.drop_last()
        }
    }

    /// Whether the snake has run into itself: a segment of the body lies on
    /// the cell of the head.
    pub open spec fn collides(self) -> bool {
        self.snake.body.contains(self.snake.head)
    }

    /// The world one tick later. `respawn` is the cell where the next fruit
    /// appears if this tick eats the present one.
    ///
    /// The head moves one cell in the direction of the snake. If it reaches
    /// the fruit, the snake grows by one segment, the score goes up by one,
    /// the interval goes down by one tenth, and the fruit moves to `respawn`.
    /// The game is over from then on if the head has left the playing field
    /// or lies on a segment of the body.
    pub open spec fn tick(self, respawn: Point) -> World {
        let head = self.next_head();
        let body = self.next_body();
        World {
            snake: SnakeModel { dir: self.snake.dir, head, body },
            fruit: if self.eats() { respawn } else { self.fruit },
            score: if self.eats() { self.score + 1 } else { self.score },
            interval: if self.eats() { self.interval - 1 } else { self.interval },
            gameover: self.gameover || !on_board(head) || body.contains(head),
        }
    }

    /// The world after the collision check: over if it was over or if the
    /// snake has run into itself.
    pub open spec fn checked(self) -> World {
        World { gameover: self.gameover || self.collides(), ..self }
    }

    /// The cell the head reaches after `k` steps in the direction of the
    /// snake.
    pub open spec fn head_after(self, k: int) -> Point {
        self.snake.head.plus(self.snake.dir.delta().times(k))
    }

    /// The world after one tick for each cell of `respawns`, in order, the
    /// direction of the snake left as it is. The tick numbered `i` takes
    /// `respawns[i]` for the next fruit.
    pub open spec fn ticks(self, respawns: Seq<Point>) -> World
        decreases respawns.len(),
    {
        if respawns.len() == 0 {
            self
        } else {
            self.ticks(respawns.drop_last()).tick(respawns.last())
        }
    }
}

/// A tick leaves the direction alone, moves the head by one step, and never
/// lowers the score. Without the fruit eaten the body keeps its length, and
/// score, interval and fruit stay; with it the body grows by one segment,
/// the score rises by one and the interval falls by one tenth of a second.
pub proof fn lemma_tick_accounts(w: World, respawn: Point)
    ensures
        w.tick(respawn).snake.dir == w.snake.dir,
        w.tick(respawn).snake.head == w.head_after(1),
        w.tick(respawn).score >= w.score,
        !w.eats() ==> {
            &&& w.tick(respawn).snake.body.len() == w.snake.body.len()
            &&& w.tick(respawn).score == w.score
            &&& w.tick(respawn).interval == w.interval
            &&& w.tick(respawn).fruit == w.fruit
        },
        w.eats() ==> {
            &&& w.tick(respawn).snake.body.len() == w.snake.body.len() + 1
            &&& w.tick(respawn).score == w.score + 1
            &&& w.tick(respawn).interval == w.interval - 1
            &&& w.tick(respawn).fruit == respawn
        },
{
}

/// After a tick the game is over whenever the head lies on a segment of the
/// body or outside the playing field; a game that was over stays over; and
/// no other tick ends a game.
pub proof fn lemma_tick_ends_game(w: World, respawn: Point)
    ensures
        w.tick(respawn).collides() ==> w.tick(respawn).gameover,
        !on_board(w.tick(respawn).snake.head) ==> w.tick(respawn).gameover,
        w.gameover ==> w.tick(respawn).gameover,
        w.tick(respawn).gameover ==> w.gameover || w.tick(respawn).collides() || !on_board(
            w.tick(respawn).snake.head,
        ),
{
}

/// The collision check changes nothing right after a tick: the tick has
/// made it already.
pub proof fn lemma_check_after_tick(w: World, respawn: Point)
    ensures
        w.tick(respawn).checked() == w.tick(respawn),
{
}

/// The cell reached after `k` steps, written out for each direction: one
/// coordinate has changed by `k`, the other two have not.
pub proof fn lemma_head_after(w: World, k: int)
    ensures
        w.head_after(k) == match w.snake.dir {
            Direction::Left => Point { z: w.snake.head.z - k, ..w.snake.head },
            Direction::Right => Point { z: w.snake.head.z + k, ..w.snake.head },
            Direction::Up => Point { x: w.snake.head.x + k, ..w.snake.head },
            Direction::Down => Point { x: w.snake.head.x - k, ..w.snake.head },
        },
{
}

/// After any number of ticks with the direction left alone, the snake
/// still heads the same way and its head has moved one cell for each tick.
pub proof fn lemma_ticks_head(w: World, respawns: Seq<Point>)
    ensures
        w.ticks(respawns).snake.dir == w.snake.dir,
        w.ticks(respawns).snake.head == w.head_after(respawns.len() as int),
    decreases respawns.len(),
{
    let n = respawns.len() as int;
    lemma_head_after(w, n);
    if n > 0 {
        lemma_ticks_head(w, respawns.drop_last());
        lemma_head_after(w, n - 1);
    }
}

/// A snake that runs straight and never into itself ends the game exactly
/// by leaving the playing field. For a game that is not over, and ticks of
/// which none puts the head on a segment of the body: the game is over
/// after them if and only if one of the cells that the head passed lies
/// outside the field.
pub proof fn lemma_ticks_leave_board(w: World, respawns: Seq<Point>)
    requires
        !w.gameover,
        forall|k: int| 1 <= k <= respawns.len() ==> !(#[trigger] w.ticks(respawns.take(k))).collides(),
    ensures
        w.ticks(respawns).gameover <==> exists|k: int|
            1 <= k <= respawns.len() && !on_board(#[trigger] w.head_after(k)),
    decreases respawns.len(),
{
    let n = respawns.len() as int;
    if n > 0 {
        let shorter = respawns.drop_last();
        assert forall|k: int| 1 <= k <= shorter.len() implies !(#[trigger] w.ticks(
            shorter.take(k),
        )).collides() by {
            assert(shorter.take(k) =~= respawns.take(k));
        }
        lemma_ticks_leave_board(w, shorter);
        lemma_ticks_head(w, respawns);
        assert(respawns.take(n) =~= respawns);
        let last = w.ticks(respawns);
        assert(!last.collides());
        assert(last.gameover == (w.ticks(shorter).gameover || !on_board(w.head_after(n))));
        if last.gameover {
            if w.ticks(shorter).gameover {
                let k = choose|k: int| 1 <= k <= shorter.len() && !on_board(#[trigger] w.head_after(k));
                assert(1 <= k <= n && !on_board(w.head_after(k)));
            } else {
                assert(1 <= n <= n && !on_board(w.head_after(n)));
            }
        }
        if exists|k: int| 1 <= k <= n && !on_board(#[trigger] w.head_after(k)) {
            let k = choose|k: int| 1 <= k <= n && !on_board(#[trigger] w.head_after(k));
            if k < n {
                assert(1 <= k <= shorter.len() && !on_board(w.head_after(k)));
            }
        }
    }
}

/// The same for a snake that starts inside the playing field: the game is
/// over after the ticks if and only if the cell that the head has reached
/// lies outside the field, which is when a coordinate has reached the size
/// of the field or fallen below 0.
pub proof fn lemma_ticks_leave_board_from_inside(w: World, respawns: Seq<Point>)
    requires
        !w.gameover,
        on_board(w.snake.head),
        forall|k: int| 1 <= k <= respawns.len() ==> !(#[trigger] w.ticks(respawns.take(k))).collides(),
    ensures
        w.ticks(respawns).gameover <==> !on_board(w.head_after(respawns.len() as int)),
        w.ticks(respawns).snake.head == w.head_after(respawns.len() as int),
{
    let n = respawns.len() as int;
    lemma_ticks_leave_board(w, respawns);
    lemma_ticks_head(w, respawns);
    if exists|k: int| 1 <= k <= n && !on_board(#[trigger] w.head_after(k)) {
        let k = choose|k: int| 1 <= k <= n && !on_board(#[trigger] w.head_after(k));
        lemma_head_after(w, k);
        lemma_head_after(w, n);
        assert(!on_board(w.head_after(n)));
    }
    if !on_board(w.head_after(n)) {
        lemma_head_after(w, n);
        assert(n != 0);
        assert(1 <= n <= n && !on_board(w.head_after(n)));
    }
}

} // verus!
