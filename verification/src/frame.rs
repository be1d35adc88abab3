//! One frame of the game as a mathematical function, and what holds of
//! every world that a game can reach.
use vstd::prelude::*;
use vstd::seq_lib::lemma_no_dup_in_concat;
use vstd::set_lib::{lemma_int_range, lemma_len_subset, set_int_range};
use crate::geometry::{Direction, Point};
use crate::grid::{on_board, SQUARES};
use crate::snake::{initial_snake, steer, Key, SnakeModel};
use crate::world::World;

verus! {

/// The interval between ticks at the start of a game, in tenths of a
/// second.
pub const START_INTERVAL: i32 = 7;

/// What the caller shows after a frame.
#[derive(Clone, Copy, Debug, PartialEq, Eq, Structural)]
pub enum Screen {
    /// The field, the snake and the fruit, and the score.
    Play,
    /// The message that the game is over.
    GameOver,
}

/// What a frame did, for the caller to act on.
#[derive(Clone, Copy, Debug, PartialEq, Eq, Structural)]
pub struct FrameReport {
    /// The game advanced by one tick: the time to the next one starts anew.
    pub ticked: bool,
    /// A new game began: the time to the next tick starts anew.
    pub restarted: bool,
    /// What to show.
    pub screen: Screen,
}

/// The world at the start of a game with the fruit at `fruit`: the snake
/// without a body at its starting cell, no score, the starting interval.
pub open spec fn fresh(fruit: Point) -> World {
    World {
        snake: initial_snake(),
        fruit,
        score: 0,
        interval: START_INTERVAL as int,
        gameover: false,
    }
}

/// The world after the part of a frame that plays. A game that is over is
/// left alone. Otherwise the keys pressed steer the snake, and if a tick is
/// due, the game advances by one, with `fruit` as the next fruit.
pub open spec fn played(w: World, keys: Seq<Key>, tick_due: bool, fruit: Point) -> World {
    if w.gameover {
        w
    } else {
        let turned = World { snake: SnakeModel { dir: steer(w.snake.dir, keys), ..w.snake }, ..w };
        if tick_due {
            turned.tick(fruit)
        } else {
            turned
        }
    }
}

/// Whether the frame starts a new game: the game is over once the frame has
/// played, and `R` is among the keys pressed.
pub open spec fn restarts(w: World, keys: Seq<Key>, tick_due: bool, fruit: Point) -> bool {
    played(w, keys, tick_due, fruit).gameover && keys.contains(Key::R)
}

/// The world after a frame. `fruit` is the cell of the next fruit wherever
/// the frame needs one: when a tick eats the fruit, and when a new game
/// begins.
pub open spec fn after_frame(w: World, keys: Seq<Key>, tick_due: bool, fruit: Point) -> World {
    if restarts(w, keys, tick_due, fruit) {
        fresh(fruit)
    } else {
        played(w, keys, tick_due, fruit)
    }
}

/// What the frame reports. It shows the end of the game in the frame in
/// which the game ends, and still in the frame that starts a new one.
pub open spec fn report_of(w: World, keys: Seq<Key>, tick_due: bool, fruit: Point) -> FrameReport {
    FrameReport {
        ticked: !w.gameover && tick_due,
        restarted: restarts(w, keys, tick_due, fruit),
        screen: if played(w, keys, tick_due, fruit).gameover {
            Screen::GameOver
        } else {
            Screen::Play
        },
    }
}

/// A frame that starts a new game leaves nothing of the old one: the score
/// is 0 again and the interval seven tenths of a second, the snake has no
/// body and its head is back at the starting cell, heading up, and the game
/// is not over. The fruit is the new one.
pub proof fn lemma_restart_resets(w: World, keys: Seq<Key>, tick_due: bool, fruit: Point)
    requires
        restarts(w, keys, tick_due, fruit),
    ensures
        after_frame(w, keys, tick_due, fruit).score == 0,
        after_frame(w, keys, tick_due, fruit).interval == 7,
        after_frame(w, keys, tick_due, fruit).snake.body == Seq::<Point>::empty(),
        after_frame(w, keys, tick_due, fruit).snake.head == (Point { x: 0, y: 1, z: 0 }),
        after_frame(w, keys, tick_due, fruit).snake.dir == Direction::Up,
        !after_frame(w, keys, tick_due, fruit).gameover,
        after_frame(w, keys, tick_due, fruit).fruit == fruit,
{
}

/// Only a game that is over starts anew, and only on `R`; a game that goes
/// on after the frame has played is shown as play.
pub proof fn lemma_frame_report(w: World, keys: Seq<Key>, tick_due: bool, fruit: Point)
    ensures
        report_of(w, keys, tick_due, fruit).restarted ==> keys.contains(Key::R),
        report_of(w, keys, tick_due, fruit).restarted ==> report_of(w, keys, tick_due, fruit).screen
            == Screen::GameOver,
        report_of(w, keys, tick_due, fruit).ticked ==> !w.gameover && tick_due,
        w.gameover ==> report_of(w, keys, tick_due, fruit).screen == Screen::GameOver,
        !report_of(w, keys, tick_due, fruit).restarted ==> (report_of(w, keys, tick_due, fruit).screen
            == Screen::GameOver <==> after_frame(w, keys, tick_due, fruit).gameover),
{
}

/// The number of cells of the playing field.
pub open spec fn cell_count() -> int {
    SQUARES * SQUARES * SQUARES
}

/// What holds of every world that a game reaches from its start: the score
/// counts the segments of the body, the interval has fallen by one tenth of
/// a second for each fruit eaten, the segments lie on cells of the field,
/// no two on the same, and while the game goes on the head lies on the
/// field on a cell free of the body.
pub open spec fn valid(w: World) -> bool {
    &&& w.score == w.snake.body.len()
    &&& w.interval == START_INTERVAL - w.score
    &&& w.snake.body.no_duplicates()
    &&& forall|i: int| 0 <= i < w.snake.body.len() ==> on_board(#[trigger] w.snake.body[i])
    &&& !w.gameover ==> on_board(w.snake.head) && !w.collides()
}

/// A game starts in a valid world, wherever the fruit is.
pub proof fn lemma_fresh_valid(fruit: Point)
    ensures
        valid(fresh(fruit)),
{
}

/// A tick of a game that is not over leads from a valid world to a valid
/// world.
pub proof fn lemma_tick_keeps_valid(w: World, respawn: Point)
    requires
        valid(w),
        !w.gameover,
    ensures
        valid(w.tick(respawn)),
{
    let grown = seq![w.snake.head] + w.snake.body;
    lemma_no_dup_in_concat(seq![w.snake.head], w.snake.body);
    assert(grown.no_duplicates());
    assert forall|i: int| 0 <= i < grown.len() implies on_board(#[trigger] grown[i]) by {
        if i > 0 {
            assert(grown[i] == w.snake.body[i - 1]);
        }
    }
    let body = w.tick(respawn).snake.body;
    assert(body == if w.eats() { grown } else { grown.drop_last() });
    assert forall|i: int| 0 <= i < body.len() implies on_board(#[trigger] body[i]) by {
        assert(body[i] == grown[i]);
    }
    assert forall|i: int, j: int| 0 <= i < body.len() && 0 <= j < body.len() && i != j implies body[i]
        != body[j] by {
        assert(body[i] == grown[i] && body[j] == grown[j]);
    }
}

/// A frame leads from a valid world to a valid world, whatever the keys,
/// the clock and the next fruit.
pub proof fn lemma_frame_keeps_valid(w: World, keys: Seq<Key>, tick_due: bool, fruit: Point)
    requires
        valid(w),
    ensures
        valid(played(w, keys, tick_due, fruit)),
        valid(after_frame(w, keys, tick_due, fruit)),
{
    if !w.gameover {
        let turned = World { snake: SnakeModel { dir: steer(w.snake.dir, keys), ..w.snake }, ..w };
        assert(valid(turned));
        lemma_tick_keeps_valid(turned, fruit);
    }
}

/// The place of a cell of the field in a count of all its cells.
pub open spec fn cell_index(p: Point) -> int {
    (p.x * SQUARES + p.y) * SQUARES + p.z
}

/// Cells of the field, no two the same, are no more than the field has.
pub proof fn lemma_distinct_cells_bounded(cells: Seq<Point>)
    requires
        cells.no_duplicates(),
        forall|i: int| 0 <= i < cells.len() ==> on_board(#[trigger] cells[i]),
    ensures
        cells.len() <= cell_count(),
{
    let places = cells.map_values(|p: Point| cell_index(p));
    assert forall|i: int, j: int| 0 <= i < places.len() && 0 <= j < places.len() && i != j implies places[i]
        != places[j] by {
        assert(on_board(cells[i]) && on_board(cells[j]));
        assert(cells[i] != cells[j]);
    }
    places.unique_seq_to_set();
    lemma_int_range(0, cell_count());
    assert forall|n: int| places.to_set().contains(n) implies set_int_range(0, cell_count()).contains(
        n,
    ) by {
        let i = choose|i: int| 0 <= i < places.len() && places[i] == n;
        assert(on_board(cells[i]));
    }
    lemma_len_subset(places.to_set(), set_int_range(0, cell_count()));
}

/// In a valid world the score is at most the number of cells of the field,
/// and below it while the game goes on.
pub proof fn lemma_score_bounded(w: World)
    requires
        valid(w),
    ensures
        0 <= w.score <= cell_count(),
        !w.gameover ==> w.score < cell_count(),
{
    lemma_distinct_cells_bounded(w.snake.body);
    if !w.gameover {
        let whole = seq![w.snake.head] + w.snake.body;
        lemma_no_dup_in_concat(seq![w.snake.head], w.snake.body);
        assert forall|i: int| 0 <= i < whole.len() implies on_board(#[trigger] whole[i]) by {
            if i > 0 {
                assert(whole[i] == w.snake.body[i - 1]);
            }
        }
        lemma_distinct_cells_bounded(whole);
    }
}

} // verus!
