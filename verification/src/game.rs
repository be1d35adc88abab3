//! A game in progress, advanced one frame at a time.
use vstd::prelude::*;
use crate::frame::{
    after_frame, cell_count, fresh, lemma_score_bounded, lemma_tick_keeps_valid, report_of, valid,
    FrameReport, Screen, START_INTERVAL,
};
use crate::fruit::{generate_fruit, spawnable};
use crate::geometry::Cell;
use crate::snake::{handle_input, pressed, Key, Snake};
use crate::update::{advance, check_collision, update_snake_position, world_of};
use crate::world::World;

verus! {

/// A game: the snake, the fruit, the score, the interval between ticks and
/// whether the game is over. A game changes only by the frames it plays, so
/// every game is in a world that play can reach.
pub struct Game {
    snake: Snake,
    fruit: Cell,
    score: i32,
    interval: i32,
    gameover: bool,
}

impl View for Game {
    type V = World;

    closed spec fn view(&self) -> World {
        world_of(self.snake, self.gameover, self.fruit, self.score, self.interval)
    }
}

impl Game {
    /// What holds of every game: its world is valid.
    #[verifier::type_invariant]
    pub open spec fn well_formed(&self) -> bool {
        valid(self@)
    }

    /// A new game with the fruit at `fruit`: the snake without a body at its
    /// starting cell, no score, the starting interval, and not over.
    pub fn with_fruit(fruit: Cell) -> (game: Game)
        ensures
            game@ == fresh(fruit@),
            game.well_formed(),
    {
        Game { snake: Snake::new(), fruit, score: 0, interval: START_INTERVAL, gameover: false }
    }

    /// A new game with the fruit on a cell of the floor drawn at random.
    pub fn new() -> (game: Game)
        ensures
            game@ == fresh(game@.fruit),
            spawnable(game@.fruit),
            game.well_formed(),
    {
        Game::with_fruit(generate_fruit())
    }

    /// The snake: its direction, its head and its body, newest segment
    /// first.
    pub fn snake(&self) -> (snake: &Snake)
        ensures
            snake@ == self@.snake,
    {
        &self.snake
    }

    /// The cell of the fruit.
    pub fn fruit(&self) -> (fruit: Cell)
        ensures
            fruit@ == self@.fruit,
    {
        self.fruit
    }

    /// The number of fruits eaten in this game. It is never more than the
    /// playing field has cells.
    pub fn score(&self) -> (score: i32)
        ensures
            score == self@.score,
            0 <= score <= cell_count(),
    {
        proof {
            use_type_invariant(self);
            lemma_score_bounded(self@);
        }
        self.score
    }

    /// The interval between ticks, in tenths of a second. It falls with the
    /// score and is not kept above zero.
    pub fn interval(&self) -> (tenths: i32)
        ensures
            tenths == self@.interval,
            tenths == START_INTERVAL - self@.score,
    {
        proof {
            use_type_invariant(self);
        }
        self.interval
    }

    /// Whether the game is over.
    pub fn is_over(&self) -> (over: bool)
        ensures
            over == self@.gameover,
    {
        self.gameover
    }

    /// One frame, with the next fruit taken from `supplied` where there is
    /// one and drawn at random where there is none.
    fn run_frame(self, keys: &[Key], tick_due: bool, supplied: Option<Cell>) -> (out: (
        Game,
        FrameReport,
    ))
        ensures
            out.0.well_formed(),
            match supplied {
                Some(fruit) => {
                    &&& out.0@ == after_frame(self@, keys@, tick_due, fruit@)
                    &&& out.1 == report_of(self@, keys@, tick_due, fruit@)
                },
                None => {
                    &&& out.0@ == after_frame(self@, keys@, tick_due, out.0@.fruit)
                    &&& out.1 == report_of(self@, keys@, tick_due, out.0@.fruit)
                    &&& out.0@.fruit == self@.fruit || spawnable(out.0@.fruit)
                },
            },
    {
        proof {
            use_type_invariant(&self);
        }
        let Game { mut snake, mut fruit, mut score, mut interval, mut gameover } = self;
        let ticked = !gameover && tick_due;
        if !gameover {
            handle_input(&mut snake, keys);
            if tick_due {
                proof {
                    let turned = world_of(snake, gameover, fruit, score, interval);
                    lemma_score_bounded(turned);
                    assert forall|cell: Cell| valid(#[trigger] turned.tick(cell@)) by {
                        lemma_tick_keeps_valid(turned, cell@);
                    }
                }
                match supplied {
                    Some(cell) => advance(
                        &mut snake,
                        &mut gameover,
                        &mut fruit,
                        &mut score,
                        &mut interval,
                        cell,
                    ),
                    None => update_snake_position(
                        &mut snake,
                        &mut gameover,
                        &mut fruit,
                        &mut score,
                        &mut interval,
                    ),
                }
                check_collision(&snake, &mut gameover);
            }
        }
        let screen = if gameover {
            Screen::GameOver
        } else {
            Screen::Play
        };
        let restarted = gameover && pressed(keys, Key::R);
        let next = if restarted {
            match supplied {
                Some(cell) => Game::with_fruit(cell),
                None => Game::new(),
            }
        } else {
            Game { snake, fruit, score, interval, gameover }
        };
        (next, FrameReport { ticked, restarted, screen })
    }

    /// Plays one frame and gives the game after it, with what the frame
    /// did. `keys` are the keys pressed during the frame, in the order in
    /// which they were pressed; `tick_due` says whether the interval
    /// between ticks has passed since the last one.
    ///
    /// While the game goes on, the keys steer the snake, and if a tick is
    /// due the game advances by one. If the game is over then, `R` among
    /// the keys starts a new one. Where a fruit is needed, for the one eaten
    /// or for the new game, its cell is drawn at random among the cells of
    /// the floor: the game after the frame is the one that `after_frame`
    /// gives for the fruit now on the field.
    pub fn frame(self, keys: &[Key], tick_due: bool) -> (out: (Game, FrameReport))
        ensures
            out.0.well_formed(),
            out.0@ == after_frame(self@, keys@, tick_due, out.0@.fruit),
            out.1 == report_of(self@, keys@, tick_due, out.0@.fruit),
            out.0@.fruit == self@.fruit || spawnable(out.0@.fruit),
            out.1.restarted ==> out.0@ == fresh(out.0@.fruit),
    {
        self.run_frame(keys, tick_due, None)
    }

    /// Plays one frame as `frame` does, with `fruit` as the cell of the next
    /// fruit wherever one is needed.
    pub fn frame_with(self, keys: &[Key], tick_due: bool, fruit: Cell) -> (out: (Game, FrameReport))
        ensures
            out.0.well_formed(),
            out.0@ == after_frame(self@, keys@, tick_due, fruit@),
            out.1 == report_of(self@, keys@, tick_due, fruit@),
            out.1.restarted ==> out.0@ == fresh(fruit@),
    {
        self.run_frame(keys, tick_due, Some(fruit))
    }
}

} // verus!
