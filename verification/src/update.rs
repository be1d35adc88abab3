//! One tick of the game on the parts of its state.
use vstd::prelude::*;
use crate::fruit::{generate_fruit, spawnable};
use crate::geometry::Cell;
use crate::grid::{on_board, Grid};
use crate::snake::{points, Snake};
use crate::world::World;

verus! {

/// The world made of the parts that a tick works on.
pub open spec fn world_of(snake: Snake, gameover: bool, fruit: Cell, score: i32, speed: i32) -> World {
    World {
        snake: snake@,
        fruit: fruit@,
        score: score as int,
        interval: speed as int,
        gameover,
    }
}

/// Whether the machine can hold the world one tick after `w`: the new head
/// has coordinates that fit, and so do the new score and interval where the
/// tick eats the fruit.
pub open spec fn tick_fits(w: World) -> bool {
    &&& w.next_head().fits()
    &&& w.eats() ==> w.score < i32::MAX && w.interval > i32::MIN
}

/// Whether the snake's next step takes its head onto `fruit`.
pub fn will_eat(snake: &Snake, fruit: Cell) -> (eats: bool)
    requires
        snake@.head.plus(snake.dir.delta()).fits(),
    ensures
        eats == (snake@.head.plus(snake.dir.delta()) == fruit@),
{
    snake.head.step(snake.dir) == fruit
}

/// Advances the game by one tick, with `respawn` as the cell of the next
/// fruit should this tick eat the present one.
///
/// The head moves one cell in the direction of the snake and the cell it
/// left becomes the newest segment of the body. If the head has reached the
/// fruit, the fruit moves to `respawn`, the score rises by one and `speed`,
/// the interval between ticks in tenths of a second, falls by one; if not,
/// the oldest segment goes, so that the body keeps its length. The game is
/// then over if the head is outside the playing field or on a segment of the
/// body. What the call leaves is `World::tick` of what it found.
pub fn advance(
    snake: &mut Snake,
    gameover: &mut bool,
    fruit: &mut Cell,
    score: &mut i32,
    speed: &mut i32,
    respawn: Cell,
)
    requires
        tick_fits(world_of(*old(snake), *old(gameover), *old(fruit), *old(score), *old(speed))),
    ensures
        ({
            let before = world_of(*old(snake), *old(gameover), *old(fruit), *old(score), *old(speed));
            let after = world_of(
                *final(snake),
                *final(gameover),
                *final(fruit),
                *final(score),
                *final(speed),
            );
            &&& after == before.tick(respawn@)
            &&& !before.eats() ==> after.snake.body.len() == before.snake.body.len()
            &&& before.eats() ==> after.snake.body.len() == before.snake.body.len() + 1
                && after.score == before.score + 1 && after.interval == before.interval - 1
            &&& after.collides() ==> after.gameover
            &&& !on_board(after.snake.head) ==> after.gameover
        }),
{
    let ghost before = world_of(*snake, *gameover, *fruit, *score, *speed);
    snake.body.push_front(snake.head);
    snake.head = snake.head.step(snake.dir);
    assert(points(snake.body@) =~= seq![before.snake.head] + before.snake.body);

    if snake.head == *fruit {
        *fruit = respawn;
        *score += 1;
        *speed -= 1;
    } else {
        let ghost grown = snake.body@;
        snake.body.pop_back();
        assert(points(snake.body@) =~= points(grown).drop_last());
    }
    assert(snake@.body == before.next_body());

    let grid = Grid::new();
    if !grid.contains(snake.head) {
        *gameover = true;
    }
    if snake.body_contains(snake.head) {
        *gameover = true;
    }
}

/// Advances the game by one tick, as `advance` does. Where the snake eats
/// the fruit, the cell of the next one is drawn at random among the cells of
/// the floor, so what the call leaves is `World::tick` of what it found, with
/// the fruit now on the field as the one that reappeared.
///
/// `speed` is the interval between ticks in tenths of a second.
pub fn update_snake_position(
    snake: &mut Snake,
    gameover: &mut bool,
    fruit: &mut Cell,
    score: &mut i32,
    speed: &mut i32,
)
    requires
        tick_fits(world_of(*old(snake), *old(gameover), *old(fruit), *old(score), *old(speed))),
    ensures
        ({
            let before = world_of(*old(snake), *old(gameover), *old(fruit), *old(score), *old(speed));
            let after = world_of(
                *final(snake),
                *final(gameover),
                *final(fruit),
                *final(score),
                *final(speed),
            );
            &&& after == before.tick(after.fruit)
            &&& before.eats() ==> spawnable(after.fruit)
            &&& !before.eats() ==> after.snake.body.len() == before.snake.body.len()
            &&& before.eats() ==> after.snake.body.len() == before.snake.body.len() + 1
                && after.score == before.score + 1 && after.interval == before.interval - 1
            &&& after.collides() ==> after.gameover
            &&& !on_board(after.snake.head) ==> after.gameover
        }),
{
    let respawn = if will_eat(snake, *fruit) {
        generate_fruit()
    } else {
        *fruit
    };
    advance(snake, gameover, fruit, score, speed, respawn);
}

/// Ends the game if the snake has run into itself.
pub fn check_collision(snake: &Snake, gameover: &mut bool)
    ensures
        *final(gameover) == (*old(gameover) || snake@.body.contains(snake@.head)),
{
    if snake.body_contains(snake.head) {
        *gameover = true;
    }
}

} // verus!
