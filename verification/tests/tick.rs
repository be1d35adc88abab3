use std::collections::VecDeque;

use snake3d::fruit::FLOOR;
use snake3d::geometry::{Cell, Direction};
use snake3d::grid::SQUARES;
use snake3d::snake::Snake;
use snake3d::update::{advance, check_collision, update_snake_position, will_eat};

fn cell(x: i32, y: i32, z: i32) -> Cell {
    Cell { x, y, z }
}

fn snake(dir: Direction, head: Cell, body: Vec<Cell>) -> Snake {
    Snake { dir, head, body: VecDeque::from(body) }
}

fn segments(s: &Snake) -> Vec<Cell> {
    s.body.iter().copied().collect()
}

#[test]
fn head_leaving_the_grid_ends_the_game() {
    let mut s = snake(Direction::Up, cell(19, 1, 0), vec![]);
    let mut gameover = false;
    let mut fruit = cell(3, 1, 3);
    let mut score = 0;
    let mut speed = 7;
    update_snake_position(&mut s, &mut gameover, &mut fruit, &mut score, &mut speed);
    assert_eq!(s.head, cell(20, 1, 0));
    assert!(gameover);
    assert_eq!(score, 0);
    assert_eq!(speed, 7);
    assert_eq!(fruit, cell(3, 1, 3));
    assert!(s.body.is_empty());
}

#[test]
fn head_below_zero_ends_the_game() {
    let mut s = snake(Direction::Left, cell(4, 1, 0), vec![]);
    let mut gameover = false;
    let mut fruit = cell(3, 1, 3);
    let mut score = 0;
    let mut speed = 7;
    advance(&mut s, &mut gameover, &mut fruit, &mut score, &mut speed, cell(9, 1, 9));
    assert_eq!(s.head, cell(4, 1, -1));
    assert!(gameover);

    let mut s = snake(Direction::Down, cell(0, 1, 4), vec![]);
    let mut gameover = false;
    advance(&mut s, &mut gameover, &mut fruit, &mut score, &mut speed, cell(9, 1, 9));
    assert_eq!(s.head, cell(-1, 1, 4));
    assert!(gameover);
}

#[test]
fn last_cell_of_the_grid_is_inside() {
    let mut s = snake(Direction::Right, cell(0, 1, 18), vec![]);
    let mut gameover = false;
    let mut fruit = cell(3, 1, 3);
    let mut score = 0;
    let mut speed = 7;
    advance(&mut s, &mut gameover, &mut fruit, &mut score, &mut speed, cell(9, 1, 9));
    assert_eq!(s.head, cell(0, 1, 19));
    assert!(!gameover);
    advance(&mut s, &mut gameover, &mut fruit, &mut score, &mut speed, cell(9, 1, 9));
    assert_eq!(s.head, cell(0, 1, 20));
    assert!(gameover);
}

#[test]
fn head_outside_on_the_vertical_axis_ends_the_game() {
    let mut s = snake(Direction::Up, cell(5, 20, 5), vec![]);
    let mut gameover = false;
    let mut fruit = cell(3, 1, 3);
    let mut score = 0;
    let mut speed = 7;
    advance(&mut s, &mut gameover, &mut fruit, &mut score, &mut speed, cell(9, 1, 9));
    assert_eq!(s.head, cell(6, 20, 5));
    assert!(gameover);

    let mut s = snake(Direction::Up, cell(5, -1, 5), vec![]);
    let mut gameover = false;
    advance(&mut s, &mut gameover, &mut fruit, &mut score, &mut speed, cell(9, 1, 9));
    assert!(gameover);
}

#[test]
fn eating_the_fruit_with_a_random_respawn() {
    let mut s = snake(Direction::Up, cell(5, 1, 5), vec![]);
    let mut gameover = false;
    let mut fruit = cell(6, 1, 5);
    let mut score = 0;
    let mut speed = 7;
    update_snake_position(&mut s, &mut gameover, &mut fruit, &mut score, &mut speed);
    assert_eq!(score, 1);
    assert_eq!(speed, 6);
    assert_eq!(s.head, cell(6, 1, 5));
    assert_eq!(segments(&s), vec![cell(5, 1, 5)]);
    assert!(!gameover);
    assert_eq!(fruit.y, FLOOR);
    assert!(0 <= fruit.x && fruit.x < SQUARES as i32);
    assert!(0 <= fruit.z && fruit.z < SQUARES as i32);
}

#[test]
fn eating_the_fruit_with_a_given_respawn() {
    let mut s = snake(Direction::Up, cell(5, 1, 5), vec![cell(4, 1, 5), cell(3, 1, 5)]);
    let mut gameover = false;
    let mut fruit = cell(6, 1, 5);
    let mut score = 2;
    let mut speed = 5;
    advance(&mut s, &mut gameover, &mut fruit, &mut score, &mut speed, cell(11, 1, 2));
    assert_eq!(score, 3);
    assert_eq!(speed, 4);
    assert_eq!(fruit, cell(11, 1, 2));
    assert_eq!(s.head, cell(6, 1, 5));
    assert_eq!(s.dir, Direction::Up);
    assert_eq!(segments(&s), vec![cell(5, 1, 5), cell(4, 1, 5), cell(3, 1, 5)]);
    assert!(!gameover);
}

#[test]
fn tick_without_fruit_keeps_the_length() {
    let mut s = snake(
        Direction::Right,
        cell(5, 1, 5),
        vec![cell(5, 1, 4), cell(5, 1, 3), cell(5, 1, 2)],
    );
    let mut gameover = false;
    let mut fruit = cell(0, 1, 0);
    let mut score = 3;
    let mut speed = 4;
    update_snake_position(&mut s, &mut gameover, &mut fruit, &mut score, &mut speed);
    assert_eq!(s.head, cell(5, 1, 6));
    assert_eq!(segments(&s), vec![cell(5, 1, 5), cell(5, 1, 4), cell(5, 1, 3)]);
    assert_eq!(score, 3);
    assert_eq!(speed, 4);
    assert_eq!(fruit, cell(0, 1, 0));
    assert!(!gameover);
}

#[test]
fn tick_without_fruit_and_without_body_leaves_no_body() {
    let mut s = snake(Direction::Down, cell(5, 1, 5), vec![]);
    let mut gameover = false;
    let mut fruit = cell(0, 1, 0);
    let mut score = 0;
    let mut speed = 7;
    advance(&mut s, &mut gameover, &mut fruit, &mut score, &mut speed, cell(9, 1, 9));
    assert_eq!(s.head, cell(4, 1, 5));
    assert!(s.body.is_empty());
    assert_eq!(fruit, cell(0, 1, 0));
}

#[test]
fn running_into_the_body_ends_the_game() {
    // The snake has curled up and now turns into its own side.
    let mut s = snake(
        Direction::Left,
        cell(5, 1, 6),
        vec![cell(4, 1, 6), cell(4, 1, 5), cell(5, 1, 5), cell(6, 1, 5), cell(7, 1, 5)],
    );
    let mut gameover = false;
    let mut fruit = cell(0, 1, 0);
    let mut score = 5;
    let mut speed = 2;
    update_snake_position(&mut s, &mut gameover, &mut fruit, &mut score, &mut speed);
    assert_eq!(s.head, cell(5, 1, 5));
    assert!(segments(&s).contains(&s.head));
    assert!(gameover);
    assert_eq!(score, 5);
}

#[test]
fn turning_back_into_the_neck_ends_the_game() {
    let mut s = snake(Direction::Down, cell(5, 1, 5), vec![cell(4, 1, 5), cell(3, 1, 5)]);
    let mut gameover = false;
    let mut fruit = cell(0, 1, 0);
    let mut score = 2;
    let mut speed = 5;
    advance(&mut s, &mut gameover, &mut fruit, &mut score, &mut speed, cell(9, 1, 9));
    assert_eq!(s.head, cell(4, 1, 5));
    assert_eq!(segments(&s), vec![cell(5, 1, 5), cell(4, 1, 5)]);
    assert!(gameover);
}

#[test]
fn moving_onto_the_cell_the_tail_leaves_is_safe() {
    // A ring of four: the head follows the tail.
    let mut s = snake(
        Direction::Down,
        cell(5, 1, 5),
        vec![cell(5, 1, 6), cell(4, 1, 6), cell(4, 1, 5)],
    );
    let mut gameover = false;
    let mut fruit = cell(0, 1, 0);
    let mut score = 3;
    let mut speed = 4;
    advance(&mut s, &mut gameover, &mut fruit, &mut score, &mut speed, cell(9, 1, 9));
    assert_eq!(s.head, cell(4, 1, 5));
    assert_eq!(segments(&s), vec![cell(5, 1, 5), cell(5, 1, 6), cell(4, 1, 6)]);
    assert!(!gameover);
}

#[test]
fn eating_keeps_the_tail_so_the_head_can_hit_it() {
    // The same ring, but the fruit lies on the cell of the tail: the tail
    // stays and the head runs into it.
    let mut s = snake(
        Direction::Down,
        cell(5, 1, 5),
        vec![cell(5, 1, 6), cell(4, 1, 6), cell(4, 1, 5)],
    );
    let mut gameover = false;
    let mut fruit = cell(4, 1, 5);
    let mut score = 3;
    let mut speed = 4;
    advance(&mut s, &mut gameover, &mut fruit, &mut score, &mut speed, cell(9, 1, 9));
    assert_eq!(score, 4);
    assert_eq!(s.body.len(), 4);
    assert!(gameover);
}

#[test]
fn a_game_that_is_over_stays_over() {
    let mut s = snake(Direction::Up, cell(5, 1, 5), vec![]);
    let mut gameover = true;
    let mut fruit = cell(0, 1, 0);
    let mut score = 0;
    let mut speed = 7;
    advance(&mut s, &mut gameover, &mut fruit, &mut score, &mut speed, cell(9, 1, 9));
    assert_eq!(s.head, cell(6, 1, 5));
    assert!(gameover);
}

#[test]
fn straight_run_ends_exactly_at_the_wall() {
    let mut s = Snake::new();
    assert_eq!(s.head, cell(0, 1, 0));
    assert_eq!(s.dir, Direction::Up);
    assert!(s.body.is_empty());
    let mut gameover = false;
    let mut fruit = cell(7, 1, 7);
    let mut score = 0;
    let mut speed = 7;
    for n in 1..=19 {
        advance(&mut s, &mut gameover, &mut fruit, &mut score, &mut speed, cell(9, 1, 9));
        assert_eq!(s.head, cell(n, 1, 0));
        assert!(!gameover, "over after {} ticks", n);
    }
    advance(&mut s, &mut gameover, &mut fruit, &mut score, &mut speed, cell(9, 1, 9));
    assert_eq!(s.head, cell(20, 1, 0));
    assert!(gameover);
}

#[test]
fn interval_falls_below_zero() {
    let mut s = snake(Direction::Right, cell(3, 1, 0), vec![]);
    let mut gameover = false;
    let mut fruit = cell(3, 1, 1);
    let mut score = 0;
    let mut speed = 7;
    for n in 1..=9 {
        advance(&mut s, &mut gameover, &mut fruit, &mut score, &mut speed, cell(3, 1, n + 1));
        assert_eq!(score, n);
        assert_eq!(speed, 7 - n);
        assert_eq!(s.body.len(), n as usize);
    }
    assert_eq!(speed, -2);
    assert!(!gameover);
}

#[test]
fn will_eat_looks_one_step_ahead() {
    let s = snake(Direction::Left, cell(2, 1, 2), vec![]);
    assert!(will_eat(&s, cell(2, 1, 1)));
    assert!(!will_eat(&s, cell(2, 1, 2)));
    assert!(!will_eat(&s, cell(2, 1, 3)));
    assert!(!will_eat(&s, cell(2, 0, 1)));
}

#[test]
fn collision_check_sets_the_flag() {
    let s = snake(Direction::Up, cell(2, 1, 2), vec![cell(1, 1, 2), cell(2, 1, 2)]);
    let mut gameover = false;
    check_collision(&s, &mut gameover);
    assert!(gameover);
}

#[test]
fn collision_check_leaves_the_flag() {
    let s = snake(Direction::Up, cell(2, 1, 2), vec![cell(1, 1, 2), cell(0, 1, 2)]);
    let mut gameover = false;
    check_collision(&s, &mut gameover);
    assert!(!gameover);
    let mut gameover = true;
    check_collision(&s, &mut gameover);
    assert!(gameover);
}

#[test]
fn body_contains_finds_each_segment() {
    let s = snake(Direction::Up, cell(2, 1, 2), vec![cell(1, 1, 2), cell(0, 1, 2)]);
    assert!(s.body_contains(cell(1, 1, 2)));
    assert!(s.body_contains(cell(0, 1, 2)));
    assert!(!s.body_contains(cell(2, 1, 2)));
    assert!(!s.body_contains(cell(1, 2, 1)));
    assert!(!Snake::new().body_contains(cell(0, 1, 0)));
}

#[test]
fn step_moves_along_one_axis() {
    let c = cell(5, 1, 5);
    assert_eq!(c.step(Direction::Left), cell(5, 1, 4));
    assert_eq!(c.step(Direction::Right), cell(5, 1, 6));
    assert_eq!(c.step(Direction::Up), cell(6, 1, 5));
    assert_eq!(c.step(Direction::Down), cell(4, 1, 5));
    assert_eq!(Direction::Left.vector(), cell(0, 0, -1));
    assert_eq!(Direction::Right.vector(), cell(0, 0, 1));
    assert_eq!(Direction::Up.vector(), cell(1, 0, 0));
    assert_eq!(Direction::Down.vector(), cell(-1, 0, 0));
    assert_eq!(Cell::new(1, 2, 3), cell(1, 2, 3));
}
