//! The rules of a snake game played on a cubic grid of cells.
//!
//! The crate holds the state of a game and its transitions: steering, the
//! advance of the snake by one cell, eating and growing, and the two ways a
//! game ends. Drawing, the keyboard and the clock belong to the caller, which
//! hands the library plain values and reads plain values back.
pub mod frame;
pub mod fruit;
pub mod game;
pub mod geometry;
pub mod grid;
pub mod hud;
pub mod snake;
pub mod update;
pub mod world;

