//! Core logic of a small "baking" game for a board with two buttons, an
//! accelerometer and a 5x5 LED matrix.
//!
//! The game is organised as a set of cooperating workers: button monitors
//! ([`button::ButtonBaker`]) and a motion monitor ([`motion::ChaosMonkey`])
//! produce [`game::GameEvent`]s, the game-state owner ([`game::Game`])
//! serialises them into a bounded progress counter, and the renderer
//! ([`render::ProgressBar`]) turns each new progress value into a frame for
//! the display. This crate holds the decisions those workers make; the
//! hardware they drive and the executor that schedules them live outside it.

pub mod button;
pub mod game;
pub mod motion;
pub mod render;
pub mod system;
