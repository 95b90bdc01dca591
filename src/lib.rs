//! Simulation core of a two-team, top-down football match.
//!
//! All positions, velocities and speeds are integers in thousandths of a pixel, on a level of
//! 1000 x 1400 pixels. A [`game::Game`] holds fourteen players, seven per team, and one ball
//! whose state is either free flight with a velocity or dribbling by an owner. Each call of
//! [`game::Game::update`] runs one tick, in this order: timers, goal detection and reset,
//! marks and leads, movement targets, player movement, the ball (flight or dribble, camera,
//! acquisition, shots and passes), and switching of the active player. Every phase has a
//! contract stating its result as a function of the state before it.
pub mod geometry;
pub mod field;
pub mod physics;
pub mod angle;
pub mod entities;
pub mod game;
pub mod behaviours;
pub mod targets;
pub mod movement;
pub mod ball;
pub mod tick;
