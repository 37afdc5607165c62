//! The per-frame simulation core of a 2D space-combat game.
//!
//! All quantities are fixed-point integers: a length of one simulation unit is
//! [`units::UNIT`] micro-units, an angle of one radian is `UNIT` micro-radians,
//! and time is counted in nanoseconds. Trigonometry is never computed here:
//! wherever a heading has to be turned into a vector, the caller passes the
//! heading's unit vector as a [`units::Direction`], and wherever a ship has to
//! turn towards a point, the caller passes the bearing of that point.
//!
//! Every system of a tick is a function over the parts of the state that it
//! works on: the ship table, the bullet table, the score and so on. The
//! caller runs the systems in the order it needs; [`game::Simulation`] holds
//! the parts together.

pub mod units;
pub mod timer;
pub mod profile;
pub mod spacecraft;
pub mod score;
pub mod dialogue;
pub mod entity;
pub mod handles;
pub mod roles;
mod chance;
pub mod input;
pub mod movement;
pub mod steering;
pub mod weapons;
pub mod collision;
pub mod capture;
pub mod animation;
pub mod shield;
pub mod explosion;
pub mod border;
pub mod spawner;
pub mod ui;
pub mod lifecycle;
pub mod game;
