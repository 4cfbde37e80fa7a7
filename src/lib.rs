//! A grid snake simulation: a chain of segments steered in four directions,
//! advanced once per fixed tick on a toroidal arena, growing when its head
//! lands on food.
pub mod grid;
pub mod food;
pub mod ids;
pub mod sim;
pub mod snake;
pub mod timer;
