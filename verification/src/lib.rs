//! State engine for a Snake game on a square toroidal grid.
//!
//! The engine tracks the snake's body, its movement direction, the reward
//! (food) placement, the score, and the win/loss status, and advances the
//! simulation one discrete step at a time.  A host layer (rendering, input,
//! timing) polls the exposed state, issues direction changes, and drives
//! ticks by calling `step`.

pub mod grid;
pub mod rng;
pub mod snake;
pub mod world;

pub use grid::Direction;
pub use snake::SnakeCell;
pub use world::GameStatus;
pub use world::World;
