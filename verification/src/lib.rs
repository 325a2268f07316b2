//! A small point-mass motion library.
//!
//! Scalars are fixed-point numbers: an `i64` counts millionths, so every
//! arithmetic result is pinned down exactly. On top of them sit:
//!
//! - [`point::Point`], a 3D vector with component-wise arithmetic;
//! - [`mover::Mover`], a point mass holding kinematic state and a set of
//!   named forces with an incrementally maintained sum;
//! - [`timer::Timer`], which owns movers and decides, from sampled clock
//!   readings, when a tick may advance them;
//! - [`text`], renderers that pin down every produced character;
//! - [`laws`], proved algebraic facts about the operations above.

pub mod laws;
pub mod mover;
pub mod point;
pub mod scalar;
pub mod text;
pub mod timer;

pub use mover::Movable;
pub use mover::Mover;
pub use point::Point;
pub use scalar::HALF;
pub use scalar::SCALE;
pub use timer::Timer;
