//! The simulation core of a two-paddle Pong game: ball motion and scoring,
//! paddle control (player input and a tracking heuristic) and the reflection
//! of the ball off a paddle.
//!
//! All lengths are fixed-point integers in thousandths of a field unit; the
//! field is 640 by 480 units with its origin at the centre.
pub mod field;
pub mod reflect;
pub mod ball;
pub mod racket;
pub mod laws;
