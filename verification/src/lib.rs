//! Core of an interactive 2D ball toy: polar-form vectors, per-tick
//! integration with friction and boundary reflection, and pairwise
//! collision resolution.
//!
//! All physics runs on fixed-point scalars: an `i64` counts units of
//! 1/[`scalar::SCALE`] of a screen pixel, and angles are fixed-point
//! radians at the same scale, kept within a half turn either way. The
//! windowing, rendering and input layer converts to and from this
//! representation at the edge.

pub mod ball;
pub mod game;
pub mod scalar;
pub mod trig;
pub mod vector;

pub use ball::{Ball, Collides};
pub use game::{Game, Input};
pub use scalar::{clamp, slow, SCALE};
pub use vector::AngleVec;
