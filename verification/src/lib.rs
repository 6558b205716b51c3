//! A fixed-length circular sequence.
//!
//! A [`CircularVec`] is filled once and keeps its length for good. It holds a
//! cursor that every read moves one place forward; past the last element the
//! cursor starts again at the first.

pub mod circular_vec;
pub mod error;
pub mod laws;
pub mod ring;

pub use circular_vec::CircularVec;
pub use error::CircularVecError;
pub use ring::{Op, Ring};
