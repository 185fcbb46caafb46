//! Model of an NxN twisty-cube puzzle.
//!
//! The crate covers the mechanical core of the puzzle: the sticker state of
//! a cube of side `n`, the grammar of Singmaster move notation, the
//! geometric transform that a layer turn applies to the stickers, and an
//! algebraic layer that composes, inverts and simplifies move sequences.
//! Every operation is a pure transform: a cube is created solved and only
//! changed by `perform`, which returns a fresh value.

pub mod algebra;
pub mod cube;
pub mod face;
pub mod laws;
pub mod model;
pub mod moves;
pub mod pieces;
pub mod primitives;
pub mod sequence;
pub mod solve;
