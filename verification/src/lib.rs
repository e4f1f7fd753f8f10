//! Rules engine of a falling-block puzzle game: the playfield, the falling
//! piece, its rotation, line clears, scoring and the per-tick update protocol.

pub mod backend;
