//! The game's backend: geometry of the seven pieces, the playfield grid, the
//! piece controller, scoring, the order of the pieces and the game state
//! machine.

pub mod game;
pub mod geometry;
pub mod grid;
pub mod piece;
pub mod scoring;
pub mod sequence;

pub use game::{Event, Game, GameModel, GameUpdate, Phase, Renderer, TetrisGame};
pub use geometry::{Block, Coordinate, Point, Rotation, Tetromino};
pub use grid::{Grid, MAX_DIMENSION};
pub use piece::{Direction, Piece};
pub use sequence::PieceSequence;
