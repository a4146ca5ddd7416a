//! Rule engine of a falling-block puzzle game: a board of settled cells, a
//! falling piece, and the moves, rotation, locking and line clearing between them.

pub mod setting;
pub mod piece;
pub mod background;
pub mod tetris;

pub use background::Background;
pub use piece::Piece;
pub use tetris::Tetris;
