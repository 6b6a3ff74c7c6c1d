//! A small chess library: an engine-side board with material evaluation,
//! and the board model and click-to-move rules behind a graphical front end.

pub mod engine;

pub use engine::{Board, Color, Piece, PieceAt, Square};
pub mod ui_board;
pub mod gui_app;
