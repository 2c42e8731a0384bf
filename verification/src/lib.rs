//! Core simulation of a falling-block puzzle game: the board grid, the seven
//! tetromino shapes with their rotation system and wall-kick tables, the
//! seven-bag piece randomizer, line-clear detection and compaction, the
//! placement state machine, and the scoring rules (combos, back-to-back
//! bonuses and T-spin classification).

pub mod board;
pub mod control;
pub mod generator;
pub mod pieces;
pub mod score;

pub use board::Board;
pub use board::Cell;
pub use board::CellKind;
pub use control::LevelConfig;
pub use control::PieceController;
pub use control::PieceHolder;
pub use control::PlayingState;
pub use control::TickTimer;
pub use generator::PieceGenerator;
pub use pieces::MoveDirection;
pub use pieces::Piece;
pub use pieces::PieceRotation;
pub use pieces::PieceType;
pub use score::ActionEvent;
pub use score::PlacingEvent;
pub use score::ScoreType;
pub use score::Scorer;
