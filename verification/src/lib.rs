//! Position state for shogi: a bitboard-backed board with hands, reversible
//! move application, and the attacker and pin queries that legality
//! testing rests on.
//!
//! [`Position`] is the state itself. What it holds is described by a
//! [`Placement`], a plain mathematical value: the contracts of the
//! position's methods are stated over placements, and the laws that moves
//! obey (a move taken back leaves the placement as it was, material is
//! conserved, board and bitboards agree) are proved there.
//!
//! The modules, from the ground up: [`color`], [`piece`] and [`square`]
//! name the things on the board; [`bitboard`] packs sets of squares;
//! [`hand`] counts captured pieces; [`moves`] holds the move value;
//! [`attacks`] states how pieces attack and computes it; [`placement`] and
//! [`rules`] state what positions and legal moves are; [`position`] keeps
//! the state; [`movegen`] lists the legal moves; [`text`] writes a position
//! out.

pub mod attacks;
pub mod bitboard;
pub mod color;
pub mod hand;
pub mod movegen;
pub mod moves;
pub mod piece;
pub mod placement;
pub mod position;
pub mod rules;
pub mod square;
pub mod text;

pub use bitboard::Bitboard;
pub use color::Color;
pub use hand::Hand;
pub use movegen::MoveList;
pub use moves::Move;
pub use piece::{Piece, PieceType};
pub use placement::Placement;
pub use position::Position;
pub use square::Square;
