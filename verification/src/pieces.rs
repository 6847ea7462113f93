pub mod piece;
pub mod knight;
pub mod rook;
pub mod bishop;
pub mod queen;
pub mod pawn;
pub mod king;
