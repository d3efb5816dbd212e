//! Piece kinds and colors, and pieces as located objects.

pub mod piece;
pub mod types;
pub mod piece_enum;
