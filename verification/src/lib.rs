//! A verified chess rules engine: legal move generation, move application
//! and exact undo over one mutable position, check, checkmate and
//! stalemate detection, and a fixed-depth alpha-beta search proved to
//! return the minimax value. Every contract is stated over `PositionV`,
//! the mathematical view of the position.

pub mod apply;
pub mod board;
pub mod engine;
pub mod legality;
pub mod movegen;
