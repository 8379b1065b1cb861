//! A chess coach: it reads spoken and typed moves, explains the idea behind
//! each move, grades moves by the engine's evaluation and reviews the game.
pub mod board;
pub mod chess;
pub mod engine;
pub mod notation;
pub mod review;
pub mod session;
pub mod tactics;
pub mod text;
pub mod voice;
