pub mod actor;
pub mod board;
pub mod cell;
pub mod game;
