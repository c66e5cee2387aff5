//! Exact gate algebra and program-interpretation logic for a small
//! qubit simulator.

pub mod entry;
pub mod gate;
pub mod interpreter;
pub mod models;
pub mod operator;
pub mod register;
pub mod text;
