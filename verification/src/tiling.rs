//! Layout computation and the tiling engine.

pub mod engine;
pub mod filter;
pub mod preset;
pub mod stack;
