//! Deterministic, chunkless procedural world generation and viewport rendering.

pub mod noise;
pub mod game;
pub mod render;
pub mod worldgen;
