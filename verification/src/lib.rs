//! Simulation core of a 2D tile-based sandbox world.
//!
//! The library owns the block grid (split into 16x16 chunks), streams chunks
//! in and out of memory as the view rectangle moves, fills newly loaded
//! chunks from a supplied terrain sample, resolves player motion against the
//! grid, and casts rays through it.
//!
//! Continuous world quantities (positions, velocities, rectangle centers and
//! sizes) are fixed-point integers: `FP_ONE` subunits make one world pixel,
//! and a tile is `TILE_SIZE` pixels wide. All arithmetic on them is exact,
//! so every contract below states precisely what each operation computes.

pub mod aabb;
pub mod chunk;
pub mod chunk_manager;
pub mod collision;
pub mod player;
pub mod vecs;
