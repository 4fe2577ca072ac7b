//! Integer vector types and exact fixed-point world coordinates.
//!
//! Block and chunk coordinates are pairs of `i32`. Continuous world
//! quantities (positions, velocities, rectangle geometry) are pairs of `i64`
//! in fixed point: `FP_ONE` subunits per world pixel. A tile is `TILE_SIZE`
//! pixels, so one tile spans `TILE_FP` subunits and one 16-tile chunk spans
//! `CHUNK_FP` subunits.

use vstd::arithmetic::div_mod::{
    lemma_fundamental_div_mod, lemma_fundamental_div_mod_converse, lemma_mod_bound,
};
use vstd::prelude::*;

verus! {

/// Width of one square tile, in world pixels.
pub const TILE_SIZE: i64 = 32;

/// Width of one square chunk, in tiles.
pub const CHUNK_WIDTH: i64 = 16;

/// Number of cells in one chunk.
pub const CHUNK_AREA: usize = 256;

/// Number of distinct non-air block kinds in the texture atlas.
pub const BLOCK_COUNT: usize = 8;

/// Fixed-point scale: subunits per world pixel.
pub const FP_ONE: i64 = 256;

/// One tile in fixed-point subunits (`TILE_SIZE * FP_ONE`).
pub const TILE_FP: i64 = 8192;

/// One chunk in fixed-point subunits (`CHUNK_WIDTH * TILE_FP`).
pub const CHUNK_FP: i64 = 131072;

/// An integer 2-vector: a block coordinate or a chunk coordinate.
#[derive(Clone, Copy, Debug, PartialEq, Eq, Structural, Hash)]
pub struct IVec2 {
    pub x: i32,
    pub y: i32,
}

/// An unsigned 2-vector: a cell coordinate relative to its chunk.
#[derive(Clone, Copy, Debug, PartialEq, Eq, Structural, Hash)]
pub struct UVec2 {
    pub x: u32,
    pub y: u32,
}

/// A world-space 2-vector in fixed point (`FP_ONE` subunits per pixel).
#[derive(Clone, Copy, Debug, PartialEq, Eq, Structural, Hash)]
pub struct WorldVec {
    pub x: i64,
    pub y: i64,
}

impl IVec2 {
    pub fn new(x: i32, y: i32) -> (r: IVec2)
        ensures
            r == (IVec2 { x, y }),
    {
        IVec2 { x, y }
    }
}

impl UVec2 {
    pub fn new(x: u32, y: u32) -> (r: UVec2)
        ensures
            r == (UVec2 { x, y }),
    {
        UVec2 { x, y }
    }
}

impl WorldVec {
    pub fn new(x: i64, y: i64) -> (r: WorldVec)
        ensures
            r == (WorldVec { x, y }),
    {
        WorldVec { x, y }
    }
}

/// Floor division: rounds the quotient toward negative infinity, matching
/// mathematical integer division with a positive divisor.
pub fn floor_div(a: i64, b: i64) -> (q: i64)
    requires
        1 <= b,
        i64::MIN < a,
    ensures
        q == a as int / b as int,
{
    if a >= 0 {
        a / b
    } else {
        let m: i64 = -a - 1;
        proof {
            let mi = m as int;
            let bi = b as int;
            lemma_fundamental_div_mod(mi, bi);
            lemma_mod_bound(mi, bi);
            assert((-(mi / bi) - 1) * bi == -(bi * (mi / bi)) - bi) by (nonlinear_arith);
            lemma_fundamental_div_mod_converse(
                a as int,
                bi,
                -(mi / bi) - 1,
                bi - 1 - (mi % bi),
            );
        }
        -(m / b) - 1
    }
}

/// Floor remainder: `a - b * floor(a / b)`, always in `[0, b)` for `b > 0`.
pub fn floor_mod(a: i64, b: i64) -> (r: i64)
    requires
        1 <= b,
        i64::MIN + b < a,
    ensures
        r == a as int % b as int,
        0 <= r < b,
{
    let q = floor_div(a, b);
    proof {
        lemma_fundamental_div_mod(a as int, b as int);
        lemma_mod_bound(a as int, b as int);
    }
    a - b * q
}

} // verus!
