use mijocraft::chunk::ChunkLayer;
use mijocraft::chunk_manager::ChunkManager;
use mijocraft::collision::cast_ray_blocks;
use mijocraft::vecs::{IVec2, WorldVec, CHUNK_AREA, TILE_FP};

/// A world whose only solid foreground block is at block (5, 0): five tiles
/// to the right of the origin column.
fn world_with_block_at_five() -> ChunkManager {
    let mut manager = ChunkManager::new();
    let mut fg = vec![0usize; CHUNK_AREA];
    fg[5] = 1; // relative (5, 0) of chunk (0, 0)
    manager.create_chunk(IVec2::new(0, 0), fg, vec![0; CHUNK_AREA]);
    manager
}

#[test]
fn horizontal_ray_hits_the_block_five_tiles_away() {
    let manager = world_with_block_at_five();
    let origin = WorldVec::new(0, TILE_FP / 2);
    let end = WorldVec::new(TILE_FP, TILE_FP / 2);
    let hit = cast_ray_blocks(&manager, ChunkLayer::FOREGROUND, origin, end, 6 * TILE_FP);
    let p = hit.expect("the ray reaches the block");
    // The entry point lies on the block's left edge, within tile 5.
    assert_eq!(p, WorldVec::new(5 * TILE_FP, TILE_FP / 2));
    assert_eq!(p.x / TILE_FP, 5);
}

#[test]
fn ray_respects_the_maximum_distance() {
    let manager = world_with_block_at_five();
    let origin = WorldVec::new(0, TILE_FP / 2);
    let end = WorldVec::new(TILE_FP, TILE_FP / 2);
    assert_eq!(
        cast_ray_blocks(&manager, ChunkLayer::FOREGROUND, origin, end, 4 * TILE_FP),
        None
    );
    // The distance check precedes each step, so a maximum of exactly five
    // tiles still lets the walk enter the block at five tiles.
    assert_eq!(
        cast_ray_blocks(&manager, ChunkLayer::FOREGROUND, origin, end, 5 * TILE_FP),
        Some(WorldVec::new(5 * TILE_FP, TILE_FP / 2))
    );
}

#[test]
fn ray_ignores_the_other_layer() {
    let manager = world_with_block_at_five();
    let origin = WorldVec::new(0, TILE_FP / 2);
    let end = WorldVec::new(TILE_FP, TILE_FP / 2);
    assert_eq!(
        cast_ray_blocks(&manager, ChunkLayer::BACKGROUND, origin, end, 6 * TILE_FP),
        None
    );
}

#[test]
fn zero_maximum_distance_misses() {
    let manager = world_with_block_at_five();
    let origin = WorldVec::new(0, TILE_FP / 2);
    let end = WorldVec::new(TILE_FP, TILE_FP / 2);
    assert_eq!(cast_ray_blocks(&manager, ChunkLayer::FOREGROUND, origin, end, 0), None);
}

#[test]
fn zero_length_ray_misses() {
    let manager = world_with_block_at_five();
    let p = WorldVec::new(0, TILE_FP / 2);
    assert_eq!(cast_ray_blocks(&manager, ChunkLayer::FOREGROUND, p, p, 6 * TILE_FP), None);
}

#[test]
fn diagonal_ray_enters_through_the_nearer_crossing() {
    // Solid block at (1, 1); ray from the origin cell's center toward it.
    let mut manager = ChunkManager::new();
    let mut fg = vec![0usize; CHUNK_AREA];
    fg[1 + 1 * 16] = 1;
    manager.create_chunk(IVec2::new(0, 0), fg, vec![0; CHUNK_AREA]);

    let origin = WorldVec::new(TILE_FP / 2, TILE_FP / 2);
    let end = WorldVec::new(TILE_FP / 2 + TILE_FP, TILE_FP / 2 + TILE_FP);
    let hit = cast_ray_blocks(&manager, ChunkLayer::FOREGROUND, origin, end, 4 * TILE_FP)
        .expect("the diagonal ray reaches the block");
    // The walk crosses into column 1 first (tie goes to the y axis, which
    // steps into (0, 1); the next step enters (1, 1) at x == TILE_FP).
    assert_eq!(hit.x, TILE_FP);
    assert_eq!(hit.y, TILE_FP);
}

#[test]
fn ray_with_negative_direction_hits() {
    // Solid block at (-3, 0); ray pointing left.
    let mut manager = ChunkManager::new();
    let mut fg = vec![0usize; CHUNK_AREA];
    fg[13] = 1; // relative (13, 0) of chunk (-1, 0) is block (-3, 0)
    manager.create_chunk(IVec2::new(-1, 0), fg, vec![0; CHUNK_AREA]);

    let origin = WorldVec::new(TILE_FP / 2, TILE_FP / 2);
    let end = WorldVec::new(TILE_FP / 2 - TILE_FP, TILE_FP / 2);
    let hit = cast_ray_blocks(&manager, ChunkLayer::FOREGROUND, origin, end, 6 * TILE_FP)
        .expect("the leftward ray reaches the block");
    // Entry through the block's right edge at x == -2 tiles.
    assert_eq!(hit, WorldVec::new(-2 * TILE_FP, TILE_FP / 2));
}
