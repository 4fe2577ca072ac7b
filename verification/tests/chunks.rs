use mijocraft::chunk::{block_atlas_index, Chunk, ChunkLayer};
use mijocraft::chunk_manager::visible_chunk_range;
use mijocraft::collision::AxisAlignedRectangle;
use mijocraft::vecs::{
    IVec2, WorldVec, BLOCK_COUNT, CHUNK_AREA, CHUNK_FP, CHUNK_WIDTH, FP_ONE, TILE_FP, TILE_SIZE,
};

#[test]
fn fixed_point_constants_are_consistent() {
    assert_eq!(TILE_FP, TILE_SIZE * FP_ONE);
    assert_eq!(CHUNK_FP, CHUNK_WIDTH * TILE_FP);
    assert_eq!(CHUNK_AREA as i64, CHUNK_WIDTH * CHUNK_WIDTH);
}

#[test]
fn chunk_carries_its_bounding_rectangle() {
    let chunk = Chunk::new(IVec2::new(-2, 3), vec![0; CHUNK_AREA], vec![0; CHUNK_AREA]);
    // The chunk spans [-2 * CHUNK_FP, -1 * CHUNK_FP] by [3 * CHUNK_FP, 4 * CHUNK_FP].
    assert_eq!(
        chunk.aabb.center_pos,
        WorldVec::new(-2 * CHUNK_FP + CHUNK_FP / 2, 3 * CHUNK_FP + CHUNK_FP / 2)
    );
    assert_eq!(chunk.aabb.size, WorldVec::new(CHUNK_FP, CHUNK_FP));
    assert_eq!(chunk.position, IVec2::new(-2, 3));
}

#[test]
fn chunk_read_and_write_are_per_layer() {
    let mut chunk = Chunk::new(IVec2::new(0, 0), vec![0; CHUNK_AREA], vec![9; CHUNK_AREA]);
    assert_eq!(chunk.read(ChunkLayer::FOREGROUND, 37), 0);
    assert_eq!(chunk.read(ChunkLayer::BACKGROUND, 37), 9);
    chunk.write(ChunkLayer::FOREGROUND, 37, 5);
    assert_eq!(chunk.read(ChunkLayer::FOREGROUND, 37), 5);
    assert_eq!(chunk.read(ChunkLayer::FOREGROUND, 36), 0);
    assert_eq!(chunk.read(ChunkLayer::BACKGROUND, 37), 9);
}

#[test]
fn air_has_no_atlas_index() {
    assert_eq!(block_atlas_index(0), None);
    assert_eq!(block_atlas_index(1), Some(0));
    assert_eq!(block_atlas_index(3), Some(2));
    // every drawable kind has an atlas column
    assert_eq!(block_atlas_index(BLOCK_COUNT), Some(BLOCK_COUNT - 1));
}

#[test]
fn visible_range_handles_negative_coordinates() {
    // A view centered on the origin touches the four chunks around it.
    let v = AxisAlignedRectangle {
        center_pos: WorldVec::new(0, 0),
        size: WorldVec::new(CHUNK_FP, CHUNK_FP),
    };
    let (lo, hi) = visible_chunk_range(&v);
    assert_eq!(lo, IVec2::new(-1, -1));
    assert_eq!(hi, IVec2::new(0, 0));
}
