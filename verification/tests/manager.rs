use mijocraft::chunk::ChunkLayer;
use mijocraft::chunk_manager::{visible_chunk_range, ChunkManager, ChunkSample};
use mijocraft::collision::AxisAlignedRectangle;
use mijocraft::vecs::{IVec2, WorldVec, CHUNK_AREA, CHUNK_FP};

fn flat_sample(height: i32) -> ChunkSample {
    ChunkSample::new(vec![height; 16], vec![false; CHUNK_AREA])
}

fn view(cx: i64, cy: i64, sx: i64, sy: i64) -> AxisAlignedRectangle {
    AxisAlignedRectangle { center_pos: WorldVec::new(cx, cy), size: WorldVec::new(sx, sy) }
}

#[test]
fn unloaded_chunk_reads_as_air() {
    let manager = ChunkManager::new();
    assert_eq!(manager.get_block(IVec2::new(0, 0), ChunkLayer::FOREGROUND), 0);
    assert_eq!(manager.get_block(IVec2::new(0, 0), ChunkLayer::BACKGROUND), 0);
    assert_eq!(manager.get_block(IVec2::new(-37, 1000), ChunkLayer::FOREGROUND), 0);
    assert_eq!(manager.get_block(IVec2::new(-37, 1000), ChunkLayer::BACKGROUND), 0);
}

#[test]
fn set_block_on_unloaded_chunk_is_dropped() {
    let mut manager = ChunkManager::new();
    manager.set_block(IVec2::new(5, 5), ChunkLayer::FOREGROUND, 3);
    assert_eq!(manager.get_block(IVec2::new(5, 5), ChunkLayer::FOREGROUND), 0);
    assert_eq!(manager.get_loaded_chunks_amount(), 0);
}

#[test]
fn create_set_get_and_delete() {
    let mut manager = ChunkManager::new();
    manager.create_chunk(IVec2::new(-1, -1), vec![0; CHUNK_AREA], vec![0; CHUNK_AREA]);
    assert_eq!(manager.get_loaded_chunks_amount(), 1);

    // block (-1, -1) lives in chunk (-1, -1) at relative (15, 15).
    let b = IVec2::new(-1, -1);
    assert_eq!(manager.get_block(b, ChunkLayer::FOREGROUND), 0);
    manager.set_block(b, ChunkLayer::FOREGROUND, 7);
    assert_eq!(manager.get_block(b, ChunkLayer::FOREGROUND), 7);
    assert_eq!(manager.get_block(b, ChunkLayer::BACKGROUND), 0);
    // neighbors untouched
    assert_eq!(manager.get_block(IVec2::new(-2, -1), ChunkLayer::FOREGROUND), 0);

    manager.set_block(b, ChunkLayer::BACKGROUND, 2);
    assert_eq!(manager.get_block(b, ChunkLayer::BACKGROUND), 2);
    assert_eq!(manager.get_block(b, ChunkLayer::FOREGROUND), 7);

    manager.delete_chunk(IVec2::new(-1, -1));
    assert_eq!(manager.get_loaded_chunks_amount(), 0);
    assert_eq!(manager.get_block(b, ChunkLayer::FOREGROUND), 0);
}

#[test]
fn layer_flip_swaps_layers() {
    assert_eq!(ChunkLayer::FOREGROUND.flip(), ChunkLayer::BACKGROUND);
    assert_eq!(ChunkLayer::BACKGROUND.flip(), ChunkLayer::FOREGROUND);
}

#[test]
fn generation_follows_the_terrain_rule() {
    let mut manager = ChunkManager::new();
    manager.generate_chunk(IVec2::new(0, 0), &flat_sample(5));
    // Row y == 5 is the surface, rows below are dirt, rows above are air.
    assert_eq!(manager.get_block(IVec2::new(3, 5), ChunkLayer::FOREGROUND), 1);
    assert_eq!(manager.get_block(IVec2::new(3, 5), ChunkLayer::BACKGROUND), 1);
    assert_eq!(manager.get_block(IVec2::new(3, 4), ChunkLayer::FOREGROUND), 2);
    assert_eq!(manager.get_block(IVec2::new(3, 0), ChunkLayer::FOREGROUND), 2);
    assert_eq!(manager.get_block(IVec2::new(3, 6), ChunkLayer::FOREGROUND), 0);

    // 25 blocks of dirt below the surface, stone further down.
    let mut deep = ChunkManager::new();
    deep.generate_chunk(IVec2::new(0, -2), &flat_sample(5));
    assert_eq!(deep.get_block(IVec2::new(0, -20), ChunkLayer::FOREGROUND), 2);
    assert_eq!(deep.get_block(IVec2::new(0, -21), ChunkLayer::FOREGROUND), 3);
}

#[test]
fn caves_carve_only_the_foreground_of_deep_chunks() {
    let mut cave = vec![false; CHUNK_AREA];
    cave[0] = true; // relative (0, 0) of the chunk
    let sample = ChunkSample::new(vec![1000; 16], cave);

    let mut manager = ChunkManager::new();
    manager.generate_chunk(IVec2::new(0, -3), &sample);
    // block (0, -48) is relative (0, 0) of chunk (0, -3): carved to air in
    // front, stone behind.
    assert_eq!(manager.get_block(IVec2::new(0, -48), ChunkLayer::FOREGROUND), 0);
    assert_eq!(manager.get_block(IVec2::new(0, -48), ChunkLayer::BACKGROUND), 3);
    // the same cave bit in a shallower chunk row carves nothing
    let mut shallow = ChunkManager::new();
    let mut cave2 = vec![false; CHUNK_AREA];
    cave2[0] = true;
    shallow.generate_chunk(IVec2::new(0, -2), &ChunkSample::new(vec![1000; 16], cave2));
    assert_eq!(shallow.get_block(IVec2::new(0, -32), ChunkLayer::FOREGROUND), 3);
}

#[test]
fn generation_is_pure() {
    let mut cave = vec![false; CHUNK_AREA];
    cave[17] = true;
    cave[200] = true;
    let heights: Vec<i32> = (0..16).map(|x| (x * 3 - 20) as i32).collect();

    let mut a = ChunkManager::new();
    let mut b = ChunkManager::new();
    b.create_chunk(IVec2::new(9, 9), vec![4; CHUNK_AREA], vec![4; CHUNK_AREA]);
    a.generate_chunk(IVec2::new(-2, -4), &ChunkSample::new(heights.clone(), cave.clone()));
    b.generate_chunk(IVec2::new(-2, -4), &ChunkSample::new(heights, cave));

    for y in -64i32..-48 {
        for x in -32i32..-16 {
            let p = IVec2::new(x, y);
            assert_eq!(
                a.get_block(p, ChunkLayer::FOREGROUND),
                b.get_block(p, ChunkLayer::FOREGROUND)
            );
            assert_eq!(
                a.get_block(p, ChunkLayer::BACKGROUND),
                b.get_block(p, ChunkLayer::BACKGROUND)
            );
        }
    }
}

#[test]
fn visible_range_covers_the_view() {
    // A view from (31072, 31072) to (231072, 231072) spans chunks (0,0)
    // through (1,1).
    let v = view(131072, 131072, 200000, 200000);
    let (lo, hi) = visible_chunk_range(&v);
    assert_eq!(lo, IVec2::new(0, 0));
    assert_eq!(hi, IVec2::new(1, 1));
}

#[test]
fn load_then_disjoint_load_replaces_the_set() {
    let mut manager = ChunkManager::new();
    let v1 = view(131072, 131072, 200000, 200000);
    let samples1: Vec<ChunkSample> = (0..4).map(|_| flat_sample(5)).collect();
    manager.load_chunks_on_screen(&v1, &samples1);
    assert_eq!(manager.get_loaded_chunks_amount(), 4);
    // terrain visible inside chunk (0, 0)
    assert_eq!(manager.get_block(IVec2::new(2, 5), ChunkLayer::FOREGROUND), 1);

    // A disjoint view far away: chunks (10,10) through (11,11).
    let v2 = view(
        10 * CHUNK_FP + CHUNK_FP,
        10 * CHUNK_FP + CHUNK_FP,
        200000,
        200000,
    );
    let samples2: Vec<ChunkSample> = (0..4).map(|_| flat_sample(5)).collect();
    manager.load_chunks_on_screen(&v2, &samples2);
    assert_eq!(manager.get_loaded_chunks_amount(), 4);
    // the old set was evicted
    assert_eq!(manager.get_block(IVec2::new(2, 5), ChunkLayer::FOREGROUND), 0);
}

#[test]
fn unload_unseen_keeps_only_intersecting_chunks() {
    let mut manager = ChunkManager::new();
    manager.create_chunk(IVec2::new(0, 0), vec![1; CHUNK_AREA], vec![1; CHUNK_AREA]);
    manager.create_chunk(IVec2::new(5, 5), vec![1; CHUNK_AREA], vec![1; CHUNK_AREA]);
    // A view over chunk (0, 0) only.
    let v = view(CHUNK_FP / 2, CHUNK_FP / 2, CHUNK_FP, CHUNK_FP);
    manager.unload_unseen_chunks(&v);
    assert_eq!(manager.get_loaded_chunks_amount(), 1);
    assert_eq!(manager.get_block(IVec2::new(0, 0), ChunkLayer::FOREGROUND), 1);
    assert_eq!(manager.get_block(IVec2::new(80, 80), ChunkLayer::FOREGROUND), 0);
}
