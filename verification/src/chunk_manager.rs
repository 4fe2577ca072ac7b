//! The chunk manager: a mapping from chunk coordinate to chunk.
//!
//! It owns streaming (load-on-approach, unload-on-recede), generation of
//! newly visible chunks from a supplied terrain sample, and block reads and
//! writes routed through chunk coordinates. Absence is never an error: a
//! block in an unloaded chunk reads as air (`0`) and writes to it are
//! dropped.
//!
//! Chunks are held in a vector whose entries have pairwise distinct chunk
//! coordinates, which is exactly the unique-key guarantee of a map; no
//! ordering is needed.

use crate::chunk::{spec_chunk_aabb, Chunk, ChunkLayer};
use crate::collision::AxisAlignedRectangle;
use crate::vecs::{floor_div, floor_mod, IVec2, UVec2, CHUNK_AREA, CHUNK_WIDTH, TILE_FP};
use vstd::arithmetic::div_mod::{
    lemma_div_is_ordered, lemma_fundamental_div_mod, lemma_mod_bound,
};
use vstd::arithmetic::mul::lemma_mul_inequality;
use vstd::prelude::*;

verus! {

/// The chunk coordinate owning a block coordinate: floor division by
/// `CHUNK_WIDTH` (toward negative infinity, also for negative coordinates).
pub open spec fn spec_chunk_coord(block: int) -> int {
    block / (CHUNK_WIDTH as int)
}

/// The in-chunk coordinate of a block coordinate: its remainder modulo
/// `CHUNK_WIDTH`, always in `[0, CHUNK_WIDTH)`.
pub open spec fn spec_relative_coord(block: int) -> int {
    block % (CHUNK_WIDTH as int)
}

/// Componentwise `spec_chunk_coord`.
pub open spec fn spec_chunk_pos(block: IVec2) -> IVec2 {
    IVec2 {
        x: spec_chunk_coord(block.x as int) as i32,
        y: spec_chunk_coord(block.y as int) as i32,
    }
}

/// The row-major cell index of a block coordinate inside its chunk.
pub open spec fn spec_cell_index(block: IVec2) -> int {
    spec_relative_coord(block.x as int) + spec_relative_coord(block.y as int) * (CHUNK_WIDTH as int)
}

/// The in-chunk coordinate is componentwise in `[0, CHUNK_WIDTH)`.
pub proof fn lemma_relative_coord_in_range(block: int)
    ensures
        0 <= spec_relative_coord(block) < CHUNK_WIDTH,
{
    lemma_mod_bound(block, CHUNK_WIDTH as int);
}

/// Round trip: the owning chunk coordinate times `CHUNK_WIDTH` plus the
/// in-chunk coordinate gives the block coordinate back.
pub proof fn lemma_chunk_coord_round_trip(block: int)
    ensures
        spec_chunk_coord(block) * CHUNK_WIDTH + spec_relative_coord(block) == block,
{
    lemma_fundamental_div_mod(block, CHUNK_WIDTH as int);
}

/// The chunk coordinate owning a block coordinate, rounding toward negative
/// infinity on both axes.
pub fn get_chunk_position(block_position: IVec2) -> (r: IVec2)
    ensures
        r == spec_chunk_pos(block_position),
        r.x == spec_chunk_coord(block_position.x as int),
        r.y == spec_chunk_coord(block_position.y as int),
{
    proof {
        lemma_div_is_ordered(i32::MIN as int, block_position.x as int, CHUNK_WIDTH as int);
        lemma_div_is_ordered(block_position.x as int, i32::MAX as int, CHUNK_WIDTH as int);
        lemma_div_is_ordered(i32::MIN as int, block_position.y as int, CHUNK_WIDTH as int);
        lemma_div_is_ordered(block_position.y as int, i32::MAX as int, CHUNK_WIDTH as int);
    }
    IVec2 {
        x: floor_div(block_position.x as i64, CHUNK_WIDTH as i64) as i32,
        y: floor_div(block_position.y as i64, CHUNK_WIDTH as i64) as i32,
    }
}

/// The coordinate of a block inside its owning chunk:
/// `block - chunk * CHUNK_WIDTH`, componentwise in `[0, CHUNK_WIDTH)`.
/// The caller must pass the owning chunk coordinate; that keeps every
/// relative coordinate produced here safe to turn into a cell index.
pub fn get_relative_position(global_position: IVec2, chunk_position: IVec2) -> (r: UVec2)
    requires
        chunk_position == spec_chunk_pos(global_position),
    ensures
        r.x == spec_relative_coord(global_position.x as int),
        r.y == spec_relative_coord(global_position.y as int),
        0 <= r.x < CHUNK_WIDTH,
        0 <= r.y < CHUNK_WIDTH,
        global_position.x == chunk_position.x * CHUNK_WIDTH + r.x,
        global_position.y == chunk_position.y * CHUNK_WIDTH + r.y,
    {
    proof {
        lemma_chunk_coord_round_trip(global_position.x as int);
        lemma_chunk_coord_round_trip(global_position.y as int);
        lemma_relative_coord_in_range(global_position.x as int);
        lemma_relative_coord_in_range(global_position.y as int);
        lemma_div_is_ordered(i32::MIN as int, global_position.x as int, CHUNK_WIDTH as int);
        lemma_div_is_ordered(i32::MIN as int, global_position.y as int, CHUNK_WIDTH as int);
    }
    UVec2 {
        x: floor_mod(global_position.x as i64, CHUNK_WIDTH as i64) as u32,
        y: floor_mod(global_position.y as i64, CHUNK_WIDTH as i64) as u32,
    }
}

/// The row-major index of an in-chunk coordinate: `x + y * CHUNK_WIDTH`.
pub fn get_index_from_position(position: UVec2) -> (r: usize)
    requires
        position.x < CHUNK_WIDTH,
        position.y < CHUNK_WIDTH,
    ensures
        r == position.x + position.y * (CHUNK_WIDTH as int),
        r < CHUNK_AREA,
{
    position.x as usize + position.y as usize * CHUNK_WIDTH as usize
}

/// Two distinct block coordinates never share both their owning chunk and
/// their cell index: chunk coordinate and cell index identify a block.
pub proof fn lemma_cell_index_injective(a: IVec2, b: IVec2)
    requires
        spec_chunk_pos(a) == spec_chunk_pos(b),
        spec_cell_index(a) == spec_cell_index(b),
    ensures
        a == b,
{
    lemma_chunk_coord_round_trip(a.x as int);
    lemma_chunk_coord_round_trip(a.y as int);
    lemma_chunk_coord_round_trip(b.x as int);
    lemma_chunk_coord_round_trip(b.y as int);
    lemma_relative_coord_in_range(a.x as int);
    lemma_relative_coord_in_range(a.y as int);
    lemma_relative_coord_in_range(b.x as int);
    lemma_relative_coord_in_range(b.y as int);
    lemma_div_is_ordered(i32::MIN as int, a.x as int, CHUNK_WIDTH as int);
    lemma_div_is_ordered(a.x as int, i32::MAX as int, CHUNK_WIDTH as int);
    lemma_div_is_ordered(i32::MIN as int, a.y as int, CHUNK_WIDTH as int);
    lemma_div_is_ordered(a.y as int, i32::MAX as int, CHUNK_WIDTH as int);
    lemma_div_is_ordered(i32::MIN as int, b.x as int, CHUNK_WIDTH as int);
    lemma_div_is_ordered(b.x as int, i32::MAX as int, CHUNK_WIDTH as int);
    lemma_div_is_ordered(i32::MIN as int, b.y as int, CHUNK_WIDTH as int);
    lemma_div_is_ordered(b.y as int, i32::MAX as int, CHUNK_WIDTH as int);
}

/// Bound on a view rectangle's center and size under which the chunk
/// coordinates it touches fit in `i32`.
pub const VIEW_LIMIT: i64 = 0x400_0000_0000;

/// A view rectangle small enough and near enough to the origin for
/// streaming: every block coordinate it touches fits in `i32`.
pub open spec fn spec_view_bounded(view: AxisAlignedRectangle) -> bool {
    &&& -VIEW_LIMIT <= view.center_pos.x <= VIEW_LIMIT
    &&& -VIEW_LIMIT <= view.center_pos.y <= VIEW_LIMIT
    &&& 0 <= view.size.x <= VIEW_LIMIT
    &&& 0 <= view.size.y <= VIEW_LIMIT
}

/// The chunk coordinate of a world coordinate: blocks are `TILE_FP` subunits
/// wide, chunks `CHUNK_WIDTH` blocks.
pub open spec fn spec_world_to_chunk(w: int) -> int {
    spec_chunk_coord(w / (TILE_FP as int))
}

/// Smallest chunk x coordinate of the streaming footprint of a view
/// rectangle: the chunk of the view's left edge.
pub open spec fn spec_view_min_chunk_x(view: AxisAlignedRectangle) -> int {
    spec_world_to_chunk(view.center_pos.x - view.size.x / 2)
}

/// Largest chunk x coordinate of the streaming footprint: the chunk of the
/// view's right edge.
pub open spec fn spec_view_max_chunk_x(view: AxisAlignedRectangle) -> int {
    spec_world_to_chunk(view.center_pos.x - view.size.x / 2 + view.size.x)
}

/// Smallest chunk y coordinate of the streaming footprint: the chunk of the
/// view's bottom edge.
pub open spec fn spec_view_min_chunk_y(view: AxisAlignedRectangle) -> int {
    spec_world_to_chunk(view.center_pos.y - view.size.y / 2)
}

/// Largest chunk y coordinate of the streaming footprint: the chunk of the
/// view's top edge.
pub open spec fn spec_view_max_chunk_y(view: AxisAlignedRectangle) -> int {
    spec_world_to_chunk(view.center_pos.y - view.size.y / 2 + view.size.y)
}

/// Whether a chunk coordinate lies in the streaming footprint of a view.
pub open spec fn spec_in_view_range(p: IVec2, view: AxisAlignedRectangle) -> bool {
    &&& spec_view_min_chunk_x(view) <= p.x <= spec_view_max_chunk_x(view)
    &&& spec_view_min_chunk_y(view) <= p.y <= spec_view_max_chunk_y(view)
}

/// The index into a row-major walk of the footprint (bottom row first) at
/// which the chunk coordinate `p` is visited.
pub open spec fn spec_sample_index(p: IVec2, view: AxisAlignedRectangle) -> int {
    (p.y - spec_view_min_chunk_y(view)) * (spec_view_max_chunk_x(view) - spec_view_min_chunk_x(
        view,
    ) + 1) + (p.x - spec_view_min_chunk_x(view))
}

/// The inclusive range of chunk coordinates whose chunks could intersect the
/// view rectangle: the chunks of the view's corners. Returns the bottom-left
/// and top-right chunk coordinates.
pub fn visible_chunk_range(screen_aabb: &AxisAlignedRectangle) -> (r: (IVec2, IVec2))
    requires
        screen_aabb.wf(),
        spec_view_bounded(*screen_aabb),
    ensures
        r.0.x == spec_view_min_chunk_x(*screen_aabb),
        r.0.y == spec_view_min_chunk_y(*screen_aabb),
        r.1.x == spec_view_max_chunk_x(*screen_aabb),
        r.1.y == spec_view_max_chunk_y(*screen_aabb),
        r.0.x <= r.1.x,
        r.0.y <= r.1.y,
{
    let rect = screen_aabb.as_drectangle();
    let corners = rect.corners();
    proof {
        lemma_div_is_ordered(
            -(VIEW_LIMIT as int) * 2,
            corners.bottom_left.x as int,
            TILE_FP as int,
        );
        lemma_div_is_ordered(corners.bottom_left.x as int, VIEW_LIMIT as int * 2, TILE_FP as int);
        lemma_div_is_ordered(
            -(VIEW_LIMIT as int) * 2,
            corners.bottom_left.y as int,
            TILE_FP as int,
        );
        lemma_div_is_ordered(corners.bottom_left.y as int, VIEW_LIMIT as int * 2, TILE_FP as int);
        lemma_div_is_ordered(-(VIEW_LIMIT as int) * 2, corners.top_right.x as int, TILE_FP as int);
        lemma_div_is_ordered(corners.top_right.x as int, VIEW_LIMIT as int * 2, TILE_FP as int);
        lemma_div_is_ordered(-(VIEW_LIMIT as int) * 2, corners.top_right.y as int, TILE_FP as int);
        lemma_div_is_ordered(corners.top_right.y as int, VIEW_LIMIT as int * 2, TILE_FP as int);
        lemma_div_is_ordered(corners.bottom_left.x as int, corners.top_right.x as int, TILE_FP as int);
        lemma_div_is_ordered(corners.bottom_left.y as int, corners.top_right.y as int, TILE_FP as int);
    }
    let bottom_left_block = IVec2 {
        x: floor_div(corners.bottom_left.x, TILE_FP) as i32,
        y: floor_div(corners.bottom_left.y, TILE_FP) as i32,
    };
    let top_right_block = IVec2 {
        x: floor_div(corners.top_right.x, TILE_FP) as i32,
        y: floor_div(corners.top_right.y, TILE_FP) as i32,
    };
    let bottom_left_chunk = get_chunk_position(bottom_left_block);
    let top_right_chunk = get_chunk_position(top_right_block);
    proof {
        lemma_div_is_ordered(
            bottom_left_block.x as int,
            top_right_block.x as int,
            CHUNK_WIDTH as int,
        );
        lemma_div_is_ordered(
            bottom_left_block.y as int,
            top_right_block.y as int,
            CHUNK_WIDTH as int,
        );
    }
    (bottom_left_chunk, top_right_chunk)
}

/// Chunk rows at this chunk y coordinate or below get caves carved into
/// their foreground layer.
pub const CAVE_MAX_CHUNK_Y: i32 = -3;

/// How many blocks of dirt lie between the surface block and the stone
/// below it.
pub const DIRT_DEPTH: i32 = 25;

/// One chunk's worth of terrain input, sampled by the caller from its noise
/// source: for every column of the chunk, the surface height (a global block
/// y coordinate) of that global column; and for every cell, whether the cave
/// field reaches the carving threshold there. The generator is a pure
/// function of a chunk coordinate and one of these.
pub struct ChunkSample {
    pub surface_heights: Vec<i32>,
    pub cave: Vec<bool>,
}

impl ChunkSample {
    /// One surface height per column, one cave bit per cell.
    pub open spec fn wf(self) -> bool {
        &&& self.surface_heights@.len() == CHUNK_WIDTH
        &&& self.cave@.len() == CHUNK_AREA
    }

    pub fn new(surface_heights: Vec<i32>, cave: Vec<bool>) -> (r: ChunkSample)
        requires
            surface_heights@.len() == CHUNK_WIDTH,
            cave@.len() == CHUNK_AREA,
        ensures
            r.surface_heights == surface_heights,
            r.cave == cave,
            r.wf(),
    {
        ChunkSample { surface_heights, cave }
    }
}

/// The terrain column rule: the block at global height `gy` in a column
/// whose surface sits at `surface` is grass on the surface, dirt for the
/// `DIRT_DEPTH` blocks below it, stone further down, and air above.
pub open spec fn spec_terrain_block(gy: int, surface: int) -> usize {
    if gy == surface {
        1
    } else if surface - DIRT_DEPTH <= gy < surface {
        2
    } else if gy < surface - DIRT_DEPTH {
        3
    } else {
        0
    }
}

/// The background id generated for cell `i` (row-major) of the chunk at
/// `pos`: the terrain rule at the cell's global height, with the surface of
/// the cell's column.
pub open spec fn spec_generated_background(pos: IVec2, heights: Seq<i32>, i: int) -> usize {
    spec_terrain_block(
        pos.y * (CHUNK_WIDTH as int) + i / (CHUNK_WIDTH as int),
        heights[i % (CHUNK_WIDTH as int)] as int,
    )
}

/// The foreground id generated for cell `i` of the chunk at `pos`: the same
/// terrain rule, except that in chunk rows at `CAVE_MAX_CHUNK_Y` or below a
/// set cave bit carves the cell back to air. The background keeps its
/// terrain id there, the wall seen behind the cave.
pub open spec fn spec_generated_foreground(
    pos: IVec2,
    heights: Seq<i32>,
    cave: Seq<bool>,
    i: int,
) -> usize {
    if pos.y <= CAVE_MAX_CHUNK_Y && cave[i] {
        0
    } else {
        spec_generated_background(pos, heights, i)
    }
}

/// Whether a chunk holds exactly what generation produces for the chunk
/// coordinate `p` and the terrain sample `s`.
pub open spec fn spec_is_generated(c: Chunk, p: IVec2, s: ChunkSample) -> bool {
    &&& c.position == p
    &&& c.aabb == spec_chunk_aabb(p)
    &&& c.foreground_blocks@.len() == CHUNK_AREA
    &&& c.background_blocks@.len() == CHUNK_AREA
    &&& forall|i: int|
        0 <= i < CHUNK_AREA ==> #[trigger] c.foreground_blocks@[i] == spec_generated_foreground(
            p,
            s.surface_heights@,
            s.cave@,
            i,
        )
    &&& forall|i: int|
        0 <= i < CHUNK_AREA ==> #[trigger] c.background_blocks@[i] == spec_generated_background(
            p,
            s.surface_heights@,
            i,
        )
}

/// Generation is a pure function of its input: any two chunks generated
/// from the same chunk coordinate and the same terrain sample are
/// identical, whatever states produced them.
pub proof fn lemma_generate_pure(a: Chunk, b: Chunk, pos: IVec2, sample: ChunkSample)
    requires
        spec_is_generated(a, pos, sample),
        spec_is_generated(b, pos, sample),
    ensures
        a.foreground_blocks@ == b.foreground_blocks@,
        a.background_blocks@ == b.background_blocks@,
        a.position == b.position,
        a.aabb == b.aabb,
{
    assert forall|i: int| 0 <= i < CHUNK_AREA implies a.foreground_blocks@[i]
        == b.foreground_blocks@[i] && a.background_blocks@[i] == b.background_blocks@[i] by {}
    assert(a.foreground_blocks@ =~= b.foreground_blocks@);
    assert(a.background_blocks@ =~= b.background_blocks@);
}

/// The mapping from chunk coordinate to loaded chunk.
pub struct ChunkManager {
    pub chunks: Vec<Chunk>,
}

/// The chunk count reported by the manager is the number of distinct loaded
/// chunk coordinates: the vector really is a map with unique keys.
pub proof fn lemma_count_is_loaded_set_size(m: ChunkManager)
    requires
        m.wf(),
    ensures
        m.chunks@.len() == Set::new(|p: IVec2| m.loaded(p)).len(),
{
    let positions = m.chunks@.map_values(|c: Chunk| c.position);
    assert forall|i: int, j: int|
        0 <= i < positions.len() && 0 <= j < positions.len() && i != j implies positions[i]
        != positions[j] by {
        if i < j {
            assert(m.chunks@[i].position != m.chunks@[j].position);
        } else {
            assert(m.chunks@[j].position != m.chunks@[i].position);
        }
    }
    positions.unique_seq_to_set();
    assert forall|p: IVec2| positions.to_set().contains(p) == m.loaded(p) by {
        if positions.contains(p) {
            let i = choose|i: int| 0 <= i < positions.len() && positions[i] == p;
            assert(m.chunks@[i].position == p);
        }
        if m.loaded(p) {
            let i = choose|i: int|
                0 <= i < m.chunks@.len() && (#[trigger] m.chunks@[i]).position == p;
            assert(positions[i] == p);
            assert(positions.contains(p));
        }
    }
    assert(positions.to_set() =~= Set::new(|p: IVec2| m.loaded(p)));
}

/// A block whose owning chunk is not loaded reads as air on both layers:
/// absence is a value, not a fault.
pub proof fn lemma_unloaded_block_is_air(m: ChunkManager, block: IVec2, layer: ChunkLayer)
    requires
        !m.loaded(spec_chunk_pos(block)),
    ensures
        m.spec_get_block(block, layer) == 0,
{
}

/// One step of the streaming walk: once the footprint cell `p == (x, y)` is
/// loaded (it already was, or it was just generated from its sample), the
/// description of the processed prefix advances by one cell.
proof fn lemma_load_step(
    pre: ChunkManager,
    cur: ChunkManager,
    init: ChunkManager,
    samples: Seq<ChunkSample>,
    view: AxisAlignedRectangle,
    p: IVec2,
    x: int,
    y: int,
)
    requires
        p.x == x,
        p.y == y,
        spec_in_view_range(p, view),
        forall|q: IVec2|
            #![trigger pre.loaded(q)]
            pre.loaded(q) == (init.loaded(q) || (spec_in_view_range(q, view) && (q.y < y || (q.y
                == y && q.x < x)))),
        forall|q: IVec2|
            #![trigger init.loaded(q)]
            init.loaded(q) ==> pre.loaded(q) && pre.chunk_at(q) == init.chunk_at(q),
        forall|q: IVec2|
            #![trigger pre.chunk_at(q)]
            !init.loaded(q) && pre.loaded(q) ==> spec_is_generated(
                pre.chunk_at(q),
                q,
                samples[spec_sample_index(q, view)],
            ),
        cur.loaded(p),
        !pre.loaded(p) ==> spec_is_generated(
            cur.chunk_at(p),
            p,
            samples[spec_sample_index(p, view)],
        ),
        pre.loaded(p) ==> cur == pre,
        forall|q: IVec2| q != p ==> cur.loaded(q) == pre.loaded(q),
        forall|q: IVec2| q != p && pre.loaded(q) ==> cur.chunk_at(q) == pre.chunk_at(q),
    ensures
        forall|q: IVec2|
            #![trigger cur.loaded(q)]
            cur.loaded(q) == (init.loaded(q) || (spec_in_view_range(q, view) && (q.y < y || (q.y
                == y && q.x < x + 1)))),
        forall|q: IVec2|
            #![trigger init.loaded(q)]
            init.loaded(q) ==> cur.loaded(q) && cur.chunk_at(q) == init.chunk_at(q),
        forall|q: IVec2|
            #![trigger cur.chunk_at(q)]
            !init.loaded(q) && cur.loaded(q) ==> spec_is_generated(
                cur.chunk_at(q),
                q,
                samples[spec_sample_index(q, view)],
            ),
{
    assert forall|q: IVec2|
        cur.loaded(q) == (init.loaded(q) || (spec_in_view_range(q, view) && (q.y < y || (q.y == y
            && q.x < x + 1)))) by {
        if q != p {
            assert(cur.loaded(q) == pre.loaded(q));
            if q.y == y && x <= q.x < x + 1 {
                assert(q.x == x && q.y == y);
                assert(q == p);
            }
        }
    }
    assert forall|q: IVec2| init.loaded(q) implies cur.loaded(q) && cur.chunk_at(q)
        == init.chunk_at(q) by {
        if q == p {
            assert(pre.loaded(p));
            assert(cur == pre);
        } else {
            assert(cur.chunk_at(q) == pre.chunk_at(q));
        }
    }
    assert forall|q: IVec2| !init.loaded(q) && cur.loaded(q) implies spec_is_generated(
        cur.chunk_at(q),
        q,
        samples[spec_sample_index(q, view)],
    ) by {
        if q == p {
            if pre.loaded(p) {
                assert(cur == pre);
            }
        } else {
            assert(pre.loaded(q) == cur.loaded(q));
        }
    }
}

impl ChunkManager {
    /// Every chunk is well formed and chunk coordinates are pairwise
    /// distinct: the vector is a map with unique keys.
    pub open spec fn wf(self) -> bool {
        &&& forall|i: int| 0 <= i < self.chunks@.len() ==> (#[trigger] self.chunks@[i]).wf()
        &&& forall|i: int, j: int|
            0 <= i < j < self.chunks@.len() ==> (#[trigger] self.chunks@[i]).position != (
            #[trigger] self.chunks@[j]).position
    }

    /// Whether the chunk with the given chunk coordinate is loaded.
    pub open spec fn loaded(self, p: IVec2) -> bool {
        exists|i: int| 0 <= i < self.chunks@.len() && (#[trigger] self.chunks@[i]).position == p
    }

    /// The index of the chunk with the given chunk coordinate.
    pub open spec fn spec_index_of(self, p: IVec2) -> int {
        choose|i: int| 0 <= i < self.chunks@.len() && (#[trigger] self.chunks@[i]).position == p
    }

    /// The loaded chunk with the given chunk coordinate.
    pub open spec fn chunk_at(self, p: IVec2) -> Chunk {
        self.chunks@[self.spec_index_of(p)]
    }

    /// The block id the world shows at a block coordinate: the owning
    /// chunk's cell if that chunk is loaded, air (`0`) otherwise.
    pub open spec fn spec_get_block(self, block: IVec2, layer: ChunkLayer) -> usize {
        if self.loaded(spec_chunk_pos(block)) {
            self.chunk_at(spec_chunk_pos(block)).spec_layer(layer)[spec_cell_index(block)]
        } else {
            0
        }
    }

    /// With unique keys, any index holding `p` is the index of `p`.
    pub proof fn lemma_index_of_agrees(self, p: IVec2, i: int)
        requires
            self.wf(),
            0 <= i < self.chunks@.len(),
            self.chunks@[i].position == p,
        ensures
            self.loaded(p),
            self.spec_index_of(p) == i,
    {
        assert(self.loaded(p));
        let j = self.spec_index_of(p);
        assert(0 <= j < self.chunks@.len() && self.chunks@[j].position == p);
        if i < j {
            assert(self.chunks@[i].position != self.chunks@[j].position);
        } else if j < i {
            assert(self.chunks@[j].position != self.chunks@[i].position);
        }
    }

    /// An empty manager: no chunk is loaded.
    pub fn new() -> (r: ChunkManager)
        ensures
            r.wf(),
            r.chunks@.len() == 0,
            forall|p: IVec2| !r.loaded(p),
    {
        ChunkManager { chunks: Vec::new() }
    }

    /// The number of loaded chunks (diagnostic).
    pub fn get_loaded_chunks_amount(&self) -> (r: usize)
        ensures
            r == self.chunks@.len(),
    {
        self.chunks.len()
    }

    /// The index of the chunk with the given chunk coordinate, if loaded.
    fn index_of(&self, p: IVec2) -> (r: Option<usize>)
        requires
            self.wf(),
        ensures
            match r {
                Some(i) => self.loaded(p) && i == self.spec_index_of(p)
                    && i < self.chunks@.len() && self.chunks@[i as int].position == p,
                None => !self.loaded(p),
            },
    {
        let n = self.chunks.len();
        let mut i: usize = 0;
        while i < n
            invariant
                n == self.chunks@.len(),
                i <= n,
                self.wf(),
                forall|j: int| 0 <= j < i ==> (#[trigger] self.chunks@[j]).position != p,
            decreases n - i,
        {
            if self.chunks[i].position.x == p.x && self.chunks[i].position.y == p.y {
                proof {
                    self.lemma_index_of_agrees(p, i as int);
                }
                return Some(i);
            }
            i += 1;
        }
        None
    }

    /// Writes a block id at a block coordinate on the given layer. If the
    /// owning chunk is not loaded the write is silently dropped; otherwise
    /// exactly that one cell changes and every other cell, layer and chunk
    /// is untouched.
    pub fn set_block(&mut self, block_position: IVec2, layer: ChunkLayer, block_type: usize)
        requires
            old(self).wf(),
        ensures
            final(self).wf(),
            !old(self).loaded(spec_chunk_pos(block_position)) ==> *final(self) == *old(self),
            final(self).chunks@.len() == old(self).chunks@.len(),
            forall|p: IVec2| final(self).loaded(p) == old(self).loaded(p),
            forall|p: IVec2|
                old(self).loaded(p) ==> final(self).chunk_at(p).position == old(self).chunk_at(
                    p,
                ).position && final(self).chunk_at(p).aabb == old(self).chunk_at(p).aabb,
            forall|q: IVec2, l: ChunkLayer|
                #![trigger final(self).spec_get_block(q, l)]
                final(self).spec_get_block(q, l) == (if old(self).loaded(
                    spec_chunk_pos(block_position),
                ) && q == block_position && l == layer {
                    block_type
                } else {
                    old(self).spec_get_block(q, l)
                }),
    {
        let chunk_position = get_chunk_position(block_position);
        let found = self.index_of(chunk_position);
        match found {
            None => {},
            Some(i) => {
                let relative_coords = get_relative_position(block_position, chunk_position);
                let index = get_index_from_position(relative_coords);
                let chunk = &mut self.chunks[i];
                chunk.write(layer, index, block_type);
                proof {
                    self.lemma_update_observation(
                        *old(self),
                        i as int,
                        block_position,
                        layer,
                        block_type,
                    );
                }
            },
        }
    }

    /// After replacing the chunk at index `i` by a copy whose one cell
    /// `(block, layer)` now holds `id`, the world shows `id` there and is
    /// unchanged everywhere else.
    proof fn lemma_update_observation(
        self,
        prev: ChunkManager,
        i: int,
        block: IVec2,
        layer: ChunkLayer,
        id: usize,
    )
        requires
            prev.wf(),
            0 <= i < prev.chunks@.len(),
            prev.chunks@[i].position == spec_chunk_pos(block),
            self.chunks@ == prev.chunks@.update(
                i,
                Chunk {
                    position: prev.chunks@[i].position,
                    foreground_blocks: self.chunks@[i].foreground_blocks,
                    background_blocks: self.chunks@[i].background_blocks,
                    aabb: prev.chunks@[i].aabb,
                },
            ),
            self.chunks@[i].wf(),
            self.chunks@[i].spec_layer(layer) == prev.chunks@[i].spec_layer(layer).update(
                spec_cell_index(block),
                id,
            ),
            self.chunks@[i].spec_layer(layer.spec_flip()) == prev.chunks@[i].spec_layer(
                layer.spec_flip(),
            ),
        ensures
            self.wf(),
            self.chunks@.len() == prev.chunks@.len(),
            forall|p: IVec2| self.loaded(p) == prev.loaded(p),
            forall|p: IVec2|
                prev.loaded(p) ==> self.chunk_at(p).position == prev.chunk_at(p).position
                    && self.chunk_at(p).aabb == prev.chunk_at(p).aabb,
            forall|q: IVec2, l: ChunkLayer|
                #![trigger self.spec_get_block(q, l)]
                self.spec_get_block(q, l) == (if q == block && l == layer {
                    id
                } else {
                    prev.spec_get_block(q, l)
                }),
    {
        let s = prev.chunks@;
        let s2 = self.chunks@;
        let cp = spec_chunk_pos(block);
        assert forall|j: int| 0 <= j < s.len() implies (#[trigger] s2[j]).position == s[j].position
            && s2[j].wf() by {
            if j != i {
                assert(s2[j] == s[j]);
            }
        }
        lemma_relative_coord_in_range(block.x as int);
        lemma_relative_coord_in_range(block.y as int);
        assert forall|p: IVec2| self.loaded(p) == prev.loaded(p) by {
            if prev.loaded(p) {
                let j = prev.spec_index_of(p);
                assert(s2[j].position == p);
                assert(self.loaded(p));
            }
            if self.loaded(p) {
                let j = self.spec_index_of(p);
                assert(s[j].position == p);
                assert(prev.loaded(p));
            }
        }
        assert forall|p: IVec2| prev.loaded(p) implies self.chunk_at(p).position == prev.chunk_at(
            p,
        ).position && self.chunk_at(p).aabb == prev.chunk_at(p).aabb && self.spec_index_of(p)
            == prev.spec_index_of(p) by {
            let j = prev.spec_index_of(p);
            assert(s2[j].position == p);
            self.lemma_index_of_agrees(p, j);
        }
        assert forall|q: IVec2, l: ChunkLayer|
            #![trigger self.spec_get_block(q, l)]
            self.spec_get_block(q, l) == (if q == block && l == layer {
                id
            } else {
                prev.spec_get_block(q, l)
            }) by {
            let cq = spec_chunk_pos(q);
            if prev.loaded(cq) {
                let j = prev.spec_index_of(cq);
                assert(self.spec_index_of(cq) == j);
                if cq == cp {
                    prev.lemma_index_of_agrees(cp, i);
                    assert(j == i);
                    if q == block && l == layer {
                        assert(self.spec_get_block(q, l) == id);
                    } else {
                        if l == layer {
                            if spec_cell_index(q) == spec_cell_index(block) {
                                lemma_cell_index_injective(q, block);
                            }
                            assert(self.spec_get_block(q, l) == prev.spec_get_block(q, l));
                        } else {
                            assert(l == layer.spec_flip());
                            assert(self.spec_get_block(q, l) == prev.spec_get_block(q, l));
                        }
                    }
                } else {
                    assert(s[j].position == cq);
                    assert(j != i);
                    assert(s2[j] == s[j]);
                }
            } else {
                assert(!self.loaded(cq));
            }
        }
    }

    /// Inserts a chunk built from the given block arrays under its chunk
    /// coordinate, replacing any chunk already loaded there and leaving
    /// every other chunk untouched.
    pub fn create_chunk(
        &mut self,
        chunk_position: IVec2,
        foreground_blocks: Vec<usize>,
        background_blocks: Vec<usize>,
    )
        requires
            old(self).wf(),
            foreground_blocks@.len() == CHUNK_AREA,
            background_blocks@.len() == CHUNK_AREA,
        ensures
            final(self).wf(),
            final(self).loaded(chunk_position),
            final(self).chunk_at(chunk_position).position == chunk_position,
            final(self).chunk_at(chunk_position).foreground_blocks@ == foreground_blocks@,
            final(self).chunk_at(chunk_position).background_blocks@ == background_blocks@,
            final(self).chunk_at(chunk_position).aabb == spec_chunk_aabb(chunk_position),
            forall|p: IVec2|
                p != chunk_position ==> final(self).loaded(p) == old(self).loaded(p),
            forall|p: IVec2|
                p != chunk_position && old(self).loaded(p) ==> final(self).chunk_at(p) == old(
                    self,
                ).chunk_at(p),
            final(self).chunks@.len() == old(self).chunks@.len() + (if old(self).loaded(
                chunk_position,
            ) {
                0int
            } else {
                1int
            }),
    {
        let chunk = Chunk::new(chunk_position, foreground_blocks, background_blocks);
        let found = self.index_of(chunk_position);
        match found {
            Some(i) => {
                self.chunks.set(i, chunk);
                proof {
                    let s = old(self).chunks@;
                    let s2 = self.chunks@;
                    assert forall|j: int| 0 <= j < s.len() implies (#[trigger] s2[j]).position
                        == s[j].position && s2[j].wf() by {
                        if j != i {
                            assert(s2[j] == s[j]);
                        }
                    }
                    self.lemma_index_of_agrees(chunk_position, i as int);
                    assert forall|p: IVec2| p != chunk_position implies self.loaded(p) == old(
                        self,
                    ).loaded(p) by {
                        if old(self).loaded(p) {
                            let j = old(self).spec_index_of(p);
                            assert(s2[j].position == p);
                        }
                        if self.loaded(p) {
                            let j = self.spec_index_of(p);
                            assert(s[j].position == p);
                        }
                    }
                    assert forall|p: IVec2|
                        p != chunk_position && old(self).loaded(p) implies self.chunk_at(p) == old(
                        self,
                    ).chunk_at(p) by {
                        let j = old(self).spec_index_of(p);
                        assert(s2[j].position == p);
                        self.lemma_index_of_agrees(p, j);
                        assert(j != i);
                        assert(s2[j] == s[j]);
                    }
                }
            },
            None => {
                self.chunks.push(chunk);
                proof {
                    let s = old(self).chunks@;
                    let s2 = self.chunks@;
                    let n = s.len() as int;
                    assert(s2 == s.push(chunk));
                    assert forall|j: int| 0 <= j < n implies #[trigger] s2[j] == s[j] by {}
                    assert(s2[n] == chunk);
                    self.lemma_index_of_agrees(chunk_position, n);
                    assert forall|p: IVec2| p != chunk_position implies self.loaded(p) == old(
                        self,
                    ).loaded(p) by {
                        if old(self).loaded(p) {
                            let j = old(self).spec_index_of(p);
                            assert(s2[j].position == p);
                        }
                        if self.loaded(p) {
                            let j = self.spec_index_of(p);
                            assert(j != n);
                            assert(s[j].position == p);
                        }
                    }
                    assert forall|p: IVec2|
                        p != chunk_position && old(self).loaded(p) implies self.chunk_at(p) == old(
                        self,
                    ).chunk_at(p) by {
                        let j = old(self).spec_index_of(p);
                        assert(s2[j].position == p);
                        self.lemma_index_of_agrees(p, j);
                    }
                }
            },
        }
    }

    /// Removes the chunk with the given chunk coordinate, if loaded. Every
    /// other chunk is untouched.
    pub fn delete_chunk(&mut self, chunk_position: IVec2)
        requires
            old(self).wf(),
        ensures
            final(self).wf(),
            !final(self).loaded(chunk_position),
            forall|p: IVec2|
                p != chunk_position ==> final(self).loaded(p) == old(self).loaded(p),
            forall|p: IVec2|
                p != chunk_position && old(self).loaded(p) ==> final(self).chunk_at(p) == old(
                    self,
                ).chunk_at(p),
            final(self).chunks@.len() == old(self).chunks@.len() - (if old(self).loaded(
                chunk_position,
            ) {
                1int
            } else {
                0int
            }),
    {
        let found = self.index_of(chunk_position);
        match found {
            None => {},
            Some(i) => {
                self.chunks.remove(i);
                proof {
                    let s = old(self).chunks@;
                    let s2 = self.chunks@;
                    let ii = i as int;
                    s.remove_ensures(ii);
                    assert forall|j: int| 0 <= j < s2.len() implies (#[trigger] s2[j]) == (if j
                        < ii {
                        s[j]
                    } else {
                        s[j + 1]
                    }) by {
                        assert(s2 == s.subrange(0, ii) + s.subrange(ii + 1, s.len() as int));
                    }
                    assert forall|j: int, k: int| 0 <= j < k < s2.len() implies (
                    #[trigger] s2[j]).position != (#[trigger] s2[k]).position by {}
                    assert forall|p: IVec2| self.loaded(p) implies p != chunk_position && old(
                        self,
                    ).loaded(p) by {
                        let j = self.spec_index_of(p);
                        if j < ii {
                            assert(s[j].position == p);
                        } else {
                            assert(s[j + 1].position == p);
                        }
                        assert(old(self).loaded(p));
                    }
                    assert forall|p: IVec2| p != chunk_position && old(self).loaded(p) implies
                        self.loaded(p) && self.chunk_at(p) == old(self).chunk_at(p) by {
                        let j = old(self).spec_index_of(p);
                        assert(s[j].position == p);
                        assert(j != ii);
                        if j < ii {
                            assert(s2[j] == s[j]);
                            self.lemma_index_of_agrees(p, j);
                        } else {
                            assert(s2[j - 1] == s[j]);
                            self.lemma_index_of_agrees(p, j - 1);
                        }
                    }
                }
            },
        }
    }

    /// Generates the chunk at a chunk coordinate from a terrain sample and
    /// inserts it: per cell, the terrain column rule, with caves carved out
    /// of the foreground in rows at `CAVE_MAX_CHUNK_Y` and below. A pure
    /// function of `pos` and `sample`; every other chunk is untouched.
    pub fn generate_chunk(&mut self, pos: IVec2, sample: &ChunkSample)
        requires
            old(self).wf(),
            sample.wf(),
        ensures
            final(self).wf(),
            final(self).loaded(pos),
            spec_is_generated(final(self).chunk_at(pos), pos, *sample),
            forall|p: IVec2| p != pos ==> final(self).loaded(p) == old(self).loaded(p),
            forall|p: IVec2|
                p != pos && old(self).loaded(p) ==> final(self).chunk_at(p) == old(self).chunk_at(
                    p,
                ),
            final(self).chunks@.len() == old(self).chunks@.len() + (if old(self).loaded(pos) {
                0int
            } else {
                1int
            }),
    {
        let width = CHUNK_WIDTH as usize;
        let mut foreground_blocks: Vec<usize> = Vec::new();
        let mut background_blocks: Vec<usize> = Vec::new();
        let mut i: usize = 0;
        while i < CHUNK_AREA
            invariant
                sample.wf(),
                i <= CHUNK_AREA,
                width == CHUNK_WIDTH,
                foreground_blocks@.len() == i,
                background_blocks@.len() == i,
                forall|j: int|
                    0 <= j < i ==> foreground_blocks@[j] == spec_generated_foreground(
                        pos,
                        sample.surface_heights@,
                        sample.cave@,
                        j,
                    ),
                forall|j: int|
                    0 <= j < i ==> background_blocks@[j] == spec_generated_background(
                        pos,
                        sample.surface_heights@,
                        j,
                    ),
            decreases CHUNK_AREA - i,
        {
            let x = i % width;
            let y = i / width;
            let gy: i64 = pos.y as i64 * CHUNK_WIDTH + y as i64;
            let surface: i64 = sample.surface_heights[x] as i64;
            let terrain: usize = if gy == surface {
                1
            } else if surface - DIRT_DEPTH as i64 <= gy && gy < surface {
                2
            } else if gy < surface - DIRT_DEPTH as i64 {
                3
            } else {
                0
            };
            let carved: usize = if pos.y <= CAVE_MAX_CHUNK_Y && sample.cave[i] {
                0
            } else {
                terrain
            };
            foreground_blocks.push(carved);
            background_blocks.push(terrain);
            i += 1;
        }
        self.create_chunk(pos, foreground_blocks, background_blocks);
    }

    /// Streams the world for one frame. First generates every chunk of the
    /// view's footprint that is not yet loaded, taking its terrain sample
    /// from `samples` (indexed by the footprint's row-major walk, bottom row
    /// first, as `spec_sample_index` states); then evicts every chunk whose
    /// bounding rectangle does not intersect the view. Load comes before
    /// evict, so a chunk both entering and leaving is never transiently
    /// missing. Chunks already loaded are never regenerated.
    #[verifier::rlimit(60)]
    pub fn load_chunks_on_screen(
        &mut self,
        screen_aabb: &AxisAlignedRectangle,
        samples: &Vec<ChunkSample>,
    )
        requires
            old(self).wf(),
            screen_aabb.wf(),
            spec_view_bounded(*screen_aabb),
            samples@.len() == (spec_view_max_chunk_x(*screen_aabb) - spec_view_min_chunk_x(
                *screen_aabb,
            ) + 1) * (spec_view_max_chunk_y(*screen_aabb) - spec_view_min_chunk_y(*screen_aabb)
                + 1),
            forall|k: int| 0 <= k < samples@.len() ==> (#[trigger] samples@[k]).wf(),
        ensures
            final(self).wf(),
            forall|p: IVec2|
                final(self).loaded(p) == ((old(self).loaded(p) || spec_in_view_range(
                    p,
                    *screen_aabb,
                )) && spec_chunk_aabb(p).spec_intersects(*screen_aabb)),
            forall|p: IVec2|
                old(self).loaded(p) && final(self).loaded(p) ==> final(self).chunk_at(p) == old(
                    self,
                ).chunk_at(p),
            forall|p: IVec2|
                !old(self).loaded(p) && final(self).loaded(p) ==> spec_is_generated(
                    final(self).chunk_at(p),
                    p,
                    samples@[spec_sample_index(p, *screen_aabb)],
                ),
    {
        let (range_min, range_max) = visible_chunk_range(screen_aabb);
        let ghost view = *screen_aabb;
        let ghost w = range_max.x - range_min.x + 1int;
        let ghost h = range_max.y - range_min.y + 1int;
        let mut k: usize = 0;
        let mut y: i32 = range_min.y;
        while y <= range_max.y
            invariant
                self.wf(),
                screen_aabb.wf(),
                view == *screen_aabb,
                spec_view_bounded(view),
                range_min.x == spec_view_min_chunk_x(view),
                range_min.y == spec_view_min_chunk_y(view),
                range_max.x == spec_view_max_chunk_x(view),
                range_max.y == spec_view_max_chunk_y(view),
                range_min.x <= range_max.x,
                range_min.y <= range_max.y,
                w == range_max.x - range_min.x + 1,
                h == range_max.y - range_min.y + 1,
                samples@.len() == w * h,
                forall|kk: int| 0 <= kk < samples@.len() ==> (#[trigger] samples@[kk]).wf(),
                range_min.y <= y,
                y <= range_max.y + 1,
                k == (y - range_min.y) * w,
                forall|p: IVec2|
                    #![trigger self.loaded(p)]
                    self.loaded(p) == (old(self).loaded(p) || (spec_in_view_range(p, view) && p.y
                        < y)),
                forall|p: IVec2|
                    #![trigger old(self).loaded(p)]
                    old(self).loaded(p) ==> self.loaded(p) && self.chunk_at(p) == old(
                        self,
                    ).chunk_at(p),
                forall|p: IVec2|
                    #![trigger self.chunk_at(p)]
                    !old(self).loaded(p) && self.loaded(p) ==> spec_is_generated(
                        self.chunk_at(p),
                        p,
                        samples@[spec_sample_index(p, view)],
                    ),
            decreases range_max.y + 1 - y,
        {
            let mut x: i32 = range_min.x;
            while x <= range_max.x
                invariant
                    self.wf(),
                    screen_aabb.wf(),
                    view == *screen_aabb,
                    spec_view_bounded(view),
                    range_min.x == spec_view_min_chunk_x(view),
                    range_min.y == spec_view_min_chunk_y(view),
                    range_max.x == spec_view_max_chunk_x(view),
                    range_max.y == spec_view_max_chunk_y(view),
                    range_min.x <= range_max.x,
                    range_min.y <= range_max.y,
                    w == range_max.x - range_min.x + 1,
                    h == range_max.y - range_min.y + 1,
                    samples@.len() == w * h,
                    forall|kk: int| 0 <= kk < samples@.len() ==> (#[trigger] samples@[kk]).wf(),
                    range_min.y <= y <= range_max.y,
                    range_min.x <= x,
                    x <= range_max.x + 1,
                    k == (y - range_min.y) * w + (x - range_min.x),
                    forall|p: IVec2|
                        #![trigger self.loaded(p)]
                        self.loaded(p) == (old(self).loaded(p) || (spec_in_view_range(p, view) && (
                        p.y < y || (p.y == y && p.x < x)))),
                    forall|p: IVec2|
                        #![trigger old(self).loaded(p)]
                        old(self).loaded(p) ==> self.loaded(p) && self.chunk_at(p) == old(
                            self,
                        ).chunk_at(p),
                    forall|p: IVec2|
                        #![trigger self.chunk_at(p)]
                        !old(self).loaded(p) && self.loaded(p) ==> spec_is_generated(
                            self.chunk_at(p),
                            p,
                            samples@[spec_sample_index(p, view)],
                        ),
                decreases range_max.x + 1 - x,
            {
                let p = IVec2 { x, y };
                proof {
                    lemma_mul_inequality(y - range_min.y, range_max.y - range_min.y, w);
                    assert((h - 1) * w + w == h * w) by (nonlinear_arith);
                    assert(w * h == h * w) by (nonlinear_arith);
                    assert(k < samples@.len());
                    assert(samples@.len() == samples.len());
                    assert(spec_sample_index(p, view) == k);
                    assert(spec_in_view_range(p, view));
                }
                let ghost pre = *self;
                let already = self.index_of(p);
                match already {
                    Some(_) => {
                        proof {
                            lemma_load_step(pre, *self, *old(self), samples@, view, p, x as int, y as int);
                        }
                    },
                    None => {
                        self.generate_chunk(p, &samples[k]);
                        proof {
                            lemma_load_step(pre, *self, *old(self), samples@, view, p, x as int, y as int);
                        }
                    },
                }
                k += 1;
                x += 1;
            }
            proof {
                assert((y - range_min.y) * w + w == (y + 1 - range_min.y) * w) by (nonlinear_arith);
                assert forall|p: IVec2|
                    self.loaded(p) == (old(self).loaded(p) || (spec_in_view_range(p, view) && p.y
                        < y + 1)) by {
                    if spec_in_view_range(p, view) {
                        assert(p.x <= range_max.x);
                    }
                }
            }
            y += 1;
        }
        let ghost mid = *self;
        self.unload_unseen_chunks(screen_aabb);
        proof {
            assert forall|p: IVec2|
                self.loaded(p) == ((old(self).loaded(p) || spec_in_view_range(p, view))
                    && spec_chunk_aabb(p).spec_intersects(view)) by {
                if spec_in_view_range(p, view) {
                    assert(p.y < range_max.y + 1);
                }
            }
        }
    }

    /// Evicts every loaded chunk whose bounding rectangle does not intersect
    /// the view rectangle. Chunks that stay are untouched.
    pub fn unload_unseen_chunks(&mut self, screen_aabb: &AxisAlignedRectangle)
        requires
            old(self).wf(),
            screen_aabb.wf(),
        ensures
            final(self).wf(),
            forall|p: IVec2|
                final(self).loaded(p) == (old(self).loaded(p) && spec_chunk_aabb(
                    p,
                ).spec_intersects(*screen_aabb)),
            forall|p: IVec2|
                final(self).loaded(p) ==> final(self).chunk_at(p) == old(self).chunk_at(p),
    {
        let mut chunk_poses_to_delete: Vec<IVec2> = Vec::new();
        let n = self.chunks.len();
        let mut i: usize = 0;
        while i < n
            invariant
                self == old(self),
                self.wf(),
                n == self.chunks@.len(),
                i <= n,
                screen_aabb.wf(),
                forall|k: int|
                    0 <= k < chunk_poses_to_delete@.len() ==> self.loaded(
                        #[trigger] chunk_poses_to_delete@[k],
                    ) && !spec_chunk_aabb(chunk_poses_to_delete@[k]).spec_intersects(*screen_aabb),
                forall|j: int|
                    0 <= j < i && !spec_chunk_aabb((#[trigger] self.chunks@[j]).position).spec_intersects(
                        *screen_aabb,
                    ) ==> chunk_poses_to_delete@.contains(self.chunks@[j].position),
            decreases n - i,
        {
            let chunk_pos = self.chunks[i].position;
            proof {
                self.lemma_index_of_agrees(chunk_pos, i as int);
            }
            let ghost td0 = chunk_poses_to_delete@;
            if !screen_aabb.intersects(&self.chunks[i].aabb) {
                chunk_poses_to_delete.push(chunk_pos);
            }
            proof {
                assert forall|q: IVec2| td0.contains(q) implies chunk_poses_to_delete@.contains(
                    q,
                ) by {
                    let k = choose|k: int| 0 <= k < td0.len() && td0[k] == q;
                    assert(chunk_poses_to_delete@[k] == q);
                }
                if !spec_chunk_aabb(chunk_pos).spec_intersects(*screen_aabb) {
                    assert(chunk_poses_to_delete@[td0.len() as int] == chunk_pos);
                    assert(chunk_poses_to_delete@.contains(chunk_pos));
                }
            }
            i += 1;
        }
        let ghost mid = *self;
        let ghost td = chunk_poses_to_delete@;
        proof {
            assert forall|p: IVec2|
                mid.loaded(p) && !spec_chunk_aabb(p).spec_intersects(*screen_aabb) implies
                td.contains(p) by {
                let j = mid.spec_index_of(p);
                assert(mid.chunks@[j].position == p);
            }
        }
        let m = chunk_poses_to_delete.len();
        let mut j: usize = 0;
        while j < m
            invariant
                m == td.len(),
                j <= m,
                td == chunk_poses_to_delete@,
                self.wf(),
                forall|k: int|
                    0 <= k < td.len() ==> mid.loaded(#[trigger] td[k]) && !spec_chunk_aabb(
                        td[k],
                    ).spec_intersects(*screen_aabb),
                forall|p: IVec2|
                    mid.loaded(p) && !spec_chunk_aabb(p).spec_intersects(*screen_aabb)
                        ==> td.contains(p),
                forall|p: IVec2|
                    self.loaded(p) == (mid.loaded(p) && !exists|k: int|
                        0 <= k < j && #[trigger] td[k] == p),
                forall|p: IVec2| self.loaded(p) ==> self.chunk_at(p) == mid.chunk_at(p),
            decreases m - j,
        {
            let p = chunk_poses_to_delete[j];
            self.delete_chunk(p);
            proof {
                assert forall|q: IVec2|
                    self.loaded(q) == (mid.loaded(q) && !exists|k: int|
                        0 <= k < j + 1 && #[trigger] td[k] == q) by {
                    if q == p {
                        assert(td[j as int] == q);
                        assert(!self.loaded(q));
                    }
                }
            }
            j += 1;
        }
        proof {
            assert forall|p: IVec2|
                self.loaded(p) == (mid.loaded(p) && spec_chunk_aabb(p).spec_intersects(
                    *screen_aabb,
                )) by {
                if mid.loaded(p) && !spec_chunk_aabb(p).spec_intersects(*screen_aabb) {
                    let k = choose|k: int| 0 <= k < td.len() && td[k] == p;
                    assert(td[k] == p);
                    assert(!self.loaded(p));
                }
            }
        }
    }

    /// Reads the block at a block coordinate on the given layer. If the
    /// owning chunk is not loaded the result is air (`0`): absence is
    /// indistinguishable from empty.
    pub fn get_block(&self, block_position: IVec2, layer: ChunkLayer) -> (r: usize)
        requires
            self.wf(),
        ensures
            r == self.spec_get_block(block_position, layer),
    {
        let chunk_position = get_chunk_position(block_position);
        let found = self.index_of(chunk_position);
        match found {
            None => 0,
            Some(i) => {
                let relative_coords = get_relative_position(block_position, chunk_position);
                let index = get_index_from_position(relative_coords);
                self.chunks[i].read(layer, index)
            },
        }
    }
}

} // verus!
