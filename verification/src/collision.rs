//! Rectangle primitives shared by view culling and physics, and the voxel
//! ray caster.
//!
//! `AxisAlignedRectangle` (center + size) is the bounding-box type used for
//! chunks, the view rectangle and the player. Its intersection test uses
//! closed intervals, so rectangles whose edges exactly touch count as
//! intersecting; the comparisons are done on doubled coordinates, which keeps
//! them exact even for odd sizes.

use crate::chunk::ChunkLayer;
use crate::chunk_manager::ChunkManager;
use crate::vecs::{floor_div, IVec2, WorldVec, TILE_FP};
use vstd::arithmetic::div_mod::{lemma_fundamental_div_mod, lemma_mod_bound};
use vstd::math::abs;
use vstd::prelude::*;

verus! {

/// Coordinate bound under which doubled-coordinate comparisons and corner
/// sums cannot overflow `i64`.
pub const RECT_LIMIT: i64 = 0x1000_0000_0000_0000;

/// The four corner points of a rectangle.
pub struct RectangleCorners {
    pub bottom_left: WorldVec,
    pub bottom_right: WorldVec,
    pub top_left: WorldVec,
    pub top_right: WorldVec,
}

/// Rectangle defined by its dimensions and the position of its bottom-left
/// corner.
#[derive(Debug, Clone, Copy, PartialEq, Eq, Structural)]
pub struct Rectangle {
    pub pos_bottom_left: WorldVec,
    pub size: WorldVec,
}

impl Rectangle {
    /// Coordinates bounded and size non-negative.
    pub open spec fn wf(self) -> bool {
        &&& -RECT_LIMIT <= self.pos_bottom_left.x <= RECT_LIMIT
        &&& -RECT_LIMIT <= self.pos_bottom_left.y <= RECT_LIMIT
        &&& 0 <= self.size.x <= RECT_LIMIT
        &&& 0 <= self.size.y <= RECT_LIMIT
    }

    /// Closed-interval overlap of `[pos, pos + size]` on both axes.
    pub open spec fn spec_intersects(self, other: Rectangle) -> bool {
        &&& self.pos_bottom_left.x <= other.pos_bottom_left.x + other.size.x
        &&& other.pos_bottom_left.x <= self.pos_bottom_left.x + self.size.x
        &&& self.pos_bottom_left.y <= other.pos_bottom_left.y + other.size.y
        &&& other.pos_bottom_left.y <= self.pos_bottom_left.y + self.size.y
    }

    /// The four corners: bottom-left plus the size along each axis.
    pub fn corners(&self) -> (r: RectangleCorners)
        requires
            self.wf(),
        ensures
            r.bottom_left == self.pos_bottom_left,
            r.top_left.x == self.pos_bottom_left.x,
            r.top_left.y == self.pos_bottom_left.y + self.size.y,
            r.bottom_right.x == self.pos_bottom_left.x + self.size.x,
            r.bottom_right.y == self.pos_bottom_left.y,
            r.top_right.x == self.pos_bottom_left.x + self.size.x,
            r.top_right.y == self.pos_bottom_left.y + self.size.y,
    {
        RectangleCorners {
            bottom_left: self.pos_bottom_left,
            top_left: WorldVec {
                x: self.pos_bottom_left.x,
                y: self.pos_bottom_left.y + self.size.y,
            },
            bottom_right: WorldVec {
                x: self.pos_bottom_left.x + self.size.x,
                y: self.pos_bottom_left.y,
            },
            top_right: WorldVec {
                x: self.pos_bottom_left.x + self.size.x,
                y: self.pos_bottom_left.y + self.size.y,
            },
        }
    }

    /// True iff the rectangles overlap on both axes, edges included.
    pub fn intersects(&self, other: Rectangle) -> (r: bool)
        requires
            self.wf(),
            other.wf(),
        ensures
            r == self.spec_intersects(other),
    {
        self.pos_bottom_left.x <= other.pos_bottom_left.x + other.size.x
            && other.pos_bottom_left.x <= self.pos_bottom_left.x + self.size.x
            && self.pos_bottom_left.y <= other.pos_bottom_left.y + other.size.y
            && other.pos_bottom_left.y <= self.pos_bottom_left.y + self.size.y
    }
}

/// Axis-aligned rectangle given by the global position of its center and its
/// size.
#[derive(Debug, Clone, Copy, PartialEq, Eq, Structural)]
pub struct AxisAlignedRectangle {
    pub center_pos: WorldVec,
    pub size: WorldVec,
}

impl AxisAlignedRectangle {
    /// Coordinates bounded and size non-negative.
    pub open spec fn wf(self) -> bool {
        &&& -RECT_LIMIT <= self.center_pos.x <= RECT_LIMIT
        &&& -RECT_LIMIT <= self.center_pos.y <= RECT_LIMIT
        &&& 0 <= self.size.x <= RECT_LIMIT
        &&& 0 <= self.size.y <= RECT_LIMIT
    }

    /// Closed-interval overlap of `[center - size/2, center + size/2]` on
    /// both axes, stated on doubled coordinates so that it is exact for odd
    /// sizes as well.
    pub open spec fn spec_intersects(self, other: AxisAlignedRectangle) -> bool {
        &&& 2 * self.center_pos.x - self.size.x <= 2 * other.center_pos.x + other.size.x
        &&& 2 * other.center_pos.x - other.size.x <= 2 * self.center_pos.x + self.size.x
        &&& 2 * self.center_pos.y - self.size.y <= 2 * other.center_pos.y + other.size.y
        &&& 2 * other.center_pos.y - other.size.y <= 2 * self.center_pos.y + self.size.y
    }

    /// The same region as a bottom-left + size rectangle. The bottom-left
    /// corner is `center - size/2` with the halves rounded down.
    pub fn as_drectangle(&self) -> (r: Rectangle)
        requires
            self.wf(),
        ensures
            r.pos_bottom_left.x == self.center_pos.x - self.size.x / 2,
            r.pos_bottom_left.y == self.center_pos.y - self.size.y / 2,
            r.size == self.size,
    {
        Rectangle {
            pos_bottom_left: WorldVec {
                x: self.center_pos.x - self.size.x / 2,
                y: self.center_pos.y - self.size.y / 2,
            },
            size: self.size,
        }
    }

    /// True iff the rectangles overlap on both axes, touching edges
    /// included: a chunk exactly at the view boundary still counts as
    /// visible.
    pub fn intersects(&self, other: &AxisAlignedRectangle) -> (r: bool)
        requires
            self.wf(),
            other.wf(),
        ensures
            r == self.spec_intersects(*other),
    {
        2 * self.center_pos.x - self.size.x <= 2 * other.center_pos.x + other.size.x
            && 2 * other.center_pos.x - other.size.x <= 2 * self.center_pos.x + self.size.x
            && 2 * self.center_pos.y - self.size.y <= 2 * other.center_pos.y + other.size.y
            && 2 * other.center_pos.y - other.size.y <= 2 * self.center_pos.y + self.size.y
    }
}

/// Intersection of axis-aligned rectangles is symmetric.
pub proof fn lemma_intersects_symmetric(a: AxisAlignedRectangle, b: AxisAlignedRectangle)
    ensures
        a.spec_intersects(b) == b.spec_intersects(a),
{
}

/// Bound on a ray origin under which the traversal's block coordinates fit
/// in `i32`.
pub const RAY_POS_LIMIT: i64 = 0x200_0000_0000;

/// Bound on the components of the ray's direction vector (`end - origin`).
pub const RAY_DIR_LIMIT: i64 = 0x400_0000;

/// Bound on the maximum ray distance, in world subunits.
pub const RAY_DIST_LIMIT: i64 = 0x4000_0000;

/// Whether a crossing at ray parameter `t_num / t_den` lies strictly within
/// Euclidean distance `m` along a ray of direction `(dx, dy)`: the exact
/// squared form of `(t_num / t_den) * sqrt(dx^2 + dy^2) < m`.
pub open spec fn spec_ray_within(t_num: int, t_den: int, dx: int, dy: int, m: int) -> bool {
    t_num * t_num * (dx * dx + dy * dy) < m * m * (t_den * t_den)
}

/// The point at ray parameter `t_num / t_den` on the ray from `(ox, oy)`
/// with direction `(dx, dy)`, rounded down to whole subunits.
pub open spec fn spec_ray_hit(ox: int, oy: int, dx: int, dy: int, t_num: int, t_den: int)
    -> WorldVec
    recommends
        t_den >= 1,
{
    WorldVec { x: (ox + (t_num * dx) / t_den) as i64, y: (oy + (t_num * dy) / t_den) as i64 }
}

/// One grid traversal: starting from cell `(bx, by)` with the accumulated
/// crossing numerators `(ax, ay)` and the distance of the last step
/// `t_num / t_den`, repeatedly advance the axis whose next crossing comes
/// sooner, and stop at the first cell of the given layer holding a solid
/// block, or once the last step's distance reaches `m`. The fuel only caps
/// the recursion; the caller passes enough for the distance check to stop
/// the walk first.
pub open spec fn spec_cast_loop(
    cm: ChunkManager,
    layer: ChunkLayer,
    ox: int,
    oy: int,
    dx: int,
    dy: int,
    bx: int,
    by: int,
    ax: int,
    ay: int,
    t_num: int,
    t_den: int,
    m: int,
    fuel: nat,
) -> Option<WorldVec>
    decreases fuel,
{
    if !spec_ray_within(t_num, t_den, dx, dy, m) {
        None
    } else if fuel == 0 {
        None
    } else {
        let advance_x = if dx == 0 {
            false
        } else if dy == 0 {
            true
        } else {
            ax * (abs(dy) as int) < ay * (abs(dx) as int)
        };
        let bx2 = if advance_x {
            bx + (if dx < 0 {
                -1int
            } else {
                1int
            })
        } else {
            bx
        };
        let by2 = if advance_x {
            by
        } else {
            by + (if dy < 0 {
                -1int
            } else {
                1int
            })
        };
        let t_num2 = if advance_x {
            ax
        } else {
            ay
        };
        let t_den2 = if advance_x {
            abs(dx) as int
        } else {
            abs(dy) as int
        };
        let ax2 = if advance_x {
            ax + TILE_FP as int
        } else {
            ax
        };
        let ay2 = if advance_x {
            ay
        } else {
            ay + TILE_FP as int
        };
        if cm.spec_get_block(IVec2 { x: bx2 as i32, y: by2 as i32 }, layer) > 0 {
            Some(spec_ray_hit(ox, oy, dx, dy, t_num2, t_den2))
        } else {
            spec_cast_loop(
                cm,
                layer,
                ox,
                oy,
                dx,
                dy,
                bx2,
                by2,
                ax2,
                ay2,
                t_num2,
                t_den2,
                m,
                (fuel - 1) as nat,
            )
        }
    }
}

/// The full ray cast: a zero-length ray hits nothing; otherwise the walk
/// starts at the origin's cell, with each axis's numerator set to the
/// distance from the origin to its first crossing in the direction of
/// travel.
pub open spec fn spec_cast_ray(
    cm: ChunkManager,
    layer: ChunkLayer,
    ray_origin: WorldVec,
    ray_end: WorldVec,
    m: int,
) -> Option<WorldVec> {
    let dx = ray_end.x - ray_origin.x;
    let dy = ray_end.y - ray_origin.y;
    if dx == 0 && dy == 0 {
        None
    } else {
        let bx = ray_origin.x as int / (TILE_FP as int);
        let by = ray_origin.y as int / (TILE_FP as int);
        let ax = if dx < 0 {
            ray_origin.x - bx * TILE_FP
        } else {
            (bx + 1) * TILE_FP - ray_origin.x
        };
        let ay = if dy < 0 {
            ray_origin.y - by * TILE_FP
        } else {
            (by + 1) * TILE_FP - ray_origin.y
        };
        spec_cast_loop(
            cm,
            layer,
            ray_origin.x as int,
            ray_origin.y as int,
            dx,
            dy,
            bx,
            by,
            ax,
            ay,
            0,
            1,
            m,
            (2 * (m / (TILE_FP as int)) + 5) as nat,
        )
    }
}

/// A crossing within the distance bound is strictly nearer than the bound in
/// numerator terms, provided the crossing axis is no longer than the ray
/// direction.
proof fn lemma_ray_within_bounds_num(t_num: int, t_den: int, dx: int, dy: int, m: int)
    requires
        0 <= t_num,
        1 <= t_den,
        t_den * t_den <= dx * dx + dy * dy,
        spec_ray_within(t_num, t_den, dx, dy, m),
        0 <= m,
    ensures
        t_num < m,
{
    if t_num >= m {
        assert(false) by (nonlinear_arith)
            requires
                0 <= m <= t_num,
                1 <= t_den,
                t_den * t_den <= dx * dx + dy * dy,
                t_num * t_num * (dx * dx + dy * dy) < m * m * (t_den * t_den),
        ;
    }
}

/// The quotient of `p / d` for positive `d` is no larger in magnitude than
/// `p` plus one divisor.
proof fn lemma_div_magnitude(p: int, d: int)
    requires
        1 <= d,
    ensures
        -abs(p) - d <= p / d <= abs(p),
{
    lemma_fundamental_div_mod(p, d);
    lemma_mod_bound(p, d);
    let q = p / d;
    if q >= 0 {
        assert(q <= d * q) by (nonlinear_arith)
            requires
                1 <= d,
                0 <= q,
        ;
    } else {
        assert(d * q <= q) by (nonlinear_arith)
            requires
                1 <= d,
                q < 0,
        ;
    }
}

/// Exact evaluation of `spec_ray_within` on machine integers.
fn ray_within(t_num: i64, t_den: i64, dx: i64, dy: i64, m: i64) -> (r: bool)
    requires
        0 <= t_num <= RAY_DIST_LIMIT + 2 * TILE_FP,
        1 <= t_den <= RAY_DIR_LIMIT,
        -RAY_DIR_LIMIT <= dx <= RAY_DIR_LIMIT,
        -RAY_DIR_LIMIT <= dy <= RAY_DIR_LIMIT,
        0 <= m <= RAY_DIST_LIMIT,
    ensures
        r == spec_ray_within(t_num as int, t_den as int, dx as int, dy as int, m as int),
{
    proof {
        assert(0 <= t_num * t_num <= 0x4000_0000_0000_0000) by (nonlinear_arith)
            requires
                0 <= t_num <= RAY_DIST_LIMIT + 2 * TILE_FP,
        ;
        assert(0 <= dx * dx <= 0x10_0000_0000_0000 && 0 <= dy * dy <= 0x10_0000_0000_0000)
            by (nonlinear_arith)
            requires
                -RAY_DIR_LIMIT <= dx <= RAY_DIR_LIMIT,
                -RAY_DIR_LIMIT <= dy <= RAY_DIR_LIMIT,
        ;
        assert(0 <= t_num * t_num * (dx * dx + dy * dy) <= 0x4000_0000_0000_0000
            * 0x20_0000_0000_0000) by (nonlinear_arith)
            requires
                0 <= t_num * t_num <= 0x4000_0000_0000_0000,
                0 <= dx * dx + dy * dy <= 0x20_0000_0000_0000,
        ;
        assert(0 <= m * m <= 0x1000_0000_0000_0000) by (nonlinear_arith)
            requires
                0 <= m <= RAY_DIST_LIMIT,
        ;
        assert(0 <= t_den * t_den <= 0x10_0000_0000_0000) by (nonlinear_arith)
            requires
                1 <= t_den <= RAY_DIR_LIMIT,
        ;
        assert(0 <= m * m * (t_den * t_den) <= 0x1000_0000_0000_0000 * 0x10_0000_0000_0000)
            by (nonlinear_arith)
            requires
                0 <= m * m <= 0x1000_0000_0000_0000,
                0 <= t_den * t_den <= 0x10_0000_0000_0000,
        ;
    }
    let lhs: i128 = (t_num as i128) * (t_num as i128) * ((dx as i128) * (dx as i128) + (dy
        as i128) * (dy as i128));
    let rhs: i128 = (m as i128) * (m as i128) * ((t_den as i128) * (t_den as i128));
    lhs < rhs
}

/// Casts a ray from `ray_origin` toward (and past) `ray_end`, walking the
/// block grid one cell at a time and always advancing the axis whose next
/// crossing comes sooner. Stops at the first cell of the given layer holding
/// a solid block, returning the point where the ray enters it, or returns
/// `None` once the walked distance reaches `maximum_ray_distance` (in world
/// subunits). A zero-length ray yields `None`.
pub fn cast_ray_blocks(
    chunk_manager: &ChunkManager,
    layer: ChunkLayer,
    ray_origin: WorldVec,
    ray_end: WorldVec,
    maximum_ray_distance: i64,
) -> (r: Option<WorldVec>)
    requires
        chunk_manager.wf(),
        -RAY_POS_LIMIT <= ray_origin.x <= RAY_POS_LIMIT,
        -RAY_POS_LIMIT <= ray_origin.y <= RAY_POS_LIMIT,
        -RAY_DIR_LIMIT <= ray_end.x - ray_origin.x <= RAY_DIR_LIMIT,
        -RAY_DIR_LIMIT <= ray_end.y - ray_origin.y <= RAY_DIR_LIMIT,
        0 <= maximum_ray_distance <= RAY_DIST_LIMIT,
    ensures
        r == spec_cast_ray(
            *chunk_manager,
            layer,
            ray_origin,
            ray_end,
            maximum_ray_distance as int,
        ),
{
    let dx = ray_end.x - ray_origin.x;
    let dy = ray_end.y - ray_origin.y;
    if dx == 0 && dy == 0 {
        return None;
    }
    proof {
        lemma_fundamental_div_mod(ray_origin.x as int, TILE_FP as int);
        lemma_mod_bound(ray_origin.x as int, TILE_FP as int);
        lemma_fundamental_div_mod(ray_origin.y as int, TILE_FP as int);
        lemma_mod_bound(ray_origin.y as int, TILE_FP as int);
        lemma_fundamental_div_mod(maximum_ray_distance as int, TILE_FP as int);
        lemma_mod_bound(maximum_ray_distance as int, TILE_FP as int);
        assert(1 <= dx * dx + dy * dy <= 0x20_0000_0000_0000) by (nonlinear_arith)
            requires
                -RAY_DIR_LIMIT <= dx <= RAY_DIR_LIMIT,
                -RAY_DIR_LIMIT <= dy <= RAY_DIR_LIMIT,
                !(dx == 0 && dy == 0),
        ;
    }
    let bx0 = floor_div(ray_origin.x, TILE_FP);
    let by0 = floor_div(ray_origin.y, TILE_FP);
    let mut bx = bx0;
    let mut by = by0;
    let step_x: i64 = if dx < 0 {
        -1
    } else {
        1
    };
    let step_y: i64 = if dy < 0 {
        -1
    } else {
        1
    };
    let mut ax: i64 = if dx < 0 {
        ray_origin.x - bx0 * TILE_FP
    } else {
        (bx0 + 1) * TILE_FP - ray_origin.x
    };
    let mut ay: i64 = if dy < 0 {
        ray_origin.y - by0 * TILE_FP
    } else {
        (by0 + 1) * TILE_FP - ray_origin.y
    };
    let adx = if dx < 0 {
        -dx
    } else {
        dx
    };
    let ady = if dy < 0 {
        -dy
    } else {
        dy
    };
    let mut t_num: i64 = 0;
    let mut t_den: i64 = 1;
    let mut block_found = false;
    let ghost m = maximum_ray_distance as int;
    let ghost goal = spec_cast_ray(*chunk_manager, layer, ray_origin, ray_end, m);
    let ghost ax0 = ax as int;
    let ghost ay0 = ay as int;
    let ghost mut fuel: int = 2 * (m / (TILE_FP as int)) + 5;
    let ghost mut steps: int = 0;
    while !block_found && ray_within(t_num, t_den, dx, dy, maximum_ray_distance)
        invariant
            chunk_manager.wf(),
            dx == ray_end.x - ray_origin.x,
            dy == ray_end.y - ray_origin.y,
            !(dx == 0 && dy == 0),
            -RAY_DIR_LIMIT <= dx <= RAY_DIR_LIMIT,
            -RAY_DIR_LIMIT <= dy <= RAY_DIR_LIMIT,
            1 <= dx * dx + dy * dy <= 0x20_0000_0000_0000,
            adx == abs(dx as int),
            ady == abs(dy as int),
            step_x == (if dx < 0 {
                -1int
            } else {
                1int
            }),
            step_y == (if dy < 0 {
                -1int
            } else {
                1int
            }),
            -RAY_POS_LIMIT <= ray_origin.x <= RAY_POS_LIMIT,
            -RAY_POS_LIMIT <= ray_origin.y <= RAY_POS_LIMIT,
            0 <= m <= RAY_DIST_LIMIT,
            m == maximum_ray_distance,
            bx0 == ray_origin.x as int / (TILE_FP as int),
            by0 == ray_origin.y as int / (TILE_FP as int),
            0 <= ax0 <= TILE_FP,
            0 <= ay0 <= TILE_FP,
            0 <= t_num <= m + TILE_FP,
            1 <= t_den <= RAY_DIR_LIMIT,
            t_den * t_den <= dx * dx + dy * dy,
            0 <= ax,
            0 <= ay,
            !block_found && spec_ray_within(t_num as int, t_den as int, dx as int, dy as int, m)
                ==> ax <= m + TILE_FP && ay <= m + TILE_FP,
            ax <= m + 2 * TILE_FP,
            ay <= m + 2 * TILE_FP,
            steps >= 0,
            ax + ay == ax0 + ay0 + steps * (TILE_FP as int),
            bx0 - steps <= bx <= bx0 + steps,
            by0 - steps <= by <= by0 + steps,
            fuel == 2 * (m / (TILE_FP as int)) + 5 - steps,
            fuel >= 0,
            goal == (if block_found {
                Some(
                    spec_ray_hit(
                        ray_origin.x as int,
                        ray_origin.y as int,
                        dx as int,
                        dy as int,
                        t_num as int,
                        t_den as int,
                    ),
                )
            } else {
                spec_cast_loop(
                    *chunk_manager,
                    layer,
                    ray_origin.x as int,
                    ray_origin.y as int,
                    dx as int,
                    dy as int,
                    bx as int,
                    by as int,
                    ax as int,
                    ay as int,
                    t_num as int,
                    t_den as int,
                    m,
                    fuel as nat,
                )
            }),
        decreases fuel,
    {
        proof {
            lemma_ray_within_bounds_num(t_num as int, t_den as int, dx as int, dy as int, m);
            lemma_fundamental_div_mod(m, TILE_FP as int);
            lemma_mod_bound(m, TILE_FP as int);
            assert(steps * (TILE_FP as int) <= 2 * m + 2 * (TILE_FP as int));
            assert(fuel >= 2);
        }
        proof {
            assert(0 <= ax * ady <= (RAY_DIST_LIMIT + 2 * TILE_FP) * RAY_DIR_LIMIT && 0 <= ay
                * adx <= (RAY_DIST_LIMIT + 2 * TILE_FP) * RAY_DIR_LIMIT) by (nonlinear_arith)
                requires
                    0 <= ax <= RAY_DIST_LIMIT + 2 * TILE_FP,
                    0 <= ay <= RAY_DIST_LIMIT + 2 * TILE_FP,
                    0 <= adx <= RAY_DIR_LIMIT,
                    0 <= ady <= RAY_DIR_LIMIT,
            ;
        }
        let advance_x = if dx == 0 {
            false
        } else if dy == 0 {
            true
        } else {
            ax * ady < ay * adx
        };
        let ghost fuel0 = fuel;
        proof {
            fuel = fuel - 1;
            steps = steps + 1;
        }
        if advance_x {
            bx = bx + step_x;
            t_num = ax;
            t_den = adx;
            ax = ax + TILE_FP;
        } else {
            by = by + step_y;
            t_num = ay;
            t_den = ady;
            ay = ay + TILE_FP;
        }
        block_found = chunk_manager.get_block(IVec2 { x: bx as i32, y: by as i32 }, layer) > 0;
        proof {
            assert(t_den * t_den <= dx * dx + dy * dy) by (nonlinear_arith)
                requires
                    t_den == abs(dx as int) || t_den == abs(dy as int),
            ;
            if spec_ray_within(t_num as int, t_den as int, dx as int, dy as int, m) {
                lemma_ray_within_bounds_num(t_num as int, t_den as int, dx as int, dy as int, m);
            }
        }
    }
    if block_found {
        proof {
            assert(-(0x4000_2000i64 * RAY_DIR_LIMIT) <= t_num * dx <= 0x4000_2000i64
                * RAY_DIR_LIMIT && -(0x4000_2000i64 * RAY_DIR_LIMIT) <= t_num * dy
                <= 0x4000_2000i64 * RAY_DIR_LIMIT) by (nonlinear_arith)
                requires
                    0 <= t_num <= 0x4000_2000i64,
                    -RAY_DIR_LIMIT <= dx <= RAY_DIR_LIMIT,
                    -RAY_DIR_LIMIT <= dy <= RAY_DIR_LIMIT,
            ;
            lemma_div_magnitude(t_num as int * dx as int, t_den as int);
            lemma_div_magnitude(t_num as int * dy as int, t_den as int);
        }
        let hx = ray_origin.x + floor_div(t_num * dx, t_den);
        let hy = ray_origin.y + floor_div(t_num * dy, t_den);
        Some(WorldVec { x: hx, y: hy })
    } else {
        None
    }
}

} // verus!
