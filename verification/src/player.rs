//! Player physics: velocity integration with gravity, four-corner discrete
//! collision resolution against the foreground layer, floor detection, and a
//! noclip override.
//!
//! All quantities are fixed point: positions and sizes in world subunits
//! (`FP_ONE` per pixel), velocities in subunits per second, frame time in
//! milliseconds. A displacement over a frame is `velocity * frame_time_ms
//! / 1000`, rounded toward negative infinity, so every step is exact and the
//! contracts below give the new state as a function of the old one.

use crate::chunk::ChunkLayer;
use crate::chunk_manager::ChunkManager;
use crate::collision::AxisAlignedRectangle;
use crate::vecs::{floor_div, IVec2, WorldVec, TILE_FP};
use vstd::arithmetic::div_mod::{lemma_fundamental_div_mod, lemma_mod_bound};
use vstd::math::abs;
use vstd::prelude::*;

verus! {

/// Side length of the player's bounding box: one tile less 8 pixels.
pub const PLAYER_SIZE_FP: i64 = 6144;

/// Walking speed: 10 tiles per second, in subunits per second.
pub const PLAYER_SPEED_FP: i64 = 81920;

/// Upward velocity added by a jump: 16 tiles per second.
pub const JUMP_IMPULSE_FP: i64 = 131072;

/// Gravity: just under 98.07 pixels per second squared, times the tile
/// width, in subunits per second per second.
pub const GRAVITY_FP: i64 = 803389;

/// Falling speed is clamped to 530 pixels per second.
pub const TERMINAL_VELOCITY_FP: i64 = 135680;

/// Numerator and denominator of the fixed-point factor that scales diagonal
/// noclip movement back to `PLAYER_SPEED_FP` (an approximation of one over
/// the square root of two).
pub const DIAG_NUM: i64 = 181;

pub const DIAG_DEN: i64 = 256;

/// Spin rate of the falling sprite, radians per second in 1/65536 radian
/// steps (9.6 radians per second).
pub const SPIN_RATE_Q16: i64 = 629146;

/// A quarter turn in 1/65536 radian steps, the grid the sprite's rotation
/// snaps to on the ground.
pub const HALF_PI_Q16: i64 = 102944;

/// Velocity bound kept by the player invariant.
pub const PLAYER_VEL_LIMIT: i64 = 0x100_0000_0000;

/// Position bound asked of one physics step: far enough from `i64` extremes
/// that a frame of movement and four corner corrections stay exact.
pub const PLAYER_POS_LIMIT: i64 = 0x200_0000_0000;

/// Position bound under which one corner resolution cannot overflow.
pub const RESOLVE_POS_LIMIT: i64 = 0x700_0000_0000;

/// Rotation bound asked of one physics step.
pub const PLAYER_ROT_LIMIT: i64 = 0x100_0000_0000;

/// What the player wants this frame, as read from the input layer: movement
/// keys, jump, the speed modifiers, and the noclip toggle edge.
#[derive(Clone, Copy, Debug, PartialEq, Eq, Structural)]
pub struct InputIntent {
    pub left: bool,
    pub right: bool,
    pub up: bool,
    pub down: bool,
    pub jump: bool,
    pub sprint: bool,
    pub sneak: bool,
    pub toggle_noclip: bool,
}

/// The player: velocity, ground contact flag, facing direction in
/// `{-1, 0, 1}`, a visual-only sprite rotation, the noclip flag, and the
/// bounding box whose center is the player's position.
#[verifier::ext_equal]
pub struct Player {
    pub velocity: WorldVec,
    pub floored: bool,
    pub direction: isize,
    pub sprite_rotation: i64,
    pub noclip: bool,
    pub bounding_box: AxisAlignedRectangle,
}

/// The sign of an integer: `-1`, `0` or `1`.
pub open spec fn spec_sign(a: int) -> int {
    if a > 0 {
        1
    } else if a < 0 {
        -1
    } else {
        0
    }
}

/// A frame's displacement `v * dt / 1000` stays within the velocity bound.
proof fn lemma_frame_displacement_bounds(v: int, dt: int)
    ensures
        -PLAYER_VEL_LIMIT <= v <= PLAYER_VEL_LIMIT && 0 <= dt <= 1000 ==> -(PLAYER_VEL_LIMIT
            * 1000) <= v * dt <= PLAYER_VEL_LIMIT * 1000 && -PLAYER_VEL_LIMIT - 1 <= (v * dt)
            / 1000 <= PLAYER_VEL_LIMIT,
{
    if -PLAYER_VEL_LIMIT <= v <= PLAYER_VEL_LIMIT && 0 <= dt <= 1000 {
        assert(-(PLAYER_VEL_LIMIT * 1000) <= v * dt <= PLAYER_VEL_LIMIT * 1000)
            by (nonlinear_arith)
            requires
                -PLAYER_VEL_LIMIT <= v <= PLAYER_VEL_LIMIT,
                0 <= dt <= 1000,
        ;
        lemma_fundamental_div_mod(v * dt, 1000);
        lemma_mod_bound(v * dt, 1000);
    }
}

impl Player {
    /// The bounding box is the fixed player square and velocity and facing
    /// direction are in range.
    pub open spec fn wf(self) -> bool {
        &&& self.bounding_box.size.x == PLAYER_SIZE_FP
        &&& self.bounding_box.size.y == PLAYER_SIZE_FP
        &&& -PLAYER_VEL_LIMIT <= self.velocity.x <= PLAYER_VEL_LIMIT
        &&& -PLAYER_VEL_LIMIT <= self.velocity.y <= PLAYER_VEL_LIMIT
        &&& -1 <= self.direction <= 1
    }

    /// The movement speed an intent asks for: walking speed, four times as
    /// much when sprinting, a quarter when sneaking.
    pub open spec fn spec_speed(intent: InputIntent) -> int {
        let fast = if intent.sprint {
            PLAYER_SPEED_FP * 4
        } else {
            PLAYER_SPEED_FP as int
        };
        if intent.sneak {
            fast / 4
        } else {
            fast
        }
    }

    /// The player state after applying one frame of input: horizontal
    /// velocity and facing from the movement keys; in noclip, free vertical
    /// movement with diagonal speed scaled back to the movement speed; on
    /// the ground, a jump impulse; and last the noclip toggle, which zeroes
    /// velocity and clears the floored flag.
    pub open spec fn spec_input(self, intent: InputIntent) -> Player {
        let speed = Self::spec_speed(intent);
        let vx: int = if intent.right {
            speed
        } else if intent.left {
            -speed
        } else {
            0
        };
        let dir: int = if intent.right {
            1
        } else if intent.left {
            -1
        } else if self.floored {
            0
        } else {
            self.direction as int
        };
        let p1 = Player {
            velocity: WorldVec { x: vx as i64, y: self.velocity.y },
            direction: dir as isize,
            ..self
        };
        let p2 = if self.noclip {
            let vy: int = if intent.up {
                speed
            } else if intent.down {
                -speed
            } else {
                0
            };
            let diag = speed * DIAG_NUM / (DIAG_DEN as int);
            let nvx: int = if vx != 0 && vy != 0 {
                spec_sign(vx) * diag
            } else {
                vx
            };
            let nvy: int = if vx != 0 && vy != 0 {
                spec_sign(vy) * diag
            } else {
                vy
            };
            Player { velocity: WorldVec { x: nvx as i64, y: nvy as i64 }, ..p1 }
        } else {
            if self.floored && intent.jump {
                Player {
                    velocity: WorldVec {
                        x: p1.velocity.x,
                        y: (p1.velocity.y + JUMP_IMPULSE_FP) as i64,
                    },
                    ..p1
                }
            } else {
                p1
            }
        };
        if intent.toggle_noclip {
            Player {
                noclip: !self.noclip,
                velocity: WorldVec { x: 0, y: 0 },
                floored: false,
                ..p2
            }
        } else {
            p2
        }
    }

    /// A fresh player at the given center: at rest, not floored, facing
    /// nowhere, unrotated, collisions on.
    pub fn new(center_pos: WorldVec) -> (r: Player)
        ensures
            r.velocity == (WorldVec { x: 0i64, y: 0i64 }),
            r.floored == false,
            r.direction == 0,
            r.sprite_rotation == 0,
            r.noclip == false,
            r.bounding_box.center_pos == center_pos,
            r.bounding_box.size == (WorldVec { x: PLAYER_SIZE_FP, y: PLAYER_SIZE_FP }),
            r.wf(),
    {
        Player {
            velocity: WorldVec { x: 0, y: 0 },
            floored: false,
            direction: 0,
            sprite_rotation: 0,
            noclip: false,
            bounding_box: AxisAlignedRectangle {
                center_pos,
                size: WorldVec { x: PLAYER_SIZE_FP, y: PLAYER_SIZE_FP },
            },
        }
    }

    /// Applies one frame of input, exactly as `spec_input` states.
    pub fn input(&mut self, intent: &InputIntent)
        requires
            old(self).wf(),
            old(self).velocity.y + JUMP_IMPULSE_FP <= PLAYER_VEL_LIMIT,
        ensures
            *final(self) == old(self).spec_input(*intent),
            final(self).wf(),
    {
        let speed0: i64 = if intent.sprint {
            PLAYER_SPEED_FP * 4
        } else {
            PLAYER_SPEED_FP
        };
        let speed: i64 = if intent.sneak {
            speed0 / 4
        } else {
            speed0
        };
        if intent.right {
            self.velocity.x = speed;
            self.direction = 1;
        } else if intent.left {
            self.velocity.x = -speed;
            self.direction = -1;
        } else {
            self.velocity.x = 0;
            if self.floored {
                self.direction = 0;
            }
        }
        if self.noclip {
            if intent.up {
                self.velocity.y = speed;
            } else if intent.down {
                self.velocity.y = -speed;
            } else {
                self.velocity.y = 0;
            }
            if self.velocity.x != 0 && self.velocity.y != 0 {
                let diag: i64 = speed * DIAG_NUM / DIAG_DEN;
                self.velocity.x = if self.velocity.x > 0 {
                    diag
                } else {
                    -diag
                };
                self.velocity.y = if self.velocity.y > 0 {
                    diag
                } else {
                    -diag
                };
            }
        } else {
            if self.floored && intent.jump {
                self.velocity.y = self.velocity.y + JUMP_IMPULSE_FP;
            }
        }
        if intent.toggle_noclip {
            self.noclip = !self.noclip;
            self.velocity = WorldVec { x: 0, y: 0 };
            self.floored = false;
        }
        proof {
            let g = old(self).spec_input(*intent);
            assert(self.velocity.x == g.velocity.x);
            assert(self.velocity.y == g.velocity.y);
            assert(self.velocity == g.velocity);
            assert(self.floored == g.floored);
            assert(self.direction == g.direction);
            assert(self.sprite_rotation == g.sprite_rotation);
            assert(self.noclip == g.noclip);
            assert(self.bounding_box == g.bounding_box);
            assert(*self =~= old(self).spec_input(*intent));
        }
    }

    /// The player's position: the center of its bounding box.
    pub fn get_position(&self) -> (r: WorldVec)
        ensures
            r == self.bounding_box.center_pos,
    {
        self.bounding_box.center_pos
    }

    /// The x coordinate of a bounding-box corner: the left side where the
    /// resolution would push right (`add_x`), the right side otherwise.
    pub open spec fn spec_corner_x(self, add_x: bool) -> int {
        if add_x {
            self.bounding_box.center_pos.x - self.bounding_box.size.x / 2
        } else {
            self.bounding_box.center_pos.x + self.bounding_box.size.x / 2
        }
    }

    /// The y coordinate of a bounding-box corner: the bottom where the
    /// resolution would push up (`add_y`), the top otherwise.
    pub open spec fn spec_corner_y(self, add_y: bool) -> int {
        if add_y {
            self.bounding_box.center_pos.y - self.bounding_box.size.y / 2
        } else {
            self.bounding_box.center_pos.y + self.bounding_box.size.y / 2
        }
    }

    /// One corner of the collision resolution. The corner is projected one
    /// frame ahead under the full current velocity; if the destination cell
    /// of the foreground layer is solid, the overlap between the un-displaced
    /// corner and the block-aligned destination boundary is resolved on the
    /// axis with the smaller absolute overlap (x on a tie): that axis of the
    /// velocity is zeroed and the position corrected by the signed overlap.
    /// A downward resolution (`add_y`) sets the floored flag.
    pub open spec fn spec_resolve_corner(
        self,
        m: ChunkManager,
        add_x: bool,
        add_y: bool,
        dt_ms: int,
    ) -> Player {
        let cx = self.spec_corner_x(add_x);
        let cy = self.spec_corner_y(add_y);
        let nx = cx + (self.velocity.x * dt_ms) / 1000;
        let ny = cy + (self.velocity.y * dt_ms) / 1000;
        let bx = nx / (TILE_FP as int);
        let by = ny / (TILE_FP as int);
        if m.spec_get_block(
            IVec2 { x: bx as i32, y: by as i32 },
            ChunkLayer::FOREGROUND,
        ) > 0 {
            let ax = bx * TILE_FP + if add_x {
                TILE_FP as int
            } else {
                0
            };
            let ay = by * TILE_FP + if add_y {
                TILE_FP as int
            } else {
                0
            };
            if abs(cx - ax) <= abs(cy - ay) {
                Player {
                    velocity: WorldVec { x: 0, y: self.velocity.y },
                    bounding_box: AxisAlignedRectangle {
                        center_pos: WorldVec {
                            x: (self.bounding_box.center_pos.x - (cx - ax)) as i64,
                            y: self.bounding_box.center_pos.y,
                        },
                        size: self.bounding_box.size,
                    },
                    ..self
                }
            } else {
                Player {
                    velocity: WorldVec { x: self.velocity.x, y: 0 },
                    floored: self.floored || add_y,
                    bounding_box: AxisAlignedRectangle {
                        center_pos: WorldVec {
                            x: self.bounding_box.center_pos.x,
                            y: (self.bounding_box.center_pos.y - (cy - ay)) as i64,
                        },
                        size: self.bounding_box.size,
                    },
                    ..self
                }
            }
        } else {
            self
        }
    }

    /// One frame of movement. In noclip the position simply advances by the
    /// frame's displacement. Otherwise the floored flag is reset, the four
    /// corners are resolved in fixed order (bottom-left, bottom-right,
    /// top-right, top-left) each seeing the corrections of the previous
    /// ones, and the position then advances by the possibly-zeroed velocity.
    pub open spec fn spec_move_player(self, m: ChunkManager, dt_ms: int) -> Player {
        if self.noclip {
            Player {
                bounding_box: AxisAlignedRectangle {
                    center_pos: WorldVec {
                        x: (self.bounding_box.center_pos.x + (self.velocity.x * dt_ms)
                            / 1000) as i64,
                        y: (self.bounding_box.center_pos.y + (self.velocity.y * dt_ms)
                            / 1000) as i64,
                    },
                    size: self.bounding_box.size,
                },
                ..self
            }
        } else {
            let p0 = Player { floored: false, ..self };
            let p1 = p0.spec_resolve_corner(m, true, true, dt_ms);
            let p2 = p1.spec_resolve_corner(m, false, true, dt_ms);
            let p3 = p2.spec_resolve_corner(m, false, false, dt_ms);
            let p4 = p3.spec_resolve_corner(m, true, false, dt_ms);
            Player {
                bounding_box: AxisAlignedRectangle {
                    center_pos: WorldVec {
                        x: (p4.bounding_box.center_pos.x + (p4.velocity.x * dt_ms) / 1000) as i64,
                        y: (p4.bounding_box.center_pos.y + (p4.velocity.y * dt_ms) / 1000) as i64,
                    },
                    size: p4.bounding_box.size,
                },
                ..p4
            }
        }
    }

    /// Gravity: while falling slower than terminal velocity the vertical
    /// velocity drops by one frame of gravity; once past terminal velocity
    /// it clamps there. Noclip disables gravity.
    pub open spec fn spec_apply_gravity(self, dt_ms: int) -> Player {
        if self.noclip {
            self
        } else if self.velocity.y > -TERMINAL_VELOCITY_FP {
            Player {
                velocity: WorldVec {
                    x: self.velocity.x,
                    y: (self.velocity.y - (GRAVITY_FP * dt_ms) / 1000) as i64,
                },
                ..self
            }
        } else if self.velocity.y < -TERMINAL_VELOCITY_FP {
            Player {
                velocity: WorldVec { x: self.velocity.x, y: (-TERMINAL_VELOCITY_FP) as i64 },
                ..self
            }
        } else {
            self
        }
    }

    /// The sprite rotation after a frame: spinning against the facing
    /// direction while airborne, snapped to the nearest quarter turn on the
    /// ground. Visual only.
    pub open spec fn spec_rotation(self, dt_ms: int) -> int {
        if !self.floored {
            self.sprite_rotation - ((SPIN_RATE_Q16 * dt_ms) / 1000) * (self.direction as int)
        } else {
            ((self.sprite_rotation + HALF_PI_Q16 / 2) / (HALF_PI_Q16 as int)) * HALF_PI_Q16
        }
    }

    /// One full physics frame: gravity, then movement with collision
    /// resolution, then the sprite rotation update.
    pub open spec fn spec_update(self, m: ChunkManager, dt_ms: int) -> Player {
        let pg = self.spec_apply_gravity(dt_ms);
        let pm = pg.spec_move_player(m, dt_ms);
        Player { sprite_rotation: pm.spec_rotation(dt_ms) as i64, ..pm }
    }

    /// In noclip mode a physics frame applies no gravity and resolves no
    /// collisions: the position simply advances by the frame's displacement,
    /// and velocity and the floored flag come through unmodified.
    pub proof fn lemma_noclip_update_is_free_movement(self, m: ChunkManager, dt_ms: int)
        requires
            self.noclip,
        ensures
            self.spec_update(m, dt_ms).velocity == self.velocity,
            self.spec_update(m, dt_ms).floored == self.floored,
            self.spec_update(m, dt_ms).noclip,
            self.spec_update(m, dt_ms).bounding_box.center_pos.x == (self.bounding_box.center_pos.x
                + (self.velocity.x * dt_ms) / 1000) as i64,
            self.spec_update(m, dt_ms).bounding_box.center_pos.y == (self.bounding_box.center_pos.y
                + (self.velocity.y * dt_ms) / 1000) as i64,
    {
    }

    /// Resolves one corner against the grid, exactly as
    /// `spec_resolve_corner` states.
    #[verifier::rlimit(60)]
    fn resolve_corner(
        &mut self,
        chunk_manager: &ChunkManager,
        add_x: bool,
        add_y: bool,
        frame_time_ms: i64,
    )
        requires
            chunk_manager.wf(),
            old(self).wf(),
            -RESOLVE_POS_LIMIT <= old(self).bounding_box.center_pos.x <= RESOLVE_POS_LIMIT,
            -RESOLVE_POS_LIMIT <= old(self).bounding_box.center_pos.y <= RESOLVE_POS_LIMIT,
            0 <= frame_time_ms <= 1000,
        ensures
            *final(self) == old(self).spec_resolve_corner(
                *chunk_manager,
                add_x,
                add_y,
                frame_time_ms as int,
            ),
            final(self).wf(),
            final(self).bounding_box.size == old(self).bounding_box.size,
            final(self).noclip == old(self).noclip,
            final(self).sprite_rotation == old(self).sprite_rotation,
            final(self).direction == old(self).direction,
            -(PLAYER_VEL_LIMIT + TILE_FP + 1) <= final(self).bounding_box.center_pos.x - old(
                self,
            ).bounding_box.center_pos.x <= PLAYER_VEL_LIMIT + TILE_FP + 1,
            -(PLAYER_VEL_LIMIT + TILE_FP + 1) <= final(self).bounding_box.center_pos.y - old(
                self,
            ).bounding_box.center_pos.y <= PLAYER_VEL_LIMIT + TILE_FP + 1,
    {
        let cx: i64 = if add_x {
            self.bounding_box.center_pos.x - self.bounding_box.size.x / 2
        } else {
            self.bounding_box.center_pos.x + self.bounding_box.size.x / 2
        };
        let cy: i64 = if add_y {
            self.bounding_box.center_pos.y - self.bounding_box.size.y / 2
        } else {
            self.bounding_box.center_pos.y + self.bounding_box.size.y / 2
        };
        proof {
            lemma_frame_displacement_bounds(self.velocity.x as int, frame_time_ms as int);
            lemma_frame_displacement_bounds(self.velocity.y as int, frame_time_ms as int);
        }
        let dx = floor_div(self.velocity.x * frame_time_ms, 1000);
        let dy = floor_div(self.velocity.y * frame_time_ms, 1000);
        let nx = cx + dx;
        let ny = cy + dy;
        proof {
            lemma_fundamental_div_mod(nx as int, TILE_FP as int);
            lemma_mod_bound(nx as int, TILE_FP as int);
            lemma_fundamental_div_mod(ny as int, TILE_FP as int);
            lemma_mod_bound(ny as int, TILE_FP as int);
        }
        let bx = floor_div(nx, TILE_FP);
        let by = floor_div(ny, TILE_FP);
        let destination = IVec2 { x: bx as i32, y: by as i32 };
        if chunk_manager.get_block(destination, ChunkLayer::FOREGROUND) > 0 {
            let ax = bx * TILE_FP + if add_x {
                TILE_FP
            } else {
                0
            };
            let ay = by * TILE_FP + if add_y {
                TILE_FP
            } else {
                0
            };
            let ox = if cx - ax < 0 {
                -(cx - ax)
            } else {
                cx - ax
            };
            let oy = if cy - ay < 0 {
                -(cy - ay)
            } else {
                cy - ay
            };
            if ox <= oy {
                self.velocity.x = 0;
                self.bounding_box.center_pos.x = self.bounding_box.center_pos.x - (cx - ax);
            } else {
                self.velocity.y = 0;
                self.bounding_box.center_pos.y = self.bounding_box.center_pos.y - (cy - ay);
                if add_y {
                    self.floored = true;
                }
            }
        }
        proof {
            let g = old(self).spec_resolve_corner(
                *chunk_manager,
                add_x,
                add_y,
                frame_time_ms as int,
            );
            assert(self.velocity == g.velocity);
            assert(self.bounding_box.center_pos == g.bounding_box.center_pos);
            assert(self.bounding_box == g.bounding_box);
            assert(*self =~= g);
        }
    }

    /// Moves the player one frame, exactly as `spec_move_player` states:
    /// free movement in noclip, otherwise four-corner collision resolution
    /// followed by the frame's displacement.
    fn move_player(&mut self, chunk_manager: &ChunkManager, frame_time_ms: i64)
        requires
            chunk_manager.wf(),
            old(self).wf(),
            -PLAYER_POS_LIMIT <= old(self).bounding_box.center_pos.x <= PLAYER_POS_LIMIT,
            -PLAYER_POS_LIMIT <= old(self).bounding_box.center_pos.y <= PLAYER_POS_LIMIT,
            0 <= frame_time_ms <= 1000,
        ensures
            *final(self) == old(self).spec_move_player(*chunk_manager, frame_time_ms as int),
            final(self).wf(),
            final(self).sprite_rotation == old(self).sprite_rotation,
            final(self).direction == old(self).direction,
            final(self).noclip == old(self).noclip,
    {
        proof {
            lemma_frame_displacement_bounds(self.velocity.x as int, frame_time_ms as int);
            lemma_frame_displacement_bounds(self.velocity.y as int, frame_time_ms as int);
        }
        if self.noclip {
            let dx = floor_div(self.velocity.x * frame_time_ms, 1000);
            let dy = floor_div(self.velocity.y * frame_time_ms, 1000);
            self.bounding_box.center_pos.x = self.bounding_box.center_pos.x + dx;
            self.bounding_box.center_pos.y = self.bounding_box.center_pos.y + dy;
            proof {
                let g = old(self).spec_move_player(*chunk_manager, frame_time_ms as int);
                assert(self.bounding_box.center_pos == g.bounding_box.center_pos);
                assert(self.bounding_box == g.bounding_box);
                assert(*self =~= g);
            }
            return ;
        }
        self.floored = false;
        self.resolve_corner(chunk_manager, true, true, frame_time_ms);
        self.resolve_corner(chunk_manager, false, true, frame_time_ms);
        self.resolve_corner(chunk_manager, false, false, frame_time_ms);
        self.resolve_corner(chunk_manager, true, false, frame_time_ms);
        proof {
            lemma_frame_displacement_bounds(self.velocity.x as int, frame_time_ms as int);
            lemma_frame_displacement_bounds(self.velocity.y as int, frame_time_ms as int);
        }
        let dx = floor_div(self.velocity.x * frame_time_ms, 1000);
        let dy = floor_div(self.velocity.y * frame_time_ms, 1000);
        self.bounding_box.center_pos.x = self.bounding_box.center_pos.x + dx;
        self.bounding_box.center_pos.y = self.bounding_box.center_pos.y + dy;
        proof {
            let g = old(self).spec_move_player(*chunk_manager, frame_time_ms as int);
            assert(self.bounding_box.center_pos == g.bounding_box.center_pos);
            assert(self.bounding_box == g.bounding_box);
            assert(*self =~= g);
        }
    }

    /// One full physics frame, exactly as `spec_update` states: gravity
    /// (clamped at terminal velocity), collision-resolved movement, then the
    /// cosmetic sprite-rotation update. Noclip skips gravity and collisions.
    pub fn update(&mut self, chunk_manager: &ChunkManager, frame_time_ms: i64)
        requires
            chunk_manager.wf(),
            old(self).wf(),
            -PLAYER_POS_LIMIT <= old(self).bounding_box.center_pos.x <= PLAYER_POS_LIMIT,
            -PLAYER_POS_LIMIT <= old(self).bounding_box.center_pos.y <= PLAYER_POS_LIMIT,
            -PLAYER_ROT_LIMIT <= old(self).sprite_rotation <= PLAYER_ROT_LIMIT,
            0 <= frame_time_ms <= 1000,
        ensures
            *final(self) == old(self).spec_update(*chunk_manager, frame_time_ms as int),
            final(self).wf(),
    {
        if !self.noclip {
            if self.velocity.y > -TERMINAL_VELOCITY_FP {
                let g = floor_div(GRAVITY_FP * frame_time_ms, 1000);
                self.velocity.y = self.velocity.y - g;
            } else if self.velocity.y < -TERMINAL_VELOCITY_FP {
                self.velocity.y = -TERMINAL_VELOCITY_FP;
            }
        }
        proof {
            assert(*self =~= old(self).spec_apply_gravity(frame_time_ms as int));
        }
        self.move_player(chunk_manager, frame_time_ms);
        if !self.floored {
            let step = floor_div(SPIN_RATE_Q16 * frame_time_ms, 1000);
            proof {
                assert(-step <= step * (self.direction as int) <= step) by (nonlinear_arith)
                    requires
                        0 <= step,
                        -1 <= self.direction as int <= 1,
                ;
            }
            self.sprite_rotation = self.sprite_rotation - step * (self.direction as i64);
        } else {
            proof {
                lemma_fundamental_div_mod(
                    self.sprite_rotation + HALF_PI_Q16 / 2,
                    HALF_PI_Q16 as int,
                );
                lemma_mod_bound(self.sprite_rotation + HALF_PI_Q16 / 2, HALF_PI_Q16 as int);
            }
            let quarter_turns = floor_div(self.sprite_rotation + HALF_PI_Q16 / 2, HALF_PI_Q16);
            self.sprite_rotation = quarter_turns * HALF_PI_Q16;
        }
        proof {
            let g = old(self).spec_update(*chunk_manager, frame_time_ms as int);
            assert(self.sprite_rotation == g.sprite_rotation);
            assert(*self =~= g);
        }
    }
}

} // verus!
