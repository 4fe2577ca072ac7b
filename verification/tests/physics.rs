use mijocraft::chunk::ChunkLayer;
use mijocraft::chunk_manager::ChunkManager;
use mijocraft::player::{
    InputIntent, Player, JUMP_IMPULSE_FP, PLAYER_SPEED_FP, TERMINAL_VELOCITY_FP,
};
use mijocraft::vecs::{IVec2, WorldVec, CHUNK_AREA};

fn no_input() -> InputIntent {
    InputIntent {
        left: false,
        right: false,
        up: false,
        down: false,
        jump: false,
        sprint: false,
        sneak: false,
        toggle_noclip: false,
    }
}

/// A world whose only solid block is the foreground cell at block (0, -1),
/// the tile directly below the spawn tile.
fn world_with_floor_block() -> ChunkManager {
    let mut manager = ChunkManager::new();
    let mut fg = vec![0usize; CHUNK_AREA];
    fg[0 + 15 * 16] = 1; // relative (0, 15) of chunk (0, -1) is block (0, -1)
    manager.create_chunk(IVec2::new(0, -1), fg, vec![0; CHUNK_AREA]);
    manager
}

#[test]
fn falling_player_lands_and_floors() {
    let manager = world_with_floor_block();
    // Center of the spawn tile: the player's bottom corners sit at y = 1024,
    // just above the solid block's top edge at y = 0.
    let mut player = Player::new(WorldVec::new(4096, 4096));
    assert_eq!(manager.get_block(IVec2::new(0, -1), ChunkLayer::FOREGROUND), 1);

    player.update(&manager, 100);

    assert!(player.floored);
    assert_eq!(player.velocity.y, 0);
    // Pushed down by the overlap: bottom corners now rest on the block top.
    assert_eq!(player.get_position().y, 3072);
    assert_eq!(player.get_position().x, 4096);
}

#[test]
fn noclip_player_falls_through() {
    let manager = world_with_floor_block();
    let mut player = Player::new(WorldVec::new(4096, 4096));
    player.noclip = true;
    player.velocity.y = -81920;

    player.update(&manager, 100);

    assert!(!player.floored);
    assert_eq!(player.velocity.y, -81920);
    // One frame of free movement: 100 ms at -81920 subunits per second.
    assert_eq!(player.get_position().y, 4096 - 8192);
}

#[test]
fn gravity_clamps_at_terminal_velocity() {
    let manager = ChunkManager::new();
    let mut player = Player::new(WorldVec::new(0, 10_000_000));
    player.velocity.y = -TERMINAL_VELOCITY_FP - 5000;

    player.update(&manager, 100);
    assert_eq!(player.velocity.y, -TERMINAL_VELOCITY_FP);
}

#[test]
fn input_sets_horizontal_velocity_and_direction() {
    let mut player = Player::new(WorldVec::new(0, 0));
    let mut intent = no_input();
    intent.right = true;
    player.input(&intent);
    assert_eq!(player.velocity.x, PLAYER_SPEED_FP);
    assert_eq!(player.direction, 1);

    intent.right = false;
    intent.left = true;
    intent.sprint = true;
    player.input(&intent);
    assert_eq!(player.velocity.x, -4 * PLAYER_SPEED_FP);
    assert_eq!(player.direction, -1);

    intent.left = false;
    intent.sprint = false;
    player.floored = true;
    player.input(&intent);
    assert_eq!(player.velocity.x, 0);
    assert_eq!(player.direction, 0);
}

#[test]
fn grounded_jump_adds_the_impulse() {
    let mut player = Player::new(WorldVec::new(0, 0));
    player.floored = true;
    let mut intent = no_input();
    intent.jump = true;
    player.input(&intent);
    assert_eq!(player.velocity.y, JUMP_IMPULSE_FP);

    // Airborne, the same intent does nothing.
    let mut airborne = Player::new(WorldVec::new(0, 0));
    airborne.input(&intent);
    assert_eq!(airborne.velocity.y, 0);
}

#[test]
fn noclip_diagonal_speed_is_scaled_down() {
    let mut player = Player::new(WorldVec::new(0, 0));
    player.noclip = true;
    let mut intent = no_input();
    intent.right = true;
    intent.up = true;
    player.input(&intent);
    // speed * 181 / 256 on both axes
    assert_eq!(player.velocity.x, PLAYER_SPEED_FP * 181 / 256);
    assert_eq!(player.velocity.y, PLAYER_SPEED_FP * 181 / 256);
}

#[test]
fn toggling_noclip_zeroes_velocity_and_floor() {
    let mut player = Player::new(WorldVec::new(0, 0));
    player.velocity = WorldVec::new(500, -700);
    player.floored = true;
    let mut intent = no_input();
    intent.toggle_noclip = true;
    player.input(&intent);
    assert!(player.noclip);
    assert_eq!(player.velocity, WorldVec::new(0, 0));
    assert!(!player.floored);

    player.input(&intent);
    assert!(!player.noclip);
}

#[test]
fn landing_snaps_the_sprite_rotation() {
    let manager = world_with_floor_block();
    let mut player = Player::new(WorldVec::new(4096, 4096));
    player.sprite_rotation = 100_000; // close to one quarter turn (102944)
    player.update(&manager, 100);
    assert!(player.floored);
    assert_eq!(player.sprite_rotation, 102944);
}
