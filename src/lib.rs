//! Gravity-relative side tracking for a wall-walking platformer creature,
//! quarter-turn world rotation, and compaction of a wall tile grid into
//! axis-aligned collision rectangles.
//!
//! All geometry is expressed in integer world units (pixels), so every rule
//! below is stated and proved exactly.
pub mod animation;
pub mod archetypes;
pub mod audio;
pub mod classifier;
pub mod compactor;
pub mod contacts;
pub mod movement;
pub mod orientation;
pub mod side;

pub use animation::{ANIMATION_LEN, advance_effect, next_frame, player_spawn_translation};
pub use archetypes::{BodyKind, ColliderBundle, same_text};
pub use audio::{VOLUME_STEP, Volume, volume_control};
pub use classifier::{CollisionState, Point, collision_test, lemma_collision_swap, side_of_normal};
pub use compactor::{
    GridCoords, LevelTile, Plate, WALL_FRICTION, WallCollider, WallRect, compact_walls, contains_cell,
    lemma_greedy_cover_unique, plates_of_row, spawn_wall_collision, wall_collider, walls_of_level,
};
pub use contacts::{
    CollisionEvent, CollisionStatus, ColliderKind, Contact, GameState, GetGameState, player_collision_with_pot,
    player_collision_with_spikes, player_succeed, spawn_level_system,
};
pub use movement::{
    BASE_SPEED, PlayerSprites, SECURITY_DISTANCE, Slime, SpriteSheet, SpriteSize, SpriteState, SpriteTransform, WALK_SPEED,
    lemma_same_side_keeps_transform, observe_side, player_keyboard_event_system, rebase_on_side_change,
    slime_movement_system, slime_sprite_update_system, update_sprite,
};
pub use orientation::{
    GRAVITY_MAGNITUDE, RotationCommand, WorldOrientation, lemma_rotation_cycle, world_rotation_system,
};
pub use side::Side;
