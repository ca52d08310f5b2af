use gravity_legacy::{Volume, volume_control};
use gravity_legacy::{
    CollisionState, PlayerSprites, Point, RotationCommand, Side, Slime, SpriteSheet, SpriteSize, SpriteState,
    SpriteTransform, WorldOrientation, advance_effect, next_frame, observe_side, player_keyboard_event_system,
    player_spawn_translation, rebase_on_side_change, slime_movement_system, slime_sprite_update_system, update_sprite,
    BodyKind, ColliderBundle, same_text,
};

fn p(x: i32, y: i32) -> Point {
    Point { x, y }
}

fn slime_on(side: Side) -> Slime {
    Slime { side, side_before: side, ..Slime::new(15) }
}

fn transform() -> SpriteTransform {
    SpriteTransform { x: 100, y: 50, quarter_turns: 0 }
}

// a sprite 16 wide and 20 tall
fn size() -> SpriteSize {
    SpriteSize { half: p(8, 10) }
}

fn outcome(side: Side, depth: i64) -> Option<CollisionState> {
    Some(CollisionState { side_of_collision: side, overlap_length: 12, penetration_depth: depth })
}

fn sheets() -> PlayerSprites {
    PlayerSprites { idle: SpriteSize { half: p(8, 8) }, walk: SpriteSize { half: p(8, 9) } }
}

#[test]
fn same_side_contact_moves_nothing() {
    for side in [Side::Bottom, Side::Right, Side::Top, Side::Left] {
        let mut s = slime_on(side);
        let mut t = transform();
        observe_side(&mut s, outcome(side, 2));
        rebase_on_side_change(&mut s, &mut t, size());
        assert_eq!(t, transform());
        assert_eq!(s.side, side);
        assert_eq!(s.side_before, side);
    }
}

#[test]
fn no_contact_or_inside_keeps_side() {
    let mut s = slime_on(Side::Right);
    observe_side(&mut s, None);
    assert_eq!(s, slime_on(Side::Right));
    observe_side(&mut s, outcome(Side::Inside, 3));
    assert_eq!(s, slime_on(Side::Right));
}

#[test]
fn bottom_to_left_turns_back_a_quarter() {
    let mut s = slime_on(Side::Bottom);
    let mut t = transform();
    observe_side(&mut s, outcome(Side::Left, 2));
    assert_eq!((s.side, s.side_before), (Side::Left, Side::Bottom));
    assert_eq!((s.depth, s.length_on_side), (2, 12));
    rebase_on_side_change(&mut s, &mut t, size());
    // across = 10 - 8 + 2 = 4, along = 8 - 10 + 10 = 8
    assert_eq!(t, SpriteTransform { x: 104, y: 58, quarter_turns: 3 });
    assert_eq!((s.side, s.side_before), (Side::Left, Side::Left));
}

#[test]
fn bottom_to_right_turns_forward_a_quarter() {
    let mut s = slime_on(Side::Bottom);
    let mut t = transform();
    observe_side(&mut s, outcome(Side::Right, 2));
    rebase_on_side_change(&mut s, &mut t, size());
    assert_eq!(t, SpriteTransform { x: 96, y: 58, quarter_turns: 1 });
    assert_eq!(s.side_before, Side::Right);
}

#[test]
fn each_face_change_uses_its_offsets() {
    // (from, to, dx, dy, quarter turns) with across = 4 and along = 8
    let cases = [
        (Side::Left, Side::Top, 8, -4, 3),
        (Side::Right, Side::Bottom, -8, 4, 3),
        (Side::Top, Side::Right, -4, -8, 3),
        (Side::Left, Side::Bottom, 8, 4, 1),
        (Side::Right, Side::Top, -8, -4, 1),
        (Side::Top, Side::Left, 4, -8, 1),
        (Side::Bottom, Side::Top, -4, 8, 1),
    ];
    for (from, to, dx, dy, q) in cases {
        let mut s = slime_on(from);
        let mut t = transform();
        observe_side(&mut s, outcome(to, 2));
        rebase_on_side_change(&mut s, &mut t, size());
        assert_eq!(t, SpriteTransform { x: 100 + dx, y: 50 + dy, quarter_turns: q }, "{:?} to {:?}", from, to);
    }
}

#[test]
fn left_then_right_walks_and_rests() {
    let o = WorldOrientation::initial();
    let mut v = p(0, 0);
    let mut s = slime_on(Side::Bottom);
    player_keyboard_event_system(false, true, &o, &mut v, &mut s);
    assert_eq!(v, p(200, 0));
    assert!(s.is_walking && s.need_new_sprite);
    s.need_new_sprite = false;
    player_keyboard_event_system(true, false, &o, &mut v, &mut s);
    assert_eq!(v, p(-200, 0));
    assert!(s.is_walking && !s.need_new_sprite);
    player_keyboard_event_system(false, false, &o, &mut v, &mut s);
    assert_eq!(v, p(0, 0));
    assert!(!s.is_walking && s.need_new_sprite);
    player_keyboard_event_system(true, true, &o, &mut v, &mut s);
    assert_eq!(v, p(0, 0));
    assert!(!s.is_walking);
}

#[test]
fn steering_follows_rotated_gravity() {
    let mut o = WorldOrientation::initial();
    o.rotate(RotationCommand::RotateClockwise);
    let mut v = p(0, 0);
    let mut s = slime_on(Side::Right);
    player_keyboard_event_system(false, true, &o, &mut v, &mut s);
    assert_eq!(v, p(0, 200));
    o.rotate(RotationCommand::RotateClockwise);
    let mut v2 = p(0, 0);
    player_keyboard_event_system(false, true, &o, &mut v2, &mut s);
    assert_eq!(v2, p(-200, 0));
}

#[test]
fn airborne_creature_ignores_keys() {
    let o = WorldOrientation::initial();
    let mut v = p(7, 0);
    let mut s = Slime { is_jumping: true, ..slime_on(Side::Bottom) };
    player_keyboard_event_system(true, false, &o, &mut v, &mut s);
    assert_eq!(v, p(7, 0));
    assert!(!s.is_walking);
}

#[test]
fn walking_switches_to_walk_sheet_and_faces_motion() {
    let mut s = Slime { is_walking: true, need_new_sprite: true, ..slime_on(Side::Top) };
    let mut sprite = SpriteState { sheet: SpriteSheet::Idle, index: 5, flip_x: false };
    let mut sz = sheets().idle;
    update_sprite(&mut s, &mut sprite, &mut sz, p(200, 0), sheets());
    assert_eq!(sprite, SpriteState { sheet: SpriteSheet::Walk, index: 0, flip_x: true });
    assert_eq!(sz, sheets().walk);
    assert!(!s.need_new_sprite);
    update_sprite(&mut s, &mut sprite, &mut sz, p(-200, 0), sheets());
    assert!(!sprite.flip_x);
}

#[test]
fn resting_switches_to_idle_sheet() {
    let mut s = Slime { need_new_sprite: true, ..slime_on(Side::Bottom) };
    let mut sprite = SpriteState { sheet: SpriteSheet::Walk, index: 3, flip_x: true };
    let mut sz = sheets().walk;
    update_sprite(&mut s, &mut sprite, &mut sz, p(0, 0), sheets());
    assert_eq!(sprite, SpriteState { sheet: SpriteSheet::Idle, index: 0, flip_x: true });
    assert_eq!(sz, sheets().idle);
    assert!(!s.need_new_sprite);
}

#[test]
fn sprite_update_rebases_then_picks_sheet() {
    let mut s = Slime { side: Side::Left, is_walking: true, ..slime_on(Side::Bottom) };
    let mut t = transform();
    let mut sprite = SpriteState { sheet: SpriteSheet::Walk, index: 2, flip_x: false };
    let mut sz = size();
    slime_sprite_update_system(&mut s, &mut t, &mut sprite, &mut sz, p(0, 200), sheets());
    // across = 10 - 8 + 0 = 2, along = 8
    assert_eq!(t, SpriteTransform { x: 102, y: 58, quarter_turns: 3 });
    assert_eq!(s.side_before, Side::Left);
    assert!(sprite.flip_x);
}

#[test]
fn stalled_creature_uses_up_a_frame() {
    let mut s = Slime { stop_timer: 2, ..slime_on(Side::Bottom) };
    let mut t = transform();
    slime_movement_system(p(3, 0), 1, &mut t, &mut s);
    assert_eq!(s.stop_timer, 1);
    assert_eq!(t, transform());
}

#[test]
fn creature_moves_along_its_face() {
    let mut s = slime_on(Side::Bottom);
    let mut t = transform();
    slime_movement_system(p(3, 4), 2, &mut t, &mut s);
    assert_eq!(t, SpriteTransform { x: 700, y: 50, quarter_turns: 0 });
    let mut s2 = slime_on(Side::Left);
    let mut t2 = transform();
    slime_movement_system(p(3, -1), 1, &mut t2, &mut s2);
    assert_eq!(t2, SpriteTransform { x: 100, y: -50, quarter_turns: 0 });
}

#[test]
fn sheet_frames_loop() {
    assert_eq!(next_frame(3, 8, true), 4);
    assert_eq!(next_frame(7, 8, true), 0);
    assert_eq!(next_frame(7, 8, false), 7);
}

#[test]
fn effect_ends_after_last_frame() {
    let mut i = 4;
    assert!(!advance_effect(&mut i, 6, true));
    assert_eq!(i, 5);
    assert!(!advance_effect(&mut i, 6, false));
    assert!(advance_effect(&mut i, 6, true));
    assert_eq!(i, 6);
}

#[test]
fn spawn_position_from_level_editor() {
    assert_eq!(player_spawn_translation(200, 100, p(11, 11)), (83, 151));
}

#[test]
fn colliders_by_identifier() {
    let player = ColliderBundle::from_entity("Player").unwrap();
    assert_eq!((player.half_extents, player.rigid_body, player.rotation_locked), (p(6, 6), BodyKind::Dynamic, true));
    let pot = ColliderBundle::from_entity("Pot").unwrap();
    assert_eq!((pot.half_extents, pot.friction, pot.density), (p(8, 15), Some(0), Some(15)));
    assert_eq!(ColliderBundle::from_entity("Key").unwrap().rigid_body, BodyKind::Sensor);
    assert_eq!(ColliderBundle::from_entity("Chest"), None);
    assert_eq!(ColliderBundle::from_entity("Playe"), None);
}

#[test]
fn colliders_by_grid_value() {
    assert_eq!(ColliderBundle::from_int_grid_cell(1).unwrap().half_extents, p(8, 8));
    assert_eq!(ColliderBundle::from_int_grid_cell(2).unwrap().rigid_body, BodyKind::Static);
    let hazard = ColliderBundle::from_int_grid_cell(3).unwrap();
    assert_eq!((hazard.half_extents, hazard.rigid_body), (p(5, 5), BodyKind::Sensor));
    assert_eq!(ColliderBundle::from_int_grid_cell(0), None);
}

#[test]
fn text_comparison() {
    assert!(same_text("Pot", "Pot"));
    assert!(!same_text("Pot", "Pots"));
    assert!(!same_text("Pot", "Pit"));
    assert!(same_text("", ""));
}

#[test]
fn volume_keys_step_and_clamp() {
    let mut v = Volume::new();
    assert_eq!(v, Volume { music: 50, effects: 50 });
    volume_control(&mut v, true, false, false, true);
    assert_eq!(v, Volume { music: 60, effects: 40 });
    for _ in 0..10 {
        volume_control(&mut v, true, false, false, true);
    }
    assert_eq!(v, Volume { music: 100, effects: 0 });
    volume_control(&mut v, true, true, true, false);
    assert_eq!(v, Volume { music: 100, effects: 10 });
    let mut odd = Volume { music: 95, effects: 5 };
    volume_control(&mut odd, true, false, false, true);
    assert_eq!(odd, Volume { music: 100, effects: 0 });
}
