use vstd::prelude::*;
use crate::classifier::{CollisionState, Point};
use crate::orientation::{WorldOrientation, walk_axis_of};
use crate::side::{Side, is_face, side_ordinal};

verus! {

/// Walking speed written into the velocity, in world units per second.
pub const WALK_SPEED: i32 = 200;

/// Scale from velocity to displacement per unit of elapsed time.
pub const BASE_SPEED: i64 = 100;

/// Clearance added when the creature moves onto a new face, so that it does
/// not sink into the surface.
pub const SECURITY_DISTANCE: i64 = 10;

/// The state of the wall-walking creature.
#[derive(Debug, Clone, Copy, PartialEq, Eq, Structural)]
pub struct Slime {
    /// The face of the world the creature currently stands on.
    pub side: Side,
    /// The face it stood on when its sprite was last re-based.
    pub side_before: Side,
    /// How far the last grounding contact ran along the face.
    pub length_on_side: i64,
    /// How deep the last grounding contact went into the face.
    pub depth: i64,
    /// In the air: the keys do not steer.
    pub is_jumping: bool,
    pub is_walking: bool,
    /// The sprite sheet is to be switched to match `is_walking`.
    pub need_new_sprite: bool,
    /// Frames left during which the creature does not move.
    pub stop_timer: u8,
}

/// Position of the sprite, and its rotation in counter-clockwise quarter turns.
#[derive(Debug, Clone, Copy, PartialEq, Eq, Structural)]
pub struct SpriteTransform {
    pub x: i64,
    pub y: i64,
    pub quarter_turns: u8,
}

/// Half-extent of the sprite currently shown.
#[derive(Debug, Clone, Copy, PartialEq, Eq, Structural)]
pub struct SpriteSize {
    pub half: Point,
}

/// The animation sheets of the creature.
#[derive(Debug, Clone, Copy, PartialEq, Eq, Structural)]
pub enum SpriteSheet {
    Idle,
    Walk,
    Jump,
}

/// Which sheet is shown, the frame within it, and whether it is mirrored.
#[derive(Debug, Clone, Copy, PartialEq, Eq, Structural)]
pub struct SpriteState {
    pub sheet: SpriteSheet,
    pub index: usize,
    pub flip_x: bool,
}

/// The sprite sizes of the player's sheets.
#[derive(Debug, Clone, Copy, PartialEq, Eq, Structural)]
pub struct PlayerSprites {
    pub idle: SpriteSize,
    pub walk: SpriteSize,
}

impl Slime {
    /// The creature stands on one of the four faces, never `Inside`.
    pub open spec fn wf(&self) -> bool {
        is_face(self.side) && is_face(self.side_before)
    }

    /// A creature standing on the bottom face, idle, with the given extent
    /// along that face.
    pub fn new(length_on_side: i64) -> (r: Slime)
        ensures
            r.wf(),
            r.side == Side::Bottom && r.side_before == Side::Bottom,
            r.length_on_side == length_on_side && r.depth == 0,
            !r.is_jumping && !r.is_walking && !r.need_new_sprite && r.stop_timer == 0,
    {
        Slime {
            side: Side::Bottom,
            side_before: Side::Bottom,
            length_on_side,
            depth: 0,
            is_jumping: false,
            is_walking: false,
            need_new_sprite: false,
            stop_timer: 0,
        }
    }
}

/// Direction of the held keys: +1 for right only, -1 for left only, else 0.
pub open spec fn input_direction(left: bool, right: bool) -> int {
    (if right { 1int } else { 0 }) - (if left { 1int } else { 0 })
}

/// Velocity and creature state after one frame of keyboard input.
pub open spec fn steered(left: bool, right: bool, down_axis: Point, vel: Point, s: Slime) -> (Point, Slime) {
    let (v1, s1) = if s.is_jumping {
        (vel, s)
    } else {
        let s1 = if (left || right) && !s.is_walking {
            Slime { need_new_sprite: true, is_walking: true, ..s }
        } else {
            s
        };
        let axis = walk_axis_of(down_axis);
        let d = input_direction(left, right);
        let v1 = if axis.y == 0 {
            Point { x: (d * WALK_SPEED * axis.x) as i32, ..vel }
        } else {
            Point { y: (d * WALK_SPEED * axis.y) as i32, ..vel }
        };
        (v1, s1)
    };
    if v1.x == 0 && v1.y == 0 && s1.is_walking {
        (v1, Slime { need_new_sprite: true, is_walking: false, ..s1 })
    } else {
        (v1, s1)
    }
}

proof fn lemma_unit_product(a: int, u: int)
    requires
        -WALK_SPEED <= a <= WALK_SPEED,
        -1 <= u <= 1,
    ensures
        -WALK_SPEED <= a * u <= WALK_SPEED,
{
    assert(-WALK_SPEED <= a * u <= WALK_SPEED) by (nonlinear_arith)
        requires
            -WALK_SPEED <= a <= WALK_SPEED,
            -1 <= u <= 1,
    ;
}

/// Steers the creature along the axis perpendicular to gravity. While it is
/// in the air the keys are ignored. Starting to walk, and coming to rest,
/// both ask for a new sprite sheet.
pub fn player_keyboard_event_system(
    left: bool,
    right: bool,
    orientation: &WorldOrientation,
    velocity: &mut Point,
    slime: &mut Slime,
)
    requires
        orientation.wf(),
    ensures
        (*final(velocity), *final(slime)) == steered(left, right, orientation.down_axis, *old(velocity), *old(slime)),
{
    if !slime.is_jumping {
        if (left || right) && !slime.is_walking {
            slime.need_new_sprite = true;
            slime.is_walking = true;
        }
        let axis = orientation.walk_axis();
        let d: i32 = (if right { 1i32 } else { 0 }) - (if left { 1i32 } else { 0 });
        let speed: i32 = d * WALK_SPEED;
        proof {
            lemma_unit_product(speed as int, axis.x as int);
            lemma_unit_product(speed as int, axis.y as int);
        }
        if axis.y == 0 {
            velocity.x = speed * axis.x;
        } else {
            velocity.y = speed * axis.y;
        }
    }
    if velocity.x == 0 && velocity.y == 0 && slime.is_walking {
        slime.need_new_sprite = true;
        slime.is_walking = false;
    }
}

/// The creature after a frame's grounding test. Without a contact, or with an
/// `Inside` one, nothing changes; otherwise the face it stands on becomes the
/// side reported, and the contact's lengths are kept.
pub open spec fn observed(s: Slime, outcome: Option<CollisionState>) -> Slime {
    match outcome {
        Some(c) => if is_face(c.side_of_collision) {
            Slime {
                side: c.side_of_collision,
                length_on_side: c.overlap_length,
                depth: c.penetration_depth,
                ..s
            }
        } else {
            s
        },
        None => s,
    }
}

/// Records the outcome of the grounding test of this frame.
pub fn observe_side(slime: &mut Slime, outcome: Option<CollisionState>)
    ensures
        *final(slime) == observed(*old(slime), outcome),
        old(slime).wf() ==> final(slime).wf(),
        final(slime).side_before == old(slime).side_before,
{
    if let Some(c) = outcome {
        match c.side_of_collision {
            Side::Inside => {},
            _ => {
                slime.side = c.side_of_collision;
                slime.length_on_side = c.overlap_length;
                slime.depth = c.penetration_depth;
            },
        }
    }
}

/// Moving from face `before` to face `after` steps one ordinal backward,
/// which is a counter-clockwise re-basing.
pub open spec fn steps_backward(before: Side, after: Side) -> bool {
    side_ordinal(after) == (side_ordinal(before) - 1) % 4
}

/// Translation of the sprite when it leaves face `before`: `across` is the
/// half-extent differential plus the contact depth, `along` the opposite
/// differential plus the clearance.
pub open spec fn rebase_offset(before: Side, backward: bool, across: int, along: int) -> (int, int) {
    if backward {
        match before {
            Side::Left => (along, -across),
            Side::Right => (-along, across),
            Side::Top => (-across, -along),
            Side::Bottom => (across, along),
            Side::Inside => (0, 0),
        }
    } else {
        match before {
            Side::Left => (along, across),
            Side::Right => (-along, -across),
            Side::Top => (across, -along),
            Side::Bottom => (-across, along),
            Side::Inside => (0, 0),
        }
    }
}

/// The sprite transform after the creature moved from `s.side_before` to
/// `s.side`; unchanged when the two agree.
pub open spec fn rebased_transform(s: Slime, t: SpriteTransform, size: SpriteSize) -> SpriteTransform {
    if s.side == s.side_before {
        t
    } else {
        let across = size.half.y - size.half.x + s.depth;
        let along = size.half.x - size.half.y + SECURITY_DISTANCE;
        let backward = steps_backward(s.side_before, s.side);
        let (dx, dy) = rebase_offset(s.side_before, backward, across, along);
        SpriteTransform {
            x: (t.x + dx) as i64,
            y: (t.y + dy) as i64,
            quarter_turns: (if backward { (t.quarter_turns + 3) % 4 } else { (t.quarter_turns + 1) % 4 }) as u8,
        }
    }
}

/// Bounds under which a re-basing stays within the integer range.
pub open spec fn rebase_fits(s: Slime, t: SpriteTransform) -> bool {
    &&& -0x1000_0000_0000_0000 <= t.x <= 0x1000_0000_0000_0000
    &&& -0x1000_0000_0000_0000 <= t.y <= 0x1000_0000_0000_0000
    &&& -0x1000_0000_0000_0000 <= s.depth <= 0x1000_0000_0000_0000
    &&& t.quarter_turns < 4
}

/// When the creature has moved to another face, turns its sprite a quarter
/// and shifts it so its feet rest on the new face, then records the new face
/// as the one re-based on.
pub fn rebase_on_side_change(slime: &mut Slime, transform: &mut SpriteTransform, size: SpriteSize)
    requires
        old(slime).wf(),
        old(slime).side != old(slime).side_before ==> rebase_fits(*old(slime), *old(transform)),
    ensures
        *final(transform) == rebased_transform(*old(slime), *old(transform), size),
        *final(slime) == (Slime { side_before: old(slime).side, ..*old(slime) }),
        final(slime).wf(),
        old(transform).quarter_turns < 4 ==> final(transform).quarter_turns < 4,
{
    let current = slime.side.numerize();
    let before = slime.side_before.numerize();
    if current != before {
        let across: i64 = size.half.y as i64 - size.half.x as i64 + slime.depth;
        let along: i64 = size.half.x as i64 - size.half.y as i64 + SECURITY_DISTANCE;
        // the ordinal one step backward around the four faces
        let previous: i32 = if before == 0 { 3 } else { before - 1 };
        let backward = current == previous;
        let (dx, dy): (i64, i64) = if backward {
            match slime.side_before {
                Side::Left => (along, -across),
                Side::Right => (-along, across),
                Side::Top => (-across, -along),
                Side::Bottom => (across, along),
                Side::Inside => (0, 0),
            }
        } else {
            match slime.side_before {
                Side::Left => (along, across),
                Side::Right => (-along, -across),
                Side::Top => (across, -along),
                Side::Bottom => (-across, along),
                Side::Inside => (0, 0),
            }
        };
        transform.x = transform.x + dx;
        transform.y = transform.y + dy;
        transform.quarter_turns = if backward {
            (transform.quarter_turns + 3) % 4
        } else {
            (transform.quarter_turns + 1) % 4
        };
        slime.side_before = slime.side;
    }
}

/// The sprite state, and the size shown, after a frame: a creature that
/// starts walking or comes to rest switches sheet from the first frame, and a
/// walking one faces the way it moves, mirrored according to its face.
pub open spec fn sprite_after(s: Slime, sprite: SpriteState, size: SpriteSize, velocity: Point, sheets: PlayerSprites) -> (Slime, SpriteState, SpriteSize) {
    if s.is_walking {
        let (s1, sp1, sz1) = if s.need_new_sprite {
            (Slime { need_new_sprite: false, ..s }, SpriteState { index: 0, sheet: SpriteSheet::Walk, ..sprite }, sheets.walk)
        } else {
            (s, sprite, size)
        };
        let flip = if velocity.x > 0 {
            s.side == Side::Top
        } else if velocity.x < 0 {
            s.side == Side::Bottom
        } else if velocity.y > 0 {
            s.side == Side::Left
        } else {
            s.side == Side::Right
        };
        (s1, SpriteState { flip_x: flip, ..sp1 }, sz1)
    } else if s.need_new_sprite {
        (Slime { need_new_sprite: false, ..s }, SpriteState { index: 0, sheet: SpriteSheet::Idle, ..sprite }, sheets.idle)
    } else {
        (s, sprite, size)
    }
}

/// Chooses the sheet, the frame and the mirroring of the creature's sprite.
pub fn update_sprite(slime: &mut Slime, sprite: &mut SpriteState, size: &mut SpriteSize, velocity: Point, sheets: PlayerSprites)
    ensures
        (*final(slime), *final(sprite), *final(size)) == sprite_after(*old(slime), *old(sprite), *old(size), velocity, sheets),
{
    if slime.is_walking {
        if slime.need_new_sprite {
            sprite.index = 0;
            sprite.sheet = SpriteSheet::Walk;
            *size = sheets.walk;
            slime.need_new_sprite = false;
        }
        let side = slime.side;
        sprite.flip_x = if velocity.x > 0 {
            side == Side::Top
        } else if velocity.x < 0 {
            side == Side::Bottom
        } else if velocity.y > 0 {
            side == Side::Left
        } else {
            side == Side::Right
        };
    } else if slime.need_new_sprite {
        sprite.index = 0;
        sprite.sheet = SpriteSheet::Idle;
        *size = sheets.idle;
        slime.need_new_sprite = false;
    }
}

/// The per-frame sprite update: re-basing on a change of face, then the
/// choice of sheet. The offsets use the size shown before the update.
pub fn slime_sprite_update_system(
    slime: &mut Slime,
    transform: &mut SpriteTransform,
    sprite: &mut SpriteState,
    size: &mut SpriteSize,
    velocity: Point,
    sheets: PlayerSprites,
)
    requires
        old(slime).wf(),
        old(slime).side != old(slime).side_before ==> rebase_fits(*old(slime), *old(transform)),
    ensures
        *final(transform) == rebased_transform(*old(slime), *old(transform), *old(size)),
        old(slime).side == old(slime).side_before ==> *final(transform) == *old(transform)
            && final(slime).side == old(slime).side && final(slime).side_before == old(slime).side_before,
        (*final(slime), *final(sprite), *final(size)) == sprite_after(
            Slime { side_before: old(slime).side, ..*old(slime) }, *old(sprite), *old(size), velocity, sheets,
        ),
        final(slime).wf(),
{
    rebase_on_side_change(slime, transform, *size);
    update_sprite(slime, sprite, size, velocity, sheets);
}

/// When the grounding test reports the face the creature already stands on,
/// and its sprite is based on that face, the frame neither moves nor turns
/// the sprite, and the face it was based on stays as it was.
pub proof fn lemma_same_side_keeps_transform(s: Slime, c: CollisionState, t: SpriteTransform, size: SpriteSize)
    requires
        s.wf(),
        s.side == s.side_before,
        c.side_of_collision == s.side,
    ensures
        rebased_transform(observed(s, Some(c)), t, size) == t,
        observed(s, Some(c)).side == s.side,
        observed(s, Some(c)).side_before == s.side_before,
{
}

/// Position after moving along the face the creature stands on: `velocity`
/// is in world units per time step divided by `BASE_SPEED`, `elapsed` is the
/// frame's duration in time steps.
pub open spec fn moved(s: Slime, x: int, y: int, velocity: Point, elapsed: int) -> (int, int) {
    match s.side {
        Side::Left | Side::Right => (x, y + velocity.y * elapsed * BASE_SPEED),
        Side::Top | Side::Bottom => (x + velocity.x * elapsed * BASE_SPEED, y),
        Side::Inside => (x, y),
    }
}

/// The displacement, and the coordinate it is added to, fit in an `i64`.
pub open spec fn movement_fits(s: Slime, t: SpriteTransform, velocity: Point, elapsed: int) -> bool {
    match s.side {
        Side::Left | Side::Right => {
            &&& i64::MIN <= velocity.y * elapsed * BASE_SPEED <= i64::MAX
            &&& i64::MIN <= t.y + velocity.y * elapsed * BASE_SPEED <= i64::MAX
        },
        Side::Top | Side::Bottom => {
            &&& i64::MIN <= velocity.x * elapsed * BASE_SPEED <= i64::MAX
            &&& i64::MIN <= t.x + velocity.x * elapsed * BASE_SPEED <= i64::MAX
        },
        Side::Inside => true,
    }
}

/// Moves the creature along its face by `velocity * elapsed * BASE_SPEED`
/// world units, `elapsed` being the frame's duration in time steps, unless it
/// is stalled, in which case one stalled frame is used up instead.
pub fn slime_movement_system(velocity: Point, elapsed: i32, transform: &mut SpriteTransform, slime: &mut Slime)
    requires
        old(slime).stop_timer == 0 ==> movement_fits(*old(slime), *old(transform), velocity, elapsed as int),
    ensures
        old(slime).stop_timer != 0 ==> *final(slime) == (Slime { stop_timer: (old(slime).stop_timer - 1) as u8, ..*old(slime) })
            && *final(transform) == *old(transform),
        old(slime).stop_timer == 0 ==> *final(slime) == *old(slime) && ({
            let (x, y) = moved(*old(slime), old(transform).x as int, old(transform).y as int, velocity, elapsed as int);
            final(transform).x == x && final(transform).y == y
        }) && final(transform).quarter_turns == old(transform).quarter_turns,
{
    if slime.stop_timer != 0 {
        slime.stop_timer = slime.stop_timer - 1;
    } else {
        proof {
            lemma_step_fits(velocity.x as int, elapsed as int);
            lemma_step_fits(velocity.y as int, elapsed as int);
        }
        match slime.side {
            Side::Left | Side::Right => {
                transform.y = transform.y + velocity.y as i64 * elapsed as i64 * BASE_SPEED;
            },
            Side::Top | Side::Bottom => {
                transform.x = transform.x + velocity.x as i64 * elapsed as i64 * BASE_SPEED;
            },
            Side::Inside => {},
        }
    }
}

proof fn lemma_step_fits(v: int, e: int)
    requires
        -0x8000_0000 <= v <= 0x8000_0000,
        -0x8000_0000 <= e <= 0x8000_0000,
    ensures
        -0x4000_0000_0000_0000 <= v * e <= 0x4000_0000_0000_0000,
{
    assert(-0x4000_0000_0000_0000 <= v * e <= 0x4000_0000_0000_0000) by (nonlinear_arith)
        requires
            -0x8000_0000 <= v <= 0x8000_0000,
            -0x8000_0000 <= e <= 0x8000_0000,
    ;
}

} // verus!
