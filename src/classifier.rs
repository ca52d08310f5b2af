use vstd::prelude::*;
use crate::side::{Side, mirror_side};

verus! {

/// A point or vector in integer world units.
#[derive(Debug, Clone, Copy, PartialEq, Eq, Structural)]
pub struct Point {
    pub x: i32,
    pub y: i32,
}

/// The result of testing box A against box B: the face of A that was hit,
/// how far the boxes overlap along that face, and how deep A went in.
#[derive(Debug, Clone, Copy, PartialEq, Eq, Structural)]
pub struct CollisionState {
    pub side_of_collision: Side,
    pub overlap_length: i64,
    pub penetration_depth: i64,
}

pub open spec fn abs(v: int) -> int {
    if v < 0 { -v } else { v }
}

/// The contact along one axis, for A spanning `a_lo..a_hi` and B spanning
/// `b_lo..b_hi`, with full extents `a_size` and `b_size`.
///
/// A's high edge inside B with its low edge outside gives `high_face`; the
/// reverse gives `low_face`. Either way the result holds `true` and the depth
/// of the intrusion. When neither box cleanly leaves the other, the axis is
/// `Inside`: it holds `false` (an unbounded depth, never the separating axis)
/// and the extent of the smaller box.
pub open spec fn axis_contact(a_lo: int, a_hi: int, b_lo: int, b_hi: int, a_size: int, b_size: int, low_face: Side, high_face: Side) -> (Side, bool, int) {
    if a_lo < b_lo && a_hi > b_lo && a_hi < b_hi {
        (high_face, true, a_hi - b_lo)
    } else if a_lo > b_lo && a_lo < b_hi && a_hi > b_hi {
        (low_face, true, b_hi - a_lo)
    } else if a_size < b_size {
        (Side::Inside, false, abs(a_size))
    } else {
        (Side::Inside, false, abs(b_size))
    }
}

/// The boxes overlap on both axes (touching edges do not count).
pub open spec fn boxes_overlap(a_pos: Point, a_half: Point, b_pos: Point, b_half: Point) -> bool {
    &&& a_pos.x - a_half.x < b_pos.x + b_half.x
    &&& a_pos.x + a_half.x > b_pos.x - b_half.x
    &&& a_pos.y - a_half.y < b_pos.y + b_half.y
    &&& a_pos.y + a_half.y > b_pos.y - b_half.y
}

pub open spec fn x_contact(a_pos: Point, a_half: Point, b_pos: Point, b_half: Point) -> (Side, bool, int) {
    axis_contact(
        a_pos.x - a_half.x, a_pos.x + a_half.x, b_pos.x - b_half.x, b_pos.x + b_half.x,
        2 * a_half.x, 2 * b_half.x, Side::Left, Side::Right,
    )
}

pub open spec fn y_contact(a_pos: Point, a_half: Point, b_pos: Point, b_half: Point) -> (Side, bool, int) {
    axis_contact(
        a_pos.y - a_half.y, a_pos.y + a_half.y, b_pos.y - b_half.y, b_pos.y + b_half.y,
        2 * a_half.y, 2 * b_half.y, Side::Bottom, Side::Top,
    )
}

/// The classification of box A (centre `a_pos`, half-extent `a_half`) against
/// box B. The reported side is that of the shallower axis; an unbounded depth
/// is never shallower, and a tie goes to the X axis.
pub open spec fn collision_spec(a_pos: Point, a_half: Point, b_pos: Point, b_half: Point) -> Option<CollisionState> {
    if !boxes_overlap(a_pos, a_half, b_pos, b_half) {
        None
    } else {
        let (xs, xb, xd) = x_contact(a_pos, a_half, b_pos, b_half);
        let (ys, yb, yd) = y_contact(a_pos, a_half, b_pos, b_half);
        if yb && (!xb || yd < xd) {
            Some(CollisionState { side_of_collision: ys, overlap_length: xd as i64, penetration_depth: yd as i64 })
        } else {
            Some(CollisionState { side_of_collision: xs, overlap_length: yd as i64, penetration_depth: xd as i64 })
        }
    }
}

/// The same outcome seen from the other box: the side is mirrored, the
/// lengths are kept.
pub open spec fn mirror_outcome(o: Option<CollisionState>) -> Option<CollisionState> {
    match o {
        Some(c) => Some(CollisionState { side_of_collision: mirror_side(c.side_of_collision), ..c }),
        None => None,
    }
}

/// One axis of `collision_test`, in `i64` so that nothing overflows.
fn classify_axis(a_lo: i64, a_hi: i64, b_lo: i64, b_hi: i64, a_size: i64, b_size: i64, low_face: Side, high_face: Side) -> (r: (Side, bool, i64))
    requires
        -0x1_0000_0000 <= a_lo <= 0x1_0000_0000,
        -0x1_0000_0000 <= a_hi <= 0x1_0000_0000,
        -0x1_0000_0000 <= b_lo <= 0x1_0000_0000,
        -0x1_0000_0000 <= b_hi <= 0x1_0000_0000,
        -0x1_0000_0000 <= a_size <= 0x1_0000_0000,
        -0x1_0000_0000 <= b_size <= 0x1_0000_0000,
    ensures
        (r.0, r.1, r.2 as int) == axis_contact(a_lo as int, a_hi as int, b_lo as int, b_hi as int, a_size as int, b_size as int, low_face, high_face),
{
    if a_lo < b_lo && a_hi > b_lo && a_hi < b_hi {
        (high_face, true, a_hi - b_lo)
    } else if a_lo > b_lo && a_lo < b_hi && a_hi > b_hi {
        (low_face, true, b_hi - a_lo)
    } else if a_size < b_size {
        (Side::Inside, false, if a_size < 0 { -a_size } else { a_size })
    } else {
        (Side::Inside, false, if b_size < 0 { -b_size } else { b_size })
    }
}

/// Determines which face of box A met box B, for boxes given by centre and
/// half-extent; `None` when they do not overlap on both axes.
pub fn collision_test(a_pos: Point, a_half: Point, b_pos: Point, b_half: Point) -> (r: Option<CollisionState>)
    ensures
        r == collision_spec(a_pos, a_half, b_pos, b_half),
        r is None <==> !boxes_overlap(a_pos, a_half, b_pos, b_half),
{
    let a_min_x = a_pos.x as i64 - a_half.x as i64;
    let a_max_x = a_pos.x as i64 + a_half.x as i64;
    let a_min_y = a_pos.y as i64 - a_half.y as i64;
    let a_max_y = a_pos.y as i64 + a_half.y as i64;
    let b_min_x = b_pos.x as i64 - b_half.x as i64;
    let b_max_x = b_pos.x as i64 + b_half.x as i64;
    let b_min_y = b_pos.y as i64 - b_half.y as i64;
    let b_max_y = b_pos.y as i64 + b_half.y as i64;
    if a_min_x < b_max_x && a_max_x > b_min_x && a_min_y < b_max_y && a_max_y > b_min_y {
        let (xs, xb, xd) = classify_axis(
            a_min_x, a_max_x, b_min_x, b_max_x, 2 * a_half.x as i64, 2 * b_half.x as i64, Side::Left, Side::Right,
        );
        let (ys, yb, yd) = classify_axis(
            a_min_y, a_max_y, b_min_y, b_max_y, 2 * a_half.y as i64, 2 * b_half.y as i64, Side::Bottom, Side::Top,
        );
        // the shallower axis is taken as the face of contact
        if yb && (!xb || yd < xd) {
            Some(CollisionState { side_of_collision: ys, overlap_length: xd, penetration_depth: yd })
        } else {
            Some(CollisionState { side_of_collision: xs, overlap_length: yd, penetration_depth: xd })
        }
    } else {
        None
    }
}

/// The face of the player that a contact normal points away from: a normal
/// pointing down means the top was hit, and so on; any other normal is `Inside`.
pub open spec fn normal_side(n: Point) -> Side {
    if n.x == 0 && n.y == -1 {
        Side::Top
    } else if n.x == 0 && n.y == 1 {
        Side::Bottom
    } else if n.x == -1 && n.y == 0 {
        Side::Right
    } else if n.x == 1 && n.y == 0 {
        Side::Left
    } else {
        Side::Inside
    }
}

/// Reads a unit contact normal as a face of the player.
pub fn side_of_normal(n: Point) -> (s: Side)
    ensures
        s == normal_side(n),
{
    if n.x == 0 && n.y == -1 {
        Side::Top
    } else if n.x == 0 && n.y == 1 {
        Side::Bottom
    } else if n.x == -1 && n.y == 0 {
        Side::Right
    } else if n.x == 1 && n.y == 0 {
        Side::Left
    } else {
        Side::Inside
    }
}

/// Swapping the two boxes mirrors the reported side (Left and Right, Top and
/// Bottom) and leaves the overlap length and the penetration depth as they were.
pub proof fn lemma_collision_swap(a_pos: Point, a_half: Point, b_pos: Point, b_half: Point)
    ensures
        collision_spec(b_pos, b_half, a_pos, a_half) == mirror_outcome(collision_spec(a_pos, a_half, b_pos, b_half)),
{
}

} // verus!
