use vstd::prelude::*;

verus! {

/// One of the four faces of an axis-aligned box, or `Inside` when a box test
/// finds no separating face.
#[derive(Debug, Clone, Copy, PartialEq, Eq, Structural)]
pub enum Side {
    Left,
    Right,
    Top,
    Bottom,
    Inside,
}

/// Ordinal of a side around the box: Bottom 0, Right 1, Top 2, Left 3; `Inside` is 4.
pub open spec fn side_ordinal(s: Side) -> int {
    match s {
        Side::Bottom => 0,
        Side::Right => 1,
        Side::Top => 2,
        Side::Left => 3,
        Side::Inside => 4,
    }
}

/// The face on the opposite side of the box.
pub open spec fn mirror_side(s: Side) -> Side {
    match s {
        Side::Left => Side::Right,
        Side::Right => Side::Left,
        Side::Top => Side::Bottom,
        Side::Bottom => Side::Top,
        Side::Inside => Side::Inside,
    }
}

/// One of the four directional faces (anything but `Inside`).
pub open spec fn is_face(s: Side) -> bool {
    s != Side::Inside
}

impl Side {
    /// The ordinal of this side, used for circular arithmetic between faces.
    pub fn numerize(&self) -> (r: i32)
        ensures
            r == side_ordinal(*self),
    {
        match self {
            Side::Left => 3,
            Side::Right => 1,
            Side::Top => 2,
            Side::Bottom => 0,
            Side::Inside => 4,
        }
    }

    /// The face opposite to this one; `Inside` stays `Inside`.
    pub fn mirrored(&self) -> (r: Side)
        ensures
            r == mirror_side(*self),
    {
        match self {
            Side::Left => Side::Right,
            Side::Right => Side::Left,
            Side::Top => Side::Bottom,
            Side::Bottom => Side::Top,
            Side::Inside => Side::Inside,
        }
    }
}

} // verus!
