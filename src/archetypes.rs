use vstd::prelude::*;
use vstd::string::*;
use crate::classifier::Point;

verus! {

/// How the physics engine moves a body.
#[derive(Debug, Clone, Copy, PartialEq, Eq, Structural)]
pub enum BodyKind {
    Dynamic,
    Static,
    Sensor,
}

/// The collider an entity of the level is built with: a box of the given
/// half-extent, its body kind, and the material values that differ from the
/// engine's defaults. Rotation is always locked.
#[derive(Debug, Clone, Copy, PartialEq, Eq, Structural)]
pub struct ColliderBundle {
    pub half_extents: Point,
    pub rigid_body: BodyKind,
    pub rotation_locked: bool,
    pub friction: Option<u32>,
    pub density: Option<u32>,
}

pub open spec fn locked_box(hx: i32, hy: i32, body: BodyKind) -> ColliderBundle {
    ColliderBundle {
        half_extents: Point { x: hx, y: hy },
        rigid_body: body,
        rotation_locked: true,
        friction: None,
        density: None,
    }
}

/// The collider of a level-editor entity, by its identifier; `None` for an
/// identifier that gets the engine's default collider.
pub open spec fn entity_collider(identifier: Seq<char>) -> Option<ColliderBundle> {
    if identifier == "Player"@ {
        Some(locked_box(6, 6, BodyKind::Dynamic))
    } else if identifier == "Pot"@ {
        Some(ColliderBundle { friction: Some(0u32), density: Some(15u32), ..locked_box(8, 15, BodyKind::Dynamic) })
    } else if identifier == "Key"@ {
        Some(locked_box(8, 8, BodyKind::Sensor))
    } else {
        None
    }
}

/// The collider of an integer-grid cell, by its value; `None` for a value
/// that gets the engine's default collider.
pub open spec fn cell_collider(value: i32) -> Option<ColliderBundle> {
    if value == 1 || value == 2 {
        Some(locked_box(8, 8, BodyKind::Static))
    } else if value == 3 {
        Some(locked_box(5, 5, BodyKind::Sensor))
    } else {
        None
    }
}

/// Whether two strings hold the same characters.
pub fn same_text(a: &str, b: &str) -> (r: bool)
    ensures
        r == (a@ == b@),
{
    let n = a.unicode_len();
    if n != b.unicode_len() {
        return false;
    }
    let mut i: usize = 0;
    while i < n
        invariant
            n == a@.len(),
            n == b@.len(),
            0 <= i <= n,
            forall|k: int| 0 <= k < i ==> a@[k] == b@[k],
        decreases n - i,
    {
        if a.get_char(i) != b.get_char(i) {
            return false;
        }
        i += 1;
    }
    assert(a@ =~= b@);
    true
}

impl ColliderBundle {
    fn locked(hx: i32, hy: i32, body: BodyKind) -> (r: ColliderBundle)
        ensures
            r == locked_box(hx, hy, body),
    {
        ColliderBundle {
            half_extents: Point { x: hx, y: hy },
            rigid_body: body,
            rotation_locked: true,
            friction: None,
            density: None,
        }
    }

    /// The collider for a level-editor entity with this identifier.
    pub fn from_entity(identifier: &str) -> (r: Option<ColliderBundle>)
        ensures
            r == entity_collider(identifier@),
    {
        proof {
            reveal_strlit("Player");
            reveal_strlit("Pot");
            reveal_strlit("Key");
        }
        if same_text(identifier, "Player") {
            Some(ColliderBundle::locked(6, 6, BodyKind::Dynamic))
        } else if same_text(identifier, "Pot") {
            Some(ColliderBundle { friction: Some(0), density: Some(15), ..ColliderBundle::locked(8, 15, BodyKind::Dynamic) })
        } else if same_text(identifier, "Key") {
            Some(ColliderBundle::locked(8, 8, BodyKind::Sensor))
        } else {
            None
        }
    }

    /// The collider for an integer-grid cell of this value: walls are static
    /// tiles, hazards are smaller sensors.
    pub fn from_int_grid_cell(value: i32) -> (r: Option<ColliderBundle>)
        ensures
            r == cell_collider(value),
    {
        if value == 2 || value == 1 {
            Some(ColliderBundle::locked(8, 8, BodyKind::Static))
        } else if value == 3 {
            Some(ColliderBundle::locked(5, 5, BodyKind::Sensor))
        } else {
            None
        }
    }
}

} // verus!
