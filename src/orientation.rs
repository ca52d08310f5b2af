use vstd::prelude::*;
use crate::classifier::Point;

verus! {

/// Strength of gravity along the down axis, in world units per second squared.
pub const GRAVITY_MAGNITUDE: i32 = 2000;

/// A quarter turn of the world.
#[derive(Debug, Clone, Copy, PartialEq, Eq, Structural)]
pub enum RotationCommand {
    RotateClockwise,
    RotateCounterClockwise,
}

/// The direction gravity pulls in, and the gravity vector itself.
#[derive(Debug, Clone, Copy, PartialEq, Eq, Structural)]
pub struct WorldOrientation {
    pub gravity_vector: Point,
    pub down_axis: Point,
}

/// The down axis after `q` clockwise quarter turns from straight down:
/// down, right, up, left.
pub open spec fn down_of(q: int) -> Point {
    if q == 0 {
        Point { x: 0, y: -1i32 }
    } else if q == 1 {
        Point { x: 1, y: 0 }
    } else if q == 2 {
        Point { x: 0, y: 1 }
    } else {
        Point { x: -1i32, y: 0 }
    }
}

/// How many clockwise quarter turns lead from straight down to `d`.
pub open spec fn quarter_of(d: Point) -> int {
    if d == down_of(0) {
        0
    } else if d == down_of(1) {
        1
    } else if d == down_of(2) {
        2
    } else {
        3
    }
}

pub open spec fn gravity_along(d: Point) -> Point {
    Point { x: (d.x * GRAVITY_MAGNITUDE) as i32, y: (d.y * GRAVITY_MAGNITUDE) as i32 }
}

/// The orientation after `q` clockwise quarter turns from the start.
pub open spec fn orientation_at(q: int) -> WorldOrientation {
    WorldOrientation { gravity_vector: gravity_along(down_of(q)), down_axis: down_of(q) }
}

/// The orientation every level and every life starts in: gravity straight down.
pub open spec fn initial_orientation() -> WorldOrientation {
    orientation_at(0)
}

/// The quarter-turn count after one command.
pub open spec fn step_quarter(q: int, cmd: RotationCommand) -> int {
    match cmd {
        RotationCommand::RotateClockwise => (q + 1) % 4,
        RotationCommand::RotateCounterClockwise => (q + 3) % 4,
    }
}

pub open spec fn rotated(o: WorldOrientation, cmd: RotationCommand) -> WorldOrientation {
    orientation_at(step_quarter(quarter_of(o.down_axis), cmd))
}

/// The axis along which the creature walks: the down axis turned a quarter
/// counter-clockwise, so that "right" reads as right on screen.
pub open spec fn walk_axis_of(d: Point) -> Point {
    Point { x: -d.y as i32, y: d.x }
}

impl WorldOrientation {
    /// One of the four legal orientations: the down axis is a unit vector
    /// along X or Y, and gravity pulls along it with the fixed magnitude.
    pub open spec fn wf(&self) -> bool {
        exists|q: int| 0 <= q < 4 && *self == orientation_at(q)
    }

    pub fn initial() -> (r: WorldOrientation)
        ensures
            r == initial_orientation(),
            r.wf(),
    {
        let r = WorldOrientation {
            gravity_vector: Point { x: 0, y: -GRAVITY_MAGNITUDE },
            down_axis: Point { x: 0, y: -1 },
        };
        assert(r == orientation_at(0));
        r
    }

    /// Puts gravity back straight down.
    pub fn reset(&mut self)
        ensures
            *final(self) == initial_orientation(),
            final(self).wf(),
    {
        *self = WorldOrientation::initial();
    }

    /// Turns the world a quarter; returns the quarter turns (+1 or -1,
    /// counter-clockwise positive) to apply to the camera about its view axis.
    pub fn rotate(&mut self, cmd: RotationCommand) -> (camera_turn: i32)
        requires
            old(self).wf(),
        ensures
            *final(self) == rotated(*old(self), cmd),
            final(self).wf(),
            camera_turn == (if cmd == RotationCommand::RotateClockwise { 1i32 } else { -1i32 }),
    {
        let d = self.down_axis;
        let q: i32 = if d.x == 0 && d.y == -1 {
            0
        } else if d.x == 1 && d.y == 0 {
            1
        } else if d.x == 0 && d.y == 1 {
            2
        } else {
            3
        };
        assert(q == quarter_of(d));
        let (nq, turn): (i32, i32) = match cmd {
            RotationCommand::RotateClockwise => ((q + 1) % 4, 1),
            RotationCommand::RotateCounterClockwise => ((q + 3) % 4, -1),
        };
        let nd = if nq == 0 {
            Point { x: 0, y: -1 }
        } else if nq == 1 {
            Point { x: 1, y: 0 }
        } else if nq == 2 {
            Point { x: 0, y: 1 }
        } else {
            Point { x: -1, y: 0 }
        };
        *self = WorldOrientation {
            gravity_vector: Point { x: nd.x * GRAVITY_MAGNITUDE, y: nd.y * GRAVITY_MAGNITUDE },
            down_axis: nd,
        };
        assert(*self == orientation_at(nq as int));
        turn
    }

    /// The walking axis for the current gravity.
    pub fn walk_axis(&self) -> (r: Point)
        requires
            self.wf(),
        ensures
            r == walk_axis_of(self.down_axis),
            -1 <= r.x <= 1 && -1 <= r.y <= 1,
            (r.x == 0) != (r.y == 0),
    {
        let ghost q = choose|q: int| 0 <= q < 4 && *self == orientation_at(q);
        Point { x: -self.down_axis.y, y: self.down_axis.x }
    }
}

/// Applies the rotate commands of one frame, clockwise first; returns the net
/// quarter turns for the camera.
pub fn world_rotation_system(rotate_clockwise: bool, rotate_counter_clockwise: bool, orientation: &mut WorldOrientation) -> (camera_turn: i32)
    requires
        old(orientation).wf(),
    ensures
        final(orientation).wf(),
        *final(orientation) == ({
            let o1 = if rotate_clockwise { rotated(*old(orientation), RotationCommand::RotateClockwise) } else { *old(orientation) };
            if rotate_counter_clockwise { rotated(o1, RotationCommand::RotateCounterClockwise) } else { o1 }
        }),
        camera_turn == (if rotate_clockwise { 1int } else { 0 }) - (if rotate_counter_clockwise { 1int } else { 0 }),
{
    let mut turn: i32 = 0;
    if rotate_clockwise {
        turn = turn + orientation.rotate(RotationCommand::RotateClockwise);
    }
    if rotate_counter_clockwise {
        turn = turn + orientation.rotate(RotationCommand::RotateCounterClockwise);
    }
    turn
}

/// Four clockwise quarter turns bring the world back to where it was, and a
/// clockwise turn followed by a counter-clockwise one changes nothing.
pub proof fn lemma_rotation_cycle(o: WorldOrientation)
    requires
        o.wf(),
    ensures
        rotated(rotated(rotated(rotated(o, RotationCommand::RotateClockwise), RotationCommand::RotateClockwise),
            RotationCommand::RotateClockwise), RotationCommand::RotateClockwise) == o,
        rotated(rotated(o, RotationCommand::RotateClockwise), RotationCommand::RotateCounterClockwise) == o,
        rotated(rotated(o, RotationCommand::RotateCounterClockwise), RotationCommand::RotateClockwise) == o,
{
    let q = choose|q: int| 0 <= q < 4 && o == orientation_at(q);
    assert(quarter_of(down_of(q)) == q);
    assert forall|p: int| 0 <= p < 4 implies quarter_of(#[trigger] down_of(p)) == p by {}
}

} // verus!
