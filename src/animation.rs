use vstd::prelude::*;
use crate::classifier::Point;

verus! {

/// Frames in the explosion effect.
pub const ANIMATION_LEN: usize = 6;

/// The frame after `index` on a looping sheet of `frames` frames, when the
/// frame timer has just run out; otherwise `index` itself.
pub fn next_frame(index: usize, frames: usize, timer_finished: bool) -> (r: usize)
    requires
        frames > 0,
        index < usize::MAX,
    ensures
        r == (if timer_finished { ((index + 1) % (frames as int)) as usize } else { index }),
{
    if timer_finished {
        (index + 1) % frames
    } else {
        index
    }
}

/// Advances a one-shot effect when its timer has run out. Returns whether the
/// effect has played its last frame and is to be removed.
pub fn advance_effect(index: &mut usize, max_index: usize, timer_finished: bool) -> (done: bool)
    requires
        *old(index) < usize::MAX,
    ensures
        *final(index) == (if timer_finished { *old(index) + 1 } else { *old(index) as int }),
        done == (timer_finished && *final(index) >= max_index),
{
    if timer_finished {
        *index = *index + 1;
        *index >= max_index
    } else {
        false
    }
}

/// Where the player appears for a level-editor position `(x, y)` (measured
/// downward from the level's top-left corner), given the half-extent of its
/// idle sprite: the level is drawn with its origin 128 units right of and
/// 240 units below that corner.
pub fn player_spawn_translation(x: i32, y: i32, idle_half: Point) -> (r: (i64, i64))
    ensures
        r.0 == x - 128 + idle_half.x,
        r.1 == -(y - 112 - 128) + idle_half.y,
{
    (x as i64 - 128 + idle_half.x as i64, -(y as i64 - 112 - 128) + idle_half.y as i64)
}

} // verus!
