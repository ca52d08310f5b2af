use vstd::prelude::*;

verus! {

/// Change of a volume for one key press, in percent.
pub const VOLUME_STEP: u8 = 10;

/// Volumes of the music channel and of the sound-effects channel, in percent
/// of full volume.
#[derive(Debug, Clone, Copy, PartialEq, Eq, Structural)]
pub struct Volume {
    pub music: u8,
    pub effects: u8,
}

pub open spec fn clamp_percent(v: int) -> int {
    if v < 0 {
        0
    } else if v > 100 {
        100
    } else {
        v
    }
}

/// A volume after the up and down keys of one frame.
pub open spec fn stepped(v: int, up: bool, down: bool) -> int {
    clamp_percent(v + (if up { VOLUME_STEP as int } else { 0 }) - (if down { VOLUME_STEP as int } else { 0 }))
}

impl Volume {
    /// Both channels at half volume.
    pub fn new() -> (r: Volume)
        ensures
            r == (Volume { music: 50, effects: 50 }),
    {
        Volume { music: 50, effects: 50 }
    }
}

fn step_volume(v: u8, up: bool, down: bool) -> (r: u8)
    ensures
        r == stepped(v as int, up, down),
{
    let mut w: i32 = v as i32;
    if up {
        w = w + VOLUME_STEP as i32;
    }
    if down {
        w = w - VOLUME_STEP as i32;
    }
    if w < 0 {
        0
    } else if w > 100 {
        100
    } else {
        w as u8
    }
}

/// Applies the volume keys of one frame to both channels, keeping each
/// volume between silence and full volume.
pub fn volume_control(volume: &mut Volume, music_up: bool, music_down: bool, effects_up: bool, effects_down: bool)
    ensures
        final(volume).music == stepped(old(volume).music as int, music_up, music_down),
        final(volume).effects == stepped(old(volume).effects as int, effects_up, effects_down),
        final(volume).music <= 100 && final(volume).effects <= 100,
{
    volume.music = step_volume(volume.music, music_up, music_down);
    volume.effects = step_volume(volume.effects, effects_up, effects_down);
}

} // verus!
