use vstd::prelude::*;

verus! {

/// A single note: key number, intensity and the delta time (in ticks)
/// that separates its events.
#[derive(Debug, Clone, Copy, PartialEq, Eq, Structural)]
pub struct Note {
    pub pitch: u8,
    pub velocity: u8,
    pub duration: u32,
}

/// Bounds, inclusive, of the velocities and durations the generators draw.
pub const MIN_VELOCITY: u32 = 80;

pub const MAX_VELOCITY: u32 = 120;

pub const MIN_DURATION: u32 = 100;

pub const MAX_DURATION: u32 = 500;

/// The fixed whole-tone scale that random pitches are drawn from.
pub open spec fn scale() -> Seq<u8> {
    seq![60u8, 62u8, 64u8, 66u8, 68u8, 70u8, 72u8]
}

pub open spec fn in_scale(p: u8) -> bool {
    scale().contains(p)
}

/// Velocity and duration lie in the ranges that both generators draw from.
pub open spec fn has_generated_dynamics(n: Note) -> bool {
    &&& MIN_VELOCITY <= n.velocity <= MAX_VELOCITY
    &&& MIN_DURATION <= n.duration <= MAX_DURATION
}

/// The scale as a vector, with its contents stated.
pub fn scale_pitches() -> (r: Vec<u8>)
    ensures
        r@ == scale(),
{
    let r: Vec<u8> = vec![60u8, 62u8, 64u8, 66u8, 68u8, 70u8, 72u8];
    assert(r@ =~= scale());
    r
}

} // verus!
