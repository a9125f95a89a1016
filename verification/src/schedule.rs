use vstd::prelude::*;

verus! {

/// Nanoseconds between two ticks of the clock: one millisecond.
pub const TICK_NANOS: u128 = 1_000_000;

/// Nanoseconds after which the clock is set by the time server again: one
/// hour.
pub const RESYNC_NANOS: u128 = 3_600_000_000_000;

/// What the control loop does next.
#[derive(Clone, Copy, Debug, PartialEq, Eq, Structural)]
pub enum Turn {
    /// The tick is not due yet: spin, and ask again.
    Spin,
    /// Move the clock forward by the time since the last tick.
    Advance,
    /// Set the clock by the time server, without animation, then move it
    /// forward by the time since the last tick.
    ResyncAndAdvance,
}

/// The turn that is due `since_tick` nanoseconds after the last tick and
/// `since_resync` nanoseconds after the clock was last set.
pub open spec fn turn_at(since_tick: u128, since_resync: u128) -> Turn {
    if since_tick < TICK_NANOS {
        Turn::Spin
    } else if since_resync > RESYNC_NANOS {
        Turn::ResyncAndAdvance
    } else {
        Turn::Advance
    }
}

/// Decides the next turn of the control loop.
pub fn next_turn(since_tick: u128, since_resync: u128) -> (turn: Turn)
    ensures
        turn == turn_at(since_tick, since_resync),
{
    if since_tick < TICK_NANOS {
        Turn::Spin
    } else if since_resync > RESYNC_NANOS {
        Turn::ResyncAndAdvance
    } else {
        Turn::Advance
    }
}

} // verus!
