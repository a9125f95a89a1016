use crate::calendar::{representable, END_OF_TIME, NANOS_PER_HOUR};
use crate::date::{ntp_to_unix, NetworkTimestamp, Time, NTP_UNIX_DELTA};
use crate::device::{field_of, scrambled, unveiled, Device, DISPLAY_WIDTH, FIELD_COUNT};
use crate::rand::{xorshift_nth, XorShift};
use vstd::prelude::*;

verus! {

/// The number of frames of the first phase, in which every field shows noise.
pub const SHUFFLE_FRAMES: usize = 15;

/// The number of frames of the whole animation: those of the first phase, and
/// one for each character of the display in the second.
pub const FRAMES: usize = 32;

/// Milliseconds for which each frame of the second phase stays.
pub const REVEAL_HOLD: u64 = 50;

/// Milliseconds for which the frame `frame` stays on the display.
pub open spec fn hold_of(frame: int) -> int {
    if frame <= 0 {
        100
    } else if frame == 1 {
        90
    } else if frame == 2 {
        80
    } else if frame <= 4 {
        70
    } else if frame <= 6 {
        60
    } else if frame <= 8 {
        50
    } else if frame <= 10 {
        40
    } else if frame <= 12 {
        30
    } else if frame <= 14 {
        20
    } else {
        REVEAL_HOLD as int
    }
}

/// The first field that the frame `frame` redraws: every field in the first
/// phase, and in the second the field of the character that the frame fixes.
pub open spec fn first_redrawn(frame: int) -> int {
    if frame < SHUFFLE_FRAMES {
        0
    } else {
        field_of(frame - SHUFFLE_FRAMES)
    }
}

/// The number of characters that the frame `frame` shows as they are in the
/// target: none in the first phase, then one more with each frame.
pub open spec fn fixed_in(frame: int) -> int {
    if frame < SHUFFLE_FRAMES {
        0
    } else {
        frame - SHUFFLE_FRAMES + 1
    }
}

/// What the frame `frame` puts on a display that showed `before`, with a
/// generator that starts in `state`, on the way to `target`.
pub open spec fn frame_of(before: Seq<u8>, target: Seq<u8>, state: u32, frame: int) -> Seq<u8> {
    unveiled(scrambled(before, state, first_redrawn(frame)), target, fixed_in(frame))
}

fn hold(frame: usize) -> (millis: u64)
    ensures
        millis == hold_of(frame as int),
{
    if frame == 0 {
        100
    } else if frame == 1 {
        90
    } else if frame == 2 {
        80
    } else if frame <= 4 {
        70
    } else if frame <= 6 {
        60
    } else if frame <= 8 {
        50
    } else if frame <= 10 {
        40
    } else if frame <= 12 {
        30
    } else if frame <= 14 {
        20
    } else {
        REVEAL_HOLD
    }
}

fn field_at(place: usize) -> (field: usize)
    ensures
        field == field_of(place as int),
        field < FIELD_COUNT,
{
    if place < 4 {
        0
    } else if place < 6 {
        1
    } else if place < 8 {
        2
    } else if place < 10 {
        3
    } else if place < 12 {
        4
    } else if place < 14 {
        5
    } else {
        6
    }
}

/// A resynchronisation under way: the timestamp that was fetched, the
/// characters that it comes to on the display, and the frames shown so far.
pub struct Resync {
    stamp: NetworkTimestamp,
    target: Device,
    rng: XorShift,
    shown: usize,
}

impl Resync {
    /// The timestamp that the clock is to be set to.
    pub closed spec fn stamp(&self) -> NetworkTimestamp {
        self.stamp
    }

    /// The characters that the animation ends on.
    pub closed spec fn target(&self) -> Seq<u8> {
        self.target@
    }

    /// The state of the generator that draws the noise.
    pub closed spec fn noise_state(&self) -> u32 {
        self.rng.state()
    }

    /// The number of frames shown so far.
    pub closed spec fn shown(&self) -> int {
        self.shown as int
    }

    /// The number of frames that are still to be shown.
    pub open spec fn frames_left(&self) -> int {
        FRAMES - self.shown()
    }

    /// The target is a display of digits, the generator is sound, and no more
    /// frames were shown than the animation has.
    pub closed spec fn wf(&self) -> bool {
        &&& self.target.wf()
        &&& self.rng.wf()
        &&& self.shown <= FRAMES
        &&& self.stamp.seconds >= NTP_UNIX_DELTA
    }

    /// An animation that has shown nothing yet, on the way to `target`.
    pub(crate) fn new(stamp: NetworkTimestamp, target: Device, rng: XorShift) -> (resync: Self)
        requires
            stamp.seconds >= NTP_UNIX_DELTA,
            target.wf(),
            rng.wf(),
        ensures
            resync.wf(),
            resync.stamp() == stamp,
            resync.target() == target@,
            resync.noise_state() == rng.state(),
            resync.shown() == 0,
    {
        Resync { stamp, target, rng, shown: 0 }
    }

    /// Puts the next frame on `device` and says for how many milliseconds it
    /// is to stay there, or says that the animation is over.
    pub fn next_frame(&mut self, device: &mut Device) -> (hold: Option<u64>)
        requires
            old(self).wf(),
            old(device).wf(),
        ensures
            final(self).wf(),
            final(device).wf(),
            final(self).stamp() == old(self).stamp(),
            final(self).target() == old(self).target(),
            old(self).frames_left() == 0 <==> hold is None,
            hold is None ==> *final(self) == *old(self) && *final(device) == *old(device),
            hold matches Some(millis) ==> {
                &&& millis == hold_of(old(self).shown())
                &&& final(self).shown() == old(self).shown() + 1
                &&& final(device)@ == frame_of(
                    old(device)@,
                    old(self).target(),
                    old(self).noise_state(),
                    old(self).shown(),
                )
                &&& final(self).noise_state() == xorshift_nth(
                    old(self).noise_state(),
                    (FIELD_COUNT - first_redrawn(old(self).shown())) as nat,
                )
            },
    {
        if self.shown >= FRAMES {
            return None;
        }
        let frame = self.shown;
        if frame < SHUFFLE_FRAMES {
            device.scramble(&mut self.rng, 0);
            assert(device@ =~= unveiled(device@, self.target@, 0));
        } else {
            let place = frame - SHUFFLE_FRAMES;
            device.scramble(&mut self.rng, field_at(place));
            device.unveil(&self.target, place + 1);
        }
        self.shown = frame + 1;
        Some(hold(frame))
    }

    /// Whether the animation is over.
    pub fn is_done(&self) -> (done: bool)
        requires
            self.wf(),
        ensures
            done == (self.frames_left() == 0),
    {
        self.shown >= FRAMES
    }
}

impl Resync {
    /// Whether the animation is over and `clock` can be set to the timestamp
    /// and moved on by `elapsed` nanoseconds.
    pub fn can_finish(&self, clock: &Time, elapsed: u128) -> (possible: bool)
        requires
            self.wf(),
            clock.wf(),
        ensures
            possible == (self.frames_left() == 0 && representable(
                self.stamp().nanos() + elapsed,
                clock.offset(),
            )),
    {
        if self.shown < FRAMES || elapsed >= END_OF_TIME as u128 {
            return false;
        }
        let moved = ntp_to_unix(self.stamp.seconds, self.stamp.fraction) + elapsed as i128;
        moved < END_OF_TIME && moved + clock.offset_hours() as i128 * NANOS_PER_HOUR < END_OF_TIME
    }

    /// Ends the resynchronisation: sets `clock` to the timestamp, moves it on
    /// by the `elapsed` nanoseconds that have passed since the timestamp was
    /// fetched, and shows it on `device`.
    pub fn finish(self, clock: &mut Time, device: &mut Device, elapsed: u128)
        requires
            self.wf(),
            self.frames_left() == 0,
            old(clock).wf(),
            representable(self.stamp().nanos() + elapsed, old(clock).offset()),
        ensures
            final(clock).instant() == self.stamp().nanos() + elapsed,
            final(clock).offset() == old(clock).offset(),
            final(clock).time_server() == old(clock).time_server(),
            final(clock).wf(),
            final(device)@ == final(clock).fields().numeral(),
            final(device).wf(),
    {
        clock.sync_simple(self.stamp);
        clock.update(device, elapsed);
    }
}

/// The last frame shows the target and nothing else, whatever the display
/// showed before and whatever the generator drew.
pub proof fn lemma_last_frame_is_target(before: Seq<u8>, target: Seq<u8>, state: u32)
    requires
        target.len() == DISPLAY_WIDTH,
    ensures
        frame_of(before, target, state, FRAMES - 1) == target,
{
    assert(frame_of(before, target, state, FRAMES - 1) =~= target);
}

/// No frame depends on what the display showed before it.
pub proof fn lemma_frame_forgets(
    before: Seq<u8>,
    other: Seq<u8>,
    target: Seq<u8>,
    state: u32,
    frame: int,
)
    requires
        0 <= frame < FRAMES,
    ensures
        frame_of(before, target, state, frame) == frame_of(other, target, state, frame),
{
    assert(frame_of(before, target, state, frame) =~= frame_of(other, target, state, frame));
}

/// A frame of the second phase shows the target in every character that it or
/// an earlier frame fixed.
pub proof fn lemma_fixed_characters_hold(
    before: Seq<u8>,
    target: Seq<u8>,
    state: u32,
    frame: int,
    place: int,
)
    requires
        SHUFFLE_FRAMES <= frame < FRAMES,
        0 <= place <= frame - SHUFFLE_FRAMES,
    ensures
        frame_of(before, target, state, frame)[place] == target[place],
{
}

} // verus!
