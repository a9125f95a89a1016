use crate::animation::Resync;
use crate::calendar::{
    calendar_day, calendar_month, calendar_year, civil_from_unix, local_nanos, representable,
    Fields, END_OF_TIME, MAX_OFFSET_HOURS, NANOS_PER_DAY, NANOS_PER_HOUR,
};
use crate::convert::Month;
use crate::device::Device;
use crate::rand::XorShift;
use vstd::prelude::*;

verus! {

/// Seconds from the NTP epoch, 1900-01-01, to the Unix epoch, 1970-01-01.
pub const NTP_UNIX_DELTA: u32 = 2208988800;

/// A timestamp as a time server sends it: whole seconds since the NTP epoch
/// and a binary fraction of a second, in units of 2^-32 s.
#[derive(Clone, Copy, Debug, PartialEq, Eq, Structural)]
pub struct NetworkTimestamp {
    pub seconds: u32,
    pub fraction: u32,
}

/// The microseconds that the binary fraction `frac` amounts to, rounded down.
pub open spec fn fraction_micros(frac: u32) -> int {
    (frac * 1_000_000) / 0x1_0000_0000
}

/// Nanoseconds since the Unix epoch of the NTP timestamp `(secs, frac)`, at
/// microsecond resolution.
pub open spec fn unix_nanos(secs: u32, frac: u32) -> int {
    ((secs - NTP_UNIX_DELTA) * 1_000_000 + fraction_micros(frac)) * 1000
}

/// Converts an NTP timestamp to nanoseconds since the Unix epoch.
pub fn ntp_to_unix(secs: u32, frac: u32) -> (nanos: i128)
    requires
        secs >= NTP_UNIX_DELTA,
    ensures
        nanos == unix_nanos(secs, frac),
{
    let secs = secs - NTP_UNIX_DELTA;
    assert(1u64 << 32 == 0x1_0000_0000) by (bit_vector);
    let micros = (frac as u64 * 1000000) / (1u64 << 32);
    (secs as u64 * 1000000 + micros) as i128 * 1000
}

/// A later second never gives an earlier instant, whatever the fractions, and
/// within one second a larger fraction never gives an earlier instant.
pub proof fn lemma_unix_nanos_monotonic(s1: u32, f1: u32, s2: u32, f2: u32)
    requires
        NTP_UNIX_DELTA <= s1,
        s1 < s2 || (s1 == s2 && f1 <= f2),
    ensures
        unix_nanos(s1, f1) <= unix_nanos(s2, f2),
{
}

impl NetworkTimestamp {
    /// Nanoseconds since the Unix epoch.
    pub open spec fn nanos(&self) -> int {
        unix_nanos(self.seconds, self.fraction)
    }

    /// Whether the timestamp lies at or after the Unix epoch, as every
    /// timestamp of a working server does.
    pub fn is_valid(&self) -> (valid: bool)
        ensures
            valid == (self.seconds >= NTP_UNIX_DELTA),
    {
        self.seconds >= NTP_UNIX_DELTA
    }
}

/// The fields that a clock at `offset_hours` hours from UTC shows at the
/// instant `unix_nanos`.
pub open spec fn fields_at(unix_nanos: int, offset_hours: int) -> Fields {
    let local = local_nanos(unix_nanos, offset_hours);
    let days = local / (NANOS_PER_DAY as int);
    Fields {
        year: calendar_year(days) as i32,
        month: Month::at(calendar_month(days)),
        day: calendar_day(days) as u8,
        hour: ((local / (NANOS_PER_HOUR as int)) % 24) as u8,
        minute: ((local / 60_000_000_000) % 60) as u8,
        second: ((local / 1_000_000_000) % 60) as u8,
        millisecond: ((local / 1_000_000) % 1000) as u16,
    }
}

/// A wall clock: an instant, and the fixed offset from UTC at which it is
/// shown.
#[derive(Debug)]
pub struct Time {
    pub server: &'static str,
    unix_nanos: i128,
    offset_hours: i8,
}

impl Time {
    /// The time server that the clock is set by.
    pub closed spec fn time_server(&self) -> &'static str {
        self.server
    }

    /// The instant of the clock, in nanoseconds since the Unix epoch.
    pub closed spec fn instant(&self) -> int {
        self.unix_nanos as int
    }

    /// The offset from UTC at which the clock is shown, in hours.
    pub closed spec fn offset(&self) -> int {
        self.offset_hours as int
    }

    /// The instant of the clock can be shown at its offset.
    pub open spec fn wf(&self) -> bool {
        representable(self.instant(), self.offset())
    }

    /// The fields that the clock shows.
    pub open spec fn fields(&self) -> Fields {
        fields_at(self.instant(), self.offset())
    }

    /// A clock for the time server `server`, set to `stamp` and shown in UTC.
    pub fn new(server: &'static str, stamp: NetworkTimestamp) -> (clock: Self)
        requires
            stamp.seconds >= NTP_UNIX_DELTA,
        ensures
            clock.time_server() == server,
            clock.instant() == stamp.nanos(),
            clock.offset() == 0,
            clock.wf(),
    {
        Time { server, unix_nanos: ntp_to_unix(stamp.seconds, stamp.fraction), offset_hours: 0 }
    }

    /// Whether the clock can be shown at `hours` hours from UTC.
    pub fn accepts_offset(&self, hours: i8) -> (accepted: bool)
        requires
            self.wf(),
        ensures
            accepted == representable(self.instant(), hours as int),
    {
        -MAX_OFFSET_HOURS <= hours && hours <= MAX_OFFSET_HOURS && self.unix_nanos
            + hours as i128 * NANOS_PER_HOUR < END_OF_TIME
    }

    /// Shows the same instant at `hours` hours from UTC from now on.
    pub fn set_offset(&mut self, hours: i8)
        requires
            old(self).wf(),
            representable(old(self).instant(), hours as int),
        ensures
            final(self).instant() == old(self).instant(),
            final(self).offset() == hours,
            final(self).time_server() == old(self).time_server(),
            final(self).wf(),
    {
        self.offset_hours = hours;
    }

    /// Whether the clock can move forward by `elapsed` nanoseconds.
    pub fn can_advance(&self, elapsed: u128) -> (possible: bool)
        requires
            self.wf(),
        ensures
            possible == representable(self.instant() + elapsed, self.offset()),
    {
        if elapsed >= END_OF_TIME as u128 {
            return false;
        }
        let moved = self.unix_nanos + elapsed as i128;
        moved < END_OF_TIME && moved + self.offset_hours as i128 * NANOS_PER_HOUR < END_OF_TIME
    }

    /// Reads the fields that the clock shows.
    pub fn read(&self) -> (fields: Fields)
        requires
            self.wf(),
        ensures
            fields == self.fields(),
            1969 <= fields.year <= 9999,
            fields.fits(),
    {
        let civil = civil_from_unix(self.unix_nanos, self.offset_hours);
        Fields {
            year: civil.0,
            month: Month::from_number(civil.1).unwrap(),
            day: civil.2,
            hour: civil.3,
            minute: civil.4,
            second: civil.5,
            millisecond: civil.6,
        }
    }

    /// Moves the clock forward by `elapsed` nanoseconds and shows it on
    /// `device`.
    pub fn update(&mut self, device: &mut Device, elapsed: u128)
        requires
            old(self).wf(),
            representable(old(self).instant() + elapsed, old(self).offset()),
        ensures
            final(self).instant() == old(self).instant() + elapsed,
            final(self).offset() == old(self).offset(),
            final(self).time_server() == old(self).time_server(),
            final(self).wf(),
            final(device)@ == final(self).fields().numeral(),
            final(self).fields().fits(),
            final(device).wf(),
    {
        self.unix_nanos = self.unix_nanos + elapsed as i128;
        let fields = self.read();
        device.show(&fields);
    }

    /// The offset from UTC at which the clock is shown, in hours.
    pub fn offset_hours(&self) -> (hours: i8)
        ensures
            hours == self.offset(),
    {
        self.offset_hours
    }

    /// Begins an animated resynchronisation to `stamp`: the animation ends on
    /// the fields of `stamp` at the offset of the clock, and draws its noise
    /// from `rng`. The clock itself stays as it is until the animation is
    /// finished.
    pub fn sync(&self, stamp: NetworkTimestamp, rng: XorShift) -> (resync: Resync)
        requires
            self.wf(),
            rng.wf(),
            stamp.seconds >= NTP_UNIX_DELTA,
        ensures
            resync.wf(),
            resync.stamp() == stamp,
            resync.target() == fields_at(stamp.nanos(), self.offset()).numeral(),
            resync.noise_state() == rng.state(),
            resync.shown() == 0,
    {
        let fetched = Time {
            server: self.server,
            unix_nanos: ntp_to_unix(stamp.seconds, stamp.fraction),
            offset_hours: self.offset_hours,
        };
        let mut target = Device::default();
        target.show(&fetched.read());
        Resync::new(stamp, target, rng)
    }

    /// Sets the clock to `stamp`, shown at the same offset as before.
    pub fn sync_simple(&mut self, stamp: NetworkTimestamp)
        requires
            old(self).wf(),
            stamp.seconds >= NTP_UNIX_DELTA,
        ensures
            final(self).instant() == stamp.nanos(),
            final(self).offset() == old(self).offset(),
            final(self).time_server() == old(self).time_server(),
            final(self).wf(),
    {
        self.unix_nanos = ntp_to_unix(stamp.seconds, stamp.fraction);
    }
}

} // verus!
