use crate::convert::{
    decimal, is_digit, lemma_decimal_is_digits, lemma_decimal_spells_value, numeral_value, Month,
};
use vstd::arithmetic::power::{lemma_pow0, lemma_pow1, lemma_pow_adds, pow};
use vstd::prelude::*;

verus! {

/// Nanoseconds in an hour.
pub const NANOS_PER_HOUR: i128 = 3_600_000_000_000;

/// Nanoseconds in a day.
pub const NANOS_PER_DAY: i128 = 86_400_000_000_000;

/// Nanoseconds from the Unix epoch to 10000-01-01 00:00:00: the first instant
/// that no longer has a four-digit year.
pub const END_OF_TIME: i128 = 253_402_300_800_000_000_000;

/// The largest offset from UTC, in hours either way.
pub const MAX_OFFSET_HOURS: i8 = 25;

/// The year of the Gregorian date that lies `days` days after 1970-01-01.
pub uninterp spec fn calendar_year(days: int) -> int;

/// The month, from 1 to 12, of the Gregorian date that lies `days` days after
/// 1970-01-01.
pub uninterp spec fn calendar_month(days: int) -> int;

/// The day of the month of the Gregorian date that lies `days` days after
/// 1970-01-01.
pub uninterp spec fn calendar_day(days: int) -> int;

/// Nanoseconds since the Unix epoch on a clock that runs `offset_hours` hours
/// ahead of UTC, at the instant `unix_nanos`.
pub open spec fn local_nanos(unix_nanos: int, offset_hours: int) -> int {
    unix_nanos + offset_hours * NANOS_PER_HOUR
}

/// Whether the instant `unix_nanos`, not before the Unix epoch, can be shown
/// at the offset `offset_hours`: the offset is one that exists, and the year
/// has four digits both in UTC and on the local clock.
pub open spec fn representable(unix_nanos: int, offset_hours: int) -> bool {
    &&& 0 <= unix_nanos < END_OF_TIME
    &&& -MAX_OFFSET_HOURS <= offset_hours <= MAX_OFFSET_HOURS
    &&& local_nanos(unix_nanos, offset_hours) < END_OF_TIME
}

/// The seven fields, in display order, that the `time` crate reads off the
/// instant `unix_nanos` shown at `offset_hours` hours from UTC:
/// `OffsetDateTime::from_unix_timestamp_nanos`, moved by `to_offset` to
/// `UtcOffset::from_hms(offset_hours, 0, 0)`, then `year`, `month`, `day`,
/// `hour`, `minute`, `second` and `millisecond`.
///
/// Trusted: the time of day is the local nanosecond count taken apart by
/// division; year, month and day are those of the local day in the Gregorian
/// calendar, which the contract names and bounds but does not compute.
#[verifier::external_body]
pub(crate) fn civil_from_unix(unix_nanos: i128, offset_hours: i8) -> (civil: (
    i32,
    u8,
    u8,
    u8,
    u8,
    u8,
    u16,
))
    requires
        representable(unix_nanos as int, offset_hours as int),
    ensures
        civil.0 == calendar_year(local_nanos(unix_nanos as int, offset_hours as int) / (NANOS_PER_DAY as int)),
        civil.1 == calendar_month(local_nanos(unix_nanos as int, offset_hours as int) / (NANOS_PER_DAY as int)),
        civil.2 == calendar_day(local_nanos(unix_nanos as int, offset_hours as int) / (NANOS_PER_DAY as int)),
        civil.3 == (local_nanos(unix_nanos as int, offset_hours as int) / (NANOS_PER_HOUR as int)) % 24,
        civil.4 == (local_nanos(unix_nanos as int, offset_hours as int) / 60_000_000_000) % 60,
        civil.5 == (local_nanos(unix_nanos as int, offset_hours as int) / 1_000_000_000) % 60,
        civil.6 == (local_nanos(unix_nanos as int, offset_hours as int) / 1_000_000) % 1000,
        1969 <= civil.0 <= 9999,
        1 <= civil.1 <= 12,
        1 <= civil.2 <= 31,
{
    let utc = time::OffsetDateTime::from_unix_timestamp_nanos(unix_nanos).unwrap();
    let date = utc.to_offset(time::UtcOffset::from_hms(offset_hours, 0, 0).unwrap());
    (
        date.year(),
        date.month() as u8,
        date.day(),
        date.hour(),
        date.minute(),
        date.second(),
        date.millisecond(),
    )
}

/// A date and a time of day, field by field as the display shows them.
#[derive(Clone, Copy, Debug, PartialEq, Eq, Structural)]
pub struct Fields {
    pub year: i32,
    pub month: Month,
    pub day: u8,
    pub hour: u8,
    pub minute: u8,
    pub second: u8,
    pub millisecond: u16,
}

impl Fields {
    /// The seventeen characters that show the fields: each field as a numeral
    /// of its width, in display order.
    pub open spec fn numeral(&self) -> Seq<u8> {
        decimal(self.year as nat, 4) + decimal(self.month.ordinal() as nat, 2) + decimal(
            self.day as nat,
            2,
        ) + decimal(self.hour as nat, 2) + decimal(self.minute as nat, 2) + decimal(
            self.second as nat,
            2,
        ) + decimal(self.millisecond as nat, 3)
    }

    /// The characters that show the fields are seventeen digits.
    pub proof fn lemma_numeral_is_digits(&self)
        ensures
            self.numeral().len() == 17,
            forall|i: int| 0 <= i < 17 ==> is_digit(#[trigger] self.numeral()[i]),
    {
        lemma_decimal_is_digits(self.year as nat, 4);
        lemma_decimal_is_digits(self.month.ordinal() as nat, 2);
        lemma_decimal_is_digits(self.day as nat, 2);
        lemma_decimal_is_digits(self.hour as nat, 2);
        lemma_decimal_is_digits(self.minute as nat, 2);
        lemma_decimal_is_digits(self.second as nat, 2);
        lemma_decimal_is_digits(self.millisecond as nat, 3);
    }

    /// Whether every field has room in its place on the display.
    pub open spec fn fits(&self) -> bool {
        &&& 0 <= self.year <= 9999
        &&& self.day <= 99
        &&& self.hour <= 99
        &&& self.minute <= 99
        &&& self.second <= 99
        &&& self.millisecond <= 999
    }

    /// Fields that have room on the display can be read back off it: each
    /// place spells the field that it shows.
    pub proof fn lemma_numeral_reads_back(&self)
        requires
            self.fits(),
        ensures
            numeral_value(self.numeral().subrange(0, 4)) == self.year,
            numeral_value(self.numeral().subrange(4, 6)) == self.month.ordinal(),
            numeral_value(self.numeral().subrange(6, 8)) == self.day,
            numeral_value(self.numeral().subrange(8, 10)) == self.hour,
            numeral_value(self.numeral().subrange(10, 12)) == self.minute,
            numeral_value(self.numeral().subrange(12, 14)) == self.second,
            numeral_value(self.numeral().subrange(14, 17)) == self.millisecond,
    {
        let shown = self.numeral();
        assert(pow(10, 2) == 100 && pow(10, 3) == 1000 && pow(10, 4) == 10000) by {
            lemma_pow0(10);
            lemma_pow1(10);
            lemma_pow_adds(10, 1, 1);
            lemma_pow_adds(10, 2, 1);
            lemma_pow_adds(10, 3, 1);
        }
        assert(shown.subrange(0, 4) =~= decimal(self.year as nat, 4));
        assert(shown.subrange(4, 6) =~= decimal(self.month.ordinal() as nat, 2));
        assert(shown.subrange(6, 8) =~= decimal(self.day as nat, 2));
        assert(shown.subrange(8, 10) =~= decimal(self.hour as nat, 2));
        assert(shown.subrange(10, 12) =~= decimal(self.minute as nat, 2));
        assert(shown.subrange(12, 14) =~= decimal(self.second as nat, 2));
        assert(shown.subrange(14, 17) =~= decimal(self.millisecond as nat, 3));
        lemma_decimal_spells_value(self.year as nat, 4);
        lemma_decimal_spells_value(self.month.ordinal() as nat, 2);
        lemma_decimal_spells_value(self.day as nat, 2);
        lemma_decimal_spells_value(self.hour as nat, 2);
        lemma_decimal_spells_value(self.minute as nat, 2);
        lemma_decimal_spells_value(self.second as nat, 2);
        lemma_decimal_spells_value(self.millisecond as nat, 3);
    }
}

} // verus!
