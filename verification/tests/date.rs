use ntp_clock::calendar::Fields;
use ntp_clock::convert::Month;
use ntp_clock::date::{ntp_to_unix, NetworkTimestamp, Time, NTP_UNIX_DELTA};
use ntp_clock::device::Device;

fn text(device: &Device) -> String {
    String::from_utf8(device.data().to_vec()).unwrap()
}

const SERVER: &str = "es.pool.ntp.org:123";

// 2024-01-02T03:04:05 UTC
const STAMP_SECONDS: u32 = 1704164645 + 2208988800;

// The smallest fraction that amounts to six milliseconds.
const SIX_MILLIS: u32 = 25769804;

#[test]
fn ntp_epoch_boundary_is_unix_zero() {
    assert_eq!(ntp_to_unix(2208988800, 0), 0);
}

#[test]
fn ntp_conversion_has_microsecond_resolution() {
    assert_eq!(ntp_to_unix(2208988801, 0), 1_000_000_000);
    assert_eq!(ntp_to_unix(2208988801, 1 << 31), 1_500_000_000);
    assert_eq!(ntp_to_unix(2208988800, 1), 0);
    assert_eq!(ntp_to_unix(2208988800, 4295), 1_000);
    assert_eq!(ntp_to_unix(2208988800, 4294), 0);
    assert_eq!(ntp_to_unix(2208988800, u32::MAX), 999_999_000);
    assert_eq!(ntp_to_unix(u32::MAX, u32::MAX), 2_085_978_495_999_999_000);
}

#[test]
fn ntp_conversion_never_goes_back() {
    let seconds = [NTP_UNIX_DELTA, NTP_UNIX_DELTA + 1, STAMP_SECONDS, u32::MAX];
    let fractions = [0u32, 1, 4294, 4295, 1 << 31, u32::MAX];
    let mut last = -1i128;
    for s in seconds {
        for f in fractions {
            let nanos = ntp_to_unix(s, f);
            assert!(nanos >= last);
            last = nanos;
        }
    }
}

#[test]
fn timestamp_validity_is_the_epoch_test() {
    assert!(NetworkTimestamp { seconds: NTP_UNIX_DELTA, fraction: 0 }.is_valid());
    assert!(NetworkTimestamp { seconds: u32::MAX, fraction: 7 }.is_valid());
    assert!(!NetworkTimestamp { seconds: NTP_UNIX_DELTA - 1, fraction: u32::MAX }.is_valid());
    assert!(!NetworkTimestamp { seconds: 0, fraction: 0 }.is_valid());
}

#[test]
fn advance_shows_the_time_at_the_offset() {
    let stamp = NetworkTimestamp { seconds: STAMP_SECONDS, fraction: SIX_MILLIS };
    let mut clock = Time::new(SERVER, stamp);
    assert!(clock.accepts_offset(2));
    clock.set_offset(2);
    let mut device = Device::default();
    clock.update(&mut device, 0);
    assert_eq!(text(&device), "20240102050405006");
}

#[test]
fn advance_adds_the_elapsed_time() {
    let stamp = NetworkTimestamp { seconds: STAMP_SECONDS, fraction: 0 };
    let mut clock = Time::new(SERVER, stamp);
    clock.set_offset(2);
    let mut device = Device::default();
    assert!(clock.can_advance(6_000_000));
    clock.update(&mut device, 6_000_000);
    assert_eq!(text(&device), "20240102050405006");
    clock.update(&mut device, 994_000_000);
    assert_eq!(text(&device), "20240102050406000");
    clock.update(&mut device, 86_400_000_000_000);
    assert_eq!(text(&device), "20240103050406000");
    clock.update(&mut device, 999_999);
    assert_eq!(text(&device), "20240103050406000");
    clock.update(&mut device, 1);
    assert_eq!(text(&device), "20240103050406001");
}

#[test]
fn advance_is_the_same_on_every_run() {
    let stamp = NetworkTimestamp { seconds: STAMP_SECONDS, fraction: SIX_MILLIS };
    let mut shown = Vec::new();
    for _ in 0..3 {
        let mut clock = Time::new(SERVER, stamp);
        clock.set_offset(2);
        let mut device = Device::default();
        clock.update(&mut device, 123_456_789_000);
        shown.push(text(&device));
    }
    assert_eq!(shown[0], "20240102050608462");
    assert_eq!(shown[0], shown[1]);
    assert_eq!(shown[1], shown[2]);
}

#[test]
fn new_clock_shows_utc() {
    let stamp = NetworkTimestamp { seconds: STAMP_SECONDS, fraction: SIX_MILLIS };
    let clock = Time::new(SERVER, stamp);
    assert_eq!(clock.server, SERVER);
    assert_eq!(clock.offset_hours(), 0);
    assert_eq!(
        clock.read(),
        Fields {
            year: 2024,
            month: Month::January,
            day: 2,
            hour: 3,
            minute: 4,
            second: 5,
            millisecond: 6,
        }
    );
}

#[test]
fn offset_moves_the_date_both_ways() {
    let stamp = NetworkTimestamp { seconds: STAMP_SECONDS, fraction: 0 };
    let mut clock = Time::new(SERVER, stamp);
    let mut device = Device::default();
    clock.set_offset(-4);
    clock.update(&mut device, 0);
    assert_eq!(text(&device), "20240101230405000");
    clock.set_offset(21);
    clock.update(&mut device, 0);
    assert_eq!(text(&device), "20240103000405000");
    clock.set_offset(25);
    assert_eq!(clock.offset_hours(), 25);
    clock.update(&mut device, 0);
    assert_eq!(text(&device), "20240103040405000");
    clock.set_offset(-25);
    clock.update(&mut device, 0);
    assert_eq!(text(&device), "20240101020405000");
}

#[test]
fn offsets_beyond_a_day_and_an_hour_are_refused() {
    let clock = Time::new(SERVER, NetworkTimestamp { seconds: STAMP_SECONDS, fraction: 0 });
    assert!(clock.accepts_offset(25));
    assert!(clock.accepts_offset(-25));
    assert!(clock.accepts_offset(0));
    assert!(!clock.accepts_offset(26));
    assert!(!clock.accepts_offset(-26));
    assert!(!clock.accepts_offset(i8::MAX));
    assert!(!clock.accepts_offset(i8::MIN));
}

#[test]
fn epoch_at_a_negative_offset_shows_the_year_before() {
    let mut clock = Time::new(SERVER, NetworkTimestamp { seconds: NTP_UNIX_DELTA, fraction: 0 });
    let mut device = Device::default();
    clock.update(&mut device, 0);
    assert_eq!(text(&device), "19700101000000000");
    clock.set_offset(-25);
    clock.update(&mut device, 0);
    assert_eq!(text(&device), "19691230230000000");
}

#[test]
fn clock_runs_to_the_end_of_the_last_year() {
    let mut clock = Time::new(SERVER, NetworkTimestamp { seconds: NTP_UNIX_DELTA, fraction: 0 });
    let mut device = Device::default();
    let end: u128 = 253_402_300_800_000_000_000;
    assert!(clock.can_advance(end - 1));
    assert!(!clock.can_advance(end));
    assert!(!clock.can_advance(u128::MAX));
    clock.update(&mut device, end - 1);
    assert_eq!(text(&device), "99991231235959999");
    assert!(clock.can_advance(0));
    assert!(!clock.can_advance(1));
    assert!(!clock.accepts_offset(1));
    assert!(clock.accepts_offset(-1));
    clock.set_offset(-25);
    clock.update(&mut device, 0);
    assert_eq!(text(&device), "99991230225959999");
}

#[test]
fn positive_offset_ends_the_range_earlier() {
    let mut clock = Time::new(SERVER, NetworkTimestamp { seconds: NTP_UNIX_DELTA, fraction: 0 });
    clock.set_offset(1);
    let end: u128 = 253_402_300_800_000_000_000;
    let hour: u128 = 3_600_000_000_000;
    assert!(clock.can_advance(end - hour - 1));
    assert!(!clock.can_advance(end - hour));
    let mut device = Device::default();
    clock.update(&mut device, end - hour - 1);
    assert_eq!(text(&device), "99991231235959999");
}

#[test]
fn fields_agree_with_the_calendar() {
    let mut clock = Time::new(SERVER, NetworkTimestamp { seconds: NTP_UNIX_DELTA, fraction: 0 });
    clock.set_offset(-7);
    let mut nanos: i128 = 0;
    let step: u128 = 86_400_000_000_000 * 29 + 3_723_004_005_006;
    let mut device = Device::default();
    for _ in 0..2000 {
        clock.update(&mut device, step);
        nanos += step as i128;
        let date = time::OffsetDateTime::from_unix_timestamp_nanos(nanos)
            .unwrap()
            .to_offset(time::UtcOffset::from_hms(-7, 0, 0).unwrap());
        let fields = clock.read();
        assert_eq!(fields.year, date.year());
        assert_eq!(fields.month.number(), date.month() as u8);
        assert_eq!(fields.day, date.day());
        assert_eq!(fields.hour, date.hour());
        assert_eq!(fields.minute, date.minute());
        assert_eq!(fields.second, date.second());
        assert_eq!(fields.millisecond, date.millisecond());
        let expected = format!(
            "{:04}{:02}{:02}{:02}{:02}{:02}{:03}",
            date.year(),
            date.month() as u8,
            date.day(),
            date.hour(),
            date.minute(),
            date.second(),
            date.millisecond()
        );
        assert_eq!(text(&device), expected);
    }
}

#[test]
fn time_of_day_is_the_local_count_taken_apart() {
    let mut clock = Time::new(SERVER, NetworkTimestamp { seconds: NTP_UNIX_DELTA, fraction: 0 });
    clock.set_offset(-3);
    let mut nanos: i128 = 0;
    for step in [0u128, 1, 999_999, 1_000_000, 59_999_000_000, 3_599_000_000_000, 86_399_999_999_999] {
        let mut device = Device::default();
        clock.update(&mut device, step);
        nanos += step as i128;
        let local = nanos - 3 * 3_600_000_000_000;
        let fields = clock.read();
        assert_eq!(fields.hour as i128, local.div_euclid(3_600_000_000_000).rem_euclid(24));
        assert_eq!(fields.minute as i128, local.div_euclid(60_000_000_000).rem_euclid(60));
        assert_eq!(fields.second as i128, local.div_euclid(1_000_000_000).rem_euclid(60));
        assert_eq!(fields.millisecond as i128, local.div_euclid(1_000_000).rem_euclid(1000));
    }
}

#[test]
fn silent_resync_keeps_the_offset() {
    let mut clock = Time::new(SERVER, NetworkTimestamp { seconds: NTP_UNIX_DELTA, fraction: 0 });
    clock.set_offset(2);
    let mut device = Device::default();
    clock.update(&mut device, 5_000_000_000);
    clock.sync_simple(NetworkTimestamp { seconds: STAMP_SECONDS, fraction: SIX_MILLIS });
    assert_eq!(clock.offset_hours(), 2);
    assert_eq!(clock.server, SERVER);
    assert_eq!(text(&device), "19700101020005000");
    clock.update(&mut device, 0);
    assert_eq!(text(&device), "20240102050405006");
}

#[test]
fn display_starts_with_zeros() {
    let device = Device::default();
    assert_eq!(text(&device), "00000000000000000");
}

#[test]
fn show_truncates_fields_that_are_too_wide() {
    let mut device = Device::default();
    device.show(&Fields {
        year: 12345,
        month: Month::December,
        day: 255,
        hour: 100,
        minute: 7,
        second: 0,
        millisecond: 65535,
    });
    assert_eq!(text(&device), "23451255000700535");
}
