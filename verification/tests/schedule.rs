use ntp_clock::schedule::{next_turn, Turn, RESYNC_NANOS, TICK_NANOS};

#[test]
fn loop_spins_until_a_millisecond_has_passed() {
    assert_eq!(TICK_NANOS, 1_000_000);
    assert_eq!(next_turn(0, 0), Turn::Spin);
    assert_eq!(next_turn(999_999, 0), Turn::Spin);
    assert_eq!(next_turn(999_999, u128::MAX), Turn::Spin);
    assert_eq!(next_turn(1_000_000, 0), Turn::Advance);
    assert_eq!(next_turn(u128::MAX, 0), Turn::Advance);
}

#[test]
fn loop_resyncs_once_an_hour_is_over() {
    assert_eq!(RESYNC_NANOS, 3_600_000_000_000);
    assert_eq!(next_turn(1_000_000, 3_600_000_000_000), Turn::Advance);
    assert_eq!(next_turn(1_000_000, 3_600_000_000_001), Turn::ResyncAndAdvance);
    assert_eq!(next_turn(5_000_000, u128::MAX), Turn::ResyncAndAdvance);
}
