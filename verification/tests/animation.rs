use ntp_clock::animation::{Resync, FRAMES, SHUFFLE_FRAMES};
use ntp_clock::date::{NetworkTimestamp, Time};
use ntp_clock::device::Device;
use ntp_clock::rand::XorShift;

const SERVER: &str = "es.pool.ntp.org:123";

// 2024-01-02T03:04:05.006 UTC
const STAMP: NetworkTimestamp =
    NetworkTimestamp { seconds: 1704164645 + 2208988800, fraction: 25769804 };

const TARGET: &str = "20240102050405006";

const STARTS: [usize; 8] = [0, 4, 6, 8, 10, 12, 14, 17];

const BOUNDS: [u32; 7] = [9999, 12, 30, 24, 60, 60, 999];

fn text(device: &Device) -> String {
    String::from_utf8(device.data().to_vec()).unwrap()
}

fn clock() -> Time {
    let mut clock = Time::new(SERVER, NetworkTimestamp { seconds: 2208988800 + 1000, fraction: 0 });
    clock.set_offset(2);
    clock
}

fn transform(mut x: u32) -> u32 {
    x ^= x << 13;
    x ^= x >> 17;
    x ^= x << 5;
    x
}

// Redraws the fields from `first` on, as the library is meant to.
fn redraw(shown: &mut Vec<u8>, state: &mut u32, first: usize) {
    for field in first..7 {
        *state = transform(*state);
        let value = 1 + *state % (BOUNDS[field] - 1);
        let width = STARTS[field + 1] - STARTS[field];
        let digits = format!("{:0width$}", value, width = width);
        shown[STARTS[field]..STARTS[field + 1]].copy_from_slice(digits.as_bytes());
    }
}

fn run(resync: &mut Resync, device: &mut Device) -> Vec<(String, u64)> {
    let mut frames = Vec::new();
    while let Some(hold) = resync.next_frame(device) {
        frames.push((text(device), hold));
        assert!(frames.len() <= 1000);
    }
    frames
}

#[test]
fn animation_has_a_frame_for_each_interval_and_each_character() {
    let mut resync = clock().sync(STAMP, XorShift::new(7).unwrap());
    let mut device = Device::default();
    let frames = run(&mut resync, &mut device);
    assert_eq!(FRAMES, 15 + 17);
    assert_eq!(SHUFFLE_FRAMES, 15);
    assert_eq!(frames.len(), 32);
    assert!(resync.is_done());
    assert_eq!(resync.next_frame(&mut device), None);
    assert_eq!(resync.next_frame(&mut device), None);
}

#[test]
fn animation_holds_each_frame_for_its_interval() {
    let mut resync = clock().sync(STAMP, XorShift::new(7).unwrap());
    let mut device = Device::default();
    let frames = run(&mut resync, &mut device);
    let holds: Vec<u64> = frames.iter().map(|f| f.1).collect();
    let mut expected = vec![100, 90, 80, 70, 70, 60, 60, 50, 50, 40, 40, 30, 30, 20, 20];
    expected.extend([50u64; 17]);
    assert_eq!(holds, expected);
}

#[test]
fn animation_ends_on_the_target_without_noise() {
    for seed in [1u32, 7, 0xDEADBEEF, u32::MAX] {
        let mut resync = clock().sync(STAMP, XorShift::new(seed).unwrap());
        let mut device = Device::default();
        let frames = run(&mut resync, &mut device);
        assert_eq!(frames[31].0, TARGET);
        assert_eq!(text(&device), TARGET);
    }
}

#[test]
fn reveal_fixes_one_more_character_with_each_frame() {
    let mut resync = clock().sync(STAMP, XorShift::new(99).unwrap());
    let mut device = Device::default();
    let frames = run(&mut resync, &mut device);
    for place in 0..17 {
        let shown = &frames[15 + place].0;
        assert_eq!(&shown[..place + 1], &TARGET[..place + 1]);
    }
}

#[test]
fn every_frame_is_seventeen_digits() {
    let mut resync = clock().sync(STAMP, XorShift::new(3).unwrap());
    let mut device = Device::default();
    for (shown, _) in run(&mut resync, &mut device) {
        assert_eq!(shown.len(), 17);
        assert!(shown.bytes().all(|b| b.is_ascii_digit()));
    }
}

#[test]
fn frames_follow_the_generator() {
    let seed = 2463534242u32;
    let mut resync = clock().sync(STAMP, XorShift::new(seed).unwrap());
    let mut device = Device::default();
    let frames = run(&mut resync, &mut device);
    let mut state = seed;
    let mut shown = vec![b'0'; 17];
    for frame in 0..32 {
        if frame < 15 {
            redraw(&mut shown, &mut state, 0);
        } else {
            let place = frame - 15;
            let field = (0..7).find(|f| place < STARTS[f + 1]).unwrap();
            redraw(&mut shown, &mut state, field);
            shown[..place + 1].copy_from_slice(&TARGET.as_bytes()[..place + 1]);
        }
        assert_eq!(frames[frame].0.as_bytes(), &shown[..]);
    }
}

#[test]
fn first_shuffle_frame_from_seed_one() {
    let mut resync = clock().sync(STAMP, XorShift::new(1).unwrap());
    let mut device = Device::default();
    resync.next_frame(&mut device);
    // The first two words from seed 1 are 270369 and 67634689.
    let year = 1 + 270369 % 9998;
    let month = 1 + 67634689 % 11;
    assert_eq!(&text(&device)[..6], format!("{:04}{:02}", year, month));
}

#[test]
fn shuffle_noise_stays_below_its_bounds() {
    let mut resync = clock().sync(STAMP, XorShift::new(424242).unwrap());
    let mut device = Device::default();
    let frames = run(&mut resync, &mut device);
    for (shown, _) in &frames[..15] {
        for field in 0..7 {
            let value: u32 = shown[STARTS[field]..STARTS[field + 1]].parse().unwrap();
            assert!(1 <= value && value < BOUNDS[field]);
        }
    }
}

#[test]
fn clock_is_untouched_until_the_finish() {
    let mut clock = clock();
    let mut resync = clock.sync(STAMP, XorShift::new(5).unwrap());
    let mut device = Device::default();
    run(&mut resync, &mut device);
    let mut shown = Device::default();
    clock.update(&mut shown, 0);
    assert_eq!(text(&shown), "19700101021640000");
}

#[test]
fn finish_sets_the_clock_and_adds_the_elapsed_time() {
    let mut clock = clock();
    let mut resync = clock.sync(STAMP, XorShift::new(5).unwrap());
    let mut device = Device::default();
    let frames = run(&mut resync, &mut device);
    let elapsed: u128 = frames.iter().map(|f| f.1 as u128 * 1_000_000).sum();
    assert_eq!(elapsed, 1_660_000_000);
    assert!(resync.can_finish(&clock, elapsed));
    resync.finish(&mut clock, &mut device, elapsed);
    assert_eq!(text(&device), "20240102050406666");
    assert_eq!(clock.offset_hours(), 2);
    clock.update(&mut device, 0);
    assert_eq!(text(&device), "20240102050406666");
}

#[test]
fn finish_waits_for_the_last_frame() {
    let clock = clock();
    let mut resync = clock.sync(STAMP, XorShift::new(5).unwrap());
    let mut device = Device::default();
    for _ in 0..31 {
        assert!(!resync.is_done());
        assert!(!resync.can_finish(&clock, 0));
        assert!(resync.next_frame(&mut device).is_some());
    }
    assert!(!resync.can_finish(&clock, 0));
    assert!(resync.next_frame(&mut device).is_some());
    assert!(resync.is_done());
    assert!(resync.can_finish(&clock, 0));
    assert!(!resync.can_finish(&clock, 253_402_300_800_000_000_000));
    assert!(!resync.can_finish(&clock, u128::MAX));
}
