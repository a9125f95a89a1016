use ntp_clock::rand::XorShift;

fn reference(mut x: u32) -> u32 {
    x ^= x << 13;
    x ^= x >> 17;
    x ^= x << 5;
    x
}

#[test]
fn zero_seed_is_refused() {
    assert!(XorShift::new(0).is_none());
    assert!(XorShift::new(1).is_some());
    assert!(XorShift::new(u32::MAX).is_some());
}

#[test]
fn first_words_from_seed_one() {
    let mut rng = XorShift::new(1).unwrap();
    assert_eq!(rng.rand(), 270369);
    assert_eq!(rng.rand(), 67634689);
}

#[test]
fn words_follow_the_transform() {
    let mut rng = XorShift::new(0xDEADBEEF).unwrap();
    let mut state = 0xDEADBEEFu32;
    for _ in 0..1000 {
        state = reference(state);
        assert_ne!(state, 0);
        assert_eq!(rng.rand(), state);
    }
}

#[test]
fn states_do_not_repeat_early() {
    let mut rng = XorShift::new(2463534242).unwrap();
    let mut seen = std::collections::HashSet::new();
    for _ in 0..100_000 {
        assert!(seen.insert(rng.rand()));
    }
}

#[test]
fn range_draw_is_start_plus_remainder() {
    let mut rng = XorShift::new(1).unwrap();
    assert_eq!(rng.rand_range(1..9999), 1 + 270369 % 9998);
    assert_eq!(rng.rand_range(10..12), 10 + 67634689 % 2);
}

#[test]
fn range_draw_stays_in_range() {
    let mut rng = XorShift::new(12345).unwrap();
    for (lo, hi) in [(0u32, 1u32), (1, 12), (1, 9999), (5, 6), (0, u32::MAX), (u32::MAX - 1, u32::MAX)] {
        for _ in 0..200 {
            let value = rng.rand_range(lo..hi);
            assert!(lo <= value && value < hi);
        }
    }
}
