use ntp_clock::convert::{encode, Month, Serialize};

fn text(buf: &[u8]) -> String {
    String::from_utf8(buf.to_vec()).unwrap()
}

#[test]
fn zero_fills_the_width() {
    let mut buf = [b'x'; 4];
    0u32.serialize(&mut buf);
    assert_eq!(text(&buf), "0000");
}

#[test]
fn small_value_is_padded_on_the_left() {
    let mut buf = [b'x'; 4];
    7u32.serialize(&mut buf);
    assert_eq!(text(&buf), "0007");
}

#[test]
fn wide_value_keeps_its_low_order_digits() {
    let mut buf = [b'x'; 4];
    12345u32.serialize(&mut buf);
    assert_eq!(text(&buf), "2345");
}

#[test]
fn value_that_fits_exactly() {
    let mut buf = [0u8; 4];
    9999u16.serialize(&mut buf);
    assert_eq!(text(&buf), "9999");
}

#[test]
fn empty_buffer_stays_empty() {
    let mut buf: [u8; 0] = [];
    42u8.serialize(&mut buf);
    assert_eq!(buf.len(), 0);
}

#[test]
fn every_unsigned_width_encodes() {
    let mut buf = [0u8; 3];
    255u8.serialize(&mut buf);
    assert_eq!(text(&buf), "255");
    let mut buf = [0u8; 5];
    65535u16.serialize(&mut buf);
    assert_eq!(text(&buf), "65535");
    let mut buf = [0u8; 10];
    u32::MAX.serialize(&mut buf);
    assert_eq!(text(&buf), "4294967295");
    let mut buf = [0u8; 20];
    u64::MAX.serialize(&mut buf);
    assert_eq!(text(&buf), "18446744073709551615");
    let mut buf = [0u8; 40];
    u128::MAX.serialize(&mut buf);
    assert_eq!(text(&buf), "0340282366920938463463374607431768211455");
}

#[test]
fn signed_values_that_are_not_negative_encode() {
    let mut buf = [0u8; 3];
    127i8.serialize(&mut buf);
    assert_eq!(text(&buf), "127");
    let mut buf = [0u8; 6];
    32767i16.serialize(&mut buf);
    assert_eq!(text(&buf), "032767");
    let mut buf = [0u8; 4];
    2024i32.serialize(&mut buf);
    assert_eq!(text(&buf), "2024");
    let mut buf = [0u8; 19];
    i64::MAX.serialize(&mut buf);
    assert_eq!(text(&buf), "9223372036854775807");
    let mut buf = [0u8; 39];
    i128::MAX.serialize(&mut buf);
    assert_eq!(text(&buf), "170141183460469231731687303715884105727");
}

#[test]
fn encode_writes_exactly_the_buffer() {
    let mut buf = [b'-'; 6];
    encode(31, &mut buf[2..4]);
    assert_eq!(text(&buf), "--31--");
}

#[test]
fn encode_gives_digits_only() {
    for value in [0u128, 1, 9, 10, 99, 100, 12345, u128::MAX] {
        for width in 0..8usize {
            let mut buf = vec![0u8; width];
            encode(value, &mut buf);
            assert_eq!(buf.len(), width);
            assert!(buf.iter().all(|b| b.is_ascii_digit()));
            let shown = if width == 0 { 0 } else { text(&buf).parse::<u128>().unwrap() };
            assert_eq!(shown, value % 10u128.pow(width as u32));
        }
    }
}

#[test]
fn months_are_numbered_from_one() {
    assert_eq!(Month::January.number(), 1);
    assert_eq!(Month::June.number(), 6);
    assert_eq!(Month::December.number(), 12);
    for n in 1..=12u8 {
        assert_eq!(Month::from_number(n).unwrap().number(), n);
    }
    assert_eq!(Month::from_number(0), None);
    assert_eq!(Month::from_number(13), None);
    assert_eq!(Month::from_number(255), None);
}

#[test]
fn month_encodes_as_its_number() {
    let mut buf = [0u8; 2];
    Month::January.serialize(&mut buf);
    assert_eq!(text(&buf), "01");
    Month::December.serialize(&mut buf);
    assert_eq!(text(&buf), "12");
}
