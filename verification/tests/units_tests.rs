use vivarium::units::{celsius_raw_to_tenths_f, humi_raw_to_tenths, write_tenths};

fn tenths(value: i16, suffix: u8, buf_len: usize) -> (usize, Vec<u8>) {
    let mut buf = vec![b'#'; buf_len];
    let n = write_tenths(&mut buf, value, suffix);
    (n, buf)
}

#[test]
fn celsius_full_scale_endpoints() {
    // -45 C is -49.0 F, 130 C is 266.0 F.
    assert_eq!(celsius_raw_to_tenths_f(0), -490);
    assert_eq!(celsius_raw_to_tenths_f(65535), 2660);
}

#[test]
fn celsius_room_temperature() {
    // 0x6666 is 25.0 C, i.e. 77.0 F.
    assert_eq!(celsius_raw_to_tenths_f(0x6666), 770);
}

#[test]
fn celsius_truncates_toward_zero_below_freezing() {
    // raw 1: -44.998 C -> -80.9964 + 32 = -48.996 F, truncated to -48.9.
    assert_eq!(celsius_raw_to_tenths_f(1), -489);
}

#[test]
fn celsius_high_raw_values_do_not_overflow() {
    // 175000 * raw exceeds i32 for raw > 12271; the datasheet formula still holds.
    assert_eq!(celsius_raw_to_tenths_f(20000), 471);
    assert_eq!(celsius_raw_to_tenths_f(40000), 1432);
}

#[test]
fn celsius_is_monotonic_on_samples() {
    let mut previous = celsius_raw_to_tenths_f(0);
    let mut raw: u32 = 0;
    while raw <= 65535 {
        let t = celsius_raw_to_tenths_f(raw as u16);
        assert!(t >= previous);
        assert!((-490..=2660).contains(&t));
        previous = t;
        raw += 97;
    }
}

#[test]
fn humidity_endpoints_and_midpoint() {
    assert_eq!(humi_raw_to_tenths(0), 0);
    assert_eq!(humi_raw_to_tenths(65535), 1000);
    assert_eq!(humi_raw_to_tenths(32768), 500);
    assert_eq!(humi_raw_to_tenths(65534), 999);
}

#[test]
fn humidity_is_monotonic_on_samples() {
    let mut previous = 0;
    let mut raw: u32 = 0;
    while raw <= 65535 {
        let h = humi_raw_to_tenths(raw as u16);
        assert!(h >= previous && h <= 1000);
        previous = h;
        raw += 131;
    }
}

#[test]
fn write_tenths_positive() {
    let (n, buf) = tenths(752, b'F', 12);
    assert_eq!(n, 5);
    assert_eq!(&buf[..n], b"75.2F");
    assert_eq!(&buf[n..], b"#######");
}

#[test]
fn write_tenths_zero_and_small() {
    let (n, buf) = tenths(0, b'%', 12);
    assert_eq!(&buf[..n], b"0.0%");
    let (n, buf) = tenths(7, b'%', 12);
    assert_eq!(&buf[..n], b"0.7%");
}

#[test]
fn write_tenths_negative() {
    let (n, buf) = tenths(-5, b'F', 12);
    assert_eq!(&buf[..n], b"-0.5F");
    let (n, buf) = tenths(-490, b'F', 12);
    assert_eq!(&buf[..n], b"-49.0F");
}

#[test]
fn write_tenths_extremes_fit_eight_bytes() {
    let (n, buf) = tenths(i16::MIN, b'F', 8);
    assert_eq!(n, 8);
    assert_eq!(&buf[..], b"-3276.8F");
    let (n, buf) = tenths(i16::MAX, b'%', 8);
    assert_eq!(&buf[..n], b"3276.7%");
}

#[test]
fn write_tenths_is_ascii() {
    for value in [i16::MIN, -1234, -1, 0, 9, 10, 999, 32767] {
        let (n, buf) = tenths(value, b'%', 12);
        assert!(buf[..n].iter().all(|b| (32..127).contains(b)));
    }
}

#[test]
fn write_tenths_truncates_to_buffer() {
    let (n, buf) = tenths(752, b'F', 3);
    assert_eq!(n, 3);
    assert_eq!(&buf[..], b"75.");
    let (n, buf) = tenths(12345, b'F', 2);
    assert_eq!(n, 2);
    assert_eq!(&buf[..], b"12");
    let (n, buf) = tenths(-752, b'F', 1);
    assert_eq!(n, 1);
    assert_eq!(&buf[..], b"-");
    let (n, _) = tenths(-752, b'F', 0);
    assert_eq!(n, 0);
    let (n, buf) = tenths(752, b'F', 4);
    assert_eq!(n, 4);
    assert_eq!(&buf[..], b"75.2");
}
