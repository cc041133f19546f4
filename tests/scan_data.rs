use scanner::calendar::{days_to_ymd, iso8601_at, iso8601_now};
use scanner::card::hex_upper;
use scanner::port::usb_port_to_int;

#[test]
fn test_hex_upper() {
    assert_eq!(hex_upper(&[0x01, 0x13, 0xAB, 0xFF]), "0113ABFF");
    assert_eq!(hex_upper(&[]), "");
    assert_eq!(hex_upper(&[0x00]), "00");
}

#[test]
fn test_usb_port_to_int_known() {
    assert_eq!(usb_port_to_int("1-1.4"), Some(1));
    assert_eq!(usb_port_to_int("1-1.2"), Some(2));
    assert_eq!(usb_port_to_int("1-1.1"), Some(3));
    assert_eq!(usb_port_to_int("1-1.3.4"), Some(4));
    assert_eq!(usb_port_to_int("1-1.3.2"), Some(5));
    assert_eq!(usb_port_to_int("1-1.3.1"), Some(6));
    assert_eq!(usb_port_to_int("1-1.3.3"), Some(7));
}

#[test]
fn test_usb_port_to_int_unknown() {
    assert_eq!(usb_port_to_int("1-2.1"), None);
    assert_eq!(usb_port_to_int(""), None);
}

#[test]
fn test_days_to_ymd_epoch() {
    assert_eq!(days_to_ymd(0), (1970, 1, 1));
}

#[test]
fn test_days_to_ymd_known_date() {
    // 2026-02-23
    let days = (2026 - 1970) * 365
        + 14  // leap years: 1972,76,80,84,88,92,96,2000,04,08,12,16,20,24
        + 31  // Jan
        + 22; // Feb 1-22
    assert_eq!(days_to_ymd(days), (2026, 2, 23));
}

#[test]
fn test_days_to_ymd_leap_year() {
    // 2000-02-29 (leap year)
    let days = (2000 - 1970) * 365
        + 7   // leap years before 2000: 1972,76,80,84,88,92,96
        + 31  // Jan
        + 28; // Feb 1-28 to reach Feb 29
    let (y, mo, d) = days_to_ymd(days);
    assert_eq!(y, 2000);
    assert_eq!(mo, 2);
    assert_eq!(d, 29);
}

#[test]
fn test_days_to_ymd_year_end() {
    // 1970-12-31
    assert_eq!(days_to_ymd(364), (1970, 12, 31));
}

#[test]
fn test_iso8601_now_format() {
    let ts = iso8601_now();
    assert!(ts.contains('T'));
    assert!(ts.ends_with('Z'));
    assert_eq!(ts.len(), 24); // "2026-02-23T09:33:00.033Z"
}

#[test]
fn days_to_ymd_century_non_leap() {
    // 1900 is not in range; 2100-03-01 follows 2100-02-28 (2100 is not leap)
    let feb_28_2100 = days_to_ymd(47540);
    assert_eq!(feb_28_2100, (2100, 2, 28));
    assert_eq!(days_to_ymd(47541), (2100, 3, 1));
}

#[test]
fn iso8601_at_known_instant() {
    // 2026-02-23T09:33:00.033Z
    let secs: u64 = 20507 * 86400 + 9 * 3600 + 33 * 60;
    assert_eq!(iso8601_at(secs, 33), "2026-02-23T09:33:00.033Z");
    assert_eq!(iso8601_at(0, 0), "1970-01-01T00:00:00.000Z");
    assert_eq!(iso8601_at(86399, 999), "1970-01-01T23:59:59.999Z");
}

#[test]
fn hex_upper_all_nibbles() {
    let bytes: Vec<u8> = vec![0x01, 0x23, 0x45, 0x67, 0x89, 0xAB, 0xCD, 0xEF];
    let s = hex_upper(&bytes);
    assert_eq!(s, "0123456789ABCDEF");
    assert_eq!(s.len(), 2 * bytes.len());
    for i in 0..bytes.len() {
        let decoded = u8::from_str_radix(&s[2 * i..2 * i + 2].to_lowercase(), 16).unwrap();
        assert_eq!(decoded, bytes[i]);
    }
}

#[test]
fn usb_port_to_int_repeated_calls_agree() {
    for p in ["1-1.4", "1-1.3.3", "1-1.5", "x"] {
        assert_eq!(usb_port_to_int(p), usb_port_to_int(p));
    }
    assert_eq!(usb_port_to_int("1-1.3"), None);
    assert_eq!(usb_port_to_int("1-1.4 "), None);
}
