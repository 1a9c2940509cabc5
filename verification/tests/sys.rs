use cursor_drop::sys::{clip_expired, from_wide, log_outgrown, now_stamp, wide, LocalTime};

fn time(year: u16, month: u16, day: u16, hour: u16, minute: u16, second: u16) -> LocalTime {
    LocalTime { year, month, day, hour, minute, second }
}

#[test]
fn wide_is_utf16_with_a_nul() {
    assert_eq!(wide(""), vec![0]);
    assert_eq!(wide("aé"), vec![0x61, 0xe9, 0]);
    assert_eq!(wide("\u{10000}\u{10ffff}"), vec![0xd800, 0xdc00, 0xdbff, 0xdfff, 0]);
    for s in ["plain", "한글 경로", "emoji 😀 𝄞", "\u{d7ff}\u{e000}\u{ffff}"] {
        let mut expected: Vec<u16> = s.encode_utf16().collect();
        expected.push(0);
        assert_eq!(wide(s), expected);
    }
}

#[test]
fn from_wide_stops_at_the_first_nul() {
    assert_eq!(from_wide(&[]), "");
    assert_eq!(from_wide(&[0x61, 0, 0x62]), "a");
    assert_eq!(from_wide(&[0x61, 0x62]), "ab");
}

#[test]
fn from_wide_repairs_unpaired_surrogates() {
    let cases: Vec<Vec<u16>> = vec![
        vec![0xd800],
        vec![0xdc00, 0x61],
        vec![0xd800, 0x61],
        vec![0xd800, 0xd800, 0xdc00],
        vec![0xdc00, 0xd800],
        vec![0xdbff, 0xdfff, 0xdfff],
    ];
    for units in cases {
        assert_eq!(from_wide(&units), String::from_utf16_lossy(&units));
    }
    assert_eq!(from_wide(&[0xd800, 0x61]), "\u{fffd}a");
}

#[test]
fn wide_and_back() {
    for s in ["", "C:\\Users\\x\\그림 1.png", "😀", "tab\tnewline\n"] {
        assert_eq!(from_wide(&wide(s)), s);
    }
    assert_eq!(from_wide(&wide("cut\0off")), "cut");
}

#[test]
fn stamp_pads_every_field() {
    assert_eq!(now_stamp(&time(2026, 6, 18, 14, 30, 0)), "20260618-143000");
    assert_eq!(now_stamp(&time(7, 1, 2, 3, 4, 5)), "00070102-030405");
    assert_eq!(now_stamp(&time(12345, 100, 0, 0, 0, 999)), "1234510000-0000999");
    assert_eq!(now_stamp(&time(9999, 12, 31, 23, 59, 59)).len(), 15);
}

#[test]
fn stamps_of_different_times_differ() {
    assert_ne!(
        now_stamp(&time(2026, 11, 1, 0, 0, 0)),
        now_stamp(&time(2026, 1, 11, 0, 0, 0))
    );
}

#[test]
fn old_files_go() {
    assert!(!log_outgrown(None));
    assert!(!log_outgrown(Some(1_000_000)));
    assert!(log_outgrown(Some(1_000_001)));
    assert!(!clip_expired(None));
    assert!(!clip_expired(Some(24 * 60 * 60)));
    assert!(clip_expired(Some(24 * 60 * 60 + 1)));
}
