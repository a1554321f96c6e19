use chrono::{Local, TimeZone};
use dnsblackhole::arguments::names_standard_stream;
use dnsblackhole::local_time::{
    format_in_zone, format_unix_second, moment_or_second, LAST_DATED_SECOND,
};
use dnsblackhole::text::{
    contains_control, decimal_text, hex_text, is_control, is_white_space, same_text,
    without_line_ends,
};

#[test]
fn character_classes_are_those_of_the_standard_library() {
    for code in 0..=0x10ffffu32 {
        if let Some(c) = char::from_u32(code) {
            assert_eq!(is_control(c), c.is_control(), "{code:x}");
            assert_eq!(is_white_space(c), c.is_whitespace(), "{code:x}");
        }
    }
}

#[test]
fn numbers_as_text() {
    for n in [0, 9, 10, 99, 100, 86_400, 1_234_567_890, u64::MAX] {
        assert_eq!(decimal_text(n), n.to_string());
    }
    assert_eq!(hex_text(&[0x00, 0x0f, 0xa5, 0xff]), "000fa5ff");
    assert_eq!(hex_text(&[]), "");
}

#[test]
fn line_ends_are_cut_off_at_the_close_only() {
    assert_eq!(without_line_ends("a\r\n"), "a");
    assert_eq!(without_line_ends("\n\ra \n\r\n"), "\n\ra ");
    assert_eq!(without_line_ends("\n\n"), "");
    assert_eq!(without_line_ends(""), "");
    assert_eq!(without_line_ends("密码 \n"), "密码 ");
}

#[test]
fn texts_are_searched_and_compared() {
    assert!(contains_control("a\u{7f}"));
    assert!(contains_control("\u{9f}"));
    assert!(!contains_control("密码 x"));
    assert!(same_text("密码", "密码"));
    assert!(!same_text("密码", "密"));
}

#[test]
fn a_dash_is_a_dash_by_its_components() {
    let paths = [
        "-", "-/", "-//", "-/.", "-/./", "-/.//.", "./-", "-.", "-/..", "-/-", "--", "", "/", ".",
        "-/a", "-/. ", "-a/", "/-",
    ];
    for path in paths {
        assert_eq!(
            names_standard_stream(Some(path)),
            std::path::Path::new(path) == std::path::Path::new("-"),
            "{path:?}"
        );
    }
    assert!(!names_standard_stream(None));
}

#[test]
fn seconds_without_a_date_are_shown_as_such() {
    assert_eq!(
        format_unix_second(LAST_DATED_SECOND + 1),
        "Unix 8210266876800"
    );
    assert_eq!(
        format_unix_second(u64::MAX),
        "Unix 18446744073709551615"
    );
    assert_eq!(
        format_unix_second(i64::MAX as u64),
        "Unix 9223372036854775807"
    );
}

#[test]
fn seconds_with_a_date_are_shown_as_local_time() {
    for seconds in [0, 1_700_000_000, 253_402_300_799, LAST_DATED_SECOND] {
        let shown = format_unix_second(seconds);
        assert_eq!(
            shown,
            Local
                .timestamp_opt(seconds as i64, 0)
                .unwrap()
                .format("%Y-%m-%d %H:%M:%S")
                .to_string()
        );
        let chars: Vec<char> = shown.chars().collect();
        let year = chars.len() - 15;
        assert!(year >= 4);
        for (offset, expected) in [(0, '-'), (3, '-'), (6, ' '), (9, ':'), (12, ':')] {
            assert_eq!(chars[year + offset], expected);
        }
        for offset in [1, 2, 4, 5, 7, 8, 10, 11, 13, 14] {
            assert!(chars[year + offset].is_ascii_digit());
        }
    }
}

#[test]
fn a_moment_is_preferred_to_its_second() {
    assert_eq!(
        moment_or_second(5, Some("1970-01-01 00:00:05".to_string())),
        "1970-01-01 00:00:05"
    );
    assert_eq!(moment_or_second(5, None), "Unix 5");
}

#[test]
fn seconds_are_shown_in_a_given_zone() {
    assert_eq!(format_in_zone(0, 0), "1970-01-01 00:00:00");
    assert_eq!(format_in_zone(0, -1), "1969-12-31 23:59:59");
    assert_eq!(format_in_zone(1_700_000_000, 0), "2023-11-14 22:13:20");
    assert_eq!(format_in_zone(1_700_000_000, 28_800), "2023-11-15 06:13:20");
    assert_eq!(format_in_zone(951_782_400, 86_399), "2000-02-29 23:59:59");
    assert_eq!(
        format_in_zone(LAST_DATED_SECOND, 0),
        "+262142-12-31 23:59:59"
    );
    assert_eq!(
        format_in_zone(LAST_DATED_SECOND, 86_399),
        "+262143-01-01 23:59:58"
    );
    assert_eq!(
        format_in_zone(LAST_DATED_SECOND + 1, 3_600),
        "Unix 8210266876800"
    );
}
