use ffsub::number::{
    format_duration, i32_to_string, parse_micros, parse_u64, u64_to_string,
};
use ffsub::text::{
    char_is_whitespace, chars_of, contains, find, same_text, split, trim, trim_bounds,
    word_bounds,
};

fn chars(s: &str) -> Vec<char> {
    s.chars().collect()
}

#[test]
fn whitespace_is_what_the_standard_library_calls_whitespace() {
    for code in 0..=0x10FFFFu32 {
        if let Some(c) = char::from_u32(code) {
            assert_eq!(char_is_whitespace(c), c.is_whitespace(), "U+{:04X}", code);
        }
    }
}

#[test]
fn characters_are_taken_one_by_one() {
    assert_eq!(chars_of("a字b"), vec!['a', '字', 'b']);
    assert_eq!(chars_of(""), Vec::<char>::new());
}

#[test]
fn same_text_compares_characters() {
    assert!(same_text("utf8", "utf8"));
    assert!(same_text("", ""));
    assert!(!same_text("utf8", "utf-8"));
    assert!(!same_text("utf8", "utf9"));
    assert!(!same_text("a", ""));
}

#[test]
fn find_gives_the_leftmost_position() {
    assert_eq!(find(&chars("frame=1 frame=2"), &chars("frame=")), Some(0));
    assert_eq!(find(&chars("xx time=1"), &chars("time=")), Some(3));
    assert_eq!(find(&chars("字幕 time=1"), &chars("time=")), Some(3));
    assert_eq!(find(&chars("abc"), &chars("")), Some(0));
    assert_eq!(find(&chars(""), &chars("")), Some(0));
    assert_eq!(find(&chars("ab"), &chars("abc")), None);
    assert_eq!(find(&chars("aab"), &chars("ab")), Some(1));
    assert_eq!(find(&chars("abab"), &chars("bb")), None);
    assert!(contains(&chars("h264_nvenc"), &chars("nvenc")));
    assert!(!contains(&chars("h264_nvenc"), &chars("qsv")));
}

#[test]
fn words_end_at_whitespace() {
    let line = chars("a=  12\t34");
    assert_eq!(word_bounds(&line, 2), (4, 6));
    assert_eq!(word_bounds(&line, 6), (7, 9));
    assert_eq!(word_bounds(&line, 9), (9, 9));
    assert_eq!(word_bounds(&chars("   "), 0), (3, 3));
}

#[test]
fn trim_removes_whitespace_at_both_ends() {
    assert_eq!(trim("  a b \r\n"), "a b");
    assert_eq!(trim("\u{3000}x\u{a0}"), "x");
    assert_eq!(trim("   "), "");
    assert_eq!(trim(""), "");
    assert_eq!(trim("x"), "x");
    assert_eq!(trim_bounds(&chars(" ab ")), (1, 3));
    for text in ["  a b \r\n", "", " ", "x", "\t\tx y\u{2028}", " \u{1680} z"] {
        assert_eq!(trim(text), text.trim());
    }
}

#[test]
fn split_keeps_empty_pieces() {
    for (text, sep) in [
        ("a:b:c", ':'),
        ("", ':'),
        (":", ':'),
        ("a::b", ':'),
        (":a:", ':'),
        ("abc", ':'),
        ("x\ry\r", '\r'),
    ] {
        let expected: Vec<Vec<char>> = text.split(sep).map(|p| p.chars().collect()).collect();
        assert_eq!(split(&chars(text), sep), expected);
    }
}

#[test]
fn whole_numbers_are_read_as_the_standard_library_reads_them() {
    for text in [
        "0",
        "120",
        "+120",
        "007",
        "18446744073709551615",
        "18446744073709551616",
        "99999999999999999999999",
        "",
        "+",
        "-1",
        "++1",
        "1+",
        "12a",
        " 12",
        "1.0",
        "１２",
    ] {
        assert_eq!(parse_u64(text), text.parse::<u64>().ok(), "{:?}", text);
    }
}

#[test]
fn decimals_are_read_in_millionths() {
    assert_eq!(parse_micros("0"), Some(0));
    assert_eq!(parse_micros("30.0"), Some(30_000_000));
    assert_eq!(parse_micros("29.97"), Some(29_970_000));
    assert_eq!(parse_micros("04.00"), Some(4_000_000));
    assert_eq!(parse_micros("0.000001"), Some(1));
    assert_eq!(parse_micros("0.0000009"), Some(0));
    assert_eq!(parse_micros("1.9999999"), Some(1_999_999));
    assert_eq!(parse_micros("5."), Some(5_000_000));
    assert_eq!(parse_micros(".5"), Some(500_000));
    assert_eq!(parse_micros("18446744073709.551615"), Some(u64::MAX));
    assert_eq!(parse_micros("18446744073709.551614"), Some(u64::MAX - 1));
    assert_eq!(parse_micros("18446744073709.551616"), Some(u64::MAX));
    assert_eq!(parse_micros("18446744073710"), Some(u64::MAX));
    assert_eq!(parse_micros("99999999999999999999999999.5"), Some(u64::MAX));
}

#[test]
fn what_is_no_plain_decimal_is_not_read() {
    for text in ["", ".", "1.2.3", "-1", "+1", "1e3", "inf", "NaN", " 1", "1 ", "1,5", "0x10"] {
        assert_eq!(parse_micros(text), None, "{:?}", text);
    }
}

#[test]
fn numbers_are_written_as_the_standard_library_writes_them() {
    for n in [0, 1, -1, 9, 10, -10, 23, 51, 100, 12345, i32::MAX, i32::MIN, i32::MIN + 1] {
        assert_eq!(i32_to_string(n), n.to_string());
    }
    for n in [0, 7, 10, 99, 100, 1920, u64::MAX, u64::MAX / 10, 1_000_000_007] {
        assert_eq!(u64_to_string(n), n.to_string());
    }
}

#[test]
fn writing_and_reading_a_number_give_it_back() {
    for n in [0, 1, 9, 10, 120, 4_294_967_296, u64::MAX] {
        assert_eq!(parse_u64(&u64_to_string(n)), Some(n));
    }
}

#[test]
fn durations_are_written_as_hours_minutes_seconds() {
    assert_eq!(format_duration(0), "00:00:00");
    assert_eq!(format_duration(999_999), "00:00:00");
    assert_eq!(format_duration(1_000_000), "00:00:01");
    assert_eq!(format_duration(59_999_999), "00:00:59");
    assert_eq!(format_duration(5_400_000_000), "01:30:00");
    assert_eq!(format_duration(3_661_000_000), "01:01:01");
    assert_eq!(format_duration(86_399_000_000), "23:59:59");
    assert_eq!(format_duration(360_000_000_000), "100:00:00");
    assert_eq!(format_duration(u64::MAX), "5124095576:01:49");
}
