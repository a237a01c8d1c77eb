use ffsub::ffmpeg::progress::{
    extract_value, parse_progress_line, parse_time_to_seconds, percentage,
};

#[test]
fn test_parse_progress() {
    let line = "frame=  120 fps= 30.0 q=28.0 size=    1024kB time=00:00:04.00 bitrate=2097.2kbits/s speed=1.5x";
    let total = (10.0_f64 * 1_000_000.0) as u64;
    let progress = parse_progress_line(line, total).unwrap();
    assert_eq!(progress.frame, 120);
    assert!((progress.fps_micros as f64 / 1_000_000.0 - 30.0).abs() < f64::EPSILON);
    assert_eq!(progress.time, "00:00:04.00");
    assert_eq!(progress.speed, "1.5x");
    assert!((progress.percentage_tenths as f64 / 10.0 - 40.0).abs() < 0.1);
}

#[test]
fn test_parse_time() {
    assert!(
        (parse_time_to_seconds("01:30:00.00") as f64 / 1_000_000.0 - 5400.0).abs() < f64::EPSILON
    );
    assert!(
        (parse_time_to_seconds("00:01:30.50") as f64 / 1_000_000.0 - 90.5).abs() < f64::EPSILON
    );
}

#[test]
fn progress_fields_are_exact() {
    let line = "frame=  120 fps= 30.0 q=28.0 size=    1024kB time=00:00:04.00 bitrate=2097.2kbits/s speed=1.5x";
    let progress = parse_progress_line(line, 10_000_000).unwrap();
    assert_eq!(progress.frame, 120);
    assert_eq!(progress.fps_micros, 30_000_000);
    assert_eq!(progress.percentage_tenths, 400);
}

#[test]
fn parse_time_exact_values() {
    assert_eq!(parse_time_to_seconds("01:30:00.00"), 5_400_000_000);
    assert_eq!(parse_time_to_seconds("00:01:30.50"), 90_500_000);
    assert_eq!(parse_time_to_seconds("00:00:00.000001"), 1);
    assert_eq!(parse_time_to_seconds("00:00:00.0000019"), 1);
}

#[test]
fn malformed_time_is_zero() {
    assert_eq!(parse_time_to_seconds(""), 0);
    assert_eq!(parse_time_to_seconds("90.5"), 0);
    assert_eq!(parse_time_to_seconds("01:30"), 0);
    assert_eq!(parse_time_to_seconds("00:01:30:50"), 0);
}

#[test]
fn unreadable_time_parts_count_as_zero() {
    assert_eq!(parse_time_to_seconds("xx:01:30"), 90_000_000);
    assert_eq!(parse_time_to_seconds("::"), 0);
    assert_eq!(parse_time_to_seconds("N/A:N/A:N/A"), 0);
    assert_eq!(parse_time_to_seconds("-1:00:00"), 0);
}

#[test]
fn huge_time_is_held_at_the_largest_number() {
    assert_eq!(parse_time_to_seconds("99999999999999999999999:00:00"), u64::MAX);
    assert_eq!(parse_time_to_seconds("18446744073709:00:00"), u64::MAX);
}

#[test]
fn line_without_both_markers_is_no_progress() {
    assert!(parse_progress_line("frame=  120 fps= 30.0", 10_000_000).is_none());
    assert!(parse_progress_line("time=00:00:04.00 speed=1.5x", 10_000_000).is_none());
    assert!(parse_progress_line("Press [q] to stop, [?] for help", 10_000_000).is_none());
    assert!(parse_progress_line("", 10_000_000).is_none());
}

#[test]
fn missing_fields_take_their_defaults() {
    let progress = parse_progress_line("frame=abc time=", 10_000_000).unwrap();
    assert_eq!(progress.frame, 0);
    assert_eq!(progress.fps_micros, 0);
    assert_eq!(progress.time, "");
    assert_eq!(progress.speed, "");
    assert_eq!(progress.percentage_tenths, 0);
}

#[test]
fn frame_count_too_large_counts_as_zero() {
    let progress =
        parse_progress_line("frame=18446744073709551616 time=00:00:01.00", 0).unwrap();
    assert_eq!(progress.frame, 0);
    let progress =
        parse_progress_line("frame=18446744073709551615 time=00:00:01.00", 0).unwrap();
    assert_eq!(progress.frame, u64::MAX);
    let progress = parse_progress_line("frame=+7 time=00:00:01.00", 0).unwrap();
    assert_eq!(progress.frame, 7);
}

#[test]
fn percentage_is_zero_without_a_total() {
    let line = "frame=  120 fps= 30.0 time=00:00:04.00 speed=1.5x";
    assert_eq!(parse_progress_line(line, 0).unwrap().percentage_tenths, 0);
    assert_eq!(percentage(0, 0), 0);
    assert_eq!(percentage(u64::MAX, 0), 0);
}

#[test]
fn percentage_is_held_at_one_hundred() {
    let line = "frame=  120 fps= 30.0 time=00:00:04.00 speed=1.5x";
    assert_eq!(parse_progress_line(line, 2_000_000).unwrap().percentage_tenths, 1000);
    assert_eq!(percentage(u64::MAX, 1), 1000);
    assert_eq!(percentage(u64::MAX, u64::MAX), 1000);
    assert_eq!(percentage(5, 5), 1000);
}

#[test]
fn percentage_rounds_to_the_nearest_tenth() {
    assert_eq!(percentage(1, 3), 333);
    assert_eq!(percentage(2, 3), 667);
    assert_eq!(percentage(1, 2000), 1);
    assert_eq!(percentage(1, 2001), 0);
    assert_eq!(percentage(4_000_000, 10_000_000), 400);
    assert_eq!(percentage(9_995, 10_000), 1000);
    assert_eq!(percentage(9_994, 10_000), 999);
}

#[test]
fn value_runs_from_after_padding_to_next_whitespace() {
    let line = "frame=  120 fps= 30.0 q=28.0";
    assert_eq!(extract_value(line, "frame="), Some("120".to_string()));
    assert_eq!(extract_value(line, "fps="), Some("30.0".to_string()));
    assert_eq!(extract_value(line, "q="), Some("28.0".to_string()));
    assert_eq!(extract_value(line, "speed="), None);
    assert_eq!(extract_value("speed=", "speed="), Some("".to_string()));
    assert_eq!(extract_value("a=1\tb=2", "a="), Some("1".to_string()));
}

#[test]
fn value_is_taken_at_the_first_occurrence_of_the_key() {
    assert_eq!(extract_value("time=1 time=2", "time="), Some("1".to_string()));
    assert_eq!(extract_value("xtime= 7  time=2", "time="), Some("7".to_string()));
}
