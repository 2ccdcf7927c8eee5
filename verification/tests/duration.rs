use ciel_build::duration::{elapsed_seconds, format_duration, MAX_SECONDS, MAX_SECONDS_NANOS};

#[test]
fn test_time_format() {
    let test_dur = chrono::Duration::seconds(3661);
    assert_eq!(format_duration(test_dur.num_seconds()), "01:01:01");
}

#[test]
fn format_duration_of_nothing() {
    assert_eq!(format_duration(0), "00:00:00");
}

#[test]
fn format_duration_does_not_cut_the_hours() {
    assert_eq!(format_duration(360000), "100:00:00");
    assert_eq!(format_duration(359999), "99:59:59");
    assert_eq!(format_duration(3600 * 12345 + 62), "12345:01:02");
}

#[test]
fn format_duration_at_the_turns() {
    assert_eq!(format_duration(1), "00:00:01");
    assert_eq!(format_duration(9), "00:00:09");
    assert_eq!(format_duration(10), "00:00:10");
    assert_eq!(format_duration(59), "00:00:59");
    assert_eq!(format_duration(60), "00:01:00");
    assert_eq!(format_duration(3599), "00:59:59");
    assert_eq!(format_duration(3600), "01:00:00");
    assert_eq!(format_duration(86399), "23:59:59");
    assert_eq!(format_duration(86400), "24:00:00");
}

#[test]
fn format_duration_agrees_with_std_formatting() {
    let samples: [i64; 12] = [
        0,
        5,
        61,
        3661,
        360000,
        -1,
        -59,
        -60,
        -3661,
        i64::MAX,
        i64::MIN,
        9_223_372_036_854_775,
    ];
    for seconds in samples {
        let expected =
            format!("{:02}:{:02}:{:02}", seconds / 3600, (seconds / 60) % 60, seconds % 60);
        assert_eq!(format_duration(seconds), expected);
    }
}

#[test]
fn format_duration_of_a_negative_duration() {
    assert_eq!(format_duration(-3661), "-1:-1:-1");
    assert_eq!(format_duration(-5), "00:00:-5");
}

#[test]
fn elapsed_seconds_are_the_whole_seconds() {
    assert_eq!(elapsed_seconds(0, 0), Some(0));
    assert_eq!(elapsed_seconds(3661, 999_999_999), Some(3661));
    assert_eq!(elapsed_seconds(360000, 1), Some(360000));
}

#[test]
fn elapsed_seconds_out_of_range() {
    assert_eq!(elapsed_seconds(MAX_SECONDS, MAX_SECONDS_NANOS), Some(MAX_SECONDS as i64));
    assert_eq!(elapsed_seconds(MAX_SECONDS, MAX_SECONDS_NANOS + 1), None);
    assert_eq!(elapsed_seconds(MAX_SECONDS - 1, 999_999_999), Some(MAX_SECONDS as i64 - 1));
    assert_eq!(elapsed_seconds(MAX_SECONDS + 1, 0), None);
    assert_eq!(elapsed_seconds(u64::MAX, 0), None);
}

#[test]
fn elapsed_seconds_refuse_a_second_of_nanoseconds() {
    assert_eq!(elapsed_seconds(1, 1_000_000_000), None);
    assert_eq!(elapsed_seconds(1, u32::MAX), None);
}

#[test]
fn elapsed_seconds_agree_with_chrono() {
    let readings: [(u64, u32); 6] = [
        (0, 0),
        (1, 500_000_000),
        (86_400, 0),
        (MAX_SECONDS, MAX_SECONDS_NANOS),
        (MAX_SECONDS, MAX_SECONDS_NANOS + 1),
        (MAX_SECONDS + 1, 0),
    ];
    for (secs, nanos) in readings {
        let expected = chrono::Duration::from_std(std::time::Duration::new(secs, nanos))
            .ok()
            .map(|d| d.num_seconds());
        assert_eq!(elapsed_seconds(secs, nanos), expected);
    }
}
