use jamming_chipper::score::ScoreStatus;

#[test]
fn time_is_shown_as_minutes_and_seconds() {
    let mut s = ScoreStatus::new();
    assert_eq!(s.format_time(), "00:00.0");
    s.add_time(65_432);
    assert_eq!(s.format_time(), "01:05.4");
    s.add_time(10 * 60_000);
    assert_eq!(s.format_time(), "11:05.4");
}

#[test]
fn seconds_round_to_a_tenth() {
    let s = ScoreStatus { time_ms: 59_960, logs_chipped: 0, woodchips_cleared: 0 };
    assert_eq!(s.format_time(), "00:60.0");
    let s = ScoreStatus { time_ms: 125 * 60_000 + 9_049, logs_chipped: 0, woodchips_cleared: 0 };
    assert_eq!(s.format_time(), "125:09.0");
}

#[test]
fn time_saturates() {
    let mut s = ScoreStatus { time_ms: u64::MAX - 1, logs_chipped: 3, woodchips_cleared: 4 };
    s.add_time(10);
    assert_eq!(s.time_ms, u64::MAX);
    assert_eq!(s.logs_chipped, 3);
}
