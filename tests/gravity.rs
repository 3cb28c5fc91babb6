use tetris::fall_interval_ticks;

#[test]
fn level_zero_takes_the_reciprocal() {
    // 100 * 1000 / 807 = 123.9..., rounded.
    assert_eq!(fall_interval_ticks(0), 124);
    assert_eq!(fall_interval_ticks(9), 124);
}

#[test]
fn level_one_is_one_second() {
    assert_eq!(fall_interval_ticks(10), 100);
    assert_eq!(fall_interval_ticks(19), 100);
}

#[test]
fn curve_values() {
    assert_eq!(fall_interval_ticks(20), 79);
    assert_eq!(fall_interval_ticks(30), 62);
    assert_eq!(fall_interval_ticks(50), 36);
    assert_eq!(fall_interval_ticks(100), 6);
    assert_eq!(fall_interval_ticks(130), 2);
    assert_eq!(fall_interval_ticks(140), 1);
}

#[test]
fn interval_decreases_from_level_one_until_one_tick() {
    let mut last = fall_interval_ticks(10);
    for level in 2..15u64 {
        let t = fall_interval_ticks(level * 10);
        assert!(t < last, "level {}", level);
        last = t;
    }
    assert_eq!(last, 1);
}

#[test]
fn interval_is_at_least_one_tick() {
    for lines in [150u64, 160, 1000, 1150, 1160, 2590, 100_000, u64::MAX] {
        assert_eq!(fall_interval_ticks(lines), 1);
    }
}
