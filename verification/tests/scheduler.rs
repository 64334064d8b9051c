use wtf::scheduler::{should_tick, CADENCE_SECONDS};

// 2023-11-14 22:13:00 UTC, the start of a minute.
const MINUTE: i64 = 1_699_999_980;

#[test]
fn ticks_fall_on_the_quarter_minutes() {
    assert_eq!(CADENCE_SECONDS, 15);
    assert_eq!(MINUTE % 60, 0);
    for second in 0..60 {
        let due = second == 0 || second == 15 || second == 30 || second == 45;
        assert_eq!(should_tick(MINUTE + second, None), due, "second {second}");
        assert_eq!(should_tick(MINUTE + second, Some(MINUTE - 15)), due, "second {second}");
    }
}

#[test]
fn no_tick_fires_twice_within_one_second() {
    for second in [0, 15, 30, 45] {
        let now = MINUTE + second;
        assert!(should_tick(now, None));
        assert!(!should_tick(now, Some(now)));
        assert!(should_tick(now + 15, Some(now)));
    }
}

#[test]
fn off_a_boundary_nothing_fires_whatever_came_before() {
    assert!(!should_tick(MINUTE + 1, None));
    assert!(!should_tick(MINUTE + 14, Some(MINUTE)));
    assert!(!should_tick(MINUTE + 59, Some(MINUTE + 59)));
}

#[test]
fn a_stalled_caller_fires_at_the_next_boundary_it_meets() {
    let last = MINUTE;
    // Three boundaries went by unseen.
    assert!(should_tick(MINUTE + 60, Some(last)));
    assert!(should_tick(MINUTE + 3600 + 45, Some(last)));
    // A clock that stepped back fires too: only the same second is held back.
    assert!(should_tick(MINUTE - 30, Some(last)));
}

#[test]
fn boundaries_before_the_epoch_are_quarter_minutes_too() {
    assert!(should_tick(0, None));
    assert!(should_tick(-15, None));
    assert!(should_tick(-60, None));
    assert!(!should_tick(-1, None));
    assert!(!should_tick(-16, None));
    assert!(!should_tick(i64::MAX, None));
    assert!(!should_tick(i64::MIN, None));
    assert!(should_tick(i64::MIN + 8, None));
}
