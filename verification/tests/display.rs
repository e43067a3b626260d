use mp3_tui::display::{bar_height, clock_parts};
use mp3_tui::timespan::TimeSpan;

#[test]
fn a_clock_shows_minutes_and_seconds() {
    assert_eq!(clock_parts(&TimeSpan::zero()), (0, 0));
    assert_eq!(clock_parts(&TimeSpan::from_millis(59_999)), (0, 59));
    assert_eq!(clock_parts(&TimeSpan::from_secs(60)), (1, 0));
    assert_eq!(clock_parts(&TimeSpan::from_secs(3 * 60 + 7)), (3, 7));
    assert_eq!(clock_parts(&TimeSpan::from_secs(2 * 3600 + 5)), (120, 5));
    assert_eq!(
        clock_parts(&TimeSpan::from_parts(u64::MAX, 999_999_999).unwrap()),
        (307_445_734_561_825_860, 15)
    );
}

#[test]
fn bars_follow_the_elapsed_time() {
    assert_eq!(bar_height(0, 0, 3), 0);
    assert_eq!(bar_height(0, 1, 3), 1);
    assert_eq!(bar_height(0, 2, 3), 2);
    assert_eq!(bar_height(0, 3, 3), 3);
    assert_eq!(bar_height(0, 4, 3), 0);
    assert_eq!(bar_height(1, 0, 3), 1);
    assert_eq!(bar_height(1500, 10, 7), 6);
    assert_eq!(bar_height(12_345, 0, 0), 0);
    assert_eq!(bar_height(99, 65_535, 65_535), 86);
}

#[test]
fn bars_stay_in_the_field() {
    for column in 0..40u16 {
        for millis in [0u64, 16, 999, 60_000] {
            assert!(bar_height(millis, column, 5) <= 5);
        }
    }
}

#[test]
fn bars_wrap_at_the_end_of_the_count() {
    // u64::MAX + 13 wraps to 12.
    assert_eq!(bar_height(u64::MAX, 1, 9), 2);
    assert_eq!(bar_height(u64::MAX, 0, 9), 5);
}
