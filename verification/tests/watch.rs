use gcups::watch::{watch_wait, WatchState};

#[test]
fn watch_prints_every_reading_by_default() {
    let mut s = WatchState::new();
    assert!(s.record(Some(0x08), false));
    assert!(s.record(Some(0x08), false));
    assert!(!s.record(None, false));
    assert_eq!(s.polled, 2);
    assert_eq!(s.prev_reg, Some(0x08));
}

#[test]
fn watch_changes_only_prints_first_and_changes() {
    let mut s = WatchState::new();
    assert!(s.record(Some(0x08), true));
    assert!(!s.record(Some(0x08), true));
    assert!(s.record(Some(0x88), true));
    assert!(!s.record(None, true));
    assert!(!s.record(Some(0x88), true));
    assert!(s.record(Some(0x08), true));
    assert_eq!(s.polled, 5);
}

#[test]
fn watch_stops_on_count_or_duration() {
    let mut s = WatchState::new();
    assert!(!s.finished(Some(2), None, 0));
    s.record(Some(0), false);
    assert!(!s.finished(Some(2), None, 0));
    s.record(Some(0), false);
    assert!(s.finished(Some(2), None, 0));
    assert!(!s.finished(None, None, u128::MAX));
    assert!(!s.finished(None, Some(1_000), 999));
    assert!(s.finished(None, Some(1_000), 1_000));
}

#[test]
fn watch_exit_code_is_last_reading() {
    let mut s = WatchState::new();
    assert_eq!(s.exit_code(), 0);
    s.record(Some(0b1000_1000), false);
    assert_eq!(s.exit_code(), 1);
    s.record(None, false);
    assert_eq!(s.exit_code(), 1);
    s.record(Some(0b0001_1000), false);
    assert_eq!(s.exit_code(), 3);
    s.record(Some(0b0000_1000), false);
    assert_eq!(s.exit_code(), 0);
}

#[test]
fn watch_waits_for_the_rest_of_the_interval() {
    assert_eq!(watch_wait(1_000_000_000, 250_000_000), 750_000_000);
    assert_eq!(watch_wait(1_000, 1_000), 0);
    assert_eq!(watch_wait(1_000, 5_000), 0);
}
