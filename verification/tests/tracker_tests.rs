use trayplay::active_window::ActiveWindowTracker;

#[test]
fn fresh_tracker_holds_unknown() {
    let tracker = ActiveWindowTracker::new();
    assert_eq!(tracker.name(), "unknown");
    assert_eq!(tracker.change_count(), 0);
}

#[test]
fn fullscreen_with_resolvable_entry_uses_display_name() {
    let mut tracker = ActiveWindowTracker::new();
    let entry = b"[Desktop Entry]\nType=Application\nName=Game\n".to_vec();
    tracker.set_active_window(Some(&entry), &String::from("game window title"), true);
    assert_eq!(tracker.name(), "Game");
    assert_eq!(tracker.change_count(), 1);
}

#[test]
fn fullscreen_without_display_name_falls_back_to_title() {
    let mut tracker = ActiveWindowTracker::new();
    let entry = b"[Desktop Entry]\nType=Application\n".to_vec();
    tracker.set_active_window(Some(&entry), &String::from("Window Title"), true);
    assert_eq!(tracker.name(), "Window Title");
}

#[test]
fn fullscreen_without_entry_falls_back_to_title() {
    let mut tracker = ActiveWindowTracker::new();
    tracker.set_active_window(None, &String::from("Some Title"), true);
    assert_eq!(tracker.name(), "Some Title");
    assert_eq!(tracker.change_count(), 1);
}

#[test]
fn non_fullscreen_resets_to_unknown_exactly_once() {
    let mut tracker = ActiveWindowTracker::new();
    let entry = b"[Desktop Entry]\nName=Game\n".to_vec();
    tracker.set_active_window(Some(&entry), &String::from("t"), true);
    assert_eq!(tracker.change_count(), 1);
    tracker.set_active_window(None, &String::from("t"), false);
    assert_eq!(tracker.name(), "unknown");
    assert_eq!(tracker.change_count(), 2);
    // Repeated non-fullscreen notifications write nothing more.
    tracker.set_active_window(None, &String::from("other"), false);
    tracker.set_active_window(Some(&entry), &String::from("x"), false);
    assert_eq!(tracker.name(), "unknown");
    assert_eq!(tracker.change_count(), 2);
}

#[test]
fn unchanged_fullscreen_name_writes_nothing() {
    let mut tracker = ActiveWindowTracker::new();
    let entry = b"[Desktop Entry]\nName=Game\n".to_vec();
    tracker.set_active_window(Some(&entry), &String::from("t"), true);
    tracker.set_active_window(Some(&entry), &String::from("u"), true);
    assert_eq!(tracker.name(), "Game");
    assert_eq!(tracker.change_count(), 1);
}
