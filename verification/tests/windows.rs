use ortseam_gui::windows::{Target, WindowSet};

fn three_buffers() -> (WindowSet<&'static str>, usize, usize, usize) {
    let mut set = WindowSet::new();
    let a = set.open_buffer("a");
    let b = set.open_buffer("b");
    let c = set.open_buffer("c");
    (set, a, b, c)
}

fn ids(set: &WindowSet<&'static str>) -> Vec<usize> {
    set.windows.iter().map(|window| window.id).collect()
}

#[test]
fn a_new_window_is_active_and_gets_a_fresh_id() {
    let (set, a, b, c) = three_buffers();
    assert_eq!((a, b, c), (1, 2, 3));
    assert_eq!(set.active, Some(2));
    assert!(set.windows.iter().all(|window| window.open && !window.modified));
    assert!(set.active_is_buffer());
    assert_eq!(set.active_detector_index(), None);
}

#[test]
fn closing_a_background_window_keeps_the_active_one_by_identity() {
    let (mut set, a, _b, c) = three_buffers();
    set.close_window(a);
    assert_eq!(ids(&set), vec![2, 3]);
    assert_eq!(set.active, Some(1), "still the window with id {c}");
    assert_eq!(set.windows[1].id, c);
}

#[test]
fn closing_the_active_window_hands_over_to_the_last() {
    let (mut set, a, b, c) = three_buffers();
    set.activate(a);
    set.close_window(a);
    assert_eq!(set.active, Some(1));
    assert_eq!(set.windows[1].id, c);
    set.close_window(c);
    set.close_window(b);
    assert_eq!(set.active, None);
    assert!(set.windows.is_empty());
}

#[test]
fn closing_an_unknown_window_changes_nothing() {
    let (mut set, ..) = three_buffers();
    set.close_window(99);
    assert_eq!(ids(&set), vec![1, 2, 3]);
    assert_eq!(set.active, Some(2));
}

#[test]
fn closing_the_window_filling_the_area_hands_the_area_on() {
    let (mut set, _a, b, c) = three_buffers();
    assert!(set.toggle_maximize(c));
    assert_eq!(set.maximized, Some(c));
    set.close_window(c);
    assert_eq!(set.maximized, Some(b));
    assert_eq!(set.visible_windows(0), vec![1]);
}

#[test]
fn a_maximised_window_is_the_only_one_painted() {
    let (mut set, a, ..) = three_buffers();
    assert_eq!(set.visible_windows(0), vec![0, 1, 2]);
    set.toggle_maximize(a);
    assert_eq!(set.visible_windows(0), vec![0]);
    assert_eq!(set.active, Some(0));
    assert!(!set.toggle_maximize(a));
    assert_eq!(set.maximized, None);
    assert_eq!(set.visible_windows(0), vec![0, 1, 2]);
}

#[test]
fn a_detector_window_without_its_detector_is_not_painted() {
    let mut set: WindowSet<&'static str> = WindowSet::new();
    set.open_detector(0, "first");
    set.open_detector(1, "second");
    set.open_buffer("buffer");
    assert_eq!(set.visible_windows(1), vec![0, 2]);
    assert_eq!(set.visible_windows(2), vec![0, 1, 2]);
}

#[test]
fn opening_a_detector_twice_reuses_its_window() {
    let mut set: WindowSet<&'static str> = WindowSet::new();
    set.open_detector(0, "first");
    set.open_buffer("buffer");
    set.windows[0].open = false;
    set.open_detector(0, "again");
    assert_eq!(set.windows.len(), 2);
    assert!(set.windows[0].open);
    assert_eq!(set.windows[0].content, "first");
    assert_eq!(set.active, Some(0));
    assert_eq!(set.active_detector_index(), Some(0));
    assert!(!set.active_is_buffer());
}

#[test]
fn ctrl_tab_pages_forward_and_back_round_the_windows() {
    let (mut set, ..) = three_buffers();
    assert_eq!(set.cycle_window(1, 0), Some(0), "from the last it wraps to the first");
    assert_eq!(set.cycle_window(1, 0), Some(1));
    assert_eq!(set.cycle_window(-1, 0), Some(0));
    assert_eq!(set.cycle_window(-1, 0), Some(2), "and back round the other way");
    assert_eq!(set.active, Some(2));
}

#[test]
fn ctrl_tab_then_ctrl_shift_tab_comes_back() {
    let (mut set, ..) = three_buffers();
    set.activate(2);
    let start = set.active;
    set.cycle_window(1, 0);
    set.cycle_window(-1, 0);
    assert_eq!(set.active, start);
}

#[test]
fn ctrl_tab_needs_two_windows_to_move() {
    let mut set: WindowSet<&'static str> = WindowSet::new();
    set.open_buffer("only");
    assert_eq!(set.cycle_window(1, 0), None);
    assert_eq!(set.active, Some(0));
}

#[test]
fn ctrl_tab_in_full_area_mode_moves_the_full_area_too() {
    let (mut set, a, b, _c) = three_buffers();
    set.toggle_maximize(a);
    assert_eq!(set.cycle_window(1, 0), Some(1));
    assert_eq!(set.maximized, Some(b));
}

#[test]
fn a_modified_buffer_asks_before_closing() {
    let (mut set, _a, b, _c) = three_buffers();
    set.activate(b);
    set.mark_modified();
    assert!(set.windows[1].modified);
    assert!(set.request_close(b));
    assert_eq!(set.pending_close, Some(b));
    assert_eq!(set.windows.len(), 3);
    // Closing it for good clears the question.
    set.close_window(b);
    assert_eq!(set.pending_close, None);
    assert_eq!(ids(&set), vec![1, 3]);
}

#[test]
fn an_unmodified_window_closes_without_asking() {
    let (mut set, a, ..) = three_buffers();
    assert!(!set.request_close(a));
    assert_eq!(ids(&set), vec![2, 3]);
    assert_eq!(set.pending_close, None);
}

#[test]
fn maximise_active_and_restore() {
    let (mut set, _a, _b, c) = three_buffers();
    assert_eq!(set.maximize_active(), Some(true));
    assert_eq!(set.maximized, Some(c));
    assert!(set.restore_windows());
    assert_eq!(set.maximized, None);
    assert!(!set.restore_windows());
    let mut empty: WindowSet<&'static str> = WindowSet::new();
    assert_eq!(empty.maximize_active(), None);
}

#[test]
fn removing_a_detector_closes_its_windows_and_renumbers_the_rest() {
    let mut set: WindowSet<&'static str> = WindowSet::new();
    set.open_detector(0, "zero");
    set.open_detector(1, "one");
    set.open_buffer("buffer");
    set.open_detector(2, "two");
    set.activate(4);
    set.remove_detector_windows(1);
    let targets: Vec<Target> = set.windows.iter().map(|window| window.target).collect();
    assert_eq!(targets, vec![Target::Detector(0), Target::Buffer, Target::Detector(1)]);
    assert_eq!(set.active, Some(2), "the active window is still the one on the last detector");
    assert_eq!(set.windows[2].content, "two");
}

#[test]
fn closing_buffers_keeps_the_detector_windows() {
    let mut set: WindowSet<&'static str> = WindowSet::new();
    set.open_detector(0, "zero");
    set.open_buffer("one");
    set.open_detector(1, "two");
    set.open_buffer("three");
    set.close_buffers();
    assert_eq!(ids(&set), vec![1, 3]);
    assert_eq!(set.active, Some(1));
    let mut again: WindowSet<&'static str> = WindowSet::new();
    again.open_detector(0, "zero");
    again.open_buffer("one");
    again.close_detectors();
    assert_eq!(ids(&again), vec![2]);
    again.close_detectors();
    again.close_buffers();
    assert_eq!(again.active, None);
}

#[test]
fn a_job_works_on_the_active_detector_or_the_first() {
    let mut set: WindowSet<&'static str> = WindowSet::new();
    assert_eq!(set.job_detector(0), None);
    assert_eq!(set.job_detector(3), Some(0));
    set.open_detector(2, "two");
    assert_eq!(set.job_detector(3), Some(2));
    set.open_buffer("buffer");
    assert_eq!(set.job_detector(3), Some(0));
}

#[test]
fn one_window_fills_the_area_at_start() {
    let mut set: WindowSet<&'static str> = WindowSet::new();
    set.open_buffer("only");
    set.settle_layout(&[false]);
    assert_eq!(set.maximized, Some(1));
}

#[test]
fn the_only_window_with_data_fills_the_area_and_is_active() {
    let mut set: WindowSet<&'static str> = WindowSet::new();
    set.open_detector(0, "idle");
    set.open_buffer("recalled");
    set.open_detector(1, "idle too");
    set.settle_layout(&[false, true, false]);
    assert_eq!(set.maximized, Some(2));
    assert_eq!(set.active, Some(1));
}

#[test]
fn two_windows_with_data_share_the_area() {
    let mut set: WindowSet<&'static str> = WindowSet::new();
    set.open_buffer("a");
    set.open_buffer("b");
    set.settle_layout(&[true, true]);
    assert_eq!(set.maximized, None);
    assert_eq!(set.active, Some(1));
    set.settle_layout(&[false, false]);
    assert_eq!(set.maximized, None);
}

#[test]
fn a_window_that_went_away_no_longer_fills_the_area() {
    let (mut set, ..) = three_buffers();
    set.maximized = Some(42);
    set.validate_maximized();
    assert_eq!(set.maximized, None);
    set.maximized = Some(2);
    set.validate_maximized();
    assert_eq!(set.maximized, Some(2));
    assert_eq!(set.position(2), Some(1));
    assert_eq!(set.position(42), None);
}

#[test]
fn focusing_a_window_in_full_area_mode_moves_the_area_to_it() {
    let (mut set, a, b, _c) = three_buffers();
    set.toggle_maximize(a);
    set.focus_window(1);
    assert_eq!(set.active, Some(1));
    assert_eq!(set.maximized, Some(b));
    set.focus_window(7);
    assert_eq!(set.active, Some(1), "no such window: nothing changes");
}

#[test]
fn tiling_leaves_full_area_mode() {
    let (mut set, a, ..) = three_buffers();
    set.toggle_maximize(a);
    assert_eq!(set.tile(0), 3);
    assert_eq!(set.maximized, None);
    let mut empty: WindowSet<&'static str> = WindowSet::new();
    assert_eq!(empty.tile(0), 0);
}

#[test]
fn an_undo_goes_back_into_its_buffer_window_only() {
    let mut set: WindowSet<&'static str> = WindowSet::new();
    set.open_detector(0, "detector");
    let buffer = set.open_buffer("buffer");
    assert_eq!(set.restore_position(Target::Buffer, buffer), Some(1));
    assert_eq!(set.restore_position(Target::Buffer, 1), None, "window 1 shows a detector");
    assert_eq!(set.restore_position(Target::Detector(0), 1), None, "detectors are not written back to");
    set.close_window(buffer);
    assert_eq!(set.restore_position(Target::Buffer, buffer), None);
}

#[test]
fn detector_zero_in_a_job_selects_the_latest_buffer() {
    let mut set: WindowSet<&'static str> = WindowSet::new();
    set.open_buffer("first");
    set.open_buffer("second");
    set.open_detector(0, "detector");
    assert!(set.activate_last_buffer());
    assert_eq!(set.active, Some(1));
    let mut none: WindowSet<&'static str> = WindowSet::new();
    none.open_detector(0, "detector");
    assert!(!none.activate_last_buffer());
    assert_eq!(none.active, Some(0));
}

#[test]
fn every_configured_detector_without_a_window_is_named_once() {
    let mut set: WindowSet<&'static str> = WindowSet::new();
    assert_eq!(set.unshown_detectors(3), vec![0, 1, 2]);
    set.open_detector(1, "one");
    set.open_buffer("buffer");
    assert_eq!(set.unshown_detectors(3), vec![0, 2]);
    assert_eq!(set.unshown_detectors(0), Vec::<usize>::new());
}

#[test]
fn removing_a_detector_hands_on_the_roles_of_its_windows() {
    let mut set: WindowSet<&'static str> = WindowSet::new();
    set.open_detector(0, "zero");
    set.open_buffer("one");
    set.open_detector(1, "two");
    set.open_buffer("three");
    set.activate(3);
    set.maximized = Some(3);
    set.pending_close = Some(3);
    set.remove_detector_windows(1);
    let ids: Vec<usize> = set.windows.iter().map(|window| window.id).collect();
    assert_eq!(ids, vec![1, 2, 4]);
    assert_eq!(set.active, Some(2), "the last window takes over from the closed active one");
    assert_eq!(set.maximized, Some(4), "the area goes to the window that ends up active");
    assert_eq!(set.pending_close, None, "nothing waits on a closed window");
}

#[test]
fn removing_a_detector_keeps_roles_of_windows_that_stay() {
    let mut set: WindowSet<&'static str> = WindowSet::new();
    set.open_detector(0, "zero");
    set.open_buffer("one");
    set.open_detector(1, "two");
    set.activate(2);
    set.maximized = Some(2);
    set.pending_close = Some(2);
    set.remove_detector_windows(0);
    assert_eq!(set.active, Some(0));
    assert_eq!(set.windows[0].id, 2);
    assert_eq!(set.maximized, Some(2));
    assert_eq!(set.pending_close, Some(2));
    set.maximized = Some(99);
    set.remove_detector_windows(5);
    assert_eq!(set.maximized, Some(99), "nothing closes, so nothing changes");
}

#[test]
fn cycling_there_and_back_returns_the_full_area_window() {
    let mut set: WindowSet<&'static str> = WindowSet::new();
    let a = set.open_buffer("a");
    set.open_buffer("b");
    set.open_buffer("c");
    set.activate(a);
    set.toggle_maximize(a);
    assert_eq!(set.cycle_window(1, 0), Some(1));
    assert_eq!(set.maximized, Some(set.windows[1].id));
    assert_eq!(set.cycle_window(-1, 0), Some(0));
    assert_eq!(set.active, Some(0));
    assert_eq!(set.maximized, Some(a));
}
