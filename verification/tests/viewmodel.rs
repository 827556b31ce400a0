use ortseam_gui::viewmodel::{logarithmic_ceiling, sum_bounds, DisplayState, FillMode, VerticalScale, MIN_VIEW_WIDTH};

fn state() -> DisplayState {
    DisplayState::for_length(1024)
}

fn spectrum() -> Vec<u64> {
    (0..1024u64).map(|c| c % 100).collect()
}

#[test]
fn a_logarithmic_axis_tops_out_above_the_tallest_channel() {
    for peak in [1u64, 9, 10, 99, 100, 1_234, 15_675, 3_558_911] {
        let top = logarithmic_ceiling(peak);
        assert!(top > peak, "{peak} needs headroom, got a top of {top}");
    }
}

#[test]
fn a_logarithmic_top_is_a_round_number() {
    assert_eq!(logarithmic_ceiling(1), 2);
    assert_eq!(logarithmic_ceiling(9), 10);
    assert_eq!(logarithmic_ceiling(10), 20);
    assert_eq!(logarithmic_ceiling(99), 100);
    assert_eq!(logarithmic_ceiling(100), 200);
    assert_eq!(logarithmic_ceiling(1_234), 2_000);
    assert_eq!(logarithmic_ceiling(15_675), 20_000);
    assert_eq!(logarithmic_ceiling(3_558_911), 5_000_000);
}

#[test]
fn the_logarithmic_top_of_nothing_and_of_the_largest_count() {
    assert_eq!(logarithmic_ceiling(0), 1);
    assert_eq!(logarithmic_ceiling(19), 20);
    assert_eq!(logarithmic_ceiling(20), 50);
    assert_eq!(logarithmic_ceiling(49), 50);
    assert_eq!(logarithmic_ceiling(50), 100);
    // No round number above it fits: the axis stops at the largest count.
    assert_eq!(logarithmic_ceiling(u64::MAX), u64::MAX);
    assert_eq!(logarithmic_ceiling(10_000_000_000_000_000_000), u64::MAX);
    assert_eq!(logarithmic_ceiling(9_999_999_999_999_999_999), 10_000_000_000_000_000_000);
}

#[test]
fn only_the_logarithmic_axis_gains_headroom() {
    let mut channels = vec![0u64; 64];
    channels[10] = 1_234;
    let mut display = DisplayState::for_length(64);
    display.vertical = VerticalScale::Automatic;
    assert_eq!(display.full_scale(&channels), 1_234);
    display.vertical = VerticalScale::Logarithmic;
    assert_eq!(display.full_scale(&channels), 2_000);
}

#[test]
fn a_new_state_shows_everything() {
    let state = state();
    assert_eq!(state.visible(), (0, 1023));
    assert!(state.is_full_view());
    assert_eq!(state.marker, 0);
}

#[test]
fn the_marker_scrolls_the_window_when_it_would_leave() {
    let mut state = state();
    state.zoom_to(100, 199);
    state.set_marker(250);
    let (start, end) = state.visible();
    assert!((start..=end).contains(&250));
    assert_eq!(end, 250, "the window follows the marker to the right");
    state.set_marker(50);
    assert_eq!(state.visible().0, 50, "and to the left");
}

#[test]
fn the_marker_cannot_leave_the_spectrum() {
    let mut state = state();
    state.set_marker(5000);
    assert_eq!(state.marker, 1023);
    state.move_marker(-10_000);
    assert_eq!(state.marker, 0);
}

#[test]
fn centring_moves_the_window_not_the_marker() {
    let mut state = state();
    state.zoom_to(0, 99);
    state.set_marker(60);
    state.center_on_marker();
    assert_eq!(state.marker, 60);
    let (start, end) = state.visible();
    assert!((start..=end).contains(&60));
    assert!((start as i64 - 10).abs() <= 1, "start {start}");
}

#[test]
fn full_view_resets_the_window_and_baseline() {
    let mut state = state();
    state.zoom_to(10, 20);
    state.baseline = 500;
    state.full_view();
    assert!(state.is_full_view());
    assert_eq!(state.baseline, 0);
}

#[test]
fn automatic_scaling_follows_the_tallest_visible_channel() {
    let mut channels = spectrum();
    channels[500] = 5_000;
    let mut state = state();
    state.vertical = VerticalScale::Automatic;
    assert_eq!(state.full_scale(&channels), 5_000);
    state.zoom_to(0, 99);
    assert_eq!(state.full_scale(&channels), 99, "the spike is off screen");
}

#[test]
fn a_fixed_linear_scale_is_given_back_unchanged() {
    let state = DisplayState { vertical: VerticalScale::Linear(2_000), ..state() };
    assert_eq!(state.full_scale(&spectrum()), 2_000);
    let zero = DisplayState { vertical: VerticalScale::Linear(0), ..state };
    assert_eq!(zero.full_scale(&spectrum()), 1, "a scale of nothing still has a top");
}

#[test]
fn toggling_log_remembers_the_linear_scale() {
    let channels = spectrum();
    let mut state = state();
    state.vertical = VerticalScale::Automatic;
    state.toggle_log(&channels);
    assert_eq!(state.vertical, VerticalScale::Logarithmic);
    state.toggle_log(&channels);
    assert!(matches!(state.vertical, VerticalScale::Linear(_)));
}

#[test]
fn leaving_the_logarithmic_axis_keeps_its_top_as_the_linear_scale() {
    let channels = spectrum();
    let mut state = state();
    state.toggle_log(&channels);
    assert_eq!(state.vertical, VerticalScale::Linear(100));
}

#[test]
fn changing_length_keeps_the_view_inside_the_spectrum() {
    let mut state = state();
    state.zoom_to(900, 1000);
    state.set_length(512);
    let (start, end) = state.visible();
    assert!(end < 512, "visible {start}..{end}");
    assert!(state.marker < 512);
}

#[test]
fn a_view_of_everything_keeps_showing_everything_when_the_spectrum_grows() {
    let mut state = DisplayState::for_length(512);
    state.set_length(2048);
    assert_eq!(state.visible(), (0, 2047));
    let mut zoomed = DisplayState::for_length(512);
    zoomed.zoom_to(100, 199);
    zoomed.set_length(2048);
    assert_eq!(zoomed.visible(), (100, 199));
}

#[test]
fn an_empty_spectrum_resets_the_view() {
    let mut state = state();
    state.zoom_to(10, 20);
    state.set_length(0);
    assert_eq!(state, DisplayState::default());
    state.set_marker(10);
    assert_eq!(state.marker, 0);
    assert_eq!(state.visible(), (0, 0));
    assert_eq!(state.full_scale(&[]), 1);
}

#[test]
fn the_view_never_narrows_below_the_smallest_width() {
    let mut state = state();
    state.zoom_to(300, 301);
    let (start, end) = state.visible();
    assert_eq!(end - start + 1, MIN_VIEW_WIDTH);
    assert_eq!(start, 300);
    // A reversed range zooms to the same channels.
    let mut reversed = DisplayState::for_length(1024);
    reversed.zoom_to(301, 300);
    assert_eq!(reversed.visible(), (start, end));
}

#[test]
fn scrolling_moves_the_window_and_stops_at_the_ends() {
    let mut state = state();
    state.zoom_to(100, 199);
    state.scroll(50);
    assert_eq!(state.visible(), (150, 249));
    state.scroll(-1_000);
    assert_eq!(state.visible(), (0, 99));
    state.scroll(5_000);
    assert_eq!(state.visible(), (924, 1023));
}

#[test]
fn the_baseline_lifts_to_the_smallest_visible_count_and_back() {
    let mut channels = vec![50u64; 1024];
    channels[10] = 7;
    channels[700] = 3;
    let mut state = state();
    state.zoom_to(0, 99);
    state.baseline_zoom(&channels);
    assert_eq!(state.baseline, 7, "channel 700 is off screen");
    state.baseline_zoom(&channels);
    assert_eq!(state.baseline, 0);
}

#[test]
fn the_baseline_raises_the_floor_of_an_automatic_scale() {
    let channels = vec![4u64; 64];
    let mut state = DisplayState::for_length(64);
    state.vertical = VerticalScale::Automatic;
    state.baseline = 10;
    assert_eq!(state.full_scale(&channels), 11);
}

#[test]
fn a_state_draws_filled_on_an_energy_axis_by_default() {
    let state = DisplayState::for_length(16);
    assert_eq!(state.fill, FillMode::FillAll);
    assert_eq!(FillMode::default(), FillMode::FillAll);
    assert_eq!(VerticalScale::default(), VerticalScale::Logarithmic);
    assert!(state.energy_axis);
    assert!(!state.isotope_markers);
    assert_eq!(state.length(), 16);
}

#[test]
fn a_sum_covers_the_selection_then_the_region_then_everything() {
    assert_eq!(sum_bounds(Some((10, 20)), Some((5, 6)), 100), (10, 20));
    assert_eq!(sum_bounds(None, Some((5, 6)), 100), (5, 6));
    assert_eq!(sum_bounds(None, None, 100), (0, 99));
    assert_eq!(sum_bounds(None, None, 0), (0, 0));
}
