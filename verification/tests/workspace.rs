use ortseam_gui::dialogs::Dialog;
use ortseam_gui::view::MarkMode;
use ortseam_gui::viewmodel::{DisplayState, FillMode, VerticalScale};
use ortseam_gui::windows::Target;
use ortseam_gui::workspace::{Command, Effect, Pane, Tiling, Workspace};

fn pane(title: &str, channels: Vec<u64>) -> Pane {
    let display = DisplayState::for_length(channels.len());
    Pane { title: title.to_string(), channels, display, selection: None, compare: None }
}

/// A workspace with one buffer of 100 channels counting 1000 - channel.
fn one_buffer() -> (Workspace, usize) {
    let mut workspace = Workspace::new(0);
    let channels: Vec<u64> = (0..100u64).map(|channel| 1000 - channel).collect();
    let id = workspace.windows.open_buffer(pane("b.chn", channels));
    (workspace, id)
}

fn active_display(workspace: &Workspace) -> DisplayState {
    workspace.windows.windows[workspace.windows.active.unwrap()].content.display
}

#[test]
fn closing_a_modified_buffer_asks_first() {
    let (mut workspace, id) = one_buffer();
    workspace.windows.windows[0].modified = true;
    let count = workspace.windows.windows.len();
    let effect = workspace.apply(Command::CloseWindow(id));
    assert_eq!(effect, Effect::Nothing);
    assert_eq!(workspace.windows.windows.len(), count);
    assert!(workspace.windows.windows.iter().any(|window| window.id == id && window.open));
    assert_eq!(workspace.windows.pending_close, Some(id));
    assert!(workspace.dialogs.is_open(Dialog::ConfirmClose));
}

#[test]
fn closing_a_saved_buffer_closes_it() {
    let (mut workspace, id) = one_buffer();
    workspace.apply(Command::CloseWindow(id));
    assert!(workspace.windows.windows.is_empty());
    assert_eq!(workspace.windows.active, None);
    assert!(!workspace.dialogs.is_open(Dialog::ConfirmClose));
}

#[test]
fn forcing_a_close_does_not_ask() {
    let (mut workspace, id) = one_buffer();
    workspace.windows.windows[0].modified = true;
    workspace.apply(Command::ForceCloseWindow(id));
    assert!(workspace.windows.windows.is_empty());
    assert!(!workspace.dialogs.is_open(Dialog::ConfirmClose));
}

#[test]
fn the_marker_lands_on_the_active_display() {
    let (mut workspace, _) = one_buffer();
    workspace.apply(Command::Marker(42));
    assert_eq!(active_display(&workspace).marker, 42);
    workspace.apply(Command::Marker(500));
    assert_eq!(active_display(&workspace).marker, 99);
}

#[test]
fn zooming_to_a_range_shows_it() {
    let (mut workspace, _) = one_buffer();
    workspace.apply(Command::ZoomTo(40, 20));
    let display = active_display(&workspace);
    assert_eq!((display.view_start, display.view_width), (20, 21));
    workspace.apply(Command::Scroll(-5));
    assert_eq!(active_display(&workspace).view_start, 15);
    workspace.apply(Command::FullView);
    let display = active_display(&workspace);
    assert_eq!((display.view_start, display.view_width), (0, 100));
}

#[test]
fn selecting_and_clearing_a_range() {
    let (mut workspace, _) = one_buffer();
    workspace.apply(Command::Select(3, 9));
    assert_eq!(workspace.windows.windows[0].content.selection, Some((3, 9)));
    workspace.apply(Command::ClearSelection);
    assert_eq!(workspace.windows.windows[0].content.selection, None);
}

#[test]
fn baseline_zoom_lifts_to_the_smallest_visible_count_and_back() {
    let (mut workspace, _) = one_buffer();
    workspace.apply(Command::ZoomTo(10, 19));
    workspace.apply(Command::BaselineZoom);
    assert_eq!(active_display(&workspace).baseline, 981);
    workspace.apply(Command::BaselineZoom);
    assert_eq!(active_display(&workspace).baseline, 0);
}

#[test]
fn toggling_log_goes_to_a_fixed_linear_scale_and_back() {
    let (mut workspace, _) = one_buffer();
    workspace.apply(Command::ToggleLog);
    assert_eq!(active_display(&workspace).vertical, VerticalScale::Linear(2000));
    workspace.apply(Command::ToggleLog);
    assert_eq!(active_display(&workspace).vertical, VerticalScale::Logarithmic);
    workspace.apply(Command::AutoScale);
    assert_eq!(active_display(&workspace).vertical, VerticalScale::Automatic);
}

#[test]
fn display_switches_flip_on_the_active_window() {
    let (mut workspace, _) = one_buffer();
    workspace.apply(Command::SetFill(FillMode::Points));
    workspace.apply(Command::ToggleIsotopeMarkers);
    workspace.apply(Command::ToggleEnergyAxis);
    let display = active_display(&workspace);
    assert_eq!(display.fill, FillMode::Points);
    assert!(display.isotope_markers);
    assert!(!display.energy_axis);
}

#[test]
fn view_commands_without_a_window_change_nothing() {
    let mut workspace = Workspace::new(0);
    assert_eq!(workspace.apply(Command::Marker(3)), Effect::Nothing);
    assert_eq!(workspace.apply(Command::ClearCompare), Effect::Nothing);
    assert!(workspace.windows.windows.is_empty());
    assert_eq!(workspace.status, "");
}

#[test]
fn clearing_the_comparison_says_so() {
    let (mut workspace, _) = one_buffer();
    workspace.windows.windows[0].content.compare = Some(vec![1, 2, 3]);
    workspace.apply(Command::ClearCompare);
    assert_eq!(workspace.windows.windows[0].content.compare, None);
    assert_eq!(workspace.status, "comparison cleared");
}

#[test]
fn smoothing_a_buffer_is_handed_to_the_interface() {
    let (mut workspace, _) = one_buffer();
    assert_eq!(workspace.apply(Command::Smooth), Effect::Smooth(0));
    assert!(workspace.windows.windows[0].modified);
    assert_eq!(workspace.status, "smoothed (Edit/Undo takes it back)");
}

#[test]
fn smoothing_a_detector_window_is_refused() {
    let mut workspace = Workspace::new(1);
    workspace.windows.open_detector(0, pane("Detector 1", vec![5; 16]));
    assert_eq!(workspace.apply(Command::Smooth), Effect::Nothing);
    assert!(!workspace.windows.windows[0].modified);
    assert_eq!(workspace.status, "Smooth works on a buffer; use Acquire/Copy to Buffer");
    assert_eq!(workspace.windows.windows[0].target, Target::Detector(0));
}

#[test]
fn the_marking_mode_is_reported() {
    let mut workspace = Workspace::new(0);
    workspace.apply(Command::SetMarkMode(MarkMode::UnMark));
    assert_eq!(workspace.mark_mode, MarkMode::UnMark);
    assert_eq!(workspace.status, "region marking: UnMarking");
}

#[test]
fn show_opens_a_dialog_and_status_sets_the_line() {
    let mut workspace = Workspace::new(0);
    workspace.apply(Command::Show(Dialog::Settings));
    assert!(workspace.dialogs.is_open(Dialog::Settings));
    workspace.apply(Command::Status("ready".to_string()));
    assert_eq!(workspace.status, "ready");
}

#[test]
fn an_empty_buffer_opens_active() {
    let mut workspace = Workspace::new(0);
    workspace.apply(Command::OpenBuffer);
    assert_eq!(workspace.windows.windows.len(), 1);
    assert_eq!(workspace.windows.active, Some(0));
    assert_eq!(workspace.windows.windows[0].content.title, "Buffer");
    assert!(workspace.windows.windows[0].content.channels.is_empty());
    assert_eq!(workspace.status, "empty buffer opened");
}

#[test]
fn maximising_toggles_and_reports() {
    let (mut workspace, id) = one_buffer();
    workspace.apply(Command::ToggleMaximize(id));
    assert_eq!(workspace.windows.maximized, Some(id));
    assert_eq!(workspace.status, "window fills the spectrum area (Ctrl+M restores it)");
    workspace.apply(Command::MaximizeActive);
    assert_eq!(workspace.windows.maximized, None);
    assert_eq!(workspace.status, "window restored");
    workspace.apply(Command::MaximizeActive);
    assert_eq!(workspace.windows.maximized, Some(id));
    workspace.apply(Command::Status(String::new()));
    workspace.apply(Command::RestoreWindows);
    assert_eq!(workspace.windows.maximized, None);
    assert_eq!(workspace.status, "window restored");
    workspace.apply(Command::Status(String::new()));
    workspace.apply(Command::RestoreWindows);
    assert_eq!(workspace.status, "");
}

#[test]
fn activating_follows_the_id_and_the_full_area() {
    let (mut workspace, first) = one_buffer();
    let second = workspace.windows.open_buffer(pane("c.chn", vec![1; 10]));
    workspace.apply(Command::ToggleMaximize(second));
    workspace.apply(Command::Activate(first));
    assert_eq!(workspace.windows.active, Some(0));
    assert_eq!(workspace.windows.maximized, Some(first));
    workspace.apply(Command::Activate(999));
    assert_eq!(workspace.windows.active, Some(0));
}

#[test]
fn cycling_names_the_window_moved_to() {
    let (mut workspace, _) = one_buffer();
    workspace.windows.open_buffer(pane("c.chn", vec![1; 10]));
    workspace.apply(Command::CycleWindow(1));
    assert_eq!(workspace.windows.active, Some(0));
    assert_eq!(workspace.status, "window: b.chn");
    workspace.apply(Command::CycleWindow(-1));
    assert_eq!(workspace.windows.active, Some(1));
    assert_eq!(workspace.status, "window: c.chn");
}

#[test]
fn arranging_counts_the_windows() {
    let mut workspace = Workspace::new(0);
    assert_eq!(workspace.apply(Command::Tile(Tiling::Rows)), Effect::Nothing);
    assert_eq!(workspace.status, "no windows to arrange");
    workspace.windows.open_buffer(pane("a", vec![1; 10]));
    workspace.windows.open_buffer(pane("b", vec![1; 10]));
    workspace.windows.maximized = Some(1);
    assert_eq!(workspace.apply(Command::Tile(Tiling::Cascade)), Effect::Arrange(Tiling::Cascade));
    assert_eq!(workspace.status, "2 window(s) cascaded");
    assert_eq!(workspace.windows.maximized, None);
    workspace.apply(Command::Tile(Tiling::Columns));
    assert_eq!(workspace.status, "2 window(s) tiled vertically");
}

#[test]
fn collapsing_is_handed_to_the_interface() {
    let mut workspace = Workspace::new(0);
    assert_eq!(workspace.apply(Command::Collapse(true)), Effect::Collapse(true));
    assert_eq!(workspace.status, "windows collapsed to their title bars");
    assert_eq!(workspace.apply(Command::Collapse(false)), Effect::Collapse(false));
    assert_eq!(workspace.status, "windows expanded");
}

#[test]
fn cycling_forwards_and_back_returns_in_full_area_mode() {
    let (mut workspace, first) = one_buffer();
    workspace.windows.open_buffer(pane("c.chn", vec![1; 10]));
    workspace.windows.open_buffer(pane("d.chn", vec![1; 10]));
    workspace.apply(Command::Activate(first));
    workspace.apply(Command::MaximizeActive);
    assert_eq!(workspace.windows.maximized, Some(first));
    workspace.apply(Command::CycleWindow(1));
    assert_eq!(workspace.windows.active, Some(1));
    assert_eq!(workspace.windows.maximized, Some(workspace.windows.windows[1].id));
    workspace.apply(Command::CycleWindow(-1));
    assert_eq!(workspace.windows.active, Some(0));
    assert_eq!(workspace.windows.maximized, Some(first));
}

/// What `Workspace::well_formed` asks, checked at run time.
fn assert_well_formed(workspace: &Workspace) {
    let windows = &workspace.windows.windows;
    if let Some(active) = workspace.windows.active {
        assert!(active < windows.len());
    }
    for (i, a) in windows.iter().enumerate() {
        assert!(a.id < workspace.windows.next_id);
        for b in &windows[i + 1..] {
            assert_ne!(a.id, b.id);
        }
        let display = a.content.display;
        let length = a.content.channels.len();
        assert_eq!(display.length, length);
        assert!(display.view_width >= 1);
        assert!(display.view_start + display.view_width <= length.max(8));
        if length > 0 {
            assert!(display.marker < length);
        } else {
            assert_eq!((display.marker, display.view_start), (0, 0));
        }
    }
}

#[test]
fn hammering_commands_keeps_the_workspace_usable() {
    for seed in [0x5EED_CAFE_u64, 0xDEAD_BEEF, 0x0BAD_F00D] {
        let mut workspace = Workspace::new(3);
        let spectrum: Vec<u64> = (0..8192u64).map(|channel| (channel * 7919) % 1013).collect();
        for detector in 0..3 {
            workspace.windows.open_detector(detector, pane("Detector", spectrum.clone()));
        }
        workspace.windows.open_buffer(pane("Buffer", spectrum.clone()));
        let mut state = seed;
        for _ in 0..1000 {
            state ^= state << 13;
            state ^= state >> 7;
            state ^= state << 17;
            let value = state;
            let index = (value >> 32) as usize;
            let channel = index % 10_000;
            let command = match value % 22 {
                0 => Command::Marker(channel),
                1 => Command::ZoomTo(channel, (value % 12_000) as usize),
                2 => Command::SetMarkMode(match value % 3 {
                    0 => MarkMode::Off,
                    1 => MarkMode::Mark,
                    _ => MarkMode::UnMark,
                }),
                3 => Command::Smooth,
                4 => Command::OpenBuffer,
                5 => Command::CloseWindow(index),
                6 => Command::ForceCloseWindow(index % 8),
                7 => Command::Activate(index % 8),
                8 => Command::Tile(Tiling::Rows),
                9 => Command::Tile(Tiling::Columns),
                10 => Command::Tile(Tiling::Cascade),
                11 => Command::ToggleMaximize(index % 8),
                12 => Command::CycleWindow(if value & 1 == 0 { 1 } else { -1 }),
                13 => Command::Show(Dialog::Strip),
                14 => Command::Select(channel, (value % 12_000) as usize),
                15 => Command::Center,
                16 => Command::FullView,
                17 => Command::Scroll((value % 2_001) as i64 - 1_000),
                18 => Command::MaximizeActive,
                19 => Command::RestoreWindows,
                20 => Command::Collapse(value & 1 == 0),
                _ => Command::ToggleLog,
            };
            workspace.apply(command);
            assert_well_formed(&workspace);
        }
    }
}

#[test]
fn discarding_after_the_question_closes_the_buffer() {
    let (mut workspace, id) = one_buffer();
    workspace.windows.open_buffer(pane("c.chn", vec![1; 10]));
    workspace.windows.windows[0].modified = true;
    workspace.apply(Command::CloseWindow(id));
    assert_eq!(workspace.windows.windows.len(), 2);
    assert_eq!(workspace.windows.pending_close, Some(id));
    workspace.apply(Command::ForceCloseWindow(id));
    assert_eq!(workspace.windows.windows.len(), 1);
    assert!(workspace.windows.windows.iter().all(|window| window.id != id));
    assert_eq!(workspace.windows.pending_close, None);
}

#[test]
fn a_new_workspace_hands_out_ids_from_one() {
    let mut workspace = Workspace::new(0);
    assert_eq!(workspace.windows.next_id, 1);
    workspace.apply(Command::OpenBuffer);
    assert_eq!(workspace.windows.windows[0].id, 1);
}
