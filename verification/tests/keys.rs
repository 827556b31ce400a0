use ortseam_gui::keys::{key_commands, ActiveView, Key, KeyCommand, KeyContext, Modifiers};
use ortseam_gui::view::MarkMode;
use ortseam_gui::viewmodel::VerticalScale;

const PLAIN: Modifiers = Modifiers { shift: false, ctrl: false, alt: false };
const SHIFT: Modifiers = Modifiers { shift: true, ctrl: false, alt: false };
const CTRL: Modifiers = Modifiers { shift: false, ctrl: true, alt: false };
const CTRL_SHIFT: Modifiers = Modifiers { shift: true, ctrl: true, alt: false };
const ALT: Modifiers = Modifiers { shift: false, ctrl: false, alt: true };

fn view() -> ActiveView {
    ActiveView { view_width: 100, vertical: VerticalScale::Logarithmic, comparing: false, peak_card_open: false }
}

fn context() -> KeyContext {
    KeyContext { typing: false, active: Some(view()), mark_mode: MarkMode::Off, dialogs_open: false, detector_count: 2 }
}

#[test]
fn the_arrows_move_the_marker_one_or_ten_channels() {
    assert_eq!(key_commands(&[Key::ArrowRight], PLAIN, context()), vec![KeyCommand::MoveMarker(1)]);
    assert_eq!(key_commands(&[Key::ArrowLeft], SHIFT, context()), vec![KeyCommand::MoveMarker(-10)]);
    let no_window = KeyContext { active: None, ..context() };
    assert!(key_commands(&[Key::ArrowRight], PLAIN, no_window).is_empty());
}

#[test]
fn page_keys_scroll_half_a_window() {
    assert_eq!(key_commands(&[Key::PageUp], PLAIN, context()), vec![KeyCommand::Scroll(50)]);
    assert_eq!(key_commands(&[Key::PageDown], PLAIN, context()), vec![KeyCommand::Scroll(-50)]);
    let narrow = KeyContext { active: Some(ActiveView { view_width: 9, ..view() }), ..context() };
    assert_eq!(key_commands(&[Key::PageDown], PLAIN, narrow), vec![KeyCommand::Scroll(-4)]);
}

#[test]
fn a_focused_text_field_keeps_the_plain_keys() {
    let typing = KeyContext { typing: true, ..context() };
    for key in [Key::ArrowRight, Key::Home, Key::Delete, Key::Num5, Key::Slash, Key::Plus, Key::Escape] {
        assert!(key_commands(&[key], PLAIN, typing).is_empty(), "{key:?}");
    }
    // The function keys and the chords still work.
    assert_eq!(key_commands(&[Key::F4], PLAIN, typing), vec![KeyCommand::OpenBuffer]);
    assert_eq!(key_commands(&[Key::S], CTRL, typing), vec![KeyCommand::Save]);
}

#[test]
fn escape_closes_dialogs_before_the_plot_overlays() {
    let with_dialog = KeyContext { dialogs_open: true, ..context() };
    assert_eq!(key_commands(&[Key::Escape], PLAIN, with_dialog), vec![KeyCommand::CloseDialogs]);
    assert_eq!(
        key_commands(&[Key::Escape], PLAIN, context()),
        vec![KeyCommand::ClearCompare, KeyCommand::ClearSelection, KeyCommand::ClosePeakInfo]
    );
}

#[test]
fn f2_steps_through_the_marking_modes() {
    let modes = [(MarkMode::Off, MarkMode::Mark), (MarkMode::Mark, MarkMode::UnMark), (MarkMode::UnMark, MarkMode::Off)];
    for (from, to) in modes {
        let c = KeyContext { mark_mode: from, ..context() };
        assert_eq!(key_commands(&[Key::F2], PLAIN, c), vec![KeyCommand::SetMarkMode(to)]);
    }
}

#[test]
fn ctrl_with_a_function_key_opens_a_configured_detector() {
    assert_eq!(
        key_commands(&[Key::F2], CTRL, context()),
        vec![KeyCommand::SetMarkMode(MarkMode::Mark), KeyCommand::OpenDetector(1)]
    );
    assert_eq!(key_commands(&[Key::F5], CTRL, context()), vec![]);
}

#[test]
fn chords_name_the_history_and_file_commands() {
    assert_eq!(key_commands(&[Key::Z], CTRL, context()), vec![KeyCommand::Undo]);
    assert_eq!(key_commands(&[Key::Z], CTRL_SHIFT, context()), vec![KeyCommand::Redo]);
    assert_eq!(key_commands(&[Key::Y], CTRL, context()), vec![KeyCommand::Redo]);
    assert_eq!(key_commands(&[Key::S], CTRL_SHIFT, context()), vec![KeyCommand::SaveAs]);
    assert_eq!(key_commands(&[Key::Tab], CTRL_SHIFT, context()), vec![KeyCommand::CycleWindow(-1)]);
    assert_eq!(key_commands(&[Key::Num1], ALT, context()), vec![KeyCommand::Start]);
    assert_eq!(key_commands(&[Key::Num5], ALT, context()), vec![KeyCommand::Center, KeyCommand::CopyToBuffer]);
    assert_eq!(key_commands(&[Key::A], CTRL, context()), vec![]);
}

#[test]
fn shift_and_an_arrow_nudge_the_comparison() {
    let comparing = KeyContext {
        active: Some(ActiveView { comparing: true, vertical: VerticalScale::Linear(2_000), ..view() }),
        ..context()
    };
    assert_eq!(key_commands(&[Key::ArrowUp], SHIFT, comparing), vec![KeyCommand::OffsetCompare(100)]);
    let automatic = KeyContext { active: Some(ActiveView { comparing: true, ..view() }), ..context() };
    assert_eq!(key_commands(&[Key::ArrowDown], SHIFT, automatic), vec![KeyCommand::OffsetCompare(-50)]);
    assert!(key_commands(&[Key::ArrowUp], SHIFT, context()).is_empty(), "nothing to nudge");
}

#[test]
fn ctrl_c_copies_an_open_peak_card() {
    let card = KeyContext { active: Some(ActiveView { peak_card_open: true, ..view() }), ..context() };
    assert_eq!(key_commands(&[Key::C], CTRL, card), vec![KeyCommand::CopyPeakInfo]);
    assert!(key_commands(&[Key::C], CTRL, context()).is_empty());
}

#[test]
fn several_keys_in_one_frame_come_out_in_the_table_order() {
    assert_eq!(
        key_commands(&[Key::F1, Key::Home, Key::Minus], PLAIN, context()),
        vec![KeyCommand::Marker(0), KeyCommand::ZoomOut, KeyCommand::ShowShortcuts]
    );
    assert_eq!(key_commands(&[Key::End], PLAIN, context()), vec![KeyCommand::Marker(usize::MAX)]);
}
