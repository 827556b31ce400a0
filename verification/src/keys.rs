//! The keyboard: which commands the keys pressed in one frame ask for, given
//! the modifiers held and what the workbench is showing.

use vstd::prelude::*;
use crate::view::MarkMode;
use crate::viewmodel::VerticalScale;

verus! {

/// The keys the workbench answers to.
#[derive(Clone, Copy, Debug, PartialEq, Eq, Structural)]
pub enum Key {
    ArrowLeft,
    ArrowRight,
    ArrowUp,
    ArrowDown,
    Home,
    End,
    PageUp,
    PageDown,
    Plus,
    Equals,
    Minus,
    Slash,
    Insert,
    Delete,
    Escape,
    Tab,
    A,
    C,
    M,
    O,
    P,
    S,
    Y,
    Z,
    Num1,
    Num2,
    Num3,
    Num5,
    F1,
    F2,
    F3,
    F4,
    F5,
    F6,
    F7,
    F8,
    F9,
    F10,
    F11,
    F12,
}

/// The modifier keys held; `ctrl` is Ctrl or, on a Mac, Command.
#[derive(Clone, Copy, Debug, PartialEq, Eq, Structural)]
pub struct Modifiers {
    pub shift: bool,
    pub ctrl: bool,
    pub alt: bool,
}

/// What the active spectrum window shows, as far as the keys care.
#[derive(Clone, Copy, Debug, PartialEq, Eq, Structural)]
pub struct ActiveView {
    /// How many channels the window spans.
    pub view_width: usize,
    /// Its vertical scale.
    pub vertical: VerticalScale,
    /// Whether a comparison spectrum is drawn over it.
    pub comparing: bool,
    /// Whether its peak-information card is open.
    pub peak_card_open: bool,
}

/// What the workbench is showing when the keys are read.
#[derive(Clone, Copy, Debug, PartialEq, Eq, Structural)]
pub struct KeyContext {
    /// A text field has the keyboard: the plain keys are its to type with.
    pub typing: bool,
    /// The active window, when there is one.
    pub active: Option<ActiveView>,
    /// The region-marking mode in force.
    pub mark_mode: MarkMode,
    /// Whether any dialog is open.
    pub dialogs_open: bool,
    /// How many detectors are configured.
    pub detector_count: usize,
}

/// What a key asks the workbench to do.
#[derive(Clone, Copy, Debug, PartialEq, Eq, Structural)]
pub enum KeyCommand {
    /// Move the active window's marker by this many channels.
    MoveMarker(i64),
    /// Put the marker on a channel (past the end means the last one).
    Marker(usize),
    /// Scroll the view by this many channels.
    Scroll(i64),
    ZoomIn,
    ZoomOut,
    ToggleLog,
    AutoScale,
    /// Centre the view on the marker.
    Center,
    /// Mark a region on the peak at the marker.
    MarkPeak,
    /// Clear the region under the marker.
    ClearRoi,
    /// Switch the region-marking mode.
    SetMarkMode(MarkMode),
    /// Show the zero-dead-time spectrum.
    ViewZdt,
    OpenBuffer,
    /// Close every open dialog, and forget a pending close question.
    CloseDialogs,
    ClearCompare,
    ClearSelection,
    /// Close the active window's peak-information card.
    ClosePeakInfo,
    MaximizeActive,
    /// Move the comparison trace up or down by this many counts.
    OffsetCompare(i64),
    /// Show the keyboard commands.
    ShowShortcuts,
    /// Ctrl+Tab (1) or Ctrl+Shift+Tab (-1).
    CycleWindow(i32),
    /// Open the window on a detector, by index.
    OpenDetector(usize),
    Undo,
    Redo,
    Recall,
    Print,
    /// Copy the open peak-information card.
    CopyPeakInfo,
    Save,
    SaveAs,
    Start,
    Stop,
    Clear,
    CopyToBuffer,
}

/// The marking mode F2 moves to: off, marking, unmarking, and round again.
pub open spec fn next_mark_mode(mode: MarkMode) -> MarkMode {
    match mode {
        MarkMode::Off => MarkMode::Mark,
        MarkMode::Mark => MarkMode::UnMark,
        MarkMode::UnMark => MarkMode::Off,
    }
}

/// The commands of the rules whose condition holds, in order.
pub open spec fn chosen(rules: Seq<(bool, KeyCommand)>) -> Seq<KeyCommand>
    decreases rules.len(),
{
    if rules.len() == 0 {
        Seq::empty()
    } else {
        let earlier = chosen(rules.drop_last());
        if rules.last().0 {
            earlier.push(rules.last().1)
        } else {
            earlier
        }
    }
}

/// How far Shift with the up and down arrows moves a comparison trace: a
/// twentieth of a fixed linear scale, or of 1000 counts otherwise, and at
/// least one count.
pub open spec fn compare_step(vertical: VerticalScale) -> i64 {
    let scale: u64 = match vertical {
        VerticalScale::Linear(max) => max,
        _ => 1000,
    };
    if scale / 20 >= 1 {
        (scale / 20) as i64
    } else {
        1
    }
}

/// How many rules the keyboard has.
pub const KEY_RULES: usize = 46;

/// The keyboard, rule by rule, in the order the workbench carries the
/// commands out: rule `index` is a command with the condition under which
/// the keys pressed ask for it. A text field with the keyboard silences the
/// plain keys; the function keys and the Ctrl and Alt chords type nothing,
/// so they keep working. Escape peels the topmost layer: open dialogs first,
/// and only then the plot's own overlays.
pub open spec fn key_rule(index: int, pressed: Seq<Key>, m: Modifiers, c: KeyContext) -> (bool, KeyCommand) {
    let free = !c.typing;
    let active = c.active is Some;
    let step: i64 = if m.shift { 10 } else { 1 };
    let back: i64 = (-step) as i64;
    let width: i64 = match c.active {
        Some(view) => view.view_width as i64,
        None => 0,
    };
    // Half the width, rounded towards zero as integer division does.
    let half: i64 = if width >= 0 {
        (width / 2) as i64
    } else {
        (-((-width) / 2)) as i64
    };
    let back_half: i64 = (-half) as i64;
    let comparing = c.active matches Some(view) && view.comparing;
    let card = c.active matches Some(view) && view.peak_card_open;
    let nudge = match c.active {
        Some(view) => compare_step(view.vertical),
        None => 1,
    };
    let nudge_down: i64 = (-nudge) as i64;
    let next_mode = next_mark_mode(c.mark_mode);
    if index == 0 {
        (free && pressed.contains(Key::ArrowRight) && active, KeyCommand::MoveMarker(step))
    } else if index == 1 {
        (free && pressed.contains(Key::ArrowLeft) && active, KeyCommand::MoveMarker(back))
    } else if index == 2 {
        (free && pressed.contains(Key::Home), KeyCommand::Marker(0))
    } else if index == 3 {
        (free && pressed.contains(Key::End), KeyCommand::Marker(usize::MAX))
    } else if index == 4 {
        (free && pressed.contains(Key::PageUp) && active, KeyCommand::Scroll(half))
    } else if index == 5 {
        (free && pressed.contains(Key::PageDown) && active, KeyCommand::Scroll(back_half))
    } else if index == 6 {
        (free && (pressed.contains(Key::Plus) || pressed.contains(Key::Equals)), KeyCommand::ZoomIn)
    } else if index == 7 {
        (free && pressed.contains(Key::Minus), KeyCommand::ZoomOut)
    } else if index == 8 {
        (free && pressed.contains(Key::Slash), KeyCommand::ToggleLog)
    } else if index == 9 {
        (free && pressed.contains(Key::A) && !m.ctrl && !m.alt, KeyCommand::AutoScale)
    } else if index == 10 {
        (free && pressed.contains(Key::Num5) && !m.ctrl, KeyCommand::Center)
    } else if index == 11 {
        (free && pressed.contains(Key::Insert), KeyCommand::MarkPeak)
    } else if index == 12 {
        (free && pressed.contains(Key::Delete), KeyCommand::ClearRoi)
    } else if index == 13 {
        (pressed.contains(Key::F2), KeyCommand::SetMarkMode(next_mode))
    } else if index == 14 {
        (pressed.contains(Key::F3), KeyCommand::ViewZdt)
    } else if index == 15 {
        (pressed.contains(Key::F4), KeyCommand::OpenBuffer)
    } else if index == 16 {
        (free && pressed.contains(Key::Escape) && c.dialogs_open, KeyCommand::CloseDialogs)
    } else if index == 17 {
        (free && pressed.contains(Key::Escape) && !c.dialogs_open, KeyCommand::ClearCompare)
    } else if index == 18 {
        (free && pressed.contains(Key::Escape) && !c.dialogs_open, KeyCommand::ClearSelection)
    } else if index == 19 {
        (free && pressed.contains(Key::Escape) && !c.dialogs_open && active, KeyCommand::ClosePeakInfo)
    } else if index == 20 {
        (m.ctrl && pressed.contains(Key::M), KeyCommand::MaximizeActive)
    } else if index == 21 {
        (free && m.shift && (pressed.contains(Key::ArrowUp) || pressed.contains(Key::ArrowDown)) && comparing, KeyCommand::OffsetCompare(if pressed.contains(Key::ArrowUp) { nudge } else { nudge_down }))
    } else if index == 22 {
        (pressed.contains(Key::F1), KeyCommand::ShowShortcuts)
    } else if index == 23 {
        (m.ctrl && pressed.contains(Key::Tab), KeyCommand::CycleWindow(if m.shift { -1i32 } else { 1i32 }))
    } else if index == 24 {
        (m.ctrl && pressed.contains(Key::F1) && 0 < c.detector_count, KeyCommand::OpenDetector(0))
    } else if index == 25 {
        (m.ctrl && pressed.contains(Key::F2) && 1 < c.detector_count, KeyCommand::OpenDetector(1))
    } else if index == 26 {
        (m.ctrl && pressed.contains(Key::F3) && 2 < c.detector_count, KeyCommand::OpenDetector(2))
    } else if index == 27 {
        (m.ctrl && pressed.contains(Key::F4) && 3 < c.detector_count, KeyCommand::OpenDetector(3))
    } else if index == 28 {
        (m.ctrl && pressed.contains(Key::F5) && 4 < c.detector_count, KeyCommand::OpenDetector(4))
    } else if index == 29 {
        (m.ctrl && pressed.contains(Key::F6) && 5 < c.detector_count, KeyCommand::OpenDetector(5))
    } else if index == 30 {
        (m.ctrl && pressed.contains(Key::F7) && 6 < c.detector_count, KeyCommand::OpenDetector(6))
    } else if index == 31 {
        (m.ctrl && pressed.contains(Key::F8) && 7 < c.detector_count, KeyCommand::OpenDetector(7))
    } else if index == 32 {
        (m.ctrl && pressed.contains(Key::F9) && 8 < c.detector_count, KeyCommand::OpenDetector(8))
    } else if index == 33 {
        (m.ctrl && pressed.contains(Key::F10) && 9 < c.detector_count, KeyCommand::OpenDetector(9))
    } else if index == 34 {
        (m.ctrl && pressed.contains(Key::F11) && 10 < c.detector_count, KeyCommand::OpenDetector(10))
    } else if index == 35 {
        (m.ctrl && pressed.contains(Key::F12) && 11 < c.detector_count, KeyCommand::OpenDetector(11))
    } else if index == 36 {
        (m.ctrl && pressed.contains(Key::Z), if m.shift { KeyCommand::Redo } else { KeyCommand::Undo })
    } else if index == 37 {
        (m.ctrl && pressed.contains(Key::Y), KeyCommand::Redo)
    } else if index == 38 {
        (m.ctrl && pressed.contains(Key::O), KeyCommand::Recall)
    } else if index == 39 {
        (m.ctrl && pressed.contains(Key::P), KeyCommand::Print)
    } else if index == 40 {
        (m.ctrl && pressed.contains(Key::C) && free && card, KeyCommand::CopyPeakInfo)
    } else if index == 41 {
        (m.ctrl && pressed.contains(Key::S), if m.shift { KeyCommand::SaveAs } else { KeyCommand::Save })
    } else if index == 42 {
        (m.alt && pressed.contains(Key::Num1), KeyCommand::Start)
    } else if index == 43 {
        (m.alt && pressed.contains(Key::Num2), KeyCommand::Stop)
    } else if index == 44 {
        (m.alt && pressed.contains(Key::Num3), KeyCommand::Clear)
    } else {
        (m.alt && pressed.contains(Key::Num5), KeyCommand::CopyToBuffer)
    }
}

/// The keyboard's rules, in order.
pub open spec fn key_rules(pressed: Seq<Key>, m: Modifiers, c: KeyContext) -> Seq<(bool, KeyCommand)> {
    Seq::new(KEY_RULES as nat, |index: int| key_rule(index, pressed, m, c))
}

/// Whether `key` is among the keys pressed.
fn key_down(pressed: &[Key], key: Key) -> (down: bool)
    ensures
        down == pressed@.contains(key),
{
    let mut i: usize = 0;
    while i < pressed.len()
        invariant
            i <= pressed@.len(),
            forall|j: int| 0 <= j < i ==> pressed@[j] != key,
        decreases pressed.len() - i,
    {
        if pressed[i] == key {
            assert(pressed@[i as int] == key);
            return true;
        }
        i = i + 1;
    }
    false
}

/// Rule `index` of the keyboard for the keys pressed.
fn key_rule_for(index: usize, pressed: &[Key], m: Modifiers, c: KeyContext) -> (rule: (bool, KeyCommand))
    requires
        index < KEY_RULES,
    ensures
        rule == key_rule(index as int, pressed@, m, c),
{
    let free = !c.typing;
    let active = c.active.is_some();
    let step: i64 = if m.shift { 10 } else { 1 };
    let back: i64 = -step;
    let width: i64 = match c.active {
        Some(view) => view.view_width as i64,
        None => 0,
    };
    let half: i64 = width / 2;
    let back_half: i64 = -half;
    let comparing = match c.active {
        Some(view) => view.comparing,
        None => false,
    };
    let card = match c.active {
        Some(view) => view.peak_card_open,
        None => false,
    };
    let nudge: i64 = match c.active {
        Some(view) => {
            let scale: u64 = match view.vertical {
                VerticalScale::Linear(max) => max,
                _ => 1000,
            };
            if scale / 20 >= 1 {
                (scale / 20) as i64
            } else {
                1
            }
        },
        None => 1,
    };
    let nudge_down: i64 = -nudge;
    let next_mode = match c.mark_mode {
        MarkMode::Off => MarkMode::Mark,
        MarkMode::Mark => MarkMode::UnMark,
        MarkMode::UnMark => MarkMode::Off,
    };
    match index {
        0 => (free && key_down(pressed, Key::ArrowRight) && active, KeyCommand::MoveMarker(step)),
        1 => (free && key_down(pressed, Key::ArrowLeft) && active, KeyCommand::MoveMarker(back)),
        2 => (free && key_down(pressed, Key::Home), KeyCommand::Marker(0)),
        3 => (free && key_down(pressed, Key::End), KeyCommand::Marker(usize::MAX)),
        4 => (free && key_down(pressed, Key::PageUp) && active, KeyCommand::Scroll(half)),
        5 => (free && key_down(pressed, Key::PageDown) && active, KeyCommand::Scroll(back_half)),
        6 => (free && (key_down(pressed, Key::Plus) || key_down(pressed, Key::Equals)), KeyCommand::ZoomIn),
        7 => (free && key_down(pressed, Key::Minus), KeyCommand::ZoomOut),
        8 => (free && key_down(pressed, Key::Slash), KeyCommand::ToggleLog),
        9 => (free && key_down(pressed, Key::A) && !m.ctrl && !m.alt, KeyCommand::AutoScale),
        10 => (free && key_down(pressed, Key::Num5) && !m.ctrl, KeyCommand::Center),
        11 => (free && key_down(pressed, Key::Insert), KeyCommand::MarkPeak),
        12 => (free && key_down(pressed, Key::Delete), KeyCommand::ClearRoi),
        13 => (key_down(pressed, Key::F2), KeyCommand::SetMarkMode(next_mode)),
        14 => (key_down(pressed, Key::F3), KeyCommand::ViewZdt),
        15 => (key_down(pressed, Key::F4), KeyCommand::OpenBuffer),
        16 => (free && key_down(pressed, Key::Escape) && c.dialogs_open, KeyCommand::CloseDialogs),
        17 => (free && key_down(pressed, Key::Escape) && !c.dialogs_open, KeyCommand::ClearCompare),
        18 => (free && key_down(pressed, Key::Escape) && !c.dialogs_open, KeyCommand::ClearSelection),
        19 => (free && key_down(pressed, Key::Escape) && !c.dialogs_open && active, KeyCommand::ClosePeakInfo),
        20 => (m.ctrl && key_down(pressed, Key::M), KeyCommand::MaximizeActive),
        21 => (free && m.shift && (key_down(pressed, Key::ArrowUp) || key_down(pressed, Key::ArrowDown)) && comparing, KeyCommand::OffsetCompare(if key_down(pressed, Key::ArrowUp) { nudge } else { nudge_down })),
        22 => (key_down(pressed, Key::F1), KeyCommand::ShowShortcuts),
        23 => (m.ctrl && key_down(pressed, Key::Tab), KeyCommand::CycleWindow(if m.shift { -1i32 } else { 1i32 })),
        24 => (m.ctrl && key_down(pressed, Key::F1) && 0 < c.detector_count, KeyCommand::OpenDetector(0)),
        25 => (m.ctrl && key_down(pressed, Key::F2) && 1 < c.detector_count, KeyCommand::OpenDetector(1)),
        26 => (m.ctrl && key_down(pressed, Key::F3) && 2 < c.detector_count, KeyCommand::OpenDetector(2)),
        27 => (m.ctrl && key_down(pressed, Key::F4) && 3 < c.detector_count, KeyCommand::OpenDetector(3)),
        28 => (m.ctrl && key_down(pressed, Key::F5) && 4 < c.detector_count, KeyCommand::OpenDetector(4)),
        29 => (m.ctrl && key_down(pressed, Key::F6) && 5 < c.detector_count, KeyCommand::OpenDetector(5)),
        30 => (m.ctrl && key_down(pressed, Key::F7) && 6 < c.detector_count, KeyCommand::OpenDetector(6)),
        31 => (m.ctrl && key_down(pressed, Key::F8) && 7 < c.detector_count, KeyCommand::OpenDetector(7)),
        32 => (m.ctrl && key_down(pressed, Key::F9) && 8 < c.detector_count, KeyCommand::OpenDetector(8)),
        33 => (m.ctrl && key_down(pressed, Key::F10) && 9 < c.detector_count, KeyCommand::OpenDetector(9)),
        34 => (m.ctrl && key_down(pressed, Key::F11) && 10 < c.detector_count, KeyCommand::OpenDetector(10)),
        35 => (m.ctrl && key_down(pressed, Key::F12) && 11 < c.detector_count, KeyCommand::OpenDetector(11)),
        36 => (m.ctrl && key_down(pressed, Key::Z), if m.shift { KeyCommand::Redo } else { KeyCommand::Undo }),
        37 => (m.ctrl && key_down(pressed, Key::Y), KeyCommand::Redo),
        38 => (m.ctrl && key_down(pressed, Key::O), KeyCommand::Recall),
        39 => (m.ctrl && key_down(pressed, Key::P), KeyCommand::Print),
        40 => (m.ctrl && key_down(pressed, Key::C) && free && card, KeyCommand::CopyPeakInfo),
        41 => (m.ctrl && key_down(pressed, Key::S), if m.shift { KeyCommand::SaveAs } else { KeyCommand::Save }),
        42 => (m.alt && key_down(pressed, Key::Num1), KeyCommand::Start),
        43 => (m.alt && key_down(pressed, Key::Num2), KeyCommand::Stop),
        44 => (m.alt && key_down(pressed, Key::Num3), KeyCommand::Clear),
        _ => (m.alt && key_down(pressed, Key::Num5), KeyCommand::CopyToBuffer),
    }
}

/// The commands the keys pressed in one frame ask for, in the order the
/// workbench carries them out.
pub fn key_commands(pressed: &[Key], m: Modifiers, c: KeyContext) -> (commands: Vec<KeyCommand>)
    ensures
        commands@ == chosen(key_rules(pressed@, m, c)),
{
    let ghost rules = key_rules(pressed@, m, c);
    let mut commands: Vec<KeyCommand> = Vec::new();
    let mut i: usize = 0;
    while i < KEY_RULES
        invariant
            i <= KEY_RULES,
            rules == key_rules(pressed@, m, c),
            commands@ == chosen(rules.subrange(0, i as int)),
        decreases KEY_RULES - i,
    {
        assert(rules.subrange(0, i + 1).drop_last() =~= rules.subrange(0, i as int));
        let (condition, command) = key_rule_for(i, pressed, m, c);
        if condition {
            commands.push(command);
        }
        i = i + 1;
    }
    assert(rules.subrange(0, KEY_RULES as int) =~= rules);
    commands
}

proof fn lemma_chosen(rules: Seq<(bool, KeyCommand)>, excluded: spec_fn(KeyCommand) -> bool)
    ensures
        (forall|j: int| #![trigger rules[j]] 0 <= j < rules.len() && rules[j].0 ==> !excluded(rules[j].1))
            ==> forall|k: int| 0 <= k < chosen(rules).len() ==> !excluded(#[trigger] chosen(rules)[k]),
        forall|j: int| #![trigger rules[j]] 0 <= j < rules.len() && rules[j].0 ==> chosen(rules).contains(rules[j].1),
    decreases rules.len(),
{
    if rules.len() > 0 {
        let rest = rules.drop_last();
        lemma_chosen(rest, excluded);
        let earlier = chosen(rest);
        if forall|j: int| #![trigger rules[j]] 0 <= j < rules.len() && rules[j].0 ==> !excluded(rules[j].1) {
            assert forall|j: int| #![trigger rest[j]] 0 <= j < rest.len() && rest[j].0 implies !excluded(rest[j].1) by {
                assert(rest[j] == rules[j]);
            }
            assert(rules[rules.len() - 1] == rules.last());
        }
        assert forall|j: int| #![trigger rules[j]] 0 <= j < rules.len() && rules[j].0 implies chosen(rules).contains(rules[j].1) by {
            if j < rules.len() - 1 {
                assert(rest[j] == rules[j]);
                let k = choose|k: int| 0 <= k < earlier.len() && earlier[k] == rest[j].1;
                assert(chosen(rules)[k] == earlier[k]);
            } else {
                assert(chosen(rules)[chosen(rules).len() - 1] == rules[j].1);
            }
        }
    }
}

/// A command that a plain key, or a chord that a text field answers too,
/// would ask for: the marker, the view, regions, the plot's overlays and
/// copying.
pub open spec fn answers_plain_key(command: KeyCommand) -> bool {
    match command {
        KeyCommand::MoveMarker(_) | KeyCommand::Marker(_) | KeyCommand::Scroll(_) | KeyCommand::ZoomIn
        | KeyCommand::ZoomOut | KeyCommand::ToggleLog | KeyCommand::AutoScale | KeyCommand::Center
        | KeyCommand::MarkPeak | KeyCommand::ClearRoi | KeyCommand::CloseDialogs | KeyCommand::ClearCompare
        | KeyCommand::ClearSelection | KeyCommand::ClosePeakInfo | KeyCommand::OffsetCompare(_)
        | KeyCommand::CopyPeakInfo => true,
        _ => false,
    }
}

/// A focused text field owns the plain keys: while something has the
/// keyboard, no key moves the marker, changes the view, touches a region
/// or a layer of the plot, or copies the peak card - whatever is pressed.
pub proof fn lemma_typing_silences_plain_keys(pressed: Seq<Key>, m: Modifiers, c: KeyContext)
    requires
        c.typing,
    ensures
        forall|k: int| 0 <= k < chosen(key_rules(pressed, m, c)).len()
            ==> !answers_plain_key(#[trigger] chosen(key_rules(pressed, m, c))[k]),
{
    let rules = key_rules(pressed, m, c);
    let plain = |command: KeyCommand| answers_plain_key(command);
    assert forall|j: int| #![trigger rules[j]] 0 <= j < rules.len() && rules[j].0 implies !plain(rules[j].1) by {
        assert(rules[j] == key_rule(j, pressed, m, c));
    }
    lemma_chosen(rules, plain);
}

/// Escape peels the topmost layer first: with a dialog open, Escape (with
/// no text field holding the keyboard) closes the dialogs and leaves the
/// comparison, the selection and the peak card alone.
pub proof fn lemma_escape_closes_dialogs_first(pressed: Seq<Key>, m: Modifiers, c: KeyContext)
    requires
        c.dialogs_open,
        !c.typing,
        pressed.contains(Key::Escape),
    ensures
        chosen(key_rules(pressed, m, c)).contains(KeyCommand::CloseDialogs),
        !chosen(key_rules(pressed, m, c)).contains(KeyCommand::ClearCompare),
        !chosen(key_rules(pressed, m, c)).contains(KeyCommand::ClearSelection),
        !chosen(key_rules(pressed, m, c)).contains(KeyCommand::ClosePeakInfo),
{
    let rules = key_rules(pressed, m, c);
    let overlay = |command: KeyCommand|
        command == KeyCommand::ClearCompare || command == KeyCommand::ClearSelection
            || command == KeyCommand::ClosePeakInfo;
    assert forall|j: int| #![trigger rules[j]] 0 <= j < rules.len() && rules[j].0 implies !overlay(rules[j].1) by {
        assert(rules[j] == key_rule(j, pressed, m, c));
    }
    lemma_chosen(rules, overlay);
    assert(rules[16] == key_rule(16, pressed, m, c));
    let all = chosen(rules);
    assert forall|k: int| 0 <= k < all.len() implies #[trigger] all[k] != KeyCommand::ClearCompare
        && all[k] != KeyCommand::ClearSelection && all[k] != KeyCommand::ClosePeakInfo by {
        assert(!overlay(all[k]));
    }
}


/// Insert marks a region and Delete clears one, never the other way round:
/// with no text field holding the keyboard, Insert asks for `MarkPeak` and
/// Delete for `ClearRoi`; and whatever holds the keyboard, `MarkPeak` comes
/// only from Insert and `ClearRoi` only from Delete.
pub proof fn lemma_insert_marks_delete_clears(pressed: Seq<Key>, m: Modifiers, c: KeyContext)
    ensures
        !c.typing && pressed.contains(Key::Insert) ==> chosen(key_rules(pressed, m, c)).contains(
            KeyCommand::MarkPeak,
        ),
        !c.typing && pressed.contains(Key::Delete) ==> chosen(key_rules(pressed, m, c)).contains(
            KeyCommand::ClearRoi,
        ),
        !pressed.contains(Key::Insert) ==> !chosen(key_rules(pressed, m, c)).contains(KeyCommand::MarkPeak),
        !pressed.contains(Key::Delete) ==> !chosen(key_rules(pressed, m, c)).contains(KeyCommand::ClearRoi),
{
    let rules = key_rules(pressed, m, c);
    let all = chosen(rules);
    assert(rules[11] == key_rule(11, pressed, m, c));
    assert(rules[12] == key_rule(12, pressed, m, c));
    let marking = |command: KeyCommand| command == KeyCommand::MarkPeak;
    let clearing = |command: KeyCommand| command == KeyCommand::ClearRoi;
    if !pressed.contains(Key::Insert) {
        assert forall|j: int| #![trigger rules[j]] 0 <= j < rules.len() && rules[j].0 implies !marking(rules[j].1) by {
            assert(rules[j] == key_rule(j, pressed, m, c));
        }
        lemma_chosen(rules, marking);
        assert forall|k: int| 0 <= k < all.len() implies #[trigger] all[k] != KeyCommand::MarkPeak by {
            assert(!marking(all[k]));
        }
    }
    if !pressed.contains(Key::Delete) {
        assert forall|j: int| #![trigger rules[j]] 0 <= j < rules.len() && rules[j].0 implies !clearing(rules[j].1) by {
            assert(rules[j] == key_rule(j, pressed, m, c));
        }
        lemma_chosen(rules, clearing);
        assert forall|k: int| 0 <= k < all.len() implies #[trigger] all[k] != KeyCommand::ClearRoi by {
            assert(!clearing(all[k]));
        }
    }
    lemma_chosen(rules, marking);
}


/// The navigation keys do what their caps say, with no text field holding
/// the keyboard: Home goes to the first channel and End to the last, the
/// arrows move the marker one channel (ten with Shift) right or left while
/// a spectrum window is active, and Ctrl+Tab steps to the next window
/// (Ctrl+Shift+Tab to the previous one).
pub proof fn lemma_navigation_keys(pressed: Seq<Key>, m: Modifiers, c: KeyContext)
    ensures
        !c.typing && pressed.contains(Key::Home) ==> chosen(key_rules(pressed, m, c)).contains(
            KeyCommand::Marker(0),
        ),
        !c.typing && pressed.contains(Key::End) ==> chosen(key_rules(pressed, m, c)).contains(
            KeyCommand::Marker(usize::MAX),
        ),
        !c.typing && pressed.contains(Key::ArrowRight) && c.active is Some ==> chosen(
            key_rules(pressed, m, c),
        ).contains(KeyCommand::MoveMarker(if m.shift { 10i64 } else { 1i64 })),
        !c.typing && pressed.contains(Key::ArrowLeft) && c.active is Some ==> chosen(
            key_rules(pressed, m, c),
        ).contains(KeyCommand::MoveMarker(if m.shift { -10i64 } else { -1i64 })),
        m.ctrl && pressed.contains(Key::Tab) ==> chosen(key_rules(pressed, m, c)).contains(
            KeyCommand::CycleWindow(if m.shift { -1i32 } else { 1i32 }),
        ),
{
    let rules = key_rules(pressed, m, c);
    assert(rules[0] == key_rule(0, pressed, m, c));
    assert(rules[1] == key_rule(1, pressed, m, c));
    assert(rules[2] == key_rule(2, pressed, m, c));
    assert(rules[3] == key_rule(3, pressed, m, c));
    assert(rules[23] == key_rule(23, pressed, m, c));
    lemma_chosen(rules, |command: KeyCommand| false);
}

} // verus!
