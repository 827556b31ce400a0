//! The workspace: the spectrum windows with their data and displays, the
//! open dialogs, the marking mode and the status line, and what each
//! command does to them. The interface performs the effect a command hands
//! back (arranging or collapsing windows, smoothing a buffer's data).

use vstd::prelude::*;
use crate::dialogs::{Dialog, Dialogs};
use crate::text::{chars_of, decimal_chars, decimal_digits, string_of, append_chars};
use crate::view::MarkMode;
use crate::viewmodel::{DisplayState, FillMode, VerticalScale, MIN_VIEW_WIDTH, max_usize, min_usize};
use crate::windows::{first_index, has_id, index_of, Target, Window, WindowSet};

verus! {

/// What a spectrum window holds.
pub struct Pane {
    /// Title bar text.
    pub title: String,
    /// The counts, channel by channel.
    pub channels: Vec<u64>,
    /// What is on screen.
    pub display: DisplayState,
    /// The rubber-rectangle selection.
    pub selection: Option<(usize, usize)>,
    /// A comparison spectrum drawn over the data.
    pub compare: Option<Vec<u64>>,
}

/// The window arrangements (Window menu).
#[derive(Clone, Copy, Debug, PartialEq, Eq, Structural)]
pub enum Tiling {
    /// Tile Horizontally: one above another.
    Rows,
    /// Tile Vertically: side by side.
    Columns,
    /// Cascade: staggered from the top left.
    Cascade,
}

/// What the interface has to carry out after a command.
#[derive(Clone, Copy, Debug, PartialEq, Eq, Structural)]
pub enum Effect {
    /// Nothing beyond the new state.
    Nothing,
    /// Place the painted windows in this arrangement.
    Arrange(Tiling),
    /// Collapse every window to its title bar (`true`) or expand them.
    Collapse(bool),
    /// Smooth the data of the buffer window at this index.
    Smooth(usize),
}

/// A command from a menu, the keyboard or a spectrum window.
pub enum Command {
    /// Put the active window's marker on a channel.
    Marker(usize),
    /// Select a channel range in the active window.
    Select(usize, usize),
    /// Clear the active window's selection.
    ClearSelection,
    /// Zoom the active window to a channel range.
    ZoomTo(usize, usize),
    /// Scroll the active window by channels.
    Scroll(i64),
    /// Centre the active window on its marker.
    Center,
    /// Show the whole spectrum.
    FullView,
    /// Logarithmic or linear.
    ToggleLog,
    /// Automatic linear scaling.
    AutoScale,
    /// Lift the baseline to the smallest visible count, or back to zero.
    BaselineZoom,
    /// How the spectrum is drawn.
    SetFill(FillMode),
    /// Library lines on or off.
    ToggleIsotopeMarkers,
    /// Energy or channel axis.
    ToggleEnergyAxis,
    /// Drop the comparison spectrum.
    ClearCompare,
    /// Switch the region-marking mode.
    SetMarkMode(MarkMode),
    /// Open a dialog.
    Show(Dialog),
    /// Smooth the active buffer.
    Smooth,
    /// Put a message on the status line.
    Status(String),
    /// Open an empty buffer window.
    OpenBuffer,
    /// Close a window, asking first when it is a buffer with unsaved changes.
    CloseWindow(usize),
    /// Close a window without asking.
    ForceCloseWindow(usize),
    /// Focus a window by its id.
    Activate(usize),
    /// Fill the area with a window, or give the area back.
    ToggleMaximize(usize),
    /// Fill the area with the active window, or give it back.
    MaximizeActive,
    /// Leave full-area mode.
    RestoreWindows,
    /// Ctrl+Tab (1) or Ctrl+Shift+Tab (-1).
    CycleWindow(i32),
    /// Arrange the windows.
    Tile(Tiling),
    /// Collapse (`true`) or expand every window.
    Collapse(bool),
}

/// The workspace.
pub struct Workspace {
    pub windows: WindowSet<Pane>,
    /// How many detectors are configured.
    pub detector_count: usize,
    pub dialogs: Dialogs,
    pub mark_mode: MarkMode,
    pub status: String,
}

/// A display of `length` channels on which every view operation is defined.
pub open spec fn display_fits(display: DisplayState, length: int) -> bool {
    &&& display.well_formed()
    &&& display.length == length
}

impl Workspace {
    /// Every window has its own id and the active index is a window; no
    /// dialog is listed twice; every display fits its data.
    pub open spec fn well_formed(&self) -> bool {
        &&& self.windows.well_formed()
        &&& self.dialogs.well_formed()
        &&& forall|i: int| 0 <= i < self.windows.windows@.len() ==> display_fits(
            #[trigger] self.windows.windows@[i].content.display,
            self.windows.windows@[i].content.channels@.len() as int,
        )
    }

    /// The active window's index, when it names one.
    pub open spec fn active_index(&self) -> Option<int> {
        match self.windows.active {
            Some(a) => if a < self.windows.windows@.len() {
                Some(a as int)
            } else {
                None
            },
            None => None,
        }
    }

    /// `after` is `self` with the active window's pane changed as `rel`
    /// says, the status line reading `status`, and nothing else changed.
    pub open spec fn edits_active(self, after: Self, rel: spec_fn(Pane, Pane) -> bool, status: Seq<char>) -> bool {
        &&& after.dialogs == self.dialogs
        &&& after.mark_mode == self.mark_mode
        &&& after.status@ == status
        &&& after.windows.active == self.windows.active
        &&& after.windows.maximized == self.windows.maximized
        &&& after.windows.pending_close == self.windows.pending_close
        &&& after.windows.next_id == self.windows.next_id
        &&& after.windows.windows@.len() == self.windows.windows@.len()
        &&& forall|i: int| 0 <= i < self.windows.windows@.len() && Some(i) != self.active_index()
            ==> #[trigger] after.windows.windows@[i] == self.windows.windows@[i]
        &&& self.active_index() matches Some(a) ==> {
            let w = self.windows.windows@[a];
            let v = after.windows.windows@[a];
            &&& v.id == w.id
            &&& v.target == w.target
            &&& v.open == w.open
            &&& v.modified == w.modified
            &&& rel(w.content, v.content)
        }
    }

    /// `after` is `self` with only the status line changed, to `status`.
    pub open spec fn only_status(self, after: Self, status: Seq<char>) -> bool {
        &&& after.dialogs == self.dialogs
        &&& after.mark_mode == self.mark_mode
        &&& after.windows == self.windows
        &&& after.status@ == status
    }
}

/// `q` is `p` with only the display changed, as `rel` says.
pub open spec fn display_edit(p: Pane, q: Pane, rel: spec_fn(DisplayState, DisplayState) -> bool) -> bool {
    &&& q.title == p.title
    &&& q.channels == p.channels
    &&& q.selection == p.selection
    &&& q.compare == p.compare
    &&& rel(p.display, q.display)
}

/// What `set_marker` makes of a display.
pub open spec fn marked_at(d: DisplayState, channel: usize, e: DisplayState) -> bool {
    &&& d.length == 0 ==> e == (DisplayState { marker: 0, ..d })
    &&& d.length > 0 ==> d.follow_marker(channel).settles_to(e)
}

/// What `zoom_to` makes of a display.
pub open spec fn zoomed_to(d: DisplayState, low: usize, high: usize, e: DisplayState) -> bool {
    let lo = min_usize(low, high);
    let hi = max_usize(low, high);
    let width = max_usize((hi - lo + 1) as usize, MIN_VIEW_WIDTH);
    (DisplayState { view_width: min_usize(width, max_usize(d.length, MIN_VIEW_WIDTH)), view_start: lo, ..d }).settles_to(e)
}

/// What `scroll` makes of a display.
pub open spec fn scrolled(d: DisplayState, delta: i64, e: DisplayState) -> bool {
    let target = (d.view_start as i64) + delta;
    let start = if target <= 0 { 0usize } else { target as usize };
    (DisplayState { view_start: start, ..d }).settles_to(e)
}

/// What `center_on_marker` makes of a display.
pub open spec fn centred(d: DisplayState, e: DisplayState) -> bool {
    let half = d.view_width / 2;
    let start = if d.marker >= half { (d.marker - half) as usize } else { 0 };
    (DisplayState { view_start: start, ..d }).settles_to(e)
}

/// What `toggle_log` makes of a display over `channels`.
pub open spec fn log_toggled(d: DisplayState, channels: Seq<u64>, e: DisplayState) -> bool {
    &&& d.vertical is Logarithmic ==> exists|top: u64| d.is_full_scale(channels, top)
        && e == (DisplayState { vertical: VerticalScale::Linear(top), ..d })
    &&& !(d.vertical is Logarithmic) ==> e == (DisplayState { vertical: VerticalScale::Logarithmic, ..d })
}

/// What `baseline_zoom` makes of a display over `channels`.
pub open spec fn baseline_zoomed(d: DisplayState, channels: Seq<u64>, e: DisplayState) -> bool {
    &&& d.baseline != 0 ==> e == (DisplayState { baseline: 0, ..d })
    &&& d.baseline == 0 ==> {
        let (low, high) = d.visible_slice(channels.len() as int);
        e == (DisplayState { baseline: DisplayState::range_floor(channels, low, high), ..d })
    }
}

/// The status line after the marking mode changes.
pub open spec fn mark_mode_status(mode: MarkMode) -> Seq<char> {
    "region marking: "@ + match mode {
        MarkMode::Off => "Off"@,
        MarkMode::Mark => "Marking"@,
        MarkMode::UnMark => "UnMarking"@,
    }
}

impl Workspace {
    /// The inputs on which a command runs: where the view arithmetic or the
    /// window count would overflow, the command is not for this state.
    pub open spec fn accepts(&self, command: Command) -> bool {
        match command {
            Command::ZoomTo(low, high) => self.active_index() is Some ==> min_usize(low, high) + usize::MAX
                > max_usize(low, high),
            Command::Scroll(delta) => self.active_index() matches Some(a) ==> i64::MIN
                <= (self.windows.windows@[a].content.display.view_start as i64) + delta <= i64::MAX,
            Command::ToggleLog => self.active_index() matches Some(a) ==> {
                let d = self.windows.windows@[a].content.display;
                !(d.vertical is Linear) ==> d.baseline < u64::MAX
            },
            Command::BaselineZoom => self.active_index() matches Some(a) ==> {
                let pane = self.windows.windows@[a].content;
                pane.display.baseline == 0 ==> pane.channels@.len() > 0
            },
            Command::OpenBuffer => self.windows.next_id < usize::MAX,
            Command::CycleWindow(direction) => {
                &&& self.windows.windows@.len() <= i32::MAX
                &&& self.windows.cycle_position(self.detector_count) + direction <= i32::MAX
            },
            _ => true,
        }
    }

    /// What a command does: the workspace `after` it and the effect the
    /// interface carries out.
    pub open spec fn steps(self, command: Command, after: Self, effect: Effect) -> bool {
        &&& after.detector_count == self.detector_count
        &&& match command {
            Command::Marker(channel) => effect == Effect::Nothing && self.edits_active(
                after,
                |p: Pane, q: Pane| display_edit(p, q, |d: DisplayState, e: DisplayState| marked_at(d, channel, e)),
                self.status@,
            ),
            Command::Select(low, high) => effect == Effect::Nothing && self.edits_active(
                after,
                |p: Pane, q: Pane| q == Pane { selection: Some((low, high)), ..p },
                self.status@,
            ),
            Command::ClearSelection => effect == Effect::Nothing && self.edits_active(
                after,
                |p: Pane, q: Pane| q == Pane { selection: None, ..p },
                self.status@,
            ),
            Command::ZoomTo(low, high) => effect == Effect::Nothing && self.edits_active(
                after,
                |p: Pane, q: Pane| display_edit(p, q, |d: DisplayState, e: DisplayState| zoomed_to(d, low, high, e)),
                self.status@,
            ),
            Command::Scroll(delta) => effect == Effect::Nothing && self.edits_active(
                after,
                |p: Pane, q: Pane| display_edit(p, q, |d: DisplayState, e: DisplayState| scrolled(d, delta, e)),
                self.status@,
            ),
            Command::Center => effect == Effect::Nothing && self.edits_active(
                after,
                |p: Pane, q: Pane| display_edit(p, q, |d: DisplayState, e: DisplayState| centred(d, e)),
                self.status@,
            ),
            Command::FullView => effect == Effect::Nothing && self.edits_active(
                after,
                |p: Pane, q: Pane| display_edit(p, q, |d: DisplayState, e: DisplayState| e == (DisplayState {
                    view_start: 0,
                    view_width: max_usize(d.length, MIN_VIEW_WIDTH),
                    baseline: 0,
                    ..d
                })),
                self.status@,
            ),
            Command::ToggleLog => effect == Effect::Nothing && self.edits_active(
                after,
                |p: Pane, q: Pane| display_edit(p, q, |d: DisplayState, e: DisplayState| log_toggled(d, p.channels@, e)),
                self.status@,
            ),
            Command::AutoScale => effect == Effect::Nothing && self.edits_active(
                after,
                |p: Pane, q: Pane| display_edit(p, q, |d: DisplayState, e: DisplayState| e == (DisplayState {
                    vertical: VerticalScale::Automatic,
                    ..d
                })),
                self.status@,
            ),
            Command::BaselineZoom => effect == Effect::Nothing && self.edits_active(
                after,
                |p: Pane, q: Pane| display_edit(p, q, |d: DisplayState, e: DisplayState| baseline_zoomed(d, p.channels@, e)),
                self.status@,
            ),
            Command::SetFill(fill) => effect == Effect::Nothing && self.edits_active(
                after,
                |p: Pane, q: Pane| display_edit(p, q, |d: DisplayState, e: DisplayState| e == (DisplayState { fill, ..d })),
                self.status@,
            ),
            Command::ToggleIsotopeMarkers => effect == Effect::Nothing && self.edits_active(
                after,
                |p: Pane, q: Pane| display_edit(p, q, |d: DisplayState, e: DisplayState| e == (DisplayState {
                    isotope_markers: !d.isotope_markers,
                    ..d
                })),
                self.status@,
            ),
            Command::ToggleEnergyAxis => effect == Effect::Nothing && self.edits_active(
                after,
                |p: Pane, q: Pane| display_edit(p, q, |d: DisplayState, e: DisplayState| e == (DisplayState {
                    energy_axis: !d.energy_axis,
                    ..d
                })),
                self.status@,
            ),
            Command::ClearCompare => effect == Effect::Nothing && self.edits_active(
                after,
                |p: Pane, q: Pane| q == Pane { compare: None, ..p },
                if self.active_index() is Some { "comparison cleared"@ } else { self.status@ },
            ),
            Command::SetMarkMode(mode) => {
                &&& effect == Effect::Nothing
                &&& after.mark_mode == mode
                &&& after.status@ == mark_mode_status(mode)
                &&& after.windows == self.windows
                &&& after.dialogs == self.dialogs
            },
            Command::Show(dialog) => {
                &&& effect == Effect::Nothing
                &&& after.dialogs@ == self.dialogs@.insert(dialog)
                &&& after.mark_mode == self.mark_mode
                &&& after.windows == self.windows
                &&& after.status == self.status
            },
            Command::Smooth => match self.active_index() {
                Some(a) => if self.windows.windows@[a].target == Target::Buffer {
                    &&& effect == Effect::Smooth(a as usize)
                    &&& after.windows == (WindowSet { windows: after.windows.windows, ..self.windows })
                    &&& after.windows.windows@ == self.windows.windows@.update(
                        a,
                        Window { modified: true, ..self.windows.windows@[a] },
                    )
                    &&& after.dialogs == self.dialogs
                    &&& after.mark_mode == self.mark_mode
                    &&& after.status@ == "smoothed (Edit/Undo takes it back)"@
                } else {
                    effect == Effect::Nothing && self.only_status(
                        after,
                        "Smooth works on a buffer; use Acquire/Copy to Buffer"@,
                    )
                },
                None => effect == Effect::Nothing && self.only_status(
                    after,
                    "Smooth works on a buffer; use Acquire/Copy to Buffer"@,
                ),
            },
            Command::Status(message) => effect == Effect::Nothing && self.only_status(after, message@),
            Command::OpenBuffer => {
                let id = self.windows.next_id;
                let window = after.windows.windows@.last();
                &&& effect == Effect::Nothing
                &&& after.windows.windows@.drop_last() == self.windows.windows@
                &&& after.windows.windows@.len() == self.windows.windows@.len() + 1
                &&& window.id == id && window.target == Target::Buffer && window.open && !window.modified
                &&& window.content.title@ == "Buffer"@
                &&& window.content.channels@.len() == 0
                &&& window.content.display.is_default()
                &&& window.content.selection is None
                &&& window.content.compare is None
                &&& after.windows.active == Some(self.windows.windows@.len() as usize)
                &&& after.windows.maximized == (if self.windows.maximized is Some { Some(id) } else { None::<usize> })
                &&& after.windows.pending_close == self.windows.pending_close
                &&& after.windows.next_id == id + 1
                &&& after.status@ == "empty buffer opened"@
                &&& after.dialogs == self.dialogs
                &&& after.mark_mode == self.mark_mode
            },
            Command::CloseWindow(id) => {
                let ws = self.windows;
                let asked = has_id(ws.windows@, id) && ({
                    let w = ws.windows@[index_of(ws.windows@, id)->0];
                    w.target == Target::Buffer && w.modified
                });
                &&& effect == Effect::Nothing
                &&& after.mark_mode == self.mark_mode
                &&& after.status == self.status
                &&& asked ==> {
                    let index = index_of(ws.windows@, id)->0;
                    &&& after.windows.windows@ == ws.windows@.update(index, Window { open: true, ..ws.windows@[index] })
                    &&& after.windows.pending_close == Some(id)
                    &&& after.windows.active == ws.active
                    &&& after.windows.maximized == ws.maximized
                    &&& after.windows.next_id == ws.next_id
                    &&& after.dialogs@ == self.dialogs@.insert(Dialog::ConfirmClose)
                }
                &&& !asked ==> ws.closes(after.windows, id) && after.dialogs == self.dialogs
            },
            Command::ForceCloseWindow(id) => {
                &&& effect == Effect::Nothing
                &&& self.windows.closes(after.windows, id)
                &&& after.dialogs == self.dialogs
                &&& after.mark_mode == self.mark_mode
                &&& after.status == self.status
            },
            Command::Activate(id) => {
                let ws = self.windows;
                &&& effect == Effect::Nothing
                &&& after.dialogs == self.dialogs
                &&& after.mark_mode == self.mark_mode
                &&& after.status == self.status
                &&& !has_id(ws.windows@, id) ==> after.windows == ws
                &&& has_id(ws.windows@, id) ==> after.windows == (WindowSet {
                    active: Some(index_of(ws.windows@, id)->0 as usize),
                    maximized: if ws.maximized is Some { Some(id) } else { None::<usize> },
                    ..ws
                })
            },
            Command::ToggleMaximize(id) => {
                let ws = self.windows;
                let filling = ws.maximized != Some(id);
                &&& effect == Effect::Nothing
                &&& after.dialogs == self.dialogs
                &&& after.mark_mode == self.mark_mode
                &&& after.windows == (WindowSet {
                    maximized: if filling { Some(id) } else { None::<usize> },
                    active: if filling && has_id(ws.windows@, id) {
                        Some(index_of(ws.windows@, id)->0 as usize)
                    } else {
                        ws.active
                    },
                    ..ws
                })
                &&& after.status@ == if filling { fills_status() } else { "window restored"@ }
            },
            Command::MaximizeActive => match self.windows.active {
                None => effect == Effect::Nothing && after == self,
                Some(a) => {
                    let ws = self.windows;
                    let id = ws.windows@[a as int].id;
                    let filling = ws.maximized != Some(id);
                    &&& effect == Effect::Nothing
                    &&& after.dialogs == self.dialogs
                    &&& after.mark_mode == self.mark_mode
                    &&& after.windows == (WindowSet { maximized: if filling { Some(id) } else { None::<usize> }, ..ws })
                    &&& after.status@ == if filling { fills_status() } else { "window restored"@ }
                },
            },
            Command::RestoreWindows => {
                &&& effect == Effect::Nothing
                &&& after.dialogs == self.dialogs
                &&& after.mark_mode == self.mark_mode
                &&& after.windows == (WindowSet { maximized: None, ..self.windows })
                &&& after.status@ == if self.windows.maximized is Some { "window restored"@ } else { self.status@ }
            },
            Command::CycleWindow(direction) => {
                let ws = self.windows;
                &&& effect == Effect::Nothing
                &&& after.dialogs == self.dialogs
                &&& after.mark_mode == self.mark_mode
                &&& match ws.cycle_target(direction as int, self.detector_count) {
                    None => after.windows == ws && after.status == self.status,
                    Some(index) => {
                        &&& after.windows == (WindowSet {
                            active: Some(index),
                            maximized: if ws.maximized is Some { Some(ws.windows@[index as int].id) } else { None::<usize> },
                            ..ws
                        })
                        &&& after.status@ == "window: "@ + ws.windows@[index as int].content.title@
                    },
                }
            },
            Command::Tile(tiling) => {
                let left = WindowSet { maximized: None, ..self.windows };
                let count = left.painted_upto(left.windows@.len() as int, self.detector_count).len();
                &&& after.windows == left
                &&& after.dialogs == self.dialogs
                &&& after.mark_mode == self.mark_mode
                &&& count == 0 ==> effect == Effect::Nothing && after.status@ == "no windows to arrange"@
                &&& count > 0 ==> effect == Effect::Arrange(tiling) && after.status@ == decimal_digits(count)
                    + tiling_words(tiling)
            },
            Command::Collapse(collapse) => {
                &&& effect == Effect::Collapse(collapse)
                &&& self.only_status(after, if collapse {
                    "windows collapsed to their title bars"@
                } else {
                    "windows expanded"@
                })
            },
        }
    }
}

/// The status line when a window comes to fill the spectrum area.
pub open spec fn fills_status() -> Seq<char> {
    "window fills the spectrum area (Ctrl+M restores it)"@
}

/// What the status line says after arranging, after the window count.
pub open spec fn tiling_words(tiling: Tiling) -> Seq<char> {
    match tiling {
        Tiling::Rows => " window(s) tiled horizontally"@,
        Tiling::Columns => " window(s) tiled vertically"@,
        Tiling::Cascade => " window(s) cascaded"@,
    }
}


impl Workspace {
    /// No windows, no dialogs, marking off, an empty status line.
    pub fn new(detector_count: usize) -> (workspace: Self)
        ensures
            workspace.well_formed(),
            workspace.windows.windows@.len() == 0,
            workspace.windows.active is None,
            workspace.windows.maximized is None,
            workspace.windows.pending_close is None,
            workspace.windows.next_id == 1,
            workspace.detector_count == detector_count,
            workspace.dialogs@ == Set::<Dialog>::empty(),
            workspace.mark_mode == MarkMode::Off,
            workspace.status@.len() == 0,
    {
        Workspace {
            windows: WindowSet::new(),
            detector_count,
            dialogs: Dialogs::new(),
            mark_mode: MarkMode::Off,
            status: String::new(),
        }
    }
}

/// A display pulled back inside its spectrum is well formed.
proof fn lemma_settled_fits(d: DisplayState)
    requires
        d.is_settled(),
    ensures
        d.well_formed(),
{
}

/// On a well-formed display the visible range is defined.
proof fn lemma_fits_defined(d: DisplayState)
    requires
        d.well_formed(),
    ensures
        d.visible_defined(),
{
}

/// Changing one window's pane, but not its id, keeps the workspace well
/// formed when the new display fits the new data.
proof fn lemma_pane_replaced(before: Workspace, after: Workspace, a: int)
    requires
        before.well_formed(),
        after.dialogs.well_formed(),
        after.windows.active == before.windows.active,
        after.windows.next_id == before.windows.next_id,
        0 <= a < before.windows.windows@.len(),
        after.windows.windows@.len() == before.windows.windows@.len(),
        forall|i: int| 0 <= i < before.windows.windows@.len() && i != a
            ==> #[trigger] after.windows.windows@[i] == before.windows.windows@[i],
        after.windows.windows@[a].id == before.windows.windows@[a].id,
        display_fits(
            after.windows.windows@[a].content.display,
            after.windows.windows@[a].content.channels@.len() as int,
        ),
    ensures
        after.well_formed(),
{
    let b = before.windows.windows@;
    let c = after.windows.windows@;
    assert forall|i: int, j: int| 0 <= i < c.len() && 0 <= j < c.len() && i != j
        implies #[trigger] c[i].id != #[trigger] c[j].id by {
        assert(c[i].id == b[i].id);
        assert(c[j].id == b[j].id);
    }
    assert forall|i: int| 0 <= i < c.len() implies #[trigger] c[i].id < after.windows.next_id by {
        assert(c[i].id == b[i].id);
    }
    assert forall|i: int| 0 <= i < c.len() implies display_fits(
        #[trigger] c[i].content.display,
        c[i].content.channels@.len() as int,
    ) by {
        if i != a {
            assert(c[i] == b[i]);
            assert(display_fits(b[i].content.display, b[i].content.channels@.len() as int));
        }
    }
}

/// Closing a window keeps every remaining display fitting.
proof fn lemma_closed_panes(before: Workspace, after: Workspace, id: usize)
    requires
        before.well_formed(),
        after.dialogs.well_formed(),
        before.windows.closes(after.windows, id),
    ensures
        after.well_formed(),
{
    if has_id(before.windows.windows@, id) {
        crate::windows::lemma_index_of(before.windows.windows@, id);
        let k = index_of(before.windows.windows@, id)->0;
        let b = before.windows.windows@;
        let c = after.windows.windows@;
        assert forall|i: int| 0 <= i < c.len() implies display_fits(
            #[trigger] c[i].content.display,
            c[i].content.channels@.len() as int,
        ) by {
            if i < k {
                assert(c[i] == b[i]);
                assert(display_fits(b[i].content.display, b[i].content.channels@.len() as int));
            } else {
                assert(c[i] == b[i + 1]);
                assert(display_fits(b[i + 1].content.display, b[i + 1].content.channels@.len() as int));
            }
        }
    }
}

impl Workspace {
    /// Writes back the display of window `a`.
    fn put_display(&mut self, a: usize, display: DisplayState)
        requires
            old(self).well_formed(),
            a < old(self).windows.windows@.len(),
            display_fits(display, old(self).windows.windows@[a as int].content.channels@.len() as int),
        ensures
            final(self).well_formed(),
            final(self).dialogs == old(self).dialogs,
            final(self).mark_mode == old(self).mark_mode,
            final(self).status == old(self).status,
            final(self).detector_count == old(self).detector_count,
            final(self).windows.active == old(self).windows.active,
            final(self).windows.maximized == old(self).windows.maximized,
            final(self).windows.pending_close == old(self).windows.pending_close,
            final(self).windows.next_id == old(self).windows.next_id,
            final(self).windows.windows@ == old(self).windows.windows@.update(
                a as int,
                Window {
                    content: Pane { display, ..old(self).windows.windows@[a as int].content },
                    ..old(self).windows.windows@[a as int]
                },
            ),
    {
        self.windows.windows[a].content.display = display;
        proof {
            lemma_pane_replaced(*old(self), *self, a as int);
        }
    }
}


/// The commands that change only the active window's display.
spec fn is_view_command(command: Command) -> bool {
    ||| command is Marker
    ||| command is ZoomTo
    ||| command is Scroll
    ||| command is Center
    ||| command is FullView
    ||| command is ToggleLog
    ||| command is AutoScale
    ||| command is BaselineZoom
    ||| command is SetFill
    ||| command is ToggleIsotopeMarkers
    ||| command is ToggleEnergyAxis
}

impl Workspace {
    /// Carries out a command on the active window's display.
    fn apply_view(&mut self, command: Command) -> (effect: Effect)
        requires
            old(self).well_formed(),
            old(self).accepts(command),
            is_view_command(command),
        ensures
            final(self).well_formed(),
            old(self).steps(command, *final(self), effect),
    {
        let a = match self.windows.active {
            Some(a) => a,
            None => return Effect::Nothing,
        };
        let mut d = self.windows.windows[a].content.display;
        proof {
            lemma_fits_defined(d);
        }
        match command {
            Command::Marker(channel) => {
                d.set_marker(channel);
                proof {
                    if d.length > 0 {
                        lemma_settled_fits(d);
                    }
                }
            },
            Command::ZoomTo(low, high) => {
                d.zoom_to(low, high);
                proof {
                    lemma_settled_fits(d);
                }
            },
            Command::Scroll(delta) => {
                d.scroll(delta);
                proof {
                    lemma_settled_fits(d);
                }
            },
            Command::Center => {
                d.center_on_marker();
                proof {
                    lemma_settled_fits(d);
                }
            },
            Command::FullView => d.full_view(),
            Command::ToggleLog => d.toggle_log(self.windows.windows[a].content.channels.as_slice()),
            Command::AutoScale => d.vertical = VerticalScale::Automatic,
            Command::BaselineZoom => d.baseline_zoom(self.windows.windows[a].content.channels.as_slice()),
            Command::SetFill(fill) => d.fill = fill,
            Command::ToggleIsotopeMarkers => d.isotope_markers = !d.isotope_markers,
            Command::ToggleEnergyAxis => d.energy_axis = !d.energy_axis,
            _ => {},
        }
        self.put_display(a, d);
        Effect::Nothing
    }
}


impl Workspace {
    /// Carries out a command on the active window's selection or
    /// comparison spectrum.
    fn apply_pane(&mut self, command: Command) -> (effect: Effect)
        requires
            old(self).well_formed(),
            command is Select || command is ClearSelection || command is ClearCompare,
        ensures
            final(self).well_formed(),
            old(self).steps(command, *final(self), effect),
    {
        let a = match self.windows.active {
            Some(a) => a,
            None => return Effect::Nothing,
        };
        match command {
            Command::Select(low, high) => self.windows.windows[a].content.selection = Some((low, high)),
            Command::ClearSelection => self.windows.windows[a].content.selection = None,
            _ => {
                self.windows.windows[a].content.compare = None;
                self.status = string_of(&chars_of("comparison cleared"));
            },
        }
        proof {
            lemma_pane_replaced(*old(self), *self, a as int);
        }
        Effect::Nothing
    }

    /// Carries out a command on the marking mode, the dialogs or the status
    /// line, or one the interface performs.
    fn apply_status(&mut self, command: Command) -> (effect: Effect)
        requires
            old(self).well_formed(),
            command is SetMarkMode || command is Show || command is Smooth || command is Status
                || command is Collapse,
        ensures
            final(self).well_formed(),
            old(self).steps(command, *final(self), effect),
    {
        match command {
            Command::SetMarkMode(mode) => {
                self.mark_mode = mode;
                let mut text = chars_of("region marking: ");
                append_chars(&mut text, &chars_of(mode.label()));
                self.status = string_of(&text);
                Effect::Nothing
            },
            Command::Show(dialog) => {
                self.dialogs.open(dialog);
                Effect::Nothing
            },
            Command::Status(message) => {
                self.status = message;
                Effect::Nothing
            },
            Command::Collapse(collapse) => {
                self.status = if collapse {
                    string_of(&chars_of("windows collapsed to their title bars"))
                } else {
                    string_of(&chars_of("windows expanded"))
                };
                Effect::Collapse(collapse)
            },
            _ => {
                if self.windows.active_is_buffer() {
                    let a = self.windows.active.unwrap();
                    self.windows.mark_modified();
                    proof {
                        lemma_pane_replaced(*old(self), *self, a as int);
                    }
                    self.status = string_of(&chars_of("smoothed (Edit/Undo takes it back)"));
                    Effect::Smooth(a)
                } else {
                    self.status = string_of(&chars_of("Smooth works on a buffer; use Acquire/Copy to Buffer"));
                    Effect::Nothing
                }
            },
        }
    }
}


/// An empty pane: a buffer with no data yet.
fn empty_pane(title: String) -> (pane: Pane)
    ensures
        pane.title == title,
        pane.channels@.len() == 0,
        pane.display.is_default(),
        pane.selection is None,
        pane.compare is None,
{
    Pane { title, channels: Vec::new(), display: DisplayState::default(), selection: None, compare: None }
}

impl Workspace {
    /// Opens an empty buffer window.
    fn apply_open_buffer(&mut self) -> (effect: Effect)
        requires
            old(self).well_formed(),
            old(self).accepts(Command::OpenBuffer),
        ensures
            final(self).well_formed(),
            old(self).steps(Command::OpenBuffer, *final(self), effect),
    {
        let pane = empty_pane(string_of(&chars_of("Buffer")));
        let id = self.windows.open_buffer(pane);
        self.status = string_of(&chars_of("empty buffer opened"));
        proof {
            let b = old(self).windows.windows@;
            let c = self.windows.windows@;
            assert forall|i: int| 0 <= i < c.len() implies display_fits(
                #[trigger] c[i].content.display,
                c[i].content.channels@.len() as int,
            ) by {
                if i < b.len() {
                    assert(c[i] == b[i]);
                    assert(display_fits(b[i].content.display, b[i].content.channels@.len() as int));
                }
            }
            assert(c.drop_last() =~= b);
        }
        Effect::Nothing
    }

    /// Carries out a command on the windows: closing, focusing, filling the
    /// area, cycling, arranging.
    fn apply_window(&mut self, command: Command) -> (effect: Effect)
        requires
            old(self).well_formed(),
            old(self).accepts(command),
            command is CloseWindow || command is ForceCloseWindow || command is Activate
                || command is ToggleMaximize || command is MaximizeActive || command is RestoreWindows
                || command is CycleWindow || command is Tile,
        ensures
            final(self).well_formed(),
            old(self).steps(command, *final(self), effect),
    {
        match command {
            Command::CloseWindow(id) => {
                proof {
                    crate::windows::lemma_index_of(self.windows.windows@, id);
                }
                let asked = self.windows.request_close(id);
                if asked {
                    proof {
                        lemma_pane_replaced(*old(self), *self, index_of(old(self).windows.windows@, id)->0);
                    }
                    self.dialogs.open(Dialog::ConfirmClose);
                } else {
                    proof {
                        lemma_closed_panes(*old(self), *self, id);
                    }
                }
                Effect::Nothing
            },
            Command::ForceCloseWindow(id) => {
                self.windows.close_window(id);
                proof {
                    lemma_closed_panes(*old(self), *self, id);
                }
                Effect::Nothing
            },
            Command::Activate(id) => {
                proof {
                    crate::windows::lemma_index_of(self.windows.windows@, id);
                }
                self.windows.activate(id);
                Effect::Nothing
            },
            Command::ToggleMaximize(id) => {
                proof {
                    crate::windows::lemma_index_of(self.windows.windows@, id);
                }
                let filling = self.windows.toggle_maximize(id);
                self.status = if filling {
                    string_of(&chars_of("window fills the spectrum area (Ctrl+M restores it)"))
                } else {
                    string_of(&chars_of("window restored"))
                };
                Effect::Nothing
            },
            Command::MaximizeActive => {
                match self.windows.maximize_active() {
                    Some(filling) => {
                        self.status = if filling {
                            string_of(&chars_of("window fills the spectrum area (Ctrl+M restores it)"))
                        } else {
                            string_of(&chars_of("window restored"))
                        };
                    },
                    None => {},
                }
                Effect::Nothing
            },
            Command::RestoreWindows => {
                if self.windows.restore_windows() {
                    self.status = string_of(&chars_of("window restored"));
                }
                Effect::Nothing
            },
            Command::CycleWindow(direction) => {
                let detector_count = self.detector_count;
                match self.windows.cycle_window(direction, detector_count) {
                    Some(index) => {
                        let mut text = chars_of("window: ");
                        append_chars(&mut text, &chars_of(self.windows.windows[index].content.title.as_str()));
                        self.status = string_of(&text);
                    },
                    None => {},
                }
                Effect::Nothing
            },
            Command::Tile(tiling) => {
                let detector_count = self.detector_count;
                let count = self.windows.tile(detector_count);
                if count == 0 {
                    self.status = string_of(&chars_of("no windows to arrange"));
                    Effect::Nothing
                } else {
                    let mut text = decimal_chars(count as u64);
                    let words = match tiling {
                        Tiling::Rows => " window(s) tiled horizontally",
                        Tiling::Columns => " window(s) tiled vertically",
                        Tiling::Cascade => " window(s) cascaded",
                    };
                    append_chars(&mut text, &chars_of(words));
                    self.status = string_of(&text);
                    Effect::Arrange(tiling)
                }
            },
            _ => Effect::Nothing,
        }
    }

    /// Carries out a command: the new workspace, and what the interface
    /// has to do besides.
    pub fn apply(&mut self, command: Command) -> (effect: Effect)
        requires
            old(self).well_formed(),
            old(self).accepts(command),
        ensures
            final(self).well_formed(),
            old(self).steps(command, *final(self), effect),
    {
        match command {
            Command::Marker(_) | Command::ZoomTo(..) | Command::Scroll(_) | Command::Center
            | Command::FullView | Command::ToggleLog | Command::AutoScale | Command::BaselineZoom
            | Command::SetFill(_) | Command::ToggleIsotopeMarkers | Command::ToggleEnergyAxis => self.apply_view(command),
            Command::Select(..) | Command::ClearSelection | Command::ClearCompare => self.apply_pane(command),
            Command::SetMarkMode(_) | Command::Show(_) | Command::Smooth | Command::Status(_)
            | Command::Collapse(_) => self.apply_status(command),
            Command::OpenBuffer => self.apply_open_buffer(),
            _ => self.apply_window(command),
        }
    }
}


/// Ctrl+Tab and then Ctrl+Shift+Tab bring back the window that was active,
/// when it was one of the windows they step through and there were at
/// least two: the windows are as they were, and in full-area mode that
/// window fills the area again.
pub proof fn lemma_cycle_back(w0: Workspace, w1: Workspace, w2: Workspace, e1: Effect, e2: Effect)
    requires
        w0.well_formed(),
        w0.steps(Command::CycleWindow(1i32), w1, e1),
        w1.steps(Command::CycleWindow(-1i32), w2, e2),
        w0.windows.cycle_target(1, w0.detector_count) is Some,
        w0.windows.active matches Some(a) && first_index(
            w0.windows.cycle_upto(w0.windows.windows@.len() as int, w0.detector_count),
            a,
        ) is Some,
    ensures
        w2.windows.windows == w0.windows.windows,
        w2.windows.active == w0.windows.active,
        w0.windows.maximized is Some ==> w2.windows.maximized == Some(
            w0.windows.windows@[w0.windows.active->0 as int].id,
        ),
        w0.windows.maximized is None ==> w2.windows.maximized is None,
{
    let ws = w0.windows;
    let dc = w0.detector_count;
    let len = ws.windows@.len() as int;
    assert(ws.windows@.len() == ws.windows.len());
    ws.lemma_cycle_round_trip(dc);
    let mid = WindowSet {
        active: ws.cycle_target(1, dc),
        windows: ws.windows,
        maximized: ws.maximized,
        pending_close: ws.pending_close,
        next_id: ws.next_id,
    };
    w1.windows.lemma_cycle_upto_same(&mid, len, dc);
    assert(w1.windows.cycle_target(-1, dc) == mid.cycle_target(-1, dc));
}


/// The close button does not lose unsaved work: a buffer with unsaved
/// changes stays open, with the unsaved-changes question waiting on it and
/// its dialog open; answering Discard then closes it, and nothing waits any
/// more.
pub proof fn lemma_close_asks_then_discards(
    w0: Workspace,
    w1: Workspace,
    w2: Workspace,
    e1: Effect,
    e2: Effect,
    id: usize,
)
    requires
        w0.well_formed(),
        has_id(w0.windows.windows@, id),
        w0.windows.windows@[index_of(w0.windows.windows@, id)->0].target == Target::Buffer,
        w0.windows.windows@[index_of(w0.windows.windows@, id)->0].modified,
        w0.steps(Command::CloseWindow(id), w1, e1),
        w1.steps(Command::ForceCloseWindow(id), w2, e2),
    ensures
        w1.windows.windows@.len() == w0.windows.windows@.len(),
        has_id(w1.windows.windows@, id),
        w1.windows.pending_close == Some(id),
        w1.dialogs@.contains(Dialog::ConfirmClose),
        !has_id(w2.windows.windows@, id),
        w2.windows.windows@.len() == w0.windows.windows@.len() - 1,
        w2.windows.pending_close is None,
{
    let b = w0.windows.windows@;
    let c = w1.windows.windows@;
    crate::windows::lemma_index_of(b, id);
    let k = index_of(b, id)->0;
    assert(c[k].id == id);
    assert(has_id(c, id));
    assert forall|i: int, j: int| 0 <= i < c.len() && 0 <= j < c.len() && i != j
        implies #[trigger] c[i].id != #[trigger] c[j].id by {
        assert(c[i].id == b[i].id);
        assert(c[j].id == b[j].id);
    }
    crate::windows::lemma_index_of_member(c, k);
    let d = w2.windows.windows@;
    if has_id(d, id) {
        let j = choose|j: int| 0 <= j < d.len() && #[trigger] d[j].id == id;
        let oj = if j < k { j } else { j + 1 };
        assert(d[j] == c[oj]);
    }
}


/// Arranging hands the interface the very arrangement asked for: Tile
/// Horizontally stacks, Tile Vertically sets side by side, Cascade staggers.
/// Full-area mode ends, and whenever some window is open with something to
/// show the windows are arranged; otherwise the status line says there is
/// nothing to arrange.
pub proof fn lemma_tile_arranges_as_asked(w0: Workspace, w1: Workspace, effect: Effect, tiling: Tiling)
    requires
        w0.well_formed(),
        w0.steps(Command::Tile(tiling), w1, effect),
    ensures
        effect == Effect::Arrange(tiling) || (effect == Effect::Nothing && w1.status@
            == "no windows to arrange"@),
        w1.windows.maximized is None,
        w1.windows.windows == w0.windows.windows,
        (exists|i: int| 0 <= i < w0.windows.windows@.len() && #[trigger] w0.windows.windows@[i].open
            && match w0.windows.windows@[i].target {
            Target::Buffer => true,
            Target::Detector(detector) => detector < w0.detector_count,
        }) ==> effect == Effect::Arrange(tiling),
        effect == Effect::Arrange(tiling) ==> {
            let words = match tiling {
                Tiling::Rows => " window(s) tiled horizontally"@,
                Tiling::Columns => " window(s) tiled vertically"@,
                Tiling::Cascade => " window(s) cascaded"@,
            };
            &&& w1.status@.len() > words.len()
            &&& w1.status@.subrange(w1.status@.len() - words.len(), w1.status@.len() as int) == words
        },
{
    let left = WindowSet { maximized: None, ..w0.windows };
    if effect == Effect::Arrange(tiling) {
        let count = left.painted_upto(left.windows@.len() as int, w0.detector_count).len();
        let digits = decimal_digits(count);
        assert(digits.len() >= 1);
        let words = tiling_words(tiling);
        assert((digits + words).subrange(digits.len() as int, (digits + words).len() as int) =~= words);
    }
    if exists|i: int| 0 <= i < w0.windows.windows@.len() && #[trigger] w0.windows.windows@[i].open
        && match w0.windows.windows@[i].target {
        Target::Buffer => true,
        Target::Detector(detector) => detector < w0.detector_count,
    } {
        let i = choose|i: int| 0 <= i < w0.windows.windows@.len() && #[trigger] w0.windows.windows@[i].open
            && match w0.windows.windows@[i].target {
            Target::Buffer => true,
            Target::Detector(detector) => detector < w0.detector_count,
        };
        left.lemma_painting_complete(w0.detector_count, i);
        assert(left.painted_upto(left.windows@.len() as int, w0.detector_count).len() > 0);
    }
}


/// The full-area button toggles: on a window that does not fill the area it
/// makes that window fill it (and focuses it), on the window that fills it
/// it gives the area back; the windows themselves stay as they are.
pub proof fn lemma_toggle_maximize(w0: Workspace, w1: Workspace, effect: Effect, id: usize)
    requires
        w0.well_formed(),
        w0.steps(Command::ToggleMaximize(id), w1, effect),
    ensures
        effect == Effect::Nothing,
        w1.windows.windows == w0.windows.windows,
        w0.windows.maximized == Some(id) ==> w1.windows.maximized is None && w1.windows.active
            == w0.windows.active && w1.status@ == "window restored"@,
        w0.windows.maximized != Some(id) ==> w1.windows.maximized == Some(id) && w1.status@
            == "window fills the spectrum area (Ctrl+M restores it)"@,
        w0.windows.maximized != Some(id) && has_id(w0.windows.windows@, id) ==> (w1.windows.active matches Some(
            b,
        ) && w1.windows.windows@[b as int].id == id),
{
    crate::windows::lemma_index_of(w0.windows.windows@, id);
    assert(w0.windows.windows@.len() == w0.windows.windows.len());
}

} // verus!
