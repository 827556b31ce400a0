//! What the spectrum display reports: the marking mode, the right-button menu
//! and the events a window hands back to the application.

use vstd::prelude::*;

verus! {

/// Which region-marking mode the ROI menu has selected.
#[derive(Clone, Copy, Debug, PartialEq, Eq, Structural)]
pub enum MarkMode {
    /// Dragging selects a range without changing regions.
    Off,
    /// Dragging marks a region.
    Mark,
    /// Dragging unmarks a region.
    UnMark,
}

impl Default for MarkMode {
    fn default() -> (mode: Self)
        ensures
            mode == MarkMode::Off,
    {
        MarkMode::Off
    }
}

impl MarkMode {
    /// Label for the ROI status area.
    pub fn label(&self) -> (label: &'static str)
        ensures
            *self == MarkMode::Off ==> label@ == "Off"@,
            *self == MarkMode::Mark ==> label@ == "Marking"@,
            *self == MarkMode::UnMark ==> label@ == "UnMarking"@,
    {
        match self {
            MarkMode::Off => "Off",
            MarkMode::Mark => "Marking",
            MarkMode::UnMark => "UnMarking",
        }
    }
}

/// Commands on the right-mouse-button menu.
#[derive(Clone, Copy, Debug, PartialEq, Eq, Structural)]
pub enum MenuCommand {
    /// Start data collection.
    Start,
    /// Stop data collection.
    Stop,
    /// Clear the spectrum.
    Clear,
    /// Copy the detector data to a buffer.
    CopyToBuffer,
    /// Zoom in.
    ZoomIn,
    /// Zoom out.
    ZoomOut,
    /// Show the whole spectrum again.
    UndoZoom,
    /// Mark a region over the selection.
    MarkRoi,
    /// Clear the region under the marker.
    ClearRoi,
    /// Peak information at the marker.
    PeakInfo,
    /// Show the input count rate.
    InputCountRate,
    /// Sum the selection.
    Sum,
    /// Open the instrument settings.
    McbProperties,
}

/// What the user did in the display.
#[derive(Clone, Copy, Debug, PartialEq, Eq, Structural)]
pub enum ViewEvent {
    /// A command was chosen from the right-mouse-button menu.
    Menu(MenuCommand),
    /// The marker moved to a channel.
    Marker(usize),
    /// A channel range was selected with the rubber rectangle.
    Selected(usize, usize),
    /// The selection was cleared.
    SelectionCleared,
    /// A region should be marked over this range.
    MarkRoi(usize, usize),
    /// A region should be unmarked over this range.
    UnmarkRoi(usize, usize),
    /// Peak information was asked for at a channel.
    PeakInfo(usize),
    /// The view should zoom to a channel range.
    ZoomTo(usize, usize),
    /// The wheel asked to zoom in or out.
    Zoom(i32),
    /// The wheel asked to zoom about the channel under the pointer.
    ZoomAt(usize, i32),
    /// The wheel asked to scroll by channels.
    Scroll(i64),
    /// The window should fill the spectrum area, or go back to its own size.
    ToggleMaximize,
    /// The window should be brought to the front and made active.
    Activate,
    /// The peak-information box was dismissed.
    ClosePeakInfo,
}

} // verus!
