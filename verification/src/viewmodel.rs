//! Display state: which part of the spectrum is on screen and how the
//! vertical axis is scaled.

use vstd::prelude::*;

verus! {

/// Ten to the `k`.
pub open spec fn pow10(k: nat) -> nat
    decreases k,
{
    if k == 0 {
        1
    } else {
        10 * pow10((k - 1) as nat)
    }
}

/// The `i`-th value of the series 1, 2, 5, 10, 20, 50, 100, ...: one, two or
/// five times a power of ten, in increasing order.
pub open spec fn round_value(i: nat) -> nat {
    let multiple: nat = if i % 3 == 0 {
        1
    } else if i % 3 == 1 {
        2
    } else {
        5
    };
    pow10(i / 3) * multiple
}

/// Whether some round value lies above `peak` and still fits in a `u64`.
pub open spec fn round_ceiling_fits(peak: u64) -> bool {
    exists|i: nat| peak < #[trigger] round_value(i) && round_value(i) <= u64::MAX
}

proof fn lemma_pow10_positive(k: nat)
    ensures
        pow10(k) >= 1,
    decreases k,
{
    if k > 0 {
        lemma_pow10_positive((k - 1) as nat);
    }
}

proof fn lemma_round_value_step(i: nat)
    ensures
        round_value(i) < round_value(i + 1),
{
    lemma_pow10_positive(i / 3);
    let p = pow10(i / 3);
    if i % 3 == 2 {
        assert((i + 1) / 3 == i / 3 + 1);
        assert(pow10((i + 1) / 3) == 10 * p);
    } else {
        assert((i + 1) / 3 == i / 3);
    }
}

/// The round values increase strictly.
pub proof fn lemma_round_value_increasing(i: nat, j: nat)
    requires
        i < j,
    ensures
        round_value(i) < round_value(j),
    decreases j - i,
{
    lemma_round_value_step(i);
    if i + 1 < j {
        lemma_round_value_increasing(i + 1, j);
    }
}

/// The top of a logarithmic axis: the next 1, 2 or 5 times a power of ten
/// strictly above `peak`, or `u64::MAX` when no such value fits in a `u64`.
///
/// A round number sits on a gridline the axis already labels, and strictly
/// above leaves the tallest channel room under the frame.
pub fn logarithmic_ceiling(peak: u64) -> (top: u64)
    ensures
        is_log_ceiling(peak, top),
{
    let mut step: u64 = 1;
    let ghost mut k: nat = 0;
    loop
        invariant
            step == pow10(k),
            step >= 1,
            forall|j: nat| j < 3 * k ==> #[trigger] round_value(j) <= peak,
        decreases u64::MAX - step,
    {
        assert(round_value(3 * k) == step) by {
            assert((3 * k) / 3 == k);
            assert((3 * k) % 3 == 0);
        }
        assert(round_value(3 * k + 1) == 2 * step) by {
            assert((3 * k + 1) / 3 == k);
            assert((3 * k + 1) % 3 == 1);
        }
        assert(round_value(3 * k + 2) == 5 * step) by {
            assert((3 * k + 2) / 3 == k);
            assert((3 * k + 2) % 3 == 2);
        }
        if step > peak {
            proof {
                assert forall|i: nat| peak < #[trigger] round_value(i) implies step <= round_value(i) by {
                    if i < 3 * k {
                    } else if i > 3 * k {
                        lemma_round_value_increasing(3 * k, i);
                    }
                }
            }
            return step;
        }
        match step.checked_mul(2) {
            None => {
                proof {
                    assert forall|i: nat| peak < #[trigger] round_value(i) implies round_value(i) > u64::MAX by {
                        if i < 3 * k + 1 {
                            if i < 3 * k {
                            }
                        } else if i > 3 * k + 1 {
                            lemma_round_value_increasing(3 * k + 1, i);
                        }
                    }
                }
                return u64::MAX;
            },
            Some(two) => {
                if two > peak {
                    proof {
                        assert forall|i: nat| peak < #[trigger] round_value(i) implies two <= round_value(i) by {
                            if i < 3 * k + 1 {
                                if i < 3 * k {
                                }
                            } else if i > 3 * k + 1 {
                                lemma_round_value_increasing(3 * k + 1, i);
                            }
                        }
                    }
                    return two;
                }
            },
        }
        match step.checked_mul(5) {
            None => {
                proof {
                    assert forall|i: nat| peak < #[trigger] round_value(i) implies round_value(i) > u64::MAX by {
                        if i < 3 * k + 2 {
                            if i < 3 * k {
                            }
                        } else if i > 3 * k + 2 {
                            lemma_round_value_increasing(3 * k + 2, i);
                        }
                    }
                }
                return u64::MAX;
            },
            Some(five) => {
                if five > peak {
                    proof {
                        assert forall|i: nat| peak < #[trigger] round_value(i) implies five <= round_value(i) by {
                            if i < 3 * k + 2 {
                                if i < 3 * k {
                                }
                            } else if i > 3 * k + 2 {
                                lemma_round_value_increasing(3 * k + 2, i);
                            }
                        }
                    }
                    return five;
                }
            },
        }
        match step.checked_mul(10) {
            None => {
                proof {
                    assert(round_value(3 * k + 3) == 10 * step) by {
                        assert((3 * k + 3) / 3 == k + 1);
                        assert((3 * k + 3) % 3 == 0);
                    }
                    assert forall|i: nat| peak < #[trigger] round_value(i) implies round_value(i) > u64::MAX by {
                        if i < 3 * k + 3 {
                            if i < 3 * k {
                            }
                        } else if i > 3 * k + 3 {
                            lemma_round_value_increasing(3 * k + 3, i);
                        }
                    }
                }
                return u64::MAX;
            },
            Some(next) => {
                proof {
                    assert forall|j: nat| j < 3 * (k + 1) implies #[trigger] round_value(j) <= peak by {
                        if j < 3 * k {
                        } else if j == 3 * k + 1 {
                        } else if j == 3 * k + 2 {
                        }
                    }
                    k = k + 1;
                }
                step = next;
            },
        }
    }
}

/// `top` is the top a logarithmic axis takes over a tallest channel of
/// `peak`: the least round value above it, or `u64::MAX` when none fits.
pub open spec fn is_log_ceiling(peak: u64, top: u64) -> bool {
    &&& round_ceiling_fits(peak) ==> {
        &&& top > peak
        &&& exists|i: nat| top == #[trigger] round_value(i)
        &&& forall|i: nat| peak < #[trigger] round_value(i) ==> top <= round_value(i)
    }
    &&& !round_ceiling_fits(peak) ==> top == u64::MAX
}

/// The top of a logarithmic axis is determined by the tallest channel: two
/// tops for the same peak are the same value.
pub proof fn lemma_log_ceiling_unique(peak: u64, a: u64, b: u64)
    requires
        is_log_ceiling(peak, a),
        is_log_ceiling(peak, b),
    ensures
        a == b,
{
    if round_ceiling_fits(peak) {
        let i = choose|i: nat| a == #[trigger] round_value(i);
        let j = choose|j: nat| b == #[trigger] round_value(j);
        assert(peak < round_value(i));
        assert(peak < round_value(j));
    }
}

/// A round value above the tallest channel fits in a `u64` exactly when the
/// channel holds fewer than ten to the nineteenth counts; so below that the
/// top of a logarithmic axis always sits strictly above the tallest channel.
pub proof fn lemma_log_ceiling_headroom(peak: u64)
    ensures
        round_ceiling_fits(peak) <==> peak < pow10(19),
        forall|top: u64| is_log_ceiling(peak, top) && peak < pow10(19) ==> top > peak,
{
    reveal_with_fuel(pow10, 20);
    assert(pow10(19) == 10_000_000_000_000_000_000nat);
    assert(round_value(57) == pow10(19)) by {
        assert(57nat / 3 == 19);
        assert(57nat % 3 == 0);
    }
    assert(round_value(58) == 2 * pow10(19)) by {
        assert(58nat / 3 == 19);
        assert(58nat % 3 == 1);
    }
    if peak < pow10(19) {
        assert(peak < round_value(57) && round_value(57) <= u64::MAX);
    }
    if round_ceiling_fits(peak) {
        let i = choose|i: nat| peak < #[trigger] round_value(i) && round_value(i) <= u64::MAX;
        if i >= 58 {
            if i > 58 {
                lemma_round_value_increasing(58, i);
            }
        } else if i < 57 {
            lemma_round_value_increasing(i, 57);
        }
    }
}

/// How the vertical axis is scaled.
#[derive(Clone, Copy, Debug, PartialEq, Eq, Structural)]
pub enum VerticalScale {
    /// Logarithmic, as the `LOG` button selects.
    Logarithmic,
    /// Linear with a fixed full scale.
    Linear(u64),
    /// Linear, rescaled so the tallest visible channel fills the window.
    Automatic,
}

impl Default for VerticalScale {
    /// Logarithmic, because a gamma spectrum spans several decades and a
    /// linear axis scaled to the tallest peak hides everything else.
    fn default() -> (scale: Self)
        ensures
            scale == VerticalScale::Logarithmic,
    {
        VerticalScale::Logarithmic
    }
}

/// How the spectrum is drawn.
#[derive(Clone, Copy, Debug, PartialEq, Eq, Structural)]
pub enum FillMode {
    /// One point per channel.
    Points,
    /// Fill the regions of interest only.
    FillRoi,
    /// Fill everything under the spectrum.
    FillAll,
}

impl Default for FillMode {
    /// Everything filled, which is how a spectrum is usually read.
    fn default() -> (fill: Self)
        ensures
            fill == FillMode::FillAll,
    {
        FillMode::FillAll
    }
}

/// The smallest window the expanded view can zoom to.
pub const MIN_VIEW_WIDTH: usize = 8;

pub open spec fn min_usize(a: usize, b: usize) -> usize {
    if a <= b {
        a
    } else {
        b
    }
}

pub open spec fn max_usize(a: usize, b: usize) -> usize {
    if a >= b {
        a
    } else {
        b
    }
}

/// What the expanded view shows and where the marker sits.
#[derive(Clone, Copy, Debug, PartialEq, Eq, Structural)]
pub struct DisplayState {
    /// Marker channel.
    pub marker: usize,
    /// First channel of the expanded view.
    pub view_start: usize,
    /// Channels across the expanded view.
    pub view_width: usize,
    /// Vertical scaling.
    pub vertical: VerticalScale,
    /// Counts at the bottom of the window (baseline zoom).
    pub baseline: u64,
    /// How the data is drawn.
    pub fill: FillMode,
    /// Whether the energy axis is used when a calibration exists.
    pub energy_axis: bool,
    /// Whether library lines are drawn.
    pub isotope_markers: bool,
    /// Length of the spectrum this state belongs to.
    pub length: usize,
}

impl Default for DisplayState {
    fn default() -> (state: Self)
        ensures
            state.is_default(),
    {
        DisplayState {
            marker: 0,
            view_start: 0,
            view_width: MIN_VIEW_WIDTH,
            vertical: VerticalScale::Logarithmic,
            baseline: 0,
            fill: FillMode::FillAll,
            energy_axis: true,
            isotope_markers: false,
            length: 0,
        }
    }
}

impl DisplayState {
    /// The state of an empty display: nothing to show, default look.
    pub open spec fn is_default(self) -> bool {
        &&& self.marker == 0
        &&& self.view_start == 0
        &&& self.view_width == MIN_VIEW_WIDTH
        &&& self.vertical == VerticalScale::Logarithmic
        &&& self.baseline == 0
        &&& self.fill == FillMode::FillAll
        &&& self.energy_axis
        &&& !self.isotope_markers
        &&& self.length == 0
    }

    /// What every operation leaves behind: a window of at least one channel
    /// that stays within the spectrum (or within the minimum width, for a
    /// spectrum shorter than that), and a marker on a channel that exists.
    pub open spec fn well_formed(self) -> bool {
        &&& self.view_width >= 1
        &&& self.view_start + self.view_width <= max_usize(self.length, MIN_VIEW_WIDTH)
        &&& self.length > 0 ==> self.marker < self.length
        &&& self.length == 0 ==> self.marker == 0 && self.view_start == 0
    }

    /// The window after it has been pulled back inside the spectrum.
    pub open spec fn is_settled(self) -> bool {
        &&& self.length == 0 ==> self.view_start == 0 && self.view_width == MIN_VIEW_WIDTH
            && self.marker == 0
        &&& self.length > 0 ==> {
            &&& min_usize(MIN_VIEW_WIDTH, self.length) <= self.view_width <= self.length
            &&& self.view_start + self.view_width <= self.length
            &&& self.marker < self.length
        }
    }

    /// Whether `visible` can be worked out without overflow.
    pub open spec fn visible_defined(self) -> bool {
        self.length > 0 ==> {
            &&& self.view_width >= 1
            &&& min_usize(self.view_start, (self.length - 1) as usize) + self.view_width - 1
                <= usize::MAX
        }
    }

    /// First and last visible channel, inclusive.
    pub open spec fn visible_range(self) -> (usize, usize) {
        if self.length == 0 {
            (0, 0)
        } else {
            let start = min_usize(self.view_start, (self.length - 1) as usize);
            let end = min_usize(
                (start + self.view_width - 1) as usize,
                (self.length - 1) as usize,
            );
            (start, end)
        }
    }

    /// `after` is `self` with the window pulled back inside the spectrum:
    /// the width between the minimum (or the whole spectrum, when shorter)
    /// and the spectrum, the start no further than the width allows, and the
    /// marker on the last channel at most.
    pub open spec fn settles_to(self, after: Self) -> bool {
        &&& after.length == self.length
        &&& after.vertical == self.vertical
        &&& after.baseline == self.baseline
        &&& after.fill == self.fill
        &&& after.energy_axis == self.energy_axis
        &&& after.isotope_markers == self.isotope_markers
        &&& if self.length == 0 {
            &&& after.view_start == 0
            &&& after.view_width == MIN_VIEW_WIDTH
            &&& after.marker == 0
        } else {
            let width = if self.view_width < min_usize(MIN_VIEW_WIDTH, self.length) {
                min_usize(MIN_VIEW_WIDTH, self.length)
            } else if self.view_width > self.length {
                self.length
            } else {
                self.view_width
            };
            &&& after.view_width == width
            &&& after.view_start == min_usize(self.view_start, (self.length - width) as usize)
            &&& after.marker == min_usize(self.marker, (self.length - 1) as usize)
        }
    }

    /// Pulling the window back inside the spectrum keeps the marker where
    /// it is while it is on a channel that exists, and brings a marker past
    /// the end back to the last channel - never anywhere else.
    pub proof fn lemma_settling_keeps_the_marker(self, after: Self)
        requires
            self.settles_to(after),
            self.length > 0,
        ensures
            after.length == self.length,
            self.marker < self.length ==> after.marker == self.marker,
            self.marker >= self.length ==> after.marker == self.length - 1,
    {
    }

    /// Setting the marker puts it on the channel asked for, or on the last
    /// channel when the one asked for is past the end.
    pub proof fn lemma_marker_lands_where_asked(self, channel: usize, after: Self)
        requires
            self.length > 0,
            self.follow_marker(channel).settles_to(after),
        ensures
            channel < self.length ==> after.marker == channel,
            channel >= self.length ==> after.marker == self.length - 1,
    {
    }

    /// The state a new spectrum length gives before the window is pulled back
    /// inside it: a view that covered everything, or that no longer fits,
    /// shows the whole new spectrum.
    pub open spec fn resized(self, length: usize) -> Self {
        let grew_from_nothing = self.length == 0;
        let covered_everything = self.view_start == 0 && self.view_width >= self.length;
        if grew_from_nothing || covered_everything || self.view_width > length {
            DisplayState { length, view_width: length, view_start: 0, ..self }
        } else {
            DisplayState { length, ..self }
        }
    }

    /// The window the marker is moved into: unchanged while the marker is
    /// visible, otherwise starting at the marker (leftwards) or ending at it
    /// (rightwards).
    pub open spec fn follow_marker(self, channel: usize) -> Self {
        let marker = min_usize(channel, (self.length - 1) as usize);
        let (start, end) = self.visible_range();
        let view_start = if marker < start {
            marker
        } else if marker > end {
            if marker >= self.view_width - 1 {
                (marker - (self.view_width - 1)) as usize
            } else {
                0
            }
        } else {
            self.view_start
        };
        DisplayState { marker, view_start, ..self }
    }

    /// The largest count in `channels[low..=high]`, zero for an empty range.
    pub open spec fn range_peak(channels: Seq<u64>, low: int, high: int) -> u64
        decreases high - low + 1,
    {
        if high < low {
            0
        } else {
            let rest = Self::range_peak(channels, low, high - 1);
            if channels[high] > rest {
                channels[high]
            } else {
                rest
            }
        }
    }

    /// The smallest count in `channels[low..=high]`, zero for an empty range.
    pub open spec fn range_floor(channels: Seq<u64>, low: int, high: int) -> u64
        decreases high - low + 1,
    {
        if high < low {
            0
        } else if high == low {
            channels[low]
        } else {
            let rest = Self::range_floor(channels, low, high - 1);
            if channels[high] < rest {
                channels[high]
            } else {
                rest
            }
        }
    }

    /// The visible part of `channels`, as `(first, last)`: the visible range
    /// cut to the channels there are.
    pub open spec fn visible_slice(self, count: int) -> (int, int) {
        let (start, end) = self.visible_range();
        let last = count - 1;
        (if start <= last { start as int } else { last }, if end <= last { end as int } else { last })
    }

    /// Whether `full_scale` runs without overflow on `channels`.
    pub open spec fn full_scale_defined(self, channels: Seq<u64>) -> bool {
        !(self.vertical is Linear) ==> {
            &&& self.baseline < u64::MAX
            &&& channels.len() > 0 ==> self.visible_defined()
        }
    }

    /// `top` is the full scale for the visible channels: a fixed linear
    /// scale as given (at least one), otherwise the tallest visible channel
    /// (never below one count over the baseline), rounded up to the next
    /// round value on a logarithmic axis.
    pub open spec fn is_full_scale(self, channels: Seq<u64>, top: u64) -> bool {
        match self.vertical {
            VerticalScale::Linear(max) => top == if max >= 1 { max } else { 1 },
            _ => if channels.len() == 0 {
                top == self.baseline + 1
            } else {
                let (low, high) = self.visible_slice(channels.len() as int);
                let tallest = Self::range_peak(channels, low, high);
                let peak = if tallest >= self.baseline + 1 { tallest } else { (self.baseline + 1) as u64 };
                if self.vertical is Logarithmic {
                    is_log_ceiling(peak, top)
                } else {
                    top == peak
                }
            },
        }
    }

    /// The length of the spectrum this state belongs to.
    pub fn length(&self) -> (length: usize)
        ensures
            length == self.length,
    {
        self.length
    }

    /// State showing the whole of a spectrum of `length` channels.
    pub fn for_length(length: usize) -> (state: Self)
        ensures
            state.length == length,
            state.view_start == 0,
            state.view_width == max_usize(length, MIN_VIEW_WIDTH),
            state.marker == 0,
            state.vertical == VerticalScale::Logarithmic,
            state.baseline == 0,
            state.fill == FillMode::FillAll,
            state.energy_axis,
            !state.isotope_markers,
            state.well_formed(),
            length > 0 ==> state.visible_range() == (0usize, (length - 1) as usize),
            state.visible_range().0 == 0 && state.visible_range().1 + 1 >= length,
    {
        let width = if length > MIN_VIEW_WIDTH {
            length
        } else {
            MIN_VIEW_WIDTH
        };
        DisplayState {
            marker: 0,
            view_start: 0,
            view_width: width,
            vertical: VerticalScale::Logarithmic,
            baseline: 0,
            fill: FillMode::FillAll,
            energy_axis: true,
            isotope_markers: false,
            length,
        }
    }

    /// Pulls the window and the marker back inside the spectrum.
    pub fn clamp(&mut self)
        ensures
            old(self).settles_to(*final(self)),
            final(self).is_settled(),
            final(self).well_formed(),
            final(self).length == old(self).length,
            old(self).length > 0 ==> final(self).marker == if old(self).marker < old(self).length {
                old(self).marker
            } else {
                (old(self).length - 1) as usize
            },
    {
        if self.length == 0 {
            self.view_start = 0;
            self.view_width = MIN_VIEW_WIDTH;
            self.marker = 0;
            return;
        }
        let lowest = if MIN_VIEW_WIDTH < self.length {
            MIN_VIEW_WIDTH
        } else {
            self.length
        };
        if self.view_width < lowest {
            self.view_width = lowest;
        } else if self.view_width > self.length {
            self.view_width = self.length;
        }
        let max_start = self.length - self.view_width;
        if self.view_start > max_start {
            self.view_start = max_start;
        }
        if self.marker > self.length - 1 {
            self.marker = self.length - 1;
        }
    }

    /// First and last visible channel, inclusive.
    pub fn visible(&self) -> (range: (usize, usize))
        requires
            self.visible_defined(),
        ensures
            range == self.visible_range(),
    {
        if self.length == 0 {
            return (0, 0);
        }
        let last = self.length - 1;
        let start = if self.view_start < last {
            self.view_start
        } else {
            last
        };
        let reach = start + (self.view_width - 1);
        let end = if reach < last {
            reach
        } else {
            last
        };
        (start, end)
    }

    /// Adjusts to a new spectrum length, keeping the view inside it.
    pub fn set_length(&mut self, length: usize)
        ensures
            length == 0 ==> final(self).is_default(),
            length > 0 ==> old(self).resized(length).settles_to(*final(self)),
            final(self).length == length,
            length > 0 ==> final(self).marker == if old(self).marker < length {
                old(self).marker
            } else {
                (length - 1) as usize
            },
            final(self).is_settled(),
            final(self).well_formed(),
            old(self).view_start == 0 && old(self).view_width >= old(self).length ==> (
                final(self).visible_range().0 == 0 && final(self).visible_range().1 + 1 >= length),
    {
        if length == 0 {
            *self = DisplayState::default();
            return;
        }
        let grew_from_nothing = self.length == 0;
        // A view that covered everything keeps covering everything: raising
        // the conversion gain must not leave the window on the first eighth of
        // the new spectrum.
        let covered_everything = self.view_start == 0 && self.view_width >= self.length;
        self.length = length;
        if grew_from_nothing || covered_everything || self.view_width > length {
            self.view_width = length;
            self.view_start = 0;
        }
        self.clamp();
    }

    /// Shows the whole spectrum (Display/Full View).
    pub fn full_view(&mut self)
        ensures
            *final(self) == (DisplayState {
                view_start: 0,
                view_width: max_usize(old(self).length, MIN_VIEW_WIDTH),
                baseline: 0,
                ..*old(self)
            }),
            final(self).visible_range().0 == 0 && final(self).visible_range().1 + 1 >= final(self).length,
    {
        self.view_start = 0;
        self.view_width = if self.length > MIN_VIEW_WIDTH {
            self.length
        } else {
            MIN_VIEW_WIDTH
        };
        self.baseline = 0;
    }

    /// Zooms to a channel range, as the rubber rectangle does.
    pub fn zoom_to(&mut self, low: usize, high: usize)
        requires
            min_usize(low, high) + usize::MAX > max_usize(low, high),
        ensures
            ({
                let lo = min_usize(low, high);
                let hi = max_usize(low, high);
                let width = max_usize((hi - lo + 1) as usize, MIN_VIEW_WIDTH);
                (DisplayState {
                    view_width: min_usize(width, max_usize(old(self).length, MIN_VIEW_WIDTH)),
                    view_start: lo,
                    ..*old(self)
                }).settles_to(*final(self))
            }),
            final(self).is_settled(),
    {
        let (low, high) = if low <= high {
            (low, high)
        } else {
            (high, low)
        };
        let span = high - low + 1;
        let width = if span > MIN_VIEW_WIDTH {
            span
        } else {
            MIN_VIEW_WIDTH
        };
        let limit = if self.length > MIN_VIEW_WIDTH {
            self.length
        } else {
            MIN_VIEW_WIDTH
        };
        self.view_width = if width < limit {
            width
        } else {
            limit
        };
        self.view_start = low;
        self.clamp();
    }

    /// Puts the marker in the middle of the window without moving it in the
    /// spectrum (Display/Center).
    pub fn center_on_marker(&mut self)
        ensures
            ({
                let half = old(self).view_width / 2;
                let start = if old(self).marker >= half { (old(self).marker - half) as usize } else { 0 };
                (DisplayState { view_start: start, ..*old(self) }).settles_to(*final(self))
            }),
            final(self).is_settled(),
            old(self).well_formed() ==> final(self).marker == old(self).marker,
    {
        let half = self.view_width / 2;
        self.view_start = if self.marker >= half {
            self.marker - half
        } else {
            0
        };
        self.clamp();
    }

    /// Moves the marker, scrolling the view when it would leave the window.
    pub fn set_marker(&mut self, channel: usize)
        requires
            old(self).visible_defined(),
        ensures
            old(self).length == 0 ==> *final(self) == (DisplayState { marker: 0, ..*old(self) }),
            old(self).length > 0 ==> old(self).follow_marker(channel).settles_to(*final(self)),
            old(self).length > 0 ==> final(self).is_settled(),
            old(self).well_formed() && old(self).length > 0 ==> final(self).visible_range().0
                <= final(self).marker <= final(self).visible_range().1,
    {
        if self.length == 0 {
            self.marker = 0;
            return;
        }
        let last = self.length - 1;
        self.marker = if channel < last {
            channel
        } else {
            last
        };
        let (start, end) = self.visible();
        if self.marker < start {
            self.view_start = self.marker;
        } else if self.marker > end {
            self.view_start = if self.marker >= self.view_width - 1 {
                self.marker - (self.view_width - 1)
            } else {
                0
            };
        }
        self.clamp();
    }

    /// Moves the marker by a signed number of channels.
    pub fn move_marker(&mut self, delta: i64)
        requires
            old(self).visible_defined(),
            i64::MIN <= (old(self).marker as i64) + delta <= i64::MAX,
        ensures
            ({
                let target = (old(self).marker as i64) + delta;
                let channel = if target <= 0 { 0usize } else { target as usize };
                &&& old(self).length == 0 ==> *final(self) == (DisplayState { marker: 0, ..*old(self) })
                &&& old(self).length > 0 ==> old(self).follow_marker(channel).settles_to(*final(self))
            }),
    {
        let target = self.marker as i64 + delta;
        let channel: usize = if target <= 0 {
            0
        } else {
            target as usize
        };
        self.set_marker(channel);
    }

    /// Scrolls the view without moving the marker in the spectrum.
    pub fn scroll(&mut self, delta: i64)
        requires
            i64::MIN <= (old(self).view_start as i64) + delta <= i64::MAX,
        ensures
            ({
                let target = (old(self).view_start as i64) + delta;
                let start = if target <= 0 { 0usize } else { target as usize };
                (DisplayState { view_start: start, ..*old(self) }).settles_to(*final(self))
            }),
            final(self).is_settled(),
            old(self).well_formed() ==> final(self).marker == old(self).marker,
            final(self).view_width == old(self).view_width || !old(self).is_settled(),
    {
        let target = self.view_start as i64 + delta;
        self.view_start = if target <= 0 {
            0
        } else {
            target as usize
        };
        self.clamp();
    }

    /// True when the whole spectrum is visible.
    pub fn is_full_view(&self) -> (full: bool)
        requires
            self.visible_defined(),
        ensures
            full == (self.visible_range().0 == 0 && self.visible_range().1 + 1 >= self.length),
    {
        let (start, end) = self.visible();
        start == 0 && end + 1 >= self.length
    }

    /// The full scale the vertical axis uses for the visible channels of
    /// `channels`.
    pub fn full_scale(&self, channels: &[u64]) -> (top: u64)
        requires
            self.full_scale_defined(channels@),
        ensures
            self.is_full_scale(channels@, top),
            top >= 1,
    {
        match self.vertical {
            VerticalScale::Linear(max) => if max >= 1 {
                max
            } else {
                1
            },
            _ => {
                // An empty spectrum has no channels to slice.
                if channels.len() == 0 {
                    return self.baseline + 1;
                }
                let (start, end) = self.visible();
                let last = channels.len() - 1;
                let low = if start <= last {
                    start
                } else {
                    last
                };
                let high = if end <= last {
                    end
                } else {
                    last
                };
                let mut tallest: u64 = 0;
                let mut index = low;
                while index <= high
                    invariant
                        low <= index <= high + 1,
                        high < channels.len(),
                        tallest == Self::range_peak(channels@, low as int, index - 1),
                    decreases high + 1 - index,
                {
                    if channels[index] > tallest {
                        tallest = channels[index];
                    }
                    index = index + 1;
                }
                let floor = self.baseline + 1;
                let peak = if tallest >= floor {
                    tallest
                } else {
                    floor
                };
                match self.vertical {
                    // A logarithmic axis is read off its decade lines, so the
                    // top belongs on one of them; rounding up also keeps the
                    // peak from being pressed flat against the frame.
                    VerticalScale::Logarithmic => logarithmic_ceiling(peak),
                    _ => peak,
                }
            },
        }
    }

    /// Switches between logarithmic and linear, remembering the linear scale
    /// that was in force.
    pub fn toggle_log(&mut self, channels: &[u64])
        requires
            old(self).full_scale_defined(channels@),
        ensures
            old(self).vertical is Logarithmic ==> (exists|top: u64|
                old(self).is_full_scale(channels@, top) && *final(self) == (DisplayState {
                    vertical: VerticalScale::Linear(top),
                    ..*old(self)
                })),
            !(old(self).vertical is Logarithmic) ==> *final(self) == (DisplayState {
                vertical: VerticalScale::Logarithmic,
                ..*old(self)
            }),
    {
        self.vertical = match self.vertical {
            VerticalScale::Logarithmic => VerticalScale::Linear(self.full_scale(channels)),
            _ => VerticalScale::Logarithmic,
        };
    }

    /// Baseline zoom: lifts the bottom of the window to the smallest visible
    /// count, or back to zero when it was already lifted.
    pub fn baseline_zoom(&mut self, channels: &[u64])
        requires
            old(self).baseline == 0 ==> channels.len() > 0 && old(self).visible_defined(),
        ensures
            old(self).baseline != 0 ==> *final(self) == (DisplayState { baseline: 0, ..*old(self) }),
            old(self).baseline == 0 ==> ({
                let (low, high) = old(self).visible_slice(channels@.len() as int);
                *final(self) == (DisplayState {
                    baseline: Self::range_floor(channels@, low, high),
                    ..*old(self)
                })
            }),
    {
        if self.baseline != 0 {
            self.baseline = 0;
            return;
        }
        let (start, end) = self.visible();
        let last = channels.len() - 1;
        let low = if start <= last {
            start
        } else {
            last
        };
        let high = if end <= last {
            end
        } else {
            last
        };
        let mut lowest: u64 = channels[low];
        let mut index = low + 1;
        while index <= high
            invariant
                low < index <= high + 1,
                high < channels.len(),
                lowest == Self::range_floor(channels@, low as int, index - 1),
            decreases high + 1 - index,
        {
            if channels[index] < lowest {
                lowest = channels[index];
            }
            index = index + 1;
        }
        self.baseline = lowest;
    }
}

/// The channels a sum covers: the selection when there is one, else the
/// region under the marker, else the whole spectrum of `length` channels.
pub fn sum_bounds(selection: Option<(usize, usize)>, region_at_marker: Option<(usize, usize)>, length: usize) -> (bounds: (usize, usize))
    ensures
        bounds == match selection {
            Some(range) => range,
            None => match region_at_marker {
                Some(region) => region,
                None => (0usize, if length > 0 { (length - 1) as usize } else { 0usize }),
            },
        },
{
    match selection {
        Some(range) => range,
        None => match region_at_marker {
            Some(region) => region,
            None => (0, if length > 0 { length - 1 } else { 0 }),
        },
    }
}

} // verus!
