//! The spectrum windows as the application keeps them: which is active,
//! which fills the spectrum area, and what opening, closing and cycling do
//! to both.

use vstd::prelude::*;

verus! {

/// Which spectrum a window shows.
#[derive(Clone, Copy, Debug, PartialEq, Eq, Structural)]
pub enum Target {
    /// A configured detector, by index.
    Detector(usize),
    /// A buffer holding a recalled or copied spectrum.
    Buffer,
}

/// One spectrum window: its bookkeeping, and whatever the interface keeps
/// for it besides.
pub struct Window<T> {
    /// Stable identifier.
    pub id: usize,
    /// What it shows.
    pub target: Target,
    /// Whether the window is open.
    pub open: bool,
    /// Whether the data has changed since it was saved.
    pub modified: bool,
    /// The rest of the window: data, title, display.
    pub content: T,
}

impl<T> Window<T> {
    /// True for a buffer window.
    pub fn is_buffer(&self) -> (buffer: bool)
        ensures
            buffer == (self.target == Target::Buffer),
    {
        match self.target {
            Target::Buffer => true,
            Target::Detector(_) => false,
        }
    }
}

/// The index of the first window in `windows` from `from` on with this id.
pub open spec fn find_id<T>(windows: Seq<Window<T>>, id: usize, from: int) -> Option<int>
    decreases windows.len() - from,
{
    if from < 0 || from >= windows.len() {
        None
    } else if windows[from].id == id {
        Some(from)
    } else {
        find_id(windows, id, from + 1)
    }
}

/// The index of the window with this id, if there is one.
pub open spec fn index_of<T>(windows: Seq<Window<T>>, id: usize) -> Option<int> {
    find_id(windows, id, 0)
}

/// Whether some window has this id.
pub open spec fn has_id<T>(windows: Seq<Window<T>>, id: usize) -> bool {
    exists|i: int| 0 <= i < windows.len() && #[trigger] windows[i].id == id
}

proof fn lemma_find_id<T>(windows: Seq<Window<T>>, id: usize, from: int)
    requires
        0 <= from,
    ensures
        find_id(windows, id, from) matches Some(i) ==> from <= i < windows.len()
            && windows[i].id == id && forall|j: int| from <= j < i ==> windows[j].id != id,
        find_id(windows, id, from) is None ==> forall|j: int|
            from <= j < windows.len() ==> windows[j].id != id,
    decreases windows.len() - from,
{
    if from < windows.len() && windows[from].id != id {
        lemma_find_id(windows, id, from + 1);
    }
}

/// The first window with a given id, and no window at all without one.
pub proof fn lemma_index_of<T>(windows: Seq<Window<T>>, id: usize)
    ensures
        index_of(windows, id) matches Some(i) ==> 0 <= i < windows.len() && windows[i].id == id
            && forall|j: int| 0 <= j < i ==> windows[j].id != id,
        index_of(windows, id) is None <==> !has_id(windows, id),
{
    lemma_find_id(windows, id, 0);
}

/// No two windows share an id.
pub open spec fn ids_distinct<T>(windows: Seq<Window<T>>) -> bool {
    forall|i: int, j: int|
        0 <= i < windows.len() && 0 <= j < windows.len() && i != j
            ==> #[trigger] windows[i].id != #[trigger] windows[j].id
}

/// With distinct ids, a window is found by its own id.
pub proof fn lemma_index_of_member<T>(windows: Seq<Window<T>>, j: int)
    requires
        ids_distinct(windows),
        0 <= j < windows.len(),
    ensures
        index_of(windows, windows[j].id) == Some(j),
{
    lemma_index_of(windows, windows[j].id);
    assert(has_id(windows, windows[j].id));
}

/// The first place `x` appears in `s`.
pub open spec fn first_index(s: Seq<usize>, x: usize) -> Option<int>
    decreases s.len(),
{
    if s.len() == 0 {
        None
    } else if s[0] == x {
        Some(0)
    } else {
        match first_index(s.drop_first(), x) {
            Some(i) => Some(i + 1),
            None => None,
        }
    }
}

proof fn lemma_first_index(s: Seq<usize>, x: usize)
    ensures
        first_index(s, x) matches Some(i) ==> 0 <= i < s.len() && s[i] == x && forall|j: int|
            0 <= j < i ==> s[j] != x,
        first_index(s, x) is None ==> forall|j: int| 0 <= j < s.len() ==> s[j] != x,
    decreases s.len(),
{
    if s.len() > 0 && s[0] != x {
        lemma_first_index(s.drop_first(), x);
        assert forall|j: int| 1 <= j < s.len() implies s[j] == s.drop_first()[j - 1] by {}
    }
}

/// Where `x` first appears in `s`.
fn index_in(s: &Vec<usize>, x: usize) -> (found: Option<usize>)
    ensures
        found matches Some(k) ==> first_index(s@, x) == Some(k as int),
        found is None ==> first_index(s@, x) is None,
{
    proof {
        lemma_first_index(s@, x);
    }
    let mut k: usize = 0;
    while k < s.len()
        invariant
            k <= s@.len(),
            forall|m: int| 0 <= m < k ==> s@[m] != x,
            first_index(s@, x) matches Some(i) ==> 0 <= i < s@.len() && s@[i] == x && forall|j: int|
                0 <= j < i ==> s@[j] != x,
            first_index(s@, x) is None ==> forall|j: int| 0 <= j < s@.len() ==> s@[j] != x,
        decreases s.len() - k,
    {
        if s[k] == x {
            return Some(k);
        }
        k = k + 1;
    }
    None
}

/// The windows left when those on detector `index` close, in order.
pub open spec fn on_remaining_detectors<T>(windows: Seq<Window<T>>, index: usize) -> Seq<Window<T>>
    decreases windows.len(),
{
    if windows.len() == 0 {
        windows
    } else {
        let rest = on_remaining_detectors(windows.drop_last(), index);
        if windows.last().target == Target::Detector(index) {
            rest
        } else {
            rest.push(windows.last())
        }
    }
}

/// Whether a window with this id shows detector `index`.
pub open spec fn id_on_detector<T>(windows: Seq<Window<T>>, id: usize, index: usize) -> bool {
    exists|i: int| 0 <= i < windows.len() && #[trigger] windows[i].id == id && windows[i].target == Target::Detector(index)
}

/// The windows of one kind, in their order: the buffers when `buffers`
/// holds, the detector windows otherwise.
pub open spec fn of_kind<T>(windows: Seq<Window<T>>, buffers: bool) -> Seq<Window<T>>
    decreases windows.len(),
{
    if windows.len() == 0 {
        windows
    } else {
        let rest = of_kind(windows.drop_last(), buffers);
        if (windows.last().target == Target::Buffer) == buffers {
            rest.push(windows.last())
        } else {
            rest
        }
    }
}

/// The one index at which `flags` holds, when exactly one does.
pub open spec fn sole_index(flags: Seq<bool>) -> Option<int> {
    if exists|i: int| 0 <= i < flags.len() && #[trigger] flags[i] && (forall|j: int| 0 <= j < flags.len() && #[trigger] flags[j] ==> j == i) {
        Some(choose|i: int| 0 <= i < flags.len() && #[trigger] flags[i] && (forall|j: int| 0 <= j < flags.len() && #[trigger] flags[j] ==> j == i))
    } else {
        None
    }
}

/// Where a window's target points once detector `index` is removed: later
/// detectors move down one place.
pub open spec fn shifted_target(target: Target, index: usize) -> Target {
    match target {
        Target::Detector(detector) => if detector > index {
            Target::Detector((detector - 1) as usize)
        } else {
            target
        },
        Target::Buffer => target,
    }
}

/// The spectrum windows, the active one and the one filling the area.
pub struct WindowSet<T> {
    /// Open spectrum windows, in drawing order.
    pub windows: Vec<Window<T>>,
    /// Index of the active window.
    pub active: Option<usize>,
    /// The window filling the spectrum area, by id, if any.
    pub maximized: Option<usize>,
    /// A window whose close is waiting on the unsaved-changes question.
    pub pending_close: Option<usize>,
    /// The identifier the next window gets.
    pub next_id: usize,
}

impl<T> WindowSet<T> {
    /// Every window has its own identifier, below the next one to be handed
    /// out, and the active index is a window.
    pub open spec fn well_formed(&self) -> bool {
        &&& ids_distinct(self.windows@)
        &&& forall|i: int| 0 <= i < self.windows@.len() ==> #[trigger] self.windows@[i].id < self.next_id
        &&& self.active matches Some(index) ==> index < self.windows@.len()
    }

    /// The window filling the area, when there is one, is a window that
    /// exists.
    pub open spec fn maximized_exists(&self) -> bool {
        self.maximized matches Some(id) ==> has_id(self.windows@, id)
    }

    /// No windows yet.
    pub fn new() -> (set: Self)
        ensures
            set.windows@.len() == 0,
            set.active is None,
            set.maximized is None,
            set.pending_close is None,
            set.next_id == 1,
            set.well_formed(),
    {
        WindowSet { windows: Vec::new(), active: None, maximized: None, pending_close: None, next_id: 1 }
    }

    /// The index of the window with this id.
    pub fn position(&self, id: usize) -> (index: Option<usize>)
        ensures
            index matches Some(i) ==> index_of(self.windows@, id) == Some(i as int),
            index is None ==> index_of(self.windows@, id) is None,
    {
        let mut i: usize = 0;
        while i < self.windows.len()
            invariant
                i <= self.windows@.len(),
                index_of(self.windows@, id) == find_id(self.windows@, id, i as int),
            decreases self.windows.len() - i,
        {
            if self.windows[i].id == id {
                return Some(i);
            }
            i = i + 1;
        }
        None
    }

    /// Makes a window the active one, and the one filling the area when the
    /// display is in full-area mode.
    ///
    /// Without the second half, opening a spectrum while another window
    /// filled the area would load the data into a window nothing drew.
    pub fn focus_window(&mut self, index: usize)
        ensures
            index >= old(self).windows@.len() ==> *final(self) == *old(self),
            index < old(self).windows@.len() ==> {
                &&& final(self).windows == old(self).windows
                &&& final(self).active == Some(index)
                &&& final(self).maximized == (if old(self).maximized is Some {
                    Some(old(self).windows@[index as int].id)
                } else {
                    None::<usize>
                })
                &&& final(self).pending_close == old(self).pending_close
                &&& final(self).next_id == old(self).next_id
            },
    {
        if index >= self.windows.len() {
            return;
        }
        let id = self.windows[index].id;
        self.active = Some(index);
        if self.maximized.is_some() {
            self.maximized = Some(id);
        }
    }

    /// Forgets a full-area window that no longer exists, so the spectrum
    /// area can never end up blank.
    pub fn validate_maximized(&mut self)
        ensures
            final(self).windows == old(self).windows,
            final(self).active == old(self).active,
            final(self).pending_close == old(self).pending_close,
            final(self).next_id == old(self).next_id,
            final(self).maximized == if old(self).maximized matches Some(id) && !has_id(old(self).windows@, id) {
                None
            } else {
                old(self).maximized
            },
            final(self).maximized_exists(),
    {
        if let Some(id) = self.maximized {
            let found = self.position(id);
            proof {
                lemma_index_of(self.windows@, id);
            }
            if found.is_none() {
                self.maximized = None;
            }
        }
    }

    /// Opens a window on `target` holding `content`, and makes it active.
    pub fn open_window(&mut self, target: Target, content: T) -> (id: usize)
        requires
            old(self).well_formed(),
            old(self).next_id < usize::MAX,
        ensures
            id == old(self).next_id,
            final(self).next_id == old(self).next_id + 1,
            final(self).windows@.len() == old(self).windows@.len() + 1,
            forall|i: int| 0 <= i < old(self).windows@.len() ==> #[trigger] final(self).windows@[i]
                == old(self).windows@[i],
            final(self).windows@.last() == (Window { id, target, open: true, modified: false, content }),
            final(self).active == Some(old(self).windows@.len() as usize),
            final(self).maximized == (if old(self).maximized is Some { Some(id) } else { None::<usize> }),
            final(self).pending_close == old(self).pending_close,
            final(self).well_formed(),
    {
        let id = self.next_id;
        self.next_id = self.next_id + 1;
        self.windows.push(Window { id, target, open: true, modified: false, content });
        let index = self.windows.len() - 1;
        self.focus_window(index);
        id
    }

    /// Opens a buffer window holding `content`.
    pub fn open_buffer(&mut self, content: T) -> (id: usize)
        requires
            old(self).well_formed(),
            old(self).next_id < usize::MAX,
        ensures
            id == old(self).next_id,
            final(self).next_id == old(self).next_id + 1,
            final(self).windows@ == old(self).windows@.push(
                Window { id, target: Target::Buffer, open: true, modified: false, content },
            ),
            final(self).active == Some(old(self).windows@.len() as usize),
            final(self).maximized == (if old(self).maximized is Some { Some(id) } else { None::<usize> }),
            final(self).pending_close == old(self).pending_close,
            final(self).well_formed(),
    {
        let id = self.open_window(Target::Buffer, content);
        assert(self.windows@ =~= old(self).windows@.push(
            Window { id, target: Target::Buffer, open: true, modified: false, content },
        ));
        id
    }

    /// The index of the first window showing a detector.
    pub open spec fn detector_window(&self, detector: usize) -> Option<int> {
        if exists|i: int| 0 <= i < self.windows@.len() && #[trigger] self.windows@[i].target == Target::Detector(detector) {
            Some(choose|i: int| 0 <= i < self.windows@.len()
                && #[trigger] self.windows@[i].target == Target::Detector(detector)
                && forall|j: int| 0 <= j < i ==> self.windows@[j].target != Target::Detector(detector))
        } else {
            None
        }
    }

    /// Opens the window on a detector: the one already there, reopened and
    /// focused, or a new one holding `content`.
    pub fn open_detector(&mut self, detector: usize, content: T)
        requires
            old(self).well_formed(),
            old(self).next_id < usize::MAX,
        ensures
            final(self).well_formed(),
            final(self).pending_close == old(self).pending_close,
            (exists|i: int| 0 <= i < old(self).windows@.len() && #[trigger] old(self).windows@[i].target == Target::Detector(detector)) ==> {
                let i = old(self).detector_window(detector)->0;
                &&& final(self).windows@ == old(self).windows@.update(i, Window { open: true, ..old(self).windows@[i] })
                &&& final(self).active == Some(i as usize)
                &&& final(self).next_id == old(self).next_id
                &&& final(self).maximized == (if old(self).maximized is Some {
                    Some(old(self).windows@[i].id)
                } else {
                    None::<usize>
                })
            },
            !(exists|i: int| 0 <= i < old(self).windows@.len() && #[trigger] old(self).windows@[i].target == Target::Detector(detector)) ==> {
                &&& final(self).windows@ == old(self).windows@.push(Window {
                    id: old(self).next_id,
                    target: Target::Detector(detector),
                    open: true,
                    modified: false,
                    content,
                })
                &&& final(self).active == Some(old(self).windows@.len() as usize)
                &&& final(self).next_id == old(self).next_id + 1
                &&& final(self).maximized == (if old(self).maximized is Some {
                    Some(old(self).next_id)
                } else {
                    None::<usize>
                })
            },
    {
        let mut i: usize = 0;
        while i < self.windows.len()
            invariant
                i <= self.windows@.len(),
                forall|j: int| 0 <= j < i ==> self.windows@[j].target != Target::Detector(detector),
                self.windows@ == old(self).windows@,
                self.active == old(self).active,
                self.maximized == old(self).maximized,
                self.pending_close == old(self).pending_close,
                self.next_id == old(self).next_id,
                old(self).well_formed(),
                old(self).next_id < usize::MAX,
            decreases self.windows.len() - i,
        {
            if self.windows[i].target == Target::Detector(detector) {
                assert(self.detector_window(detector) == Some(i as int)) by {
                    let k = self.detector_window(detector)->0;
                    assert(self.windows@[k].target == Target::Detector(detector));
                    if k < i {
                    } else if k > i {
                    }
                }
                self.windows[i].open = true;
                self.focus_window(i);
                return;
            }
            i = i + 1;
        }
        let id = self.open_window(Target::Detector(detector), content);
        assert(self.windows@ =~= old(self).windows@.push(Window {
            id,
            target: Target::Detector(detector),
            open: true,
            modified: false,
            content,
        }));
    }

    /// The id of the active window, unless it is `id`.
    pub open spec fn surviving_active(&self, id: usize) -> Option<usize> {
        match self.active {
            Some(a) => if 0 <= a < self.windows@.len() && self.windows@[a as int].id != id {
                Some(self.windows@[a as int].id)
            } else {
                None
            },
            None => None,
        }
    }

    /// What closing the window with this id does: the window goes, and its
    /// roles - active, filling the area, waiting on a question - pass to
    /// whatever is left. What was active stays active by identity, not by
    /// position; when the active window itself goes, the last window takes
    /// over.
    pub open spec fn closes(self, after: Self, id: usize) -> bool {
        &&& after.well_formed()
        &&& after.next_id == self.next_id
        &&& !has_id(self.windows@, id) ==> after == self
        &&& has_id(self.windows@, id) ==> {
            let index = index_of(self.windows@, id)->0;
            &&& after.windows@ == self.windows@.remove(index)
            &&& after.maximized_exists()
            &&& self.surviving_active(id) matches Some(kept) ==> (after.active matches Some(b)
                && after.windows@[b as int].id == kept)
            &&& self.surviving_active(id) is None ==> after.active == if after.windows@.len() == 0 {
                None::<usize>
            } else {
                Some((after.windows@.len() - 1) as usize)
            }
            &&& (self.maximized matches Some(m) && m != id && has_id(self.windows@, m))
                ==> after.maximized == self.maximized
            &&& (self.maximized matches Some(m) && m != id && !has_id(self.windows@, m))
                ==> after.maximized is None
            &&& self.maximized is None ==> after.maximized is None
            &&& self.maximized == Some(id) ==> after.maximized == match after.active {
                Some(b) => Some(after.windows@[b as int].id),
                None => None::<usize>,
            }
            &&& after.pending_close == if self.pending_close == Some(id) {
                None::<usize>
            } else {
                self.pending_close
            }
        }
    }

    /// Removes the window with this id and hands its roles - active, filling
    /// the area, waiting on a question - to whatever is left.
    ///
    /// What was active stays active by identity, not by position: closing a
    /// background window must not silently retarget later commands. When
    /// the active window itself goes, the last window takes over.
    pub fn close_window(&mut self, id: usize)
        requires
            old(self).well_formed(),
        ensures
            old(self).closes(*final(self), id),
    {
        proof {
            lemma_index_of(self.windows@, id);
        }
        let index = match self.position(id) {
            Some(index) => index,
            None => return ,
        };
        let active_id = match self.active {
            Some(a) => if self.windows[a].id != id {
                Some(self.windows[a].id)
            } else {
                None
            },
            None => None,
        };
        let ghost before = self.windows@;
        let _closed = self.windows.remove(index);
        assert forall|i: int, j: int|
            0 <= i < self.windows@.len() && 0 <= j < self.windows@.len() && i != j
                implies #[trigger] self.windows@[i].id != #[trigger] self.windows@[j].id by {
            let oi = if i < index { i } else { i + 1 };
            let oj = if j < index { j } else { j + 1 };
            assert(self.windows@[i] == before[oi]);
            assert(self.windows@[j] == before[oj]);
        }
        assert forall|i: int| 0 <= i < self.windows@.len() implies #[trigger] self.windows@[i].id < self.next_id by {
            let oi = if i < index { i } else { i + 1 };
            assert(self.windows@[i] == before[oi]);
        }
        let found = match active_id {
            Some(kept) => {
                let ghost a: int = old(self).active->0 as int;
                let ghost b: int = if a < index { a } else { a - 1 };
                assert(self.windows@[b] == before[a]);
                proof {
                    lemma_index_of_member(self.windows@, b);
                }
                self.position(kept)
            },
            None => None,
        };
        self.active = match found {
            Some(position) => Some(position),
            None => if self.windows.len() == 0 {
                None
            } else {
                Some(self.windows.len() - 1)
            },
        };
        if self.maximized == Some(id) {
            self.maximized = match self.active {
                Some(b) => Some(self.windows[b].id),
                None => None,
            };
        }
        let ghost unvalidated = self.maximized;
        self.validate_maximized();
        proof {
            if let Some(m) = old(self).maximized {
                if m != id && has_id(before, m) {
                    let k = choose|k: int| 0 <= k < before.len() && #[trigger] before[k].id == m;
                    let nk = if k < index { k } else { k - 1 };
                    assert(self.windows@[nk] == before[k]);
                    assert(has_id(self.windows@, m));
                }
                if m != id && !has_id(before, m) && has_id(self.windows@, m) {
                    let k = choose|k: int| 0 <= k < self.windows@.len() && #[trigger] self.windows@[k].id == m;
                    let ok = if k < index { k } else { k + 1 };
                    assert(self.windows@[k] == before[ok]);
                }
            }
            if old(self).maximized == Some(id) {
                if let Some(b) = self.active {
                    assert(has_id(self.windows@, self.windows@[b as int].id));
                }
            }
        }
        if self.pending_close == Some(id) {
            self.pending_close = None;
        }
    }

    /// Whether window `i` has something to show: a buffer always does, a
    /// detector window while its detector is configured.
    pub open spec fn shows_data(&self, i: int, detector_count: usize) -> bool {
        match self.windows@[i].target {
            Target::Buffer => true,
            Target::Detector(detector) => detector < detector_count,
        }
    }

    /// Whether window `i` is painted: open, not hidden behind another
    /// window filling the area, and with something to show.
    pub open spec fn is_painted(&self, i: int, detector_count: usize) -> bool {
        &&& self.windows@[i].open
        &&& !(self.maximized matches Some(id) && id != self.windows@[i].id)
        &&& self.shows_data(i, detector_count)
    }

    /// The windows among the first `k` that are painted, in order.
    pub open spec fn painted_upto(&self, k: int, detector_count: usize) -> Seq<usize>
        decreases k,
    {
        if k <= 0 {
            Seq::empty()
        } else if self.is_painted(k - 1, detector_count) {
            self.painted_upto(k - 1, detector_count).push((k - 1) as usize)
        } else {
            self.painted_upto(k - 1, detector_count)
        }
    }

    /// The windows among the first `k` that are open with something to
    /// show, in order - the ones Ctrl+Tab steps through.
    pub open spec fn cycle_upto(&self, k: int, detector_count: usize) -> Seq<usize>
        decreases k,
    {
        if k <= 0 {
            Seq::empty()
        } else if self.windows@[k - 1].open && self.shows_data(k - 1, detector_count) {
            self.cycle_upto(k - 1, detector_count).push((k - 1) as usize)
        } else {
            self.cycle_upto(k - 1, detector_count)
        }
    }

    /// Whether a detector is configured at `detector` for a window.
    fn shows(&self, i: usize, detector_count: usize) -> (shown: bool)
        requires
            i < self.windows@.len(),
        ensures
            shown == self.shows_data(i as int, detector_count),
    {
        match self.windows[i].target {
            Target::Buffer => true,
            Target::Detector(detector) => detector < detector_count,
        }
    }

    /// Which windows the window pass paints, in drawing order: one window
    /// may fill the spectrum area, hiding the rest, and a window with
    /// nothing to show is not drawn at all.
    pub fn visible_windows(&self, detector_count: usize) -> (painted: Vec<usize>)
        ensures
            painted@ == self.painted_upto(self.windows@.len() as int, detector_count),
    {
        let mut painted: Vec<usize> = Vec::new();
        let mut i: usize = 0;
        while i < self.windows.len()
            invariant
                i <= self.windows@.len(),
                painted@ == self.painted_upto(i as int, detector_count),
            decreases self.windows.len() - i,
        {
            let hidden = match self.maximized {
                Some(id) => id != self.windows[i].id,
                None => false,
            };
            if self.windows[i].open && !hidden && self.shows(i, detector_count) {
                painted.push(i);
            }
            i = i + 1;
        }
        painted
    }

    /// Where the active window stands among the windows Ctrl+Tab steps
    /// through, or the first of them when it is not one.
    pub open spec fn cycle_position(&self, detector_count: usize) -> int {
        let candidates = self.cycle_upto(self.windows@.len() as int, detector_count);
        match self.active {
            Some(a) => match first_index(candidates, a) {
                Some(position) => position,
                None => 0,
            },
            None => 0,
        }
    }

    /// The window Ctrl+Tab (`direction` 1) or Ctrl+Shift+Tab (`direction`
    /// -1) moves to: the next or previous open window with something to
    /// show, wrapping round; none when fewer than two qualify.
    pub open spec fn cycle_target(&self, direction: int, detector_count: usize) -> Option<usize> {
        let candidates = self.cycle_upto(self.windows@.len() as int, detector_count);
        if candidates.len() < 2 {
            None
        } else {
            Some(candidates[(self.cycle_position(detector_count) + direction) % (candidates.len() as int)])
        }
    }

    proof fn lemma_cycle_upto(&self, k: int, detector_count: usize)
        requires
            0 <= k <= self.windows@.len(),
            self.windows@.len() <= usize::MAX,
        ensures
            forall|m: int| 0 <= m < self.cycle_upto(k, detector_count).len() ==> {
                let i = #[trigger] self.cycle_upto(k, detector_count)[m] as int;
                &&& 0 <= i < k
                &&& self.windows@[i].open
                &&& self.shows_data(i, detector_count)
            },
            forall|m: int, n: int| 0 <= m < n < self.cycle_upto(k, detector_count).len()
                ==> #[trigger] self.cycle_upto(k, detector_count)[m] < #[trigger] self.cycle_upto(k, detector_count)[n],
            self.cycle_upto(k, detector_count).len() <= k,
        decreases k,
    {
        if k > 0 {
            self.lemma_cycle_upto(k - 1, detector_count);
            let before = self.cycle_upto(k - 1, detector_count);
            let now = self.cycle_upto(k, detector_count);
            if self.windows@[k - 1].open && self.shows_data(k - 1, detector_count) {
                assert(now == before.push((k - 1) as usize));
                assert(((k - 1) as usize) as int == k - 1);
                assert forall|m: int| 0 <= m < now.len() implies ({
                    let i = #[trigger] now[m] as int;
                    &&& 0 <= i < k
                    &&& self.windows@[i].open
                    &&& self.shows_data(i, detector_count)
                }) by {
                    if m < before.len() {
                        assert(now[m] == before[m]);
                    }
                }
                assert forall|m: int, n: int| 0 <= m < n < now.len() implies #[trigger] now[m] < #[trigger] now[n] by {
                    assert(now[m] == before[m]);
                    if n < before.len() {
                        assert(now[n] == before[n]);
                    }
                }
            }
        }
    }

    /// Makes the next (or previous) open window the active one; in
    /// full-area mode it also becomes the window filling the area, so
    /// Ctrl+Tab pages through maximised spectra. Returns the window moved
    /// to, if any.
    pub fn cycle_window(&mut self, direction: i32, detector_count: usize) -> (moved: Option<usize>)
        requires
            old(self).well_formed(),
            old(self).windows@.len() <= i32::MAX,
            old(self).cycle_position(detector_count) + direction <= i32::MAX,
        ensures
            moved == old(self).cycle_target(direction as int, detector_count),
            moved is None ==> *final(self) == *old(self),
            moved matches Some(index) ==> {
                &&& index < old(self).windows@.len()
                &&& final(self).windows == old(self).windows
                &&& final(self).active == Some(index)
                &&& final(self).maximized == (if old(self).maximized is Some {
                    Some(old(self).windows@[index as int].id)
                } else {
                    None::<usize>
                })
                &&& final(self).pending_close == old(self).pending_close
                &&& final(self).next_id == old(self).next_id
            },
            final(self).well_formed(),
    {
        proof {
            self.lemma_cycle_upto(self.windows@.len() as int, detector_count);
        }
        let mut candidates: Vec<usize> = Vec::new();
        let mut i: usize = 0;
        while i < self.windows.len()
            invariant
                i <= self.windows@.len(),
                candidates@ == self.cycle_upto(i as int, detector_count),
            decreases self.windows.len() - i,
        {
            if self.windows[i].open && self.shows(i, detector_count) {
                candidates.push(i);
            }
            i = i + 1;
        }
        if candidates.len() < 2 {
            return None;
        }
        let position: usize = match self.active {
            Some(active) => match index_in(&candidates, active) {
                Some(found) => found,
                None => 0,
            },
            None => 0,
        };
        assert(position as int == self.cycle_position(detector_count));
        let count = candidates.len() as i64;
        let shifted = position as i64 + direction as i64;
        let wrapped = match shifted.checked_rem_euclid(count) {
            Some(value) => value,
            None => 0,
        };
        let next = candidates[wrapped as usize];
        self.focus_window(next);
        Some(next)
    }

    /// Ctrl+Tab and then Ctrl+Shift+Tab come back to the window they started
    /// from: stepping one place forwards among the windows worth showing and
    /// one place back returns to the active window, when it was one of them.
    pub proof fn lemma_cycle_round_trip(&self, detector_count: usize)
        requires
            self.windows@.len() <= usize::MAX,
            self.cycle_target(1, detector_count) is Some,
            self.active matches Some(a) && first_index(
                self.cycle_upto(self.windows@.len() as int, detector_count),
                a,
            ) is Some,
        ensures
            (WindowSet {
                active: self.cycle_target(1, detector_count),
                windows: self.windows,
                maximized: self.maximized,
                pending_close: self.pending_close,
                next_id: self.next_id,
            }).cycle_target(-1, detector_count) == self.active,
    {
        let len = self.windows@.len() as int;
        let candidates = self.cycle_upto(len, detector_count);
        let n = candidates.len() as int;
        self.lemma_cycle_upto(len, detector_count);
        let a = self.active->0;
        lemma_first_index(candidates, a);
        let p = first_index(candidates, a)->0;
        let q = (p + 1) % n;
        let t = candidates[q];
        let moved = WindowSet {
            active: Some(t),
            windows: self.windows,
            maximized: self.maximized,
            pending_close: self.pending_close,
            next_id: self.next_id,
        };
        assert(moved.cycle_upto(len, detector_count) == candidates) by {
            moved.lemma_cycle_upto_same(self, len, detector_count);
        }
        lemma_first_index(candidates, t);
        let found = first_index(candidates, t)->0;
        if found != q {
            if found < q {
                assert(candidates[found] < candidates[q]);
            } else {
                assert(candidates[q] < candidates[found]);
            }
        }
        assert(moved.cycle_position(detector_count) == q);
        assert((q - 1) % n == p) by (nonlinear_arith)
            requires
                0 <= p < n,
                q == (p + 1) % n,
                n >= 2,
        ;
    }

    /// Ctrl+Tab and then Ctrl+Shift+Tab, as `cycle_window(1)` and
    /// `cycle_window(-1)` leave the set: `middle` is the set after the first,
    /// `end` after the second. When the active window is one of the windows
    /// stepped through and there are at least two, the second step comes
    /// back to it, and in full-area mode it fills the area again.
    pub proof fn lemma_cycle_there_and_back(start: Self, middle: Self, end: Self, detector_count: usize)
        requires
            start.well_formed(),
            start.cycle_target(1, detector_count) is Some,
            start.active matches Some(a) && first_index(
                start.cycle_upto(start.windows@.len() as int, detector_count),
                a,
            ) is Some,
            middle == (WindowSet {
                active: start.cycle_target(1, detector_count),
                maximized: if start.maximized is Some {
                    Some(start.windows@[start.cycle_target(1, detector_count)->0 as int].id)
                } else {
                    None::<usize>
                },
                ..start
            }),
            end == (WindowSet {
                active: middle.cycle_target(-1, detector_count),
                maximized: if middle.maximized is Some {
                    Some(middle.windows@[middle.cycle_target(-1, detector_count)->0 as int].id)
                } else {
                    None::<usize>
                },
                ..middle
            }),
        ensures
            end.windows == start.windows,
            end.active == start.active,
            start.maximized is Some ==> end.maximized == Some(start.windows@[start.active->0 as int].id),
            start.maximized is None ==> end.maximized is None,
    {
        let len = start.windows@.len() as int;
        assert(start.windows@.len() == start.windows.len());
        start.lemma_cycle_round_trip(detector_count);
        let plain = WindowSet {
            active: start.cycle_target(1, detector_count),
            windows: start.windows,
            maximized: start.maximized,
            pending_close: start.pending_close,
            next_id: start.next_id,
        };
        middle.lemma_cycle_upto_same(&plain, len, detector_count);
        assert(middle.cycle_target(-1, detector_count) == plain.cycle_target(-1, detector_count));
    }

    /// Which windows Ctrl+Tab steps through depends on the windows alone.
    pub proof fn lemma_cycle_upto_same(&self, other: &Self, k: int, detector_count: usize)
        requires
            self.windows@ == other.windows@,
        ensures
            self.cycle_upto(k, detector_count) == other.cycle_upto(k, detector_count),
        decreases k,
    {
        if k > 0 {
            self.lemma_cycle_upto_same(other, k - 1, detector_count);
        }
    }

    /// What the window pass paints: open windows with something to show,
    /// and, while one window fills the area, that window alone.
    pub proof fn lemma_painted(&self, detector_count: usize)
        requires
            self.well_formed(),
            self.windows@.len() <= usize::MAX,
        ensures
            forall|m: int| 0 <= m < self.painted_upto(self.windows@.len() as int, detector_count).len() ==> {
                let i = #[trigger] self.painted_upto(self.windows@.len() as int, detector_count)[m] as int;
                &&& 0 <= i < self.windows@.len()
                &&& self.windows@[i].open
                &&& self.shows_data(i, detector_count)
                &&& self.maximized matches Some(id) ==> self.windows@[i].id == id
            },
            self.maximized is Some ==> self.painted_upto(self.windows@.len() as int, detector_count).len() <= 1,
    {
        self.lemma_painted_upto(self.windows@.len() as int, detector_count);
    }

    /// Painting leaves nothing out: every open window with something to show
    /// - a buffer, or a detector window whose detector is configured - is
    /// painted, unless another window fills the area. Whether its data has
    /// changed, or it is active, makes no difference.
    pub proof fn lemma_painting_complete(&self, detector_count: usize, i: int)
        requires
            0 <= i < self.windows@.len(),
            self.windows@[i].open,
            match self.windows@[i].target {
                Target::Buffer => true,
                Target::Detector(detector) => detector < detector_count,
            },
            self.maximized is None || self.maximized == Some(self.windows@[i].id),
        ensures
            self.painted_upto(self.windows@.len() as int, detector_count).contains(i as usize),
    {
        assert(self.windows@.len() == self.windows.len());
        self.lemma_painted_includes(self.windows@.len() as int, detector_count, i);
    }

    proof fn lemma_painted_includes(&self, k: int, detector_count: usize, i: int)
        requires
            0 <= i < k <= self.windows@.len(),
            self.windows@.len() <= usize::MAX,
            self.windows@[i].open,
            match self.windows@[i].target {
                Target::Buffer => true,
                Target::Detector(detector) => detector < detector_count,
            },
            self.maximized is None || self.maximized == Some(self.windows@[i].id),
        ensures
            self.painted_upto(k, detector_count).contains(i as usize),
        decreases k,
    {
        let now = self.painted_upto(k, detector_count);
        if k - 1 == i {
            assert(self.is_painted(i, detector_count));
            assert(now[now.len() - 1] == i as usize);
        } else {
            self.lemma_painted_includes(k - 1, detector_count, i);
            let before = self.painted_upto(k - 1, detector_count);
            let n = choose|n: int| 0 <= n < before.len() && before[n] == i as usize;
            if self.is_painted(k - 1, detector_count) {
                assert(now[n] == before[n]);
            }
        }
    }

    proof fn lemma_painted_upto(&self, k: int, detector_count: usize)
        requires
            self.well_formed(),
            0 <= k <= self.windows@.len(),
            self.windows@.len() <= usize::MAX,
        ensures
            forall|m: int| 0 <= m < self.painted_upto(k, detector_count).len() ==> {
                let i = #[trigger] self.painted_upto(k, detector_count)[m] as int;
                &&& 0 <= i < k
                &&& self.is_painted(i, detector_count)
            },
            self.maximized is Some ==> self.painted_upto(k, detector_count).len() <= 1,
        decreases k,
    {
        if k > 0 {
            self.lemma_painted_upto(k - 1, detector_count);
            let before = self.painted_upto(k - 1, detector_count);
            let now = self.painted_upto(k, detector_count);
            if self.is_painted(k - 1, detector_count) {
                assert(now == before.push((k - 1) as usize));
                assert(((k - 1) as usize) as int == k - 1);
                assert forall|m: int| 0 <= m < now.len() implies ({
                    let i = #[trigger] now[m] as int;
                    &&& 0 <= i < k
                    &&& self.is_painted(i, detector_count)
                }) by {
                    if m < before.len() {
                        assert(now[m] == before[m]);
                    }
                }
                if self.maximized is Some && before.len() >= 1 {
                    let i = before[0] as int;
                    assert(self.is_painted(i, detector_count));
                    assert(self.windows@[i].id == self.windows@[k - 1].id);
                }
            }
        }
    }

    /// Asks to close a window. A buffer with unsaved changes is not closed
    /// silently: it stays open and waits on the unsaved-changes question,
    /// and the answer is `true`. Anything else closes at once.
    pub fn request_close(&mut self, id: usize) -> (asked: bool)
        requires
            old(self).well_formed(),
        ensures
            final(self).well_formed(),
            asked == (has_id(old(self).windows@, id) && ({
                let w = old(self).windows@[index_of(old(self).windows@, id)->0];
                w.target == Target::Buffer && w.modified
            })),
            asked ==> {
                let index = index_of(old(self).windows@, id)->0;
                &&& final(self).windows@ == old(self).windows@.update(index, Window { open: true, ..old(self).windows@[index] })
                &&& final(self).pending_close == Some(id)
                &&& final(self).active == old(self).active
                &&& final(self).maximized == old(self).maximized
                &&& final(self).next_id == old(self).next_id
            },
            !asked ==> old(self).closes(*final(self), id),
    {
        proof {
            lemma_index_of(self.windows@, id);
        }
        if let Some(index) = self.position(id) {
            if self.windows[index].is_buffer() && self.windows[index].modified {
                self.windows[index].open = true;
                self.pending_close = Some(id);
                return true;
            }
        }
        self.close_window(id);
        false
    }

    /// Focuses a window by its id - not its position, which an earlier
    /// close in the same batch can shift.
    pub fn activate(&mut self, id: usize)
        ensures
            !has_id(old(self).windows@, id) ==> *final(self) == *old(self),
            has_id(old(self).windows@, id) ==> {
                let index = index_of(old(self).windows@, id)->0;
                &&& final(self).windows == old(self).windows
                &&& final(self).active == Some(index as usize)
                &&& final(self).maximized == (if old(self).maximized is Some { Some(id) } else { None::<usize> })
                &&& final(self).pending_close == old(self).pending_close
                &&& final(self).next_id == old(self).next_id
            },
    {
        proof {
            lemma_index_of(self.windows@, id);
        }
        if let Some(index) = self.position(id) {
            self.focus_window(index);
        }
    }

    /// Makes a window fill the spectrum area, or gives the area back when it
    /// already fills it. Returns whether it now fills the area.
    pub fn toggle_maximize(&mut self, id: usize) -> (filling: bool)
        ensures
            filling == (old(self).maximized != Some(id)),
            final(self).maximized == if filling { Some(id) } else { None::<usize> },
            final(self).windows == old(self).windows,
            final(self).pending_close == old(self).pending_close,
            final(self).next_id == old(self).next_id,
            filling && has_id(old(self).windows@, id) ==> final(self).active == Some(
                index_of(old(self).windows@, id)->0 as usize,
            ),
            !(filling && has_id(old(self).windows@, id)) ==> final(self).active == old(self).active,
    {
        proof {
            lemma_index_of(self.windows@, id);
        }
        if self.maximized == Some(id) {
            self.maximized = None;
            false
        } else {
            if let Some(index) = self.position(id) {
                self.active = Some(index);
            }
            self.maximized = Some(id);
            true
        }
    }

    /// Maximises the active window outright: when another window held the
    /// area, the active one takes it over rather than toggling it away.
    /// Returns whether the active window now fills the area, or `None`
    /// without an active window.
    pub fn maximize_active(&mut self) -> (filling: Option<bool>)
        requires
            old(self).well_formed(),
        ensures
            old(self).active is None ==> filling is None && *final(self) == *old(self),
            old(self).active matches Some(a) ==> {
                let id = old(self).windows@[a as int].id;
                &&& filling == Some(old(self).maximized != Some(id))
                &&& final(self).maximized == if old(self).maximized == Some(id) { None::<usize> } else { Some(id) }
                &&& final(self).windows == old(self).windows
                &&& final(self).active == old(self).active
                &&& final(self).pending_close == old(self).pending_close
                &&& final(self).next_id == old(self).next_id
            },
    {
        match self.active {
            Some(index) => {
                let id = self.windows[index].id;
                if self.maximized == Some(id) {
                    self.maximized = None;
                    Some(false)
                } else {
                    self.maximized = Some(id);
                    Some(true)
                }
            },
            None => None,
        }
    }

    /// Leaves full-area mode, whatever window holds it. Returns whether one
    /// did.
    pub fn restore_windows(&mut self) -> (restored: bool)
        ensures
            restored == (old(self).maximized is Some),
            *final(self) == (WindowSet { maximized: None, ..*old(self) }),
    {
        let restored = self.maximized.is_some();
        self.maximized = None;
        restored
    }

    /// The id of the active window, when there is one.
    pub open spec fn active_id(&self) -> Option<usize> {
        match self.active {
            Some(b) => Some(self.windows@[b as int].id),
            None => None,
        }
    }

    /// The index of the last window, when there is one.
    pub open spec fn last_index(&self) -> Option<usize> {
        if self.windows@.len() == 0 {
            None
        } else {
            Some((self.windows@.len() - 1) as usize)
        }
    }

    /// The id of the active window, unless it shows detector `index`.
    pub open spec fn surviving_detector_active(&self, index: usize) -> Option<usize> {
        match self.active {
            Some(a) => if 0 <= a < self.windows@.len() && self.windows@[a as int].target != Target::Detector(index) {
                Some(self.windows@[a as int].id)
            } else {
                None
            },
            None => None,
        }
    }

    /// Closes the windows on a detector that is being removed, one by one as
    /// `close_window` does, and moves the windows on later detectors down
    /// one place, following their instruments' new positions.
    ///
    /// The roles of the closed windows pass on as each close hands them on:
    /// an active window that stays keeps focus, otherwise the last window
    /// takes it; the full-area window stays when it survives, and when it
    /// was closed the area goes to the window that ends up active; a
    /// question waiting on a closed window is dropped.
    pub fn remove_detector_windows(&mut self, index: usize)
        requires
            old(self).well_formed(),
        ensures
            final(self).well_formed(),
            final(self).next_id == old(self).next_id,
            final(self).windows@ == on_remaining_detectors(old(self).windows@, index).map_values(
                |w: Window<T>| Window { target: shifted_target(w.target, index), ..w },
            ),
            old(self).surviving_detector_active(index) matches Some(kept) ==> (
                final(self).active matches Some(b) && final(self).windows@[b as int].id == kept),
            !old(self).shows_detector(index) ==> {
                &&& final(self).active == old(self).active
                &&& final(self).maximized == old(self).maximized
            },
            old(self).shows_detector(index) ==> {
                &&& old(self).surviving_detector_active(index) is None ==> final(self).active
                    == final(self).last_index()
                &&& final(self).maximized == match old(self).maximized {
                    Some(m) => if id_on_detector(old(self).windows@, m, index) {
                        final(self).active_id()
                    } else if has_id(old(self).windows@, m) {
                        Some(m)
                    } else {
                        None::<usize>
                    },
                    None => None::<usize>,
                }
            },
            final(self).pending_close == if old(self).pending_close matches Some(p) && id_on_detector(
                old(self).windows@,
                p,
                index,
            ) {
                None::<usize>
            } else {
                old(self).pending_close
            },
    {
        let ghost initial = self.windows@;
        let ghost kept_id = self.surviving_detector_active(index);
        let ghost om = self.maximized;
        let ghost op = self.pending_close;
        let ghost oa = self.active;
        let ghost mut closed_any = false;
        let mut i: usize = 0;
        let ghost mut j: int = 0;
        assert(initial.subrange(0, 0) =~= Seq::<Window<T>>::empty());
        assert(self.windows@ =~= on_remaining_detectors(initial.subrange(0, 0), index) + initial.subrange(0, initial.len() as int));
        while i < self.windows.len()
            invariant
                self.well_formed(),
                self.next_id == old(self).next_id,
                0 <= j <= initial.len(),
                i == on_remaining_detectors(initial.subrange(0, j), index).len(),
                self.windows@ == on_remaining_detectors(initial.subrange(0, j), index) + initial.subrange(j, initial.len() as int),
                kept_id matches Some(k) ==> (self.active matches Some(b) && self.windows@[b as int].id == k),
                kept_id matches Some(k) ==> exists|m: int| 0 <= m < initial.len() && #[trigger] initial[m].id == k
                    && initial[m].target != Target::Detector(index),
                ids_distinct(initial),
                initial == old(self).windows@,
                kept_id == old(self).surviving_detector_active(index),
                om == old(self).maximized,
                op == old(self).pending_close,
                oa == old(self).active,
                closed_any == exists|m: int| 0 <= m < j && #[trigger] initial[m].target == Target::Detector(index),
                !closed_any ==> self.windows@ == initial && self.active == oa && self.maximized == om
                    && self.pending_close == op,
                removal_roles(*self, i as int, initial, index, kept_id, om, op, closed_any),
            decreases self.windows@.len() - i,
        {
            proof {
                assert(initial.subrange(0, j + 1).drop_last() =~= initial.subrange(0, j));
                assert(self.windows@[i as int] == initial[j]);
            }
            if self.windows[i].target == Target::Detector(index) {
                let id = self.windows[i].id;
                proof {
                    lemma_index_of_member(self.windows@, i as int);
                    if let Some(k) = kept_id {
                        let b = self.active->0 as int;
                        assert(self.windows@[b].id == k);
                        if k == id {
                            let m = choose|m: int| 0 <= m < initial.len() && #[trigger] initial[m].id == k
                                && initial[m].target != Target::Detector(index);
                            assert(initial[m].id == initial[j].id);
                        }
                    }
                }
                let ghost before = *self;
                self.close_window(id);
                proof {
                    lemma_removal_close(before, *self, i as int, id, index, initial, j, kept_id, om, op, closed_any);
                    assert(self.windows@ =~= on_remaining_detectors(initial.subrange(0, j + 1), index)
                        + initial.subrange(j + 1, initial.len() as int));
                    assert(initial[j].target == Target::Detector(index));
                    j = j + 1;
                    closed_any = true;
                }
            } else {
                proof {
                    lemma_removal_pass(*self, i as int, index, initial, j, kept_id, om, op, closed_any);
                    assert((exists|m: int| 0 <= m < j + 1 && #[trigger] initial[m].target == Target::Detector(index))
                        == closed_any);
                    assert(on_remaining_detectors(initial.subrange(0, j + 1), index) =~= on_remaining_detectors(
                        initial.subrange(0, j),
                        index,
                    ).push(initial[j]));
                    assert(self.windows@ =~= on_remaining_detectors(initial.subrange(0, j + 1), index)
                        + initial.subrange(j + 1, initial.len() as int));
                    j = j + 1;
                }
                i = i + 1;
            }
        }
        proof {
            assert(j == initial.len()) by {
                if j < initial.len() {
                    assert(self.windows@.len() > i);
                }
            }
            assert(initial.subrange(0, j) =~= initial);
        }
        let ghost kept = self.windows@;
        let ghost active_after = self.active;
        let ghost max_after = self.maximized;
        let ghost pending_after = self.pending_close;
        let mut k: usize = 0;
        while k < self.windows.len()
            invariant
                k <= self.windows@.len(),
                self.windows@.len() == kept.len(),
                forall|m: int| 0 <= m < k ==> #[trigger] self.windows@[m] == (Window {
                    target: shifted_target(kept[m].target, index),
                    ..kept[m]
                }),
                forall|m: int| k <= m < kept.len() ==> #[trigger] self.windows@[m] == kept[m],
                self.active == active_after,
                self.maximized == max_after,
                self.pending_close == pending_after,
                self.next_id == old(self).next_id,
                ids_distinct(kept),
                forall|m: int| 0 <= m < kept.len() ==> #[trigger] kept[m].id < self.next_id,
                active_after matches Some(b) ==> b < kept.len(),
                kept_id matches Some(id) ==> (active_after matches Some(b) && kept[b as int].id == id),
            decreases self.windows.len() - k,
        {
            if let Target::Detector(detector) = self.windows[k].target {
                if detector > index {
                    self.windows[k].target = Target::Detector(detector - 1);
                }
            }
            k = k + 1;
        }
        proof {
            assert(self.windows@ =~= kept.map_values(
                |w: Window<T>| Window { target: shifted_target(w.target, index), ..w },
            ));
            assert(closed_any == old(self).shows_detector(index));
            if let Some(b) = self.active {
                assert(self.windows@[b as int].id == kept[b as int].id);
            }
            if let Some(m) = om {
                assert(!(exists|p: int| i <= p < kept.len() && #[trigger] kept[p].id == m));
            }
            if let Some(q) = op {
                assert(!(exists|p: int| i <= p < kept.len() && #[trigger] kept[p].id == q));
            }
        }
    }

    /// Keeps the windows of one kind, in order, and nothing else about the
    /// set changes.
    fn keep_kind(&mut self, buffers: bool)
        requires
            old(self).well_formed(),
        ensures
            final(self).windows@ == of_kind(old(self).windows@, buffers),
            ids_distinct(final(self).windows@),
            forall|i: int| 0 <= i < final(self).windows@.len() ==> #[trigger] final(self).windows@[i].id < final(self).next_id,
            final(self).active == old(self).active,
            final(self).maximized == old(self).maximized,
            final(self).pending_close == old(self).pending_close,
            final(self).next_id == old(self).next_id,
    {
        let ghost initial = self.windows@;
        let mut i: usize = 0;
        let ghost mut j: int = 0;
        assert(self.windows@ =~= of_kind(initial.subrange(0, 0), buffers) + initial.subrange(0, initial.len() as int));
        while i < self.windows.len()
            invariant
                0 <= j <= initial.len(),
                i == of_kind(initial.subrange(0, j), buffers).len(),
                self.windows@ == of_kind(initial.subrange(0, j), buffers) + initial.subrange(j, initial.len() as int),
                ids_distinct(self.windows@),
                forall|m: int| 0 <= m < self.windows@.len() ==> #[trigger] self.windows@[m].id < self.next_id,
                self.active == old(self).active,
                self.maximized == old(self).maximized,
                self.pending_close == old(self).pending_close,
                self.next_id == old(self).next_id,
            decreases self.windows@.len() - i,
        {
            proof {
                assert(initial.subrange(0, j + 1).drop_last() =~= initial.subrange(0, j));
                assert(self.windows@[i as int] == initial[j]);
            }
            if self.windows[i].is_buffer() != buffers {
                let ghost before = self.windows@;
                let _dropped = self.windows.remove(i);
                assert forall|a: int, b: int|
                    0 <= a < self.windows@.len() && 0 <= b < self.windows@.len() && a != b
                        implies #[trigger] self.windows@[a].id != #[trigger] self.windows@[b].id by {
                    let oa = if a < i { a } else { a + 1 };
                    let ob = if b < i { b } else { b + 1 };
                    assert(self.windows@[a] == before[oa]);
                    assert(self.windows@[b] == before[ob]);
                }
                assert forall|a: int| 0 <= a < self.windows@.len() implies #[trigger] self.windows@[a].id < self.next_id by {
                    let oa = if a < i { a } else { a + 1 };
                    assert(self.windows@[a] == before[oa]);
                }
                proof {
                    assert(self.windows@ =~= of_kind(initial.subrange(0, j + 1), buffers)
                        + initial.subrange(j + 1, initial.len() as int));
                    j = j + 1;
                }
            } else {
                proof {
                    assert(of_kind(initial.subrange(0, j + 1), buffers) =~= of_kind(
                        initial.subrange(0, j),
                        buffers,
                    ).push(initial[j]));
                    assert(self.windows@ =~= of_kind(initial.subrange(0, j + 1), buffers)
                        + initial.subrange(j + 1, initial.len() as int));
                    j = j + 1;
                }
                i = i + 1;
            }
        }
        proof {
            assert(j == initial.len()) by {
                if j < initial.len() {
                    assert(self.windows@.len() > i);
                }
            }
            assert(initial.subrange(0, j) =~= initial);
        }
    }

    /// Closes every buffer window; the last window left becomes active.
    pub fn close_buffers(&mut self)
        requires
            old(self).well_formed(),
        ensures
            final(self).well_formed(),
            final(self).windows@ == of_kind(old(self).windows@, false),
            final(self).active == if final(self).windows@.len() == 0 {
                None::<usize>
            } else {
                Some((final(self).windows@.len() - 1) as usize)
            },
            final(self).maximized == old(self).maximized,
            final(self).pending_close == old(self).pending_close,
            final(self).next_id == old(self).next_id,
    {
        self.keep_kind(false);
        self.active = if self.windows.len() == 0 { None } else { Some(self.windows.len() - 1) };
    }

    /// Closes every detector window; the last window left becomes active.
    pub fn close_detectors(&mut self)
        requires
            old(self).well_formed(),
        ensures
            final(self).well_formed(),
            final(self).windows@ == of_kind(old(self).windows@, true),
            final(self).active == if final(self).windows@.len() == 0 {
                None::<usize>
            } else {
                Some((final(self).windows@.len() - 1) as usize)
            },
            final(self).maximized == old(self).maximized,
            final(self).pending_close == old(self).pending_close,
            final(self).next_id == old(self).next_id,
    {
        self.keep_kind(true);
        self.active = if self.windows.len() == 0 { None } else { Some(self.windows.len() - 1) };
    }

    /// The active window, when the active index names one.
    pub open spec fn active_window(&self) -> Option<Window<T>> {
        match self.active {
            Some(a) => if a < self.windows@.len() {
                Some(self.windows@[a as int])
            } else {
                None
            },
            None => None,
        }
    }

    /// The detector the active window shows, when the active window is a
    /// detector window.
    pub fn active_detector_index(&self) -> (detector: Option<usize>)
        ensures
            detector == match self.active_window() {
                Some(w) => match w.target {
                    Target::Detector(d) => Some(d),
                    Target::Buffer => None::<usize>,
                },
                None => None::<usize>,
            },
    {
        match self.active {
            Some(a) => if a < self.windows.len() {
                match self.windows[a].target {
                    Target::Detector(d) => Some(d),
                    Target::Buffer => None,
                }
            } else {
                None
            },
            None => None,
        }
    }

    /// Whether the active window is a buffer window.
    pub fn active_is_buffer(&self) -> (buffer: bool)
        ensures
            buffer == (self.active_window() matches Some(w) && w.target == Target::Buffer),
    {
        match self.active {
            Some(a) => a < self.windows.len() && self.windows[a].is_buffer(),
            None => false,
        }
    }

    /// Marks the active window's data as changed since it was saved.
    pub fn mark_modified(&mut self)
        requires
            old(self).well_formed(),
        ensures
            final(self).active == old(self).active,
            final(self).maximized == old(self).maximized,
            final(self).pending_close == old(self).pending_close,
            final(self).next_id == old(self).next_id,
            final(self).well_formed(),
            old(self).active matches Some(a) ==> final(self).windows@ == old(self).windows@.update(
                a as int,
                Window { modified: true, ..old(self).windows@[a as int] },
            ),
            old(self).active is None ==> final(self).windows@ == old(self).windows@,
    {
        if let Some(index) = self.active {
            self.windows[index].modified = true;
            assert(self.windows@ =~= old(self).windows@.update(
                index as int,
                Window { modified: true, ..old(self).windows@[index as int] },
            ));
            assert forall|i: int| 0 <= i < self.windows@.len() implies #[trigger] self.windows@[i].id < self.next_id by {
                assert(self.windows@[i].id == old(self).windows@[i].id);
            }
            assert forall|a: int, b: int|
                0 <= a < self.windows@.len() && 0 <= b < self.windows@.len() && a != b
                    implies #[trigger] self.windows@[a].id != #[trigger] self.windows@[b].id by {
                assert(self.windows@[a].id == old(self).windows@[a].id);
                assert(self.windows@[b].id == old(self).windows@[b].id);
            }
        }
    }

    /// The detector a job command applies to: the active detector window's,
    /// or else the first configured one, when there is one.
    pub fn job_detector(&self, detector_count: usize) -> (detector: Option<usize>)
        requires
            self.well_formed(),
        ensures
            detector == match self.active_window() {
                Some(w) if w.target is Detector => Some(w.target->0),
                _ => if detector_count > 0 {
                    Some(0usize)
                } else {
                    None::<usize>
                },
            },
    {
        if let Some(index) = self.active {
            if let Target::Detector(detector) = self.windows[index].target {
                return Some(detector);
            }
        }
        if detector_count > 0 {
            Some(0)
        } else {
            None
        }
    }
    /// Settles the layout once the windows asked for at start-up are open:
    /// one window worth looking at fills the area. That is the only window,
    /// or else the only one holding data (`has_data`, window by window),
    /// which also becomes active.
    pub fn settle_layout(&mut self, has_data: &[bool])
        requires
            old(self).well_formed(),
            has_data@.len() == old(self).windows@.len(),
        ensures
            final(self).well_formed(),
            final(self).windows == old(self).windows,
            final(self).pending_close == old(self).pending_close,
            final(self).next_id == old(self).next_id,
            old(self).windows@.len() == 1 ==> {
                &&& final(self).maximized == Some(old(self).windows@[0].id)
                &&& final(self).active == old(self).active
            },
            old(self).windows@.len() != 1 ==> match sole_index(has_data@) {
                Some(only) => {
                    &&& final(self).maximized == Some(old(self).windows@[only].id)
                    &&& final(self).active == Some(only as usize)
                },
                None => {
                    &&& final(self).maximized == old(self).maximized
                    &&& final(self).active == old(self).active
                },
            },
    {
        if self.windows.len() == 1 {
            self.maximized = Some(self.windows[0].id);
            return;
        }
        let mut found: Option<usize> = None;
        let mut several = false;
        let mut k: usize = 0;
        while k < has_data.len()
            invariant
                k <= has_data@.len(),
                !several && found is None ==> forall|j: int| 0 <= j < k ==> !#[trigger] has_data@[j],
                !several ==> (found matches Some(f) ==> {
                    &&& f < k
                    &&& has_data@[f as int]
                    &&& forall|j: int| 0 <= j < k && #[trigger] has_data@[j] ==> j == f
                }),
                several ==> exists|a: int, b: int|
                    0 <= a < b < k && #[trigger] has_data@[a] && #[trigger] has_data@[b],
            decreases has_data.len() - k,
        {
            if has_data[k] {
                match found {
                    Some(f) => {
                        if !several {
                            assert(has_data@[f as int] && has_data@[k as int]);
                        }
                        several = true;
                    },
                    None => {
                        if !several {
                            found = Some(k);
                        }
                    },
                }
            }
            k = k + 1;
        }
        proof {
            if several {
                let (a, b) = choose|a: int, b: int|
                    0 <= a < b < k && #[trigger] has_data@[a] && #[trigger] has_data@[b];
                if exists|i: int| 0 <= i < has_data@.len() && #[trigger] has_data@[i] && (forall|j: int| 0 <= j < has_data@.len() && #[trigger] has_data@[j] ==> j == i) {
                    let i = choose|i: int| 0 <= i < has_data@.len() && #[trigger] has_data@[i] && (forall|j: int| 0 <= j < has_data@.len() && #[trigger] has_data@[j] ==> j == i);
                    assert(has_data@[a] ==> a == i);
                    assert(has_data@[b] ==> b == i);
                }
                assert(sole_index(has_data@) is None);
            } else if let Some(f) = found {
                assert(has_data@[f as int]);
                let i = choose|i: int| 0 <= i < has_data@.len() && #[trigger] has_data@[i] && (forall|j: int| 0 <= j < has_data@.len() && #[trigger] has_data@[j] ==> j == i);
                assert(has_data@[i] ==> i == f);
                assert(sole_index(has_data@) == Some(f as int));
            } else {
                assert(sole_index(has_data@) is None);
            }
        }
        if !several {
            if let Some(only) = found {
                self.maximized = Some(self.windows[only].id);
                self.active = Some(only);
            }
        }
    }
    /// Leaves full-area mode so the windows can be arranged (tiled or
    /// cascaded), and says how many windows there are to arrange.
    pub fn tile(&mut self, detector_count: usize) -> (count: usize)
        ensures
            *final(self) == (WindowSet { maximized: None, ..*old(self) }),
            count == final(self).painted_upto(final(self).windows@.len() as int, detector_count).len(),
    {
        self.maximized = None;
        self.visible_windows(detector_count).len()
    }

    /// Where an undone change is put back: the buffer window it was taken
    /// from, when that is still open. Detector windows are never written
    /// back to, so a snapshot of one has no window to return to.
    pub fn restore_position(&self, target: Target, id: usize) -> (index: Option<usize>)
        ensures
            index == if target == Target::Buffer && has_id(self.windows@, id)
                && self.windows@[index_of(self.windows@, id)->0].target == Target::Buffer {
                Some(index_of(self.windows@, id)->0 as usize)
            } else {
                None::<usize>
            },
    {
        proof {
            lemma_index_of(self.windows@, id);
        }
        match target {
            Target::Detector(_) => None,
            Target::Buffer => match self.position(id) {
                Some(index) => if self.windows[index].is_buffer() {
                    Some(index)
                } else {
                    None
                },
                None => None,
            },
        }
    }
    /// The last buffer window, when there is one.
    pub open spec fn last_buffer(&self) -> Option<int> {
        if exists|i: int| 0 <= i < self.windows@.len() && #[trigger] self.windows@[i].target == Target::Buffer {
            Some(choose|i: int| 0 <= i < self.windows@.len() && #[trigger] self.windows@[i].target == Target::Buffer
                && forall|j: int| i < j < self.windows@.len() ==> self.windows@[j].target != Target::Buffer)
        } else {
            None
        }
    }

    /// Makes the most recent buffer window the active one, as a job's
    /// "detector 0" asks; says whether there was one to select.
    pub fn activate_last_buffer(&mut self) -> (found: bool)
        ensures
            found == (old(self).last_buffer() is Some),
            found ==> final(self).active == Some(old(self).last_buffer()->0 as usize),
            !found ==> final(self).active == old(self).active,
            final(self).windows == old(self).windows,
            final(self).maximized == old(self).maximized,
            final(self).pending_close == old(self).pending_close,
            final(self).next_id == old(self).next_id,
    {
        let mut i: usize = self.windows.len();
        while i > 0
            invariant
                i <= self.windows@.len(),
                forall|j: int| i <= j < self.windows@.len() ==> self.windows@[j].target != Target::Buffer,
                *self == *old(self),
            decreases i,
        {
            if self.windows[i - 1].is_buffer() {
                assert(self.last_buffer() == Some(i - 1)) by {
                    let k = self.last_buffer()->0;
                    assert(self.windows@[(i - 1) as int].target == Target::Buffer);
                    assert(self.windows@[k].target == Target::Buffer);
                    if k < i - 1 {
                    } else if k > i - 1 {
                    }
                }
                self.active = Some(i - 1);
                return true;
            }
            i = i - 1;
        }
        false
    }
    /// Whether some window shows detector `detector`.
    pub open spec fn shows_detector(&self, detector: usize) -> bool {
        exists|i: int| 0 <= i < self.windows@.len() && #[trigger] self.windows@[i].target == Target::Detector(detector)
    }

    /// The configured detectors, among the first `upto`, that no window
    /// shows, in order.
    pub open spec fn unshown_upto(&self, upto: int) -> Seq<usize>
        decreases upto,
    {
        if upto <= 0 {
            Seq::empty()
        } else if self.shows_detector((upto - 1) as usize) {
            self.unshown_upto(upto - 1)
        } else {
            self.unshown_upto(upto - 1).push((upto - 1) as usize)
        }
    }

    /// Whether a window shows detector `detector`.
    fn has_detector_window(&self, detector: usize) -> (shown: bool)
        ensures
            shown == self.shows_detector(detector),
    {
        let mut i: usize = 0;
        while i < self.windows.len()
            invariant
                i <= self.windows@.len(),
                forall|j: int| 0 <= j < i ==> self.windows@[j].target != Target::Detector(detector),
            decreases self.windows.len() - i,
        {
            if self.windows[i].target == Target::Detector(detector) {
                assert(self.windows@[i as int].target == Target::Detector(detector));
                return true;
            }
            i = i + 1;
        }
        false
    }

    /// The configured detectors that have no window yet, in order: the ones
    /// opening every reachable instrument still has to open.
    pub fn unshown_detectors(&self, detector_count: usize) -> (missing: Vec<usize>)
        ensures
            missing@ == self.unshown_upto(detector_count as int),
    {
        let mut missing: Vec<usize> = Vec::new();
        let mut d: usize = 0;
        while d < detector_count
            invariant
                d <= detector_count,
                missing@ == self.unshown_upto(d as int),
            decreases detector_count - d,
        {
            if !self.has_detector_window(d) {
                missing.push(d);
            }
            d = d + 1;
        }
        missing
    }
}


/// Where the roles of the windows stand part way through removing the
/// windows on detector `index`: `i` windows have been passed over, the
/// window at `i` is the next to look at, and `closed_any` says whether a
/// window has been closed yet. `kept`, `maximized` and `pending` are the
/// surviving active window, the full-area window and the waiting question
/// at the start.
spec fn removal_roles<T>(
    s: WindowSet<T>,
    i: int,
    initial: Seq<Window<T>>,
    index: usize,
    kept: Option<usize>,
    maximized: Option<usize>,
    pending: Option<usize>,
    closed_any: bool,
) -> bool {
    &&& kept is None ==> ((closed_any && s.active == s.last_index()) || (s.active matches Some(b) && i <= b
        && s.windows@[b as int].target == Target::Detector(index)) || (!closed_any && s.active is None))
    &&& maximized matches Some(m) ==> {
        &&& !id_on_detector(initial, m, index) && has_id(initial, m) ==> s.maximized == maximized && has_id(
            s.windows@,
            m,
        )
        &&& id_on_detector(initial, m, index) ==> ((s.maximized == maximized && exists|p: int|
            i <= p < s.windows@.len() && #[trigger] s.windows@[p].id == m) || (s.maximized == s.active_id() && (
        s.active is None ==> s.windows@.len() == 0)))
        &&& !has_id(initial, m) ==> !has_id(s.windows@, m) && s.maximized == (if closed_any {
            None::<usize>
        } else {
            maximized
        })
    }
    &&& maximized is None ==> s.maximized is None
    &&& pending matches Some(p) ==> {
        &&& id_on_detector(initial, p, index) ==> ((s.pending_close == pending && exists|q: int|
            i <= q < s.windows@.len() && #[trigger] s.windows@[q].id == p) || s.pending_close is None)
        &&& !id_on_detector(initial, p, index) ==> s.pending_close == pending
    }
    &&& pending is None ==> s.pending_close is None
}

/// Closing the window at `i`, which shows detector `index`, keeps the roles
/// where `removal_roles` says.
proof fn lemma_removal_close<T>(
    before: WindowSet<T>,
    after: WindowSet<T>,
    i: int,
    id: usize,
    index: usize,
    initial: Seq<Window<T>>,
    j: int,
    kept: Option<usize>,
    maximized: Option<usize>,
    pending: Option<usize>,
    closed_any: bool,
)
    requires
        before.well_formed(),
        0 <= i < before.windows@.len(),
        0 <= j < initial.len(),
        before.windows@[i] == initial[j],
        initial[j].id == id,
        initial[j].target == Target::Detector(index),
        ids_distinct(initial),
        before.closes(after, id),
        removal_roles(before, i, initial, index, kept, maximized, pending, closed_any),
    ensures
        removal_roles(after, i, initial, index, kept, maximized, pending, true),
{
    let bw = before.windows@;
    let aw = after.windows@;
    lemma_index_of_member(bw, i);
    assert(has_id(bw, id));
    assert(aw == bw.remove(i));
    assert forall|k: int| 0 <= k < aw.len() implies #[trigger] aw[k] == (if k < i {
        bw[k]
    } else {
        bw[k + 1]
    }) by {}
    assert(id_on_detector(initial, id, index)) by {
        assert(initial[j].id == id);
    }
    if kept is None {
        if let Some(b) = before.active {
            let bb = b as int;
            if bw[bb].id != id {
                assert(bb != i);
                assert(before.surviving_active(id) == Some(bw[bb].id));
                let nb = if bb < i { bb } else { bb - 1 };
                assert(aw[nb] == bw[bb]);
                let b2 = after.active->0 as int;
                assert(aw[b2].id == bw[bb].id);
                assert(b2 == nb);
                if before.active == before.last_index() {
                    assert(bw.len() > 0);
                    assert(bw.len() == before.windows.len());
                    assert(bb == bw.len() - 1);
                    assert(bb > i);
                    assert(nb == aw.len() - 1);
                    assert(after.active == Some(nb as usize));
                    assert(after.active == after.last_index());
                } else {
                    assert(i <= bb);
                    assert(aw[nb].target == Target::Detector(index));
                }
            } else {
                assert(bb == i);
                assert(before.surviving_active(id) is None);
                assert(after.active == after.last_index());
            }
        } else {
            assert(before.surviving_active(id) is None);
            assert(after.active == after.last_index());
        }
    }
    if let Some(m) = maximized {
        if has_id(bw, m) && m != id {
            let pp = choose|pp: int| 0 <= pp < bw.len() && #[trigger] bw[pp].id == m;
            let np = if pp < i { pp } else { pp - 1 };
            assert(aw[np] == bw[pp]);
            assert(has_id(aw, m));
        }
        if !has_id(bw, m) && has_id(aw, m) {
            let pp = choose|pp: int| 0 <= pp < aw.len() && #[trigger] aw[pp].id == m;
            assert(aw[pp].id == m);
        }
        if id_on_detector(initial, m, index) && before.maximized == maximized && m != id && exists|pp: int|
            i <= pp < bw.len() && #[trigger] bw[pp].id == m {
            let pp = choose|pp: int| i <= pp < bw.len() && #[trigger] bw[pp].id == m;
            assert(pp != i);
            assert(aw[pp - 1] == bw[pp]);
        }
    }
    if let Some(mid) = before.maximized {
        if let Some(b) = before.active {
            if before.maximized == before.active_id() && mid != id {
                let bb = b as int;
                assert(bw[bb].id == mid);
                assert(has_id(bw, mid));
                let nb = if bb < i { bb } else { bb - 1 };
                assert(aw[nb] == bw[bb]);
                let b2 = after.active->0 as int;
                assert(aw[b2].id == mid);
            }
        }
    }
    if let Some(q) = pending {
        if id_on_detector(initial, q, index) && before.pending_close == pending && q != id && exists|qq: int|
            i <= qq < bw.len() && #[trigger] bw[qq].id == q {
            let qq = choose|qq: int| i <= qq < bw.len() && #[trigger] bw[qq].id == q;
            assert(qq != i);
            assert(aw[qq - 1] == bw[qq]);
        }
    }
}

/// Passing over the window at `i`, which does not show detector `index`,
/// keeps the roles where `removal_roles` says.
proof fn lemma_removal_pass<T>(
    s: WindowSet<T>,
    i: int,
    index: usize,
    initial: Seq<Window<T>>,
    j: int,
    kept: Option<usize>,
    maximized: Option<usize>,
    pending: Option<usize>,
    closed_any: bool,
)
    requires
        0 <= i < s.windows@.len(),
        0 <= j < initial.len(),
        s.windows@[i] == initial[j],
        initial[j].target != Target::Detector(index),
        ids_distinct(initial),
        removal_roles(s, i, initial, index, kept, maximized, pending, closed_any),
    ensures
        removal_roles(s, i + 1, initial, index, kept, maximized, pending, closed_any),
{
    if let Some(m) = maximized {
        if id_on_detector(initial, m, index) && s.maximized == maximized && exists|p: int|
            i <= p < s.windows@.len() && #[trigger] s.windows@[p].id == m {
            let p = choose|p: int| i <= p < s.windows@.len() && #[trigger] s.windows@[p].id == m;
            if p == i {
                let q = choose|q: int| 0 <= q < initial.len() && #[trigger] initial[q].id == m
                    && initial[q].target == Target::Detector(index);
                assert(initial[q].id == initial[j].id);
            }
        }
    }
    if let Some(pn) = pending {
        if id_on_detector(initial, pn, index) && s.pending_close == pending && exists|p: int|
            i <= p < s.windows@.len() && #[trigger] s.windows@[p].id == pn {
            let p = choose|p: int| i <= p < s.windows@.len() && #[trigger] s.windows@[p].id == pn;
            if p == i {
                let q = choose|q: int| 0 <= q < initial.len() && #[trigger] initial[q].id == pn
                    && initial[q].target == Target::Detector(index);
                assert(initial[q].id == initial[j].id);
            }
        }
    }
}

} // verus!
