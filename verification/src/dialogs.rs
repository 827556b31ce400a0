//! The dialogs: which exist, which are open, and the small text rules their
//! fields follow (file-filter spellings, the next sample identifier).

use vstd::prelude::*;
use crate::text::{
    lowercase_of, to_lowercase, all_digits, chars_of, decimal_value, digit_value, is_digit, padded_decimal,
    padded_decimal_chars, string_of,
};

verus! {

/// Every dialog the application can show.
#[derive(Clone, Copy, Debug, PartialEq, Eq, Hash, Structural)]
pub enum Dialog {
    /// Acquire/MCB Properties.
    McbProperties,
    /// Calculate/Settings.
    Settings,
    /// Calculate/Calibration.
    Calibration,
    /// File/ROI Report options.
    RoiReportOptions,
    /// The report viewer.
    Report,
    /// Nuclide analysis.
    Analysis,
    /// Efficiency calibration.
    Efficiency,
    /// Services/Library.
    Library,
    /// Services/Job Control.
    JobControl,
    /// Services/Edit Detector List.
    DetectorList,
    /// Finding and numbering the instruments on this machine.
    Instruments,
    /// Services/Sample Description.
    Sample,
    /// Services/Lock-Unlock Detector.
    Lock,
    /// Calculate/Strip.
    Strip,
    /// Calculate/List Data Range.
    ListRange,
    /// Display/Preferences.
    Preferences,
    /// The multi-detector dashboard.
    Dashboard,
    /// Quality-assurance charts.
    Qa,
    /// The batch queue.
    Batch,
    /// Acquire/InSight: the virtual oscilloscope.
    Insight,
    /// Help/Keyboard Commands.
    Shortcuts,
    /// About.
    About,
    /// Confirm exit.
    Exit,
    /// Save, discard or keep a modified buffer whose window is being closed.
    ConfirmClose,
    /// Offer back the work a run that did not finish left behind.
    Recover,
    /// Type a path, when native file dialogs are not available.
    OpenPath,
}

/// Every dialog, each once.
pub open spec fn listed_dialogs() -> Seq<Dialog> {
    seq![
        Dialog::McbProperties,
        Dialog::Settings,
        Dialog::Calibration,
        Dialog::RoiReportOptions,
        Dialog::Report,
        Dialog::Analysis,
        Dialog::Efficiency,
        Dialog::Library,
        Dialog::JobControl,
        Dialog::DetectorList,
        Dialog::Instruments,
        Dialog::Sample,
        Dialog::Lock,
        Dialog::Strip,
        Dialog::ListRange,
        Dialog::Preferences,
        Dialog::Dashboard,
        Dialog::Qa,
        Dialog::Batch,
        Dialog::Insight,
        Dialog::Shortcuts,
        Dialog::About,
        Dialog::Exit,
        Dialog::ConfirmClose,
        Dialog::Recover,
        Dialog::OpenPath,
    ]
}

/// Every dialog is in the list, and none twice.
pub proof fn lemma_every_dialog_listed()
    ensures
        forall|d: Dialog| #[trigger] listed_dialogs().contains(d),
        listed_dialogs().no_duplicates(),
{
    let listed = listed_dialogs();
    assert forall|d: Dialog| #[trigger] listed.contains(d) by {
        match d {
        Dialog::McbProperties => assert(listed[0] == d),
        Dialog::Settings => assert(listed[1] == d),
        Dialog::Calibration => assert(listed[2] == d),
        Dialog::RoiReportOptions => assert(listed[3] == d),
        Dialog::Report => assert(listed[4] == d),
        Dialog::Analysis => assert(listed[5] == d),
        Dialog::Efficiency => assert(listed[6] == d),
        Dialog::Library => assert(listed[7] == d),
        Dialog::JobControl => assert(listed[8] == d),
        Dialog::DetectorList => assert(listed[9] == d),
        Dialog::Instruments => assert(listed[10] == d),
        Dialog::Sample => assert(listed[11] == d),
        Dialog::Lock => assert(listed[12] == d),
        Dialog::Strip => assert(listed[13] == d),
        Dialog::ListRange => assert(listed[14] == d),
        Dialog::Preferences => assert(listed[15] == d),
        Dialog::Dashboard => assert(listed[16] == d),
        Dialog::Qa => assert(listed[17] == d),
        Dialog::Batch => assert(listed[18] == d),
        Dialog::Insight => assert(listed[19] == d),
        Dialog::Shortcuts => assert(listed[20] == d),
        Dialog::About => assert(listed[21] == d),
        Dialog::Exit => assert(listed[22] == d),
        Dialog::ConfirmClose => assert(listed[23] == d),
        Dialog::Recover => assert(listed[24] == d),
        Dialog::OpenPath => assert(listed[25] == d),
        }
    }
    assert forall|i: int, j: int| 0 <= i < listed.len() && 0 <= j < listed.len() && i != j
        implies listed[i] != listed[j] by {
    }
}

impl Dialog {
    /// Every dialog, so a test can open each one in turn.
    pub fn all() -> (dialogs: &'static [Dialog])
        ensures
            dialogs@ == listed_dialogs(),
            forall|d: Dialog| #[trigger] dialogs@.contains(d),
            dialogs@.no_duplicates(),
    {
        proof {
            lemma_every_dialog_listed();
        }
        &[
            Dialog::McbProperties,
            Dialog::Settings,
            Dialog::Calibration,
            Dialog::RoiReportOptions,
            Dialog::Report,
            Dialog::Analysis,
            Dialog::Efficiency,
            Dialog::Library,
            Dialog::JobControl,
            Dialog::DetectorList,
            Dialog::Instruments,
            Dialog::Sample,
            Dialog::Lock,
            Dialog::Strip,
            Dialog::ListRange,
            Dialog::Preferences,
            Dialog::Dashboard,
            Dialog::Qa,
            Dialog::Batch,
            Dialog::Insight,
            Dialog::Shortcuts,
            Dialog::About,
            Dialog::Exit,
            Dialog::ConfirmClose,
            Dialog::Recover,
            Dialog::OpenPath,
        ]
    }
}

/// Which dialogs are open, each once.
pub struct Dialogs {
    /// The open dialogs, in the order they were opened.
    pub shown: Vec<Dialog>,
}

impl View for Dialogs {
    type V = Set<Dialog>;

    open spec fn view(&self) -> Set<Dialog> {
        self.shown@.to_set()
    }
}

impl Dialogs {
    /// No dialog is listed twice.
    pub open spec fn well_formed(&self) -> bool {
        self.shown@.no_duplicates()
    }

    /// Nothing open.
    pub fn new() -> (dialogs: Self)
        ensures
            dialogs.well_formed(),
            dialogs@ == Set::<Dialog>::empty(),
    {
        let dialogs = Dialogs { shown: Vec::new() };
        assert(dialogs@ =~= Set::<Dialog>::empty());
        dialogs
    }

    /// Where `dialog` stands in the open list.
    fn position(&self, dialog: Dialog) -> (index: Option<usize>)
        ensures
            index matches Some(i) ==> i < self.shown@.len() && self.shown@[i as int] == dialog,
            index is None ==> !self.shown@.contains(dialog),
    {
        let mut i: usize = 0;
        while i < self.shown.len()
            invariant
                i <= self.shown@.len(),
                forall|j: int| 0 <= j < i ==> self.shown@[j] != dialog,
            decreases self.shown.len() - i,
        {
            if self.shown[i] == dialog {
                return Some(i);
            }
            i = i + 1;
        }
        None
    }

    /// Opens a dialog.
    pub fn open(&mut self, dialog: Dialog)
        requires
            old(self).well_formed(),
        ensures
            final(self).well_formed(),
            final(self)@ == old(self)@.insert(dialog),
    {
        match self.position(dialog) {
            Some(index) => {
                assert(self.shown@.contains(self.shown@[index as int]));
                assert(self@ =~= old(self)@.insert(dialog));
            },
            None => {
                self.shown.push(dialog);
                assert forall|d: Dialog| self@.contains(d) <==> old(self)@.insert(dialog).contains(d) by {
                    if self@.contains(d) && d != dialog {
                        let k = choose|k: int| 0 <= k < self.shown@.len() && self.shown@[k] == d;
                        assert(old(self).shown@[k] == d);
                    }
                    if old(self)@.contains(d) {
                        let k = choose|k: int| 0 <= k < old(self).shown@.len() && old(self).shown@[k] == d;
                        assert(self.shown@[k] == d);
                    }
                    assert(self.shown@[self.shown@.len() - 1] == dialog);
                }
                assert(self@ =~= old(self)@.insert(dialog));
            },
        }
    }

    /// Whether a dialog is open.
    pub fn is_open(&self, dialog: Dialog) -> (open: bool)
        ensures
            open == self@.contains(dialog),
    {
        self.position(dialog).is_some()
    }

    /// Whether any dialog is open, for Escape's layering.
    pub fn any_open(&self) -> (any: bool)
        ensures
            any == (self@ != Set::<Dialog>::empty()),
    {
        if self.shown.len() == 0 {
            assert(self@ =~= Set::<Dialog>::empty());
            false
        } else {
            assert(self@.contains(self.shown@[0]));
            true
        }
    }

    /// Closes every open dialog (Escape), and hands back the ones that were
    /// open, each once, so that what belongs to one showing of each can be
    /// let go.
    pub fn close_all(&mut self) -> (closed: Vec<Dialog>)
        requires
            old(self).well_formed(),
        ensures
            final(self).well_formed(),
            final(self)@ == Set::<Dialog>::empty(),
            closed@.no_duplicates(),
            closed@.to_set() == old(self)@,
    {
        let mut closed: Vec<Dialog> = Vec::new();
        std::mem::swap(&mut closed, &mut self.shown);
        assert(self@ =~= Set::<Dialog>::empty());
        closed
    }

    /// Opens or closes a dialog. The answer says whether an open dialog was
    /// closed, which is when what belongs to its showing is let go.
    pub fn set(&mut self, dialog: Dialog, open: bool) -> (closed: bool)
        requires
            old(self).well_formed(),
        ensures
            final(self).well_formed(),
            open ==> final(self)@ == old(self)@.insert(dialog) && !closed,
            !open ==> final(self)@ == old(self)@.remove(dialog) && closed == old(self)@.contains(dialog),
    {
        if open {
            self.open(dialog);
            false
        } else {
            match self.position(dialog) {
                Some(index) => {
                    let ghost before = self.shown@;
                    self.shown.remove(index);
                    assert(self.shown@ =~= before.remove(index as int));
                    assert forall|a: int, b: int|
                        0 <= a < self.shown@.len() && 0 <= b < self.shown@.len() && a != b
                            implies self.shown@[a] != self.shown@[b] by {
                        let oa = if a < index { a } else { a + 1 };
                        let ob = if b < index { b } else { b + 1 };
                        assert(self.shown@[a] == before[oa]);
                        assert(self.shown@[b] == before[ob]);
                    }
                    assert forall|d: Dialog| self@.contains(d) <==> old(self)@.remove(dialog).contains(d) by {
                        if self@.contains(d) {
                            let k = choose|k: int| 0 <= k < self.shown@.len() && self.shown@[k] == d;
                            let ok = if k < index { k } else { k + 1 };
                            assert(before[ok] == d);
                            assert(ok != index);
                        }
                        if old(self)@.remove(dialog).contains(d) {
                            let k = choose|k: int| 0 <= k < before.len() && before[k] == d;
                            assert(k != index);
                            let nk = if k < index { k } else { k - 1 };
                            assert(self.shown@[nk] == d);
                        }
                    }
                    assert(self@ =~= old(self)@.remove(dialog));
                    true
                },
                None => {
                    assert(old(self)@.remove(dialog) =~= old(self)@);
                    false
                },
            }
        }
    }
}

/// What `str::to_uppercase` gives for a text.
pub uninterp spec fn uppercase_of(text: Seq<char>) -> Seq<char>;

/// `str::to_uppercase`: the text with every character in its Unicode upper
/// case. Its result is named, not spelled out: the Unicode case tables are
/// std's.
#[verifier::external_body]
fn to_uppercase(text: &str) -> (upper: String)
    ensures
        upper@ == uppercase_of(text@),
{
    text.to_uppercase()
}

/// An ASCII letter in upper case; any other character as it is.
pub open spec fn ascii_upper(c: char) -> char {
    if 'a' <= c && c <= 'z' {
        ((c as int) - 32) as char
    } else {
        c
    }
}

/// The text with its first character in ASCII upper case, when that
/// character is ASCII at all.
pub open spec fn capitalised(text: Seq<char>) -> Seq<char> {
    if text.len() > 0 && (text[0] as int) < 128 {
        text.update(0, ascii_upper(text[0]))
    } else {
        text
    }
}

/// `out` with `v` at the end, unless it already holds `v`.
pub open spec fn with_new(out: Seq<Seq<char>>, v: Seq<char>) -> Seq<Seq<char>> {
    if out.contains(v) {
        out
    } else {
        out.push(v)
    }
}

/// The three spellings a file filter offers for an extension whose lower
/// and upper case forms are `lower` and `upper`: lower case, capitalised and
/// upper case.
pub open spec fn spellings_of_forms(lower: Seq<char>, upper: Seq<char>) -> Seq<Seq<char>> {
    seq![lower, capitalised(lower), upper]
}

/// The three spellings of an extension.
pub open spec fn spellings_of(extension: Seq<char>) -> Seq<Seq<char>> {
    spellings_of_forms(lowercase_of(extension), uppercase_of(extension))
}

/// Every spelling of every extension, given by its lower and upper case
/// forms, in order, each once.
pub open spec fn spellings_from_forms(forms: Seq<(Seq<char>, Seq<char>)>) -> Seq<Seq<char>>
    decreases forms.len(),
{
    if forms.len() == 0 {
        Seq::empty()
    } else {
        let earlier = spellings_from_forms(forms.drop_last());
        let three = spellings_of_forms(forms.last().0, forms.last().1);
        with_new(with_new(with_new(earlier, three[0]), three[1]), three[2])
    }
}

/// The case forms of each extension.
pub open spec fn case_forms(extensions: Seq<Seq<char>>) -> Seq<(Seq<char>, Seq<char>)> {
    extensions.map_values(|e: Seq<char>| (lowercase_of(e), uppercase_of(e)))
}

/// Every spelling of every extension, in order, each once.
pub open spec fn spellings(extensions: Seq<Seq<char>>) -> Seq<Seq<char>> {
    spellings_from_forms(case_forms(extensions))
}

/// The case forms as texts.
pub open spec fn form_texts(forms: Seq<(String, String)>) -> Seq<(Seq<char>, Seq<char>)> {
    forms.map_values(|f: (String, String)| (f.0@, f.1@))
}

/// The texts of a list of strings.
pub open spec fn texts(strings: Seq<String>) -> Seq<Seq<char>> {
    strings.map_values(|s: String| s@)
}

/// Adds `v` to `out` unless an equal text is already there.
fn push_new(out: &mut Vec<String>, v: String)
    ensures
        texts(final(out)@) == with_new(texts(old(out)@), v@),
{
    let mut k: usize = 0;
    while k < out.len()
        invariant
            k <= out@.len(),
            out@ == old(out)@,
            forall|j: int| 0 <= j < k ==> out@[j]@ != v@,
        decreases out.len() - k,
    {
        if out[k] == v {
            assert(texts(out@)[k as int] == v@);
            assert(texts(out@).contains(v@));
            return;
        }
        k = k + 1;
    }
    assert(!texts(out@).contains(v@)) by {
        if texts(out@).contains(v@) {
            let j = choose|j: int| 0 <= j < texts(out@).len() && texts(out@)[j] == v@;
            assert(out@[j]@ == v@);
        }
    }
    out.push(v);
    assert(texts(out@) =~= texts(old(out)@).push(v@));
}

/// The text with its first character in ASCII upper case, when it is an
/// ASCII character.
fn capitalise(text: &String) -> (result: String)
    ensures
        result@ == capitalised(text@),
{
    let mut chars = chars_of(text.as_str());
    if chars.len() > 0 {
        let first = chars[0];
        if 'a' <= first && first <= 'z' {
            let upper = (((first as u32) - 32) as u8) as char;
            chars.set(0, upper);
        }
    }
    let result = string_of(&chars);
    assert(result@ =~= capitalised(text@));
    result
}

/// Every spelling of an extension a file dialog might have to match.
///
/// ORTEC writes its files capitalised - `.Spe`, `.Chn`, `.Spc` - and some
/// platforms' dialogs match filter patterns case-sensitively. Lower,
/// capitalised and upper cover what instruments and people actually write;
/// each spelling is listed once.
pub fn case_variants(extensions: &[&str]) -> (out: Vec<String>)
    ensures
        texts(out@) == spellings(extensions@.map_values(|e: &str| e@)),
{
    let ghost all = extensions@.map_values(|e: &str| e@);
    let mut forms: Vec<(String, String)> = Vec::new();
    let mut i: usize = 0;
    while i < extensions.len()
        invariant
            i <= extensions@.len(),
            all == extensions@.map_values(|e: &str| e@),
            forms@.len() == i,
            form_texts(forms@) == case_forms(all.subrange(0, i as int)),
        decreases extensions.len() - i,
    {
        let extension: &str = extensions[i];
        let lower = to_lowercase(extension);
        let upper = to_uppercase(extension);
        let ghost before = forms@;
        let ghost texts_now = (lower@, upper@);
        forms.push((lower, upper));
        proof {
            assert(all[i as int] == extension@);
            assert(form_texts(forms@)[i as int] == texts_now);
            assert forall|j: int| 0 <= j < i implies form_texts(forms@)[j] == case_forms(all.subrange(0, i + 1))[j] by {
                assert(forms@[j] == before[j]);
                assert(form_texts(before)[j] == case_forms(all.subrange(0, i as int))[j]);
                assert(all.subrange(0, i as int)[j] == all.subrange(0, i + 1)[j]);
            }
            assert(case_forms(all.subrange(0, i + 1))[i as int] == texts_now);
            assert(form_texts(forms@) =~= case_forms(all.subrange(0, i + 1)));
        }
        i = i + 1;
    }
    assert(all.subrange(0, i as int) =~= all);
    spellings_from(&forms)
}

/// Every spelling of each extension, given by its lower and upper case
/// forms: lower case, capitalised (the first character, when ASCII, in
/// upper case) and upper case, in order, each spelling listed once.
pub fn spellings_from(forms: &Vec<(String, String)>) -> (out: Vec<String>)
    ensures
        texts(out@) == spellings_from_forms(form_texts(forms@)),
{
    let ghost all = form_texts(forms@);
    let mut out: Vec<String> = Vec::new();
    let mut i: usize = 0;
    assert(texts(out@) =~= spellings_from_forms(all.subrange(0, 0)));
    while i < forms.len()
        invariant
            i <= forms@.len(),
            all == form_texts(forms@),
            texts(out@) == spellings_from_forms(all.subrange(0, i as int)),
        decreases forms.len() - i,
    {
        let lower = forms[i].0.clone();
        let upper = forms[i].1.clone();
        let capital = capitalise(&lower);
        push_new(&mut out, lower);
        push_new(&mut out, capital);
        push_new(&mut out, upper);
        proof {
            let next = all.subrange(0, i + 1);
            assert(next.drop_last() =~= all.subrange(0, i as int));
            assert(next.last() == all[i as int]);
        }
        i = i + 1;
    }
    assert(all.subrange(0, i as int) =~= all);
    out
}

proof fn lemma_with_new(out: Seq<Seq<char>>, v: Seq<char>)
    requires
        out.no_duplicates(),
    ensures
        with_new(out, v).no_duplicates(),
        with_new(out, v).contains(v),
        forall|w: Seq<char>| out.contains(w) ==> #[trigger] with_new(out, v).contains(w),
{
    if !out.contains(v) {
        let next = out.push(v);
        assert(next[out.len() as int] == v);
        assert forall|a: int, b: int| 0 <= a < next.len() && 0 <= b < next.len() && a != b implies next[a] != next[b] by {
            if a < out.len() && b < out.len() {
                assert(next[a] == out[a] && next[b] == out[b]);
            } else if a < out.len() {
                assert(next[a] == out[a]);
            } else if b < out.len() {
                assert(next[b] == out[b]);
            }
        }
        assert forall|w: Seq<char>| out.contains(w) implies #[trigger] next.contains(w) by {
            let k = choose|k: int| 0 <= k < out.len() && out[k] == w;
            assert(next[k] == w);
        }
    }
}

/// A filter lists each spelling once, and lists every spelling of every
/// extension it was given.
pub proof fn lemma_spellings_from_forms(forms: Seq<(Seq<char>, Seq<char>)>)
    ensures
        spellings_from_forms(forms).no_duplicates(),
        forall|i: int, k: int| 0 <= i < forms.len() && 0 <= k < 3
            ==> #[trigger] spellings_from_forms(forms).contains(
                #[trigger] spellings_of_forms(forms[i].0, forms[i].1)[k],
            ),
    decreases forms.len(),
{
    if forms.len() > 0 {
        let rest = forms.drop_last();
        lemma_spellings_from_forms(rest);
        let earlier = spellings_from_forms(rest);
        let three = spellings_of_forms(forms.last().0, forms.last().1);
        lemma_with_new(earlier, three[0]);
        let one = with_new(earlier, three[0]);
        lemma_with_new(one, three[1]);
        let two = with_new(one, three[1]);
        lemma_with_new(two, three[2]);
        let all = with_new(two, three[2]);
        assert(all == spellings_from_forms(forms));
        assert forall|i: int, k: int| 0 <= i < forms.len() && 0 <= k < 3
            implies #[trigger] all.contains(#[trigger] spellings_of_forms(forms[i].0, forms[i].1)[k]) by {
            if i < forms.len() - 1 {
                assert(forms[i] == rest[i]);
                assert(earlier.contains(spellings_of_forms(rest[i].0, rest[i].1)[k]));
                assert(one.contains(spellings_of_forms(rest[i].0, rest[i].1)[k]));
                assert(two.contains(spellings_of_forms(rest[i].0, rest[i].1)[k]));
            } else {
                assert(forms[i] == forms.last());
                if k == 0 {
                    assert(two.contains(three[0]));
                } else if k == 1 {
                    assert(two.contains(three[1]));
                }
            }
        }
    }
}

/// A filter lists each spelling once, and lists every spelling of every
/// extension it was given.
pub proof fn lemma_spellings(extensions: Seq<Seq<char>>)
    ensures
        spellings(extensions).no_duplicates(),
        forall|i: int, k: int| 0 <= i < extensions.len() && 0 <= k < 3
            ==> #[trigger] spellings(extensions).contains(#[trigger] spellings_of(extensions[i])[k]),
{
    let forms = case_forms(extensions);
    lemma_spellings_from_forms(forms);
    assert forall|i: int, k: int| 0 <= i < extensions.len() && 0 <= k < 3
        implies #[trigger] spellings(extensions).contains(#[trigger] spellings_of(extensions[i])[k]) by {
        assert(forms[i] == (lowercase_of(extensions[i]), uppercase_of(extensions[i])));
        assert(spellings_of(extensions[i]) == spellings_of_forms(forms[i].0, forms[i].1));
    }
}

/// Where the run of ASCII digits that ends `s` begins (its length when `s`
/// does not end in a digit).
pub open spec fn digits_start(s: Seq<char>) -> int
    decreases s.len(),
{
    if s.len() > 0 && is_digit(s.last()) {
        digits_start(s.drop_last())
    } else {
        s.len() as int
    }
}

/// The run of ASCII digits that ends `s`.
pub open spec fn trailing_digits(s: Seq<char>) -> Seq<char> {
    s.subrange(digits_start(s), s.len() as int)
}

/// The number a run of digits is read as: `u64::from_str`'s value, or 0
/// when that does not fit.
pub open spec fn counter_value(digits: Seq<char>) -> nat {
    if decimal_value(digits) <= u64::MAX {
        decimal_value(digits)
    } else {
        0
    }
}

/// The identifier after `current`: the number that ends it, plus one,
/// zero-padded to the same width; `current` with a 1 after it when it ends
/// in no number.
pub open spec fn next_identifier(current: Seq<char>) -> Seq<char> {
    let start = digits_start(current);
    if start == current.len() {
        current.push('1')
    } else {
        let digits = trailing_digits(current);
        current.subrange(0, start) + padded_decimal(counter_value(digits) + 1, digits.len())
    }
}

proof fn lemma_digits_start(s: Seq<char>)
    ensures
        0 <= digits_start(s) <= s.len(),
        all_digits(s.subrange(digits_start(s), s.len() as int)),
        digits_start(s) > 0 ==> !is_digit(s[digits_start(s) - 1]),
    decreases s.len(),
{
    if s.len() > 0 && is_digit(s.last()) {
        lemma_digits_start(s.drop_last());
        let start = digits_start(s);
        assert forall|i: int| 0 <= i < s.len() - start implies is_digit(#[trigger] s.subrange(start, s.len() as int)[i]) by {
            if start + i < s.len() - 1 {
                assert(s.subrange(start, s.len() as int)[i] == s.drop_last().subrange(start, s.len() - 1)[i]);
            }
        }
        if start > 0 {
            assert(s[start - 1] == s.drop_last()[start - 1]);
        }
    }
}

/// The next sample identifier in a batch: "S009" after "S008", "S010" after
/// "S009", "A1" after "A".
pub fn next_id(current: &str) -> (next: String)
    requires
        counter_value(trailing_digits(current@)) < u64::MAX,
    ensures
        next@ == next_identifier(current@),
{
    let chars = chars_of(current);
    let n = chars.len();
    let mut start = n;
    assert(chars@.subrange(0, n as int) =~= chars@);
    while start > 0 && '0' <= chars[start - 1] && chars[start - 1] <= '9'
        invariant
            start <= n,
            n == chars@.len(),
            digits_start(chars@) == digits_start(chars@.subrange(0, start as int)),
        decreases start,
    {
        assert(chars@.subrange(0, start as int).drop_last() =~= chars@.subrange(0, start - 1));
        start = start - 1;
    }
    assert(digits_start(chars@.subrange(0, start as int)) == start);
    proof {
        lemma_digits_start(chars@);
    }
    if start == n {
        let mut with_one = chars;
        with_one.push('1');
        return string_of(&with_one);
    }
    let ghost digits = chars@.subrange(start as int, n as int);
    let mut value: u64 = 0;
    let mut overflow = false;
    let mut k = start;
    while k < n
        invariant
            start <= k <= n,
            n == chars@.len(),
            digits == chars@.subrange(start as int, n as int),
            all_digits(digits),
            !overflow ==> value == decimal_value(chars@.subrange(start as int, k as int)),
            overflow ==> decimal_value(chars@.subrange(start as int, k as int)) > u64::MAX,
        decreases n - k,
    {
        let ghost before = chars@.subrange(start as int, k as int);
        let ghost after = chars@.subrange(start as int, k + 1);
        assert(after.drop_last() =~= before);
        assert(after.last() == digits[k - start]);
        let c = chars[k];
        let d = ((c as u32) - ('0' as u32)) as u64;
        assert(d == digit_value(after.last()));
        if !overflow {
            match value.checked_mul(10) {
                Some(tens) => match tens.checked_add(d) {
                    Some(next) => {
                        value = next;
                    },
                    None => {
                        overflow = true;
                    },
                },
                None => {
                    overflow = true;
                },
            }
        }
        k = k + 1;
    }
    assert(chars@.subrange(start as int, n as int) == digits);
    if overflow {
        value = 0;
    }
    assert(value == counter_value(digits));
    let width = n - start;
    let number = padded_decimal_chars(value + 1, width);
    let mut result: Vec<char> = Vec::new();
    let mut i: usize = 0;
    while i < start
        invariant
            i <= start <= n,
            n == chars@.len(),
            result@ == chars@.subrange(0, i as int),
        decreases start - i,
    {
        result.push(chars[i]);
        i = i + 1;
        assert(result@ =~= chars@.subrange(0, i as int));
    }
    let mut j: usize = 0;
    let ghost stem = result@;
    while j < number.len()
        invariant
            j <= number@.len(),
            result@ == stem + number@.subrange(0, j as int),
        decreases number.len() - j,
    {
        result.push(number[j]);
        j = j + 1;
        assert(result@ =~= stem + number@.subrange(0, j as int));
    }
    assert(number@.subrange(0, number@.len() as int) =~= number@);
    string_of(&result)
}

} // verus!
