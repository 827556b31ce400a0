//! The application's own rules that do not need a window: what a scan of the
//! instruments found, which serial pins a connection, how a job's command
//! line splits into words, the recent-files list, numbering and renaming
//! detectors, and reading a demonstration request.

use vstd::prelude::*;

use crate::theme::{theme_matching, Theme};
use crate::text::{
    contains_chars, has_substring, append_chars, chars_equal, chars_of, chars_start_with, parse_i32, parsed_i32,
    signed_decimal, signed_decimal_chars, starts_with, string_of, trim_bounds, trim_chars,
    trimmed, decimal_chars, decimal_digits, slice_chars,
};

verus! {

/// The serial a remembered identity pins a connection to: the identity
/// without surrounding white space, unless that is empty or only the detector
/// number that was used to reach the instrument.
pub open spec fn pinned_serial(remembered: Seq<char>, detector: i32) -> Option<Seq<char>> {
    let identity = trimmed(remembered);
    if identity.len() == 0 || identity == signed_decimal(detector) {
        None
    } else {
        Some(identity)
    }
}

/// The serial to select an adapter by, when selecting by serial is
/// meaningful.
///
/// Reached through ORTEC's library, an instrument reports its detector
/// number as its identity - the same number that selected it. Handing that
/// back would ask the helper to match a position or path against it, which
/// is how the wrong adapter gets opened. So an identity that is only the
/// number already used is not a pin; anything else, an adapter serial, is.
pub fn pin_by_serial<'a>(remembered: &'a str, detector: i32) -> (pin: Option<&'a str>)
    ensures
        pin is None <==> pinned_serial(remembered@, detector) is None,
        pin matches Some(serial) ==> pinned_serial(remembered@, detector) == Some(serial@),
{
    let chars = chars_of(remembered);
    let (start, end) = trim_bounds(&chars);
    if start >= end {
        return None;
    }
    let identity = slice_chars(&chars, start, end);
    let number = signed_decimal_chars(detector);
    if chars_equal(&identity, &number) {
        return None;
    }
    Some(remembered.substring_char(start, end))
}


/// An instrument as the scan lists it: detector number and name.
pub type ScanEntry = (i32, Seq<char>);

/// What a scan has gathered so far: the instruments that answered, the
/// configured ones that did not, and the detector whose block is open.
pub type ScanProgress = (Seq<ScanEntry>, Seq<ScanEntry>, Option<ScanEntry>);

/// The lines of `text`, split at every line feed.
pub open spec fn text_lines(text: Seq<char>) -> Seq<Seq<char>>
    decreases text.len(),
{
    if text.len() == 0 {
        seq![Seq::<char>::empty()]
    } else {
        let before = text_lines(text.drop_last());
        if text.last() == '\n' {
            before.push(Seq::<char>::empty())
        } else {
            before.update(before.len() - 1, before.last().push(text.last()))
        }
    }
}

proof fn lemma_text_lines_nonempty(text: Seq<char>)
    ensures
        text_lines(text).len() >= 1,
    decreases text.len(),
{
    if text.len() > 0 {
        lemma_text_lines_nonempty(text.drop_last());
    }
}

/// Where `": "` first occurs in `line` at or after `from`.
pub open spec fn colon_space_from(line: Seq<char>, from: int) -> Option<int>
    decreases line.len() - from,
{
    if from < 0 || from + 1 >= line.len() {
        None
    } else if line[from] == ':' && line[from + 1] == ' ' {
        Some(from)
    } else {
        colon_space_from(line, from + 1)
    }
}

/// A line opening a detector's block, `"  1: Rayleigh"`: the number before
/// the first `": "` and the name after it, both without surrounding space.
pub open spec fn block_header(line: Seq<char>) -> Option<ScanEntry> {
    match colon_space_from(line, 0) {
        Some(k) => match parsed_i32(trimmed(line.subrange(0, k))) {
            Some(number) => Some((number, trimmed(line.subrange(k + 2, line.len() as int)))),
            None => None,
        },
        None => None,
    }
}

/// One line of the bridge's probe output, read into the scan so far.
///
/// A header opens a detector's block; under it a line starting `model` says
/// the instrument answered, one starting `<` that it did not, and either
/// closes the block. Anything else is passed over.
pub open spec fn scan_line(progress: ScanProgress, raw: Seq<char>) -> ScanProgress {
    let line = trimmed(raw);
    let (reachable, missing, pending) = progress;
    match block_header(line) {
        Some(entry) => (reachable, missing, Some(entry)),
        None => match pending {
            None => progress,
            Some(entry) => if starts_with(line, seq!['m', 'o', 'd', 'e', 'l']) {
                (reachable.push(entry), missing, None)
            } else if starts_with(line, seq!['<']) {
                (reachable, missing.push(entry), None)
            } else {
                progress
            },
        },
    }
}

/// The scan after reading `lines` in order, from nothing found.
pub open spec fn scan_of(lines: Seq<Seq<char>>) -> ScanProgress
    decreases lines.len(),
{
    if lines.len() == 0 {
        (Seq::empty(), Seq::empty(), None)
    } else {
        scan_line(scan_of(lines.drop_last()), lines.last())
    }
}

/// The entries of a list as numbers and character sequences.
pub open spec fn entry_views(entries: Seq<(i32, String)>) -> Seq<ScanEntry> {
    entries.map_values(|entry: (i32, String)| (entry.0, entry.1@))
}

/// What a scan of the machine's own instruments found.
///
/// Two lists rather than one, because they answer different questions: what
/// answered when asked, and what the configuration says should be there. A
/// detector in the second and not the first is the case worth warning about.
#[derive(Clone, Debug, PartialEq, Eq)]
pub struct InstrumentScan {
    /// Instruments that answered, as (detector number, name).
    pub reachable: Vec<(i32, String)>,
    /// Configured detectors that did not answer, as (number, name).
    pub missing: Vec<(i32, String)>,
    /// Set when the scan itself could not be run.
    pub problem: Option<String>,
    /// Whether a scan has been run at all this session.
    pub scanned: bool,
}

impl Default for InstrumentScan {
    fn default() -> (scan: Self)
        ensures
            scan.reachable@.len() == 0,
            scan.missing@.len() == 0,
            scan.problem is None,
            !scan.scanned,
    {
        InstrumentScan { reachable: Vec::new(), missing: Vec::new(), problem: None, scanned: false }
    }
}

/// Finds the header of a detector block in a trimmed line.
fn read_block_header(line: &Vec<char>) -> (entry: Option<(i32, Vec<char>)>)
    ensures
        entry is None <==> block_header(line@) is None,
        entry matches Some(found) ==> block_header(line@) == Some((found.0, found.1@)),
{
    let mut k: usize = 0;
    while k < line.len() && line.len() - k > 1
        invariant
            k <= line@.len(),
            colon_space_from(line@, 0) == colon_space_from(line@, k as int),
        decreases line.len() - k,
    {
        if line[k] == ':' && line[k + 1] == ' ' {
            let head = slice_chars(line, 0, k);
            let number = match parse_i32(&trim_chars(&head)) {
                Some(number) => number,
                None => return None,
            };
            let tail = slice_chars(line, k + 2, line.len());
            return Some((number, trim_chars(&tail)));
        }
        k = k + 1;
    }
    None
}

impl InstrumentScan {
    /// The scan's lists as numbers and character sequences.
    pub open spec fn found(&self) -> (Seq<ScanEntry>, Seq<ScanEntry>) {
        (entry_views(self.reachable@), entry_views(self.missing@))
    }

    /// Reads the bridge's probe output.
    pub fn parse(text: &str) -> (scan: Self)
        ensures
            scan.scanned,
            scan.problem is None,
            scan.found() == ({
                let progress = scan_of(text_lines(text@));
                (progress.0, progress.1)
            }),
    {
        let chars = chars_of(text);
        let mut reachable: Vec<(i32, String)> = Vec::new();
        let mut missing: Vec<(i32, String)> = Vec::new();
        let mut pending: Option<(i32, Vec<char>)> = None;
        let mut line: Vec<char> = Vec::new();
        let mut i: usize = 0;
        assert(chars@.subrange(0, 0) =~= Seq::<char>::empty());
        assert(entry_views(reachable@) =~= Seq::<ScanEntry>::empty());
        assert(entry_views(missing@) =~= Seq::<ScanEntry>::empty());
        while i < chars.len()
            invariant
                i <= chars@.len(),
                ({
                    let lines = text_lines(chars@.subrange(0, i as int));
                    let progress = scan_of(lines.drop_last());
                    &&& line@ == lines.last()
                    &&& entry_views(reachable@) == progress.0
                    &&& entry_views(missing@) == progress.1
                    &&& pending_view(pending) == progress.2
                }),
            decreases chars.len() - i,
        {
            let ghost before = chars@.subrange(0, i as int);
            let ghost after = chars@.subrange(0, i + 1);
            proof {
                lemma_text_lines_nonempty(before);
                assert(after.drop_last() =~= before);
                assert(after.last() == chars@[i as int]);
            }
            if chars[i] == '\n' {
                // A whole line: read it into the scan.
                proof {
                    let lines = text_lines(before);
                    assert(text_lines(after).drop_last() =~= lines);
                    assert(lines.drop_last().push(lines.last()) =~= lines);
                }
                read_scan_line(&mut reachable, &mut missing, &mut pending, &line);
                line = Vec::new();
            } else {
                line.push(chars[i]);
                proof {
                    let lines = text_lines(before);
                    assert(text_lines(after).drop_last() =~= lines.drop_last());
                }
            }
            i = i + 1;
        }
        proof {
            let lines = text_lines(chars@);
            assert(chars@.subrange(0, chars@.len() as int) =~= chars@);
            lemma_text_lines_nonempty(chars@);
            assert(lines.drop_last().push(lines.last()) =~= lines);
        }
        read_scan_line(&mut reachable, &mut missing, &mut pending, &line);
        InstrumentScan { reachable, missing, problem: None, scanned: true }
    }

    /// A scan that could not be run at all.
    pub fn failed(problem: &str) -> (scan: Self)
        ensures
            scan.problem matches Some(text) && text@ == problem@,
            scan.scanned,
            scan.reachable@.len() == 0,
            scan.missing@.len() == 0,
    {
        InstrumentScan {
            reachable: Vec::new(),
            missing: Vec::new(),
            problem: Some(string_of(&chars_of(problem))),
            scanned: true,
        }
    }

    /// The status-bar line for a scan.
    pub open spec fn summary_text(&self) -> Seq<char> {
        match self.problem {
            Some(problem) => problem@,
            None => {
                let found = self.reachable@.len();
                let absent = self.missing@.len();
                if found == 0 && absent == 0 {
                    "no instruments found"@
                } else if absent == 0 {
                    decimal_digits(found) + " instrument(s) answered"@
                } else if found == 0 {
                    decimal_digits(absent) + " configured detector(s), none answering"@
                } else {
                    decimal_digits(found) + " instrument(s) answered, "@ + decimal_digits(absent)
                        + " configured but not answering"@
                }
            },
        }
    }

    /// One line for the status bar.
    pub fn summary(&self) -> (line: String)
        ensures
            line@ == self.summary_text(),
    {
        if let Some(problem) = &self.problem {
            return problem.clone();
        }
        let found = self.reachable.len();
        let absent = self.missing.len();
        if found == 0 && absent == 0 {
            return string_of(&chars_of("no instruments found"));
        }
        let mut text: Vec<char> = Vec::new();
        if absent == 0 {
            text = decimal_chars(found as u64);
            append_chars(&mut text, &chars_of(" instrument(s) answered"));
        } else if found == 0 {
            text = decimal_chars(absent as u64);
            append_chars(&mut text, &chars_of(" configured detector(s), none answering"));
        } else {
            text = decimal_chars(found as u64);
            append_chars(&mut text, &chars_of(" instrument(s) answered, "));
            append_chars(&mut text, &decimal_chars(absent as u64));
            append_chars(&mut text, &chars_of(" configured but not answering"));
        }
        string_of(&text)
    }
}

/// The open detector block as a number and a character sequence.
pub open spec fn pending_view(pending: Option<(i32, Vec<char>)>) -> Option<ScanEntry> {
    match pending {
        Some(entry) => Some((entry.0, entry.1@)),
        None => None,
    }
}

/// Reads one raw line of probe output into the scan so far.
fn read_scan_line(
    reachable: &mut Vec<(i32, String)>,
    missing: &mut Vec<(i32, String)>,
    pending: &mut Option<(i32, Vec<char>)>,
    raw: &Vec<char>,
)
    ensures
        ({
            let progress = scan_line(
                (entry_views(old(reachable)@), entry_views(old(missing)@), pending_view(*old(pending))),
                raw@,
            );
            &&& entry_views(final(reachable)@) == progress.0
            &&& entry_views(final(missing)@) == progress.1
            &&& pending_view(*final(pending)) == progress.2
        }),
{
    let ghost progress = (entry_views(reachable@), entry_views(missing@), pending_view(*pending));
    let line = trim_chars(raw);
    match read_block_header(&line) {
        Some(entry) => {
            *pending = Some(entry);
        },
        None => {
            let is_model = chars_start_with(&line, &chars_of("model"));
            let is_absent = chars_start_with(&line, &chars_of("<"));
            proof {
                reveal_strlit("model");
                reveal_strlit("<");
                assert("model"@ =~= seq!['m', 'o', 'd', 'e', 'l']);
                assert("<"@ =~= seq!['<']);
            }
            let closing: Option<(i32, String)> = match &*pending {
                Some(entry) => if is_model || is_absent {
                    Some((entry.0, string_of(&entry.1)))
                } else {
                    None
                },
                None => None,
            };
            if let Some(done) = closing {
                if is_model {
                    reachable.push(done);
                    proof {
                        assert(entry_views(reachable@) =~= progress.0.push(progress.2->0));
                    }
                } else {
                    missing.push(done);
                    proof {
                        assert(entry_views(missing@) =~= progress.1.push(progress.2->0));
                    }
                }
                *pending = None;
            }
        },
    }
}

/// How far splitting a command line has got: the words so far, the word
/// being read, and whether a quotation is open.
pub type WordSplit = (Seq<Seq<char>>, Seq<char>, bool);

/// The split after reading `line`: a double quote opens or closes a
/// quotation and is dropped; a space or tab outside a quotation ends the
/// word being read; any other character is part of it.
pub open spec fn split_state(line: Seq<char>) -> WordSplit
    decreases line.len(),
{
    if line.len() == 0 {
        (Seq::empty(), Seq::empty(), false)
    } else {
        let (words, current, quoted) = split_state(line.drop_last());
        let c = line.last();
        if c == '"' {
            (words, current, !quoted)
        } else if (c == ' ' || c == '\t') && !quoted {
            if current.len() > 0 {
                (words.push(current), Seq::empty(), quoted)
            } else {
                (words, current, quoted)
            }
        } else {
            (words, current.push(c), quoted)
        }
    }
}

/// The words of a command line, as a job's `RUN` and `WAIT "program"` read
/// it: the first is the program, the rest its arguments.
pub open spec fn command_words_of(line: Seq<char>) -> Seq<Seq<char>> {
    let (words, current, _quoted) = split_state(line);
    if current.len() > 0 {
        words.push(current)
    } else {
        words
    }
}

/// The strings of a list as character sequences.
pub open spec fn string_views(strings: Seq<String>) -> Seq<Seq<char>> {
    strings.map_values(|text: String| text@)
}

/// Splits a job's command line into the program and its arguments.
pub fn command_words(command_line: &str) -> (words: Vec<String>)
    ensures
        string_views(words@) == command_words_of(command_line@),
{
    let chars = chars_of(command_line);
    let mut words: Vec<String> = Vec::new();
    let mut current: Vec<char> = Vec::new();
    let mut quoted = false;
    let mut i: usize = 0;
    assert(chars@.subrange(0, 0) =~= Seq::<char>::empty());
    assert(string_views(words@) =~= Seq::<Seq<char>>::empty());
    while i < chars.len()
        invariant
            i <= chars@.len(),
            split_state(chars@.subrange(0, i as int)) == (string_views(words@), current@, quoted),
        decreases chars.len() - i,
    {
        let ghost before = chars@.subrange(0, i as int);
        let ghost after = chars@.subrange(0, i + 1);
        assert(after.drop_last() =~= before);
        let c = chars[i];
        if c == '"' {
            quoted = !quoted;
        } else if (c == ' ' || c == '\t') && !quoted {
            if current.len() > 0 {
                let ghost old_words = words@;
                words.push(string_of(&current));
                assert(string_views(words@) =~= string_views(old_words).push(current@));
                current = Vec::new();
            }
        } else {
            current.push(c);
        }
        i = i + 1;
    }
    assert(chars@.subrange(0, chars@.len() as int) =~= chars@);
    if current.len() > 0 {
        let ghost old_words = words@;
        words.push(string_of(&current));
        assert(string_views(words@) =~= string_views(old_words).push(current@));
    }
    words
}

/// How many files the File menu remembers.
pub const RECENT_FILES: usize = 8;

/// `entries` without those marked in `same`, in order.
pub open spec fn unmarked(entries: Seq<Seq<char>>, same: Seq<bool>) -> Seq<Seq<char>>
    decreases entries.len(),
{
    if entries.len() == 0 || same.len() == 0 {
        Seq::empty()
    } else {
        let rest = unmarked(entries.drop_last(), same.drop_last());
        if same.last() {
            rest
        } else {
            rest.push(entries.last())
        }
    }
}

/// The recent-file list after opening `path`, where `same` marks the
/// entries that name the same file: `path` moves to the front, the marked
/// entries go, and the list keeps at most `RECENT_FILES`.
pub open spec fn remembered(recent: Seq<Seq<char>>, path: Seq<char>, same: Seq<bool>) -> Seq<Seq<char>> {
    let listed = seq![path] + unmarked(recent, same);
    if listed.len() > RECENT_FILES {
        listed.subrange(0, RECENT_FILES as int)
    } else {
        listed
    }
}

proof fn lemma_unmarked(entries: Seq<Seq<char>>, same: Seq<bool>)
    requires
        same.len() == entries.len(),
    ensures
        forall|i: int| 0 <= i < unmarked(entries, same).len() ==> exists|j: int|
            0 <= j < entries.len() && !same[j] && #[trigger] unmarked(entries, same)[i] == entries[j],
        unmarked(entries, same).len() <= entries.len(),
    decreases entries.len(),
{
    if entries.len() > 0 {
        let front = entries.drop_last();
        let marks = same.drop_last();
        lemma_unmarked(front, marks);
        let rest = unmarked(front, marks);
        let all = unmarked(entries, same);
        assert forall|i: int| 0 <= i < all.len() implies exists|j: int|
            0 <= j < entries.len() && !same[j] && #[trigger] all[i] == entries[j] by {
            if i < rest.len() {
                assert(all[i] == rest[i]);
                let j = choose|j: int| 0 <= j < front.len() && !marks[j] && rest[i] == front[j];
                assert(entries[j] == front[j] && same[j] == marks[j]);
            } else {
                let j = entries.len() - 1;
                assert(!same[j] && all[i] == entries[j]);
            }
        }
    }
}

proof fn lemma_unmarked_distinct(entries: Seq<Seq<char>>, same: Seq<bool>)
    requires
        same.len() == entries.len(),
        entries.no_duplicates(),
    ensures
        unmarked(entries, same).no_duplicates(),
    decreases entries.len(),
{
    if entries.len() > 0 {
        let front = entries.drop_last();
        let marks = same.drop_last();
        assert(front.no_duplicates()) by {
            assert forall|i: int, j: int| 0 <= i < front.len() && 0 <= j < front.len() && i != j implies front[i] != front[j] by {
                assert(front[i] == entries[i] && front[j] == entries[j]);
            }
        }
        lemma_unmarked_distinct(front, marks);
        lemma_unmarked(front, marks);
        let rest = unmarked(front, marks);
        if !same.last() {
            assert(!rest.contains(entries.last())) by {
                if rest.contains(entries.last()) {
                    let k = choose|k: int| 0 <= k < rest.len() && rest[k] == entries.last();
                    let j = choose|j: int| 0 <= j < front.len() && !marks[j] && rest[k] == front[j];
                    assert(entries[j] == entries[entries.len() - 1]);
                }
            }
            let grown = rest.push(entries.last());
            assert forall|i: int, j: int| 0 <= i < grown.len() && 0 <= j < grown.len() && i != j implies grown[i] != grown[j] by {
                if i < rest.len() && j < rest.len() {
                } else if i < rest.len() {
                    assert(rest.contains(grown[i]));
                } else if j < rest.len() {
                    assert(rest.contains(grown[j]));
                }
            }
        }
    }
}

/// Remembers a file in the recent list, given which entries name the same
/// file (`same`, entry by entry): most recent first, those entries gone, at
/// most `RECENT_FILES` kept. When no two entries were the same text, and
/// every entry with the text of `path` is marked, no two are afterwards.
pub fn remember_with(recent: &mut Vec<String>, path: &str, same: &Vec<bool>)
    requires
        same@.len() == old(recent)@.len(),
    ensures
        string_views(final(recent)@) == remembered(string_views(old(recent)@), path@, same@),
        final(recent)@.len() <= RECENT_FILES,
        final(recent)@.len() >= 1 && final(recent)@[0]@ == path@,
        string_views(old(recent)@).no_duplicates() && (forall|i: int| 0 <= i < same@.len()
            && #[trigger] old(recent)@[i]@ == path@ ==> same@[i])
            ==> string_views(final(recent)@).no_duplicates(),
{
    let entry = chars_of(path);
    let ghost before = string_views(recent@);
    let mut kept: Vec<String> = Vec::new();
    let mut i: usize = 0;
    while i < recent.len()
        invariant
            i <= recent@.len(),
            same@.len() == recent@.len(),
            before == string_views(recent@),
            string_views(kept@) == unmarked(before.subrange(0, i as int), same@.subrange(0, i as int)),
        decreases recent.len() - i,
    {
        assert(before.subrange(0, i + 1).drop_last() =~= before.subrange(0, i as int));
        assert(same@.subrange(0, i + 1).drop_last() =~= same@.subrange(0, i as int));
        assert(before[i as int] == recent@[i as int]@);
        if !same[i] {
            let ghost old_kept = kept@;
            kept.push(recent[i].clone());
            assert(string_views(kept@) =~= string_views(old_kept).push(recent@[i as int]@));
        }
        i = i + 1;
    }
    assert(before.subrange(0, recent@.len() as int) =~= before);
    assert(same@.subrange(0, recent@.len() as int) =~= same@);
    let mut listed: Vec<String> = Vec::new();
    listed.push(string_of(&entry));
    let mut k: usize = 0;
    while k < kept.len() && listed.len() < RECENT_FILES
        invariant
            k <= kept@.len(),
            listed@.len() == k + 1,
            listed@.len() <= RECENT_FILES,
            string_views(listed@) == seq![entry@] + string_views(kept@).subrange(0, k as int),
        decreases kept.len() - k,
    {
        let ghost old_listed = listed@;
        let next = kept[k].clone();
        listed.push(next);
        assert(listed@ == old_listed.push(kept@[k as int]));
        assert(string_views(listed@) =~= string_views(old_listed).push(kept@[k as int]@));
        assert(string_views(kept@)[k as int] == kept@[k as int]@);
        assert(seq![entry@] + string_views(kept@).subrange(0, k + 1) =~= (seq![entry@]
            + string_views(kept@).subrange(0, k as int)).push(string_views(kept@)[k as int]));
        k = k + 1;
    }
    proof {
        let whole = seq![entry@] + string_views(kept@);
        if k == kept@.len() {
            assert(string_views(kept@).subrange(0, k as int) =~= string_views(kept@));
        } else {
            assert(k == RECENT_FILES - 1);
            assert(seq![entry@] + string_views(kept@).subrange(0, k as int) =~= whole.subrange(
                0,
                RECENT_FILES as int,
            ));
        }
        assert(string_views(listed@)[0] == entry@);
        if before.no_duplicates() && (forall|i: int| 0 <= i < same@.len()
            && #[trigger] old(recent)@[i]@ == path@ ==> same@[i]) {
            lemma_unmarked_distinct(before, same@);
            lemma_unmarked(before, same@);
            let rest = unmarked(before, same@);
            assert forall|m: int| 0 <= m < rest.len() implies rest[m] != entry@ by {
                let j = choose|j: int| 0 <= j < before.len() && !same@[j] && #[trigger] rest[m] == before[j];
                assert(before[j] == old(recent)@[j]@);
            }
            assert(whole.no_duplicates()) by {
                assert forall|i: int, j: int| 0 <= i < whole.len() && 0 <= j < whole.len() && i != j implies whole[i] != whole[j] by {
                    if i == 0 {
                        assert(whole[j] == rest[j - 1]);
                    } else if j == 0 {
                        assert(whole[i] == rest[i - 1]);
                    } else {
                        assert(whole[i] == rest[i - 1] && whole[j] == rest[j - 1]);
                    }
                }
            }
            let shown = string_views(listed@);
            assert forall|i: int, j: int| 0 <= i < shown.len() && 0 <= j < shown.len() && i != j implies shown[i] != shown[j] by {
                assert(shown[i] == whole[i] && shown[j] == whole[j]);
            }
        }
    }
    *recent = listed;
}

/// A character that separates path components on some platform: `/`
/// everywhere, backslash on Windows as well.
pub open spec fn is_path_separator(c: char) -> bool {
    c == '/' || c == '\\'
}

/// The runs of text between separators, in order, empty runs included.
pub open spec fn path_pieces(text: Seq<char>) -> Seq<Seq<char>>
    decreases text.len(),
{
    if text.len() == 0 {
        seq![Seq::<char>::empty()]
    } else {
        let earlier = path_pieces(text.drop_last());
        if is_path_separator(text.last()) {
            earlier.push(Seq::<char>::empty())
        } else {
            earlier.update(earlier.len() - 1, earlier.last().push(text.last()))
        }
    }
}

/// What two texts naming the same path have in common on every platform:
/// the runs between separators, with ASCII letters in lower case and the
/// empty runs and `.` runs left out.
pub open spec fn path_key(text: Seq<char>) -> Seq<Seq<char>> {
    path_pieces(text.map_values(|c: char| ascii_lower(c))).filter(
        |piece: Seq<char>| piece.len() > 0 && piece != seq!['.'],
    )
}

/// Whether two paths name the same file, as `std::path::Path`'s `==` says:
/// by their components, so `a//b` and `a/b` are one file. How a text splits
/// into components depends on the platform, so the answer is not named.
/// What the contract says holds on every platform: the same text is the
/// same path, and paths that are the same have the same `path_key` (equal
/// components differ at most in redundant separators, `.` components and,
/// for a Windows drive letter, its case).
#[verifier::external_body]
fn paths_equal(a: &str, b: &str) -> (same: bool)
    ensures
        a@ == b@ ==> same,
        same ==> path_key(a@) == path_key(b@),
{
    std::path::Path::new(a) == std::path::Path::new(b)
}

/// Remembers a file in the recent list: most recent first, without
/// another entry for the same file, at most `RECENT_FILES` kept. Which
/// entries name the same file is the platform's path comparison; whatever
/// it answers, the list is `remembered` over those answers, an entry with
/// the very text of `path` always goes, and an entry goes only when it has
/// the `path_key` of `path`.
pub fn remember_file(recent: &mut Vec<String>, path: &str)
    ensures
        exists|same: Seq<bool>| {
            &&& same.len() == old(recent)@.len()
            &&& forall|i: int| 0 <= i < same.len() && #[trigger] old(recent)@[i]@ == path@ ==> same[i]
            &&& forall|i: int| 0 <= i < same.len() && #[trigger] same[i] ==> path_key(old(recent)@[i]@)
                == path_key(path@)
            &&& string_views(final(recent)@) == remembered(string_views(old(recent)@), path@, same)
        },
        final(recent)@.len() <= RECENT_FILES,
        final(recent)@.len() >= 1 && final(recent)@[0]@ == path@,
        string_views(old(recent)@).no_duplicates() ==> string_views(final(recent)@).no_duplicates(),
{
    let mut same: Vec<bool> = Vec::new();
    let mut i: usize = 0;
    while i < recent.len()
        invariant
            i <= recent@.len(),
            same@.len() == i,
            forall|j: int| 0 <= j < i && #[trigger] recent@[j]@ == path@ ==> same@[j],
            forall|j: int| 0 <= j < i && #[trigger] same@[j] ==> path_key(recent@[j]@) == path_key(path@),
        decreases recent.len() - i,
    {
        let answer = paths_equal(recent[i].as_str(), path);
        same.push(answer);
        i = i + 1;
    }
    let ghost marks = same@;
    remember_with(recent, path, &same);
    assert(marks.len() == old(recent)@.len());
}

/// The file format a spectrum is saved in unless the user picks another:
/// the instruments' own binary `.Chn`.
pub fn default_format() -> (format: String)
    ensures
        format@ == "chn"@,
{
    String::from_str("chn")
}

/// Whether `number` is among `used`.
fn is_used(used: &[u16], number: u16) -> (found: bool)
    ensures
        found == used@.contains(number),
{
    let mut i: usize = 0;
    while i < used.len()
        invariant
            i <= used@.len(),
            forall|j: int| 0 <= j < i ==> used@[j] != number,
        decreases used.len() - i,
    {
        if used[i] == number {
            return true;
        }
        i = i + 1;
    }
    false
}

/// The number a newly added detector gets: the smallest of `1..=highest`
/// that no configured detector has, or 1 when every one is taken.
pub fn next_detector_number(used: &[u16], highest: u16) -> (number: u16)
    ensures
        (exists|n: u16| 1 <= n <= highest && !used@.contains(n)) ==> {
            &&& 1 <= number <= highest
            &&& !used@.contains(number)
            &&& forall|m: u16| 1 <= m < number ==> used@.contains(m)
        },
        !(exists|n: u16| 1 <= n <= highest && !used@.contains(n)) ==> number == 1,
{
    let mut candidate: u32 = 1;
    while candidate <= highest as u32
        invariant
            1 <= candidate <= highest as int + 1,
            forall|m: u16| 1 <= m < candidate ==> #[trigger] used@.contains(m),
        decreases highest as int + 1 - candidate as int,
    {
        if !is_used(used, candidate as u16) {
            return candidate as u16;
        }
        candidate = candidate + 1;
    }
    1
}

/// Where `c` first occurs in `s` at or after `from`.
pub open spec fn char_from(s: Seq<char>, c: char, from: int) -> Option<int>
    decreases s.len() - from,
{
    if from < 0 || from >= s.len() {
        None
    } else if s[from] == c {
        Some(from)
    } else {
        char_from(s, c, from + 1)
    }
}

/// A demonstration request as the documentation's screenshots give it,
/// `amber:peak`: before the first colon a scheme's name, after it the state
/// to show. Without a colon the whole request names the state and no scheme
/// is asked for.
pub open spec fn demo_parts(request: Seq<char>) -> (Option<Theme>, Seq<char>) {
    match char_from(request, ':', 0) {
        Some(k) => (theme_matching(request.subrange(0, k)), request.subrange(k + 1, request.len() as int)),
        None => (None, request),
    }
}

/// Splits a demonstration request into the scheme it picks, if any, and
/// the state it asks for.
pub fn demo_request(request: &str) -> (parts: (Option<Theme>, String))
    ensures
        parts.0 == demo_parts(request@).0,
        parts.1@ == demo_parts(request@).1,
{
    let chars = chars_of(request);
    let mut k: usize = 0;
    while k < chars.len()
        invariant
            k <= chars@.len(),
            chars@ == request@,
            char_from(chars@, ':', 0) == char_from(chars@, ':', k as int),
        decreases chars.len() - k,
    {
        if chars[k] == ':' {
            assert(char_from(chars@, ':', k as int) == Some(k as int));
            let name = string_of(&slice_chars(&chars, 0, k));
            let rest = string_of(&slice_chars(&chars, k + 1, chars.len()));
            return (Theme::matching(name.as_str()), rest);
        }
        k = k + 1;
    }
    (None, string_of(&chars))
}

/// What renaming a detector comes to.
#[derive(Clone, Debug, PartialEq, Eq)]
pub enum Rename {
    /// The new name is empty once trimmed: a detector needs a name.
    Refused,
    /// The detector already has that name: nothing to change.
    Unchanged,
    /// The name to give the saved entry, the instrument and its windows.
    To(String),
}

/// Renaming a detector called `current` to `requested`: the requested name
/// without surrounding white space, unless that is empty or what it is
/// already called.
pub fn rename_detector(current: &str, requested: &str) -> (outcome: Rename)
    ensures
        trimmed(requested@).len() == 0 ==> outcome == Rename::Refused,
        trimmed(requested@).len() > 0 && trimmed(requested@) == current@ ==> outcome == Rename::Unchanged,
        trimmed(requested@).len() > 0 && trimmed(requested@) != current@ ==> (outcome matches Rename::To(name)
            && name@ == trimmed(requested@)),
{
    let name = trim_chars(&chars_of(requested));
    if name.len() == 0 {
        return Rename::Refused;
    }
    if chars_equal(&name, &chars_of(current)) {
        return Rename::Unchanged;
    }
    Rename::To(string_of(&name))
}

/// Where the field of a `;`-separated description that starts at `from`
/// ends: at the next `;`, or at the end of the text.
pub open spec fn field_end(s: Seq<char>, from: int) -> int {
    match char_from(s, ';', from) {
        Some(k) => k,
        None => s.len() as int,
    }
}

proof fn lemma_char_from(s: Seq<char>, c: char, from: int)
    requires
        0 <= from,
    ensures
        char_from(s, c, from) matches Some(k) ==> from <= k < s.len() && s[k] == c,
    decreases s.len() - from,
{
    if from < s.len() && s[from] != c {
        lemma_char_from(s, c, from + 1);
    }
}

/// Where the field starting at `from` ends.
fn find_field_end(chars: &Vec<char>, from: usize) -> (end: usize)
    requires
        from <= chars@.len(),
    ensures
        end as int == field_end(chars@, from as int),
        from <= end <= chars@.len(),
{
    proof {
        lemma_char_from(chars@, ';', from as int);
    }
    let mut k = from;
    while k < chars.len()
        invariant
            from <= k <= chars@.len(),
            char_from(chars@, ';', from as int) == char_from(chars@, ';', k as int),
        decreases chars.len() - k,
    {
        if chars[k] == ';' {
            return k;
        }
        k = k + 1;
    }
    k
}

/// A local instrument's description, `"3"` or `"3; C:\\UMCBI"`: the detector
/// number the instruments' own configuration gave it, before the first `;`,
/// and the directory holding their library, in the next field when it is
/// not blank. Without a number in the first field there is nothing to
/// reach.
pub open spec fn local_description(s: Seq<char>) -> Option<(i32, Option<Seq<char>>)> {
    let first_end = field_end(s, 0);
    match parsed_i32(trimmed(s.subrange(0, first_end))) {
        None => None,
        Some(detector) => {
            let library = if first_end < s.len() {
                let second = trimmed(s.subrange(first_end + 1, field_end(s, first_end + 1)));
                if second.len() > 0 {
                    Some(second)
                } else {
                    None
                }
            } else {
                None
            };
            Some((detector, library))
        },
    }
}

/// Reads a local instrument's description.
pub fn local_instrument(description: &str) -> (found: Option<(i32, Option<String>)>)
    ensures
        found is None <==> local_description(description@) is None,
        found matches Some((detector, library)) ==> local_description(description@) matches Some((d, l)) && {
            &&& detector == d
            &&& library is None <==> l is None
            &&& library matches Some(text) ==> l == Some(text@)
        },
{
    let chars = chars_of(description);
    proof {
        lemma_char_from(chars@, ';', 0);
    }
    let first_end = find_field_end(&chars, 0);
    let detector = match parse_i32(&trim_chars(&slice_chars(&chars, 0, first_end))) {
        Some(detector) => detector,
        None => return None,
    };
    if first_end >= chars.len() {
        return Some((detector, None));
    }
    let second_end = find_field_end(&chars, first_end + 1);
    let second = trim_chars(&slice_chars(&chars, first_end + 1, second_end));
    if second.len() == 0 {
        Some((detector, None))
    } else {
        Some((detector, Some(string_of(&second))))
    }
}

/// A network instrument's address, `host:port`, from its description: the
/// description without surrounding white space, when anything is left.
pub fn network_address(description: &str) -> (address: Option<String>)
    ensures
        address is None <==> trimmed(description@).len() == 0,
        address matches Some(text) ==> text@ == trimmed(description@),
{
    let text = trim_chars(&chars_of(description));
    if text.len() == 0 {
        None
    } else {
        Some(string_of(&text))
    }
}

/// The serial to remember after opening an instrument: what it reported,
/// trimmed, when nothing was remembered yet and it reported something.
/// Every later open then has an identity to check against.
pub fn serial_to_learn(remembered: &str, reported: &str) -> (learned: Option<String>)
    ensures
        learned is Some <==> (trimmed(remembered@).len() == 0 && trimmed(reported@).len() > 0),
        learned matches Some(text) ==> text@ == trimmed(reported@),
{
    let known = trim_chars(&chars_of(remembered));
    let told = trim_chars(&chars_of(reported));
    if known.len() == 0 && told.len() > 0 {
        Some(string_of(&told))
    } else {
        None
    }
}

/// What a file named on the command line is opened as.
#[derive(Clone, Copy, Debug, PartialEq, Eq, Structural)]
pub enum OpenAs {
    /// A `.JOB` file: it starts running.
    Job,
    /// A nuclide library (`.LIB`, `.CSV`): it becomes the working library.
    Library,
    /// Anything else is recalled as a spectrum.
    Spectrum,
}

/// A character in ASCII lower case.
pub open spec fn ascii_lower(c: char) -> char {
    if 'A' <= c && c <= 'Z' {
        ((c as int) + 32) as char
    } else {
        c
    }
}

/// What a file is opened as, by its extension, whatever its case.
pub open spec fn open_as(extension: Seq<char>) -> OpenAs {
    let lower = extension.map_values(|c: char| ascii_lower(c));
    if lower == seq!['j', 'o', 'b'] {
        OpenAs::Job
    } else if lower == seq!['l', 'i', 'b'] || lower == seq!['c', 's', 'v'] {
        OpenAs::Library
    } else {
        OpenAs::Spectrum
    }
}

/// Decides what a file named on the command line is opened as, as the
/// instruments' own software does: a job runs, a library loads, anything
/// else is recalled as a spectrum.
pub fn argument_kind(extension: &str) -> (kind: OpenAs)
    ensures
        kind == open_as(extension@),
{
    let chars = chars_of(extension);
    let mut lower: Vec<char> = Vec::new();
    let mut i: usize = 0;
    while i < chars.len()
        invariant
            i <= chars@.len(),
            lower@ == chars@.subrange(0, i as int).map_values(|c: char| ascii_lower(c)),
        decreases chars.len() - i,
    {
        let c = chars[i];
        let down = if 'A' <= c && c <= 'Z' {
            (((c as u32) + 32) as u8) as char
        } else {
            c
        };
        lower.push(down);
        i = i + 1;
        assert(lower@ =~= chars@.subrange(0, i as int).map_values(|c: char| ascii_lower(c)));
    }
    assert(chars@.subrange(0, chars@.len() as int) =~= chars@);
    let job = vec!['j', 'o', 'b'];
    let lib = vec!['l', 'i', 'b'];
    let csv = vec!['c', 's', 'v'];
    assert(job@ =~= seq!['j', 'o', 'b']);
    assert(lib@ =~= seq!['l', 'i', 'b']);
    assert(csv@ =~= seq!['c', 's', 'v']);
    if chars_equal(&lower, &job) {
        OpenAs::Job
    } else if chars_equal(&lower, &lib) || chars_equal(&lower, &csv) {
        OpenAs::Library
    } else {
        OpenAs::Spectrum
    }
}

/// A line without the carriage return that ends it, if one does.
pub open spec fn without_cr(line: Seq<char>) -> Seq<char> {
    if line.len() > 0 && line.last() == '\r' {
        line.drop_last()
    } else {
        line
    }
}

/// The lines of `text` as `str::lines` reads them: split at every line
/// feed, a line that ends in a line feed losing a carriage return before
/// it; the piece after the last line feed is kept, possibly empty.
pub open spec fn report_lines(text: Seq<char>) -> Seq<Seq<char>>
    decreases text.len(),
{
    if text.len() == 0 {
        seq![Seq::<char>::empty()]
    } else {
        let before = report_lines(text.drop_last());
        if text.last() == '\n' {
            before.update(before.len() - 1, without_cr(before.last())).push(Seq::<char>::empty())
        } else {
            before.update(before.len() - 1, before.last().push(text.last()))
        }
    }
}

proof fn lemma_report_lines_nonempty(text: Seq<char>)
    ensures
        report_lines(text).len() >= 1,
    decreases text.len(),
{
    if text.len() > 0 {
        lemma_report_lines_nonempty(text.drop_last());
    }
}

/// Whether a line of the bridge's output says what it wrote.
pub open spec fn reports_writing(line: Seq<char>) -> bool {
    starts_with(line, "wrote"@) && has_substring(line, "instrument"@)
}

/// The first of `lines` that says what the bridge wrote.
pub open spec fn first_report(lines: Seq<Seq<char>>) -> Option<Seq<char>>
    decreases lines.len(),
{
    if lines.len() == 0 {
        None
    } else {
        match first_report(lines.drop_last()) {
            Some(line) => Some(line),
            None => if reports_writing(lines.last()) {
                Some(lines.last())
            } else {
                None
            },
        }
    }
}

/// The status line after the bridge has written a detector list: its own
/// line saying what it wrote, or a plain acknowledgement.
pub open spec fn configure_status_text(output: Seq<char>) -> Seq<char> {
    match first_report(report_lines(output)) {
        Some(line) => line,
        None => "the bridge configured what it found"@,
    }
}

/// Reports what configuring the local instruments did.
pub fn configure_status(output: &str) -> (status: String)
    ensures
        status@ == configure_status_text(output@),
{
    let chars = chars_of(output);
    let wrote = chars_of("wrote");
    let instrument = chars_of("instrument");
    let mut found: Option<Vec<char>> = None;
    let mut line: Vec<char> = Vec::new();
    let mut i: usize = 0;
    assert(chars@.subrange(0, 0) =~= Seq::<char>::empty());
    while i < chars.len()
        invariant
            i <= chars@.len(),
            wrote@ == "wrote"@,
            instrument@ == "instrument"@,
            ({
                let lines = report_lines(chars@.subrange(0, i as int));
                &&& line@ == lines.last()
                &&& match found {
                    Some(f) => first_report(lines.drop_last()) == Some(f@),
                    None => first_report(lines.drop_last()) is None,
                }
            }),
        decreases chars.len() - i,
    {
        let ghost before = chars@.subrange(0, i as int);
        let ghost after = chars@.subrange(0, i + 1);
        proof {
            lemma_report_lines_nonempty(before);
            assert(after.drop_last() =~= before);
            assert(after.last() == chars@[i as int]);
        }
        if chars[i] == '\n' {
            if line.len() > 0 && line[line.len() - 1] == '\r' {
                line.pop();
            }
            proof {
                let lines = report_lines(before);
                assert(report_lines(after).drop_last() =~= lines.drop_last().push(line@));
                assert(report_lines(after).drop_last().drop_last() =~= lines.drop_last());
            }
            if found.is_none() && chars_start_with(&line, &wrote) && contains_chars(&line, &instrument) {
                found = Some(line);
            }
            line = Vec::new();
        } else {
            line.push(chars[i]);
            proof {
                let lines = report_lines(before);
                assert(report_lines(after).drop_last() =~= lines.drop_last());
            }
        }
        i = i + 1;
    }
    proof {
        let lines = report_lines(chars@);
        assert(chars@.subrange(0, chars@.len() as int) =~= chars@);
        lemma_report_lines_nonempty(chars@);
    }
    match found {
        Some(report) => string_of(&report),
        None => {
            if chars_start_with(&line, &wrote) && contains_chars(&line, &instrument) {
                string_of(&line)
            } else {
                proof {
                    reveal_strlit("the bridge configured what it found");
                }
                String::from_str("the bridge configured what it found")
            }
        },
    }
}

/// Whether a detector list already holds the local instrument numbered
/// `number`: one of its descriptions has that number, as written, before
/// its first `;`.
pub open spec fn lists_local(descriptions: Seq<Seq<char>>, number: i32) -> bool {
    exists|k: int| 0 <= k < descriptions.len()
        && #[trigger] descriptions[k].subrange(0, field_end(descriptions[k], 0)) == signed_decimal(number)
}

/// Whether one of `descriptions` is the local instrument numbered `number`.
pub fn already_listed(descriptions: &Vec<String>, number: i32) -> (listed: bool)
    ensures
        listed == lists_local(string_views(descriptions@), number),
{
    let wanted = signed_decimal_chars(number);
    let mut k: usize = 0;
    while k < descriptions.len()
        invariant
            k <= descriptions@.len(),
            wanted@ == signed_decimal(number),
            forall|j: int| 0 <= j < k ==> #[trigger] string_views(descriptions@)[j].subrange(
                0,
                field_end(string_views(descriptions@)[j], 0),
            ) != signed_decimal(number),
        decreases descriptions.len() - k,
    {
        let chars = chars_of(descriptions[k].as_str());
        assert(string_views(descriptions@)[k as int] == chars@);
        let end = find_field_end(&chars, 0);
        if chars_equal(&slice_chars(&chars, 0, end), &wanted) {
            return true;
        }
        k = k + 1;
    }
    false
}

/// The description a local instrument is listed under: its number, and the
/// folder holding the instruments' library after a `;` when one is given.
pub open spec fn local_entry(number: i32, library: Seq<char>) -> Seq<char> {
    if trimmed(library).len() == 0 {
        signed_decimal(number)
    } else {
        signed_decimal(number) + seq![';'] + trimmed(library)
    }
}

/// Writes a local instrument's description.
pub fn local_entry_description(number: i32, library: &str) -> (description: String)
    ensures
        description@ == local_entry(number, library@),
{
    let folder = trim_chars(&chars_of(library));
    let mut text = signed_decimal_chars(number);
    if folder.len() > 0 {
        let ghost head = text@;
        text.push(';');
        append_chars(&mut text, &folder);
        assert(text@ =~= head + seq![';'] + folder@);
    }
    string_of(&text)
}

/// What a job's `RUN` line launches: the first word as the program and the
/// rest as its arguments; a line with no words is an error.
pub fn launch_plan(command_line: &str) -> (plan: Result<(String, Vec<String>), String>)
    ensures
        command_words_of(command_line@).len() == 0 ==> (plan matches Err(message)
            && message@ == "an empty command line"@),
        command_words_of(command_line@).len() > 0 ==> (plan matches Ok((program, arguments)) && {
            &&& program@ == command_words_of(command_line@)[0]
            &&& string_views(arguments@) == command_words_of(command_line@).drop_first()
        }),
{
    let words = command_words(command_line);
    if words.len() == 0 {
        proof {
            reveal_strlit("an empty command line");
        }
        return Err(String::from_str("an empty command line"));
    }
    let program = words[0].clone();
    let mut arguments: Vec<String> = Vec::new();
    let mut i: usize = 1;
    while i < words.len()
        invariant
            1 <= i <= words@.len(),
            arguments@.len() == i - 1,
            string_views(arguments@) == string_views(words@).subrange(1, i as int),
        decreases words.len() - i,
    {
        let ghost before = arguments@;
        arguments.push(words[i].clone());
        assert forall|k: int| 0 <= k < i - 1 implies arguments@[k] == before[k] by {}
        assert(string_views(arguments@) =~= string_views(words@).subrange(1, i + 1));
        i = i + 1;
    }
    assert(string_views(words@).subrange(1, words@.len() as int) =~= string_views(words@).drop_first());
    Ok((program, arguments))
}


/// Whether `a` and `b` are one letter in two ASCII cases, or the same
/// character.
pub open spec fn same_letter(a: char, b: char) -> bool {
    ||| a == b
    ||| ('a' <= a && a <= 'z' && (b as int) == (a as int) - 32)
    ||| ('A' <= a && a <= 'Z' && (b as int) == (a as int) + 32)
}

/// Whether `e` is the three letters `x`, `y`, `z` in any mix of cases.
pub open spec fn spelled(e: Seq<char>, x: char, y: char, z: char) -> bool {
    e.len() == 3 && same_letter(x, e[0]) && same_letter(y, e[1]) && same_letter(z, e[2])
}

proof fn lemma_ascii_lower_same(a: char, b: char)
    requires
        same_letter(a, b),
    ensures
        ascii_lower(a) == ascii_lower(b),
{
    if a != b {
        if 'a' <= a && a <= 'z' {
            assert(ascii_lower(b) as int == a as int);
        } else {
            assert(ascii_lower(a) as int == b as int);
        }
    }
}

proof fn lemma_ascii_lower_of_letter(c: char, x: char)
    requires
        'a' <= x && x <= 'z',
        ascii_lower(c) == x,
    ensures
        same_letter(x, c),
{
    if 'A' <= c && c <= 'Z' {
        assert(ascii_lower(c) as int == c as int + 32);
    }
}

/// The case of an extension's letters makes no difference: two extensions
/// that differ only in the case of ASCII letters are opened alike.
pub proof fn lemma_open_as_ignores_case(a: Seq<char>, b: Seq<char>)
    requires
        a.len() == b.len(),
        forall|i: int| 0 <= i < a.len() ==> same_letter(#[trigger] a[i], b[i]),
    ensures
        open_as(a) == open_as(b),
{
    assert forall|i: int| 0 <= i < a.len() implies ascii_lower(#[trigger] a[i]) == ascii_lower(b[i]) by {
        lemma_ascii_lower_same(a[i], b[i]);
    }
    assert(a.map_values(|c: char| ascii_lower(c)) =~= b.map_values(|c: char| ascii_lower(c)));
}

/// A job runs, a nuclide library (`.lib` or `.csv`) loads, and anything
/// else is recalled as a spectrum, whatever the case of the letters: `JOB`
/// and `Job` run, `LIB`, `Csv` and `CSV` load.
pub proof fn lemma_open_as_by_extension(e: Seq<char>)
    ensures
        spelled(e, 'j', 'o', 'b') ==> open_as(e) == OpenAs::Job,
        spelled(e, 'l', 'i', 'b') ==> open_as(e) == OpenAs::Library,
        spelled(e, 'c', 's', 'v') ==> open_as(e) == OpenAs::Library,
        !spelled(e, 'j', 'o', 'b') && !spelled(e, 'l', 'i', 'b') && !spelled(e, 'c', 's', 'v') ==> open_as(e)
            == OpenAs::Spectrum,
{
    let lower = e.map_values(|c: char| ascii_lower(c));
    if e.len() == 3 {
        let words = seq![seq!['j', 'o', 'b'], seq!['l', 'i', 'b'], seq!['c', 's', 'v']];
        assert forall|w: int| 0 <= w < 3 implies (spelled(e, words[w][0], words[w][1], words[w][2])
            <==> lower == #[trigger] words[w]) by {
            let word = words[w];
            assert(word.len() == 3);
            if spelled(e, word[0], word[1], word[2]) {
                lemma_ascii_lower_same(word[0], e[0]);
                lemma_ascii_lower_same(word[1], e[1]);
                lemma_ascii_lower_same(word[2], e[2]);
                assert(lower =~= word);
            }
            if lower == word {
                assert(lower[0] == word[0] && lower[1] == word[1] && lower[2] == word[2]);
                lemma_ascii_lower_of_letter(e[0], word[0]);
                lemma_ascii_lower_of_letter(e[1], word[1]);
                lemma_ascii_lower_of_letter(e[2], word[2]);
            }
        }
        assert(words[0] == seq!['j', 'o', 'b']);
        assert(words[1] == seq!['l', 'i', 'b']);
        assert(words[2] == seq!['c', 's', 'v']);
        assert(spelled(e, 'j', 'o', 'b') <==> lower == words[0]);
        assert(spelled(e, 'l', 'i', 'b') <==> lower == words[1]);
        assert(spelled(e, 'c', 's', 'v') <==> lower == words[2]);
    } else {
        assert(lower.len() == e.len());
        assert(lower != seq!['j', 'o', 'b']);
        assert(lower != seq!['l', 'i', 'b']);
        assert(lower != seq!['c', 's', 'v']);
    }
}

} // verus!
