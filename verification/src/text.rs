//! Text as sequences of characters: trimming, decimal numbers, and the
//! conversions between strings and character vectors.

use vstd::prelude::*;

verus! {

/// Appends one character to a string: `String::push`.
#[verifier::external_body]
fn push_char(text: &mut String, c: char)
    ensures
        final(text)@ == old(text)@.push(c),
{
    text.push(c);
}

/// The characters of a string slice, in order.
pub(crate) fn chars_of(text: &str) -> (chars: Vec<char>)
    ensures
        chars@ == text@,
{
    let n = text.unicode_len();
    let mut chars: Vec<char> = Vec::new();
    let mut i: usize = 0;
    while i < n
        invariant
            i <= n,
            n == text@.len(),
            chars@ == text@.subrange(0, i as int),
        decreases n - i,
    {
        chars.push(text.get_char(i));
        i = i + 1;
    }
    assert(chars@ =~= text@);
    chars
}

/// A string holding exactly the given characters.
pub(crate) fn string_of(chars: &Vec<char>) -> (text: String)
    ensures
        text@ == chars@,
{
    let mut text = String::new();
    let mut i: usize = 0;
    while i < chars.len()
        invariant
            i <= chars@.len(),
            text@ == chars@.subrange(0, i as int),
        decreases chars.len() - i,
    {
        push_char(&mut text, chars[i]);
        assert(text@ =~= chars@.subrange(0, i + 1));
        i = i + 1;
    }
    assert(text@ =~= chars@);
    text
}

/// What `str::to_lowercase` gives for a text.
pub uninterp spec fn lowercase_of(text: Seq<char>) -> Seq<char>;

/// `str::to_lowercase`: the text with every character in its Unicode lower
/// case. Its result is named, not spelled out: the Unicode case tables are
/// std's.
#[verifier::external_body]
pub(crate) fn to_lowercase(text: &str) -> (lower: String)
    ensures
        lower@ == lowercase_of(text@),
{
    text.to_lowercase()
}

/// Whether `needle` occurs in `haystack` as a run of consecutive
/// characters.
pub open spec fn has_substring(haystack: Seq<char>, needle: Seq<char>) -> bool {
    exists|i: int| 0 <= i <= haystack.len() - needle.len()
        && #[trigger] haystack.subrange(i, i + needle.len()) == needle
}

/// Whether `needle` occurs in `haystack`.
pub fn contains_chars(haystack: &Vec<char>, needle: &Vec<char>) -> (found: bool)
    ensures
        found == has_substring(haystack@, needle@),
{
    if needle.len() > haystack.len() {
        return false;
    }
    let size = haystack.len();
    let last = size - needle.len();
    let mut i: usize = 0;
    loop
        invariant
            size == haystack@.len(),
            needle@.len() <= haystack@.len(),
            last == haystack@.len() - needle@.len(),
            i <= last,
            forall|j: int| 0 <= j < i ==> #[trigger] haystack@.subrange(j, j + needle@.len()) != needle@,
        decreases last - i,
    {
        let mut k: usize = 0;
        let mut same = true;
        while same && k < needle.len()
            invariant
                size == haystack@.len(),
                needle@.len() <= haystack@.len(),
                i <= last,
                last == haystack@.len() - needle@.len(),
                k <= needle@.len(),
                forall|m: int| 0 <= m < k ==> haystack@[i + m] == needle@[m],
                !same ==> k < needle@.len() && haystack@[i + k] != needle@[k as int],
            decreases 2 * (needle@.len() - k) + if same { 1int } else { 0int },
        {
            if haystack[i + k] == needle[k] {
                k = k + 1;
            } else {
                same = false;
            }
        }
        if same {
            assert(haystack@.subrange(i as int, i + needle@.len()) =~= needle@);
            return true;
        }
        assert(haystack@.subrange(i as int, i + needle@.len())[k as int] != needle@[k as int]);
        if i == last {
            return false;
        }
        i = i + 1;
    }
}

/// Unicode's White_Space characters, the set `char::is_whitespace` and
/// `str::trim` go by.
pub open spec fn is_space(c: char) -> bool {
    ||| ('\u{9}' <= c && c <= '\u{d}')
    ||| c == ' '
    ||| c == '\u{85}'
    ||| c == '\u{a0}'
    ||| c == '\u{1680}'
    ||| ('\u{2000}' <= c && c <= '\u{200a}')
    ||| c == '\u{2028}'
    ||| c == '\u{2029}'
    ||| c == '\u{202f}'
    ||| c == '\u{205f}'
    ||| c == '\u{3000}'
}

pub fn char_is_space(c: char) -> (space: bool)
    ensures
        space == is_space(c),
{
    ('\u{9}' <= c && c <= '\u{d}') || c == ' ' || c == '\u{85}' || c == '\u{a0}' || c
        == '\u{1680}' || ('\u{2000}' <= c && c <= '\u{200a}') || c == '\u{2028}' || c
        == '\u{2029}' || c == '\u{202f}' || c == '\u{205f}' || c == '\u{3000}'
}

/// Index of the first character that is not white space, or the length.
pub open spec fn trim_start_index(s: Seq<char>) -> int
    decreases s.len(),
{
    if s.len() == 0 || !is_space(s[0]) {
        0
    } else {
        1 + trim_start_index(s.drop_first())
    }
}

/// Index one past the last character that is not white space, or zero.
pub open spec fn trim_end_index(s: Seq<char>) -> int
    decreases s.len(),
{
    if s.len() == 0 || !is_space(s.last()) {
        s.len() as int
    } else {
        trim_end_index(s.drop_last())
    }
}

/// `s` without leading and trailing white space.
pub open spec fn trimmed(s: Seq<char>) -> Seq<char> {
    let start = trim_start_index(s);
    let end = trim_end_index(s);
    if start >= end {
        Seq::empty()
    } else {
        s.subrange(start, end)
    }
}

proof fn lemma_trim_start_index(s: Seq<char>)
    ensures
        0 <= trim_start_index(s) <= s.len(),
        forall|i: int| 0 <= i < trim_start_index(s) ==> is_space(#[trigger] s[i]),
        trim_start_index(s) < s.len() ==> !is_space(s[trim_start_index(s)]),
    decreases s.len(),
{
    if s.len() > 0 && is_space(s[0]) {
        lemma_trim_start_index(s.drop_first());
        assert forall|i: int| 0 <= i < trim_start_index(s) implies is_space(#[trigger] s[i]) by {
            if i > 0 {
                assert(s[i] == s.drop_first()[i - 1]);
            }
        }
    }
}

proof fn lemma_trim_end_index(s: Seq<char>)
    ensures
        0 <= trim_end_index(s) <= s.len(),
        forall|i: int| trim_end_index(s) <= i < s.len() ==> is_space(#[trigger] s[i]),
        trim_end_index(s) > 0 ==> !is_space(s[trim_end_index(s) - 1]),
    decreases s.len(),
{
    if s.len() > 0 && is_space(s.last()) {
        lemma_trim_end_index(s.drop_last());
        assert forall|i: int| trim_end_index(s) <= i < s.len() implies is_space(#[trigger] s[i]) by {
            if i < s.len() - 1 {
                assert(s[i] == s.drop_last()[i]);
            }
        }
    }
}

/// The bounds `trimmed` cuts at, found by scanning from both ends.
pub fn trim_bounds(s: &Vec<char>) -> (bounds: (usize, usize))
    ensures
        bounds.0 == trim_start_index(s@),
        bounds.1 == trim_end_index(s@),
        bounds.0 <= s@.len(),
        bounds.1 <= s@.len(),
{
    proof {
        lemma_trim_start_index(s@);
        lemma_trim_end_index(s@);
    }
    let mut start: usize = 0;
    while start < s.len() && char_is_space(s[start])
        invariant
            start <= s@.len(),
            start <= trim_start_index(s@),
            forall|i: int| 0 <= i < start ==> is_space(#[trigger] s@[i]),
            0 <= trim_start_index(s@) <= s@.len(),
            forall|i: int| 0 <= i < trim_start_index(s@) ==> is_space(#[trigger] s@[i]),
            trim_start_index(s@) < s@.len() ==> !is_space(s@[trim_start_index(s@)]),
        decreases s.len() - start,
    {
        start = start + 1;
    }
    let mut end: usize = s.len();
    while end > 0 && char_is_space(s[end - 1])
        invariant
            end <= s@.len(),
            end >= trim_end_index(s@),
            0 <= trim_end_index(s@) <= s@.len(),
            forall|i: int| trim_end_index(s@) <= i < s@.len() ==> is_space(#[trigger] s@[i]),
            trim_end_index(s@) > 0 ==> !is_space(s@[trim_end_index(s@) - 1]),
        decreases end,
    {
        end = end - 1;
    }
    (start, end)
}

/// The characters of `s` from `from` up to (not including) `to`.
pub fn slice_chars(s: &Vec<char>, from: usize, to: usize) -> (part: Vec<char>)
    requires
        from <= to <= s@.len(),
    ensures
        part@ == s@.subrange(from as int, to as int),
{
    let mut part: Vec<char> = Vec::new();
    let mut i = from;
    while i < to
        invariant
            from <= i <= to <= s@.len(),
            part@ == s@.subrange(from as int, i as int),
        decreases to - i,
    {
        part.push(s[i]);
        i = i + 1;
    }
    part
}

/// `s` without leading and trailing white space.
pub fn trim_chars(s: &Vec<char>) -> (t: Vec<char>)
    ensures
        t@ == trimmed(s@),
{
    let (start, end) = trim_bounds(s);
    if start >= end {
        return Vec::new();
    }
    slice_chars(s, start, end)
}

/// Whether two character sequences are equal.
pub fn chars_equal(a: &Vec<char>, b: &Vec<char>) -> (same: bool)
    ensures
        same == (a@ == b@),
{
    if a.len() != b.len() {
        return false;
    }
    let mut i: usize = 0;
    while i < a.len()
        invariant
            a@.len() == b@.len(),
            i <= a@.len(),
            forall|j: int| 0 <= j < i ==> a@[j] == b@[j],
        decreases a.len() - i,
    {
        if a[i] != b[i] {
            return false;
        }
        i = i + 1;
    }
    assert(a@ =~= b@);
    true
}

/// Whether `s` begins with `prefix`.
pub open spec fn starts_with(s: Seq<char>, prefix: Seq<char>) -> bool {
    prefix.len() <= s.len() && s.subrange(0, prefix.len() as int) == prefix
}

pub fn chars_start_with(s: &Vec<char>, prefix: &Vec<char>) -> (found: bool)
    ensures
        found == starts_with(s@, prefix@),
{
    if prefix.len() > s.len() {
        return false;
    }
    let mut i: usize = 0;
    while i < prefix.len()
        invariant
            prefix@.len() <= s@.len(),
            i <= prefix@.len(),
            forall|j: int| 0 <= j < i ==> s@[j] == prefix@[j],
        decreases prefix.len() - i,
    {
        if s[i] != prefix[i] {
            assert(s@.subrange(0, prefix@.len() as int)[i as int] != prefix@[i as int]);
            return false;
        }
        i = i + 1;
    }
    assert(s@.subrange(0, prefix@.len() as int) =~= prefix@);
    true
}

/// Whether `c` is an ASCII decimal digit.
pub open spec fn is_digit(c: char) -> bool {
    '0' <= c && c <= '9'
}

/// The value of a digit character.
pub open spec fn digit_value(c: char) -> nat {
    (c as int - '0' as int) as nat
}

/// The value of a string of decimal digits, read left to right.
pub open spec fn decimal_value(digits: Seq<char>) -> nat
    decreases digits.len(),
{
    if digits.len() == 0 {
        0
    } else {
        10 * decimal_value(digits.drop_last()) + digit_value(digits.last())
    }
}

/// Whether every character of `s` is a decimal digit.
pub open spec fn all_digits(s: Seq<char>) -> bool {
    forall|i: int| 0 <= i < s.len() ==> is_digit(#[trigger] s[i])
}

/// What `i32::from_str` gives for `s`: an optional sign, then one or more
/// decimal digits, whose value must fit in an `i32`.
pub open spec fn parsed_i32(s: Seq<char>) -> Option<i32> {
    let negative = s.len() > 0 && s[0] == '-';
    let signed = s.len() > 0 && (s[0] == '-' || s[0] == '+');
    let digits = if signed {
        s.drop_first()
    } else {
        s
    };
    if digits.len() == 0 || !all_digits(digits) {
        None
    } else {
        let value: int = if negative {
            -(decimal_value(digits) as int)
        } else {
            decimal_value(digits) as int
        };
        if i32::MIN <= value <= i32::MAX {
            Some(value as i32)
        } else {
            None
        }
    }
}

/// Reads an `i32` the way `str::parse::<i32>` does.
pub fn parse_i32(s: &Vec<char>) -> (value: Option<i32>)
    ensures
        value == parsed_i32(s@),
{
    let negative = s.len() > 0 && s[0] == '-';
    let signed = s.len() > 0 && (s[0] == '-' || s[0] == '+');
    let first: usize = if signed {
        1
    } else {
        0
    };
    let ghost digits = if signed {
        s@.drop_first()
    } else {
        s@
    };
    assert(digits =~= s@.subrange(first as int, s@.len() as int));
    if first >= s.len() {
        return None;
    }
    // The magnitude is followed while it can still fit; once it passes
    // 2^31 no sign can bring it back, but every character must still be a
    // digit for the answer to be "out of range" rather than "not a number".
    let mut magnitude: i64 = 0;
    let mut overflowed = false;
    let mut i = first;
    while i < s.len()
        invariant
            first <= i <= s@.len(),
            first < s@.len(),
            signed == (s@.len() > 0 && (s@[0] == '-' || s@[0] == '+')),
            negative == (s@.len() > 0 && s@[0] == '-'),
            first == (if signed { 1usize } else { 0usize }),
            digits == (if signed { s@.drop_first() } else { s@ }),
            digits == s@.subrange(first as int, s@.len() as int),
            all_digits(s@.subrange(first as int, i as int)),
            !overflowed ==> magnitude == decimal_value(s@.subrange(first as int, i as int)),
            !overflowed ==> 0 <= magnitude <= 2147483648,
            overflowed ==> decimal_value(s@.subrange(first as int, i as int)) > 2147483648,
        decreases s.len() - i,
    {
        let c = s[i];
        if !('0' <= c && c <= '9') {
            assert(digits[i - first] == c);
            assert(!is_digit(digits[i - first]));
            assert(!all_digits(digits));
            return None;
        }
        let ghost before = s@.subrange(first as int, i as int);
        let ghost after = s@.subrange(first as int, i + 1);
        assert(after.drop_last() =~= before);
        assert(after.last() == c);
        assert(all_digits(after)) by {
            assert forall|j: int| 0 <= j < after.len() implies is_digit(#[trigger] after[j]) by {
                if j < before.len() {
                    assert(after[j] == before[j]);
                }
            }
        }
        if !overflowed {
            let next = magnitude * 10 + (c as i64 - '0' as i64);
            if next > 2147483648 {
                overflowed = true;
            } else {
                magnitude = next;
            }
        } else {
            assert(decimal_value(after) >= decimal_value(before));
        }
        i = i + 1;
    }
    assert(s@.subrange(first as int, s@.len() as int) == digits);
    if overflowed {
        return None;
    }
    let value: i64 = if negative {
        -magnitude
    } else {
        magnitude
    };
    if value < -2147483648 || value > 2147483647 {
        None
    } else {
        Some(value as i32)
    }
}

/// The decimal digits of `n`, without leading zeros ("0" for zero).
pub open spec fn decimal_digits(n: nat) -> Seq<char>
    decreases n,
{
    if n < 10 {
        seq![(('0' as int) + n) as char]
    } else {
        decimal_digits(n / 10).push(((('0' as int) + (n % 10)) as char))
    }
}

/// `n` in decimal, padded with leading zeros to at least `width` characters.
pub open spec fn padded_decimal(n: nat, width: nat) -> Seq<char> {
    let digits = decimal_digits(n);
    if digits.len() >= width {
        digits
    } else {
        Seq::new((width - digits.len()) as nat, |_i: int| '0') + digits
    }
}

/// The decimal digits of `n`.
pub fn decimal_chars(n: u64) -> (digits: Vec<char>)
    ensures
        digits@ == decimal_digits(n as nat),
    decreases n,
{
    if n < 10 {
        let c = digit_char(n);
        let mut digits: Vec<char> = Vec::new();
        digits.push(c);
        assert(digits@ =~= decimal_digits(n as nat));
        digits
    } else {
        let mut digits = decimal_chars(n / 10);
        digits.push(digit_char(n % 10));
        digits
    }
}

fn digit_char(d: u64) -> (c: char)
    requires
        d < 10,
    ensures
        c == (('0' as int) + d) as char,
{
    if d == 0 {
        '0'
    } else if d == 1 {
        '1'
    } else if d == 2 {
        '2'
    } else if d == 3 {
        '3'
    } else if d == 4 {
        '4'
    } else if d == 5 {
        '5'
    } else if d == 6 {
        '6'
    } else if d == 7 {
        '7'
    } else if d == 8 {
        '8'
    } else {
        '9'
    }
}

/// `n` in decimal, zero-padded to at least `width` characters.
pub fn padded_decimal_chars(n: u64, width: usize) -> (digits: Vec<char>)
    ensures
        digits@ == padded_decimal(n as nat, width as nat),
{
    let plain = decimal_chars(n);
    if plain.len() >= width {
        return plain;
    }
    let zeros = width - plain.len();
    let mut digits: Vec<char> = Vec::new();
    let mut i: usize = 0;
    while i < zeros
        invariant
            i <= zeros,
            digits@ == Seq::new(i as nat, |_j: int| '0'),
        decreases zeros - i,
    {
        digits.push('0');
        i = i + 1;
        assert(digits@ =~= Seq::new(i as nat, |_j: int| '0'));
    }
    let mut k: usize = 0;
    let ghost front = digits@;
    while k < plain.len()
        invariant
            k <= plain@.len(),
            front == Seq::new(zeros as nat, |_j: int| '0'),
            digits@ == front + plain@.subrange(0, k as int),
        decreases plain.len() - k,
    {
        digits.push(plain[k]);
        k = k + 1;
        assert(digits@ =~= front + plain@.subrange(0, k as int));
    }
    assert(plain@.subrange(0, plain@.len() as int) =~= plain@);
    digits
}

/// `n` in decimal with a minus sign when negative, as `i32`'s `Display`
/// writes it.
pub open spec fn signed_decimal(n: i32) -> Seq<char> {
    if n < 0 {
        seq!['-'] + decimal_digits((-(n as int)) as nat)
    } else {
        decimal_digits(n as nat)
    }
}

pub fn signed_decimal_chars(n: i32) -> (digits: Vec<char>)
    ensures
        digits@ == signed_decimal(n),
{
    if n < 0 {
        let magnitude: u64 = (-(n as i64)) as u64;
        let plain = decimal_chars(magnitude);
        let mut digits: Vec<char> = Vec::new();
        digits.push('-');
        let mut k: usize = 0;
        while k < plain.len()
            invariant
                k <= plain@.len(),
                digits@ == seq!['-'] + plain@.subrange(0, k as int),
            decreases plain.len() - k,
        {
            digits.push(plain[k]);
            k = k + 1;
            assert(digits@ =~= seq!['-'] + plain@.subrange(0, k as int));
        }
        assert(plain@.subrange(0, plain@.len() as int) =~= plain@);
        digits
    } else {
        decimal_chars(n as u64)
    }
}

/// Appends the characters of `tail` to `head`.
pub fn append_chars(head: &mut Vec<char>, tail: &Vec<char>)
    ensures
        final(head)@ == old(head)@ + tail@,
{
    let mut k: usize = 0;
    let ghost start = head@;
    while k < tail.len()
        invariant
            k <= tail@.len(),
            head@ == start + tail@.subrange(0, k as int),
        decreases tail.len() - k,
    {
        head.push(tail[k]);
        k = k + 1;
        assert(head@ =~= start + tail@.subrange(0, k as int));
    }
    assert(tail@.subrange(0, tail@.len() as int) =~= tail@);
}

} // verus!
