//! The sample description: its reference date, to which activities are
//! decay-corrected.

use vstd::prelude::*;
use chrono::{Datelike, Timelike};

use crate::text::{chars_of, string_of, trim_chars, trimmed};

verus! {

/// A calendar date and time of day, to the minute.
#[derive(Clone, Copy, Debug, PartialEq, Eq, Structural)]
pub struct DateTime {
    pub year: i32,
    pub month: u32,
    pub day: u32,
    pub hour: u32,
    pub minute: u32,
}

/// What `chrono::NaiveDateTime::parse_from_str` reads from `text` in
/// `format`, to the minute, when it reads anything.
pub uninterp spec fn parsed_date_time(text: Seq<char>, format: Seq<char>) -> Option<DateTime>;

/// What `chrono::NaiveDate::parse_from_str` reads from `text` in `format`,
/// as year, month and day, when it reads anything.
pub uninterp spec fn parsed_date(text: Seq<char>, format: Seq<char>) -> Option<(i32, u32, u32)>;

/// How `{:?}` writes a text: quoted, with the characters that need it
/// escaped.
pub uninterp spec fn debug_text(text: Seq<char>) -> Seq<char>;

/// `chrono::NaiveDateTime::parse_from_str`: the date and time `text` holds in
/// `format`, or nothing when it does not parse. The result is named, not
/// spelled out: chrono's format language is chrono's.
#[verifier::external_body]
fn parse_date_time(text: &str, format: &str) -> (parsed: Option<DateTime>)
    ensures
        parsed == parsed_date_time(text@, format@),
{
    chrono::NaiveDateTime::parse_from_str(text, format).ok().map(|t| DateTime {
        year: t.year(),
        month: t.month(),
        day: t.day(),
        hour: t.hour(),
        minute: t.minute(),
    })
}

/// `chrono::NaiveDate::parse_from_str`: the date `text` holds in `format`,
/// or nothing when it does not parse; named like the date and time.
#[verifier::external_body]
fn parse_date(text: &str, format: &str) -> (parsed: Option<(i32, u32, u32)>)
    ensures
        parsed == parsed_date(text@, format@),
{
    chrono::NaiveDate::parse_from_str(text, format).ok().map(|d| (d.year(), d.month(), d.day()))
}

/// `str`'s `Debug` formatting (`{:?}`): the text quoted and escaped.
#[verifier::external_body]
fn debug_quoted(text: &str) -> (quoted: String)
    ensures
        quoted@ == debug_text(text@),
{
    format!("{text:?}")
}

/// The reference date from the two readings of a non-empty text: as date
/// and time when that reads, else as a date at midnight, else the message
/// naming the text (written as `quoted`) and the two accepted forms.
pub open spec fn reference_of(with_time: Option<DateTime>, date_only: Option<(i32, u32, u32)>, quoted: Seq<char>) -> Result<DateTime, Seq<char>> {
    match with_time {
        Some(moment) => Ok(moment),
        None => match date_only {
            Some((year, month, day)) => Ok(DateTime { year, month, day, hour: 0, minute: 0 }),
            None => Err(quoted + " is not YYYY-MM-DD or YYYY-MM-DD HH:MM"@),
        },
    }
}

/// The reference date typed as `text`: none for blank text, otherwise the
/// text without surrounding white space read as `YYYY-MM-DD HH:MM`, or as
/// `YYYY-MM-DD` at midnight, or an error.
pub open spec fn reference_date_of(text: Seq<char>) -> Result<Option<DateTime>, Seq<char>> {
    let t = trimmed(text);
    if t.len() == 0 {
        Ok(None)
    } else {
        match reference_of(parsed_date_time(t, "%Y-%m-%d %H:%M"@), parsed_date(t, "%Y-%m-%d"@), debug_text(t)) {
            Ok(moment) => Ok(Some(moment)),
            Err(message) => Err(message),
        }
    }
}

/// Decides the reference date from the two readings of the text.
pub fn reference_from(with_time: Option<DateTime>, date_only: Option<(i32, u32, u32)>, quoted: &str) -> (reference: Result<DateTime, String>)
    ensures
        match reference {
            Ok(moment) => reference_of(with_time, date_only, quoted@) == Ok::<DateTime, Seq<char>>(moment),
            Err(message) => reference_of(with_time, date_only, quoted@) == Err::<DateTime, Seq<char>>(message@),
        },
{
    match with_time {
        Some(moment) => Ok(moment),
        None => match date_only {
            Some((year, month, day)) => Ok(DateTime { year, month, day, hour: 0, minute: 0 }),
            None => {
                let mut message = String::from_str(quoted);
                message.append(" is not YYYY-MM-DD or YYYY-MM-DD HH:MM");
                proof {
                    reveal_strlit(" is not YYYY-MM-DD or YYYY-MM-DD HH:MM");
                }
                Err(message)
            },
        },
    }
}

/// Reads a typed reference date (Sample Description): blank clears it;
/// `YYYY-MM-DD HH:MM` or `YYYY-MM-DD` (midnight) sets it; anything else is
/// refused with a message.
pub fn reference_date(text: &str) -> (reference: Result<Option<DateTime>, String>)
    ensures
        match reference {
            Ok(moment) => reference_date_of(text@) == Ok::<Option<DateTime>, Seq<char>>(moment),
            Err(message) => reference_date_of(text@) == Err::<Option<DateTime>, Seq<char>>(message@),
        },
{
    let t = string_of(&trim_chars(&chars_of(text)));
    if t.as_str().unicode_len() == 0 {
        return Ok(None);
    }
    proof {
        reveal_strlit("%Y-%m-%d %H:%M");
        reveal_strlit("%Y-%m-%d");
    }
    let with_time = parse_date_time(t.as_str(), "%Y-%m-%d %H:%M");
    let date_only = match with_time {
        Some(_) => None,
        None => parse_date(t.as_str(), "%Y-%m-%d"),
    };
    match reference_from(with_time, date_only, debug_quoted(t.as_str()).as_str()) {
        Ok(moment) => Ok(Some(moment)),
        Err(message) => Err(message),
    }
}

} // verus!
