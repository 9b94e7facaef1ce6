//! Which recordings a run works on, and which files it offers to remove
//! afterwards.
//!
//! The recordings are either named one by one, or looked up in a directory:
//! the recordings of one day are called after the day, as in
//! `2024-03-09-ride.fit`. Every file that such a search finds is worked on.

use crate::paths::{path_within, within};
use crate::text::{decimal, two_digits};
use vstd::prelude::*;

verus! {

/// What a run works on.
#[derive(Debug, Clone, PartialEq, Eq)]
pub enum Selection {
    /// The recordings of one day, looked up in the directory `location`.
    Search { location: String },
    /// The recordings that were named, in the order they were named in.
    Files { files: Vec<String> },
}

/// The selection that the two ways to ask for recordings give: a directory to
/// search takes precedence over named files, and with neither nothing is
/// selected.
pub open spec fn selection_of(location: Option<String>, files: Vec<String>) -> Option<Selection> {
    match location {
        Some(location) => Some(Selection::Search { location }),
        None => if files@.len() == 0 {
            None
        } else {
            Some(Selection::Files { files })
        },
    }
}

/// The recordings that a run works on, where `found` is what the search of
/// the directory found, if one was made: every file that was found, or every
/// file that was named, in their order, and none where nothing is selected.
pub open spec fn selected_files(selection: Option<Selection>, found: Seq<String>) -> Seq<String> {
    match selection {
        Some(Selection::Search { location }) => found,
        Some(Selection::Files { files }) => files@,
        None => Seq::empty(),
    }
}

/// Whether the year is a leap year of the Gregorian calendar, in which the
/// year before the year 1 is the year 0.
pub open spec fn is_leap_year(year: int) -> bool {
    year % 4 == 0 && (year % 100 != 0 || year % 400 == 0)
}

/// The number of days of a month.
pub open spec fn days_in_month(year: int, month: int) -> int {
    if month == 2 {
        if is_leap_year(year) {
            29
        } else {
            28
        }
    } else if month == 4 || month == 6 || month == 9 || month == 11 {
        30
    } else {
        31
    }
}

/// Whether the day exists in the calendar and its year is one of those that
/// a date can hold.
pub open spec fn is_date(year: int, month: int, day: int) -> bool {
    &&& -262143 <= year <= 262142
    &&& 1 <= month <= 12
    &&& 1 <= day <= days_in_month(year, month)
}

/// A year without its sign, with four digits at least.
pub open spec fn year_digits(year: nat) -> Seq<char> {
    if year <= 9999 {
        two_digits(year / 100) + two_digits(year % 100)
    } else {
        decimal(year)
    }
}

/// A year as a date writes it: four digits for the years 0 to 9999, and with
/// its sign for any other.
pub open spec fn year_text(year: int) -> Seq<char> {
    if 0 <= year <= 9999 {
        year_digits(year as nat)
    } else if year > 0 {
        seq!['+'] + year_digits(year as nat)
    } else {
        seq!['-'] + year_digits((-year) as nat)
    }
}

/// A date as it is written in the name of a recording: year, month and day
/// with hyphens between them.
pub open spec fn date_text(year: int, month: int, day: int) -> Seq<char> {
    year_text(year) + seq!['-'] + two_digits(month as nat) + seq!['-'] + two_digits(day as nat)
}

/// What follows the date in the pattern for the recordings of a day.
pub open spec fn pattern_tail() -> Seq<char> {
    seq!['-', '*', '.', 'f', 'i', 't']
}

/// The pattern for the recordings of the day written `date` in `location`.
pub open spec fn search_pattern_of(location: Seq<char>, date: Seq<char>) -> Seq<char> {
    within(location, date + pattern_tail())
}

/// Decides what a run works on.
pub fn resolve_selection(location: Option<String>, files: Vec<String>) -> (selection: Option<
    Selection,
>)
    ensures
        selection == selection_of(location, files),
        selection is None <==> location is None && files@.len() == 0,
{
    match location {
        Some(location) => Some(Selection::Search { location }),
        None => if files.len() == 0 {
            None
        } else {
            Some(Selection::Files { files })
        },
    }
}

/// The recordings that a run works on; `found` is what the search of the
/// directory found, and counts only where a directory is searched.
pub fn files_of(selection: Option<Selection>, found: Vec<String>) -> (files: Vec<String>)
    ensures
        files@ == selected_files(selection, found@),
        selection is None ==> files@.len() == 0,
        selection is Some && selection->0 is Search ==> files@ == found@,
{
    match selection {
        Some(Selection::Search { location: _ }) => found,
        Some(Selection::Files { files }) => files,
        None => Vec::new(),
    }
}

/// The pattern for the recordings of the day written `date` in `location`.
pub fn search_pattern(location: &str, date: &str) -> (pattern: String)
    ensures
        pattern@ == search_pattern_of(location@, date@),
{
    proof {
        reveal_strlit("-*.fit");
    }
    assert("-*.fit"@ =~= pattern_tail());
    let mut name = String::from_str(date);
    name.append("-*.fit");
    path_within(location, name.as_str())
}

/// Writes a date of the calendar: `chrono::NaiveDate::from_ymd_opt`, which
/// makes the date, and the date's `Display`. There is a date for the days
/// that exist in the Gregorian calendar, extended to the years before it,
/// from the year -262143 to the year 262142. It is written as year, month
/// and day with hyphens between them, month and day with two digits, the
/// year with four if it is one of 0 to 9999, and else with its sign and at
/// least four digits.
#[verifier::external_body]
fn calendar_date_text(year: i32, month: u32, day: u32) -> (text: Option<String>)
    ensures
        text is Some <==> is_date(year as int, month as int, day as int),
        text matches Some(t) ==> t@ == date_text(year as int, month as int, day as int),
{
    match chrono::NaiveDate::from_ymd_opt(year, month, day) {
        Some(date) => Some(date.to_string()),
        None => None,
    }
}

/// The pattern for the recordings of a day in `location`; `None` where the
/// calendar has no such day.
pub fn search_pattern_on(location: &str, year: i32, month: u32, day: u32) -> (pattern: Option<
    String,
>)
    ensures
        pattern is Some <==> is_date(year as int, month as int, day as int),
        pattern matches Some(p) ==> p@ == search_pattern_of(
            location@,
            date_text(year as int, month as int, day as int),
        ),
{
    match calendar_date_text(year, month, day) {
        Some(date) => Some(search_pattern(location, date.as_str())),
        None => None,
    }
}

/// The files that a run offers to remove once it is done: the corrected
/// copies and then the recordings, where removal was asked for and there was
/// a recording at all; `None` otherwise.
pub fn cleanup_candidates(cleanup: bool, outputs: Vec<String>, inputs: Vec<String>) -> (offered:
    Option<Vec<String>>)
    ensures
        offered is Some <==> cleanup && inputs@.len() > 0,
        offered matches Some(all) ==> all@ == outputs@ + inputs@,
{
    if cleanup && inputs.len() > 0 {
        let mut all = outputs;
        let mut rest = inputs;
        all.append(&mut rest);
        Some(all)
    } else {
        None
    }
}

/// With neither a directory nor a named file, a run works on no recording,
/// whatever a search would have found.
pub proof fn lemma_nothing_selected(location: Option<String>, files: Vec<String>, found: Seq<String>)
    requires
        location is None,
        files@.len() == 0,
    ensures
        selection_of(location, files) is None,
        selected_files(selection_of(location, files), found).len() == 0,
{
}

/// A search hands on every file it found, once each and in the order it
/// found them; named files are handed on as they were named.
pub proof fn lemma_selection_keeps_every_file(
    location: Option<String>,
    files: Vec<String>,
    found: Seq<String>,
)
    ensures
        location is Some ==> selected_files(selection_of(location, files), found) == found,
        location is None ==> selected_files(selection_of(location, files), found) == files@,
{
    if location is None && files@.len() == 0 {
        assert(files@ =~= Seq::<String>::empty());
    }
}

} // verus!
