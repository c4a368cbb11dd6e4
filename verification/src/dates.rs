//! Resolving one creation date from raw date texts.
//!
//! A text is tried against an ordered cascade of formats, and the first
//! format that accepts it gives the date. Several texts for one file are
//! each tried on their own; which of the accepted ones is kept is a named
//! policy, `DATE_PRECEDENCE`.

use crate::calendar::{
    by_text, naive_reading, read_naive, read_rfc2822, read_rfc3339, render, rendering,
    rfc2822_reading, rfc3339_reading,
};
use crate::text::text_of;
use vstd::prelude::*;
use vstd::string::StrSliceExecFns;
use vstd::string::StringExecFns;

verus! {

/// A point in time with an explicit offset from UTC.
#[derive(Clone, Copy, Debug, PartialEq, Eq, Structural, Hash)]
pub struct Timestamp {
    /// Seconds since 1970-01-01T00:00:00 UTC, leap seconds not counted.
    pub secs: i64,
    /// Nanoseconds within the second; a leap second shows as 1_000_000_000 or more.
    pub nanos: u32,
    /// Local time minus UTC, in seconds.
    pub offset: i32,
}

impl Timestamp {
    /// The timestamp in words, as it is written into a file, for example
    /// `2023-06-15 10:20:30 +02:00`; `None` for parts that name no date.
    pub open spec fn text(self) -> Option<Seq<char>> {
        rendering(self.secs, self.nanos, self.offset)
    }

    /// Puts the timestamp into words.
    pub fn to_text(&self) -> (r: Option<String>)
        ensures
            text_of(r) == self.text(),
    {
        render(self.secs, self.nanos, self.offset)
    }
}

/// The offset given to a text that names none: UTC.
pub const DEFAULT_OFFSET: i32 = 0;

/// A format of the cascade.
#[derive(Clone, Copy, Debug, PartialEq, Eq, Structural, Hash)]
pub enum DateFormat {
    /// Internet timestamp with a numeric offset, `2023-06-15T10:20:30+02:00`.
    Rfc3339,
    /// Email timestamp with a named or numeric offset, `Wed, 02 Mar 2022 22:37:46 +0000`.
    Rfc2822,
    /// Date and time without offset, `2022-03-02T22:37:46`.
    DateTime,
    /// Date and time as cameras write them, `2022:03:02 22:37:46`.
    CameraDateTime,
    /// Date with hour and minute, `2022-03-02T22:37`.
    DateHourMinute,
    /// Date alone, `2022-03-02`.
    DateOnly,
    /// Year and month, `2022-03`.
    YearMonth,
    /// Year alone, `2022`.
    YearOnly,
}

/// The cascade: the formats in the order in which a text is tried.
pub open spec fn cascade() -> Seq<DateFormat> {
    seq![
        DateFormat::Rfc3339,
        DateFormat::Rfc2822,
        DateFormat::DateTime,
        DateFormat::CameraDateTime,
        DateFormat::DateHourMinute,
        DateFormat::DateOnly,
        DateFormat::YearMonth,
        DateFormat::YearOnly,
    ]
}

/// `c` is the letter `upper` or its lower-case form `lower`.
pub open spec fn is_letter(c: char, upper: char, lower: char) -> bool {
    c == upper || c == lower
}

/// The three characters spell the short name of a day of the week, in any case.
pub open spec fn is_day_name(a: char, b: char, c: char) -> bool {
    ||| (is_letter(a, 'M', 'm') && is_letter(b, 'O', 'o') && is_letter(c, 'N', 'n'))
    ||| (is_letter(a, 'T', 't') && is_letter(b, 'U', 'u') && is_letter(c, 'E', 'e'))
    ||| (is_letter(a, 'W', 'w') && is_letter(b, 'E', 'e') && is_letter(c, 'D', 'd'))
    ||| (is_letter(a, 'T', 't') && is_letter(b, 'H', 'h') && is_letter(c, 'U', 'u'))
    ||| (is_letter(a, 'F', 'f') && is_letter(b, 'R', 'r') && is_letter(c, 'I', 'i'))
    ||| (is_letter(a, 'S', 's') && is_letter(b, 'A', 'a') && is_letter(c, 'T', 't'))
    ||| (is_letter(a, 'S', 's') && is_letter(b, 'U', 'u') && is_letter(c, 'N', 'n'))
}

/// The text opens with a day name and a comma, as in `Thu, 02 Mar 2022 ...`.
pub open spec fn has_day_name(text: Seq<char>) -> bool {
    text.len() >= 4 && is_day_name(text[0], text[1], text[2]) && text[3] == ','
}

/// The text behind the day name and its comma.
pub open spec fn without_day_name(text: Seq<char>) -> Seq<char>
    recommends
        has_day_name(text),
{
    text.subrange(4, text.len() as int)
}

/// A reading with its offset, as a timestamp.
pub open spec fn with_offset(reading: Result<(i64, u32, i32), Seq<char>>) -> Result<
    Timestamp,
    Seq<char>,
> {
    match reading {
        Ok(parts) => Ok(Timestamp { secs: parts.0, nanos: parts.1, offset: parts.2 }),
        Err(detail) => Err(detail),
    }
}

/// A reading without offset, as a timestamp at the default offset.
pub open spec fn at_default_offset(reading: Result<(i64, u32), Seq<char>>) -> Result<
    Timestamp,
    Seq<char>,
> {
    match reading {
        Ok(parts) => Ok(Timestamp { secs: parts.0, nanos: parts.1, offset: DEFAULT_OFFSET }),
        Err(detail) => Err(detail),
    }
}

/// What the email format makes of a text. The text is read as it stands.
/// Where that fails and the text opens with a day name, the rest is read
/// without it, so that a day name which disagrees with the date does not
/// lose the date; if that fails too, the first failure is reported.
pub open spec fn email_outcome(text: Seq<char>) -> Result<Timestamp, Seq<char>> {
    let strict = with_offset(rfc2822_reading(text));
    if strict is Err && has_day_name(text) {
        let lenient = with_offset(rfc2822_reading(without_day_name(text)));
        if lenient is Ok {
            lenient
        } else {
            strict
        }
    } else {
        strict
    }
}

impl DateFormat {
    /// The name of the format in diagnostics.
    pub open spec fn name_text(self) -> Seq<char> {
        match self {
            DateFormat::Rfc3339 => "rfc3339"@,
            DateFormat::Rfc2822 => "rfc2822"@,
            DateFormat::DateTime => "date-time"@,
            DateFormat::CameraDateTime => "camera date-time"@,
            DateFormat::DateHourMinute => "date hour:minute"@,
            DateFormat::DateOnly => "date"@,
            DateFormat::YearMonth => "year-month"@,
            DateFormat::YearOnly => "year"@,
        }
    }

    /// The `strftime` pattern under which a text of a format without offset
    /// is read, once it is completed. The two formats with offset have none.
    pub open spec fn pattern_text(self) -> Seq<char> {
        match self {
            DateFormat::Rfc3339 | DateFormat::Rfc2822 => ""@,
            DateFormat::CameraDateTime => "%Y:%m:%d %H:%M:%S"@,
            DateFormat::DateHourMinute => "%Y-%m-%dT%H:%M"@,
            _ => "%Y-%m-%dT%H:%M:%S"@,
        }
    }

    /// What is put behind a text of partial precision before it is read: the
    /// first month, the first day, midnight.
    pub open spec fn completion_text(self) -> Seq<char> {
        match self {
            DateFormat::DateOnly => "T00:00:00"@,
            DateFormat::YearMonth => "-01T00:00:00"@,
            DateFormat::YearOnly => "-01-01T00:00:00"@,
            _ => ""@,
        }
    }

    /// What this format makes of a text: the timestamp, or why it is refused.
    pub open spec fn outcome(self, text: Seq<char>) -> Result<Timestamp, Seq<char>> {
        match self {
            DateFormat::Rfc3339 => with_offset(rfc3339_reading(text)),
            DateFormat::Rfc2822 => email_outcome(text),
            _ => at_default_offset(
                naive_reading(text + self.completion_text(), self.pattern_text()),
            ),
        }
    }

    /// The name of the format in diagnostics.
    pub fn name(self) -> (r: &'static str)
        ensures
            r@ == self.name_text(),
    {
        match self {
            DateFormat::Rfc3339 => "rfc3339",
            DateFormat::Rfc2822 => "rfc2822",
            DateFormat::DateTime => "date-time",
            DateFormat::CameraDateTime => "camera date-time",
            DateFormat::DateHourMinute => "date hour:minute",
            DateFormat::DateOnly => "date",
            DateFormat::YearMonth => "year-month",
            DateFormat::YearOnly => "year",
        }
    }

    /// The pattern of a format without offset.
    pub fn pattern(self) -> (r: &'static str)
        ensures
            r@ == self.pattern_text(),
    {
        match self {
            DateFormat::Rfc3339 | DateFormat::Rfc2822 => "",
            DateFormat::CameraDateTime => "%Y:%m:%d %H:%M:%S",
            DateFormat::DateHourMinute => "%Y-%m-%dT%H:%M",
            _ => "%Y-%m-%dT%H:%M:%S",
        }
    }

    /// The completion of a format of partial precision.
    pub fn completion(self) -> (r: &'static str)
        ensures
            r@ == self.completion_text(),
    {
        match self {
            DateFormat::DateOnly => "T00:00:00",
            DateFormat::YearMonth => "-01T00:00:00",
            DateFormat::YearOnly => "-01-01T00:00:00",
            _ => "",
        }
    }

    /// Tries one format on a text.
    pub fn read(self, text: &str) -> (r: Result<Timestamp, String>)
        ensures
            by_text(r) == self.outcome(text@),
    {
        match self {
            DateFormat::Rfc3339 => stamp(read_rfc3339(text)),
            DateFormat::Rfc2822 => read_email(text),
            _ => {
                let mut full = text.to_owned();
                full.append(self.completion());
                stamp_at_default(read_naive(full.as_str(), self.pattern()))
            },
        }
    }
}

/// A reading with its offset, as a timestamp.
pub fn stamp(reading: Result<(i64, u32, i32), String>) -> (r: Result<Timestamp, String>)
    ensures
        by_text(r) == with_offset(by_text(reading)),
{
    match reading {
        Ok(parts) => Ok(Timestamp { secs: parts.0, nanos: parts.1, offset: parts.2 }),
        Err(detail) => Err(detail),
    }
}

/// A reading without offset, as a timestamp at the default offset.
pub fn stamp_at_default(reading: Result<(i64, u32), String>) -> (r: Result<Timestamp, String>)
    ensures
        by_text(r) == at_default_offset(by_text(reading)),
{
    match reading {
        Ok(parts) => Ok(Timestamp { secs: parts.0, nanos: parts.1, offset: DEFAULT_OFFSET }),
        Err(detail) => Err(detail),
    }
}

/// Of a strict and a lenient reading of one text, the one to go by: the
/// strict one where it succeeded or both failed, else the lenient one.
pub fn prefer(strict: Result<Timestamp, String>, lenient: Result<Timestamp, String>) -> (r: Result<
    Timestamp,
    String,
>)
    ensures
        r == if strict is Err && lenient is Ok {
            lenient
        } else {
            strict
        },
{
    if strict.is_err() && lenient.is_ok() {
        lenient
    } else {
        strict
    }
}

/// `c` is the letter `upper` or its lower-case form `lower`.
fn letter(c: char, upper: char, lower: char) -> (r: bool)
    ensures
        r == is_letter(c, upper, lower),
{
    c == upper || c == lower
}

/// Says whether three characters spell the short name of a day.
fn day_name(a: char, b: char, c: char) -> (r: bool)
    ensures
        r == is_day_name(a, b, c),
{
    let mon = letter(a, 'M', 'm') && letter(b, 'O', 'o') && letter(c, 'N', 'n');
    let tue = letter(a, 'T', 't') && letter(b, 'U', 'u') && letter(c, 'E', 'e');
    let wed = letter(a, 'W', 'w') && letter(b, 'E', 'e') && letter(c, 'D', 'd');
    let thu = letter(a, 'T', 't') && letter(b, 'H', 'h') && letter(c, 'U', 'u');
    let fri = letter(a, 'F', 'f') && letter(b, 'R', 'r') && letter(c, 'I', 'i');
    let sat = letter(a, 'S', 's') && letter(b, 'A', 'a') && letter(c, 'T', 't');
    let sun = letter(a, 'S', 's') && letter(b, 'U', 'u') && letter(c, 'N', 'n');
    mon || tue || wed || thu || fri || sat || sun
}

/// Says whether a text opens with a day name and a comma.
pub fn opens_with_day_name(text: &str) -> (r: bool)
    ensures
        r == has_day_name(text@),
{
    text.unicode_len() >= 4 && day_name(text.get_char(0), text.get_char(1), text.get_char(2))
        && text.get_char(3) == ','
}

/// Tries the email format on a text, with and then without its day name.
fn read_email(text: &str) -> (r: Result<Timestamp, String>)
    ensures
        by_text(r) == email_outcome(text@),
{
    let strict = stamp(read_rfc2822(text));
    if strict.is_err() && opens_with_day_name(text) {
        let rest = text.substring_char(4, text.unicode_len());
        prefer(strict, stamp(read_rfc2822(rest)))
    } else {
        strict
    }
}

/// One format tried on a text, with what came of it.
#[derive(Debug)]
pub struct Trial {
    pub format: DateFormat,
    pub outcome: Result<Timestamp, String>,
}

/// One format that refused a text, with the reason it gave.
#[derive(Debug)]
pub struct Attempt {
    pub format: DateFormat,
    pub detail: String,
}

/// A text that no format accepted: every format tried, in the order of the
/// cascade, each with its reason.
#[derive(Debug)]
pub struct ParseError {
    pub attempts: Vec<Attempt>,
}

/// Which date is kept where several texts of one file are accepted.
#[derive(Clone, Copy, Debug, PartialEq, Eq, Structural)]
pub enum Precedence {
    /// The first accepted text in priority order.
    FirstWins,
    /// The last accepted text in priority order.
    LastWins,
}

/// The precedence in force. Last-wins is a choice, not a necessity; it is
/// kept under a name so that it can be seen, tested and changed in one place.
pub const DATE_PRECEDENCE: Precedence = Precedence::LastWins;

impl Trial {
    /// The format and the outcome, the failure by its text.
    pub open spec fn view(&self) -> (DateFormat, Result<Timestamp, Seq<char>>) {
        (self.format, by_text(self.outcome))
    }
}

impl Attempt {
    /// The format and the reason, as text.
    pub open spec fn view(&self) -> (DateFormat, Seq<char>) {
        (self.format, self.detail@)
    }
}

impl ParseError {
    /// The attempts, in order, each as format and reason.
    pub open spec fn view(&self) -> Seq<(DateFormat, Seq<char>)> {
        Seq::new(self.attempts@.len(), |i: int| self.attempts@[i]@)
    }
}

/// A run of trials, each as format and outcome.
pub open spec fn trial_views(trials: Seq<Trial>) -> Seq<
    (DateFormat, Result<Timestamp, Seq<char>>),
> {
    Seq::new(trials.len(), |i: int| trials[i]@)
}

/// The first accepted outcome of a run of outcomes, if any.
pub open spec fn first_accepted(outcomes: Seq<Result<Timestamp, Seq<char>>>) -> Option<Timestamp>
    decreases outcomes.len(),
{
    if outcomes.len() == 0 {
        None
    } else {
        match outcomes[0] {
            Ok(t) => Some(t),
            Err(_) => first_accepted(outcomes.drop_first()),
        }
    }
}

/// The trials that failed, each as format and reason. Where all failed, this
/// is the whole run.
pub open spec fn refusals(trials: Seq<(DateFormat, Result<Timestamp, Seq<char>>)>) -> Seq<
    (DateFormat, Seq<char>),
> {
    Seq::new(
        trials.len(),
        |i: int|
            (
                trials[i].0,
                match trials[i].1 {
                    Ok(_) => Seq::<char>::empty(),
                    Err(detail) => detail,
                },
            ),
    )
}

/// The outcomes of a run of trials.
pub open spec fn outcomes_of(trials: Seq<(DateFormat, Result<Timestamp, Seq<char>>)>) -> Seq<
    Result<Timestamp, Seq<char>>,
> {
    Seq::new(trials.len(), |i: int| trials[i].1)
}

/// The trials of a text: every format of the cascade with its outcome.
pub open spec fn trials_of(text: Seq<char>) -> Seq<(DateFormat, Result<Timestamp, Seq<char>>)> {
    Seq::new(cascade().len(), |i: int| (cascade()[i], cascade()[i].outcome(text)))
}

/// The date of a text: what the first format of the cascade that accepts it
/// makes of it.
pub open spec fn date_of(text: Seq<char>) -> Option<Timestamp> {
    first_accepted(outcomes_of(trials_of(text)))
}

/// The date of an optional text; an absent text has none.
pub open spec fn candidate_date(candidate: Option<Seq<char>>) -> Option<Timestamp> {
    match candidate {
        Some(text) => date_of(text),
        None => None,
    }
}

/// The first date present in a run, if any.
pub open spec fn first_present(dates: Seq<Option<Timestamp>>) -> Option<Timestamp>
    decreases dates.len(),
{
    if dates.len() == 0 {
        None
    } else if dates[0] is Some {
        dates[0]
    } else {
        first_present(dates.drop_first())
    }
}

/// The last date present in a run, if any.
pub open spec fn last_present(dates: Seq<Option<Timestamp>>) -> Option<Timestamp>
    decreases dates.len(),
{
    if dates.len() == 0 {
        None
    } else if dates.last() is Some {
        dates.last()
    } else {
        last_present(dates.drop_last())
    }
}

/// The date kept from a run of dates under a precedence.
pub open spec fn kept(dates: Seq<Option<Timestamp>>, precedence: Precedence) -> Option<Timestamp> {
    match precedence {
        Precedence::FirstWins => first_present(dates),
        Precedence::LastWins => last_present(dates),
    }
}

/// The date resolved from candidates in priority order: each is read on its
/// own, and of those that are accepted the precedence in force keeps one.
pub open spec fn resolved(candidates: Seq<Option<Seq<char>>>) -> Option<Timestamp> {
    kept(Seq::new(candidates.len(), |i: int| candidate_date(candidates[i])), DATE_PRECEDENCE)
}

/// The formats of the cascade, in order.
pub fn formats() -> (r: Vec<DateFormat>)
    ensures
        r@ == cascade(),
{
    let r = vec![
        DateFormat::Rfc3339,
        DateFormat::Rfc2822,
        DateFormat::DateTime,
        DateFormat::CameraDateTime,
        DateFormat::DateHourMinute,
        DateFormat::DateOnly,
        DateFormat::YearMonth,
        DateFormat::YearOnly,
    ];
    assert(r@ =~= cascade());
    r
}

/// Settles a run of trials: the first accepted timestamp, or, where every
/// trial failed, all of them with their reasons.
pub fn settle(trials: Vec<Trial>) -> (r: Result<Timestamp, ParseError>)
    ensures
        match r {
            Ok(t) => first_accepted(outcomes_of(trial_views(trials@))) == Some(t),
            Err(e) => first_accepted(outcomes_of(trial_views(trials@))) is None && e@ == refusals(
                trial_views(trials@),
            ),
        },
{
    let ghost all = trial_views(trials@);
    let mut attempts: Vec<Attempt> = Vec::new();
    let mut i: usize = 0;
    assert(outcomes_of(all).subrange(0, all.len() as int) =~= outcomes_of(all));
    while i < trials.len()
        invariant
            i <= trials.len(),
            all == trial_views(trials@),
            all.len() == trials.len(),
            attempts.len() == i,
            forall|k: int| 0 <= k < i ==> all[k].1 is Err,
            forall|k: int| 0 <= k < i ==> #[trigger] attempts@[k]@ == refusals(all)[k],
            first_accepted(outcomes_of(all)) == first_accepted(
                outcomes_of(all).subrange(i as int, all.len() as int),
            ),
        decreases trials.len() - i,
    {
        let ghost rest = outcomes_of(all).subrange(i as int, all.len() as int);
        assert(rest[0] == all[i as int].1);
        assert(rest.drop_first() =~= outcomes_of(all).subrange(i + 1, all.len() as int));
        assert(all[i as int] == trials@[i as int]@);
        match &trials[i].outcome {
            Ok(t) => {
                return Ok(*t);
            },
            Err(detail) => {
                attempts.push(Attempt { format: trials[i].format, detail: detail.clone() });
            },
        }
        i += 1;
    }
    let e = ParseError { attempts };
    assert(e@ =~= refusals(all));
    Err(e)
}

/// Reads a date text, and says of a text that no format accepts what each
/// format made of it.
pub fn parse_date_detailed(date: &str) -> (r: Result<Timestamp, ParseError>)
    ensures
        match r {
            Ok(t) => date_of(date@) == Some(t),
            Err(e) => date_of(date@) is None && e@ == refusals(trials_of(date@)),
        },
{
    let order = formats();
    let mut trials: Vec<Trial> = Vec::new();
    let mut i: usize = 0;
    while i < order.len()
        invariant
            i <= order.len(),
            order@ == cascade(),
            trials.len() == i,
            forall|k: int| 0 <= k < i ==> #[trigger] trials@[k]@ == trials_of(date@)[k],
        decreases order.len() - i,
    {
        let format = order[i];
        trials.push(Trial { format, outcome: format.read(date) });
        i += 1;
    }
    assert(trial_views(trials@) =~= trials_of(date@));
    settle(trials)
}

/// Reads a date text: the timestamp that the first format of the cascade
/// which accepts the text makes of it, or `None` where none accepts it.
pub fn parse_date(date: &str) -> (r: Option<Timestamp>)
    ensures
        r == date_of(date@),
{
    match parse_date_detailed(date) {
        Ok(t) => Some(t),
        Err(_) => None,
    }
}

/// Keeps one of a run of dates under a precedence.
pub fn keep(dates: &Vec<Option<Timestamp>>, precedence: Precedence) -> (r: Option<Timestamp>)
    ensures
        r == kept(dates@, precedence),
{
    let mut found: Option<Timestamp> = None;
    let mut i: usize = 0;
    match precedence {
        Precedence::FirstWins => {
            assert(dates@.subrange(0, dates@.len() as int) =~= dates@);
            while i < dates.len()
                invariant
                    i <= dates.len(),
                    precedence == Precedence::FirstWins,
                    found is None,
                    first_present(dates@) == first_present(
                        dates@.subrange(i as int, dates@.len() as int),
                    ),
                decreases dates.len() - i,
            {
                let ghost rest = dates@.subrange(i as int, dates@.len() as int);
                assert(rest[0] == dates@[i as int]);
                assert(rest.drop_first() =~= dates@.subrange(i + 1, dates@.len() as int));
                if dates[i].is_some() {
                    assert(first_present(rest) == rest[0]);
                    return dates[i];
                }
                i += 1;
            }
        },
        Precedence::LastWins => {
            while i < dates.len()
                invariant
                    i <= dates.len(),
                    found == last_present(dates@.take(i as int)),
                decreases dates.len() - i,
            {
                let ghost next = dates@.take(i + 1);
                assert(next.last() == dates@[i as int]);
                assert(next.drop_last() =~= dates@.take(i as int));
                if dates[i].is_some() {
                    found = dates[i];
                }
                i += 1;
            }
            assert(dates@.take(dates@.len() as int) =~= dates@);
        },
    }
    found
}

/// The texts of a run of optional strings.
pub open spec fn candidate_texts(candidates: Seq<Option<String>>) -> Seq<Option<Seq<char>>> {
    Seq::new(candidates.len(), |i: int| text_of(candidates[i]))
}

/// Resolves the date of a file from its candidate texts, given in priority
/// order. An absent or unreadable candidate is passed over; where none is
/// accepted the file has no date, which is no error.
pub fn resolve(candidates: &Vec<Option<String>>) -> (r: Option<Timestamp>)
    ensures
        r == resolved(candidate_texts(candidates@)),
{
    let ghost texts = candidate_texts(candidates@);
    let mut dates: Vec<Option<Timestamp>> = Vec::new();
    let mut i: usize = 0;
    while i < candidates.len()
        invariant
            i <= candidates.len(),
            texts == candidate_texts(candidates@),
            dates.len() == i,
            forall|k: int| 0 <= k < i ==> #[trigger] dates@[k] == candidate_date(texts[k]),
        decreases candidates.len() - i,
    {
        let date = match &candidates[i] {
            Some(text) => parse_date(text.as_str()),
            None => None,
        };
        dates.push(date);
        i += 1;
    }
    assert(dates@ =~= Seq::new(texts.len(), |k: int| candidate_date(texts[k])));
    keep(&dates, DATE_PRECEDENCE)
}

/// Under last-wins, the date kept is the one at the last place that holds a
/// date: a date with none behind it is kept, whatever stands before it.
pub proof fn lemma_last_wins(dates: Seq<Option<Timestamp>>, i: int)
    requires
        0 <= i < dates.len(),
        dates[i] is Some,
        forall|j: int| i < j < dates.len() ==> dates[j] is None,
    ensures
        kept(dates, Precedence::LastWins) == dates[i],
    decreases dates.len(),
{
    if i < dates.len() - 1 {
        lemma_last_wins(dates.drop_last(), i);
    }
}

/// Under first-wins, a date with none before it is kept, whatever stands
/// behind it.
pub proof fn lemma_first_wins(dates: Seq<Option<Timestamp>>, i: int)
    requires
        0 <= i < dates.len(),
        dates[i] is Some,
        forall|j: int| 0 <= j < i ==> dates[j] is None,
    ensures
        kept(dates, Precedence::FirstWins) == dates[i],
    decreases dates.len(),
{
    if i > 0 {
        lemma_first_wins(dates.drop_first(), i - 1);
    }
}

/// Where no date is present none is kept, under either precedence.
pub proof fn lemma_none_kept(dates: Seq<Option<Timestamp>>, precedence: Precedence)
    requires
        forall|j: int| 0 <= j < dates.len() ==> dates[j] is None,
    ensures
        kept(dates, precedence) is None,
    decreases dates.len(),
{
    if dates.len() > 0 {
        lemma_none_kept(dates.drop_last(), precedence);
        lemma_none_kept(dates.drop_first(), precedence);
    }
}

/// The resolved date of a file is the date of the last candidate that is
/// accepted: a candidate that is accepted, with none accepted behind it,
/// gives the date.
pub proof fn lemma_resolved_is_last_accepted(candidates: Seq<Option<Seq<char>>>, i: int)
    requires
        0 <= i < candidates.len(),
        candidate_date(candidates[i]) is Some,
        forall|j: int| i < j < candidates.len() ==> candidate_date(candidates[j]) is None,
    ensures
        resolved(candidates) == candidate_date(candidates[i]),
{
    let dates = Seq::new(candidates.len(), |k: int| candidate_date(candidates[k]));
    lemma_last_wins(dates, i);
}

/// Where no candidate is accepted, the file has no date.
pub proof fn lemma_resolved_none(candidates: Seq<Option<Seq<char>>>)
    requires
        forall|j: int| 0 <= j < candidates.len() ==> candidate_date(candidates[j]) is None,
    ensures
        resolved(candidates) is None,
{
    let dates = Seq::new(candidates.len(), |k: int| candidate_date(candidates[k]));
    lemma_none_kept(dates, DATE_PRECEDENCE);
}

/// A text that no format accepts is reported with one attempt for each
/// format of the cascade, in the cascade's order.
pub proof fn lemma_refusals_cover_cascade(text: Seq<char>)
    ensures
        refusals(trials_of(text)).len() == cascade().len(),
        forall|i: int|
            0 <= i < cascade().len() ==> (#[trigger] refusals(trials_of(text))[i]).0 == cascade()[i],
{
}

} // verus!
