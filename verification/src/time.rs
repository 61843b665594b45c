//! Dates of the feeds, which are local times of France.

use vstd::prelude::*;

use crate::error;
use crate::error::Error;
#[allow(unused_imports)]
use crate::error::ErrorView;
#[allow(unused_imports)]
use crate::number;

verus! {

/// A point in time: seconds since 1970-01-01T00:00:00Z and nanoseconds. The nanoseconds pass
/// one second only in a leap second.
#[derive(Debug, Clone, Copy, PartialEq, Eq, Structural)]
pub struct Timestamp {
    pub seconds: i64,
    pub nanos: u32,
}

impl Timestamp {
    pub open spec fn is_after(self, other: Timestamp) -> bool {
        self.seconds > other.seconds || (self.seconds == other.seconds && self.nanos > other.nanos)
    }

    /// Whether this point in time comes after another one.
    pub fn after(&self, other: &Timestamp) -> (r: bool)
        ensures
            r == self.is_after(*other),
    {
        self.seconds > other.seconds || (self.seconds == other.seconds && self.nanos > other.nanos)
    }
}

/// The last second that the calendar has a date for.
pub const LAST_SECOND: i64 = 8_210_266_876_799;

/// A length of time.
#[derive(Debug, Clone, Copy, PartialEq, Eq, Structural)]
pub struct Lapse {
    pub seconds: u64,
    pub nanos: u32,
}

/// A point in time, counted in nanoseconds.
pub open spec fn nanoseconds(t: Timestamp) -> int {
    t.seconds * 1_000_000_000 + t.nanos
}

/// A length of time, counted in nanoseconds.
pub open spec fn length(lapse: Lapse) -> int {
    lapse.seconds * 1_000_000_000 + lapse.nanos
}

impl Timestamp {
    /// The point in time that lies a length of time later, when the calendar has a date for it.
    pub open spec fn spec_plus(self, lapse: Lapse) -> Option<Timestamp> {
        let nanos = self.nanos + lapse.nanos;
        let seconds = self.seconds + lapse.seconds + nanos / 1_000_000_000;
        if seconds > LAST_SECOND {
            None
        } else {
            Some(Timestamp { seconds: seconds as i64, nanos: (nanos % 1_000_000_000) as u32 })
        }
    }

    /// The point in time that lies a length of time later. There is none where the calendar has no
    /// date for it.
    pub fn plus(&self, lapse: Lapse) -> (r: Option<Timestamp>)
        ensures
            r == self.spec_plus(lapse),
    {
        let nanos: u64 = self.nanos as u64 + lapse.nanos as u64;
        let seconds: i128 = self.seconds as i128 + lapse.seconds as i128 + (nanos
            / 1_000_000_000) as i128;
        if seconds > LAST_SECOND as i128 {
            None
        } else {
            Some(Timestamp { seconds: seconds as i64, nanos: (nanos % 1_000_000_000) as u32 })
        }
    }
}

/// A point in time plus a length of time is their sum, and it is missing exactly where that lies
/// behind the last second of the calendar.
pub proof fn plus_is_the_sum(t: Timestamp, lapse: Lapse)
    ensures
        t.spec_plus(lapse) matches Some(later) ==> nanoseconds(later) == nanoseconds(t) + length(
            lapse,
        ) && later.nanos < 1_000_000_000,
        t.spec_plus(lapse) is None <==> nanoseconds(t) + length(lapse) >= (LAST_SECOND + 1)
            * 1_000_000_000,
{
    let nanos = t.nanos + lapse.nanos;
    assert(nanos == nanos / 1_000_000_000 * 1_000_000_000 + nanos % 1_000_000_000);
}

/// Tries to represent a single date, but as France uses daylight saving time dates between 2 and
/// 3 in the morning on the day the clock moves back are ambiguous. This type contains either the
/// single non-ambiguous date, or both possible dates.
#[derive(Debug, Clone, Copy, PartialEq, Eq, Structural)]
pub enum DateTime {
    Single(Timestamp),
    Ambiguous(Timestamp, Timestamp),
}

impl DeepView for DateTime {
    type V = DateTime;

    open spec fn deep_view(&self) -> DateTime {
        *self
    }
}

/// The points in time at which the clocks of a place show a given local time.
#[derive(Debug, Clone, Copy, PartialEq, Eq, Structural)]
pub enum LocalTime {
    Never,
    Once(Timestamp),
    Twice(Timestamp, Timestamp),
}

/// Kind of format the date is stored in the XML. This depends on the source of the data,
/// instantaneous and archived feeds don't use the same dates. When reading directly from
/// downloaded files this should be set with [Parser::with_options](crate::parser::Parser).
#[derive(Debug, Clone, Copy, PartialEq, Eq, Structural)]
pub enum DateFormat {
    /// This format seems to be only used for the instantaneous feed.
    Spaced,
    /// This format is seemingly used for all other feeds, and is the default when not specified.
    TSeparated,
}

impl DateFormat {
    /// A date, the separator of the format, and a time of day, in the notation of strftime.
    pub open spec fn spec_pattern(self) -> Seq<char> {
        match self {
            DateFormat::Spaced => "%F %T"@,
            DateFormat::TSeparated => "%FT%T"@,
        }
    }

    /// What stands between the date and the time of day.
    pub open spec fn separator(self) -> char {
        match self {
            DateFormat::Spaced => ' ',
            DateFormat::TSeparated => 'T',
        }
    }

    /// The other one of the two formats.
    pub open spec fn other(self) -> DateFormat {
        match self {
            DateFormat::Spaced => DateFormat::TSeparated,
            DateFormat::TSeparated => DateFormat::Spaced,
        }
    }

    pub fn pattern(&self) -> (r: &'static str)
        ensures
            r@ == self.spec_pattern(),
    {
        match self {
            DateFormat::Spaced => "%F %T",
            DateFormat::TSeparated => "%FT%T",
        }
    }
}

/// The local time that a text shows in the notation of a pattern, when it shows one, counted as
/// if the place kept UTC.
pub uninterp spec fn local_reading(text: Seq<char>, pattern: Seq<char>) -> Option<Timestamp>;

/// Whether a text is of the form `YYYY-MM-DD`, a separator, and `HH:MM:SS`, with a digit for each
/// letter.
pub open spec fn is_date_text(text: Seq<char>, separator: char) -> bool {
    &&& text.len() == 19
    &&& text[4] == '-' && text[7] == '-' && text[10] == separator
    &&& text[13] == ':' && text[16] == ':'
    &&& forall|i: int|
        0 <= i < 19 && i != 4 && i != 7 && i != 10 && i != 13 && i != 16 ==> number::is_digit(
            #[trigger] text[i],
        )
}

/// A text of a date and a time of day with another separator between them.
pub open spec fn with_separator(text: Seq<char>, separator: char) -> Seq<char> {
    text.update(10, separator)
}

/// The points in time at which the clocks of Paris show `local`, counted as if they kept UTC.
pub uninterp spec fn paris_times(local: Timestamp) -> LocalTime;

/// `chrono::NaiveDateTime::parse_from_str`. The local time that it reads is named
/// `local_reading`; a text that shows none is an error. Of the two patterns `%F %T` and `%FT%T`
/// more is claimed. Both read the date alike, and go on with a `T` in the one case, and with
/// blanks or a digit in the other, so that no text fits both. And a text of the plain form is
/// read alike with either separator under its own pattern. Of the error nothing is said.
#[verifier::external_body]
pub(crate) fn read_local(text: &str, pattern: &str) -> (r: Result<Timestamp, chrono::ParseError>)
    ensures
        r is Ok <==> local_reading(text@, pattern@) is Some,
        r matches Ok(t) ==> local_reading(text@, pattern@) == Some(t),
        r is Ok && pattern@ == "%F %T"@ ==> local_reading(text@, "%FT%T"@) is None,
        r is Ok && pattern@ == "%FT%T"@ ==> local_reading(text@, "%F %T"@) is None,
        pattern@ == "%F %T"@ && is_date_text(text@, ' ') ==> local_reading(
            with_separator(text@, 'T'),
            "%FT%T"@,
        ) == (match r {
            Ok(t) => Some(t),
            Err(_) => None,
        }),
        pattern@ == "%FT%T"@ && is_date_text(text@, 'T') ==> local_reading(
            with_separator(text@, ' '),
            "%F %T"@,
        ) == (match r {
            Ok(t) => Some(t),
            Err(_) => None,
        }),
{
    let local = chrono::NaiveDateTime::parse_from_str(text, pattern)?.and_utc();
    Ok(Timestamp { seconds: local.timestamp(), nanos: local.timestamp_subsec_nanos() })
}

/// `chrono::TimeZone::from_local_datetime` for `chrono_tz::Europe::Paris`. What it returns is
/// named `paris_times`. No clock shows a `local` that `chrono::DateTime::from_timestamp` does not
/// take.
#[verifier::external_body]
pub(crate) fn times_in_paris(local: Timestamp) -> (r: LocalTime)
    ensures
        r == paris_times(local),
{
    let plain = |t: chrono::DateTime<chrono_tz::Tz>| Timestamp {
        seconds: t.timestamp(),
        nanos: t.timestamp_subsec_nanos(),
    };
    match chrono::DateTime::from_timestamp(local.seconds, local.nanos).map(
        |t| chrono::TimeZone::from_local_datetime(&chrono_tz::Europe::Paris, &t.naive_utc()),
    ) {
        Some(chrono::LocalResult::Single(t)) => LocalTime::Once(plain(t)),
        Some(chrono::LocalResult::Ambiguous(a, b)) => LocalTime::Twice(plain(a), plain(b)),
        Some(chrono::LocalResult::None) | None => LocalTime::Never,
    }
}

/// The date that a local time stands for.
pub open spec fn date_of_local(local: LocalTime, path: Seq<char>) -> Result<DateTime, ErrorView> {
    match local {
        LocalTime::Never => Err(ErrorView::InexistentDateTime(path)),
        LocalTime::Once(t) => Ok(DateTime::Single(t)),
        LocalTime::Twice(a, b) => Ok(DateTime::Ambiguous(a, b)),
    }
}

/// The date that a text of the feed stands for.
pub open spec fn date_of(text: Seq<char>, format: DateFormat, path: Seq<char>) -> Result<
    DateTime,
    ErrorView,
> {
    match local_reading(text, format.spec_pattern()) {
        None => Err(ErrorView::InvalidDate { path }),
        Some(local) => date_of_local(paris_times(local), path),
    }
}

/// Turns a local time into the date that it stands for.
pub fn resolve(local: LocalTime, path: &str) -> (r: Result<DateTime, Error>)
    ensures
        error::seen(r) == date_of_local(local, path@),
{
    match local {
        LocalTime::Never => Err(Error::InexistentDateTime(path.to_owned())),
        LocalTime::Once(t) => Ok(DateTime::Single(t)),
        LocalTime::Twice(a, b) => Ok(DateTime::Ambiguous(a, b)),
    }
}

/// Turns what was read of a date into the date that it stands for.
pub fn dated(reading: Result<LocalTime, chrono::ParseError>, path: &str) -> (r: Result<
    DateTime,
    Error,
>)
    ensures
        reading matches Ok(local) ==> error::seen(r) == date_of_local(local, path@),
        reading matches Err(e) ==> (r matches Err(Error::InvalidDate { path: p, err }) && p@ == path@
            && err == e),
{
    match reading {
        Err(err) => Err(Error::InvalidDate { path: path.to_owned(), err }),
        Ok(local) => resolve(local, path),
    }
}

/// Reads a date of the feed. A text that is a date of the one format is none of the other, and a
/// date stands for the same with either separator under its own format.
pub fn parse_date(v: &str, format: DateFormat, path: &str) -> (r: Result<DateTime, Error>)
    ensures
        error::seen(r) == date_of(v@, format, path@),
        !(error::seen(r) matches Err(ErrorView::InvalidDate { .. })) ==> date_of(
            v@,
            format.other(),
            path@,
        ) == Err::<DateTime, ErrorView>(ErrorView::InvalidDate { path: path@ }),
        is_date_text(v@, format.separator()) ==> date_of(
            with_separator(v@, format.other().separator()),
            format.other(),
            path@,
        ) == error::seen(r),
{
    match read_local(v, format.pattern()) {
        Err(err) => dated(Err(err), path),
        Ok(local) => dated(Ok(times_in_paris(local)), path),
    }
}

/// Of the points in time that a date may stand for, the later one.
pub open spec fn latest(date: DateTime) -> Timestamp {
    match date {
        DateTime::Single(t) => t,
        DateTime::Ambiguous(a, b) => if a.is_after(b) {
            a
        } else {
            b
        },
    }
}

/// The later of the points in time that a date may stand for.
pub fn later_date(date: DateTime) -> (t: Timestamp)
    ensures
        t == latest(date),
{
    match date {
        DateTime::Single(t) => t,
        DateTime::Ambiguous(a, b) => if a.after(&b) {
            a
        } else {
            b
        },
    }
}

/// Points in time are in the order of the seconds and nanoseconds that have gone by until them, and
/// of two different ones exactly one comes after the other.
pub proof fn after_means_later(a: Timestamp, b: Timestamp)
    ensures
        a.nanos < 1_000_000_000 && b.nanos < 1_000_000_000 ==> (a.is_after(b) <==> a.seconds
            * 1_000_000_000 + a.nanos > b.seconds * 1_000_000_000 + b.nanos),
        a.seconds > b.seconds ==> a.is_after(b),
        a.seconds == b.seconds ==> (a.is_after(b) <==> a.nanos > b.nanos),
        a.is_after(b) ==> !b.is_after(a),
        a.is_after(b) || b.is_after(a) || a == b,
{
}

/// The later meaning of a date is one of those it may have, and none of them comes after it.
pub proof fn later_meaning_counts(date: DateTime)
    ensures
        date matches DateTime::Single(t) ==> latest(date) == t,
        date matches DateTime::Ambiguous(a, b) ==> (latest(date) == a || latest(date) == b)
            && !a.is_after(latest(date)) && !b.is_after(latest(date)),
{
}

/// A date of the feeds is a local time of Paris: it stands for the points in time at which the
/// clocks of Paris show what it says. Dates of the instantaneous feed are written with a blank, and
/// all others with a `T`. A text that shows no local time is refused, and so is a local time that
/// the clocks leave out.
pub proof fn dates_are_times_of_paris(text: Seq<char>, format: DateFormat, path: Seq<char>)
    ensures
        ({
            let reading = if format is Spaced {
                local_reading(text, "%F %T"@)
            } else {
                local_reading(text, "%FT%T"@)
            };
            match date_of(text, format, path) {
                Ok(DateTime::Single(t)) => reading is Some && paris_times(reading->Some_0)
                    == LocalTime::Once(t),
                Ok(DateTime::Ambiguous(a, b)) => reading is Some && paris_times(reading->Some_0)
                    == LocalTime::Twice(a, b),
                Err(e) => if reading is None {
                    e == (ErrorView::InvalidDate { path })
                } else {
                    paris_times(reading->Some_0) == LocalTime::Never && e
                        == ErrorView::InexistentDateTime(path)
                },
            }
        }),
{
}

/// Texts that show the same local time, each in the notation of its format, are the same date.
pub proof fn formats_are_read_alike(spaced: Seq<char>, separated: Seq<char>, path: Seq<char>)
    requires
        local_reading(spaced, "%F %T"@) == local_reading(separated, "%FT%T"@),
    ensures
        date_of(spaced, DateFormat::Spaced, path) == date_of(
            separated,
            DateFormat::TSeparated,
            path,
        ),
{
}

/// Whether a text shows a local time of Paris that the clocks show, in the notation of a format.
pub open spec fn is_date(text: Seq<char>, format: DateFormat) -> bool {
    let reading = if format is Spaced {
        local_reading(text, "%F %T"@)
    } else {
        local_reading(text, "%FT%T"@)
    };
    reading is Some && !(paris_times(reading->Some_0) is Never)
}

/// A text is read as a date exactly where it is one, wherever it stands.
pub proof fn dates_are_read(text: Seq<char>, format: DateFormat, path: Seq<char>)
    ensures
        date_of(text, format, path) is Ok <==> is_date(text, format),
{
}

} // verus!
