//! What the server is asked for and what it replies.

use vstd::prelude::*;

#[allow(unused_imports)]
use crate::error;
use crate::feed::Feed;
use crate::model::Station;
#[allow(unused_imports)]
use crate::model::StationView;

verus! {

/// The kind of data that a request names.
#[derive(Debug, Clone, Copy, PartialEq, Eq, Structural)]
pub enum Source {
    Instant,
    CurrentDay,
    CurrentYear,
    HistoricDay,
    HistoricYear,
}

impl Default for Source {
    fn default() -> (s: Self)
        ensures
            s == Source::Instant,
    {
        Source::Instant
    }
}

/// The kind of data that a request names, with the date that it needs.
#[derive(Debug, Clone, Copy, PartialEq, Eq, Structural)]
pub enum PreciseSource {
    Instant,
    CurrentDay,
    CurrentYear,
    HistoricDay { year: u16, month: u8, day: u8 },
    HistoricYear(u16),
}

/// Why a request has no stations for an answer.
#[derive(Debug)]
pub enum Error {
    MissingYear,
    /// The query could not be read, for the reason given
    QueryRejection(String),
    Upstream,
    MissingDay,
    MissingMonth,
    UnexpectedMissingUpstreamData,
    NotFound,
}

/// The source with its date: `historic_day` needs a year, a month and a day, and
/// `historic_year` needs a year. The first one that is missing is the error.
pub open spec fn precise(
    source: Source,
    year: Option<u16>,
    month: Option<u8>,
    day: Option<u8>,
) -> Result<PreciseSource, Error> {
    match source {
        Source::Instant => Ok(PreciseSource::Instant),
        Source::CurrentDay => Ok(PreciseSource::CurrentDay),
        Source::CurrentYear => Ok(PreciseSource::CurrentYear),
        Source::HistoricDay => match (year, month, day) {
            (None, _, _) => Err(Error::MissingYear),
            (Some(_), None, _) => Err(Error::MissingMonth),
            (Some(_), Some(_), None) => Err(Error::MissingDay),
            (Some(year), Some(month), Some(day)) => Ok(
                PreciseSource::HistoricDay { year, month, day },
            ),
        },
        Source::HistoricYear => match year {
            None => Err(Error::MissingYear),
            Some(year) => Ok(PreciseSource::HistoricYear(year)),
        },
    }
}

/// The feed that has the data of a source.
pub open spec fn feed_of(source: PreciseSource) -> Feed {
    match source {
        PreciseSource::Instant => Feed::Instant,
        PreciseSource::CurrentDay => Feed::Daily,
        PreciseSource::CurrentYear => Feed::Yearly,
        PreciseSource::HistoricDay { year, month, day } => Feed::ArchivedDay { year, month, day },
        PreciseSource::HistoricYear(year) => Feed::ArchivedYear { year },
    }
}

impl PreciseSource {
    /// Adds the date to a source, where it needs one.
    pub fn from_source(
        source: Source,
        year: Option<u16>,
        month: Option<u8>,
        day: Option<u8>,
    ) -> (r: Result<Self, Error>)
        ensures
            r == precise(source, year, month, day),
    {
        match source {
            Source::Instant => Ok(PreciseSource::Instant),
            Source::CurrentDay => Ok(PreciseSource::CurrentDay),
            Source::CurrentYear => Ok(PreciseSource::CurrentYear),
            Source::HistoricDay => {
                let year: u16 = match year {
                    Some(year) => year,
                    None => {
                        return Err(Error::MissingYear);
                    },
                };
                let month: u8 = match month {
                    Some(month) => month,
                    None => {
                        return Err(Error::MissingMonth);
                    },
                };
                let day: u8 = match day {
                    Some(day) => day,
                    None => {
                        return Err(Error::MissingDay);
                    },
                };
                Ok(PreciseSource::HistoricDay { year, month, day })
            },
            Source::HistoricYear => match year {
                Some(year) => Ok(PreciseSource::HistoricYear(year)),
                None => Err(Error::MissingYear),
            },
        }
    }

    /// The feed that has the data of the source.
    pub fn feed(&self) -> (r: Feed)
        ensures
            r == feed_of(*self),
    {
        match *self {
            PreciseSource::Instant => Feed::Instant,
            PreciseSource::CurrentDay => Feed::Daily,
            PreciseSource::CurrentYear => Feed::Yearly,
            PreciseSource::HistoricDay { year, month, day } => Feed::ArchivedDay {
                year,
                month,
                day,
            },
            PreciseSource::HistoricYear(year) => Feed::ArchivedYear { year },
        }
    }
}

/// A source is only refused for want of a date that it needs: a year for all historic data, and a
/// month and a day for that of a day.
pub proof fn only_history_needs_dates(
    source: Source,
    year: Option<u16>,
    month: Option<u8>,
    day: Option<u8>,
)
    ensures
        precise(source, year, month, day) is Err <==> ((source is HistoricYear && year is None) || (
        source is HistoricDay && (year is None || month is None || day is None))),
{
}

/// Sources with different data have different feeds.
pub proof fn feeds_are_distinct(a: PreciseSource, b: PreciseSource)
    ensures
        feed_of(a) == feed_of(b) ==> a == b,
{
}

/// The number of an error, and the HTTP status that goes with it.
pub open spec fn info_of(e: Error) -> (u64, u16) {
    match e {
        Error::MissingYear => (0, 400),
        Error::QueryRejection(_) => (1, 400),
        Error::Upstream => (2, 503),
        Error::MissingDay => (3, 400),
        Error::MissingMonth => (4, 400),
        Error::UnexpectedMissingUpstreamData => (5, 503),
        Error::NotFound => (6, 404),
    }
}

/// What an error tells the user.
pub open spec fn message_of(e: Error) -> Seq<char> {
    match e {
        Error::MissingYear => "missing 'year' query parameter"@,
        Error::QueryRejection(reason) => reason@,
        Error::Upstream => "connection error to the upstream service"@,
        Error::MissingDay => "missing 'day' query parameter"@,
        Error::MissingMonth => "missing 'month' query parameter"@,
        Error::UnexpectedMissingUpstreamData => "upstream data should not have been missing"@,
        Error::NotFound => "data does not exist upstream"@,
    }
}

/// Errors of different kinds have different numbers, and their status is one of a request that
/// went wrong, never one of success.
pub proof fn numbers_tell_errors_apart(a: Error, b: Error)
    ensures
        info_of(a).0 == info_of(b).0 ==> a == b || (a is QueryRejection && b is QueryRejection),
        400 <= info_of(a).1 < 600,
        info_of(a).1 < 500 <==> (a is MissingYear || a is MissingMonth || a is MissingDay
            || a is QueryRejection || a is NotFound),
{
}

/// What the server replies, as one document.
#[derive(Debug)]
pub enum Response<T> {
    Error { code: u64, message: String },
    Success(T),
}

/// The stations that answer a request.
#[derive(Debug)]
pub struct Stations {
    pub stations: Vec<Station>,
}

impl Error {
    /// The number of the error, and the HTTP status that goes with it.
    pub fn error_info(&self) -> (r: (u64, u16))
        ensures
            r == info_of(*self),
    {
        match self {
            Error::MissingYear => (0, 400),
            Error::QueryRejection(_) => (1, 400),
            Error::Upstream => (2, 503),
            Error::MissingDay => (3, 400),
            Error::MissingMonth => (4, 400),
            Error::UnexpectedMissingUpstreamData => (5, 503),
            Error::NotFound => (6, 404),
        }
    }

    /// What the error tells the user.
    pub fn message(&self) -> (s: String)
        ensures
            s@ == message_of(*self),
    {
        match self {
            Error::MissingYear => "missing 'year' query parameter".to_owned(),
            Error::QueryRejection(reason) => reason.clone(),
            Error::Upstream => "connection error to the upstream service".to_owned(),
            Error::MissingDay => "missing 'day' query parameter".to_owned(),
            Error::MissingMonth => "missing 'month' query parameter".to_owned(),
            Error::UnexpectedMissingUpstreamData => {
                "upstream data should not have been missing".to_owned()
            },
            Error::NotFound => "data does not exist upstream".to_owned(),
        }
    }

    /// The status and the document that tell the user of the error.
    pub fn into_response(self) -> (r: (u16, Response<()>))
        ensures
            r.0 == info_of(self).1,
            r.1 matches Response::Error { code, message } && code == info_of(self).0 && message@
                == message_of(self),
    {
        let (code, status) = self.error_info();
        (status, Response::Error { code, message: self.message() })
    }
}

/// What a fetch comes to for the server: stations, the news that there are none, or an error.
pub open spec fn fetch_outcome(
    fetched: Result<Seq<StationView>, error::ErrorView>,
) -> Result<Option<Seq<StationView>>, Error> {
    match fetched {
        Ok(stations) => Ok(Some(stations)),
        Err(error::ErrorView::NotFound) => Ok(None),
        Err(_) => Err(Error::Upstream),
    }
}

/// Turns the result of a fetch into what the server does with it.
pub fn fetched(r: Result<Vec<Station>, error::Error>) -> (o: Result<Option<Vec<Station>>, Error>)
    ensures
        (match o {
            Ok(v) => Ok::<Option<Seq<StationView>>, Error>(v.deep_view()),
            Err(e) => Err(e),
        }) == fetch_outcome(error::seen(r)),
{
    match r {
        Ok(stations) => Ok(Some(stations)),
        Err(error::Error::NotFound) => Ok(None),
        Err(_) => Err(Error::Upstream),
    }
}

/// A source keeps the date that the request gives it, each part in its place, and takes no more of it
/// than it needs. The first part that is missing is the one that the user is told of.
pub proof fn sources_keep_their_dates(
    source: Source,
    year: Option<u16>,
    month: Option<u8>,
    day: Option<u8>,
)
    ensures
        (match precise(source, year, month, day) {
            Ok(PreciseSource::Instant) => source is Instant,
            Ok(PreciseSource::CurrentDay) => source is CurrentDay,
            Ok(PreciseSource::CurrentYear) => source is CurrentYear,
            Ok(PreciseSource::HistoricDay { year: y, month: m, day: d }) => source is HistoricDay
                && year == Some(y) && month == Some(m) && day == Some(d),
            Ok(PreciseSource::HistoricYear(y)) => source is HistoricYear && year == Some(y),
            Err(Error::MissingYear) => (source is HistoricDay || source is HistoricYear) && year
                is None,
            Err(Error::MissingMonth) => source is HistoricDay && year is Some && month is None,
            Err(Error::MissingDay) => source is HistoricDay && year is Some && month is Some && day
                is None,
            Err(_) => false,
        }),
{
}

/// The data of a source comes from the feed for it, with its date.
pub proof fn sources_come_from_their_feeds(source: PreciseSource)
    ensures
        source is Instant <==> feed_of(source) is Instant,
        source is CurrentDay <==> feed_of(source) is Daily,
        source is CurrentYear <==> feed_of(source) is Yearly,
        source matches PreciseSource::HistoricYear(y) ==> feed_of(source) == (
        Feed::ArchivedYear { year: y }),
        source matches PreciseSource::HistoricDay { year: y, month: m, day: d } ==> feed_of(source)
            == (Feed::ArchivedDay { year: y, month: m, day: d }),
{
}

/// A fetch comes to the stations that it got. That a feed does not exist is no error of the upstream,
/// and everything else that goes wrong is.
pub proof fn fetches_come_to_what_they_got(fetched: Result<Seq<StationView>, error::ErrorView>)
    ensures
        fetched matches Ok(stations) ==> fetch_outcome(fetched) == Ok::<
            Option<Seq<StationView>>,
            Error,
        >(Some(stations)),
        fetched matches Err(e) ==> (if e is NotFound {
            fetch_outcome(fetched) == Ok::<Option<Seq<StationView>>, Error>(None)
        } else {
            fetch_outcome(fetched) == Err::<Option<Seq<StationView>>, Error>(Error::Upstream)
        }),
{
}

/// The user is told which part of a date is missing, and why a query was refused. A query that is
/// not understood is the fault of the user, missing data is missing, and what the upstream does wrong
/// is the fault of the server.
pub proof fn errors_tell_the_user(e: Error)
    ensures
        e is MissingYear ==> info_of(e) == (0u64, 400u16) && message_of(e)
            == "missing 'year' query parameter"@,
        e matches Error::QueryRejection(reason) ==> info_of(e) == (1u64, 400u16) && message_of(e)
            == reason@,
        e is Upstream ==> info_of(e) == (2u64, 503u16) && message_of(e)
            == "connection error to the upstream service"@,
        e is MissingDay ==> info_of(e) == (3u64, 400u16) && message_of(e)
            == "missing 'day' query parameter"@,
        e is MissingMonth ==> info_of(e) == (4u64, 400u16) && message_of(e)
            == "missing 'month' query parameter"@,
        e is UnexpectedMissingUpstreamData ==> info_of(e) == (5u64, 503u16) && message_of(e)
            == "upstream data should not have been missing"@,
        e is NotFound ==> info_of(e) == (6u64, 404u16) && message_of(e)
            == "data does not exist upstream"@,
{
}

} // verus!
