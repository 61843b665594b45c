use fioul::api::{self, Error, PreciseSource, Response, Source};
use fioul::cache::{
    DataEntry, Entry, Lookup, QueryCache, QueryCacheInner, CACHE_DURATION, INSTANT_DURATION,
    NOT_FOUND_TIMEOUT,
};
use fioul::feed::Feed;
use fioul::limiter::{Limiter, Turn, RATE_LIMIT};
use fioul::query::{self, LocationError, LocationQuery};
use fioul::settings;
use fioul::{Coordinates, Location, PerFuel, Real, RoadKind, Station};

const HOUR: u128 = 3_600_000_000_000;
const MINUTE: u128 = 60_000_000_000;

fn station(id: &str, place: Option<(&str, &str)>) -> Station {
    Station {
        id: id.to_owned(),
        location: Location {
            road: RoadKind::Regular,
            zip_code: "01000".to_owned(),
            address: "1 RUE DU LAC".to_owned(),
            city: None,
            coordinates: place.map(|(latitude, longitude)| Coordinates {
                latitude: Real::parse(latitude).unwrap(),
                longitude: Real::parse(longitude).unwrap(),
            }),
        },
        prices: PerFuel::empty(),
        shortages: PerFuel::empty(),
        schedule: None,
        services: Vec::new(),
        closings: Vec::new(),
    }
}

fn ids(stations: &[Station]) -> Vec<&str> {
    stations.iter().map(|s| s.id.as_str()).collect()
}

fn hit(lookup: Lookup) -> Vec<String> {
    match lookup {
        Lookup::Hit(stations) => stations.into_iter().map(|s| s.id).collect(),
        other => panic!("unexpected: {other:?}"),
    }
}

#[test]
fn sources_need_dates() {
    let day = |y, m, d| PreciseSource::from_source(Source::HistoricDay, y, m, d);
    assert!(matches!(day(None, None, None), Err(Error::MissingYear)));
    assert!(matches!(day(Some(2020), None, None), Err(Error::MissingMonth)));
    assert!(matches!(day(Some(2020), Some(1), None), Err(Error::MissingDay)));
    assert_eq!(
        day(Some(2020), Some(1), Some(2)).unwrap(),
        PreciseSource::HistoricDay { year: 2020, month: 1, day: 2 }
    );
    let year = |y| PreciseSource::from_source(Source::HistoricYear, y, None, None);
    assert!(matches!(year(None), Err(Error::MissingYear)));
    assert_eq!(year(Some(2007)).unwrap(), PreciseSource::HistoricYear(2007));
    for (source, precise) in [
        (Source::Instant, PreciseSource::Instant),
        (Source::CurrentDay, PreciseSource::CurrentDay),
        (Source::CurrentYear, PreciseSource::CurrentYear),
    ] {
        assert_eq!(PreciseSource::from_source(source, None, None, None).unwrap(), precise);
        assert_eq!(PreciseSource::from_source(source, Some(1), Some(2), Some(3)).unwrap(), precise);
    }
    assert_eq!(Source::default(), Source::Instant);
}

#[test]
fn sources_have_feeds() {
    assert_eq!(PreciseSource::Instant.feed(), Feed::Instant);
    assert_eq!(PreciseSource::CurrentDay.feed(), Feed::Daily);
    assert_eq!(PreciseSource::CurrentYear.feed(), Feed::Yearly);
    assert_eq!(PreciseSource::HistoricYear(2010).feed(), Feed::ArchivedYear { year: 2010 });
    assert_eq!(
        PreciseSource::HistoricDay { year: 2010, month: 3, day: 4 }.feed(),
        Feed::ArchivedDay { year: 2010, month: 3, day: 4 }
    );
}

#[test]
fn errors_have_numbers() {
    let errors = [
        (Error::MissingYear, 0, 400, "missing 'year' query parameter"),
        (Error::QueryRejection("no".to_owned()), 1, 400, "no"),
        (Error::Upstream, 2, 503, "connection error to the upstream service"),
        (Error::MissingDay, 3, 400, "missing 'day' query parameter"),
        (Error::MissingMonth, 4, 400, "missing 'month' query parameter"),
        (
            Error::UnexpectedMissingUpstreamData,
            5,
            503,
            "upstream data should not have been missing",
        ),
        (Error::NotFound, 6, 404, "data does not exist upstream"),
    ];
    for (e, number, status, text) in errors {
        assert_eq!(e.error_info(), (number, status));
        match e.into_response() {
            (s, Response::Error { code, message }) => {
                assert_eq!(s, status);
                assert_eq!(code, number);
                assert_eq!(message, text);
            }
            other => panic!("unexpected: {other:?}"),
        }
    }
}

#[test]
fn fetches_come_to_something() {
    assert_eq!(api::fetched(Ok(vec![station("1", None)])).unwrap().unwrap().len(), 1);
    assert!(api::fetched(Err(fioul::Error::NotFound)).unwrap().is_none());
    assert!(matches!(api::fetched(Err(fioul::Error::NoData)), Err(Error::Upstream)));
}

#[test]
fn lists_of_ids() {
    let read = |s: &str| query::comma_array(s);
    let set = read("3,1,+2,3").unwrap();
    assert_eq!(set.len(), 3);
    assert!(set.contains(&1) && set.contains(&2) && set.contains(&3));
    assert!(!set.contains(&4));
    assert_eq!(read("18446744073709551615").unwrap().len(), 1);
    for bad in ["", "1,", ",1", "1,,2", "a", "1, 2", "-1", "18446744073709551616", "1.0"] {
        assert!(read(bad).is_err(), "{bad:?}");
    }
}

#[test]
fn location_queries() {
    let q = LocationQuery::parse("46.2,5.198,1e3").unwrap();
    assert_eq!(q.latitude.text, "46.2");
    assert_eq!(q.longitude.text, "5.198");
    assert_eq!(q.distance.text, "1e3");
    for bad in ["", "1,2", "1,2,3,4", "1"] {
        assert!(matches!(LocationQuery::parse(bad), Err(LocationError::Fields)), "{bad:?}");
    }
    assert!(matches!(LocationQuery::parse("x,y,3"), Err(LocationError::Number(t)) if t == "x"));
    assert!(matches!(LocationQuery::parse("1,,3"), Err(LocationError::Number(t)) if t.is_empty()));
    assert!(matches!(LocationQuery::parse("1,2, 3"), Err(LocationError::Number(t)) if t == " 3"));
}

#[test]
fn location_queries_are_read_back() {
    let texts = ["46.2", "-5.198", "1e3", "+.5", "inf", "NaN"];
    for a in texts {
        for b in texts {
            let q = LocationQuery {
                latitude: Real::parse(a).unwrap(),
                longitude: Real::parse(b).unwrap(),
                distance: Real::parse("5000").unwrap(),
            };
            assert_eq!(q.parameter(), format!("{a},{b},5000"));
            let read = LocationQuery::parse(&q.parameter()).unwrap();
            assert_eq!(read.latitude.text, a);
            assert_eq!(read.longitude.text, b);
            assert_eq!(read.distance.text, "5000");
        }
    }
}

#[test]
fn stations_are_picked_by_id() {
    let all = || vec![station("1", None), station("x", None), station("03", None), station("1", None)];
    let picked = query::retain_ids(all(), &query::comma_array("1,9").unwrap());
    assert_eq!(ids(&picked), vec!["1", "1"]);
    let picked = query::retain_ids(all(), &query::comma_array("3").unwrap());
    assert_eq!(ids(&picked), vec!["03"]);
    let none = fnv::FnvHashSet::default();
    assert_eq!(query::retain_ids(all(), &none).len(), 4);
    assert!(query::retain_ids(all(), &query::comma_array("2").unwrap()).is_empty());
}

#[test]
fn stations_are_picked_by_place() {
    let all = || {
        vec![
            station("near", Some(("1", "2"))),
            station("unknown", None),
            station("far", Some(("3", "4"))),
            station("lost", None),
        ]
    };
    let near = vec![true, false, false, true];
    assert_eq!(ids(&query::retain_near(all(), &near, false)), vec!["near"]);
    assert_eq!(ids(&query::retain_near(all(), &near, true)), vec!["near", "unknown", "lost"]);
    assert!(query::retain_near(Vec::new(), &Vec::new(), true).is_empty());
}

#[test]
fn stations_answer_a_request() {
    let all = || {
        vec![
            station("1", Some(("1", "2"))),
            station("2", None),
            station("3", Some(("3", "4"))),
            station("4", Some(("5", "6"))),
            station("5", None),
        ]
    };
    let asked = query::comma_array("1,2,3").unwrap();
    let any = fnv::FnvHashSet::default();
    let near = || Some(vec![true, false, false, true, false]);
    assert_eq!(ids(&query::answer(all(), &asked, near(), false)), vec!["1"]);
    assert_eq!(ids(&query::answer(all(), &asked, near(), true)), vec!["1", "2"]);
    assert_eq!(ids(&query::answer(all(), &any, near(), false)), vec!["1", "4"]);
    assert_eq!(ids(&query::answer(all(), &any, near(), true)), vec!["1", "2", "4", "5"]);
    // Without a place it does not matter where stations are.
    for keep_unknown in [false, true] {
        assert_eq!(ids(&query::answer(all(), &asked, None, keep_unknown)), vec!["1", "2", "3"]);
        assert_eq!(query::answer(all(), &any, None, keep_unknown).len(), 5);
    }
}

#[test]
fn data_is_used_for_its_duration() {
    let sources = [
        (PreciseSource::Instant, 5 * MINUTE),
        (PreciseSource::CurrentDay, 30 * MINUTE),
        (PreciseSource::CurrentYear, 30 * MINUTE),
        (PreciseSource::HistoricYear(2020), 30 * MINUTE),
        (PreciseSource::HistoricDay { year: 2020, month: 1, day: 2 }, 30 * MINUTE),
    ];
    for (source, duration) in sources {
        let mut cache = QueryCache::new();
        assert!(matches!(cache.lookup(source, 0), Lookup::Fetch));
        let reply = cache.store(source, Ok(Some(vec![station("1", None)])), 1000).unwrap();
        assert_eq!(ids(&reply), vec!["1"]);
        assert_eq!(hit(cache.lookup(source, 0)), vec!["1"]);
        assert_eq!(hit(cache.lookup(source, 1000)), vec!["1"]);
        assert_eq!(hit(cache.lookup(source, 1000 + duration - 1)), vec!["1"]);
        assert!(matches!(cache.lookup(source, 1000 + duration), Lookup::Fetch));
        // Newer data takes the place of older data.
        cache.store(source, Ok(Some(vec![station("2", None)])), duration).unwrap();
        assert_eq!(hit(cache.lookup(source, 1000 + duration)), vec!["2"]);
    }
    assert_eq!(INSTANT_DURATION, 5 * MINUTE);
    assert_eq!(CACHE_DURATION, 30 * MINUTE);
    assert_eq!(NOT_FOUND_TIMEOUT, HOUR);
}

#[test]
fn absence_is_remembered_for_an_hour() {
    for source in [
        PreciseSource::HistoricYear(1999),
        PreciseSource::HistoricDay { year: 1999, month: 1, day: 2 },
    ] {
        let mut cache = QueryCache::new();
        assert!(matches!(cache.store(source, Ok(None), 7), Err(Error::NotFound)));
        for now in [7, 7 + 30 * MINUTE, 7 + HOUR] {
            assert!(matches!(cache.lookup(source, now), Lookup::Failed(Error::NotFound)));
            // Cleaning does not make the server forget it earlier.
            cache.clean(now);
        }
        assert!(matches!(cache.lookup(source, 8 + HOUR), Lookup::Fetch));
        cache.clean(8 + HOUR);
        assert!(matches!(cache.lookup(source, 7), Lookup::Fetch));
    }
}

#[test]
fn failures_are_not_remembered() {
    let source = PreciseSource::CurrentDay;
    let mut cache = QueryCache::new();
    cache.store(source, Ok(Some(vec![station("1", None)])), 0).unwrap();
    assert!(matches!(cache.store(source, Err(Error::Upstream), 5), Err(Error::Upstream)));
    assert_eq!(hit(cache.lookup(source, 6)), vec!["1"]);
    assert!(matches!(
        cache.store(source, Ok(None), 5),
        Err(Error::UnexpectedMissingUpstreamData)
    ));
    assert_eq!(hit(cache.lookup(source, 6)), vec!["1"]);
}

#[test]
fn sources_do_not_mix() {
    let day = |month, day| PreciseSource::HistoricDay { year: 2020, month, day };
    let mut cache = QueryCache::new();
    cache.store(day(1, 2), Ok(Some(vec![station("a", None)])), 0).unwrap();
    cache.store(day(2, 1), Ok(Some(vec![station("b", None)])), 0).unwrap();
    cache.store(PreciseSource::HistoricYear(2020), Ok(Some(vec![station("c", None)])), 0).unwrap();
    assert_eq!(hit(cache.lookup(day(1, 2), 1)), vec!["a"]);
    assert_eq!(hit(cache.lookup(day(2, 1), 1)), vec!["b"]);
    assert_eq!(hit(cache.lookup(PreciseSource::HistoricYear(2020), 1)), vec!["c"]);
    assert!(matches!(cache.lookup(day(1, 3), 1), Lookup::Fetch));
    assert!(matches!(cache.lookup(PreciseSource::Instant, 1), Lookup::Fetch));
}

#[test]
fn data_outlives_other_sources_and_cleaning() {
    let source = PreciseSource::CurrentDay;
    let mut cache = QueryCache::new();
    cache.store(source, Ok(Some(vec![station("a", None)])), 0).unwrap();
    for now in 1..30 {
        cache.store(PreciseSource::Instant, Ok(Some(vec![station("b", None)])), now * MINUTE).unwrap();
        let absent = PreciseSource::HistoricYear(now as u16);
        assert!(cache.store(absent, Ok(None), now * MINUTE).is_err());
        assert!(cache.store(PreciseSource::CurrentYear, Err(Error::Upstream), now * MINUTE).is_err());
        cache.clean(now * MINUTE);
        assert_eq!(hit(cache.lookup(source, now * MINUTE)), vec!["a"]);
    }
    cache.clean(30 * MINUTE);
    assert!(matches!(cache.lookup(source, 30 * MINUTE), Lookup::Fetch));
}

#[test]
fn cleaning_changes_no_answer() {
    let sources = [
        PreciseSource::Instant,
        PreciseSource::CurrentDay,
        PreciseSource::CurrentYear,
        PreciseSource::HistoricYear(2020),
        PreciseSource::HistoricDay { year: 2020, month: 1, day: 2 },
    ];
    for cleaned_at in [0, 5 * MINUTE, 6 * MINUTE, 30 * MINUTE, 31 * MINUTE, 2 * HOUR] {
        let mut cache = QueryCache::new();
        let mut clean = QueryCache::new();
        for (i, source) in sources.iter().enumerate() {
            let at = i as u128 * MINUTE;
            cache.store(*source, Ok(Some(vec![station("1", None)])), at).unwrap();
            clean.store(*source, Ok(Some(vec![station("1", None)])), at).unwrap();
        }
        clean.clean(cleaned_at);
        for now in [cleaned_at, cleaned_at + MINUTE, cleaned_at + 29 * MINUTE] {
            for source in sources {
                assert_eq!(
                    format!("{:?}", cache.lookup(source, now)),
                    format!("{:?}", clean.lookup(source, now))
                );
            }
        }
    }
}

#[test]
fn entries_are_read_and_replaced() {
    let data = |id: &str| DataEntry { constructed: 3, data: vec![station(id, None)] };
    let mut inner = QueryCacheInner::new();
    assert!(inner.read(PreciseSource::Instant, 10, 0).is_none());
    inner.replace(PreciseSource::Instant, Entry::Data(data("1"))).unwrap();
    assert_eq!(inner.read(PreciseSource::Instant, 10, 0).unwrap().unwrap().data[0].id, "1");
    assert!(matches!(
        inner.replace(PreciseSource::Instant, Entry::NotFound(0)),
        Err(Error::UnexpectedMissingUpstreamData)
    ));
    inner.replace(PreciseSource::HistoricYear(1), Entry::NotFound(5)).unwrap();
    assert!(matches!(
        inner.read(PreciseSource::HistoricYear(1), 10, 15),
        Some(Err(Error::NotFound))
    ));
    assert!(inner.read(PreciseSource::HistoricYear(1), 10, 16).is_none());
    assert!(Entry::Data(data("2")).expect_found().is_ok());
    assert!(Entry::NotFound(0).expect_found().is_err());
}

#[test]
fn requests_are_let_through_one_by_one() {
    let sent = std::cell::RefCell::new(Vec::new());
    let send = |request: &'static str| {
        sent.borrow_mut().push(request);
        true
    };
    let mut limiter = Limiter::new();
    assert_eq!(limiter.remaining(), 0);
    limiter.receive("a");
    limiter.receive("b");
    assert!(limiter.waited(0));
    assert_eq!(limiter.take_turn(send), Turn { skipped: 0, granted: true });
    assert_eq!(*sent.borrow(), vec!["a"]);
    assert_eq!(limiter.remaining(), RATE_LIMIT);
    assert_eq!(RATE_LIMIT, 500_000_000);
    assert!(!limiter.waited(200_000_000));
    assert_eq!(limiter.remaining(), 300_000_000);
    assert!(!limiter.waited(299_999_999));
    assert!(limiter.waited(1));
    assert_eq!(limiter.take_turn(send), Turn { skipped: 0, granted: true });
    assert_eq!(*sent.borrow(), vec!["a", "b"]);
    assert!(limiter.waited(RATE_LIMIT));
    // A turn that nobody takes leaves the time as it is.
    assert_eq!(limiter.take_turn(send), Turn { skipped: 0, granted: false });
    assert_eq!(limiter.remaining(), RATE_LIMIT);
    assert_eq!(*sent.borrow(), vec!["a", "b"]);
}

#[test]
fn dropped_requests_are_skipped() {
    let mut limiter = Limiter::new();
    for request in ["gone", "gone too", "live", "next"] {
        limiter.receive(request);
    }
    let send = |request: &str| !request.starts_with("gone");
    assert!(limiter.waited(0));
    assert_eq!(limiter.take_turn(send), Turn { skipped: 2, granted: true });
    assert!(limiter.waited(RATE_LIMIT));
    assert_eq!(limiter.take_turn(send), Turn { skipped: 0, granted: true });
    limiter.receive("gone");
    assert!(limiter.waited(RATE_LIMIT));
    assert_eq!(limiter.take_turn(send), Turn { skipped: 1, granted: false });
    assert_eq!(limiter.take_turn(send), Turn { skipped: 0, granted: false });
}

#[test]
fn defaults() {
    assert_eq!(settings::port_default(), 3000);
    assert!(settings::mk_true());
    let display = settings::DisplayConfig::default();
    assert!(display.dates);
    assert!(display.fuels.is_empty());
}
