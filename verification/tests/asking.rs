use fioul::api::{Response, Stations};
use fioul::disk::{self, VersionError, CACHE_VERSION};
use fioul::geo::{
    self, CacheKey, GeoCache, GeoInfo, OsmInfo, QueryError, QueryLookup, StationLookup,
    LRU_CAPACITY,
};
use fioul::place::{CoordsLookup, Location, PlaceError};
use fioul::profile::{Profile, StationInfo};
use fioul::query;
use fioul::report::{self, Reply};
use fioul::settings::{self, SortChoice, SortCriteria, SortError};
use fioul::sort::{self, Measure, Sort};
use fioul::time::{Lapse, LAST_SECOND};
use fioul::{
    Coordinates, DateTime, Fuel, PerFuel, Price, Real, RoadKind, Station, Timestamp,
};

fn at(seconds: i64) -> Timestamp {
    Timestamp { seconds, nanos: 0 }
}

fn lasting(seconds: u64) -> Lapse {
    Lapse { seconds, nanos: 0 }
}

fn decimal(text: &str) -> Real {
    Real::parse(text).unwrap()
}

fn price(text: &str, seconds: i64) -> Price {
    Price { updated_at: DateTime::Single(at(seconds)), price: decimal(text) }
}

fn station(id: &str, place: Option<(&str, &str)>) -> Station {
    Station {
        id: id.to_owned(),
        location: fioul::Location {
            road: RoadKind::Regular,
            zip_code: "01000".to_owned(),
            address: "1 RUE DU LAC".to_owned(),
            city: Some("BOURG".to_owned()),
            coordinates: place.map(|(latitude, longitude)| Coordinates {
                latitude: decimal(latitude),
                longitude: decimal(longitude),
            }),
        },
        prices: PerFuel::empty(),
        shortages: PerFuel::empty(),
        schedule: None,
        services: Vec::new(),
        closings: Vec::new(),
    }
}

fn osm(name: &str, lat: &str, lon: &str) -> OsmInfo {
    OsmInfo { display_name: name.to_owned(), lat: lat.to_owned(), lon: lon.to_owned() }
}

fn info(name: &str, expires: i64) -> GeoInfo {
    GeoInfo { display_name: name.to_owned(), lat: decimal("1"), lon: decimal("2"), expires: at(expires) }
}

fn names(entries: &[(CacheKey, GeoInfo)]) -> Vec<&str> {
    entries.iter().map(|(_, i)| i.display_name.as_str()).collect()
}

#[test]
fn places_are_read() {
    assert!(matches!(Location::from_str("q:Bourg, Ain"), Ok(Location::Name(q)) if q == "Bourg, Ain"));
    assert!(matches!(Location::from_str("q:"), Ok(Location::Name(q)) if q.is_empty()));
    match Location::from_str("46.2,-5.1") {
        Ok(Location::Coords { latitude, longitude }) => {
            assert_eq!(latitude.text, "46.2");
            assert_eq!(longitude.text, "-5.1");
        }
        other => panic!("unexpected: {other:?}"),
    }
    assert!(matches!(Location::from_str("Bourg"), Err(PlaceError::Form)));
    assert!(matches!(Location::from_str("q"), Err(PlaceError::Form)));
    assert!(matches!(Location::from_str("a,b"), Err(PlaceError::Number(t)) if t == "a"));
    assert!(matches!(Location::from_str("1,2,3"), Err(PlaceError::Number(t)) if t == "2,3"));
}

#[test]
fn places_are_looked_up() {
    let mut cache = GeoCache::empty(Some("http://n".to_owned()), lasting(0));
    let place = Location::from_str("1,2").unwrap();
    assert!(matches!(
        place.to_coords(&mut cache),
        CoordsLookup::At { latitude, longitude } if latitude.text == "1" && longitude.text == "2"
    ));
    let place = Location::from_str("q:Bourg").unwrap();
    assert!(matches!(
        place.to_coords(&mut cache),
        CoordsLookup::Ask { url, query } if url == "http://n/search" && query == "Bourg"
    ));
    cache.query_found("Bourg", vec![osm("Bourg, Ain", "46.2", "5.1")], at(9)).unwrap();
    assert!(matches!(
        place.clone().to_coords(&mut cache),
        CoordsLookup::At { latitude, longitude } if latitude.text == "46.2" && longitude.text == "5.1"
    ));
    let mut none = GeoCache::empty(None, lasting(0));
    assert!(matches!(place.to_coords(&mut none), CoordsLookup::NoServer));
}

#[test]
fn searches_are_remembered() {
    let mut cache = GeoCache::empty(Some("http://n".to_owned()), lasting(0));
    assert!(matches!(cache.get_query("x"), QueryLookup::Ask { url } if url == "http://n/search"));
    assert!(matches!(cache.query_found("x", Vec::new(), at(1)), Err(QueryError::NoResult)));
    assert!(matches!(
        cache.query_found("x", vec![osm("a", "1", "?")], at(1)),
        Err(QueryError::Number(t)) if t == "?"
    ));
    assert!(matches!(cache.get_query("x"), QueryLookup::Ask { .. }));
    let found = cache.query_found("x", vec![osm("a", "1", "2"), osm("b", "3", "4")], at(1)).unwrap();
    assert_eq!(found.display_name, "a");
    assert!(matches!(cache.get_query("x"), QueryLookup::Known(i) if i.lat.text == "1"));
    assert!(matches!(cache.get_query("y"), QueryLookup::Ask { .. }));
}

#[test]
fn stations_are_looked_up() {
    let mut cache = GeoCache::empty(Some("http://n".to_owned()), lasting(0));
    let s = station("12", Some(("4620100", "519800")));
    match cache.get_station(&s) {
        StationLookup::Ask { url, id, coordinates } => {
            assert_eq!(url, "http://n/reverse");
            assert_eq!(id, 12);
            assert_eq!(coordinates.latitude.text, "4620100");
        }
        other => panic!("unexpected: {other:?}"),
    }
    assert!(matches!(cache.station_found(12, osm("a", "no", "2"), at(1)), Err(t) if t == "no"));
    assert!(matches!(cache.get_station(&s), StationLookup::Ask { .. }));
    cache.station_found(12, osm("a, b", "1", "2"), at(1)).unwrap();
    assert!(matches!(cache.get_station(&s), StationLookup::Known(i) if i.display_name == "a, b"));
    // A search for the digits of the id is something else.
    assert!(matches!(cache.get_query("12"), QueryLookup::Ask { .. }));
    assert!(matches!(cache.get_query(""), QueryLookup::Ask { .. }));
    assert!(matches!(cache.get_station(&station("12", None)), StationLookup::Nothing));
    assert!(matches!(
        cache.get_station(&station("x", Some(("1", "2")))),
        StationLookup::Nothing
    ));
    let mut none = GeoCache::empty(None, lasting(0));
    assert!(matches!(none.get_station(&s), StationLookup::Nothing));
}

#[test]
fn the_least_recently_used_place_is_given_up() {
    let mut cache = GeoCache::empty(Some(String::new()), lasting(0));
    for id in 0..LRU_CAPACITY as u64 {
        cache.station_found(id, osm("", "1", "2"), at(1)).unwrap();
    }
    assert_eq!(LRU_CAPACITY, 1024);
    let place = Some(("1", "2"));
    assert!(matches!(cache.get_station(&station("0", place)), StationLookup::Known(_)));
    cache.station_found(5000, osm("", "1", "2"), at(1)).unwrap();
    assert!(matches!(cache.get_station(&station("0", place)), StationLookup::Known(_)));
    assert!(matches!(cache.get_station(&station("1", place)), StationLookup::Ask { .. }));
    assert!(matches!(cache.get_station(&station("2", place)), StationLookup::Known(_)));
    assert_eq!(cache.store().len(), LRU_CAPACITY);
}

#[test]
fn places_are_kept_and_found_again() {
    let mut cache = GeoCache::empty(Some("u".to_owned()), lasting(0));
    cache.query_found("a", vec![osm("A", "1", "2")], at(10)).unwrap();
    cache.station_found(1, osm("B", "1", "2"), at(20)).unwrap();
    cache.query_found("c", vec![osm("C", "1", "2")], at(30)).unwrap();
    // Using a place makes it the last to be given up.
    assert!(matches!(cache.get_query("a"), QueryLookup::Known(_)));
    let kept = cache.store();
    assert_eq!(names(&kept), vec!["B", "C", "A"]);
    assert!(matches!(kept[0].0, CacheKey::Station(1)));
    assert!(matches!(&kept[1].0, CacheKey::GeoLocation(q) if q == "c"));

    let mut later = GeoCache::load(kept, Some("u".to_owned()), lasting(0), at(10));
    assert!(matches!(later.get_query("a"), QueryLookup::Ask { .. }));
    assert!(matches!(
        later.get_station(&station("1", Some(("1", "2")))),
        StationLookup::Known(_)
    ));

    let kept = vec![
        (CacheKey::Station(1), info("old", 100)),
        (CacheKey::GeoLocation("q".to_owned()), info("middle", 5)),
        (CacheKey::Station(2), info("new", 100)),
    ];
    let loaded = GeoCache::load(kept, None, lasting(0), at(50));
    assert_eq!(names(&loaded.store()), vec!["new", "old"]);
    // The first of two entries with one key counts, since it is put in last.
    let twice = vec![(CacheKey::Station(1), info("x", 9)), (CacheKey::Station(1), info("y", 9))];
    assert_eq!(names(&GeoCache::load(twice, None, lasting(0), at(1)).store()), vec!["x"]);
    // Of those that have not expired, that is.
    let twice = vec![
        (CacheKey::Station(1), info("w", 1)),
        (CacheKey::Station(1), info("x", 9)),
        (CacheKey::Station(1), info("y", 9)),
    ];
    assert_eq!(names(&GeoCache::load(twice, None, lasting(0), at(1)).store()), vec!["x"]);
}

#[test]
fn places_last_for_the_duration() {
    let month = settings::cache_duration(None);
    assert_eq!(month, lasting(30 * 24 * 60 * 60));
    assert_eq!(settings::DEFAULT_CACHE_DURATION, 2_592_000);
    assert_eq!(settings::cache_duration(Some(lasting(7))), lasting(7));

    let mut cache = GeoCache::empty(Some("u".to_owned()), month);
    let now = Timestamp { seconds: 1_700_000_000, nanos: 5 };
    let expires = Timestamp { seconds: 1_702_592_000, nanos: 5 };
    assert_eq!(cache.expires(now), Some(expires));
    assert_eq!(cache.query_found("a", vec![osm("A", "1", "2")], now).unwrap().expires, expires);
    assert_eq!(cache.station_found(1, osm("B", "1", "2"), now).unwrap().expires, expires);
    let info = GeoInfo::from_osm(osm("C", "1.5", "-2"), now, lasting(1)).unwrap();
    assert_eq!(info.expires, Timestamp { seconds: 1_700_000_001, nanos: 5 });
    assert_eq!((info.lat.text.as_str(), info.lon.text.as_str()), ("1.5", "-2"));
    assert!(matches!(GeoInfo::from_osm(osm("C", "a", "b"), now, month), Err(t) if t == "a"));
    assert!(matches!(GeoInfo::from_osm(osm("C", "1", "b"), now, month), Err(t) if t == "b"));

    // They are found until then, and no longer.
    let just_before = Timestamp { seconds: 1_702_592_000, nanos: 4 };
    let kept = cache.store();
    assert_eq!(names(&kept), vec!["A", "B"]);
    let kept = GeoCache::load(kept, None, month, just_before).store();
    assert_eq!(kept.len(), 2);
    assert!(GeoCache::load(kept, None, month, expires).store().is_empty());
}

#[test]
fn points_in_time_are_added_to() {
    let half = |seconds: u64| Lapse { seconds, nanos: 500_000_000 };
    let t = Timestamp { seconds: -2, nanos: 700_000_000 };
    assert_eq!(t.plus(half(1)), Some(Timestamp { seconds: 0, nanos: 200_000_000 }));
    assert_eq!(t.plus(lasting(3)), Some(Timestamp { seconds: 1, nanos: 700_000_000 }));
    assert_eq!(LAST_SECOND, chrono::DateTime::<chrono::Utc>::MAX_UTC.timestamp());
    assert_eq!(at(LAST_SECOND - 1).plus(lasting(1)), Some(at(LAST_SECOND)));
    assert_eq!(at(LAST_SECOND).plus(lasting(1)), None);
    assert_eq!(at(0).plus(lasting(u64::MAX)), None);
    let chrono_sum = chrono::DateTime::from_timestamp(-2, 700_000_000).unwrap()
        + std::time::Duration::new(1, 500_000_000);
    assert_eq!((chrono_sum.timestamp(), chrono_sum.timestamp_subsec_nanos()), (0, 200_000_000));
}

fn cbor(value: &ciborium::Value) -> Vec<u8> {
    let mut bytes = Vec::new();
    ciborium::into_writer(value, &mut bytes).unwrap();
    bytes
}

#[test]
fn versions_are_checked() {
    let text = |s: &str| ciborium::Value::Text(s.to_owned());
    let number = |n: i64| ciborium::Value::Integer(n.into());
    let map = |entries: Vec<(ciborium::Value, ciborium::Value)>| cbor(&ciborium::Value::Map(entries));
    let version = |v: ciborium::Value| map(vec![(text("info"), number(9)), (text("version"), v)]);

    assert!(disk::check_version(&version(number(2))).is_ok());
    assert_eq!(CACHE_VERSION, 2);
    assert!(matches!(
        disk::check_version(&version(number(1))),
        Err(VersionError::WrongVersion(1))
    ));
    assert!(matches!(
        disk::check_version(&version(number(-2))),
        Err(VersionError::OutOfRange)
    ));
    assert!(matches!(
        disk::check_version(&version(text("2"))),
        Err(VersionError::NotAnInteger)
    ));
    assert!(matches!(
        disk::check_version(&map(vec![(number(1), number(2))])),
        Err(VersionError::NoVersion)
    ));
    assert!(matches!(disk::check_version(&cbor(&number(2))), Err(VersionError::NotAMap)));
    assert!(matches!(disk::check_version(b""), Err(VersionError::Unreadable(_))));
    // The first version counts.
    let two = map(vec![(text("version"), number(3)), (text("version"), number(2))]);
    assert!(matches!(disk::check_version(&two), Err(VersionError::WrongVersion(3))));

    let entry = |k: Option<&str>, v: Option<i128>| (k.map(str::to_owned), v);
    assert!(disk::check_map(Some(vec![entry(None, None), entry(Some("version"), Some(2))])).is_ok());
    assert!(matches!(
        disk::check_map(Some(vec![entry(Some("version"), Some(1 << 64))])),
        Err(VersionError::OutOfRange)
    ));
    assert!(matches!(disk::check_map(None), Err(VersionError::NotAMap)));

    assert!(disk::check_read(Ok(Some(vec![entry(Some("version"), Some(2))]))).is_ok());
    assert!(matches!(disk::check_read(Ok(None)), Err(VersionError::NotAMap)));
    assert!(matches!(
        disk::check_read(Err(ciborium::de::Error::Syntax(17))),
        Err(VersionError::Unreadable(ciborium::de::Error::Syntax(17)))
    ));
    assert!(matches!(
        disk::check_read(Err(ciborium::de::Error::RecursionLimitExceeded)),
        Err(VersionError::Unreadable(ciborium::de::Error::RecursionLimitExceeded))
    ));
}

#[test]
fn both_or_none() {
    assert_eq!(geo::opt_tr(Some(1), Some("a")), Some((1, "a")));
    assert_eq!(geo::opt_tr(None::<u8>, Some("a")), None);
    assert_eq!(geo::opt_tr(Some(1), None::<u8>), None);
}

fn profile(ids: &[u64]) -> Profile {
    Profile {
        fuels: Vec::new(),
        stations: ids
            .iter()
            .map(|id| StationInfo { name: format!("n{id}"), id: *id })
            .collect(),
    }
}

#[test]
fn profiles_ask_for_their_stations() {
    assert_eq!(profile(&[3, 18446744073709551615, 0]).ids(), "3,18446744073709551615,0");
    assert_eq!(profile(&[7]).ids(), "7");
    assert_eq!(profile(&[]).ids(), "");
    let ids = query::comma_array(&profile(&[3, 10, 3, 0]).ids()).unwrap();
    assert_eq!(ids.len(), 3);
    assert!(ids.contains(&3) && ids.contains(&10) && ids.contains(&0));
    // A profile without stations asks for something that is no list of ids.
    assert!(query::comma_array(&profile(&[]).ids()).is_err());
}

#[test]
fn profiles_name_their_stations() {
    let mut p = profile(&[5, 6]);
    p.stations.push(StationInfo { name: "again".to_owned(), id: 5 });
    assert_eq!(p.station_name(5).map(String::as_str), Some("n5"));
    assert_eq!(p.station_name(6).map(String::as_str), Some("n6"));
    assert_eq!(p.station_name(7), None);
}

#[test]
fn the_latest_price_counts() {
    let prices = vec![price("1.5", 10), price("1.7", 30), price("1.6", 30), price("1.1", 20)];
    assert_eq!(sort::latest_price(&prices).unwrap().price.text, "1.6");
    assert!(sort::latest_price(&Vec::new()).is_none());
    let ambiguous = vec![
        price("1", 25),
        Price { updated_at: DateTime::Ambiguous(at(10), at(30)), price: decimal("2") },
    ];
    assert_eq!(sort::latest_price(&ambiguous).unwrap().price.text, "2");

    let mut s = station("1", Some(("1", "2")));
    s.prices.push(Fuel::LPG, price("0.9", 1));
    assert!(matches!(Sort::Price(Fuel::LPG).measure(&s), Some(Measure::Price(p)) if p.text == "0.9"));
    assert!(Sort::Price(Fuel::Diesel).measure(&s).is_none());
    assert!(Sort::Unsorted.measure(&s).is_none());
    let distance = Sort::Distance { latitude: decimal("0"), longitude: decimal("0") };
    assert!(matches!(
        distance.measure(&s),
        Some(Measure::Place(c)) if c.latitude.text == "1" && c.longitude.text == "2"
    ));
    assert!(distance.measure(&station("1", None)).is_none());
}

#[test]
fn stations_are_sorted() {
    let keys = vec![Some(7), None, Some(3), None, Some(7)];
    let stations = || {
        let mut list: Vec<Station> = Vec::new();
        for (id, key) in ["a", "b", "c", "d", "e"].iter().zip(&keys) {
            let mut s = station(id, None);
            if let Some(key) = key {
                s.prices.push(Fuel::Diesel, price(&format!("{key}"), 1));
            }
            list.push(s);
        }
        list
    };
    let ids = |v: Vec<Station>| v.into_iter().map(|s| s.id).collect::<Vec<_>>();
    assert_eq!(
        ids(Sort::Price(Fuel::Diesel).sort(stations(), &keys)),
        vec!["c", "a", "e", "b", "d"]
    );
    let none = vec![None; 5];
    assert_eq!(ids(Sort::Unsorted.sort(stations(), &none)), vec!["a", "b", "c", "d", "e"]);
    assert!(sort::sort_by_keys(Vec::new(), &Vec::new()).is_empty());
    let keys: Vec<Option<u64>> = (0..500u64).map(|i| Some((i * 7919) % 101)).collect();
    let order = sort::sorted_positions(&keys);
    let mut expected: Vec<usize> = (0..500).collect();
    expected.sort_by_key(|i| keys[*i]);
    assert_eq!(order, expected);
}

#[test]
fn positions_are_sorted() {
    for n in [0, 1, 2, 3, 4, 5, 6, 7, 8, 9, 1000] {
        // Many keys are equal, and some are missing.
        let keys: Vec<Option<u64>> =
            (0..n).map(|i: u64| (i % 7 != 3).then_some(i * 7919 % 101)).collect();
        let mut expected: Vec<usize> = (0..keys.len()).collect();
        expected.sort_by_key(|i| (keys[*i].is_none(), keys[*i]));
        assert_eq!(sort::sorted_positions(&keys), expected);
    }
    assert_eq!(sort::sorted_positions(&vec![None, Some(2), None, Some(1), Some(2)]), vec![3, 1, 4, 0, 2]);
}

#[test]
fn choices_of_the_user() {
    let s = |t: &str| Some(t.to_owned());
    assert_eq!(settings::server_url(s("a"), s("b")), s("a"));
    assert_eq!(settings::server_url(None, s("b")), s("b"));
    assert_eq!(settings::server_url(None, None), None);
    assert_eq!(settings::nominatim_url(s("a"), s("b")), s("b"));
    assert_eq!(settings::nominatim_url(s("a"), None), s("a"));
    let place = |t: &str| Some(Location::from_str(t).unwrap());
    assert!(matches!(
        settings::near_place(place("q:x"), place("q:y")),
        Some(Location::Name(q)) if q == "x"
    ));
    assert!(matches!(settings::near_place(None, place("q:y")), Some(Location::Name(q)) if q == "y"));

    let choose = settings::choose_sort;
    assert!(matches!(choose(None, None, None, None), Ok(SortChoice::Unsorted)));
    assert!(matches!(
        choose(Some(SortCriteria::Price), Some(Fuel::LPG), Some(Fuel::Diesel), None),
        Ok(SortChoice::Price(Fuel::LPG))
    ));
    assert!(matches!(
        choose(Some(SortCriteria::Price), None, Some(Fuel::Diesel), None),
        Ok(SortChoice::Price(Fuel::Diesel))
    ));
    assert!(matches!(
        choose(Some(SortCriteria::Price), None, None, place("q:y")),
        Err(SortError::NoFuel)
    ));
    assert!(matches!(
        choose(Some(SortCriteria::Distance), None, None, None),
        Err(SortError::NoLocation)
    ));
    assert!(matches!(
        choose(Some(SortCriteria::Distance), None, None, place("q:y")),
        Ok(SortChoice::Distance(Location::Name(q))) if q == "y"
    ));
}

#[test]
fn fuels_of_the_command_line() {
    let names = [
        ("diesel", Some(Fuel::Diesel)),
        ("95", Some(Fuel::Gasoline95Octane)),
        ("98", Some(Fuel::Gasoline98Octane)),
        ("E10", Some(Fuel::GasolineE10)),
        ("E85", Some(Fuel::GasolineE85)),
        ("LPG", Some(Fuel::LPG)),
        ("Gazole", None),
    ];
    for (name, fuel) in names {
        assert_eq!(settings::fuel_argument(name), fuel);
        if let Some(fuel) = fuel {
            assert_eq!(settings::fuel_label(fuel), name);
        }
    }
}

#[test]
fn headings_of_stations() {
    let s = station("12", None);
    assert_eq!(
        report::heading(&s, None),
        vec!["== BOURG - 1 RUE DU LAC (01000)", "ID: 12", "Prices:"]
    );
    assert_eq!(
        report::heading(&s, Some(info("Total, Rue du Lac", 1))),
        vec!["== BOURG - 1 RUE DU LAC (01000)", "Name: Total", "ID: 12", "Prices:"]
    );
    let mut s = station("12", None);
    s.location.city = None;
    assert_eq!(report::heading(&s, Some(info("Total", 1)))[..2], ["==  - 1 RUE DU LAC (01000)", "Name: Total"]);
}

#[test]
fn prices_are_listed() {
    let mut prices: PerFuel<Vec<Price>> = PerFuel::empty();
    prices.push(Fuel::LPG, price("0.9", 1));
    prices.push(Fuel::Diesel, price("1.8", 1));
    prices.push(Fuel::Diesel, price("1.9", 2));
    let list = |fuels: Vec<Fuel>| {
        report::shown_prices(&prices, &fuels)
            .into_iter()
            .map(|(f, p)| (f, p.price.text))
            .collect::<Vec<_>>()
    };
    let entry = |f, t: &str| (f, t.to_owned());
    assert_eq!(
        list(vec![]),
        vec![entry(Fuel::Diesel, "1.8"), entry(Fuel::Diesel, "1.9"), entry(Fuel::LPG, "0.9")]
    );
    assert_eq!(list(vec![Fuel::LPG, Fuel::GasolineE10]), vec![entry(Fuel::LPG, "0.9")]);
    assert_eq!(
        list(vec![Fuel::LPG, Fuel::Diesel]),
        vec![entry(Fuel::LPG, "0.9"), entry(Fuel::Diesel, "1.8"), entry(Fuel::Diesel, "1.9")]
    );
    assert!(report::list_prices(&prices, &Vec::new()).is_empty());
}

#[test]
fn replies_of_the_server() {
    let stations = || Some(Response::Success(Stations { stations: vec![station("1", None)] }));
    let failure = || Some(Response::Error { code: 6, message: "gone".to_owned() });
    assert!(matches!(report::read_reply(200, stations()), Reply::Stations(v) if v.len() == 1));
    assert!(matches!(report::read_reply(299, stations()), Reply::Stations(_)));
    assert!(matches!(report::read_reply(404, failure()), Reply::Failed(m) if m == "gone"));
    assert!(matches!(report::read_reply(500, None), Reply::Silent(500)));
    assert!(matches!(report::read_reply(300, stations()), Reply::Silent(300)));
    assert!(matches!(report::read_reply(200, None), Reply::Unreadable));
    assert!(matches!(report::read_reply(200, failure()), Reply::Contradiction));
}
