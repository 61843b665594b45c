use std::io::{Cursor, Write};

use fioul::feed::{self, Body, Feed};
use fioul::number::Real;
use fioul::parser;
use fioul::time;
use fioul::xml;
use fioul::{
    DateFormat, DateTime, Error, Fuel, Hours, Parsed, Parser, RoadKind, Station, TimeOfDay,
    Timestamp,
};

const STATION: &str = "<pdv id=\"1000001\" latitude=\"4620100\" longitude=\"519800\" cp=\"01000\" pop=\"R\">";

const WEEK: &str = "<horaires automate-24-24=\"1\">\
    <jour id=\"1\" nom=\"Lundi\" ferme=\"\"><horaire ouverture=\"08.30\" fermeture=\"12.00\"/><horaire ouverture=\"14.00\" fermeture=\"18.45\"/></jour>\
    <jour id=\"2\" nom=\"Mardi\" ferme=\"\"/>\
    <jour id=\"3\" nom=\"Mercredi\" ferme=\"1\"/>\
    <jour id=\"4\" nom=\"Jeudi\" ferme=\"\"/>\
    <jour id=\"5\" nom=\"Vendredi\" ferme=\"\"/>\
    <jour id=\"6\" nom=\"Samedi\" ferme=\"\"/>\
    <jour id=\"7\" nom=\"Dimanche\" ferme=\"1\"><horaire ouverture=\"bad\"/></jour>\
    </horaires>";

fn document(stations: &str) -> Vec<u8> {
    format!("<?xml version=\"1.0\" encoding=\"ISO-8859-1\" standalone=\"yes\"?>\n<pdv_liste>\n{stations}</pdv_liste>\n").into_bytes()
}

/// A document with one station that has these children besides its address.
fn with_children(children: &str) -> Vec<u8> {
    document(&format!(
        "{STATION}<adresse>1 RUE DU LAC</adresse><ville>Bourg</ville>{children}</pdv>"
    ))
}

fn utc(year: i32, month: u32, day: u32, hour: u32, minute: u32, second: u32) -> Timestamp {
    let seconds = chrono::NaiveDate::from_ymd_opt(year, month, day)
        .unwrap()
        .and_hms_opt(hour, minute, second)
        .unwrap()
        .and_utc()
        .timestamp();
    Timestamp { seconds, nanos: 0 }
}

fn read(bytes: &[u8]) -> Parsed {
    Parser::new().try_with_file(bytes).expect("there is an answer")
}

fn read_one(bytes: &[u8]) -> Station {
    let mut stations = read(bytes).expect("the document can be read");
    assert_eq!(stations.len(), 1);
    stations.remove(0)
}

fn read_error(bytes: &[u8]) -> Error {
    match read(bytes) {
        Err(e) => e,
        Ok(stations) => panic!("unexpected stations: {stations:#?}"),
    }
}

fn archive(files: &[(&str, &[u8])]) -> Vec<u8> {
    let mut writer = zip::ZipWriter::new(Cursor::new(Vec::new()));
    for (name, content) in files {
        writer
            .start_file(*name, zip::write::SimpleFileOptions::default())
            .unwrap();
        writer.write_all(content).unwrap();
    }
    writer.finish().unwrap().into_inner()
}

fn ordinary_day() -> Vec<u8> {
    document(&format!(
        "{STATION}<adresse>596 AVENUE DE TREVOUX</adresse><ville>SAINT-DENIS-L\u{e8}S-BOURG</ville>{WEEK}\
         <services><service>Station de gonflage</service><service>Lavage automatique</service></services>\
         <prix nom=\"Gazole\" id=\"1\" maj=\"2023-10-26T08:30:25\" valeur=\"1.843\"/>\
         <prix/>\
         <prix nom=\"SP98\" id=\"6\" maj=\"2023-10-26T08:31:00\" valeur=\"1.956\"/>\
         <prix nom=\"Gazole\" id=\"1\" maj=\"2023-10-27T09:00:00\" valeur=\"1.850\"/>\
         <rupture nom=\"E85\" id=\"3\" debut=\"2023-10-01T12:00:00\" fin=\"\"/>\
         <rupture nom=\"E10\" id=\"5\" debut=\"2023-10-02T12:00:00\" fin=\"2023-10-03T12:00:00\"/>\
         <fermeture/>\
         <fermeture type=\"T\" debut=\"2023-01-05T10:00:00\" fin=\"2023-01-06T10:00:00\"/>\
         <fermeture type=\"D\" debut=\"2023-11-01T10:00:00\" fin=\"\"/>\
         </pdv>\n<other/>\n\
         <pdv id=\"1000002\" latitude=\"\" longitude=\"519800\" cp=\"01001\" pop=\"A\"><adresse>A40</adresse></pdv>\n"
    ))
}

#[test]
fn zip() {
    let bytes = archive(&[("PrixCarburants_quotidien_20231027.xml", &ordinary_day())]);

    if let Err(e) = Parser::new().with_zip(&bytes) {
        panic!("Error: {e:#?}")
    };
}

#[test]
fn file() {
    if let Err(e) = Parser::new().with_file(&ordinary_day()) {
        panic!("Error: {e:#?}")
    };
}

#[test]
fn day_2023_10_26() {
    let document = ordinary_day();

    if let Err(e) =
        Parser::new().with_reader_format_hint(&document[..], Some(DateFormat::TSeparated))
    {
        panic!("Error: {e:#?}");
    }
}

#[test]
fn year_2023() {
    let document = document(&format!(
        "{STATION}<adresse>A</adresse><ville>B</ville>\
         <prix nom=\"Gazole\" id=\"1\" maj=\"2023-01-02T08:30:25\" valeur=\"1.843\"/>\
         <prix nom=\"Gazole\" id=\"1\" maj=\"2023-06-02T08:30:25\" valeur=\"1.753\"/>\
         <prix nom=\"GPLc\" id=\"4\" maj=\"2023-06-02T08:30:25\" valeur=\"0.99\"/></pdv>"
    ));

    if let Err(e) =
        Parser::new().with_reader_format_hint(&document[..], Some(DateFormat::TSeparated))
    {
        panic!("Error: {e:#?}");
    }
}

// Missing a 'ville'
#[test]
fn year_2018() {
    let document = document(&format!(
        "{STATION}<adresse>A</adresse><ville/>\
         <prix nom=\"Gazole\" id=\"1\" maj=\"2018-01-02T08:30:25\" valeur=\"1.343\"/></pdv>"
    ));

    if let Err(e) =
        Parser::new().with_reader_format_hint(&document[..], Some(DateFormat::TSeparated))
    {
        panic!("Error: {e:#?}");
    }
}

#[test]
fn instant() {
    let document = with_children(
        "<prix nom=\"Gazole\" id=\"1\" maj=\"2023-10-27 16:16:16\" valeur=\"1.813\"/>",
    );

    if let Err(e) =
        Parser::new().with_reader_format_hint(&document[..], Some(DateFormat::Spaced))
    {
        panic!("Error: {e:#?}");
    }
}

#[test]
fn a_station_is_read_in_full() {
    let stations = read(&ordinary_day()).unwrap();
    assert_eq!(stations.len(), 2);
    let s = &stations[0];
    assert_eq!(s.id, "1000001");
    assert_eq!(s.location.zip_code, "01000");
    assert_eq!(s.location.address, "596 AVENUE DE TREVOUX");
    // The document was written in UTF-8 and is read in windows-1252.
    assert_eq!(
        s.location.city.as_deref(),
        Some("SAINT-DENIS-L\u{c3}\u{a8}S-BOURG")
    );
    assert_eq!(s.location.road, RoadKind::Regular);
    let c = s.location.coordinates.as_ref().unwrap();
    assert_eq!(c.latitude.text, "4620100");
    assert_eq!(c.longitude.text, "519800");
    assert_eq!(
        s.services,
        vec!["Station de gonflage".to_owned(), "Lavage automatique".to_owned()]
    );

    assert_eq!(s.prices.diesel.len(), 2);
    assert_eq!(s.prices.diesel[0].price.text, "1.843");
    assert_eq!(
        s.prices.diesel[0].updated_at,
        DateTime::Single(utc(2023, 10, 26, 6, 30, 25))
    );
    assert_eq!(s.prices.get(Fuel::Diesel)[1].price.text, "1.850");
    assert_eq!(s.prices.gasoline_98_octane.len(), 1);
    assert!(s.prices.gasoline_95_octane.is_empty());
    assert!(s.prices.lpg.is_empty());

    assert_eq!(s.shortages.gasoline_e85.len(), 1);
    assert_eq!(s.shortages.gasoline_e85[0].end, None);
    assert_eq!(
        s.shortages.gasoline_e10[0].end,
        Some(DateTime::Single(utc(2023, 10, 3, 10, 0, 0)))
    );

    assert_eq!(s.closings.len(), 2);
    assert!(s.closings[0].temporary);
    assert_eq!(
        s.closings[0].start,
        DateTime::Single(utc(2023, 1, 5, 9, 0, 0))
    );
    assert!(!s.closings[1].temporary);
    assert_eq!(s.closings[1].end, None);

    let schedule = s.schedule.as_ref().unwrap();
    assert!(schedule.automatic);
    match &schedule.days[0] {
        Hours::Open(openings) => {
            assert_eq!(openings.len(), 2);
            assert_eq!(openings[0].opening, TimeOfDay { hour: 8, minute: 30 });
            assert_eq!(openings[1].closing, TimeOfDay { hour: 18, minute: 45 });
        }
        Hours::Closed => panic!("open on Monday"),
    }
    assert!(matches!(schedule.days[1], Hours::Open(ref v) if v.is_empty()));
    assert!(matches!(schedule.days[2], Hours::Closed));
    assert!(matches!(schedule.days[6], Hours::Closed));

    let other = &stations[1];
    assert_eq!(other.id, "1000002");
    assert_eq!(other.location.road, RoadKind::Highway);
    assert!(other.location.coordinates.is_none());
    assert!(other.location.city.is_none());
    assert!(other.schedule.is_none());
    assert!(other.prices.diesel.is_empty());
}

#[test]
fn lists_are_those_of_the_elements_in_order() {
    let children: String = [
        ("E10", "1.1"),
        ("SP98", "2.1"),
        ("E10", "1.3"),
        ("E10", "1.2"),
        ("SP98", "2.0"),
    ]
    .iter()
    .map(|(fuel, price)| {
        format!(
            "<prix/><prix nom=\"{fuel}\" maj=\"2023-10-27T16:16:16\" valeur=\"{price}\"/>\
             <rupture/><fermeture/><rupture nom=\"{fuel}\" debut=\"2023-10-27T16:16:16\" fin=\"\"/>"
        )
    })
    .collect();
    let s = read_one(&with_children(&children));
    let prices = |fuel| s.prices.get(fuel).iter().map(|p| p.price.text.as_str()).collect::<Vec<_>>();
    assert_eq!(prices(Fuel::GasolineE10), vec!["1.1", "1.3", "1.2"]);
    assert_eq!(prices(Fuel::Gasoline98Octane), vec!["2.1", "2.0"]);
    assert!(prices(Fuel::Diesel).is_empty());
    assert_eq!(s.shortages.get(Fuel::GasolineE10).len(), 3);
    assert_eq!(s.shortages.get(Fuel::Gasoline98Octane).len(), 2);
    assert!(s.closings.is_empty());
    // The one that is malformed is counted among those with attributes.
    let bytes = with_children(&format!("{children}<prix/><prix nom=\"E9\"/>"));
    assert!(matches!(
        read_error(&bytes),
        Error::UnknownFuelType { path, .. } if path == "pdv_liste.pdv[0].prix[5]"
    ));
}

#[test]
fn later_elements_replace_earlier_ones() {
    let s = read_one(&with_children(
        "<adresse>2</adresse><ville/><services><service>a</service></services><services><service>b</service></services>",
    ));
    assert_eq!(s.location.address, "2");
    assert!(s.location.city.is_none());
    assert_eq!(s.services, vec!["b".to_owned()]);
}

#[test]
fn clones_are_equal() {
    let s = read(&ordinary_day()).unwrap();
    assert_eq!(format!("{:?}", s), format!("{:?}", s.clone()));
}

#[test]
fn documents_are_windows_1252() {
    let mut bytes = document(&format!("{STATION}<adresse>RUE DE L'\u{1}</adresse><ville>\u{2}</ville></pdv>"));
    for b in bytes.iter_mut() {
        match *b {
            1 => *b = 0xC9,
            2 => *b = 0x9C,
            _ => (),
        }
    }
    let s = read_one(&bytes);
    assert_eq!(s.location.address, "RUE DE L'\u{c9}");
    assert_eq!(s.location.city.as_deref(), Some("\u{153}"));
    let utf8 = Parser::with_options().re_encode(false).build();
    assert!(matches!(utf8.try_with_file(&bytes), Some(Err(Error::IO(_)))));
}

#[test]
fn every_byte_has_a_character() {
    let special = "\u{20AC}\u{81}\u{201A}\u{192}\u{201E}\u{2026}\u{2020}\u{2021}\u{2C6}\u{2030}\u{160}\u{2039}\u{152}\u{8D}\u{17D}\u{8F}\u{90}\u{2018}\u{2019}\u{201C}\u{201D}\u{2022}\u{2013}\u{2014}\u{2DC}\u{2122}\u{161}\u{203A}\u{153}\u{9D}\u{17E}\u{178}";
    let bytes: Vec<u8> = (0..=255).collect();
    let text: Vec<char> = feed::read_document(&bytes, true).unwrap().chars().collect();
    assert_eq!(text.len(), 256);
    for (b, c) in text.iter().enumerate() {
        let expected = if (0x80..0xA0).contains(&b) {
            special.chars().nth(b - 0x80).unwrap()
        } else {
            char::from(b as u8)
        };
        assert_eq!(*c, expected, "byte {b}");
    }
    // A byte order mark has no meaning in this encoding.
    assert_eq!(feed::read_document(b"\xEF\xBB\xBFa", true).unwrap(), "\u{ef}\u{bb}\u{bf}a");
    assert_eq!(feed::read_document(b"\xFF\xFEa\0", true).unwrap(), "\u{ff}\u{fe}a\0");
    assert_eq!(feed::read_document(b"", true).unwrap(), "");
    let long: Vec<u8> = (0..100_000usize).map(|i| (i % 251) as u8).collect();
    assert_eq!(feed::read_document(&long, true).unwrap().chars().count(), 100_000);
}

#[test]
fn utf8_is_read_as_it_is() {
    assert_eq!(feed::read_document("\u{e9}\u{20ac}a".as_bytes(), false).unwrap(), "\u{e9}\u{20ac}a");
    assert!(feed::read_document(b"a\xE9", false).is_err());
    let s = Parser::with_options()
        .re_encode(false)
        .build()
        .with_file(&document(&format!("{STATION}<adresse>\u{e9}</adresse></pdv>")))
        .unwrap();
    assert_eq!(s[0].location.address, "\u{e9}");
}

#[test]
fn ascii_reads_the_same_in_both_encodings() {
    let bytes = with_children(WEEK);
    let a = Parser::new().with_reader(&bytes).unwrap();
    let b = Parser::with_options().re_encode(false).build().with_reader(&bytes).unwrap();
    assert_eq!(format!("{a:?}"), format!("{b:?}"));
}

#[test]
fn unknown_nodes_are_refused_only_strictly() {
    let bytes = with_children("<inconnu/>");
    assert!(matches!(
        read_error(&bytes),
        Error::UnhandledNode { path, node } if path == "pdv_liste.pdv[0]" && node == "inconnu"
    ));
    let lenient = Parser::with_options().strict(false).build();
    assert_eq!(lenient.try_with_file(&bytes).unwrap().unwrap().len(), 1);
    // Wherever the unknown element stands, the station is the same.
    let first = document(&format!(
        "{STATION}<inconnu a=\"1\"><x/></inconnu><adresse>1 RUE DU LAC</adresse><ville>Bourg</ville></pdv>"
    ));
    assert_eq!(
        format!("{:?}", lenient.try_with_file(&first)),
        format!("{:?}", lenient.try_with_file(&with_children("")))
    );
    // However many there are, and in whichever stations, the document reads the same.
    let two = |unknown: &str| {
        let one = format!("{STATION}{unknown}<adresse>a</adresse>{unknown}<ville>b</ville>{unknown}</pdv>");
        document(&format!("{one}{one}"))
    };
    assert_eq!(
        format!("{:?}", lenient.try_with_file(&two("<x/><y>t</y>"))),
        format!("{:?}", lenient.try_with_file(&two("")))
    );
    // Where nothing is unknown, both give the same.
    let known = with_children(WEEK);
    assert_eq!(
        format!("{:?}", lenient.try_with_file(&known)),
        format!("{:?}", Parser::new().try_with_file(&known))
    );
}

#[test]
fn options_are_kept() {
    assert_eq!(Parser::with_options().build(), Parser::new());
    assert_eq!(Parser::default(), Parser::new());
    let p = Parser::with_options()
        .strict(false)
        .date_format(DateFormat::TSeparated)
        .re_encode(false)
        .date_format(DateFormat::Spaced)
        .build();
    assert!(!p.strict);
    assert!(!p.re_encode);
    assert_eq!(p.date_format, Some(DateFormat::Spaced));
}

#[test]
fn the_own_format_wins_over_the_hint() {
    let spaced = with_children("<prix nom=\"E10\" maj=\"2023-10-27 16:16:16\" valeur=\"1\"/>");
    let own = Parser::with_options().date_format(DateFormat::Spaced).build();
    assert!(own.checked_reader(&spaced, Some(DateFormat::TSeparated)).unwrap().is_ok());
    assert!(matches!(
        Parser::new().checked_reader(&spaced, None).unwrap(),
        Err(Error::InvalidDate { path, .. }) if path == "pdv_liste.pdv[0].prix[0]"
    ));
    assert!(Parser::new().checked_reader(&spaced, Some(DateFormat::Spaced)).unwrap().is_ok());
}

#[test]
fn one_station_for_each_element() {
    let stations: String = (0..5)
        .map(|i| format!("<pdv id=\"{i}\" latitude=\"1\" longitude=\"2\" cp=\"0\" pop=\"N\"><adresse>x</adresse></pdv>"))
        .collect();
    let stations = read(&document(&stations)).unwrap();
    let ids: Vec<&str> = stations.iter().map(|s| s.id.as_str()).collect();
    assert_eq!(ids, vec!["0", "1", "2", "3", "4"]);
    assert!(stations.iter().all(|s| s.location.road == RoadKind::Unspecified));
    assert!(read(&document("")).unwrap().is_empty());
    // The list may stand deeper in the document, and only the first one counts.
    let deep = b"<a><b/><pdv_liste><x><pdv id='9'/></x></pdv_liste><pdv_liste><pdv/></pdv_liste></a>";
    assert!(read(deep).unwrap().is_empty());
}

#[test]
fn documents_without_a_list() {
    assert!(matches!(
        read_error(b"<a/>"),
        Error::MissingNode { path, node } if path.is_empty() && node == "pdv_liste"
    ));
    assert!(matches!(read_error(b"<a>"), Error::Parsing(_)));
    assert!(matches!(read_error(b""), Error::Parsing(_)));
}

#[test]
fn missing_attributes() {
    assert!(matches!(
        read_error(&document("<pdv latitude=\"1\" longitude=\"2\" cp=\"0\" pop=\"N\"><adresse>x</adresse></pdv>")),
        Error::MissingAttribute { path, attribute: "id" } if path == "pdv_liste.pdv[0]"
    ));
    assert!(matches!(
        read_error(&document("<pdv id=\"1\" latitude=\"1\" longitude=\"2\" pop=\"N\"><adresse>x</adresse></pdv>")),
        Error::MissingAttribute { attribute: "cp", .. }
    ));
    // The address is missed before the zip code.
    assert!(matches!(
        read_error(&document("<pdv id=\"1\" latitude=\"1\" longitude=\"2\" pop=\"N\"/>")),
        Error::MissingNode { path, node } if path == "pdv_liste.pdv[0]" && node == "adresse"
    ));
    assert!(matches!(
        read_error(&with_children("<prix nom=\"E10\" valeur=\"1\"/>")),
        Error::MissingAttribute { path, attribute: "maj" } if path == "pdv_liste.pdv[0].prix[0]"
    ));
    // An attribute of another namespace is another attribute.
    assert!(matches!(
        read_error(b"<pdv_liste xmlns:x='u'><pdv x:id='1' latitude='' longitude='' cp='' pop='N'><adresse>x</adresse></pdv></pdv_liste>"),
        Error::MissingAttribute { attribute: "id", .. }
    ));
}

#[test]
fn malformed_values() {
    assert!(matches!(
        read_error(&document("<pdv id=\"1\" latitude=\"x\" longitude=\"2\" cp=\"0\" pop=\"N\"><adresse>x</adresse></pdv>")),
        Error::InvalidFloat { path, value } if path == "pdv_liste.pdv[0]" && value == "x"
    ));
    assert!(matches!(
        read_error(&document("<pdv id=\"1\" latitude=\"1\" longitude=\"2\" cp=\"0\" pop=\"Z\"><adresse>x</adresse></pdv>")),
        Error::InvalidRoadKind(path) if path == "pdv_liste.pdv[0]"
    ));
    assert!(matches!(
        read_error(&with_children("<prix nom=\"E10\" maj=\"2023-10-27T16:16:16\" valeur=\"1,5\"/>")),
        Error::InvalidFloat { path, value } if path == "pdv_liste.pdv[0].prix[0]" && value == "1,5"
    ));
    assert!(matches!(
        read_error(&with_children("<prix/><prix nom=\"E10\" maj=\"2023-10-27T16:16:16\" valeur=\"1\"/><prix nom=\"Huile\" valeur=\"1\"/>")),
        Error::UnknownFuelType { path, fuel } if path == "pdv_liste.pdv[0].prix[1]" && fuel == "Huile"
    ));
    assert!(matches!(
        read_error(&with_children("<rupture nom=\"E10\" debut=\"hier\" fin=\"\"/>")),
        Error::InvalidDate { path, .. } if path == "pdv_liste.pdv[0].shortage[0]"
    ));
    assert!(matches!(
        read_error(&with_children("<fermeture type=\"X\" debut=\"2023-10-27T16:16:16\" fin=\"\"/>")),
        Error::InvalidClosingType(path) if path == "pdv_liste.pdv[0].fermeture[0]"
    ));
    assert!(matches!(
        read_error(&with_children("<prix nom=\"E10\" maj=\"2023-03-26T02:30:00\" valeur=\"1\"/>")),
        Error::InexistentDateTime(path) if path == "pdv_liste.pdv[0].prix[0]"
    ));
    assert!(matches!(
        read_error(&document(&format!("{STATION}<adresse/></pdv>"))),
        Error::MissingValue(path) if path == "pdv_liste.pdv[0].adresse"
    ));
    assert!(matches!(
        read_error(&with_children("<services><service>a</service><x/></services>")),
        Error::UnexpectedNode { path, got, expected: "service" }
            if path == "pdv_liste.pdv[0].services" && got == "x"
    ));
    assert!(matches!(
        read_error(&with_children("<services><service>a</service><service/></services>")),
        Error::MissingValue(path) if path == "pdv_liste.pdv[0].services.service[1]"
    ));
}

#[test]
fn malformed_opening_times() {
    let week = |days: &str| with_children(&format!("<horaires automate-24-24=\"\">{days}</horaires>"));
    assert!(matches!(
        read_error(&with_children("<horaires automate-24-24=\"0\"/>")),
        Error::MalformedBool(path) if path == "pdv_liste.pdv[0].horaires"
    ));
    assert!(matches!(
        read_error(&week("<jour id=\"2\" ferme=\"1\"/>")),
        Error::MissingNode { path, node } if path == "pdv_liste.pdv[0].horaires" && node == "jour[0]"
    ));
    assert!(matches!(
        read_error(&week("<jour id=\"1\" ferme=\"1\"/><x/>")),
        Error::UnexpectedNode { path, got, expected: "jour" }
            if path == "pdv_liste.pdv[0].horaires" && got == "x"
    ));
    assert!(matches!(
        read_error(&week("<jour id=\"1\" ferme=\"\"><x/></jour>")),
        Error::UnexpectedNode { path, got, expected: "horaire" }
            if path == "pdv_liste.pdv[0].horaires.jour[0]" && got == "x"
    ));
    assert!(matches!(
        read_error(&week("<jour id=\"1\" ferme=\"1\"/><jour id=\"z\" ferme=\"\"/>")),
        Error::InvalidInt { path, .. } if path == "pdv_liste.pdv[0].horaires.jour[1]"
    ));
    assert!(matches!(
        read_error(&week("<jour id=\"1\" ferme=\"\"><horaire ouverture=\"08.00\" fermeture=\"12.00\"/><horaire ouverture=\"0800\" fermeture=\"12.00\"/></jour>")),
        Error::InvalidTimeOfDay(path) if path == "pdv_liste.pdv[0].horaires.jour[0].horaire[1]"
    ));
    assert!(matches!(
        read_error(&week("<jour id=\"1\" ferme=\"\"><horaire ouverture=\"256.00\" fermeture=\"12.00\"/></jour>")),
        Error::InvalidInt { path, .. } if path == "pdv_liste.pdv[0].horaires.jour[0].horaire[0]"
    ));
}

#[test]
fn a_day_is_as_its_last_description_says() {
    let mut days: String = (1..=7).map(|d| format!("<jour id=\"{d}\" ferme=\"1\"/>")).collect();
    days.push_str("<jour id=\"3\" ferme=\"\"><horaire ouverture=\"1.2\" fermeture=\"3.4\"/></jour>");
    let s = read_one(&with_children(&format!("<horaires automate-24-24=\"\">{days}</horaires>")));
    let schedule = s.schedule.unwrap();
    assert!(!schedule.automatic);
    assert_eq!(schedule.days.iter().filter(|d| matches!(d, Hours::Closed)).count(), 6);
    assert!(matches!(&schedule.days[2], Hours::Open(v) if v[0].closing == TimeOfDay { hour: 3, minute: 4 }));
}

#[test]
fn days_outside_of_the_week_have_no_answer() {
    for id in ["0", "8", "-1", "9223372036854775807"] {
        let bytes = with_children(&format!(
            "<horaires automate-24-24=\"\"><jour id=\"{id}\" ferme=\"1\"/></horaires>"
        ));
        assert!(Parser::new().try_with_file(&bytes).is_none());
        assert!(Parser::new().checked_reader(&bytes, None).is_none());
        assert!(Parser::new().try_with_zip(&archive(&[("a", &bytes)])).is_none());
    }
    // An error that comes first is given all the same.
    let bytes = with_children(
        "<inconnu/><horaires automate-24-24=\"\"><jour id=\"8\" ferme=\"1\"/></horaires>",
    );
    assert!(matches!(read_error(&bytes), Error::UnhandledNode { .. }));
}

#[test]
fn archives() {
    let day = ordinary_day();
    let p = Parser::new();
    assert_eq!(p.try_with_zip(&archive(&[("a.xml", &day)])).unwrap().unwrap().len(), 2);
    // The first file counts.
    let two = archive(&[("b.xml", &document("")), ("a.xml", &day)]);
    assert!(p.try_with_zip(&two).unwrap().unwrap().is_empty());
    assert!(matches!(p.try_with_zip(&archive(&[])), Some(Err(Error::NoData))));
    assert!(matches!(p.try_with_zip(b"no archive"), Some(Err(Error::Archive(_)))));
    assert!(matches!(p.try_with_zip(&archive(&[("a", b"<x>")])), Some(Err(Error::Parsing(_)))));
    let spaced = with_children("<prix nom=\"E10\" maj=\"2023-10-27 16:16:16\" valeur=\"1\"/>");
    let zipped = archive(&[("a", &spaced)]);
    assert!(p.with_archive(&zipped, Some(DateFormat::Spaced)).is_ok());
    assert!(matches!(p.with_archive(&zipped, None), Err(Error::InvalidDate { .. })));
}

#[test]
fn parts_of_archives() {
    let p = Parser::new();
    let name = |s: &str| s.to_owned();
    assert_eq!(parser::choose_file(Ok(vec![name("b"), name("a")])).unwrap(), "b");
    assert!(matches!(parser::choose_file(Ok(Vec::new())), Err(Error::NoData)));
    assert!(matches!(
        parser::choose_file(Err(zip::result::ZipError::FileNotFound)),
        Err(Error::Archive(zip::result::ZipError::FileNotFound))
    ));
    assert_eq!(p.checked_content(Ok(Ok(ordinary_day())), None).unwrap().unwrap().len(), 2);
    assert!(matches!(
        p.checked_content(Ok(Err(std::io::Error::other("x"))), None),
        Some(Err(Error::IO(e))) if e.to_string() == "x"
    ));
    assert!(matches!(
        p.checked_content(Err(zip::result::ZipError::FileNotFound), None),
        Some(Err(Error::Archive(zip::result::ZipError::FileNotFound)))
    ));
}

#[test]
fn errors_are_handed_on() {
    let p = Parser::new();
    assert!(matches!(
        p.checked_text(Err(std::io::Error::other("y")), None),
        Some(Err(Error::IO(e))) if e.to_string() == "y"
    ));
    assert_eq!(p.checked_text(Ok("<pdv_liste/>".to_owned()), None).unwrap().unwrap().len(), 0);
    assert!(matches!(
        parser::read_parsed(Err(roxmltree::Error::NoRootNode), true, DateFormat::Spaced),
        Some(Err(Error::Parsing(roxmltree::Error::NoRootNode)))
    ));
    assert!(matches!(
        parser::read_parsed(Ok(Vec::new()), true, DateFormat::Spaced),
        Some(Err(Error::MissingNode { .. }))
    ));
    let no_number = "x".parse::<i64>().unwrap_err();
    assert!(matches!(
        fioul::attr::parsed_int::<i64>(Err(no_number.clone()), "here"),
        Err(Error::InvalidInt { path, err }) if path == "here" && err == no_number
    ));
    assert_eq!(fioul::attr::parsed_int(Ok(7u8), "here").unwrap(), 7);
    let no_date = chrono::NaiveDate::parse_from_str("x", "%Y").unwrap_err();
    assert!(matches!(
        time::dated(Err(no_date), "here"),
        Err(Error::InvalidDate { path, err }) if path == "here" && err == no_date
    ));
    let t = Timestamp { seconds: 1, nanos: 0 };
    assert!(matches!(
        time::dated(Ok(time::LocalTime::Once(t)), "here"),
        Ok(DateTime::Single(u)) if u == t
    ));
    assert!(matches!(
        time::dated(Ok(time::LocalTime::Twice(t, t)), "here"),
        Ok(DateTime::Ambiguous(_, _))
    ));
    // What the standard library and chrono say of a text is what the document's error carries.
    let price = |value: &str| with_children(&format!("<prix nom=\"E10\" maj=\"{value}\" valeur=\"1\"/>"));
    let expected = chrono::NaiveDateTime::parse_from_str("2023", "%Y-%m-%dT%H:%M:%S").unwrap_err();
    assert!(matches!(
        read_error(&price("2023")),
        Error::InvalidDate { err, .. } if err == expected
    ));
    let day = with_children("<horaires automate-24-24=\"\"><jour id=\"x\" ferme=\"1\"/></horaires>");
    assert!(matches!(
        read_error(&day),
        Error::InvalidInt { err, .. } if err == no_number
    ));
}

#[test]
fn damaged_archives() {
    // The content of a stored file is changed, so that its checksum is wrong.
    let mut writer = zip::ZipWriter::new(Cursor::new(Vec::new()));
    let options = zip::write::SimpleFileOptions::default()
        .compression_method(zip::CompressionMethod::Stored);
    writer.start_file("a.xml", options).unwrap();
    writer.write_all(b"<pdv_liste>MARK</pdv_liste>").unwrap();
    let mut bytes = writer.finish().unwrap().into_inner();
    let at = bytes.windows(4).position(|w| w == b"MARK").unwrap();
    bytes[at] = b'N';
    assert!(matches!(Parser::new().try_with_zip(&bytes), Some(Err(Error::IO(_)))));
}

#[test]
fn replies_of_the_upstream() {
    let p = Parser::new();
    let missing = "<!DOCTYPE html><p>Le fichier \u{e0} cette date n\u{2019}existe plus.</p>";
    let unavailable = "<!DOCTYPE html>Les donn\u{e9}es \u{e0} cette date ne sont pas disponible.";
    let other = "<!DOCTYPE html>Le fichier \u{e0} cette date n'existe plus.";
    assert_eq!(feed::classify(missing.as_bytes()), Body::Missing);
    assert_eq!(feed::classify(unavailable.as_bytes()), Body::Missing);
    assert_eq!(feed::classify(other.as_bytes()), Body::Unexpected);
    assert_eq!(feed::classify(b"<!DOCTYPE html"), Body::Archive);
    assert_eq!(feed::classify(missing[1..].as_bytes()), Body::Archive);
    assert!(matches!(p.checked_body(missing.as_bytes(), None), Some(Err(Error::NotFound))));
    assert!(matches!(p.checked_body(unavailable.as_bytes(), None), Some(Err(Error::NotFound))));
    assert!(p.checked_body(other.as_bytes(), None).is_none());
    assert!(matches!(p.checked_body(b"PK", None), Some(Err(Error::Archive(_)))));
    let zipped = archive(&[("a", &ordinary_day())]);
    assert_eq!(p.checked_body(&zipped, Some(DateFormat::TSeparated)).unwrap().unwrap().len(), 2);
}

#[test]
fn feeds_have_addresses() {
    assert_eq!(Feed::Instant.url(), "https://donnees.roulez-eco.fr/opendata/instantane");
    assert_eq!(Feed::Daily.url(), "https://donnees.roulez-eco.fr/opendata/jour");
    assert_eq!(Feed::Yearly.url(), "https://donnees.roulez-eco.fr/opendata/annee");
    assert_eq!(
        Feed::ArchivedYear { year: 2020 }.url(),
        "https://donnees.roulez-eco.fr/opendata/annee/2020"
    );
    assert_eq!(
        Feed::ArchivedDay { year: 2023, month: 10, day: 5 }.url(),
        "https://donnees.roulez-eco.fr/opendata/jour/20231005"
    );
    assert_eq!(
        Feed::ArchivedDay { year: 2023, month: 3, day: 5 }.url(),
        "https://donnees.roulez-eco.fr/opendata/jour/20230305"
    );
    assert_eq!(
        Feed::ArchivedDay { year: 2023, month: 3, day: 5 }.date_format(),
        DateFormat::TSeparated
    );
    assert_eq!(
        Feed::ArchivedDay { year: 2023, month: 12, day: 31 }.url(),
        "https://donnees.roulez-eco.fr/opendata/jour/20231231"
    );
    assert_eq!(Feed::Instant.date_format(), DateFormat::Spaced);
    assert_eq!(Feed::Daily.date_format(), DateFormat::TSeparated);
    assert_eq!(Feed::ArchivedYear { year: 1 }.date_format(), DateFormat::TSeparated);
}

#[test]
fn dates_are_local_times_of_france() {
    let read = |v: &str, format| time::parse_date(v, format, "p");
    assert!(matches!(
        read("2023-07-01T12:00:00", DateFormat::TSeparated),
        Ok(DateTime::Single(t)) if t == utc(2023, 7, 1, 10, 0, 0)
    ));
    assert!(matches!(
        read("2023-01-01 00:30:00", DateFormat::Spaced),
        Ok(DateTime::Single(t)) if t == utc(2022, 12, 31, 23, 30, 0)
    ));
    match read("2023-10-29T02:30:00", DateFormat::TSeparated) {
        Ok(d @ DateTime::Ambiguous(a, b)) => {
            assert_eq!(a, utc(2023, 10, 29, 0, 30, 0));
            assert_eq!(b, utc(2023, 10, 29, 1, 30, 0));
            assert_eq!(time::later_date(d), b);
            assert_eq!(time::later_date(DateTime::Ambiguous(b, a)), b);
        }
        other => panic!("unexpected: {other:?}"),
    }
    assert!(matches!(
        read("2023-03-26T02:30:00", DateFormat::TSeparated),
        Err(Error::InexistentDateTime(p)) if p == "p"
    ));
    assert!(matches!(
        read("2023-07-01 12:00:00", DateFormat::TSeparated),
        Err(Error::InvalidDate { path, .. }) if path == "p"
    ));
    assert!(read("2023-02-30T12:00:00", DateFormat::TSeparated).is_err());
    assert!(read("2023-07-01T12:00:00Z", DateFormat::TSeparated).is_err());
    assert!(matches!(
        time::resolve(time::LocalTime::Never, "q"),
        Err(Error::InexistentDateTime(p)) if p == "q"
    ));
}

#[test]
fn formats_exclude_each_other() {
    let formats = [DateFormat::Spaced, DateFormat::TSeparated];
    let texts = [
        "2023-07-01 12:00:00", "2023-07-01T12:00:00", "2023-07-0112:00:00", "2023-7-1 1:2:3",
        "2023-7-1T1:2:3", "2023-07-01  12:00:00", "2023-07-01 T12:00:00", "2023-07-01T 12:00:00",
        "+2023-07-01T12:00:00", " 2023-07-01 12:00:00", "2023-07-01\t12:00:00", "T", "",
        "2023-03-26T02:30:00", "2023-03-26 02:30:00",
    ];
    for text in texts {
        let invalid = formats
            .iter()
            .filter(|f| matches!(time::parse_date(text, **f, "p"), Err(Error::InvalidDate { .. })))
            .count();
        assert!(invalid >= 1, "{text:?}");
    }
    let plain = [
        ("2023-07-01", "12:00:00"), ("2023-10-29", "02:30:00"), ("2023-03-26", "02:30:00"),
        ("2023-02-30", "12:00:00"), ("2023-13-01", "12:00:00"), ("0000-01-01", "00:00:00"),
        ("9999-12-31", "23:59:60"), ("2023-07-01", "24:00:00"),
    ];
    for (day, hour) in plain {
        let spaced = time::parse_date(&format!("{day} {hour}"), DateFormat::Spaced, "p");
        let separated = time::parse_date(&format!("{day}T{hour}"), DateFormat::TSeparated, "p");
        assert_eq!(format!("{spaced:?}"), format!("{separated:?}"));
    }
}

#[test]
fn numbers_are_those_of_the_standard_library() {
    let texts = [
        "", "0", "1", "1.", ".5", ".", "1.5", "-1.5", "+1.5", "1e5", "1E5", "1e+5", "1e-5", "1e",
        "e5", "1.5e3", ".e1", "1e5.0", "inf", "INF", "-inf", "+Infinity", "infinit", "nan", "NaN",
        "-nan", "na", "1_000", " 1", "1 ", "0x10", "1,5", "--1", "+-1", "+", "-", "1f", "\u{661}",
        "00012.500", "123456789012345678901234567890", "1e400", "infinityx", "i",
    ];
    for t in texts {
        assert_eq!(Real::parse(t).is_some(), t.parse::<f64>().is_ok(), "{t:?}");
        if let Some(r) = Real::parse(t) {
            assert_eq!(r.text, t);
        }
    }
}

#[test]
fn fuels_have_names() {
    let names = [
        ("Gazole", Fuel::Diesel),
        ("SP95", Fuel::Gasoline95Octane),
        ("SP98", Fuel::Gasoline98Octane),
        ("GPLc", Fuel::LPG),
        ("E10", Fuel::GasolineE10),
        ("E85", Fuel::GasolineE85),
    ];
    for (name, fuel) in names {
        assert_eq!(Fuel::parse(name, "").unwrap(), fuel);
    }
    assert!(Fuel::parse("gazole", "").is_err());
    assert!(Fuel::parse("", "").is_err());
}

#[test]
fn values_of_attributes() {
    use_bool("1", Some(true));
    use_bool("", Some(false));
    use_bool("0", None);
    use_bool("true", None);
    assert_eq!(
        fioul::attr::parse_time_of_day("07.05", "").unwrap(),
        TimeOfDay { hour: 7, minute: 5 }
    );
    // Only the first dot separates.
    assert!(matches!(
        fioul::attr::parse_time_of_day("1.2.3", "x"),
        Err(Error::InvalidInt { path, .. }) if path == "x"
    ));
    assert!(matches!(
        fioul::attr::parse_time_of_day("12h30", "x"),
        Err(Error::InvalidTimeOfDay(path)) if path == "x"
    ));
}

fn use_bool(s: &str, expected: Option<bool>) {
    match fioul::attr::empty_bool(s, "here") {
        Ok(b) => assert_eq!(Some(b), expected),
        Err(Error::MalformedBool(path)) => {
            assert_eq!(path, "here");
            assert_eq!(expected, None);
        }
        Err(e) => panic!("unexpected: {e:?}"),
    }
}

#[test]
fn nodes_become_stations() {
    let node = |parent: Option<usize>, element: bool, name: &str| xml::Node {
        parent,
        element,
        name: name.to_owned(),
        attributes: Vec::new(),
        text: None,
    };
    let attribute = |name: &str, value: &str| xml::Attribute {
        namespace: None,
        name: name.to_owned(),
        value: value.to_owned(),
    };
    let mut station = node(Some(1), true, "pdv");
    station.attributes = vec![
        attribute("id", "7"),
        attribute("latitude", ""),
        attribute("longitude", ""),
        attribute("pop", "A"),
        attribute("cp", "75000"),
    ];
    let mut address = node(Some(2), true, "adresse");
    address.text = Some("ici".to_owned());
    let nodes = vec![
        node(None, false, ""),
        node(Some(0), true, "pdv_liste"),
        station,
        address,
        node(Some(2), false, ""),
        node(Some(1), true, "autre"),
    ];
    let stations = parser::read_nodes(nodes, true, DateFormat::Spaced).unwrap().unwrap();
    assert_eq!(stations.len(), 1);
    assert_eq!(stations[0].id, "7");
    assert_eq!(stations[0].location.address, "ici");
    assert!(matches!(
        parser::read_nodes(vec![node(None, false, "")], true, DateFormat::Spaced),
        Some(Err(Error::MissingNode { .. }))
    ));
}

#[test]
fn errors_say_what_they_are() {
    assert_eq!(Error::NoData.message(), "fetched archive is empty");
    assert_eq!(Error::NotFound.message(), "file was not found");
    assert_eq!(read_error(b"<").message(), "could not parse XML document");
    assert_eq!(
        read_error(b"<a/>").message(),
        "document is missing the field 'pdv_liste' at path "
    );
    assert_eq!(
        read_error(&with_children("<x/>")).message(),
        "unknown node was encountered 'x' at path pdv_liste.pdv[0]"
    );
    assert_eq!(Error::MissingValue("p".to_owned()).message(), "node at 'p' is missing a text value");
    assert_eq!(
        Error::MissingAttribute { path: "p".to_owned(), attribute: "id" }.message(),
        "missing attribute 'id' at p"
    );
    assert_eq!(
        Error::UnexpectedNode { path: "p".to_owned(), got: "g".to_owned(), expected: "e" }.message(),
        "did not expect node 'g' at p, expected e"
    );
    assert_eq!(
        Error::MalformedBool("p".to_owned()).message(),
        "booleans are expected to be either '1' or ''"
    );
    assert_eq!(
        Error::InvalidFloat { path: "p".to_owned(), value: "v".to_owned() }.message(),
        "could not parse float at p"
    );
    assert_eq!(
        Error::UnknownFuelType { path: "p".to_owned(), fuel: "f".to_owned() }.message(),
        "fuel type at p is unknown: f"
    );
    assert_eq!(
        Error::InvalidTimeOfDay("p".to_owned()).message(),
        "time of day is not of the form HH.MM at p"
    );
    assert_eq!(Error::InexistentDateTime("p".to_owned()).message(), "datetime does not exist at p");
    assert_eq!(Error::InvalidClosingType("p".to_owned()).message(), "closing type at p is invalid");
    assert_eq!(Error::InvalidRoadKind("p".to_owned()).message(), "invalid road kind at p");
}
