//! Where the feeds are published, how their bytes hold a document, and what a server says when it
//! has none.

use std::io::{Cursor, Read};

use aho_corasick::AhoCorasick;
use encoding_rs::WINDOWS_1252;
use encoding_rs_io::DecodeReaderBytesBuilder;
use vstd::prelude::*;
use zip::result::ZipError;
use zip::ZipArchive;

#[allow(unused_imports)]
use crate::number;
use crate::text;
use crate::time::DateFormat;

verus! {

/// The character of a byte of the code page windows-1252.
pub open spec fn char_1252(b: u8) -> char {
    match b {
        0x80 => '\u{20AC}',
        0x82 => '\u{201A}',
        0x83 => '\u{0192}',
        0x84 => '\u{201E}',
        0x85 => '\u{2026}',
        0x86 => '\u{2020}',
        0x87 => '\u{2021}',
        0x88 => '\u{02C6}',
        0x89 => '\u{2030}',
        0x8A => '\u{0160}',
        0x8B => '\u{2039}',
        0x8C => '\u{0152}',
        0x8E => '\u{017D}',
        0x91 => '\u{2018}',
        0x92 => '\u{2019}',
        0x93 => '\u{201C}',
        0x94 => '\u{201D}',
        0x95 => '\u{2022}',
        0x96 => '\u{2013}',
        0x97 => '\u{2014}',
        0x98 => '\u{02DC}',
        0x99 => '\u{2122}',
        0x9A => '\u{0161}',
        0x9B => '\u{203A}',
        0x9C => '\u{0153}',
        0x9E => '\u{017E}',
        0x9F => '\u{0178}',
        _ => b as char,
    }
}

/// The text that bytes are in the code page windows-1252.
pub open spec fn windows_1252(bytes: Seq<u8>) -> Seq<char> {
    bytes.map_values(|b: u8| char_1252(b))
}

/// `DecodeReaderBytes::read_to_string` over a slice, built by `DecodeReaderBytesBuilder` with
/// `encoding_rs::WINDOWS_1252` as the encoding. Each byte gives its character of the code page,
/// without a look at a byte order mark, and no bytes are refused.
#[verifier::external_body]
fn decode_1252(bytes: &[u8]) -> (r: Result<String, std::io::Error>)
    ensures
        r is Ok,
        r matches Ok(s) ==> s@ == windows_1252(bytes@),
{
    let mut document = String::new();
    DecodeReaderBytesBuilder::new()
        .encoding(Some(WINDOWS_1252))
        .build(bytes)
        .read_to_string(&mut document)?;
    Ok(document)
}

/// `std::io::Read::read_to_string` over a slice. The bytes have to be UTF-8, and give the text
/// that they encode. Of the error nothing is said.
#[verifier::external_body]
fn read_utf8(bytes: &[u8]) -> (r: Result<String, std::io::Error>)
    ensures
        r is Ok <==> vstd::utf8::valid_utf8(bytes@),
        r matches Ok(s) ==> s@ == vstd::utf8::decode_utf8(bytes@),
{
    let mut document = String::new();
    let mut reader: &[u8] = bytes;
    reader.read_to_string(&mut document)?;
    Ok(document)
}

/// The text of a document, when its bytes hold one.
pub open spec fn document_text(bytes: Seq<u8>, re_encode: bool) -> Option<Seq<char>> {
    if re_encode {
        Some(windows_1252(bytes))
    } else if vstd::utf8::valid_utf8(bytes) {
        Some(vstd::utf8::decode_utf8(bytes))
    } else {
        None
    }
}

/// Bytes of ASCII are the same text in both encodings.
pub proof fn ascii_text(bytes: Seq<u8>)
    requires
        forall|i: int| 0 <= i < bytes.len() ==> bytes[i] < 0x80,
    ensures
        document_text(bytes, true) == document_text(bytes, false),
    decreases bytes.len(),
{
    if bytes.len() > 0 {
        let rest = bytes.skip(1);
        ascii_text(rest);
        let b = bytes[0];
        assert(b & 0x80 == 0 && (b & 0x7f) == b) by (bit_vector)
            requires
                b < 0x80,
        ;
        assert(vstd::utf8::pop_first_scalar(bytes) =~= rest);
        assert(windows_1252(bytes) =~= seq![b as char] + windows_1252(rest));
    } else {
        assert(windows_1252(bytes) =~= seq![]);
    }
}

/// Reads the text of a document, in the code page windows-1252 or in UTF-8.
pub fn read_document(bytes: &[u8], re_encode: bool) -> (r: Result<String, std::io::Error>)
    ensures
        r is Ok <==> document_text(bytes@, re_encode) is Some,
        r matches Ok(s) ==> document_text(bytes@, re_encode) == Some(s@),
{
    if re_encode {
        decode_1252(bytes)
    } else {
        read_utf8(bytes)
    }
}

/// The names of the files of an archive, when the bytes are one.
pub uninterp spec fn zip_names(archive: Seq<u8>) -> Option<Seq<Seq<char>>>;

/// `zip::ZipArchive::file_names` of the archive that `ZipArchive::new` finds in the bytes. The
/// names come in the order of the archive and are named `zip_names`; bytes that are no archive
/// are an error. Of the error nothing is said.
#[verifier::external_body]
pub(crate) fn file_names(archive: &[u8]) -> (r: Result<Vec<String>, ZipError>)
    ensures
        r is Ok <==> zip_names(archive@) is Some,
        r matches Ok(names) ==> zip_names(archive@) == Some(text::texts(names@)),
{
    let archive = ZipArchive::new(Cursor::new(archive))?;
    Ok(archive.file_names().map(|name| name.to_owned()).collect())
}

/// The content of a file of an archive: nothing where the file cannot be opened, and no content
/// where it can be opened but not read.
pub uninterp spec fn zip_file(archive: Seq<u8>, name: Seq<char>) -> Option<Option<Seq<u8>>>;

/// `zip::ZipArchive::by_name` and `std::io::Read::read_to_end` of the file that it opens. What
/// the file holds is named `zip_file`; a file that cannot be opened and a content that cannot be
/// read are errors of their own. Of the errors nothing is said.
#[verifier::external_body]
pub(crate) fn file_content(archive: &[u8], name: &str) -> (r: Result<
    Result<Vec<u8>, std::io::Error>,
    ZipError,
>)
    ensures
        r is Ok <==> zip_file(archive@, name@) is Some,
        r matches Ok(Err(_)) ==> zip_file(archive@, name@) == Some(None::<Seq<u8>>),
        r matches Ok(Ok(content)) ==> zip_file(archive@, name@) == Some(Some(content@)),
{
    let mut archive = ZipArchive::new(Cursor::new(archive))?;
    let mut file = archive.by_name(name)?;
    let mut content = Vec::new();
    Ok(file.read_to_end(&mut content).map(|_| content))
}

/// Whether `needle` stands somewhere in `haystack`.
pub open spec fn occurs(needle: Seq<u8>, haystack: Seq<u8>) -> bool {
    exists|i: int|
        0 <= i && i + needle.len() <= haystack.len() && #[trigger] haystack.subrange(
            i,
            i + needle.len(),
        ) == needle
}

/// `AhoCorasick::find` with an automaton of two patterns: there is a match when the bytes of one
/// of them stand somewhere in the haystack. `AhoCorasick::new` only fails on patterns that are
/// many or long.
#[verifier::external_body]
fn contains_either(haystack: &[u8], first: &str, second: &str) -> (r: bool)
    requires
        first@.len() <= 1000,
        second@.len() <= 1000,
    ensures
        r == (occurs(vstd::utf8::encode_utf8(first@), haystack@) || occurs(
            vstd::utf8::encode_utf8(second@),
            haystack@,
        )),
{
    AhoCorasick::new(&[first.as_bytes(), second.as_bytes()]).unwrap().find(haystack).is_some()
}

/// What a server sent in reply to a request for a feed.
#[derive(Debug, Clone, Copy, PartialEq, Eq, Structural)]
pub enum Body {
    /// An archive, as far as a look at its first bytes can tell
    Archive,
    /// A page that says that there is no such feed
    Missing,
    /// A page that says something else
    Unexpected,
}

pub open spec fn starts_with(bytes: Seq<u8>, prefix: Seq<u8>) -> bool {
    prefix.len() <= bytes.len() && bytes.take(prefix.len() as int) == prefix
}

/// What a body is.
pub open spec fn body_kind(body: Seq<u8>) -> Body {
    if !starts_with(body, vstd::utf8::encode_utf8("<!DOCTYPE html>"@)) {
        Body::Archive
    } else if occurs(
        vstd::utf8::encode_utf8("Le fichier à cette date n’existe plus."@),
        body,
    ) || occurs(
        vstd::utf8::encode_utf8("Les données à cette date ne sont pas disponible."@),
        body,
    ) {
        Body::Missing
    } else {
        Body::Unexpected
    }
}

/// Whether bytes start with those of a text.
fn begins(bytes: &[u8], prefix: &str) -> (r: bool)
    ensures
        r == starts_with(bytes@, vstd::utf8::encode_utf8(prefix@)),
{
    let wanted: &[u8] = prefix.as_bytes();
    if bytes.len() < wanted.len() {
        return false;
    }
    for i in 0..wanted.len()
        invariant
            wanted@ == vstd::utf8::encode_utf8(prefix@),
            wanted@.len() <= bytes@.len(),
            forall|j: int| 0 <= j < i ==> bytes@[j] == wanted@[j],
    {
        if bytes[i] != wanted[i] {
            assert(bytes@.take(wanted@.len() as int)[i as int] != wanted@[i as int]);
            return false;
        }
    }
    assert(bytes@.take(wanted@.len() as int) =~= wanted@);
    true
}

/// Tells apart what a server can send in reply to a request for a feed.
pub fn classify(body: &[u8]) -> (r: Body)
    ensures
        r == body_kind(body@),
{
    proof {
        reveal_strlit("Le fichier à cette date n’existe plus.");
        reveal_strlit("Les données à cette date ne sont pas disponible.");
    }
    if !begins(body, "<!DOCTYPE html>") {
        Body::Archive
    } else if contains_either(
        body,
        "Le fichier à cette date n’existe plus.",
        "Les données à cette date ne sont pas disponible.",
    ) {
        Body::Missing
    } else {
        Body::Unexpected
    }
}

/// A feed that can be asked for.
#[derive(Debug, Clone, Copy, PartialEq, Eq, Structural)]
pub enum Feed {
    /// The instantaneous feed of data (-10 minutes)
    Instant,
    /// The daily feed of data (updated at 05:00)
    Daily,
    /// The data for the current year
    Yearly,
    /// The data for an archived year, only goes back to 2007
    ArchivedYear { year: u16 },
    /// The data for a single archived day, only the last 30 days are available
    ArchivedDay { year: u16, month: u8, day: u8 },
}

/// A number with at least two digits.
pub open spec fn two_digits(n: nat) -> Seq<char> {
    if n < 10 {
        "0"@ + text::decimal_text(n)
    } else {
        text::decimal_text(n)
    }
}

/// Writes a number with at least two digits.
fn with_two_digits(n: u8) -> (s: String)
    ensures
        s@ == two_digits(n as nat),
{
    if n < 10 {
        "0".to_owned().concat(text::decimal(n as u64).as_str())
    } else {
        text::decimal(n as u64)
    }
}

/// Where a feed is published.
pub open spec fn url_of(feed: Feed) -> Seq<char> {
    match feed {
        Feed::Instant => "https://donnees.roulez-eco.fr/opendata/instantane"@,
        Feed::Daily => "https://donnees.roulez-eco.fr/opendata/jour"@,
        Feed::Yearly => "https://donnees.roulez-eco.fr/opendata/annee"@,
        Feed::ArchivedYear { year } => "https://donnees.roulez-eco.fr/opendata/annee/"@
            + text::decimal_text(year as nat),
        Feed::ArchivedDay { year, month, day } => "https://donnees.roulez-eco.fr/opendata/jour/"@
            + text::decimal_text(year as nat) + two_digits(month as nat) + two_digits(day as nat),
    }
}

impl Feed {
    /// Where the feed is published.
    pub fn url(&self) -> (s: String)
        ensures
            s@ == url_of(*self),
    {
        match *self {
            Feed::Instant => "https://donnees.roulez-eco.fr/opendata/instantane".to_owned(),
            Feed::Daily => "https://donnees.roulez-eco.fr/opendata/jour".to_owned(),
            Feed::Yearly => "https://donnees.roulez-eco.fr/opendata/annee".to_owned(),
            Feed::ArchivedYear {
                year,
            } => "https://donnees.roulez-eco.fr/opendata/annee/".to_owned().concat(
                text::decimal(year as u64).as_str(),
            ),
            Feed::ArchivedDay {
                year,
                month,
                day,
            } => "https://donnees.roulez-eco.fr/opendata/jour/".to_owned().concat(
                text::decimal(year as u64).as_str(),
            ).concat(with_two_digits(month).as_str()).concat(with_two_digits(day).as_str()),
        }
    }

    /// How the feed writes its dates.
    pub fn date_format(&self) -> (r: DateFormat)
        ensures
            r == (if *self is Instant {
                DateFormat::Spaced
            } else {
                DateFormat::TSeparated
            }),
    {
        match *self {
            Feed::Instant => DateFormat::Spaced,
            _ => DateFormat::TSeparated,
        }
    }
}

/// A page is one that begins as a page does. It says that there is no such data where one of the two
/// sentences stands in it that say so.
pub proof fn pages_say_that_data_is_missing(body: Seq<u8>)
    ensures
        ({
            let doctype = vstd::utf8::encode_utf8("<!DOCTYPE html>"@);
            let gone = vstd::utf8::encode_utf8("Le fichier à cette date n’existe plus."@);
            let absent = vstd::utf8::encode_utf8(
                "Les données à cette date ne sont pas disponible."@,
            );
            let is_page = exists|rest: Seq<u8>| body == #[trigger] (doctype + rest);
            let says_so = exists|before: Seq<u8>, rest: Seq<u8>|
                body == #[trigger] (before + gone + rest) || body == before + absent + rest;
            &&& body_kind(body) is Archive <==> !is_page
            &&& body_kind(body) is Missing <==> is_page && says_so
            &&& body_kind(body) is Unexpected <==> is_page && !says_so
        }),
{
    let doctype = vstd::utf8::encode_utf8("<!DOCTYPE html>"@);
    let gone = vstd::utf8::encode_utf8("Le fichier à cette date n’existe plus."@);
    let absent = vstd::utf8::encode_utf8("Les données à cette date ne sont pas disponible."@);
    if starts_with(body, doctype) {
        assert(body =~= doctype + body.skip(doctype.len() as int));
    }
    if exists|rest: Seq<u8>| body == #[trigger] (doctype + rest) {
        let rest = choose|rest: Seq<u8>| body == #[trigger] (doctype + rest);
        assert(body.take(doctype.len() as int) =~= doctype);
    }
    occurrences_split(gone, body);
    occurrences_split(absent, body);
    if occurs(absent, body) {
        let (before, rest) = choose|before: Seq<u8>, rest: Seq<u8>|
            body == #[trigger] (before + absent + rest);
        assert(body == before + absent + rest);
        let other = before + gone + rest;
    }
}

proof fn occurrences_split(needle: Seq<u8>, haystack: Seq<u8>)
    ensures
        occurs(needle, haystack) <==> exists|before: Seq<u8>, rest: Seq<u8>|
            haystack == #[trigger] (before + needle + rest),
{
    if occurs(needle, haystack) {
        let i = choose|i: int|
            0 <= i && i + needle.len() <= haystack.len() && #[trigger] haystack.subrange(
                i,
                i + needle.len(),
            ) == needle;
        let before = haystack.take(i);
        let rest = haystack.skip(i + needle.len());
        assert(haystack =~= before + needle + rest);
    }
    if exists|before: Seq<u8>, rest: Seq<u8>| haystack == #[trigger] (before + needle + rest) {
        let (before, rest) = choose|before: Seq<u8>, rest: Seq<u8>|
            haystack == #[trigger] (before + needle + rest);
        let i = before.len() as int;
        assert(haystack.subrange(i, i + needle.len()) =~= needle);
    }
}

/// Each feed is published under an address of its own: those of today, and those of a year and of a
/// day with the date behind them.
pub proof fn feeds_are_published_under_their_dates(year: u16, month: u8, day: u8)
    ensures
        url_of(Feed::Instant) == "https://donnees.roulez-eco.fr/opendata/instantane"@,
        url_of(Feed::Daily) == "https://donnees.roulez-eco.fr/opendata/jour"@,
        url_of(Feed::Yearly) == "https://donnees.roulez-eco.fr/opendata/annee"@,
        url_of(Feed::ArchivedYear { year }) == "https://donnees.roulez-eco.fr/opendata/annee/"@
            + text::decimal_text(year as nat),
        1000 <= year <= 9999 && month < 100 && day < 100 ==> exists|date: Seq<char>|
            url_of(Feed::ArchivedDay { year, month, day }) == #[trigger] (
            "https://donnees.roulez-eco.fr/opendata/jour/"@ + date) && date.len() == 8
                && number::all_digits(date) && number::digits_value(date) == year * 10000 + month
                * 100 + day,
{
    if 1000 <= year <= 9999 && month < 100 && day < 100 {
        let y = text::decimal_text(year as nat);
        let m = two_digits(month as nat);
        let d = two_digits(day as nat);
        number::decimal_text_denotes(year as nat);
        four_digits(year as nat);
        two_digits_denote(month as nat);
        two_digits_denote(day as nat);
        pair_behind(y, m);
        pair_behind(y + m, d);
        let base = "https://donnees.roulez-eco.fr/opendata/jour/"@;
        assert(base + y + m + d =~= base + (y + m + d));
        assert(number::all_digits(y + m + d)) by {
            assert forall|i: int| 0 <= i < (y + m + d).len() implies number::is_digit(
                #[trigger] (y + m + d)[i],
            ) by {
                if i < y.len() {
                    assert((y + m + d)[i] == y[i]);
                } else if i < y.len() + 2 {
                    assert((y + m + d)[i] == m[i - y.len()]);
                } else {
                    assert((y + m + d)[i] == d[i - y.len() - 2]);
                }
            }
        }
    }
}

proof fn four_digits(n: nat)
    requires
        1000 <= n <= 9999,
    ensures
        text::decimal_text(n).len() == 4,
{
    reveal_with_fuel(text::decimal_text, 5);
}

proof fn two_digits_denote(n: nat)
    requires
        n < 100,
    ensures
        two_digits(n).len() == 2,
        number::all_digits(two_digits(n)),
        number::digits_value(two_digits(n)) == n,
{
    reveal_strlit("0");
    number::decimal_text_denotes(n);
    reveal_with_fuel(text::decimal_text, 3);
    reveal_with_fuel(number::digits_value, 3);
    let s = two_digits(n);
    if n < 10 {
        assert(s =~= seq!['0', text::digit_char(n)]);
        assert(s.drop_last() =~= seq!['0']);
        assert(seq!['0'].drop_last() =~= Seq::<char>::empty());
    }
}

proof fn pair_behind(s: Seq<char>, pair: Seq<char>)
    requires
        pair.len() == 2,
    ensures
        number::digits_value(s + pair) == number::digits_value(s) * 100 + number::digits_value(
            pair,
        ),
{
    reveal_with_fuel(number::digits_value, 3);
    let all = s + pair;
    assert(all.drop_last() =~= s.push(pair[0]));
    assert(all.drop_last().drop_last() =~= s);
    assert(pair.drop_last() =~= seq![pair[0]]);
    assert(seq![pair[0]].drop_last() =~= Seq::<char>::empty());
}

/// A document is the text of its bytes in the one encoding or in the other: each byte a character of
/// the code page, or UTF-8.
pub proof fn documents_are_decoded(bytes: Seq<u8>)
    ensures
        document_text(bytes, true) matches Some(s) && s.len() == bytes.len() && forall|i: int|
            0 <= i < bytes.len() ==> #[trigger] s[i] == char_1252(bytes[i]),
        vstd::utf8::valid_utf8(bytes) ==> document_text(bytes, false) == Some(
            vstd::utf8::decode_utf8(bytes),
        ),
        !vstd::utf8::valid_utf8(bytes) ==> document_text(bytes, false) is None,
{
}

} // verus!
