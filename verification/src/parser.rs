//! Reads the stations of a document, of an archive that holds one, or of a server's reply.

use roxmltree::Error as XmlError;
use vstd::prelude::*;
use zip::result::ZipError;

use crate::error::Error;
#[allow(unused_imports)]
use crate::error::{self, ErrorView};
use crate::feed;
use crate::feed::Body;
use crate::model::Station;
#[allow(unused_imports)]
use crate::model::StationView;
use crate::station;
use crate::text;
use crate::time::DateFormat;
use crate::xml;
use crate::xml::{Element, Node};
#[allow(unused_imports)]
use crate::xml::{ElementView, NodeView};

verus! {

/// Main entry point of the crate, storing the parsing options.
#[derive(Debug, Clone, Copy, PartialEq, Eq, Structural)]
pub struct Parser {
    pub strict: bool,
    pub re_encode: bool,
    pub date_format: Option<DateFormat>,
}

/// This struct allows to customize the parsing options, with [Parser::with_options].
#[derive(Debug, Clone, Copy, PartialEq, Eq, Structural)]
pub struct ParserBuilder {
    pub strict: bool,
    pub re_encode: bool,
    pub date_format: Option<DateFormat>,
}

impl Parser {
    /// The options that are used where none are chosen.
    pub open spec fn spec_default() -> Parser {
        Parser { strict: true, re_encode: true, date_format: None }
    }
}

impl ParserBuilder {
    pub open spec fn with_strict(self, strict: bool) -> ParserBuilder {
        ParserBuilder { strict, ..self }
    }

    pub open spec fn with_re_encode(self, re_encode: bool) -> ParserBuilder {
        ParserBuilder { re_encode, ..self }
    }

    pub open spec fn with_date_format(self, format: DateFormat) -> ParserBuilder {
        ParserBuilder { date_format: Some(format), ..self }
    }

    /// The parser with the options of the builder.
    pub open spec fn built(self) -> Parser {
        Parser { strict: self.strict, re_encode: self.re_encode, date_format: self.date_format }
    }

    /// The builder before any option is chosen.
    pub open spec fn spec_default() -> ParserBuilder {
        ParserBuilder { strict: true, re_encode: true, date_format: None }
    }
}

/// The stations of a feed, or why they could not be read.
pub type Parsed = Result<Vec<Station>, Error>;

/// The elements called `name`, in their order.
pub open spec fn called(nodes: Seq<ElementView>, name: Seq<char>) -> Seq<ElementView> {
    nodes.filter(|e: ElementView| e.name == name)
}

/// The path of the station at a place.
pub open spec fn station_path(i: nat) -> Seq<char> {
    text::indexed_name("pdv_liste.pdv"@, i)
}

/// The stations of the elements from `i` on. There is no answer where a station has none.
pub open spec fn stations_from(
    nodes: Seq<ElementView>,
    i: int,
    strict: bool,
    format: DateFormat,
) -> Option<Result<Seq<StationView>, ErrorView>>
    decreases nodes.len() - i,
{
    if i >= nodes.len() {
        Some(Ok(seq![]))
    } else {
        match station::station_of(nodes[i], station_path(i as nat), strict, format) {
            None => None,
            Some(Err(e)) => Some(Err(e)),
            Some(Ok(first)) => match stations_from(nodes, i + 1, strict, format) {
                None => None,
                Some(Err(e)) => Some(Err(e)),
                Some(Ok(rest)) => Some(Ok(seq![first] + rest)),
            },
        }
    }
}

/// The stations of a document.
pub open spec fn document_stations(
    nodes: Seq<NodeView>,
    strict: bool,
    format: DateFormat,
) -> Option<Result<Seq<StationView>, ErrorView>> {
    match xml::first_element(nodes, "pdv_liste"@) {
        None => Some(Err(ErrorView::MissingNode { path: ""@, node: "pdv_liste"@ })),
        Some(list) => stations_from(called(list.children, "pdv"@), 0, strict, format),
    }
}

/// The format of the dates: the one of the options, or else the hint, or else `TSeparated`.
pub open spec fn chosen_format(own: Option<DateFormat>, hint: Option<DateFormat>) -> DateFormat {
    match own {
        Some(format) => format,
        None => match hint {
            Some(format) => format,
            None => DateFormat::TSeparated,
        },
    }
}

/// The stations of the document that a text holds.
pub open spec fn text_answer(parser: Parser, document: Seq<char>, hint: Option<DateFormat>) -> Option<
    Result<Seq<StationView>, ErrorView>,
> {
    match xml::xml_nodes(document) {
        None => Some(Err(ErrorView::Parsing)),
        Some(nodes) => document_stations(
            nodes,
            parser.strict,
            chosen_format(parser.date_format, hint),
        ),
    }
}

/// The stations of the document that bytes hold.
pub open spec fn answer(parser: Parser, bytes: Seq<u8>, hint: Option<DateFormat>) -> Option<
    Result<Seq<StationView>, ErrorView>,
> {
    match feed::document_text(bytes, parser.re_encode) {
        None => Some(Err(ErrorView::IO)),
        Some(document) => text_answer(parser, document, hint),
    }
}

/// The stations of a file of an archive, as far as it can be opened and read.
pub open spec fn content_answer(
    parser: Parser,
    content: Option<Option<Seq<u8>>>,
    hint: Option<DateFormat>,
) -> Option<Result<Seq<StationView>, ErrorView>> {
    match content {
        None => Some(Err(ErrorView::Archive)),
        Some(None) => Some(Err(ErrorView::IO)),
        Some(Some(content)) => answer(parser, content, hint),
    }
}

/// The stations of the first file of an archive.
pub open spec fn archive_answer(
    parser: Parser,
    archive: Seq<u8>,
    hint: Option<DateFormat>,
) -> Option<Result<Seq<StationView>, ErrorView>> {
    match chosen_file(feed::zip_names(archive)) {
        Err(e) => Some(Err(e)),
        Ok(name) => content_answer(parser, feed::zip_file(archive, name), hint),
    }
}

/// The stations of what a server sent. There is no answer where that is an unexpected page.
pub open spec fn body_answer(parser: Parser, body: Seq<u8>, hint: Option<DateFormat>) -> Option<
    Result<Seq<StationView>, ErrorView>,
> {
    match feed::body_kind(body) {
        Body::Missing => Some(Err(ErrorView::NotFound)),
        Body::Unexpected => None,
        Body::Archive => archive_answer(parser, body, hint),
    }
}

/// The children of an element that are called `name`.
fn children_called<'a>(node: &'a Element, name: &str) -> (r: Vec<&'a Element>)
    ensures
        r@.map_values(|e: &Element| e@) == called(node@.children, name@),
{
    let ghost all = node@.children;
    let ghost wanted = |e: ElementView| e.name == name@;
    proof {
        xml::children_view(*node);
    }
    let mut found: Vec<&'a Element> = Vec::new();
    for i in 0..node.children.len()
        invariant
            all == xml::elements(node.children@),
            wanted == (|e: ElementView| e.name == name@),
            found@.map_values(|e: &Element| e@) == all.take(i as int).filter(wanted),
    {
        let child: &'a Element = &node.children[i];
        let ghost before = found@;
        proof {
            assert(child@ == all[i as int]);
            assert(all.take(i + 1).drop_last() =~= all.take(i as int));
            assert(all.take(i + 1).last() == child@);
            reveal(Seq::filter);
        }
        if child.has_tag_name(name) {
            found.push(child);
            assert(found@.map_values(|e: &Element| e@) =~= before.map_values(
                |e: &Element| e@,
            ).push(child@));
        }
    }
    assert(all.take(all.len() as int) =~= all);
    found
}

/// Reads the stations of a document from its nodes. There is no answer where a station has a day
/// with a number outside of 1 to 7, unless an error comes before that day.
pub fn read_nodes(nodes: Vec<Node>, strict: bool, format: DateFormat) -> (r: Option<Parsed>)
    ensures
        error::seen_answer(r) == document_stations(xml::nodes_view(nodes@), strict, format),
{
    let list: Element = match xml::take_element(nodes, "pdv_liste") {
        Some(list) => list,
        None => {
            return Some(
                Err(Error::MissingNode { path: "".to_owned(), node: "pdv_liste".to_owned() }),
            );
        },
    };
    let found: Vec<&Element> = children_called(&list, "pdv");
    let ghost all = called(list@.children, "pdv"@);
    let mut stations: Vec<Station> = Vec::new();
    for i in 0..found.len()
        invariant
            found@.map_values(|e: &Element| e@) == all,
            xml::first_element(xml::nodes_view(nodes@), "pdv_liste"@) == Some(list@),
            all == called(list@.children, "pdv"@),
            stations_from(all, 0, strict, format) == (match stations_from(
                all,
                i as int,
                strict,
                format,
            ) {
                None => None::<Result<Seq<StationView>, ErrorView>>,
                Some(Err(e)) => Some(Err(e)),
                Some(Ok(rest)) => Some(Ok(stations.deep_view() + rest)),
            }),
    {
        let path: String = text::indexed("pdv_liste.pdv", i);
        let ghost before = stations.deep_view();
        assert(found@.map_values(|e: &Element| e@)[i as int] == found@[i as int]@);
        match station::parse_station(found[i], path.as_str(), strict, format) {
            None => {
                return None;
            },
            Some(Err(e)) => {
                return Some(Err(e));
            },
            Some(Ok(station)) => {
                stations.push(station);
                proof {
                    let s = station.deep_view();
                    assert(stations.deep_view() =~= before.push(s));
                    if let Some(Ok(rest)) = stations_from(all, i + 1, strict, format) {
                        assert(before + (seq![s] + rest) =~= before.push(s) + rest);
                    }
                }
            },
        }
    }
    assert(stations.deep_view() + Seq::<StationView>::empty() =~= stations.deep_view());
    Some(Ok(stations))
}

/// Reads the stations of a document, as it was parsed. There is no answer where a station has a day
/// with a number outside of 1 to 7, unless an error comes before that day.
pub fn read_parsed(nodes: Result<Vec<Node>, XmlError>, strict: bool, format: DateFormat) -> (r:
    Option<Parsed>)
    ensures
        nodes matches Ok(nodes) ==> error::seen_answer(r) == document_stations(
            xml::nodes_view(nodes@),
            strict,
            format,
        ),
        nodes matches Err(e) ==> r == Some::<Parsed>(Err(Error::Parsing(e))),
{
    match nodes {
        Err(e) => Some(Err(Error::Parsing(e))),
        Ok(nodes) => read_nodes(nodes, strict, format),
    }
}

/// The name of the file of an archive that is read.
pub open spec fn chosen_file(names: Option<Seq<Seq<char>>>) -> Result<Seq<char>, ErrorView> {
    match names {
        None => Err(ErrorView::Archive),
        Some(names) => if names.len() == 0 {
            Err(ErrorView::NoData)
        } else {
            Ok(names[0])
        },
    }
}

/// The names that were found, seen by their views.
pub open spec fn seen_names(names: Result<Vec<String>, ZipError>) -> Option<Seq<Seq<char>>> {
    match names {
        Ok(names) => Some(text::texts(names@)),
        Err(_) => None,
    }
}

/// Chooses the file of an archive that is read: the first one.
pub fn choose_file(names: Result<Vec<String>, ZipError>) -> (r: Result<String, Error>)
    ensures
        error::seen(r) == chosen_file(seen_names(names)),
        names matches Err(e) ==> r == Err::<String, Error>(Error::Archive(e)),
{
    match names {
        Err(e) => Err(Error::Archive(e)),
        Ok(names) => if names.len() == 0 {
            Err(Error::NoData)
        } else {
            assert(text::texts(names@)[0] == names@[0]@);
            Ok(names[0].clone())
        },
    }
}

/// The content that was read, seen by its view.
pub open spec fn seen_content(
    content: Result<Result<Vec<u8>, std::io::Error>, ZipError>,
) -> Option<Option<Seq<u8>>> {
    match content {
        Ok(Ok(content)) => Some(Some(content@)),
        Ok(Err(_)) => Some(None),
        Err(_) => None,
    }
}

impl Parser {
    /// Create a [ParserBuilder] to be able to customize the options. See it's documentation for
    /// more information on options.
    pub fn with_options() -> (b: ParserBuilder)
        ensures
            b == ParserBuilder::spec_default(),
    {
        ParserBuilder { strict: true, re_encode: true, date_format: None }
    }

    /// Create a [Parser] with default options
    pub fn new() -> (p: Self)
        ensures
            p == Parser::spec_default(),
    {
        Self { strict: true, re_encode: true, date_format: None }
    }

    /// Read the stations of a document. There is no answer where a station has a day with a
    /// number outside of 1 to 7, unless an error comes before that day.
    pub fn checked_reader(&self, reader: &[u8], hint: Option<DateFormat>) -> (r: Option<Parsed>)
        ensures
            error::seen_answer(r) == answer(*self, reader@, hint),
    {
        self.checked_text(feed::read_document(reader, self.re_encode), hint)
    }

    /// Read the stations of the text of a document, as it was read. There is no answer where a
    /// station has a day with a number outside of 1 to 7, unless an error comes before that day.
    pub fn checked_text(
        &self,
        document: Result<String, std::io::Error>,
        hint: Option<DateFormat>,
    ) -> (r: Option<Parsed>)
        ensures
            document matches Ok(s) ==> error::seen_answer(r) == text_answer(*self, s@, hint),
            document matches Err(e) ==> r == Some::<Parsed>(Err(Error::IO(e))),
    {
        let document: String = match document {
            Ok(document) => document,
            Err(e) => {
                return Some(Err(Error::IO(e)));
            },
        };
        let format: DateFormat = match self.date_format {
            Some(format) => format,
            None => match hint {
                Some(format) => format,
                None => DateFormat::TSeparated,
            },
        };
        read_parsed(xml::parse_nodes(document.as_str()), self.strict, format)
    }

    /// Read the stations of a file of an archive, as it was opened and read. There is no answer
    /// where the document in it has none.
    pub fn checked_content(
        &self,
        content: Result<Result<Vec<u8>, std::io::Error>, ZipError>,
        hint: Option<DateFormat>,
    ) -> (r: Option<Parsed>)
        ensures
            error::seen_answer(r) == content_answer(*self, seen_content(content), hint),
            content matches Err(e) ==> r == Some::<Parsed>(Err(Error::Archive(e))),
            content matches Ok(Err(e)) ==> r == Some::<Parsed>(Err(Error::IO(e))),
    {
        match content {
            Err(e) => Some(Err(Error::Archive(e))),
            Ok(Err(e)) => Some(Err(Error::IO(e))),
            Ok(Ok(content)) => self.checked_reader(content.as_slice(), hint),
        }
    }

    /// Read the stations of the first file of an archive. There is no answer where the document
    /// in it has none.
    pub fn checked_archive(&self, archive: &[u8], hint: Option<DateFormat>) -> (r: Option<Parsed>)
        ensures
            error::seen_answer(r) == archive_answer(*self, archive@, hint),
    {
        match choose_file(feed::file_names(archive)) {
            Err(e) => Some(Err(e)),
            Ok(name) => self.checked_content(feed::file_content(archive, name.as_str()), hint),
        }
    }

    /// Read the stations of what a server sent. There is no answer where that is an unexpected
    /// page, or where the document in it has none.
    pub fn checked_body(&self, body: &[u8], hint: Option<DateFormat>) -> (r: Option<Parsed>)
        ensures
            error::seen_answer(r) == body_answer(*self, body@, hint),
    {
        match feed::classify(body) {
            Body::Missing => Some(Err(Error::NotFound)),
            Body::Unexpected => None,
            Body::Archive => self.checked_archive(body, hint),
        }
    }

    /// Read data from a reader, with a format for its dates where the options give none.
    pub fn with_reader_format_hint(&self, reader: &[u8], format: Option<DateFormat>) -> (r: Parsed)
        requires
            answer(*self, reader@, format) is Some,
        ensures
            Some(error::seen(r)) == answer(*self, reader@, format),
    {
        self.checked_reader(reader, format).unwrap()
    }

    /// Read data from a reader. [DateFormat::TSeparated] is assumed.
    pub fn with_reader(&self, reader: &[u8]) -> (r: Parsed)
        requires
            answer(*self, reader@, None) is Some,
        ensures
            Some(error::seen(r)) == answer(*self, reader@, None),
    {
        self.with_reader_format_hint(reader, None)
    }

    /// Read the content of an XML file. [DateFormat::TSeparated] is assumed.
    pub fn with_file(&self, content: &[u8]) -> (r: Parsed)
        requires
            answer(*self, content@, None) is Some,
        ensures
            Some(error::seen(r)) == answer(*self, content@, None),
    {
        self.with_reader(content)
    }

    /// Read the content of an XML file, unless there is no answer to it.
    pub fn try_with_file(&self, content: &[u8]) -> (r: Option<Parsed>)
        ensures
            error::seen_answer(r) == answer(*self, content@, None),
    {
        match self.checked_reader(content, None) {
            None => None,
            Some(_) => Some(self.with_file(content)),
        }
    }

    /// Read the stations of the first file of an archive.
    pub fn with_archive(&self, archive: &[u8], date_format: Option<DateFormat>) -> (r: Parsed)
        requires
            archive_answer(*self, archive@, date_format) is Some,
        ensures
            Some(error::seen(r)) == archive_answer(*self, archive@, date_format),
    {
        self.checked_archive(archive, date_format).unwrap()
    }

    /// Read the content of a zip file. [DateFormat::TSeparated] is assumed.
    pub fn with_zip(&self, archive: &[u8]) -> (r: Parsed)
        requires
            archive_answer(*self, archive@, None) is Some,
        ensures
            Some(error::seen(r)) == archive_answer(*self, archive@, None),
    {
        self.with_archive(archive, None)
    }

    /// Read the content of a zip file, unless there is no answer to it.
    pub fn try_with_zip(&self, archive: &[u8]) -> (r: Option<Parsed>)
        ensures
            error::seen_answer(r) == archive_answer(*self, archive@, None),
    {
        match self.checked_archive(archive, None) {
            None => None,
            Some(_) => Some(self.with_zip(archive)),
        }
    }
}

impl Default for Parser {
    fn default() -> (p: Self)
        ensures
            p == Parser::spec_default(),
    {
        Self::new()
    }
}

impl ParserBuilder {
    /// If false unknown keys don't return an [Error::UnhandledNode]. Defaults to true.
    pub fn strict(self, strict: bool) -> (b: Self)
        ensures
            b == self.with_strict(strict),
    {
        Self { strict, ..self }
    }

    /// The XML file is usually encoded in Latin1, if false assume it's UTF-8 instead. Defaults to
    /// true.
    pub fn re_encode(self, re_encode: bool) -> (b: Self)
        ensures
            b == self.with_re_encode(re_encode),
    {
        Self { re_encode, ..self }
    }

    /// Set the [DateFormat] to use in the parsed document.
    pub fn date_format(self, format: DateFormat) -> (b: Self)
        ensures
            b == self.with_date_format(format),
    {
        Self { date_format: Some(format), ..self }
    }

    /// Create a [Parser] using the specified options.
    pub fn build(self) -> (p: Parser)
        ensures
            p == self.built(),
    {
        Parser {
            strict: self.strict,
            re_encode: self.re_encode,
            date_format: self.date_format,
        }
    }
}

/// Building without choosing an option gives the default parser; each option is kept by the
/// choice of the others, and the last choice of an option counts.
pub proof fn options_are_independent(
    builder: ParserBuilder,
    strict: bool,
    re_encode: bool,
    format: DateFormat,
    earlier_strict: bool,
    earlier_re_encode: bool,
    earlier_format: DateFormat,
)
    ensures
        ParserBuilder::spec_default().built() == Parser::spec_default(),
        builder.with_strict(strict).with_re_encode(re_encode).with_date_format(format).built() == (
        Parser { strict, re_encode, date_format: Some(format) }),
        builder.with_strict(strict).with_re_encode(re_encode) == builder.with_re_encode(
            re_encode,
        ).with_strict(strict),
        builder.with_strict(strict).with_date_format(format) == builder.with_date_format(
            format,
        ).with_strict(strict),
        builder.with_re_encode(re_encode).with_date_format(format) == builder.with_date_format(
            format,
        ).with_re_encode(re_encode),
        builder.with_strict(earlier_strict).with_strict(strict) == builder.with_strict(strict),
        builder.with_re_encode(earlier_re_encode).with_re_encode(re_encode)
            == builder.with_re_encode(re_encode),
        builder.with_date_format(earlier_format).with_date_format(format)
            == builder.with_date_format(format),
{
}

/// Without a hint the dates are taken to be `TSeparated`, and a format chosen by the options makes
/// every hint irrelevant.
pub proof fn hints_only_fill_in(parser: Parser, bytes: Seq<u8>, hint: Option<DateFormat>)
    ensures
        answer(parser, bytes, None) == answer(parser, bytes, Some(DateFormat::TSeparated)),
        archive_answer(parser, bytes, None) == archive_answer(
            parser,
            bytes,
            Some(DateFormat::TSeparated),
        ),
        parser.date_format is Some ==> answer(parser, bytes, hint) == answer(parser, bytes, None),
        parser.date_format is None && hint is Some ==> answer(parser, bytes, hint) == answer(
            Parser { date_format: hint, ..parser },
            bytes,
            None,
        ),
{
}

/// An archive gives what its first file gives by itself, whatever else it holds.
pub proof fn archives_give_their_first_file(
    parser: Parser,
    archive: Seq<u8>,
    content: Seq<u8>,
    hint: Option<DateFormat>,
)
    requires
        feed::zip_names(archive) matches Some(names) && names.len() > 0 && feed::zip_file(
            archive,
            names[0],
        ) == Some(Some(content)),
    ensures
        archive_answer(parser, archive, hint) == answer(parser, content, hint),
        feed::body_kind(archive) is Archive ==> body_answer(parser, archive, hint) == answer(
            parser,
            content,
            hint,
        ),
{
}

/// A list that is read gives one station for each `pdv`, in the same order, and each is what its
/// element says.
pub proof fn one_station_each(nodes: Seq<ElementView>, strict: bool, format: DateFormat)
    ensures
        stations_from(nodes, 0, strict, format) matches Some(Ok(stations)) ==> stations.len()
            == nodes.len() && forall|i: int|
            #![trigger stations[i]]
            0 <= i < nodes.len() ==> station::station_of(
                nodes[i],
                station_path(i as nat),
                strict,
                format,
            ) == Some(Ok::<StationView, ErrorView>(stations[i])),
{
    one_station_each_from(nodes, 0, strict, format);
}

proof fn one_station_each_from(nodes: Seq<ElementView>, from: int, strict: bool, format: DateFormat)
    requires
        0 <= from <= nodes.len(),
    ensures
        stations_from(nodes, from, strict, format) matches Some(Ok(stations)) ==> stations.len()
            == nodes.len() - from && forall|i: int|
            #![trigger stations[i]]
            0 <= i < nodes.len() - from ==> station::station_of(
                nodes[from + i],
                station_path((from + i) as nat),
                strict,
                format,
            ) == Some(Ok::<StationView, ErrorView>(stations[i])),
    decreases nodes.len() - from,
{
    if from < nodes.len() {
        one_station_each_from(nodes, from + 1, strict, format);
        if let Some(Ok(stations)) = stations_from(nodes, from, strict, format) {
            let rest = stations_from(nodes, from + 1, strict, format)->Some_0->Ok_0;
            assert forall|i: int|
                #![trigger stations[i]]
                0 <= i < nodes.len() - from implies station::station_of(
                nodes[from + i],
                station_path((from + i) as nat),
                strict,
                format,
            ) == Some(Ok::<StationView, ErrorView>(stations[i])) by {
                if i > 0 {
                    assert(stations[i] == rest[i - 1]);
                    assert(nodes[from + 1 + (i - 1)] == nodes[from + i]);
                }
            }
        }
    }
}

/// Whether an answer is that of a node that strict parsing does not know.
pub open spec fn unhandled<T>(r: Option<Result<T, ErrorView>>) -> bool {
    r matches Some(Err(ErrorView::UnhandledNode { .. }))
}

proof fn strict_stations(nodes: Seq<ElementView>, from: int, format: DateFormat)
    ensures
        stations_from(nodes, from, true, format) == stations_from(nodes, from, false, format)
            || unhandled(stations_from(nodes, from, true, format)),
        !unhandled(stations_from(nodes, from, false, format)),
    decreases nodes.len() - from,
{
    if from < nodes.len() {
        station::strict_station(nodes[from], station_path(from as nat), format);
        strict_stations(nodes, from + 1, format);
    }
}

/// Strict parsing differs from lenient parsing only in that it can refuse a node that it does not
/// know: where it does not, both give the same. Lenient parsing refuses no such node.
pub proof fn strict_only_refuses(
    re_encode: bool,
    date_format: Option<DateFormat>,
    bytes: Seq<u8>,
    hint: Option<DateFormat>,
)
    ensures
        ({
            let strict = answer(Parser { strict: true, re_encode, date_format }, bytes, hint);
            let lenient = answer(Parser { strict: false, re_encode, date_format }, bytes, hint);
            (strict == lenient || unhandled(strict)) && !unhandled(lenient)
        }),
{
    if let Some(document) = feed::document_text(bytes, re_encode) {
        if let Some(nodes) = xml::xml_nodes(document) {
            if let Some(list) = xml::first_element(nodes, "pdv_liste"@) {
                strict_stations(
                    called(list.children, "pdv"@),
                    0,
                    chosen_format(date_format, hint),
                );
            }
        }
    }
}

/// A document of ASCII alone reads the same in both encodings.
pub proof fn ascii_needs_no_encoding(parser: Parser, bytes: Seq<u8>, hint: Option<DateFormat>)
    requires
        forall|i: int| 0 <= i < bytes.len() ==> bytes[i] < 0x80,
    ensures
        answer(parser, bytes, hint) == answer(
            Parser { re_encode: !parser.re_encode, ..parser },
            bytes,
            hint,
        ),
{
    feed::ascii_text(bytes);
}

/// Whether two documents list stations that are alike one by one, or neither lists any.
pub open spec fn alike(a: Seq<NodeView>, b: Seq<NodeView>) -> bool {
    match (xml::first_element(a, "pdv_liste"@), xml::first_element(b, "pdv_liste"@)) {
        (None, None) => true,
        (Some(a), Some(b)) => alike_stations(called(a.children, "pdv"@), called(b.children, "pdv"@)),
        _ => false,
    }
}

/// Whether stations have the same attributes, and the same children of those that a station is read
/// from.
pub open spec fn alike_stations(a: Seq<ElementView>, b: Seq<ElementView>) -> bool {
    a.len() == b.len() && forall|i: int|
        0 <= i < a.len() ==> station::alike(#[trigger] a[i], b[i])
}

proof fn alike_stations_read_alike(
    a: Seq<ElementView>,
    b: Seq<ElementView>,
    from: int,
    format: DateFormat,
)
    requires
        0 <= from <= a.len(),
        alike_stations(a, b),
    ensures
        stations_from(a, from, false, format) == stations_from(b, from, false, format),
    decreases a.len() - from,
{
    if from < a.len() {
        assert(station::alike(a[from], b[from]));
        station::only_known_children_count(a[from], b[from], station_path(from as nat), format);
        alike_stations_read_alike(a, b, from + 1, format);
    }
}

/// A lenient parser gives the same for two documents that differ only in children of stations that
/// it does not know, however many there are and wherever they stand, and in what lies beside the
/// stations.
pub proof fn unknown_children_change_nothing(
    parser: Parser,
    a: Seq<u8>,
    b: Seq<u8>,
    hint: Option<DateFormat>,
)
    requires
        !parser.strict,
        feed::document_text(a, parser.re_encode) is Some,
        feed::document_text(b, parser.re_encode) is Some,
        ({
            let a = xml::xml_nodes(feed::document_text(a, parser.re_encode)->Some_0);
            let b = xml::xml_nodes(feed::document_text(b, parser.re_encode)->Some_0);
            a matches Some(a) && b matches Some(b) && alike(a, b)
        }),
    ensures
        answer(parser, a, hint) == answer(parser, b, hint),
{
    let a = xml::xml_nodes(feed::document_text(a, parser.re_encode)->Some_0)->Some_0;
    let b = xml::xml_nodes(feed::document_text(b, parser.re_encode)->Some_0)->Some_0;
    alike_documents_read_alike(a, b, chosen_format(parser.date_format, hint));
}

/// A lenient reading of parsed documents likewise depends on no other children of stations.
pub proof fn alike_documents_read_alike(a: Seq<NodeView>, b: Seq<NodeView>, format: DateFormat)
    requires
        alike(a, b),
    ensures
        document_stations(a, false, format) == document_stations(b, false, format),
{
    if let (Some(x), Some(y)) = (
        xml::first_element(a, "pdv_liste"@),
        xml::first_element(b, "pdv_liste"@),
    ) {
        alike_stations_read_alike(
            called(x.children, "pdv"@),
            called(y.children, "pdv"@),
            0,
            format,
        );
    }
}

/// The dates are read in the format of the options where they give one, else in that of the hint,
/// and else with a `T`.
pub proof fn formats_are_chosen_in_turn(own: DateFormat, hint: Option<DateFormat>)
    ensures
        chosen_format(Some(own), hint) == own,
        chosen_format(None, Some(own)) == own,
        chosen_format(None, None) == DateFormat::TSeparated,
{
}

/// Without a choice parsing is strict, documents are re-encoded, and no format is chosen.
pub proof fn defaults_are_strict(builder: ParserBuilder, format: DateFormat, choice: bool)
    ensures
        Parser::spec_default().strict && Parser::spec_default().re_encode
            && Parser::spec_default().date_format is None,
        ParserBuilder::spec_default().strict && ParserBuilder::spec_default().re_encode
            && ParserBuilder::spec_default().date_format is None,
        builder.with_strict(choice).strict == choice,
        builder.with_re_encode(choice).re_encode == choice,
        builder.with_date_format(format).date_format == Some(format),
        builder.built().strict == builder.strict,
        builder.built().re_encode == builder.re_encode,
        builder.built().date_format == builder.date_format,
{
}

/// Whether elements are those with a name among others, all of them and in their order.
pub open spec fn are_called(
    nodes: Seq<ElementView>,
    name: Seq<char>,
    places: Seq<int>,
    found: Seq<ElementView>,
) -> bool {
    &&& xml::goes_up(places)
    &&& forall|j: int| #[trigger]
        places.contains(j) <==> 0 <= j < nodes.len() && nodes[j].name == name
    &&& found.len() == places.len()
    &&& forall|k: int| 0 <= k < found.len() ==> #[trigger] found[k] == nodes[places[k]]
}

/// The elements with a name are picked out as they stand: all of them, no others, in their order.
pub proof fn elements_are_picked_by_name(nodes: Seq<ElementView>, name: Seq<char>)
    ensures
        exists|places: Seq<int>| #[trigger] are_called(nodes, name, places, called(nodes, name)),
{
    let places = places_called(nodes, name);
    assert(are_called(nodes, name, places, called(nodes, name)));
}

proof fn places_called(nodes: Seq<ElementView>, name: Seq<char>) -> (places: Seq<int>)
    ensures
        are_called(nodes, name, places, called(nodes, name)),
    decreases nodes.len(),
{
    reveal(Seq::filter);
    if nodes.len() == 0 {
        Seq::empty()
    } else {
        let front = nodes.drop_last();
        let n = nodes.len() - 1;
        let before = places_called(front, name);
        let found = called(front, name);
        assert(forall|j: int| 0 <= j < n ==> front[j] == nodes[j]);
        assert forall|k: int| 0 <= k < found.len() implies #[trigger] found[k]
            == nodes[before[k]] by {
            assert(before.contains(before[k]));
        }
        if nodes.last().name == name {
            let all = before.push(n);
            assert forall|j: int| #[trigger]
                all.contains(j) <==> 0 <= j < nodes.len() && nodes[j].name == name by {
                if j == n {
                    assert(all[before.len() as int] == n);
                }
                if before.contains(j) {
                    let k = choose|k: int| 0 <= k < before.len() && before[k] == j;
                    assert(all[k] == j);
                }
                if all.contains(j) && j != n {
                    let k = choose|k: int| 0 <= k < all.len() && all[k] == j;
                    assert(before[k] == j);
                }
            }
            assert(xml::goes_up(all)) by {
                assert forall|a: int, b: int|
                    #![trigger all[a], all[b]]
                    0 <= a < b < all.len() implies all[a] < all[b] by {
                    assert(before.contains(before[a]));
                }
            }
            let now = called(nodes, name);
            assert(now == found.push(nodes.last()));
            all
        } else {
            assert(called(nodes, name) == found);
            assert forall|j: int| #[trigger]
                before.contains(j) <==> 0 <= j < nodes.len() && nodes[j].name == name by {
            }
            before
        }
    }
}

/// The path of a station is its position in the list, in square brackets.
pub proof fn stations_are_numbered(i: nat)
    ensures
        station_path(i) == "pdv_liste.pdv"@ + seq!['['] + text::decimal_text(i) + seq![']'],
{
    text::positions_stand_in_brackets("pdv_liste.pdv"@, i);
}

/// A list is read where each station of it can be read.
pub proof fn lists_are_read_station_by_station(
    nodes: Seq<ElementView>,
    strict: bool,
    format: DateFormat,
)
    requires
        forall|i: int|
            #![trigger nodes[i]]
            0 <= i < nodes.len() ==> (station::station_of(
                nodes[i],
                station_path(i as nat),
                strict,
                format,
            ) matches Some(Ok(_))),
    ensures
        stations_from(nodes, 0, strict, format) matches Some(Ok(_)),
{
    stations_are_all_read(nodes, 0, strict, format);
}

/// The stations of a document are those of the elements `pdv` of its first list. A document without
/// a list is refused as that.
pub proof fn documents_need_a_list(nodes: Seq<NodeView>, strict: bool, format: DateFormat)
    ensures
        xml::first_element(nodes, "pdv_liste"@) is None ==> document_stations(nodes, strict, format)
            == Some(
            Err::<Seq<StationView>, ErrorView>(
                ErrorView::MissingNode { path: Seq::empty(), node: "pdv_liste"@ },
            ),
        ),
        xml::first_element(nodes, "pdv_liste"@) matches Some(list) ==> document_stations(
            nodes,
            strict,
            format,
        ) == stations_from(called(list.children, "pdv"@), 0, strict, format),
{
    reveal_strlit("");
    assert(""@ =~= Seq::<char>::empty());
}

proof fn stations_are_all_read(
    nodes: Seq<ElementView>,
    from: int,
    strict: bool,
    format: DateFormat,
)
    requires
        0 <= from <= nodes.len(),
        forall|i: int|
            #![trigger nodes[i]]
            0 <= i < nodes.len() ==> (station::station_of(
                nodes[i],
                station_path(i as nat),
                strict,
                format,
            ) matches Some(Ok(_))),
    ensures
        stations_from(nodes, from, strict, format) matches Some(Ok(_)),
    decreases nodes.len() - from,
{
    if from < nodes.len() {
        assert(nodes[from] == nodes[from]);
        stations_are_all_read(nodes, from + 1, strict, format);
    }
}

/// Bytes are read in the code page windows-1252, or in UTF-8 where they are not to be re-encoded;
/// then bytes that are no UTF-8 are refused. A text that is no document is refused as that, and the
/// stations are those of the document, in the format that was chosen and as strictly as was chosen.
pub proof fn bytes_are_read_as_a_document(
    parser: Parser,
    bytes: Seq<u8>,
    hint: Option<DateFormat>,
)
    ensures
        !parser.re_encode && !vstd::utf8::valid_utf8(bytes) ==> answer(parser, bytes, hint) == Some(
            Err::<Seq<StationView>, ErrorView>(ErrorView::IO),
        ),
        parser.re_encode || vstd::utf8::valid_utf8(bytes) ==> ({
            let text = if parser.re_encode {
                feed::windows_1252(bytes)
            } else {
                vstd::utf8::decode_utf8(bytes)
            };
            let format = match (parser.date_format, hint) {
                (Some(format), _) => format,
                (None, Some(format)) => format,
                (None, None) => DateFormat::TSeparated,
            };
            answer(parser, bytes, hint) == match xml::xml_nodes(text) {
                None => Some(Err(ErrorView::Parsing)),
                Some(nodes) => document_stations(nodes, parser.strict, format),
            }
        }),
{
}

/// What is no archive is refused as that, and so is an archive without files; a first file that
/// cannot be opened or read is refused for that.
pub proof fn archives_are_refused_for_their_reasons(
    parser: Parser,
    archive: Seq<u8>,
    hint: Option<DateFormat>,
)
    ensures
        feed::zip_names(archive) is None ==> archive_answer(parser, archive, hint) == Some(
            Err::<Seq<StationView>, ErrorView>(ErrorView::Archive),
        ),
        feed::zip_names(archive) matches Some(names) ==> {
            &&& names.len() == 0 ==> archive_answer(parser, archive, hint) == Some(
                Err::<Seq<StationView>, ErrorView>(ErrorView::NoData),
            )
            &&& names.len() > 0 && feed::zip_file(archive, names[0]) is None ==> archive_answer(
                parser,
                archive,
                hint,
            ) == Some(Err::<Seq<StationView>, ErrorView>(ErrorView::Archive))
            &&& names.len() > 0 && feed::zip_file(archive, names[0]) == Some(None::<Seq<u8>>)
                ==> archive_answer(parser, archive, hint) == Some(
                Err::<Seq<StationView>, ErrorView>(ErrorView::IO),
            )
        },
{
}

/// A page that says that there is no such data is that answer, a page that says something else is
/// none, and everything else is taken for an archive.
pub proof fn pages_are_no_archives(parser: Parser, body: Seq<u8>, hint: Option<DateFormat>)
    ensures
        feed::body_kind(body) is Missing ==> body_answer(parser, body, hint) == Some(
            Err::<Seq<StationView>, ErrorView>(ErrorView::NotFound),
        ),
        feed::body_kind(body) is Unexpected ==> body_answer(parser, body, hint) is None,
        feed::body_kind(body) is Archive ==> body_answer(parser, body, hint) == archive_answer(
            parser,
            body,
            hint,
        ),
{
}

} // verus!
