//! What can go wrong while a feed is read.

use std::num::ParseIntError;

use vstd::prelude::*;

verus! {

/// The error that the standard library gives when bytes cannot be read as text.
#[verifier::external_type_specification]
#[verifier::external_body]
pub struct ExIoError(std::io::Error);

/// The error that zip gives for an archive that it cannot read.
#[verifier::external_type_specification]
#[verifier::external_body]
pub struct ExZipError(zip::result::ZipError);

/// The error that chrono gives for a text that is no date of the wanted format.
#[verifier::external_type_specification]
#[verifier::external_body]
pub struct ExDateError(chrono::ParseError);

/// Why a feed could not be read. `path` says where in the document.
#[derive(Debug)]
pub enum Error {
    IO(std::io::Error),
    Archive(zip::result::ZipError),
    NoData,
    Parsing(roxmltree::Error),
    MissingNode { path: String, node: String },
    UnhandledNode { path: String, node: String },
    MissingValue(String),
    MissingAttribute { path: String, attribute: &'static str },
    UnexpectedNode { path: String, got: String, expected: &'static str },
    MalformedBool(String),
    InvalidInt { path: String, err: ParseIntError },
    /// `value` is the text that is no number.
    InvalidFloat { path: String, value: String },
    UnknownFuelType { path: String, fuel: String },
    InvalidDate { path: String, err: chrono::ParseError },
    InvalidTimeOfDay(String),
    InexistentDateTime(String),
    InvalidClosingType(String),
    InvalidRoadKind(String),
    NotFound,
}

/// An error without the outside error that it may carry.
pub enum ErrorView {
    IO,
    Archive,
    NoData,
    Parsing,
    MissingNode { path: Seq<char>, node: Seq<char> },
    UnhandledNode { path: Seq<char>, node: Seq<char> },
    MissingValue(Seq<char>),
    MissingAttribute { path: Seq<char>, attribute: Seq<char> },
    UnexpectedNode { path: Seq<char>, got: Seq<char>, expected: Seq<char> },
    MalformedBool(Seq<char>),
    InvalidInt { path: Seq<char> },
    InvalidFloat { path: Seq<char>, value: Seq<char> },
    UnknownFuelType { path: Seq<char>, fuel: Seq<char> },
    InvalidDate { path: Seq<char> },
    InvalidTimeOfDay(Seq<char>),
    InexistentDateTime(Seq<char>),
    InvalidClosingType(Seq<char>),
    InvalidRoadKind(Seq<char>),
    NotFound,
}

impl View for Error {
    type V = ErrorView;

    open spec fn view(&self) -> ErrorView {
        match *self {
            Error::IO(_) => ErrorView::IO,
            Error::Archive(_) => ErrorView::Archive,
            Error::NoData => ErrorView::NoData,
            Error::Parsing(_) => ErrorView::Parsing,
            Error::MissingNode { path, node } => ErrorView::MissingNode {
                path: path@,
                node: node@,
            },
            Error::UnhandledNode { path, node } => ErrorView::UnhandledNode {
                path: path@,
                node: node@,
            },
            Error::MissingValue(path) => ErrorView::MissingValue(path@),
            Error::MissingAttribute { path, attribute } => ErrorView::MissingAttribute {
                path: path@,
                attribute: attribute@,
            },
            Error::UnexpectedNode { path, got, expected } => ErrorView::UnexpectedNode {
                path: path@,
                got: got@,
                expected: expected@,
            },
            Error::MalformedBool(path) => ErrorView::MalformedBool(path@),
            Error::InvalidInt { path, err: _ } => ErrorView::InvalidInt { path: path@ },
            Error::InvalidFloat { path, value } => ErrorView::InvalidFloat {
                path: path@,
                value: value@,
            },
            Error::UnknownFuelType { path, fuel } => ErrorView::UnknownFuelType {
                path: path@,
                fuel: fuel@,
            },
            Error::InvalidDate { path, err: _ } => ErrorView::InvalidDate { path: path@ },
            Error::InvalidTimeOfDay(path) => ErrorView::InvalidTimeOfDay(path@),
            Error::InexistentDateTime(path) => ErrorView::InexistentDateTime(path@),
            Error::InvalidClosingType(path) => ErrorView::InvalidClosingType(path@),
            Error::InvalidRoadKind(path) => ErrorView::InvalidRoadKind(path@),
            Error::NotFound => ErrorView::NotFound,
        }
    }
}

/// What an error tells the user.
pub open spec fn message_of(e: ErrorView) -> Seq<char> {
    match e {
        ErrorView::IO => "error while reading data"@,
        ErrorView::Archive => "error while reading data from archive"@,
        ErrorView::NoData => "fetched archive is empty"@,
        ErrorView::Parsing => "could not parse XML document"@,
        ErrorView::MissingNode { path, node } => "document is missing the field '"@ + node
            + "' at path "@ + path,
        ErrorView::UnhandledNode { path, node } => "unknown node was encountered '"@ + node
            + "' at path "@ + path,
        ErrorView::MissingValue(path) => "node at '"@ + path + "' is missing a text value"@,
        ErrorView::MissingAttribute { path, attribute } => "missing attribute '"@ + attribute
            + "' at "@ + path,
        ErrorView::UnexpectedNode { path, got, expected } => "did not expect node '"@ + got
            + "' at "@ + path + ", expected "@ + expected,
        ErrorView::MalformedBool(_) => "booleans are expected to be either '1' or ''"@,
        ErrorView::InvalidInt { path } => "could not parse int at "@ + path,
        ErrorView::InvalidFloat { path, value: _ } => "could not parse float at "@ + path,
        ErrorView::UnknownFuelType { path, fuel } => "fuel type at "@ + path + " is unknown: "@
            + fuel,
        ErrorView::InvalidDate { path } => "could not parse date at "@ + path,
        ErrorView::InvalidTimeOfDay(path) => "time of day is not of the form HH.MM at "@ + path,
        ErrorView::InexistentDateTime(path) => "datetime does not exist at "@ + path,
        ErrorView::InvalidClosingType(path) => "closing type at "@ + path + " is invalid"@,
        ErrorView::InvalidRoadKind(path) => "invalid road kind at "@ + path,
        ErrorView::NotFound => "file was not found"@,
    }
}

impl Error {
    /// What the error tells the user.
    pub fn message(&self) -> (s: String)
        ensures
            s@ == message_of(self@),
    {
        match self {
            Error::IO(_) => "error while reading data".to_owned(),
            Error::Archive(_) => "error while reading data from archive".to_owned(),
            Error::NoData => "fetched archive is empty".to_owned(),
            Error::Parsing(_) => "could not parse XML document".to_owned(),
            Error::MissingNode { path, node } => {
                "document is missing the field '".to_owned().concat(node.as_str()).concat(
                    "' at path ",
                ).concat(path.as_str())
            },
            Error::UnhandledNode { path, node } => {
                "unknown node was encountered '".to_owned().concat(node.as_str()).concat(
                    "' at path ",
                ).concat(path.as_str())
            },
            Error::MissingValue(path) => {
                "node at '".to_owned().concat(path.as_str()).concat("' is missing a text value")
            },
            Error::MissingAttribute { path, attribute } => {
                "missing attribute '".to_owned().concat(attribute).concat("' at ").concat(
                    path.as_str(),
                )
            },
            Error::UnexpectedNode { path, got, expected } => {
                "did not expect node '".to_owned().concat(got.as_str()).concat("' at ").concat(
                    path.as_str(),
                ).concat(", expected ").concat(expected)
            },
            Error::MalformedBool(_) => {
                "booleans are expected to be either '1' or ''".to_owned()
            },
            Error::InvalidInt { path, err: _ } => {
                "could not parse int at ".to_owned().concat(path.as_str())
            },
            Error::InvalidFloat { path, value: _ } => {
                "could not parse float at ".to_owned().concat(path.as_str())
            },
            Error::UnknownFuelType { path, fuel } => {
                "fuel type at ".to_owned().concat(path.as_str()).concat(" is unknown: ").concat(
                    fuel.as_str(),
                )
            },
            Error::InvalidDate { path, err: _ } => {
                "could not parse date at ".to_owned().concat(path.as_str())
            },
            Error::InvalidTimeOfDay(path) => {
                "time of day is not of the form HH.MM at ".to_owned().concat(path.as_str())
            },
            Error::InexistentDateTime(path) => {
                "datetime does not exist at ".to_owned().concat(path.as_str())
            },
            Error::InvalidClosingType(path) => {
                "closing type at ".to_owned().concat(path.as_str()).concat(" is invalid")
            },
            Error::InvalidRoadKind(path) => {
                "invalid road kind at ".to_owned().concat(path.as_str())
            },
            Error::NotFound => "file was not found".to_owned(),
        }
    }
}

/// A result seen by the views of what it holds.
pub open spec fn seen<T: DeepView>(r: Result<T, Error>) -> Result<T::V, ErrorView> {
    match r {
        Ok(v) => Ok(v.deep_view()),
        Err(e) => Err(e@),
    }
}

/// An answer, where there is one, seen by the views of what it holds.
pub open spec fn seen_answer<T: DeepView>(r: Option<Result<T, Error>>) -> Option<
    Result<T::V, ErrorView>,
> {
    match r {
        None => None,
        Some(r) => Some(seen(r)),
    }
}

/// Views show what an error is, and where in the document it was met.
pub proof fn views_show_errors(e: Error)
    ensures
        e is IO <==> e@ is IO,
        e is Archive <==> e@ is Archive,
        e is NoData <==> e@ is NoData,
        e is Parsing <==> e@ is Parsing,
        e is NotFound <==> e@ is NotFound,
        e matches Error::MissingNode { path, node } ==> e@ == (ErrorView::MissingNode {
            path: path@,
            node: node@,
        }),
        e matches Error::UnhandledNode { path, node } ==> e@ == (ErrorView::UnhandledNode {
            path: path@,
            node: node@,
        }),
        e matches Error::MissingValue(path) ==> e@ == ErrorView::MissingValue(path@),
        e matches Error::MissingAttribute { path, attribute } ==> e@ == (
        ErrorView::MissingAttribute { path: path@, attribute: attribute@ }),
        e matches Error::UnexpectedNode { path, got, expected } ==> e@ == (
        ErrorView::UnexpectedNode { path: path@, got: got@, expected: expected@ }),
        e matches Error::MalformedBool(path) ==> e@ == ErrorView::MalformedBool(path@),
        e matches Error::InvalidInt { path, err: _ } ==> e@ == (ErrorView::InvalidInt {
            path: path@,
        }),
        e matches Error::InvalidFloat { path, value } ==> e@ == (ErrorView::InvalidFloat {
            path: path@,
            value: value@,
        }),
        e matches Error::UnknownFuelType { path, fuel } ==> e@ == (ErrorView::UnknownFuelType {
            path: path@,
            fuel: fuel@,
        }),
        e matches Error::InvalidDate { path, err: _ } ==> e@ == (ErrorView::InvalidDate {
            path: path@,
        }),
        e matches Error::InvalidTimeOfDay(path) ==> e@ == ErrorView::InvalidTimeOfDay(path@),
        e matches Error::InexistentDateTime(path) ==> e@ == ErrorView::InexistentDateTime(path@),
        e matches Error::InvalidClosingType(path) ==> e@ == ErrorView::InvalidClosingType(path@),
        e matches Error::InvalidRoadKind(path) ==> e@ == ErrorView::InvalidRoadKind(path@),
{
}

/// A result that is seen is seen as what it is.
pub proof fn views_show_results<T: DeepView>(r: Result<T, Error>, answer: Option<Result<T, Error>>)
    ensures
        seen(r) matches Ok(v) ==> r is Ok && r->Ok_0.deep_view() == v,
        seen(r) matches Err(e) ==> r is Err && r->Err_0@ == e,
        seen_answer(answer) is None <==> answer is None,
        answer is Some ==> seen_answer(answer) == Some(seen(answer->Some_0)),
{
}

/// What an error tells the user ends in the place in the document, where it has one and says
/// nothing more, and names what was met there.
pub proof fn messages_say_where(path: Seq<char>, what: Seq<char>)
    ensures
        message_of(ErrorView::InvalidInt { path }) == "could not parse int at "@ + path,
        message_of(ErrorView::InvalidFloat { path, value: what }) == "could not parse float at "@
            + path,
        message_of(ErrorView::InvalidDate { path }) == "could not parse date at "@ + path,
        message_of(ErrorView::InvalidTimeOfDay(path))
            == "time of day is not of the form HH.MM at "@ + path,
        message_of(ErrorView::InexistentDateTime(path)) == "datetime does not exist at "@ + path,
        message_of(ErrorView::InvalidRoadKind(path)) == "invalid road kind at "@ + path,
        message_of(ErrorView::MissingNode { path, node: what })
            == "document is missing the field '"@ + what + "' at path "@ + path,
        message_of(ErrorView::UnhandledNode { path, node: what })
            == "unknown node was encountered '"@ + what + "' at path "@ + path,
        message_of(ErrorView::MissingAttribute { path, attribute: what })
            == "missing attribute '"@ + what + "' at "@ + path,
        message_of(ErrorView::UnknownFuelType { path, fuel: what }) == "fuel type at "@ + path
            + " is unknown: "@ + what,
        message_of(ErrorView::MissingValue(path)) == "node at '"@ + path
            + "' is missing a text value"@,
        message_of(ErrorView::InvalidClosingType(path)) == "closing type at "@ + path
            + " is invalid"@,
        message_of(ErrorView::MalformedBool(path))
            == "booleans are expected to be either '1' or ''"@,
{
}

/// What an error of the data as a whole tells the user.
pub proof fn messages_of_the_data(path: Seq<char>, got: Seq<char>, expected: Seq<char>)
    ensures
        message_of(ErrorView::IO) == "error while reading data"@,
        message_of(ErrorView::Archive) == "error while reading data from archive"@,
        message_of(ErrorView::NoData) == "fetched archive is empty"@,
        message_of(ErrorView::Parsing) == "could not parse XML document"@,
        message_of(ErrorView::NotFound) == "file was not found"@,
        message_of(ErrorView::UnexpectedNode { path, got, expected }) == "did not expect node '"@
            + got + "' at "@ + path + ", expected "@ + expected,
{
}

} // verus!
