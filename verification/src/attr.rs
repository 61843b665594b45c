//! Reads the attributes and the text of one element.

use std::num::ParseIntError;

use vstd::prelude::*;

use crate::error;
use crate::error::Error;
#[allow(unused_imports)]
use crate::error::ErrorView;
use crate::model::{Fuel, TimeOfDay};
#[allow(unused_imports)]
use crate::model;
use crate::number::{self, Real};
use crate::text;
use crate::time::{self, DateFormat, DateTime};
use crate::xml::Element;
#[allow(unused_imports)]
use crate::xml::{self, ElementView};

verus! {

/// The text that an element begins with.
pub open spec fn value_of(node: ElementView, path: Seq<char>) -> Result<Seq<char>, ErrorView> {
    match node.text {
        Some(t) => Ok(t),
        None => Err(ErrorView::MissingValue(path)),
    }
}

/// Reads the text of an element.
pub fn value(node: &Element, path: &str) -> (r: Result<String, Error>)
    ensures
        error::seen(r) == value_of(node@, path@),
{
    match &node.text {
        Some(t) => Ok(t.clone()),
        None => Err(Error::MissingValue(path.to_owned())),
    }
}

/// The value of an attribute that has to be there.
pub open spec fn attribute_value(node: ElementView, name: Seq<char>, path: Seq<char>) -> Result<
    Seq<char>,
    ErrorView,
> {
    match xml::attribute_of(node.attributes, name) {
        Some(v) => Ok(v),
        None => Err(ErrorView::MissingAttribute { path, attribute: name }),
    }
}

/// Reads an attribute that has to be there.
pub fn attribute(node: &Element, attr: &'static str, path: &str) -> (r: Result<String, Error>)
    ensures
        error::seen(r) == attribute_value(node@, attr@, path@),
{
    match node.attribute(attr) {
        Some(v) => Ok(v.clone()),
        None => Err(Error::MissingAttribute { path: path.to_owned(), attribute: attr }),
    }
}

/// `1` for yes, nothing for no.
pub open spec fn bool_of(s: Seq<char>, path: Seq<char>) -> Result<bool, ErrorView> {
    if s == "1"@ {
        Ok(true)
    } else if s == ""@ {
        Ok(false)
    } else {
        Err(ErrorView::MalformedBool(path))
    }
}

/// Reads a boolean, which is either `1` or empty.
pub fn empty_bool(s: &str, path: &str) -> (r: Result<bool, Error>)
    ensures
        error::seen(r) == bool_of(s@, path@),
{
    if text::same(s, "1") {
        Ok(true)
    } else if text::same(s, "") {
        Ok(false)
    } else {
        Err(Error::MalformedBool(path.to_owned()))
    }
}

pub open spec fn bool_value(node: ElementView, name: Seq<char>, path: Seq<char>) -> Result<
    bool,
    ErrorView,
> {
    match attribute_value(node, name, path) {
        Ok(v) => bool_of(v, path),
        Err(e) => Err(e),
    }
}

/// Reads a boolean attribute.
pub fn bool_attr(node: &Element, attr: &'static str, path: &str) -> (r: Result<bool, Error>)
    ensures
        error::seen(r) == bool_value(node@, attr@, path@),
{
    let v: String = attribute(node, attr, path)?;
    empty_bool(v.as_str(), path)
}

pub open spec fn int_value(node: ElementView, name: Seq<char>, path: Seq<char>) -> Result<
    i64,
    ErrorView,
> {
    match attribute_value(node, name, path) {
        Ok(v) => match number::i64_of(v) {
            Some(n) => Ok(n),
            None => Err(ErrorView::InvalidInt { path }),
        },
        Err(e) => Err(e),
    }
}

/// Turns what was read as an integer into a result that says where in the document it stands.
pub fn parsed_int<T>(parsed: Result<T, ParseIntError>, path: &str) -> (r: Result<T, Error>)
    ensures
        parsed matches Ok(n) ==> r == Ok::<T, Error>(n),
        parsed matches Err(e) ==> (r matches Err(Error::InvalidInt { path: p, err }) && p@ == path@
            && err == e),
{
    match parsed {
        Ok(n) => Ok(n),
        Err(err) => Err(Error::InvalidInt { path: path.to_owned(), err }),
    }
}

/// Reads an integer attribute.
pub fn int_attr(node: &Element, attr: &'static str, path: &str) -> (r: Result<i64, Error>)
    ensures
        error::seen(r) == int_value(node@, attr@, path@),
{
    let v: String = attribute(node, attr, path)?;
    parsed_int(number::parse_i64(v.as_str()), path)
}

pub open spec fn real_of(v: Seq<char>, path: Seq<char>) -> Result<Seq<char>, ErrorView> {
    if number::is_real(v) {
        Ok(v)
    } else {
        Err(ErrorView::InvalidFloat { path, value: v })
    }
}

/// Reads a floating point number.
pub fn parse_real(v: &str, path: &str) -> (r: Result<Real, Error>)
    ensures
        error::seen(r) == real_of(v@, path@),
{
    match Real::parse(v) {
        Some(n) => Ok(n),
        None => Err(Error::InvalidFloat { path: path.to_owned(), value: v.to_owned() }),
    }
}

pub open spec fn float_value(node: ElementView, name: Seq<char>, path: Seq<char>) -> Result<
    Seq<char>,
    ErrorView,
> {
    match attribute_value(node, name, path) {
        Ok(v) => real_of(v, path),
        Err(e) => Err(e),
    }
}

/// Reads a floating point attribute.
pub fn float_attr(node: &Element, attr: &'static str, path: &str) -> (r: Result<Real, Error>)
    ensures
        error::seen(r) == float_value(node@, attr@, path@),
{
    let v: String = attribute(node, attr, path)?;
    parse_real(v.as_str(), path)
}

/// The number of an attribute that may be empty.
pub open spec fn opt_float_value(node: ElementView, name: Seq<char>, path: Seq<char>) -> Result<
    Option<Seq<char>>,
    ErrorView,
> {
    match attribute_value(node, name, path) {
        Ok(v) => if v == ""@ {
            Ok(None)
        } else {
            match real_of(v, path) {
                Ok(n) => Ok(Some(n)),
                Err(e) => Err(e),
            }
        },
        Err(e) => Err(e),
    }
}

/// Reads a floating point attribute that may be empty.
pub fn opt_float_attr(node: &Element, attr: &'static str, path: &str) -> (r: Result<
    Option<Real>,
    Error,
>)
    ensures
        error::seen(r) == opt_float_value(node@, attr@, path@),
{
    let v: String = attribute(node, attr, path)?;
    if text::same(v.as_str(), "") {
        Ok(None)
    } else {
        let n: Real = parse_real(v.as_str(), path)?;
        Ok(Some(n))
    }
}

pub open spec fn fuel_value(node: ElementView, name: Seq<char>, path: Seq<char>) -> Result<
    Fuel,
    ErrorView,
> {
    match attribute_value(node, name, path) {
        Ok(v) => model::parsed_fuel(v, path),
        Err(e) => Err(e),
    }
}

/// Reads an attribute that names a fuel.
pub fn fuel_attr(node: &Element, attr: &'static str, path: &str) -> (r: Result<Fuel, Error>)
    ensures
        error::seen(r) == fuel_value(node@, attr@, path@),
{
    let v: String = attribute(node, attr, path)?;
    Fuel::parse(v.as_str(), path)
}

/// An hour and a minute with a point between them.
pub open spec fn time_of_day_of(v: Seq<char>, path: Seq<char>) -> Result<TimeOfDay, ErrorView> {
    match text::split_first(v, '.') {
        None => Err(ErrorView::InvalidTimeOfDay(path)),
        Some((hour, minute)) => match (number::u8_of(hour), number::u8_of(minute)) {
            (Some(hour), Some(minute)) => Ok(TimeOfDay { hour, minute }),
            _ => Err(ErrorView::InvalidInt { path }),
        },
    }
}

/// Reads a time of day of the form `HH.MM`.
pub fn parse_time_of_day(v: &str, path: &str) -> (r: Result<TimeOfDay, Error>)
    ensures
        error::seen(r) == time_of_day_of(v@, path@),
{
    match text::split_once(v, '.') {
        None => Err(Error::InvalidTimeOfDay(path.to_owned())),
        Some((hour, minute)) => {
            let hour: u8 = parsed_int(number::parse_u8(hour.as_str()), path)?;
            let minute: u8 = parsed_int(number::parse_u8(minute.as_str()), path)?;
            Ok(TimeOfDay { hour, minute })
        },
    }
}

pub open spec fn time_of_day_value(node: ElementView, name: Seq<char>, path: Seq<char>) -> Result<
    TimeOfDay,
    ErrorView,
> {
    match attribute_value(node, name, path) {
        Ok(v) => time_of_day_of(v, path),
        Err(e) => Err(e),
    }
}

/// Reads an attribute that holds a time of day.
pub fn time_of_day_attr(node: &Element, attr: &'static str, path: &str) -> (r: Result<
    TimeOfDay,
    Error,
>)
    ensures
        error::seen(r) == time_of_day_value(node@, attr@, path@),
{
    let v: String = attribute(node, attr, path)?;
    parse_time_of_day(v.as_str(), path)
}

pub open spec fn date_value(
    node: ElementView,
    name: Seq<char>,
    path: Seq<char>,
    format: DateFormat,
) -> Result<DateTime, ErrorView> {
    match attribute_value(node, name, path) {
        Ok(v) => time::date_of(v, format, path),
        Err(e) => Err(e),
    }
}

/// Reads an attribute that holds a date. The same date in the notation of the other format is read
/// alike under that format.
pub fn date_attr(node: &Element, attr: &'static str, path: &str, format: DateFormat) -> (r: Result<
    DateTime,
    Error,
>)
    ensures
        error::seen(r) == date_value(node@, attr@, path@, format),
        r matches Ok(date) ==> ({
            let v = xml::attribute_of(node@.attributes, attr@)->Some_0;
            let local = if format is Spaced {
                time::local_reading(v, "%F %T"@)
            } else {
                time::local_reading(v, "%FT%T"@)
            };
            &&& xml::attribute_of(node@.attributes, attr@) is Some
            &&& local is Some
            &&& time::paris_times(local->Some_0) == match date {
                DateTime::Single(t) => time::LocalTime::Once(t),
                DateTime::Ambiguous(a, b) => time::LocalTime::Twice(a, b),
            }
        }),
        forall|v: Seq<char>, other: ElementView|
            time::is_date_text(v, ' ') && format is Spaced && xml::attribute_of(
                node@.attributes,
                attr@,
            ) == Some(v) && #[trigger] xml::attribute_of(other.attributes, attr@) == Some(
                #[trigger] v.update(10, 'T'),
            ) ==> error::seen(r) == date_value(other, attr@, path@, DateFormat::TSeparated),
        forall|v: Seq<char>, other: ElementView|
            time::is_date_text(v, 'T') && format is TSeparated && xml::attribute_of(
                node@.attributes,
                attr@,
            ) == Some(v) && #[trigger] xml::attribute_of(other.attributes, attr@) == Some(
                #[trigger] v.update(10, ' '),
            ) ==> error::seen(r) == date_value(other, attr@, path@, DateFormat::Spaced),
{
    let v: String = attribute(node, attr, path)?;
    time::parse_date(v.as_str(), format, path)
}

/// The date of an attribute that may be empty.
pub open spec fn opt_date_value(
    node: ElementView,
    name: Seq<char>,
    path: Seq<char>,
    format: DateFormat,
) -> Result<Option<DateTime>, ErrorView> {
    match attribute_value(node, name, path) {
        Ok(v) => if v == ""@ {
            Ok(None)
        } else {
            match time::date_of(v, format, path) {
                Ok(d) => Ok(Some(d)),
                Err(e) => Err(e),
            }
        },
        Err(e) => Err(e),
    }
}

/// Reads an attribute that holds a date or nothing.
pub fn opt_date_attr(node: &Element, attr: &'static str, path: &str, format: DateFormat) -> (r:
    Result<Option<DateTime>, Error>)
    ensures
        error::seen(r) == opt_date_value(node@, attr@, path@, format),
{
    let v: String = attribute(node, attr, path)?;
    if text::same(v.as_str(), "") {
        Ok(None)
    } else {
        let d: DateTime = time::parse_date(v.as_str(), format, path)?;
        Ok(Some(d))
    }
}

/// A text and an attribute are read as they stand in the document. Without them that is said, and
/// where.
pub proof fn texts_are_read_as_they_stand(node: ElementView, name: Seq<char>, path: Seq<char>)
    ensures
        node.text matches Some(t) ==> value_of(node, path) == Ok::<Seq<char>, ErrorView>(t),
        node.text is None ==> value_of(node, path) == Err::<Seq<char>, ErrorView>(
            ErrorView::MissingValue(path),
        ),
        xml::attribute_of(node.attributes, name) matches Some(v) ==> attribute_value(
            node,
            name,
            path,
        ) == Ok::<Seq<char>, ErrorView>(v),
        xml::attribute_of(node.attributes, name) is None ==> attribute_value(node, name, path)
            == Err::<Seq<char>, ErrorView>(ErrorView::MissingAttribute { path, attribute: name }),
{
}

/// A boolean attribute is yes where it is the digit one alone, no where it is empty, and refused
/// where it is anything else.
pub proof fn booleans_are_one_or_empty(node: ElementView, name: Seq<char>, path: Seq<char>)
    ensures
        bool_value(node, name, path) == Ok::<bool, ErrorView>(true) <==> xml::attribute_of(
            node.attributes,
            name,
        ) == Some(seq!['1']),
        bool_value(node, name, path) == Ok::<bool, ErrorView>(false) <==> xml::attribute_of(
            node.attributes,
            name,
        ) == Some(Seq::<char>::empty()),
        bool_value(node, name, path) == Err::<bool, ErrorView>(ErrorView::MalformedBool(path)) <==> (
        xml::attribute_of(node.attributes, name) matches Some(v) && v != seq!['1'] && v.len() > 0),
{
    reveal_strlit("1");
    reveal_strlit("");
    assert("1"@ =~= seq!['1']);
    assert(""@ =~= Seq::<char>::empty());
    if let Some(v) = xml::attribute_of(node.attributes, name) {
        if v.len() == 0 {
            assert(v =~= ""@);
        }
        assert("1"@.len() == 1);
    }
}

/// An integer attribute is the number that its digits denote, and refused exactly where it is no
/// 64-bit integer.
pub proof fn integers_are_what_they_denote(node: ElementView, name: Seq<char>, path: Seq<char>)
    requires
        xml::attribute_of(node.attributes, name) is Some,
    ensures
        ({
            let v = xml::attribute_of(node.attributes, name)->Some_0;
            match number::signed_value(v) {
                Some(n) if -0x8000_0000_0000_0000 <= n <= 0x7fff_ffff_ffff_ffff => int_value(
                    node,
                    name,
                    path,
                ) is Ok && int_value(node, name, path)->Ok_0 == n,
                _ => int_value(node, name, path) == Err::<i64, ErrorView>(
                    ErrorView::InvalidInt { path },
                ),
            }
        }),
{
}

/// A number of the document is kept in the notation in which it stands there, and a text that
/// denotes none is refused. A number that may be missing is missing exactly where it is empty.
pub proof fn numbers_are_kept_as_they_stand(node: ElementView, name: Seq<char>, path: Seq<char>)
    requires
        xml::attribute_of(node.attributes, name) is Some,
    ensures
        ({
            let v = xml::attribute_of(node.attributes, name)->Some_0;
            &&& float_value(node, name, path) == if number::is_real(v) {
                Ok::<Seq<char>, ErrorView>(v)
            } else {
                Err(ErrorView::InvalidFloat { path, value: v })
            }
            &&& opt_float_value(node, name, path) == Ok::<Option<Seq<char>>, ErrorView>(None)
                <==> v.len() == 0
            &&& v.len() > 0 && number::is_real(v) ==> opt_float_value(node, name, path) == Ok::<
                Option<Seq<char>>,
                ErrorView,
            >(Some(v))
            &&& v.len() > 0 && !number::is_real(v) ==> opt_float_value(node, name, path) == Err::<
                Option<Seq<char>>,
                ErrorView,
            >(ErrorView::InvalidFloat { path, value: v })
        }),
{
    reveal_strlit("");
    let v = xml::attribute_of(node.attributes, name)->Some_0;
    if v.len() == 0 {
        assert(v =~= ""@);
    }
}

/// A time of day has its hour before the first point and its minute behind it.
pub proof fn hours_stand_before_minutes(v: Seq<char>, point: int, path: Seq<char>)
    requires
        0 <= point < v.len(),
        v[point] == '.',
        forall|i: int| 0 <= i < point ==> v[i] != '.',
    ensures
        time_of_day_of(v, path) matches Ok(t) ==> number::u8_of(v.subrange(0, point)) == Some(
            t.hour,
        ) && number::u8_of(v.subrange(point + 1, v.len() as int)) == Some(t.minute),
        time_of_day_of(v, path) is Ok <==> number::u8_of(v.subrange(0, point)) is Some
            && number::u8_of(v.subrange(point + 1, v.len() as int)) is Some,
        time_of_day_of(v, path) is Err ==> time_of_day_of(v, path) == Err::<TimeOfDay, ErrorView>(
            ErrorView::InvalidInt { path },
        ),
{
    text::find_is_first(v, '.', 0);
}

/// A time of day without a point is refused.
pub proof fn times_of_day_have_a_point(v: Seq<char>, path: Seq<char>)
    requires
        forall|i: int| 0 <= i < v.len() ==> v[i] != '.',
    ensures
        time_of_day_of(v, path) == Err::<TimeOfDay, ErrorView>(ErrorView::InvalidTimeOfDay(path)),
{
    text::find_is_first(v, '.', 0);
}

/// A time of day that is written out as hour, point and minute is read back.
pub proof fn times_of_day_are_read_back(t: TimeOfDay, path: Seq<char>)
    ensures
        time_of_day_of(
            text::decimal_text(t.hour as nat) + seq!['.'] + text::decimal_text(t.minute as nat),
            path,
        ) == Ok::<TimeOfDay, ErrorView>(t),
{
    let hour = text::decimal_text(t.hour as nat);
    let minute = text::decimal_text(t.minute as nat);
    let v = hour + seq!['.'] + minute;
    number::decimal_text_denotes(t.hour as nat);
    number::decimal_text_denotes(t.minute as nat);
    let point = hour.len() as int;
    assert(v[point] == '.');
    assert forall|i: int| 0 <= i < point implies v[i] != '.' by {
        assert(number::is_digit(hour[i]));
        assert(v[i] == hour[i]);
    }
    assert(v.subrange(0, point) =~= hour);
    assert(v.subrange(point + 1, v.len() as int) =~= minute);
    hours_stand_before_minutes(v, point, path);
}

/// The time of day of an attribute is the one that its text stands for, and the fuel of an
/// attribute the one that its text names.
pub proof fn attributes_stand_for_their_texts(node: ElementView, name: Seq<char>, path: Seq<char>)
    requires
        xml::attribute_of(node.attributes, name) is Some,
    ensures
        ({
            let v = xml::attribute_of(node.attributes, name)->Some_0;
            &&& time_of_day_value(node, name, path) == time_of_day_of(v, path)
            &&& fuel_value(node, name, path) matches Ok(fuel) ==> model::fuel_name(fuel) == v
            &&& forall|fuel: Fuel|
                v == #[trigger] model::fuel_name(fuel) ==> fuel_value(node, name, path) == Ok::<
                    Fuel,
                    ErrorView,
                >(fuel)
        }),
{
    let v = xml::attribute_of(node.attributes, name)->Some_0;
    if let Ok(fuel) = fuel_value(node, name, path) {
        model::fuel_names_are_distinct(fuel, v);
    }
    assert forall|fuel: Fuel| v == #[trigger] model::fuel_name(fuel) implies fuel_value(
        node,
        name,
        path,
    ) == Ok::<Fuel, ErrorView>(fuel) by {
        model::fuel_names_are_distinct(fuel, v);
    }
}

/// A date attribute stands for the points in time at which the clocks of Paris show the local time
/// that its text shows: with a blank in the one format, with a `T` in the other. Where it may be
/// missing, it is missing exactly where its text is empty.
pub proof fn date_attributes_are_times_of_paris(
    node: ElementView,
    name: Seq<char>,
    path: Seq<char>,
    format: DateFormat,
)
    requires
        xml::attribute_of(node.attributes, name) is Some,
    ensures
        ({
            let v = xml::attribute_of(node.attributes, name)->Some_0;
            let reading = if format is Spaced {
                time::local_reading(v, "%F %T"@)
            } else {
                time::local_reading(v, "%FT%T"@)
            };
            let date = match reading {
                None => Err(ErrorView::InvalidDate { path }),
                Some(local) => match time::paris_times(local) {
                    time::LocalTime::Never => Err(ErrorView::InexistentDateTime(path)),
                    time::LocalTime::Once(t) => Ok(DateTime::Single(t)),
                    time::LocalTime::Twice(a, b) => Ok(DateTime::Ambiguous(a, b)),
                },
            };
            &&& date_value(node, name, path, format) == date
            &&& v.len() == 0 ==> opt_date_value(node, name, path, format) == Ok::<
                Option<DateTime>,
                ErrorView,
            >(None)
            &&& v.len() > 0 ==> (match opt_date_value(node, name, path, format) {
                Ok(Some(d)) => date == Ok::<DateTime, ErrorView>(d),
                Ok(None) => false,
                Err(e) => date == Err::<DateTime, ErrorView>(e),
            })
        }),
{
    reveal_strlit("");
    let v = xml::attribute_of(node.attributes, name)->Some_0;
    if v.len() == 0 {
        assert(v =~= ""@);
    }
}

/// Date attributes that show the same local time, each in the notation of its format, are read
/// alike.
pub proof fn date_attributes_are_read_alike(
    spaced: ElementView,
    separated: ElementView,
    name: Seq<char>,
    path: Seq<char>,
)
    requires
        xml::attribute_of(spaced.attributes, name) is Some,
        xml::attribute_of(separated.attributes, name) is Some,
        time::local_reading(xml::attribute_of(spaced.attributes, name)->Some_0, "%F %T"@)
            == time::local_reading(
            xml::attribute_of(separated.attributes, name)->Some_0,
            "%FT%T"@,
        ),
    ensures
        date_value(spaced, name, path, DateFormat::Spaced) == date_value(
            separated,
            name,
            path,
            DateFormat::TSeparated,
        ),
{
}

/// Nothing that is read of an attribute is read of one that is missing.
pub proof fn missing_attributes_are_refused(
    node: ElementView,
    name: Seq<char>,
    path: Seq<char>,
    format: DateFormat,
)
    requires
        xml::attribute_of(node.attributes, name) is None,
    ensures
        ({
            let e = ErrorView::MissingAttribute { path, attribute: name };
            &&& bool_value(node, name, path) == Err::<bool, ErrorView>(e)
            &&& int_value(node, name, path) == Err::<i64, ErrorView>(e)
            &&& float_value(node, name, path) == Err::<Seq<char>, ErrorView>(e)
            &&& opt_float_value(node, name, path) == Err::<Option<Seq<char>>, ErrorView>(e)
            &&& fuel_value(node, name, path) == Err::<Fuel, ErrorView>(e)
            &&& time_of_day_value(node, name, path) == Err::<TimeOfDay, ErrorView>(e)
            &&& date_value(node, name, path, format) == Err::<DateTime, ErrorView>(e)
            &&& opt_date_value(node, name, path, format) == Err::<Option<DateTime>, ErrorView>(e)
        }),
{
}

} // verus!
