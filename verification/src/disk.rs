//! Checks what is kept of places on disk.

use ciborium::de::Error as CborError;
use vstd::prelude::*;

use crate::text;

verus! {

/// The version of the notation in which places are kept on disk.
pub const CACHE_VERSION: u64 = 2;

/// The map that a text of CBOR holds, as far as its keys are texts and its values integers.
/// There is nothing where the bytes are no CBOR, and no map where they hold something else.
pub uninterp spec fn cbor_map(bytes: Seq<u8>) -> Option<
    Option<Seq<(Option<Seq<char>>, Option<int>)>>,
>;

/// The entries of a map, seen by their views.
pub open spec fn map_view(map: Option<Vec<(Option<String>, Option<i128>)>>) -> Option<
    Seq<(Option<Seq<char>>, Option<int>)>,
> {
    match map {
        None => None,
        Some(v) => Some(
            v@.map_values(
                |e: (Option<String>, Option<i128>)|
                    (
                        e.0.deep_view(),
                        match e.1 {
                            None => None,
                            Some(n) => Some(n as int),
                        },
                    ),
            ),
        ),
    }
}

/// The error that ciborium gives for bytes that are no CBOR.
#[verifier::external_type_specification]
#[verifier::external_body]
#[verifier::reject_recursive_types(T)]
pub struct ExCborError<T>(CborError<T>);

/// `ciborium::from_reader` into a `ciborium::Value`. What the value is as a map is named
/// `cbor_map`; bytes that are no CBOR are an error. Of the error nothing is said.
#[verifier::external_body]
fn read_cbor(bytes: &[u8]) -> (r: Result<
    Option<Vec<(Option<String>, Option<i128>)>>,
    CborError<std::io::Error>,
>)
    ensures
        r is Ok <==> cbor_map(bytes@) is Some,
        r matches Ok(map) ==> cbor_map(bytes@) == Some(map_view(map)),
{
    let data: ciborium::Value = ciborium::from_reader(bytes)?;
    Ok(data.into_map().ok().map(|map| map.into_iter().map(|(k, v)| (
        k.into_text().ok(),
        v.into_integer().ok().map(i128::from),
    )).collect()))
}

/// Why what is kept on disk cannot be used.
#[derive(Debug)]
pub enum VersionError {
    Unreadable(CborError<std::io::Error>),
    NotAMap,
    NoVersion,
    NotAnInteger,
    OutOfRange,
    WrongVersion(u64),
}

pub enum VersionErrorView {
    Unreadable,
    NotAMap,
    NoVersion,
    NotAnInteger,
    OutOfRange,
    WrongVersion(u64),
}

impl View for VersionError {
    type V = VersionErrorView;

    open spec fn view(&self) -> VersionErrorView {
        match *self {
            VersionError::Unreadable(_) => VersionErrorView::Unreadable,
            VersionError::NotAMap => VersionErrorView::NotAMap,
            VersionError::NoVersion => VersionErrorView::NoVersion,
            VersionError::NotAnInteger => VersionErrorView::NotAnInteger,
            VersionError::OutOfRange => VersionErrorView::OutOfRange,
            VersionError::WrongVersion(v) => VersionErrorView::WrongVersion(v),
        }
    }
}

/// A check, seen by its view.
pub open spec fn seen_check(r: Result<(), VersionError>) -> Result<(), VersionErrorView> {
    match r {
        Ok(_) => Ok(()),
        Err(e) => Err(e@),
    }
}

/// The place of the first entry with the key `version` from `i` on, or the number of entries.
pub open spec fn version_place(map: Seq<(Option<Seq<char>>, Option<int>)>, i: int) -> int
    decreases map.len() - i,
{
    if i >= map.len() {
        map.len() as int
    } else if map[i].0 == Some("version"@) {
        i
    } else {
        version_place(map, i + 1)
    }
}

/// Whether a map says that it has the version that is understood.
pub open spec fn version_of(map: Option<Seq<(Option<Seq<char>>, Option<int>)>>) -> Result<
    (),
    VersionErrorView,
> {
    match map {
        None => Err(VersionErrorView::NotAMap),
        Some(map) => {
            let i = version_place(map, 0);
            if i >= map.len() {
                Err(VersionErrorView::NoVersion)
            } else {
                match map[i].1 {
                    None => Err(VersionErrorView::NotAnInteger),
                    Some(v) => if !(0 <= v <= u64::MAX) {
                        Err(VersionErrorView::OutOfRange)
                    } else if v != CACHE_VERSION {
                        Err(VersionErrorView::WrongVersion(v as u64))
                    } else {
                        Ok(())
                    },
                }
            }
        },
    }
}

/// Checks that a map has the version that is understood.
pub fn check_map(map: Option<Vec<(Option<String>, Option<i128>)>>) -> (r: Result<(), VersionError>)
    ensures
        seen_check(r) == version_of(map_view(map)),
{
    let ghost seen = map_view(map);
    let entries: Vec<(Option<String>, Option<i128>)> = match map {
        None => {
            return Err(VersionError::NotAMap);
        },
        Some(entries) => entries,
    };
    let ghost all = seen->Some_0;
    for i in 0..entries.len()
        invariant
            seen == map_view(map),
            seen == Some(all),
            map == Some(entries),
            version_place(all, 0) == version_place(all, i as int),
    {
        assert(all[i as int].0 == entries@[i as int].0.deep_view());
        let is_version: bool = match &entries[i].0 {
            None => false,
            Some(key) => text::same(key.as_str(), "version"),
        };
        if is_version {
            return match entries[i].1 {
                None => Err(VersionError::NotAnInteger),
                Some(v) => if v < 0 || v > u64::MAX as i128 {
                    Err(VersionError::OutOfRange)
                } else if v as u64 != CACHE_VERSION {
                    Err(VersionError::WrongVersion(v as u64))
                } else {
                    Ok(())
                },
            };
        }
    }
    Err(VersionError::NoVersion)
}

/// Checks that what was read from disk has the version that is understood.
pub fn check_read(
    read: Result<Option<Vec<(Option<String>, Option<i128>)>>, CborError<std::io::Error>>,
) -> (r: Result<(), VersionError>)
    ensures
        read matches Ok(map) ==> seen_check(r) == version_of(map_view(map)),
        read matches Err(e) ==> r == Err::<(), VersionError>(VersionError::Unreadable(e)),
{
    match read {
        Err(e) => Err(VersionError::Unreadable(e)),
        Ok(map) => check_map(map),
    }
}

/// Checks that what is kept on disk has the version that is understood.
pub fn check_version(bytes: &[u8]) -> (r: Result<(), VersionError>)
    ensures
        seen_check(r) == (match cbor_map(bytes@) {
            None => Err::<(), VersionErrorView>(VersionErrorView::Unreadable),
            Some(map) => version_of(map),
        }),
{
    check_read(read_cbor(bytes))
}

/// What is kept on disk can be used exactly where its first entry for the version is the number two;
/// otherwise the reason says what that entry is instead.
pub proof fn only_the_own_version_is_read(map: Seq<(Option<Seq<char>>, Option<int>)>, i: int)
    requires
        0 <= i < map.len(),
        map[i].0 == Some("version"@),
        forall|j: int|
            #![trigger map[j]]
            0 <= j < i ==> map[j].0 != Some("version"@),
    ensures
        version_of(Some(map)) is Ok <==> map[i].1 == Some(2int),
        version_of(Some(map)) == Err::<(), VersionErrorView>(VersionErrorView::NotAnInteger)
            <==> map[i].1 is None,
        version_of(Some(map)) == Err::<(), VersionErrorView>(VersionErrorView::OutOfRange) <==> (
        map[i].1 matches Some(v) && (v < 0 || v > 0xffff_ffff_ffff_ffff)),
        map[i].1 is Some && 0 <= map[i].1->Some_0 <= 0xffff_ffff_ffff_ffff && map[i].1->Some_0 != 2
            ==> (version_of(Some(map)) matches Err(VersionErrorView::WrongVersion(w)) && w
            == map[i].1->Some_0),
{
    version_stands_there(map, 0, i);
}

proof fn version_stands_there(map: Seq<(Option<Seq<char>>, Option<int>)>, from: int, i: int)
    requires
        0 <= from <= i < map.len(),
        map[i].0 == Some("version"@),
        forall|j: int|
            #![trigger map[j]]
            0 <= j < i ==> map[j].0 != Some("version"@),
    ensures
        version_place(map, from) == i,
    decreases i - from,
{
    if from < i {
        assert(map[from].0 != Some("version"@));
        version_stands_there(map, from + 1, i);
    }
}

/// What is no map, and what has no entry for the version, is refused as that.
pub proof fn a_version_is_needed(map: Seq<(Option<Seq<char>>, Option<int>)>)
    ensures
        version_of(None) == Err::<(), VersionErrorView>(VersionErrorView::NotAMap),
        (forall|j: int|
            #![trigger map[j]]
            0 <= j < map.len() ==> map[j].0 != Some("version"@)) ==> version_of(Some(map)) == Err::<
            (),
            VersionErrorView,
        >(VersionErrorView::NoVersion),
{
    if forall|j: int|
        #![trigger map[j]]
        0 <= j < map.len() ==> map[j].0 != Some("version"@) {
        no_version_stands_there(map, 0);
    }
}

proof fn no_version_stands_there(map: Seq<(Option<Seq<char>>, Option<int>)>, from: int)
    requires
        0 <= from <= map.len(),
        forall|j: int|
            #![trigger map[j]]
            0 <= j < map.len() ==> map[j].0 != Some("version"@),
    ensures
        version_place(map, from) == map.len(),
    decreases map.len() - from,
{
    if from < map.len() {
        assert(map[from].0 != Some("version"@));
        no_version_stands_there(map, from + 1);
    }
}

/// Views show what a check says.
pub proof fn views_show_checks(r: Result<(), VersionError>)
    ensures
        seen_check(r) is Ok <==> r is Ok,
        r matches Err(e) ==> seen_check(r) == Err::<(), VersionErrorView>(e@),
        r matches Err(VersionError::WrongVersion(v)) ==> r->Err_0@
            == VersionErrorView::WrongVersion(v),
        r is Err ==> (r->Err_0 is NotAMap <==> r->Err_0@ is NotAMap) && (r->Err_0 is NoVersion
            <==> r->Err_0@ is NoVersion) && (r->Err_0 is NotAnInteger <==> r->Err_0@
            is NotAnInteger) && (r->Err_0 is OutOfRange <==> r->Err_0@ is OutOfRange) && (
        r->Err_0 is Unreadable <==> r->Err_0@ is Unreadable),
{
}

} // verus!
