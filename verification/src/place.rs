//! Places as the user names them.

use vstd::prelude::*;

#[allow(unused_imports)]
use crate::geo;
use crate::geo::{GeoCache, QueryLookup};
#[allow(unused_imports)]
use crate::geo::QueryLookupView;
use crate::number;
use crate::number::Real;
use crate::text;

verus! {

/// A place that the user names by its coordinates or by a search.
#[derive(Debug)]
pub enum Location {
    Coords { latitude: Real, longitude: Real },
    Name(String),
}

pub enum LocationView {
    Coords { latitude: Seq<char>, longitude: Seq<char> },
    Name(Seq<char>),
}

impl View for Location {
    type V = LocationView;

    open spec fn view(&self) -> LocationView {
        match *self {
            Location::Coords { latitude, longitude } => LocationView::Coords {
                latitude: latitude@,
                longitude: longitude@,
            },
            Location::Name(query) => LocationView::Name(query@),
        }
    }
}

impl DeepView for Location {
    type V = LocationView;

    open spec fn deep_view(&self) -> LocationView {
        self@
    }
}

impl Clone for Location {
    fn clone(&self) -> (r: Self)
        ensures
            r@ == self@,
    {
        match self {
            Location::Coords { latitude, longitude } => Location::Coords {
                latitude: latitude.clone(),
                longitude: longitude.clone(),
            },
            Location::Name(query) => Location::Name(query.clone()),
        }
    }
}

/// Why a text names no place.
#[derive(Debug)]
pub enum PlaceError {
    /// It is not of the form `<latitude>,<longitude>`
    Form,
    /// One of its coordinates is no number, but this text
    Number(String),
}

pub enum PlaceErrorView {
    Form,
    Number(Seq<char>),
}

impl View for PlaceError {
    type V = PlaceErrorView;

    open spec fn view(&self) -> PlaceErrorView {
        match *self {
            PlaceError::Form => PlaceErrorView::Form,
            PlaceError::Number(t) => PlaceErrorView::Number(t@),
        }
    }
}

/// The place that a text names: a search where it begins with `q:`, and else coordinates.
pub open spec fn place_of_text(s: Seq<char>) -> Result<LocationView, PlaceErrorView> {
    if text::begins_with(s, "q:"@) {
        Ok(LocationView::Name(s.skip("q:"@.len() as int)))
    } else {
        match text::split_first(s, ',') {
            None => Err(PlaceErrorView::Form),
            Some((latitude, longitude)) => if !number::is_real(latitude) {
                Err(PlaceErrorView::Number(latitude))
            } else if !number::is_real(longitude) {
                Err(PlaceErrorView::Number(longitude))
            } else {
                Ok(LocationView::Coords { latitude, longitude })
            },
        }
    }
}

/// What is to be done to get the coordinates of a place.
#[derive(Debug)]
pub enum CoordsLookup {
    /// These are the coordinates
    At { latitude: Real, longitude: Real },
    /// The place is a search, and there is no server to ask
    NoServer,
    /// The server has to be asked for the search, under this address
    Ask { url: String, query: String },
}

pub enum CoordsLookupView {
    At { latitude: Seq<char>, longitude: Seq<char> },
    NoServer,
    Ask { url: Seq<char>, query: Seq<char> },
}

impl View for CoordsLookup {
    type V = CoordsLookupView;

    open spec fn view(&self) -> CoordsLookupView {
        match *self {
            CoordsLookup::At { latitude, longitude } => CoordsLookupView::At {
                latitude: latitude@,
                longitude: longitude@,
            },
            CoordsLookup::NoServer => CoordsLookupView::NoServer,
            CoordsLookup::Ask { url, query } => CoordsLookupView::Ask {
                url: url@,
                query: query@,
            },
        }
    }
}

/// What is to be done to get the coordinates of a place.
pub open spec fn coords_lookup(
    place: LocationView,
    entries: geo::Entries,
    server: Option<Seq<char>>,
) -> CoordsLookupView {
    match place {
        LocationView::Coords { latitude, longitude } => CoordsLookupView::At {
            latitude,
            longitude,
        },
        LocationView::Name(query) => match geo::query_lookup(entries, server, query) {
            QueryLookupView::NoServer => CoordsLookupView::NoServer,
            QueryLookupView::Known(info) => CoordsLookupView::At {
                latitude: info.lat,
                longitude: info.lon,
            },
            QueryLookupView::Ask { url } => CoordsLookupView::Ask { url, query },
        },
    }
}

impl Location {
    /// Reads a place of the form `<latitude>,<longitude>` or `q:<search>`.
    pub fn from_str(s: &str) -> (r: Result<Location, PlaceError>)
        ensures
            (match r {
                Ok(place) => Ok::<LocationView, PlaceErrorView>(place@),
                Err(e) => Err(e@),
            }) == place_of_text(s@),
    {
        match text::strip_prefix(s, "q:") {
            Some(query) => Ok(Location::Name(query)),
            None => match text::split_once(s, ',') {
                None => Err(PlaceError::Form),
                Some((latitude, longitude)) => match Real::parse(latitude.as_str()) {
                    None => Err(PlaceError::Number(latitude)),
                    Some(latitude) => match Real::parse(longitude.as_str()) {
                        None => Err(PlaceError::Number(longitude)),
                        Some(longitude) => Ok(Location::Coords { latitude, longitude }),
                    },
                },
            },
        }
    }

    /// Gives the coordinates of the place, or says what to ask the server for them.
    pub fn to_coords(&self, cache: &mut GeoCache) -> (r: CoordsLookup)
        requires
            old(cache).wf(),
        ensures
            final(cache).wf(),
            r@ == coords_lookup(self@, old(cache).entries(), old(cache).server()),
            final(cache).entries() == (match self@ {
                LocationView::Name(query) if r@ is At => geo::used(
                    old(cache).entries(),
                    (None, query),
                ),
                _ => old(cache).entries(),
            }),
            final(cache).server() == old(cache).server(),
            final(cache).spec_duration() == old(cache).spec_duration(),
    {
        match self {
            Location::Coords { latitude, longitude } => CoordsLookup::At {
                latitude: latitude.clone(),
                longitude: longitude.clone(),
            },
            Location::Name(query) => match cache.get_query(query.as_str()) {
                QueryLookup::NoServer => CoordsLookup::NoServer,
                QueryLookup::Known(info) => CoordsLookup::At {
                    latitude: info.lat,
                    longitude: info.lon,
                },
                QueryLookup::Ask { url } => CoordsLookup::Ask { url, query: query.clone() },
            },
        }
    }
}

/// A text that begins with `q:` is the search for what follows, whatever that is.
pub proof fn searches_follow_their_mark(query: Seq<char>)
    ensures
        place_of_text(seq!['q', ':'] + query) == Ok::<LocationView, PlaceErrorView>(
            LocationView::Name(query),
        ),
{
    reveal_strlit("q:");
    let s = seq!['q', ':'] + query;
    assert("q:"@ =~= seq!['q', ':']);
    assert(s.subrange(0, 2) =~= "q:"@);
    assert(s.skip(2) =~= query);
}

/// Two numbers with a comma between them are the latitude and the longitude of a place, in that
/// order.
pub proof fn latitudes_stand_before_longitudes(latitude: Seq<char>, longitude: Seq<char>)
    requires
        number::is_real(latitude),
        number::is_real(longitude),
    ensures
        place_of_text(latitude + seq![','] + longitude) == Ok::<LocationView, PlaceErrorView>(
            LocationView::Coords { latitude, longitude },
        ),
{
    reveal_strlit("q:");
    let s = latitude + seq![','] + longitude;
    number::real_has_no_comma(latitude);
    number::real_has_no_query_mark(latitude);
    text::find_is_first(s, ',', 0);
    let n = latitude.len() as int;
    assert(s[n] == ',');
    assert forall|i: int| 0 <= i < n implies s[i] != ',' by {
        assert(s[i] == latitude[i]);
    }
    assert(text::find(s, ',', 0) == n);
    assert(s.subrange(0, n) =~= latitude);
    assert(s.subrange(n + 1, s.len() as int) =~= longitude);
    if text::begins_with(s, "q:"@) {
        assert(s.subrange(0, 2)[0] == 'q' && s.subrange(0, 2)[1] == ':');
        if n > 0 {
            assert(s[0] == latitude[0]);
        } else {
            assert(s[0] == ',');
        }
    }
}

/// A place that is read is what the text says, and a text is only refused for want of a comma or
/// for a coordinate that is no number.
pub proof fn places_are_what_the_text_says(s: Seq<char>)
    ensures
        (match place_of_text(s) {
            Ok(LocationView::Name(query)) => s == seq!['q', ':'] + query,
            Ok(LocationView::Coords { latitude, longitude }) => s == latitude + seq![',']
                + longitude && number::is_real(latitude) && number::is_real(longitude),
            Err(PlaceErrorView::Form) => forall|i: int| 0 <= i < s.len() ==> s[i] != ',',
            Err(PlaceErrorView::Number(t)) => !number::is_real(t) && exists|a: Seq<char>, b: Seq<char>|
                s == #[trigger] (a + seq![','] + b) && (t == a || t == b),
        }),
{
    reveal_strlit("q:");
    assert("q:"@ =~= seq!['q', ':']);
    if text::begins_with(s, "q:"@) {
        assert(s =~= seq!['q', ':'] + s.skip(2));
    } else {
        text::cutting_is_at_the_first(s, ',');
        if let Some((a, b)) = text::split_first(s, ',') {
            assert(s == a + seq![','] + b);
        }
    }
}

/// The coordinates of a place that is named by them are those; of a search they are those of the
/// place that is known for it, the latitude and the longitude each in its place.
pub proof fn coordinates_are_those_of_the_place(
    place: LocationView,
    entries: geo::Entries,
    server: Option<Seq<char>>,
)
    ensures
        place matches LocationView::Coords { latitude, longitude } ==> coords_lookup(
            place,
            entries,
            server,
        ) == (CoordsLookupView::At { latitude, longitude }),
        place matches LocationView::Name(query) ==> (match geo::known(entries, (None, query)) {
            _ if server is None => coords_lookup(place, entries, server) is NoServer,
            Some(info) => coords_lookup(place, entries, server) == (CoordsLookupView::At {
                latitude: info.lat,
                longitude: info.lon,
            }),
            None => coords_lookup(place, entries, server) == (CoordsLookupView::Ask {
                url: server->Some_0 + "/search"@,
                query,
            }),
        }),
{
}

/// Views show what there is: of a place and of what is to be done every part.
pub proof fn views_show_lookups(place: Location, e: PlaceError, lookup: CoordsLookup)
    ensures
        place matches Location::Coords { latitude, longitude } ==> place@ == (
        LocationView::Coords { latitude: latitude.text@, longitude: longitude.text@ }),
        place matches Location::Name(query) ==> place@ == LocationView::Name(query@),
        place.deep_view() == place@,
        e is Form <==> e@ is Form,
        e matches PlaceError::Number(t) ==> e@ == PlaceErrorView::Number(t@),
        lookup is NoServer <==> lookup@ is NoServer,
        lookup matches CoordsLookup::At { latitude, longitude } ==> lookup@ == (
        CoordsLookupView::At { latitude: latitude.text@, longitude: longitude.text@ }),
        lookup matches CoordsLookup::Ask { url, query } ==> lookup@ == (CoordsLookupView::Ask {
            url: url@,
            query: query@,
        }),
{
}

} // verus!
