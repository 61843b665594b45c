//! Reads the parameters of a request and picks the stations that it asks for.

use std::num::ParseIntError;

use fnv::FnvHashSet;
use vstd::prelude::*;

use crate::model::Station;
#[allow(unused_imports)]
use crate::model::StationView;
use crate::number;
use crate::number::Real;
use crate::text;

verus! {

/// The hasher of fnv, which the sets of fnv are made with.
#[verifier::external_type_specification]
#[verifier::external_body]
pub struct ExFnvHasher(fnv::FnvHasher);

/// What the sets of fnv make their hashers with.
#[verifier::external_type_specification]
#[verifier::external_body]
#[verifier::reject_recursive_types(H)]
pub struct ExBuildHasherDefault<H>(std::hash::BuildHasherDefault<H>);

/// `fnv::FnvHashSet::insert`. The set then holds the id besides what it held.
#[verifier::external_body]
fn insert_id(set: &mut FnvHashSet<u64>, id: u64)
    ensures
        final(set)@ == old(set)@.insert(id),
{
    set.insert(id);
}

/// `fnv::FnvHashSet::contains`.
#[verifier::external_body]
fn contains_id(set: &FnvHashSet<u64>, id: u64) -> (r: bool)
    ensures
        r == set@.contains(id),
{
    set.contains(&id)
}

/// The ids of fields that all are integers.
pub open spec fn ids_among(fields: Seq<Seq<char>>) -> Option<Set<u64>> {
    if forall|i: int| 0 <= i < fields.len() ==> (#[trigger] number::u64_of(fields[i])) is Some {
        Some(
            Set::new(
                |id: u64|
                    exists|i: int|
                        0 <= i < fields.len() && #[trigger] number::u64_of(fields[i]) == Some(id),
            ),
        )
    } else {
        None
    }
}

/// The ids of a comma separated list, when all that it lists are integers.
pub open spec fn ids_of(v: Seq<char>) -> Option<Set<u64>> {
    ids_among(text::fields(v, ','))
}

/// Reads a comma separated list of integers.
pub fn comma_array(v: &str) -> (r: Result<FnvHashSet<u64>, ParseIntError>)
    ensures
        r is Ok <==> ids_of(v@) is Some,
        r matches Ok(set) ==> ids_of(v@) == Some(set@),
{
    let pieces: Vec<String> = text::split(v, ',');
    let ghost all = text::fields(v@, ',');
    let mut set: FnvHashSet<u64> = FnvHashSet::default();
    for i in 0..pieces.len()
        invariant
            all == text::fields(v@, ','),
            text::texts(pieces@) == all,
            forall|j: int| 0 <= j < i ==> (#[trigger] number::u64_of(all[j])) is Some,
            forall|id: u64|
                set@.contains(id) <==> exists|j: int|
                    0 <= j < i && #[trigger] number::u64_of(all[j]) == Some(id),
    {
        assert(text::texts(pieces@)[i as int] == pieces@[i as int]@);
        let ghost before = set@;
        match number::parse_u64(pieces[i].as_str()) {
            Err(e) => {
                assert(number::u64_of(all[i as int]) is None);
                return Err(e);
            },
            Ok(n) => {
                insert_id(&mut set, n);
                assert(number::u64_of(all[i as int]) == Some(n));
                assert forall|id: u64|
                    set@.contains(id) <==> exists|j: int|
                        0 <= j < i + 1 && #[trigger] number::u64_of(all[j]) == Some(id) by {
                    if before.contains(id) {
                        let j = choose|j: int|
                            0 <= j < i && #[trigger] number::u64_of(all[j]) == Some(id);
                        assert(0 <= j < i + 1 && number::u64_of(all[j]) == Some(id));
                    }
                }
            },
        }
    }
    assert(set@ =~= ids_of(v@)->Some_0);
    Ok(set)
}

/// A place and how far from it a station may be.
#[derive(Debug)]
pub struct LocationQuery {
    pub latitude: Real,
    pub longitude: Real,
    pub distance: Real,
}

/// Why a text is no [LocationQuery].
#[derive(Debug)]
pub enum LocationError {
    /// There are not three fields
    Fields,
    /// The text of the first field that is no number
    Number(String),
}

pub struct LocationQueryView {
    pub latitude: Seq<char>,
    pub longitude: Seq<char>,
    pub distance: Seq<char>,
}

pub enum LocationErrorView {
    Fields,
    Number(Seq<char>),
}

impl View for LocationQuery {
    type V = LocationQueryView;

    open spec fn view(&self) -> LocationQueryView {
        LocationQueryView {
            latitude: self.latitude@,
            longitude: self.longitude@,
            distance: self.distance@,
        }
    }
}

impl View for LocationError {
    type V = LocationErrorView;

    open spec fn view(&self) -> LocationErrorView {
        match *self {
            LocationError::Fields => LocationErrorView::Fields,
            LocationError::Number(field) => LocationErrorView::Number(field@),
        }
    }
}

/// The location query of a text `latitude,longitude,distance`.
pub open spec fn location_query_of(v: Seq<char>) -> Result<LocationQueryView, LocationErrorView> {
    let fields = text::fields(v, ',');
    if fields.len() != 3 {
        Err(LocationErrorView::Fields)
    } else if !number::is_real(fields[0]) {
        Err(LocationErrorView::Number(fields[0]))
    } else if !number::is_real(fields[1]) {
        Err(LocationErrorView::Number(fields[1]))
    } else if !number::is_real(fields[2]) {
        Err(LocationErrorView::Number(fields[2]))
    } else {
        Ok(LocationQueryView { latitude: fields[0], longitude: fields[1], distance: fields[2] })
    }
}

impl LocationQuery {
    /// Reads a text of the form `latitude,longitude,distance`.
    pub fn parse(v: &str) -> (r: Result<LocationQuery, LocationError>)
        ensures
            (match r {
                Ok(q) => Ok::<LocationQueryView, LocationErrorView>(q@),
                Err(e) => Err(e@),
            }) == location_query_of(v@),
    {
        let pieces: Vec<String> = text::split(v, ',');
        if pieces.len() != 3 {
            return Err(LocationError::Fields);
        }
        proof {
            let fields = text::texts(pieces@);
            assert(fields[0] == pieces@[0]@ && fields[1] == pieces@[1]@ && fields[2]
                == pieces@[2]@);
        }
        let latitude: Real = match Real::parse(pieces[0].as_str()) {
            Some(x) => x,
            None => {
                return Err(LocationError::Number(pieces[0].clone()));
            },
        };
        let longitude: Real = match Real::parse(pieces[1].as_str()) {
            Some(x) => x,
            None => {
                return Err(LocationError::Number(pieces[1].clone()));
            },
        };
        let distance: Real = match Real::parse(pieces[2].as_str()) {
            Some(x) => x,
            None => {
                return Err(LocationError::Number(pieces[2].clone()));
            },
        };
        Ok(LocationQuery { latitude, longitude, distance })
    }
}

/// The text of a location query.
pub open spec fn location_text(q: LocationQueryView) -> Seq<char> {
    text::joined(seq![q.latitude, q.longitude, q.distance], ',')
}

impl LocationQuery {
    /// The parameter `location` that asks for the stations around a place.
    pub fn parameter(&self) -> (s: String)
        ensures
            s@ == location_text(self@),
    {
        let mut fields: Vec<String> = Vec::new();
        fields.push(self.latitude.text.clone());
        fields.push(self.longitude.text.clone());
        fields.push(self.distance.text.clone());
        proof {
            reveal_strlit(",");
            assert(text::texts(fields@) =~= seq![
                self@.latitude,
                self@.longitude,
                self@.distance,
            ]);
        }
        text::join(&fields, ",")
    }
}

/// The server reads a location query as it was meant.
pub proof fn location_is_read_back(q: LocationQueryView)
    requires
        number::is_real(q.latitude),
        number::is_real(q.longitude),
        number::is_real(q.distance),
    ensures
        location_query_of(location_text(q)) == Ok::<LocationQueryView, LocationErrorView>(q),
{
    number::real_has_no_comma(q.latitude);
    number::real_has_no_comma(q.longitude);
    number::real_has_no_comma(q.distance);
    let pieces = seq![q.latitude, q.longitude, q.distance];
    assert forall|i: int, j: int|
        #![trigger pieces[i][j]]
        0 <= i < pieces.len() && 0 <= j < pieces[i].len() implies pieces[i][j] != ',' by {
        assert(i == 0 || i == 1 || i == 2);
    }
    text::split_undoes_join(pieces, ',');
}

/// Whether a station is one of those asked for.
pub open spec fn is_asked(station: StationView, ids: Set<u64>) -> bool {
    number::u64_of(station.id) matches Some(id) && ids.contains(id)
}

/// The stations asked for, in their order: all of them, where no id is given.
pub open spec fn asked(stations: Seq<StationView>, ids: Set<u64>) -> Seq<StationView> {
    if ids == Set::<u64>::empty() {
        stations
    } else {
        stations.filter(|s: StationView| is_asked(s, ids))
    }
}

/// Keeps the stations whose ids are asked for, or all of them where no id is given.
pub fn retain_ids(stations: Vec<Station>, ids: &FnvHashSet<u64>) -> (r: Vec<Station>)
    ensures
        r.deep_view() == asked(stations.deep_view(), ids@),
{
    if ids.is_empty() {
        return stations;
    }
    let ghost all = stations.deep_view();
    let ghost wanted = |s: StationView| is_asked(s, ids@);
    let mut kept: Vec<Station> = Vec::new();
    for station in it: stations
        invariant
            it.seq() == stations@,
            all == stations.deep_view(),
            wanted == (|s: StationView| is_asked(s, ids@)),
            kept.deep_view() == all.take(it.index() as int).filter(wanted),
    {
        let ghost i = it.index() as int;
        let ghost before = kept.deep_view();
        proof {
            assert(station.deep_view() == all[i]);
            assert(all.take(i + 1).drop_last() =~= all.take(i));
            assert(all.take(i + 1).last() == station.deep_view());
            reveal(Seq::filter);
        }
        let asked_for: bool = match number::parse_u64(station.id.as_str()) {
            Ok(id) => contains_id(ids, id),
            Err(_) => false,
        };
        if asked_for {
            kept.push(station);
            assert(kept.deep_view() =~= before.push(station.deep_view()));
        }
    }
    assert(all.take(all.len() as int) =~= all);
    kept
}

/// Whether a search keeps a station: it is near, or its place is unknown and such are kept.
pub open spec fn is_kept(station: StationView, near: bool, keep_unknown: bool) -> bool {
    match station.location.coordinates {
        None => keep_unknown,
        Some(_) => near,
    }
}

/// The stations that a search keeps, in their order.
pub open spec fn kept_near(
    stations: Seq<StationView>,
    near: Seq<bool>,
    keep_unknown: bool,
) -> Seq<StationView>
    decreases stations.len(),
{
    if stations.len() == 0 {
        seq![]
    } else {
        let before = kept_near(stations.drop_last(), near, keep_unknown);
        if is_kept(stations.last(), near[stations.len() - 1], keep_unknown) {
            before.push(stations.last())
        } else {
            before
        }
    }
}

/// Keeps the stations that are near, where `near` says so of each, and those without coordinates
/// where they are to be kept.
pub fn retain_near(stations: Vec<Station>, near: &Vec<bool>, keep_unknown: bool) -> (r: Vec<
    Station,
>)
    requires
        near@.len() == stations@.len(),
    ensures
        r.deep_view() == kept_near(stations.deep_view(), near@, keep_unknown),
{
    let ghost all = stations.deep_view();
    let mut kept: Vec<Station> = Vec::new();
    let count: usize = near.len();
    let mut i: usize = 0;
    for station in it: stations
        invariant
            it.seq() == stations@,
            near@.len() == stations@.len(),
            count == near@.len(),
            all == stations.deep_view(),
            i == it.index(),
            kept.deep_view() == kept_near(all.take(i as int), near@, keep_unknown),
    {
        let ghost before = kept.deep_view();
        proof {
            assert(station.deep_view() == all[i as int]);
            assert(all.take(i + 1).drop_last() =~= all.take(i as int));
            assert(all.take(i + 1).last() == station.deep_view());
        }
        let keep: bool = match station.location.coordinates {
            None => keep_unknown,
            Some(_) => near[i],
        };
        if keep {
            kept.push(station);
            assert(kept.deep_view() =~= before.push(station.deep_view()));
        }
        i = i + 1;
    }
    assert(all.take(all.len() as int) =~= all);
    kept
}

/// A request for ids is answered by the stations with these ids and no others; one without ids
/// by all stations.
pub proof fn only_asked_stations(stations: Seq<StationView>, ids: Set<u64>, s: StationView)
    ensures
        asked(stations, ids).contains(s) <==> stations.contains(s) && (is_asked(s, ids) || ids
            == Set::<u64>::empty()),
        asked(stations, ids).len() <= stations.len(),
        asked(asked(stations, ids), ids) == asked(stations, ids),
{
    if ids != Set::<u64>::empty() {
        let wanted = |s: StationView| is_asked(s, ids);
        let kept = stations.filter(wanted);
        filter_picks(stations, wanted, s);
        assert forall|k: int| 0 <= k < kept.len() implies #[trigger] wanted(kept[k]) by {
            filter_picks(stations, wanted, kept[k]);
        }
        kept_all(kept, wanted);
    }
}

proof fn filter_picks(s: Seq<StationView>, wanted: spec_fn(StationView) -> bool, x: StationView)
    ensures
        s.filter(wanted).contains(x) <==> s.contains(x) && wanted(x),
        s.filter(wanted).len() <= s.len(),
    decreases s.len(),
{
    reveal(Seq::filter);
    if s.len() > 0 {
        let front = s.drop_last();
        let kept = front.filter(wanted);
        filter_picks(front, wanted, x);
        if s.contains(x) && wanted(x) {
            let i = choose|i: int| 0 <= i < s.len() && s[i] == x;
            if i < s.len() - 1 {
                assert(front[i] == x);
                let k = choose|k: int| 0 <= k < kept.len() && kept[k] == x;
                assert(s.filter(wanted)[k] == x);
            } else {
                assert(s.filter(wanted)[kept.len() as int] == x);
            }
        }
        if s.filter(wanted).contains(x) {
            let k = choose|k: int| 0 <= k < s.filter(wanted).len() && s.filter(wanted)[k] == x;
            if k < kept.len() {
                assert(kept[k] == x);
                let i = choose|i: int| 0 <= i < front.len() && front[i] == x;
                assert(s[i] == x);
            } else {
                assert(s[s.len() - 1] == x);
            }
        }
    }
}

proof fn kept_all(s: Seq<StationView>, wanted: spec_fn(StationView) -> bool)
    requires
        forall|i: int| 0 <= i < s.len() ==> #[trigger] wanted(s[i]),
    ensures
        s.filter(wanted) == s,
    decreases s.len(),
{
    reveal(Seq::filter);
    if s.len() > 0 {
        kept_all(s.drop_last(), wanted);
        assert(wanted(s[s.len() - 1]));
        assert(s.drop_last().push(s.last()) =~= s);
    } else {
        assert(s.filter(wanted) =~= s);
    }
}

/// Whether a station is among those that a search keeps.
pub open spec fn found(
    stations: Seq<StationView>,
    near: Seq<bool>,
    keep_unknown: bool,
    s: StationView,
) -> bool {
    exists|i: int|
        0 <= i < stations.len() && #[trigger] stations[i] == s && is_kept(s, near[i], keep_unknown)
}

/// A search for stations near a place gives those that are near and no others. Stations without
/// coordinates are left out, unless they are to be kept: then all of them are there.
pub proof fn search_keeps_what_is_near(
    stations: Seq<StationView>,
    near: Seq<bool>,
    keep_unknown: bool,
    s: StationView,
)
    requires
        near.len() >= stations.len(),
    ensures
        kept_near(stations, near, keep_unknown).contains(s) <==> found(
            stations,
            near,
            keep_unknown,
            s,
        ),
        kept_near(stations, near, keep_unknown).len() <= stations.len(),
    decreases stations.len(),
{
    if stations.len() > 0 {
        let n = stations.len() - 1;
        let front = stations.drop_last();
        let kept = kept_near(stations, near, keep_unknown);
        let before = kept_near(front, near, keep_unknown);
        search_keeps_what_is_near(front, near, keep_unknown, s);
        if kept.contains(s) {
            let k = choose|k: int| 0 <= k < kept.len() && kept[k] == s;
            if k < before.len() {
                assert(before[k] == s);
                let i = choose|i: int|
                    0 <= i < front.len() && #[trigger] front[i] == s && is_kept(
                        s,
                        near[i],
                        keep_unknown,
                    );
                assert(stations[i] == s);
            } else {
                assert(stations[n] == s);
            }
        }
        if found(stations, near, keep_unknown, s) {
            let i = choose|i: int|
                0 <= i < stations.len() && #[trigger] stations[i] == s && is_kept(
                    s,
                    near[i],
                    keep_unknown,
                );
            if i < n {
                assert(front[i] == s);
                let k = choose|k: int| 0 <= k < before.len() && before[k] == s;
                assert(kept[k] == s);
            } else {
                assert(kept[kept.len() - 1] == s);
            }
        }
    }
}

/// Whether a station answers a request: it is asked for, and where a place is given, kept.
pub open spec fn is_answer(
    station: StationView,
    ids: Set<u64>,
    near: Option<bool>,
    keep_unknown: bool,
) -> bool {
    &&& is_asked(station, ids) || ids == Set::<u64>::empty()
    &&& near matches Some(near) ==> is_kept(station, near, keep_unknown)
}

/// Whether the station at `i` is near, where a place is given.
pub open spec fn near_at(near: Option<Seq<bool>>, i: int) -> Option<bool> {
    match near {
        Some(near) => Some(near[i]),
        None => None,
    }
}

/// The stations that answer a request, in their order.
pub open spec fn answered(
    stations: Seq<StationView>,
    ids: Set<u64>,
    near: Option<Seq<bool>>,
    keep_unknown: bool,
) -> Seq<StationView>
    decreases stations.len(),
{
    if stations.len() == 0 {
        seq![]
    } else {
        let before = answered(stations.drop_last(), ids, near, keep_unknown);
        if is_answer(stations.last(), ids, near_at(near, stations.len() - 1), keep_unknown) {
            before.push(stations.last())
        } else {
            before
        }
    }
}

/// Picks the stations that answer a request: of those whose ids are asked for, where a place is
/// given, those that `near` says are near it, and those of unknown place where they are to be kept.
pub fn answer(
    stations: Vec<Station>,
    ids: &FnvHashSet<u64>,
    near: Option<Vec<bool>>,
    keep_unknown: bool,
) -> (r: Vec<Station>)
    requires
        near matches Some(near) ==> near@.len() == stations@.len(),
    ensures
        r.deep_view() == answered(
            stations.deep_view(),
            ids@,
            match near {
                Some(near) => Some(near@),
                None => None,
            },
            keep_unknown,
        ),
{
    match near {
        None => {
            proof {
                asking_answers(stations.deep_view(), ids@, keep_unknown);
            }
            retain_ids(stations, ids)
        },
        Some(near) => {
            proof {
                keeping_and_asking_answers(stations.deep_view(), ids@, near@, keep_unknown);
            }
            retain_ids(retain_near(stations, &near, keep_unknown), ids)
        },
    }
}

proof fn asking_answers(stations: Seq<StationView>, ids: Set<u64>, keep_unknown: bool)
    ensures
        asked(stations, ids) == answered(stations, ids, None, keep_unknown),
    decreases stations.len(),
{
    reveal(Seq::filter);
    if stations.len() > 0 {
        asking_answers(stations.drop_last(), ids, keep_unknown);
        assert(stations.drop_last().push(stations.last()) =~= stations);
    } else {
        assert(asked(stations, ids) =~= seq![]);
    }
}

proof fn keeping_and_asking_answers(
    stations: Seq<StationView>,
    ids: Set<u64>,
    near: Seq<bool>,
    keep_unknown: bool,
)
    ensures
        asked(kept_near(stations, near, keep_unknown), ids) == answered(
            stations,
            ids,
            Some(near),
            keep_unknown,
        ),
    decreases stations.len(),
{
    reveal(Seq::filter);
    if stations.len() > 0 {
        let front = stations.drop_last();
        let kept = kept_near(front, near, keep_unknown);
        keeping_and_asking_answers(front, ids, near, keep_unknown);
        assert(kept.push(stations.last()).drop_last() =~= kept);
        assert(kept.push(stations.last()).last() == stations.last());
    } else {
        assert(asked(kept_near(stations, near, keep_unknown), ids) =~= seq![]);
    }
}

/// A station is answered exactly when it is asked for and, where a place is given, kept.
pub proof fn answers_are_exact(
    stations: Seq<StationView>,
    ids: Set<u64>,
    near: Option<Seq<bool>>,
    keep_unknown: bool,
    s: StationView,
)
    ensures
        answered(stations, ids, near, keep_unknown).contains(s) <==> exists|i: int|
            0 <= i < stations.len() && #[trigger] stations[i] == s && is_answer(
                s,
                ids,
                near_at(near, i),
                keep_unknown,
            ),
        answered(stations, ids, near, keep_unknown).len() <= stations.len(),
    decreases stations.len(),
{
    if stations.len() > 0 {
        let n = stations.len() - 1;
        let front = stations.drop_last();
        let all = answered(stations, ids, near, keep_unknown);
        let before = answered(front, ids, near, keep_unknown);
        answers_are_exact(front, ids, near, keep_unknown, s);
        if all.contains(s) {
            let k = choose|k: int| 0 <= k < all.len() && all[k] == s;
            if k < before.len() {
                assert(before[k] == s);
                let i = choose|i: int|
                    0 <= i < front.len() && #[trigger] front[i] == s && is_answer(
                        s,
                        ids,
                        near_at(near, i),
                        keep_unknown,
                    );
                assert(stations[i] == s);
            } else {
                assert(stations[n] == s);
            }
        }
        if exists|i: int|
            0 <= i < stations.len() && #[trigger] stations[i] == s && is_answer(
                s,
                ids,
                near_at(near, i),
                keep_unknown,
            ) {
            let i = choose|i: int|
                0 <= i < stations.len() && #[trigger] stations[i] == s && is_answer(
                    s,
                    ids,
                    near_at(near, i),
                    keep_unknown,
                );
            if i < n {
                assert(front[i] == s);
                let k = choose|k: int| 0 <= k < before.len() && before[k] == s;
                assert(all[k] == s);
            } else {
                assert(all[all.len() - 1] == s);
            }
        }
    }
}

/// Whether stations are those at some places among others, in their order.
pub open spec fn are_at(
    stations: Seq<StationView>,
    places: Seq<int>,
    picked: Seq<StationView>,
) -> bool {
    &&& forall|a: int, b: int|
        #![trigger places[a], places[b]]
        0 <= a < b < places.len() ==> places[a] < places[b]
    &&& forall|k: int| 0 <= k < places.len() ==> 0 <= #[trigger] places[k] < stations.len()
    &&& picked.len() == places.len()
    &&& forall|k: int| 0 <= k < picked.len() ==> #[trigger] picked[k] == stations[places[k]]
}

/// A request is answered by the stations that it asks for, all of them, no others, and in their
/// order: those whose id is among the ids, where any are given, and, where a place is given, those
/// that are near it, or whose coordinates are not known where such are to be kept.
pub proof fn requests_are_answered_in_order(
    stations: Seq<StationView>,
    ids: Set<u64>,
    near: Option<Seq<bool>>,
    keep_unknown: bool,
) -> (places: Seq<int>)
    ensures
        are_at(stations, places, answered(stations, ids, near, keep_unknown)),
        forall|i: int|
            #![trigger stations[i]]
            0 <= i < stations.len() ==> (places.contains(i) <==> {
                &&& ids == Set::<u64>::empty() || (number::u64_of(stations[i].id) is Some
                    && ids.contains(number::u64_of(stations[i].id)->Some_0))
                &&& near is Some ==> if stations[i].location.coordinates is Some {
                    near->Some_0[i]
                } else {
                    keep_unknown
                }
            }),
    decreases stations.len(),
{
    if stations.len() == 0 {
        Seq::empty()
    } else {
        let front = stations.drop_last();
        let n = stations.len() - 1;
        let last = stations.last();
        let before = requests_are_answered_in_order(front, ids, near, keep_unknown);
        assert(forall|i: int| 0 <= i < n ==> front[i] == stations[i]);
        assert(stations[n] == last);
        let takes_last = is_answer(last, ids, near_at(near, n), keep_unknown);
        let all = if takes_last {
            before.push(n)
        } else {
            before
        };
        assert forall|i: int| 0 <= i < n implies (all.contains(i) <==> before.contains(i)) by {
            if before.contains(i) {
                let k = choose|k: int| 0 <= k < before.len() && before[k] == i;
                assert(all[k] == i);
            }
            if all.contains(i) {
                let k = choose|k: int| 0 <= k < all.len() && all[k] == i;
                assert(before[k] == i);
            }
        }
        assert(all.contains(n) <==> takes_last) by {
            if takes_last {
                assert(all[before.len() as int] == n);
            } else if all.contains(n) {
                let k = choose|k: int| 0 <= k < all.len() && all[k] == n;
                assert(before[k] < front.len());
            }
        }
        assert forall|i: int|
            #![trigger stations[i]]
            0 <= i < stations.len() implies (all.contains(i) <==> {
            &&& ids == Set::<u64>::empty() || (number::u64_of(stations[i].id) is Some
                && ids.contains(number::u64_of(stations[i].id)->Some_0))
            &&& near is Some ==> if stations[i].location.coordinates is Some {
                near->Some_0[i]
            } else {
                keep_unknown
            }
        }) by {
            if i < n {
                assert(front[i] == stations[i]);
            }
        }
        all
    }
}

/// A comma separated list names the ids of its fields, all of them and no others, and one field that
/// is no integer spoils the list.
pub proof fn lists_name_their_ids(v: Seq<char>, id: u64)
    ensures
        ids_of(v) is Some <==> forall|i: int|
            #![trigger text::fields(v, ',')[i]]
            0 <= i < text::fields(v, ',').len() ==> number::u64_of(text::fields(v, ',')[i]) is Some,
        ids_of(v) is Some ==> (ids_of(v)->Some_0.contains(id) <==> exists|i: int|
            #![trigger text::fields(v, ',')[i]]
            0 <= i < text::fields(v, ',').len() && number::u64_of(text::fields(v, ',')[i]) == Some(
                id,
            )),
{
    let all = text::fields(v, ',');
    if ids_of(v) is Some && ids_of(v)->Some_0.contains(id) {
        let i = choose|i: int| 0 <= i < all.len() && #[trigger] number::u64_of(all[i]) == Some(id);
        assert(number::u64_of(text::fields(v, ',')[i]) == Some(id));
    }
    if ids_of(v) is Some && exists|i: int|
        #![trigger text::fields(v, ',')[i]]
        0 <= i < text::fields(v, ',').len() && number::u64_of(text::fields(v, ',')[i]) == Some(
            id,
        ) {
        let i = choose|i: int|
            #![trigger text::fields(v, ',')[i]]
            0 <= i < text::fields(v, ',').len() && number::u64_of(text::fields(v, ',')[i]) == Some(
                id,
            );
        assert(0 <= i < all.len() && number::u64_of(all[i]) == Some(id));
    }
}

/// A list with one id asks for that id alone.
pub proof fn one_id_is_asked_for_alone(id: u64)
    ensures
        ids_of(text::decimal_text(id as nat)) == Some(Set::<u64>::empty().insert(id)),
{
    let s = text::decimal_text(id as nat);
    number::decimal_text_denotes(id as nat);
    let pieces = seq![s];
    assert forall|i: int, j: int|
        #![trigger pieces[i][j]]
        0 <= i < pieces.len() && 0 <= j < pieces[i].len() implies pieces[i][j] != ',' by {
        assert(number::is_digit(s[j]));
    }
    text::joined_pieces_are_separated(s, s, s, ',');
    text::split_undoes_join(pieces, ',');
    assert(number::u64_of(pieces[0]) == Some(id));
    let read = ids_among(pieces)->Some_0;
    assert forall|x: u64| read.contains(x) <==> x == id by {
        if x == id {
            assert(number::u64_of(pieces[0]) == Some(x));
        }
    }
    assert(read =~= Set::<u64>::empty().insert(id));
}

/// The parameter of a location query is its latitude, its longitude and its distance, in that order
/// and separated by commas.
pub proof fn locations_are_written_in_order(q: LocationQueryView)
    ensures
        location_text(q) == q.latitude + seq![','] + q.longitude + seq![','] + q.distance,
{
    text::joined_pieces_are_separated(q.latitude, q.longitude, q.distance, ',');
}

/// A location query is what its text says: three numbers in the order latitude, longitude, distance.
/// Other texts are refused, for the number of their fields or for the first field that is no number.
pub proof fn locations_are_what_their_text_says(v: Seq<char>)
    ensures
        (match location_query_of(v) {
            Ok(q) => v == q.latitude + seq![','] + q.longitude + seq![','] + q.distance
                && number::is_real(q.latitude) && number::is_real(q.longitude) && number::is_real(
                q.distance,
            ),
            Err(LocationErrorView::Fields) => text::fields(v, ',').len() != 3,
            Err(LocationErrorView::Number(t)) => text::fields(v, ',').len() == 3
                && !number::is_real(t) && text::fields(v, ',').contains(t),
        }),
{
    let fields = text::fields(v, ',');
    text::join_undoes_split(v, ',');
    if fields.len() == 3 {
        text::joined_pieces_are_separated(fields[0], fields[1], fields[2], ',');
        assert(fields =~= seq![fields[0], fields[1], fields[2]]);
        assert(fields.contains(fields[0]) && fields.contains(fields[1]) && fields.contains(
            fields[2],
        ));
    }
}

/// Views show what is asked for.
pub proof fn views_show_queries(q: LocationQuery, e: LocationError)
    ensures
        q@.latitude == q.latitude.text@,
        q@.longitude == q.longitude.text@,
        q@.distance == q.distance.text@,
        e is Fields <==> e@ is Fields,
        e matches LocationError::Number(t) ==> e@ == LocationErrorView::Number(t@),
{
}

} // verus!
