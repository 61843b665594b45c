//! Remembers what a nominatim server said of places.

use std::num::NonZeroUsize;

use lru::LruCache;
use vstd::prelude::*;

use crate::model::{Coordinates, Station};
#[allow(unused_imports)]
use crate::model::StationView;
use crate::number;
use crate::number::Real;
use crate::time::{Lapse, Timestamp};
#[allow(unused_imports)]
use crate::time;

verus! {

/// What is known of a place, and until when it is used.
#[derive(Debug)]
pub struct GeoInfo {
    pub display_name: String,
    pub lat: Real,
    pub lon: Real,
    pub expires: Timestamp,
}

pub struct GeoInfoView {
    pub display_name: Seq<char>,
    pub lat: Seq<char>,
    pub lon: Seq<char>,
    pub expires: Timestamp,
}

impl DeepView for GeoInfo {
    type V = GeoInfoView;

    open spec fn deep_view(&self) -> GeoInfoView {
        GeoInfoView {
            display_name: self.display_name@,
            lat: self.lat@,
            lon: self.lon@,
            expires: self.expires,
        }
    }
}

impl Clone for GeoInfo {
    fn clone(&self) -> (r: Self)
        ensures
            r.deep_view() == self.deep_view(),
    {
        GeoInfo {
            display_name: self.display_name.clone(),
            lat: self.lat.clone(),
            lon: self.lon.clone(),
            expires: self.expires,
        }
    }
}

/// A key of the cache: the id of a station, or none and the text of a search.
pub type Key = (Option<u64>, Seq<char>);

/// Keys and what is known of their places.
pub type Entries = Seq<((Option<u64>, Seq<char>), GeoInfoView)>;

/// What lru makes its hashers with.
#[verifier::external_type_specification]
#[verifier::external_body]
pub struct ExLruHasher(lru::DefaultHasher);

/// The cache of lru, which gives up what was used least recently.
#[verifier::external_type_specification]
#[verifier::external_body]
#[verifier::reject_recursive_types(K)]
#[verifier::reject_recursive_types(V)]
#[verifier::reject_recursive_types(S)]
pub struct ExLruCache<K, V, S>(LruCache<K, V, S>);

/// What a cache holds, the least recently used first.
pub uninterp spec fn lru_entries(cache: LruCache<(Option<u64>, String), GeoInfo>) -> Entries;

/// How much a cache can hold.
pub uninterp spec fn lru_capacity(cache: LruCache<(Option<u64>, String), GeoInfo>) -> nat;

/// The place of a key among the entries of a cache, or their number.
pub open spec fn place_of(entries: Entries, key: Key, from: int) -> int
    decreases entries.len() - from,
{
    if from >= entries.len() {
        entries.len() as int
    } else if entries[from].0 == key {
        from
    } else {
        place_of(entries, key, from + 1)
    }
}

/// The entries after the use of a key.
pub open spec fn used(entries: Entries, key: Key) -> Entries {
    let i = place_of(entries, key, 0);
    if i < entries.len() {
        entries.remove(i).push(entries[i])
    } else {
        entries
    }
}

/// The entries after one is put in: in the place of the one with the same key, or else, where the
/// cache is full, in the place of the least recently used one.
pub open spec fn put(entries: Entries, capacity: nat, key: Key, info: GeoInfoView) -> Entries {
    let i = place_of(entries, key, 0);
    if i < entries.len() {
        entries.remove(i).push((key, info))
    } else if entries.len() >= capacity {
        entries.drop_first().push((key, info))
    } else {
        entries.push((key, info))
    }
}

/// `lru::LruCache::new`: a cache that holds nothing.
#[verifier::external_body]
fn new_lru(capacity: usize) -> (cache: LruCache<(Option<u64>, String), GeoInfo>)
    requires
        0 < capacity <= 1_000_000,
    ensures
        lru_entries(cache) == Seq::<((Option<u64>, Seq<char>), GeoInfoView)>::empty(),
        lru_capacity(cache) == capacity,
{
    LruCache::new(NonZeroUsize::new(capacity).unwrap())
}

/// `lru::LruCache::get`: what the cache holds for a key, which thereby is the most recently used.
#[verifier::external_body]
fn lru_get<'a>(
    cache: &'a mut LruCache<(Option<u64>, String), GeoInfo>,
    key: &(Option<u64>, String),
) -> (r: Option<&'a GeoInfo>)
    ensures
        lru_entries(*final(cache)) == used(lru_entries(*old(cache)), (key.0, key.1@)),
        lru_capacity(*final(cache)) == lru_capacity(*old(cache)),
        r is Some <==> place_of(lru_entries(*old(cache)), (key.0, key.1@), 0) < lru_entries(
            *old(cache),
        ).len(),
        r matches Some(info) ==> info.deep_view() == lru_entries(*old(cache))[place_of(
            lru_entries(*old(cache)),
            (key.0, key.1@),
            0,
        )].1,
{
    cache.get(key)
}

/// `lru::LruCache::put`: the entry becomes the most recently used one. It takes the place of one
/// with the same key, or else, in a full cache, of the least recently used one.
#[verifier::external_body]
fn lru_put(
    cache: &mut LruCache<(Option<u64>, String), GeoInfo>,
    key: (Option<u64>, String),
    info: GeoInfo,
)
    ensures
        lru_entries(*final(cache)) == put(
            lru_entries(*old(cache)),
            lru_capacity(*old(cache)),
            (key.0, key.1@),
            info.deep_view(),
        ),
        lru_capacity(*final(cache)) == lru_capacity(*old(cache)),
{
    cache.put(key, info);
}

/// What a list of keys and places holds.
pub open spec fn pairs(v: Seq<((Option<u64>, String), GeoInfo)>) -> Entries {
    v.map_values(|e: ((Option<u64>, String), GeoInfo)| ((e.0.0, e.0.1@), e.1.deep_view()))
}

/// `lru::LruCache::into_iter`, which hands out the least recently used entry first.
#[verifier::external_body]
fn lru_into_entries(cache: LruCache<(Option<u64>, String), GeoInfo>) -> (r: Vec<
    ((Option<u64>, String), GeoInfo),
>)
    ensures
        pairs(r@) == lru_entries(cache),
{
    cache.into_iter().collect()
}

/// How many places are remembered.
pub const LRU_CAPACITY: usize = 1024;

/// What a place is remembered by.
#[derive(Debug)]
pub enum CacheKey {
    Station(u64),
    GeoLocation(String),
}

/// The key in the cache.
pub open spec fn key_of(key: CacheKey) -> Key {
    match key {
        CacheKey::Station(id) => (Some(id), ""@),
        CacheKey::GeoLocation(query) => (None, query@),
    }
}

/// Whether no two entries have the same key.
pub open spec fn distinct(entries: Entries) -> bool {
    forall|i: int, j: int|
        #![trigger entries[i].0, entries[j].0]
        0 <= i < j < entries.len() ==> entries[i].0 != entries[j].0
}

/// Whether a key is that of a station or of a search.
pub open spec fn is_key(key: Key) -> bool {
    key.0 is Some ==> key.1 == ""@
}

/// Whether all keys are those of stations or of searches.
pub open spec fn all_keys(entries: Entries) -> bool {
    forall|i: int| 0 <= i < entries.len() ==> is_key((#[trigger] entries[i]).0)
}

/// What is known of a key.
pub open spec fn known(entries: Entries, key: Key) -> Option<GeoInfoView> {
    let i = place_of(entries, key, 0);
    if i < entries.len() {
        Some(entries[i].1)
    } else {
        None
    }
}

proof fn place_is_first(entries: Entries, key: Key, from: int)
    requires
        0 <= from <= entries.len(),
    ensures
        from <= place_of(entries, key, from) <= entries.len(),
        place_of(entries, key, from) < entries.len() ==> entries[place_of(entries, key, from)].0
            == key,
        forall|i: int| from <= i < place_of(entries, key, from) ==> (#[trigger] entries[i]).0 != key,
    decreases entries.len() - from,
{
    if from < entries.len() && entries[from].0 != key {
        place_is_first(entries, key, from + 1);
    }
}

/// What is put in is then known. Of other keys the same is known as before, but for the least
/// recently used one, which a full cache gives up for a new key. The keys stay distinct, and their
/// number within the capacity.
pub proof fn what_is_put_is_known(
    entries: Entries,
    capacity: nat,
    key: Key,
    info: GeoInfoView,
    other: Key,
)
    requires
        distinct(entries),
        entries.len() <= capacity,
        capacity > 0,
    ensures
        known(put(entries, capacity, key, info), key) == Some(info),
        other != key && known(put(entries, capacity, key, info), other) is Some ==> known(
            put(entries, capacity, key, info),
            other,
        ) == known(entries, other),
        other != key && (entries.len() < capacity || known(entries, key) is Some || other
            != entries[0].0) ==> known(put(entries, capacity, key, info), other) == known(
            entries,
            other,
        ),
        distinct(put(entries, capacity, key, info)),
        put(entries, capacity, key, info).len() <= capacity,
{
    let after = put(entries, capacity, key, info);
    place_is_first(entries, key, 0);
    place_is_first(after, key, 0);
    place_is_first(entries, other, 0);
    place_is_first(after, other, 0);
    let i = place_of(entries, key, 0);
    let n = after.len() - 1;
    assert(after[n] == (key, info));
    assert forall|j: int| 0 <= j < n implies (#[trigger] after[j]).0 != key && exists|k: int|
        0 <= k < entries.len() && #[trigger] entries[k] == after[j] by {
        let k = if i < entries.len() {
            if j < i {
                j
            } else {
                j + 1
            }
        } else if entries.len() >= capacity {
            j + 1
        } else {
            j
        };
        assert(entries[k] == after[j]);
        if i < entries.len() {
            assert(entries[k].0 != entries[i].0);
        }
    }
    assert(place_of(after, key, 0) == n);
    assert(distinct(after)) by {
        assert forall|a: int, b: int|
            #![trigger after[a].0, after[b].0]
            0 <= a < b < after.len() implies after[a].0 != after[b].0 by {
            if b < n {
                let x = if i < entries.len() && a < i {
                    a
                } else if i < entries.len() || entries.len() >= capacity {
                    a + 1
                } else {
                    a
                };
                let y = if i < entries.len() && b < i {
                    b
                } else if i < entries.len() || entries.len() >= capacity {
                    b + 1
                } else {
                    b
                };
                assert(entries[x] == after[a] && entries[y] == after[b]);
                assert(entries[x].0 != entries[y].0);
            }
        }
    }
    let p = place_of(after, other, 0);
    if other != key && p < after.len() {
        assert(p < n);
        let k = choose|k: int| 0 <= k < entries.len() && #[trigger] entries[k] == after[p];
        let q = place_of(entries, other, 0);
        assert(q <= k);
        if q < k {
            assert(entries[q].0 != entries[k].0);
        }
    }
    let q = place_of(entries, other, 0);
    if other != key && q < entries.len() && (entries.len() < capacity || i < entries.len() || other
        != entries[0].0) {
        let at = if i < entries.len() {
            if q < i {
                q
            } else {
                q - 1
            }
        } else if entries.len() >= capacity {
            q - 1
        } else {
            q
        };
        assert(after[at] == entries[q]);
        assert(p <= at);
    }
}

/// The use of a key changes nothing of what is known, and makes it the last to be given up.
pub proof fn use_changes_nothing_known(entries: Entries, key: Key, other: Key)
    requires
        distinct(entries),
    ensures
        known(used(entries, key), other) == known(entries, other),
        distinct(used(entries, key)),
        used(entries, key).len() == entries.len(),
        known(entries, key) is Some ==> used(entries, key).last().0 == key,
{
    let after = used(entries, key);
    place_is_first(entries, key, 0);
    place_is_first(entries, other, 0);
    place_is_first(after, other, 0);
    let i = place_of(entries, key, 0);
    if i < entries.len() {
        let n = entries.len() - 1;
        assert(after[n] == entries[i]);
        assert(forall|j: int| 0 <= j < i ==> after[j] == entries[j]);
        assert(forall|j: int| i <= j < n ==> after[j] == entries[j + 1]);
        assert(distinct(after)) by {
            assert forall|a: int, b: int|
                #![trigger after[a].0, after[b].0]
                0 <= a < b < after.len() implies after[a].0 != after[b].0 by {
                let x = if a < i {
                    a
                } else {
                    a + 1
                };
                let y = if b < i {
                    b
                } else if b < n {
                    b + 1
                } else {
                    i
                };
                assert(after[a] == entries[x] && after[b] == entries[y]);
                assert(x != y);
                assert(entries[x].0 != entries[y].0);
            }
        }
        let p = place_of(entries, other, 0);
        let q = place_of(after, other, 0);
        if p < entries.len() {
            let at = if p < i {
                p
            } else if p == i {
                n
            } else {
                p - 1
            };
            assert(after[at] == entries[p]);
            assert(q <= at);
            if q < at {
                assert(after[q].0 != after[at].0);
            }
        } else if q < after.len() {
            let from = if q < i {
                q
            } else if q < n {
                q + 1
            } else {
                i
            };
            assert(after[q] == entries[from]);
        }
    }
}

/// What nominatim says of a place.
#[derive(Debug)]
pub struct OsmInfo {
    pub display_name: String,
    pub lat: String,
    pub lon: String,
}

/// A place with its coordinates, or the text of the first of them that is no number.
pub open spec fn info_of(
    display_name: Seq<char>,
    lat: Seq<char>,
    lon: Seq<char>,
    expires: Timestamp,
) -> Result<GeoInfoView, Seq<char>> {
    if !number::is_real(lat) {
        Err(lat)
    } else if !number::is_real(lon) {
        Err(lon)
    } else {
        Ok(GeoInfoView { display_name, lat, lon, expires })
    }
}

/// What nominatim said at `now`, to be used for `duration`.
pub open spec fn osm_info(osm: OsmInfo, now: Timestamp, duration: Lapse) -> Result<
    GeoInfoView,
    Seq<char>,
> {
    info_of(osm.display_name@, osm.lat@, osm.lon@, now.spec_plus(duration)->Some_0)
}

impl GeoInfo {
    /// Takes over what nominatim said at `now`, to be used for `duration`. The error is the text of
    /// a coordinate that is no number.
    pub fn from_osm(osm: OsmInfo, now: Timestamp, duration: Lapse) -> (r: Result<GeoInfo, String>)
        requires
            osm_info(osm, now, duration) is Ok ==> now.spec_plus(duration) is Some,
        ensures
            (match r {
                Ok(info) => Ok::<GeoInfoView, Seq<char>>(info.deep_view()),
                Err(e) => Err(e@),
            }) == osm_info(osm, now, duration),
            r matches Ok(info) ==> info.display_name@ == osm.display_name@ && info.lat.text@
                == osm.lat@ && info.lon.text@ == osm.lon@ && Some(info.expires) == now.spec_plus(
                duration,
            ),
    {
        let lat: Real = match Real::parse(osm.lat.as_str()) {
            Some(lat) => lat,
            None => {
                return Err(osm.lat);
            },
        };
        let lon: Real = match Real::parse(osm.lon.as_str()) {
            Some(lon) => lon,
            None => {
                return Err(osm.lon);
            },
        };
        let expires: Timestamp = now.plus(duration).unwrap();
        Ok(GeoInfo { display_name: osm.display_name, lat, lon, expires })
    }
}

/// Both of two values, when there are both.
pub fn opt_tr<T, U>(a: Option<T>, b: Option<U>) -> (r: Option<(T, U)>)
    ensures
        r == (match (a, b) {
            (Some(a), Some(b)) => Some((a, b)),
            _ => None::<(T, U)>,
        }),
{
    match a {
        Some(a) => match b {
            Some(b) => Some((a, b)),
            None => None,
        },
        None => None,
    }
}

/// The places that were asked for lately, and the server to ask for others.
pub struct GeoCache {
    nominatim: Option<String>,
    cache: LruCache<(Option<u64>, String), GeoInfo>,
    duration: Lapse,
}

/// What is to be done to learn of the place of a station.
#[derive(Debug)]
pub enum StationLookup {
    /// Nothing can be learnt of it
    Nothing,
    /// This is known of it
    Known(GeoInfo),
    /// The server has to be asked, under this address
    Ask { url: String, id: u64, coordinates: Coordinates },
}

pub enum StationLookupView {
    Nothing,
    Known(GeoInfoView),
    Ask { url: Seq<char>, id: u64, latitude: Seq<char>, longitude: Seq<char> },
}

impl View for StationLookup {
    type V = StationLookupView;

    open spec fn view(&self) -> StationLookupView {
        match *self {
            StationLookup::Nothing => StationLookupView::Nothing,
            StationLookup::Known(info) => StationLookupView::Known(info.deep_view()),
            StationLookup::Ask { url, id, coordinates } => StationLookupView::Ask {
                url: url@,
                id,
                latitude: coordinates.latitude@,
                longitude: coordinates.longitude@,
            },
        }
    }
}

/// What is to be done to learn of the place of a station. Nothing is, without a server, without
/// coordinates, or without an integer for an id.
pub open spec fn station_lookup(
    entries: Entries,
    server: Option<Seq<char>>,
    station: StationView,
) -> StationLookupView {
    match (server, station.location.coordinates, number::u64_of(station.id)) {
        (Some(server), Some(c), Some(id)) => match known(entries, (Some(id), ""@)) {
            Some(info) => StationLookupView::Known(info),
            None => StationLookupView::Ask {
                url: server + "/reverse"@,
                id,
                latitude: c.latitude,
                longitude: c.longitude,
            },
        },
        _ => StationLookupView::Nothing,
    }
}

/// What is to be done to learn of the place that a search finds.
#[derive(Debug)]
pub enum QueryLookup {
    /// There is no server to ask
    NoServer,
    /// This is known of it
    Known(GeoInfo),
    /// The server has to be asked, under this address
    Ask { url: String },
}

pub enum QueryLookupView {
    NoServer,
    Known(GeoInfoView),
    Ask { url: Seq<char> },
}

impl View for QueryLookup {
    type V = QueryLookupView;

    open spec fn view(&self) -> QueryLookupView {
        match *self {
            QueryLookup::NoServer => QueryLookupView::NoServer,
            QueryLookup::Known(info) => QueryLookupView::Known(info.deep_view()),
            QueryLookup::Ask { url } => QueryLookupView::Ask { url: url@ },
        }
    }
}

/// What is to be done to learn of the place that a search finds.
pub open spec fn query_lookup(
    entries: Entries,
    server: Option<Seq<char>>,
    query: Seq<char>,
) -> QueryLookupView {
    match server {
        None => QueryLookupView::NoServer,
        Some(server) => match known(entries, (None, query)) {
            Some(info) => QueryLookupView::Known(info),
            None => QueryLookupView::Ask { url: server + "/search"@ },
        },
    }
}

/// Why a search found no place.
#[derive(Debug)]
pub enum QueryError {
    /// The server knows of no place
    NoResult,
    /// A coordinate of the place is no number, but this text
    Number(String),
}

pub enum QueryErrorView {
    NoResult,
    Number(Seq<char>),
}

impl View for QueryError {
    type V = QueryErrorView;

    open spec fn view(&self) -> QueryErrorView {
        match *self {
            QueryError::NoResult => QueryErrorView::NoResult,
            QueryError::Number(t) => QueryErrorView::Number(t@),
        }
    }
}

/// The place that a search finds: the first one that the server names.
pub open spec fn search_result(replies: Seq<OsmInfo>, now: Timestamp, duration: Lapse) -> Result<
    GeoInfoView,
    QueryErrorView,
> {
    if replies.len() == 0 {
        Err(QueryErrorView::NoResult)
    } else {
        match osm_info(replies[0], now, duration) {
            Ok(info) => Ok(info),
            Err(t) => Err(QueryErrorView::Number(t)),
        }
    }
}

impl GeoCache {
    /// What is remembered, the least recently used first.
    pub closed spec fn entries(self) -> Entries {
        lru_entries(self.cache)
    }

    /// The address of the server.
    pub closed spec fn server(self) -> Option<Seq<char>> {
        self.nominatim.deep_view()
    }

    /// How long what is learnt of a place is used.
    pub closed spec fn spec_duration(self) -> Lapse {
        self.duration
    }

    /// How many places there is room for.
    pub closed spec fn capacity(self) -> nat {
        lru_capacity(self.cache)
    }

    /// No place is remembered twice, and no more of them than there is room for.
    pub open spec fn wf(self) -> bool {
        &&& distinct(self.entries())
        &&& all_keys(self.entries())
        &&& self.entries().len() <= LRU_CAPACITY
        &&& self.capacity() == LRU_CAPACITY
    }

    /// A cache that remembers nothing.
    pub fn empty(nominatim: Option<String>, duration: Lapse) -> (c: Self)
        ensures
            c.wf(),
            c.entries() == Seq::<((Option<u64>, Seq<char>), GeoInfoView)>::empty(),
            c.server() == nominatim.deep_view(),
            c.spec_duration() == duration,
    {
        GeoCache { nominatim, cache: new_lru(LRU_CAPACITY), duration }
    }

    /// When something that is learnt at `now` expires. There is no answer where the calendar has
    /// no date for it.
    pub fn expires(&self, now: Timestamp) -> (r: Option<Timestamp>)
        ensures
            r == now.spec_plus(self.spec_duration()),
    {
        now.plus(self.duration)
    }

    /// Looks for what is known of a key.
    fn find(&mut self, key: (Option<u64>, String)) -> (r: Option<GeoInfo>)
        requires
            old(self).wf(),
        ensures
            final(self).wf(),
            final(self).entries() == used(old(self).entries(), (key.0, key.1@)),
            final(self).server() == old(self).server(),
            final(self).spec_duration() == old(self).spec_duration(),
            r.deep_view() == known(old(self).entries(), (key.0, key.1@)),
    {
        proof {
            use_changes_nothing_known(self.entries(), (key.0, key.1@), (key.0, key.1@));
            place_is_first(self.entries(), (key.0, key.1@), 0);
        }
        match lru_get(&mut self.cache, &key) {
            Some(info) => Some(info.clone()),
            None => None,
        }
    }

    /// Remembers what is known of a key.
    fn remember(&mut self, key: (Option<u64>, String), info: GeoInfo)
        requires
            old(self).wf(),
            is_key((key.0, key.1@)),
        ensures
            final(self).wf(),
            final(self).entries() == put(
                old(self).entries(),
                LRU_CAPACITY as nat,
                (key.0, key.1@),
                info.deep_view(),
            ),
            final(self).server() == old(self).server(),
            final(self).spec_duration() == old(self).spec_duration(),
    {
        proof {
            what_is_put_is_known(
                self.entries(),
                LRU_CAPACITY as nat,
                (key.0, key.1@),
                info.deep_view(),
                (key.0, key.1@),
            );
            place_is_first(self.entries(), (key.0, key.1@), 0);
        }
        lru_put(&mut self.cache, key, info);
    }

    /// Says what is known of the place of a station, or what to ask the server.
    pub fn get_station(&mut self, station: &Station) -> (r: StationLookup)
        requires
            old(self).wf(),
        ensures
            final(self).wf(),
            r@ == station_lookup(old(self).entries(), old(self).server(), station.deep_view()),
            r matches StationLookup::Ask { url, id, coordinates } ==> {
                &&& station.location.coordinates is Some
                &&& coordinates.latitude.text@
                    == station.location.coordinates->Some_0.latitude.text@
                &&& coordinates.longitude.text@
                    == station.location.coordinates->Some_0.longitude.text@
                &&& number::u64_of(station.id@) == Some(id)
                &&& old(self).server() is Some && url@ == old(self).server()->Some_0 + "/reverse"@
            },
            r matches StationLookup::Known(info) ==> old(self).entries().contains(
                (
                    (Some(number::u64_of(station.id@)->Some_0), ""@),
                    GeoInfoView {
                        display_name: info.display_name@,
                        lat: info.lat.text@,
                        lon: info.lon.text@,
                        expires: info.expires,
                    },
                ),
            ),
            r is Nothing <==> old(self).server() is None || station.location.coordinates is None
                || number::u64_of(station.id@) is None,
            final(self).entries() == (if r@ is Known {
                used(
                    old(self).entries(),
                    (Some(number::u64_of(station.id@)->Some_0), ""@),
                )
            } else {
                old(self).entries()
            }),
            final(self).server() == old(self).server(),
            final(self).spec_duration() == old(self).spec_duration(),
    {
        let place: Option<(&String, &Coordinates)> = opt_tr(
            self.nominatim.as_ref(),
            station.location.coordinates.as_ref(),
        );
        match place {
            None => StationLookup::Nothing,
            Some((server, coordinates)) => match number::parse_u64(station.id.as_str()) {
                Err(_) => StationLookup::Nothing,
                Ok(id) => {
                    proof {
                        place_is_first(self.entries(), (Some(id), ""@), 0);
                    }
                    let url: String = server.clone().concat("/reverse");
                    let coordinates: Coordinates = coordinates.clone();
                    match self.find((Some(id), "".to_owned())) {
                        Some(info) => StationLookup::Known(info),
                        None => StationLookup::Ask { url, id, coordinates },
                    }
                },
            },
        }
    }

    /// Takes over what the server said of the place of a station. The error is the text of a
    /// coordinate that is no number.
    pub fn station_found(&mut self, id: u64, osm: OsmInfo, now: Timestamp) -> (r: Result<
        GeoInfo,
        String,
    >)
        requires
            old(self).wf(),
            osm_info(osm, now, old(self).spec_duration()) is Ok ==> now.spec_plus(
                old(self).spec_duration(),
            ) is Some,
        ensures
            final(self).wf(),
            (match r {
                Ok(info) => Ok::<GeoInfoView, Seq<char>>(info.deep_view()),
                Err(e) => Err(e@),
            }) == osm_info(osm, now, old(self).spec_duration()),
            final(self).entries() == (match osm_info(osm, now, old(self).spec_duration()) {
                Ok(info) => put(
                    old(self).entries(),
                    LRU_CAPACITY as nat,
                    (Some(id), ""@),
                    info,
                ),
                Err(_) => old(self).entries(),
            }),
            final(self).server() == old(self).server(),
            final(self).spec_duration() == old(self).spec_duration(),
    {
        let info: GeoInfo = GeoInfo::from_osm(osm, now, self.duration)?;
        self.remember((Some(id), "".to_owned()), info.clone());
        Ok(info)
    }

    /// Says what is known of the place that a search finds, or what to ask the server.
    pub fn get_query(&mut self, query: &str) -> (r: QueryLookup)
        requires
            old(self).wf(),
        ensures
            final(self).wf(),
            r@ == query_lookup(old(self).entries(), old(self).server(), query@),
            r matches QueryLookup::Ask { url } ==> old(self).server() is Some && url@ == old(
                self,
            ).server()->Some_0 + "/search"@,
            r matches QueryLookup::Known(info) ==> old(self).entries().contains(
                (
                    (None::<u64>, query@),
                    GeoInfoView {
                        display_name: info.display_name@,
                        lat: info.lat.text@,
                        lon: info.lon.text@,
                        expires: info.expires,
                    },
                ),
            ),
            r is NoServer <==> old(self).server() is None,
            final(self).entries() == (if r@ is Known {
                used(old(self).entries(), (None, query@))
            } else {
                old(self).entries()
            }),
            final(self).server() == old(self).server(),
            final(self).spec_duration() == old(self).spec_duration(),
    {
        let url: String = match &self.nominatim {
            None => {
                return QueryLookup::NoServer;
            },
            Some(server) => server.clone().concat("/search"),
        };
        proof {
            place_is_first(self.entries(), (None, query@), 0);
        }
        match self.find((None, query.to_owned())) {
            Some(info) => QueryLookup::Known(info),
            None => QueryLookup::Ask { url },
        }
    }

    /// Takes over what the server said of a search.
    pub fn query_found(&mut self, query: &str, replies: Vec<OsmInfo>, now: Timestamp) -> (r: Result<
        GeoInfo,
        QueryError,
    >)
        requires
            old(self).wf(),
            search_result(replies@, now, old(self).spec_duration()) is Ok ==> now.spec_plus(
                old(self).spec_duration(),
            ) is Some,
        ensures
            final(self).wf(),
            (match r {
                Ok(info) => Ok::<GeoInfoView, QueryErrorView>(info.deep_view()),
                Err(e) => Err(e@),
            }) == search_result(replies@, now, old(self).spec_duration()),
            final(self).entries() == (match search_result(
                replies@,
                now,
                old(self).spec_duration(),
            ) {
                Ok(info) => put(old(self).entries(), LRU_CAPACITY as nat, (None, query@), info),
                Err(_) => old(self).entries(),
            }),
            final(self).server() == old(self).server(),
            final(self).spec_duration() == old(self).spec_duration(),
    {
        let mut replies = replies;
        if replies.len() == 0 {
            return Err(QueryError::NoResult);
        }
        let first: OsmInfo = replies.remove(0);
        match GeoInfo::from_osm(first, now, self.duration) {
            Err(t) => Err(QueryError::Number(t)),
            Ok(info) => {
                self.remember((None, query.to_owned()), info.clone());
                Ok(info)
            },
        }
    }
}

/// What a list of keys and places holds, as entries of a cache.
pub open spec fn listed(list: Seq<(CacheKey, GeoInfo)>) -> Entries {
    list.map_values(|e: (CacheKey, GeoInfo)| (key_of(e.0), e.1.deep_view()))
}

/// The entries after those of a list are put in that have not expired, the last of them first.
pub open spec fn loaded(list: Entries, now: Timestamp, entries: Entries) -> Entries
    decreases list.len(),
{
    if list.len() == 0 {
        entries
    } else {
        let (key, info) = list.last();
        let next = if info.expires.is_after(now) {
            put(entries, LRU_CAPACITY as nat, key, info)
        } else {
            entries
        };
        loaded(list.drop_last(), now, next)
    }
}

impl GeoCache {
    /// A cache that remembers what was kept of an earlier one and has not expired.
    pub fn load(
        info: Vec<(CacheKey, GeoInfo)>,
        nominatim: Option<String>,
        duration: Lapse,
        now: Timestamp,
    ) -> (c: Self)
        ensures
            c.wf(),
            c.entries() == loaded(
                listed(info@),
                now,
                Seq::<((Option<u64>, Seq<char>), GeoInfoView)>::empty(),
            ),
            c.server() == nominatim.deep_view(),
            c.spec_duration() == duration,
    {
        let ghost all = listed(info@);
        let mut cache: GeoCache = GeoCache::empty(nominatim, duration);
        let mut rest = info;
        while rest.len() > 0
            invariant
                cache.wf(),
                cache.server() == nominatim.deep_view(),
                cache.spec_duration() == duration,
                loaded(listed(rest@), now, cache.entries()) == loaded(
                    all,
                    now,
                    Seq::<((Option<u64>, Seq<char>), GeoInfoView)>::empty(),
                ),
            decreases rest@.len(),
        {
            let ghost before = rest@;
            let (key, info) = rest.pop().unwrap();
            proof {
                assert(listed(before).drop_last() =~= listed(rest@));
                assert(listed(before).last() == (key_of(key), info.deep_view()));
            }
            if info.expires.after(&now) {
                let raw: (Option<u64>, String) = match key {
                    CacheKey::Station(id) => (Some(id), "".to_owned()),
                    CacheKey::GeoLocation(query) => (None, query),
                };
                cache.remember(raw, info);
            }
        }
        cache
    }

    /// What is to be kept of the cache, the least recently used first.
    pub fn store(self) -> (r: Vec<(CacheKey, GeoInfo)>)
        requires
            self.wf(),
        ensures
            listed(r@) == self.entries(),
    {
        let raw: Vec<((Option<u64>, String), GeoInfo)> = lru_into_entries(self.cache);
        let mut r: Vec<(CacheKey, GeoInfo)> = Vec::new();
        for e in it: raw
            invariant
                it.seq() == raw@,
                pairs(raw@) == self.entries(),
                all_keys(self.entries()),
                listed(r@) == self.entries().take(it.index() as int),
        {
            let ghost before = r@;
            let ghost i = it.index() as int;
            assert(pairs(raw@)[i] == ((e.0.0, e.0.1@), e.1.deep_view()));
            assert(is_key(self.entries()[i].0));
            let key: CacheKey = match e.0.0 {
                Some(id) => CacheKey::Station(id),
                None => CacheKey::GeoLocation(e.0.1),
            };
            r.push((key, e.1));
            assert(listed(r@) =~= listed(before).push(self.entries()[i]));
        }
        assert(self.entries().take(self.entries().len() as int) =~= self.entries());
        r
    }
}

/// The entries that have not expired.
pub open spec fn unexpired(entries: Entries, now: Timestamp) -> Entries {
    entries.filter(|e: ((Option<u64>, Seq<char>), GeoInfoView)| e.1.expires.is_after(now))
}

proof fn loading_appends(list: Entries, now: Timestamp, entries: Entries)
    requires
        distinct(list + entries),
        list.len() + entries.len() <= LRU_CAPACITY,
    ensures
        loaded(list, now, entries) == entries + unexpired(list, now).reverse(),
    decreases list.len(),
{
    reveal(Seq::filter);
    let is_fresh = |e: ((Option<u64>, Seq<char>), GeoInfoView)| e.1.expires.is_after(now);
    if list.len() == 0 {
        assert(list.filter(is_fresh) =~= list);
        assert(entries + unexpired(list, now).reverse() =~= entries);
    } else {
        let front = list.drop_last();
        let (key, info) = list.last();
        let both = list + entries;
        place_is_first(entries, key, 0);
        let p = place_of(entries, key, 0);
        if p < entries.len() {
            assert(both[list.len() - 1].0 == key && both[list.len() + p].0 == key);
        }
        let next = if is_fresh(list.last()) {
            entries.push((key, info))
        } else {
            entries
        };
        let after = front + next;
        assert(distinct(after)) by {
            assert forall|a: int, b: int|
                #![trigger after[a].0, after[b].0]
                0 <= a < b < after.len() implies after[a].0 != after[b].0 by {
                let n = list.len() - 1;
                let x = if a < n {
                    a
                } else {
                    a + 1
                };
                if b < n {
                    assert(both[x].0 != both[b].0);
                } else if b < n + entries.len() {
                    assert(both[x].0 != both[b + 1].0);
                } else if a < n {
                    assert(both[a].0 != both[n].0);
                } else {
                    assert(both[n].0 != both[a + 1].0);
                }
            }
        }
        loading_appends(front, now, next);
        if is_fresh(list.last()) {
            assert(list.filter(is_fresh) == front.filter(is_fresh).push(list.last()));
            assert(next + unexpired(front, now).reverse() =~= entries + unexpired(
                list,
                now,
            ).reverse());
        }
    }
}

/// What a cache keeps is what a later one then remembers, but for what has expired. What was used
/// most recently is the first to be given up then.
pub proof fn what_is_stored_is_loaded(entries: Entries, now: Timestamp)
    requires
        distinct(entries),
        entries.len() <= LRU_CAPACITY,
    ensures
        loaded(entries, now, Seq::empty()) == unexpired(entries, now).reverse(),
{
    assert(entries + Seq::<((Option<u64>, Seq<char>), GeoInfoView)>::empty() =~= entries);
    loading_appends(entries, now, Seq::empty());
    assert(Seq::<((Option<u64>, Seq<char>), GeoInfoView)>::empty() + unexpired(
        entries,
        now,
    ).reverse() =~= unexpired(entries, now).reverse());
}

/// What is known of a key, unless it has expired.
pub open spec fn known_at(entries: Entries, key: Key, now: Timestamp) -> Option<GeoInfoView> {
    match known(entries, key) {
        Some(info) if info.expires.is_after(now) => Some(info),
        _ => None,
    }
}

/// What is known of a key is what the entries hold for it.
pub proof fn holds_known(entries: Entries, key: Key, info: GeoInfoView)
    requires
        distinct(entries),
    ensures
        known(entries, key) == Some(info) <==> entries.contains((key, info)),
{
    place_is_first(entries, key, 0);
    if entries.contains((key, info)) {
        let k = choose|k: int| 0 <= k < entries.len() && entries[k] == (key, info);
        let p = place_of(entries, key, 0);
        if p < k {
            assert(entries[p].0 != entries[k].0);
        }
    }
    if known(entries, key) == Some(info) {
        assert(entries[place_of(entries, key, 0)] == (key, info));
    }
}

proof fn unexpired_holds(entries: Entries, now: Timestamp)
    requires
        distinct(entries),
    ensures
        distinct(unexpired(entries, now)),
        unexpired(entries, now).len() <= entries.len(),
        forall|e: ((Option<u64>, Seq<char>), GeoInfoView)| #[trigger]
            unexpired(entries, now).contains(e) <==> entries.contains(e)
                && e.1.expires.is_after(now),
    decreases entries.len(),
{
    reveal(Seq::filter);
    let after = unexpired(entries, now);
    if entries.len() > 0 {
        let front = entries.drop_last();
        let kept = unexpired(front, now);
        let last = entries.last();
        assert(distinct(front)) by {
            assert forall|i: int, j: int|
                #![trigger front[i].0, front[j].0]
                0 <= i < j < front.len() implies front[i].0 != front[j].0 by {
                assert(entries[i].0 != entries[j].0);
            }
        }
        unexpired_holds(front, now);
        assert forall|e: ((Option<u64>, Seq<char>), GeoInfoView)| #[trigger]
            after.contains(e) <==> entries.contains(e) && e.1.expires.is_after(now) by {
            assert(front.push(last) =~= entries);
            if front.contains(e) {
                let k = choose|k: int| 0 <= k < front.len() && front[k] == e;
                assert(entries[k] == e);
            }
            if kept.contains(e) {
                let k = choose|k: int| 0 <= k < kept.len() && kept[k] == e;
                assert(after[k] == e);
            }
            if e == last && e.1.expires.is_after(now) {
                assert(after[after.len() - 1] == e);
                assert(entries[entries.len() - 1] == e);
            }
            if after.contains(e) {
                let k = choose|k: int| 0 <= k < after.len() && after[k] == e;
                if k < kept.len() {
                    assert(kept[k] == e);
                } else {
                    assert(e == last);
                }
            }
            if entries.contains(e) {
                let k = choose|k: int| 0 <= k < entries.len() && entries[k] == e;
                if k < front.len() {
                    assert(front[k] == e);
                } else {
                    assert(e == last);
                }
            }
        }
        assert(distinct(after)) by {
            assert forall|i: int, j: int|
                #![trigger after[i].0, after[j].0]
                0 <= i < j < after.len() implies after[i].0 != after[j].0 by {
                if j < kept.len() {
                    assert(kept[i].0 != kept[j].0);
                } else {
                    assert(after[j] == last);
                    assert(kept.contains(kept[i]));
                    assert(front.contains(kept[i]));
                    let k = choose|k: int| 0 <= k < front.len() && front[k] == kept[i];
                    assert(entries[k].0 != entries[entries.len() - 1].0);
                }
            }
        }
    }
}

/// A cache that is loaded from what another one stored knows of every key what that one knew, but
/// for what has expired: exactly that is gone.
pub proof fn loading_gives_back_what_was_stored(
    stored: GeoCache,
    list: Seq<(CacheKey, GeoInfo)>,
    cache: GeoCache,
    now: Timestamp,
    key: Key,
)
    requires
        stored.wf(),
        listed(list) == stored.entries(),
        cache.entries() == loaded(
            listed(list),
            now,
            Seq::<((Option<u64>, Seq<char>), GeoInfoView)>::empty(),
        ),
    ensures
        known(cache.entries(), key) == known_at(stored.entries(), key, now),
{
    let before = stored.entries();
    let kept = unexpired(before, now);
    let after = cache.entries();
    what_is_stored_is_loaded(before, now);
    unexpired_holds(before, now);
    assert(after == kept.reverse());
    assert(distinct(after)) by {
        assert forall|i: int, j: int|
            #![trigger after[i].0, after[j].0]
            0 <= i < j < after.len() implies after[i].0 != after[j].0 by {
            let n = kept.len() - 1;
            assert(after[i] == kept[n - i] && after[j] == kept[n - j]);
            assert(kept[n - j].0 != kept[n - i].0);
        }
    }
    assert forall|e: ((Option<u64>, Seq<char>), GeoInfoView)| #[trigger]
        after.contains(e) <==> kept.contains(e) by {
        let n = kept.len() - 1;
        if after.contains(e) {
            let k = choose|k: int| 0 <= k < after.len() && after[k] == e;
            assert(kept[n - k] == e);
        }
        if kept.contains(e) {
            let k = choose|k: int| 0 <= k < kept.len() && kept[k] == e;
            assert(after[n - k] == e);
        }
    }
    if let Some(info) = known(before, key) {
        holds_known(before, key, info);
        holds_known(after, key, info);
    }
    if let Some(info) = known(after, key) {
        holds_known(after, key, info);
        holds_known(before, key, info);
    }
}

/// What is learnt of a place is used for its duration and no longer.
pub proof fn places_last_their_duration(
    osm: OsmInfo,
    learnt: Timestamp,
    duration: Lapse,
    now: Timestamp,
)
    requires
        learnt.spec_plus(duration) is Some,
        now.nanos < 1_000_000_000,
    ensures
        osm_info(osm, learnt, duration) matches Ok(info) ==> (info.expires.is_after(now)
            <==> time::nanoseconds(now) < time::nanoseconds(learnt) + time::length(duration)),
{
    time::plus_is_the_sum(learnt, duration);
}

/// The first entry of a list for a key that has not expired.
pub open spec fn first_unexpired(list: Entries, key: Key, now: Timestamp) -> Option<GeoInfoView>
    decreases list.len(),
{
    if list.len() == 0 {
        None
    } else {
        match first_unexpired(list.drop_last(), key, now) {
            Some(info) => Some(info),
            None => if list.last().0 == key && list.last().1.expires.is_after(now) {
                Some(list.last().1)
            } else {
                None
            },
        }
    }
}

proof fn loading_finds_first(list: Entries, now: Timestamp, entries: Entries, key: Key)
    requires
        distinct(entries),
        list.len() + entries.len() <= LRU_CAPACITY,
    ensures
        known(loaded(list, now, entries), key) == (match first_unexpired(list, key, now) {
            Some(info) => Some(info),
            None => known(entries, key),
        }),
    decreases list.len(),
{
    if list.len() > 0 {
        let (last, info) = list.last();
        if info.expires.is_after(now) {
            what_is_put_is_known(entries, LRU_CAPACITY as nat, last, info, key);
            let next = put(entries, LRU_CAPACITY as nat, last, info);
            assert(next.len() <= entries.len() + 1) by {
                place_is_first(entries, last, 0);
            }
            loading_finds_first(list.drop_last(), now, next, key);
        } else {
            loading_finds_first(list.drop_last(), now, entries, key);
        }
    }
}

/// Where a list that is loaded names a key more than once, the first entry that has not expired
/// counts.
pub proof fn first_entry_counts(list: Entries, now: Timestamp, key: Key)
    requires
        list.len() <= LRU_CAPACITY,
    ensures
        known(
            loaded(list, now, Seq::<((Option<u64>, Seq<char>), GeoInfoView)>::empty()),
            key,
        ) == first_unexpired(list, key, now),
{
    let nothing = Seq::<((Option<u64>, Seq<char>), GeoInfoView)>::empty();
    place_is_first(nothing, key, 0);
    loading_finds_first(list, now, nothing, key);
}

/// The server is asked for the place of a station by the coordinates of that station, and only
/// where nothing is known of its id. What is known is that of its own id.
pub proof fn stations_are_asked_for_by_their_coordinates(
    entries: Entries,
    server: Option<Seq<char>>,
    station: StationView,
)
    requires
        distinct(entries),
    ensures
        (match station_lookup(entries, server, station) {
            StationLookupView::Nothing => server is None || station.location.coordinates is None
                || number::u64_of(station.id) is None,
            StationLookupView::Known(info) => number::u64_of(station.id) is Some
                && entries.contains(((number::u64_of(station.id), ""@), info)),
            StationLookupView::Ask { url, id, latitude, longitude } => {
                &&& server is Some && url == server->Some_0 + "/reverse"@
                &&& number::u64_of(station.id) == Some(id)
                &&& station.location.coordinates is Some
                &&& latitude == station.location.coordinates->Some_0.latitude
                &&& longitude == station.location.coordinates->Some_0.longitude
                &&& forall|info: GeoInfoView| !#[trigger] entries.contains(((Some(id), ""@), info))
            },
        }),
        server is Some && station.location.coordinates is Some && number::u64_of(station.id)
            is Some ==> !(station_lookup(entries, server, station) is Nothing),
{
    if let Some(id) = number::u64_of(station.id) {
        let key = (Some(id), ""@);
        place_is_first(entries, key, 0);
        if let Some(info) = known(entries, key) {
            holds_known(entries, key, info);
        } else {
            assert forall|info: GeoInfoView| !#[trigger] entries.contains((key, info)) by {
                holds_known(entries, key, info);
            }
        }
    }
}

/// The server is asked for a search only where nothing is known of it, and what is known is that of
/// the same search.
pub proof fn searches_are_asked_for_once(
    entries: Entries,
    server: Option<Seq<char>>,
    query: Seq<char>,
)
    requires
        distinct(entries),
    ensures
        (match query_lookup(entries, server, query) {
            QueryLookupView::NoServer => server is None,
            QueryLookupView::Known(info) => server is Some && entries.contains(
                ((None, query), info),
            ),
            QueryLookupView::Ask { url } => server is Some && url == server->Some_0 + "/search"@
                && forall|info: GeoInfoView| !#[trigger] entries.contains(((None, query), info)),
        }),
{
    let key = (None, query);
    place_is_first(entries, key, 0);
    if let Some(info) = known(entries, key) {
        holds_known(entries, key, info);
    } else {
        assert forall|info: GeoInfoView| !#[trigger] entries.contains((key, info)) by {
            holds_known(entries, key, info);
        }
    }
}

/// What the server said of a station or of a search is what is then known of it, without another
/// question.
pub proof fn answers_are_remembered(
    entries: Entries,
    server: Seq<char>,
    station: StationView,
    query: Seq<char>,
    info: GeoInfoView,
)
    requires
        distinct(entries),
        entries.len() <= LRU_CAPACITY,
    ensures
        station.location.coordinates is Some && number::u64_of(station.id) is Some
            ==> station_lookup(
            put(entries, LRU_CAPACITY as nat, (number::u64_of(station.id), ""@), info),
            Some(server),
            station,
        ) == StationLookupView::Known(info),
        query_lookup(put(entries, LRU_CAPACITY as nat, (None, query), info), Some(server), query)
            == QueryLookupView::Known(info),
{
    let id = number::u64_of(station.id);
    what_is_put_is_known(entries, LRU_CAPACITY as nat, (id, ""@), info, (id, ""@));
    what_is_put_is_known(entries, LRU_CAPACITY as nat, (None, query), info, (None, query));
}

/// What nominatim says of a place is taken over as it says it. A place is refused exactly where one
/// of its coordinates is no number, with the first such text.
pub proof fn places_are_taken_over(osm: OsmInfo, now: Timestamp, duration: Lapse)
    ensures
        osm_info(osm, now, duration) matches Ok(info) ==> info.display_name == osm.display_name@
            && info.lat == osm.lat@ && info.lon == osm.lon@ && info.expires == now.spec_plus(
            duration,
        )->Some_0,
        osm_info(osm, now, duration) is Ok <==> number::is_real(osm.lat@) && number::is_real(
            osm.lon@,
        ),
        !number::is_real(osm.lat@) ==> osm_info(osm, now, duration) == Err::<
            GeoInfoView,
            Seq<char>,
        >(osm.lat@),
        number::is_real(osm.lat@) && !number::is_real(osm.lon@) ==> osm_info(osm, now, duration)
            == Err::<GeoInfoView, Seq<char>>(osm.lon@),
{
}

/// A search finds the first place that the server names, and none where it names none.
pub proof fn the_first_place_is_found(replies: Seq<OsmInfo>, now: Timestamp, duration: Lapse)
    ensures
        replies.len() == 0 <==> search_result(replies, now, duration) == Err::<
            GeoInfoView,
            QueryErrorView,
        >(QueryErrorView::NoResult),
        search_result(replies, now, duration) matches Ok(info) ==> info.display_name
            == replies[0].display_name@ && info.lat == replies[0].lat@ && info.lon
            == replies[0].lon@ && info.expires == now.spec_plus(duration)->Some_0,
        replies.len() > 0 ==> (search_result(replies, now, duration) is Ok <==> number::is_real(
            replies[0].lat@,
        ) && number::is_real(replies[0].lon@)),
        search_result(replies, now, duration) matches Err(QueryErrorView::Number(t)) ==> (t
            == replies[0].lat@ || t == replies[0].lon@) && !number::is_real(t),
{
}

/// Different keys on disk are different keys in the cache: no station is taken for a search, nor one
/// of them for another.
pub proof fn keys_are_kept_apart(a: CacheKey, b: CacheKey)
    ensures
        a matches CacheKey::Station(x) ==> key_of(a) == (Some(x), ""@),
        a matches CacheKey::GeoLocation(x) ==> key_of(a) == (None::<u64>, x@),
        key_of(a) == key_of(b) ==> (match (a, b) {
            (CacheKey::Station(x), CacheKey::Station(y)) => x == y,
            (CacheKey::GeoLocation(x), CacheKey::GeoLocation(y)) => x@ == y@,
            _ => false,
        }),
{
}

/// Views show what there is: of a place, of what is to be done, and of lists of them every part.
pub proof fn views_show_places(
    info: GeoInfo,
    station: StationLookup,
    query: QueryLookup,
    e: QueryError,
    list: Seq<(CacheKey, GeoInfo)>,
)
    ensures
        info.deep_view().display_name == info.display_name@,
        info.deep_view().lat == info.lat.text@,
        info.deep_view().lon == info.lon.text@,
        info.deep_view().expires == info.expires,
        station is Nothing <==> station@ is Nothing,
        station matches StationLookup::Known(info) ==> station@ == StationLookupView::Known(
            info.deep_view(),
        ),
        station matches StationLookup::Ask { url, id, coordinates } ==> (
        station@ matches StationLookupView::Ask { url: u, id: i, latitude, longitude } && u == url@
            && i == id && latitude == coordinates.latitude.text@ && longitude
            == coordinates.longitude.text@),
        query is NoServer <==> query@ is NoServer,
        query matches QueryLookup::Known(info) ==> query@ == QueryLookupView::Known(
            info.deep_view(),
        ),
        query matches QueryLookup::Ask { url } ==> query@ == (QueryLookupView::Ask { url: url@ }),
        e is NoResult <==> e@ is NoResult,
        e matches QueryError::Number(t) ==> e@ == QueryErrorView::Number(t@),
        listed(list).len() == list.len(),
        forall|i: int|
            0 <= i < list.len() ==> #[trigger] listed(list)[i] == (
                key_of(list[i].0),
                list[i].1.deep_view(),
            ),
{
}

/// As many of the last entries as there is room for.
pub open spec fn newest(entries: Entries) -> Entries {
    if entries.len() > LRU_CAPACITY {
        entries.skip(entries.len() - LRU_CAPACITY)
    } else {
        entries
    }
}

proof fn loading_keeps_the_newest(list: Entries, now: Timestamp, entries: Entries)
    requires
        distinct(list + entries),
        entries.len() <= LRU_CAPACITY,
    ensures
        loaded(list, now, entries) == newest(entries + unexpired(list, now).reverse()),
    decreases list.len(),
{
    reveal(Seq::filter);
    let is_fresh = |e: ((Option<u64>, Seq<char>), GeoInfoView)| e.1.expires.is_after(now);
    if list.len() == 0 {
        assert(list.filter(is_fresh) =~= list);
        assert(entries + unexpired(list, now).reverse() =~= entries);
    } else {
        let front = list.drop_last();
        let (key, info) = list.last();
        let both = list + entries;
        place_is_first(entries, key, 0);
        let p = place_of(entries, key, 0);
        if p < entries.len() {
            assert(both[list.len() - 1].0 == key && both[list.len() + p].0 == key);
        }
        let fresh = is_fresh(list.last());
        let next = if fresh {
            put(entries, LRU_CAPACITY as nat, key, info)
        } else {
            entries
        };
        let off: int = if fresh && entries.len() >= LRU_CAPACITY {
            1
        } else {
            0
        };
        let n = list.len() - 1;
        let after = front + next;
        assert(distinct(after)) by {
            assert forall|a: int, b: int|
                #![trigger after[a].0, after[b].0]
                0 <= a < b < after.len() implies after[a].0 != after[b].0 by {
                let x = if a < n {
                    a
                } else {
                    a + 1 + off
                };
                let y = if b < n {
                    b
                } else if fresh && b == after.len() - 1 {
                    n
                } else {
                    b + 1 + off
                };
                assert(after[a] == both[x]);
                assert(after[b] == both[y]);
                if x < y {
                    assert(both[x].0 != both[y].0);
                } else {
                    assert(both[y].0 != both[x].0);
                }
            }
        }
        loading_keeps_the_newest(front, now, next);
        let rest = unexpired(front, now).reverse();
        if fresh {
            assert(list.filter(is_fresh) == front.filter(is_fresh).push(list.last()));
            let all = entries + unexpired(list, now).reverse();
            assert(all =~= entries.push((key, info)) + rest);
            if off == 1 {
                assert(next + rest =~= all.skip(1));
                assert(newest(next + rest) =~= newest(all));
            } else {
                assert(next + rest =~= all);
            }
        } else {
            assert(list.filter(is_fresh) == front.filter(is_fresh));
        }
    }
}

/// Of a list that is loaded the first entries that have not expired are remembered, as many as there
/// is room for, and the first of them is the last to be given up.
pub proof fn long_lists_keep_their_first_entries(list: Entries, now: Timestamp)
    requires
        distinct(list),
    ensures
        loaded(list, now, Seq::<((Option<u64>, Seq<char>), GeoInfoView)>::empty()) == unexpired(
            list,
            now,
        ).take(
            if unexpired(list, now).len() > LRU_CAPACITY {
                LRU_CAPACITY as int
            } else {
                unexpired(list, now).len() as int
            },
        ).reverse(),
{
    let nothing = Seq::<((Option<u64>, Seq<char>), GeoInfoView)>::empty();
    assert(list + nothing =~= list);
    loading_keeps_the_newest(list, now, nothing);
    let fresh = unexpired(list, now);
    assert(nothing + fresh.reverse() =~= fresh.reverse());
    let kept: int = if fresh.len() > LRU_CAPACITY {
        LRU_CAPACITY as int
    } else {
        fresh.len() as int
    };
    assert(newest(fresh.reverse()) =~= fresh.take(kept).reverse());
}

} // verus!
