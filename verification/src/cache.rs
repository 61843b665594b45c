//! What the server remembers of earlier fetches, and for how long. Times are counted in
//! nanoseconds from some fixed moment.

use std::collections::HashMap;
use std::hash::Hash;

use vstd::prelude::*;

use crate::api::{Error, PreciseSource};
use crate::model;
use crate::model::Station;
#[allow(unused_imports)]
use crate::model::StationView;

verus! {

/// How long instantaneous data is used: 5 minutes.
pub const INSTANT_DURATION: u128 = 300_000_000_000;

/// How long all other data is used: 30 minutes.
pub const CACHE_DURATION: u128 = 1_800_000_000_000;

/// How long it is remembered that data does not exist: 1 hour.
pub const NOT_FOUND_TIMEOUT: u128 = 3_600_000_000_000;

/// Stations and when they were fetched.
#[derive(Debug)]
pub struct DataEntry {
    pub constructed: u128,
    pub data: Vec<Station>,
}

/// What came of a fetch, and when.
#[derive(Debug)]
pub enum Entry {
    Data(DataEntry),
    NotFound(u128),
}

pub struct DataEntryView {
    pub constructed: int,
    pub data: Seq<StationView>,
}

pub enum EntryView {
    Data(DataEntryView),
    NotFound(int),
}

impl DeepView for DataEntry {
    type V = DataEntryView;

    open spec fn deep_view(&self) -> DataEntryView {
        DataEntryView { constructed: self.constructed as int, data: self.data.deep_view() }
    }
}

impl DeepView for Entry {
    type V = EntryView;

    open spec fn deep_view(&self) -> EntryView {
        match *self {
            Entry::Data(d) => EntryView::Data(d.deep_view()),
            Entry::NotFound(t) => EntryView::NotFound(t as int),
        }
    }
}

/// The time from a moment on.
pub open spec fn elapsed_at(since: int, now: int) -> int {
    if now <= since {
        0
    } else {
        now - since
    }
}

fn elapsed(since: u128, now: u128) -> (t: u128)
    ensures
        t == elapsed_at(since as int, now as int),
{
    if now <= since {
        0
    } else {
        now - since
    }
}

/// What an entry says: nothing where it is an expired error.
pub open spec fn entry_read(e: EntryView, timeout: int, now: int) -> Option<
    Result<DataEntryView, Error>,
> {
    match e {
        EntryView::Data(d) => Some(Ok(d)),
        EntryView::NotFound(t) => if elapsed_at(t, now) > timeout {
            None
        } else {
            Some(Err(Error::NotFound))
        },
    }
}

/// What was read, seen by its view.
pub open spec fn seen_read(r: Option<Result<&DataEntry, Error>>) -> Option<
    Result<DataEntryView, Error>,
> {
    match r {
        None => None,
        Some(Ok(d)) => Some(Ok(d.deep_view())),
        Some(Err(e)) => Some(Err(e)),
    }
}

impl Entry {
    /// The data of an entry that cannot be missing.
    pub fn expect_found(self) -> (r: Result<DataEntry, Error>)
        ensures
            r == (match self {
                Entry::Data(d) => Ok::<DataEntry, Error>(d),
                Entry::NotFound(_) => Err(Error::UnexpectedMissingUpstreamData),
            }),
    {
        match self {
            Entry::Data(d) => Ok(d),
            Entry::NotFound(_) => Err(Error::UnexpectedMissingUpstreamData),
        }
    }

    /// What the entry says. None will trigger a re-fetch, and Some will be passed along
    pub fn read(&self, not_found_timeout: u128, now: u128) -> (r: Option<
        Result<&DataEntry, Error>,
    >)
        ensures
            seen_read(r) == entry_read(self.deep_view(), not_found_timeout as int, now as int),
    {
        match self {
            Entry::Data(d) => Some(Ok(d)),
            Entry::NotFound(t) => if elapsed(*t, now) > not_found_timeout {
                None
            } else {
                Some(Err(Error::NotFound))
            },
        }
    }
}

/// Whether the data of a source can be missing.
pub open spec fn is_historic(source: PreciseSource) -> bool {
    source is HistoricDay || source is HistoricYear
}

/// The place of a day among the days.
pub open spec fn day_key(year: u16, month: u8, day: u8) -> int {
    year * 0x10000 + month * 0x100 + day
}

fn key_of_day(year: u16, month: u8, day: u8) -> (key: u32)
    ensures
        key == day_key(year, month, day),
{
    year as u32 * 0x10000 + month as u32 * 0x100 + day as u32
}

/// The latest entry of each source.
#[derive(Debug)]
pub struct QueryCacheInner {
    years: HashMap<u16, Entry>,
    days: HashMap<u32, Entry>,
    current_day: Option<DataEntry>,
    current_year: Option<DataEntry>,
    instant: Option<DataEntry>,
}

spec fn data_entry(d: Option<DataEntry>) -> Option<EntryView> {
    match d {
        None => None,
        Some(d) => Some(EntryView::Data(d.deep_view())),
    }
}

spec fn map_entry<K>(m: Map<K, Entry>, k: K) -> Option<EntryView> {
    if m.contains_key(k) {
        Some(m[k].deep_view())
    } else {
        None
    }
}

impl QueryCacheInner {
    spec fn entry(self, source: PreciseSource) -> Option<EntryView> {
        match source {
            PreciseSource::Instant => data_entry(self.instant),
            PreciseSource::CurrentDay => data_entry(self.current_day),
            PreciseSource::CurrentYear => data_entry(self.current_year),
            PreciseSource::HistoricDay { year, month, day } => map_entry(
                self.days@,
                day_key(year, month, day) as u32,
            ),
            PreciseSource::HistoricYear(year) => map_entry(self.years@, year),
        }
    }
}

impl View for QueryCacheInner {
    type V = Map<PreciseSource, EntryView>;

    closed spec fn view(&self) -> Map<PreciseSource, EntryView> {
        Map::new(|s: PreciseSource| self.entry(s) is Some, |s: PreciseSource| self.entry(s)->Some_0)
    }
}

/// What the entries say of a source.
pub open spec fn cache_read(
    entries: Map<PreciseSource, EntryView>,
    source: PreciseSource,
    timeout: int,
    now: int,
) -> Option<Result<DataEntryView, Error>> {
    if entries.contains_key(source) {
        entry_read(entries[source], timeout, now)
    } else {
        None
    }
}

/// The entries after one is added. Of a source whose data cannot be missing, its absence is not
/// remembered.
pub open spec fn replaced(
    entries: Map<PreciseSource, EntryView>,
    source: PreciseSource,
    entry: EntryView,
) -> Map<PreciseSource, EntryView> {
    if entry is NotFound && !is_historic(source) {
        entries
    } else {
        entries.insert(source, entry)
    }
}

/// Whether an entry is still of use. Entries of data are given up after `duration`, at that
/// moment itself for the historic ones, and the news that there is none after `timeout`.
pub open spec fn is_fresh(
    source: PreciseSource,
    entry: EntryView,
    duration: int,
    timeout: int,
    now: int,
) -> bool {
    match entry {
        EntryView::Data(d) => if is_historic(source) {
            elapsed_at(d.constructed, now) < duration
        } else {
            elapsed_at(d.constructed, now) <= duration
        },
        EntryView::NotFound(t) => elapsed_at(t, now) <= timeout,
    }
}

/// Forgets data that is older than `duration`.
fn retain_opt(o: Option<DataEntry>, duration: u128, now: u128) -> (r: Option<DataEntry>)
    ensures
        r == (match o {
            Some(d) if elapsed_at(d.constructed as int, now as int) <= duration => Some(d),
            _ => None::<DataEntry>,
        }),
{
    match o {
        Some(d) => if elapsed(d.constructed, now) > duration {
            None
        } else {
            Some(d)
        },
        None => None,
    }
}

spec fn stays(e: Entry, duration: int, timeout: int, now: int) -> bool {
    match e {
        Entry::Data(d) => elapsed_at(d.constructed as int, now) < duration,
        Entry::NotFound(t) => elapsed_at(t as int, now) <= timeout,
    }
}

/// The keys of the entries that are of no more use.
fn stale_keys<K: Copy + Eq + Hash>(
    m: &HashMap<K, Entry>,
    duration: u128,
    timeout: u128,
    now: u128,
) -> (stale: Vec<K>)
    requires
        vstd::std_specs::hash::obeys_key_model::<K>(),
    ensures
        forall|k: K|
            #![auto]
            stale@.contains(k) <==> m@.contains_key(k) && !stays(
                m@[k],
                duration as int,
                timeout as int,
                now as int,
            ),
{
    let mut stale: Vec<K> = Vec::new();
    for k in it: m.keys()
        invariant
            vstd::std_specs::hash::obeys_key_model::<K>(),
            it.seq().unref().to_set() == m@.dom(),
            forall|i: int|
                0 <= i < it.index() && !stays(
                    m@[*(#[trigger] it.seq()[i])],
                    duration as int,
                    timeout as int,
                    now as int,
                ) ==> stale@.contains(*it.seq()[i]),
            forall|k: K| #[trigger]
                stale@.contains(k) ==> m@.contains_key(k) && !stays(
                    m@[k],
                    duration as int,
                    timeout as int,
                    now as int,
                ),
    {
        let ghost before = stale@;
        assert(it.seq().unref()[it.index() as int] == *k);
        assert(it.seq().unref().to_set().contains(*k));
        let keep: bool = match m.get(k) {
            None => true,
            Some(Entry::Data(d)) => elapsed(d.constructed, now) < duration,
            Some(Entry::NotFound(t)) => elapsed(*t, now) <= timeout,
        };
        if !keep {
            stale.push(*k);
            assert(stale@[before.len() as int] == *k);
            assert forall|x: K| #[trigger]
                stale@.contains(x) <==> before.contains(x) || x == *k by {
                if before.contains(x) {
                    let j = choose|j: int| 0 <= j < before.len() && before[j] == x;
                    assert(stale@[j] == x);
                }
            }
        }
    }
    stale
}

/// Forgets the entries that are of no more use.
fn retain_map<K: Copy + Eq + Hash>(
    m: &mut HashMap<K, Entry>,
    duration: u128,
    timeout: u128,
    now: u128,
)
    requires
        vstd::std_specs::hash::obeys_key_model::<K>(),
    ensures
        forall|k: K| #[trigger]
            final(m)@.contains_key(k) <==> old(m)@.contains_key(k) && stays(
                old(m)@[k],
                duration as int,
                timeout as int,
                now as int,
            ),
        forall|k: K| final(m)@.contains_key(k) ==> #[trigger] final(m)@[k] == old(m)@[k],
{
    let stale: Vec<K> = stale_keys(m, duration, timeout, now);
    let ghost start = m@;
    for i in 0..stale.len()
        invariant
            vstd::std_specs::hash::obeys_key_model::<K>(),
            forall|k: K| #[trigger]
                m@.contains_key(k) <==> start.contains_key(k) && !(exists|j: int|
                    0 <= j < i && stale@[j] == k),
            forall|k: K| m@.contains_key(k) ==> #[trigger] m@[k] == start[k],
    {
        let ghost before = m@;
        m.remove(&stale[i]);
        assert(m@ == before.remove(stale@[i as int]));
        assert forall|k: K| #[trigger]
            m@.contains_key(k) <==> start.contains_key(k) && !(exists|j: int|
                0 <= j < i + 1 && stale@[j] == k) by {
            assert(m@.contains_key(k) <==> before.contains_key(k) && k != stale@[i as int]);
        }
    }
    assert forall|k: K| #[trigger]
        m@.contains_key(k) <==> start.contains_key(k) && stays(
            start[k],
            duration as int,
            timeout as int,
            now as int,
        ) by {
        assert(stale@.contains(k) <==> exists|j: int| 0 <= j < stale@.len() && stale@[j] == k);
    }
}

impl QueryCacheInner {
    /// A cache that remembers nothing.
    pub fn new() -> (c: Self)
        ensures
            c@ == Map::<PreciseSource, EntryView>::empty(),
    {
        let c = QueryCacheInner {
            years: HashMap::new(),
            days: HashMap::new(),
            current_day: None,
            current_year: None,
            instant: None,
        };
        assert(c@ =~= Map::<PreciseSource, EntryView>::empty());
        c
    }

    /// What is remembered of a source. None will trigger a re-fetch, and Some will be passed along
    pub fn read(&self, source: PreciseSource, not_found_timeout: u128, now: u128) -> (r: Option<
        Result<&DataEntry, Error>,
    >)
        ensures
            seen_read(r) == cache_read(self@, source, not_found_timeout as int, now as int),
    {
        match source {
            PreciseSource::Instant => match &self.instant {
                Some(d) => Some(Ok(d)),
                None => None,
            },
            PreciseSource::CurrentDay => match &self.current_day {
                Some(d) => Some(Ok(d)),
                None => None,
            },
            PreciseSource::CurrentYear => match &self.current_year {
                Some(d) => Some(Ok(d)),
                None => None,
            },
            PreciseSource::HistoricDay { year, month, day } => {
                match self.days.get(&key_of_day(year, month, day)) {
                    Some(e) => e.read(not_found_timeout, now),
                    None => None,
                }
            },
            PreciseSource::HistoricYear(year) => match self.years.get(&year) {
                Some(e) => e.read(not_found_timeout, now),
                None => None,
            },
        }
    }

    /// Remembers an entry in the place of an earlier one. That the data of a source is missing is
    /// an error where it cannot be.
    pub fn replace(&mut self, source: PreciseSource, data: Entry) -> (r: Result<(), Error>)
        ensures
            final(self)@ == replaced(old(self)@, source, data.deep_view()),
            r == (if data is NotFound && !is_historic(source) {
                Err::<(), Error>(Error::UnexpectedMissingUpstreamData)
            } else {
                Ok(())
            }),
    {
        let ghost goal = replaced(old(self)@, source, data.deep_view());
        match source {
            PreciseSource::Instant => match data.expect_found() {
                Ok(d) => {
                    self.instant = Some(d);
                },
                Err(e) => {
                    return Err(e);
                },
            },
            PreciseSource::CurrentDay => match data.expect_found() {
                Ok(d) => {
                    self.current_day = Some(d);
                },
                Err(e) => {
                    return Err(e);
                },
            },
            PreciseSource::CurrentYear => match data.expect_found() {
                Ok(d) => {
                    self.current_year = Some(d);
                },
                Err(e) => {
                    return Err(e);
                },
            },
            PreciseSource::HistoricDay { year, month, day } => {
                self.days.insert(key_of_day(year, month, day), data);
            },
            PreciseSource::HistoricYear(year) => {
                self.years.insert(year, data);
            },
        }
        assert(self@ =~= goal);
        Ok(())
    }
}

/// How long the data of a source is used.
pub open spec fn duration_of(source: PreciseSource) -> int {
    if source is Instant {
        INSTANT_DURATION as int
    } else {
        CACHE_DURATION as int
    }
}

/// The entries that are still of use.
pub open spec fn cleaned(entries: Map<PreciseSource, EntryView>, now: int) -> Map<
    PreciseSource,
    EntryView,
> {
    Map::new(
        |s: PreciseSource|
            entries.contains_key(s) && is_fresh(
                s,
                entries[s],
                duration_of(s),
                NOT_FOUND_TIMEOUT as int,
                now,
            ),
        |s: PreciseSource| entries[s],
    )
}

/// What is to be done about a request for a source.
#[derive(Debug)]
pub enum Lookup {
    /// These stations answer it
    Hit(Vec<Station>),
    /// This error answers it
    Failed(Error),
    /// The data has to be fetched
    Fetch,
}

pub enum LookupView {
    Hit(Seq<StationView>),
    Failed(Error),
    Fetch,
}

impl View for Lookup {
    type V = LookupView;

    open spec fn view(&self) -> LookupView {
        match *self {
            Lookup::Hit(stations) => LookupView::Hit(stations.deep_view()),
            Lookup::Failed(e) => LookupView::Failed(e),
            Lookup::Fetch => LookupView::Fetch,
        }
    }
}

/// What is to be done about a request for a source: data that is younger than its duration
/// answers it, and so does the news that there is none.
pub open spec fn looked_up(
    entries: Map<PreciseSource, EntryView>,
    source: PreciseSource,
    now: int,
) -> LookupView {
    match cache_read(entries, source, NOT_FOUND_TIMEOUT as int, now) {
        Some(Ok(d)) => if elapsed_at(d.constructed, now) < duration_of(source) {
            LookupView::Hit(d.data)
        } else {
            LookupView::Fetch
        },
        Some(Err(e)) => LookupView::Failed(e),
        None => LookupView::Fetch,
    }
}

/// The entries after a fetch that ended at `now`.
pub open spec fn stored(
    entries: Map<PreciseSource, EntryView>,
    source: PreciseSource,
    fetched: Result<Option<Seq<StationView>>, Error>,
    now: int,
) -> Map<PreciseSource, EntryView> {
    match fetched {
        Ok(Some(data)) => replaced(
            entries,
            source,
            EntryView::Data(DataEntryView { constructed: now, data }),
        ),
        Ok(None) => replaced(entries, source, EntryView::NotFound(now)),
        Err(_) => entries,
    }
}

/// What a fetch answers to the request that it was made for.
pub open spec fn fetch_reply(
    source: PreciseSource,
    fetched: Result<Option<Seq<StationView>>, Error>,
) -> Result<Seq<StationView>, Error> {
    match fetched {
        Ok(Some(data)) => Ok(data),
        Ok(None) => if is_historic(source) {
            Err(Error::NotFound)
        } else {
            Err(Error::UnexpectedMissingUpstreamData)
        },
        Err(e) => Err(e),
    }
}

/// The fetched stations, seen by their views.
pub open spec fn seen_fetch(fetched: Result<Option<Vec<Station>>, Error>) -> Result<
    Option<Seq<StationView>>,
    Error,
> {
    match fetched {
        Ok(v) => Ok(v.deep_view()),
        Err(e) => Err(e),
    }
}

/// What the server remembers of its fetches.
#[derive(Debug)]
pub struct QueryCache {
    data: QueryCacheInner,
}

impl View for QueryCache {
    type V = Map<PreciseSource, EntryView>;

    closed spec fn view(&self) -> Map<PreciseSource, EntryView> {
        self.data@
    }
}

impl QueryCache {
    /// A cache that remembers nothing.
    pub fn new() -> (c: Self)
        ensures
            c@ == Map::<PreciseSource, EntryView>::empty(),
    {
        QueryCache { data: QueryCacheInner::new() }
    }

    /// How long the data of a source is used.
    fn duration(source: PreciseSource) -> (d: u128)
        ensures
            d == duration_of(source),
    {
        match source {
            PreciseSource::Instant => INSTANT_DURATION,
            _ => CACHE_DURATION,
        }
    }

    /// Answers a request from what is remembered, or says that the data has to be fetched.
    pub fn lookup(&self, source: PreciseSource, now: u128) -> (r: Lookup)
        ensures
            r@ == looked_up(self@, source, now as int),
    {
        match self.data.read(source, NOT_FOUND_TIMEOUT, now) {
            Some(Ok(d)) => if elapsed(d.constructed, now) < QueryCache::duration(source) {
                Lookup::Hit(model::copied_stations(&d.data))
            } else {
                Lookup::Fetch
            },
            Some(Err(e)) => Lookup::Failed(e),
            None => Lookup::Fetch,
        }
    }

    /// Remembers what came of a fetch and answers the request that it was made for.
    pub fn store(
        &mut self,
        source: PreciseSource,
        fetched: Result<Option<Vec<Station>>, Error>,
        now: u128,
    ) -> (r: Result<Vec<Station>, Error>)
        ensures
            final(self)@ == stored(old(self)@, source, seen_fetch(fetched), now as int),
            (match r {
                Ok(v) => Ok::<Seq<StationView>, Error>(v.deep_view()),
                Err(e) => Err(e),
            }) == fetch_reply(source, seen_fetch(fetched)),
    {
        match fetched {
            Err(e) => Err(e),
            Ok(Some(data)) => {
                let entry = Entry::Data(
                    DataEntry { constructed: now, data: model::copied_stations(&data) },
                );
                match self.data.replace(source, entry) {
                    Ok(_) => Ok(data),
                    Err(e) => Err(e),
                }
            },
            Ok(None) => match self.data.replace(source, Entry::NotFound(now)) {
                Ok(_) => Err(Error::NotFound),
                Err(e) => Err(e),
            },
        }
    }

    /// Forgets what is of no more use.
    pub fn clean(&mut self, now: u128)
        ensures
            final(self)@ == cleaned(old(self)@, now as int),
    {
        self.data.clean(now)
    }
}

impl QueryCacheInner {
    /// Forgets what is of no more use.
    fn clean(&mut self, now: u128)
        ensures
            final(self)@ == cleaned(old(self)@, now as int),
    {
        let ghost goal = cleaned(self@, now as int);
        self.instant = retain_opt(self.instant.take(), INSTANT_DURATION, now);
        self.current_day = retain_opt(self.current_day.take(), CACHE_DURATION, now);
        self.current_year = retain_opt(self.current_year.take(), CACHE_DURATION, now);
        retain_map(&mut self.days, CACHE_DURATION, NOT_FOUND_TIMEOUT, now);
        retain_map(&mut self.years, CACHE_DURATION, NOT_FOUND_TIMEOUT, now);
        assert(self@ =~= goal);
    }
}

/// Fetched stations answer the requests for their source until they are as old as its duration,
/// and no longer: data is fetched once every 5 minutes, or once every 30 minutes for all sources
/// but the instantaneous one.
pub proof fn stations_are_remembered(
    entries: Map<PreciseSource, EntryView>,
    source: PreciseSource,
    data: Seq<StationView>,
    fetched_at: int,
    now: int,
)
    requires
        fetched_at <= now,
    ensures
        ({
            let later = stored(entries, source, Ok(Some(data)), fetched_at);
            looked_up(later, source, now) == if now - fetched_at < duration_of(source) {
                LookupView::Hit(data)
            } else {
                LookupView::Fetch
            }
        }),
        fetch_reply(source, Ok(Some(data))) == Ok::<Seq<StationView>, Error>(data),
{
}

/// That historic data does not exist is remembered for an hour.
pub proof fn absence_is_remembered(
    entries: Map<PreciseSource, EntryView>,
    source: PreciseSource,
    fetched_at: int,
    now: int,
)
    requires
        is_historic(source),
        fetched_at <= now,
    ensures
        ({
            let later = stored(entries, source, Ok(None), fetched_at);
            looked_up(later, source, now) == if now - fetched_at <= NOT_FOUND_TIMEOUT {
                LookupView::Failed(Error::NotFound)
            } else {
                LookupView::Fetch
            }
        }),
        fetch_reply(source, Ok(None)) == Err::<Seq<StationView>, Error>(Error::NotFound),
{
}

/// A fetch that failed, or that found nothing where there has to be something, leaves what is
/// remembered as it was.
pub proof fn failures_change_nothing(
    entries: Map<PreciseSource, EntryView>,
    source: PreciseSource,
    e: Error,
    now: int,
)
    ensures
        stored(entries, source, Err(e), now) == entries,
        fetch_reply(source, Err(e)) == Err::<Seq<StationView>, Error>(e),
        !is_historic(source) ==> stored(entries, source, Ok(None), now) == entries,
{
}

/// A fetch changes nothing for other sources.
pub proof fn sources_are_independent(
    entries: Map<PreciseSource, EntryView>,
    source: PreciseSource,
    fetched: Result<Option<Seq<StationView>>, Error>,
    fetched_at: int,
    other: PreciseSource,
    now: int,
)
    requires
        other != source,
    ensures
        looked_up(stored(entries, source, fetched, fetched_at), other, now) == looked_up(
            entries,
            other,
            now,
        ),
{
}

/// A source is only fetched again when nothing is known of it, when its data has reached its age,
/// or when an hour has gone by since it was missing.
pub proof fn fetched_only_when_due(
    entries: Map<PreciseSource, EntryView>,
    source: PreciseSource,
    now: int,
)
    ensures
        looked_up(entries, source, now) is Fetch <==> (!entries.contains_key(source) || match entries[source] {
            EntryView::Data(d) => elapsed_at(d.constructed, now) >= duration_of(source),
            EntryView::NotFound(t) => elapsed_at(t, now) > NOT_FOUND_TIMEOUT,
        }),
{
}

/// Cleaning changes the answer to no request, then or later.
pub proof fn cleaning_changes_no_answer(
    entries: Map<PreciseSource, EntryView>,
    cleaned_at: int,
    source: PreciseSource,
    now: int,
)
    requires
        cleaned_at <= now,
    ensures
        looked_up(cleaned(entries, cleaned_at), source, now) == looked_up(entries, source, now),
{
}

/// Whether only historic data is remembered as missing.
pub open spec fn is_consistent(entries: Map<PreciseSource, EntryView>) -> bool {
    forall|s: PreciseSource| #[trigger]
        entries.contains_key(s) && !is_historic(s) ==> entries[s] is Data
}

/// Whatever is fetched and whenever it is cleaned, a cache that starts out empty only remembers
/// historic data as missing, and so never answers by itself that other data does not exist.
pub proof fn current_data_is_never_missing(
    entries: Map<PreciseSource, EntryView>,
    source: PreciseSource,
    fetched: Result<Option<Seq<StationView>>, Error>,
    now: int,
)
    requires
        is_consistent(entries),
    ensures
        is_consistent(Map::<PreciseSource, EntryView>::empty()),
        is_consistent(stored(entries, source, fetched, now)),
        is_consistent(cleaned(entries, now)),
        !is_historic(source) ==> !(looked_up(entries, source, now) is Failed),
{
}

/// Something that happens to what is remembered.
pub enum Event {
    Fetched { source: PreciseSource, fetched: Result<Option<Seq<StationView>>, Error>, at: int },
    Cleaned { at: int },
}

/// The entries after something happened.
pub open spec fn after_event(entries: Map<PreciseSource, EntryView>, event: Event) -> Map<
    PreciseSource,
    EntryView,
> {
    match event {
        Event::Fetched { source, fetched, at } => stored(entries, source, fetched, at),
        Event::Cleaned { at } => cleaned(entries, at),
    }
}

/// The entries after several things happened.
pub open spec fn after_events(entries: Map<PreciseSource, EntryView>, events: Seq<Event>) -> Map<
    PreciseSource,
    EntryView,
>
    decreases events.len(),
{
    if events.len() == 0 {
        entries
    } else {
        after_event(after_events(entries, events.drop_last()), events.last())
    }
}

/// Whether something that happens up to `now` does not concern the data of a source: it is a
/// cleaning, or a fetch for another source, or one that failed.
pub open spec fn is_unrelated(event: Event, source: PreciseSource, now: int) -> bool {
    match event {
        Event::Fetched { source: other, fetched, at: _ } => other != source || fetched is Err,
        Event::Cleaned { at } => at <= now,
    }
}

proof fn entry_stays(
    entries: Map<PreciseSource, EntryView>,
    events: Seq<Event>,
    source: PreciseSource,
    now: int,
)
    requires
        entries.contains_key(source),
        !(looked_up(entries, source, now) is Fetch),
        forall|i: int| 0 <= i < events.len() ==> is_unrelated(#[trigger] events[i], source, now),
    ensures
        after_events(entries, events).contains_key(source),
        after_events(entries, events)[source] == entries[source],
    decreases events.len(),
{
    if events.len() > 0 {
        let front = events.drop_last();
        assert forall|i: int| 0 <= i < front.len() implies is_unrelated(
            #[trigger] front[i],
            source,
            now,
        ) by {
            assert(front[i] == events[i]);
        }
        entry_stays(entries, front, source, now);
        assert(is_unrelated(events[events.len() - 1], source, now));
    }
}

/// Whatever else is fetched and however often it is cleaned, fetched stations answer the requests
/// for their source until they are as old as its duration, and the news that historic data does
/// not exist does so for an hour.
pub proof fn answers_stay_through_other_events(
    entries: Map<PreciseSource, EntryView>,
    source: PreciseSource,
    fetched: Option<Seq<StationView>>,
    fetched_at: int,
    events: Seq<Event>,
    now: int,
)
    requires
        fetched_at <= now,
        fetched is None ==> is_historic(source),
        forall|i: int| 0 <= i < events.len() ==> is_unrelated(#[trigger] events[i], source, now),
    ensures
        ({
            let first = stored(entries, source, Ok(fetched), fetched_at);
            let answer = looked_up(after_events(first, events), source, now);
            match fetched {
                Some(data) => now - fetched_at < duration_of(source) ==> answer == LookupView::Hit(
                    data,
                ),
                None => now - fetched_at <= NOT_FOUND_TIMEOUT ==> answer == LookupView::Failed(
                    Error::NotFound,
                ),
            }
        }),
{
    let first = stored(entries, source, Ok(fetched), fetched_at);
    if !(looked_up(first, source, now) is Fetch) {
        entry_stays(first, events, source, now);
    }
}

/// Data is used for 5 minutes where it is instantaneous, and for 30 minutes where it is not; that
/// data does not exist is remembered for an hour, and only of historic data. Times are counted in
/// nanoseconds.
pub proof fn data_is_used_for_minutes(source: PreciseSource, second: int)
    requires
        second == 1_000_000_000,
    ensures
        source is Instant ==> duration_of(source) == 5 * 60 * second,
        !(source is Instant) ==> duration_of(source) == 30 * 60 * second,
        NOT_FOUND_TIMEOUT == 60 * 60 * second,
        is_historic(source) <==> source is HistoricDay || source is HistoricYear,
{
}

/// The time that has gone by since a moment is the difference, and none where that moment is still
/// to come.
pub proof fn time_goes_by(since: int, now: int)
    ensures
        now >= since ==> elapsed_at(since, now) == now - since,
        now < since ==> elapsed_at(since, now) == 0,
{
}

/// Different days are kept apart.
pub proof fn days_have_keys_of_their_own(
    year: u16,
    month: u8,
    day: u8,
    other_year: u16,
    other_month: u8,
    other_day: u8,
)
    ensures
        day_key(year, month, day) == day_key(other_year, other_month, other_day) ==> year
            == other_year && month == other_month && day == other_day,
        0 <= day_key(year, month, day) <= u32::MAX,
{
}

/// Cleaning forgets data only once it is too old to answer, and then it does forget it, so that no
/// more is kept than is of use.
pub proof fn cleaning_forgets_what_is_old(
    entries: Map<PreciseSource, EntryView>,
    source: PreciseSource,
    now: int,
)
    ensures
        cleaned(entries, now).contains_key(source) ==> entries.contains_key(source) && cleaned(
            entries,
            now,
        )[source] == entries[source],
        entries.contains_key(source) && entries[source] is Data && elapsed_at(
            entries[source]->Data_0.constructed,
            now,
        ) > duration_of(source) ==> !cleaned(entries, now).contains_key(source),
        entries.contains_key(source) && entries[source] is Data && elapsed_at(
            entries[source]->Data_0.constructed,
            now,
        ) < duration_of(source) ==> cleaned(entries, now).contains_key(source),
        entries.contains_key(source) && entries[source] is NotFound ==> (cleaned(
            entries,
            now,
        ).contains_key(source) <==> elapsed_at(entries[source]->NotFound_0, now)
            <= NOT_FOUND_TIMEOUT),
{
}

/// A fetch answers the request that it was made for with what it got: the stations, that historic
/// data does not exist, that other data is missing unexpectedly, or the error.
pub proof fn fetches_answer_their_request(
    source: PreciseSource,
    fetched: Result<Option<Seq<StationView>>, Error>,
)
    ensures
        (match fetched {
            Ok(Some(data)) => fetch_reply(source, fetched) == Ok::<Seq<StationView>, Error>(data),
            Ok(None) => fetch_reply(source, fetched) == Err::<Seq<StationView>, Error>(
                if source is HistoricDay || source is HistoricYear {
                    Error::NotFound
                } else {
                    Error::UnexpectedMissingUpstreamData
                },
            ),
            Err(e) => fetch_reply(source, fetched) == Err::<Seq<StationView>, Error>(e),
        }),
{
}

/// Views show what is remembered and what is to be done about a request.
pub proof fn views_show_entries(
    entry: Entry,
    lookup: Lookup,
    read: Option<Result<&DataEntry, Error>>,
    fetched: Result<Option<Vec<Station>>, Error>,
)
    ensures
        entry matches Entry::Data(d) ==> (entry.deep_view() matches EntryView::Data(v)
            && v.constructed == d.constructed && v.data == d.data.deep_view()),
        entry matches Entry::NotFound(t) ==> (entry.deep_view() matches EntryView::NotFound(u) && u
            == t),
        lookup matches Lookup::Hit(stations) ==> lookup@ == LookupView::Hit(stations.deep_view()),
        lookup matches Lookup::Failed(e) ==> lookup@ == LookupView::Failed(e),
        lookup is Fetch <==> lookup@ is Fetch,
        read is None <==> seen_read(read) is None,
        read matches Some(Ok(d)) ==> seen_read(read) == Some(
            Ok::<DataEntryView, Error>(d.deep_view()),
        ),
        read matches Some(Err(e)) ==> seen_read(read) == Some(Err::<DataEntryView, Error>(e)),
        fetched matches Ok(Some(v)) ==> seen_fetch(fetched) == Ok::<
            Option<Seq<StationView>>,
            Error,
        >(Some(v.deep_view())),
        fetched matches Ok(None) ==> seen_fetch(fetched) == Ok::<Option<Seq<StationView>>, Error>(
            None,
        ),
        fetched matches Err(e) ==> seen_fetch(fetched) == Err::<Option<Seq<StationView>>, Error>(e),
{
}

/// Of a source that was never fetched nothing is said. Fetched data is handed on whatever its age;
/// the news that there is none is, up to the time that is given for it.
pub proof fn entries_say_what_was_fetched(
    entries: Map<PreciseSource, EntryView>,
    source: PreciseSource,
    timeout: int,
    now: int,
)
    requires
        timeout >= 0,
    ensures
        !entries.contains_key(source) ==> cache_read(entries, source, timeout, now) is None,
        entries.contains_key(source) ==> (match entries[source] {
            EntryView::Data(d) => cache_read(entries, source, timeout, now) == Some(
                Ok::<DataEntryView, Error>(d),
            ),
            EntryView::NotFound(t) => cache_read(entries, source, timeout, now) == if now - t
                > timeout {
                None
            } else {
                Some(Err::<DataEntryView, Error>(Error::NotFound))
            },
        }),
{
}

/// An entry takes the place of an earlier one of its source, and leaves those of the others alone.
/// Only that data is missing which cannot be is not noted.
pub proof fn entries_take_the_place_of_earlier_ones(
    entries: Map<PreciseSource, EntryView>,
    source: PreciseSource,
    entry: EntryView,
    other: PreciseSource,
)
    ensures
        ({
            let after = replaced(entries, source, entry);
            &&& entry is Data || source is HistoricDay || source is HistoricYear
                ==> after.contains_key(source) && after[source] == entry
            &&& other != source ==> (after.contains_key(other) <==> entries.contains_key(other))
                && (entries.contains_key(other) ==> after[other] == entries[other])
            &&& entry is NotFound && (source is Instant || source is CurrentDay
                || source is CurrentYear) ==> after == entries
        }),
{
}

} // verus!
