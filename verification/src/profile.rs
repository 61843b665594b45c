//! Lists of stations that the user asks for by name.

use vstd::prelude::*;

use crate::model::Fuel;
#[allow(unused_imports)]
use crate::number;
#[allow(unused_imports)]
use crate::query;
use crate::text;

verus! {

/// A station and what the user calls it.
#[derive(Debug)]
pub struct StationInfo {
    pub name: String,
    pub id: u64,
}

/// The stations of a profile, and the fuels whose prices are shown for them.
#[derive(Debug)]
pub struct Profile {
    pub fuels: Vec<Fuel>,
    pub stations: Vec<StationInfo>,
}

/// The ids of stations, in decimal notation.
pub open spec fn id_texts(stations: Seq<StationInfo>) -> Seq<Seq<char>> {
    stations.map_values(|s: StationInfo| text::decimal_text(s.id as nat))
}

/// The position of the first station from `i` on with an id, or the number of stations.
pub open spec fn find_id(stations: Seq<StationInfo>, id: u64, i: int) -> int
    decreases stations.len() - i,
{
    if i >= stations.len() {
        stations.len() as int
    } else if stations[i].id == id {
        i
    } else {
        find_id(stations, id, i + 1)
    }
}

impl Profile {
    /// The parameter `ids` that asks for the stations of the profile.
    pub fn ids(&self) -> (s: String)
        ensures
            s@ == text::joined(id_texts(self.stations@), ','),
    {
        let mut ids: Vec<String> = Vec::new();
        for i in 0..self.stations.len()
            invariant
                text::texts(ids@) =~= id_texts(self.stations@).take(i as int),
        {
            let ghost before = ids@;
            let id: String = text::decimal(self.stations[i].id);
            ids.push(id);
            assert(text::texts(ids@) =~= text::texts(before).push(id@));
            assert(id_texts(self.stations@)[i as int] == id@);
        }
        proof {
            reveal_strlit(",");
            assert(text::texts(ids@) =~= id_texts(self.stations@));
        }
        text::join(&ids, ",")
    }

    /// What the user calls a station: its name where it is first in the profile.
    pub fn station_name(&self, id: u64) -> (r: Option<&String>)
        ensures
            ({
                let i = find_id(self.stations@, id, 0);
                r == if i < self.stations@.len() {
                    Some(&self.stations@[i].name)
                } else {
                    None
                }
            }),
            r matches Some(name) ==> exists|i: int|
                #![trigger self.stations@[i]]
                0 <= i < self.stations@.len() && self.stations@[i].id == id && *name
                    == self.stations@[i].name && forall|j: int|
                    #![trigger self.stations@[j]]
                    0 <= j < i ==> self.stations@[j].id != id,
            r is None <==> forall|i: int|
                #![trigger self.stations@[i]]
                0 <= i < self.stations@.len() ==> self.stations@[i].id != id,
    {
        for i in 0..self.stations.len()
            invariant
                find_id(self.stations@, id, 0) == find_id(self.stations@, id, i as int),
                forall|j: int|
                    #![trigger self.stations@[j]]
                    0 <= j < i ==> self.stations@[j].id != id,
        {
            if self.stations[i].id == id {
                return Some(&self.stations[i].name);
            }
        }
        None
    }
}

/// The server reads the ids of a profile as they were meant: a profile that lists stations asks
/// for their ids and no others.
pub proof fn ids_are_read_back(stations: Seq<StationInfo>)
    requires
        stations.len() > 0,
    ensures
        query::ids_of(text::joined(id_texts(stations), ',')) == Some(
            Set::new(|id: u64| exists|i: int| 0 <= i < stations.len() && #[trigger] stations[i].id == id),
        ),
{
    let pieces = id_texts(stations);
    assert forall|i: int| 0 <= i < pieces.len() implies number::u64_of(#[trigger] pieces[i])
        == Some(stations[i].id) && number::all_digits(pieces[i]) by {
        number::decimal_text_denotes(stations[i].id as nat);
    }
    assert forall|i: int, j: int|
        #![trigger pieces[i][j]]
        0 <= i < pieces.len() && 0 <= j < pieces[i].len() implies pieces[i][j] != ',' by {
        assert(number::is_digit(pieces[i][j]));
    }
    text::split_undoes_join(pieces, ',');
    let ids = Set::new(
        |id: u64| exists|i: int| 0 <= i < stations.len() && #[trigger] stations[i].id == id,
    );
    let read = query::ids_among(pieces)->Some_0;
    assert forall|id: u64| read.contains(id) <==> ids.contains(id) by {
        if read.contains(id) {
            let i = choose|i: int|
                0 <= i < pieces.len() && #[trigger] number::u64_of(pieces[i]) == Some(id);
            assert(stations[i].id == id);
        }
        if ids.contains(id) {
            let i = choose|i: int| 0 <= i < stations.len() && #[trigger] stations[i].id == id;
            assert(number::u64_of(pieces[i]) == Some(id));
        }
    }
    assert(read =~= ids);
}

/// A profile calls a station by the name of its first entry with that id, and knows no name for a
/// station that it does not list.
pub proof fn names_are_those_of_the_profile(stations: Seq<StationInfo>, id: u64)
    ensures
        find_id(stations, id, 0) < stations.len() ==> 0 <= find_id(stations, id, 0)
            && stations[find_id(stations, id, 0)].id == id && forall|j: int|
            #![trigger stations[j]]
            0 <= j < find_id(stations, id, 0) ==> stations[j].id != id,
        find_id(stations, id, 0) >= stations.len() <==> forall|j: int|
            #![trigger stations[j]]
            0 <= j < stations.len() ==> stations[j].id != id,
{
    found_id_is_first(stations, id, 0);
}

proof fn found_id_is_first(stations: Seq<StationInfo>, id: u64, from: int)
    requires
        0 <= from <= stations.len(),
    ensures
        from <= find_id(stations, id, from) <= stations.len(),
        find_id(stations, id, from) < stations.len() ==> stations[find_id(stations, id, from)].id
            == id,
        forall|j: int|
            #![trigger stations[j]]
            from <= j < find_id(stations, id, from) ==> stations[j].id != id,
    decreases stations.len() - from,
{
    if from < stations.len() && stations[from].id != id {
        found_id_is_first(stations, id, from + 1);
    }
}

/// A profile asks for its stations by their ids, in the order in which it lists them.
pub proof fn ids_are_asked_for_in_order(stations: Seq<StationInfo>)
    ensures
        id_texts(stations).len() == stations.len(),
        forall|i: int|
            0 <= i < stations.len() ==> #[trigger] id_texts(stations)[i] == text::decimal_text(
                stations[i].id as nat,
            ),
{
}

} // verus!
