//! What is shown of stations, and what is made of a server's reply.

use vstd::prelude::*;

use crate::api::{Response, Stations};
use crate::geo::GeoInfo;
#[allow(unused_imports)]
use crate::geo::GeoInfoView;
use crate::model::{Fuel, PerFuel, Price, Station};
#[allow(unused_imports)]
use crate::model::{self, PriceView, StationView};
use crate::text;

verus! {

/// The first line about a station: its city, its address and its zip code.
pub open spec fn header_of(station: StationView) -> Seq<char> {
    let city = match station.location.city {
        Some(city) => city,
        None => ""@,
    };
    "== "@ + city + " - "@ + station.location.address + " ("@ + station.location.zip_code + ")"@
}

/// The part of a name before its first comma.
pub open spec fn short_name(name: Seq<char>) -> Seq<char> {
    text::fields(name, ',')[0]
}

/// The lines about a station above its prices.
pub open spec fn heading_of(station: StationView, place: Option<GeoInfoView>) -> Seq<Seq<char>> {
    let name = match place {
        Some(info) => seq!["Name: "@ + short_name(info.display_name)],
        None => seq![],
    };
    seq![header_of(station)] + name + seq!["ID: "@ + station.id, "Prices:"@]
}

/// Writes the lines about a station above its prices.
pub fn heading(station: &Station, place: Option<GeoInfo>) -> (r: Vec<String>)
    ensures
        text::texts(r@) == heading_of(station.deep_view(), place.deep_view()),
{
    let city: String = match &station.location.city {
        Some(city) => city.clone(),
        None => "".to_owned(),
    };
    let header: String = "== ".to_owned().concat(city.as_str()).concat(" - ").concat(
        station.location.address.as_str(),
    ).concat(" (").concat(station.location.zip_code.as_str()).concat(")");
    let mut lines: Vec<String> = Vec::new();
    lines.push(header);
    match place {
        Some(info) => {
            let name: String = match text::split_once(info.display_name.as_str(), ',') {
                Some((name, _)) => name,
                None => info.display_name,
            };
            proof {
                text::find_is_first(info.display_name@, ',', 0);
            }
            lines.push("Name: ".to_owned().concat(name.as_str()));
        },
        None => {},
    }
    lines.push("ID: ".to_owned().concat(station.id.as_str()));
    lines.push("Prices:".to_owned());
    assert(text::texts(lines@) =~= heading_of(station.deep_view(), place.deep_view()));
    lines
}

/// All fuels, in the order in which their prices are shown.
pub open spec fn all_fuels() -> Seq<Fuel> {
    seq![
        Fuel::Diesel,
        Fuel::Gasoline95Octane,
        Fuel::Gasoline98Octane,
        Fuel::GasolineE10,
        Fuel::LPG,
        Fuel::GasolineE85,
    ]
}

/// The prices of one fuel, each with the fuel.
pub open spec fn labelled(fuel: Fuel, prices: Seq<PriceView>) -> Seq<(Fuel, PriceView)> {
    prices.map_values(|p: PriceView| (fuel, p))
}

/// The prices of some fuels, fuel after fuel.
pub open spec fn prices_of(prices: PerFuel<Seq<PriceView>>, fuels: Seq<Fuel>) -> Seq<
    (Fuel, PriceView),
>
    decreases fuels.len(),
{
    if fuels.len() == 0 {
        seq![]
    } else {
        prices_of(prices, fuels.drop_last()) + labelled(
            fuels.last(),
            prices.spec_get(fuels.last()),
        )
    }
}

/// Lists the prices of some fuels, fuel after fuel.
pub fn list_prices(prices: &PerFuel<Vec<Price>>, fuels: &Vec<Fuel>) -> (r: Vec<(Fuel, Price)>)
    ensures
        r.deep_view() == prices_of(prices.deep_view(), fuels@),
{
    let ghost all = prices.deep_view();
    let mut list: Vec<(Fuel, Price)> = Vec::new();
    for i in 0..fuels.len()
        invariant
            all == prices.deep_view(),
            list.deep_view() == prices_of(all, fuels@.take(i as int)),
    {
        let fuel: Fuel = fuels[i];
        let of_fuel: &Vec<Price> = prices.get(fuel);
        let ghost before = list.deep_view();
        let ghost wanted = labelled(fuel, of_fuel.deep_view());
        assert(of_fuel.deep_view() == all.spec_get(fuel));
        for j in 0..of_fuel.len()
            invariant
                wanted == labelled(fuel, of_fuel.deep_view()),
                list.deep_view() == before + wanted.take(j as int),
        {
            let ghost so_far = list.deep_view();
            let price: Price = of_fuel[j].clone();
            assert(wanted[j as int] == (fuel, price.deep_view()));
            list.push((fuel, price));
            assert(list.deep_view() =~= so_far.push((fuel, price.deep_view())));
            assert(so_far.push(wanted[j as int]) =~= before + wanted.take(j + 1));
        }
        assert(wanted.take(wanted.len() as int) =~= wanted);
        assert(fuels@.take(i + 1).drop_last() =~= fuels@.take(i as int));
    }
    assert(fuels@.take(fuels@.len() as int) =~= fuels@);
    list
}

/// Lists the prices that are shown of a station: of the fuels that are configured, or of all fuels
/// where none are.
pub fn shown_prices(prices: &PerFuel<Vec<Price>>, fuels: &Vec<Fuel>) -> (r: Vec<(Fuel, Price)>)
    ensures
        r.deep_view() == prices_of(
            prices.deep_view(),
            if fuels@.len() == 0 {
                all_fuels()
            } else {
                fuels@
            },
        ),
        forall|fuel: Fuel, i: int|
            #![trigger prices.spec_get(fuel)@[i]]
            0 <= i < prices.spec_get(fuel)@.len() && (fuels@.len() == 0 || fuels@.contains(fuel))
                ==> r.deep_view().contains((fuel, prices.spec_get(fuel)@[i].deep_view())),
        forall|k: int|
            #![trigger r@[k]]
            0 <= k < r@.len() ==> (fuels@.len() == 0 || fuels@.contains(r@[k].0)) && exists|i: int|
                #![trigger prices.spec_get(r@[k].0)@[i]]
                0 <= i < prices.spec_get(r@[k].0)@.len() && r@[k].1.price.text@
                    == prices.spec_get(r@[k].0)@[i].price.text@ && r@[k].1.updated_at
                    == prices.spec_get(r@[k].0)@[i].updated_at,
{
    proof {
        let shown = if fuels@.len() == 0 {
            all_fuels()
        } else {
            fuels@
        };
        let all = prices.deep_view();
        assert forall|fuel: Fuel, i: int|
            #![trigger prices.spec_get(fuel)@[i]]
            0 <= i < prices.spec_get(fuel)@.len() && (fuels@.len() == 0 || fuels@.contains(
                fuel,
            )) implies prices_of(all, shown).contains(
            (fuel, prices.spec_get(fuel)@[i].deep_view()),
        ) by {
            every_fuel_is_listed_once(fuel);
            model::views_show_every_fuel(*prices, fuel);
            assert(all.spec_get(fuel)[i] == prices.spec_get(fuel)@[i].deep_view());
            prices_of_the_fuels_are_listed(all, shown, fuel, i);
        }
        assert forall|k: int| 0 <= k < prices_of(all, shown).len() implies (fuels@.len() == 0
            || fuels@.contains((#[trigger] prices_of(all, shown)[k]).0)) && exists|i: int|
            #![trigger prices.spec_get(prices_of(all, shown)[k].0)@[i]]
            0 <= i < prices.spec_get(prices_of(all, shown)[k].0)@.len() && prices_of(
                all,
                shown,
            )[k].1 == prices.spec_get(prices_of(all, shown)[k].0)@[i].deep_view() by {
            only_prices_of_the_fuels_are_listed(all, shown, k);
            let (fuel, price) = prices_of(all, shown)[k];
            let i = choose|i: int|
                0 <= i < all.spec_get(fuel).len() && #[trigger] all.spec_get(fuel)[i] == price;
            model::views_show_every_fuel(*prices, fuel);
            assert(all.spec_get(fuel)[i] == prices.spec_get(fuel)@[i].deep_view());
        }
    }
    let r: Vec<(Fuel, Price)> = listed_prices(prices, fuels);
    proof {
        assert forall|k: int|
            #![trigger r@[k]]
            0 <= k < r@.len() implies (fuels@.len() == 0 || fuels@.contains(r@[k].0)) && exists|
            i: int,
        |
            #![trigger prices.spec_get(r@[k].0)@[i]]
            0 <= i < prices.spec_get(r@[k].0)@.len() && r@[k].1.price.text@ == prices.spec_get(
                r@[k].0,
            )@[i].price.text@ && r@[k].1.updated_at == prices.spec_get(r@[k].0)@[i].updated_at by {
            let seen = r.deep_view()[k];
            assert(seen == (r@[k].0, r@[k].1.deep_view()));
            let i = choose|i: int|
                #![trigger prices.spec_get(seen.0)@[i]]
                0 <= i < prices.spec_get(seen.0)@.len() && seen.1 == prices.spec_get(
                    seen.0,
                )@[i].deep_view();
            assert(prices.spec_get(r@[k].0)@[i].deep_view() == r@[k].1.deep_view());
        }
    }
    r
}

/// Lists the prices of the fuels that are configured, or of all fuels where none are.
fn listed_prices(prices: &PerFuel<Vec<Price>>, fuels: &Vec<Fuel>) -> (r: Vec<(Fuel, Price)>)
    ensures
        r.deep_view() == prices_of(
            prices.deep_view(),
            if fuels@.len() == 0 {
                all_fuels()
            } else {
                fuels@
            },
        ),
{
    if fuels.len() == 0 {
        let mut all: Vec<Fuel> = Vec::new();
        all.push(Fuel::Diesel);
        all.push(Fuel::Gasoline95Octane);
        all.push(Fuel::Gasoline98Octane);
        all.push(Fuel::GasolineE10);
        all.push(Fuel::LPG);
        all.push(Fuel::GasolineE85);
        assert(all@ =~= all_fuels());
        list_prices(prices, &all)
    } else {
        list_prices(prices, fuels)
    }
}

/// What is made of a server's reply.
#[derive(Debug)]
pub enum Reply {
    /// These are the stations
    Stations(Vec<Station>),
    /// The server says what went wrong
    Failed(String),
    /// Something went wrong, and the server does not say what
    Silent(u16),
    /// The document cannot be read
    Unreadable,
    /// The document contradicts the status
    Contradiction,
}

pub open spec fn is_success(status: u16) -> bool {
    200 <= status < 300
}

/// Turns the status and the document of a reply into what is made of it. There is no document
/// where it could not be read.
pub fn read_reply(status: u16, document: Option<Response<Stations>>) -> (r: Reply)
    ensures
        r == (match document {
            Some(Response::Success(s)) => if is_success(status) {
                Reply::Stations(s.stations)
            } else {
                Reply::Silent(status)
            },
            Some(Response::Error { code: _, message }) => if is_success(status) {
                Reply::Contradiction
            } else {
                Reply::Failed(message)
            },
            None => if is_success(status) {
                Reply::Unreadable
            } else {
                Reply::Silent(status)
            },
        }),
{
    let success: bool = 200 <= status && status < 300;
    match document {
        Some(Response::Success(s)) => if success {
            Reply::Stations(s.stations)
        } else {
            Reply::Silent(status)
        },
        Some(Response::Error { code: _, message }) => if success {
            Reply::Contradiction
        } else {
            Reply::Failed(message)
        },
        None => if success {
            Reply::Unreadable
        } else {
            Reply::Silent(status)
        },
    }
}

/// Where no fuels are configured, every fuel has its turn, and each of them once.
pub proof fn every_fuel_is_listed_once(fuel: Fuel)
    ensures
        all_fuels().contains(fuel),
        all_fuels().no_duplicates(),
        all_fuels()[0] == Fuel::Diesel && all_fuels()[1] == Fuel::Gasoline95Octane && all_fuels()[2]
            == Fuel::Gasoline98Octane && all_fuels()[3] == Fuel::GasolineE10 && all_fuels()[4]
            == Fuel::LPG && all_fuels()[5] == Fuel::GasolineE85,
{
    let all = all_fuels();
    assert(all[0] == Fuel::Diesel);
    assert(all[1] == Fuel::Gasoline95Octane);
    assert(all[2] == Fuel::Gasoline98Octane);
    assert(all[3] == Fuel::GasolineE10);
    assert(all[4] == Fuel::LPG);
    assert(all[5] == Fuel::GasolineE85);
}

/// Every price of a fuel that is shown is listed, together with its fuel.
pub proof fn prices_of_the_fuels_are_listed(
    prices: PerFuel<Seq<PriceView>>,
    fuels: Seq<Fuel>,
    fuel: Fuel,
    i: int,
)
    requires
        fuels.contains(fuel),
        0 <= i < prices.spec_get(fuel).len(),
    ensures
        prices_of(prices, fuels).contains((fuel, prices.spec_get(fuel)[i])),
    decreases fuels.len(),
{
    let front = prices_of(prices, fuels.drop_last());
    let last = labelled(fuels.last(), prices.spec_get(fuels.last()));
    let all = prices_of(prices, fuels);
    if fuels.last() == fuel {
        assert(all[front.len() + i] == (fuel, prices.spec_get(fuel)[i]));
    } else {
        let k = choose|k: int| 0 <= k < fuels.len() && fuels[k] == fuel;
        assert(fuels.drop_last()[k] == fuel);
        prices_of_the_fuels_are_listed(prices, fuels.drop_last(), fuel, i);
        let m = choose|m: int| 0 <= m < front.len() && front[m] == (fuel, prices.spec_get(fuel)[i]);
        assert(all[m] == (fuel, prices.spec_get(fuel)[i]));
    }
}

/// Nothing is listed but prices of the fuels that are shown.
pub proof fn only_prices_of_the_fuels_are_listed(
    prices: PerFuel<Seq<PriceView>>,
    fuels: Seq<Fuel>,
    k: int,
)
    requires
        0 <= k < prices_of(prices, fuels).len(),
    ensures
        ({
            let (fuel, price) = prices_of(prices, fuels)[k];
            fuels.contains(fuel) && exists|i: int|
                0 <= i < prices.spec_get(fuel).len() && #[trigger] prices.spec_get(fuel)[i] == price
        }),
    decreases fuels.len(),
{
    let front = prices_of(prices, fuels.drop_last());
    let all = prices_of(prices, fuels);
    let (fuel, price) = all[k];
    if k < front.len() {
        assert(front[k] == all[k]);
        only_prices_of_the_fuels_are_listed(prices, fuels.drop_last(), k);
        let m = choose|m: int|
            0 <= m < fuels.drop_last().len() && fuels.drop_last()[m] == fuel;
        assert(fuels[m] == fuel);
    } else {
        assert(fuels[fuels.len() - 1] == fuel);
        assert(prices.spec_get(fuel)[k - front.len()] == price);
    }
}

/// The prices of one fuel are listed as the station has them, and those of more fuels one list
/// behind the other.
pub proof fn prices_are_listed_fuel_by_fuel(
    prices: PerFuel<Seq<PriceView>>,
    fuel: Fuel,
    first: Seq<Fuel>,
    then: Seq<Fuel>,
)
    ensures
        prices_of(prices, seq![fuel]).len() == prices.spec_get(fuel).len(),
        forall|i: int|
            0 <= i < prices.spec_get(fuel).len() ==> #[trigger] prices_of(prices, seq![fuel])[i] == (
                fuel,
                prices.spec_get(fuel)[i],
            ),
        prices_of(prices, first + then) == prices_of(prices, first) + prices_of(prices, then),
    decreases then.len(),
{
    let one = seq![fuel];
    reveal_with_fuel(prices_of, 2);
    assert(one.drop_last() =~= Seq::<Fuel>::empty());
    assert(prices_of(prices, one) =~= labelled(fuel, prices.spec_get(fuel)));
    if then.len() == 0 {
        assert(first + then =~= first);
        assert(prices_of(prices, first) + prices_of(prices, then) =~= prices_of(prices, first));
    } else {
        prices_are_listed_fuel_by_fuel(prices, fuel, first, then.drop_last());
        assert((first + then).drop_last() =~= first + then.drop_last());
        assert(prices_of(prices, first + then) =~= prices_of(prices, first) + prices_of(
            prices,
            then,
        ));
    }
}

/// The heading of a station says its city, its address and its zip code, then its name where it is
/// known, then its id. Without a city its place in the line stays empty.
pub proof fn headings_say_where_stations_are(station: StationView, place: Option<GeoInfoView>)
    ensures
        ({
            let lines = heading_of(station, place);
            let n = lines.len() as int;
            &&& n == if place is Some {
                4int
            } else {
                3
            }
            &&& lines[0] == "== "@ + (if station.location.city is Some {
                station.location.city->Some_0
            } else {
                Seq::empty()
            }) + " - "@ + station.location.address + " ("@ + station.location.zip_code + ")"@
            &&& place is Some ==> lines[1] == "Name: "@ + short_name(place->Some_0.display_name)
            &&& lines[n - 2] == "ID: "@ + station.id
            &&& lines[n - 1] == "Prices:"@
        }),
{
    reveal_strlit("");
    assert(""@ =~= Seq::<char>::empty());
}

/// The short name of a place is what stands before the first comma of its name, or all of it where
/// there is none.
pub proof fn short_names_end_at_the_first_comma(name: Seq<char>)
    ensures
        forall|i: int| 0 <= i < short_name(name).len() ==> short_name(name)[i] != ',',
        short_name(name) == name || (short_name(name).len() < name.len()
            && name[short_name(name).len() as int] == ',' && name.take(
            short_name(name).len() as int,
        ) == short_name(name)),
{
    text::find_is_first(name, ',', 0);
    let p = text::find(name, ',', 0);
    if p < name.len() {
        assert(short_name(name) =~= name.subrange(0, p));
        assert(name.take(p) =~= name.subrange(0, p));
    }
}

/// A reply is a success exactly when its status is one of the two hundreds.
pub proof fn success_is_in_the_two_hundreds(status: u16)
    ensures
        is_success(status) <==> status / 100 == 2,
{
}

} // verus!
