//! Orders stations by their prices or by their distances.

use vstd::prelude::*;

use crate::model::{Coordinates, Fuel, Price, Station};
#[allow(unused_imports)]
use crate::model::{CoordinatesView, PriceView, StationView};
use crate::number::Real;
use crate::time;

verus! {

/// Whether the price at `i` is the latest one, and the last of those that are equally late.
pub open spec fn is_latest(prices: Seq<PriceView>, i: int) -> bool {
    &&& 0 <= i < prices.len()
    &&& forall|j: int|
        #![trigger prices[j]]
        0 <= j < i ==> !time::latest(prices[j].updated_at).is_after(
            time::latest(prices[i].updated_at),
        )
    &&& forall|j: int|
        #![trigger prices[j]]
        i < j < prices.len() ==> time::latest(prices[i].updated_at).is_after(
            time::latest(prices[j].updated_at),
        )
}

/// The latest of some prices. Where a date is ambiguous, its later meaning counts.
pub fn latest_price(prices: &Vec<Price>) -> (r: Option<&Price>)
    ensures
        r is None <==> prices@.len() == 0,
        r matches Some(p) ==> exists|i: int|
            #![trigger prices@[i]]
            is_latest(prices.deep_view(), i) && *p == prices@[i],
{
    let ghost all = prices.deep_view();
    if prices.len() == 0 {
        return None;
    }
    let mut best: usize = 0;
    for i in 1..prices.len()
        invariant
            all == prices.deep_view(),
            prices@.len() > 0,
            best < i <= prices@.len(),
            is_latest(all.take(i as int), best as int),
    {
        let ghost before = all.take(i as int);
        let ghost now = all.take(i + 1);
        assert(all[best as int] == prices@[best as int].deep_view());
        assert(all[i as int] == prices@[i as int].deep_view());
        assert(forall|j: int| 0 <= j < i ==> before[j] == now[j]);
        if !time::later_date(prices[best].updated_at).after(
            &time::later_date(prices[i].updated_at),
        ) {
            best = i;
        }
    }
    assert(all.take(all.len() as int) =~= all);
    let r: &Price = &prices[best];
    assert(*r == prices@[best as int]);
    Some(r)
}

/// There is one latest price alone.
pub proof fn latest_is_unique(prices: Seq<PriceView>, i: int, j: int)
    requires
        is_latest(prices, i),
        is_latest(prices, j),
    ensures
        i == j,
{
    assert(prices[i] == prices[i] && prices[j] == prices[j]);
}

/// The position of the latest price.
pub open spec fn latest_index(prices: Seq<PriceView>) -> int {
    choose|i: int| is_latest(prices, i)
}

/// What stations are sorted by.
#[derive(Debug)]
pub enum Sort {
    Unsorted,
    /// The distance from a place
    Distance { latitude: Real, longitude: Real },
    /// The latest price of a fuel
    Price(Fuel),
}

/// What the key of a station is computed from.
#[derive(Debug)]
pub enum Measure {
    Price(Real),
    Place(Coordinates),
}

pub enum MeasureView {
    Price(Seq<char>),
    Place(CoordinatesView),
}

impl DeepView for Measure {
    type V = MeasureView;

    open spec fn deep_view(&self) -> MeasureView {
        match *self {
            Measure::Price(price) => MeasureView::Price(price@),
            Measure::Place(place) => MeasureView::Place(place.deep_view()),
        }
    }
}

/// What the key of a station is computed from: its latest price or its coordinates. Without them
/// it has no key.
pub open spec fn measure_of(sort: Sort, station: StationView) -> Option<MeasureView> {
    match sort {
        Sort::Unsorted => None,
        Sort::Price(fuel) => {
            let prices = station.prices.spec_get(fuel);
            if prices.len() == 0 {
                None
            } else {
                Some(MeasureView::Price(prices[latest_index(prices)].price))
            }
        },
        Sort::Distance { .. } => match station.location.coordinates {
            None => None,
            Some(c) => Some(MeasureView::Place(c)),
        },
    }
}

/// Whether a key comes before another one. What has no key comes last.
pub open spec fn precedes(a: Option<u64>, b: Option<u64>) -> bool {
    match (a, b) {
        (Some(a), Some(b)) => a < b,
        (Some(_), None) => true,
        _ => false,
    }
}

fn comes_before(a: Option<u64>, b: Option<u64>) -> (r: bool)
    ensures
        r == precedes(a, b),
{
    match (a, b) {
        (Some(a), Some(b)) => a < b,
        (Some(_), None) => true,
        _ => false,
    }
}

/// Whether `order` lists the positions of the first `n` keys, each of them once.
pub open spec fn lists_all(order: Seq<usize>, n: int) -> bool {
    &&& order.len() == n
    &&& order.no_duplicates()
    &&& forall|i: int| 0 <= i < order.len() ==> #[trigger] order[i] < n
    &&& forall|x: usize| x < n ==> #[trigger] order.contains(x)
}

/// Whether the key at `a` goes before that at `b`: it comes before it, or they are equal and `a` is
/// the earlier position.
pub open spec fn goes_before(keys: Seq<Option<u64>>, a: usize, b: usize) -> bool {
    precedes(keys[a as int], keys[b as int]) || (!precedes(keys[b as int], keys[a as int]) && a < b)
}

/// Whether the positions in `order` are sorted by their keys, equal keys by their positions.
pub open spec fn is_sorted(keys: Seq<Option<u64>>, order: Seq<usize>) -> bool {
    forall|i: int, j: int|
        #![trigger order[i], order[j]]
        0 <= i < j < order.len() ==> goes_before(keys, order[i], order[j])
}

/// Whether `order` lists the positions from `lo` to `hi`, each of them once, sorted by their keys.
spec fn sorts(keys: Seq<Option<u64>>, order: Seq<usize>, lo: int, hi: int) -> bool {
    &&& order.len() == hi - lo
    &&& is_sorted(keys, order)
    &&& forall|i: int| 0 <= i < order.len() ==> lo <= #[trigger] order[i] < hi
    &&& forall|x: usize| lo <= x < hi ==> #[trigger] order.contains(x)
}

/// Whether every position in `done` goes before those in `order` from `from` on.
spec fn all_before(
    keys: Seq<Option<u64>>,
    done: Seq<usize>,
    order: Seq<usize>,
    from: int,
) -> bool {
    forall|i: int, j: int|
        #![trigger done[i], order[j]]
        0 <= i < done.len() && from <= j < order.len() ==> goes_before(keys, done[i], order[j])
}

proof fn taken_goes_before(
    keys: Seq<Option<u64>>,
    left: Seq<usize>,
    right: Seq<usize>,
    i: int,
    j: int,
    from_right: bool,
)
    requires
        is_sorted(keys, left),
        is_sorted(keys, right),
        0 <= i <= left.len(),
        0 <= j <= right.len(),
        from_right ==> j < right.len() && (i < left.len() ==> precedes(
            keys[right[j] as int],
            keys[left[i] as int],
        )),
        !from_right ==> i < left.len() && (j < right.len() ==> !precedes(
            keys[right[j] as int],
            keys[left[i] as int],
        ) && left[i] < right[j]),
    ensures
        from_right ==> all_before(keys, seq![right[j]], left, i) && all_before(
            keys,
            seq![right[j]],
            right,
            j + 1,
        ),
        !from_right ==> all_before(keys, seq![left[i]], left, i + 1) && all_before(
            keys,
            seq![left[i]],
            right,
            j,
        ),
{
    let taken = if from_right {
        right[j]
    } else {
        left[i]
    };
    if i < left.len() {
        assert(goes_before(keys, taken, left[i]) || taken == left[i]);
        assert forall|k: int| i < k < left.len() implies goes_before(
            keys,
            taken,
            #[trigger] left[k],
        ) by {
            assert(goes_before(keys, left[i], left[k]));
        }
    }
    if j < right.len() {
        assert(goes_before(keys, taken, right[j]) || taken == right[j]);
        assert forall|k: int| j < k < right.len() implies goes_before(
            keys,
            taken,
            #[trigger] right[k],
        ) by {
            assert(goes_before(keys, right[j], right[k]));
        }
    }
}

/// The positions from `lo` to `hi`, sorted by their keys: each half is sorted, and the halves are
/// merged.
fn sorted_range(keys: &Vec<Option<u64>>, lo: usize, hi: usize) -> (order: Vec<usize>)
    requires
        lo <= hi <= keys@.len(),
    ensures
        sorts(keys@, order@, lo as int, hi as int),
    decreases hi - lo,
{
    let mut order: Vec<usize> = Vec::new();
    if hi - lo <= 1 {
        if lo < hi {
            order.push(lo);
            assert(order@[0] == lo);
        }
        return order;
    }
    let mid: usize = lo + (hi - lo) / 2;
    let left: Vec<usize> = sorted_range(keys, lo, mid);
    let right: Vec<usize> = sorted_range(keys, mid, hi);
    let mut i: usize = 0;
    let mut j: usize = 0;
    while i < left.len() || j < right.len()
        invariant
            lo <= mid <= hi <= keys@.len(),
            sorts(keys@, left@, lo as int, mid as int),
            sorts(keys@, right@, mid as int, hi as int),
            i <= left@.len(),
            j <= right@.len(),
            order@.len() == i + j,
            is_sorted(keys@, order@),
            all_before(keys@, order@, left@, i as int),
            all_before(keys@, order@, right@, j as int),
            forall|k: int| 0 <= k < order@.len() ==> lo <= #[trigger] order@[k] < hi,
            forall|k: int| 0 <= k < i ==> order@.contains(#[trigger] left@[k]),
            forall|k: int| 0 <= k < j ==> order@.contains(#[trigger] right@[k]),
        decreases left@.len() - i + right@.len() - j,
    {
        let ghost before = order@;
        assert(i < left@.len() ==> lo <= left@[i as int] < mid);
        assert(j < right@.len() ==> mid <= right@[j as int] < hi);
        let from_right: bool = i == left.len() || (j < right.len() && comes_before(
            keys[right[j]],
            keys[left[i]],
        ));
        let next: usize = if from_right {
            right[j]
        } else {
            left[i]
        };
        order.push(next);
        proof {
            taken_goes_before(keys@, left@, right@, i as int, j as int, from_right);
            assert(seq![next][0] == next);
            assert(order@ =~= before.push(next));
            assert(order@[i + j] == next);
            assert forall|x: usize| before.contains(x) implies #[trigger] order@.contains(x) by {
                let k = choose|k: int| 0 <= k < before.len() && before[k] == x;
                assert(order@[k] == x);
            }
        }
        if from_right {
            j = j + 1;
        } else {
            i = i + 1;
        }
    }
    proof {
        assert forall|x: usize| lo <= x < hi implies #[trigger] order@.contains(x) by {
            if x < mid {
                assert(left@.contains(x));
            } else {
                assert(right@.contains(x));
            }
        }
    }
    order
}

/// The positions of some keys, sorted by them. Equal keys stay in their order, and what has no
/// key comes last.
pub fn sorted_positions(keys: &Vec<Option<u64>>) -> (order: Vec<usize>)
    ensures
        lists_all(order@, keys@.len() as int),
        is_sorted(keys@, order@),
{
    let order: Vec<usize> = sorted_range(keys, 0, keys.len());
    assert forall|i: int, j: int|
        0 <= i < order@.len() && 0 <= j < order@.len() && i != j implies order@[i] != order@[j] by {
        if i < j {
            assert(goes_before(keys@, order@[i], order@[j]));
        } else {
            assert(goes_before(keys@, order@[j], order@[i]));
        }
    }
    order
}

/// The stations in another order.
pub open spec fn arranged(stations: Seq<StationView>, order: Seq<usize>) -> Seq<StationView> {
    Seq::new(order.len(), |i: int| stations[order[i] as int])
}

/// Sorts stations by their keys. Stations without a key come last.
pub fn sort_by_keys(stations: Vec<Station>, keys: &Vec<Option<u64>>) -> (r: Vec<Station>)
    requires
        keys@.len() == stations@.len(),
    ensures
        exists|order: Seq<usize>|
            #![trigger arranged(stations.deep_view(), order)]
            lists_all(order, keys@.len() as int) && is_sorted(keys@, order) && r.deep_view()
                == arranged(stations.deep_view(), order),
{
    let order: Vec<usize> = sorted_positions(keys);
    let mut r: Vec<Station> = Vec::new();
    let ghost all = stations.deep_view();
    for i in 0..order.len()
        invariant
            all == stations.deep_view(),
            keys@.len() == stations@.len(),
            lists_all(order@, keys@.len() as int),
            r.deep_view() =~= arranged(all, order@).take(i as int),
    {
        let ghost before = r.deep_view();
        assert(order@[i as int] < stations@.len());
        let station: Station = stations[order[i]].clone();
        r.push(station);
        assert(r.deep_view() =~= before.push(station.deep_view()));
    }
    assert(r.deep_view() =~= arranged(all, order@));
    r
}

impl Sort {
    /// What the key of a station is computed from, if it has one.
    pub fn measure(&self, station: &Station) -> (r: Option<Measure>)
        ensures
            r.deep_view() == measure_of(*self, station.deep_view()),
            *self is Unsorted ==> r is None,
            *self matches Sort::Price(fuel) ==> {
                let prices = station.prices.spec_get(fuel);
                match r {
                    None => prices@.len() == 0,
                    Some(Measure::Price(price)) => exists|i: int|
                        #![trigger prices@[i]]
                        0 <= i < prices@.len() && price.text@ == prices@[i].price.text@ && forall|
                            j: int,
                        |
                            #![trigger prices@[j]]
                            0 <= j < prices@.len() ==> !time::latest(
                                prices@[j].updated_at,
                            ).is_after(time::latest(prices@[i].updated_at)),
                    Some(Measure::Place(_)) => false,
                }
            },
            *self is Distance ==> (match r {
                None => station.location.coordinates is None,
                Some(Measure::Place(c)) => station.location.coordinates is Some && c.latitude.text@
                    == station.location.coordinates->Some_0.latitude.text@ && c.longitude.text@
                    == station.location.coordinates->Some_0.longitude.text@,
                Some(Measure::Price(_)) => false,
            }),
    {
        match self {
            Sort::Unsorted => None,
            Sort::Price(fuel) => {
                let prices: &Vec<Price> = station.prices.get(*fuel);
                assert(prices.deep_view() == station.deep_view().prices.spec_get(*fuel));
                assert forall|i: int, j: int|
                    #![trigger prices@[i], prices@[j]]
                    is_latest(prices.deep_view(), i) && 0 <= j < prices@.len()
                        implies !time::latest(prices@[j].updated_at).is_after(
                    time::latest(prices@[i].updated_at),
                ) by {
                    assert(prices.deep_view()[i] == prices@[i].deep_view());
                    assert(prices.deep_view()[j] == prices@[j].deep_view());
                }
                match latest_price(prices) {
                    None => None,
                    Some(price) => {
                        proof {
                            let i = choose|i: int|
                                #![trigger prices@[i]]
                                is_latest(prices.deep_view(), i) && *price == prices@[i];
                            assert(prices.deep_view()[i] == prices@[i].deep_view());
                            latest_is_unique(
                                prices.deep_view(),
                                i,
                                latest_index(prices.deep_view()),
                            );
                        }
                        Some(Measure::Price(price.price.clone()))
                    },
                }
            },
            Sort::Distance { .. } => match &station.location.coordinates {
                None => None,
                Some(c) => Some(Measure::Place(c.clone())),
            },
        }
    }

    /// Sorts stations by their keys, which are computed from what [Sort::measure] gives. Stations
    /// without a key come last.
    pub fn sort(&self, stations: Vec<Station>, keys: &Vec<Option<u64>>) -> (r: Vec<Station>)
        requires
            keys@.len() == stations@.len(),
            forall|i: int|
                #![trigger keys@[i]]
                0 <= i < keys@.len() ==> (keys@[i] is Some <==> measure_of(
                    *self,
                    stations.deep_view()[i],
                ) is Some),
        ensures
            *self is Unsorted ==> r.deep_view() == stations.deep_view(),
            !(*self is Unsorted) ==> exists|order: Seq<usize>|
                #![trigger arranged(stations.deep_view(), order)]
                lists_all(order, keys@.len() as int) && is_sorted(keys@, order) && r.deep_view()
                    == arranged(stations.deep_view(), order),
            forall|i: int, j: int|
                0 <= i < j < r@.len() && measure_of(*self, #[trigger] r.deep_view()[j]) is Some
                    ==> measure_of(*self, #[trigger] r.deep_view()[i]) is Some,
    {
        match self {
            Sort::Unsorted => stations,
            _ => {
                let r: Vec<Station> = sort_by_keys(stations, keys);
                proof {
                    let all = stations.deep_view();
                    let order = choose|order: Seq<usize>|
                        #![trigger arranged(all, order)]
                        lists_all(order, keys@.len() as int) && is_sorted(keys@, order)
                            && r.deep_view() == arranged(all, order);
                    assert(r.deep_view().len() == r@.len());
                    assert forall|i: int, j: int|
                        0 <= i < j < r@.len() && measure_of(
                            *self,
                            #[trigger] r.deep_view()[j],
                        ) is Some implies measure_of(*self, #[trigger] r.deep_view()[i]) is Some by {
                        sorting_puts_known_keys_first(keys@, order, i, j);
                        assert(order[i] < keys@.len() && order[j] < keys@.len());
                        assert(keys@[order[i] as int] is Some <==> measure_of(
                            *self,
                            all[order[i] as int],
                        ) is Some);
                        assert(keys@[order[j] as int] is Some <==> measure_of(
                            *self,
                            all[order[j] as int],
                        ) is Some);
                    }
                }
                r
            },
        }
    }
}

/// Sorting keeps every station, each as often as it was there.
pub proof fn sorting_keeps_stations(stations: Seq<StationView>, order: Seq<usize>)
    requires
        stations.len() <= usize::MAX,
        lists_all(order, stations.len() as int),
    ensures
        arranged(stations, order).to_multiset() == stations.to_multiset(),
    decreases stations.len(),
{
    let n = stations.len() as int;
    let out = arranged(stations, order);
    if n == 0 {
        assert(out =~= stations);
    } else {
        let last = (n - 1) as usize;
        assert(order.contains(last));
        let p = choose|p: int| 0 <= p < order.len() && order[p] == last;
        let rest = order.remove(p);
        assert(lists_all(rest, n - 1)) by {
            assert forall|x: usize| x < n - 1 implies #[trigger] rest.contains(x) by {
                assert(order.contains(x));
                let i = choose|i: int| 0 <= i < order.len() && order[i] == x;
                if i < p {
                    assert(rest[i] == x);
                } else {
                    assert(rest[i - 1] == x);
                }
            }
            assert forall|i: int| 0 <= i < rest.len() implies #[trigger] rest[i] < n - 1 by {
                let j = if i < p {
                    i
                } else {
                    i + 1
                };
                assert(rest[i] == order[j]);
                assert(order[j] != order[p]);
            }
            assert forall|i: int, j: int|
                0 <= i < rest.len() && 0 <= j < rest.len() && i != j implies rest[i] != rest[j] by {
                let a = if i < p {
                    i
                } else {
                    i + 1
                };
                let b = if j < p {
                    j
                } else {
                    j + 1
                };
                assert(order[a] != order[b]);
            }
        }
        let front = stations.drop_last();
        sorting_keeps_stations(front, rest);
        assert(out.remove(p) =~= arranged(front, rest)) by {
            assert forall|i: int| 0 <= i < n - 1 implies out.remove(p)[i] == arranged(
                front,
                rest,
            )[i] by {
                assert(rest[i] < n - 1);
            }
        }
        vstd::seq_lib::to_multiset_remove(out, p);
        vstd::seq_lib::to_multiset_build(front, stations.last());
        assert(front.push(stations.last()) =~= stations);
        assert(out[p] == stations.last());
        vstd::seq_lib::to_multiset_contains(out, out[p]);
        assert(out.to_multiset() =~= out.to_multiset().remove(out[p]).insert(out[p]));
    }
}

/// The first station after sorting has a key, unless none has one, and no key comes before that of
/// an earlier station.
pub proof fn sorting_puts_known_keys_first(keys: Seq<Option<u64>>, order: Seq<usize>, i: int, j: int)
    requires
        lists_all(order, keys.len() as int),
        is_sorted(keys, order),
        0 <= i < j < order.len(),
    ensures
        keys[order[j] as int] is Some ==> keys[order[i] as int] is Some,
        keys[order[j] as int] is Some ==> keys[order[i] as int]->Some_0 <= keys[order[j] as int]->Some_0,
        keys[order[i] as int] == keys[order[j] as int] ==> order[i] < order[j],
{
    assert(order[i] < keys.len() && order[j] < keys.len());
}

/// A station is sorted by the price of its latest entry for the fuel: no other entry of that fuel
/// is later, and of those that are equally late it is the last that is listed. Without an entry it
/// has no key.
pub proof fn the_latest_price_counts(fuel: Fuel, station: StationView)
    ensures
        ({
            let prices = station.prices.spec_get(fuel);
            match measure_of(Sort::Price(fuel), station) {
                None => prices.len() == 0,
                Some(MeasureView::Price(price)) => exists|i: int|
                    #![trigger prices[i]]
                    0 <= i < prices.len() && price == prices[i].price && (forall|j: int|
                        #![trigger prices[j]]
                        0 <= j < prices.len() ==> !time::latest(prices[j].updated_at).is_after(
                            time::latest(prices[i].updated_at),
                        )) && forall|j: int|
                        #![trigger prices[j]]
                        i < j < prices.len() ==> time::latest(prices[i].updated_at).is_after(
                            time::latest(prices[j].updated_at),
                        ),
                Some(MeasureView::Place(_)) => false,
            }
        }),
{
    let prices = station.prices.spec_get(fuel);
    if prices.len() > 0 {
        some_price_is_latest(prices);
        let i = latest_index(prices);
        assert(is_latest(prices, i));
        assert(prices[i] == prices[i]);
    }
}

proof fn some_price_is_latest(prices: Seq<PriceView>)
    requires
        prices.len() > 0,
    ensures
        exists|i: int| is_latest(prices, i),
    decreases prices.len(),
{
    let n = prices.len() - 1;
    if n == 0 {
        assert(is_latest(prices, 0));
    } else {
        let front = prices.drop_last();
        some_price_is_latest(front);
        let i = choose|i: int| is_latest(front, i);
        assert(forall|j: int| 0 <= j < n ==> front[j] == prices[j]);
        if time::latest(prices[i].updated_at).is_after(time::latest(prices[n].updated_at)) {
            assert(is_latest(prices, i)) by {
                assert forall|j: int|
                    #![trigger prices[j]]
                    i < j < prices.len() implies time::latest(prices[i].updated_at).is_after(
                    time::latest(prices[j].updated_at),
                ) by {
                    if j < n {
                        assert(front[j] == prices[j]);
                    }
                }
                assert forall|j: int|
                    #![trigger prices[j]]
                    0 <= j < i implies !time::latest(prices[j].updated_at).is_after(
                    time::latest(prices[i].updated_at),
                ) by {
                    assert(front[j] == prices[j]);
                }
            }
        } else {
            assert(is_latest(prices, n)) by {
                assert forall|j: int|
                    #![trigger prices[j]]
                    0 <= j < n implies !time::latest(prices[j].updated_at).is_after(
                    time::latest(prices[n].updated_at),
                ) by {
                    assert(front[j] == prices[j]);
                }
            }
        }
    }
}

/// A station that gets a later price of the fuel is sorted by that price, whatever prices it had
/// before, and an older one changes nothing.
pub proof fn new_prices_replace_old_ones(
    fuel: Fuel,
    before: StationView,
    after: StationView,
    price: PriceView,
)
    requires
        after.prices.spec_get(fuel) == before.prices.spec_get(fuel).push(price),
    ensures
        (forall|i: int|
            #![trigger before.prices.spec_get(fuel)[i]]
            0 <= i < before.prices.spec_get(fuel).len() ==> time::latest(
                price.updated_at,
            ).is_after(time::latest(before.prices.spec_get(fuel)[i].updated_at))) ==> measure_of(
            Sort::Price(fuel),
            after,
        ) == Some(MeasureView::Price(price.price)),
        (exists|i: int|
            #![trigger before.prices.spec_get(fuel)[i]]
            0 <= i < before.prices.spec_get(fuel).len() && time::latest(
                before.prices.spec_get(fuel)[i].updated_at,
            ).is_after(time::latest(price.updated_at))) ==> measure_of(Sort::Price(fuel), after)
            == measure_of(Sort::Price(fuel), before),
{
    let old_prices = before.prices.spec_get(fuel);
    let prices = after.prices.spec_get(fuel);
    let n = old_prices.len() as int;
    some_price_is_latest(prices);
    let i = latest_index(prices);
    assert(is_latest(prices, i));
    assert(prices[n] == price);
    assert(forall|j: int| 0 <= j < n ==> prices[j] == old_prices[j]);
    if forall|j: int|
        #![trigger old_prices[j]]
        0 <= j < n ==> time::latest(price.updated_at).is_after(
            time::latest(old_prices[j].updated_at),
        ) {
        if i < n {
            assert(time::latest(price.updated_at).is_after(time::latest(old_prices[i].updated_at)));
        }
    }
    if exists|j: int|
        #![trigger old_prices[j]]
        0 <= j < n && time::latest(old_prices[j].updated_at).is_after(
            time::latest(price.updated_at),
        ) {
        let j = choose|j: int|
            #![trigger old_prices[j]]
            0 <= j < n && time::latest(old_prices[j].updated_at).is_after(
                time::latest(price.updated_at),
            );
        assert(prices[j] == old_prices[j]);
        assert(i < n);
        assert(is_latest(old_prices, i)) by {
            assert forall|k: int|
                #![trigger old_prices[k]]
                i < k < n implies time::latest(old_prices[i].updated_at).is_after(
                time::latest(old_prices[k].updated_at),
            ) by {
                assert(prices[k] == old_prices[k]);
            }
            assert forall|k: int|
                #![trigger old_prices[k]]
                0 <= k < i implies !time::latest(old_prices[k].updated_at).is_after(
                time::latest(old_prices[i].updated_at),
            ) by {
                assert(prices[k] == old_prices[k]);
            }
        }
        latest_is_unique(old_prices, i, latest_index(old_prices));
    }
}

/// By distance a station is sorted by its own coordinates, and without them it has no key. Without
/// a criterion no station has one.
pub proof fn distances_are_measured_from_the_station(sort: Sort, station: StationView)
    ensures
        sort is Unsorted ==> measure_of(sort, station) is None,
        sort is Distance && station.location.coordinates is None ==> measure_of(sort, station)
            is None,
        sort is Distance && station.location.coordinates is Some ==> (measure_of(
            sort,
            station,
        ) matches Some(MeasureView::Place(place)) && place.latitude
            == station.location.coordinates->Some_0.latitude && place.longitude
            == station.location.coordinates->Some_0.longitude),
{
}

/// Smaller keys come first, and what has no key comes after all that have one.
pub proof fn smaller_keys_come_first(a: u64, b: u64)
    ensures
        precedes(Some(a), Some(b)) <==> a < b,
        precedes(Some(a), None),
        !precedes(None, Some(b)),
        !precedes(None, None),
{
}

/// After sorting, a station stands before another one exactly when its key is smaller, or when the
/// keys are equal and it stood before it.
pub proof fn stations_are_in_the_order_of_their_keys(
    stations: Seq<StationView>,
    keys: Seq<Option<u64>>,
    order: Seq<usize>,
    i: int,
    j: int,
)
    requires
        keys.len() == stations.len(),
        lists_all(order, keys.len() as int),
        is_sorted(keys, order),
        0 <= i < j < order.len(),
    ensures
        arranged(stations, order).len() == stations.len(),
        arranged(stations, order)[i] == stations[order[i] as int],
        arranged(stations, order)[j] == stations[order[j] as int],
        keys[order[j] as int] matches Some(b) ==> (keys[order[i] as int] matches Some(a) && (a < b
            || (a == b && order[i] < order[j]))),
        keys[order[i] as int] is None ==> keys[order[j] as int] is None && order[i] < order[j],
{
    assert(order[i] < keys.len() && order[j] < keys.len());
}

/// Views show what a station is measured by.
pub proof fn views_show_measures(measure: Measure)
    ensures
        measure matches Measure::Price(price) ==> measure.deep_view() == MeasureView::Price(
            price.text@,
        ),
        measure matches Measure::Place(place) ==> (measure.deep_view() matches MeasureView::Place(
            seen,
        ) && seen.latitude == place.latitude.text@ && seen.longitude == place.longitude.text@),
{
}

} // verus!
