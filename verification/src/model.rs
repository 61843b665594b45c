//! Gas stations, their prices, shortages, closings and opening times.

use vstd::prelude::*;

use crate::error::Error;
#[allow(unused_imports)]
use crate::error::{self, ErrorView};
use crate::number::Real;
use crate::text;
use crate::time::DateTime;

verus! {

/// Represents a time in the day, like 13:30. Works in 24 hours.
#[derive(Debug, Clone, Copy, PartialEq, Eq, Structural)]
pub struct TimeOfDay {
    pub hour: u8,
    pub minute: u8,
}

impl DeepView for TimeOfDay {
    type V = TimeOfDay;

    open spec fn deep_view(&self) -> TimeOfDay {
        *self
    }
}

/// Represents an interval in the day, during which a [Station] is open.
#[derive(Debug, Clone, Copy, PartialEq, Eq, Structural)]
pub struct OpenedHours {
    pub opening: TimeOfDay,
    pub closing: TimeOfDay,
}

impl DeepView for OpenedHours {
    type V = OpenedHours;

    open spec fn deep_view(&self) -> OpenedHours {
        *self
    }
}

/// Represents the status of the [Station] on this particular day.
#[derive(Debug)]
pub enum Hours {
    Closed,
    Open(Vec<OpenedHours>),
}

pub enum HoursView {
    Closed,
    Open(Seq<OpenedHours>),
}

impl DeepView for Hours {
    type V = HoursView;

    open spec fn deep_view(&self) -> HoursView {
        match *self {
            Hours::Closed => HoursView::Closed,
            Hours::Open(v) => HoursView::Open(v.deep_view()),
        }
    }
}

impl Clone for Hours {
    fn clone(&self) -> (r: Self)
        ensures
            r.deep_view() == self.deep_view(),
    {
        match self {
            Hours::Closed => Hours::Closed,
            Hours::Open(v) => {
                let w: Vec<OpenedHours> = v.clone();
                assert(w.deep_view() =~= v.deep_view());
                Hours::Open(w)
            },
        }
    }
}

/// Represents the opening times of the [Station] during the week.
#[derive(Debug)]
pub struct Schedule {
    /// Does the station have an automated booth for 24/24 service
    pub automatic: bool,
    /// The manned booth openings for the week (starting on Monday)
    pub days: [Hours; 7],
}

pub struct ScheduleView {
    pub automatic: bool,
    pub days: Seq<HoursView>,
}

impl DeepView for Schedule {
    type V = ScheduleView;

    open spec fn deep_view(&self) -> ScheduleView {
        ScheduleView {
            automatic: self.automatic,
            days: Seq::new(7, |i: int| self.days@[i].deep_view()),
        }
    }
}

impl Clone for Schedule {
    fn clone(&self) -> (r: Self)
        ensures
            r.deep_view() == self.deep_view(),
    {
        let days: [Hours; 7] = [
            self.days[0].clone(),
            self.days[1].clone(),
            self.days[2].clone(),
            self.days[3].clone(),
            self.days[4].clone(),
            self.days[5].clone(),
            self.days[6].clone(),
        ];
        let r = Schedule { automatic: self.automatic, days };
        assert(r.deep_view().days =~= self.deep_view().days);
        r
    }
}

/// Kinds of fuels available in the [Station]
#[derive(Debug, Clone, Copy, PartialEq, Eq, Structural)]
pub enum Fuel {
    Diesel,
    Gasoline95Octane,
    Gasoline98Octane,
    GasolineE10,
    LPG,
    GasolineE85,
}

impl DeepView for Fuel {
    type V = Fuel;

    open spec fn deep_view(&self) -> Fuel {
        *self
    }
}

/// What the feeds call a fuel.
pub open spec fn fuel_name(fuel: Fuel) -> Seq<char> {
    match fuel {
        Fuel::Diesel => "Gazole"@,
        Fuel::Gasoline95Octane => "SP95"@,
        Fuel::Gasoline98Octane => "SP98"@,
        Fuel::GasolineE10 => "E10"@,
        Fuel::LPG => "GPLc"@,
        Fuel::GasolineE85 => "E85"@,
    }
}

/// The fuel that the feeds call `name`, when there is one.
pub open spec fn fuel_called(name: Seq<char>) -> Option<Fuel> {
    if name == fuel_name(Fuel::Diesel) {
        Some(Fuel::Diesel)
    } else if name == fuel_name(Fuel::Gasoline95Octane) {
        Some(Fuel::Gasoline95Octane)
    } else if name == fuel_name(Fuel::Gasoline98Octane) {
        Some(Fuel::Gasoline98Octane)
    } else if name == fuel_name(Fuel::LPG) {
        Some(Fuel::LPG)
    } else if name == fuel_name(Fuel::GasolineE10) {
        Some(Fuel::GasolineE10)
    } else if name == fuel_name(Fuel::GasolineE85) {
        Some(Fuel::GasolineE85)
    } else {
        None
    }
}

/// Every fuel is found under its own name, and a name that finds a fuel is that fuel's.
pub proof fn fuel_names_are_distinct(fuel: Fuel, name: Seq<char>)
    ensures
        fuel_called(fuel_name(fuel)) == Some(fuel),
        fuel_called(name) == Some(fuel) ==> name == fuel_name(fuel),
{
    reveal_strlit("Gazole");
    reveal_strlit("SP95");
    reveal_strlit("SP98");
    reveal_strlit("E10");
    reveal_strlit("GPLc");
    reveal_strlit("E85");
    assert("Gazole"@.len() == 6);
    assert("SP95"@.len() == 4 && "SP98"@.len() == 4 && "GPLc"@.len() == 4);
    assert("E10"@.len() == 3 && "E85"@.len() == 3);
    assert("SP95"@[3] != "SP98"@[3]);
    assert("SP95"@[0] != "GPLc"@[0]);
    assert("SP98"@[0] != "GPLc"@[0]);
    assert("E10"@[1] != "E85"@[1]);
}

pub open spec fn parsed_fuel(v: Seq<char>, path: Seq<char>) -> Result<Fuel, ErrorView> {
    match fuel_called(v) {
        Some(fuel) => Ok(fuel),
        None => Err(ErrorView::UnknownFuelType { path, fuel: v }),
    }
}

impl Fuel {
    /// The fuel that a name of the feeds stands for.
    pub fn parse(v: &str, path: &str) -> (r: Result<Fuel, Error>)
        ensures
            error::seen(r) == parsed_fuel(v@, path@),
    {
        if text::same(v, "Gazole") {
            Ok(Fuel::Diesel)
        } else if text::same(v, "SP95") {
            Ok(Fuel::Gasoline95Octane)
        } else if text::same(v, "SP98") {
            Ok(Fuel::Gasoline98Octane)
        } else if text::same(v, "GPLc") {
            Ok(Fuel::LPG)
        } else if text::same(v, "E10") {
            Ok(Fuel::GasolineE10)
        } else if text::same(v, "E85") {
            Ok(Fuel::GasolineE85)
        } else {
            Err(Error::UnknownFuelType { path: path.to_owned(), fuel: v.to_owned() })
        }
    }
}

/// One value for each fuel.
#[derive(Debug, Clone)]
pub struct PerFuel<T> {
    pub diesel: T,
    pub gasoline_95_octane: T,
    pub gasoline_98_octane: T,
    pub gasoline_e10: T,
    pub lpg: T,
    pub gasoline_e85: T,
}

impl<T> PerFuel<T> {
    pub open spec fn spec_get(self, fuel: Fuel) -> T {
        match fuel {
            Fuel::Diesel => self.diesel,
            Fuel::Gasoline95Octane => self.gasoline_95_octane,
            Fuel::Gasoline98Octane => self.gasoline_98_octane,
            Fuel::GasolineE10 => self.gasoline_e10,
            Fuel::LPG => self.lpg,
            Fuel::GasolineE85 => self.gasoline_e85,
        }
    }

    /// The same values but for one fuel.
    pub open spec fn with(self, fuel: Fuel, value: T) -> PerFuel<T> {
        match fuel {
            Fuel::Diesel => PerFuel { diesel: value, ..self },
            Fuel::Gasoline95Octane => PerFuel { gasoline_95_octane: value, ..self },
            Fuel::Gasoline98Octane => PerFuel { gasoline_98_octane: value, ..self },
            Fuel::GasolineE10 => PerFuel { gasoline_e10: value, ..self },
            Fuel::LPG => PerFuel { lpg: value, ..self },
            Fuel::GasolineE85 => PerFuel { gasoline_e85: value, ..self },
        }
    }

    /// The value of a fuel.
    pub fn get(&self, fuel: Fuel) -> (r: &T)
        ensures
            *r == self.spec_get(fuel),
    {
        match fuel {
            Fuel::Diesel => &self.diesel,
            Fuel::Gasoline95Octane => &self.gasoline_95_octane,
            Fuel::Gasoline98Octane => &self.gasoline_98_octane,
            Fuel::GasolineE10 => &self.gasoline_e10,
            Fuel::LPG => &self.lpg,
            Fuel::GasolineE85 => &self.gasoline_e85,
        }
    }
}

impl<T: DeepView> DeepView for PerFuel<T> {
    type V = PerFuel<T::V>;

    open spec fn deep_view(&self) -> PerFuel<T::V> {
        PerFuel {
            diesel: self.diesel.deep_view(),
            gasoline_95_octane: self.gasoline_95_octane.deep_view(),
            gasoline_98_octane: self.gasoline_98_octane.deep_view(),
            gasoline_e10: self.gasoline_e10.deep_view(),
            lpg: self.lpg.deep_view(),
            gasoline_e85: self.gasoline_e85.deep_view(),
        }
    }
}

/// The empty sequence for every fuel.
pub open spec fn none_per_fuel<T>() -> PerFuel<Seq<T>> {
    PerFuel {
        diesel: seq![],
        gasoline_95_octane: seq![],
        gasoline_98_octane: seq![],
        gasoline_e10: seq![],
        lpg: seq![],
        gasoline_e85: seq![],
    }
}

impl<T: DeepView> PerFuel<Vec<T>> {
    /// An empty list for every fuel.
    pub fn empty() -> (r: Self)
        ensures
            r.deep_view() == none_per_fuel::<T::V>(),
    {
        let r = PerFuel {
            diesel: Vec::new(),
            gasoline_95_octane: Vec::new(),
            gasoline_98_octane: Vec::new(),
            gasoline_e10: Vec::new(),
            lpg: Vec::new(),
            gasoline_e85: Vec::new(),
        };
        proof {
            let e = none_per_fuel::<T::V>();
            let v = r.deep_view();
            assert(v.diesel =~= e.diesel);
            assert(v.gasoline_95_octane =~= e.gasoline_95_octane);
            assert(v.gasoline_98_octane =~= e.gasoline_98_octane);
            assert(v.gasoline_e10 =~= e.gasoline_e10);
            assert(v.lpg =~= e.lpg);
            assert(v.gasoline_e85 =~= e.gasoline_e85);
        }
        r
    }

    /// Adds to the list of one fuel.
    pub fn push(&mut self, fuel: Fuel, value: T)
        ensures
            final(self).deep_view() == old(self).deep_view().with(
                fuel,
                old(self).deep_view().spec_get(fuel).push(value.deep_view()),
            ),
    {
        match fuel {
            Fuel::Diesel => {
                self.diesel.push(value);
                assert(self.diesel.deep_view() =~= old(self).diesel.deep_view().push(
                    value.deep_view(),
                ));
            },
            Fuel::Gasoline95Octane => {
                self.gasoline_95_octane.push(value);
                assert(self.gasoline_95_octane.deep_view() =~= old(
                    self,
                ).gasoline_95_octane.deep_view().push(value.deep_view()));
            },
            Fuel::Gasoline98Octane => {
                self.gasoline_98_octane.push(value);
                assert(self.gasoline_98_octane.deep_view() =~= old(
                    self,
                ).gasoline_98_octane.deep_view().push(value.deep_view()));
            },
            Fuel::GasolineE10 => {
                self.gasoline_e10.push(value);
                assert(self.gasoline_e10.deep_view() =~= old(self).gasoline_e10.deep_view().push(
                    value.deep_view(),
                ));
            },
            Fuel::LPG => {
                self.lpg.push(value);
                assert(self.lpg.deep_view() =~= old(self).lpg.deep_view().push(value.deep_view()));
            },
            Fuel::GasolineE85 => {
                self.gasoline_e85.push(value);
                assert(self.gasoline_e85.deep_view() =~= old(self).gasoline_e85.deep_view().push(
                    value.deep_view(),
                ));
            },
        }
    }
}

/// Represent the price of a [Fuel] at a particular point in time
#[derive(Debug)]
pub struct Price {
    pub updated_at: DateTime,
    pub price: Real,
}

pub struct PriceView {
    pub updated_at: DateTime,
    pub price: Seq<char>,
}

impl DeepView for Price {
    type V = PriceView;

    open spec fn deep_view(&self) -> PriceView {
        PriceView { updated_at: self.updated_at, price: self.price@ }
    }
}

impl Clone for Price {
    fn clone(&self) -> (r: Self)
        ensures
            r.deep_view() == self.deep_view(),
    {
        Price { updated_at: self.updated_at, price: self.price.clone() }
    }
}

/// Represent a shortage of a [Fuel] at a particular point in time. Can be ongoing.
#[derive(Debug, Clone, Copy, PartialEq, Eq, Structural)]
pub struct Shortage {
    pub start: DateTime,
    pub end: Option<DateTime>,
}

impl DeepView for Shortage {
    type V = Shortage;

    open spec fn deep_view(&self) -> Shortage {
        *self
    }
}

/// Represent a interval in time in which a [Station] was closed. Can be ongoing.
#[derive(Debug, Clone, Copy, PartialEq, Eq, Structural)]
pub struct Closing {
    pub temporary: bool,
    pub start: DateTime,
    pub end: Option<DateTime>,
}

impl DeepView for Closing {
    type V = Closing;

    open spec fn deep_view(&self) -> Closing {
        *self
    }
}

/// Represents physical coordinates, in `PTV_GEODECIMAL`. To obtain `WGS84` coordinates they must
/// be divided by 100000.
#[derive(Debug)]
pub struct Coordinates {
    pub latitude: Real,
    pub longitude: Real,
}

pub struct CoordinatesView {
    pub latitude: Seq<char>,
    pub longitude: Seq<char>,
}

impl DeepView for Coordinates {
    type V = CoordinatesView;

    open spec fn deep_view(&self) -> CoordinatesView {
        CoordinatesView { latitude: self.latitude@, longitude: self.longitude@ }
    }
}

impl Clone for Coordinates {
    fn clone(&self) -> (r: Self)
        ensures
            r.deep_view() == self.deep_view(),
    {
        Coordinates { latitude: self.latitude.clone(), longitude: self.longitude.clone() }
    }
}

/// Kind of road a [Station] is attached to
#[derive(Debug, Clone, Copy, PartialEq, Eq, Structural)]
pub enum RoadKind {
    Highway,
    Regular,
    Unspecified,
}

impl DeepView for RoadKind {
    type V = RoadKind;

    open spec fn deep_view(&self) -> RoadKind {
        *self
    }
}

/// Physical location of a [Station]
#[derive(Debug)]
pub struct Location {
    pub road: RoadKind,
    pub zip_code: String,
    pub address: String,
    pub city: Option<String>,
    pub coordinates: Option<Coordinates>,
}

pub struct LocationView {
    pub road: RoadKind,
    pub zip_code: Seq<char>,
    pub address: Seq<char>,
    pub city: Option<Seq<char>>,
    pub coordinates: Option<CoordinatesView>,
}

impl DeepView for Location {
    type V = LocationView;

    open spec fn deep_view(&self) -> LocationView {
        LocationView {
            road: self.road,
            zip_code: self.zip_code@,
            address: self.address@,
            city: self.city.deep_view(),
            coordinates: self.coordinates.deep_view(),
        }
    }
}

impl Clone for Location {
    fn clone(&self) -> (r: Self)
        ensures
            r.deep_view() == self.deep_view(),
    {
        Location {
            road: self.road,
            zip_code: self.zip_code.clone(),
            address: self.address.clone(),
            city: self.city.clone(),
            coordinates: self.coordinates.clone(),
        }
    }
}

/// Represents all the information on a single gas station
#[derive(Debug)]
pub struct Station {
    pub id: String,
    pub location: Location,
    pub prices: PerFuel<Vec<Price>>,
    pub shortages: PerFuel<Vec<Shortage>>,
    pub schedule: Option<Schedule>,
    pub services: Vec<String>,
    pub closings: Vec<Closing>,
}

pub struct StationView {
    pub id: Seq<char>,
    pub location: LocationView,
    pub prices: PerFuel<Seq<PriceView>>,
    pub shortages: PerFuel<Seq<Shortage>>,
    pub schedule: Option<ScheduleView>,
    pub services: Seq<Seq<char>>,
    pub closings: Seq<Closing>,
}

impl DeepView for Station {
    type V = StationView;

    open spec fn deep_view(&self) -> StationView {
        StationView {
            id: self.id@,
            location: self.location.deep_view(),
            prices: self.prices.deep_view(),
            shortages: self.shortages.deep_view(),
            schedule: self.schedule.deep_view(),
            services: self.services.deep_view(),
            closings: self.closings.deep_view(),
        }
    }
}

impl Clone for Station {
    fn clone(&self) -> (r: Self)
        ensures
            r.deep_view() == self.deep_view(),
    {
        let services: Vec<String> = self.services.clone();
        let closings: Vec<Closing> = self.closings.clone();
        assert(services.deep_view() =~= self.services.deep_view());
        assert(closings.deep_view() =~= self.closings.deep_view());
        Station {
            id: self.id.clone(),
            location: self.location.clone(),
            prices: copied_prices(&self.prices),
            shortages: copied_shortages(&self.shortages),
            schedule: self.schedule.clone(),
            services,
            closings,
        }
    }
}

fn copied_price_list(v: &Vec<Price>) -> (r: Vec<Price>)
    ensures
        r.deep_view() == v.deep_view(),
{
    let r: Vec<Price> = v.clone();
    assert(r.deep_view() =~= v.deep_view());
    r
}

fn copied_prices(p: &PerFuel<Vec<Price>>) -> (r: PerFuel<Vec<Price>>)
    ensures
        r.deep_view() == p.deep_view(),
{
    PerFuel {
        diesel: copied_price_list(&p.diesel),
        gasoline_95_octane: copied_price_list(&p.gasoline_95_octane),
        gasoline_98_octane: copied_price_list(&p.gasoline_98_octane),
        gasoline_e10: copied_price_list(&p.gasoline_e10),
        lpg: copied_price_list(&p.lpg),
        gasoline_e85: copied_price_list(&p.gasoline_e85),
    }
}

fn copied_shortage_list(v: &Vec<Shortage>) -> (r: Vec<Shortage>)
    ensures
        r.deep_view() == v.deep_view(),
{
    let r: Vec<Shortage> = v.clone();
    assert(r.deep_view() =~= v.deep_view());
    r
}

fn copied_shortages(p: &PerFuel<Vec<Shortage>>) -> (r: PerFuel<Vec<Shortage>>)
    ensures
        r.deep_view() == p.deep_view(),
{
    PerFuel {
        diesel: copied_shortage_list(&p.diesel),
        gasoline_95_octane: copied_shortage_list(&p.gasoline_95_octane),
        gasoline_98_octane: copied_shortage_list(&p.gasoline_98_octane),
        gasoline_e10: copied_shortage_list(&p.gasoline_e10),
        lpg: copied_shortage_list(&p.lpg),
        gasoline_e85: copied_shortage_list(&p.gasoline_e85),
    }
}

/// Copies a list of stations.
pub fn copied_stations(v: &Vec<Station>) -> (r: Vec<Station>)
    ensures
        r.deep_view() == v.deep_view(),
{
    let r: Vec<Station> = v.clone();
    assert(r.deep_view() =~= v.deep_view());
    r
}

/// The feeds call each fuel by one name, and no other text names a fuel: that is then said, and
/// where.
pub proof fn fuels_are_called_by_their_names(v: Seq<char>, path: Seq<char>)
    ensures
        parsed_fuel(v, path) == Ok::<Fuel, ErrorView>(Fuel::Diesel) <==> v == "Gazole"@,
        parsed_fuel(v, path) == Ok::<Fuel, ErrorView>(Fuel::Gasoline95Octane) <==> v == "SP95"@,
        parsed_fuel(v, path) == Ok::<Fuel, ErrorView>(Fuel::Gasoline98Octane) <==> v == "SP98"@,
        parsed_fuel(v, path) == Ok::<Fuel, ErrorView>(Fuel::GasolineE10) <==> v == "E10"@,
        parsed_fuel(v, path) == Ok::<Fuel, ErrorView>(Fuel::LPG) <==> v == "GPLc"@,
        parsed_fuel(v, path) == Ok::<Fuel, ErrorView>(Fuel::GasolineE85) <==> v == "E85"@,
        parsed_fuel(v, path) is Err ==> parsed_fuel(v, path) == Err::<Fuel, ErrorView>(
            ErrorView::UnknownFuelType { path, fuel: v },
        ),
{
    fuel_names_are_distinct(Fuel::Diesel, v);
    fuel_names_are_distinct(Fuel::Gasoline95Octane, v);
    fuel_names_are_distinct(Fuel::Gasoline98Octane, v);
    fuel_names_are_distinct(Fuel::GasolineE10, v);
    fuel_names_are_distinct(Fuel::LPG, v);
    fuel_names_are_distinct(Fuel::GasolineE85, v);
}

/// Every fuel has a value of its own: a change for one fuel is seen there, and leaves those of the
/// others alone.
pub proof fn fuels_are_kept_apart<T>(values: PerFuel<T>, fuel: Fuel, value: T, other: Fuel)
    ensures
        values.with(fuel, value).spec_get(fuel) == value,
        other != fuel ==> values.with(fuel, value).spec_get(other) == values.spec_get(other),
        values.spec_get(Fuel::Diesel) == values.diesel,
        values.spec_get(Fuel::Gasoline95Octane) == values.gasoline_95_octane,
        values.spec_get(Fuel::Gasoline98Octane) == values.gasoline_98_octane,
        values.spec_get(Fuel::GasolineE10) == values.gasoline_e10,
        values.spec_get(Fuel::LPG) == values.lpg,
        values.spec_get(Fuel::GasolineE85) == values.gasoline_e85,
{
}

/// Nothing is listed of any fuel before anything is added, and what the values of the fuels are is
/// seen fuel by fuel.
pub proof fn views_show_every_fuel<T: DeepView>(values: PerFuel<T>, fuel: Fuel)
    ensures
        values.deep_view().spec_get(fuel) == values.spec_get(fuel).deep_view(),
        none_per_fuel::<T::V>().spec_get(fuel).len() == 0,
{
}

/// Views show what there is: of prices, coordinates, days and weeks every part.
pub proof fn views_show_parts(price: Price, place: Coordinates, hours: Hours, schedule: Schedule)
    ensures
        price.deep_view().updated_at == price.updated_at,
        price.deep_view().price == price.price.text@,
        place.deep_view().latitude == place.latitude.text@,
        place.deep_view().longitude == place.longitude.text@,
        hours is Closed <==> hours.deep_view() is Closed,
        hours matches Hours::Open(v) ==> (hours.deep_view() matches HoursView::Open(w) && w.len()
            == v@.len() && forall|i: int| 0 <= i < v@.len() ==> #[trigger] w[i] == v@[i]),
        schedule.deep_view().automatic == schedule.automatic,
        schedule.deep_view().days.len() == 7,
        forall|d: int|
            0 <= d < 7 ==> #[trigger] schedule.deep_view().days[d]
                == schedule.days@[d].deep_view(),
{
}

/// Views show what there is: of a station every part.
pub proof fn views_show_stations(station: Station)
    ensures
        station.deep_view().id == station.id@,
        station.deep_view().location.road == station.location.road,
        station.deep_view().location.zip_code == station.location.zip_code@,
        station.deep_view().location.address == station.location.address@,
        station.deep_view().location.city is Some <==> station.location.city is Some,
        station.location.city is Some ==> station.deep_view().location.city->Some_0
            == station.location.city->Some_0@,
        station.deep_view().location.coordinates is Some <==> station.location.coordinates is Some,
        station.location.coordinates is Some
            ==> station.deep_view().location.coordinates->Some_0.latitude
            == station.location.coordinates->Some_0.latitude.text@
            && station.deep_view().location.coordinates->Some_0.longitude
            == station.location.coordinates->Some_0.longitude.text@,
        station.deep_view().prices == station.prices.deep_view(),
        station.deep_view().shortages == station.shortages.deep_view(),
        station.deep_view().schedule is Some <==> station.schedule is Some,
        station.schedule is Some ==> station.deep_view().schedule->Some_0
            == station.schedule->Some_0.deep_view(),
        station.deep_view().services.len() == station.services@.len(),
        forall|i: int|
            0 <= i < station.services@.len() ==> #[trigger] station.deep_view().services[i]
                == station.services@[i]@,
        station.deep_view().closings.len() == station.closings@.len(),
        forall|i: int|
            0 <= i < station.closings@.len() ==> #[trigger] station.deep_view().closings[i]
                == station.closings@[i],
{
}

/// Views show prices and shortages as they are listed.
pub proof fn views_show_lists(prices: Vec<Price>, shortages: Vec<Shortage>)
    ensures
        prices.deep_view().len() == prices@.len(),
        forall|i: int|
            #![trigger prices.deep_view()[i]]
            0 <= i < prices@.len() ==> prices.deep_view()[i].updated_at == prices@[i].updated_at
                && prices.deep_view()[i].price == prices@[i].price.text@,
        shortages.deep_view().len() == shortages@.len(),
        forall|i: int|
            0 <= i < shortages@.len() ==> #[trigger] shortages.deep_view()[i] == shortages@[i],
{
}

} // verus!
