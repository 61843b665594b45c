//! What the user chose, on the command line and in the configuration.

use vstd::prelude::*;

use crate::model::Fuel;
use crate::place::Location;
#[allow(unused_imports)]
use crate::place::LocationView;
use crate::text;
use crate::time::Lapse;

verus! {

/// The port that the server listens on where none is configured.
pub fn port_default() -> (port: u16)
    ensures
        port == 3000,
{
    3000
}

/// What a switch is set to where it is not configured.
pub fn mk_true() -> (b: bool)
    ensures
        b,
{
    true
}

/// How prices are shown. Without fuels, the prices of all of them are.
#[derive(Debug)]
pub struct DisplayConfig {
    pub dates: bool,
    pub fuels: Vec<Fuel>,
}

impl Default for DisplayConfig {
    fn default() -> (c: Self)
        ensures
            c.dates,
            c.fuels@ == Seq::<Fuel>::empty(),
    {
        DisplayConfig { dates: true, fuels: Vec::new() }
    }
}

/// The fuel that an argument of the command line names.
pub open spec fn fuel_argument_of(v: Seq<char>) -> Option<Fuel> {
    if v == "diesel"@ {
        Some(Fuel::Diesel)
    } else if v == "95"@ {
        Some(Fuel::Gasoline95Octane)
    } else if v == "98"@ {
        Some(Fuel::Gasoline98Octane)
    } else if v == "E10"@ {
        Some(Fuel::GasolineE10)
    } else if v == "LPG"@ {
        Some(Fuel::LPG)
    } else if v == "E85"@ {
        Some(Fuel::GasolineE85)
    } else {
        None
    }
}

/// Reads the name of a fuel on the command line.
pub fn fuel_argument(v: &str) -> (r: Option<Fuel>)
    ensures
        r == fuel_argument_of(v@),
{
    if text::same(v, "diesel") {
        Some(Fuel::Diesel)
    } else if text::same(v, "95") {
        Some(Fuel::Gasoline95Octane)
    } else if text::same(v, "98") {
        Some(Fuel::Gasoline98Octane)
    } else if text::same(v, "E10") {
        Some(Fuel::GasolineE10)
    } else if text::same(v, "LPG") {
        Some(Fuel::LPG)
    } else if text::same(v, "E85") {
        Some(Fuel::GasolineE85)
    } else {
        None
    }
}

/// What a fuel is called on the command line.
pub open spec fn fuel_label_of(fuel: Fuel) -> Seq<char> {
    match fuel {
        Fuel::Diesel => "diesel"@,
        Fuel::Gasoline95Octane => "95"@,
        Fuel::Gasoline98Octane => "98"@,
        Fuel::GasolineE10 => "E10"@,
        Fuel::LPG => "LPG"@,
        Fuel::GasolineE85 => "E85"@,
    }
}

/// Names a fuel as it is called on the command line.
pub fn fuel_label(fuel: Fuel) -> (s: &'static str)
    ensures
        s@ == fuel_label_of(fuel),
{
    match fuel {
        Fuel::Diesel => "diesel",
        Fuel::Gasoline95Octane => "95",
        Fuel::Gasoline98Octane => "98",
        Fuel::GasolineE10 => "E10",
        Fuel::LPG => "LPG",
        Fuel::GasolineE85 => "E85",
    }
}

/// A fuel is read back from what it is called.
pub proof fn labels_are_read_back(fuel: Fuel)
    ensures
        fuel_argument_of(fuel_label_of(fuel)) == Some(fuel),
{
    reveal_strlit("diesel");
    reveal_strlit("95");
    reveal_strlit("98");
    reveal_strlit("E10");
    reveal_strlit("LPG");
    reveal_strlit("E85");
    assert("diesel"@.len() == 6 && "95"@.len() == 2 && "98"@.len() == 2);
    assert("E10"@.len() == 3 && "LPG"@.len() == 3 && "E85"@.len() == 3);
    assert("95"@[1] != "98"@[1]);
    assert("E10"@[0] != "LPG"@[0] && "E85"@[0] != "LPG"@[0]);
    assert("E10"@[1] != "E85"@[1]);
}

/// The first of two choices that was made.
pub open spec fn first_choice<T>(a: Option<T>, b: Option<T>) -> Option<T> {
    match a {
        Some(_) => a,
        None => b,
    }
}

/// The server of stations: the one of the command line, or else the configured one.
pub fn server_url(argument: Option<String>, configured: Option<String>) -> (r: Option<String>)
    ensures
        r == first_choice(argument, configured),
{
    match argument {
        Some(url) => Some(url),
        None => configured,
    }
}

/// The nominatim server: the configured one, or else the one of the command line.
pub fn nominatim_url(argument: Option<String>, configured: Option<String>) -> (r: Option<String>)
    ensures
        r == first_choice(configured, argument),
{
    match configured {
        Some(url) => Some(url),
        None => argument,
    }
}

/// The place to search near: the one of the command line, or else the configured one.
pub fn near_place(argument: Option<Location>, configured: Option<Location>) -> (r: Option<Location>)
    ensures
        r == first_choice(argument, configured),
{
    match argument {
        Some(place) => Some(place),
        None => configured,
    }
}

/// How many seconds places are remembered where nothing else is configured: 30 days.
pub const DEFAULT_CACHE_DURATION: u64 = 2_592_000;

/// How long places are remembered: as configured, or else for 30 days.
pub fn cache_duration(configured: Option<Lapse>) -> (r: Lapse)
    ensures
        r == (match configured {
            Some(duration) => duration,
            None => Lapse { seconds: (30int * 24 * 60 * 60) as u64, nanos: 0 },
        }),
{
    match configured {
        Some(duration) => duration,
        None => Lapse { seconds: DEFAULT_CACHE_DURATION, nanos: 0 },
    }
}

/// What the user asks stations to be sorted by.
#[derive(Debug, Clone, Copy, PartialEq, Eq, Structural)]
pub enum SortCriteria {
    Price,
    Distance,
}

/// What stations are to be sorted by.
#[derive(Debug)]
pub enum SortChoice {
    Unsorted,
    /// The distance from a place, whose coordinates may have to be looked up
    Distance(Location),
    Price(Fuel),
}

/// Why stations cannot be sorted as the user asks.
#[derive(Debug, Clone, Copy, PartialEq, Eq, Structural)]
pub enum SortError {
    /// A fuel type must be specified to be able to sort by price
    NoFuel,
    /// Can only sort with distance when a default location is configured
    NoLocation,
}

/// What stations are to be sorted by: by price, of the fuel of the command line or else of the
/// configured one; or by distance, from the configured place.
pub open spec fn sort_choice(
    criteria: Option<SortCriteria>,
    fuel: Option<Fuel>,
    configured_fuel: Option<Fuel>,
    configured_place: Option<Location>,
) -> Result<SortChoice, SortError> {
    match criteria {
        None => Ok(SortChoice::Unsorted),
        Some(SortCriteria::Price) => match first_choice(fuel, configured_fuel) {
            Some(fuel) => Ok(SortChoice::Price(fuel)),
            None => Err(SortError::NoFuel),
        },
        Some(SortCriteria::Distance) => match configured_place {
            Some(place) => Ok(SortChoice::Distance(place)),
            None => Err(SortError::NoLocation),
        },
    }
}

/// Chooses what stations are to be sorted by.
pub fn choose_sort(
    criteria: Option<SortCriteria>,
    fuel: Option<Fuel>,
    configured_fuel: Option<Fuel>,
    configured_place: Option<Location>,
) -> (r: Result<SortChoice, SortError>)
    ensures
        r == sort_choice(criteria, fuel, configured_fuel, configured_place),
{
    match criteria {
        None => Ok(SortChoice::Unsorted),
        Some(SortCriteria::Price) => match fuel {
            Some(fuel) => Ok(SortChoice::Price(fuel)),
            None => match configured_fuel {
                Some(fuel) => Ok(SortChoice::Price(fuel)),
                None => Err(SortError::NoFuel),
            },
        },
        Some(SortCriteria::Distance) => match configured_place {
            Some(place) => Ok(SortChoice::Distance(place)),
            None => Err(SortError::NoLocation),
        },
    }
}

/// The first of two choices counts where it was made, and else the second.
pub proof fn choices_are_made_in_turn<T>(a: T, b: Option<T>)
    ensures
        first_choice(Some(a), b) == Some(a),
        first_choice(None, b) == b,
{
}

/// On the command line each fuel has one name, and nothing else names a fuel.
pub proof fn fuels_of_the_command_line(v: Seq<char>)
    ensures
        fuel_argument_of(v) == Some(Fuel::Diesel) <==> v == "diesel"@,
        fuel_argument_of(v) == Some(Fuel::Gasoline95Octane) <==> v == "95"@,
        fuel_argument_of(v) == Some(Fuel::Gasoline98Octane) <==> v == "98"@,
        fuel_argument_of(v) == Some(Fuel::GasolineE10) <==> v == "E10"@,
        fuel_argument_of(v) == Some(Fuel::LPG) <==> v == "LPG"@,
        fuel_argument_of(v) == Some(Fuel::GasolineE85) <==> v == "E85"@,
        forall|fuel: Fuel|
            fuel_argument_of(v) == Some(fuel) ==> v == #[trigger] fuel_label_of(fuel),
{
    labels_are_read_back(Fuel::Diesel);
    labels_are_read_back(Fuel::Gasoline95Octane);
    labels_are_read_back(Fuel::Gasoline98Octane);
    labels_are_read_back(Fuel::GasolineE10);
    labels_are_read_back(Fuel::LPG);
    labels_are_read_back(Fuel::GasolineE85);
}

/// Stations are only sorted where the user asks for it. By price they are sorted by the fuel of the
/// command line, or else the configured one; by distance from the configured place. Where what that
/// needs is missing, the user is told what.
pub proof fn sorting_is_as_the_user_asks(
    criteria: Option<SortCriteria>,
    fuel: Option<Fuel>,
    configured_fuel: Option<Fuel>,
    place: Option<Location>,
)
    ensures
        (match sort_choice(criteria, fuel, configured_fuel, place) {
            Ok(SortChoice::Unsorted) => criteria is None,
            Ok(SortChoice::Price(f)) => criteria == Some(SortCriteria::Price) && (fuel == Some(f) || (
            fuel is None && configured_fuel == Some(f))),
            Ok(SortChoice::Distance(p)) => criteria == Some(SortCriteria::Distance) && place
                == Some(p),
            Err(SortError::NoFuel) => criteria == Some(SortCriteria::Price) && fuel is None
                && configured_fuel is None,
            Err(SortError::NoLocation) => criteria == Some(SortCriteria::Distance) && place is None,
        }),
{
}

} // verus!
