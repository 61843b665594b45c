//! Reads the stations of a feed from their elements.

use vstd::prelude::*;

use crate::attr;
use crate::error;
use crate::error::Error;
#[allow(unused_imports)]
use crate::error::ErrorView;
use crate::model::{Closing, Coordinates, Fuel, Location, PerFuel, Price, RoadKind, Shortage};
#[allow(unused_imports)]
use crate::model::{
    self, CoordinatesView, LocationView, PriceView, ScheduleView, Schedule, Station, StationView,
};
use crate::number::Real;
#[allow(unused_imports)]
use crate::number;
use crate::schedule;
use crate::text;
use crate::time::{DateFormat, DateTime};
#[allow(unused_imports)]
use crate::time;
use crate::xml::Element;
#[allow(unused_imports)]
use crate::xml::{self, ElementView};

verus! {

/// The fuel and the price of an element `prix`.
pub open spec fn price_of(node: ElementView, path: Seq<char>, format: DateFormat) -> Result<
    (Fuel, PriceView),
    ErrorView,
> {
    match attr::fuel_value(node, "nom"@, path) {
        Err(e) => Err(e),
        Ok(fuel) => match attr::date_value(node, "maj"@, path, format) {
            Err(e) => Err(e),
            Ok(updated_at) => match attr::float_value(node, "valeur"@, path) {
                Err(e) => Err(e),
                Ok(price) => Ok((fuel, PriceView { updated_at, price })),
            },
        },
    }
}

/// Reads a price and the fuel it is for.
pub fn parse_price(node: &Element, path: &str, format: DateFormat) -> (r: Result<
    (Fuel, Price),
    Error,
>)
    ensures
        error::seen(r) == price_of(node@, path@, format),
        r matches Ok((fuel, price)) ==> {
            let nom = xml::attribute_of(node@.attributes, "nom"@);
            let maj = xml::attribute_of(node@.attributes, "maj"@);
            let valeur = xml::attribute_of(node@.attributes, "valeur"@);
            &&& nom == Some(model::fuel_name(fuel))
            &&& maj is Some && time::date_of(maj->Some_0, format, path@) == Ok::<
                DateTime,
                ErrorView,
            >(price.updated_at)
            &&& valeur == Some(price.price.text@)
        },
{
    proof {
        prices_are_what_their_elements_say(node@, path@, format);
    }
    let fuel: Fuel = attr::fuel_attr(node, "nom", path)?;
    let updated_at: DateTime = attr::date_attr(node, "maj", path, format)?;
    let price: Real = attr::float_attr(node, "valeur", path)?;
    Ok((fuel, Price { updated_at, price }))
}

/// The fuel and the shortage of an element `rupture`.
pub open spec fn shortage_of(node: ElementView, path: Seq<char>, format: DateFormat) -> Result<
    (Fuel, Shortage),
    ErrorView,
> {
    match attr::fuel_value(node, "nom"@, path) {
        Err(e) => Err(e),
        Ok(fuel) => match attr::date_value(node, "debut"@, path, format) {
            Err(e) => Err(e),
            Ok(start) => match attr::opt_date_value(node, "fin"@, path, format) {
                Err(e) => Err(e),
                Ok(end) => Ok((fuel, Shortage { start, end })),
            },
        },
    }
}

/// Reads a shortage and the fuel that is short.
pub fn parse_shortage(node: &Element, path: &str, format: DateFormat) -> (r: Result<
    (Fuel, Shortage),
    Error,
>)
    ensures
        error::seen(r) == shortage_of(node@, path@, format),
        r matches Ok((fuel, shortage)) ==> {
            let nom = xml::attribute_of(node@.attributes, "nom"@);
            let debut = xml::attribute_of(node@.attributes, "debut"@);
            let fin = xml::attribute_of(node@.attributes, "fin"@);
            &&& nom == Some(model::fuel_name(fuel))
            &&& debut is Some && time::date_of(debut->Some_0, format, path@) == Ok::<
                DateTime,
                ErrorView,
            >(shortage.start)
            &&& fin is Some && (shortage.end is None <==> fin->Some_0.len() == 0)
            &&& shortage.end is Some ==> time::date_of(fin->Some_0, format, path@) == Ok::<
                DateTime,
                ErrorView,
            >(shortage.end->Some_0)
        },
{
    proof {
        shortages_are_what_their_elements_say(node@, path@, format);
    }
    let fuel: Fuel = attr::fuel_attr(node, "nom", path)?;
    let start: DateTime = attr::date_attr(node, "debut", path, format)?;
    let end: Option<DateTime> = attr::opt_date_attr(node, "fin", path, format)?;
    Ok((fuel, Shortage { start, end }))
}

/// Whether a closing of the kind `v` is temporary.
pub open spec fn temporary_of(v: Seq<char>, path: Seq<char>) -> Result<bool, ErrorView> {
    if v == "T"@ {
        Ok(true)
    } else if v == "D"@ {
        Ok(false)
    } else {
        Err(ErrorView::InvalidClosingType(path))
    }
}

/// The closing of an element `fermeture`.
pub open spec fn closing_of(node: ElementView, path: Seq<char>, format: DateFormat) -> Result<
    Closing,
    ErrorView,
> {
    match attr::attribute_value(node, "type"@, path) {
        Err(e) => Err(e),
        Ok(kind) => match temporary_of(kind, path) {
            Err(e) => Err(e),
            Ok(temporary) => match attr::date_value(node, "debut"@, path, format) {
                Err(e) => Err(e),
                Ok(start) => match attr::opt_date_value(node, "fin"@, path, format) {
                    Err(e) => Err(e),
                    Ok(end) => Ok(Closing { temporary, start, end }),
                },
            },
        },
    }
}

/// Reads an interval during which a station is closed.
pub fn parse_closing(node: &Element, path: &str, format: DateFormat) -> (r: Result<Closing, Error>)
    ensures
        error::seen(r) == closing_of(node@, path@, format),
        r matches Ok(closing) ==> {
            let kind = xml::attribute_of(node@.attributes, "type"@);
            let debut = xml::attribute_of(node@.attributes, "debut"@);
            let fin = xml::attribute_of(node@.attributes, "fin"@);
            &&& closing.temporary ==> kind == Some(seq!['T'])
            &&& !closing.temporary ==> kind == Some(seq!['D'])
            &&& debut is Some && time::date_of(debut->Some_0, format, path@) == Ok::<
                DateTime,
                ErrorView,
            >(closing.start)
            &&& fin is Some && (closing.end is None <==> fin->Some_0.len() == 0)
            &&& closing.end is Some ==> time::date_of(fin->Some_0, format, path@) == Ok::<
                DateTime,
                ErrorView,
            >(closing.end->Some_0)
        },
{
    proof {
        closings_are_what_their_elements_say(node@, path@, format);
    }
    let kind: String = attr::attribute(node, "type", path)?;
    let temporary: bool = if text::same(kind.as_str(), "T") {
        true
    } else if text::same(kind.as_str(), "D") {
        false
    } else {
        return Err(Error::InvalidClosingType(path.to_owned()));
    };
    let start: DateTime = attr::date_attr(node, "debut", path, format)?;
    let end: Option<DateTime> = attr::opt_date_attr(node, "fin", path, format)?;
    Ok(Closing { temporary, start, end })
}

/// The services of the elements from `i` on, all of which have to be `service`.
pub open spec fn services_from(nodes: Seq<ElementView>, i: int, path: Seq<char>) -> Result<
    Seq<Seq<char>>,
    ErrorView,
>
    decreases nodes.len() - i,
{
    if i >= nodes.len() {
        Ok(seq![])
    } else if nodes[i].name != "service"@ {
        Err(ErrorView::UnexpectedNode { path, got: nodes[i].name, expected: "service"@ })
    } else {
        match attr::value_of(nodes[i], path + text::indexed_name(".service"@, i as nat)) {
            Err(e) => Err(e),
            Ok(service) => match services_from(nodes, i + 1, path) {
                Err(e) => Err(e),
                Ok(rest) => Ok(seq![service] + rest),
            },
        }
    }
}

/// Reads the services that a station offers.
pub fn parse_services(node: &Element, path: &str) -> (r: Result<Vec<String>, Error>)
    ensures
        error::seen(r) == services_from(node@.children, 0, path@),
{
    let ghost all = node@.children;
    proof {
        xml::children_view(*node);
    }
    let mut services: Vec<String> = Vec::new();
    for i in 0..node.children.len()
        invariant
            all == xml::elements(node.children@),
            all == node@.children,
            services_from(all, 0, path@) == (match services_from(all, i as int, path@) {
                Err(e) => Err::<Seq<Seq<char>>, ErrorView>(e),
                Ok(rest) => Ok(services.deep_view() + rest),
            }),
    {
        let child: &Element = &node.children[i];
        assert(child@ == all[i as int]);
        if !child.has_tag_name("service") {
            return Err(
                Error::UnexpectedNode {
                    path: path.to_owned(),
                    got: child.name.clone(),
                    expected: "service",
                },
            );
        }
        let child_path: String = path.to_owned().concat(text::indexed(".service", i).as_str());
        let ghost before = services.deep_view();
        let service: String = attr::value(child, child_path.as_str())?;
        services.push(service);
        proof {
            assert(services.deep_view() =~= before.push(service@));
            if let Ok(rest) = services_from(all, i + 1, path@) {
                assert(before + (seq![service@] + rest) =~= before.push(service@) + rest);
            }
        }
    }
    assert(services.deep_view() + Seq::<Seq<char>>::empty() =~= services.deep_view());
    Ok(services)
}

/// The kind of road that the letter `v` stands for.
pub open spec fn road_of(v: Seq<char>, path: Seq<char>) -> Result<RoadKind, ErrorView> {
    if v == "R"@ {
        Ok(RoadKind::Regular)
    } else if v == "A"@ {
        Ok(RoadKind::Highway)
    } else if v == "N"@ {
        Ok(RoadKind::Unspecified)
    } else {
        Err(ErrorView::InvalidRoadKind(path))
    }
}

/// The kind of road that a letter of the feeds stands for.
fn parse_road(v: &str, path: &str) -> (r: Result<RoadKind, Error>)
    ensures
        error::seen(r) == road_of(v@, path@),
{
    if text::same(v, "R") {
        Ok(RoadKind::Regular)
    } else if text::same(v, "A") {
        Ok(RoadKind::Highway)
    } else if text::same(v, "N") {
        Ok(RoadKind::Unspecified)
    } else {
        Err(Error::InvalidRoadKind(path.to_owned()))
    }
}

/// Coordinates, when both of them are known.
pub open spec fn both_coordinates(
    latitude: Option<Seq<char>>,
    longitude: Option<Seq<char>>,
) -> Option<CoordinatesView> {
    match (latitude, longitude) {
        (Some(latitude), Some(longitude)) => Some(CoordinatesView { latitude, longitude }),
        _ => None,
    }
}

/// The location of the station of an element `pdv`, with the city and the address that its
/// children gave.
pub open spec fn location_of(
    node: ElementView,
    path: Seq<char>,
    city: Option<Seq<char>>,
    address: Option<Seq<char>>,
) -> Result<LocationView, ErrorView> {
    match attr::opt_float_value(node, "latitude"@, path) {
        Err(e) => Err(e),
        Ok(latitude) => match attr::opt_float_value(node, "longitude"@, path) {
            Err(e) => Err(e),
            Ok(longitude) => match attr::attribute_value(node, "pop"@, path) {
                Err(e) => Err(e),
                Ok(pop) => match road_of(pop, path) {
                    Err(e) => Err(e),
                    Ok(road) => match address {
                        None => Err(ErrorView::MissingNode { path, node: "adresse"@ }),
                        Some(address) => match attr::attribute_value(node, "cp"@, path) {
                            Err(e) => Err(e),
                            Ok(zip_code) => Ok(
                                LocationView {
                                    road,
                                    zip_code,
                                    address,
                                    city,
                                    coordinates: both_coordinates(latitude, longitude),
                                },
                            ),
                        },
                    },
                },
            },
        },
    }
}

/// Reads the location of a station.
pub fn parse_location(
    node: &Element,
    path: &str,
    city: Option<String>,
    address: Option<String>,
) -> (r: Result<Location, Error>)
    ensures
        error::seen(r) == location_of(node@, path@, city.deep_view(), address.deep_view()),
{
    let latitude: Option<Real> = attr::opt_float_attr(node, "latitude", path)?;
    let longitude: Option<Real> = attr::opt_float_attr(node, "longitude", path)?;
    let coordinates: Option<Coordinates> = match (latitude, longitude) {
        (Some(latitude), Some(longitude)) => Some(Coordinates { latitude, longitude }),
        _ => None,
    };
    let pop: String = attr::attribute(node, "pop", path)?;
    let road: RoadKind = parse_road(pop.as_str(), path)?;
    let address: String = match address {
        Some(address) => address,
        None => {
            return Err(
                Error::MissingNode { path: path.to_owned(), node: "adresse".to_owned() },
            );
        },
    };
    let zip_code: String = attr::attribute(node, "cp", path)?;
    Ok(Location { road, zip_code, address, city, coordinates })
}

/// What the children of a station have given so far. Elements that carry no attribute are not
/// counted.
pub struct Draft {
    pub address: Option<String>,
    pub city: Option<String>,
    pub schedule: Option<Schedule>,
    pub services: Vec<String>,
    pub prices: PerFuel<Vec<Price>>,
    pub shortages: PerFuel<Vec<Shortage>>,
    pub closings: Vec<Closing>,
    pub price_count: usize,
    pub shortage_count: usize,
}

pub struct DraftView {
    pub address: Option<Seq<char>>,
    pub city: Option<Seq<char>>,
    pub schedule: Option<ScheduleView>,
    pub services: Seq<Seq<char>>,
    pub prices: PerFuel<Seq<PriceView>>,
    pub shortages: PerFuel<Seq<Shortage>>,
    pub closings: Seq<Closing>,
    pub price_count: nat,
    pub shortage_count: nat,
}

impl DeepView for Draft {
    type V = DraftView;

    open spec fn deep_view(&self) -> DraftView {
        DraftView {
            address: self.address.deep_view(),
            city: self.city.deep_view(),
            schedule: self.schedule.deep_view(),
            services: self.services.deep_view(),
            prices: self.prices.deep_view(),
            shortages: self.shortages.deep_view(),
            closings: self.closings.deep_view(),
            price_count: self.price_count as nat,
            shortage_count: self.shortage_count as nat,
        }
    }
}

/// What is known before any child is read.
pub open spec fn blank_draft() -> DraftView {
    DraftView {
        address: None,
        city: None,
        schedule: None,
        services: seq![],
        prices: model::none_per_fuel(),
        shortages: model::none_per_fuel(),
        closings: seq![],
        price_count: 0,
        shortage_count: 0,
    }
}

/// The draft with the price of an element `prix`.
pub open spec fn with_price(draft: DraftView, fuel: Fuel, price: PriceView) -> DraftView {
    DraftView {
        prices: draft.prices.with(fuel, draft.prices.spec_get(fuel).push(price)),
        price_count: draft.price_count + 1,
        ..draft
    }
}

/// The draft with the shortage of an element `rupture`.
pub open spec fn with_shortage(draft: DraftView, fuel: Fuel, shortage: Shortage) -> DraftView {
    DraftView {
        shortages: draft.shortages.with(fuel, draft.shortages.spec_get(fuel).push(shortage)),
        shortage_count: draft.shortage_count + 1,
        ..draft
    }
}

/// The draft after one child of the station. There is no answer where the opening times have none.
pub open spec fn draft_with(
    draft: DraftView,
    child: ElementView,
    path: Seq<char>,
    strict: bool,
    format: DateFormat,
) -> Option<Result<DraftView, ErrorView>> {
    if child.name == "adresse"@ {
        match attr::value_of(child, path + ".adresse"@) {
            Err(e) => Some(Err(e)),
            Ok(v) => Some(Ok(DraftView { address: Some(v), ..draft })),
        }
    } else if child.name == "ville"@ {
        match attr::value_of(child, path + ".ville"@) {
            Err(ErrorView::MissingValue(_)) => Some(Ok(DraftView { city: None, ..draft })),
            Err(e) => Some(Err(e)),
            Ok(v) => Some(Ok(DraftView { city: Some(v), ..draft })),
        }
    } else if child.name == "horaires"@ {
        match schedule::schedule_of(child, path + ".horaires"@) {
            None => None,
            Some(Err(e)) => Some(Err(e)),
            Some(Ok(v)) => Some(Ok(DraftView { schedule: Some(v), ..draft })),
        }
    } else if child.name == "services"@ {
        match services_from(child.children, 0, path + ".services"@) {
            Err(e) => Some(Err(e)),
            Ok(v) => Some(Ok(DraftView { services: v, ..draft })),
        }
    } else if child.name == "prix"@ {
        if child.attributes.len() == 0 {
            Some(Ok(draft))
        } else {
            match price_of(child, path + text::indexed_name(".prix"@, draft.price_count), format) {
                Err(e) => Some(Err(e)),
                Ok((fuel, price)) => Some(Ok(with_price(draft, fuel, price))),
            }
        }
    } else if child.name == "rupture"@ {
        if child.attributes.len() == 0 {
            Some(Ok(draft))
        } else {
            match shortage_of(
                child,
                path + text::indexed_name(".shortage"@, draft.shortage_count),
                format,
            ) {
                Err(e) => Some(Err(e)),
                Ok((fuel, shortage)) => Some(Ok(with_shortage(draft, fuel, shortage))),
            }
        }
    } else if child.name == "fermeture"@ {
        if child.attributes.len() == 0 {
            Some(Ok(draft))
        } else {
            match closing_of(
                child,
                path + text::indexed_name(".fermeture"@, draft.closings.len()),
                format,
            ) {
                Err(e) => Some(Err(e)),
                Ok(closing) => Some(
                    Ok(DraftView { closings: draft.closings.push(closing), ..draft }),
                ),
            }
        }
    } else if strict {
        Some(Err(ErrorView::UnhandledNode { path, node: child.name }))
    } else {
        Some(Ok(draft))
    }
}

impl Draft {
    fn new() -> (d: Draft)
        ensures
            d.deep_view() == blank_draft(),
    {
        let d = Draft {
            address: None,
            city: None,
            schedule: None,
            services: Vec::new(),
            prices: PerFuel::empty(),
            shortages: PerFuel::empty(),
            closings: Vec::new(),
            price_count: 0,
            shortage_count: 0,
        };
        assert(d.services.deep_view() =~= seq![]);
        assert(d.closings.deep_view() =~= seq![]);
        d
    }

    /// Reads one child of a station. There is no answer where the opening times have none.
    fn read(self, child: &Element, path: &str, strict: bool, format: DateFormat) -> (r: Option<
        Result<Draft, Error>,
    >)
        requires
            self.price_count < usize::MAX,
            self.shortage_count < usize::MAX,
        ensures
            error::seen_answer(r) == draft_with(
                self.deep_view(),
                child@,
                path@,
                strict,
                format,
            ),
    {
        let mut draft = self;
        if child.has_tag_name("adresse") {
            match attr::value(child, path.to_owned().concat(".adresse").as_str()) {
                Err(e) => Some(Err(e)),
                Ok(v) => {
                    draft.address = Some(v);
                    Some(Ok(draft))
                },
            }
        } else if child.has_tag_name("ville") {
            match attr::value(child, path.to_owned().concat(".ville").as_str()) {
                Err(Error::MissingValue(_)) => {
                    draft.city = None;
                    Some(Ok(draft))
                },
                Err(e) => Some(Err(e)),
                Ok(v) => {
                    draft.city = Some(v);
                    Some(Ok(draft))
                },
            }
        } else if child.has_tag_name("horaires") {
            match schedule::parse_schedule(child, path.to_owned().concat(".horaires").as_str()) {
                None => None,
                Some(Err(e)) => Some(Err(e)),
                Some(Ok(v)) => {
                    draft.schedule = Some(v);
                    Some(Ok(draft))
                },
            }
        } else if child.has_tag_name("services") {
            match parse_services(child, path.to_owned().concat(".services").as_str()) {
                Err(e) => Some(Err(e)),
                Ok(v) => {
                    draft.services = v;
                    Some(Ok(draft))
                },
            }
        } else if child.has_tag_name("prix") {
            if child.attributes.len() == 0 {
                return Some(Ok(draft));
            }
            let place: String = text::indexed(".prix", draft.price_count);
            match parse_price(child, path.to_owned().concat(place.as_str()).as_str(), format) {
                Err(e) => Some(Err(e)),
                Ok((fuel, price)) => {
                    draft.prices.push(fuel, price);
                    draft.price_count = draft.price_count + 1;
                    Some(Ok(draft))
                },
            }
        } else if child.has_tag_name("rupture") {
            if child.attributes.len() == 0 {
                return Some(Ok(draft));
            }
            let place: String = text::indexed(".shortage", draft.shortage_count);
            match parse_shortage(child, path.to_owned().concat(place.as_str()).as_str(), format) {
                Err(e) => Some(Err(e)),
                Ok((fuel, shortage)) => {
                    draft.shortages.push(fuel, shortage);
                    draft.shortage_count = draft.shortage_count + 1;
                    Some(Ok(draft))
                },
            }
        } else if child.has_tag_name("fermeture") {
            if child.attributes.len() == 0 {
                return Some(Ok(draft));
            }
            let place: String = text::indexed(".fermeture", draft.closings.len());
            match parse_closing(child, path.to_owned().concat(place.as_str()).as_str(), format) {
                Err(e) => Some(Err(e)),
                Ok(closing) => {
                    draft.closings.push(closing);
                    assert(draft.closings.deep_view() =~= self.closings.deep_view().push(closing));
                    Some(Ok(draft))
                },
            }
        } else if strict {
            Some(Err(Error::UnhandledNode { path: path.to_owned(), node: child.name.clone() }))
        } else {
            Some(Ok(draft))
        }
    }
}

/// The draft after the children from `i` on.
pub open spec fn draft_from(
    nodes: Seq<ElementView>,
    i: int,
    draft: DraftView,
    path: Seq<char>,
    strict: bool,
    format: DateFormat,
) -> Option<Result<DraftView, ErrorView>>
    decreases nodes.len() - i,
{
    if i >= nodes.len() {
        Some(Ok(draft))
    } else {
        match draft_with(draft, nodes[i], path, strict, format) {
            None => None,
            Some(Err(e)) => Some(Err(e)),
            Some(Ok(next)) => draft_from(nodes, i + 1, next, path, strict, format),
        }
    }
}

/// The station of an element `pdv`, once its children are read.
pub open spec fn drafted_station(node: ElementView, draft: DraftView, path: Seq<char>) -> Result<
    StationView,
    ErrorView,
> {
    match attr::attribute_value(node, "id"@, path) {
        Err(e) => Err(e),
        Ok(id) => match location_of(node, path, draft.city, draft.address) {
            Err(e) => Err(e),
            Ok(location) => Ok(
                StationView {
                    id,
                    location,
                    prices: draft.prices,
                    shortages: draft.shortages,
                    schedule: draft.schedule,
                    services: draft.services,
                    closings: draft.closings,
                },
            ),
        },
    }
}

/// The station of an element `pdv`. There is no answer where the opening times have none.
pub open spec fn station_of(
    node: ElementView,
    path: Seq<char>,
    strict: bool,
    format: DateFormat,
) -> Option<Result<StationView, ErrorView>> {
    match draft_from(node.children, 0, blank_draft(), path, strict, format) {
        None => None,
        Some(Err(e)) => Some(Err(e)),
        Some(Ok(draft)) => Some(drafted_station(node, draft, path)),
    }
}

/// Reads a station. There is no answer where a day of its opening times that is reached has a
/// number outside of 1 to 7.
pub fn parse_station(node: &Element, path: &str, strict: bool, format: DateFormat) -> (r: Option<
    Result<Station, Error>,
>)
    ensures
        error::seen_answer(r) == station_of(node@, path@, strict, format),
{
    let ghost all = node@.children;
    proof {
        xml::children_view(*node);
    }
    let mut draft: Draft = Draft::new();
    for i in 0..node.children.len()
        invariant
            all == xml::elements(node.children@),
            all == node@.children,
            draft.price_count <= i,
            draft.shortage_count <= i,
            draft_from(all, 0, blank_draft(), path@, strict, format) == draft_from(
                all,
                i as int,
                draft.deep_view(),
                path@,
                strict,
                format,
            ),
    {
        let child: &Element = &node.children[i];
        assert(child@ == all[i as int]);
        match draft.read(child, path, strict, format) {
            None => {
                return None;
            },
            Some(Err(e)) => {
                return Some(Err(e));
            },
            Some(Ok(next)) => {
                draft = next;
            },
        }
    }
    let id: String = match attr::attribute(node, "id", path) {
        Ok(id) => id,
        Err(e) => {
            return Some(Err(e));
        },
    };
    let location: Location = match parse_location(node, path, draft.city, draft.address) {
        Ok(location) => location,
        Err(e) => {
            return Some(Err(e));
        },
    };
    Some(
        Ok(
            Station {
                id,
                location,
                prices: draft.prices,
                shortages: draft.shortages,
                schedule: draft.schedule,
                services: draft.services,
                closings: draft.closings,
            },
        ),
    )
}

proof fn strict_draft(
    nodes: Seq<ElementView>,
    from: int,
    draft: DraftView,
    path: Seq<char>,
    format: DateFormat,
)
    ensures
        draft_from(nodes, from, draft, path, true, format) == draft_from(
            nodes,
            from,
            draft,
            path,
            false,
            format,
        ) || draft_from(nodes, from, draft, path, true, format) matches Some(
            Err(ErrorView::UnhandledNode { .. }),
        ),
        !(draft_from(nodes, from, draft, path, false, format) matches Some(
            Err(ErrorView::UnhandledNode { .. }),
        )),
    decreases nodes.len() - from,
{
    if from < nodes.len() {
        let child = nodes[from];
        if let Some(Ok(next)) = draft_with(draft, child, path, false, format) {
            strict_draft(nodes, from + 1, next, path, format);
        }
        services_handle_all(child.children, 0, path + ".services"@);
        schedule::schedule_handles_all(child, path + ".horaires"@);
    }
}

proof fn services_handle_all(nodes: Seq<ElementView>, i: int, path: Seq<char>)
    ensures
        !(services_from(nodes, i, path) matches Err(ErrorView::UnhandledNode { .. })),
    decreases nodes.len() - i,
{
    if i < nodes.len() {
        services_handle_all(nodes, i + 1, path);
    }
}

/// A station that is read strictly is read the same leniently, unless it holds a node that strict
/// reading does not know. Lenient reading refuses no such node.
pub proof fn strict_station(node: ElementView, path: Seq<char>, format: DateFormat)
    ensures
        station_of(node, path, true, format) == station_of(node, path, false, format) || station_of(
            node,
            path,
            true,
            format,
        ) matches Some(Err(ErrorView::UnhandledNode { .. })),
        !(station_of(node, path, false, format) matches Some(Err(ErrorView::UnhandledNode { .. }))),
{
    strict_draft(node.children, 0, blank_draft(), path, format);
}

/// A station whose `ville` has no text is read without a city, and that is no error.
pub proof fn missing_city_is_no_error(
    draft: DraftView,
    child: ElementView,
    path: Seq<char>,
    strict: bool,
    format: DateFormat,
)
    requires
        child.name == "ville"@,
        child.text is None,
    ensures
        draft_with(draft, child, path, strict, format) == Some(
            Ok::<DraftView, ErrorView>(DraftView { city: None, ..draft }),
        ),
{
    reveal_strlit("adresse");
    reveal_strlit("ville");
    assert("adresse"@.len() != "ville"@.len());
}

/// Prices, shortages and closings without any attribute change nothing.
pub proof fn empty_elements_change_nothing(
    draft: DraftView,
    child: ElementView,
    path: Seq<char>,
    strict: bool,
    format: DateFormat,
)
    requires
        child.name == "prix"@ || child.name == "rupture"@ || child.name == "fermeture"@,
        child.attributes.len() == 0,
    ensures
        draft_with(draft, child, path, strict, format) == Some(Ok::<DraftView, ErrorView>(draft)),
{
    child_names_differ();
}

/// Whether an element is one that a station is read from.
pub open spec fn is_known_child(name: Seq<char>) -> bool {
    name == "adresse"@ || name == "ville"@ || name == "horaires"@ || name == "services"@ || name
        == "prix"@ || name == "rupture"@ || name == "fermeture"@
}

proof fn unknown_child_is_skipped(
    draft: DraftView,
    child: ElementView,
    path: Seq<char>,
    format: DateFormat,
)
    requires
        !is_known_child(child.name),
    ensures
        draft_with(draft, child, path, false, format) == Some(Ok::<DraftView, ErrorView>(draft)),
{
}

proof fn draft_goes_on(
    nodes: Seq<ElementView>,
    from: int,
    draft: DraftView,
    path: Seq<char>,
    strict: bool,
    format: DateFormat,
    next: Option<Result<DraftView, ErrorView>>,
)
    requires
        0 <= from < nodes.len(),
        draft_with(draft, nodes[from], path, strict, format) == next,
    ensures
        draft_from(nodes, from, draft, path, strict, format) == (match next {
            None => None,
            Some(Err(e)) => Some(Err(e)),
            Some(Ok(next)) => draft_from(nodes, from + 1, next, path, strict, format),
        }),
{
}

/// What a draft that may have failed comes to with one more child.
pub open spec fn draft_then(
    draft: Option<Result<DraftView, ErrorView>>,
    child: ElementView,
    path: Seq<char>,
    strict: bool,
    format: DateFormat,
) -> Option<Result<DraftView, ErrorView>> {
    match draft {
        Some(Ok(draft)) => draft_with(draft, child, path, strict, format),
        failed => failed,
    }
}

#[verifier::spinoff_prover]
proof fn last_child_comes_last(
    front: Seq<ElementView>,
    last: ElementView,
    from: int,
    draft: DraftView,
    path: Seq<char>,
    strict: bool,
    format: DateFormat,
)
    requires
        0 <= from <= front.len(),
    ensures
        draft_from(front.push(last), from, draft, path, strict, format) == draft_then(
            draft_from(front, from, draft, path, strict, format),
            last,
            path,
            strict,
            format,
        ),
    decreases front.len() - from,
{
    let all = front.push(last);
    let step = draft_with(draft, all[from], path, strict, format);
    draft_goes_on(all, from, draft, path, strict, format, step);
    if from < front.len() {
        assert(all[from] == front[from]);
        draft_goes_on(front, from, draft, path, strict, format, step);
        if let Some(Ok(next)) = step {
            last_child_comes_last(front, last, from + 1, next, path, strict, format);
        }
    } else {
        if let Some(Ok(next)) = step {
            assert(draft_from(all, from + 1, next, path, strict, format) == Some(
                Ok::<DraftView, ErrorView>(next),
            ));
        }
    }
}

/// The children that a station is read from.
pub open spec fn known_children(node: ElementView) -> Seq<ElementView> {
    node.children.filter(|c: ElementView| is_known_child(c.name))
}

proof fn known_children_decide(
    children: Seq<ElementView>,
    draft: DraftView,
    path: Seq<char>,
    format: DateFormat,
)
    ensures
        draft_from(children, 0, draft, path, false, format) == draft_from(
            children.filter(|c: ElementView| is_known_child(c.name)),
            0,
            draft,
            path,
            false,
            format,
        ),
    decreases children.len(),
{
    let is_known = |c: ElementView| is_known_child(c.name);
    reveal(Seq::filter);
    if children.len() > 0 {
        let front = children.drop_last();
        let last = children.last();
        known_children_decide(front, draft, path, format);
        assert(front.push(last) =~= children);
        last_child_comes_last(front, last, 0, draft, path, false, format);
        if is_known(last) {
            last_child_comes_last(front.filter(is_known), last, 0, draft, path, false, format);
        } else if let Some(Ok(x)) = draft_from(front, 0, draft, path, false, format) {
            unknown_child_is_skipped(x, last, path, format);
        }
    } else {
        assert(children.filter(is_known) =~= children);
    }
}

/// Whether two stations have the same attributes and the same children of those that a station is
/// read from.
pub open spec fn alike(a: ElementView, b: ElementView) -> bool {
    a.attributes == b.attributes && known_children(a) == known_children(b)
}

/// Read leniently, stations are the same whatever other children they have.
pub proof fn only_known_children_count(
    a: ElementView,
    b: ElementView,
    path: Seq<char>,
    format: DateFormat,
)
    requires
        alike(a, b),
    ensures
        station_of(a, path, false, format) == station_of(b, path, false, format),
{
    known_children_decide(a.children, blank_draft(), path, format);
    known_children_decide(b.children, blank_draft(), path, format);
}

/// A station is alike with an element that is not known among its children, wherever that stands.
pub proof fn unknown_children_keep_alike(node: ElementView, at: int, child: ElementView)
    requires
        0 <= at <= node.children.len(),
        !is_known_child(child.name),
    ensures
        alike(ElementView { children: node.children.insert(at, child), ..node }, node),
{
    let is_known = |c: ElementView| is_known_child(c.name);
    let before = node.children.take(at);
    let after = node.children.skip(at);
    assert(node.children =~= before + after);
    assert(node.children.insert(at, child) =~= before.push(child) + after);
    Seq::filter_distributes_over_add(before, after, is_known);
    Seq::filter_distributes_over_add(before.push(child), after, is_known);
    assert(before.push(child).filter(is_known) == before.filter(is_known)) by {
        reveal(Seq::filter);
        assert(before.push(child).drop_last() =~= before);
    }
}

/// Read leniently, a station is the same with an element that is not known among its children,
/// wherever that stands.
pub proof fn unknown_children_are_ignored(
    node: ElementView,
    at: int,
    child: ElementView,
    path: Seq<char>,
    format: DateFormat,
)
    requires
        0 <= at <= node.children.len(),
        !is_known_child(child.name),
    ensures
        station_of(
            ElementView { children: node.children.insert(at, child), ..node },
            path,
            false,
            format,
        ) == station_of(node, path, false, format),
{
    let more = ElementView { children: node.children.insert(at, child), ..node };
    unknown_children_keep_alike(node, at, child);
    only_known_children_count(more, node, path, format);
}

/// Whether a child is one of those called `name` that count: it has an attribute.
pub open spec fn counts(child: ElementView, name: Seq<char>) -> bool {
    child.name == name && child.attributes.len() > 0
}

/// The children called `name` that count, in document order.
pub open spec fn counted(children: Seq<ElementView>, name: Seq<char>) -> Seq<ElementView> {
    children.filter(|c: ElementView| counts(c, name))
}

/// What is said of one fuel.
pub open spec fn of_fuel<V>(all: Seq<(Fuel, V)>, fuel: Fuel) -> Seq<V> {
    all.filter(|x: (Fuel, V)| x.0 == fuel).map_values(|x: (Fuel, V)| x.1)
}

/// The price of the element at `k`.
pub open spec fn price_at(
    elements: Seq<ElementView>,
    k: int,
    path: Seq<char>,
    format: DateFormat,
) -> Result<(Fuel, PriceView), ErrorView> {
    price_of(elements[k], path + text::indexed_name(".prix"@, k as nat), format)
}

/// The shortage of the element at `k`.
pub open spec fn shortage_at(
    elements: Seq<ElementView>,
    k: int,
    path: Seq<char>,
    format: DateFormat,
) -> Result<(Fuel, Shortage), ErrorView> {
    shortage_of(elements[k], path + text::indexed_name(".shortage"@, k as nat), format)
}

/// The closing of the element at `k`.
pub open spec fn closing_at(
    elements: Seq<ElementView>,
    k: int,
    path: Seq<char>,
    format: DateFormat,
) -> Result<Closing, ErrorView> {
    closing_of(elements[k], path + text::indexed_name(".fermeture"@, k as nat), format)
}

/// The prices of some elements, each with its fuel.
pub open spec fn prices_at(elements: Seq<ElementView>, path: Seq<char>, format: DateFormat) -> Seq<
    (Fuel, PriceView),
> {
    Seq::new(elements.len(), |k: int| price_at(elements, k, path, format)->Ok_0)
}

/// The shortages of some elements, each with its fuel.
pub open spec fn shortages_at(
    elements: Seq<ElementView>,
    path: Seq<char>,
    format: DateFormat,
) -> Seq<(Fuel, Shortage)> {
    Seq::new(elements.len(), |k: int| shortage_at(elements, k, path, format)->Ok_0)
}

/// The closings of some elements.
pub open spec fn closings_at(
    elements: Seq<ElementView>,
    path: Seq<char>,
    format: DateFormat,
) -> Seq<Closing> {
    Seq::new(elements.len(), |k: int| closing_at(elements, k, path, format)->Ok_0)
}

proof fn child_names_differ()
    ensures
        "prix"@ != "adresse"@ && "prix"@ != "ville"@ && "prix"@ != "horaires"@ && "prix"@
            != "services"@,
        "rupture"@ != "adresse"@ && "rupture"@ != "ville"@ && "rupture"@ != "horaires"@
            && "rupture"@ != "services"@ && "rupture"@ != "prix"@,
        "fermeture"@ != "adresse"@ && "fermeture"@ != "ville"@ && "fermeture"@ != "horaires"@
            && "fermeture"@ != "services"@ && "fermeture"@ != "prix"@ && "fermeture"@
            != "rupture"@,
{
    reveal_strlit("adresse");
    reveal_strlit("ville");
    reveal_strlit("horaires");
    reveal_strlit("services");
    reveal_strlit("prix");
    reveal_strlit("rupture");
    reveal_strlit("fermeture");
    assert("adresse"@[0] == 'a' && "ville"@[0] == 'v' && "horaires"@[0] == 'h' && "services"@[0]
        == 's');
    assert("prix"@[0] == 'p' && "rupture"@[0] == 'r' && "fermeture"@[0] == 'f');
}

/// What one child adds to the lists of a draft.
spec fn adds(
    draft: DraftView,
    child: ElementView,
    next: DraftView,
    path: Seq<char>,
    format: DateFormat,
) -> bool {
    &&& if counts(child, "prix"@) {
        &&& price_of(child, path + text::indexed_name(".prix"@, draft.price_count), format) is Ok
        &&& ({
            let (fuel, price) = price_of(
                child,
                path + text::indexed_name(".prix"@, draft.price_count),
                format,
            )->Ok_0;
            next.prices == draft.prices.with(fuel, draft.prices.spec_get(fuel).push(price))
        })
        &&& next.price_count == draft.price_count + 1
    } else {
        next.prices == draft.prices && next.price_count == draft.price_count
    }
    &&& if counts(child, "rupture"@) {
        &&& shortage_of(
            child,
            path + text::indexed_name(".shortage"@, draft.shortage_count),
            format,
        ) is Ok
        &&& ({
            let (fuel, shortage) = shortage_of(
                child,
                path + text::indexed_name(".shortage"@, draft.shortage_count),
                format,
            )->Ok_0;
            next.shortages == draft.shortages.with(
                fuel,
                draft.shortages.spec_get(fuel).push(shortage),
            )
        })
        &&& next.shortage_count == draft.shortage_count + 1
    } else {
        next.shortages == draft.shortages && next.shortage_count == draft.shortage_count
    }
    &&& if counts(child, "fermeture"@) {
        closing_of(
            child,
            path + text::indexed_name(".fermeture"@, draft.closings.len()),
            format,
        ) matches Ok(closing) && next.closings == draft.closings.push(closing)
    } else {
        next.closings == draft.closings
    }
}

#[verifier::spinoff_prover]
proof fn one_child_adds(
    draft: DraftView,
    child: ElementView,
    next: DraftView,
    path: Seq<char>,
    strict: bool,
    format: DateFormat,
)
    requires
        draft_with(draft, child, path, strict, format) == Some(Ok::<DraftView, ErrorView>(next)),
    ensures
        adds(draft, child, next, path, format),
{
    child_names_differ();
}

/// Whether the prices of a draft are those of the children that count.
pub open spec fn has_prices(
    draft: DraftView,
    children: Seq<ElementView>,
    path: Seq<char>,
    format: DateFormat,
) -> bool {
    let elements = counted(children, "prix"@);
    &&& draft.price_count == elements.len()
    &&& forall|k: int|
        0 <= k < elements.len() ==> (#[trigger] price_at(elements, k, path, format)) is Ok
    &&& forall|fuel: Fuel| #[trigger]
        draft.prices.spec_get(fuel) == of_fuel(prices_at(elements, path, format), fuel)
}

/// Whether the shortages of a draft are those of the children that count.
pub open spec fn has_shortages(
    draft: DraftView,
    children: Seq<ElementView>,
    path: Seq<char>,
    format: DateFormat,
) -> bool {
    let elements = counted(children, "rupture"@);
    &&& draft.shortage_count == elements.len()
    &&& forall|k: int|
        0 <= k < elements.len() ==> (#[trigger] shortage_at(elements, k, path, format)) is Ok
    &&& forall|fuel: Fuel| #[trigger]
        draft.shortages.spec_get(fuel) == of_fuel(shortages_at(elements, path, format), fuel)
}

/// Whether the closings of a draft are those of the children that count.
pub open spec fn has_closings(
    draft: DraftView,
    children: Seq<ElementView>,
    path: Seq<char>,
    format: DateFormat,
) -> bool {
    let elements = counted(children, "fermeture"@);
    &&& forall|k: int|
        0 <= k < elements.len() ==> (#[trigger] closing_at(elements, k, path, format)) is Ok
    &&& draft.closings == closings_at(elements, path, format)
}

proof fn of_fuel_push<V>(all: Seq<(Fuel, V)>, x: (Fuel, V), fuel: Fuel)
    ensures
        of_fuel(all.push(x), fuel) == (if x.0 == fuel {
            of_fuel(all, fuel).push(x.1)
        } else {
            of_fuel(all, fuel)
        }),
{
    reveal(Seq::filter);
    let is_wanted = |x: (Fuel, V)| x.0 == fuel;
    assert(all.push(x).drop_last() =~= all);
    assert(all.push(x).last() == x);
    if x.0 == fuel {
        assert(all.push(x).filter(is_wanted) == all.filter(is_wanted).push(x));
        assert(of_fuel(all.push(x), fuel) =~= of_fuel(all, fuel).push(x.1));
    }
}

proof fn counted_push(front: Seq<ElementView>, last: ElementView, name: Seq<char>)
    ensures
        counted(front.push(last), name) == (if counts(last, name) {
            counted(front, name).push(last)
        } else {
            counted(front, name)
        }),
{
    reveal(Seq::filter);
    assert(front.push(last).drop_last() =~= front);
}

proof fn prices_step(
    front: Seq<ElementView>,
    last: ElementView,
    draft: DraftView,
    next: DraftView,
    path: Seq<char>,
    format: DateFormat,
)
    requires
        has_prices(draft, front, path, format),
        adds(draft, last, next, path, format),
    ensures
        has_prices(next, front.push(last), path, format),
{
    counted_push(front, last, "prix"@);
    if counts(last, "prix"@) {
        let before = counted(front, "prix"@);
        let after = before.push(last);
        let n = before.len() as int;
        let x = price_at(after, n, path, format)->Ok_0;
        assert(after[n] == last);
        assert forall|k: int| 0 <= k < after.len() implies (#[trigger] price_at(
            after,
            k,
            path,
            format,
        )) is Ok by {
            if k < n {
                assert(after[k] == before[k]);
                assert(price_at(before, k, path, format) is Ok);
            }
        }
        assert(prices_at(after, path, format) =~= prices_at(before, path, format).push(x)) by {
            assert forall|k: int| 0 <= k < n implies prices_at(after, path, format)[k] == prices_at(
                before,
                path,
                format,
            )[k] by {
                assert(after[k] == before[k]);
            }
        }
        assert forall|fuel: Fuel| #[trigger]
            next.prices.spec_get(fuel) == of_fuel(prices_at(after, path, format), fuel) by {
            of_fuel_push(prices_at(before, path, format), x, fuel);
            assert(draft.prices.spec_get(fuel) == of_fuel(
                prices_at(before, path, format),
                fuel,
            ));
        }
    }
}

proof fn shortages_step(
    front: Seq<ElementView>,
    last: ElementView,
    draft: DraftView,
    next: DraftView,
    path: Seq<char>,
    format: DateFormat,
)
    requires
        has_shortages(draft, front, path, format),
        adds(draft, last, next, path, format),
    ensures
        has_shortages(next, front.push(last), path, format),
{
    counted_push(front, last, "rupture"@);
    if counts(last, "rupture"@) {
        let before = counted(front, "rupture"@);
        let after = before.push(last);
        let n = before.len() as int;
        let x = shortage_at(after, n, path, format)->Ok_0;
        assert(after[n] == last);
        assert forall|k: int| 0 <= k < after.len() implies (#[trigger] shortage_at(
            after,
            k,
            path,
            format,
        )) is Ok by {
            if k < n {
                assert(after[k] == before[k]);
                assert(shortage_at(before, k, path, format) is Ok);
            }
        }
        assert(shortages_at(after, path, format) =~= shortages_at(before, path, format).push(x)) by {
            assert forall|k: int| 0 <= k < n implies shortages_at(after, path, format)[k]
                == shortages_at(before, path, format)[k] by {
                assert(after[k] == before[k]);
            }
        }
        assert forall|fuel: Fuel| #[trigger]
            next.shortages.spec_get(fuel) == of_fuel(shortages_at(after, path, format), fuel) by {
            of_fuel_push(shortages_at(before, path, format), x, fuel);
            assert(draft.shortages.spec_get(fuel) == of_fuel(
                shortages_at(before, path, format),
                fuel,
            ));
        }
    }
}

proof fn closings_step(
    front: Seq<ElementView>,
    last: ElementView,
    draft: DraftView,
    next: DraftView,
    path: Seq<char>,
    format: DateFormat,
)
    requires
        has_closings(draft, front, path, format),
        adds(draft, last, next, path, format),
    ensures
        has_closings(next, front.push(last), path, format),
{
    counted_push(front, last, "fermeture"@);
    if counts(last, "fermeture"@) {
        let before = counted(front, "fermeture"@);
        let after = before.push(last);
        let n = before.len() as int;
        assert(after[n] == last);
        assert forall|k: int| 0 <= k < after.len() implies (#[trigger] closing_at(
            after,
            k,
            path,
            format,
        )) is Ok by {
            if k < n {
                assert(after[k] == before[k]);
                assert(closing_at(before, k, path, format) is Ok);
            }
        }
        assert(next.closings =~= closings_at(after, path, format)) by {
            assert forall|k: int| 0 <= k < n implies closings_at(after, path, format)[k]
                == closings_at(before, path, format)[k] by {
                assert(after[k] == before[k]);
            }
        }
    }
}

proof fn draft_has_lists(
    children: Seq<ElementView>,
    path: Seq<char>,
    strict: bool,
    format: DateFormat,
)
    requires
        draft_from(children, 0, blank_draft(), path, strict, format) matches Some(Ok(_)),
    ensures
        ({
            let draft = draft_from(
                children,
                0,
                blank_draft(),
                path,
                strict,
                format,
            )->Some_0->Ok_0;
            &&& has_prices(draft, children, path, format)
            &&& has_shortages(draft, children, path, format)
            &&& has_closings(draft, children, path, format)
        }),
    decreases children.len(),
{
    if children.len() == 0 {
        let draft = blank_draft();
        reveal(Seq::filter);
        assert(counted(children, "prix"@) =~= seq![]);
        assert(counted(children, "rupture"@) =~= seq![]);
        assert(counted(children, "fermeture"@) =~= seq![]);
        assert forall|fuel: Fuel| #[trigger]
            draft.prices.spec_get(fuel) == of_fuel(
                prices_at(counted(children, "prix"@), path, format),
                fuel,
            ) by {
            assert(of_fuel(prices_at(counted(children, "prix"@), path, format), fuel) =~= seq![]);
        }
        assert forall|fuel: Fuel| #[trigger]
            draft.shortages.spec_get(fuel) == of_fuel(
                shortages_at(counted(children, "rupture"@), path, format),
                fuel,
            ) by {
            assert(of_fuel(
                shortages_at(counted(children, "rupture"@), path, format),
                fuel,
            ) =~= seq![]);
        }
        assert(draft.closings =~= closings_at(counted(children, "fermeture"@), path, format));
    } else {
        let front = children.drop_last();
        let last = children.last();
        assert(front.push(last) =~= children);
        last_child_comes_last(front, last, 0, blank_draft(), path, strict, format);
        let draft = draft_from(front, 0, blank_draft(), path, strict, format)->Some_0->Ok_0;
        let next = draft_from(children, 0, blank_draft(), path, strict, format)->Some_0->Ok_0;
        draft_has_lists(front, path, strict, format);
        one_child_adds(draft, last, next, path, strict, format);
        prices_step(front, last, draft, next, path, format);
        shortages_step(front, last, draft, next, path, format);
        closings_step(front, last, draft, next, path, format);
    }
}

/// A station that is read lists for each fuel the prices and the shortages of its children that
/// count, and the closings of those that count, all in document order, and nothing else. None of
/// these children is malformed.
pub proof fn stations_list_their_children(
    node: ElementView,
    path: Seq<char>,
    strict: bool,
    format: DateFormat,
    fuel: Fuel,
    k: int,
)
    requires
        station_of(node, path, strict, format) matches Some(Ok(_)),
    ensures
        ({
            let station = station_of(node, path, strict, format)->Some_0->Ok_0;
            let prices = counted(node.children, "prix"@);
            let shortages = counted(node.children, "rupture"@);
            let closings = counted(node.children, "fermeture"@);
            &&& station.prices.spec_get(fuel) == of_fuel(prices_at(prices, path, format), fuel)
            &&& station.shortages.spec_get(fuel) == of_fuel(
                shortages_at(shortages, path, format),
                fuel,
            )
            &&& station.closings == closings_at(closings, path, format)
            &&& 0 <= k < prices.len() ==> price_at(prices, k, path, format) is Ok
            &&& 0 <= k < shortages.len() ==> shortage_at(shortages, k, path, format) is Ok
            &&& 0 <= k < closings.len() ==> closing_at(closings, k, path, format) is Ok
        }),
{
    draft_has_lists(node.children, path, strict, format);
    let draft = draft_from(
        node.children,
        0,
        blank_draft(),
        path,
        strict,
        format,
    )->Some_0->Ok_0;
    assert(draft.prices.spec_get(fuel) == of_fuel(
        prices_at(counted(node.children, "prix"@), path, format),
        fuel,
    ));
    assert(draft.shortages.spec_get(fuel) == of_fuel(
        shortages_at(counted(node.children, "rupture"@), path, format),
        fuel,
    ));
}

/// A price that is read is of the fuel that its element names, of the date at which it says it was
/// set, and as high as it says. It is read exactly where all three are well-formed.
pub proof fn prices_are_what_their_elements_say(
    node: ElementView,
    path: Seq<char>,
    format: DateFormat,
)
    ensures
        ({
            let nom = xml::attribute_of(node.attributes, "nom"@);
            let maj = xml::attribute_of(node.attributes, "maj"@);
            let valeur = xml::attribute_of(node.attributes, "valeur"@);
            &&& price_of(node, path, format) matches Ok((fuel, price)) ==> {
                &&& nom == Some(model::fuel_name(fuel))
                &&& maj is Some && time::date_of(maj->Some_0, format, path) == Ok::<
                    DateTime,
                    ErrorView,
                >(price.updated_at)
                &&& valeur == Some(price.price)
            }
            &&& price_of(node, path, format) is Ok <==> {
                &&& exists|fuel: Fuel| nom == Some(#[trigger] model::fuel_name(fuel))
                &&& maj is Some && time::is_date(maj->Some_0, format)
                &&& valeur is Some && number::is_real(valeur->Some_0)
            }
        }),
{
    let nom = xml::attribute_of(node.attributes, "nom"@);
    if let Some(v) = nom {
        attr::attributes_stand_for_their_texts(node, "nom"@, path);
        if let Ok(fuel) = attr::fuel_value(node, "nom"@, path) {
            assert(nom == Some(model::fuel_name(fuel)));
        }
    }
    if let Some(v) = xml::attribute_of(node.attributes, "maj"@) {
        time::dates_are_read(v, format, path);
    }
}

/// A shortage that is read is of the fuel that its element names, and begins at the date that it
/// says. It has an end exactly where the element says one, and that end is the date that it says.
/// It is read exactly where all of that is well-formed.
pub proof fn shortages_are_what_their_elements_say(
    node: ElementView,
    path: Seq<char>,
    format: DateFormat,
)
    ensures
        ({
            let nom = xml::attribute_of(node.attributes, "nom"@);
            let debut = xml::attribute_of(node.attributes, "debut"@);
            let fin = xml::attribute_of(node.attributes, "fin"@);
            &&& shortage_of(node, path, format) matches Ok((fuel, shortage)) ==> {
                &&& nom == Some(model::fuel_name(fuel))
                &&& debut is Some && time::date_of(debut->Some_0, format, path) == Ok::<
                    DateTime,
                    ErrorView,
                >(shortage.start)
                &&& fin is Some && (shortage.end is None <==> fin->Some_0.len() == 0)
                &&& shortage.end is Some ==> time::date_of(fin->Some_0, format, path) == Ok::<
                    DateTime,
                    ErrorView,
                >(shortage.end->Some_0)
            }
            &&& shortage_of(node, path, format) is Ok <==> {
                &&& exists|fuel: Fuel| nom == Some(#[trigger] model::fuel_name(fuel))
                &&& debut is Some && time::is_date(debut->Some_0, format)
                &&& fin is Some && (fin->Some_0.len() == 0 || time::is_date(fin->Some_0, format))
            }
        }),
{
    let nom = xml::attribute_of(node.attributes, "nom"@);
    if let Some(v) = nom {
        attr::attributes_stand_for_their_texts(node, "nom"@, path);
        if let Ok(fuel) = attr::fuel_value(node, "nom"@, path) {
            assert(nom == Some(model::fuel_name(fuel)));
        }
    }
    if let Some(v) = xml::attribute_of(node.attributes, "debut"@) {
        time::dates_are_read(v, format, path);
    }
    if let Some(v) = xml::attribute_of(node.attributes, "fin"@) {
        attr::date_attributes_are_times_of_paris(node, "fin"@, path, format);
        time::dates_are_read(v, format, path);
    }
}

/// A closing that is read is temporary where its element has the letter T, and for good where it has
/// the letter D. It begins at the date that the element says, and has an end exactly where the
/// element says one: the date that it says. It is read exactly where all of that is well-formed.
pub proof fn closings_are_what_their_elements_say(
    node: ElementView,
    path: Seq<char>,
    format: DateFormat,
)
    ensures
        ({
            let kind = xml::attribute_of(node.attributes, "type"@);
            let debut = xml::attribute_of(node.attributes, "debut"@);
            let fin = xml::attribute_of(node.attributes, "fin"@);
            &&& closing_of(node, path, format) matches Ok(closing) ==> {
                &&& closing.temporary ==> kind == Some(seq!['T'])
                &&& !closing.temporary ==> kind == Some(seq!['D'])
                &&& debut is Some && time::date_of(debut->Some_0, format, path) == Ok::<
                    DateTime,
                    ErrorView,
                >(closing.start)
                &&& fin is Some && (closing.end is None <==> fin->Some_0.len() == 0)
                &&& closing.end is Some ==> time::date_of(fin->Some_0, format, path) == Ok::<
                    DateTime,
                    ErrorView,
                >(closing.end->Some_0)
            }
            &&& closing_of(node, path, format) is Ok <==> {
                &&& kind == Some(seq!['T']) || kind == Some(seq!['D'])
                &&& debut is Some && time::is_date(debut->Some_0, format)
                &&& fin is Some && (fin->Some_0.len() == 0 || time::is_date(fin->Some_0, format))
            }
            &&& kind is Some && kind != Some(seq!['T']) && kind != Some(seq!['D']) ==> closing_of(
                node,
                path,
                format,
            ) == Err::<Closing, ErrorView>(ErrorView::InvalidClosingType(path))
        }),
{
    reveal_strlit("T");
    reveal_strlit("D");
    assert("T"@ =~= seq!['T']);
    assert("D"@ =~= seq!['D']);
    assert("T"@[0] != "D"@[0]);
    if let Some(v) = xml::attribute_of(node.attributes, "debut"@) {
        time::dates_are_read(v, format, path);
    }
    if let Some(v) = xml::attribute_of(node.attributes, "fin"@) {
        attr::date_attributes_are_times_of_paris(node, "fin"@, path, format);
        time::dates_are_read(v, format, path);
    }
}

/// Services that are read are the texts of their elements, all of them and in their order. They are
/// read exactly where every element is a service and has a text.
pub proof fn services_are_what_their_elements_say(nodes: Seq<ElementView>, path: Seq<char>)
    ensures
        services_from(nodes, 0, path) matches Ok(services) ==> services.len() == nodes.len()
            && forall|i: int|
            0 <= i < nodes.len() ==> nodes[i].text == Some(#[trigger] services[i]),
        services_from(nodes, 0, path) is Ok <==> forall|i: int|
            #![trigger nodes[i]]
            0 <= i < nodes.len() ==> nodes[i].name == "service"@ && nodes[i].text is Some,
{
    services_are_read_from(nodes, 0, path);
    if let Ok(services) = services_from(nodes, 0, path) {
        assert forall|i: int| 0 <= i < nodes.len() implies nodes[i].text == Some(
            #[trigger] services[i],
        ) by {
            assert(nodes[0 + i].text == Some(services[i]));
        }
    }
}

proof fn services_are_read_from(nodes: Seq<ElementView>, from: int, path: Seq<char>)
    requires
        0 <= from <= nodes.len(),
    ensures
        services_from(nodes, from, path) matches Ok(services) ==> services.len() == nodes.len()
            - from && forall|i: int|
            0 <= i < nodes.len() - from ==> nodes[from + i].text == Some(#[trigger] services[i]),
        services_from(nodes, from, path) is Ok <==> forall|i: int|
            #![trigger nodes[i]]
            from <= i < nodes.len() ==> nodes[i].name == "service"@ && nodes[i].text is Some,
    decreases nodes.len() - from,
{
    if from < nodes.len() {
        services_are_read_from(nodes, from + 1, path);
        if let Ok(services) = services_from(nodes, from, path) {
            let rest = services_from(nodes, from + 1, path)->Ok_0;
            assert forall|i: int| 0 <= i < nodes.len() - from implies nodes[from + i].text == Some(
                #[trigger] services[i],
            ) by {
                if i > 0 {
                    assert(services[i] == rest[i - 1]);
                    assert(nodes[from + 1 + (i - 1)].text == Some(rest[i - 1]));
                }
            }
        }
        if services_from(nodes, from, path) is Err {
            assert(!(nodes[from].name == "service"@ && nodes[from].text is Some) || services_from(
                nodes,
                from + 1,
                path,
            ) is Err);
        }
    }
}

/// The letter R is for a regular road, A for a highway and N for neither; nothing else is a kind of
/// road.
pub proof fn roads_have_letters(v: Seq<char>, path: Seq<char>)
    ensures
        road_of(v, path) == Ok::<RoadKind, ErrorView>(RoadKind::Regular) <==> v == seq!['R'],
        road_of(v, path) == Ok::<RoadKind, ErrorView>(RoadKind::Highway) <==> v == seq!['A'],
        road_of(v, path) == Ok::<RoadKind, ErrorView>(RoadKind::Unspecified) <==> v == seq!['N'],
        road_of(v, path) is Err ==> road_of(v, path) == Err::<RoadKind, ErrorView>(
            ErrorView::InvalidRoadKind(path),
        ),
{
    reveal_strlit("R");
    reveal_strlit("A");
    reveal_strlit("N");
    assert("R"@ =~= seq!['R']);
    assert("A"@ =~= seq!['A']);
    assert("N"@ =~= seq!['N']);
    assert("R"@[0] != "A"@[0] && "R"@[0] != "N"@[0] && "A"@[0] != "N"@[0]);
}

/// A location that is read has the zip code, the kind of road and the coordinates that its element
/// says, the latitude and the longitude each in its place; without one of the two it has no
/// coordinates. It is read exactly where there is an address and all of that is well-formed.
pub proof fn locations_are_what_their_elements_say(
    node: ElementView,
    path: Seq<char>,
    city: Option<Seq<char>>,
    address: Option<Seq<char>>,
)
    ensures
        ({
            let latitude = xml::attribute_of(node.attributes, "latitude"@);
            let longitude = xml::attribute_of(node.attributes, "longitude"@);
            let pop = xml::attribute_of(node.attributes, "pop"@);
            let cp = xml::attribute_of(node.attributes, "cp"@);
            &&& location_of(node, path, city, address) matches Ok(location) ==> {
                &&& location.city == city
                &&& Some(location.address) == address
                &&& Some(location.zip_code) == cp
                &&& pop is Some && road_of(pop->Some_0, path) == Ok::<RoadKind, ErrorView>(
                    location.road,
                )
                &&& latitude is Some && longitude is Some
                &&& location.coordinates is Some <==> latitude->Some_0.len() > 0
                    && longitude->Some_0.len() > 0
                &&& location.coordinates is Some ==> location.coordinates->Some_0.latitude
                    == latitude->Some_0 && location.coordinates->Some_0.longitude
                    == longitude->Some_0
            }
            &&& location_of(node, path, city, address) is Ok <==> {
                &&& address is Some && cp is Some
                &&& pop is Some && road_of(pop->Some_0, path) is Ok
                &&& latitude is Some && (latitude->Some_0.len() == 0 || number::is_real(
                    latitude->Some_0,
                ))
                &&& longitude is Some && (longitude->Some_0.len() == 0 || number::is_real(
                    longitude->Some_0,
                ))
            }
        }),
{
    if xml::attribute_of(node.attributes, "latitude"@) is Some {
        attr::numbers_are_kept_as_they_stand(node, "latitude"@, path);
    }
    if xml::attribute_of(node.attributes, "longitude"@) is Some {
        attr::numbers_are_kept_as_they_stand(node, "longitude"@, path);
    }
}

/// Whether the child at `i` is the last one called `name`.
pub open spec fn is_last_called(children: Seq<ElementView>, name: Seq<char>, i: int) -> bool {
    &&& 0 <= i < children.len()
    &&& children[i].name == name
    &&& forall|j: int| i < j < children.len() ==> (#[trigger] children[j]).name != name
}

/// Whether no child is called `name`.
pub open spec fn none_called(children: Seq<ElementView>, name: Seq<char>) -> bool {
    forall|j: int| 0 <= j < children.len() ==> (#[trigger] children[j]).name != name
}

/// Whether the parts of a draft of which there is one are those of the last children of their names.
pub open spec fn has_last_parts(
    draft: DraftView,
    children: Seq<ElementView>,
    path: Seq<char>,
) -> bool {
    &&& forall|i: int| #[trigger]
        is_last_called(children, "adresse"@, i) ==> draft.address is Some && draft.address
            == children[i].text
    &&& none_called(children, "adresse"@) ==> draft.address is None
    &&& forall|i: int| #[trigger]
        is_last_called(children, "ville"@, i) ==> draft.city == children[i].text
    &&& none_called(children, "ville"@) ==> draft.city is None
    &&& forall|i: int| #[trigger]
        is_last_called(children, "services"@, i) ==> services_from(
            children[i].children,
            0,
            path + ".services"@,
        ) == Ok::<Seq<Seq<char>>, ErrorView>(draft.services)
    &&& none_called(children, "services"@) ==> draft.services.len() == 0
    &&& forall|i: int| #[trigger]
        is_last_called(children, "horaires"@, i) ==> draft.schedule is Some
            && schedule::schedule_of(children[i], path + ".horaires"@) == Some(
            Ok::<ScheduleView, ErrorView>(draft.schedule->Some_0),
        )
    &&& none_called(children, "horaires"@) ==> draft.schedule is None
}

/// What one child sets of a draft.
spec fn sets(draft: DraftView, child: ElementView, next: DraftView, path: Seq<char>) -> bool {
    &&& if child.name == "adresse"@ {
        next.address is Some && next.address == child.text
    } else {
        next.address == draft.address
    }
    &&& if child.name == "ville"@ {
        next.city == child.text
    } else {
        next.city == draft.city
    }
    &&& if child.name == "services"@ {
        services_from(child.children, 0, path + ".services"@) == Ok::<Seq<Seq<char>>, ErrorView>(
            next.services,
        )
    } else {
        next.services == draft.services
    }
    &&& if child.name == "horaires"@ {
        next.schedule is Some && schedule::schedule_of(child, path + ".horaires"@) == Some(
            Ok::<ScheduleView, ErrorView>(next.schedule->Some_0),
        )
    } else {
        next.schedule == draft.schedule
    }
}

proof fn single_names_differ()
    ensures
        "adresse"@ != "ville"@ && "adresse"@ != "services"@ && "adresse"@ != "horaires"@,
        "ville"@ != "services"@ && "ville"@ != "horaires"@ && "services"@ != "horaires"@,
{
    reveal_strlit("adresse");
    reveal_strlit("ville");
    reveal_strlit("horaires");
    reveal_strlit("services");
    assert("adresse"@[0] == 'a' && "ville"@[0] == 'v' && "horaires"@[0] == 'h' && "services"@[0]
        == 's');
}

#[verifier::spinoff_prover]
proof fn one_child_sets(
    draft: DraftView,
    child: ElementView,
    next: DraftView,
    path: Seq<char>,
    strict: bool,
    format: DateFormat,
)
    requires
        draft_with(draft, child, path, strict, format) == Some(Ok::<DraftView, ErrorView>(next)),
    ensures
        sets(draft, child, next, path),
{
    single_names_differ();
    child_names_differ();
}

proof fn last_called_push(front: Seq<ElementView>, last: ElementView, name: Seq<char>, i: int)
    ensures
        is_last_called(front.push(last), name, i) <==> if last.name == name {
            i == front.len()
        } else {
            is_last_called(front, name, i)
        },
        none_called(front.push(last), name) <==> none_called(front, name) && last.name != name,
{
    let all = front.push(last);
    assert(all[front.len() as int] == last);
    assert(forall|j: int| 0 <= j < front.len() ==> all[j] == front[j]);
    if is_last_called(all, name, i) && last.name != name {
        assert forall|j: int| i < j < front.len() implies (#[trigger] front[j]).name != name by {
            assert(all[j] == front[j]);
        }
    }
    if none_called(all, name) {
        assert forall|j: int| 0 <= j < front.len() implies (#[trigger] front[j]).name != name by {
            assert(all[j] == front[j]);
        }
    }
}

#[verifier::spinoff_prover]
proof fn last_parts_step(
    front: Seq<ElementView>,
    last: ElementView,
    draft: DraftView,
    next: DraftView,
    path: Seq<char>,
)
    requires
        has_last_parts(draft, front, path),
        sets(draft, last, next, path),
    ensures
        has_last_parts(next, front.push(last), path),
{
    let all = front.push(last);
    assert(all[front.len() as int] == last);
    assert forall|name: Seq<char>, i: int| #[trigger] is_last_called(all, name, i) implies (
    last.name == name && i == front.len()) || (last.name != name && is_last_called(front, name, i)
        && all[i] == front[i]) by {
        last_called_push(front, last, name, i);
    }
    last_called_push(front, last, "adresse"@, 0);
    last_called_push(front, last, "ville"@, 0);
    last_called_push(front, last, "services"@, 0);
    last_called_push(front, last, "horaires"@, 0);
}

proof fn draft_has_last_parts(
    children: Seq<ElementView>,
    path: Seq<char>,
    strict: bool,
    format: DateFormat,
)
    requires
        draft_from(children, 0, blank_draft(), path, strict, format) matches Some(Ok(_)),
    ensures
        has_last_parts(
            draft_from(children, 0, blank_draft(), path, strict, format)->Some_0->Ok_0,
            children,
            path,
        ),
    decreases children.len(),
{
    if children.len() > 0 {
        let front = children.drop_last();
        let last = children.last();
        assert(front.push(last) =~= children);
        last_child_comes_last(front, last, 0, blank_draft(), path, strict, format);
        let draft = draft_from(front, 0, blank_draft(), path, strict, format)->Some_0->Ok_0;
        let next = draft_from(children, 0, blank_draft(), path, strict, format)->Some_0->Ok_0;
        draft_has_last_parts(front, path, strict, format);
        one_child_sets(draft, last, next, path, strict, format);
        last_parts_step(front, last, draft, next, path);
    }
}

/// A station that is read has the id, the zip code, the kind of road and the coordinates of its
/// element, and the address, the city, the services and the opening times of the last children that
/// give them. Without such a child it has no city, no services and no opening times; it always has an
/// address.
pub proof fn stations_are_what_their_elements_say(
    node: ElementView,
    path: Seq<char>,
    strict: bool,
    format: DateFormat,
    i: int,
)
    requires
        station_of(node, path, strict, format) matches Some(Ok(_)),
    ensures
        ({
            let station = station_of(node, path, strict, format)->Some_0->Ok_0;
            let latitude = xml::attribute_of(node.attributes, "latitude"@);
            let longitude = xml::attribute_of(node.attributes, "longitude"@);
            let pop = xml::attribute_of(node.attributes, "pop"@);
            &&& xml::attribute_of(node.attributes, "id"@) == Some(station.id)
            &&& xml::attribute_of(node.attributes, "cp"@) == Some(station.location.zip_code)
            &&& station.location.road is Regular <==> pop == Some(seq!['R'])
            &&& station.location.road is Highway <==> pop == Some(seq!['A'])
            &&& station.location.road is Unspecified <==> pop == Some(seq!['N'])
            &&& latitude is Some && longitude is Some
            &&& station.location.coordinates is Some <==> latitude->Some_0.len() > 0
                && longitude->Some_0.len() > 0
            &&& station.location.coordinates is Some
                ==> station.location.coordinates->Some_0.latitude == latitude->Some_0
                && station.location.coordinates->Some_0.longitude == longitude->Some_0
            &&& is_last_called(node.children, "adresse"@, i) ==> node.children[i].text == Some(
                station.location.address,
            )
            &&& !none_called(node.children, "adresse"@)
            &&& is_last_called(node.children, "ville"@, i) ==> station.location.city
                == node.children[i].text
            &&& none_called(node.children, "ville"@) ==> station.location.city is None
            &&& is_last_called(node.children, "services"@, i) ==> station.services.len()
                == node.children[i].children.len() && forall|k: int|
                0 <= k < station.services.len() ==> node.children[i].children[k].text == Some(
                    #[trigger] station.services[k],
                )
            &&& none_called(node.children, "services"@) ==> station.services.len() == 0
            &&& is_last_called(node.children, "horaires"@, i) ==> station.schedule is Some
                && schedule::schedule_of(node.children[i], path + ".horaires"@) == Some(
                Ok::<ScheduleView, ErrorView>(station.schedule->Some_0),
            )
            &&& none_called(node.children, "horaires"@) ==> station.schedule is None
        }),
{
    draft_has_last_parts(node.children, path, strict, format);
    let draft = draft_from(
        node.children,
        0,
        blank_draft(),
        path,
        strict,
        format,
    )->Some_0->Ok_0;
    locations_are_what_their_elements_say(node, path, draft.city, draft.address);
    let pop = xml::attribute_of(node.attributes, "pop"@)->Some_0;
    roads_have_letters(pop, path);
    assert(seq!['R'][0] != seq!['A'][0] && seq!['R'][0] != seq!['N'][0] && seq!['A'][0]
        != seq!['N'][0]);
    if is_last_called(node.children, "services"@, i) {
        services_are_what_their_elements_say(node.children[i].children, path + ".services"@);
    }
}

/// Whether a child is well-formed: what it has to say of the station can be read.
pub open spec fn is_well_formed(
    child: ElementView,
    path: Seq<char>,
    strict: bool,
    format: DateFormat,
) -> bool {
    let nom = xml::attribute_of(child.attributes, "nom"@);
    let maj = xml::attribute_of(child.attributes, "maj"@);
    let valeur = xml::attribute_of(child.attributes, "valeur"@);
    let kind = xml::attribute_of(child.attributes, "type"@);
    let debut = xml::attribute_of(child.attributes, "debut"@);
    let fin = xml::attribute_of(child.attributes, "fin"@);
    let has_fuel = exists|fuel: Fuel| nom == Some(#[trigger] model::fuel_name(fuel));
    let has_start = debut is Some && time::is_date(debut->Some_0, format);
    let has_end = fin is Some && (fin->Some_0.len() == 0 || time::is_date(fin->Some_0, format));
    &&& child.name == "adresse"@ ==> child.text is Some
    &&& child.name == "horaires"@ ==> (schedule::schedule_of(
        child,
        path + ".horaires"@,
    ) matches Some(Ok(_)))
    &&& child.name == "services"@ ==> forall|i: int|
        #![trigger child.children[i]]
        0 <= i < child.children.len() ==> child.children[i].name == "service"@
            && child.children[i].text is Some
    &&& child.name == "prix"@ && child.attributes.len() > 0 ==> has_fuel && maj is Some
        && time::is_date(maj->Some_0, format) && valeur is Some && number::is_real(valeur->Some_0)
    &&& child.name == "rupture"@ && child.attributes.len() > 0 ==> has_fuel && has_start && has_end
    &&& child.name == "fermeture"@ && child.attributes.len() > 0 ==> (kind == Some(seq!['T'])
        || kind == Some(seq!['D'])) && has_start && has_end
    &&& strict ==> is_known_child(child.name)
}

#[verifier::spinoff_prover]
proof fn well_formed_child_is_read(
    draft: DraftView,
    child: ElementView,
    path: Seq<char>,
    strict: bool,
    format: DateFormat,
)
    ensures
        is_well_formed(child, path, strict, format) <==> (draft_with(
            draft,
            child,
            path,
            strict,
            format,
        ) matches Some(Ok(_))),
{
    single_names_differ();
    child_names_differ();
    if child.name == "services"@ {
        services_are_what_their_elements_say(child.children, path + ".services"@);
    } else if child.name == "prix"@ {
        prices_are_what_their_elements_say(
            child,
            path + text::indexed_name(".prix"@, draft.price_count),
            format,
        );
    } else if child.name == "rupture"@ {
        shortages_are_what_their_elements_say(
            child,
            path + text::indexed_name(".shortage"@, draft.shortage_count),
            format,
        );
    } else if child.name == "fermeture"@ {
        closings_are_what_their_elements_say(
            child,
            path + text::indexed_name(".fermeture"@, draft.closings.len()),
            format,
        );
    }
}

/// Whether all children are well-formed.
pub open spec fn all_well_formed(
    children: Seq<ElementView>,
    path: Seq<char>,
    strict: bool,
    format: DateFormat,
) -> bool {
    forall|i: int|
        0 <= i < children.len() ==> is_well_formed(#[trigger] children[i], path, strict, format)
}

proof fn well_formed_children_are_read(
    children: Seq<ElementView>,
    path: Seq<char>,
    strict: bool,
    format: DateFormat,
)
    ensures
        all_well_formed(children, path, strict, format) <==> (draft_from(
            children,
            0,
            blank_draft(),
            path,
            strict,
            format,
        ) matches Some(Ok(_))),
    decreases children.len(),
{
    if children.len() > 0 {
        let front = children.drop_last();
        let last = children.last();
        assert(front.push(last) =~= children);
        well_formed_children_are_read(front, path, strict, format);
        last_child_comes_last(front, last, 0, blank_draft(), path, strict, format);
        assert(all_well_formed(children, path, strict, format) <==> all_well_formed(
            front,
            path,
            strict,
            format,
        ) && is_well_formed(last, path, strict, format)) by {
            assert(children[children.len() - 1] == last);
            assert(forall|i: int| 0 <= i < front.len() ==> front[i] == children[i]);
            if all_well_formed(children, path, strict, format) {
                assert forall|i: int| 0 <= i < front.len() implies is_well_formed(
                    #[trigger] front[i],
                    path,
                    strict,
                    format,
                ) by {
                    assert(is_well_formed(children[i], path, strict, format));
                }
            }
        }
        if let Some(Ok(draft)) = draft_from(front, 0, blank_draft(), path, strict, format) {
            well_formed_child_is_read(draft, last, path, strict, format);
        }
    }
}

/// A station is read exactly where all its children are well-formed, one of them gives an address,
/// and its id, zip code, kind of road and coordinates are well-formed. Read strictly it may have no
/// child that is not known.
pub proof fn well_formed_stations_are_read(
    node: ElementView,
    path: Seq<char>,
    strict: bool,
    format: DateFormat,
)
    ensures
        ({
            let latitude = xml::attribute_of(node.attributes, "latitude"@);
            let longitude = xml::attribute_of(node.attributes, "longitude"@);
            let pop = xml::attribute_of(node.attributes, "pop"@);
            (station_of(node, path, strict, format) matches Some(Ok(_))) <==> {
                &&& all_well_formed(node.children, path, strict, format)
                &&& !none_called(node.children, "adresse"@)
                &&& xml::attribute_of(node.attributes, "id"@) is Some
                &&& xml::attribute_of(node.attributes, "cp"@) is Some
                &&& pop == Some(seq!['R']) || pop == Some(seq!['A']) || pop == Some(seq!['N'])
                &&& latitude is Some && (latitude->Some_0.len() == 0 || number::is_real(
                    latitude->Some_0,
                ))
                &&& longitude is Some && (longitude->Some_0.len() == 0 || number::is_real(
                    longitude->Some_0,
                ))
            }
        }),
{
    well_formed_children_are_read(node.children, path, strict, format);
    if let Some(Ok(draft)) = draft_from(
        node.children,
        0,
        blank_draft(),
        path,
        strict,
        format,
    ) {
        draft_has_last_parts(node.children, path, strict, format);
        locations_are_what_their_elements_say(node, path, draft.city, draft.address);
        if let Some(pop) = xml::attribute_of(node.attributes, "pop"@) {
            roads_have_letters(pop, path);
        }
        if !none_called(node.children, "adresse"@) {
            some_is_last(node.children, "adresse"@);
        }
    }
}

proof fn some_is_last(children: Seq<ElementView>, name: Seq<char>)
    requires
        !none_called(children, name),
    ensures
        exists|i: int| #[trigger] is_last_called(children, name, i),
    decreases children.len(),
{
    let front = children.drop_last();
    let last = children.last();
    assert(front.push(last) =~= children);
    if last.name == name {
        assert(is_last_called(children, name, children.len() - 1));
    } else {
        last_called_push(front, last, name, 0);
        some_is_last(front, name);
        let i = choose|i: int| #[trigger] is_last_called(front, name, i);
        last_called_push(front, last, name, i);
        assert(is_last_called(children, name, i));
    }
}

/// Read strictly, a station with a child that is not known is refused for that child, unless an
/// earlier child is malformed.
pub proof fn strict_reading_names_what_it_does_not_know(
    node: ElementView,
    at: int,
    path: Seq<char>,
    format: DateFormat,
)
    requires
        0 <= at < node.children.len(),
        !is_known_child(node.children[at].name),
        all_well_formed(node.children.take(at), path, true, format),
    ensures
        station_of(node, path, true, format) == Some(
            Err::<StationView, ErrorView>(
                ErrorView::UnhandledNode { path, node: node.children[at].name },
            ),
        ),
{
    let before = node.children.take(at);
    well_formed_children_are_read(before, path, true, format);
    let draft = draft_from(before, 0, blank_draft(), path, true, format)->Some_0->Ok_0;
    unknown_child_is_refused(draft, node.children[at], path, format);
    faults_stay(
        node.children,
        at,
        path,
        true,
        format,
        draft,
        draft_with(draft, node.children[at], path, true, format),
    );
}

proof fn unknown_child_is_refused(
    draft: DraftView,
    child: ElementView,
    path: Seq<char>,
    format: DateFormat,
)
    requires
        !is_known_child(child.name),
    ensures
        draft_with(draft, child, path, true, format) == Some(
            Err::<DraftView, ErrorView>(ErrorView::UnhandledNode { path, node: child.name }),
        ),
{
}

/// The closings of a station are those of its elements `fermeture` with an attribute, one by one and
/// in document order: each begins and ends as its element says, and has no end where the element
/// says none.
pub proof fn closings_of_a_station_end_as_they_say(
    node: ElementView,
    path: Seq<char>,
    strict: bool,
    format: DateFormat,
    k: int,
)
    requires
        station_of(node, path, strict, format) matches Some(Ok(_)),
        0 <= k < counted(node.children, "fermeture"@).len(),
    ensures
        ({
            let closings = station_of(node, path, strict, format)->Some_0->Ok_0.closings;
            let element = counted(node.children, "fermeture"@)[k];
            let kind = xml::attribute_of(element.attributes, "type"@);
            let debut = xml::attribute_of(element.attributes, "debut"@);
            let fin = xml::attribute_of(element.attributes, "fin"@);
            &&& closings.len() == counted(node.children, "fermeture"@).len()
            &&& closings[k].temporary ==> kind == Some(seq!['T'])
            &&& !closings[k].temporary ==> kind == Some(seq!['D'])
            &&& debut is Some && exists|p: Seq<char>| #[trigger]
                time::date_of(debut->Some_0, format, p) == Ok::<DateTime, ErrorView>(
                    closings[k].start,
                )
            &&& fin is Some && (closings[k].end is None <==> fin->Some_0.len() == 0)
            &&& closings[k].end is Some ==> exists|p: Seq<char>| #[trigger]
                time::date_of(fin->Some_0, format, p) == Ok::<DateTime, ErrorView>(
                    closings[k].end->Some_0,
                )
        }),
{
    stations_list_their_children(node, path, strict, format, Fuel::Diesel, k);
    let elements = counted(node.children, "fermeture"@);
    let p = path + text::indexed_name(".fermeture"@, k as nat);
    closings_are_what_their_elements_say(elements[k], p, format);
    assert(closing_at(elements, k, path, format) == closing_of(elements[k], p, format));
}

proof fn of_fuel_holds<V>(all: Seq<(Fuel, V)>, k: int)
    requires
        0 <= k < all.len(),
    ensures
        of_fuel(all, all[k].0).contains(all[k].1),
    decreases all.len(),
{
    let front = all.drop_last();
    let last = all.last();
    let fuel = all[k].0;
    assert(front.push(last) =~= all);
    of_fuel_push(front, last, fuel);
    if k == all.len() - 1 {
        assert(of_fuel(all, fuel)[of_fuel(front, fuel).len() as int] == last.1);
    } else {
        assert(front[k] == all[k]);
        of_fuel_holds(front, k);
        let m = choose|m: int|
            0 <= m < of_fuel(front, fuel).len() && of_fuel(front, fuel)[m] == all[k].1;
        assert(of_fuel(all, fuel)[m] == all[k].1);
    }
}

/// A station has the price of each of its elements `prix` with an attribute, under the fuel that the
/// element names: of the date and as high as the element says.
pub proof fn stations_have_the_prices_of_their_elements(
    node: ElementView,
    path: Seq<char>,
    strict: bool,
    format: DateFormat,
    k: int,
)
    requires
        station_of(node, path, strict, format) matches Some(Ok(_)),
        0 <= k < counted(node.children, "prix"@).len(),
    ensures
        ({
            let station = station_of(node, path, strict, format)->Some_0->Ok_0;
            let element = counted(node.children, "prix"@)[k];
            let maj = xml::attribute_of(element.attributes, "maj"@);
            let valeur = xml::attribute_of(element.attributes, "valeur"@);
            exists|fuel: Fuel, price: PriceView|
                #![trigger station.prices.spec_get(fuel).contains(price)]
                station.prices.spec_get(fuel).contains(price) && xml::attribute_of(
                    element.attributes,
                    "nom"@,
                ) == Some(model::fuel_name(fuel)) && valeur == Some(price.price) && maj is Some
                    && exists|p: Seq<char>| #[trigger]
                    time::date_of(maj->Some_0, format, p) == Ok::<DateTime, ErrorView>(
                        price.updated_at,
                    )
        }),
{
    let station = station_of(node, path, strict, format)->Some_0->Ok_0;
    let elements = counted(node.children, "prix"@);
    let p = path + text::indexed_name(".prix"@, k as nat);
    stations_list_their_children(node, path, strict, format, Fuel::Diesel, k);
    prices_are_what_their_elements_say(elements[k], p, format);
    let (fuel, price) = price_of(elements[k], p, format)->Ok_0;
    assert(price_at(elements, k, path, format) == price_of(elements[k], p, format));
    stations_list_their_children(node, path, strict, format, fuel, k);
    let all = prices_at(elements, path, format);
    assert(all[k] == (fuel, price));
    of_fuel_holds(all, k);
    assert(station.prices.spec_get(fuel).contains(price));
}

/// A station has the shortage of each of its elements `rupture` with an attribute, under the fuel
/// that the element names: it begins and ends as the element says.
pub proof fn stations_have_the_shortages_of_their_elements(
    node: ElementView,
    path: Seq<char>,
    strict: bool,
    format: DateFormat,
    k: int,
)
    requires
        station_of(node, path, strict, format) matches Some(Ok(_)),
        0 <= k < counted(node.children, "rupture"@).len(),
    ensures
        ({
            let station = station_of(node, path, strict, format)->Some_0->Ok_0;
            let element = counted(node.children, "rupture"@)[k];
            let debut = xml::attribute_of(element.attributes, "debut"@);
            let fin = xml::attribute_of(element.attributes, "fin"@);
            exists|fuel: Fuel, shortage: Shortage|
                #![trigger station.shortages.spec_get(fuel).contains(shortage)]
                station.shortages.spec_get(fuel).contains(shortage) && xml::attribute_of(
                    element.attributes,
                    "nom"@,
                ) == Some(model::fuel_name(fuel)) && debut is Some && fin is Some && (exists|
                    p: Seq<char>,
                | #[trigger]
                    time::date_of(debut->Some_0, format, p) == Ok::<DateTime, ErrorView>(
                        shortage.start,
                    )) && (shortage.end is None <==> fin->Some_0.len() == 0) && (shortage.end
                    is Some ==> exists|p: Seq<char>| #[trigger]
                    time::date_of(fin->Some_0, format, p) == Ok::<DateTime, ErrorView>(
                        shortage.end->Some_0,
                    ))
        }),
{
    let station = station_of(node, path, strict, format)->Some_0->Ok_0;
    let elements = counted(node.children, "rupture"@);
    let p = path + text::indexed_name(".shortage"@, k as nat);
    stations_list_their_children(node, path, strict, format, Fuel::Diesel, k);
    shortages_are_what_their_elements_say(elements[k], p, format);
    let (fuel, shortage) = shortage_of(elements[k], p, format)->Ok_0;
    assert(shortage_at(elements, k, path, format) == shortage_of(elements[k], p, format));
    stations_list_their_children(node, path, strict, format, fuel, k);
    let all = shortages_at(elements, path, format);
    assert(all[k] == (fuel, shortage));
    of_fuel_holds(all, k);
    assert(station.shortages.spec_get(fuel).contains(shortage));
}

/// Of the attributes of a price the first one that is missing or malformed decides: its fuel, its
/// date, and how high it is.
pub proof fn the_first_fault_of_a_price_decides(
    node: ElementView,
    path: Seq<char>,
    format: DateFormat,
)
    ensures
        ({
            let nom = xml::attribute_of(node.attributes, "nom"@);
            let maj = xml::attribute_of(node.attributes, "maj"@);
            let valeur = xml::attribute_of(node.attributes, "valeur"@);
            let e = price_of(node, path, format)->Err_0;
            price_of(node, path, format) is Err ==> if nom is None {
                e == (ErrorView::MissingAttribute { path, attribute: "nom"@ })
            } else if model::parsed_fuel(nom->Some_0, path) is Err {
                e == (ErrorView::UnknownFuelType { path, fuel: nom->Some_0 })
            } else if maj is None {
                e == (ErrorView::MissingAttribute { path, attribute: "maj"@ })
            } else if time::date_of(maj->Some_0, format, path) is Err {
                e == time::date_of(maj->Some_0, format, path)->Err_0
            } else if valeur is None {
                e == (ErrorView::MissingAttribute { path, attribute: "valeur"@ })
            } else {
                e == (ErrorView::InvalidFloat { path, value: valeur->Some_0 })
            }
        }),
{
}

/// Of the attributes of a shortage the first one that is missing or malformed decides: its fuel, its
/// beginning, and its end.
pub proof fn the_first_fault_of_a_shortage_decides(
    node: ElementView,
    path: Seq<char>,
    format: DateFormat,
)
    ensures
        ({
            let nom = xml::attribute_of(node.attributes, "nom"@);
            let debut = xml::attribute_of(node.attributes, "debut"@);
            let fin = xml::attribute_of(node.attributes, "fin"@);
            let e = shortage_of(node, path, format)->Err_0;
            shortage_of(node, path, format) is Err ==> if nom is None {
                e == (ErrorView::MissingAttribute { path, attribute: "nom"@ })
            } else if model::parsed_fuel(nom->Some_0, path) is Err {
                e == (ErrorView::UnknownFuelType { path, fuel: nom->Some_0 })
            } else if debut is None {
                e == (ErrorView::MissingAttribute { path, attribute: "debut"@ })
            } else if time::date_of(debut->Some_0, format, path) is Err {
                e == time::date_of(debut->Some_0, format, path)->Err_0
            } else if fin is None {
                e == (ErrorView::MissingAttribute { path, attribute: "fin"@ })
            } else {
                time::date_of(fin->Some_0, format, path) is Err && e == time::date_of(
                    fin->Some_0,
                    format,
                    path,
                )->Err_0
            }
        }),
{
}

/// Of the attributes of a closing the first one that is missing or malformed decides: its kind, its
/// beginning, and its end.
pub proof fn the_first_fault_of_a_closing_decides(
    node: ElementView,
    path: Seq<char>,
    format: DateFormat,
)
    ensures
        ({
            let kind = xml::attribute_of(node.attributes, "type"@);
            let debut = xml::attribute_of(node.attributes, "debut"@);
            let fin = xml::attribute_of(node.attributes, "fin"@);
            let e = closing_of(node, path, format)->Err_0;
            closing_of(node, path, format) is Err ==> if kind is None {
                e == (ErrorView::MissingAttribute { path, attribute: "type"@ })
            } else if kind != Some(seq!['T']) && kind != Some(seq!['D']) {
                e == ErrorView::InvalidClosingType(path)
            } else if debut is None {
                e == (ErrorView::MissingAttribute { path, attribute: "debut"@ })
            } else if time::date_of(debut->Some_0, format, path) is Err {
                e == time::date_of(debut->Some_0, format, path)->Err_0
            } else if fin is None {
                e == (ErrorView::MissingAttribute { path, attribute: "fin"@ })
            } else {
                time::date_of(fin->Some_0, format, path) is Err && e == time::date_of(
                    fin->Some_0,
                    format,
                    path,
                )->Err_0
            }
        }),
{
    reveal_strlit("T");
    reveal_strlit("D");
    assert("T"@ =~= seq!['T']);
    assert("D"@ =~= seq!['D']);
}

/// Of what a location needs the first that is missing or malformed decides: the latitude, the
/// longitude, the kind of road, the address, and the zip code.
pub proof fn the_first_fault_of_a_location_decides(
    node: ElementView,
    path: Seq<char>,
    city: Option<Seq<char>>,
    address: Option<Seq<char>>,
)
    ensures
        ({
            let latitude = xml::attribute_of(node.attributes, "latitude"@);
            let longitude = xml::attribute_of(node.attributes, "longitude"@);
            let pop = xml::attribute_of(node.attributes, "pop"@);
            let e = location_of(node, path, city, address)->Err_0;
            location_of(node, path, city, address) is Err ==> if latitude is None {
                e == (ErrorView::MissingAttribute { path, attribute: "latitude"@ })
            } else if latitude->Some_0.len() > 0 && !number::is_real(latitude->Some_0) {
                e == (ErrorView::InvalidFloat { path, value: latitude->Some_0 })
            } else if longitude is None {
                e == (ErrorView::MissingAttribute { path, attribute: "longitude"@ })
            } else if longitude->Some_0.len() > 0 && !number::is_real(longitude->Some_0) {
                e == (ErrorView::InvalidFloat { path, value: longitude->Some_0 })
            } else if pop is None {
                e == (ErrorView::MissingAttribute { path, attribute: "pop"@ })
            } else if pop != Some(seq!['R']) && pop != Some(seq!['A']) && pop != Some(seq!['N']) {
                e == ErrorView::InvalidRoadKind(path)
            } else if address is None {
                e == (ErrorView::MissingNode { path, node: "adresse"@ })
            } else {
                e == (ErrorView::MissingAttribute { path, attribute: "cp"@ })
            }
        }),
{
    if xml::attribute_of(node.attributes, "latitude"@) is Some {
        attr::numbers_are_kept_as_they_stand(node, "latitude"@, path);
    }
    if xml::attribute_of(node.attributes, "longitude"@) is Some {
        attr::numbers_are_kept_as_they_stand(node, "longitude"@, path);
    }
    if let Some(pop) = xml::attribute_of(node.attributes, "pop"@) {
        roads_have_letters(pop, path);
    }
}

/// Of the services of a station the first one that is malformed decides: an element with another name
/// is refused as that, and one without a text for that.
pub proof fn the_first_fault_of_services_decides(
    nodes: Seq<ElementView>,
    path: Seq<char>,
    at: int,
)
    requires
        0 <= at < nodes.len(),
        forall|i: int|
            #![trigger nodes[i]]
            0 <= i < at ==> nodes[i].name == "service"@ && nodes[i].text is Some,
    ensures
        nodes[at].name != "service"@ ==> services_from(nodes, 0, path) == Err::<
            Seq<Seq<char>>,
            ErrorView,
        >(ErrorView::UnexpectedNode { path, got: nodes[at].name, expected: "service"@ }),
        nodes[at].name == "service"@ && nodes[at].text is None ==> services_from(nodes, 0, path)
            == Err::<Seq<Seq<char>>, ErrorView>(
            ErrorView::MissingValue(
                path + (".service"@ + seq!['['] + text::decimal_text(at as nat) + seq![']']),
            ),
        ),
{
    text::positions_stand_in_brackets(".service"@, at as nat);
    services_up_to(nodes, 0, path, at);
}

proof fn services_up_to(nodes: Seq<ElementView>, from: int, path: Seq<char>, at: int)
    requires
        0 <= from <= at < nodes.len(),
        forall|i: int|
            #![trigger nodes[i]]
            0 <= i < at ==> nodes[i].name == "service"@ && nodes[i].text is Some,
    ensures
        services_from(nodes, at, path) matches Err(e) ==> services_from(nodes, from, path) == Err::<
            Seq<Seq<char>>,
            ErrorView,
        >(e),
    decreases at - from,
{
    if from < at {
        assert(nodes[from].name == "service"@);
        services_up_to(nodes, from + 1, path, at);
    }
}

#[verifier::spinoff_prover]
proof fn faults_stay(
    children: Seq<ElementView>,
    at: int,
    path: Seq<char>,
    strict: bool,
    format: DateFormat,
    draft: DraftView,
    fault: Option<Result<DraftView, ErrorView>>,
)
    requires
        0 <= at < children.len(),
        draft_from(children.take(at), 0, blank_draft(), path, strict, format) == Some(
            Ok::<DraftView, ErrorView>(draft),
        ),
        draft_with(draft, children[at], path, strict, format) == fault,
        !(fault matches Some(Ok(_))),
    ensures
        draft_from(children, 0, blank_draft(), path, strict, format) == fault,
    decreases children.len(),
{
    let front = children.drop_last();
    let last = children.last();
    assert(front.push(last) =~= children);
    last_child_comes_last(front, last, 0, blank_draft(), path, strict, format);
    if at == children.len() - 1 {
        assert(children.take(at) =~= front);
    } else {
        assert(front.take(at) =~= children.take(at));
        assert(front[at] == children[at]);
        faults_stay(front, at, path, strict, format, draft, fault);
    }
}

/// Of the children of a station the first one that is malformed decides. The fault of a price, a
/// shortage or a closing is met at its position among those of its kind that count.
pub proof fn the_first_malformed_child_decides(
    node: ElementView,
    at: int,
    path: Seq<char>,
    strict: bool,
    format: DateFormat,
)
    requires
        0 <= at < node.children.len(),
        all_well_formed(node.children.take(at), path, strict, format),
    ensures
        ({
            let before = node.children.take(at);
            let child = node.children[at];
            let prices = counted(before, "prix"@).len();
            let shortages = counted(before, "rupture"@).len();
            let closings = counted(before, "fermeture"@).len();
            let result = station_of(node, path, strict, format);
            &&& child.name == "adresse"@ && child.text is None ==> result == Some(
                Err::<StationView, ErrorView>(ErrorView::MissingValue(path + ".adresse"@)),
            )
            &&& child.name == "horaires"@ ==> (schedule::schedule_of(
                child,
                path + ".horaires"@,
            ) matches Some(Err(e)) ==> result == Some(Err::<StationView, ErrorView>(e)))
            &&& child.name == "horaires"@ && schedule::schedule_of(child, path + ".horaires"@)
                is None ==> result is None
            &&& child.name == "services"@ ==> (services_from(
                child.children,
                0,
                path + ".services"@,
            ) matches Err(e) ==> result == Some(Err::<StationView, ErrorView>(e)))
            &&& counts(child, "prix"@) ==> (price_of(
                child,
                path + text::indexed_name(".prix"@, prices),
                format,
            ) matches Err(e) ==> result == Some(Err::<StationView, ErrorView>(e)))
            &&& counts(child, "rupture"@) ==> (shortage_of(
                child,
                path + text::indexed_name(".shortage"@, shortages),
                format,
            ) matches Err(e) ==> result == Some(Err::<StationView, ErrorView>(e)))
            &&& counts(child, "fermeture"@) ==> (closing_of(
                child,
                path + text::indexed_name(".fermeture"@, closings),
                format,
            ) matches Err(e) ==> result == Some(Err::<StationView, ErrorView>(e)))
        }),
{
    let before = node.children.take(at);
    let child = node.children[at];
    well_formed_children_are_read(before, path, strict, format);
    draft_has_lists(before, path, strict, format);
    let draft = draft_from(before, 0, blank_draft(), path, strict, format)->Some_0->Ok_0;
    let fault = draft_with(draft, child, path, strict, format);
    if !(fault matches Some(Ok(_))) {
        faults_stay(node.children, at, path, strict, format, draft, fault);
    }
    faults_of_children(draft, child, path, strict, format);
}

#[verifier::spinoff_prover]
proof fn faults_of_children(
    draft: DraftView,
    child: ElementView,
    path: Seq<char>,
    strict: bool,
    format: DateFormat,
)
    ensures
        ({
            let result = draft_with(draft, child, path, strict, format);
            &&& child.name == "adresse"@ && child.text is None ==> result == Some(
                Err::<DraftView, ErrorView>(ErrorView::MissingValue(path + ".adresse"@)),
            )
            &&& child.name == "horaires"@ ==> (schedule::schedule_of(
                child,
                path + ".horaires"@,
            ) matches Some(Err(e)) ==> result == Some(Err::<DraftView, ErrorView>(e)))
            &&& child.name == "horaires"@ && schedule::schedule_of(child, path + ".horaires"@)
                is None ==> result is None
            &&& child.name == "services"@ ==> (services_from(
                child.children,
                0,
                path + ".services"@,
            ) matches Err(e) ==> result == Some(Err::<DraftView, ErrorView>(e)))
            &&& counts(child, "prix"@) ==> (price_of(
                child,
                path + text::indexed_name(".prix"@, draft.price_count),
                format,
            ) matches Err(e) ==> result == Some(Err::<DraftView, ErrorView>(e)))
            &&& counts(child, "rupture"@) ==> (shortage_of(
                child,
                path + text::indexed_name(".shortage"@, draft.shortage_count),
                format,
            ) matches Err(e) ==> result == Some(Err::<DraftView, ErrorView>(e)))
            &&& counts(child, "fermeture"@) ==> (closing_of(
                child,
                path + text::indexed_name(".fermeture"@, draft.closings.len()),
                format,
            ) matches Err(e) ==> result == Some(Err::<DraftView, ErrorView>(e)))
        }),
{
    single_names_differ();
    child_names_differ();
}

/// A station whose children are all well-formed is refused for its id, where it has none, and else for
/// its location, where that is malformed.
pub proof fn stations_need_an_id_and_a_location(
    node: ElementView,
    path: Seq<char>,
    strict: bool,
    format: DateFormat,
)
    requires
        all_well_formed(node.children, path, strict, format),
    ensures
        xml::attribute_of(node.attributes, "id"@) is None ==> station_of(node, path, strict, format)
            == Some(
            Err::<StationView, ErrorView>(
                ErrorView::MissingAttribute { path, attribute: "id"@ },
            ),
        ),
        xml::attribute_of(node.attributes, "id"@) is Some ==> exists|
            city: Option<Seq<char>>,
            address: Option<Seq<char>>,
        |
            #![trigger location_of(node, path, city, address)]
            (address is None <==> none_called(node.children, "adresse"@)) && (location_of(
                node,
                path,
                city,
                address,
            ) matches Err(e) ==> station_of(node, path, strict, format) == Some(
                Err::<StationView, ErrorView>(e),
            )),
{
    well_formed_children_are_read(node.children, path, strict, format);
    draft_has_last_parts(node.children, path, strict, format);
    let draft = draft_from(
        node.children,
        0,
        blank_draft(),
        path,
        strict,
        format,
    )->Some_0->Ok_0;
    if !none_called(node.children, "adresse"@) {
        some_is_last(node.children, "adresse"@);
    }
    let location = location_of(node, path, draft.city, draft.address);
    if xml::attribute_of(node.attributes, "id"@) is Some {
        assert((draft.address is None <==> none_called(node.children, "adresse"@)) && (
        location matches Err(e) ==> station_of(node, path, strict, format) == Some(
            Err::<StationView, ErrorView>(e),
        )));
    }
}

} // verus!
