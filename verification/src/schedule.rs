//! Reads the opening times of a station.

use vstd::prelude::*;

use crate::attr;
use crate::error;
use crate::error::Error;
#[allow(unused_imports)]
use crate::error::ErrorView;
use crate::model::{Hours, OpenedHours, Schedule, TimeOfDay};
#[allow(unused_imports)]
use crate::model::{HoursView, ScheduleView};
#[allow(unused_imports)]
use crate::number;
use crate::text;
use crate::xml::Element;
#[allow(unused_imports)]
use crate::xml::{self, ElementView};

verus! {

/// The interval of an element `horaire`.
pub open spec fn opening_of(node: ElementView, path: Seq<char>) -> Result<OpenedHours, ErrorView> {
    match attr::time_of_day_value(node, "ouverture"@, path) {
        Err(e) => Err(e),
        Ok(opening) => match attr::time_of_day_value(node, "fermeture"@, path) {
            Err(e) => Err(e),
            Ok(closing) => Ok(OpenedHours { opening, closing }),
        },
    }
}

/// Reads an interval during which a station is open.
pub fn parse_opening(node: &Element, path: &str) -> (r: Result<OpenedHours, Error>)
    ensures
        error::seen(r) == opening_of(node@, path@),
{
    let opening: TimeOfDay = attr::time_of_day_attr(node, "ouverture", path)?;
    let closing: TimeOfDay = attr::time_of_day_attr(node, "fermeture", path)?;
    Ok(OpenedHours { opening, closing })
}

/// The intervals of the elements from `i` on, all of which have to be `horaire`.
pub open spec fn openings_from(nodes: Seq<ElementView>, i: int, path: Seq<char>) -> Result<
    Seq<OpenedHours>,
    ErrorView,
>
    decreases nodes.len() - i,
{
    if i >= nodes.len() {
        Ok(seq![])
    } else if nodes[i].name != "horaire"@ {
        Err(ErrorView::UnexpectedNode { path, got: nodes[i].name, expected: "horaire"@ })
    } else {
        match opening_of(nodes[i], path + text::indexed_name(".horaire"@, i as nat)) {
            Err(e) => Err(e),
            Ok(opening) => match openings_from(nodes, i + 1, path) {
                Err(e) => Err(e),
                Ok(rest) => Ok(seq![opening] + rest),
            },
        }
    }
}

/// Reads the intervals of one day.
fn parse_openings(node: &Element, path: &str) -> (r: Result<Vec<OpenedHours>, Error>)
    ensures
        error::seen(r) == openings_from(node@.children, 0, path@),
{
    let ghost all = node@.children;
    proof {
        xml::children_view(*node);
    }
    let mut openings: Vec<OpenedHours> = Vec::new();
    for i in 0..node.children.len()
        invariant
            all == xml::elements(node.children@),
            all == node@.children,
            openings_from(all, 0, path@) == (match openings_from(all, i as int, path@) {
                Err(e) => Err::<Seq<OpenedHours>, ErrorView>(e),
                Ok(rest) => Ok(openings.deep_view() + rest),
            }),
    {
        let child: &Element = &node.children[i];
        assert(child@ == all[i as int]);
        if !child.has_tag_name("horaire") {
            return Err(
                Error::UnexpectedNode {
                    path: path.to_owned(),
                    got: child.name.clone(),
                    expected: "horaire",
                },
            );
        }
        let child_path: String = path.to_owned().concat(text::indexed(".horaire", i).as_str());
        let ghost before = openings.deep_view();
        let opening: OpenedHours = parse_opening(child, child_path.as_str())?;
        openings.push(opening);
        proof {
            assert(openings.deep_view() =~= before.push(opening));
            if let Ok(rest) = openings_from(all, i + 1, path@) {
                assert(before + (seq![opening] + rest) =~= before.push(opening) + rest);
            }
        }
    }
    assert(openings.deep_view() + Seq::<OpenedHours>::empty() =~= openings.deep_view());
    Ok(openings)
}

/// What a day is, given whether it is marked as closed.
pub open spec fn hours_of(node: ElementView, closed: bool, path: Seq<char>) -> Result<
    HoursView,
    ErrorView,
> {
    if closed {
        Ok(HoursView::Closed)
    } else {
        match openings_from(node.children, 0, path) {
            Err(e) => Err(e),
            Ok(v) => Ok(HoursView::Open(v)),
        }
    }
}

/// The day that an element `jour` describes and its number in the week, counted from one.
pub open spec fn day_of(node: ElementView, path: Seq<char>) -> Result<(i64, HoursView), ErrorView> {
    match attr::int_value(node, "id"@, path) {
        Err(e) => Err(e),
        Ok(id) => match attr::bool_value(node, "ferme"@, path) {
            Err(e) => Err(e),
            Ok(closed) => match hours_of(node, closed, path) {
                Err(e) => Err(e),
                Ok(hours) => Ok((id, hours)),
            },
        },
    }
}

/// Reads one day and its number in the week.
fn parse_day(node: &Element, path: &str) -> (r: Result<(i64, Hours), Error>)
    ensures
        error::seen(r) == day_of(node@, path@),
{
    let id: i64 = attr::int_attr(node, "id", path)?;
    let closed: bool = attr::bool_attr(node, "ferme", path)?;
    if closed {
        Ok((id, Hours::Closed))
    } else {
        let openings: Vec<OpenedHours> = parse_openings(node, path)?;
        Ok((id, Hours::Open(openings)))
    }
}

/// The days of the week after the elements from `i` on are read into `week`. Nothing comes of a
/// day with a number outside of the week.
pub open spec fn days_from(
    nodes: Seq<ElementView>,
    i: int,
    week: Seq<Option<HoursView>>,
    path: Seq<char>,
) -> Option<Result<Seq<Option<HoursView>>, ErrorView>>
    decreases nodes.len() - i,
{
    if i >= nodes.len() {
        Some(Ok(week))
    } else if nodes[i].name != "jour"@ {
        Some(Err(ErrorView::UnexpectedNode { path, got: nodes[i].name, expected: "jour"@ }))
    } else {
        match day_of(nodes[i], path + text::indexed_name(".jour"@, i as nat)) {
            Err(e) => Some(Err(e)),
            Ok((id, hours)) => if 1 <= id <= 7 {
                days_from(nodes, i + 1, week.update(id - 1, Some(hours)), path)
            } else {
                None
            },
        }
    }
}

/// The days from `i` on, when none of them is missing.
pub open spec fn week_from(week: Seq<Option<HoursView>>, i: int, path: Seq<char>) -> Result<
    Seq<HoursView>,
    ErrorView,
>
    decreases week.len() - i,
{
    if i >= week.len() {
        Ok(seq![])
    } else {
        match week[i] {
            None => Err(
                ErrorView::MissingNode { path, node: text::indexed_name("jour"@, i as nat) },
            ),
            Some(hours) => match week_from(week, i + 1, path) {
                Err(e) => Err(e),
                Ok(rest) => Ok(seq![hours] + rest),
            },
        }
    }
}

/// A week of which no day is known.
pub open spec fn blank_week() -> Seq<Option<HoursView>> {
    Seq::new(7, |i: int| None)
}

/// The opening times that an element `horaires` describes. There is no answer where a day that
/// is reached has a number outside of 1 to 7.
pub open spec fn schedule_of(node: ElementView, path: Seq<char>) -> Option<
    Result<ScheduleView, ErrorView>,
> {
    match attr::bool_value(node, "automate-24-24"@, path) {
        Err(e) => Some(Err(e)),
        Ok(automatic) => match days_from(node.children, 0, blank_week(), path) {
            None => None,
            Some(Err(e)) => Some(Err(e)),
            Some(Ok(week)) => match week_from(week, 0, path) {
                Err(e) => Some(Err(e)),
                Ok(days) => Some(Ok(ScheduleView { automatic, days })),
            },
        },
    }
}

/// Turns a complete week into the days of a schedule.
fn complete_week(week: Vec<Option<Hours>>, path: &str) -> (r: Result<[Hours; 7], Error>)
    requires
        week@.len() == 7,
    ensures
        (match r {
            Err(e) => Err::<Seq<HoursView>, ErrorView>(e@),
            Ok(days) => Ok(Seq::new(7, |i: int| days@[i].deep_view())),
        }) == week_from(week.deep_view(), 0, path@),
{
    let ghost all = week.deep_view();
    for i in 0..7
        invariant
            week@.len() == 7,
            all == week.deep_view(),
            forall|j: int| 0 <= j < i ==> all[j] is Some,
    {
        assert(all[i as int] == week@[i as int].deep_view());
        if week[i].is_none() {
            proof {
                missing_day(all, 0, i as int, path@);
            }
            return Err(
                Error::MissingNode { path: path.to_owned(), node: text::indexed("jour", i) },
            );
        }
    }
    proof {
        full_week(all, 0, path@);
        assert forall|j: int| 0 <= j < 7 implies week@[j] is Some by {
            assert(all[j] == week@[j].deep_view());
        }
    }
    let mut week = week;
    let d6: Hours = week.pop().unwrap().unwrap();
    let d5: Hours = week.pop().unwrap().unwrap();
    let d4: Hours = week.pop().unwrap().unwrap();
    let d3: Hours = week.pop().unwrap().unwrap();
    let d2: Hours = week.pop().unwrap().unwrap();
    let d1: Hours = week.pop().unwrap().unwrap();
    let d0: Hours = week.pop().unwrap().unwrap();
    let days: [Hours; 7] = [d0, d1, d2, d3, d4, d5, d6];
    assert(Seq::new(7, |i: int| days@[i].deep_view()) =~= Seq::new(
        7,
        |i: int| all[0 + i]->Some_0,
    ));
    Ok(days)
}

proof fn missing_day(week: Seq<Option<HoursView>>, from: int, i: int, path: Seq<char>)
    requires
        0 <= from <= i < week.len(),
        forall|j: int| from <= j < i ==> week[j] is Some,
        week[i] is None,
    ensures
        week_from(week, from, path) == Err::<Seq<HoursView>, ErrorView>(
            ErrorView::MissingNode { path, node: text::indexed_name("jour"@, i as nat) },
        ),
    decreases i - from,
{
    if from < i {
        missing_day(week, from + 1, i, path);
    }
}

proof fn full_week(week: Seq<Option<HoursView>>, from: int, path: Seq<char>)
    requires
        0 <= from <= week.len(),
        forall|j: int| from <= j < week.len() ==> week[j] is Some,
    ensures
        week_from(week, from, path) == Ok::<Seq<HoursView>, ErrorView>(
            Seq::new((week.len() - from) as nat, |i: int| week[from + i]->Some_0),
        ),
    decreases week.len() - from,
{
    let here = Seq::new((week.len() - from) as nat, |i: int| week[from + i]->Some_0);
    if from < week.len() {
        full_week(week, from + 1, path);
        let rest = Seq::new((week.len() - from - 1) as nat, |i: int| week[from + 1 + i]->Some_0);
        assert(seq![week[from]->Some_0] + rest =~= here);
    } else {
        assert(here =~= seq![]);
    }
}

/// Reads the opening times of a station. There is no answer where a day that is reached has a
/// number outside of 1 to 7.
pub fn parse_schedule(node: &Element, path: &str) -> (r: Option<Result<Schedule, Error>>)
    ensures
        error::seen_answer(r) == schedule_of(node@, path@),
{
    let automatic: bool = match attr::bool_attr(node, "automate-24-24", path) {
        Ok(b) => b,
        Err(e) => {
            return Some(Err(e));
        },
    };
    let ghost all = node@.children;
    proof {
        xml::children_view(*node);
    }
    let mut week: Vec<Option<Hours>> = Vec::new();
    for i in 0..7
        invariant
            week@.len() == i,
            forall|j: int| 0 <= j < i ==> week@[j] is None,
    {
        week.push(None);
    }
    assert(week.deep_view() =~= blank_week());
    for i in 0..node.children.len()
        invariant
            all == xml::elements(node.children@),
            all == node@.children,
            attr::bool_value(node@, "automate-24-24"@, path@) == Ok::<bool, ErrorView>(automatic),
            week@.len() == 7,
            days_from(all, 0, blank_week(), path@) == days_from(
                all,
                i as int,
                week.deep_view(),
                path@,
            ),
    {
        let child: &Element = &node.children[i];
        assert(child@ == all[i as int]);
        if !child.has_tag_name("jour") {
            return Some(
                Err(
                    Error::UnexpectedNode {
                        path: path.to_owned(),
                        got: child.name.clone(),
                        expected: "jour",
                    },
                ),
            );
        }
        let day_path: String = path.to_owned().concat(text::indexed(".jour", i).as_str());
        let ghost before = week.deep_view();
        match parse_day(child, day_path.as_str()) {
            Err(e) => {
                return Some(Err(e));
            },
            Ok((id, hours)) => {
                if id < 1 || id > 7 {
                    return None;
                }
                week.set((id - 1) as usize, Some(hours));
                assert(week.deep_view() =~= before.update(id - 1, Some(hours.deep_view())));
            },
        }
    }
    match complete_week(week, path) {
        Err(e) => Some(Err(e)),
        Ok(days) => Some(Ok(Schedule { automatic, days })),
    }
}

proof fn openings_handle_all(nodes: Seq<ElementView>, i: int, path: Seq<char>)
    ensures
        !(openings_from(nodes, i, path) matches Err(ErrorView::UnhandledNode { .. })),
    decreases nodes.len() - i,
{
    if i < nodes.len() {
        openings_handle_all(nodes, i + 1, path);
    }
}

proof fn days_handle_all(
    nodes: Seq<ElementView>,
    i: int,
    week: Seq<Option<HoursView>>,
    path: Seq<char>,
)
    ensures
        !(days_from(nodes, i, week, path) matches Some(Err(ErrorView::UnhandledNode { .. }))),
    decreases nodes.len() - i,
{
    if i < nodes.len() {
        let day_path = path + text::indexed_name(".jour"@, i as nat);
        openings_handle_all(nodes[i].children, 0, day_path);
        if let Ok((id, hours)) = day_of(nodes[i], day_path) {
            days_handle_all(nodes, i + 1, week.update(id - 1, Some(hours)), path);
        }
    }
}

proof fn week_handles_all(week: Seq<Option<HoursView>>, i: int, path: Seq<char>)
    ensures
        !(week_from(week, i, path) matches Err(ErrorView::UnhandledNode { .. })),
    decreases week.len() - i,
{
    if i < week.len() {
        week_handles_all(week, i + 1, path);
    }
}

/// No node of the opening times is refused as one that is not known.
pub proof fn schedule_handles_all(node: ElementView, path: Seq<char>)
    ensures
        !(schedule_of(node, path) matches Some(Err(ErrorView::UnhandledNode { .. }))),
{
    days_handle_all(node.children, 0, blank_week(), path);
    if let Some(Ok(week)) = days_from(node.children, 0, blank_week(), path) {
        week_handles_all(week, 0, path);
    }
}

/// The day that the element at `i` describes.
pub open spec fn day_at(nodes: Seq<ElementView>, i: int, path: Seq<char>) -> Result<
    (i64, HoursView),
    ErrorView,
> {
    day_of(nodes[i], path + text::indexed_name(".jour"@, i as nat))
}

/// Whether the element at `i` describes the day `d`, counted from zero.
pub open spec fn describes(nodes: Seq<ElementView>, i: int, path: Seq<char>, d: int) -> bool {
    day_at(nodes, i, path) matches Ok((id, _)) && id == d + 1
}

/// Whether the last description of the day `d` among the elements from `from` on is that at `i`.
pub open spec fn last_describes(
    nodes: Seq<ElementView>,
    from: int,
    i: int,
    path: Seq<char>,
    d: int,
) -> bool {
    &&& from <= i < nodes.len()
    &&& describes(nodes, i, path, d)
    &&& forall|j: int| i < j < nodes.len() ==> !(#[trigger] describes(nodes, j, path, d))
}

proof fn last_description_counts(
    nodes: Seq<ElementView>,
    from: int,
    week: Seq<Option<HoursView>>,
    path: Seq<char>,
    d: int,
)
    requires
        0 <= from,
        week.len() == 7,
        0 <= d < 7,
        days_from(nodes, from, week, path) matches Some(Ok(_)),
    ensures
        ({
            let after = days_from(nodes, from, week, path)->Some_0->Ok_0;
            &&& after.len() == 7
            &&& (after[d] == week[d] && forall|j: int|
                from <= j < nodes.len() ==> !(#[trigger] describes(nodes, j, path, d))) || (exists|
                i: int,
            |
                #[trigger] last_describes(nodes, from, i, path, d) && after[d] == Some(
                    day_at(nodes, i, path)->Ok_0.1,
                ))
        }),
    decreases nodes.len() - from,
{
    if from < nodes.len() {
        let (id, hours) = day_at(nodes, from, path)->Ok_0;
        let next = week.update(id - 1, Some(hours));
        last_description_counts(nodes, from + 1, next, path, d);
        let after = days_from(nodes, from, week, path)->Some_0->Ok_0;
        if exists|i: int| #[trigger]
            last_describes(nodes, from + 1, i, path, d) && after[d] == Some(
                day_at(nodes, i, path)->Ok_0.1,
            ) {
            let i = choose|i: int| #[trigger]
                last_describes(nodes, from + 1, i, path, d) && after[d] == Some(
                    day_at(nodes, i, path)->Ok_0.1,
                );
            assert(last_describes(nodes, from, i, path, d));
        } else if describes(nodes, from, path, d) {
            assert(last_describes(nodes, from, from, path, d));
        }
    }
}

proof fn week_is_complete(week: Seq<Option<HoursView>>, from: int, path: Seq<char>)
    requires
        0 <= from <= week.len(),
        week_from(week, from, path) is Ok,
    ensures
        week_from(week, from, path)->Ok_0.len() == week.len() - from,
        forall|d: int|
            #![trigger week[d]]
            from <= d < week.len() ==> week[d] == Some(week_from(week, from, path)->Ok_0[d - from]),
    decreases week.len() - from,
{
    if from < week.len() {
        week_is_complete(week, from + 1, path);
        let days = week_from(week, from, path)->Ok_0;
        let rest = week_from(week, from + 1, path)->Ok_0;
        assert forall|d: int|
            #![trigger week[d]]
            from <= d < week.len() implies week[d] == Some(days[d - from]) by {
            if d > from {
                assert(days[d - from] == rest[d - from - 1]);
            }
        }
    }
}

/// Opening times that are read have all seven days, and each day is as its last description says.
pub proof fn every_day_is_described(node: ElementView, path: Seq<char>, d: int)
    requires
        schedule_of(node, path) matches Some(Ok(_)),
        0 <= d < 7,
    ensures
        ({
            let schedule = schedule_of(node, path)->Some_0->Ok_0;
            &&& schedule.days.len() == 7
            &&& exists|i: int|
                #[trigger] last_describes(node.children, 0, i, path, d) && schedule.days[d]
                    == day_at(node.children, i, path)->Ok_0.1
        }),
{
    let week = days_from(node.children, 0, blank_week(), path)->Some_0->Ok_0;
    last_description_counts(node.children, 0, blank_week(), path, d);
    week_is_complete(week, 0, path);
    assert(week[d] is Some);
    let i = choose|i: int| #[trigger]
        last_describes(node.children, 0, i, path, d) && week[d] == Some(
            day_at(node.children, i, path)->Ok_0.1,
        );
    assert(last_describes(node.children, 0, i, path, d));
}

/// Whether all children are well-formed descriptions of days of the week.
pub open spec fn all_days(nodes: Seq<ElementView>, path: Seq<char>) -> bool {
    forall|i: int|
        #![trigger nodes[i]]
        0 <= i < nodes.len() ==> nodes[i].name == "jour"@ && (day_at(nodes, i, path) matches Ok(
            (id, _),
        ) && 1 <= id <= 7)
}

/// Whether the day `d` is described.
pub open spec fn occurs(nodes: Seq<ElementView>, path: Seq<char>, d: int) -> bool {
    exists|i: int| 0 <= i < nodes.len() && #[trigger] describes(nodes, i, path, d)
}

proof fn days_are_read(
    nodes: Seq<ElementView>,
    from: int,
    week: Seq<Option<HoursView>>,
    path: Seq<char>,
)
    requires
        0 <= from,
        all_days(nodes, path),
    ensures
        days_from(nodes, from, week, path) matches Some(Ok(_)),
    decreases nodes.len() - from,
{
    if from < nodes.len() {
        assert(nodes[from].name == "jour"@);
        let (id, hours) = day_at(nodes, from, path)->Ok_0;
        days_are_read(nodes, from + 1, week.update(id - 1, Some(hours)), path);
    }
}

/// Opening times are read with success where they say whether they are automatic, all their
/// elements are well-formed days of the week, and every day occurs.
pub proof fn complete_weeks_are_read(node: ElementView, path: Seq<char>)
    requires
        attr::bool_value(node, "automate-24-24"@, path) is Ok,
        all_days(node.children, path),
        forall|d: int| 0 <= d < 7 ==> #[trigger] occurs(node.children, path, d),
    ensures
        schedule_of(node, path) matches Some(Ok(_)),
{
    days_are_read(node.children, 0, blank_week(), path);
    let week = days_from(node.children, 0, blank_week(), path)->Some_0->Ok_0;
    last_description_counts(node.children, 0, blank_week(), path, 0);
    assert forall|d: int| 0 <= d < week.len() implies week[d] is Some by {
        last_description_counts(node.children, 0, blank_week(), path, d);
        assert(occurs(node.children, path, d));
    }
    full_week(week, 0, path);
}

/// An interval opens at the time of its attribute `ouverture`, and closes at that of its attribute
/// `fermeture`.
pub proof fn intervals_open_before_they_close(node: ElementView, path: Seq<char>)
    ensures
        ({
            let opening = xml::attribute_of(node.attributes, "ouverture"@);
            let closing = xml::attribute_of(node.attributes, "fermeture"@);
            &&& opening_of(node, path) matches Ok(hours) ==> {
                &&& opening is Some && attr::time_of_day_of(opening->Some_0, path) == Ok::<
                    TimeOfDay,
                    ErrorView,
                >(hours.opening)
                &&& closing is Some && attr::time_of_day_of(closing->Some_0, path) == Ok::<
                    TimeOfDay,
                    ErrorView,
                >(hours.closing)
            }
            &&& opening_of(node, path) is Ok <==> opening is Some && attr::time_of_day_of(
                opening->Some_0,
                path,
            ) is Ok && closing is Some && attr::time_of_day_of(closing->Some_0, path) is Ok
        }),
{
}

/// The intervals of a day are those of its elements, one by one and in document order. They are read
/// exactly where every element is an interval and well-formed.
pub proof fn intervals_are_those_of_their_elements(nodes: Seq<ElementView>, path: Seq<char>)
    ensures
        openings_from(nodes, 0, path) matches Ok(hours) ==> hours.len() == nodes.len() && forall|
            i: int,
        |
            0 <= i < nodes.len() ==> opening_of(
                nodes[i],
                path + text::indexed_name(".horaire"@, i as nat),
            ) == Ok::<OpenedHours, ErrorView>(#[trigger] hours[i]),
        openings_from(nodes, 0, path) is Ok <==> forall|i: int|
            #![trigger nodes[i]]
            0 <= i < nodes.len() ==> nodes[i].name == "horaire"@ && opening_of(
                nodes[i],
                path + text::indexed_name(".horaire"@, i as nat),
            ) is Ok,
{
    intervals_are_read_from(nodes, 0, path);
    if let Ok(hours) = openings_from(nodes, 0, path) {
        assert forall|i: int| 0 <= i < nodes.len() implies opening_of(
            nodes[i],
            path + text::indexed_name(".horaire"@, i as nat),
        ) == Ok::<OpenedHours, ErrorView>(#[trigger] hours[i]) by {
            assert(opening_of(
                nodes[0 + i],
                path + text::indexed_name(".horaire"@, (0 + i) as nat),
            ) == Ok::<OpenedHours, ErrorView>(hours[i]));
        }
    }
}

proof fn intervals_are_read_from(nodes: Seq<ElementView>, from: int, path: Seq<char>)
    requires
        0 <= from <= nodes.len(),
    ensures
        openings_from(nodes, from, path) matches Ok(hours) ==> hours.len() == nodes.len() - from
            && forall|i: int|
            0 <= i < nodes.len() - from ==> opening_of(
                nodes[from + i],
                path + text::indexed_name(".horaire"@, (from + i) as nat),
            ) == Ok::<OpenedHours, ErrorView>(#[trigger] hours[i]),
        openings_from(nodes, from, path) is Ok <==> forall|i: int|
            #![trigger nodes[i]]
            from <= i < nodes.len() ==> nodes[i].name == "horaire"@ && opening_of(
                nodes[i],
                path + text::indexed_name(".horaire"@, i as nat),
            ) is Ok,
    decreases nodes.len() - from,
{
    if from < nodes.len() {
        intervals_are_read_from(nodes, from + 1, path);
        if let Ok(hours) = openings_from(nodes, from, path) {
            let rest = openings_from(nodes, from + 1, path)->Ok_0;
            assert forall|i: int| 0 <= i < nodes.len() - from implies opening_of(
                nodes[from + i],
                path + text::indexed_name(".horaire"@, (from + i) as nat),
            ) == Ok::<OpenedHours, ErrorView>(#[trigger] hours[i]) by {
                if i > 0 {
                    assert(hours[i] == rest[i - 1]);
                    assert(opening_of(
                        nodes[from + 1 + (i - 1)],
                        path + text::indexed_name(".horaire"@, (from + 1 + (i - 1)) as nat),
                    ) == Ok::<OpenedHours, ErrorView>(rest[i - 1]));
                }
            }
        } else {
            assert(nodes[from] == nodes[from]);
        }
    }
}

/// A day has the number of its attribute `id`. It is closed exactly where its attribute `ferme` is
/// the digit one, and else open during the intervals that its elements give. It is read exactly where
/// all of that is well-formed; what a closed day holds besides does not matter.
pub proof fn days_are_what_their_elements_say(node: ElementView, path: Seq<char>)
    ensures
        ({
            let id = xml::attribute_of(node.attributes, "id"@);
            let ferme = xml::attribute_of(node.attributes, "ferme"@);
            &&& day_of(node, path) matches Ok((n, hours)) ==> {
                &&& id is Some && number::i64_of(id->Some_0) == Some(n)
                &&& hours is Closed <==> ferme == Some(seq!['1'])
                &&& !(hours is Closed) ==> ferme == Some(Seq::<char>::empty()) && (
                hours matches HoursView::Open(v) && openings_from(node.children, 0, path) == Ok::<
                    Seq<OpenedHours>,
                    ErrorView,
                >(v))
            }
            &&& day_of(node, path) is Ok <==> {
                &&& id is Some && number::i64_of(id->Some_0) is Some
                &&& ferme == Some(seq!['1']) || (ferme == Some(Seq::<char>::empty())
                    && openings_from(node.children, 0, path) is Ok)
            }
        }),
{
    attr::booleans_are_one_or_empty(node, "ferme"@, path);
}

/// Opening times that are read are automatic exactly where their attribute says so with the digit
/// one.
pub proof fn automatic_is_what_the_element_says(node: ElementView, path: Seq<char>)
    requires
        schedule_of(node, path) matches Some(Ok(_)),
    ensures
        schedule_of(node, path)->Some_0->Ok_0.automatic <==> xml::attribute_of(
            node.attributes,
            "automate-24-24"@,
        ) == Some(seq!['1']),
        !(schedule_of(node, path)->Some_0->Ok_0.automatic) <==> xml::attribute_of(
            node.attributes,
            "automate-24-24"@,
        ) == Some(Seq::<char>::empty()),
{
    attr::booleans_are_one_or_empty(node, "automate-24-24"@, path);
}

/// In opening times that are read every element is a day of the week and well-formed, so that they
/// are read exactly where they say whether they are automatic, all their elements are such days, and
/// every day occurs.
pub proof fn only_complete_weeks_are_read(node: ElementView, path: Seq<char>)
    requires
        schedule_of(node, path) matches Some(Ok(_)),
    ensures
        all_days(node.children, path),
        forall|d: int| 0 <= d < 7 ==> #[trigger] occurs(node.children, path, d),
{
    days_read_are_days(node.children, 0, blank_week(), path);
    assert forall|d: int| 0 <= d < 7 implies #[trigger] occurs(node.children, path, d) by {
        every_day_is_described(node, path, d);
        let i = choose|i: int| #[trigger] last_describes(node.children, 0, i, path, d);
        assert(describes(node.children, i, path, d));
    }
}

proof fn days_read_are_days(
    nodes: Seq<ElementView>,
    from: int,
    week: Seq<Option<HoursView>>,
    path: Seq<char>,
)
    requires
        0 <= from,
        days_from(nodes, from, week, path) matches Some(Ok(_)),
    ensures
        forall|i: int|
            #![trigger nodes[i]]
            from <= i < nodes.len() ==> nodes[i].name == "jour"@ && (day_at(
                nodes,
                i,
                path,
            ) matches Ok((id, _)) && 1 <= id <= 7),
    decreases nodes.len() - from,
{
    if from < nodes.len() {
        let (id, hours) = day_at(nodes, from, path)->Ok_0;
        days_read_are_days(nodes, from + 1, week.update(id - 1, Some(hours)), path);
    }
}

/// The week begins on the day with the number one: the day at a place of the schedule is as the last
/// element says whose number is that place counted from one. It is closed or open as that element
/// says.
pub proof fn days_stand_under_their_numbers(node: ElementView, path: Seq<char>, d: int)
    requires
        schedule_of(node, path) matches Some(Ok(_)),
        0 <= d < 7,
    ensures
        ({
            let hours = schedule_of(node, path)->Some_0->Ok_0.days[d];
            exists|i: int|
                #![trigger node.children[i]]
                {
                    let day = node.children[i];
                    let id = xml::attribute_of(day.attributes, "id"@);
                    &&& 0 <= i < node.children.len()
                    &&& id is Some && number::i64_of(id->Some_0) is Some && number::i64_of(
                        id->Some_0,
                    )->Some_0 == d + 1
                    &&& hours is Closed <==> xml::attribute_of(day.attributes, "ferme"@) == Some(
                        seq!['1'],
                    )
                    &&& hours matches HoursView::Open(v) ==> v.len() == day.children.len()
                    &&& forall|j: int|
                        #![trigger node.children[j]]
                        i < j < node.children.len() ==> !(xml::attribute_of(
                            node.children[j].attributes,
                            "id"@,
                        ) is Some && number::i64_of(
                            xml::attribute_of(node.children[j].attributes, "id"@)->Some_0,
                        ) == number::i64_of(id->Some_0))
                }
        }),
{
    every_day_is_described(node, path, d);
    only_complete_weeks_are_read(node, path);
    let schedule = schedule_of(node, path)->Some_0->Ok_0;
    let i = choose|i: int| #[trigger]
        last_describes(node.children, 0, i, path, d) && schedule.days[d] == day_at(
            node.children,
            i,
            path,
        )->Ok_0.1;
    let p = path + text::indexed_name(".jour"@, i as nat);
    days_are_what_their_elements_say(node.children[i], p);
    intervals_are_those_of_their_elements(node.children[i].children, p);
    assert forall|j: int|
        #![trigger node.children[j]]
        i < j < node.children.len() implies !(xml::attribute_of(
        node.children[j].attributes,
        "id"@,
    ) is Some && number::i64_of(xml::attribute_of(node.children[j].attributes, "id"@)->Some_0)
        == number::i64_of(
        xml::attribute_of(node.children[i].attributes, "id"@)->Some_0,
    )) by {
        assert(!describes(node.children, j, path, d));
        days_are_what_their_elements_say(
            node.children[j],
            path + text::indexed_name(".jour"@, j as nat),
        );
    }
}

/// Opening times whose elements are all well-formed days are refused for the first day of the week
/// that does not occur, where one does not.
pub proof fn missing_days_are_named(node: ElementView, path: Seq<char>, d: int)
    requires
        attr::bool_value(node, "automate-24-24"@, path) is Ok,
        all_days(node.children, path),
        0 <= d < 7,
        !occurs(node.children, path, d),
        forall|e: int| 0 <= e < d ==> #[trigger] occurs(node.children, path, e),
    ensures
        schedule_of(node, path) == Some(
            Err::<ScheduleView, ErrorView>(
                ErrorView::MissingNode {
                    path,
                    node: "jour"@ + seq!['['] + text::decimal_text(d as nat) + seq![']'],
                },
            ),
        ),
{
    days_are_read(node.children, 0, blank_week(), path);
    let week = days_from(node.children, 0, blank_week(), path)->Some_0->Ok_0;
    last_description_counts(node.children, 0, blank_week(), path, d);
    assert forall|e: int| 0 <= e < d implies week[e] is Some by {
        last_description_counts(node.children, 0, blank_week(), path, e);
        assert(occurs(node.children, path, e));
    }
    if week[d] is Some {
        let i = choose|i: int| #[trigger]
            last_describes(node.children, 0, i, path, d) && week[d] == Some(
                day_at(node.children, i, path)->Ok_0.1,
            );
        assert(describes(node.children, i, path, d));
    }
    missing_day(week, 0, d, path);
    text::positions_stand_in_brackets("jour"@, d as nat);
}

/// Opening times that do not say whether they are automatic are refused for that. Of their elements
/// the first one that is no well-formed day decides: one with another name is refused as that, and a
/// number outside of the week has no answer.
pub proof fn the_first_malformed_day_decides(node: ElementView, path: Seq<char>, at: int)
    requires
        attr::bool_value(node, "automate-24-24"@, path) is Ok,
        0 <= at < node.children.len(),
        all_days(node.children.take(at), path),
    ensures
        node.children[at].name != "jour"@ ==> schedule_of(node, path) == Some(
            Err::<ScheduleView, ErrorView>(
                ErrorView::UnexpectedNode {
                    path,
                    got: node.children[at].name,
                    expected: "jour"@,
                },
            ),
        ),
        node.children[at].name == "jour"@ ==> (match day_of(
            node.children[at],
            path + text::indexed_name(".jour"@, at as nat),
        ) {
            Err(e) => schedule_of(node, path) == Some(Err::<ScheduleView, ErrorView>(e)),
            Ok((id, _)) => id < 1 || id > 7 ==> schedule_of(node, path) is None,
        }),
{
    let nodes = node.children;
    assert forall|i: int| 0 <= i < at implies (#[trigger] nodes[i]).name == "jour"@ && (day_at(
        nodes,
        i,
        path,
    ) matches Ok((id, _)) && 1 <= id <= 7) by {
        assert(nodes.take(at)[i] == nodes[i]);
        assert(day_at(nodes.take(at), i, path) == day_at(nodes, i, path));
    }
    days_up_to(nodes, 0, at, blank_week(), path);
}

proof fn days_up_to(
    nodes: Seq<ElementView>,
    from: int,
    at: int,
    week: Seq<Option<HoursView>>,
    path: Seq<char>,
)
    requires
        0 <= from <= at < nodes.len(),
        forall|i: int|
            0 <= i < at ==> (#[trigger] nodes[i]).name == "jour"@ && (day_at(
                nodes,
                i,
                path,
            ) matches Ok((id, _)) && 1 <= id <= 7),
    ensures
        exists|later: Seq<Option<HoursView>>| #[trigger]
            days_from(nodes, at, later, path) == days_from(nodes, from, week, path),
    decreases at - from,
{
    if from < at {
        assert(nodes[from].name == "jour"@);
        let (id, hours) = day_at(nodes, from, path)->Ok_0;
        days_up_to(nodes, from + 1, at, week.update(id - 1, Some(hours)), path);
    } else {
        assert(days_from(nodes, at, week, path) == days_from(nodes, from, week, path));
    }
}

/// Of the intervals of an open day the first one that is malformed decides: one with another name is
/// refused as that.
pub proof fn the_first_malformed_interval_decides(
    nodes: Seq<ElementView>,
    path: Seq<char>,
    at: int,
)
    requires
        0 <= at < nodes.len(),
        forall|i: int|
            #![trigger nodes[i]]
            0 <= i < at ==> nodes[i].name == "horaire"@ && opening_of(
                nodes[i],
                path + text::indexed_name(".horaire"@, i as nat),
            ) is Ok,
    ensures
        nodes[at].name != "horaire"@ ==> openings_from(nodes, 0, path) == Err::<
            Seq<OpenedHours>,
            ErrorView,
        >(ErrorView::UnexpectedNode { path, got: nodes[at].name, expected: "horaire"@ }),
        nodes[at].name == "horaire"@ ==> (opening_of(
            nodes[at],
            path + text::indexed_name(".horaire"@, at as nat),
        ) matches Err(e) ==> openings_from(nodes, 0, path) == Err::<Seq<OpenedHours>, ErrorView>(
            e,
        )),
{
    intervals_up_to(nodes, 0, path, at);
}

proof fn intervals_up_to(nodes: Seq<ElementView>, from: int, path: Seq<char>, at: int)
    requires
        0 <= from <= at < nodes.len(),
        forall|i: int|
            #![trigger nodes[i]]
            0 <= i < at ==> nodes[i].name == "horaire"@ && opening_of(
                nodes[i],
                path + text::indexed_name(".horaire"@, i as nat),
            ) is Ok,
    ensures
        openings_from(nodes, at, path) matches Err(e) ==> openings_from(nodes, from, path) == Err::<
            Seq<OpenedHours>,
            ErrorView,
        >(e),
    decreases at - from,
{
    if from < at {
        assert(nodes[from].name == "horaire"@);
        intervals_up_to(nodes, from + 1, path, at);
    }
}

} // verus!
