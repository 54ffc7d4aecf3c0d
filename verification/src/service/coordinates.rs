//! Coordinates for the stations of trips, from station searches.

use vstd::prelude::*;

use crate::api::ojp::places::PlaceIndex;
use crate::api::ojp::tags;
use crate::duplicate::Duplicate;
use crate::models::{
    GeoPoint, GeoPointView, LegStopView, Station, StationView, Trip, TripLeg, TripLegStopCallView,
    TripLegView, TripView,
};
use crate::text;

verus! {

/// How many stations to search for when the coordinates of a name are to be found.
pub const PLACE_CANDIDATES: usize = 8;

/// Where a station is, if it is known.
pub open spec fn point_of(s: StationView) -> Option<GeoPointView> {
    tags::geo_point(s.latitude, s.longitude)
}

/// The place of the first station that has one; with a key, only of that name.
pub open spec fn first_point(stations: Seq<StationView>, key: Option<Seq<char>>) -> Option<GeoPointView>
    decreases stations.len(),
{
    if stations.len() == 0 {
        None
    } else if point_of(stations[0]) is Some && (key is Some ==> tags::lookup_key(stations[0].name)
        == key->0) {
        point_of(stations[0])
    } else {
        first_point(stations.drop_first(), key)
    }
}

/// The place for a name: that of the first station of that name, or else that of the first
/// station that has one.
pub open spec fn picked_point(name: Seq<char>, stations: Seq<StationView>) -> Option<GeoPointView> {
    match first_point(stations, Some(tags::lookup_key(name))) {
        Some(point) => Some(point),
        None => first_point(stations, None),
    }
}

fn find_first_point(stations: &Vec<Station>, key: Option<&str>) -> (r: Option<GeoPoint>)
    ensures
        r.deep_view() == first_point(stations.deep_view(), key.deep_view()),
{
    let ghost all = stations.deep_view();
    let ghost wanted = key.deep_view();
    let mut i: usize = 0;
    assert(all.skip(0) =~= all);
    while i < stations.len()
        invariant
            i <= stations@.len(),
            all == stations.deep_view(),
            wanted == key.deep_view(),
            first_point(all, wanted) == first_point(all.skip(i as int), wanted),
        decreases stations@.len() - i,
    {
        assert(all.skip(i as int)[0] == stations@[i as int].deep_view());
        assert(all.skip(i as int).drop_first() =~= all.skip(i + 1));
        let named = match key {
            Some(k) => {
                let name = tags::normalize_lookup_key(stations[i].name.as_str());
                text::same(name.as_str(), k)
            },
            None => true,
        };
        if named {
            let point = tags::build_geo_point(
                stations[i].latitude.duplicate(),
                stations[i].longitude.duplicate(),
            );
            if point.is_some() {
                return point;
            }
        }
        i += 1;
    }
    None
}

/// The place for a name.
pub fn pick_station_coordinates(name: &str, stations: &Vec<Station>) -> (r: Option<GeoPoint>)
    ensures
        r.deep_view() == picked_point(name@, stations.deep_view()),
{
    let key = tags::normalize_lookup_key(name);
    let exact = find_first_point(stations, Some(key.as_str()));
    if exact.is_some() {
        exact
    } else {
        find_first_point(stations, None)
    }
}

/// The names in calls.
pub open spec fn call_stations(calls: Seq<TripLegStopCallView>) -> Seq<Seq<char>> {
    Seq::new(calls.len(), |i: int| calls[i].station)
}

/// The names in a leg: both ends and the calls.
pub open spec fn leg_stations(leg: TripLegView) -> Seq<Seq<char>> {
    seq![leg.from.station, leg.to.station] + call_stations(leg.stop_calls)
}

/// The names in legs.
pub open spec fn legs_stations(legs: Seq<TripLegView>) -> Seq<Seq<char>>
    decreases legs.len(),
{
    if legs.len() == 0 {
        Seq::empty()
    } else {
        legs_stations(legs.drop_last()) + leg_stations(legs.last())
    }
}

/// The names in trips.
pub open spec fn trips_stations(trips: Seq<TripView>) -> Seq<Seq<char>>
    decreases trips.len(),
{
    if trips.len() == 0 {
        Seq::empty()
    } else {
        trips_stations(trips.drop_last()) + legs_stations(trips.last().legs)
    }
}

fn add_leg_stations(names: &mut Vec<String>, leg: &TripLeg)
    ensures
        final(names).deep_view() == old(names).deep_view() + leg_stations(leg.deep_view()),
{
    let ghost before = names.deep_view();
    let ghost calls = call_stations(leg.deep_view().stop_calls);
    names.push(leg.from.station.clone());
    names.push(leg.to.station.clone());
    let ghost head = before + seq![leg.from.station@, leg.to.station@];
    let mut i: usize = 0;
    assert(names.deep_view() =~= head + calls.take(0));
    while i < leg.stop_calls.len()
        invariant
            i <= leg.stop_calls@.len(),
            calls == call_stations(leg.deep_view().stop_calls),
            names.deep_view() == head + calls.take(i as int),
        decreases leg.stop_calls@.len() - i,
    {
        let ghost so_far = names.deep_view();
        assert(calls[i as int] == leg.stop_calls@[i as int].station@);
        names.push(leg.stop_calls[i].station.clone());
        assert(names.deep_view() =~= so_far.push(calls[i as int]));
        assert(so_far.push(calls[i as int]) =~= head + calls.take(i + 1));
        i += 1;
    }
    assert(calls.take(i as int) =~= calls);
    assert(head + calls =~= before + leg_stations(leg.deep_view()));
}

fn add_legs_stations(names: &mut Vec<String>, legs: &Vec<TripLeg>)
    ensures
        final(names).deep_view() == old(names).deep_view() + legs_stations(legs.deep_view()),
{
    let ghost before = names.deep_view();
    let ghost all = legs.deep_view();
    let mut i: usize = 0;
    assert(before + legs_stations(all.take(0)) =~= before);
    while i < legs.len()
        invariant
            i <= legs@.len(),
            all == legs.deep_view(),
            names.deep_view() == before + legs_stations(all.take(i as int)),
        decreases legs@.len() - i,
    {
        assert(all.take(i + 1).drop_last() =~= all.take(i as int));
        assert(all.take(i + 1).last() == legs@[i as int].deep_view());
        add_leg_stations(names, &legs[i]);
        assert(names.deep_view() =~= before + legs_stations(all.take(i + 1)));
        i += 1;
    }
    assert(all.take(i as int) =~= all);
}

/// The names of the stations of trips, each once.
pub fn trip_station_names(trips: &Vec<Trip>) -> (r: Vec<String>)
    ensures
        r.deep_view() == text::uniques(trips_stations(trips.deep_view())),
{
    let ghost all = trips.deep_view();
    let mut names: Vec<String> = Vec::new();
    let mut i: usize = 0;
    assert(names.deep_view() =~= trips_stations(all.take(0)));
    while i < trips.len()
        invariant
            i <= trips@.len(),
            all == trips.deep_view(),
            names.deep_view() == trips_stations(all.take(i as int)),
        decreases trips@.len() - i,
    {
        assert(all.take(i + 1).drop_last() =~= all.take(i as int));
        assert(all.take(i + 1).last() == trips@[i as int].deep_view());
        add_legs_stations(&mut names, &trips[i].legs);
        i += 1;
    }
    assert(all.take(i as int) =~= all);
    text::keep_unique(&names)
}

/// The places by name after a search for a name.
pub open spec fn places_with(
    places: Map<Seq<char>, GeoPointView>,
    name: Seq<char>,
    stations: Seq<StationView>,
) -> Map<Seq<char>, GeoPointView> {
    match picked_point(name, stations) {
        Some(point) => places.insert(text::lowered(name), point),
        None => places,
    }
}

/// Takes note of what a search for a name found.
pub fn add_found(places: &mut PlaceIndex, name: &str, stations: &Vec<Station>)
    ensures
        final(places).deep_view() == places_with(
            old(places).deep_view(),
            name@,
            stations.deep_view(),
        ),
{
    match pick_station_coordinates(name, stations) {
        Some(point) => places.insert_under(text::to_lower(name), point),
        None => {},
    }
}

/// The place of a name: as given, or else as found.
pub open spec fn placed(
    given: Option<GeoPointView>,
    name: Seq<char>,
    places: Map<Seq<char>, GeoPointView>,
) -> Option<GeoPointView> {
    let key = text::lowered(name);
    if given is None && places.contains_key(key) {
        Some(places[key])
    } else {
        given
    }
}

fn place(given: &mut Option<GeoPoint>, name: &str, places: &PlaceIndex)
    ensures
        final(given).deep_view() == placed(old(given).deep_view(), name@, places.deep_view()),
{
    if given.is_none() {
        let key = text::to_lower(name);
        *given = places.find_under(key.as_str());
    }
}

/// An end of a leg with its place.
pub open spec fn placed_stop(stop: LegStopView, places: Map<Seq<char>, GeoPointView>) -> LegStopView {
    LegStopView { coordinates: placed(stop.coordinates, stop.station, places), ..stop }
}

/// A call with its place.
pub open spec fn placed_call(call: TripLegStopCallView, places: Map<Seq<char>, GeoPointView>) -> TripLegStopCallView {
    TripLegStopCallView { coordinates: placed(call.coordinates, call.station, places), ..call }
}

/// A leg with its places.
pub open spec fn placed_leg(leg: TripLegView, places: Map<Seq<char>, GeoPointView>) -> TripLegView {
    TripLegView {
        from: placed_stop(leg.from, places),
        to: placed_stop(leg.to, places),
        stop_calls: Seq::new(
            leg.stop_calls.len(),
            |i: int| placed_call(leg.stop_calls[i], places),
        ),
        ..leg
    }
}

/// A trip with its places.
pub open spec fn placed_trip(trip: TripView, places: Map<Seq<char>, GeoPointView>) -> TripView {
    TripView {
        legs: Seq::new(trip.legs.len(), |i: int| placed_leg(trip.legs[i], places)),
        ..trip
    }
}

fn place_leg(leg: &mut TripLeg, places: &PlaceIndex)
    ensures
        final(leg).deep_view() == placed_leg(old(leg).deep_view(), places.deep_view()),
{
    let ghost first = leg.deep_view();
    place(&mut leg.from.coordinates, leg.from.station.as_str(), places);
    place(&mut leg.to.coordinates, leg.to.station.as_str(), places);
    let ghost before = leg.stop_calls@;
    let ghost outer = leg.deep_view();
    let mut i: usize = 0;
    while i < leg.stop_calls.len()
        invariant
            i <= leg.stop_calls@.len(),
            leg.stop_calls@.len() == before.len(),
            leg.deep_view() == (TripLegView { stop_calls: leg.stop_calls.deep_view(), ..outer }),
            forall|k: int| i <= k < before.len() ==> #[trigger] leg.stop_calls@[k] == before[k],
            forall|k: int|
                0 <= k < i ==> (#[trigger] leg.stop_calls@[k]).deep_view() == placed_call(
                    before[k].deep_view(),
                    places.deep_view(),
                ),
        decreases leg.stop_calls@.len() - i,
    {
        let call = &mut leg.stop_calls[i];
        place(&mut call.coordinates, call.station.as_str(), places);
        i += 1;
    }
    assert(leg.stop_calls.deep_view() =~= placed_leg(first, places.deep_view()).stop_calls);
}

fn place_trip(trip: &mut Trip, places: &PlaceIndex)
    ensures
        final(trip).deep_view() == placed_trip(old(trip).deep_view(), places.deep_view()),
{
    let ghost first = trip.deep_view();
    let ghost before = trip.legs@;
    let mut i: usize = 0;
    while i < trip.legs.len()
        invariant
            i <= trip.legs@.len(),
            trip.legs@.len() == before.len(),
            trip.deep_view() == (TripView { legs: trip.legs.deep_view(), ..first }),
            forall|k: int| i <= k < before.len() ==> #[trigger] trip.legs@[k] == before[k],
            forall|k: int|
                0 <= k < i ==> (#[trigger] trip.legs@[k]).deep_view() == placed_leg(
                    before[k].deep_view(),
                    places.deep_view(),
                ),
        decreases trip.legs@.len() - i,
    {
        place_leg(&mut trip.legs[i], places);
        i += 1;
    }
    assert(trip.legs.deep_view() =~= placed_trip(first, places.deep_view()).legs);
}

/// Gives the stations of trips the places that were found for them.
pub fn enrich_trip_coordinates(trips: &mut Vec<Trip>, places: &PlaceIndex)
    ensures
        final(trips).deep_view() == Seq::new(
            old(trips)@.len(),
            |i: int| placed_trip(old(trips).deep_view()[i], places.deep_view()),
        ),
{
    let ghost before = trips@;
    let ghost views = trips.deep_view();
    let mut i: usize = 0;
    while i < trips.len()
        invariant
            i <= trips@.len(),
            trips@.len() == before.len(),
            forall|k: int| i <= k < before.len() ==> #[trigger] trips@[k] == before[k],
            forall|k: int|
                0 <= k < i ==> (#[trigger] trips@[k]).deep_view() == placed_trip(
                    before[k].deep_view(),
                    places.deep_view(),
                ),
        decreases trips@.len() - i,
    {
        place_trip(&mut trips[i], places);
        i += 1;
    }
    assert(trips.deep_view() =~= Seq::new(
        before.len(),
        |i: int| placed_trip(views[i], places.deep_view()),
    ));
}

/// Giving a trip its places again changes nothing.
pub proof fn law_locating_again_changes_nothing(
    trip: TripView,
    places: Map<Seq<char>, GeoPointView>,
)
    ensures
        placed_trip(placed_trip(trip, places), places) == placed_trip(trip, places),
{
    let once = placed_trip(trip, places);
    let twice = placed_trip(once, places);
    assert forall|i: int| 0 <= i < once.legs.len() implies once.legs[i] == twice.legs[i] by {
        assert(once.legs[i].stop_calls =~= twice.legs[i].stop_calls);
    }
    assert(once.legs =~= twice.legs);
}

/// A place that a trip already has is kept.
pub proof fn law_given_places_are_kept(
    leg: TripLegView,
    places: Map<Seq<char>, GeoPointView>,
    i: int,
)
    ensures
        leg.from.coordinates is Some ==> placed_leg(leg, places).from == leg.from,
        leg.to.coordinates is Some ==> placed_leg(leg, places).to == leg.to,
        0 <= i < leg.stop_calls.len() && leg.stop_calls[i].coordinates is Some ==> placed_leg(
            leg,
            places,
        ).stop_calls[i] == leg.stop_calls[i],
{
}

proof fn lemma_first_point_at(stations: Seq<StationView>, key: Option<Seq<char>>, k: int)
    requires
        0 <= k <= stations.len(),
        k < stations.len() ==> stations[k].latitude is Some && stations[k].longitude is Some && (
        key is Some ==> text::lowered(text::trimmed(stations[k].name)) == key->0),
        forall|j: int|
            0 <= j < k ==> (#[trigger] stations[j]).latitude is None || stations[j].longitude is None
                || (key is Some && text::lowered(text::trimmed(stations[j].name)) != key->0),
    ensures
        k < stations.len() ==> first_point(stations, key) == Some(
            GeoPointView {
                latitude: stations[k].latitude->0,
                longitude: stations[k].longitude->0,
            },
        ),
        k == stations.len() ==> first_point(stations, key) is None,
    decreases stations.len(),
{
    if k > 0 {
        let rest = stations.drop_first();
        assert forall|j: int| 0 <= j < k - 1 implies (#[trigger] rest[j]).latitude is None
            || rest[j].longitude is None || (key is Some && text::lowered(
            text::trimmed(rest[j].name),
        ) != key->0) by {
            assert(rest[j] == stations[j + 1]);
        }
        assert(stations[0].latitude is None || stations[0].longitude is None || (key is Some
            && text::lowered(text::trimmed(stations[0].name)) != key->0));
        lemma_first_point_at(rest, key, k - 1);
    }
}

/// The place for a name is that of the first station of that name with both coordinates,
/// whatever the case of the letters and the white space around it.
pub proof fn law_same_name_is_the_place(name: Seq<char>, stations: Seq<StationView>, k: int)
    requires
        0 <= k < stations.len(),
        stations[k].latitude is Some && stations[k].longitude is Some,
        text::lowered(text::trimmed(stations[k].name)) == text::lowered(text::trimmed(name)),
        forall|j: int|
            0 <= j < k ==> (#[trigger] stations[j]).latitude is None || stations[j].longitude is None
                || text::lowered(text::trimmed(stations[j].name)) != text::lowered(
                text::trimmed(name),
            ),
    ensures
        picked_point(name, stations) == Some(
            GeoPointView {
                latitude: stations[k].latitude->0,
                longitude: stations[k].longitude->0,
            },
        ),
{
    lemma_first_point_at(stations, Some(tags::lookup_key(name)), k);
}

/// Without a station of that name, the place is that of the first station with both
/// coordinates, and without any there is none.
pub proof fn law_first_station_stands_in(name: Seq<char>, stations: Seq<StationView>, k: int)
    requires
        0 <= k <= stations.len(),
        k < stations.len() ==> stations[k].latitude is Some && stations[k].longitude is Some,
        forall|j: int|
            0 <= j < k ==> (#[trigger] stations[j]).latitude is None || stations[j].longitude is None,
        forall|j: int|
            0 <= j < stations.len() ==> (#[trigger] stations[j]).latitude is None
                || stations[j].longitude is None || text::lowered(text::trimmed(stations[j].name))
                != text::lowered(text::trimmed(name)),
    ensures
        k < stations.len() ==> picked_point(name, stations) == Some(
            GeoPointView {
                latitude: stations[k].latitude->0,
                longitude: stations[k].longitude->0,
            },
        ),
        k == stations.len() ==> picked_point(name, stations) is None,
{
    lemma_first_point_at(stations, Some(tags::lookup_key(name)), stations.len() as int);
    lemma_first_point_at(stations, None, k);
}

/// The names to look up are both ends and the calls of every leg of every trip.
pub proof fn law_every_name_is_looked_up(
    trips: Seq<TripView>,
    t: TripView,
    leg: TripLegView,
    legs: Seq<TripLegView>,
    call: TripLegStopCallView,
)
    ensures
        trips_stations(Seq::empty()).len() == 0,
        legs_stations(Seq::empty()).len() == 0,
        trips_stations(trips.push(t)) == trips_stations(trips) + legs_stations(t.legs),
        legs_stations(legs.push(leg)) == legs_stations(legs) + leg_stations(leg),
        leg.stop_calls.len() == 0 ==> leg_stations(leg) == seq![leg.from.station, leg.to.station],
        leg_stations(TripLegView { stop_calls: leg.stop_calls.push(call), ..leg }) == leg_stations(
            leg,
        ).push(call.station),
{
    assert(trips.push(t).drop_last() =~= trips);
    assert(legs.push(leg).drop_last() =~= legs);
    if leg.stop_calls.len() == 0 {
        assert(leg_stations(leg) =~= seq![leg.from.station, leg.to.station]);
    }
    assert(leg_stations(TripLegView { stop_calls: leg.stop_calls.push(call), ..leg })
        =~= leg_stations(leg).push(call.station));
}

/// A place that was found is known under its name in lower case; other names keep theirs.
pub proof fn law_found_place_is_known(
    places: Map<Seq<char>, GeoPointView>,
    name: Seq<char>,
    stations: Seq<StationView>,
    other: Seq<char>,
)
    ensures
        ({
            let after = places_with(places, name, stations);
            &&& picked_point(name, stations) is Some ==> after.contains_key(text::lowered(name))
                && after[text::lowered(name)] == picked_point(name, stations)->0
            &&& picked_point(name, stations) is None ==> after == places
            &&& other != text::lowered(name) ==> (after.contains_key(other)
                <==> places.contains_key(other))
            &&& other != text::lowered(name) && places.contains_key(other) ==> after[other]
                == places[other]
        }),
{
}

/// A trip gets the known places at both ends and at the calls of each leg, and keeps
/// everything else.
pub proof fn law_known_places_are_filled_in(
    trip: TripView,
    places: Map<Seq<char>, GeoPointView>,
    i: int,
    j: int,
)
    requires
        0 <= i < trip.legs.len(),
        0 <= j < trip.legs[i].stop_calls.len(),
    ensures
        ({
            let leg = trip.legs[i];
            let call = leg.stop_calls[j];
            let after = placed_trip(trip, places);
            let l = after.legs[i];
            let c = l.stop_calls[j];
            &&& after.id == trip.id
            &&& after.duration_minutes == trip.duration_minutes
            &&& after.legs.len() == trip.legs.len()
            &&& l.stop_calls.len() == leg.stop_calls.len()
            &&& l.departure == leg.departure && l.arrival == leg.arrival && l.line == leg.line
            &&& l.from.station == leg.from.station && l.from.platform == leg.from.platform
            &&& l.to.station == leg.to.station && l.to.platform == leg.to.platform
            &&& c.station == call.station
            &&& leg.from.coordinates is None && places.contains_key(text::lowered(leg.from.station))
                ==> l.from.coordinates == Some(places[text::lowered(leg.from.station)])
            &&& leg.to.coordinates is None && places.contains_key(text::lowered(leg.to.station))
                ==> l.to.coordinates == Some(places[text::lowered(leg.to.station)])
            &&& call.coordinates is None && places.contains_key(text::lowered(call.station))
                ==> c.coordinates == Some(places[text::lowered(call.station)])
            &&& !places.contains_key(text::lowered(leg.from.station)) ==> l.from.coordinates
                == leg.from.coordinates
            &&& !places.contains_key(text::lowered(leg.to.station)) ==> l.to.coordinates
                == leg.to.coordinates
            &&& !places.contains_key(text::lowered(call.station)) ==> c.coordinates
                == call.coordinates
        }),
{
}

} // verus!
