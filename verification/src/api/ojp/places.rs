//! The places that a trip response lists once, for the legs that refer to them.

use vstd::hash_map::StringHashMap;
use vstd::prelude::*;

use crate::api::ojp::drafts::{TempLeg, TempLegView, TempPlace, TempPlaceView, TempStopCall, TempStopCallView};
use crate::api::ojp::tags;
use crate::coordinate::Coordinate;
use crate::duplicate::Duplicate;
use crate::models::{GeoPoint, GeoPointView};
use crate::text;

verus! {

/// Places by a key.
pub struct PlaceIndex {
    points: StringHashMap<GeoPoint>,
}

impl DeepView for PlaceIndex {
    type V = Map<Seq<char>, GeoPointView>;

    closed spec fn deep_view(&self) -> Map<Seq<char>, GeoPointView> {
        self.points@.map_values(|point: GeoPoint| point.deep_view())
    }
}

/// The place under a name or reference, if it is given and known.
pub open spec fn found_place(index: Map<Seq<char>, GeoPointView>, name: Option<Seq<char>>) -> Option<
    GeoPointView,
> {
    match name {
        Some(n) if index.contains_key(tags::lookup_key(n)) => Some(index[tags::lookup_key(n)]),
        _ => None,
    }
}

impl PlaceIndex {
    /// No places.
    pub fn new() -> (r: PlaceIndex)
        ensures
            r.deep_view() == Map::<Seq<char>, GeoPointView>::empty(),
    {
        let r = PlaceIndex { points: StringHashMap::new() };
        assert(r.deep_view() =~= Map::<Seq<char>, GeoPointView>::empty());
        r
    }

    /// Enters a place under a key, in the stead of an earlier one.
    pub fn insert_under(&mut self, key: String, point: GeoPoint)
        ensures
            final(self).deep_view() == old(self).deep_view().insert(key@, point.deep_view()),
    {
        let ghost before = self.deep_view();
        let ghost view = point.deep_view();
        let ghost k = key@;
        self.points.insert(key, point);
        assert(self.deep_view() =~= before.insert(k, view));
    }

    /// The place under a key.
    pub fn find_under(&self, key: &str) -> (r: Option<GeoPoint>)
        ensures
            r.deep_view() == if self.deep_view().contains_key(key@) {
                Some(self.deep_view()[key@])
            } else {
                None
            },
    {
        match self.points.get(key) {
            Some(point) => Some(point.duplicate()),
            None => None,
        }
    }

    /// Enters a place under a name or reference, in the stead of an earlier one.
    pub fn insert(&mut self, name: &str, point: GeoPoint)
        ensures
            final(self).deep_view() == old(self).deep_view().insert(
                tags::lookup_key(name@),
                point.deep_view(),
            ),
    {
        self.insert_under(tags::normalize_lookup_key(name), point);
    }

    /// The place under a name or reference.
    pub fn find(&self, name: &Option<String>) -> (r: Option<GeoPoint>)
        ensures
            r.deep_view() == found_place(self.deep_view(), name.deep_view()),
    {
        match name {
            Some(n) => {
                let key = tags::normalize_lookup_key(n.as_str());
                self.find_under(key.as_str())
            },
            None => None,
        }
    }
}

/// Places by reference, after a place was read.
pub open spec fn refs_with(index: Map<Seq<char>, GeoPointView>, place: TempPlaceView) -> Map<
    Seq<char>,
    GeoPointView,
> {
    match tags::geo_point(place.latitude, place.longitude) {
        Some(point) => {
            let first = match place.stop_point_ref {
                Some(r) => index.insert(tags::lookup_key(r), point),
                None => index,
            };
            match place.stop_place_ref {
                Some(r) => first.insert(tags::lookup_key(r), point),
                None => first,
            }
        },
        None => index,
    }
}

/// Places by name, after a place was read.
pub open spec fn names_with(index: Map<Seq<char>, GeoPointView>, place: TempPlaceView) -> Map<
    Seq<char>,
    GeoPointView,
> {
    match (tags::geo_point(place.latitude, place.longitude), place.name) {
        (Some(point), Some(name)) => index.insert(tags::lookup_key(name), point),
        _ => index,
    }
}

/// Enters a place that was read under its references and its name.
pub fn add_place(by_ref: &mut PlaceIndex, by_name: &mut PlaceIndex, place: TempPlace)
    ensures
        final(by_ref).deep_view() == refs_with(old(by_ref).deep_view(), place.deep_view()),
        final(by_name).deep_view() == names_with(old(by_name).deep_view(), place.deep_view()),
{
    match tags::build_geo_point(place.latitude, place.longitude) {
        Some(point) => {
            match &place.stop_point_ref {
                Some(r) => by_ref.insert(r.as_str(), point.duplicate()),
                None => {},
            }
            match &place.stop_place_ref {
                Some(r) => by_ref.insert(r.as_str(), point.duplicate()),
                None => {},
            }
            match &place.name {
                Some(name) => by_name.insert(name.as_str(), point),
                None => {},
            }
        },
        None => {},
    }
}

/// The place of a stop: by its reference, or else by its name.
pub open spec fn place_of(
    stop_ref: Option<Seq<char>>,
    name: Option<Seq<char>>,
    by_ref: Map<Seq<char>, GeoPointView>,
    by_name: Map<Seq<char>, GeoPointView>,
) -> Option<GeoPointView> {
    tags::or_else(found_place(by_ref, stop_ref), found_place(by_name, name))
}

/// A latitude, or else that of a place.
pub open spec fn latitude_at(latitude: Option<Seq<char>>, place: Option<GeoPointView>) -> Option<
    Seq<char>,
> {
    match (latitude, place) {
        (None, Some(point)) => Some(point.latitude),
        _ => latitude,
    }
}

/// A longitude, or else that of a place.
pub open spec fn longitude_at(longitude: Option<Seq<char>>, place: Option<GeoPointView>) -> Option<
    Seq<char>,
> {
    match (longitude, place) {
        (None, Some(point)) => Some(point.longitude),
        _ => longitude,
    }
}

/// Fills in the coordinates that are missing at a stop.
fn enrich(
    latitude: &mut Option<Coordinate>,
    longitude: &mut Option<Coordinate>,
    stop_ref: &Option<String>,
    name: &Option<String>,
    by_ref: &PlaceIndex,
    by_name: &PlaceIndex,
)
    ensures
        final(latitude).deep_view() == latitude_at(
            old(latitude).deep_view(),
            place_of(
                stop_ref.deep_view(),
                name.deep_view(),
                by_ref.deep_view(),
                by_name.deep_view(),
            ),
        ),
        final(longitude).deep_view() == longitude_at(
            old(longitude).deep_view(),
            place_of(
                stop_ref.deep_view(),
                name.deep_view(),
                by_ref.deep_view(),
                by_name.deep_view(),
            ),
        ),
{
    if latitude.is_none() || longitude.is_none() {
        let by_reference = by_ref.find(stop_ref);
        let point = if by_reference.is_some() {
            by_reference
        } else {
            by_name.find(name)
        };
        match point {
            Some(p) => {
                if latitude.is_none() {
                    *latitude = Some(p.latitude);
                }
                if longitude.is_none() {
                    *longitude = Some(p.longitude);
                }
            },
            None => {},
        }
    }
}

/// A call with the coordinates that were missing.
pub open spec fn enriched_call(
    call: TempStopCallView,
    by_ref: Map<Seq<char>, GeoPointView>,
    by_name: Map<Seq<char>, GeoPointView>,
) -> TempStopCallView {
    let place = place_of(call.stop_point_ref, call.station, by_ref, by_name);
    TempStopCallView {
        latitude: latitude_at(call.latitude, place),
        longitude: longitude_at(call.longitude, place),
        ..call
    }
}

/// A leg with the coordinates that were missing.
pub open spec fn enriched_leg(
    leg: TempLegView,
    by_ref: Map<Seq<char>, GeoPointView>,
    by_name: Map<Seq<char>, GeoPointView>,
) -> TempLegView {
    let from = place_of(leg.from_stop_ref, leg.from_station, by_ref, by_name);
    let to = place_of(leg.to_stop_ref, leg.to_station, by_ref, by_name);
    TempLegView {
        from_latitude: latitude_at(leg.from_latitude, from),
        from_longitude: longitude_at(leg.from_longitude, from),
        to_latitude: latitude_at(leg.to_latitude, to),
        to_longitude: longitude_at(leg.to_longitude, to),
        stop_calls: Seq::new(
            leg.stop_calls.len(),
            |i: int| enriched_call(leg.stop_calls[i], by_ref, by_name),
        ),
        ..leg
    }
}

/// Fills in the coordinates that are missing in calls.
fn enrich_calls(calls: &mut Vec<TempStopCall>, by_ref: &PlaceIndex, by_name: &PlaceIndex)
    ensures
        final(calls)@.len() == old(calls)@.len(),
        forall|k: int|
            0 <= k < old(calls)@.len() ==> (#[trigger] final(calls)@[k]).deep_view()
                == enriched_call(
                old(calls)@[k].deep_view(),
                by_ref.deep_view(),
                by_name.deep_view(),
            ),
{
    let ghost before = calls@;
    let mut i: usize = 0;
    while i < calls.len()
        invariant
            i <= calls@.len(),
            calls@.len() == before.len(),
            forall|k: int| i <= k < before.len() ==> #[trigger] calls@[k] == before[k],
            forall|k: int|
                0 <= k < i ==> (#[trigger] calls@[k]).deep_view() == enriched_call(
                    before[k].deep_view(),
                    by_ref.deep_view(),
                    by_name.deep_view(),
                ),
        decreases calls@.len() - i,
    {
        let call = &mut calls[i];
        enrich(
            &mut call.latitude,
            &mut call.longitude,
            &call.stop_point_ref,
            &call.station,
            by_ref,
            by_name,
        );
        i += 1;
    }
}

/// Fills in the coordinates that are missing in a leg.
pub fn enrich_temp_leg_coordinates(leg: &mut TempLeg, by_ref: &PlaceIndex, by_name: &PlaceIndex)
    ensures
        final(leg).deep_view() == enriched_leg(
            old(leg).deep_view(),
            by_ref.deep_view(),
            by_name.deep_view(),
        ),
{
    let ghost before = leg.deep_view();
    enrich(
        &mut leg.from_latitude,
        &mut leg.from_longitude,
        &leg.from_stop_ref,
        &leg.from_station,
        by_ref,
        by_name,
    );
    enrich(
        &mut leg.to_latitude,
        &mut leg.to_longitude,
        &leg.to_stop_ref,
        &leg.to_station,
        by_ref,
        by_name,
    );
    enrich_calls(&mut leg.stop_calls, by_ref, by_name);
    assert(leg.deep_view().stop_calls =~= enriched_leg(
        before,
        by_ref.deep_view(),
        by_name.deep_view(),
    ).stop_calls);
}

/// Coordinates that were read are never replaced.
pub proof fn law_enrichment_keeps_coordinates(
    leg: TempLegView,
    by_ref: Map<Seq<char>, GeoPointView>,
    by_name: Map<Seq<char>, GeoPointView>,
)
    ensures
        leg.from_latitude is Some ==> enriched_leg(leg, by_ref, by_name).from_latitude
            == leg.from_latitude,
        leg.from_longitude is Some ==> enriched_leg(leg, by_ref, by_name).from_longitude
            == leg.from_longitude,
        leg.to_latitude is Some ==> enriched_leg(leg, by_ref, by_name).to_latitude
            == leg.to_latitude,
        leg.to_longitude is Some ==> enriched_leg(leg, by_ref, by_name).to_longitude
            == leg.to_longitude,
        forall|i: int|
            0 <= i < leg.stop_calls.len() && leg.stop_calls[i].latitude is Some ==> (
            #[trigger] enriched_leg(leg, by_ref, by_name).stop_calls[i]).latitude
                == leg.stop_calls[i].latitude,
        forall|i: int|
            0 <= i < leg.stop_calls.len() && leg.stop_calls[i].longitude is Some ==> (
            #[trigger] enriched_leg(leg, by_ref, by_name).stop_calls[i]).longitude
                == leg.stop_calls[i].longitude,
{
}

/// A place that was read is found under its references and under its name, whatever the case
/// of the letters and the white space around them; other names keep what they had.
pub proof fn law_place_is_found_by_its_names(
    by_ref: Map<Seq<char>, GeoPointView>,
    by_name: Map<Seq<char>, GeoPointView>,
    place: TempPlaceView,
    other: Seq<char>,
)
    requires
        place.latitude is Some,
        place.longitude is Some,
    ensures
        ({
            let point = GeoPointView {
                latitude: place.latitude->0,
                longitude: place.longitude->0,
            };
            let refs = refs_with(by_ref, place);
            let names = names_with(by_name, place);
            &&& place.stop_point_ref is Some ==> found_place(refs, place.stop_point_ref) == Some(
                point,
            )
            &&& place.stop_place_ref is Some ==> found_place(refs, place.stop_place_ref) == Some(
                point,
            )
            &&& place.name is Some ==> found_place(names, place.name) == Some(point)
            &&& (place.stop_point_ref is Some ==> text::lowered(text::trimmed(other))
                != text::lowered(text::trimmed(place.stop_point_ref->0))) && (
            place.stop_place_ref is Some ==> text::lowered(text::trimmed(other)) != text::lowered(
                text::trimmed(place.stop_place_ref->0),
            )) ==> found_place(refs, Some(other)) == found_place(by_ref, Some(other))
            &&& (place.name is Some ==> text::lowered(text::trimmed(other)) != text::lowered(
                text::trimmed(place.name->0),
            )) ==> found_place(names, Some(other)) == found_place(by_name, Some(other))
        }),
{
}

/// A place without both coordinates is not entered, and without a name nothing is found.
pub proof fn law_places_without_coordinates_are_passed_over(
    index: Map<Seq<char>, GeoPointView>,
    place: TempPlaceView,
)
    ensures
        place.latitude is None || place.longitude is None ==> refs_with(index, place) == index,
        place.latitude is None || place.longitude is None ==> names_with(index, place) == index,
        found_place(index, None) is None,
{
}

/// Missing coordinates of both ends and of the calls are those of the place of their
/// reference, or else of their name. Nothing else of a leg is changed.
pub proof fn law_missing_coordinates_are_filled_in(
    leg: TempLegView,
    by_ref: Map<Seq<char>, GeoPointView>,
    by_name: Map<Seq<char>, GeoPointView>,
    i: int,
)
    requires
        0 <= i < leg.stop_calls.len(),
    ensures
        ({
            let after = enriched_leg(leg, by_ref, by_name);
            let call = leg.stop_calls[i];
            let filled = after.stop_calls[i];
            let from = if found_place(by_ref, leg.from_stop_ref) is Some {
                found_place(by_ref, leg.from_stop_ref)
            } else {
                found_place(by_name, leg.from_station)
            };
            let to = if found_place(by_ref, leg.to_stop_ref) is Some {
                found_place(by_ref, leg.to_stop_ref)
            } else {
                found_place(by_name, leg.to_station)
            };
            let at = if found_place(by_ref, call.stop_point_ref) is Some {
                found_place(by_ref, call.stop_point_ref)
            } else {
                found_place(by_name, call.station)
            };
            &&& after.stop_calls.len() == leg.stop_calls.len()
            &&& after.from_station == leg.from_station && after.to_station == leg.to_station
            &&& filled.station == call.station && filled.stop_point_ref == call.stop_point_ref
            &&& leg.from_latitude is None && from is Some ==> after.from_latitude == Some(
                from->0.latitude,
            )
            &&& leg.from_longitude is None && from is Some ==> after.from_longitude == Some(
                from->0.longitude,
            )
            &&& leg.to_latitude is None && to is Some ==> after.to_latitude == Some(to->0.latitude)
            &&& leg.to_longitude is None && to is Some ==> after.to_longitude == Some(
                to->0.longitude,
            )
            &&& call.latitude is None && at is Some ==> filled.latitude == Some(at->0.latitude)
            &&& call.longitude is None && at is Some ==> filled.longitude == Some(at->0.longitude)
            &&& leg.from_latitude is None && from is None ==> after.from_latitude is None
            &&& leg.to_latitude is None && to is None ==> after.to_latitude is None
            &&& call.latitude is None && at is None ==> filled.latitude is None
        }),
{
}

} // verus!
