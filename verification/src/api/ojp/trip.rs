//! The answer to a trip search.

use vstd::prelude::*;

use crate::api::ojp::drafts::{
    TempLeg, TempLegView, TempOccupancy, TempOccupancyView, TempPlace, TempPlaceView,
    TempStopCall, TempStopCallView, TempTrip, TempTripView,
};
use crate::api::ojp::leg;
use crate::api::ojp::places;
use crate::api::ojp::places::PlaceIndex;
use crate::api::ojp::tags;
use crate::coordinate;
use crate::coordinate::Coordinate;
use crate::error;
use crate::error::Error;
use crate::identifier;
use crate::models::{GeoPointView, Trip, TripView};
use crate::text;
use crate::time;
use crate::xml;
use crate::xml::{XmlEvent, XmlItem};

verus! {

// ---------------------------------------------------------------------------
// Where a text stands
// ---------------------------------------------------------------------------

/// Where a leg is boarded.
pub open spec fn in_origin(path: Seq<Seq<char>>) -> bool {
    tags::near(path, "Origin"@) || tags::near(path, "From"@) || tags::near(path, "Board"@)
}

/// Where a leg is left.
pub open spec fn in_destination(path: Seq<Seq<char>>) -> bool {
    tags::near(path, "Destination"@) || tags::near(path, "To"@) || tags::near(path, "Alight"@)
}

/// Within the times of the boarding.
pub open spec fn in_board(path: Seq<Seq<char>>) -> bool {
    tags::near(path, "LegBoard"@) || tags::near(path, "Origin"@) || tags::near(path, "From"@)
}

/// Within the times of the alighting.
pub open spec fn in_alight(path: Seq<Seq<char>>) -> bool {
    tags::near(path, "LegAlight"@) || tags::near(path, "Destination"@) || tags::near(path, "To"@)
}

/// Within a call at a stop.
pub open spec fn in_leg_stop(path: Seq<Seq<char>>) -> bool {
    ||| tags::near(path, "LegBoard"@)
    ||| tags::near(path, "LegIntermediate"@)
    ||| tags::near(path, "LegAlight"@)
    ||| tags::near(path, "CallAtStop"@)
    ||| tags::near(path, "IntermediateStop"@)
    ||| tags::near(path, "OnwardCall"@)
    ||| tags::near(path, "PreviousCall"@)
    ||| tags::near(path, "LegStart"@)
    ||| tags::near(path, "LegEnd"@)
}

/// Within a call, or within one of its two times.
pub open spec fn in_call(path: Seq<Seq<char>>) -> bool {
    tags::near(path, "ServiceArrival"@) || tags::near(path, "ServiceDeparture"@) || in_leg_stop(
        path,
    )
}

fn at_origin(path: &Vec<String>) -> (r: bool)
    ensures
        r == in_origin(path.deep_view()),
{
    tags::path_contains(path, "Origin") || tags::path_contains(path, "From")
        || tags::path_contains(path, "Board")
}

fn at_destination(path: &Vec<String>) -> (r: bool)
    ensures
        r == in_destination(path.deep_view()),
{
    tags::path_contains(path, "Destination") || tags::path_contains(path, "To")
        || tags::path_contains(path, "Alight")
}

fn at_board(path: &Vec<String>) -> (r: bool)
    ensures
        r == in_board(path.deep_view()),
{
    tags::path_contains(path, "LegBoard") || tags::path_contains(path, "Origin")
        || tags::path_contains(path, "From")
}

fn at_alight(path: &Vec<String>) -> (r: bool)
    ensures
        r == in_alight(path.deep_view()),
{
    tags::path_contains(path, "LegAlight") || tags::path_contains(path, "Destination")
        || tags::path_contains(path, "To")
}

fn at_leg_stop(path: &Vec<String>) -> (r: bool)
    ensures
        r == in_leg_stop(path.deep_view()),
{
    tags::path_contains(path, "LegBoard") || tags::path_contains(path, "LegIntermediate")
        || tags::path_contains(path, "LegAlight") || tags::path_contains(path, "CallAtStop")
        || tags::path_contains(path, "IntermediateStop") || tags::path_contains(path, "OnwardCall")
        || tags::path_contains(path, "PreviousCall") || tags::path_contains(path, "LegStart")
        || tags::path_contains(path, "LegEnd")
}

fn at_call(path: &Vec<String>) -> (r: bool)
    ensures
        r == in_call(path.deep_view()),
{
    tags::path_contains(path, "ServiceArrival") || tags::path_contains(path, "ServiceDeparture")
        || at_leg_stop(path)
}

// ---------------------------------------------------------------------------
// What a text adds
// ---------------------------------------------------------------------------

/// The tags that hold the name of a place.
pub open spec fn place_name_tag(tag: Seq<char>) -> bool {
    ||| tag == "StopPlaceName"@
    ||| tag == "StopPointName"@
    ||| tag == "TopographicPlaceName"@
    ||| tag == "LocationName"@
    ||| tag == "Name"@
    ||| tag == "Text"@
}

/// The tags that hold the name of a stop.
pub open spec fn stop_name_tag(tag: Seq<char>) -> bool {
    tag == "LocationName"@ || tag == "StopPointName"@ || tag == "Name"@ || tag == "Text"@
}

fn is_stop_name_tag(tag: &str) -> (r: bool)
    ensures
        r == stop_name_tag(tag@),
{
    text::same(tag, "LocationName") || text::same(tag, "StopPointName") || text::same(tag, "Name")
        || text::same(tag, "Text")
}

/// A place after a text within a tag.
pub open spec fn place_with_text(place: TempPlaceView, tag: Seq<char>, value: Seq<char>) -> TempPlaceView {
    if tag == "StopPlaceRef"@ {
        TempPlaceView { stop_place_ref: tags::or_else(place.stop_place_ref, Some(value)), ..place }
    } else if tag == "StopPointRef"@ {
        TempPlaceView { stop_point_ref: tags::or_else(place.stop_point_ref, Some(value)), ..place }
    } else if place_name_tag(tag) {
        TempPlaceView { name: tags::or_else(place.name, Some(value)), ..place }
    } else if tag == "Longitude"@ {
        TempPlaceView { longitude: coordinate::coordinate_value(value), ..place }
    } else if tag == "Latitude"@ {
        TempPlaceView { latitude: coordinate::coordinate_value(value), ..place }
    } else {
        place
    }
}

fn add_place_text(place: &mut TempPlace, tag: &str, value: &str)
    ensures
        final(place).deep_view() == place_with_text(old(place).deep_view(), tag@, value@),
{
    if text::same(tag, "StopPlaceRef") {
        if place.stop_place_ref.is_none() {
            place.stop_place_ref = Some(value.to_owned());
        }
    } else if text::same(tag, "StopPointRef") {
        if place.stop_point_ref.is_none() {
            place.stop_point_ref = Some(value.to_owned());
        }
    } else if text::same(tag, "StopPlaceName") || text::same(tag, "TopographicPlaceName")
        || is_stop_name_tag(tag) {
        if place.name.is_none() {
            place.name = Some(value.to_owned());
        }
    } else if text::same(tag, "Longitude") {
        place.longitude = Coordinate::parse(value);
    } else if text::same(tag, "Latitude") {
        place.latitude = Coordinate::parse(value);
    }
}

/// The text is the name of the stop of a call.
pub open spec fn call_name_text(path: Seq<Seq<char>>, tag: Seq<char>) -> bool {
    stop_name_tag(tag) && (tags::near(path, "StopPointName"@) || tags::near(
        path,
        "LocationName"@,
    ))
}

/// A time of a call after a text: the text is for the arrival or, outside an arrival, for
/// the departure, and a text that is no time changes nothing.
pub open spec fn call_time_after(
    present: Option<time::FixedDateTime>,
    mine: bool,
    value: Seq<char>,
) -> Option<time::FixedDateTime> {
    if mine {
        tags::or_else(tags::ojp_time(value), present)
    } else {
        present
    }
}

/// A call after a text within a tag.
pub open spec fn call_with_text(
    call: TempStopCallView,
    path: Seq<Seq<char>>,
    tag: Seq<char>,
    value: Seq<char>,
) -> TempStopCallView {
    let arrival = tags::near(path, "ServiceArrival"@);
    let departure = !arrival && tags::near(path, "ServiceDeparture"@);
    let planned = tag == "TimetabledTime"@;
    let estimated = tag == "EstimatedTime"@;
    let kind = if in_call(path) {
        tags::platform_kind(path, tag)
    } else {
        None
    };
    TempStopCallView {
        station: if call_name_text(path, tag) {
            Some(value)
        } else {
            call.station
        },
        stop_point_ref: if tag == "StopPointRef"@ {
            tags::or_else(call.stop_point_ref, Some(value))
        } else {
            call.stop_point_ref
        },
        platform_scheduled: match kind {
            Some(k) => tags::scheduled_after(call.platform_scheduled, k, value),
            None => call.platform_scheduled,
        },
        platform_expected: match kind {
            Some(k) => tags::expected_after(call.platform_expected, k, value),
            None => call.platform_expected,
        },
        latitude: if tag == "Latitude"@ && in_call(path) {
            coordinate::coordinate_value(value)
        } else {
            call.latitude
        },
        longitude: if tag == "Longitude"@ && in_call(path) {
            coordinate::coordinate_value(value)
        } else {
            call.longitude
        },
        arrival_scheduled: call_time_after(call.arrival_scheduled, planned && arrival, value),
        arrival_expected: call_time_after(call.arrival_expected, estimated && arrival, value),
        departure_scheduled: call_time_after(call.departure_scheduled, planned && departure, value),
        departure_expected: call_time_after(call.departure_expected, estimated && departure, value),
    }
}

fn set_time(present: &mut Option<time::FixedDateTime>, mine: bool, value: &str)
    ensures
        *final(present) == call_time_after(*old(present), mine, value@),
{
    if mine {
        match tags::parse_ojp_datetime(value) {
            Some(t) => {
                *present = Some(t);
            },
            None => {},
        }
    }
}

fn add_call_text(call: &mut TempStopCall, path: &Vec<String>, tag: &str, value: &str)
    ensures
        final(call).deep_view() == call_with_text(
            old(call).deep_view(),
            path.deep_view(),
            tag@,
            value@,
        ),
{
    let arrival = tags::path_contains(path, "ServiceArrival");
    let departure = !arrival && tags::path_contains(path, "ServiceDeparture");
    let within = at_call(path);
    if is_stop_name_tag(tag) && (tags::path_contains(path, "StopPointName") || tags::path_contains(
        path,
        "LocationName",
    )) {
        call.station = Some(value.to_owned());
    }
    if text::same(tag, "StopPointRef") && call.stop_point_ref.is_none() {
        call.stop_point_ref = Some(value.to_owned());
    }
    if within {
        if text::same(tag, "Longitude") {
            call.longitude = Coordinate::parse(value);
        }
        if text::same(tag, "Latitude") {
            call.latitude = Coordinate::parse(value);
        }
        match tags::detect_platform_kind(path, tag) {
            Some(kind) => tags::set_platform_candidate(
                &mut call.platform_scheduled,
                &mut call.platform_expected,
                kind,
                value,
            ),
            None => {},
        }
    }
    let planned = text::same(tag, "TimetabledTime");
    let estimated = text::same(tag, "EstimatedTime");
    set_time(&mut call.arrival_scheduled, planned && arrival, value);
    set_time(&mut call.arrival_expected, estimated && arrival, value);
    set_time(&mut call.departure_scheduled, planned && departure, value);
    set_time(&mut call.departure_expected, estimated && departure, value);
}

/// An occupancy after a text within a tag.
pub open spec fn occupancy_with_text(
    occupancy: TempOccupancyView,
    tag: Seq<char>,
    value: Seq<char>,
) -> TempOccupancyView {
    if tag == "FareClass"@ {
        TempOccupancyView { fare_class: Some(value), ..occupancy }
    } else if tag == "OccupancyLevel"@ {
        TempOccupancyView { level: Some(value), ..occupancy }
    } else {
        occupancy
    }
}

fn add_occupancy_text(occupancy: &mut TempOccupancy, tag: &str, value: &str)
    ensures
        final(occupancy).deep_view() == occupancy_with_text(
            old(occupancy).deep_view(),
            tag@,
            value@,
        ),
{
    if text::same(tag, "FareClass") {
        occupancy.fare_class = Some(value.to_owned());
    } else if text::same(tag, "OccupancyLevel") {
        occupancy.level = Some(value.to_owned());
    }
}

/// A leg after the name of a stop.
pub open spec fn leg_with_name(
    leg: TempLegView,
    path: Seq<Seq<char>>,
    tag: Seq<char>,
    value: Seq<char>,
) -> TempLegView {
    let listed = in_leg_stop(path) && (tag != "Text"@ || tags::near(path, "StopPointName"@)
        || tags::near(path, "LocationName"@) || tags::near(path, "Name"@));
    let begins = in_origin(path) && leg.from_station is None;
    let ends = !begins && in_destination(path) && leg.to_station is None;
    TempLegView {
        stop_sequence: if listed {
            leg.stop_sequence.push(value)
        } else {
            leg.stop_sequence
        },
        from_station: if begins {
            Some(value)
        } else {
            leg.from_station
        },
        to_station: if ends {
            Some(value)
        } else {
            leg.to_station
        },
        ..leg
    }
}

fn add_leg_name(leg: &mut TempLeg, path: &Vec<String>, tag: &str, value: &str)
    ensures
        final(leg).deep_view() == leg_with_name(
            old(leg).deep_view(),
            path.deep_view(),
            tag@,
            value@,
        ),
{
    if at_leg_stop(path) && (!text::same(tag, "Text") || tags::path_contains(path, "StopPointName")
        || tags::path_contains(path, "LocationName") || tags::path_contains(path, "Name")) {
        let ghost before = leg.stop_sequence.deep_view();
        leg.stop_sequence.push(value.to_owned());
        assert(leg.stop_sequence.deep_view() =~= before.push(value@));
    }
    if at_origin(path) && leg.from_station.is_none() {
        leg.from_station = Some(value.to_owned());
    } else if at_destination(path) && leg.to_station.is_none() {
        leg.to_station = Some(value.to_owned());
    }
}

/// A leg after the reference of a stop, which may name a platform. A reference is kept
/// while no platform is known.
pub open spec fn leg_with_ref(leg: TempLegView, path: Seq<Seq<char>>, value: Seq<char>) -> TempLegView {
    if in_origin(path) && leg.from_platform is None {
        TempLegView {
            from_platform: tags::ref_platform(value),
            from_stop_ref: tags::or_else(leg.from_stop_ref, Some(value)),
            ..leg
        }
    } else if in_destination(path) && leg.to_platform is None {
        TempLegView {
            to_platform: tags::ref_platform(value),
            to_stop_ref: tags::or_else(leg.to_stop_ref, Some(value)),
            ..leg
        }
    } else {
        leg
    }
}

fn add_leg_ref(leg: &mut TempLeg, path: &Vec<String>, value: &str)
    ensures
        final(leg).deep_view() == leg_with_ref(old(leg).deep_view(), path.deep_view(), value@),
{
    if at_origin(path) && leg.from_platform.is_none() {
        leg.from_platform = tags::platform_from_stop_point_ref(value);
        if leg.from_stop_ref.is_none() {
            leg.from_stop_ref = Some(value.to_owned());
        }
    } else if at_destination(path) && leg.to_platform.is_none() {
        leg.to_platform = tags::platform_from_stop_point_ref(value);
        if leg.to_stop_ref.is_none() {
            leg.to_stop_ref = Some(value.to_owned());
        }
    }
}

/// A leg after the name of a platform.
pub open spec fn leg_with_platform(
    leg: TempLegView,
    path: Seq<Seq<char>>,
    value: Seq<char>,
) -> TempLegView {
    if in_origin(path) {
        TempLegView {
            from_platform: tags::or_else(leg.from_platform, tags::platform_value(value)),
            ..leg
        }
    } else if in_destination(path) {
        TempLegView {
            to_platform: tags::or_else(leg.to_platform, tags::platform_value(value)),
            ..leg
        }
    } else {
        leg
    }
}

fn add_leg_platform(leg: &mut TempLeg, path: &Vec<String>, value: &str)
    ensures
        final(leg).deep_view() == leg_with_platform(old(leg).deep_view(), path.deep_view(), value@),
{
    if at_origin(path) {
        if leg.from_platform.is_none() {
            leg.from_platform = tags::normalize_platform_value(value);
        }
    } else if at_destination(path) {
        if leg.to_platform.is_none() {
            leg.to_platform = tags::normalize_platform_value(value);
        }
    }
}

/// A leg after a longitude, unless the text is no number.
pub open spec fn leg_with_longitude(leg: TempLegView, path: Seq<Seq<char>>, value: Seq<char>) -> TempLegView {
    let number = coordinate::coordinate_value(value);
    if number is None {
        leg
    } else if in_origin(path) {
        TempLegView { from_longitude: number, ..leg }
    } else if in_destination(path) {
        TempLegView { to_longitude: number, ..leg }
    } else {
        leg
    }
}

/// A leg after a latitude, unless the text is no number.
pub open spec fn leg_with_latitude(leg: TempLegView, path: Seq<Seq<char>>, value: Seq<char>) -> TempLegView {
    let number = coordinate::coordinate_value(value);
    if number is None {
        leg
    } else if in_origin(path) {
        TempLegView { from_latitude: number, ..leg }
    } else if in_destination(path) {
        TempLegView { to_latitude: number, ..leg }
    } else {
        leg
    }
}

fn add_leg_longitude(leg: &mut TempLeg, path: &Vec<String>, value: &str)
    ensures
        final(leg).deep_view() == leg_with_longitude(
            old(leg).deep_view(),
            path.deep_view(),
            value@,
        ),
{
    let number = Coordinate::parse(value);
    if number.is_some() {
        if at_origin(path) {
            leg.from_longitude = number;
        } else if at_destination(path) {
            leg.to_longitude = number;
        }
    }
}

fn add_leg_latitude(leg: &mut TempLeg, path: &Vec<String>, value: &str)
    ensures
        final(leg).deep_view() == leg_with_latitude(old(leg).deep_view(), path.deep_view(), value@),
{
    let number = Coordinate::parse(value);
    if number.is_some() {
        if at_origin(path) {
            leg.from_latitude = number;
        } else if at_destination(path) {
            leg.to_latitude = number;
        }
    }
}

/// Within the times of some departure.
pub open spec fn in_departure(path: Seq<Seq<char>>) -> bool {
    tags::near(path, "Departure"@) || tags::near(path, "ServiceDeparture"@)
}

/// Within the times of some arrival.
pub open spec fn in_arrival(path: Seq<Seq<char>>) -> bool {
    tags::near(path, "Arrival"@) || tags::near(path, "ServiceArrival"@)
}

fn at_departure(path: &Vec<String>) -> (r: bool)
    ensures
        r == in_departure(path.deep_view()),
{
    tags::path_contains(path, "Departure") || tags::path_contains(path, "ServiceDeparture")
}

fn at_arrival(path: &Vec<String>) -> (r: bool)
    ensures
        r == in_arrival(path.deep_view()),
{
    tags::path_contains(path, "Arrival") || tags::path_contains(path, "ServiceArrival")
}

/// A leg after a planned time, unless the text is no time.
pub open spec fn leg_with_planned(leg: TempLegView, path: Seq<Seq<char>>, value: Seq<char>) -> TempLegView {
    let at = tags::ojp_time(value);
    if at is None {
        leg
    } else if in_board(path) || (in_departure(path) && leg.departure_scheduled is None) {
        TempLegView { departure_scheduled: at, ..leg }
    } else if in_alight(path) {
        TempLegView { arrival_scheduled: at, ..leg }
    } else if in_arrival(path) {
        TempLegView { fallback_arrival_scheduled: at, ..leg }
    } else {
        leg
    }
}

/// A leg after an expected time, unless the text is no time.
pub open spec fn leg_with_expected(leg: TempLegView, path: Seq<Seq<char>>, value: Seq<char>) -> TempLegView {
    let at = tags::ojp_time(value);
    if at is None {
        leg
    } else if in_board(path) || (in_departure(path) && leg.departure_expected is None) {
        TempLegView { departure_expected: at, ..leg }
    } else if in_alight(path) {
        TempLegView { arrival_expected: at, ..leg }
    } else if in_arrival(path) {
        TempLegView { fallback_arrival_expected: at, ..leg }
    } else {
        leg
    }
}

fn add_leg_planned(leg: &mut TempLeg, path: &Vec<String>, value: &str)
    ensures
        final(leg).deep_view() == leg_with_planned(old(leg).deep_view(), path.deep_view(), value@),
{
    let at = tags::parse_ojp_datetime(value);
    if at.is_some() {
        if at_board(path) || (at_departure(path) && leg.departure_scheduled.is_none()) {
            leg.departure_scheduled = at;
        } else if at_alight(path) {
            leg.arrival_scheduled = at;
        } else if at_arrival(path) {
            leg.fallback_arrival_scheduled = at;
        }
    }
}

fn add_leg_expected(leg: &mut TempLeg, path: &Vec<String>, value: &str)
    ensures
        final(leg).deep_view() == leg_with_expected(old(leg).deep_view(), path.deep_view(), value@),
{
    let at = tags::parse_ojp_datetime(value);
    if at.is_some() {
        if at_board(path) || (at_departure(path) && leg.departure_expected.is_none()) {
            leg.departure_expected = at;
        } else if at_alight(path) {
            leg.arrival_expected = at;
        } else if at_arrival(path) {
            leg.fallback_arrival_expected = at;
        }
    }
}

/// A leg after a text within a tag.
pub open spec fn leg_with_text(
    leg: TempLegView,
    path: Seq<Seq<char>>,
    tag: Seq<char>,
    value: Seq<char>,
) -> TempLegView {
    if tag == "Mode"@ || tag == "PtMode"@ {
        TempLegView { mode: tags::or_else(leg.mode, Some(value)), ..leg }
    } else if tag == "PublicCode"@ || tag == "PublishedLineName"@ || (tag == "Text"@ && tags::near(
        path,
        "PublishedServiceName"@,
    )) {
        TempLegView { line: tags::preferred_line(leg.line, value), ..leg }
    } else if tag == "OperatorRef"@ || tag == "OperatorName"@ {
        TempLegView { operator: tags::or_else(leg.operator, Some(value)), ..leg }
    } else if stop_name_tag(tag) {
        leg_with_name(leg, path, tag, value)
    } else if tag == "StopPointRef"@ {
        leg_with_ref(leg, path, value)
    } else if tag != "LineRef"@ && tag != "JourneyRef"@ && tags::platform_kind(path, tag) is Some {
        leg_with_platform(leg, path, value)
    } else if tag == "Longitude"@ {
        leg_with_longitude(leg, path, value)
    } else if tag == "Latitude"@ {
        leg_with_latitude(leg, path, value)
    } else if tag == "TimetabledTime"@ {
        leg_with_planned(leg, path, value)
    } else if tag == "EstimatedTime"@ {
        leg_with_expected(leg, path, value)
    } else {
        leg
    }
}

fn add_leg_text(leg: &mut TempLeg, path: &Vec<String>, tag: &str, value: &str)
    ensures
        final(leg).deep_view() == leg_with_text(
            old(leg).deep_view(),
            path.deep_view(),
            tag@,
            value@,
        ),
{
    if text::same(tag, "Mode") || text::same(tag, "PtMode") {
        if leg.mode.is_none() {
            leg.mode = Some(value.to_owned());
        }
    } else if text::same(tag, "PublicCode") || text::same(tag, "PublishedLineName") || (text::same(
        tag,
        "Text",
    ) && tags::path_contains(path, "PublishedServiceName")) {
        tags::set_preferred_line(&mut leg.line, value.to_owned());
    } else if text::same(tag, "OperatorRef") || text::same(tag, "OperatorName") {
        if leg.operator.is_none() {
            leg.operator = Some(value.to_owned());
        }
    } else if is_stop_name_tag(tag) {
        add_leg_name(leg, path, tag, value);
    } else if text::same(tag, "StopPointRef") {
        add_leg_ref(leg, path, value);
    } else if !text::same(tag, "LineRef") && !text::same(tag, "JourneyRef")
        && tags::detect_platform_kind(path, tag).is_some() {
        add_leg_platform(leg, path, value);
    } else if text::same(tag, "Longitude") {
        add_leg_longitude(leg, path, value);
    } else if text::same(tag, "Latitude") {
        add_leg_latitude(leg, path, value);
    } else if text::same(tag, "TimetabledTime") {
        add_leg_planned(leg, path, value);
    } else if text::same(tag, "EstimatedTime") {
        add_leg_expected(leg, path, value);
    }
}

// ---------------------------------------------------------------------------
// What the end of an element adds
// ---------------------------------------------------------------------------

/// A leg after an expected occupancy: the first level of a class stays.
pub open spec fn leg_with_occupancy(leg: TempLegView, occupancy: TempOccupancyView) -> TempLegView {
    let level = match occupancy.level {
        Some(code) => tags::occupancy_level(code),
        None => None,
    };
    let fare = match occupancy.fare_class {
        Some(class) => text::lowered(class),
        None => Seq::empty(),
    };
    if text::contains(fare, "first"@) {
        TempLegView {
            occupancy_first_class: tags::or_else(leg.occupancy_first_class, level),
            ..leg
        }
    } else if text::contains(fare, "second"@) {
        TempLegView {
            occupancy_second_class: tags::or_else(leg.occupancy_second_class, level),
            ..leg
        }
    } else {
        TempLegView { occupancy_general: tags::or_else(leg.occupancy_general, level), ..leg }
    }
}

fn add_leg_occupancy(leg: &mut TempLeg, occupancy: TempOccupancy)
    ensures
        final(leg).deep_view() == leg_with_occupancy(old(leg).deep_view(), occupancy.deep_view()),
{
    let level = match &occupancy.level {
        Some(code) => tags::normalize_occupancy_level(code.as_str()),
        None => None,
    };
    let fare = match &occupancy.fare_class {
        Some(class) => text::to_lower(class.as_str()),
        None => String::new(),
    };
    if text::has(fare.as_str(), "first") {
        if leg.occupancy_first_class.is_none() {
            leg.occupancy_first_class = level;
        }
    } else if text::has(fare.as_str(), "second") {
        if leg.occupancy_second_class.is_none() {
            leg.occupancy_second_class = level;
        }
    } else if leg.occupancy_general.is_none() {
        leg.occupancy_general = level;
    }
}

/// A trip after a leg, if the leg has its times.
pub open spec fn trip_with_leg(
    trip: TempTripView,
    leg: TempLegView,
    by_ref: Map<Seq<char>, GeoPointView>,
    by_name: Map<Seq<char>, GeoPointView>,
) -> TempTripView {
    match leg::mapped_leg(places::enriched_leg(leg, by_ref, by_name)) {
        Some(mapped) => TempTripView { legs: trip.legs.push(mapped), ..trip },
        None => trip,
    }
}

fn add_leg(trip: &mut TempTrip, draft: TempLeg, by_ref: &PlaceIndex, by_name: &PlaceIndex)
    ensures
        final(trip).deep_view() == trip_with_leg(
            old(trip).deep_view(),
            draft.deep_view(),
            by_ref.deep_view(),
            by_name.deep_view(),
        ),
{
    let mut draft = draft;
    places::enrich_temp_leg_coordinates(&mut draft, by_ref, by_name);
    match leg::map_leg(draft) {
        Some(mapped) => {
            let ghost before = trip.legs.deep_view();
            let ghost view = mapped.deep_view();
            trip.legs.push(mapped);
            assert(trip.legs.deep_view() =~= before.push(view));
        },
        None => {},
    }
}

/// The larger of a number and zero.
pub open spec fn at_least_zero(n: int) -> int {
    if n < 0 {
        0
    } else {
        n
    }
}

/// The trip that is handed out, if it has a leg. It lasts from the planned departure to
/// the expected arrival.
pub open spec fn finished_trip(trip: TempTripView) -> Option<TripView> {
    if trip.legs.len() == 0 {
        None
    } else {
        Some(
            TripView {
                id: trip.id,
                duration_minutes: at_least_zero(
                    time::minutes_apart(
                        trip.legs.last().arrival.expected,
                        trip.legs[0].departure.scheduled,
                    ),
                ) as i64,
                legs: trip.legs,
            },
        )
    }
}

fn finish_trip(trip: TempTrip) -> (r: Option<Trip>)
    ensures
        r.deep_view() == finished_trip(trip.deep_view()),
{
    let n: usize = trip.legs.len();
    if n == 0 {
        return None;
    }
    let minutes: i64 = time::minutes_between(
        trip.legs[n - 1].arrival.expected,
        trip.legs[0].departure.scheduled,
    );
    let duration_minutes: i64 = if minutes < 0 {
        0
    } else {
        minutes
    };
    assert(trip.legs.deep_view().last().arrival == trip.legs@[n - 1].arrival);
    assert(trip.legs.deep_view()[0].departure == trip.legs@[0].departure);
    Some(Trip { id: trip.id, duration_minutes, legs: trip.legs })
}

// ---------------------------------------------------------------------------
// The reader
// ---------------------------------------------------------------------------

/// A reader of the answer to a trip search.
pub struct TripParser {
    /// The open tags, outermost first.
    pub path: Vec<String>,
    /// The trip that is being read.
    pub trip: Option<TempTrip>,
    /// The leg that is being read.
    pub leg: Option<TempLeg>,
    /// The call that is being read.
    pub call: Option<TempStopCall>,
    /// The occupancy that is being read.
    pub occupancy: Option<TempOccupancy>,
    /// The place that is being read.
    pub place: Option<TempPlace>,
    /// The trips that are complete.
    pub trips: Vec<Trip>,
    /// The places, by reference.
    pub by_ref: PlaceIndex,
    /// The places, by name.
    pub by_name: PlaceIndex,
}

/// The view of a [`TripParser`].
#[verifier::ext_equal]
pub struct TripParserView {
    pub path: Seq<Seq<char>>,
    pub trip: Option<TempTripView>,
    pub leg: Option<TempLegView>,
    pub call: Option<TempStopCallView>,
    pub occupancy: Option<TempOccupancyView>,
    pub place: Option<TempPlaceView>,
    pub trips: Seq<TripView>,
    pub by_ref: Map<Seq<char>, GeoPointView>,
    pub by_name: Map<Seq<char>, GeoPointView>,
}

impl DeepView for TripParser {
    type V = TripParserView;

    open spec fn deep_view(&self) -> TripParserView {
        TripParserView {
            path: self.path.deep_view(),
            trip: self.trip.deep_view(),
            leg: self.leg.deep_view(),
            call: self.call.deep_view(),
            occupancy: self.occupancy.deep_view(),
            place: self.place.deep_view(),
            trips: self.trips.deep_view(),
            by_ref: self.by_ref.deep_view(),
            by_name: self.by_name.deep_view(),
        }
    }
}

/// The tags that hold a leg.
pub open spec fn leg_tag(tag: Seq<char>) -> bool {
    tag == "TripLeg"@ || tag == "Leg"@
}

impl TripParserView {
    /// The reader before a document.
    pub open spec fn blank() -> TripParserView {
        TripParserView {
            path: Seq::empty(),
            trip: None,
            leg: None,
            call: None,
            occupancy: None,
            place: None,
            trips: Seq::empty(),
            by_ref: Map::empty(),
            by_name: Map::empty(),
        }
    }

    /// The reader after a start tag. A trip goes by `id` until its own reference is read.
    pub open spec fn started(self, tag: Seq<char>, id: Seq<char>) -> TripParserView {
        let path = self.path.push(tag);
        let next = TripParserView { path, ..self };
        if tag == "Place"@ && tags::near(path, "TripResponseContext"@) && tags::near(
            path,
            "Places"@,
        ) {
            TripParserView { place: Some(TempPlaceView::blank()), ..next }
        } else if tag == "TripResult"@ {
            TripParserView { trip: Some(TempTripView { id, legs: Seq::empty() }), ..next }
        } else if leg_tag(tag) {
            TripParserView { leg: Some(TempLegView::blank()), ..next }
        } else if tags::stop_call_tag(tag) {
            TripParserView { call: Some(TempStopCallView::blank()), ..next }
        } else if tag == "ExpectedDepartureOccupancy"@ {
            TripParserView { occupancy: Some(TempOccupancyView::blank()), ..next }
        } else {
            next
        }
    }

    /// The reader after an end tag.
    pub open spec fn ended(self, tag: Seq<char>) -> TripParserView {
        let path = if self.path.len() > 0 {
            self.path.drop_last()
        } else {
            self.path
        };
        let next = TripParserView { path, ..self };
        if tag == "Place"@ {
            match self.place {
                Some(place) => TripParserView {
                    place: None,
                    by_ref: places::refs_with(self.by_ref, place),
                    by_name: places::names_with(self.by_name, place),
                    ..next
                },
                None => next,
            }
        } else if leg_tag(tag) {
            TripParserView {
                leg: None,
                trip: match (self.trip, self.leg) {
                    (Some(trip), Some(leg)) => Some(
                        trip_with_leg(trip, leg, self.by_ref, self.by_name),
                    ),
                    _ => self.trip,
                },
                ..next
            }
        } else if tags::stop_call_tag(tag) {
            TripParserView {
                call: None,
                leg: match (self.leg, self.call) {
                    (Some(leg), Some(call)) => Some(
                        TempLegView { stop_calls: leg.stop_calls.push(call), ..leg },
                    ),
                    _ => self.leg,
                },
                ..next
            }
        } else if tag == "ExpectedDepartureOccupancy"@ {
            TripParserView {
                occupancy: None,
                leg: match (self.leg, self.occupancy) {
                    (Some(leg), Some(occupancy)) => Some(leg_with_occupancy(leg, occupancy)),
                    _ => self.leg,
                },
                ..next
            }
        } else if tag == "TripResult"@ {
            TripParserView {
                trip: None,
                trips: match self.trip {
                    Some(trip) => match finished_trip(trip) {
                        Some(t) => self.trips.push(t),
                        None => self.trips,
                    },
                    None => self.trips,
                },
                ..next
            }
        } else {
            next
        }
    }

    /// The reader after a text. Outside a leg a text only adds to a place.
    pub open spec fn told(self, value: Seq<char>) -> TripParserView {
        let value = text::trimmed(value);
        let tag = tags::innermost(self.path);
        if value.len() == 0 {
            self
        } else {
            let place = match self.place {
                Some(p) => Some(place_with_text(p, tag, value)),
                None => None,
            };
            match self.leg {
                Some(leg) => TripParserView {
                    place,
                    call: match self.call {
                        Some(c) => Some(call_with_text(c, self.path, tag, value)),
                        None => None,
                    },
                    occupancy: match self.occupancy {
                        Some(o) => Some(occupancy_with_text(o, tag, value)),
                        None => None,
                    },
                    leg: Some(leg_with_text(leg, self.path, tag, value)),
                    trip: match self.trip {
                        Some(t) if tag == "JourneyRef"@ => Some(TempTripView { id: value, ..t }),
                        other => other,
                    },
                    ..self
                },
                None => TripParserView { place, ..self },
            }
        }
    }

    /// The reader after an item of the document.
    pub open spec fn stepped(self, item: XmlItem, id: Seq<char>) -> TripParserView {
        match item {
            XmlItem::Start(name) => self.started(tags::local_part(name), id),
            XmlItem::End(name) => self.ended(tags::local_part(name)),
            XmlItem::Text(value) => self.told(value),
            _ => self,
        }
    }

    /// The reader after the items of a document, with an identifier at hand for each item,
    /// or the message of the failure that they end with.
    pub open spec fn run(self, items: Seq<XmlItem>, ids: Seq<Seq<char>>) -> Result<
        TripParserView,
        Seq<char>,
    >
        decreases items.len(),
    {
        if items.len() == 0 {
            Ok(self)
        } else {
            match items[0] {
                XmlItem::Failed(message) => Err(message),
                item => self.stepped(item, ids[0]).run(items.drop_first(), ids.drop_first()),
            }
        }
    }
}

impl TripParser {
    /// The reader before a document.
    pub fn new() -> (r: TripParser)
        ensures
            r.deep_view() == TripParserView::blank(),
    {
        let r = TripParser {
            path: Vec::new(),
            trip: None,
            leg: None,
            call: None,
            occupancy: None,
            place: None,
            trips: Vec::new(),
            by_ref: PlaceIndex::new(),
            by_name: PlaceIndex::new(),
        };
        assert(r.deep_view() =~= TripParserView::blank());
        r
    }

    fn start(&mut self, tag: String, id: String)
        ensures
            final(self).deep_view() == old(self).deep_view().started(tag@, id@),
    {
        let ghost before = self.path.deep_view();
        let name = tag.clone();
        let name = name.as_str();
        self.path.push(tag);
        assert(self.path.deep_view() =~= before.push(name@));
        if text::same(name, "Place") && tags::path_contains(&self.path, "TripResponseContext")
            && tags::path_contains(&self.path, "Places") {
            self.place = Some(TempPlace::new());
        } else if text::same(name, "TripResult") {
            let trip = TempTrip { id, legs: Vec::new() };
            assert(trip.legs.deep_view() =~= Seq::empty());
            self.trip = Some(trip);
        } else if text::same(name, "TripLeg") || text::same(name, "Leg") {
            self.leg = Some(TempLeg::new());
        } else if tags::is_stop_call_container(name) {
            self.call = Some(TempStopCall::new());
        } else if text::same(name, "ExpectedDepartureOccupancy") {
            self.occupancy = Some(TempOccupancy::new());
        }
    }

    fn end_leg(&mut self)
        ensures
            final(self).deep_view() == (TripParserView {
                leg: None,
                trip: match (old(self).deep_view().trip, old(self).deep_view().leg) {
                    (Some(trip), Some(leg)) => Some(
                        trip_with_leg(
                            trip,
                            leg,
                            old(self).deep_view().by_ref,
                            old(self).deep_view().by_name,
                        ),
                    ),
                    _ => old(self).deep_view().trip,
                },
                ..old(self).deep_view()
            }),
    {
        let leg = self.leg.take();
        match self.trip.take() {
            Some(mut trip) => {
                match leg {
                    Some(draft) => add_leg(&mut trip, draft, &self.by_ref, &self.by_name),
                    None => {},
                }
                self.trip = Some(trip);
            },
            None => {},
        }
    }

    fn end_call(&mut self)
        ensures
            final(self).deep_view() == (TripParserView {
                call: None,
                leg: match (old(self).deep_view().leg, old(self).deep_view().call) {
                    (Some(leg), Some(call)) => Some(
                        TempLegView { stop_calls: leg.stop_calls.push(call), ..leg },
                    ),
                    _ => old(self).deep_view().leg,
                },
                ..old(self).deep_view()
            }),
    {
        let call = self.call.take();
        match self.leg.take() {
            Some(mut leg) => {
                match call {
                    Some(c) => {
                        let ghost before = leg.stop_calls.deep_view();
                        let ghost view = c.deep_view();
                        leg.stop_calls.push(c);
                        assert(leg.stop_calls.deep_view() =~= before.push(view));
                    },
                    None => {},
                }
                self.leg = Some(leg);
            },
            None => {},
        }
    }

    fn end_occupancy(&mut self)
        ensures
            final(self).deep_view() == (TripParserView {
                occupancy: None,
                leg: match (old(self).deep_view().leg, old(self).deep_view().occupancy) {
                    (Some(leg), Some(occupancy)) => Some(leg_with_occupancy(leg, occupancy)),
                    _ => old(self).deep_view().leg,
                },
                ..old(self).deep_view()
            }),
    {
        let occupancy = self.occupancy.take();
        match self.leg.take() {
            Some(mut leg) => {
                match occupancy {
                    Some(o) => add_leg_occupancy(&mut leg, o),
                    None => {},
                }
                self.leg = Some(leg);
            },
            None => {},
        }
    }

    fn end_trip(&mut self)
        ensures
            final(self).deep_view() == (TripParserView {
                trip: None,
                trips: match old(self).deep_view().trip {
                    Some(trip) => match finished_trip(trip) {
                        Some(t) => old(self).deep_view().trips.push(t),
                        None => old(self).deep_view().trips,
                    },
                    None => old(self).deep_view().trips,
                },
                ..old(self).deep_view()
            }),
    {
        match self.trip.take() {
            Some(trip) => match finish_trip(trip) {
                Some(t) => {
                    let ghost before = self.trips.deep_view();
                    let ghost view = t.deep_view();
                    self.trips.push(t);
                    assert(self.trips.deep_view() =~= before.push(view));
                },
                None => {},
            },
            None => {},
        }
    }

    fn end(&mut self, tag: String)
        ensures
            final(self).deep_view() == old(self).deep_view().ended(tag@),
    {
        let ghost before = self.path.deep_view();
        let _ = self.path.pop();
        assert(self.path.deep_view() =~= (if before.len() > 0 {
            before.drop_last()
        } else {
            before
        }));
        let tag = tag.as_str();
        if text::same(tag, "Place") {
            match self.place.take() {
                Some(place) => places::add_place(&mut self.by_ref, &mut self.by_name, place),
                None => {},
            }
        } else if text::same(tag, "TripLeg") || text::same(tag, "Leg") {
            self.end_leg();
        } else if tags::is_stop_call_container(tag) {
            self.end_call();
        } else if text::same(tag, "ExpectedDepartureOccupancy") {
            self.end_occupancy();
        } else if text::same(tag, "TripResult") {
            self.end_trip();
        }
    }

    fn tell(&mut self, value: &str)
        ensures
            final(self).deep_view() == old(self).deep_view().told(value@),
    {
        let value = text::trim(value);
        if value.as_str().is_empty() {
            return;
        }
        let tag = tags::innermost_tag(&self.path);
        match self.place.take() {
            Some(mut place) => {
                add_place_text(&mut place, tag.as_str(), value.as_str());
                self.place = Some(place);
            },
            None => {},
        }
        match self.leg.take() {
            Some(mut leg) => {
                match self.call.take() {
                    Some(mut call) => {
                        add_call_text(&mut call, &self.path, tag.as_str(), value.as_str());
                        self.call = Some(call);
                    },
                    None => {},
                }
                match self.occupancy.take() {
                    Some(mut occupancy) => {
                        add_occupancy_text(&mut occupancy, tag.as_str(), value.as_str());
                        self.occupancy = Some(occupancy);
                    },
                    None => {},
                }
                add_leg_text(&mut leg, &self.path, tag.as_str(), value.as_str());
                self.leg = Some(leg);
                if text::same(tag.as_str(), "JourneyRef") {
                    match self.trip.take() {
                        Some(mut trip) => {
                            trip.id = value;
                            self.trip = Some(trip);
                        },
                        None => {},
                    }
                }
            },
            None => {},
        }
    }

    /// Takes note of an event of the document; a trip that begins goes by `id`.
    pub fn step(&mut self, event: XmlEvent, id: String)
        ensures
            final(self).deep_view() == old(self).deep_view().stepped(event.deep_view(), id@),
    {
        match event {
            XmlEvent::Start(name) => {
                let tag = tags::local_name(name.as_str());
                self.start(tag, id);
            },
            XmlEvent::End(name) => {
                let tag = tags::local_name(name.as_str());
                self.end(tag);
            },
            XmlEvent::Text(value) => {
                self.tell(value.as_str());
            },
            XmlEvent::Other => {},
        }
    }
}

/// The item begins a trip.
pub open spec fn trip_start(item: XmlItem) -> bool {
    item matches XmlItem::Start(name) && tags::local_part(name) == "TripResult"@
}

/// The event begins a trip.
fn begins_trip(event: &XmlEvent) -> (r: bool)
    ensures
        r == trip_start(event.deep_view()),
{
    match event {
        XmlEvent::Start(name) => {
            let tag = tags::local_name(name.as_str());
            text::same(tag.as_str(), "TripResult")
        },
        _ => false,
    }
}

/// The trips in the items of a document, with an identifier at hand for each item.
pub open spec fn trips_of(items: Seq<XmlItem>, ids: Seq<Seq<char>>) -> Result<
    Seq<TripView>,
    Seq<char>,
> {
    match TripParserView::blank().run(items, ids) {
        Ok(parser) => Ok(parser.trips),
        Err(message) => Err(message),
    }
}

/// Identifiers for the first items of a document: a trip that begins gets one in the
/// notation of a UUID.
pub open spec fn shaped_for(items: Seq<XmlItem>, ids: Seq<Seq<char>>) -> bool {
    &&& ids.len() <= items.len()
    &&& forall|i: int|
        0 <= i < ids.len() && trip_start(#[trigger] items[i]) ==> identifier::uuid_shaped(ids[i])
}

/// Identifiers at hand for the items of a document: for every item of one that can be read
/// to its end, and for those before the fault of another.
pub open spec fn fresh_for(items: Seq<XmlItem>, ids: Seq<Seq<char>>) -> bool {
    &&& shaped_for(items, ids)
    &&& trips_of(items, ids) is Ok ==> ids.len() == items.len()
}

/// The trips that the answer to a trip search holds. A trip without a reference of its
/// own goes by a random one.
pub fn parse_trip_response(document: &str) -> (r: Result<Vec<Trip>, Error>)
    ensures
        exists|ids: Seq<Seq<char>>|
            error::outcome(r) == #[trigger] trips_of(xml::xml_items(document@), ids) && fresh_for(
                xml::xml_items(document@),
                ids,
            ),
{
    let mut reader = xml::open_document(document);
    let mut parser = TripParser::new();
    let ghost items = xml::xml_items(document@);
    let ghost mut used: Seq<Seq<char>> = Seq::empty();
    assert forall|rest: Seq<Seq<char>>| #[trigger]
        TripParserView::blank().run(items, used + rest) == parser.deep_view().run(
        xml::unread(reader),
        rest,
    ) by {
        assert(used + rest =~= rest);
    }
    assert(items.skip(0) =~= items);
    loop
        invariant_except_break
            forall|rest: Seq<Seq<char>>| #[trigger]
                TripParserView::blank().run(items, used + rest) == parser.deep_view().run(
                    xml::unread(reader),
                    rest,
                ),
            items.skip(used.len() as int) == xml::unread(reader),
        invariant
            items == xml::xml_items(document@),
            shaped_for(items, used),
        ensures
            exists|ids: Seq<Seq<char>>| #[trigger]
                TripParserView::blank().run(items, ids) == Ok::<_, Seq<char>>(parser.deep_view())
                    && fresh_for(items, ids),
        decreases xml::unread(reader).len(),
    {
        let ghost unread = xml::unread(reader);
        let ghost state = parser.deep_view();
        match xml::next_event(&mut reader) {
            Ok(Some(event)) => {
                let id = if begins_trip(&event) {
                    identifier::new_identifier()
                } else {
                    String::new()
                };
                let ghost fresh = id@;
                parser.step(event, id);
                proof {
                    let before = used;
                    assert(unread[0] == items[before.len() as int]);
                    assert(unread.drop_first() =~= items.skip(before.len() as int + 1));
                    used = used.push(fresh);
                    assert forall|rest: Seq<Seq<char>>| #[trigger]
                        TripParserView::blank().run(items, used + rest) == parser.deep_view().run(
                        xml::unread(reader),
                        rest,
                    ) by {
                        let longer = seq![fresh] + rest;
                        assert(used + rest =~= before + longer);
                        assert(TripParserView::blank().run(items, before + longer) == state.run(
                            unread,
                            longer,
                        ));
                        assert(longer.drop_first() =~= rest);
                    }
                }
            },
            Ok(None) => {
                assert(used.len() == items.len());
                assert(used + Seq::empty() =~= used);
                assert(TripParserView::blank().run(items, used + Seq::empty()) == state.run(
                    unread,
                    Seq::empty(),
                ));
                break;
            },
            Err(message) => {
                assert(TripParserView::blank().run(items, used + Seq::empty()) == state.run(
                    unread,
                    Seq::empty(),
                ));
                assert(used + Seq::empty() =~= used);
                assert(trips_of(items, used + Seq::empty()) == Err::<Seq<TripView>, _>(message@));
                return Err(error::failure(message));
            },
        }
    }
    proof {
        let ids = choose|ids: Seq<Seq<char>>| #[trigger]
            TripParserView::blank().run(items, ids) == Ok::<_, Seq<char>>(parser.deep_view())
                && fresh_for(items, ids);
        assert(trips_of(items, ids) == Ok::<_, Seq<char>>(parser.deep_view().trips));
    }
    Ok(parser.trips)
}

proof fn lemma_run_keeps_legs(parser: TripParserView, items: Seq<XmlItem>, ids: Seq<Seq<char>>)
    requires
        forall|i: int| 0 <= i < parser.trips.len() ==> (#[trigger] parser.trips[i]).legs.len() > 0,
    ensures
        parser.run(items, ids) matches Ok(done) ==> forall|i: int|
            0 <= i < done.trips.len() ==> (#[trigger] done.trips[i]).legs.len() > 0,
    decreases items.len(),
{
    if items.len() > 0 && !(items[0] is Failed) {
        let next = parser.stepped(items[0], ids[0]);
        lemma_run_keeps_legs(next, items.drop_first(), ids.drop_first());
    }
}

/// Every trip that is found has a leg.
pub proof fn law_trips_have_legs(items: Seq<XmlItem>, ids: Seq<Seq<char>>)
    ensures
        trips_of(items, ids) matches Ok(trips) ==> forall|i: int|
            0 <= i < trips.len() ==> (#[trigger] trips[i]).legs.len() > 0,
{
    lemma_run_keeps_legs(TripParserView::blank(), items, ids);
}

// ---------------------------------------------------------------------------
// What the trips tell of the document
// ---------------------------------------------------------------------------

/// A document is read item by item: what was read of its beginning decides, with the rest,
/// what is read of the whole.
pub proof fn law_reading_goes_on(
    parser: TripParserView,
    a: Seq<XmlItem>,
    b: Seq<XmlItem>,
    ids: Seq<Seq<char>>,
)
    requires
        ids.len() == a.len() + b.len(),
    ensures
        match parser.run(a, ids.take(a.len() as int)) {
            Ok(middle) => parser.run(a + b, ids) == middle.run(b, ids.skip(a.len() as int)),
            Err(message) => parser.run(a + b, ids) == Err::<TripParserView, _>(message),
        },
    decreases a.len(),
{
    if a.len() == 0 {
        assert(a + b =~= b);
        assert(ids.skip(0) =~= ids);
    } else {
        let all = a + b;
        let some = ids.take(a.len() as int);
        assert(all[0] == a[0]);
        assert(some[0] == ids[0]);
        assert(all.drop_first() =~= a.drop_first() + b);
        match a[0] {
            XmlItem::Failed(_) => {},
            item => {
                let next = parser.stepped(item, ids[0]);
                law_reading_goes_on(next, a.drop_first(), b, ids.drop_first());
                assert(ids.drop_first().take(a.len() - 1) =~= some.drop_first());
                assert(ids.drop_first().skip(a.len() - 1) =~= ids.skip(a.len() as int));
            },
        }
    }
}

/// A trip begins without legs where its element begins.
pub proof fn law_trip_begins_without_legs(parser: TripParserView, name: Seq<char>, id: Seq<char>)
    requires
        tags::local_part(name) == "TripResult"@,
    ensures
        parser.stepped(XmlItem::Start(name), id).trip is Some,
        parser.stepped(XmlItem::Start(name), id).trip->0.legs.len() == 0,
        parser.stepped(XmlItem::Start(name), id).trip->0.id == id,
        parser.stepped(XmlItem::Start(name), id).trips == parser.trips,
{
    lemma_trip_tags();
}

proof fn lemma_trip_tags()
    ensures
        "TripResult"@ != "Place"@,
        "TripResult"@ != "Leg"@,
        "TripResult"@ != "TripLeg"@,
        "TripResult"@ != "ExpectedDepartureOccupancy"@,
        !tags::stop_call_tag("TripResult"@),
        "Leg"@ != "Place"@,
        "TripLeg"@ != "Place"@,
        !tags::stop_call_tag("Leg"@),
        !tags::stop_call_tag("TripLeg"@),
{
    reveal_strlit("TripResult");
    reveal_strlit("TripLeg");
    reveal_strlit("Leg");
    reveal_strlit("Place");
    reveal_strlit("ExpectedDepartureOccupancy");
    reveal_strlit("LegBoard");
    reveal_strlit("LegIntermediate");
    reveal_strlit("LegAlight");
    reveal_strlit("CallAtStop");
    reveal_strlit("IntermediateStop");
    reveal_strlit("OnwardCall");
    reveal_strlit("PreviousCall");
    reveal_strlit("LegStart");
    reveal_strlit("LegEnd");
    assert("TripResult"@.len() == 10 && "TripResult"@[0] == 'T');
    assert("TripLeg"@.len() == 7);
    assert("Leg"@.len() == 3);
    assert("Place"@.len() == 5);
    assert("ExpectedDepartureOccupancy"@.len() == 26);
    assert("LegBoard"@.len() == 8);
    assert("LegIntermediate"@.len() == 15);
    assert("LegAlight"@.len() == 9);
    assert("CallAtStop"@.len() == 10 && "CallAtStop"@[0] == 'C');
    assert("IntermediateStop"@.len() == 16);
    assert("OnwardCall"@.len() == 10 && "OnwardCall"@[0] == 'O');
    assert("PreviousCall"@.len() == 12);
    assert("LegStart"@.len() == 8);
    assert("LegEnd"@.len() == 6);
}

/// A leg has a time of its departure and a time of its arrival.
pub open spec fn has_times(leg: TempLegView) -> bool {
    (leg.departure_scheduled is Some || leg.departure_expected is Some) && (leg.arrival_scheduled
        is Some || leg.arrival_expected is Some || leg.fallback_arrival_scheduled is Some
        || leg.fallback_arrival_expected is Some)
}

/// Where the element of a leg ends, the trip keeps every leg that it has, at its place, and
/// gets one more behind them exactly if the leg has its times. That leg runs between the
/// stations that were read, at the times that were read.
pub proof fn law_leg_joins_the_trip(parser: TripParserView, name: Seq<char>, id: Seq<char>)
    requires
        tags::local_part(name) == "Leg"@ || tags::local_part(name) == "TripLeg"@,
        parser.trip is Some,
        parser.leg is Some,
    ensures
        ({
            let after = parser.stepped(XmlItem::End(name), id);
            let legs = parser.trip->0.legs;
            let leg = parser.leg->0;
            let last = after.trip->0.legs.last();
            &&& after.trip is Some
            &&& after.trip->0.id == parser.trip->0.id
            &&& after.leg is None
            &&& after.trips == parser.trips
            &&& after.trip->0.legs.len() == legs.len() + if has_times(leg) {
                1nat
            } else {
                0nat
            }
            &&& forall|i: int|
                0 <= i < legs.len() ==> #[trigger] after.trip->0.legs[i] == legs[i]
            &&& has_times(leg) ==> {
                &&& leg.from_station is Some ==> last.from.station == leg.from_station->0
                &&& leg.to_station is Some ==> last.to.station == leg.to_station->0
                &&& leg.departure_scheduled is Some ==> last.departure.scheduled
                    == leg.departure_scheduled->0
                &&& leg.departure_expected is Some ==> last.departure.expected
                    == leg.departure_expected->0
                &&& leg.arrival_scheduled is Some ==> last.arrival.scheduled
                    == leg.arrival_scheduled->0
                &&& leg.arrival_expected is Some ==> last.arrival.expected
                    == leg.arrival_expected->0
                &&& last.line == leg.line
                &&& last.operator == leg.operator
                &&& leg.mode is Some ==> last.mode == leg.mode->0
                &&& last.from.platform == leg.from_platform
                &&& last.to.platform == leg.to_platform
            }
        }),
{
    lemma_trip_tags();
    leg::law_leg_has_its_times_and_ends(
        places::enriched_leg(parser.leg->0, parser.by_ref, parser.by_name),
    );
}

/// Two legs that have their times, read one after the other, are two legs of the trip, in
/// the order in which they were read.
pub proof fn law_two_legs_are_two(
    trip: TempTripView,
    a: TempLegView,
    b: TempLegView,
    by_ref: Map<Seq<char>, GeoPointView>,
    by_name: Map<Seq<char>, GeoPointView>,
)
    requires
        has_times(a),
        has_times(b),
        a.from_station is Some,
        b.from_station is Some,
    ensures
        ({
            let n = trip.legs.len() as int;
            let both = trip_with_leg(trip_with_leg(trip, a, by_ref, by_name), b, by_ref, by_name);
            &&& both.legs.len() == n + 2
            &&& both.legs.take(n) == trip.legs
            &&& both.legs[n].from.station == a.from_station->0
            &&& both.legs[n + 1].from.station == b.from_station->0
        }),
{
    leg::law_leg_has_its_times_and_ends(places::enriched_leg(a, by_ref, by_name));
    leg::law_leg_has_its_times_and_ends(places::enriched_leg(b, by_ref, by_name));
    let n = trip.legs.len() as int;
    let both = trip_with_leg(trip_with_leg(trip, a, by_ref, by_name), b, by_ref, by_name);
    assert(both.legs.take(n) =~= trip.legs);
}

/// Nothing else changes the legs of a trip: only the end of a leg adds to them, and only
/// the beginning or the end of a trip's element replaces them. Only the end of a trip's
/// element adds to the trips.
pub proof fn law_nothing_else_changes_the_legs(
    parser: TripParserView,
    item: XmlItem,
    id: Seq<char>,
)
    requires
        item matches XmlItem::Start(name) ==> tags::local_part(name) != "TripResult"@,
        item matches XmlItem::End(name) ==> tags::local_part(name) != "TripResult"@
            && tags::local_part(name) != "Leg"@ && tags::local_part(name) != "TripLeg"@,
    ensures
        ({
            let after = parser.stepped(item, id);
            &&& after.trips == parser.trips
            &&& after.trip is Some <==> parser.trip is Some
            &&& after.trip is Some ==> after.trip->0.legs == parser.trip->0.legs
        }),
{
}

/// Where the element of a trip ends, the trip is handed out behind the others exactly if it
/// has a leg. It has all its legs, and lasts from the planned departure of the first to the
/// expected arrival of the last, in whole minutes.
pub proof fn law_trip_is_handed_out_whole(parser: TripParserView, name: Seq<char>, id: Seq<char>)
    requires
        tags::local_part(name) == "TripResult"@,
    ensures
        ({
            let after = parser.stepped(XmlItem::End(name), id);
            let complete = parser.trip is Some && parser.trip->0.legs.len() > 0;
            let t = after.trips.last();
            &&& after.trip is None
            &&& !complete ==> after.trips == parser.trips
            &&& complete ==> {
                let seconds = time::seconds_apart(
                    t.legs.last().arrival.expected,
                    t.legs[0].departure.scheduled,
                );
                &&& after.trips.len() == parser.trips.len() + 1
                &&& after.trips.drop_last() == parser.trips
                &&& t.id == parser.trip->0.id
                &&& t.legs == parser.trip->0.legs
                &&& 0 <= seconds < 1_000_000_000_000_000 ==> 60 * t.duration_minutes <= seconds
                    < 60 * t.duration_minutes + 60
                &&& seconds < 0 ==> t.duration_minutes == 0
            }
        }),
{
    lemma_trip_tags();
    let after = parser.stepped(XmlItem::End(name), id);
    if parser.trip is Some && parser.trip->0.legs.len() > 0 {
        assert(after.trips.drop_last() =~= parser.trips);
    }
}

/// A call that ends joins the calls of its leg, behind the others.
pub proof fn law_call_joins_the_leg(parser: TripParserView, name: Seq<char>, id: Seq<char>)
    requires
        tags::local_part(name) == "LegBoard"@ || tags::local_part(name) == "LegIntermediate"@
            || tags::local_part(name) == "LegAlight"@,
        parser.leg is Some,
        parser.call is Some,
    ensures
        ({
            let after = parser.stepped(XmlItem::End(name), id);
            &&& after.leg is Some
            &&& after.leg->0.stop_calls == parser.leg->0.stop_calls.push(parser.call->0)
            &&& after.leg->0 == TempLegView {
                stop_calls: after.leg->0.stop_calls,
                ..parser.leg->0
            }
            &&& after.call is None
            &&& after.trip == parser.trip
        }),
{
    reveal_strlit("TripLeg");
    reveal_strlit("Leg");
    reveal_strlit("Place");
    reveal_strlit("LegBoard");
    reveal_strlit("LegIntermediate");
    reveal_strlit("LegAlight");
    assert("TripLeg"@.len() == 7);
    assert("Leg"@.len() == 3);
    assert("Place"@.len() == 5);
    assert("LegBoard"@.len() == 8);
    assert("LegIntermediate"@.len() == 15);
    assert("LegAlight"@.len() == 9);
}

/// A planned or expected time within the boarding of a leg is when it leaves, and one within
/// the alighting when it arrives.
pub proof fn law_times_of_a_leg(leg: TempLegView, path: Seq<Seq<char>>, value: Seq<char>)
    requires
        tags::ojp_time(value) is Some,
    ensures
        ({
            let planned = leg_with_text(leg, path, "TimetabledTime"@, value);
            let expected = leg_with_text(leg, path, "EstimatedTime"@, value);
            let at = tags::ojp_time(value);
            let board = tags::near(path, "LegBoard"@) || tags::near(path, "Origin"@)
                || tags::near(path, "From"@);
            let alight = tags::near(path, "LegAlight"@) || tags::near(path, "Destination"@)
                || tags::near(path, "To"@);
            let leaves = tags::near(path, "Departure"@) || tags::near(path, "ServiceDeparture"@);
            let arrives = tags::near(path, "Arrival"@) || tags::near(path, "ServiceArrival"@);
            &&& board ==> planned == TempLegView { departure_scheduled: at, ..leg }
            &&& board ==> expected == TempLegView { departure_expected: at, ..leg }
            &&& !board && alight && !leaves ==> planned == TempLegView {
                arrival_scheduled: at,
                ..leg
            }
            &&& !board && alight && !leaves ==> expected == TempLegView {
                arrival_expected: at,
                ..leg
            }
            &&& !board && !alight && !leaves && arrives ==> planned == TempLegView {
                fallback_arrival_scheduled: at,
                ..leg
            }
            &&& !board && !alight && !leaves && arrives ==> expected == TempLegView {
                fallback_arrival_expected: at,
                ..leg
            }
            &&& !board && leaves && leg.departure_scheduled is None ==> planned == TempLegView {
                departure_scheduled: at,
                ..leg
            }
            &&& !board && !alight && !leaves && !arrives ==> planned == leg && expected == leg
        }),
{
    lemma_leg_text_tags("TimetabledTime"@);
    lemma_leg_text_tags("EstimatedTime"@);
    reveal_strlit("TimetabledTime");
    reveal_strlit("EstimatedTime");
    assert("TimetabledTime"@.len() == 14 && "TimetabledTime"@[0] == 'T');
    assert("EstimatedTime"@.len() == 13 && "EstimatedTime"@[0] == 'E');
    lemma_no_platform_tag(path, "TimetabledTime"@);
    lemma_no_platform_tag(path, "EstimatedTime"@);
}

proof fn lemma_leg_text_tags(tag: Seq<char>)
    requires
        tag == "TimetabledTime"@ || tag == "EstimatedTime"@,
    ensures
        tag != "Mode"@,
        tag != "PtMode"@,
        tag != "PublicCode"@,
        tag != "PublishedLineName"@,
        tag != "Text"@,
        tag != "OperatorRef"@,
        tag != "OperatorName"@,
        tag != "LocationName"@,
        tag != "StopPointName"@,
        tag != "Name"@,
        tag != "StopPointRef"@,
        tag != "Longitude"@,
        tag != "Latitude"@,
        "TimetabledTime"@ != "EstimatedTime"@,
        tag != "Value"@,
        tag != "EstimatedQuay"@,
        tag != "PlannedQuay"@,
        tag != "Platform"@,
{
    reveal_strlit("TimetabledTime");
    reveal_strlit("EstimatedTime");
    reveal_strlit("Mode");
    reveal_strlit("PtMode");
    reveal_strlit("PublicCode");
    reveal_strlit("PublishedLineName");
    reveal_strlit("Text");
    reveal_strlit("OperatorRef");
    reveal_strlit("OperatorName");
    reveal_strlit("LocationName");
    reveal_strlit("StopPointName");
    reveal_strlit("Name");
    reveal_strlit("StopPointRef");
    reveal_strlit("Longitude");
    reveal_strlit("Latitude");
    reveal_strlit("Value");
    reveal_strlit("EstimatedQuay");
    reveal_strlit("PlannedQuay");
    reveal_strlit("Platform");
    assert("TimetabledTime"@.len() == 14);
    assert("EstimatedTime"@.len() == 13 && "EstimatedTime"@[9] == 'T');
    assert("Mode"@.len() == 4);
    assert("PtMode"@.len() == 6);
    assert("PublicCode"@.len() == 10);
    assert("PublishedLineName"@.len() == 17);
    assert("Text"@.len() == 4);
    assert("OperatorRef"@.len() == 11);
    assert("OperatorName"@.len() == 12);
    assert("LocationName"@.len() == 12);
    assert("StopPointName"@.len() == 13 && "StopPointName"@[9] == 'N');
    assert("Name"@.len() == 4);
    assert("StopPointRef"@.len() == 12);
    assert("Longitude"@.len() == 9);
    assert("Latitude"@.len() == 8);
    assert("Value"@.len() == 5);
    assert("EstimatedQuay"@.len() == 13 && "EstimatedQuay"@[9] == 'Q');
    assert("PlannedQuay"@.len() == 11);
    assert("Platform"@.len() == 8);
}

proof fn lemma_no_platform_tag(path: Seq<Seq<char>>, tag: Seq<char>)
    requires
        tag == "TimetabledTime"@ || tag == "EstimatedTime"@,
    ensures
        tags::platform_kind(path, tag) is None,
{
    lemma_leg_text_tags(tag);
}

/// A text within the element of a mode, a line or an operator tells that of the leg. The
/// first mode and the first operator stay.
pub proof fn law_service_of_a_leg(leg: TempLegView, path: Seq<Seq<char>>, value: Seq<char>)
    ensures
        leg.mode is None ==> leg_with_text(leg, path, "Mode"@, value) == (TempLegView {
            mode: Some(value),
            ..leg
        }),
        leg.mode is None ==> leg_with_text(leg, path, "PtMode"@, value) == (TempLegView {
            mode: Some(value),
            ..leg
        }),
        leg.mode is Some ==> leg_with_text(leg, path, "Mode"@, value) == leg,
        leg.operator is None ==> leg_with_text(leg, path, "OperatorRef"@, value) == (TempLegView {
            operator: Some(value),
            ..leg
        }),
        leg.operator is None ==> leg_with_text(leg, path, "OperatorName"@, value) == (TempLegView {
            operator: Some(value),
            ..leg
        }),
        leg.operator is Some ==> leg_with_text(leg, path, "OperatorRef"@, value) == leg,
        leg_with_text(leg, path, "PublicCode"@, value) == (TempLegView {
            line: tags::preferred_line(leg.line, value),
            ..leg
        }),
        leg_with_text(leg, path, "PublishedLineName"@, value) == (TempLegView {
            line: tags::preferred_line(leg.line, value),
            ..leg
        }),
        tags::near(path, "PublishedServiceName"@) ==> leg_with_text(leg, path, "Text"@, value) == (
        TempLegView { line: tags::preferred_line(leg.line, value), ..leg }),
{
    tags::lemma_tag_shapes();
}

/// The first name of a stop within the boarding of a leg is where it begins, and within the
/// alighting where it ends. Neither is changed by a later name.
pub proof fn law_ends_of_a_leg(leg: TempLegView, path: Seq<Seq<char>>, tag: Seq<char>, value: Seq<char>)
    requires
        tag == "StopPointName"@ || tag == "LocationName"@ || tag == "Name"@ || (tag == "Text"@
            && !tags::near(path, "PublishedServiceName"@)),
    ensures
        ({
            let after = leg_with_text(leg, path, tag, value);
            let from = tags::near(path, "Origin"@) || tags::near(path, "From"@) || tags::near(
                path,
                "Board"@,
            );
            let to = tags::near(path, "Destination"@) || tags::near(path, "To"@) || tags::near(
                path,
                "Alight"@,
            );
            &&& leg.from_station is Some ==> after.from_station == leg.from_station
            &&& leg.to_station is Some ==> after.to_station == leg.to_station
            &&& leg.from_station is None && from ==> after.from_station == Some(value)
                && after.to_station == leg.to_station
            &&& leg.from_station is None && !from ==> after.from_station is None
            &&& leg.to_station is None && to && (!from || leg.from_station is Some)
                ==> after.to_station == Some(value)
            &&& leg.to_station is None && !to ==> after.to_station is None
            &&& after.mode == leg.mode && after.line == leg.line && after.operator == leg.operator
            &&& after.departure_scheduled == leg.departure_scheduled && after.arrival_scheduled
                == leg.arrival_scheduled
            &&& after.stop_calls == leg.stop_calls
            &&& tags::near(path, "LegIntermediate"@) && tag != "Text"@ ==> after.stop_sequence
                == leg.stop_sequence.push(value)
        }),
{
    tags::lemma_tag_shapes();
}

/// A text about the platform at an end of a leg tells the platform there, unless one is
/// known.
pub proof fn law_platforms_of_a_leg(leg: TempLegView, path: Seq<Seq<char>>, value: Seq<char>)
    requires
        tags::near(path, "Board"@) || tags::near(path, "Alight"@),
        !(tags::near(path, "Board"@) && tags::near(path, "Alight"@)),
        !tags::near(path, "Origin"@) && !tags::near(path, "From"@),
        !tags::near(path, "Destination"@) && !tags::near(path, "To"@),
    ensures
        forall|tag: Seq<char>|
            tag == "EstimatedQuay"@ || tag == "PlannedQuay"@ || tag == "Platform"@ ==> {
                let after = #[trigger] leg_with_text(leg, path, tag, value);
                &&& tags::near(path, "Board"@) && leg.from_platform is None ==> after == (
                TempLegView { from_platform: tags::platform_value(value), ..leg })
                &&& tags::near(path, "Alight"@) && leg.to_platform is None ==> after == (
                TempLegView { to_platform: tags::platform_value(value), ..leg })
                &&& tags::near(path, "Board"@) && leg.from_platform is Some ==> after == leg
                &&& tags::near(path, "Alight"@) && leg.to_platform is Some ==> after == leg
            },
{
    tags::lemma_tag_shapes();
}

/// Coordinates within an end of a leg are those of that end.
pub proof fn law_coordinates_of_a_leg(leg: TempLegView, path: Seq<Seq<char>>, value: Seq<char>)
    requires
        coordinate::coordinate_value(value) is Some,
        !tags::near(path, "Origin"@) && !tags::near(path, "From"@),
        !tags::near(path, "Destination"@) && !tags::near(path, "To"@),
    ensures
        ({
            let number = coordinate::coordinate_value(value);
            let east = leg_with_text(leg, path, "Longitude"@, value);
            let north = leg_with_text(leg, path, "Latitude"@, value);
            &&& tags::near(path, "Board"@) ==> east == (TempLegView {
                from_longitude: number,
                ..leg
            })
            &&& tags::near(path, "Board"@) ==> north == (TempLegView {
                from_latitude: number,
                ..leg
            })
            &&& !tags::near(path, "Board"@) && tags::near(path, "Alight"@) ==> east == (
            TempLegView { to_longitude: number, ..leg })
            &&& !tags::near(path, "Board"@) && tags::near(path, "Alight"@) ==> north == (
            TempLegView { to_latitude: number, ..leg })
        }),
{
    tags::lemma_tag_shapes();
}

/// The times of a call at a stop: planned and expected, of its arrival and its departure.
pub proof fn law_times_of_a_call(call: TempStopCallView, path: Seq<Seq<char>>, value: Seq<char>)
    requires
        tags::ojp_time(value) is Some,
    ensures
        ({
            let at = tags::ojp_time(value);
            let planned = call_with_text(call, path, "TimetabledTime"@, value);
            let expected = call_with_text(call, path, "EstimatedTime"@, value);
            let arrives = tags::near(path, "ServiceArrival"@);
            let leaves = tags::near(path, "ServiceDeparture"@);
            &&& arrives ==> planned == (TempStopCallView { arrival_scheduled: at, ..call })
            &&& arrives ==> expected == (TempStopCallView { arrival_expected: at, ..call })
            &&& !arrives && leaves ==> planned == (TempStopCallView {
                departure_scheduled: at,
                ..call
            })
            &&& !arrives && leaves ==> expected == (TempStopCallView {
                departure_expected: at,
                ..call
            })
            &&& !arrives && !leaves ==> planned == call && expected == call
        }),
{
    tags::lemma_tag_shapes();
}

/// The station, the reference and the platforms of a call at a stop.
pub proof fn law_place_of_a_call(call: TempStopCallView, path: Seq<Seq<char>>, value: Seq<char>)
    ensures
        tags::near(path, "StopPointName"@) ==> call_with_text(call, path, "Text"@, value).station
            == Some(value),
        tags::near(path, "StopPointName"@) ==> call_with_text(
            call,
            path,
            "StopPointName"@,
            value,
        ).station == Some(value),
        call.stop_point_ref is None ==> call_with_text(
            call,
            path,
            "StopPointRef"@,
            value,
        ).stop_point_ref == Some(value),
        call_with_text(call, path, "StopPointRef"@, value).station == call.station,
        tags::near(path, "LegIntermediate"@) || tags::near(path, "LegBoard"@) || tags::near(
            path,
            "LegAlight"@,
        ) ==> {
            &&& call.platform_scheduled is None ==> call_with_text(
                call,
                path,
                "PlannedQuay"@,
                value,
            ).platform_scheduled == tags::platform_value(value)
            &&& call.platform_expected is None ==> call_with_text(
                call,
                path,
                "EstimatedQuay"@,
                value,
            ).platform_expected == tags::platform_value(value)
            &&& call_with_text(call, path, "PlannedQuay"@, value).platform_expected
                == call.platform_expected
            &&& call_with_text(call, path, "EstimatedQuay"@, value).platform_scheduled
                == call.platform_scheduled
            &&& call_with_text(call, path, "Latitude"@, value).latitude
                == coordinate::coordinate_value(value)
            &&& call_with_text(call, path, "Longitude"@, value).longitude
                == coordinate::coordinate_value(value)
        },
{
    tags::lemma_tag_shapes();
}

/// A place has the references, the name and the coordinates that its element tells; what
/// was told first of its references and its name stays.
pub proof fn law_place_is_what_it_tells(place: TempPlaceView, value: Seq<char>)
    ensures
        place.stop_place_ref is None ==> place_with_text(place, "StopPlaceRef"@, value) == (
        TempPlaceView { stop_place_ref: Some(value), ..place }),
        place.stop_point_ref is None ==> place_with_text(place, "StopPointRef"@, value) == (
        TempPlaceView { stop_point_ref: Some(value), ..place }),
        place.name is None ==> place_with_text(place, "Text"@, value) == (TempPlaceView {
            name: Some(value),
            ..place
        }),
        place.name is None ==> place_with_text(place, "StopPlaceName"@, value) == (TempPlaceView {
            name: Some(value),
            ..place
        }),
        place.name is None ==> place_with_text(place, "StopPointName"@, value) == (TempPlaceView {
            name: Some(value),
            ..place
        }),
        place.name is Some ==> place_with_text(place, "Text"@, value) == place,
        place_with_text(place, "Longitude"@, value) == (TempPlaceView {
            longitude: coordinate::coordinate_value(value),
            ..place
        }),
        place_with_text(place, "Latitude"@, value) == (TempPlaceView {
            latitude: coordinate::coordinate_value(value),
            ..place
        }),
{
    tags::lemma_tag_shapes();
}

/// An occupancy that is told for first or second class is that of the class, and any other
/// is for the whole train. What was told first stays.
pub proof fn law_occupancy_of_a_leg(leg: TempLegView, class: Seq<char>, code: Seq<char>)
    requires
        tags::occupancy_level(code) is Some,
    ensures
        ({
            let told = TempOccupancyView { fare_class: Some(class), level: Some(code) };
            let level = tags::occupancy_level(code);
            let lower = text::lowered(class);
            let after = leg_with_occupancy(leg, told);
            &&& text::contains(lower, "first"@) && leg.occupancy_first_class is None ==> after == (
            TempLegView { occupancy_first_class: level, ..leg })
            &&& !text::contains(lower, "first"@) && text::contains(lower, "second"@)
                && leg.occupancy_second_class is None ==> after == (TempLegView {
                occupancy_second_class: level,
                ..leg
            })
            &&& !text::contains(lower, "first"@) && !text::contains(lower, "second"@)
                && leg.occupancy_general is None ==> after == (TempLegView {
                occupancy_general: level,
                ..leg
            })
            &&& text::contains(lower, "first"@) && leg.occupancy_first_class is Some ==> after
                == leg
        }),
{
}

/// A text in the middle of a leg that names a journey gives the trip its reference; any
/// other text leaves the trip as it is.
pub proof fn law_journey_names_the_trip(parser: TripParserView, value: Seq<char>, id: Seq<char>)
    requires
        parser.trip is Some,
        parser.leg is Some,
        parser.path.len() > 0,
        text::trimmed(value).len() > 0,
    ensures
        ({
            let after = parser.stepped(XmlItem::Text(value), id);
            &&& after.trip is Some
            &&& parser.path.last() == "JourneyRef"@ ==> after.trip->0.id == text::trimmed(value)
            &&& parser.path.last() != "JourneyRef"@ ==> after.trip == parser.trip
            &&& after.leg == Some(
                leg_with_text(
                    parser.leg->0,
                    parser.path,
                    parser.path.last(),
                    text::trimmed(value),
                ),
            )
            &&& parser.call is Some ==> after.call == Some(
                call_with_text(
                    parser.call->0,
                    parser.path,
                    parser.path.last(),
                    text::trimmed(value),
                ),
            )
            &&& after.path == parser.path
        }),
{
}

/// A tag that begins is the innermost one, and where it ends the path is as before.
pub proof fn law_path_is_the_open_tags(parser: TripParserView, a: Seq<char>, b: Seq<char>, id: Seq<char>)
    ensures
        parser.stepped(XmlItem::Start(a), id).path == parser.path.push(tags::local_part(a)),
        parser.stepped(XmlItem::Start(a), id).stepped(XmlItem::End(b), id).path == parser.path,
{
    assert(parser.path.push(tags::local_part(a)).drop_last() =~= parser.path);
}

/// A leg, and a call within it, begin blank where their elements begin.
pub proof fn law_legs_and_calls_begin_blank(parser: TripParserView, name: Seq<char>, id: Seq<char>)
    ensures
        tags::local_part(name) == "Leg"@ || tags::local_part(name) == "TripLeg"@ ==> {
            let leg = parser.stepped(XmlItem::Start(name), id).leg;
            &&& leg is Some
            &&& leg->0.from_station is None && leg->0.to_station is None
            &&& leg->0.departure_scheduled is None && leg->0.departure_expected is None
            &&& leg->0.arrival_scheduled is None && leg->0.arrival_expected is None
            &&& leg->0.fallback_arrival_scheduled is None && leg->0.fallback_arrival_expected is None
            &&& leg->0.mode is None && leg->0.line is None && leg->0.operator is None
            &&& leg->0.from_platform is None && leg->0.to_platform is None
            &&& leg->0.stop_calls.len() == 0 && leg->0.stop_sequence.len() == 0
        },
        tags::local_part(name) == "LegBoard"@ || tags::local_part(name) == "LegIntermediate"@
            || tags::local_part(name) == "LegAlight"@ ==> {
            let call = parser.stepped(XmlItem::Start(name), id).call;
            &&& call is Some
            &&& call->0.station is None && call->0.stop_point_ref is None
            &&& call->0.arrival_scheduled is None && call->0.arrival_expected is None
            &&& call->0.departure_scheduled is None && call->0.departure_expected is None
            &&& call->0.platform_scheduled is None && call->0.platform_expected is None
            &&& parser.stepped(XmlItem::Start(name), id).leg == parser.leg
        },
{
    lemma_trip_tags();
    reveal_strlit("LegBoard");
    reveal_strlit("LegIntermediate");
    reveal_strlit("LegAlight");
    reveal_strlit("Place");
    reveal_strlit("TripResult");
    reveal_strlit("Leg");
    reveal_strlit("TripLeg");
    assert("LegBoard"@.len() == 8);
    assert("LegIntermediate"@.len() == 15);
    assert("LegAlight"@.len() == 9);
    assert("Place"@.len() == 5);
    assert("TripResult"@.len() == 10);
    assert("Leg"@.len() == 3);
    assert("TripLeg"@.len() == 7);
}

} // verus!
