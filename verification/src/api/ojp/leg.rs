//! From what was read of a leg to the leg that is handed out.

use vstd::prelude::*;

use crate::api::ojp::drafts::{TempLeg, TempLegView, TempStopCall, TempStopCallView};
use crate::api::ojp::tags;
use crate::duplicate::Duplicate;
use crate::models;
use crate::models::{
    LegStop, LegStopView, TimeInfo, TripLeg, TripLegOccupancy, TripLegOccupancyView,
    TripLegStopCall, TripLegStopCallView, TripLegView, TripStatus,
};
use crate::text;
use crate::time::FixedDateTime;

verus! {

/// A planned and an expected time; what is expected is as planned unless told otherwise.
pub open spec fn time_info(planned: FixedDateTime, expected: Option<FixedDateTime>) -> TimeInfo {
    let now = match expected {
        Some(e) => e,
        None => planned,
    };
    TimeInfo { scheduled: planned, expected: now, delay_minutes: tags::delay(now, planned) }
}

/// A planned and an expected time.
fn build_time_info(planned: FixedDateTime, expected: Option<FixedDateTime>) -> (r: TimeInfo)
    ensures
        r == time_info(planned, expected),
{
    let now = match expected {
        Some(e) => e,
        None => planned,
    };
    TimeInfo {
        scheduled: planned,
        expected: now,
        delay_minutes: tags::delay_minutes(now, planned),
    }
}

/// When a leg leaves.
pub open spec fn departure_of(leg: TempLegView) -> Option<TimeInfo> {
    match tags::or_else(leg.departure_scheduled, leg.departure_expected) {
        Some(planned) => Some(time_info(planned, leg.departure_expected)),
        None => None,
    }
}

/// When a leg arrives: at its last stop, or else at the last stop on the way for which
/// there is a time.
pub open spec fn arrival_of(leg: TempLegView) -> Option<TimeInfo> {
    let expected = tags::or_else(leg.arrival_expected, leg.fallback_arrival_expected);
    let planned = tags::or_else(
        tags::or_else(leg.arrival_scheduled, leg.fallback_arrival_scheduled),
        expected,
    );
    match planned {
        Some(time) => Some(time_info(time, expected)),
        None => None,
    }
}

/// How a leg stands against the timetable.
pub open spec fn status_of(
    from_platform: Option<Seq<char>>,
    to_platform: Option<Seq<char>>,
    departure_delay: i32,
    arrival_delay: i32,
) -> TripStatus {
    if from_platform is Some && to_platform is Some && from_platform != to_platform {
        TripStatus::PlatformChanged
    } else if departure_delay > arrival_delay {
        TripStatus::of_delay(departure_delay as int)
    } else {
        TripStatus::of_delay(arrival_delay as int)
    }
}

/// How a leg stands against the timetable.
fn leg_status(
    from_platform: &Option<String>,
    to_platform: &Option<String>,
    departure_delay: i32,
    arrival_delay: i32,
) -> (r: TripStatus)
    ensures
        r == status_of(
            from_platform.deep_view(),
            to_platform.deep_view(),
            departure_delay,
            arrival_delay,
        ),
{
    if from_platform.is_some() && to_platform.is_some() && !text::same_option(
        from_platform,
        to_platform,
    ) {
        TripStatus::PlatformChanged
    } else if departure_delay > arrival_delay {
        TripStatus::from_delay(departure_delay)
    } else {
        TripStatus::from_delay(arrival_delay)
    }
}

/// How full a leg is expected to be, if anything is known of it. The level without regard
/// to class is the highest of the classes, unless it is known by itself.
pub open spec fn occupancy_of(
    first: Option<Seq<char>>,
    second: Option<Seq<char>>,
    general: Option<Seq<char>>,
) -> Option<TripLegOccupancyView> {
    let overall = tags::or_else(general, tags::highest_level(seq![first, second]));
    if first is Some || second is Some || overall is Some {
        Some(
            TripLegOccupancyView { first_class: first, second_class: second, general: overall },
        )
    } else {
        None
    }
}

/// How full a leg is expected to be.
fn leg_occupancy(first: Option<String>, second: Option<String>, general: Option<String>) -> (r:
    Option<TripLegOccupancy>)
    ensures
        r.deep_view() == occupancy_of(first.deep_view(), second.deep_view(), general.deep_view()),
{
    let overall = match general {
        Some(level) => Some(level),
        None => {
            let mut levels: Vec<Option<&str>> = Vec::new();
            levels.push(models::as_text(&first));
            levels.push(models::as_text(&second));
            assert(levels.deep_view() =~= seq![first.deep_view(), second.deep_view()]);
            tags::aggregate_occupancy_level(&levels)
        },
    };
    if first.is_some() || second.is_some() || overall.is_some() {
        Some(TripLegOccupancy { first_class: first, second_class: second, general: overall })
    } else {
        None
    }
}

/// The call that was read at a stop, if the stop has a name. A platform that is missing
/// is taken from the reference of the stop.
pub open spec fn call_of(call: TempStopCallView) -> Option<TripLegStopCallView> {
    match call.station {
        Some(name) if text::trimmed(name).len() > 0 => {
            let fallback = match call.stop_point_ref {
                Some(stop) => tags::ref_platform(stop),
                None => None,
            };
            let expected = tags::or_else(call.platform_expected, fallback);
            let scheduled = tags::or_else(call.platform_scheduled, fallback);
            Some(
                TripLegStopCallView {
                    station: text::trimmed(name),
                    platform: tags::or_else(expected, scheduled),
                    scheduled_platform: scheduled,
                    expected_platform: expected,
                    coordinates: tags::geo_point(call.latitude, call.longitude),
                    arrival: tags::call_time(call.arrival_scheduled, call.arrival_expected),
                    departure: tags::call_time(call.departure_scheduled, call.departure_expected),
                },
            )
        },
        _ => None,
    }
}

/// The call that was read at a stop.
fn build_call(call: &TempStopCall) -> (r: Option<TripLegStopCall>)
    ensures
        r.deep_view() == call_of(call.deep_view()),
{
    match &call.station {
        Some(name) => {
            let station = text::trim(name.as_str());
            if station.as_str().is_empty() {
                return None;
            }
            let fallback = match &call.stop_point_ref {
                Some(stop) => tags::platform_from_stop_point_ref(stop.as_str()),
                None => None,
            };
            let expected = if call.platform_expected.is_some() {
                call.platform_expected.duplicate()
            } else {
                fallback.duplicate()
            };
            let scheduled = if call.platform_scheduled.is_some() {
                call.platform_scheduled.duplicate()
            } else {
                fallback
            };
            let platform = if expected.is_some() {
                expected.duplicate()
            } else {
                scheduled.duplicate()
            };
            Some(
                TripLegStopCall {
                    station,
                    platform,
                    scheduled_platform: scheduled,
                    expected_platform: expected,
                    coordinates: tags::build_geo_point(
                        call.latitude.duplicate(),
                        call.longitude.duplicate(),
                    ),
                    arrival: tags::build_stop_call_time(
                        call.arrival_scheduled,
                        call.arrival_expected,
                    ),
                    departure: tags::build_stop_call_time(
                        call.departure_scheduled,
                        call.departure_expected,
                    ),
                },
            )
        },
        None => None,
    }
}

/// A call with what is missing taken from the next call at the same stop.
pub open spec fn completed_call(
    call: TripLegStopCallView,
    next: TripLegStopCallView,
) -> TripLegStopCallView {
    TripLegStopCallView {
        station: call.station,
        platform: tags::or_else(call.platform, next.platform),
        scheduled_platform: tags::or_else(call.scheduled_platform, next.scheduled_platform),
        expected_platform: tags::or_else(call.expected_platform, next.expected_platform),
        coordinates: call.coordinates,
        arrival: tags::or_else(call.arrival, next.arrival),
        departure: tags::or_else(call.departure, next.departure),
    }
}

/// A call with what is missing taken from the next call at the same stop.
fn complete_call(call: &mut TripLegStopCall, next: TripLegStopCall)
    ensures
        final(call).deep_view() == completed_call(old(call).deep_view(), next.deep_view()),
{
    if call.arrival.is_none() {
        call.arrival = next.arrival;
    }
    if call.departure.is_none() {
        call.departure = next.departure;
    }
    if call.platform.is_none() {
        call.platform = next.platform;
    }
    if call.scheduled_platform.is_none() {
        call.scheduled_platform = next.scheduled_platform;
    }
    if call.expected_platform.is_none() {
        call.expected_platform = next.expected_platform;
    }
}

/// The calls of a leg: those with a name, and adjacent calls at one stop as one.
pub open spec fn calls_of(calls: Seq<TempStopCallView>) -> Seq<TripLegStopCallView>
    decreases calls.len(),
{
    if calls.len() == 0 {
        Seq::empty()
    } else {
        let before = calls_of(calls.drop_last());
        match call_of(calls.last()) {
            Some(call) => if before.len() > 0 && before.last().station == call.station {
                before.drop_last().push(completed_call(before.last(), call))
            } else {
                before.push(call)
            },
            None => before,
        }
    }
}

/// The calls of a leg.
fn build_calls(calls: &Vec<TempStopCall>) -> (r: Vec<TripLegStopCall>)
    ensures
        r.deep_view() == calls_of(calls.deep_view()),
{
    let ghost all = calls.deep_view();
    let mut out: Vec<TripLegStopCall> = Vec::new();
    let mut i: usize = 0;
    assert(out.deep_view() =~= calls_of(all.take(0)));
    while i < calls.len()
        invariant
            all == calls.deep_view(),
            i <= calls@.len(),
            out.deep_view() == calls_of(all.take(i as int)),
        decreases calls@.len() - i,
    {
        assert(all.take(i + 1).drop_last() =~= all.take(i as int));
        assert(all.take(i + 1).last() == calls@[i as int].deep_view());
        match build_call(&calls[i]) {
            Some(call) => {
                let ghost before = out.deep_view();
                let ghost next = call.deep_view();
                match out.pop() {
                    Some(mut last) => {
                        let ghost kept = out.deep_view();
                        let ghost previous = last.deep_view();
                        assert(kept =~= before.drop_last());
                        assert(previous == before.last());
                        if text::same(last.station.as_str(), call.station.as_str()) {
                            complete_call(&mut last, call);
                            let ghost merged = last.deep_view();
                            out.push(last);
                            assert(out.deep_view() =~= kept.push(merged));
                        } else {
                            out.push(last);
                            assert(out.deep_view() =~= before);
                            out.push(call);
                            assert(out.deep_view() =~= before.push(next));
                        }
                    },
                    None => {
                        out.push(call);
                        assert(out.deep_view() =~= before.push(next));
                    },
                }
            },
            None => {},
        }
        i += 1;
    }
    assert(all.take(i as int) =~= all);
    out
}

/// The names that are not blank, without repetitions in a row.
pub open spec fn names_of(names: Seq<Seq<char>>) -> Seq<Seq<char>>
    decreases names.len(),
{
    if names.len() == 0 {
        Seq::empty()
    } else {
        let before = names_of(names.drop_last());
        let name = text::trimmed(names.last());
        if name.len() == 0 || (before.len() > 0 && before.last() == name) {
            before
        } else {
            before.push(name)
        }
    }
}

/// The names that are not blank, without repetitions in a row.
fn build_names(names: &Vec<String>) -> (r: Vec<String>)
    ensures
        r.deep_view() == names_of(names.deep_view()),
{
    let ghost all = names.deep_view();
    let mut out: Vec<String> = Vec::new();
    let mut i: usize = 0;
    assert(out.deep_view() =~= names_of(all.take(0)));
    while i < names.len()
        invariant
            all == names.deep_view(),
            i <= names@.len(),
            out.deep_view() == names_of(all.take(i as int)),
        decreases names@.len() - i,
    {
        assert(all.take(i + 1).drop_last() =~= all.take(i as int));
        assert(all.take(i + 1).last() == names@[i as int]@);
        let ghost before = out.deep_view();
        let name = text::trim(names[i].as_str());
        let repeated = out.len() > 0 && text::same(out[out.len() - 1].as_str(), name.as_str());
        if !name.as_str().is_empty() && !repeated {
            let ghost view = name@;
            out.push(name);
            assert(out.deep_view() =~= before.push(view));
        }
        i += 1;
    }
    assert(all.take(i as int) =~= all);
    out
}

/// The names of the calls.
pub open spec fn call_names(calls: Seq<TripLegStopCallView>) -> Seq<Seq<char>> {
    Seq::new(calls.len(), |i: int| calls[i].station)
}

/// The names of the calls.
fn names_of_calls(calls: &Vec<TripLegStopCall>) -> (r: Vec<String>)
    ensures
        r.deep_view() == call_names(calls.deep_view()),
{
    let mut out: Vec<String> = Vec::new();
    let mut i: usize = 0;
    while i < calls.len()
        invariant
            i <= calls@.len(),
            out@.len() == i,
            forall|k: int| 0 <= k < i ==> (#[trigger] out@[k])@ == calls.deep_view()[k].station,
        decreases calls@.len() - i,
    {
        out.push(calls[i].station.clone());
        i += 1;
    }
    assert(out.deep_view() =~= call_names(calls.deep_view()));
    out
}

/// A list of stops that begins with the given one, if there is one.
pub open spec fn beginning_at(stops: Seq<Seq<char>>, from: Option<Seq<char>>) -> Seq<Seq<char>> {
    match from {
        Some(name) => if stops.len() > 0 && stops[0] == name {
            stops
        } else {
            stops.insert(0, name)
        },
        None => stops,
    }
}

/// A list of stops that ends with the given one, if there is one.
pub open spec fn ending_at(stops: Seq<Seq<char>>, to: Option<Seq<char>>) -> Seq<Seq<char>> {
    match to {
        Some(name) => if stops.len() > 0 && stops.last() == name {
            stops
        } else {
            stops.push(name)
        },
        None => stops,
    }
}

/// The names of the stops of a leg: those of its calls, or else those read on the way,
/// and in any case both ends.
pub open spec fn stops_of(leg: TempLegView) -> Seq<Seq<char>> {
    let calls = calls_of(leg.stop_calls);
    let way = if calls.len() > 0 {
        call_names(calls)
    } else {
        names_of(leg.stop_sequence)
    };
    ending_at(beginning_at(way, leg.from_station), leg.to_station)
}

/// Adds the ends of a leg to the names of its stops.
fn add_ends(stops: &mut Vec<String>, from: &Option<String>, to: &Option<String>)
    ensures
        final(stops).deep_view() == ending_at(
            beginning_at(old(stops).deep_view(), from.deep_view()),
            to.deep_view(),
        ),
{
    match from {
        Some(name) => {
            let ghost before = stops.deep_view();
            let there = stops.len() > 0 && text::same(stops[0].as_str(), name.as_str());
            if !there {
                stops.insert(0, name.clone());
                assert(stops.deep_view() =~= before.insert(0, name@));
            }
        },
        None => {},
    }
    match to {
        Some(name) => {
            let ghost before = stops.deep_view();
            let there = stops.len() > 0 && text::same(
                stops[stops.len() - 1].as_str(),
                name.as_str(),
            );
            if !there {
                stops.push(name.clone());
                assert(stops.deep_view() =~= before.push(name@));
            }
        },
        None => {},
    }
}

/// An end of a leg.
pub open spec fn leg_end(
    station: Option<Seq<char>>,
    platform: Option<Seq<char>>,
    latitude: Option<Seq<char>>,
    longitude: Option<Seq<char>>,
) -> LegStopView {
    LegStopView {
        station: match station {
            Some(name) => name,
            None => "Unknown"@,
        },
        platform,
        coordinates: tags::geo_point(latitude, longitude),
    }
}

/// The mode of a leg; a leg without one is by rail.
pub open spec fn mode_of(mode: Option<Seq<char>>) -> Seq<char> {
    match mode {
        Some(m) => m,
        None => "rail"@,
    }
}

/// The leg that is handed out, if its times are known.
pub open spec fn mapped_leg(leg: TempLegView) -> Option<TripLegView> {
    match (departure_of(leg), arrival_of(leg)) {
        (Some(departure), Some(arrival)) => Some(
            TripLegView {
                mode: mode_of(leg.mode),
                line: leg.line,
                service: models::service_label(Some(mode_of(leg.mode)), leg.line),
                operator: leg.operator,
                occupancy: occupancy_of(
                    leg.occupancy_first_class,
                    leg.occupancy_second_class,
                    leg.occupancy_general,
                ),
                stops: stops_of(leg),
                stop_calls: calls_of(leg.stop_calls),
                from: leg_end(
                    leg.from_station,
                    leg.from_platform,
                    leg.from_latitude,
                    leg.from_longitude,
                ),
                to: leg_end(leg.to_station, leg.to_platform, leg.to_latitude, leg.to_longitude),
                departure,
                arrival,
                status: status_of(
                    leg.from_platform,
                    leg.to_platform,
                    departure.delay_minutes,
                    arrival.delay_minutes,
                ),
            },
        ),
        _ => None,
    }
}

/// The leg that is handed out.
pub fn map_leg(leg: TempLeg) -> (r: Option<TripLeg>)
    ensures
        r.deep_view() == mapped_leg(leg.deep_view()),
{
    let ghost view = leg.deep_view();
    let departure = match (leg.departure_scheduled, leg.departure_expected) {
        (Some(planned), expected) => build_time_info(planned, expected),
        (None, Some(expected)) => build_time_info(expected, leg.departure_expected),
        (None, None) => return None,
    };
    assert(departure_of(view) == Some(departure));
    let arrival_expected = if leg.arrival_expected.is_some() {
        leg.arrival_expected
    } else {
        leg.fallback_arrival_expected
    };
    let arrival_scheduled = if leg.arrival_scheduled.is_some() {
        leg.arrival_scheduled
    } else if leg.fallback_arrival_scheduled.is_some() {
        leg.fallback_arrival_scheduled
    } else {
        arrival_expected
    };
    let arrival = match arrival_scheduled {
        Some(planned) => build_time_info(planned, arrival_expected),
        None => return None,
    };
    assert(arrival_of(view) == Some(arrival));
    let status = leg_status(
        &leg.from_platform,
        &leg.to_platform,
        departure.delay_minutes,
        arrival.delay_minutes,
    );
    let mode = match leg.mode {
        Some(m) => m,
        None => "rail".to_owned(),
    };
    let service = models::format_service_label(Some(mode.as_str()), models::as_text(&leg.line));
    let occupancy = leg_occupancy(
        leg.occupancy_first_class,
        leg.occupancy_second_class,
        leg.occupancy_general,
    );
    let stop_calls = build_calls(&leg.stop_calls);
    let mut stops = if stop_calls.len() > 0 {
        names_of_calls(&stop_calls)
    } else {
        build_names(&leg.stop_sequence)
    };
    add_ends(&mut stops, &leg.from_station, &leg.to_station);
    let from = LegStop {
        station: match leg.from_station {
            Some(name) => name,
            None => "Unknown".to_owned(),
        },
        platform: leg.from_platform,
        coordinates: tags::build_geo_point(leg.from_latitude, leg.from_longitude),
    };
    let to = LegStop {
        station: match leg.to_station {
            Some(name) => name,
            None => "Unknown".to_owned(),
        },
        platform: leg.to_platform,
        coordinates: tags::build_geo_point(leg.to_latitude, leg.to_longitude),
    };
    Some(
        TripLeg {
            mode,
            line: leg.line,
            service,
            operator: leg.operator,
            occupancy,
            stops,
            stop_calls,
            from,
            to,
            departure,
            arrival,
            status,
        },
    )
}

/// No two calls in a row are at the same stop.
pub proof fn law_adjacent_calls_differ(calls: Seq<TempStopCallView>, i: int)
    requires
        0 <= i,
        i + 1 < calls_of(calls).len(),
    ensures
        calls_of(calls)[i].station != calls_of(calls)[i + 1].station,
    decreases calls.len(),
{
    let before = calls_of(calls.drop_last());
    if i + 1 < before.len() {
        law_adjacent_calls_differ(calls.drop_last(), i);
    }
}

/// The stops of a leg begin where it is boarded and end where it is left, as far as these
/// are known.
pub proof fn law_stops_span_the_leg(leg: TempLegView)
    ensures
        leg.from_station is Some ==> stops_of(leg).len() > 0 && stops_of(leg)[0]
            == leg.from_station->0,
        leg.to_station is Some ==> stops_of(leg).len() > 0 && stops_of(leg).last()
            == leg.to_station->0,
{
}

// ---------------------------------------------------------------------------
// What a leg tells of its draft
// ---------------------------------------------------------------------------

/// The first of four times that is known.
pub open spec fn told_first(
    found: FixedDateTime,
    a: Option<FixedDateTime>,
    b: Option<FixedDateTime>,
    c: Option<FixedDateTime>,
    d: Option<FixedDateTime>,
) -> bool {
    ||| a == Some(found)
    ||| a is None && b == Some(found)
    ||| a is None && b is None && c == Some(found)
    ||| a is None && b is None && c is None && d == Some(found)
}

/// A leg is handed out exactly if a time of its departure and a time of its arrival are
/// known. Planned times come before expected ones and those at its ends before those on the
/// way; what is expected is as planned where nothing else is known. Its ends, its line and
/// its operator are those that were read.
pub proof fn law_leg_has_its_times_and_ends(leg: TempLegView)
    ensures
        mapped_leg(leg) is Some <==> (leg.departure_scheduled is Some || leg.departure_expected
            is Some) && (leg.arrival_scheduled is Some || leg.arrival_expected is Some
            || leg.fallback_arrival_scheduled is Some || leg.fallback_arrival_expected is Some),
        mapped_leg(leg) matches Some(m) ==> {
            &&& told_first(
                m.departure.scheduled,
                leg.departure_scheduled,
                leg.departure_expected,
                None,
                None,
            )
            &&& told_first(
                m.departure.expected,
                leg.departure_expected,
                leg.departure_scheduled,
                None,
                None,
            )
            &&& told_first(
                m.arrival.scheduled,
                leg.arrival_scheduled,
                leg.fallback_arrival_scheduled,
                leg.arrival_expected,
                leg.fallback_arrival_expected,
            )
            &&& told_first(
                m.arrival.expected,
                leg.arrival_expected,
                leg.fallback_arrival_expected,
                leg.arrival_scheduled,
                leg.fallback_arrival_scheduled,
            )
            &&& m.line == leg.line
            &&& m.operator == leg.operator
            &&& leg.mode is Some ==> m.mode == leg.mode->0
            &&& leg.mode is None ==> m.mode == "rail"@
            &&& leg.from_station is Some ==> m.from.station == leg.from_station->0
            &&& leg.from_station is None ==> m.from.station == "Unknown"@
            &&& leg.to_station is Some ==> m.to.station == leg.to_station->0
            &&& leg.to_station is None ==> m.to.station == "Unknown"@
            &&& m.from.platform == leg.from_platform
            &&& m.to.platform == leg.to_platform
            &&& m.service == models::service_label(Some(m.mode), m.line)
        },
{
}

/// A leg leaves or arrives late by the whole minutes between the planned and the expected
/// time.
pub proof fn law_leg_tells_its_delays(leg: TempLegView)
    requires
        mapped_leg(leg) is Some,
    ensures
        ({
            let m = mapped_leg(leg)->0;
            &&& whole_minutes_late(m.departure)
            &&& whole_minutes_late(m.arrival)
        }),
{
}

/// The delay is the whole minutes from the planned to the expected time.
pub open spec fn whole_minutes_late(info: TimeInfo) -> bool {
    let seconds = crate::time::seconds_apart(info.expected, info.scheduled);
    &&& 0 <= seconds < 100_000_000_000 ==> 60 * info.delay_minutes <= seconds < 60
        * info.delay_minutes + 60
    &&& -100_000_000_000 < seconds < 0 ==> 60 * info.delay_minutes - 60 < seconds <= 60
        * info.delay_minutes
}

/// A leg whose two platforms are known and differ is told to have changed its platform; any
/// other is late exactly if it leaves or arrives a minute late or more.
pub proof fn law_leg_tells_its_status(leg: TempLegView)
    requires
        mapped_leg(leg) is Some,
    ensures
        ({
            let m = mapped_leg(leg)->0;
            let changed = m.from.platform is Some && m.to.platform is Some && m.from.platform->0
                != m.to.platform->0;
            let late = m.departure.delay_minutes >= 1 || m.arrival.delay_minutes >= 1;
            &&& m.status == TripStatus::PlatformChanged <==> changed
            &&& m.status == TripStatus::Delayed <==> !changed && late
            &&& m.status == TripStatus::OnTime <==> !changed && !late
        }),
{
}

/// One call more that was read at a stop with a name either joins the call before it, if
/// that is at the same stop, or stands behind it. A call at a stop without a name adds
/// nothing.
pub proof fn law_call_is_kept(calls: Seq<TempStopCallView>, more: TempStopCallView)
    ensures
        ({
            let before = calls_of(calls);
            let after = calls_of(calls.push(more));
            let named = more.station is Some && text::trimmed(more.station->0).len() > 0;
            let same = before.len() > 0 && before.last().station == text::trimmed(
                more.station->0,
            );
            &&& calls_of(Seq::empty()).len() == 0
            &&& !named ==> after == before
            &&& named && !same ==> after.drop_last() == before && after.len() == before.len() + 1
                && after.last().station == text::trimmed(more.station->0)
            &&& named && same ==> {
                &&& after.len() == before.len()
                &&& after.drop_last() == before.drop_last()
                &&& after.last().station == before.last().station
                &&& before.last().arrival is Some ==> after.last().arrival
                    == before.last().arrival
                &&& before.last().departure is Some ==> after.last().departure
                    == before.last().departure
            }
            &&& named && (!same || before.last().arrival is None) ==> {
                &&& after.last().arrival is Some <==> more.arrival_scheduled is Some
                    || more.arrival_expected is Some
                &&& more.arrival_scheduled is Some ==> after.last().arrival->0.scheduled
                    == more.arrival_scheduled->0
                &&& more.arrival_expected is Some ==> after.last().arrival->0.expected
                    == more.arrival_expected->0
            }
            &&& named && (!same || before.last().departure is None) ==> {
                &&& after.last().departure is Some <==> more.departure_scheduled is Some
                    || more.departure_expected is Some
                &&& more.departure_scheduled is Some ==> after.last().departure->0.scheduled
                    == more.departure_scheduled->0
                &&& more.departure_expected is Some ==> after.last().departure->0.expected
                    == more.departure_expected->0
            }
            &&& named && !same ==> {
                &&& more.platform_expected is Some ==> after.last().expected_platform
                    == more.platform_expected && after.last().platform == more.platform_expected
                &&& more.platform_scheduled is Some ==> after.last().scheduled_platform
                    == more.platform_scheduled
                &&& more.latitude is Some && more.longitude is Some
                    ==> after.last().coordinates is Some
                    && after.last().coordinates->0.latitude == more.latitude->0
                    && after.last().coordinates->0.longitude == more.longitude->0
            }
        }),
{
    let all = calls.push(more);
    assert(all.drop_last() =~= calls);
    let before = calls_of(calls);
    let after = calls_of(all);
    let named = more.station is Some && text::trimmed(more.station->0).len() > 0;
    if named {
        if before.len() > 0 && before.last().station == text::trimmed(more.station->0) {
            assert(after.drop_last() =~= before.drop_last());
        } else {
            assert(after.drop_last() =~= before);
        }
    }
}

/// The calls of a leg that is handed out are those that were read, and its stops are theirs
/// where there are any: each call has its name among the stops.
pub proof fn law_stops_name_the_calls(leg: TempLegView, i: int)
    requires
        mapped_leg(leg) is Some,
        0 <= i < mapped_leg(leg)->0.stop_calls.len(),
    ensures
        mapped_leg(leg)->0.stop_calls == calls_of(leg.stop_calls),
        mapped_leg(leg)->0.stops.contains(mapped_leg(leg)->0.stop_calls[i].station),
{
    let calls = calls_of(leg.stop_calls);
    let way = call_names(calls);
    let first = beginning_at(way, leg.from_station);
    let name = calls[i].station;
    assert(way[i] == name);
    let k = if first == way {
        i
    } else {
        i + 1
    };
    assert(first[k] == name);
    assert(stops_of(leg)[k] == name);
}

/// How full a leg is told to be: by class as it was read, and overall as it was read or
/// else as the fuller of the classes.
pub proof fn law_overall_level_is_the_fuller(leg: TempLegView)
    requires
        mapped_leg(leg) is Some,
    ensures
        ({
            let told = mapped_leg(leg)->0.occupancy;
            let (first, second, general) = (
                leg.occupancy_first_class,
                leg.occupancy_second_class,
                leg.occupancy_general,
            );
            &&& told is Some <==> first is Some || second is Some || general is Some
            &&& told is Some ==> told->0.first_class == first && told->0.second_class == second
            &&& general is Some ==> told->0.general == general
            &&& general is None && first is Some && second is None ==> told->0.general == first
            &&& general is None && first is None && second is Some ==> told->0.general == second
            &&& general is None && first == Some("very high occupancy"@) && second == Some(
                "low to average"@,
            ) ==> told->0.general == first
            &&& general is None && second == Some("very high occupancy"@) && first == Some(
                "low to average"@,
            ) ==> told->0.general == second
            &&& general is None && first == Some("high occupancy"@) && second == Some(
                "low to average"@,
            ) ==> told->0.general == first
            &&& general is None && second == Some("very high occupancy"@) && first == Some(
                "high occupancy"@,
            ) ==> told->0.general == second
            &&& general is None && first == Some("very high occupancy"@) && second == Some(
                "high occupancy"@,
            ) ==> told->0.general == first
            &&& general is None && second == Some("high occupancy"@) && first == Some(
                "low to average"@,
            ) ==> told->0.general == second
        }),
{
    let (first, second) = (leg.occupancy_first_class, leg.occupancy_second_class);
    let levels = seq![first, second];
    let one = levels.drop_last();
    let none = one.drop_last();
    assert(one =~= seq![first]);
    assert(none =~= Seq::empty());
    assert(tags::highest_level(none) is None);
    assert(tags::highest_level(one) == first);
    tags::law_levels_are_ranked();
}

/// Reading one more name of a stop adds it without the white space around it, unless it is
/// blank or the same as the one before.
pub proof fn law_name_joins_the_stops(names: Seq<Seq<char>>, name: Seq<char>)
    ensures
        names_of(Seq::empty()).len() == 0,
        text::trimmed(name).len() == 0 ==> names_of(names.push(name)) == names_of(names),
        text::trimmed(name).len() > 0 && names_of(names).len() == 0 ==> names_of(names.push(name))
            == seq![text::trimmed(name)],
        text::trimmed(name).len() > 0 && names_of(names).len() > 0 && names_of(names).last()
            != text::trimmed(name) ==> names_of(names.push(name)) == names_of(names).push(
            text::trimmed(name),
        ),
        names_of(names).len() > 0 && names_of(names).last() == text::trimmed(name) ==> names_of(
            names.push(name),
        ) == names_of(names),
{
    assert(names.push(name).drop_last() =~= names);
    if names_of(names).len() == 0 {
        assert(names_of(names).push(text::trimmed(name)) =~= seq![text::trimmed(name)]);
    }
}

/// The stops of a leg begin with where it is boarded and end with where it is left, if these
/// are known.
pub proof fn law_stops_have_the_ends(leg: TempLegView, from: Seq<char>, to: Seq<char>)
    requires
        leg.from_station == Some(from),
        leg.to_station == Some(to),
    ensures
        stops_of(leg).len() > 0,
        stops_of(leg)[0] == from,
        stops_of(leg)[stops_of(leg).len() - 1] == to,
{
}

} // verus!
