//! Reports on trips: delays, disruptions and train formations.

use vstd::prelude::*;

use crate::api::formation::render;
use crate::api::formation::render::FormationRenderView;
use crate::api::ojp::station;
use crate::api::ojp::suggest;
use crate::api::ojp::tags;
use crate::api::ojp::trip;
use crate::duplicate::Duplicate;
use crate::error;
use crate::error::Error;
use crate::models::{
    Disruption, DisruptionView, GeoPoint, GeoPointView, ToolWarning, ToolWarningView, Trip,
    TripLeg, TripLegOccupancy, TripLegOccupancyView, TripLegView, TripOptionPlatform,
    TripOptionPlatformView, TripOptionReport, TripOptionReportView, TripOptionTime, TripPlanReport,
    TripPlanReportView, TripStatus, TripView, TripsResponse, TripsResponseView,
};
use crate::order;
use crate::text;
use crate::time;
use crate::time::FixedDateTime;

verus! {

// ---------------------------------------------------------------------------
// Disruptions that matter
// ---------------------------------------------------------------------------

/// The lines of legs, as far as they are known.
pub open spec fn lines_of(legs: Seq<TripLegView>) -> Seq<Seq<char>>
    decreases legs.len(),
{
    if legs.len() == 0 {
        Seq::empty()
    } else {
        match legs.last().line {
            Some(line) => lines_of(legs.drop_last()).push(text::lowered(line)),
            None => lines_of(legs.drop_last()),
        }
    }
}

/// The lines of trips.
pub open spec fn trips_lines(trips: Seq<TripView>) -> Seq<Seq<char>>
    decreases trips.len(),
{
    if trips.len() == 0 {
        Seq::empty()
    } else {
        trips_lines(trips.drop_last()) + lines_of(trips.last().legs)
    }
}

/// Texts in lower case.
pub open spec fn all_lowered(items: Seq<Seq<char>>) -> Seq<Seq<char>> {
    Seq::new(items.len(), |i: int| text::lowered(items[i]))
}

/// The names of the ends and stops of a leg.
pub open spec fn leg_names(leg: TripLegView) -> Seq<Seq<char>> {
    seq![text::lowered(leg.from.station), text::lowered(leg.to.station)] + all_lowered(leg.stops)
}

/// The names of the ends and stops of legs.
pub open spec fn legs_names(legs: Seq<TripLegView>) -> Seq<Seq<char>>
    decreases legs.len(),
{
    if legs.len() == 0 {
        Seq::empty()
    } else {
        legs_names(legs.drop_last()) + leg_names(legs.last())
    }
}

/// The names of the ends and stops of trips.
pub open spec fn trips_names(trips: Seq<TripView>) -> Seq<Seq<char>>
    decreases trips.len(),
{
    if trips.len() == 0 {
        Seq::empty()
    } else {
        trips_names(trips.drop_last()) + legs_names(trips.last().legs)
    }
}

/// The names of stations on trips, in order and each once.
pub open spec fn station_tokens(trips: Seq<TripView>, origin: Seq<char>, destination: Seq<char>) -> Seq<
    Seq<char>,
> {
    suggest::without_repeats(
        order::sorted::<String>(
            seq![text::lowered(origin), text::lowered(destination)] + trips_names(trips),
        ),
    )
}

/// A text holds one of the tokens.
pub open spec fn mentions(value: Seq<char>, tokens: Seq<Seq<char>>) -> bool {
    exists|j: int|
        0 <= j < tokens.len() && (#[trigger] tokens[j]).len() > 0 && text::contains(value, tokens[j])
}

/// A disruption on one of the lines, or whose text names one of the stations.
pub open spec fn concerns(d: DisruptionView, lines: Seq<Seq<char>>, stations: Seq<Seq<char>>) -> bool {
    ||| exists|i: int|
        0 <= i < d.affected_lines.len() && mentions(
            text::lowered(#[trigger] d.affected_lines[i]),
            lines,
        )
    ||| mentions(
        text::lowered(
            match d.description {
                Some(t) => t,
                None => Seq::empty(),
            },
        ),
        stations,
    )
}

/// The disruptions on one of the lines or at one of the stations.
pub open spec fn concerning(
    disruptions: Seq<DisruptionView>,
    lines: Seq<Seq<char>>,
    stations: Seq<Seq<char>>,
) -> Seq<DisruptionView>
    decreases disruptions.len(),
{
    if disruptions.len() == 0 {
        Seq::empty()
    } else {
        let before = concerning(disruptions.drop_last(), lines, stations);
        if concerns(disruptions.last(), lines, stations) {
            before.push(disruptions.last())
        } else {
            before
        }
    }
}

/// The disruptions that matter for trips. If none does, the first eight may stand in.
pub open spec fn relevant(
    disruptions: Seq<DisruptionView>,
    trips: Seq<TripView>,
    origin: Seq<char>,
    destination: Seq<char>,
    fallback: bool,
) -> Seq<DisruptionView> {
    let kept = concerning(
        disruptions,
        trips_lines(trips),
        station_tokens(trips, origin, destination),
    );
    if fallback && kept.len() == 0 {
        station::first_of(disruptions, 8)
    } else {
        kept
    }
}

fn add_lines(list: &mut Vec<String>, legs: &Vec<TripLeg>)
    ensures
        final(list).deep_view() == old(list).deep_view() + lines_of(legs.deep_view()),
{
    let ghost before = list.deep_view();
    let ghost all = legs.deep_view();
    let mut i: usize = 0;
    assert(before + lines_of(all.take(0)) =~= before);
    while i < legs.len()
        invariant
            i <= legs@.len(),
            all == legs.deep_view(),
            list.deep_view() == before + lines_of(all.take(i as int)),
        decreases legs@.len() - i,
    {
        assert(all.take(i + 1).drop_last() =~= all.take(i as int));
        assert(all.take(i + 1).last() == legs@[i as int].deep_view());
        match &legs[i].line {
            Some(line) => {
                let ghost so_far = list.deep_view();
                let lower = text::to_lower(line.as_str());
                let ghost view = lower@;
                list.push(lower);
                assert(list.deep_view() =~= so_far.push(view));
                assert(so_far.push(view) =~= before + lines_of(all.take(i + 1)));
            },
            None => {},
        }
        i += 1;
    }
    assert(all.take(i as int) =~= all);
}

fn collect_lines(trips: &Vec<Trip>) -> (r: Vec<String>)
    ensures
        r.deep_view() == trips_lines(trips.deep_view()),
{
    let ghost all = trips.deep_view();
    let mut list: Vec<String> = Vec::new();
    let mut i: usize = 0;
    assert(list.deep_view() =~= trips_lines(all.take(0)));
    while i < trips.len()
        invariant
            i <= trips@.len(),
            all == trips.deep_view(),
            list.deep_view() == trips_lines(all.take(i as int)),
        decreases trips@.len() - i,
    {
        assert(all.take(i + 1).drop_last() =~= all.take(i as int));
        assert(all.take(i + 1).last() == trips@[i as int].deep_view());
        add_lines(&mut list, &trips[i].legs);
        i += 1;
    }
    assert(all.take(i as int) =~= all);
    list
}

fn add_lowered(list: &mut Vec<String>, items: &Vec<String>)
    ensures
        final(list).deep_view() == old(list).deep_view() + all_lowered(items.deep_view()),
{
    let ghost before = list.deep_view();
    let ghost all = all_lowered(items.deep_view());
    let mut i: usize = 0;
    assert(before + all.take(0) =~= before);
    while i < items.len()
        invariant
            i <= items@.len(),
            all == all_lowered(items.deep_view()),
            list.deep_view() == before + all.take(i as int),
        decreases items@.len() - i,
    {
        let ghost so_far = list.deep_view();
        assert(items.deep_view()[i as int] == items@[i as int]@);
        list.push(text::to_lower(items[i].as_str()));
        assert(list.deep_view() =~= so_far.push(all[i as int]));
        assert(so_far.push(all[i as int]) =~= before + all.take(i + 1));
        i += 1;
    }
    assert(all.take(i as int) =~= all);
}

fn add_legs_names(list: &mut Vec<String>, legs: &Vec<TripLeg>)
    ensures
        final(list).deep_view() == old(list).deep_view() + legs_names(legs.deep_view()),
{
    let ghost before = list.deep_view();
    let ghost all = legs.deep_view();
    let mut i: usize = 0;
    assert(before + legs_names(all.take(0)) =~= before);
    while i < legs.len()
        invariant
            i <= legs@.len(),
            all == legs.deep_view(),
            list.deep_view() == before + legs_names(all.take(i as int)),
        decreases legs@.len() - i,
    {
        assert(all.take(i + 1).drop_last() =~= all.take(i as int));
        let l = &legs[i];
        assert(all.take(i + 1).last() == l.deep_view());
        let ghost so_far = list.deep_view();
        list.push(text::to_lower(l.from.station.as_str()));
        list.push(text::to_lower(l.to.station.as_str()));
        let ghost ends = seq![
            text::lowered(l.deep_view().from.station),
            text::lowered(l.deep_view().to.station),
        ];
        assert(list.deep_view() =~= so_far + ends);
        add_lowered(list, &l.stops);
        assert(list.deep_view() =~= so_far + leg_names(l.deep_view()));
        assert(list.deep_view() =~= before + legs_names(all.take(i + 1)));
        i += 1;
    }
    assert(all.take(i as int) =~= all);
}

/// The names of stations on trips, in order and each once.
pub fn collect_station_tokens(trips: &Vec<Trip>, origin: &str, destination: &str) -> (r: Vec<String>)
    ensures
        r.deep_view() == station_tokens(trips.deep_view(), origin@, destination@),
{
    let ghost all = trips.deep_view();
    let mut list: Vec<String> = Vec::new();
    list.push(text::to_lower(origin));
    list.push(text::to_lower(destination));
    let ghost ends = seq![text::lowered(origin@), text::lowered(destination@)];
    let mut i: usize = 0;
    assert(list.deep_view() =~= ends + trips_names(all.take(0)));
    while i < trips.len()
        invariant
            i <= trips@.len(),
            all == trips.deep_view(),
            list.deep_view() == ends + trips_names(all.take(i as int)),
        decreases trips@.len() - i,
    {
        assert(all.take(i + 1).drop_last() =~= all.take(i as int));
        assert(all.take(i + 1).last() == trips@[i as int].deep_view());
        add_legs_names(&mut list, &trips[i].legs);
        assert(list.deep_view() =~= ends + trips_names(all.take(i + 1)));
        i += 1;
    }
    assert(all.take(i as int) =~= all);
    suggest::remove_repeats(&order::sort(list))
}

fn check_mentions(value: &str, tokens: &Vec<String>) -> (r: bool)
    ensures
        r == mentions(value@, tokens.deep_view()),
{
    let mut i: usize = 0;
    while i < tokens.len()
        invariant
            i <= tokens@.len(),
            forall|j: int|
                0 <= j < i ==> !((#[trigger] tokens.deep_view()[j]).len() > 0 && text::contains(
                    value@,
                    tokens.deep_view()[j],
                )),
        decreases tokens@.len() - i,
    {
        assert(tokens.deep_view()[i as int] == tokens@[i as int]@);
        if !tokens[i].as_str().is_empty() && text::has(value, tokens[i].as_str()) {
            return true;
        }
        i += 1;
    }
    false
}

fn check_concerns(d: &Disruption, lines: &Vec<String>, stations: &Vec<String>) -> (r: bool)
    ensures
        r == concerns(d.deep_view(), lines.deep_view(), stations.deep_view()),
{
    let ghost affected = d.deep_view().affected_lines;
    let mut i: usize = 0;
    while i < d.affected_lines.len()
        invariant
            i <= d.affected_lines@.len(),
            affected == d.deep_view().affected_lines,
            forall|k: int|
                0 <= k < i ==> !mentions(text::lowered(#[trigger] affected[k]), lines.deep_view()),
        decreases d.affected_lines@.len() - i,
    {
        assert(affected[i as int] == d.affected_lines@[i as int]@);
        let lower = text::to_lower(d.affected_lines[i].as_str());
        if check_mentions(lower.as_str(), lines) {
            return true;
        }
        i += 1;
    }
    match &d.description {
        Some(t) => {
            let lower = text::to_lower(t.as_str());
            check_mentions(lower.as_str(), stations)
        },
        None => {
            let lower = text::to_lower("");
            proof {
                reveal_strlit("");
                assert(""@ =~= Seq::empty());
            }
            check_mentions(lower.as_str(), stations)
        },
    }
}

/// The disruptions that matter for trips.
pub fn filter_relevant_disruptions(
    disruptions: &Vec<Disruption>,
    trips: &Vec<Trip>,
    origin: &str,
    destination: &str,
    include_fallback: bool,
) -> (r: Vec<Disruption>)
    ensures
        r.deep_view() == relevant(
            disruptions.deep_view(),
            trips.deep_view(),
            origin@,
            destination@,
            include_fallback,
        ),
{
    let lines = collect_lines(trips);
    let stations = collect_station_tokens(trips, origin, destination);
    let ghost all = disruptions.deep_view();
    let ghost l = lines.deep_view();
    let ghost s = stations.deep_view();
    let mut kept: Vec<Disruption> = Vec::new();
    let mut i: usize = 0;
    assert(kept.deep_view() =~= concerning(all.take(0), l, s));
    while i < disruptions.len()
        invariant
            i <= disruptions@.len(),
            all == disruptions.deep_view(),
            l == lines.deep_view(),
            s == stations.deep_view(),
            kept.deep_view() == concerning(all.take(i as int), l, s),
        decreases disruptions@.len() - i,
    {
        assert(all.take(i + 1).drop_last() =~= all.take(i as int));
        assert(all.take(i + 1).last() == disruptions@[i as int].deep_view());
        if check_concerns(&disruptions[i], &lines, &stations) {
            let ghost before = kept.deep_view();
            kept.push(disruptions[i].duplicate());
            assert(kept.deep_view() =~= before.push(disruptions@[i as int].deep_view()));
        }
        i += 1;
    }
    assert(all.take(i as int) =~= all);
    if include_fallback && kept.len() == 0 {
        let mut first = disruptions.duplicate();
        let ghost copy = first.deep_view();
        first.truncate(8);
        assert(first.deep_view() =~= station::first_of(copy, 8));
        return first;
    }
    kept
}

// ---------------------------------------------------------------------------
// The report on a search
// ---------------------------------------------------------------------------

/// A message that tells of a refused token.
pub open spec fn auth_failure(message: Seq<char>) -> bool {
    let m = text::lowered(message);
    text::contains(m, "401"@) || text::contains(m, "403"@) || text::contains(m, "unauthorized"@)
        || text::contains(m, "forbidden"@)
}

/// Whether a message tells of a refused token.
pub fn is_gtfs_auth_failure(message: &str) -> (r: bool)
    ensures
        r == auth_failure(message@),
{
    let lower = text::to_lower(message);
    let m = lower.as_str();
    text::has(m, "401") || text::has(m, "403") || text::has(m, "unauthorized") || text::has(
        m,
        "forbidden",
    )
}

/// The message for a live feed that failed; for a refused token with advice.
pub open spec fn live_events_message(message: Seq<char>, endpoint: Seq<char>) -> Seq<char> {
    let base = "live event feed unavailable ("@ + message + ")"@;
    if auth_failure(message) {
        base + ". GTFS auth diagnostics: endpoint="@ + endpoint
            + ", token_source=dedicated GTFS_RT_TOKEN, verify GTFS_RT_TOKEN is correctly propagated in mcp_servers.<id>.env_vars and matches the token that succeeds in shell probes"@
    } else {
        base
    }
}

/// The message for a live feed that failed.
pub fn live_events_error_message(message: &str, endpoint: &str) -> (r: String)
    ensures
        r@ == live_events_message(message@, endpoint@),
{
    let mut s = "live event feed unavailable (".to_owned();
    s.append(message);
    s.append(")");
    if is_gtfs_auth_failure(message) {
        s.append(". GTFS auth diagnostics: endpoint=");
        s.append(endpoint);
        s.append(
            ", token_source=dedicated GTFS_RT_TOKEN, verify GTFS_RT_TOKEN is correctly propagated in mcp_servers.<id>.env_vars and matches the token that succeeds in shell probes",
        );
    }
    s
}

/// A trip with a leg that is not as planned.
pub open spec fn irregular(trip: TripView) -> bool {
    exists|i: int| 0 <= i < trip.legs.len() && (#[trigger] trip.legs[i]).status != TripStatus::OnTime
}

/// The number of trips with a leg that is not as planned.
pub open spec fn irregular_count(trips: Seq<TripView>) -> nat
    decreases trips.len(),
{
    if trips.len() == 0 {
        0
    } else {
        irregular_count(trips.drop_last()) + if irregular(trips.last()) {
            1nat
        } else {
            0nat
        }
    }
}

fn is_irregular(trip: &Trip) -> (r: bool)
    ensures
        r == irregular(trip.deep_view()),
{
    let ghost all = trip.deep_view().legs;
    let mut i: usize = 0;
    while i < trip.legs.len()
        invariant
            i <= trip.legs@.len(),
            all == trip.deep_view().legs,
            forall|k: int| 0 <= k < i ==> (#[trigger] all[k]).status == TripStatus::OnTime,
        decreases trip.legs@.len() - i,
    {
        assert(all[i as int].status == trip.legs@[i as int].status);
        if trip.legs[i].status != TripStatus::OnTime {
            return true;
        }
        i += 1;
    }
    false
}

fn count_irregular(trips: &Vec<Trip>) -> (r: usize)
    ensures
        r == irregular_count(trips.deep_view()),
{
    let ghost all = trips.deep_view();
    let mut count: usize = 0;
    let mut i: usize = 0;
    while i < trips.len()
        invariant
            i <= trips@.len(),
            all == trips.deep_view(),
            count <= i,
            count == irregular_count(all.take(i as int)),
        decreases trips@.len() - i,
    {
        assert(all.take(i + 1).drop_last() =~= all.take(i as int));
        assert(all.take(i + 1).last() == trips@[i as int].deep_view());
        if is_irregular(&trips[i]) {
            count += 1;
        }
        i += 1;
    }
    assert(all.take(i as int) =~= all);
    count
}

/// Whether there is something, or why that is not known.
pub open spec fn status_text(failure: Option<Seq<char>>, count: nat) -> Seq<char> {
    match failure {
        Some(message) => "unavailable: "@ + message,
        None => if count == 0 {
            "none"@
        } else {
            "available"@
        },
    }
}

fn write_status(failure: Option<&str>, count: usize) -> (r: String)
    ensures
        r@ == status_text(failure.deep_view(), count as nat),
{
    match failure {
        Some(message) => {
            let mut s = "unavailable: ".to_owned();
            s.append(message);
            s
        },
        None => if count == 0 {
            "none".to_owned()
        } else {
            "available".to_owned()
        },
    }
}

/// The message of a caveat, if there is one.
pub open spec fn message_of(warning: Option<ToolWarningView>) -> Option<Seq<char>> {
    match warning {
        Some(w) => Some(w.message),
        None => None,
    }
}

fn find_message(warning: &Option<ToolWarning>) -> (r: Option<&str>)
    ensures
        r.deep_view() == message_of(warning.deep_view()),
{
    match warning {
        Some(w) => Some(w.message.as_str()),
        None => None,
    }
}

/// The disruptions for the report, and the caveat on them.
pub open spec fn report_events(
    events: Result<(Seq<DisruptionView>, Option<ToolWarningView>), Seq<char>>,
    trips: Seq<TripView>,
    origin: Seq<char>,
    destination: Seq<char>,
    endpoint: Seq<char>,
) -> (Seq<DisruptionView>, Option<ToolWarningView>) {
    match events {
        Ok((disruptions, warning)) => (
            relevant(disruptions, trips, origin, destination, true),
            warning,
        ),
        Err(message) => (
            Seq::empty(),
            Some(
                ToolWarningView { message: live_events_message(message, endpoint), stale: false },
            ),
        ),
    }
}

/// The report on a search.
pub open spec fn trip_report(
    origin: Seq<char>,
    destination: Seq<char>,
    trips: Seq<TripView>,
    events: Result<(Seq<DisruptionView>, Option<ToolWarningView>), Seq<char>>,
    endpoint: Seq<char>,
    now: FixedDateTime,
) -> TripPlanReportView {
    let (live_events, warning) = report_events(events, trips, origin, destination, endpoint);
    TripPlanReportView {
        generated_at: now,
        origin,
        destination,
        total_options: trips.len() as usize,
        delayed_options: irregular_count(trips) as usize,
        live_events,
        live_events_status: status_text(message_of(warning), live_events.len()),
        live_events_warning: warning,
    }
}

/// The report on a search, made at a given time.
pub fn build_trip_report_at(
    origin: &str,
    destination: &str,
    trips: &Vec<Trip>,
    events: Result<(Vec<Disruption>, Option<ToolWarning>), Error>,
    endpoint: &str,
    now: FixedDateTime,
) -> (r: TripPlanReport)
    ensures
        r.deep_view() == trip_report(
            origin@,
            destination@,
            trips.deep_view(),
            error::outcome(events),
            endpoint@,
            now,
        ),
{
    let (live_events, warning) = match events {
        Ok((disruptions, warning)) => (
            filter_relevant_disruptions(&disruptions, trips, origin, destination, true),
            warning,
        ),
        Err(e) => {
            let none: Vec<Disruption> = Vec::new();
            assert(none.deep_view() =~= Seq::empty());
            let message = live_events_error_message(e.message.as_str(), endpoint);
            (none, Some(ToolWarning { message, stale: false }))
        },
    };
    let status = write_status(find_message(&warning), live_events.len());
    TripPlanReport {
        generated_at: now,
        origin: origin.to_owned(),
        destination: destination.to_owned(),
        total_options: trips.len(),
        delayed_options: count_irregular(trips),
        live_events,
        live_events_status: status,
        live_events_warning: warning,
    }
}

/// The report on a search, made now.
pub fn build_trip_report(
    origin: &str,
    destination: &str,
    trips: &Vec<Trip>,
    events: Result<(Vec<Disruption>, Option<ToolWarning>), Error>,
    endpoint: &str,
) -> (r: TripPlanReport)
    ensures
        exists|now: FixedDateTime|
            time::zurich_reading(now) && r.deep_view() == #[trigger] trip_report(
                origin@,
                destination@,
                trips.deep_view(),
                error::outcome(events),
                endpoint@,
                now,
            ),
{
    let now = time::now_fixed();
    build_trip_report_at(origin, destination, trips, events, endpoint, now)
}

// ---------------------------------------------------------------------------
// The report on a trip
// ---------------------------------------------------------------------------

/// The platform and the place where a trip is boarded: those of its first leg, or else of
/// the first call of that leg.
pub open spec fn boarding(legs: Seq<TripLegView>) -> (Option<Seq<char>>, Option<GeoPointView>) {
    if legs.len() == 0 {
        (None, None)
    } else {
        let l = legs[0];
        if l.stop_calls.len() > 0 {
            (
                tags::or_else(l.from.platform, l.stop_calls[0].platform),
                tags::or_else(l.from.coordinates, l.stop_calls[0].coordinates),
            )
        } else {
            (l.from.platform, l.from.coordinates)
        }
    }
}

/// The platform and the place where a trip is left: those of its last leg, or else of the
/// last call of that leg.
pub open spec fn alighting(legs: Seq<TripLegView>) -> (Option<Seq<char>>, Option<GeoPointView>) {
    if legs.len() == 0 {
        (None, None)
    } else {
        let l = legs.last();
        if l.stop_calls.len() > 0 {
            (
                tags::or_else(l.to.platform, l.stop_calls.last().platform),
                tags::or_else(l.to.coordinates, l.stop_calls.last().coordinates),
            )
        } else {
            (l.to.platform, l.to.coordinates)
        }
    }
}

fn prefer<T: Duplicate>(a: &Option<T>, b: &Option<T>) -> (r: Option<T>)
    ensures
        r.deep_view() == tags::or_else(a.deep_view(), b.deep_view()),
{
    if a.is_some() {
        a.duplicate()
    } else {
        b.duplicate()
    }
}

fn find_boarding(legs: &Vec<TripLeg>) -> (r: (Option<String>, Option<GeoPoint>))
    ensures
        (r.0.deep_view(), r.1.deep_view()) == boarding(legs.deep_view()),
{
    if legs.len() == 0 {
        return (None, None);
    }
    let l = &legs[0];
    assert(legs.deep_view()[0] == l.deep_view());
    if l.stop_calls.len() > 0 {
        let c = &l.stop_calls[0];
        assert(l.deep_view().stop_calls[0] == c.deep_view());
        (prefer(&l.from.platform, &c.platform), prefer(&l.from.coordinates, &c.coordinates))
    } else {
        (l.from.platform.duplicate(), l.from.coordinates.duplicate())
    }
}

fn find_alighting(legs: &Vec<TripLeg>) -> (r: (Option<String>, Option<GeoPoint>))
    ensures
        (r.0.deep_view(), r.1.deep_view()) == alighting(legs.deep_view()),
{
    let n: usize = legs.len();
    if n == 0 {
        return (None, None);
    }
    let l = &legs[n - 1];
    assert(legs.deep_view().last() == l.deep_view());
    let m: usize = l.stop_calls.len();
    if m > 0 {
        let c = &l.stop_calls[m - 1];
        assert(l.deep_view().stop_calls.last() == c.deep_view());
        (prefer(&l.to.platform, &c.platform), prefer(&l.to.coordinates, &c.coordinates))
    } else {
        (l.to.platform.duplicate(), l.to.coordinates.duplicate())
    }
}

/// The first expected occupancy of legs.
pub open spec fn first_occupancy(legs: Seq<TripLegView>) -> Option<TripLegOccupancyView>
    decreases legs.len(),
{
    if legs.len() == 0 {
        None
    } else if legs[0].occupancy is Some {
        legs[0].occupancy
    } else {
        first_occupancy(legs.drop_first())
    }
}

fn find_occupancy(legs: &Vec<TripLeg>) -> (r: Option<TripLegOccupancy>)
    ensures
        r.deep_view() == first_occupancy(legs.deep_view()),
{
    let ghost all = legs.deep_view();
    let mut i: usize = 0;
    assert(all.skip(0) =~= all);
    while i < legs.len()
        invariant
            i <= legs@.len(),
            all == legs.deep_view(),
            first_occupancy(all) == first_occupancy(all.skip(i as int)),
        decreases legs@.len() - i,
    {
        assert(all.skip(i as int)[0] == legs@[i as int].deep_view());
        assert(all.skip(i as int).drop_first() =~= all.skip(i + 1));
        if legs[i].occupancy.is_some() {
            return legs[i].occupancy.duplicate();
        }
        i += 1;
    }
    None
}

/// When a trip leaves and arrives as now expected; one without legs does so now.
pub open spec fn times_of(legs: Seq<TripLegView>, now: FixedDateTime) -> TripOptionTime {
    let departure = if legs.len() > 0 {
        legs[0].departure.expected
    } else {
        now
    };
    let arrival = if legs.len() > 0 {
        legs.last().arrival.expected
    } else {
        departure
    };
    TripOptionTime {
        departure,
        arrival,
        duration_minutes: trip::at_least_zero(time::minutes_apart(arrival, departure)) as i64,
    }
}

fn find_times(legs: &Vec<TripLeg>, now: FixedDateTime) -> (r: TripOptionTime)
    ensures
        r == times_of(legs.deep_view(), now),
{
    let n: usize = legs.len();
    let (departure, arrival) = if n > 0 {
        assert(legs.deep_view()[0].departure == legs@[0].departure);
        assert(legs.deep_view().last().arrival == legs@[n - 1].arrival);
        (legs[0].departure.expected, legs[n - 1].arrival.expected)
    } else {
        (now, now)
    };
    let minutes: i64 = time::minutes_between(arrival, departure);
    TripOptionTime {
        departure,
        arrival,
        duration_minutes: if minutes < 0 {
            0
        } else {
            minutes
        },
    }
}

/// The disruptions that matter for one trip of a search.
pub open spec fn option_events(
    t: TripView,
    origin: Seq<char>,
    destination: Seq<char>,
    report: Option<TripPlanReportView>,
) -> Seq<DisruptionView> {
    match report {
        Some(r) if r.live_events_warning is None && r.live_events.len() > 0 => relevant(
            r.live_events,
            seq![t],
            origin,
            destination,
            false,
        ),
        _ => Seq::empty(),
    }
}

/// The message of the caveat on the disruptions of a report.
pub open spec fn report_failure(report: Option<TripPlanReportView>) -> Option<Seq<char>> {
    match report {
        Some(r) => message_of(r.live_events_warning),
        None => None,
    }
}

/// The notation of the train of a trip, if it is known.
pub open spec fn formation_of(formation: Result<Option<Seq<char>>, Seq<char>>) -> Option<Seq<char>> {
    match formation {
        Ok(notation) => notation,
        Err(_) => None,
    }
}

/// Whether the notation of the train of a trip is known, or why not.
pub open spec fn formation_status(formation: Result<Option<Seq<char>>, Seq<char>>) -> Seq<char> {
    match formation {
        Ok(Some(_)) => "available"@,
        Ok(None) => "none"@,
        Err(message) => "unavailable: "@ + message,
    }
}

/// The display of the train of a trip, if it is known.
pub open spec fn formation_render(formation: Result<Option<Seq<char>>, Seq<char>>) -> Option<
    FormationRenderView,
> {
    match formation_of(formation) {
        Some(notation) => render::rendered(notation),
        None => None,
    }
}

/// The report on one trip of a search.
pub open spec fn option_report(
    t: TripView,
    origin: Seq<char>,
    destination: Seq<char>,
    report: Option<TripPlanReportView>,
    formation: Result<Option<Seq<char>>, Seq<char>>,
    now: FixedDateTime,
) -> TripOptionReportView {
    let events = option_events(t, origin, destination, report);
    let shown = formation_render(formation);
    TripOptionReportView {
        trip_id: t.id,
        time: times_of(t.legs, now),
        platform: TripOptionPlatformView {
            departure: boarding(t.legs).0,
            arrival: alighting(t.legs).0,
        },
        final_destination: if t.legs.len() > 0 {
            t.legs.last().to.station
        } else {
            destination
        },
        origin_coordinates: boarding(t.legs).1,
        final_destination_coordinates: alighting(t.legs).1,
        occupancy: first_occupancy(t.legs),
        events,
        events_status: status_text(report_failure(report), events.len()),
        wagon_formation: formation_of(formation),
        wagon_formation_status: formation_status(formation),
        wagon_formation_readable: match shown {
            Some(f) => Some(f.readable),
            None => None,
        },
        wagon_formation_diagram: match shown {
            Some(f) => Some(f.diagram),
            None => None,
        },
        wagon_formation_human_display: match shown {
            Some(f) => Some(f.human_display),
            None => None,
        },
        wagon_formation_boarding_hint: match shown {
            Some(f) => Some(f.boarding_hint),
            None => None,
        },
        wagon_formation_legend: match shown {
            Some(f) => Some(f.legend),
            None => None,
        },
        wagon_formation_parsed: match shown {
            Some(f) => Some(f.parsed),
            None => None,
        },
        sector_to_coach_range: match shown {
            Some(f) => Some(f.sector_to_coach_range),
            None => None,
        },
        accessible_coaches: match shown {
            Some(f) => Some(f.accessible_coaches),
            None => None,
        },
        first_class_coaches: match shown {
            Some(f) => Some(f.first_class_coaches),
            None => None,
        },
        second_class_coaches: match shown {
            Some(f) => Some(f.second_class_coaches),
            None => None,
        },
    }
}

fn find_option_events(
    t: &Trip,
    origin: &str,
    destination: &str,
    report: Option<&TripPlanReport>,
) -> (r: Vec<Disruption>)
    ensures
        r.deep_view() == option_events(t.deep_view(), origin@, destination@, report.deep_view()),
{
    match report {
        Some(entry) => {
            if entry.live_events_warning.is_none() && entry.live_events.len() > 0 {
                let mut one: Vec<Trip> = Vec::new();
                one.push(t.duplicate());
                assert(one.deep_view() =~= seq![t.deep_view()]);
                return filter_relevant_disruptions(
                    &entry.live_events,
                    &one,
                    origin,
                    destination,
                    false,
                );
            }
        },
        None => {},
    }
    let none: Vec<Disruption> = Vec::new();
    assert(none.deep_view() =~= Seq::empty());
    none
}

/// The report on one trip of a search.
pub fn build_option_report(
    t: &Trip,
    origin: &str,
    destination: &str,
    report: Option<&TripPlanReport>,
    formation: Result<Option<String>, Error>,
    now: FixedDateTime,
) -> (r: TripOptionReport)
    ensures
        r.deep_view() == option_report(
            t.deep_view(),
            origin@,
            destination@,
            report.deep_view(),
            error::outcome(formation),
            now,
        ),
{
    let ghost view = error::outcome(formation);
    let time = find_times(&t.legs, now);
    let (departure_platform, origin_coordinates) = find_boarding(&t.legs);
    let (arrival_platform, final_destination_coordinates) = find_alighting(&t.legs);
    let n: usize = t.legs.len();
    let final_destination = if n > 0 {
        assert(t.deep_view().legs.last() == t.legs@[n - 1].deep_view());
        t.legs[n - 1].to.station.clone()
    } else {
        destination.to_owned()
    };
    let events = find_option_events(t, origin, destination, report);
    let failure = match report {
        Some(entry) => find_message(&entry.live_events_warning),
        None => None,
    };
    let events_status = write_status(failure, events.len());
    let (wagon_formation, wagon_formation_status) = match formation {
        Ok(Some(notation)) => (Some(notation), "available".to_owned()),
        Ok(None) => (None, "none".to_owned()),
        Err(e) => {
            let mut s = "unavailable: ".to_owned();
            s.append(e.message.as_str());
            (None, s)
        },
    };
    assert(wagon_formation.deep_view() == formation_of(view));
    let shown = match &wagon_formation {
        Some(notation) => render::render_formation_short_string(notation.as_str()),
        None => None,
    };
    assert(shown.deep_view() == formation_render(view));
    let platform = TripOptionPlatform { departure: departure_platform, arrival: arrival_platform };
    match shown {
        Some(f) => TripOptionReport {
            trip_id: t.id.clone(),
            time,
            platform,
            final_destination,
            origin_coordinates,
            final_destination_coordinates,
            occupancy: find_occupancy(&t.legs),
            events,
            events_status,
            wagon_formation,
            wagon_formation_status,
            wagon_formation_readable: Some(f.readable),
            wagon_formation_diagram: Some(f.diagram),
            wagon_formation_human_display: Some(f.human_display),
            wagon_formation_boarding_hint: Some(f.boarding_hint),
            wagon_formation_legend: Some(f.legend),
            wagon_formation_parsed: Some(f.parsed),
            sector_to_coach_range: Some(f.sector_to_coach_range),
            accessible_coaches: Some(f.accessible_coaches),
            first_class_coaches: Some(f.first_class_coaches),
            second_class_coaches: Some(f.second_class_coaches),
        },
        None => TripOptionReport {
            trip_id: t.id.clone(),
            time,
            platform,
            final_destination,
            origin_coordinates,
            final_destination_coordinates,
            occupancy: find_occupancy(&t.legs),
            events,
            events_status,
            wagon_formation,
            wagon_formation_status,
            wagon_formation_readable: None,
            wagon_formation_diagram: None,
            wagon_formation_human_display: None,
            wagon_formation_boarding_hint: None,
            wagon_formation_legend: None,
            wagon_formation_parsed: None,
            sector_to_coach_range: None,
            accessible_coaches: None,
            first_class_coaches: None,
            second_class_coaches: None,
        },
    }
}

/// The reports on the trips of a search, given the formation of each.
pub open spec fn option_reports(
    trips: Seq<TripView>,
    origin: Seq<char>,
    destination: Seq<char>,
    report: Option<TripPlanReportView>,
    formations: Seq<Result<Option<Seq<char>>, Seq<char>>>,
    now: FixedDateTime,
) -> Seq<TripOptionReportView> {
    Seq::new(
        trips.len(),
        |i: int| option_report(trips[i], origin, destination, report, formations[i], now),
    )
}

/// The outcomes of questions for formations.
pub open spec fn formation_outcomes(formations: Seq<Result<Option<String>, Error>>) -> Seq<
    Result<Option<Seq<char>>, Seq<char>>,
> {
    Seq::new(formations.len(), |i: int| error::outcome(formations[i]))
}

/// The reports on the trips of a search at a given time, given the formation of each.
pub fn build_option_reports_at(
    trips: &Vec<Trip>,
    origin: &str,
    destination: &str,
    report: Option<&TripPlanReport>,
    formations: Vec<Result<Option<String>, Error>>,
    now: FixedDateTime,
) -> (r: Vec<TripOptionReport>)
    requires
        formations@.len() == trips@.len(),
    ensures
        r.deep_view() == option_reports(
            trips.deep_view(),
            origin@,
            destination@,
            report.deep_view(),
            formation_outcomes(formations@),
            now,
        ),
{
    let ghost outcomes = formation_outcomes(formations@);
    let ghost all = option_reports(
        trips.deep_view(),
        origin@,
        destination@,
        report.deep_view(),
        outcomes,
        now,
    );
    let mut rest = formations;
    let mut backwards: Vec<TripOptionReport> = Vec::new();
    let n: usize = trips.len();
    let mut i: usize = n;
    while i > 0
        invariant
            n == trips@.len(),
            i <= n,
            rest@.len() == i,
            outcomes.len() == n,
            forall|k: int| 0 <= k < i ==> error::outcome(#[trigger] rest@[k]) == outcomes[k],
            all == option_reports(
                trips.deep_view(),
                origin@,
                destination@,
                report.deep_view(),
                outcomes,
                now,
            ),
            backwards@.len() == n - i,
            forall|k: int|
                0 <= k < n - i ==> (#[trigger] backwards@[k]).deep_view() == all[n - 1 - k],
        decreases i,
    {
        let ghost before = rest@;
        match rest.pop() {
            Some(formation) => {
                assert(error::outcome(before[i - 1]) == outcomes[i - 1]);
                assert(trips.deep_view()[i - 1] == trips@[i - 1].deep_view());
                backwards.push(
                    build_option_report(
                        &trips[i - 1],
                        origin,
                        destination,
                        report,
                        formation,
                        now,
                    ),
                );
            },
            None => {},
        }
        i -= 1;
    }
    let mut out: Vec<TripOptionReport> = Vec::new();
    while backwards.len() > 0
        invariant
            n == trips@.len(),
            all.len() == n,
            out@.len() + backwards@.len() == n,
            forall|k: int|
                0 <= k < backwards@.len() ==> (#[trigger] backwards@[k]).deep_view() == all[n - 1
                    - k],
            forall|k: int| 0 <= k < out@.len() ==> (#[trigger] out@[k]).deep_view() == all[k],
        decreases backwards@.len(),
    {
        let ghost before = backwards@;
        match backwards.pop() {
            Some(entry) => {
                assert(before[before.len() - 1].deep_view() == all[n - 1 - (before.len() - 1)]);
                out.push(entry);
            },
            None => {},
        }
    }
    assert(out.deep_view() =~= all);
    out
}

/// The reports on the trips of a search, given the formation of each.
pub fn build_option_reports(
    trips: &Vec<Trip>,
    origin: &str,
    destination: &str,
    report: Option<&TripPlanReport>,
    formations: Vec<Result<Option<String>, Error>>,
) -> (r: Vec<TripOptionReport>)
    requires
        formations@.len() == trips@.len(),
    ensures
        exists|now: FixedDateTime|
            time::zurich_reading(now) && r.deep_view() == #[trigger] option_reports(
                trips.deep_view(),
                origin@,
                destination@,
                report.deep_view(),
                formation_outcomes(formations@),
                now,
            ),
{
    let now = time::now_fixed();
    build_option_reports_at(trips, origin, destination, report, formations, now)
}

// ---------------------------------------------------------------------------
// The answer to a trip search
// ---------------------------------------------------------------------------

/// The caveat on a trip search; finding nothing is worth one.
pub open spec fn search_warning(count: nat, warning: Option<ToolWarningView>) -> Option<ToolWarningView> {
    if count == 0 {
        Some(
            ToolWarningView {
                message:
                    "No connections found for the selected parameters. Try a broader mode filter or different departure time."@,
                stale: false,
            },
        )
    } else {
        warning
    }
}

/// The trips that are handed out, as many as asked for at most.
pub fn limit_trips(trips: Vec<Trip>, max_options: usize) -> (r: Vec<Trip>)
    ensures
        r.deep_view() == station::first_of(trips.deep_view(), max_options as int),
{
    let ghost all = trips.deep_view();
    let mut limited = trips;
    limited.truncate(max_options);
    assert(limited.deep_view() =~= station::first_of(all, max_options as int));
    limited
}

/// The answer to a trip search.
pub fn answer_trips(
    trips: Vec<Trip>,
    warning: Option<ToolWarning>,
    report: Option<TripPlanReport>,
    option_reports: Vec<TripOptionReport>,
) -> (r: TripsResponse)
    ensures
        r.deep_view() == (TripsResponseView {
            trips: trips.deep_view(),
            warning: search_warning(trips@.len(), warning.deep_view()),
            report: report.deep_view(),
            option_reports: option_reports.deep_view(),
        }),
{
    let merged = if trips.len() == 0 {
        Some(
            ToolWarning {
                message:
                    "No connections found for the selected parameters. Try a broader mode filter or different departure time.".to_owned(),
                stale: false,
            },
        )
    } else {
        warning
    };
    TripsResponse { trips, warning: merged, report, option_reports }
}

// ---------------------------------------------------------------------------
// Laws
// ---------------------------------------------------------------------------

/// Disruptions that matter concern a line or a station of the trips, unless they stand in
/// for none; then there are at most eight.
pub proof fn law_relevant_disruptions(
    disruptions: Seq<DisruptionView>,
    trips: Seq<TripView>,
    origin: Seq<char>,
    destination: Seq<char>,
    fallback: bool,
    i: int,
)
    requires
        0 <= i < relevant(disruptions, trips, origin, destination, fallback).len(),
    ensures
        ({
            let kept = relevant(disruptions, trips, origin, destination, fallback);
            let lines = trips_lines(trips);
            let stations = station_tokens(trips, origin, destination);
            &&& disruptions.contains(kept[i])
            &&& concerns(kept[i], lines, stations) || (fallback && kept.len() <= 8)
        }),
{
    let kept = concerning(
        disruptions,
        trips_lines(trips),
        station_tokens(trips, origin, destination),
    );
    if fallback && kept.len() == 0 {
        assert(disruptions[i] == station::first_of(disruptions, 8)[i]);
    } else {
        lemma_concerning(
            disruptions,
            trips_lines(trips),
            station_tokens(trips, origin, destination),
            i,
        );
    }
}

proof fn lemma_concerning(
    disruptions: Seq<DisruptionView>,
    lines: Seq<Seq<char>>,
    stations: Seq<Seq<char>>,
    i: int,
)
    requires
        0 <= i < concerning(disruptions, lines, stations).len(),
    ensures
        disruptions.contains(concerning(disruptions, lines, stations)[i]),
        concerns(concerning(disruptions, lines, stations)[i], lines, stations),
    decreases disruptions.len(),
{
    let shorter = disruptions.drop_last();
    let before = concerning(shorter, lines, stations);
    if i < before.len() {
        lemma_concerning(shorter, lines, stations, i);
        let k = choose|k: int| 0 <= k < shorter.len() && shorter[k] == before[i];
        assert(disruptions[k] == before[i]);
    } else {
        assert(disruptions[disruptions.len() - 1] == concerning(disruptions, lines, stations)[i]);
    }
}

/// No more trips are irregular than there are.
pub proof fn law_irregular_trips_are_trips(trips: Seq<TripView>)
    ensures
        irregular_count(trips) <= trips.len(),
    decreases trips.len(),
{
    if trips.len() > 0 {
        law_irregular_trips_are_trips(trips.drop_last());
    }
}

/// A text is the line of some leg of the trips, in lower case.
pub open spec fn is_line_of(trips: Seq<TripView>, x: Seq<char>) -> bool {
    exists|i: int, j: int|
        #![trigger trips[i].legs[j]]
        0 <= i < trips.len() && 0 <= j < trips[i].legs.len() && (trips[i].legs[j].line matches Some(
            line,
        ) && x == text::lowered(line))
}

/// A text is the name of an end or a stop of a leg, in lower case.
pub open spec fn is_stop_of_leg(leg: TripLegView, x: Seq<char>) -> bool {
    x == text::lowered(leg.from.station) || x == text::lowered(leg.to.station) || exists|k: int|
        0 <= k < leg.stops.len() && x == text::lowered(#[trigger] leg.stops[k])
}

/// A text is the name of an end or a stop of some leg of the trips, in lower case.
pub open spec fn is_stop_of(trips: Seq<TripView>, x: Seq<char>) -> bool {
    exists|i: int, j: int|
        #![trigger trips[i].legs[j]]
        0 <= i < trips.len() && 0 <= j < trips[i].legs.len() && is_stop_of_leg(trips[i].legs[j], x)
}

proof fn lemma_added<T>(a: Seq<T>, b: Seq<T>, x: T)
    ensures
        (a + b).contains(x) <==> a.contains(x) || b.contains(x),
{
    if a.contains(x) {
        let k = choose|k: int| 0 <= k < a.len() && a[k] == x;
        assert((a + b)[k] == x);
    }
    if b.contains(x) {
        let k = choose|k: int| 0 <= k < b.len() && b[k] == x;
        assert((a + b)[a.len() + k] == x);
    }
    if (a + b).contains(x) {
        let k = choose|k: int| 0 <= k < (a + b).len() && (a + b)[k] == x;
        if k < a.len() {
            assert(a[k] == x);
        } else {
            assert(b[k - a.len()] == x);
        }
    }
}

proof fn lemma_lines(legs: Seq<TripLegView>, x: Seq<char>)
    ensures
        lines_of(legs).contains(x) <==> exists|j: int|
            #![trigger legs[j]]
            0 <= j < legs.len() && (legs[j].line matches Some(line) && x == text::lowered(line)),
    decreases legs.len(),
{
    if legs.len() > 0 {
        let fewer = legs.drop_last();
        lemma_lines(fewer, x);
        match legs.last().line {
            Some(line) => {
                assert(lines_of(legs) =~= lines_of(fewer) + seq![text::lowered(line)]);
                lemma_added(lines_of(fewer), seq![text::lowered(line)], x);
                assert(seq![text::lowered(line)].contains(x) <==> x == text::lowered(line)) by {
                    assert(seq![text::lowered(line)][0] == text::lowered(line));
                }
            },
            None => {},
        }
        assert forall|j: int| #![trigger legs[j]] 0 <= j < fewer.len() implies legs[j]
            == fewer[j] by {}
        if exists|j: int|
            #![trigger legs[j]]
            0 <= j < legs.len() && (legs[j].line matches Some(line) && x == text::lowered(line)) {
            let j = choose|j: int|
                #![trigger legs[j]]
                0 <= j < legs.len() && (legs[j].line matches Some(line) && x == text::lowered(
                    line,
                ));
            if j < fewer.len() {
                assert(fewer[j] == legs[j]);
            }
        }
        if lines_of(fewer).contains(x) {
            let j = choose|j: int|
                #![trigger fewer[j]]
                0 <= j < fewer.len() && (fewer[j].line matches Some(line) && x == text::lowered(
                    line,
                ));
            assert(legs[j] == fewer[j]);
        }
    }
}

proof fn lemma_trips_lines(trips: Seq<TripView>, x: Seq<char>)
    ensures
        trips_lines(trips).contains(x) <==> is_line_of(trips, x),
    decreases trips.len(),
{
    if trips.len() > 0 {
        let fewer = trips.drop_last();
        let last = trips.last();
        lemma_trips_lines(fewer, x);
        lemma_lines(last.legs, x);
        lemma_added(trips_lines(fewer), lines_of(last.legs), x);
        if is_line_of(trips, x) {
            let (i, j) = choose|i: int, j: int|
                #![trigger trips[i].legs[j]]
                0 <= i < trips.len() && 0 <= j < trips[i].legs.len() && (
                trips[i].legs[j].line matches Some(line) && x == text::lowered(line));
            if i < fewer.len() {
                assert(fewer[i].legs[j] == trips[i].legs[j]);
            } else {
                assert(last.legs[j] == trips[i].legs[j]);
            }
        }
        if is_line_of(fewer, x) {
            let (i, j) = choose|i: int, j: int|
                #![trigger fewer[i].legs[j]]
                0 <= i < fewer.len() && 0 <= j < fewer[i].legs.len() && (
                fewer[i].legs[j].line matches Some(line) && x == text::lowered(line));
            assert(fewer[i].legs[j] == trips[i].legs[j]);
        }
        if lines_of(last.legs).contains(x) {
            let j = choose|j: int|
                #![trigger last.legs[j]]
                0 <= j < last.legs.len() && (last.legs[j].line matches Some(line) && x
                    == text::lowered(line));
            assert(trips[trips.len() - 1].legs[j] == last.legs[j]);
        }
    }
}

proof fn lemma_leg_names(leg: TripLegView, x: Seq<char>)
    ensures
        leg_names(leg).contains(x) <==> is_stop_of_leg(leg, x),
{
    let ends = seq![text::lowered(leg.from.station), text::lowered(leg.to.station)];
    lemma_added(ends, all_lowered(leg.stops), x);
    assert(ends[0] == text::lowered(leg.from.station));
    assert(ends[1] == text::lowered(leg.to.station));
    assert(ends.contains(x) <==> x == ends[0] || x == ends[1]);
    if all_lowered(leg.stops).contains(x) {
        let k = choose|k: int| 0 <= k < leg.stops.len() && all_lowered(leg.stops)[k] == x;
        assert(x == text::lowered(leg.stops[k]));
    }
    if exists|k: int| 0 <= k < leg.stops.len() && x == text::lowered(#[trigger] leg.stops[k]) {
        let k = choose|k: int|
            0 <= k < leg.stops.len() && x == text::lowered(#[trigger] leg.stops[k]);
        assert(all_lowered(leg.stops)[k] == x);
    }
}

proof fn lemma_legs_names(legs: Seq<TripLegView>, x: Seq<char>)
    ensures
        legs_names(legs).contains(x) <==> exists|j: int|
            #![trigger legs[j]]
            0 <= j < legs.len() && is_stop_of_leg(legs[j], x),
    decreases legs.len(),
{
    if legs.len() > 0 {
        let fewer = legs.drop_last();
        lemma_legs_names(fewer, x);
        lemma_leg_names(legs.last(), x);
        lemma_added(legs_names(fewer), leg_names(legs.last()), x);
        if exists|j: int| #![trigger legs[j]] 0 <= j < legs.len() && is_stop_of_leg(legs[j], x) {
            let j = choose|j: int|
                #![trigger legs[j]]
                0 <= j < legs.len() && is_stop_of_leg(legs[j], x);
            if j < fewer.len() {
                assert(fewer[j] == legs[j]);
            }
        }
        if legs_names(fewer).contains(x) {
            let j = choose|j: int|
                #![trigger fewer[j]]
                0 <= j < fewer.len() && is_stop_of_leg(fewer[j], x);
            assert(legs[j] == fewer[j]);
        }
        assert(legs[legs.len() - 1] == legs.last());
    }
}

proof fn lemma_trips_names(trips: Seq<TripView>, x: Seq<char>)
    ensures
        trips_names(trips).contains(x) <==> is_stop_of(trips, x),
    decreases trips.len(),
{
    if trips.len() > 0 {
        let fewer = trips.drop_last();
        let last = trips.last();
        lemma_trips_names(fewer, x);
        lemma_legs_names(last.legs, x);
        lemma_added(trips_names(fewer), legs_names(last.legs), x);
        if is_stop_of(trips, x) {
            let (i, j) = choose|i: int, j: int|
                #![trigger trips[i].legs[j]]
                0 <= i < trips.len() && 0 <= j < trips[i].legs.len() && is_stop_of_leg(
                    trips[i].legs[j],
                    x,
                );
            if i < fewer.len() {
                assert(fewer[i].legs[j] == trips[i].legs[j]);
            } else {
                assert(last.legs[j] == trips[i].legs[j]);
            }
        }
        if is_stop_of(fewer, x) {
            let (i, j) = choose|i: int, j: int|
                #![trigger fewer[i].legs[j]]
                0 <= i < fewer.len() && 0 <= j < fewer[i].legs.len() && is_stop_of_leg(
                    fewer[i].legs[j],
                    x,
                );
            assert(fewer[i].legs[j] == trips[i].legs[j]);
        }
        if legs_names(last.legs).contains(x) {
            let j = choose|j: int|
                #![trigger last.legs[j]]
                0 <= j < last.legs.len() && is_stop_of_leg(last.legs[j], x);
            assert(trips[trips.len() - 1].legs[j] == last.legs[j]);
        }
    }
}

/// The lines to look for are those of the legs of the trips, in lower case.
pub proof fn law_lines_are_those_of_the_legs(trips: Seq<TripView>, x: Seq<char>)
    ensures
        trips_lines(trips).contains(x) <==> is_line_of(trips, x),
{
    lemma_trips_lines(trips, x);
}

/// The stations to look for are the origin, the destination and the ends and stops of the
/// legs, in lower case.
pub proof fn law_stations_are_those_of_the_trips(
    trips: Seq<TripView>,
    origin: Seq<char>,
    destination: Seq<char>,
    x: Seq<char>,
)
    ensures
        station_tokens(trips, origin, destination).contains(x) <==> x == text::lowered(origin) || x
            == text::lowered(destination) || is_stop_of(trips, x),
{
    let ends = seq![text::lowered(origin), text::lowered(destination)];
    let all = ends + trips_names(trips);
    suggest::law_every_name_is_left(order::sorted::<String>(all), x);
    order::law_sorted_holds_the_items::<String>(all, x);
    lemma_added(ends, trips_names(trips), x);
    assert(ends[0] == text::lowered(origin));
    assert(ends[1] == text::lowered(destination));
    assert(ends.contains(x) <==> x == ends[0] || x == ends[1]);
    lemma_trips_names(trips, x);
}

/// A disruption matters if one of its lines holds the line of a leg, or its text holds the
/// name of a station of the trips, whatever the case of the letters; others do not matter.
pub proof fn law_disruptions_that_matter(
    disruptions: Seq<DisruptionView>,
    d: DisruptionView,
    trips: Seq<TripView>,
    origin: Seq<char>,
    destination: Seq<char>,
)
    ensures
        ({
            let on_line = exists|k: int, x: Seq<char>|
                #![trigger text::contains(text::lowered(d.affected_lines[k]), x)]
                0 <= k < d.affected_lines.len() && x.len() > 0 && is_line_of(trips, x)
                    && text::contains(text::lowered(d.affected_lines[k]), x);
            let at_station = d.description is Some && exists|x: Seq<char>|
                #![trigger text::contains(text::lowered(d.description->0), x)]
                x.len() > 0 && (x == text::lowered(origin) || x == text::lowered(destination)
                    || is_stop_of(trips, x)) && text::contains(
                    text::lowered(d.description->0),
                    x,
                );
            relevant(disruptions.push(d), trips, origin, destination, false) == if on_line
                || at_station {
                relevant(disruptions, trips, origin, destination, false).push(d)
            } else {
                relevant(disruptions, trips, origin, destination, false)
            }
        }),
        relevant(Seq::empty(), trips, origin, destination, false).len() == 0,
{
    let lines = trips_lines(trips);
    let stations = station_tokens(trips, origin, destination);
    let more = disruptions.push(d);
    assert(more.drop_last() =~= disruptions);
    let on_line = exists|k: int, x: Seq<char>|
        #![trigger text::contains(text::lowered(d.affected_lines[k]), x)]
        0 <= k < d.affected_lines.len() && x.len() > 0 && is_line_of(trips, x) && text::contains(
            text::lowered(d.affected_lines[k]),
            x,
        );
    let at_station = d.description is Some && exists|x: Seq<char>|
        #![trigger text::contains(text::lowered(d.description->0), x)]
        x.len() > 0 && (x == text::lowered(origin) || x == text::lowered(destination)
            || is_stop_of(trips, x)) && text::contains(text::lowered(d.description->0), x);
    let told = match d.description {
        Some(t) => t,
        None => Seq::empty(),
    };
    if on_line {
        let (k, x) = choose|k: int, x: Seq<char>|
            #![trigger text::contains(text::lowered(d.affected_lines[k]), x)]
            0 <= k < d.affected_lines.len() && x.len() > 0 && is_line_of(trips, x)
                && text::contains(text::lowered(d.affected_lines[k]), x);
        lemma_trips_lines(trips, x);
        let j = choose|j: int| 0 <= j < lines.len() && lines[j] == x;
        assert(mentions(text::lowered(d.affected_lines[k]), lines));
    }
    if at_station {
        let x = choose|x: Seq<char>|
            #![trigger text::contains(text::lowered(d.description->0), x)]
            x.len() > 0 && (x == text::lowered(origin) || x == text::lowered(destination)
                || is_stop_of(trips, x)) && text::contains(text::lowered(d.description->0), x);
        law_stations_are_those_of_the_trips(trips, origin, destination, x);
        let j = choose|j: int| 0 <= j < stations.len() && stations[j] == x;
        assert(mentions(text::lowered(told), stations));
    }
    if exists|i: int|
        0 <= i < d.affected_lines.len() && mentions(
            text::lowered(#[trigger] d.affected_lines[i]),
            lines,
        ) {
        let i = choose|i: int|
            0 <= i < d.affected_lines.len() && mentions(
                text::lowered(#[trigger] d.affected_lines[i]),
                lines,
            );
        let v = text::lowered(d.affected_lines[i]);
        let j = choose|j: int|
            0 <= j < lines.len() && (#[trigger] lines[j]).len() > 0 && text::contains(v, lines[j]);
        assert(lines.contains(lines[j]));
        lemma_trips_lines(trips, lines[j]);
        assert(text::contains(text::lowered(d.affected_lines[i]), lines[j]));
        assert(on_line);
    }
    if mentions(text::lowered(told), stations) {
        let v = text::lowered(told);
        let j = choose|j: int|
            0 <= j < stations.len() && (#[trigger] stations[j]).len() > 0 && text::contains(
                v,
                stations[j],
            );
        assert(stations.contains(stations[j]));
        law_stations_are_those_of_the_trips(trips, origin, destination, stations[j]);
        if d.description is None {
            assert(v.len() == 0);
        }
        assert(at_station);
    }
}

/// Where nothing matters, the first eight disruptions stand in, if they may; where something
/// does, nothing else is told.
pub proof fn law_first_disruptions_stand_in(
    disruptions: Seq<DisruptionView>,
    trips: Seq<TripView>,
    origin: Seq<char>,
    destination: Seq<char>,
)
    ensures
        ({
            let kept = relevant(disruptions, trips, origin, destination, false);
            let told = relevant(disruptions, trips, origin, destination, true);
            &&& kept.len() > 0 ==> told == kept
            &&& kept.len() == 0 && disruptions.len() <= 8 ==> told == disruptions
            &&& kept.len() == 0 && disruptions.len() > 8 ==> told == disruptions.take(8)
        }),
{
    if disruptions.len() <= 8 {
        assert(station::first_of(disruptions, 8) =~= disruptions);
    }
}

/// A trip is irregular if any leg of it is: all legs on time make it regular.
pub proof fn law_irregular_trips_are_counted(trips: Seq<TripView>, t: TripView)
    ensures
        irregular_count(Seq::empty()) == 0,
        (forall|i: int|
            0 <= i < t.legs.len() ==> (#[trigger] t.legs[i]).status == TripStatus::OnTime)
            ==> irregular_count(trips.push(t)) == irregular_count(trips),
        (exists|i: int|
            0 <= i < t.legs.len() && ((#[trigger] t.legs[i]).status == TripStatus::Delayed
                || t.legs[i].status == TripStatus::Cancelled)) ==> irregular_count(trips.push(t))
            == irregular_count(trips) + 1,
{
    assert(trips.push(t).drop_last() =~= trips);
}

/// Messages of a refused token are those with its codes or words in them, in any case of
/// letters; to them alone the advice is added.
pub proof fn law_refused_tokens_are_told(message: Seq<char>, endpoint: Seq<char>)
    ensures
        ({
            let m = text::lowered(message);
            let base = "live event feed unavailable ("@ + message + ")"@;
            let refused = text::contains(m, "401"@) || text::contains(m, "403"@) || text::contains(
                m,
                "unauthorized"@,
            ) || text::contains(m, "forbidden"@);
            let told = live_events_message(message, endpoint);
            &&& !refused ==> told == base
            &&& refused ==> told.len() > base.len() && text::starts(
                told,
                base + ". GTFS auth diagnostics: endpoint="@ + endpoint,
            )
        }),
{
    reveal_strlit(". GTFS auth diagnostics: endpoint=");
    let base = "live event feed unavailable ("@ + message + ")"@;
    let told = live_events_message(message, endpoint);
    if auth_failure(message) {
        let begun = base + ". GTFS auth diagnostics: endpoint="@ + endpoint;
        assert(told.take(begun.len() as int) =~= begun);
    }
}

/// A report tells the ends, the number of trips and of irregular ones, and the disruptions
/// that matter, with what was said of them.
pub proof fn law_report_tells_of_the_search(
    origin: Seq<char>,
    destination: Seq<char>,
    trips: Seq<TripView>,
    disruptions: Seq<DisruptionView>,
    warning: Option<ToolWarningView>,
    endpoint: Seq<char>,
    now: FixedDateTime,
)
    requires
        trips.len() <= usize::MAX,
    ensures
        ({
            let r = trip_report(origin, destination, trips, Ok((disruptions, warning)), endpoint, now);
            &&& r.origin == origin && r.destination == destination && r.generated_at == now
            &&& r.total_options == trips.len()
            &&& r.delayed_options == irregular_count(trips)
            &&& r.live_events == relevant(disruptions, trips, origin, destination, true)
            &&& r.live_events_warning == warning
            &&& warning is Some ==> r.live_events_status == "unavailable: "@ + warning->0.message
            &&& warning is None && r.live_events.len() == 0 ==> r.live_events_status == seq![
                'n',
                'o',
                'n',
                'e',
            ]
            &&& warning is None && r.live_events.len() > 0 ==> r.live_events_status == seq![
                'a',
                'v',
                'a',
                'i',
                'l',
                'a',
                'b',
                'l',
                'e',
            ]
        }),
{
    law_irregular_trips_are_trips(trips);
    reveal_strlit("none");
    reveal_strlit("available");
    assert("none"@ =~= seq!['n', 'o', 'n', 'e']);
    assert("available"@ =~= seq!['a', 'v', 'a', 'i', 'l', 'a', 'b', 'l', 'e']);
}

/// A report without disruptions for a failure tells the failure, and that it is not stale.
pub proof fn law_report_tells_of_a_failure(
    origin: Seq<char>,
    destination: Seq<char>,
    trips: Seq<TripView>,
    message: Seq<char>,
    endpoint: Seq<char>,
    now: FixedDateTime,
)
    requires
        trips.len() <= usize::MAX,
    ensures
        ({
            let r = trip_report(origin, destination, trips, Err(message), endpoint, now);
            &&& r.total_options == trips.len()
            &&& r.delayed_options == irregular_count(trips)
            &&& r.live_events.len() == 0
            &&& r.live_events_warning is Some
            &&& !r.live_events_warning->0.stale
            &&& r.live_events_warning->0.message == live_events_message(message, endpoint)
            &&& r.live_events_status == "unavailable: "@ + live_events_message(message, endpoint)
        }),
{
    law_irregular_trips_are_trips(trips);
}

/// A trip is boarded where its first leg is, and left where its last leg is: at the platform
/// and place told there, or else those of the first and of the last call.
pub proof fn law_option_tells_of_both_ends(
    t: TripView,
    origin: Seq<char>,
    destination: Seq<char>,
    report: Option<TripPlanReportView>,
    formation: Result<Option<Seq<char>>, Seq<char>>,
    now: FixedDateTime,
)
    requires
        t.legs.len() > 0,
    ensures
        ({
            let r = option_report(t, origin, destination, report, formation, now);
            let first = t.legs[0];
            let last = t.legs[t.legs.len() - 1];
            &&& r.trip_id == t.id
            &&& r.time.departure == first.departure.expected
            &&& r.time.arrival == last.arrival.expected
            &&& r.final_destination == last.to.station
            &&& first.from.platform is Some ==> r.platform.departure == first.from.platform
            &&& first.from.platform is None && first.stop_calls.len() > 0 ==> r.platform.departure
                == first.stop_calls[0].platform
            &&& first.from.platform is None && first.stop_calls.len() == 0
                ==> r.platform.departure is None
            &&& last.to.platform is Some ==> r.platform.arrival == last.to.platform
            &&& last.to.platform is None && last.stop_calls.len() > 0 ==> r.platform.arrival
                == last.stop_calls[last.stop_calls.len() - 1].platform
            &&& last.to.platform is None && last.stop_calls.len() == 0
                ==> r.platform.arrival is None
            &&& first.from.coordinates is Some ==> r.origin_coordinates == first.from.coordinates
            &&& first.from.coordinates is None && first.stop_calls.len() > 0
                ==> r.origin_coordinates == first.stop_calls[0].coordinates
            &&& last.to.coordinates is Some ==> r.final_destination_coordinates
                == last.to.coordinates
            &&& last.to.coordinates is None && last.stop_calls.len() > 0
                ==> r.final_destination_coordinates == last.stop_calls[last.stop_calls.len()
                - 1].coordinates
        }),
{
}

/// The duration of an option is the whole minutes from departure to arrival as now expected,
/// and never negative.
pub proof fn law_option_lasts_until_it_arrives(legs: Seq<TripLegView>, now: FixedDateTime)
    requires
        legs.len() > 0,
    ensures
        ({
            let d = times_of(legs, now).duration_minutes;
            let leaves = legs[0].departure.expected;
            let arrives = legs[legs.len() - 1].arrival.expected;
            &&& time::minutes_apart(arrives, leaves) < 0 ==> d == 0
            &&& 0 <= time::minutes_apart(arrives, leaves) <= i64::MAX ==> d == time::minutes_apart(
                arrives,
                leaves,
            )
        }),
        times_of(Seq::empty(), now).departure == now,
        times_of(Seq::empty(), now).arrival == now,
{
}

/// The occupancy of a trip is that of the first leg that tells one.
pub proof fn law_first_occupancy_counts(legs: Seq<TripLegView>, k: int)
    requires
        0 <= k <= legs.len(),
        k < legs.len() ==> legs[k].occupancy is Some,
        forall|j: int| 0 <= j < k ==> (#[trigger] legs[j]).occupancy is None,
    ensures
        k < legs.len() ==> first_occupancy(legs) == legs[k].occupancy,
        k == legs.len() ==> first_occupancy(legs) is None,
    decreases legs.len(),
{
    if k > 0 {
        let rest = legs.drop_first();
        assert forall|j: int| 0 <= j < k - 1 implies (#[trigger] rest[j]).occupancy is None by {
            assert(rest[j] == legs[j + 1]);
        }
        assert(legs[0].occupancy is None);
        law_first_occupancy_counts(rest, k - 1);
    }
}

/// The disruptions of one trip are those of the report that matter for that trip, unless
/// there is a caveat on them.
pub proof fn law_option_tells_its_disruptions(
    t: TripView,
    origin: Seq<char>,
    destination: Seq<char>,
    r: TripPlanReportView,
)
    ensures
        r.live_events_warning is None ==> option_events(t, origin, destination, Some(r))
            == relevant(r.live_events, seq![t], origin, destination, false),
        r.live_events_warning is Some ==> option_events(t, origin, destination, Some(r)).len() == 0,
        option_events(t, origin, destination, None).len() == 0,
        report_failure(None) is None,
        r.live_events_warning is None ==> report_failure(Some(r)) is None,
        r.live_events_warning is Some ==> report_failure(Some(r)) == Some(
            r.live_events_warning->0.message,
        ),
{
    if r.live_events.len() == 0 {
        let kept = concerning(
            r.live_events,
            trips_lines(seq![t]),
            station_tokens(seq![t], origin, destination),
        );
        assert(kept =~= Seq::empty());
    }
}

/// An option tells the notation of its train, with its display, if it is known, and else
/// that there is none or why it is not known.
pub proof fn law_option_tells_its_train(
    t: TripView,
    origin: Seq<char>,
    destination: Seq<char>,
    report: Option<TripPlanReportView>,
    notation: Seq<char>,
    message: Seq<char>,
    now: FixedDateTime,
)
    ensures
        ({
            let known = option_report(t, origin, destination, report, Ok(Some(notation)), now);
            let none = option_report(t, origin, destination, report, Ok(None), now);
            let failed = option_report(t, origin, destination, report, Err(message), now);
            &&& known.wagon_formation == Some(notation)
            &&& known.wagon_formation_status == seq!['a', 'v', 'a', 'i', 'l', 'a', 'b', 'l', 'e']
            &&& none.wagon_formation is None && failed.wagon_formation is None
            &&& none.wagon_formation_status == seq!['n', 'o', 'n', 'e']
            &&& failed.wagon_formation_status == "unavailable: "@ + message
            &&& render::rendered(notation) is Some ==> {
                let f = render::rendered(notation)->0;
                &&& known.wagon_formation_readable == Some(f.readable)
                &&& known.wagon_formation_diagram == Some(f.diagram)
                &&& known.wagon_formation_human_display == Some(f.human_display)
                &&& known.wagon_formation_boarding_hint == Some(f.boarding_hint)
                &&& known.wagon_formation_legend == Some(f.legend)
                &&& known.wagon_formation_parsed == Some(f.parsed)
                &&& known.sector_to_coach_range == Some(f.sector_to_coach_range)
                &&& known.accessible_coaches == Some(f.accessible_coaches)
                &&& known.first_class_coaches == Some(f.first_class_coaches)
                &&& known.second_class_coaches == Some(f.second_class_coaches)
            }
            &&& render::rendered(notation) is None ==> known.wagon_formation_diagram is None
            &&& none.wagon_formation_diagram is None && failed.wagon_formation_diagram is None
        }),
{
    reveal_strlit("none");
    reveal_strlit("available");
    assert("none"@ =~= seq!['n', 'o', 'n', 'e']);
    assert("available"@ =~= seq!['a', 'v', 'a', 'i', 'l', 'a', 'b', 'l', 'e']);
}

/// Finding no trip is worth a caveat, which is not stale; with trips, the caveat is that of
/// the search.
pub proof fn law_finding_nothing_is_told(count: nat, warning: Option<ToolWarningView>)
    ensures
        count > 0 ==> search_warning(count, warning) == warning,
        count == 0 ==> search_warning(count, warning) is Some && !search_warning(
            count,
            warning,
        )->0.stale,
{
}

} // verus!
