//! The answer to a trip search, from what was found.

use vstd::prelude::*;

use crate::api::ojp::places::PlaceIndex;
use crate::api::ojp::station;
use crate::error;
use crate::error::Error;
use crate::models::{
    Disruption, DisruptionView, GeoPointView, ToolWarning, ToolWarningView, Trip, TripView,
    TripsResponse, TripsResponseView,
};
use crate::service::coordinates;
use crate::service::report;
use crate::service::station::{ResolvedEndpoint, ResolvedEndpointView};
use crate::time;
use crate::time::FixedDateTime;

verus! {

/// The answer to a trip search, with the ends that it was made for.
#[derive(Debug)]
pub struct TripSearchAnswer {
    /// What was found.
    pub response: TripsResponse,
    /// Where the trips begin.
    pub resolved_from: ResolvedEndpoint,
    /// Where the trips end.
    pub resolved_to: ResolvedEndpoint,
}

/// The view of a [`TripSearchAnswer`].
#[verifier::ext_equal]
pub struct TripSearchAnswerView {
    pub response: TripsResponseView,
    pub resolved_from: ResolvedEndpointView,
    pub resolved_to: ResolvedEndpointView,
}

impl DeepView for TripSearchAnswer {
    type V = TripSearchAnswerView;

    open spec fn deep_view(&self) -> TripSearchAnswerView {
        TripSearchAnswerView {
            response: self.response.deep_view(),
            resolved_from: self.resolved_from.deep_view(),
            resolved_to: self.resolved_to.deep_view(),
        }
    }
}

/// The trips that are handed out: the first ones, with the places of their stations.
pub open spec fn handed_out(
    trips: Seq<TripView>,
    max_options: int,
    places: Map<Seq<char>, GeoPointView>,
) -> Seq<TripView> {
    let first = station::first_of(trips, max_options);
    Seq::new(first.len(), |i: int| coordinates::placed_trip(first[i], places))
}

/// The answer to a trip search, with a report made at one time and reports on the trips
/// made at another.
pub open spec fn search_answer(
    origin: ResolvedEndpointView,
    destination: ResolvedEndpointView,
    found: (Seq<TripView>, Option<ToolWarningView>),
    max_options: int,
    places: Map<Seq<char>, GeoPointView>,
    events: Result<(Seq<DisruptionView>, Option<ToolWarningView>), Seq<char>>,
    endpoint: Seq<char>,
    formations: Seq<Result<Option<Seq<char>>, Seq<char>>>,
    times: (FixedDateTime, FixedDateTime),
) -> TripSearchAnswerView {
    let trips = handed_out(found.0, max_options, places);
    let summary = report::trip_report(
        origin.name,
        destination.name,
        trips,
        events,
        endpoint,
        times.0,
    );
    TripSearchAnswerView {
        response: TripsResponseView {
            trips,
            warning: report::search_warning(trips.len(), found.1),
            report: Some(summary),
            option_reports: report::option_reports(
                trips,
                origin.name,
                destination.name,
                Some(summary),
                formations,
                times.1,
            ),
        },
        resolved_from: origin,
        resolved_to: destination,
    }
}

/// The answer to a trip search at given times: from the planner's trips and caveat, the
/// places of stations, the disruptions and the formation of each trip that is handed out.
pub fn answer_trip_search_at(
    origin: ResolvedEndpoint,
    destination: ResolvedEndpoint,
    found: (Vec<Trip>, Option<ToolWarning>),
    max_options: usize,
    places: &PlaceIndex,
    events: Result<(Vec<Disruption>, Option<ToolWarning>), Error>,
    endpoint: &str,
    formations: Vec<Result<Option<String>, Error>>,
    times: (FixedDateTime, FixedDateTime),
) -> (r: TripSearchAnswer)
    requires
        formations@.len() == station::first_of(found.0@, max_options as int).len(),
    ensures
        r.deep_view() == search_answer(
            origin.deep_view(),
            destination.deep_view(),
            found.deep_view(),
            max_options as int,
            places.deep_view(),
            error::outcome(events),
            endpoint@,
            report::formation_outcomes(formations@),
            times,
        ),
{
    let (all, warning) = found;
    let mut trips = report::limit_trips(all, max_options);
    let ghost first = trips.deep_view();
    coordinates::enrich_trip_coordinates(&mut trips, places);
    assert(trips.deep_view() =~= handed_out(
        all.deep_view(),
        max_options as int,
        places.deep_view(),
    ));
    assert(trips.deep_view().len() == first.len());
    let summary = report::build_trip_report_at(
        origin.name.as_str(),
        destination.name.as_str(),
        &trips,
        events,
        endpoint,
        times.0,
    );
    let option_reports = report::build_option_reports_at(
        &trips,
        origin.name.as_str(),
        destination.name.as_str(),
        Some(&summary),
        formations,
        times.1,
    );
    TripSearchAnswer {
        response: report::answer_trips(trips, warning, Some(summary), option_reports),
        resolved_from: origin,
        resolved_to: destination,
    }
}

/// The answer to a trip search, made now.
pub fn answer_trip_search(
    origin: ResolvedEndpoint,
    destination: ResolvedEndpoint,
    found: (Vec<Trip>, Option<ToolWarning>),
    max_options: usize,
    places: &PlaceIndex,
    events: Result<(Vec<Disruption>, Option<ToolWarning>), Error>,
    endpoint: &str,
    formations: Vec<Result<Option<String>, Error>>,
) -> (r: TripSearchAnswer)
    requires
        formations@.len() == station::first_of(found.0@, max_options as int).len(),
    ensures
        exists|times: (FixedDateTime, FixedDateTime)|
            time::zurich_reading(times.0) && time::zurich_reading(times.1) && r.deep_view()
                == #[trigger] search_answer(
                origin.deep_view(),
                destination.deep_view(),
                found.deep_view(),
                max_options as int,
                places.deep_view(),
                error::outcome(events),
                endpoint@,
                report::formation_outcomes(formations@),
                times,
            ),
{
    let times = (time::now_fixed(), time::now_fixed());
    answer_trip_search_at(
        origin,
        destination,
        found,
        max_options,
        places,
        events,
        endpoint,
        formations,
        times,
    )
}

/// The answer to a trip search holds the planner's first trips in its order, no more than
/// asked for, a report on each of them, and the two ends. Where there is no trip, it says
/// so in place of the planner's caveat.
pub proof fn law_answer_holds_the_first_trips(
    origin: ResolvedEndpointView,
    destination: ResolvedEndpointView,
    found: (Seq<TripView>, Option<ToolWarningView>),
    max_options: nat,
    places: Map<Seq<char>, GeoPointView>,
    events: Result<(Seq<DisruptionView>, Option<ToolWarningView>), Seq<char>>,
    endpoint: Seq<char>,
    formations: Seq<Result<Option<Seq<char>>, Seq<char>>>,
    times: (FixedDateTime, FixedDateTime),
)
    ensures
        ({
            let answer = search_answer(
                origin,
                destination,
                found,
                max_options as int,
                places,
                events,
                endpoint,
                formations,
                times,
            );
            let trips = answer.response.trips;
            &&& trips.len() == if found.0.len() <= max_options {
                found.0.len()
            } else {
                max_options
            }
            &&& forall|i: int|
                0 <= i < trips.len() ==> #[trigger] trips[i] == coordinates::placed_trip(
                    found.0[i],
                    places,
                )
            &&& answer.response.option_reports.len() == trips.len()
            &&& trips.len() > 0 ==> answer.response.warning == found.1
            &&& trips.len() == 0 ==> (answer.response.warning matches Some(w) && !w.stale
                && w.message
                == "No connections found for the selected parameters. Try a broader mode filter or different departure time."@)
            &&& answer.resolved_from == origin
            &&& answer.resolved_to == destination
        }),
{
}

/// The report of an answer is on the trips that are handed out, between the ends by their
/// names and at the first time; the reports on the trips are at the second, each with its
/// own trip and formation and with that report.
pub proof fn law_answer_reports_on_its_trips(
    origin: ResolvedEndpointView,
    destination: ResolvedEndpointView,
    found: (Seq<TripView>, Option<ToolWarningView>),
    max_options: nat,
    places: Map<Seq<char>, GeoPointView>,
    events: Result<(Seq<DisruptionView>, Option<ToolWarningView>), Seq<char>>,
    endpoint: Seq<char>,
    formations: Seq<Result<Option<Seq<char>>, Seq<char>>>,
    first: FixedDateTime,
    second: FixedDateTime,
    i: int,
)
    ensures
        ({
            let answer = search_answer(
                origin,
                destination,
                found,
                max_options as int,
                places,
                events,
                endpoint,
                formations,
                (first, second),
            ).response;
            let r = answer.report;
            let (found_trips, _) = found;
            &&& r is Some
            &&& r->0.generated_at == first
            &&& r->0.origin == origin.name
            &&& r->0.destination == destination.name
            &&& answer.trips.len() <= usize::MAX ==> r->0.total_options == answer.trips.len()
            &&& events is Ok ==> ({
                let (disruptions, warning) = events->Ok_0;
                &&& r->0.live_events_warning == warning
                &&& r->0.live_events == report::relevant(
                    disruptions,
                    answer.trips,
                    origin.name,
                    destination.name,
                    true,
                )
            })
            &&& 0 <= i < answer.trips.len() ==> answer.option_reports[i] == report::option_report(
                answer.trips[i],
                origin.name,
                destination.name,
                r,
                formations[i],
                second,
            )
            &&& 0 <= i < answer.trips.len() ==> answer.option_reports[i].trip_id == found_trips[i].id
        }),
{
}

} // verus!
