//! The data that the tools of the server hand out.

use vstd::prelude::*;

use crate::coordinate::Coordinate;
use crate::duplicate::Duplicate;
use crate::text;
use crate::time::FixedDateTime;

verus! {

impl Duplicate for FixedDateTime {
    fn duplicate(&self) -> (r: Self) {
        *self
    }
}

/// What a search result denotes.
#[derive(Debug, Clone, Copy, PartialEq, Eq, Structural)]
pub enum StationType {
    /// A stop or station.
    Stop,
    /// A postal address.
    Address,
    /// A point of interest or a place.
    Poi,
    /// Something else.
    Unknown,
}

impl DeepView for StationType {
    type V = StationType;

    open spec fn deep_view(&self) -> StationType {
        *self
    }
}

impl Duplicate for StationType {
    fn duplicate(&self) -> (r: Self) {
        *self
    }
}

/// A station, stop or place.
#[derive(Debug)]
pub struct Station {
    /// Reference by which the journey planner knows it.
    pub id: String,
    /// Name for riders.
    pub name: String,
    /// Degrees north.
    pub latitude: Option<Coordinate>,
    /// Degrees east.
    pub longitude: Option<Coordinate>,
    /// What it denotes.
    pub station_type: StationType,
}

/// The view of a [`Station`].
#[verifier::ext_equal]
pub struct StationView {
    pub id: Seq<char>,
    pub name: Seq<char>,
    pub latitude: Option<Seq<char>>,
    pub longitude: Option<Seq<char>>,
    pub station_type: StationType,
}

impl DeepView for Station {
    type V = StationView;

    open spec fn deep_view(&self) -> StationView {
        StationView {
            id: self.id.deep_view(),
            name: self.name.deep_view(),
            latitude: self.latitude.deep_view(),
            longitude: self.longitude.deep_view(),
            station_type: self.station_type.deep_view(),
        }
    }
}

impl Duplicate for Station {
    fn duplicate(&self) -> (r: Self) {
        Station {
            id: self.id.duplicate(),
            name: self.name.duplicate(),
            latitude: self.latitude.duplicate(),
            longitude: self.longitude.duplicate(),
            station_type: self.station_type,
        }
    }
}

impl Clone for Station {
    fn clone(&self) -> (r: Self)
        ensures
            r.deep_view() == self.deep_view(),
    {
        self.duplicate()
    }
}

/// A mode of transport, or all of them.
#[derive(Debug, Clone, Copy, PartialEq, Eq, Structural)]
pub enum TransportMode {
    /// Trains.
    Rail,
    /// Buses.
    Bus,
    /// Trams.
    Tram,
    /// Boats.
    Ship,
    /// Cableways and gondolas.
    Cableway,
    /// Funiculars.
    Funicular,
    /// No restriction.
    All,
}

impl DeepView for TransportMode {
    type V = TransportMode;

    open spec fn deep_view(&self) -> TransportMode {
        *self
    }
}

impl Duplicate for TransportMode {
    fn duplicate(&self) -> (r: Self) {
        *self
    }
}

/// How a leg or a departure stands against the timetable.
#[derive(Debug, Clone, Copy, PartialEq, Eq, Structural)]
pub enum TripStatus {
    /// As planned.
    OnTime,
    /// Later than planned.
    Delayed,
    /// Does not run.
    Cancelled,
    /// Runs another way.
    Redirected,
    /// Leaves from or arrives at another platform.
    PlatformChanged,
}

impl DeepView for TripStatus {
    type V = TripStatus;

    open spec fn deep_view(&self) -> TripStatus {
        *self
    }
}

impl Duplicate for TripStatus {
    fn duplicate(&self) -> (r: Self) {
        *self
    }
}

/// A place on the map.
#[derive(Debug)]
pub struct GeoPoint {
    /// Degrees north.
    pub latitude: Coordinate,
    /// Degrees east.
    pub longitude: Coordinate,
}

/// The view of a [`GeoPoint`].
#[verifier::ext_equal]
pub struct GeoPointView {
    pub latitude: Seq<char>,
    pub longitude: Seq<char>,
}

impl DeepView for GeoPoint {
    type V = GeoPointView;

    open spec fn deep_view(&self) -> GeoPointView {
        GeoPointView {
            latitude: self.latitude.deep_view(),
            longitude: self.longitude.deep_view(),
        }
    }
}

impl Duplicate for GeoPoint {
    fn duplicate(&self) -> (r: Self) {
        GeoPoint {
            latitude: self.latitude.duplicate(),
            longitude: self.longitude.duplicate(),
        }
    }
}

impl Clone for GeoPoint {
    fn clone(&self) -> (r: Self)
        ensures
            r.deep_view() == self.deep_view(),
    {
        self.duplicate()
    }
}

/// A planned and an expected time.
#[derive(Debug, Clone, Copy)]
pub struct TimeInfo {
    /// Time in the timetable.
    pub scheduled: FixedDateTime,
    /// Time now expected.
    pub expected: FixedDateTime,
    /// Whole minutes between the two.
    pub delay_minutes: i32,
}

impl DeepView for TimeInfo {
    type V = TimeInfo;

    open spec fn deep_view(&self) -> TimeInfo {
        *self
    }
}

impl Duplicate for TimeInfo {
    fn duplicate(&self) -> (r: Self) {
        *self
    }
}

/// A planned and an expected time at a stop.
#[derive(Debug, Clone, Copy)]
pub struct StopCallTime {
    /// Time in the timetable.
    pub scheduled: FixedDateTime,
    /// Time now expected.
    pub expected: FixedDateTime,
    /// Whole minutes between the two.
    pub delay_minutes: i32,
}

impl DeepView for StopCallTime {
    type V = StopCallTime;

    open spec fn deep_view(&self) -> StopCallTime {
        *self
    }
}

impl Duplicate for StopCallTime {
    fn duplicate(&self) -> (r: Self) {
        *self
    }
}

/// An end of a leg.
#[derive(Debug)]
pub struct LegStop {
    /// Name of the station.
    pub station: String,
    /// Platform, if known.
    pub platform: Option<String>,
    /// Where it is, if known.
    pub coordinates: Option<GeoPoint>,
}

/// The view of a [`LegStop`].
#[verifier::ext_equal]
pub struct LegStopView {
    pub station: Seq<char>,
    pub platform: Option<Seq<char>>,
    pub coordinates: Option<GeoPointView>,
}

impl DeepView for LegStop {
    type V = LegStopView;

    open spec fn deep_view(&self) -> LegStopView {
        LegStopView {
            station: self.station.deep_view(),
            platform: self.platform.deep_view(),
            coordinates: self.coordinates.deep_view(),
        }
    }
}

impl Duplicate for LegStop {
    fn duplicate(&self) -> (r: Self) {
        LegStop {
            station: self.station.duplicate(),
            platform: self.platform.duplicate(),
            coordinates: self.coordinates.duplicate(),
        }
    }
}

impl Clone for LegStop {
    fn clone(&self) -> (r: Self)
        ensures
            r.deep_view() == self.deep_view(),
    {
        self.duplicate()
    }
}

/// A call at a stop on the way.
#[derive(Debug)]
pub struct TripLegStopCall {
    /// Name of the stop.
    pub station: String,
    /// Platform, if known.
    pub platform: Option<String>,
    /// Platform in the timetable.
    pub scheduled_platform: Option<String>,
    /// Platform now expected.
    pub expected_platform: Option<String>,
    /// Where it is, if known.
    pub coordinates: Option<GeoPoint>,
    /// Arrival, if there is one.
    pub arrival: Option<StopCallTime>,
    /// Departure, if there is one.
    pub departure: Option<StopCallTime>,
}

/// The view of a [`TripLegStopCall`].
#[verifier::ext_equal]
pub struct TripLegStopCallView {
    pub station: Seq<char>,
    pub platform: Option<Seq<char>>,
    pub scheduled_platform: Option<Seq<char>>,
    pub expected_platform: Option<Seq<char>>,
    pub coordinates: Option<GeoPointView>,
    pub arrival: Option<StopCallTime>,
    pub departure: Option<StopCallTime>,
}

impl DeepView for TripLegStopCall {
    type V = TripLegStopCallView;

    open spec fn deep_view(&self) -> TripLegStopCallView {
        TripLegStopCallView {
            station: self.station.deep_view(),
            platform: self.platform.deep_view(),
            scheduled_platform: self.scheduled_platform.deep_view(),
            expected_platform: self.expected_platform.deep_view(),
            coordinates: self.coordinates.deep_view(),
            arrival: self.arrival.deep_view(),
            departure: self.departure.deep_view(),
        }
    }
}

impl Duplicate for TripLegStopCall {
    fn duplicate(&self) -> (r: Self) {
        TripLegStopCall {
            station: self.station.duplicate(),
            platform: self.platform.duplicate(),
            scheduled_platform: self.scheduled_platform.duplicate(),
            expected_platform: self.expected_platform.duplicate(),
            coordinates: self.coordinates.duplicate(),
            arrival: self.arrival.duplicate(),
            departure: self.departure.duplicate(),
        }
    }
}

impl Clone for TripLegStopCall {
    fn clone(&self) -> (r: Self)
        ensures
            r.deep_view() == self.deep_view(),
    {
        self.duplicate()
    }
}

/// How full a vehicle is expected to be.
#[derive(Debug)]
pub struct TripLegOccupancy {
    /// Level in first class.
    pub first_class: Option<String>,
    /// Level in second class.
    pub second_class: Option<String>,
    /// Level without regard to class.
    pub general: Option<String>,
}

/// The view of a [`TripLegOccupancy`].
#[verifier::ext_equal]
pub struct TripLegOccupancyView {
    pub first_class: Option<Seq<char>>,
    pub second_class: Option<Seq<char>>,
    pub general: Option<Seq<char>>,
}

impl DeepView for TripLegOccupancy {
    type V = TripLegOccupancyView;

    open spec fn deep_view(&self) -> TripLegOccupancyView {
        TripLegOccupancyView {
            first_class: self.first_class.deep_view(),
            second_class: self.second_class.deep_view(),
            general: self.general.deep_view(),
        }
    }
}

impl Duplicate for TripLegOccupancy {
    fn duplicate(&self) -> (r: Self) {
        TripLegOccupancy {
            first_class: self.first_class.duplicate(),
            second_class: self.second_class.duplicate(),
            general: self.general.duplicate(),
        }
    }
}

impl Clone for TripLegOccupancy {
    fn clone(&self) -> (r: Self)
        ensures
            r.deep_view() == self.deep_view(),
    {
        self.duplicate()
    }
}

/// One ride of a trip.
#[derive(Debug)]
pub struct TripLeg {
    /// Mode of transport.
    pub mode: String,
    /// Line, if known.
    pub line: Option<String>,
    /// Label for riders.
    pub service: String,
    /// Operator, if known.
    pub operator: Option<String>,
    /// Expected occupancy, if known.
    pub occupancy: Option<TripLegOccupancy>,
    /// Names of the stops on the way.
    pub stops: Vec<String>,
    /// Calls on the way.
    pub stop_calls: Vec<TripLegStopCall>,
    /// Where to board.
    pub from: LegStop,
    /// Where to alight.
    pub to: LegStop,
    /// Departure times.
    pub departure: TimeInfo,
    /// Arrival times.
    pub arrival: TimeInfo,
    /// Status of the leg.
    pub status: TripStatus,
}

/// The view of a [`TripLeg`].
#[verifier::ext_equal]
pub struct TripLegView {
    pub mode: Seq<char>,
    pub line: Option<Seq<char>>,
    pub service: Seq<char>,
    pub operator: Option<Seq<char>>,
    pub occupancy: Option<TripLegOccupancyView>,
    pub stops: Seq<Seq<char>>,
    pub stop_calls: Seq<TripLegStopCallView>,
    pub from: LegStopView,
    pub to: LegStopView,
    pub departure: TimeInfo,
    pub arrival: TimeInfo,
    pub status: TripStatus,
}

impl DeepView for TripLeg {
    type V = TripLegView;

    open spec fn deep_view(&self) -> TripLegView {
        TripLegView {
            mode: self.mode.deep_view(),
            line: self.line.deep_view(),
            service: self.service.deep_view(),
            operator: self.operator.deep_view(),
            occupancy: self.occupancy.deep_view(),
            stops: self.stops.deep_view(),
            stop_calls: self.stop_calls.deep_view(),
            from: self.from.deep_view(),
            to: self.to.deep_view(),
            departure: self.departure.deep_view(),
            arrival: self.arrival.deep_view(),
            status: self.status.deep_view(),
        }
    }
}

impl Duplicate for TripLeg {
    fn duplicate(&self) -> (r: Self) {
        TripLeg {
            mode: self.mode.duplicate(),
            line: self.line.duplicate(),
            service: self.service.duplicate(),
            operator: self.operator.duplicate(),
            occupancy: self.occupancy.duplicate(),
            stops: self.stops.duplicate(),
            stop_calls: self.stop_calls.duplicate(),
            from: self.from.duplicate(),
            to: self.to.duplicate(),
            departure: self.departure,
            arrival: self.arrival,
            status: self.status,
        }
    }
}

impl Clone for TripLeg {
    fn clone(&self) -> (r: Self)
        ensures
            r.deep_view() == self.deep_view(),
    {
        self.duplicate()
    }
}

/// A connection from an origin to a destination.
#[derive(Debug)]
pub struct Trip {
    /// Reference of the journey.
    pub id: String,
    /// Whole minutes under way.
    pub duration_minutes: i64,
    /// The rides, in order.
    pub legs: Vec<TripLeg>,
}

/// The view of a [`Trip`].
#[verifier::ext_equal]
pub struct TripView {
    pub id: Seq<char>,
    pub duration_minutes: i64,
    pub legs: Seq<TripLegView>,
}

impl DeepView for Trip {
    type V = TripView;

    open spec fn deep_view(&self) -> TripView {
        TripView {
            id: self.id.deep_view(),
            duration_minutes: self.duration_minutes.deep_view(),
            legs: self.legs.deep_view(),
        }
    }
}

impl Duplicate for Trip {
    fn duplicate(&self) -> (r: Self) {
        Trip {
            id: self.id.duplicate(),
            duration_minutes: self.duration_minutes,
            legs: self.legs.duplicate(),
        }
    }
}

impl Clone for Trip {
    fn clone(&self) -> (r: Self)
        ensures
            r.deep_view() == self.deep_view(),
    {
        self.duplicate()
    }
}

/// A departure from a station.
#[derive(Debug)]
pub struct Departure {
    /// Reference of the journey, if known.
    pub trip_id: Option<String>,
    /// Line, if known.
    pub line: Option<String>,
    /// Label for riders.
    pub service: String,
    /// Where it goes.
    pub destination: String,
    /// Mode of transport, if known.
    pub mode: Option<String>,
    /// Time in the timetable.
    pub scheduled: FixedDateTime,
    /// Time now expected.
    pub expected: FixedDateTime,
    /// Whole minutes of delay.
    pub delay_minutes: i32,
    /// Platform, if known.
    pub platform: Option<String>,
    /// Status of the departure.
    pub status: TripStatus,
}

/// The view of a [`Departure`].
#[verifier::ext_equal]
pub struct DepartureView {
    pub trip_id: Option<Seq<char>>,
    pub line: Option<Seq<char>>,
    pub service: Seq<char>,
    pub destination: Seq<char>,
    pub mode: Option<Seq<char>>,
    pub scheduled: FixedDateTime,
    pub expected: FixedDateTime,
    pub delay_minutes: i32,
    pub platform: Option<Seq<char>>,
    pub status: TripStatus,
}

impl DeepView for Departure {
    type V = DepartureView;

    open spec fn deep_view(&self) -> DepartureView {
        DepartureView {
            trip_id: self.trip_id.deep_view(),
            line: self.line.deep_view(),
            service: self.service.deep_view(),
            destination: self.destination.deep_view(),
            mode: self.mode.deep_view(),
            scheduled: self.scheduled.deep_view(),
            expected: self.expected.deep_view(),
            delay_minutes: self.delay_minutes.deep_view(),
            platform: self.platform.deep_view(),
            status: self.status.deep_view(),
        }
    }
}

impl Duplicate for Departure {
    fn duplicate(&self) -> (r: Self) {
        Departure {
            trip_id: self.trip_id.duplicate(),
            line: self.line.duplicate(),
            service: self.service.duplicate(),
            destination: self.destination.duplicate(),
            mode: self.mode.duplicate(),
            scheduled: self.scheduled,
            expected: self.expected,
            delay_minutes: self.delay_minutes,
            platform: self.platform.duplicate(),
            status: self.status,
        }
    }
}

impl Clone for Departure {
    fn clone(&self) -> (r: Self)
        ensures
            r.deep_view() == self.deep_view(),
    {
        self.duplicate()
    }
}

/// A change of platform.
#[derive(Debug)]
pub struct PlatformChange {
    /// Reference of the stop.
    pub stop_id: Option<String>,
    /// Name of the stop.
    pub stop_name: Option<String>,
    /// Platform in the timetable.
    pub scheduled_platform: Option<String>,
    /// Platform now expected.
    pub expected_platform: Option<String>,
}

/// The view of a [`PlatformChange`].
#[verifier::ext_equal]
pub struct PlatformChangeView {
    pub stop_id: Option<Seq<char>>,
    pub stop_name: Option<Seq<char>>,
    pub scheduled_platform: Option<Seq<char>>,
    pub expected_platform: Option<Seq<char>>,
}

impl DeepView for PlatformChange {
    type V = PlatformChangeView;

    open spec fn deep_view(&self) -> PlatformChangeView {
        PlatformChangeView {
            stop_id: self.stop_id.deep_view(),
            stop_name: self.stop_name.deep_view(),
            scheduled_platform: self.scheduled_platform.deep_view(),
            expected_platform: self.expected_platform.deep_view(),
        }
    }
}

impl Duplicate for PlatformChange {
    fn duplicate(&self) -> (r: Self) {
        PlatformChange {
            stop_id: self.stop_id.duplicate(),
            stop_name: self.stop_name.duplicate(),
            scheduled_platform: self.scheduled_platform.duplicate(),
            expected_platform: self.expected_platform.duplicate(),
        }
    }
}

impl Clone for PlatformChange {
    fn clone(&self) -> (r: Self)
        ensures
            r.deep_view() == self.deep_view(),
    {
        self.duplicate()
    }
}

/// Live data on one stop of a journey.
#[derive(Debug)]
pub struct StopUpdate {
    /// Reference of the stop.
    pub stop_id: Option<String>,
    /// Name of the stop.
    pub stop_name: Option<String>,
    /// Delay on arrival.
    pub arrival_delay_minutes: Option<i32>,
    /// Delay on departure.
    pub departure_delay_minutes: Option<i32>,
    /// How the stop stands against the timetable.
    pub schedule_relationship: Option<String>,
}

/// The view of a [`StopUpdate`].
#[verifier::ext_equal]
pub struct StopUpdateView {
    pub stop_id: Option<Seq<char>>,
    pub stop_name: Option<Seq<char>>,
    pub arrival_delay_minutes: Option<i32>,
    pub departure_delay_minutes: Option<i32>,
    pub schedule_relationship: Option<Seq<char>>,
}

impl DeepView for StopUpdate {
    type V = StopUpdateView;

    open spec fn deep_view(&self) -> StopUpdateView {
        StopUpdateView {
            stop_id: self.stop_id.deep_view(),
            stop_name: self.stop_name.deep_view(),
            arrival_delay_minutes: self.arrival_delay_minutes.deep_view(),
            departure_delay_minutes: self.departure_delay_minutes.deep_view(),
            schedule_relationship: self.schedule_relationship.deep_view(),
        }
    }
}

impl Duplicate for StopUpdate {
    fn duplicate(&self) -> (r: Self) {
        StopUpdate {
            stop_id: self.stop_id.duplicate(),
            stop_name: self.stop_name.duplicate(),
            arrival_delay_minutes: self.arrival_delay_minutes.duplicate(),
            departure_delay_minutes: self.departure_delay_minutes.duplicate(),
            schedule_relationship: self.schedule_relationship.duplicate(),
        }
    }
}

impl Clone for StopUpdate {
    fn clone(&self) -> (r: Self)
        ensures
            r.deep_view() == self.deep_view(),
    {
        self.duplicate()
    }
}

/// Live data on a journey.
#[derive(Debug)]
pub struct TripDetails {
    /// Reference of the journey.
    pub trip_id: String,
    /// Largest delay on the way.
    pub current_delay_minutes: i32,
    /// Whether it does not run.
    pub is_cancelled: bool,
    /// Changes of platform.
    pub platform_changes: Vec<PlatformChange>,
    /// Data on each stop.
    pub stop_updates: Vec<StopUpdate>,
}

/// The view of a [`TripDetails`].
#[verifier::ext_equal]
pub struct TripDetailsView {
    pub trip_id: Seq<char>,
    pub current_delay_minutes: i32,
    pub is_cancelled: bool,
    pub platform_changes: Seq<PlatformChangeView>,
    pub stop_updates: Seq<StopUpdateView>,
}

impl DeepView for TripDetails {
    type V = TripDetailsView;

    open spec fn deep_view(&self) -> TripDetailsView {
        TripDetailsView {
            trip_id: self.trip_id.deep_view(),
            current_delay_minutes: self.current_delay_minutes.deep_view(),
            is_cancelled: self.is_cancelled.deep_view(),
            platform_changes: self.platform_changes.deep_view(),
            stop_updates: self.stop_updates.deep_view(),
        }
    }
}

impl Duplicate for TripDetails {
    fn duplicate(&self) -> (r: Self) {
        TripDetails {
            trip_id: self.trip_id.duplicate(),
            current_delay_minutes: self.current_delay_minutes,
            is_cancelled: self.is_cancelled,
            platform_changes: self.platform_changes.duplicate(),
            stop_updates: self.stop_updates.duplicate(),
        }
    }
}

impl Clone for TripDetails {
    fn clone(&self) -> (r: Self)
        ensures
            r.deep_view() == self.deep_view(),
    {
        self.duplicate()
    }
}

/// A disruption of service.
#[derive(Debug)]
pub struct Disruption {
    /// Reference of the disruption.
    pub id: String,
    /// Lines that it concerns.
    pub affected_lines: Vec<String>,
    /// Stations that it concerns.
    pub affected_stations: Vec<String>,
    /// Cause, if known.
    pub reason: Option<String>,
    /// Text for riders.
    pub description: Option<String>,
    /// Begin, if known.
    pub starts_at: Option<FixedDateTime>,
    /// End, if known.
    pub ends_at: Option<FixedDateTime>,
    /// What to do instead.
    pub alternatives: Vec<String>,
}

/// The view of a [`Disruption`].
#[verifier::ext_equal]
pub struct DisruptionView {
    pub id: Seq<char>,
    pub affected_lines: Seq<Seq<char>>,
    pub affected_stations: Seq<Seq<char>>,
    pub reason: Option<Seq<char>>,
    pub description: Option<Seq<char>>,
    pub starts_at: Option<FixedDateTime>,
    pub ends_at: Option<FixedDateTime>,
    pub alternatives: Seq<Seq<char>>,
}

impl DeepView for Disruption {
    type V = DisruptionView;

    open spec fn deep_view(&self) -> DisruptionView {
        DisruptionView {
            id: self.id.deep_view(),
            affected_lines: self.affected_lines.deep_view(),
            affected_stations: self.affected_stations.deep_view(),
            reason: self.reason.deep_view(),
            description: self.description.deep_view(),
            starts_at: self.starts_at.deep_view(),
            ends_at: self.ends_at.deep_view(),
            alternatives: self.alternatives.deep_view(),
        }
    }
}

impl Duplicate for Disruption {
    fn duplicate(&self) -> (r: Self) {
        Disruption {
            id: self.id.duplicate(),
            affected_lines: self.affected_lines.duplicate(),
            affected_stations: self.affected_stations.duplicate(),
            reason: self.reason.duplicate(),
            description: self.description.duplicate(),
            starts_at: self.starts_at.duplicate(),
            ends_at: self.ends_at.duplicate(),
            alternatives: self.alternatives.duplicate(),
        }
    }
}

impl Clone for Disruption {
    fn clone(&self) -> (r: Self)
        ensures
            r.deep_view() == self.deep_view(),
    {
        self.duplicate()
    }
}

/// A subscription to delay notifications.
#[derive(Debug)]
pub struct MonitorSubscription {
    /// Reference of the subscription.
    pub subscription_id: String,
    /// Journey that is watched.
    pub trip_id: String,
    /// Delay from which on to notify.
    pub notify_on_delay_minutes: i32,
    /// When it was made.
    pub created_at: FixedDateTime,
}

/// The view of a [`MonitorSubscription`].
#[verifier::ext_equal]
pub struct MonitorSubscriptionView {
    pub subscription_id: Seq<char>,
    pub trip_id: Seq<char>,
    pub notify_on_delay_minutes: i32,
    pub created_at: FixedDateTime,
}

impl DeepView for MonitorSubscription {
    type V = MonitorSubscriptionView;

    open spec fn deep_view(&self) -> MonitorSubscriptionView {
        MonitorSubscriptionView {
            subscription_id: self.subscription_id.deep_view(),
            trip_id: self.trip_id.deep_view(),
            notify_on_delay_minutes: self.notify_on_delay_minutes.deep_view(),
            created_at: self.created_at.deep_view(),
        }
    }
}

impl Duplicate for MonitorSubscription {
    fn duplicate(&self) -> (r: Self) {
        MonitorSubscription {
            subscription_id: self.subscription_id.duplicate(),
            trip_id: self.trip_id.duplicate(),
            notify_on_delay_minutes: self.notify_on_delay_minutes,
            created_at: self.created_at,
        }
    }
}

impl Clone for MonitorSubscription {
    fn clone(&self) -> (r: Self)
        ensures
            r.deep_view() == self.deep_view(),
    {
        self.duplicate()
    }
}

/// A caveat on an answer.
#[derive(Debug)]
pub struct ToolWarning {
    /// Text of the caveat.
    pub message: String,
    /// Whether the data is out of date.
    pub stale: bool,
}

/// The view of a [`ToolWarning`].
#[verifier::ext_equal]
pub struct ToolWarningView {
    pub message: Seq<char>,
    pub stale: bool,
}

impl DeepView for ToolWarning {
    type V = ToolWarningView;

    open spec fn deep_view(&self) -> ToolWarningView {
        ToolWarningView {
            message: self.message.deep_view(),
            stale: self.stale.deep_view(),
        }
    }
}

impl Duplicate for ToolWarning {
    fn duplicate(&self) -> (r: Self) {
        ToolWarning {
            message: self.message.duplicate(),
            stale: self.stale,
        }
    }
}

impl Clone for ToolWarning {
    fn clone(&self) -> (r: Self)
        ensures
            r.deep_view() == self.deep_view(),
    {
        self.duplicate()
    }
}

/// Answer to a station search.
#[derive(Debug)]
pub struct StationsResponse {
    /// What was found.
    pub stations: Vec<Station>,
    /// Similar names.
    pub suggestions: Vec<String>,
}

/// The view of a [`StationsResponse`].
#[verifier::ext_equal]
pub struct StationsResponseView {
    pub stations: Seq<StationView>,
    pub suggestions: Seq<Seq<char>>,
}

impl DeepView for StationsResponse {
    type V = StationsResponseView;

    open spec fn deep_view(&self) -> StationsResponseView {
        StationsResponseView {
            stations: self.stations.deep_view(),
            suggestions: self.suggestions.deep_view(),
        }
    }
}

impl Duplicate for StationsResponse {
    fn duplicate(&self) -> (r: Self) {
        StationsResponse {
            stations: self.stations.duplicate(),
            suggestions: self.suggestions.duplicate(),
        }
    }
}

impl Clone for StationsResponse {
    fn clone(&self) -> (r: Self)
        ensures
            r.deep_view() == self.deep_view(),
    {
        self.duplicate()
    }
}

/// Answer to a question for departures.
#[derive(Debug)]
pub struct DeparturesResponse {
    /// The departures.
    pub departures: Vec<Departure>,
    /// Caveat, if any.
    pub warning: Option<ToolWarning>,
}

/// The view of a [`DeparturesResponse`].
#[verifier::ext_equal]
pub struct DeparturesResponseView {
    pub departures: Seq<DepartureView>,
    pub warning: Option<ToolWarningView>,
}

impl DeepView for DeparturesResponse {
    type V = DeparturesResponseView;

    open spec fn deep_view(&self) -> DeparturesResponseView {
        DeparturesResponseView {
            departures: self.departures.deep_view(),
            warning: self.warning.deep_view(),
        }
    }
}

impl Duplicate for DeparturesResponse {
    fn duplicate(&self) -> (r: Self) {
        DeparturesResponse {
            departures: self.departures.duplicate(),
            warning: self.warning.duplicate(),
        }
    }
}

impl Clone for DeparturesResponse {
    fn clone(&self) -> (r: Self)
        ensures
            r.deep_view() == self.deep_view(),
    {
        self.duplicate()
    }
}

/// Answer to a question for a journey.
#[derive(Debug)]
pub struct TripDetailsResponse {
    /// Live data.
    pub trip: TripDetails,
    /// Caveat, if any.
    pub warning: Option<ToolWarning>,
}

/// The view of a [`TripDetailsResponse`].
#[verifier::ext_equal]
pub struct TripDetailsResponseView {
    pub trip: TripDetailsView,
    pub warning: Option<ToolWarningView>,
}

impl DeepView for TripDetailsResponse {
    type V = TripDetailsResponseView;

    open spec fn deep_view(&self) -> TripDetailsResponseView {
        TripDetailsResponseView {
            trip: self.trip.deep_view(),
            warning: self.warning.deep_view(),
        }
    }
}

impl Duplicate for TripDetailsResponse {
    fn duplicate(&self) -> (r: Self) {
        TripDetailsResponse {
            trip: self.trip.duplicate(),
            warning: self.warning.duplicate(),
        }
    }
}

impl Clone for TripDetailsResponse {
    fn clone(&self) -> (r: Self)
        ensures
            r.deep_view() == self.deep_view(),
    {
        self.duplicate()
    }
}

/// Answer to a question for disruptions.
#[derive(Debug)]
pub struct DisruptionsResponse {
    /// The disruptions.
    pub disruptions: Vec<Disruption>,
    /// Caveat, if any.
    pub warning: Option<ToolWarning>,
}

/// The view of a [`DisruptionsResponse`].
#[verifier::ext_equal]
pub struct DisruptionsResponseView {
    pub disruptions: Seq<DisruptionView>,
    pub warning: Option<ToolWarningView>,
}

impl DeepView for DisruptionsResponse {
    type V = DisruptionsResponseView;

    open spec fn deep_view(&self) -> DisruptionsResponseView {
        DisruptionsResponseView {
            disruptions: self.disruptions.deep_view(),
            warning: self.warning.deep_view(),
        }
    }
}

impl Duplicate for DisruptionsResponse {
    fn duplicate(&self) -> (r: Self) {
        DisruptionsResponse {
            disruptions: self.disruptions.duplicate(),
            warning: self.warning.duplicate(),
        }
    }
}

impl Clone for DisruptionsResponse {
    fn clone(&self) -> (r: Self)
        ensures
            r.deep_view() == self.deep_view(),
    {
        self.duplicate()
    }
}

/// Summary of a trip search.
#[derive(Debug)]
pub struct TripPlanReport {
    /// When it was made.
    pub generated_at: FixedDateTime,
    /// Name of the origin.
    pub origin: String,
    /// Name of the destination.
    pub destination: String,
    /// Number of trips.
    pub total_options: usize,
    /// Number of trips with an irregular leg.
    pub delayed_options: usize,
    /// Disruptions that matter.
    pub live_events: Vec<Disruption>,
    /// Whether there are any.
    pub live_events_status: String,
    /// Caveat, if any.
    pub live_events_warning: Option<ToolWarning>,
}

/// The view of a [`TripPlanReport`].
#[verifier::ext_equal]
pub struct TripPlanReportView {
    pub generated_at: FixedDateTime,
    pub origin: Seq<char>,
    pub destination: Seq<char>,
    pub total_options: usize,
    pub delayed_options: usize,
    pub live_events: Seq<DisruptionView>,
    pub live_events_status: Seq<char>,
    pub live_events_warning: Option<ToolWarningView>,
}

impl DeepView for TripPlanReport {
    type V = TripPlanReportView;

    open spec fn deep_view(&self) -> TripPlanReportView {
        TripPlanReportView {
            generated_at: self.generated_at.deep_view(),
            origin: self.origin.deep_view(),
            destination: self.destination.deep_view(),
            total_options: self.total_options.deep_view(),
            delayed_options: self.delayed_options.deep_view(),
            live_events: self.live_events.deep_view(),
            live_events_status: self.live_events_status.deep_view(),
            live_events_warning: self.live_events_warning.deep_view(),
        }
    }
}

impl Duplicate for TripPlanReport {
    fn duplicate(&self) -> (r: Self) {
        TripPlanReport {
            generated_at: self.generated_at,
            origin: self.origin.duplicate(),
            destination: self.destination.duplicate(),
            total_options: self.total_options,
            delayed_options: self.delayed_options,
            live_events: self.live_events.duplicate(),
            live_events_status: self.live_events_status.duplicate(),
            live_events_warning: self.live_events_warning.duplicate(),
        }
    }
}

impl Clone for TripPlanReport {
    fn clone(&self) -> (r: Self)
        ensures
            r.deep_view() == self.deep_view(),
    {
        self.duplicate()
    }
}

/// Times of a trip.
#[derive(Debug, Clone, Copy)]
pub struct TripOptionTime {
    /// Departure from the origin.
    pub departure: FixedDateTime,
    /// Arrival at the destination.
    pub arrival: FixedDateTime,
    /// Whole minutes between them.
    pub duration_minutes: i64,
}

impl DeepView for TripOptionTime {
    type V = TripOptionTime;

    open spec fn deep_view(&self) -> TripOptionTime {
        *self
    }
}

impl Duplicate for TripOptionTime {
    fn duplicate(&self) -> (r: Self) {
        *self
    }
}

/// Platforms of a trip.
#[derive(Debug)]
pub struct TripOptionPlatform {
    /// Where it leaves.
    pub departure: Option<String>,
    /// Where it arrives.
    pub arrival: Option<String>,
}

/// The view of a [`TripOptionPlatform`].
#[verifier::ext_equal]
pub struct TripOptionPlatformView {
    pub departure: Option<Seq<char>>,
    pub arrival: Option<Seq<char>>,
}

impl DeepView for TripOptionPlatform {
    type V = TripOptionPlatformView;

    open spec fn deep_view(&self) -> TripOptionPlatformView {
        TripOptionPlatformView {
            departure: self.departure.deep_view(),
            arrival: self.arrival.deep_view(),
        }
    }
}

impl Duplicate for TripOptionPlatform {
    fn duplicate(&self) -> (r: Self) {
        TripOptionPlatform {
            departure: self.departure.duplicate(),
            arrival: self.arrival.duplicate(),
        }
    }
}

impl Clone for TripOptionPlatform {
    fn clone(&self) -> (r: Self)
        ensures
            r.deep_view() == self.deep_view(),
    {
        self.duplicate()
    }
}

/// A coach of a train.
#[derive(Debug)]
pub struct WagonFormationCoach {
    /// Label of the coach.
    pub id: String,
    /// Code of the vehicle type.
    pub vehicle_type: String,
    /// What the code means.
    pub class_label: String,
    /// Platform sector, if known.
    pub sector: Option<String>,
    /// Codes of what it offers.
    pub services: Vec<String>,
    /// No passage to the coach before it.
    pub no_passage_prev: bool,
    /// No passage to the coach after it.
    pub no_passage_next: bool,
}

/// The view of a [`WagonFormationCoach`].
#[verifier::ext_equal]
pub struct WagonFormationCoachView {
    pub id: Seq<char>,
    pub vehicle_type: Seq<char>,
    pub class_label: Seq<char>,
    pub sector: Option<Seq<char>>,
    pub services: Seq<Seq<char>>,
    pub no_passage_prev: bool,
    pub no_passage_next: bool,
}

impl DeepView for WagonFormationCoach {
    type V = WagonFormationCoachView;

    open spec fn deep_view(&self) -> WagonFormationCoachView {
        WagonFormationCoachView {
            id: self.id.deep_view(),
            vehicle_type: self.vehicle_type.deep_view(),
            class_label: self.class_label.deep_view(),
            sector: self.sector.deep_view(),
            services: self.services.deep_view(),
            no_passage_prev: self.no_passage_prev.deep_view(),
            no_passage_next: self.no_passage_next.deep_view(),
        }
    }
}

impl Duplicate for WagonFormationCoach {
    fn duplicate(&self) -> (r: Self) {
        WagonFormationCoach {
            id: self.id.duplicate(),
            vehicle_type: self.vehicle_type.duplicate(),
            class_label: self.class_label.duplicate(),
            sector: self.sector.duplicate(),
            services: self.services.duplicate(),
            no_passage_prev: self.no_passage_prev,
            no_passage_next: self.no_passage_next,
        }
    }
}

impl Clone for WagonFormationCoach {
    fn clone(&self) -> (r: Self)
        ensures
            r.deep_view() == self.deep_view(),
    {
        self.duplicate()
    }
}

/// Number of fictitious coaches at each end.
#[derive(Debug, Clone, Copy)]
pub struct WagonFormationPadding {
    /// At the front.
    pub front: usize,
    /// At the rear.
    pub rear: usize,
}

impl DeepView for WagonFormationPadding {
    type V = WagonFormationPadding;

    open spec fn deep_view(&self) -> WagonFormationPadding {
        *self
    }
}

impl Duplicate for WagonFormationPadding {
    fn duplicate(&self) -> (r: Self) {
        *self
    }
}

/// A train as read from its notation.
#[derive(Debug)]
pub struct WagonFormationParsed {
    /// Its coaches, front to rear.
    pub coaches: Vec<WagonFormationCoach>,
    /// Fictitious coaches.
    pub padding: WagonFormationPadding,
    /// Platform sectors in the notation.
    pub sectors_seen: Vec<String>,
}

/// The view of a [`WagonFormationParsed`].
#[verifier::ext_equal]
pub struct WagonFormationParsedView {
    pub coaches: Seq<WagonFormationCoachView>,
    pub padding: WagonFormationPadding,
    pub sectors_seen: Seq<Seq<char>>,
}

impl DeepView for WagonFormationParsed {
    type V = WagonFormationParsedView;

    open spec fn deep_view(&self) -> WagonFormationParsedView {
        WagonFormationParsedView {
            coaches: self.coaches.deep_view(),
            padding: self.padding.deep_view(),
            sectors_seen: self.sectors_seen.deep_view(),
        }
    }
}

impl Duplicate for WagonFormationParsed {
    fn duplicate(&self) -> (r: Self) {
        WagonFormationParsed {
            coaches: self.coaches.duplicate(),
            padding: self.padding,
            sectors_seen: self.sectors_seen.duplicate(),
        }
    }
}

impl Clone for WagonFormationParsed {
    fn clone(&self) -> (r: Self)
        ensures
            r.deep_view() == self.deep_view(),
    {
        self.duplicate()
    }
}

/// The coaches at a platform sector.
#[derive(Debug)]
pub struct WagonFormationSectorRange {
    /// The sector.
    pub sector: String,
    /// First coach.
    pub from_coach: String,
    /// Last coach.
    pub to_coach: String,
}

/// The view of a [`WagonFormationSectorRange`].
#[verifier::ext_equal]
pub struct WagonFormationSectorRangeView {
    pub sector: Seq<char>,
    pub from_coach: Seq<char>,
    pub to_coach: Seq<char>,
}

impl DeepView for WagonFormationSectorRange {
    type V = WagonFormationSectorRangeView;

    open spec fn deep_view(&self) -> WagonFormationSectorRangeView {
        WagonFormationSectorRangeView {
            sector: self.sector.deep_view(),
            from_coach: self.from_coach.deep_view(),
            to_coach: self.to_coach.deep_view(),
        }
    }
}

impl Duplicate for WagonFormationSectorRange {
    fn duplicate(&self) -> (r: Self) {
        WagonFormationSectorRange {
            sector: self.sector.duplicate(),
            from_coach: self.from_coach.duplicate(),
            to_coach: self.to_coach.duplicate(),
        }
    }
}

impl Clone for WagonFormationSectorRange {
    fn clone(&self) -> (r: Self)
        ensures
            r.deep_view() == self.deep_view(),
    {
        self.duplicate()
    }
}

/// Summary of one trip.
#[derive(Debug)]
pub struct TripOptionReport {
    /// Reference of the journey.
    pub trip_id: String,
    /// Times.
    pub time: TripOptionTime,
    /// Platforms.
    pub platform: TripOptionPlatform,
    /// Where it ends.
    pub final_destination: String,
    /// Where it begins on the map.
    pub origin_coordinates: Option<GeoPoint>,
    /// Where it ends on the map.
    pub final_destination_coordinates: Option<GeoPoint>,
    /// Expected occupancy.
    pub occupancy: Option<TripLegOccupancy>,
    /// Disruptions that matter.
    pub events: Vec<Disruption>,
    /// Whether there are any.
    pub events_status: String,
    /// Notation of the train.
    pub wagon_formation: Option<String>,
    /// Whether there is one.
    pub wagon_formation_status: String,
    /// The train in words.
    pub wagon_formation_readable: Option<String>,
    /// The train as a diagram.
    pub wagon_formation_diagram: Option<String>,
    /// The train for display.
    pub wagon_formation_human_display: Option<String>,
    /// Where to board.
    pub wagon_formation_boarding_hint: Option<String>,
    /// What the diagram means.
    pub wagon_formation_legend: Option<Vec<String>>,
    /// The train as data.
    pub wagon_formation_parsed: Option<WagonFormationParsed>,
    /// Coaches at each sector.
    pub sector_to_coach_range: Option<Vec<WagonFormationSectorRange>>,
    /// Coaches with access features.
    pub accessible_coaches: Option<Vec<String>>,
    /// Coaches with first class.
    pub first_class_coaches: Option<Vec<String>>,
    /// Coaches with second class.
    pub second_class_coaches: Option<Vec<String>>,
}

/// The view of a [`TripOptionReport`].
#[verifier::ext_equal]
pub struct TripOptionReportView {
    pub trip_id: Seq<char>,
    pub time: TripOptionTime,
    pub platform: TripOptionPlatformView,
    pub final_destination: Seq<char>,
    pub origin_coordinates: Option<GeoPointView>,
    pub final_destination_coordinates: Option<GeoPointView>,
    pub occupancy: Option<TripLegOccupancyView>,
    pub events: Seq<DisruptionView>,
    pub events_status: Seq<char>,
    pub wagon_formation: Option<Seq<char>>,
    pub wagon_formation_status: Seq<char>,
    pub wagon_formation_readable: Option<Seq<char>>,
    pub wagon_formation_diagram: Option<Seq<char>>,
    pub wagon_formation_human_display: Option<Seq<char>>,
    pub wagon_formation_boarding_hint: Option<Seq<char>>,
    pub wagon_formation_legend: Option<Seq<Seq<char>>>,
    pub wagon_formation_parsed: Option<WagonFormationParsedView>,
    pub sector_to_coach_range: Option<Seq<WagonFormationSectorRangeView>>,
    pub accessible_coaches: Option<Seq<Seq<char>>>,
    pub first_class_coaches: Option<Seq<Seq<char>>>,
    pub second_class_coaches: Option<Seq<Seq<char>>>,
}

impl DeepView for TripOptionReport {
    type V = TripOptionReportView;

    open spec fn deep_view(&self) -> TripOptionReportView {
        TripOptionReportView {
            trip_id: self.trip_id.deep_view(),
            time: self.time.deep_view(),
            platform: self.platform.deep_view(),
            final_destination: self.final_destination.deep_view(),
            origin_coordinates: self.origin_coordinates.deep_view(),
            final_destination_coordinates: self.final_destination_coordinates.deep_view(),
            occupancy: self.occupancy.deep_view(),
            events: self.events.deep_view(),
            events_status: self.events_status.deep_view(),
            wagon_formation: self.wagon_formation.deep_view(),
            wagon_formation_status: self.wagon_formation_status.deep_view(),
            wagon_formation_readable: self.wagon_formation_readable.deep_view(),
            wagon_formation_diagram: self.wagon_formation_diagram.deep_view(),
            wagon_formation_human_display: self.wagon_formation_human_display.deep_view(),
            wagon_formation_boarding_hint: self.wagon_formation_boarding_hint.deep_view(),
            wagon_formation_legend: self.wagon_formation_legend.deep_view(),
            wagon_formation_parsed: self.wagon_formation_parsed.deep_view(),
            sector_to_coach_range: self.sector_to_coach_range.deep_view(),
            accessible_coaches: self.accessible_coaches.deep_view(),
            first_class_coaches: self.first_class_coaches.deep_view(),
            second_class_coaches: self.second_class_coaches.deep_view(),
        }
    }
}

impl Duplicate for TripOptionReport {
    fn duplicate(&self) -> (r: Self) {
        TripOptionReport {
            trip_id: self.trip_id.duplicate(),
            time: self.time,
            platform: self.platform.duplicate(),
            final_destination: self.final_destination.duplicate(),
            origin_coordinates: self.origin_coordinates.duplicate(),
            final_destination_coordinates: self.final_destination_coordinates.duplicate(),
            occupancy: self.occupancy.duplicate(),
            events: self.events.duplicate(),
            events_status: self.events_status.duplicate(),
            wagon_formation: self.wagon_formation.duplicate(),
            wagon_formation_status: self.wagon_formation_status.duplicate(),
            wagon_formation_readable: self.wagon_formation_readable.duplicate(),
            wagon_formation_diagram: self.wagon_formation_diagram.duplicate(),
            wagon_formation_human_display: self.wagon_formation_human_display.duplicate(),
            wagon_formation_boarding_hint: self.wagon_formation_boarding_hint.duplicate(),
            wagon_formation_legend: self.wagon_formation_legend.duplicate(),
            wagon_formation_parsed: self.wagon_formation_parsed.duplicate(),
            sector_to_coach_range: self.sector_to_coach_range.duplicate(),
            accessible_coaches: self.accessible_coaches.duplicate(),
            first_class_coaches: self.first_class_coaches.duplicate(),
            second_class_coaches: self.second_class_coaches.duplicate(),
        }
    }
}

impl Clone for TripOptionReport {
    fn clone(&self) -> (r: Self)
        ensures
            r.deep_view() == self.deep_view(),
    {
        self.duplicate()
    }
}

/// Answer to a trip search.
#[derive(Debug)]
pub struct TripsResponse {
    /// The trips.
    pub trips: Vec<Trip>,
    /// Caveat, if any.
    pub warning: Option<ToolWarning>,
    /// Summary.
    pub report: Option<TripPlanReport>,
    /// Summary of each trip.
    pub option_reports: Vec<TripOptionReport>,
}

/// The view of a [`TripsResponse`].
#[verifier::ext_equal]
pub struct TripsResponseView {
    pub trips: Seq<TripView>,
    pub warning: Option<ToolWarningView>,
    pub report: Option<TripPlanReportView>,
    pub option_reports: Seq<TripOptionReportView>,
}

impl DeepView for TripsResponse {
    type V = TripsResponseView;

    open spec fn deep_view(&self) -> TripsResponseView {
        TripsResponseView {
            trips: self.trips.deep_view(),
            warning: self.warning.deep_view(),
            report: self.report.deep_view(),
            option_reports: self.option_reports.deep_view(),
        }
    }
}

impl Duplicate for TripsResponse {
    fn duplicate(&self) -> (r: Self) {
        TripsResponse {
            trips: self.trips.duplicate(),
            warning: self.warning.duplicate(),
            report: self.report.duplicate(),
            option_reports: self.option_reports.duplicate(),
        }
    }
}

impl Clone for TripsResponse {
    fn clone(&self) -> (r: Self)
        ensures
            r.deep_view() == self.deep_view(),
    {
        self.duplicate()
    }
}

impl TransportMode {
    /// The name of the mode.
    pub open spec fn name(self) -> Seq<char> {
        match self {
            TransportMode::Rail => "rail"@,
            TransportMode::Bus => "bus"@,
            TransportMode::Tram => "tram"@,
            TransportMode::Ship => "ship"@,
            TransportMode::Cableway => "cableway"@,
            TransportMode::Funicular => "funicular"@,
            TransportMode::All => "all"@,
        }
    }

    /// The name of the mode.
    pub fn as_str(&self) -> (r: &'static str)
        ensures
            r@ == self.name(),
    {
        match self {
            TransportMode::Rail => "rail",
            TransportMode::Bus => "bus",
            TransportMode::Tram => "tram",
            TransportMode::Ship => "ship",
            TransportMode::Cableway => "cableway",
            TransportMode::Funicular => "funicular",
            TransportMode::All => "all",
        }
    }

    /// Every mode, in the order in which they are listed.
    pub fn all_modes() -> (r: Vec<TransportMode>)
        ensures
            r@ == seq![
                TransportMode::Rail,
                TransportMode::Bus,
                TransportMode::Tram,
                TransportMode::Ship,
                TransportMode::Cableway,
                TransportMode::Funicular,
                TransportMode::All,
            ],
    {
        let r = vec![
            TransportMode::Rail,
            TransportMode::Bus,
            TransportMode::Tram,
            TransportMode::Ship,
            TransportMode::Cableway,
            TransportMode::Funicular,
            TransportMode::All,
        ];
        assert(r@ =~= seq![
            TransportMode::Rail,
            TransportMode::Bus,
            TransportMode::Tram,
            TransportMode::Ship,
            TransportMode::Cableway,
            TransportMode::Funicular,
            TransportMode::All,
        ]);
        r
    }
}

/// No two modes have the same name.
pub proof fn law_mode_names_differ(a: TransportMode, b: TransportMode)
    ensures
        a.name() == b.name() ==> a == b,
{
    reveal_strlit("rail");
    reveal_strlit("bus");
    reveal_strlit("tram");
    reveal_strlit("ship");
    reveal_strlit("cableway");
    reveal_strlit("funicular");
    reveal_strlit("all");
    assert("rail"@.len() == 4 && "rail"@[0] == 'r');
    assert("bus"@.len() == 3 && "bus"@[0] == 'b');
    assert("tram"@.len() == 4 && "tram"@[0] == 't');
    assert("ship"@.len() == 4 && "ship"@[0] == 's');
    assert("cableway"@.len() == 8);
    assert("funicular"@.len() == 9);
    assert("all"@.len() == 3 && "all"@[0] == 'a');
}

impl TripStatus {
    /// The status that a delay alone gives.
    pub open spec fn of_delay(delay_minutes: int) -> TripStatus {
        if delay_minutes > 0 {
            TripStatus::Delayed
        } else {
            TripStatus::OnTime
        }
    }

    /// The status that a delay alone gives: only a positive delay is one.
    pub fn from_delay(delay_minutes: i32) -> (r: TripStatus)
        ensures
            r == TripStatus::of_delay(delay_minutes as int),
    {
        if delay_minutes > 0 {
            TripStatus::Delayed
        } else {
            TripStatus::OnTime
        }
    }
}

/// The word for riders for a mode of transport.
pub open spec fn mode_word(mode: Seq<char>) -> Seq<char> {
    let m = text::lowered(mode);
    if m == "rail"@ || m == "train"@ {
        "Train"@
    } else if m == "bus"@ {
        "Bus"@
    } else if m == "tram"@ {
        "Tram"@
    } else if m == "ship"@ || m == "water"@ {
        "Boat"@
    } else if m == "cableway"@ {
        "Cableway"@
    } else if m == "funicular"@ {
        "Funicular"@
    } else {
        "Transit"@
    }
}

/// The text without white space at its ends, unless nothing is left of it.
pub open spec fn filled(value: Option<Seq<char>>) -> Option<Seq<char>> {
    match value {
        Some(s) if text::trimmed(s).len() > 0 => Some(text::trimmed(s)),
        _ => None,
    }
}

/// The label for riders: the word for the mode, and the line if there is one.
pub open spec fn service_label(mode: Option<Seq<char>>, line: Option<Seq<char>>) -> Seq<char> {
    let word = match filled(mode) {
        Some(m) => mode_word(m),
        None => "Transit"@,
    };
    match filled(line) {
        Some(l) => word + " "@ + l,
        None => word,
    }
}

/// Trims a text and drops it if nothing is left.
pub fn trim_filled(value: Option<&str>) -> (r: Option<String>)
    ensures
        r.deep_view() == filled(value.deep_view()),
{
    match value {
        Some(s) => {
            let t = text::trim(s);
            if t.as_str().is_empty() {
                None
            } else {
                Some(t)
            }
        },
        None => None,
    }
}

/// The word for riders for a mode of transport.
fn word_for_mode(mode: &str) -> (r: &'static str)
    ensures
        r@ == mode_word(mode@),
{
    let lower = text::to_lower(mode);
    let m = lower.as_str();
    if text::same(m, "rail") || text::same(m, "train") {
        "Train"
    } else if text::same(m, "bus") {
        "Bus"
    } else if text::same(m, "tram") {
        "Tram"
    } else if text::same(m, "ship") || text::same(m, "water") {
        "Boat"
    } else if text::same(m, "cableway") {
        "Cableway"
    } else if text::same(m, "funicular") {
        "Funicular"
    } else {
        "Transit"
    }
}

/// The label for riders of a service.
pub fn format_service_label(mode: Option<&str>, line: Option<&str>) -> (r: String)
    ensures
        r@ == service_label(mode.deep_view(), line.deep_view()),
{
    let word = match trim_filled(mode) {
        Some(m) => word_for_mode(m.as_str()),
        None => "Transit",
    };
    let mut out = word.to_owned();
    match trim_filled(line) {
        Some(l) => {
            out.append(" ");
            out.append(l.as_str());
        },
        None => {},
    }
    out
}

/// An optional text as an optional reference.
pub fn as_text(value: &Option<String>) -> (r: Option<&str>)
    ensures
        r.deep_view() == value.deep_view(),
{
    match value {
        Some(s) => Some(s.as_str()),
        None => None,
    }
}

/// Each mode has its name.
pub proof fn law_modes_have_their_names()
    ensures
        TransportMode::Rail.name() == "rail"@,
        TransportMode::Bus.name() == "bus"@,
        TransportMode::Tram.name() == "tram"@,
        TransportMode::Ship.name() == "ship"@,
        TransportMode::Cableway.name() == "cableway"@,
        TransportMode::Funicular.name() == "funicular"@,
        TransportMode::All.name() == "all"@,
{
}

/// Only a delay of a minute or more is one.
pub proof fn law_delay_begins_with_a_minute(minutes: int)
    ensures
        TripStatus::of_delay(minutes) == TripStatus::Delayed <==> minutes >= 1,
        TripStatus::of_delay(minutes) == TripStatus::OnTime <==> minutes <= 0,
{
}

/// A service is labelled with a word for its mode, whatever the case of the letters and the
/// white space around it, and with its line, if it has one.
pub proof fn law_services_are_labelled(mode: Seq<char>, line: Seq<char>)
    requires
        text::trimmed(mode).len() > 0,
        text::trimmed(line).len() > 0,
    ensures
        ({
            let m = text::lowered(text::trimmed(mode));
            let word = service_label(Some(mode), None);
            &&& m == "rail"@ || m == "train"@ ==> word == "Train"@
            &&& m == "bus"@ ==> word == "Bus"@
            &&& m == "tram"@ ==> word == "Tram"@
            &&& m == "ship"@ || m == "water"@ ==> word == "Boat"@
            &&& m == "cableway"@ ==> word == "Cableway"@
            &&& m == "funicular"@ ==> word == "Funicular"@
            &&& m != "rail"@ && m != "train"@ && m != "bus"@ && m != "tram"@ && m != "ship"@ && m
                != "water"@ && m != "cableway"@ && m != "funicular"@ ==> word == "Transit"@
            &&& service_label(None, None) == "Transit"@
            &&& service_label(Some(mode), Some(line)) == word + " "@ + text::trimmed(line)
            &&& service_label(None, Some(line)) == "Transit "@ + text::trimmed(line)
        }),
{
    reveal_strlit("rail");
    reveal_strlit("train");
    reveal_strlit("bus");
    reveal_strlit("tram");
    reveal_strlit("ship");
    reveal_strlit("water");
    reveal_strlit("cableway");
    reveal_strlit("funicular");
    reveal_strlit("Transit");
    reveal_strlit("Transit ");
    reveal_strlit(" ");
    assert("rail"@.len() == 4 && "rail"@[0] == 'r');
    assert("train"@.len() == 5 && "train"@[0] == 't');
    assert("bus"@.len() == 3);
    assert("tram"@.len() == 4 && "tram"@[0] == 't');
    assert("ship"@.len() == 4 && "ship"@[0] == 's');
    assert("water"@.len() == 5 && "water"@[0] == 'w');
    assert("cableway"@.len() == 8);
    assert("funicular"@.len() == 9);
    assert("Transit"@ + " "@ =~= "Transit "@);
}

/// A text that is blank is as good as none, and any other counts without the white space
/// around it.
pub proof fn law_blank_texts_are_none(value: Seq<char>)
    ensures
        filled(None) is None,
        filled(Some(value)) is None <==> text::trimmed(value).len() == 0,
        filled(Some(value)) is Some ==> filled(Some(value))->0 == text::trimmed(value),
{
}

} // verus!
