//! A GTFS Realtime feed, as plain data.

pub mod alert;
pub mod stop_time_update;
pub mod translated_string;
pub mod trip_descriptor;

use vstd::prelude::*;

use crate::api::gtfs_realtime::translated_string::{Translation, TranslationView};
use crate::duplicate::Duplicate;

verus! {

/// Whether a feed is complete.
#[derive(Debug, Clone, Copy, PartialEq, Eq, Structural)]
pub enum Incrementality {
    /// The whole state.
    FullDataset,
    /// A difference to the feed before.
    Differential,
}

impl DeepView for Incrementality {
    type V = Incrementality;

    open spec fn deep_view(&self) -> Incrementality {
        *self
    }
}

impl Duplicate for Incrementality {
    fn duplicate(&self) -> (r: Self) {
        *self
    }
}

/// What a feed says of itself.
#[derive(Debug)]
pub struct FeedHeader {
    /// Version of the format.
    pub gtfs_realtime_version: Option<String>,
    /// Code of whether it is complete.
    pub incrementality: Option<i32>,
    /// When it was made.
    pub timestamp: Option<u64>,
}

/// The view of a [`FeedHeader`].
#[verifier::ext_equal]
pub struct FeedHeaderView {
    pub gtfs_realtime_version: Option<Seq<char>>,
    pub incrementality: Option<i32>,
    pub timestamp: Option<u64>,
}

impl DeepView for FeedHeader {
    type V = FeedHeaderView;

    open spec fn deep_view(&self) -> FeedHeaderView {
        FeedHeaderView {
            gtfs_realtime_version: self.gtfs_realtime_version.deep_view(),
            incrementality: self.incrementality.deep_view(),
            timestamp: self.timestamp.deep_view(),
        }
    }
}

impl Duplicate for FeedHeader {
    fn duplicate(&self) -> (r: Self) {
        FeedHeader {
            gtfs_realtime_version: self.gtfs_realtime_version.duplicate(),
            incrementality: self.incrementality.duplicate(),
            timestamp: self.timestamp.duplicate(),
        }
    }
}

impl Clone for FeedHeader {
    fn clone(&self) -> (r: Self)
        ensures
            r.deep_view() == self.deep_view(),
    {
        self.duplicate()
    }
}

/// A reference to a trip.
#[derive(Debug)]
pub struct TripDescriptor {
    /// The trip.
    pub trip_id: Option<String>,
    /// The route.
    pub route_id: Option<String>,
    /// The direction.
    pub direction_id: Option<u32>,
    /// When it starts.
    pub start_time: Option<String>,
    /// The day on which it starts.
    pub start_date: Option<String>,
    /// Code of how it stands against the timetable.
    pub schedule_relationship: Option<i32>,
}

/// The view of a [`TripDescriptor`].
#[verifier::ext_equal]
pub struct TripDescriptorView {
    pub trip_id: Option<Seq<char>>,
    pub route_id: Option<Seq<char>>,
    pub direction_id: Option<u32>,
    pub start_time: Option<Seq<char>>,
    pub start_date: Option<Seq<char>>,
    pub schedule_relationship: Option<i32>,
}

impl DeepView for TripDescriptor {
    type V = TripDescriptorView;

    open spec fn deep_view(&self) -> TripDescriptorView {
        TripDescriptorView {
            trip_id: self.trip_id.deep_view(),
            route_id: self.route_id.deep_view(),
            direction_id: self.direction_id.deep_view(),
            start_time: self.start_time.deep_view(),
            start_date: self.start_date.deep_view(),
            schedule_relationship: self.schedule_relationship.deep_view(),
        }
    }
}

impl Duplicate for TripDescriptor {
    fn duplicate(&self) -> (r: Self) {
        TripDescriptor {
            trip_id: self.trip_id.duplicate(),
            route_id: self.route_id.duplicate(),
            direction_id: self.direction_id.duplicate(),
            start_time: self.start_time.duplicate(),
            start_date: self.start_date.duplicate(),
            schedule_relationship: self.schedule_relationship.duplicate(),
        }
    }
}

impl Clone for TripDescriptor {
    fn clone(&self) -> (r: Self)
        ensures
            r.deep_view() == self.deep_view(),
    {
        self.duplicate()
    }
}

/// A reference to a vehicle.
#[derive(Debug)]
pub struct VehicleDescriptor {
    /// The vehicle.
    pub id: Option<String>,
    /// Label for riders.
    pub label: Option<String>,
    /// License plate.
    pub license_plate: Option<String>,
}

/// The view of a [`VehicleDescriptor`].
#[verifier::ext_equal]
pub struct VehicleDescriptorView {
    pub id: Option<Seq<char>>,
    pub label: Option<Seq<char>>,
    pub license_plate: Option<Seq<char>>,
}

impl DeepView for VehicleDescriptor {
    type V = VehicleDescriptorView;

    open spec fn deep_view(&self) -> VehicleDescriptorView {
        VehicleDescriptorView {
            id: self.id.deep_view(),
            label: self.label.deep_view(),
            license_plate: self.license_plate.deep_view(),
        }
    }
}

impl Duplicate for VehicleDescriptor {
    fn duplicate(&self) -> (r: Self) {
        VehicleDescriptor {
            id: self.id.duplicate(),
            label: self.label.duplicate(),
            license_plate: self.license_plate.duplicate(),
        }
    }
}

impl Clone for VehicleDescriptor {
    fn clone(&self) -> (r: Self)
        ensures
            r.deep_view() == self.deep_view(),
    {
        self.duplicate()
    }
}

/// An arrival or a departure.
#[derive(Debug)]
pub struct StopTimeEvent {
    /// Seconds of delay.
    pub delay: Option<i32>,
    /// Unix time.
    pub time: Option<i64>,
    /// Seconds of uncertainty.
    pub uncertainty: Option<i32>,
}

/// The view of a [`StopTimeEvent`].
#[verifier::ext_equal]
pub struct StopTimeEventView {
    pub delay: Option<i32>,
    pub time: Option<i64>,
    pub uncertainty: Option<i32>,
}

impl DeepView for StopTimeEvent {
    type V = StopTimeEventView;

    open spec fn deep_view(&self) -> StopTimeEventView {
        StopTimeEventView {
            delay: self.delay.deep_view(),
            time: self.time.deep_view(),
            uncertainty: self.uncertainty.deep_view(),
        }
    }
}

impl Duplicate for StopTimeEvent {
    fn duplicate(&self) -> (r: Self) {
        StopTimeEvent {
            delay: self.delay.duplicate(),
            time: self.time.duplicate(),
            uncertainty: self.uncertainty.duplicate(),
        }
    }
}

impl Clone for StopTimeEvent {
    fn clone(&self) -> (r: Self)
        ensures
            r.deep_view() == self.deep_view(),
    {
        self.duplicate()
    }
}

/// Live data on a stop of a trip.
#[derive(Debug)]
pub struct StopTimeUpdate {
    /// Place in the trip.
    pub stop_sequence: Option<u32>,
    /// The stop.
    pub stop_id: Option<String>,
    /// The arrival.
    pub arrival: Option<StopTimeEvent>,
    /// The departure.
    pub departure: Option<StopTimeEvent>,
    /// Code of how it stands against the timetable.
    pub schedule_relationship: Option<i32>,
    /// What the vehicle shows.
    pub stop_headsign: Option<String>,
}

/// The view of a [`StopTimeUpdate`].
#[verifier::ext_equal]
pub struct StopTimeUpdateView {
    pub stop_sequence: Option<u32>,
    pub stop_id: Option<Seq<char>>,
    pub arrival: Option<StopTimeEventView>,
    pub departure: Option<StopTimeEventView>,
    pub schedule_relationship: Option<i32>,
    pub stop_headsign: Option<Seq<char>>,
}

impl DeepView for StopTimeUpdate {
    type V = StopTimeUpdateView;

    open spec fn deep_view(&self) -> StopTimeUpdateView {
        StopTimeUpdateView {
            stop_sequence: self.stop_sequence.deep_view(),
            stop_id: self.stop_id.deep_view(),
            arrival: self.arrival.deep_view(),
            departure: self.departure.deep_view(),
            schedule_relationship: self.schedule_relationship.deep_view(),
            stop_headsign: self.stop_headsign.deep_view(),
        }
    }
}

impl Duplicate for StopTimeUpdate {
    fn duplicate(&self) -> (r: Self) {
        StopTimeUpdate {
            stop_sequence: self.stop_sequence.duplicate(),
            stop_id: self.stop_id.duplicate(),
            arrival: self.arrival.duplicate(),
            departure: self.departure.duplicate(),
            schedule_relationship: self.schedule_relationship.duplicate(),
            stop_headsign: self.stop_headsign.duplicate(),
        }
    }
}

impl Clone for StopTimeUpdate {
    fn clone(&self) -> (r: Self)
        ensures
            r.deep_view() == self.deep_view(),
    {
        self.duplicate()
    }
}

/// Live data on a trip.
#[derive(Debug)]
pub struct TripUpdate {
    /// The trip.
    pub trip: Option<TripDescriptor>,
    /// The vehicle.
    pub vehicle: Option<VehicleDescriptor>,
    /// Data on its stops.
    pub stop_time_update: Vec<StopTimeUpdate>,
    /// When it was measured.
    pub timestamp: Option<u64>,
    /// Seconds of delay.
    pub delay: Option<u32>,
}

/// The view of a [`TripUpdate`].
#[verifier::ext_equal]
pub struct TripUpdateView {
    pub trip: Option<TripDescriptorView>,
    pub vehicle: Option<VehicleDescriptorView>,
    pub stop_time_update: Seq<StopTimeUpdateView>,
    pub timestamp: Option<u64>,
    pub delay: Option<u32>,
}

impl DeepView for TripUpdate {
    type V = TripUpdateView;

    open spec fn deep_view(&self) -> TripUpdateView {
        TripUpdateView {
            trip: self.trip.deep_view(),
            vehicle: self.vehicle.deep_view(),
            stop_time_update: self.stop_time_update.deep_view(),
            timestamp: self.timestamp.deep_view(),
            delay: self.delay.deep_view(),
        }
    }
}

impl Duplicate for TripUpdate {
    fn duplicate(&self) -> (r: Self) {
        TripUpdate {
            trip: self.trip.duplicate(),
            vehicle: self.vehicle.duplicate(),
            stop_time_update: self.stop_time_update.duplicate(),
            timestamp: self.timestamp.duplicate(),
            delay: self.delay.duplicate(),
        }
    }
}

impl Clone for TripUpdate {
    fn clone(&self) -> (r: Self)
        ensures
            r.deep_view() == self.deep_view(),
    {
        self.duplicate()
    }
}

/// The position of a vehicle, of which nothing is read.
#[derive(Debug, Clone, Copy)]
pub struct VehiclePosition {}

impl DeepView for VehiclePosition {
    type V = VehiclePosition;

    open spec fn deep_view(&self) -> VehiclePosition {
        *self
    }
}

impl Duplicate for VehiclePosition {
    fn duplicate(&self) -> (r: Self) {
        *self
    }
}

/// A span of time.
#[derive(Debug)]
pub struct TimeRange {
    /// Unix time of its begin.
    pub start: Option<u64>,
    /// Unix time of its end.
    pub end: Option<u64>,
}

/// The view of a [`TimeRange`].
#[verifier::ext_equal]
pub struct TimeRangeView {
    pub start: Option<u64>,
    pub end: Option<u64>,
}

impl DeepView for TimeRange {
    type V = TimeRangeView;

    open spec fn deep_view(&self) -> TimeRangeView {
        TimeRangeView {
            start: self.start.deep_view(),
            end: self.end.deep_view(),
        }
    }
}

impl Duplicate for TimeRange {
    fn duplicate(&self) -> (r: Self) {
        TimeRange {
            start: self.start.duplicate(),
            end: self.end.duplicate(),
        }
    }
}

impl Clone for TimeRange {
    fn clone(&self) -> (r: Self)
        ensures
            r.deep_view() == self.deep_view(),
    {
        self.duplicate()
    }
}

/// What an alert concerns.
#[derive(Debug)]
pub struct EntitySelector {
    /// An operator.
    pub agency_id: Option<String>,
    /// A route.
    pub route_id: Option<String>,
    /// A kind of route.
    pub route_type: Option<i32>,
    /// A trip.
    pub trip: Option<TripDescriptor>,
    /// A stop.
    pub stop_id: Option<String>,
}

/// The view of a [`EntitySelector`].
#[verifier::ext_equal]
pub struct EntitySelectorView {
    pub agency_id: Option<Seq<char>>,
    pub route_id: Option<Seq<char>>,
    pub route_type: Option<i32>,
    pub trip: Option<TripDescriptorView>,
    pub stop_id: Option<Seq<char>>,
}

impl DeepView for EntitySelector {
    type V = EntitySelectorView;

    open spec fn deep_view(&self) -> EntitySelectorView {
        EntitySelectorView {
            agency_id: self.agency_id.deep_view(),
            route_id: self.route_id.deep_view(),
            route_type: self.route_type.deep_view(),
            trip: self.trip.deep_view(),
            stop_id: self.stop_id.deep_view(),
        }
    }
}

impl Duplicate for EntitySelector {
    fn duplicate(&self) -> (r: Self) {
        EntitySelector {
            agency_id: self.agency_id.duplicate(),
            route_id: self.route_id.duplicate(),
            route_type: self.route_type.duplicate(),
            trip: self.trip.duplicate(),
            stop_id: self.stop_id.duplicate(),
        }
    }
}

impl Clone for EntitySelector {
    fn clone(&self) -> (r: Self)
        ensures
            r.deep_view() == self.deep_view(),
    {
        self.duplicate()
    }
}

/// A text in several languages.
#[derive(Debug)]
pub struct TranslatedString {
    /// Its versions.
    pub translation: Vec<Translation>,
}

/// The view of a [`TranslatedString`].
#[verifier::ext_equal]
pub struct TranslatedStringView {
    pub translation: Seq<TranslationView>,
}

impl DeepView for TranslatedString {
    type V = TranslatedStringView;

    open spec fn deep_view(&self) -> TranslatedStringView {
        TranslatedStringView {
            translation: self.translation.deep_view(),
        }
    }
}

impl Duplicate for TranslatedString {
    fn duplicate(&self) -> (r: Self) {
        TranslatedString {
            translation: self.translation.duplicate(),
        }
    }
}

impl Clone for TranslatedString {
    fn clone(&self) -> (r: Self)
        ensures
            r.deep_view() == self.deep_view(),
    {
        self.duplicate()
    }
}

/// A disruption.
#[derive(Debug)]
pub struct Alert {
    /// When it lasts.
    pub active_period: Vec<TimeRange>,
    /// What it concerns.
    pub informed_entity: Vec<EntitySelector>,
    /// Code of its cause.
    pub cause: Option<i32>,
    /// Code of its effect.
    pub effect: Option<i32>,
    /// Where to read more.
    pub url: Option<TranslatedString>,
    /// Its title.
    pub header_text: Option<TranslatedString>,
    /// Its text.
    pub description_text: Option<TranslatedString>,
}

/// The view of a [`Alert`].
#[verifier::ext_equal]
pub struct AlertView {
    pub active_period: Seq<TimeRangeView>,
    pub informed_entity: Seq<EntitySelectorView>,
    pub cause: Option<i32>,
    pub effect: Option<i32>,
    pub url: Option<TranslatedStringView>,
    pub header_text: Option<TranslatedStringView>,
    pub description_text: Option<TranslatedStringView>,
}

impl DeepView for Alert {
    type V = AlertView;

    open spec fn deep_view(&self) -> AlertView {
        AlertView {
            active_period: self.active_period.deep_view(),
            informed_entity: self.informed_entity.deep_view(),
            cause: self.cause.deep_view(),
            effect: self.effect.deep_view(),
            url: self.url.deep_view(),
            header_text: self.header_text.deep_view(),
            description_text: self.description_text.deep_view(),
        }
    }
}

impl Duplicate for Alert {
    fn duplicate(&self) -> (r: Self) {
        Alert {
            active_period: self.active_period.duplicate(),
            informed_entity: self.informed_entity.duplicate(),
            cause: self.cause.duplicate(),
            effect: self.effect.duplicate(),
            url: self.url.duplicate(),
            header_text: self.header_text.duplicate(),
            description_text: self.description_text.duplicate(),
        }
    }
}

impl Clone for Alert {
    fn clone(&self) -> (r: Self)
        ensures
            r.deep_view() == self.deep_view(),
    {
        self.duplicate()
    }
}

/// One message of a feed.
#[derive(Debug)]
pub struct FeedEntity {
    /// Its reference.
    pub id: Option<String>,
    /// Whether it is withdrawn.
    pub is_deleted: Option<bool>,
    /// Live data on a trip.
    pub trip_update: Option<TripUpdate>,
    /// The position of a vehicle.
    pub vehicle: Option<VehiclePosition>,
    /// A disruption.
    pub alert: Option<Alert>,
}

/// The view of a [`FeedEntity`].
#[verifier::ext_equal]
pub struct FeedEntityView {
    pub id: Option<Seq<char>>,
    pub is_deleted: Option<bool>,
    pub trip_update: Option<TripUpdateView>,
    pub vehicle: Option<VehiclePosition>,
    pub alert: Option<AlertView>,
}

impl DeepView for FeedEntity {
    type V = FeedEntityView;

    open spec fn deep_view(&self) -> FeedEntityView {
        FeedEntityView {
            id: self.id.deep_view(),
            is_deleted: self.is_deleted.deep_view(),
            trip_update: self.trip_update.deep_view(),
            vehicle: self.vehicle.deep_view(),
            alert: self.alert.deep_view(),
        }
    }
}

impl Duplicate for FeedEntity {
    fn duplicate(&self) -> (r: Self) {
        FeedEntity {
            id: self.id.duplicate(),
            is_deleted: self.is_deleted.duplicate(),
            trip_update: self.trip_update.duplicate(),
            vehicle: self.vehicle.duplicate(),
            alert: self.alert.duplicate(),
        }
    }
}

impl Clone for FeedEntity {
    fn clone(&self) -> (r: Self)
        ensures
            r.deep_view() == self.deep_view(),
    {
        self.duplicate()
    }
}

/// A feed.
#[derive(Debug)]
pub struct FeedMessage {
    /// What it says of itself.
    pub header: Option<FeedHeader>,
    /// Its messages.
    pub entity: Vec<FeedEntity>,
}

/// The view of a [`FeedMessage`].
#[verifier::ext_equal]
pub struct FeedMessageView {
    pub header: Option<FeedHeaderView>,
    pub entity: Seq<FeedEntityView>,
}

impl DeepView for FeedMessage {
    type V = FeedMessageView;

    open spec fn deep_view(&self) -> FeedMessageView {
        FeedMessageView {
            header: self.header.deep_view(),
            entity: self.entity.deep_view(),
        }
    }
}

impl Duplicate for FeedMessage {
    fn duplicate(&self) -> (r: Self) {
        FeedMessage {
            header: self.header.duplicate(),
            entity: self.entity.duplicate(),
        }
    }
}

impl Clone for FeedMessage {
    fn clone(&self) -> (r: Self)
        ensures
            r.deep_view() == self.deep_view(),
    {
        self.duplicate()
    }
}

} // verus!
