//! What the readers of the journey planner's documents gather before it is complete.

use vstd::prelude::*;

use crate::coordinate::Coordinate;
use crate::models::{StationType, TripLeg, TripLegView};
use crate::time::FixedDateTime;

verus! {

/// A search result.
#[derive(Debug)]
pub struct TempStation {
    /// Reference.
    pub id: Option<String>,
    /// Name.
    pub name: Option<String>,
    /// Degrees north.
    pub latitude: Option<Coordinate>,
    /// Degrees east.
    pub longitude: Option<Coordinate>,
    /// What it denotes.
    pub station_type: StationType,
    /// Complete at the end of its `Location`, not of its own tag.
    pub finalize_on_location_end: bool,
}

/// The view of a [`TempStation`].
#[verifier::ext_equal]
pub struct TempStationView {
    pub id: Option<Seq<char>>,
    pub name: Option<Seq<char>>,
    pub latitude: Option<Seq<char>>,
    pub longitude: Option<Seq<char>>,
    pub station_type: StationType,
    pub finalize_on_location_end: bool,
}

impl DeepView for TempStation {
    type V = TempStationView;

    open spec fn deep_view(&self) -> TempStationView {
        TempStationView {
            id: self.id.deep_view(),
            name: self.name.deep_view(),
            latitude: self.latitude.deep_view(),
            longitude: self.longitude.deep_view(),
            station_type: self.station_type.deep_view(),
            finalize_on_location_end: self.finalize_on_location_end.deep_view(),
        }
    }
}

/// A place in the context of a trip response.
#[derive(Debug)]
pub struct TempPlace {
    /// Reference of the stop place.
    pub stop_place_ref: Option<String>,
    /// Reference of the stop point.
    pub stop_point_ref: Option<String>,
    /// Name.
    pub name: Option<String>,
    /// Degrees north.
    pub latitude: Option<Coordinate>,
    /// Degrees east.
    pub longitude: Option<Coordinate>,
}

/// The view of a [`TempPlace`].
#[verifier::ext_equal]
pub struct TempPlaceView {
    pub stop_place_ref: Option<Seq<char>>,
    pub stop_point_ref: Option<Seq<char>>,
    pub name: Option<Seq<char>>,
    pub latitude: Option<Seq<char>>,
    pub longitude: Option<Seq<char>>,
}

impl DeepView for TempPlace {
    type V = TempPlaceView;

    open spec fn deep_view(&self) -> TempPlaceView {
        TempPlaceView {
            stop_place_ref: self.stop_place_ref.deep_view(),
            stop_point_ref: self.stop_point_ref.deep_view(),
            name: self.name.deep_view(),
            latitude: self.latitude.deep_view(),
            longitude: self.longitude.deep_view(),
        }
    }
}

impl TempPlaceView {
    /// Nothing read yet.
    pub open spec fn blank() -> TempPlaceView {
        TempPlaceView {
            stop_place_ref: None,
            stop_point_ref: None,
            name: None,
            latitude: None,
            longitude: None,
        }
    }
}

impl TempPlace {
    /// Nothing read yet.
    pub fn new() -> (r: TempPlace)
        ensures
            r.deep_view() == TempPlaceView::blank(),
    {
        TempPlace {
            stop_place_ref: None,
            stop_point_ref: None,
            name: None,
            latitude: None,
            longitude: None,
        }
    }
}

/// An expected occupancy.
#[derive(Debug)]
pub struct TempOccupancy {
    /// Class that it is about.
    pub fare_class: Option<String>,
    /// Code of the level.
    pub level: Option<String>,
}

/// The view of a [`TempOccupancy`].
#[verifier::ext_equal]
pub struct TempOccupancyView {
    pub fare_class: Option<Seq<char>>,
    pub level: Option<Seq<char>>,
}

impl DeepView for TempOccupancy {
    type V = TempOccupancyView;

    open spec fn deep_view(&self) -> TempOccupancyView {
        TempOccupancyView {
            fare_class: self.fare_class.deep_view(),
            level: self.level.deep_view(),
        }
    }
}

impl TempOccupancyView {
    /// Nothing read yet.
    pub open spec fn blank() -> TempOccupancyView {
        TempOccupancyView {
            fare_class: None,
            level: None,
        }
    }
}

impl TempOccupancy {
    /// Nothing read yet.
    pub fn new() -> (r: TempOccupancy)
        ensures
            r.deep_view() == TempOccupancyView::blank(),
    {
        TempOccupancy {
            fare_class: None,
            level: None,
        }
    }
}

/// A call at a stop.
#[derive(Debug)]
pub struct TempStopCall {
    /// Name of the stop.
    pub station: Option<String>,
    /// Reference of the stop point.
    pub stop_point_ref: Option<String>,
    /// Platform in the timetable.
    pub platform_scheduled: Option<String>,
    /// Platform now expected.
    pub platform_expected: Option<String>,
    /// Degrees north.
    pub latitude: Option<Coordinate>,
    /// Degrees east.
    pub longitude: Option<Coordinate>,
    /// Arrival in the timetable.
    pub arrival_scheduled: Option<FixedDateTime>,
    /// Arrival now expected.
    pub arrival_expected: Option<FixedDateTime>,
    /// Departure in the timetable.
    pub departure_scheduled: Option<FixedDateTime>,
    /// Departure now expected.
    pub departure_expected: Option<FixedDateTime>,
}

/// The view of a [`TempStopCall`].
#[verifier::ext_equal]
pub struct TempStopCallView {
    pub station: Option<Seq<char>>,
    pub stop_point_ref: Option<Seq<char>>,
    pub platform_scheduled: Option<Seq<char>>,
    pub platform_expected: Option<Seq<char>>,
    pub latitude: Option<Seq<char>>,
    pub longitude: Option<Seq<char>>,
    pub arrival_scheduled: Option<FixedDateTime>,
    pub arrival_expected: Option<FixedDateTime>,
    pub departure_scheduled: Option<FixedDateTime>,
    pub departure_expected: Option<FixedDateTime>,
}

impl DeepView for TempStopCall {
    type V = TempStopCallView;

    open spec fn deep_view(&self) -> TempStopCallView {
        TempStopCallView {
            station: self.station.deep_view(),
            stop_point_ref: self.stop_point_ref.deep_view(),
            platform_scheduled: self.platform_scheduled.deep_view(),
            platform_expected: self.platform_expected.deep_view(),
            latitude: self.latitude.deep_view(),
            longitude: self.longitude.deep_view(),
            arrival_scheduled: self.arrival_scheduled.deep_view(),
            arrival_expected: self.arrival_expected.deep_view(),
            departure_scheduled: self.departure_scheduled.deep_view(),
            departure_expected: self.departure_expected.deep_view(),
        }
    }
}

impl TempStopCallView {
    /// Nothing read yet.
    pub open spec fn blank() -> TempStopCallView {
        TempStopCallView {
            station: None,
            stop_point_ref: None,
            platform_scheduled: None,
            platform_expected: None,
            latitude: None,
            longitude: None,
            arrival_scheduled: None,
            arrival_expected: None,
            departure_scheduled: None,
            departure_expected: None,
        }
    }
}

impl TempStopCall {
    /// Nothing read yet.
    pub fn new() -> (r: TempStopCall)
        ensures
            r.deep_view() == TempStopCallView::blank(),
    {
        TempStopCall {
            station: None,
            stop_point_ref: None,
            platform_scheduled: None,
            platform_expected: None,
            latitude: None,
            longitude: None,
            arrival_scheduled: None,
            arrival_expected: None,
            departure_scheduled: None,
            departure_expected: None,
        }
    }
}

/// A leg of a trip.
#[derive(Debug)]
pub struct TempLeg {
    /// Mode of transport.
    pub mode: Option<String>,
    /// Line.
    pub line: Option<String>,
    /// Operator.
    pub operator: Option<String>,
    /// Names of stops, as read.
    pub stop_sequence: Vec<String>,
    /// Where to board.
    pub from_station: Option<String>,
    /// Reference of the stop there.
    pub from_stop_ref: Option<String>,
    /// Platform there.
    pub from_platform: Option<String>,
    /// Degrees north there.
    pub from_latitude: Option<Coordinate>,
    /// Degrees east there.
    pub from_longitude: Option<Coordinate>,
    /// Where to alight.
    pub to_station: Option<String>,
    /// Reference of the stop there.
    pub to_stop_ref: Option<String>,
    /// Platform there.
    pub to_platform: Option<String>,
    /// Degrees north there.
    pub to_latitude: Option<Coordinate>,
    /// Degrees east there.
    pub to_longitude: Option<Coordinate>,
    /// Departure in the timetable.
    pub departure_scheduled: Option<FixedDateTime>,
    /// Departure now expected.
    pub departure_expected: Option<FixedDateTime>,
    /// Arrival in the timetable.
    pub arrival_scheduled: Option<FixedDateTime>,
    /// Arrival now expected.
    pub arrival_expected: Option<FixedDateTime>,
    /// Another planned arrival on the way.
    pub fallback_arrival_scheduled: Option<FixedDateTime>,
    /// Another expected arrival on the way.
    pub fallback_arrival_expected: Option<FixedDateTime>,
    /// Level in first class.
    pub occupancy_first_class: Option<String>,
    /// Level in second class.
    pub occupancy_second_class: Option<String>,
    /// Level without regard to class.
    pub occupancy_general: Option<String>,
    /// Calls on the way.
    pub stop_calls: Vec<TempStopCall>,
}

/// The view of a [`TempLeg`].
#[verifier::ext_equal]
pub struct TempLegView {
    pub mode: Option<Seq<char>>,
    pub line: Option<Seq<char>>,
    pub operator: Option<Seq<char>>,
    pub stop_sequence: Seq<Seq<char>>,
    pub from_station: Option<Seq<char>>,
    pub from_stop_ref: Option<Seq<char>>,
    pub from_platform: Option<Seq<char>>,
    pub from_latitude: Option<Seq<char>>,
    pub from_longitude: Option<Seq<char>>,
    pub to_station: Option<Seq<char>>,
    pub to_stop_ref: Option<Seq<char>>,
    pub to_platform: Option<Seq<char>>,
    pub to_latitude: Option<Seq<char>>,
    pub to_longitude: Option<Seq<char>>,
    pub departure_scheduled: Option<FixedDateTime>,
    pub departure_expected: Option<FixedDateTime>,
    pub arrival_scheduled: Option<FixedDateTime>,
    pub arrival_expected: Option<FixedDateTime>,
    pub fallback_arrival_scheduled: Option<FixedDateTime>,
    pub fallback_arrival_expected: Option<FixedDateTime>,
    pub occupancy_first_class: Option<Seq<char>>,
    pub occupancy_second_class: Option<Seq<char>>,
    pub occupancy_general: Option<Seq<char>>,
    pub stop_calls: Seq<TempStopCallView>,
}

impl DeepView for TempLeg {
    type V = TempLegView;

    open spec fn deep_view(&self) -> TempLegView {
        TempLegView {
            mode: self.mode.deep_view(),
            line: self.line.deep_view(),
            operator: self.operator.deep_view(),
            stop_sequence: self.stop_sequence.deep_view(),
            from_station: self.from_station.deep_view(),
            from_stop_ref: self.from_stop_ref.deep_view(),
            from_platform: self.from_platform.deep_view(),
            from_latitude: self.from_latitude.deep_view(),
            from_longitude: self.from_longitude.deep_view(),
            to_station: self.to_station.deep_view(),
            to_stop_ref: self.to_stop_ref.deep_view(),
            to_platform: self.to_platform.deep_view(),
            to_latitude: self.to_latitude.deep_view(),
            to_longitude: self.to_longitude.deep_view(),
            departure_scheduled: self.departure_scheduled.deep_view(),
            departure_expected: self.departure_expected.deep_view(),
            arrival_scheduled: self.arrival_scheduled.deep_view(),
            arrival_expected: self.arrival_expected.deep_view(),
            fallback_arrival_scheduled: self.fallback_arrival_scheduled.deep_view(),
            fallback_arrival_expected: self.fallback_arrival_expected.deep_view(),
            occupancy_first_class: self.occupancy_first_class.deep_view(),
            occupancy_second_class: self.occupancy_second_class.deep_view(),
            occupancy_general: self.occupancy_general.deep_view(),
            stop_calls: self.stop_calls.deep_view(),
        }
    }
}

impl TempLegView {
    /// Nothing read yet.
    pub open spec fn blank() -> TempLegView {
        TempLegView {
            mode: None,
            line: None,
            operator: None,
            stop_sequence: Seq::empty(),
            from_station: None,
            from_stop_ref: None,
            from_platform: None,
            from_latitude: None,
            from_longitude: None,
            to_station: None,
            to_stop_ref: None,
            to_platform: None,
            to_latitude: None,
            to_longitude: None,
            departure_scheduled: None,
            departure_expected: None,
            arrival_scheduled: None,
            arrival_expected: None,
            fallback_arrival_scheduled: None,
            fallback_arrival_expected: None,
            occupancy_first_class: None,
            occupancy_second_class: None,
            occupancy_general: None,
            stop_calls: Seq::empty(),
        }
    }
}

impl TempLeg {
    /// Nothing read yet.
    pub fn new() -> (r: TempLeg)
        ensures
            r.deep_view() == TempLegView::blank(),
    {
        let r = TempLeg {
            mode: None,
            line: None,
            operator: None,
            stop_sequence: Vec::new(),
            from_station: None,
            from_stop_ref: None,
            from_platform: None,
            from_latitude: None,
            from_longitude: None,
            to_station: None,
            to_stop_ref: None,
            to_platform: None,
            to_latitude: None,
            to_longitude: None,
            departure_scheduled: None,
            departure_expected: None,
            arrival_scheduled: None,
            arrival_expected: None,
            fallback_arrival_scheduled: None,
            fallback_arrival_expected: None,
            occupancy_first_class: None,
            occupancy_second_class: None,
            occupancy_general: None,
            stop_calls: Vec::new(),
        };
        assert(r.stop_sequence.deep_view() =~= Seq::empty());
        assert(r.stop_calls.deep_view() =~= Seq::empty());
        r
    }
}

/// A trip.
#[derive(Debug)]
pub struct TempTrip {
    /// Reference of the journey.
    pub id: String,
    /// Legs so far.
    pub legs: Vec<TripLeg>,
}

/// The view of a [`TempTrip`].
#[verifier::ext_equal]
pub struct TempTripView {
    pub id: Seq<char>,
    pub legs: Seq<TripLegView>,
}

impl DeepView for TempTrip {
    type V = TempTripView;

    open spec fn deep_view(&self) -> TempTripView {
        TempTripView {
            id: self.id.deep_view(),
            legs: self.legs.deep_view(),
        }
    }
}

/// A departure.
#[derive(Debug)]
pub struct TempDeparture {
    /// Reference of the journey.
    pub trip_id: Option<String>,
    /// Line.
    pub line: Option<String>,
    /// Where it goes.
    pub destination: Option<String>,
    /// Mode of transport.
    pub mode: Option<String>,
    /// Time in the timetable.
    pub scheduled: Option<FixedDateTime>,
    /// Time now expected.
    pub expected: Option<FixedDateTime>,
    /// Platform.
    pub platform: Option<String>,
    /// Whether it does not run.
    pub cancelled: bool,
}

/// The view of a [`TempDeparture`].
#[verifier::ext_equal]
pub struct TempDepartureView {
    pub trip_id: Option<Seq<char>>,
    pub line: Option<Seq<char>>,
    pub destination: Option<Seq<char>>,
    pub mode: Option<Seq<char>>,
    pub scheduled: Option<FixedDateTime>,
    pub expected: Option<FixedDateTime>,
    pub platform: Option<Seq<char>>,
    pub cancelled: bool,
}

impl DeepView for TempDeparture {
    type V = TempDepartureView;

    open spec fn deep_view(&self) -> TempDepartureView {
        TempDepartureView {
            trip_id: self.trip_id.deep_view(),
            line: self.line.deep_view(),
            destination: self.destination.deep_view(),
            mode: self.mode.deep_view(),
            scheduled: self.scheduled.deep_view(),
            expected: self.expected.deep_view(),
            platform: self.platform.deep_view(),
            cancelled: self.cancelled.deep_view(),
        }
    }
}

impl TempDepartureView {
    /// Nothing read yet.
    pub open spec fn blank() -> TempDepartureView {
        TempDepartureView {
            trip_id: None,
            line: None,
            destination: None,
            mode: None,
            scheduled: None,
            expected: None,
            platform: None,
            cancelled: false,
        }
    }
}

impl TempDeparture {
    /// Nothing read yet.
    pub fn new() -> (r: TempDeparture)
        ensures
            r.deep_view() == TempDepartureView::blank(),
    {
        TempDeparture {
            trip_id: None,
            line: None,
            destination: None,
            mode: None,
            scheduled: None,
            expected: None,
            platform: None,
            cancelled: false,
        }
    }
}

} // verus!
