use swiss_transport_mcp::api::gtfs_realtime::translated_string::Translation;
use swiss_transport_mcp::api::gtfs_realtime::{
    Alert, EntitySelector, FeedEntity, FeedMessage, StopTimeEvent, StopTimeUpdate, TimeRange,
    TranslatedString, TripDescriptor, TripUpdate,
};
use swiss_transport_mcp::api::gtfs_rt::{
    build_disruption, departures_for_station_at, is_in_calendar, whole_minutes, FeedReply,
    GtfsRtClient,
};
use swiss_transport_mcp::models::TripStatus;
use swiss_transport_mcp::time::{FixedDateTime, MIN_SECONDS};

fn at(seconds: i64) -> FixedDateTime {
    FixedDateTime::new(seconds, 0, 0).expect("a time within the calendar")
}

fn event(time: Option<i64>, delay: Option<i32>) -> StopTimeEvent {
    StopTimeEvent { delay, time, uncertainty: None }
}

fn stop(id: &str, arrival: Option<StopTimeEvent>, departure: Option<StopTimeEvent>) -> StopTimeUpdate {
    StopTimeUpdate {
        stop_sequence: None,
        stop_id: Some(id.to_string()),
        arrival,
        departure,
        schedule_relationship: Some(1),
        stop_headsign: Some("Zug".to_string()),
    }
}

fn trip(id: &str, relationship: Option<i32>, stops: Vec<StopTimeUpdate>) -> FeedEntity {
    FeedEntity {
        id: None,
        is_deleted: None,
        trip_update: Some(TripUpdate {
            trip: Some(TripDescriptor {
                trip_id: Some(id.to_string()),
                route_id: None,
                direction_id: None,
                start_time: None,
                start_date: None,
                schedule_relationship: relationship,
            }),
            vehicle: None,
            stop_time_update: stops,
            timestamp: None,
            delay: None,
        }),
        vehicle: None,
        alert: None,
    }
}

fn feed(entity: Vec<FeedEntity>) -> FeedMessage {
    FeedMessage { header: None, entity }
}

fn alert(id: Option<&str>, route: &str, stop: &str, text: Option<&str>) -> FeedEntity {
    FeedEntity {
        id: id.map(|i| i.to_string()),
        is_deleted: None,
        trip_update: None,
        vehicle: None,
        alert: Some(Alert {
            active_period: vec![TimeRange { start: Some(0), end: None }],
            informed_entity: vec![EntitySelector {
                agency_id: None,
                route_id: Some(route.to_string()),
                route_type: None,
                trip: None,
                stop_id: Some(stop.to_string()),
            }],
            cause: Some(3),
            effect: None,
            url: None,
            header_text: Some(TranslatedString {
                translation: vec![
                    Translation { text: None, language: None },
                    Translation { text: Some("Title".to_string()), language: None },
                ],
            }),
            description_text: text.map(|t| TranslatedString {
                translation: vec![Translation { text: Some(t.to_string()), language: None }],
            }),
        }),
    }
}

#[test]
fn departures_of_a_station_are_in_order() {
    let data = feed(vec![
        trip("late", None, vec![stop("1", None, Some(event(Some(2000), Some(120))))]),
        trip("early", None, vec![
            stop("2", None, Some(event(Some(10), None))),
            stop("1", Some(event(Some(1000), None)), None),
            stop("1", None, None),
        ]),
    ]);
    let now = at(500);
    assert!(is_in_calendar(&data, "1", now));
    let board = departures_for_station_at(&data, "1", 10, now);
    let ids: Vec<Option<&str>> = board.iter().map(|d| d.trip_id.as_deref()).collect();
    assert_eq!(ids, vec![Some("early"), Some("late")]);
    assert_eq!(board[1].delay_minutes, 2);
    assert_eq!(board[1].expected.seconds(), 2000);
    assert_eq!(board[1].scheduled.seconds(), 2000 - 120 * 60);
    assert_eq!(board[1].scheduled.offset(), 3600);
    assert_eq!(board[1].destination, "Zug");
    assert_eq!(board[1].service, "Transit");
    assert_eq!(board[0].status, TripStatus::OnTime);
    assert_eq!(GtfsRtClient::departures_for_station(&data, "1", 1).map(|b| b.len()), Some(1));
}

#[test]
fn departure_without_a_time_is_now() {
    let data = feed(vec![trip("t", None, vec![
        stop("1", None, Some(event(None, None))),
        stop("1", None, Some(event(Some(-5), None))),
        stop("1", None, Some(event(Some(i64::MAX), None))),
    ])]);
    let board = departures_for_station_at(&data, "1", 10, at(500));
    assert_eq!(board.len(), 3);
    assert!(board.iter().all(|d| d.expected.seconds() == 500));
}

#[test]
fn planned_times_outside_the_calendar_are_noticed() {
    let data = feed(vec![trip("t", None, vec![stop("1", None, Some(event(None, Some(i32::MAX))))])]);
    assert!(!is_in_calendar(&data, "1", at(MIN_SECONDS)));
    assert!(is_in_calendar(&data, "2", at(MIN_SECONDS)));
    assert!(is_in_calendar(&data, "1", at(0)));
}

#[test]
fn live_data_on_a_trip_is_collected() {
    let data = feed(vec![
        trip("x", None, vec![]),
        trip("t", Some(3), vec![
            stop("1", Some(event(None, Some(-90))), Some(event(None, Some(330)))),
            stop("2", Some(event(None, Some(240))), None),
        ]),
    ]);
    let details = GtfsRtClient::trip_details(&data, "t").expect("the trip");
    assert_eq!(details.trip_id, "t");
    assert_eq!(details.current_delay_minutes, 5);
    assert!(details.is_cancelled);
    assert_eq!(details.stop_updates.len(), 2);
    assert_eq!(details.stop_updates[0].arrival_delay_minutes, Some(-1));
    assert_eq!(details.stop_updates[0].departure_delay_minutes, Some(5));
    assert_eq!(details.stop_updates[0].schedule_relationship.as_deref(), Some("Skipped"));
    assert!(details.platform_changes.is_empty());
    assert!(!GtfsRtClient::trip_details(&data, "x").expect("the trip").is_cancelled);
    assert!(GtfsRtClient::trip_details(&data, "y").is_none());
    assert_eq!(whole_minutes(-119), -1);
}

#[test]
fn disruptions_match_the_filters() {
    let data = feed(vec![
        alert(Some("a"), "S1", "8507000", Some("Text")),
        alert(None, "S2", "8505000", None),
        trip("t", None, vec![]),
    ]);
    let all = GtfsRtClient::disruptions(&data, None, None);
    assert_eq!(all.len(), 2);
    assert_eq!(all[0].id, "a");
    assert_eq!(all[0].affected_lines, vec!["S1"]);
    assert_eq!(all[0].affected_stations, vec!["8507000"]);
    assert_eq!(all[0].reason.as_deref(), Some("TechnicalProblem"));
    assert_eq!(all[0].description.as_deref(), Some("Text"));
    assert_eq!(all[0].starts_at.map(|t| t.seconds()), Some(0));
    assert!(all[0].ends_at.is_none());
    assert_eq!(all[1].description.as_deref(), Some("Title"));
    assert_eq!(all[1].id.len(), 36);
    assert_eq!(GtfsRtClient::disruptions(&data, Some("s2"), None).len(), 1);
    assert_eq!(GtfsRtClient::disruptions(&data, None, Some("850700")).len(), 1);
    assert_eq!(GtfsRtClient::disruptions(&data, Some("s2"), Some("850700")).len(), 0);
    let one = build_disruption(&data.entity[1], None, None, "fresh".to_string()).expect("one");
    assert_eq!(one.id, "fresh");
}

#[test]
fn feed_is_answered_from_the_cache() {
    let mut client = GtfsRtClient::new("https://gtfs".to_string(), "t".to_string());
    assert!(client.cached_feed().is_none());
    let error = client.finish_fetch(FeedReply::Unreachable("down".to_string())).expect_err("none");
    assert_eq!(error.message, "down");
    let fresh = feed(vec![trip("t", None, vec![])]);
    let (data, warning) = client.finish_fetch(FeedReply::Feed(fresh)).expect("a feed");
    assert_eq!(data.entity.len(), 1);
    assert!(warning.is_none());
    assert_eq!(client.cached_feed().map(|f| f.entity.len()), Some(1));
    let (_, warning) =
        client.finish_fetch(FeedReply::Unreachable("down".to_string())).expect("a stale feed");
    assert_eq!(
        warning.expect("a caveat").message,
        "GTFS-RT request failed (down); returning stale cached feed"
    );
    let refused = |body: String| FeedReply::Refused {
        status: "401 Unauthorized".to_string(),
        url: "https://gtfs".to_string(),
        body,
    };
    let error = client.finish_fetch(refused(" ".to_string())).expect_err("refused");
    assert_eq!(error.message, "GTFS-RT API returned status 401 Unauthorized at https://gtfs");
    let error = client.finish_fetch(refused("x".repeat(300))).expect_err("refused");
    assert_eq!(
        error.message,
        format!(
            "GTFS-RT API returned status 401 Unauthorized at https://gtfs (body: {})",
            "x".repeat(220)
        )
    );
    let error = client.finish_fetch(FeedReply::Unreadable("bad".to_string())).expect_err("bad");
    assert_eq!(error.message, "bad");
}
