use swiss_transport_mcp::api::ojp::places::PlaceIndex;
use swiss_transport_mcp::config::Config;
use swiss_transport_mcp::coordinate::Coordinate;
use swiss_transport_mcp::error::failure;
use swiss_transport_mcp::json::Json;
use swiss_transport_mcp::models::{
    Departure, Disruption, GeoPoint, LegStop, Station, StationType, TimeInfo,
    ToolWarning, TransportMode, Trip, TripDetails, TripLeg, TripLegOccupancy, TripStatus,
};
use swiss_transport_mcp::nl::{parse_mode_token, parse_modes, split_route_phrase};
use swiss_transport_mcp::service::coordinates::{
    add_found, enrich_trip_coordinates, pick_station_coordinates, trip_station_names,
};
use swiss_transport_mcp::service::departures::{
    answer_departures, answer_trip_details, apply_live_data, begin_board, begin_station,
    departure_window, finish_station, needs_live_data, BoardStep, StationStep,
};
use swiss_transport_mcp::service::monitor::{check_subscription, Monitor};
use swiss_transport_mcp::service::planning::{answer_trip_search, answer_trip_search_at};
use swiss_transport_mcp::service::report::{
    answer_trips, build_option_reports, build_option_reports_at, build_trip_report,
    build_trip_report_at, collect_station_tokens,
    filter_relevant_disruptions, limit_trips, live_events_error_message,
};
use swiss_transport_mcp::service::state::AppState;
use swiss_transport_mcp::service::station::{
    answer_stations, begin_endpoint, departure_limit, finish_endpoint, format_station_candidates,
    place_limit, place_query, resolve_place, select_station_candidate, station_limit,
    take_explicit_endpoints, trip_limit, EndpointStep, ResolvedEndpoint,
};
use swiss_transport_mcp::service::when::parse_structured_modes;
use swiss_transport_mcp::time::FixedDateTime;

fn at(seconds: i64) -> FixedDateTime {
    FixedDateTime::new(seconds, 0, 0).expect("a time within the calendar")
}

fn place(id: &str, name: &str, point: Option<(&str, &str)>) -> Station {
    Station {
        id: id.to_string(),
        name: name.to_string(),
        latitude: point.and_then(|p| Coordinate::parse(p.0)),
        longitude: point.and_then(|p| Coordinate::parse(p.1)),
        station_type: StationType::Stop,
    }
}

fn leg(from: &str, to: &str, line: Option<&str>, status: TripStatus) -> TripLeg {
    let time = |seconds, late: i64| TimeInfo {
        scheduled: at(seconds),
        expected: at(seconds + late),
        delay_minutes: 0,
    };
    let end = |name: &str| LegStop { station: name.to_string(), platform: None, coordinates: None };
    TripLeg {
        mode: "rail".to_string(),
        line: line.map(|l| l.to_string()),
        service: "Train".to_string(),
        operator: None,
        occupancy: None,
        stops: vec![from.to_string(), to.to_string()],
        stop_calls: vec![],
        from: end(from),
        to: end(to),
        departure: time(1000, 0),
        arrival: time(4600, 60),
        status,
    }
}

fn trip(id: &str, legs: Vec<TripLeg>) -> Trip {
    Trip { id: id.to_string(), duration_minutes: 60, legs }
}

fn disruption(id: &str, line: &str, text: Option<&str>) -> Disruption {
    Disruption {
        id: id.to_string(),
        affected_lines: vec![line.to_string()],
        affected_stations: vec![],
        reason: None,
        description: text.map(|t| t.to_string()),
        starts_at: None,
        ends_at: None,
        alternatives: vec![],
    }
}

fn departure(id: &str, mode: Option<&str>, expected: i64, delay_minutes: i32) -> Departure {
    Departure {
        trip_id: Some(id.to_string()),
        line: None,
        service: "Transit".to_string(),
        destination: "Zug".to_string(),
        mode: mode.map(|m| m.to_string()),
        scheduled: at(expected),
        expected: at(expected),
        delay_minutes,
        platform: None,
        status: TripStatus::OnTime,
    }
}

fn warning(message: &str) -> Option<ToolWarning> {
    Some(ToolWarning { message: message.to_string(), stale: true })
}

#[test]
fn limits_have_defaults_and_bounds() {
    assert_eq!((station_limit(None), station_limit(Some(0)), station_limit(Some(99))), (10, 0, 50));
    assert_eq!((place_limit(None), place_limit(Some(0)), place_limit(Some(99))), (8, 1, 20));
    assert_eq!((trip_limit(None), trip_limit(Some(0)), trip_limit(Some(3)), trip_limit(Some(9))), (5, 1, 3, 5));
    assert_eq!((departure_limit(None), departure_limit(Some(0)), departure_limit(Some(999))), (20, 0, 100));
    assert_eq!((departure_window(None), departure_window(Some(-5)), departure_window(Some(7))), (120, 1, 7));
}

#[test]
fn inexact_names_fall_back_to_a_beginning_or_the_first() {
    let stations = vec![place("1", "Bern", None), place("2", " luzern Bahnhof", None), place("3", "Luzern", None)];
    let chosen = |query, strict| {
        select_station_candidate(query, &stations, strict).map(|s| s.id.as_str())
    };
    assert_eq!(chosen(" LUZERN ", false), Some("3"));
    assert_eq!(chosen("luz", false), Some("2"));
    assert_eq!(chosen("luz", true), None);
    assert_eq!(chosen("Zug", false), Some("1"));
    assert!(select_station_candidate("Zug", &vec![], false).is_none());
    assert_eq!(
        format_station_candidates(&stations),
        "Bern (1),  luzern Bahnhof (2), Luzern (3)"
    );
    let many: Vec<Station> = (0..9).map(|i| place("i", &format!("n{i}"), None)).collect();
    assert!(!format_station_candidates(&many).contains("n8"));
}

#[test]
fn places_are_resolved_or_reported() {
    let stations = vec![place("1", "Bern", None)];
    let hints = vec!["Bern".to_string(), "Berna".to_string()];
    assert_eq!(place_query("  ").expect_err("blank").message, "query is required");
    assert_eq!(place_query(" Bern ").expect("a query"), "Bern");
    assert_eq!(resolve_place("bern", &stations, &hints, true).expect("a place").id, "1");
    assert_eq!(
        resolve_place("Zug", &vec![], &hints, false).expect_err("none").message,
        "place not found: Zug (suggestions: Bern, Berna)"
    );
    assert_eq!(
        resolve_place("Zug", &stations, &hints, true).expect_err("none").message,
        "no exact match for 'Zug'; candidates: Bern (1)"
    );
    assert_eq!(
        answer_stations("Zug", vec![], vec![]).expect_err("none").message,
        "Zug (suggestions: )"
    );
    assert_eq!(answer_stations("Bern", stations, hints).expect("stations").stations.len(), 1);
}

#[test]
fn ends_of_a_trip_are_known_or_searched_for() {
    let begin = |name, id| match begin_endpoint("origin", name, id) {
        EndpointStep::Known(e) => format!("{} {}", e.id, e.name),
        EndpointStep::Search(query) => format!("search {query}"),
        EndpointStep::Failed(e) => e.message,
    };
    assert_eq!(begin(Some(" Bern "), Some(" 1 ")), "1 Bern");
    assert_eq!(begin(Some(" "), Some("1")), "1 1");
    assert_eq!(begin(Some(" Bern "), Some(" ")), "search Bern");
    assert_eq!(begin(None, None), "origin station is required");
    let stations = vec![place("1", "Bern", None)];
    let end = finish_endpoint("origin", "bern", &stations, &vec![], true).expect("an end");
    assert_eq!((end.id.as_str(), end.name.as_str()), ("1", "Bern"));
    assert_eq!(
        finish_endpoint("destination", "Zug", &vec![], &vec!["x".to_string()], true)
            .expect_err("none")
            .message,
        "destination station not found: Zug (suggestions: x)"
    );
    assert_eq!(
        finish_endpoint("destination", "Zug", &stations, &vec![], true).expect_err("none").message,
        "no exact destination station match for 'Zug'; candidates: Bern (1)"
    );
    let (from, to) = take_explicit_endpoints(" 1 ", "2", Some("A"), Some(" ")).expect("ends");
    assert_eq!((from.id.as_str(), from.name.as_str()), ("1", "A"));
    assert_eq!((to.id.as_str(), to.name.as_str()), ("2", "2"));
    assert_eq!(
        take_explicit_endpoints("1", " ", None, None).expect_err("none").message,
        "from_id and to_id are required"
    );
}

#[test]
fn modes_are_asked_for_once() {
    let words = |list: &[&str]| Some(list.iter().map(|w| w.to_string()).collect::<Vec<String>>());
    assert_eq!(
        parse_structured_modes(words(&["Train", "water", "rail", "x"])),
        vec![TransportMode::Rail, TransportMode::Ship]
    );
    assert_eq!(parse_structured_modes(words(&["x"])), vec![TransportMode::All]);
    assert_eq!(parse_structured_modes(None), vec![TransportMode::All]);
    assert_eq!(
        parse_modes(words(&["boat", "boat", "water"]), Some("bus")),
        vec![TransportMode::Ship]
    );
    assert_eq!(
        parse_modes(words(&["x"]), Some("Trams, gondolas and trains")),
        vec![TransportMode::Rail, TransportMode::Tram, TransportMode::Cableway]
    );
    assert_eq!(parse_modes(None, Some("anything")), vec![TransportMode::All]);
    for mode in TransportMode::all_modes() {
        assert_eq!(parse_mode_token(mode.as_str()), Some(mode));
    }
}

#[test]
fn routes_are_split() {
    let split = |from: &str, to| split_route_phrase(from, to);
    let pair = |a: &str, b: &str| (a.to_string(), b.to_string());
    assert_eq!(split(" Bern ", Some(" Zug ")), pair("Bern", "Zug"));
    assert_eq!(split("Zürich TO Zug to Bern", None), pair("Zürich", "Zug to Bern"));
    assert_eq!(split("Bern to ", Some(" ")), pair("Bern to", ""));
    assert_eq!(split("Toronto", None), pair("Toronto", ""));
}

#[test]
fn station_of_a_board_is_known_or_searched_for() {
    let begin = |id, query| match begin_station(id, query) {
        StationStep::Known(id) => format!("known {id}"),
        StationStep::Search(query) => format!("search {query}"),
        StationStep::Failed(e) => e.message,
    };
    assert_eq!(begin(Some(" 1 "), Some("Bern")), "known 1");
    assert_eq!(begin(Some(" "), Some(" Bern ")), "search Bern");
    assert_eq!(begin(None, None), "station_id or station_query is required");
    assert_eq!(
        finish_station("Bern", &vec![place("1", "Bern", None)], &vec![]).expect("a station"),
        "1"
    );
    assert_eq!(
        finish_station("Bern", &vec![], &vec!["a".to_string()]).expect_err("none").message,
        "station not found: Bern (suggestions: a)"
    );
}

#[test]
fn live_data_takes_the_place_of_a_board_without_delays() {
    let board = vec![departure("a", None, 1, 0)];
    assert!(needs_live_data(&board));
    assert!(needs_live_data(&vec![]));
    assert!(!needs_live_data(&vec![departure("a", None, 1, 0), departure("b", None, 2, -1)]));
    let (kept, caveat) = apply_live_data((board, None), (vec![], warning("w")));
    assert_eq!(kept[0].trip_id.as_deref(), Some("a"));
    assert_eq!(caveat.map(|w| w.message), Some("w".to_string()));
    let (kept, caveat) =
        apply_live_data((kept, warning("v")), (vec![departure("b", None, 2, 0)], warning("w")));
    assert_eq!(kept[0].trip_id.as_deref(), Some("b"));
    assert_eq!(caveat.map(|w| w.message), Some("v".to_string()));
}

#[test]
fn board_is_filtered_sorted_and_limited() {
    let board = || {
        vec![
            departure("late", Some("BOAT"), 30, 0),
            departure("train", Some("rail"), 20, 0),
            departure("early", Some("water"), 10, 0),
            departure("unknown", None, 5, 0),
        ]
    };
    let ids = |modes: Vec<TransportMode>, limit| -> Vec<String> {
        answer_departures(board(), warning("w"), &modes, limit)
            .departures
            .into_iter()
            .filter_map(|d| d.trip_id)
            .collect()
    };
    assert_eq!(ids(vec![TransportMode::Ship], 9), vec!["early", "late"]);
    assert_eq!(ids(vec![TransportMode::Rail], 9), vec!["train"]);
    assert_eq!(ids(vec![TransportMode::All], 3), vec!["unknown", "early", "train"]);
    assert!(answer_departures(board(), warning("w"), &vec![], 9).warning.is_some());
}

#[test]
fn one_service_is_enough() {
    let describe = |step: BoardStep| match step {
        BoardStep::AskFeed(_) => "ask".to_string(),
        BoardStep::Finish(Ok(answer)) => answer
            .departures
            .iter()
            .filter_map(|d| d.trip_id.clone())
            .chain(answer.warning.iter().map(|w| w.message.clone()))
            .collect::<Vec<String>>()
            .join(" "),
        BoardStep::Finish(Err(e)) => format!("failed {}", e.message),
    };
    let all = || vec![TransportMode::All];
    let punctual = |id: &str| Ok((vec![departure(id, None, 1, 0)], None));
    let late = |id: &str| Ok((vec![departure(id, None, 1, 5)], warning("w")));
    let broken = || Err(failure("down".to_string()));
    let go_on = |step: BoardStep, live| match step {
        BoardStep::AskFeed(search) => search.take_live(live),
        finished => finished,
    };
    assert_eq!(describe(begin_board(late("a"), all(), 9)), "a w");
    assert_eq!(describe(begin_board(punctual("a"), all(), 9)), "ask");
    assert_eq!(describe(begin_board(broken(), all(), 9)), "ask");
    assert_eq!(describe(go_on(begin_board(punctual("a"), all(), 9), broken())), "a");
    assert_eq!(describe(go_on(begin_board(punctual("a"), all(), 9), late("b"))), "b w");
    assert_eq!(describe(go_on(begin_board(broken(), all(), 9), broken())), "failed down");
    assert_eq!(describe(go_on(begin_board(broken(), all(), 9), late("b"))), "b w");
    let again = go_on(begin_board(broken(), all(), 9), punctual("b"));
    assert_eq!(describe(go_on(again, late("c"))), "c w");
}

#[test]
fn trips_outside_the_feed_are_reported() {
    assert_eq!(answer_trip_details("t", Some(details(0)), None).expect("details").trip.trip_id, "t");
    assert_eq!(
        answer_trip_details("t", None, None).expect_err("none").message,
        "trip not found: t"
    );
}

#[test]
fn relevant_disruptions_name_a_line_or_a_station() {
    let trips = vec![trip("t", vec![leg("Bern", "Zug", Some("S1"), TripStatus::OnTime)])];
    assert_eq!(
        collect_station_tokens(&trips, "Bern", "Aarau"),
        vec!["aarau", "bern", "zug"]
    );
    let all = vec![
        disruption("line", "s12", None),
        disruption("station", "x", Some("Closed at ZUG")),
        disruption("other", "x", Some("elsewhere")),
    ];
    let ids = |list: Vec<Disruption>| list.into_iter().map(|d| d.id).collect::<Vec<String>>();
    assert_eq!(
        ids(filter_relevant_disruptions(&all, &trips, "Bern", "Zug", true)),
        vec!["line", "station"]
    );
    let many: Vec<Disruption> = (0..9).map(|i| disruption(&format!("{i}"), "x", None)).collect();
    assert_eq!(filter_relevant_disruptions(&many, &trips, "Bern", "Zug", true).len(), 8);
    assert!(filter_relevant_disruptions(&many, &trips, "Bern", "Zug", false).is_empty());
    assert!(filter_relevant_disruptions(&vec![], &trips, "Bern", "Zug", true).is_empty());
}

#[test]
fn failures_of_the_live_feed_are_explained() {
    assert_eq!(
        live_events_error_message("timeout", "https://gtfs"),
        "live event feed unavailable (timeout)"
    );
    assert_eq!(
        live_events_error_message("status 403 FORBIDDEN", "https://gtfs"),
        "live event feed unavailable (status 403 FORBIDDEN). GTFS auth diagnostics: endpoint=https://gtfs, token_source=dedicated GTFS_RT_TOKEN, verify GTFS_RT_TOKEN is correctly propagated in mcp_servers.<id>.env_vars and matches the token that succeeds in shell probes"
    );
}

#[test]
fn search_is_reported() {
    let trips = vec![
        trip("a", vec![leg("Bern", "Zug", Some("S1"), TripStatus::OnTime)]),
        trip("b", vec![leg("Bern", "Zug", None, TripStatus::PlatformChanged)]),
    ];
    let report = build_trip_report_at(
        "Bern",
        "Zug",
        &trips,
        Ok((vec![disruption("d", "S1", None)], None)),
        "https://gtfs",
        at(5),
    );
    assert_eq!(report.total_options, 2);
    assert_eq!(report.delayed_options, 1);
    assert_eq!(report.live_events_status, "available");
    assert_eq!(report.generated_at.seconds(), 5);
    let failed =
        build_trip_report_at("Bern", "Zug", &trips, Err(failure("down".to_string())), "e", at(5));
    assert!(failed.live_events.is_empty());
    assert_eq!(failed.live_events_status, "unavailable: live event feed unavailable (down)");
    let current =
        build_trip_report("Bern", "Zug", &trips, Ok((vec![], None)), "e");
    assert!(current.generated_at.seconds() > 1_700_000_000);
    let quiet = build_trip_report_at("Bern", "Zug", &trips, Ok((vec![], None)), "e", at(5));
    assert_eq!(quiet.live_events_status, "none");
}

#[test]
fn trips_are_reported_one_by_one() {
    let mut first = leg("Bern", "Zug", Some("S1"), TripStatus::OnTime);
    first.from.platform = Some("3".to_string());
    first.occupancy =
        Some(TripLegOccupancy { first_class: None, second_class: None, general: Some("high".to_string()) });
    let trips = vec![trip("a", vec![first]), trip("b", vec![])];
    let report = build_trip_report_at(
        "Bern",
        "Zug",
        &trips,
        Ok((vec![disruption("d", "S1", None)], None)),
        "e",
        at(5),
    );
    let formations = vec![Ok(Some("2:1#NF".to_string())), Err(failure("down".to_string()))];
    let reports = build_option_reports_at(&trips, "Bern", "Zug", Some(&report), formations, at(9));
    assert_eq!(reports.len(), 2);
    let a = &reports[0];
    assert_eq!(a.trip_id, "a");
    assert_eq!((a.time.departure.seconds(), a.time.arrival.seconds(), a.time.duration_minutes), (1000, 4660, 61));
    assert_eq!(a.platform.departure.as_deref(), Some("3"));
    assert_eq!(a.platform.arrival, None);
    assert_eq!(a.final_destination, "Zug");
    assert_eq!(a.occupancy.as_ref().and_then(|o| o.general.as_deref()), Some("high"));
    assert_eq!(a.events.len(), 1);
    assert_eq!(a.events_status, "available");
    assert_eq!(a.wagon_formation.as_deref(), Some("2:1#NF"));
    assert_eq!(a.wagon_formation_status, "available");
    assert_eq!(a.wagon_formation_diagram.as_deref(), Some("|2:1 NF|"));
    let b = &reports[1];
    assert_eq!((b.time.departure.seconds(), b.time.duration_minutes), (9, 0));
    assert_eq!(b.final_destination, "Zug");
    assert_eq!(b.events_status, "none");
    assert_eq!(b.wagon_formation_status, "unavailable: down");
    assert!(b.wagon_formation_readable.is_none());
    let none = build_option_reports(&trips, "Bern", "Zug", None, vec![Ok(None), Ok(None)]);
    assert!(none[1].time.departure.seconds() > 1_700_000_000);
    assert_eq!(none[0].wagon_formation_status, "none");
    assert!(none[0].events.is_empty());
}

#[test]
fn empty_search_comes_with_a_caveat() {
    let trips: Vec<Trip> = (0..4).map(|i| trip(&format!("{i}"), vec![])).collect();
    let limited = limit_trips(trips, 2);
    assert_eq!(limited.len(), 2);
    let answer = answer_trips(limited, None, None, vec![]);
    assert!(answer.warning.is_none());
    let answer = answer_trips(vec![], warning("w"), None, vec![]);
    assert_eq!(
        answer.warning.expect("a caveat").message,
        "No connections found for the selected parameters. Try a broader mode filter or different departure time."
    );
}

#[test]
fn trip_search_is_answered_with_its_ends() {
    let end = |id: &str, name: &str| ResolvedEndpoint { id: id.to_string(), name: name.to_string() };
    let trips: Vec<Trip> = (0..3)
        .map(|i| trip(&format!("{i}"), vec![leg("Bern", "Zug", None, TripStatus::OnTime)]))
        .collect();
    let answer = answer_trip_search_at(
        end("b", "Bern"),
        end("z", "Zug"),
        (trips, warning("w")),
        2,
        &PlaceIndex::new(),
        Ok((vec![], None)),
        "feed",
        vec![Ok(None), Ok(None)],
        (at(5), at(6)),
    );
    assert_eq!((answer.resolved_from.id.as_str(), answer.resolved_from.name.as_str()), ("b", "Bern"));
    assert_eq!((answer.resolved_to.id.as_str(), answer.resolved_to.name.as_str()), ("z", "Zug"));
    let ids: Vec<&str> = answer.response.trips.iter().map(|t| t.id.as_str()).collect();
    assert_eq!(ids, vec!["0", "1"]);
    assert_eq!(answer.response.option_reports.len(), 2);
    assert_eq!(answer.response.warning.expect("a caveat").message, "w");
    let report = answer.response.report.expect("a report");
    assert_eq!(report.total_options, 2);
    assert_eq!(report.generated_at.seconds(), 5);
    let none = answer_trip_search(
        end("b", "Bern"),
        end("z", "Zug"),
        (vec![], warning("w")),
        2,
        &PlaceIndex::new(),
        Err(failure("down".to_string())),
        "feed",
        vec![],
    );
    assert!(none.response.trips.is_empty() && none.response.option_reports.is_empty());
    let caveat = none.response.warning.expect("a caveat");
    assert_eq!(
        caveat.message,
        "No connections found for the selected parameters. Try a broader mode filter or different departure time."
    );
    assert!(!caveat.stale);
    assert_eq!(none.resolved_to.id, "z");
}

#[test]
fn trips_are_given_coordinates() {
    let mut trips = vec![trip("t", vec![leg("Bern", "Zug", None, TripStatus::OnTime)])];
    trips[0].legs[0].to.coordinates = Some(GeoPoint {
        latitude: Coordinate::parse("1").expect("a number"),
        longitude: Coordinate::parse("2").expect("a number"),
    });
    assert_eq!(trip_station_names(&trips), vec!["Bern", "Zug"]);
    let mut places = PlaceIndex::new();
    let found = vec![
        place("1", "Bern Wankdorf", Some(("46.9", "7.4"))),
        place("2", " bern", Some(("46.94857", "7.43683"))),
    ];
    add_found(&mut places, "Bern", &found);
    add_found(&mut places, "Zug", &found);
    enrich_trip_coordinates(&mut trips, &places);
    let leg = &trips[0].legs[0];
    let from = leg.from.coordinates.as_ref().expect("coordinates");
    assert_eq!(from.latitude.as_str(), "46.94857");
    let to = leg.to.coordinates.as_ref().expect("coordinates");
    assert_eq!(to.latitude.as_str(), "1");
    let first = pick_station_coordinates("Zug", &found).expect("coordinates");
    assert_eq!(first.longitude.as_str(), "7.4");
    assert!(pick_station_coordinates("Zug", &vec![place("1", "Zug", None)]).is_none());
}

#[test]
fn only_numbers_are_coordinates() {
    for good in ["47.177770", "-7.5", "+3", "1e3", ".5", "5.", "inf", "NaN", "1E-2"] {
        assert!(Coordinate::parse(good).is_some(), "{good}");
        assert!(good.parse::<f64>().is_ok(), "{good}");
    }
    for bad in ["", ".", "e3", "4 7", "47,1", "1e", "--1", "0x1"] {
        assert!(Coordinate::parse(bad).is_none(), "{bad}");
        assert!(bad.parse::<f64>().is_err(), "{bad}");
    }
}

#[test]
fn subscriptions_are_notified_of_growing_delays() {
    let mut monitor = Monitor::new();
    let made = monitor.subscribe_as("s".to_string(), "t", Some(0), at(7));
    assert_eq!((made.notify_on_delay_minutes, made.created_at.seconds()), (1, 7));
    let other = monitor.subscribe("u", None);
    assert_eq!(other.notify_on_delay_minutes, 10);
    assert_eq!(other.subscription_id.len(), 36);
    let snapshot = monitor.snapshot();
    assert_eq!(snapshot.len(), 2);
    assert!(check_subscription(&snapshot[0], 0, &None).is_none());
    let note = check_subscription(&snapshot[0], 5, &warning("w")).expect("a notification");
    let data = note.get("params").and_then(|p| p.get("data")).expect("data");
    assert_eq!(data.get("subscriptionId").and_then(|v| v.as_str()), Some("s"));
    assert_eq!(data.get("tripId").and_then(|v| v.as_str()), Some("t"));
    assert!(matches!(data.get("delayMinutes"), Some(Json::Number(n)) if n == "5"));
    assert!(matches!(data.get("thresholdMinutes"), Some(Json::Number(n)) if n == "1"));
    let caveat = data.get("warning").expect("a caveat");
    assert_eq!(caveat.get("message").and_then(|v| v.as_str()), Some("w"));
    assert!(matches!(caveat.get("stale"), Some(Json::Bool(true))));
    monitor.report("s", 5);
    let snapshot = monitor.snapshot();
    assert!(check_subscription(&snapshot[0], 5, &None).is_none());
    assert!(check_subscription(&snapshot[0], 6, &None).is_some());
    assert_eq!(snapshot[1].last_reported_delay_minutes, 0);
    assert!(check_subscription(&snapshot[1], 9, &None).is_none());
    monitor.subscribe_as("s".to_string(), "t", None, at(8));
    assert_eq!(monitor.snapshot().len(), 2);
}

fn details(delay: i32) -> TripDetails {
    TripDetails {
        trip_id: "t".to_string(),
        current_delay_minutes: delay,
        is_cancelled: false,
        platform_changes: vec![],
        stop_updates: vec![],
    }
}

#[test]
fn second_round_is_quiet() {
    let mut monitor = Monitor::new();
    for id in ["a", "b", "c"] {
        monitor.subscribe_as(id.to_string(), "t", Some(5), at(7));
    }
    let outcomes = vec![Ok((Some(details(4)), None)), Ok((None, None)), Ok((Some(details(9)), None))];
    let sent = monitor.run_round(&monitor.snapshot(), &outcomes).expect("a round");
    assert_eq!(sent.len(), 1);
    assert_eq!(monitor.snapshot()[2].last_reported_delay_minutes, 9);
    assert!(monitor.run_round(&monitor.snapshot(), &outcomes).expect("a round").is_empty());
    let snapshot = monitor.snapshot();
    let broken = vec![Ok((Some(details(6)), None)), Err(failure("down".to_string()))];
    let error = monitor.run_round(&snapshot, &broken).expect_err("a failure");
    assert_eq!(error.message, "down");
    assert_eq!(monitor.snapshot()[0].last_reported_delay_minutes, 6);
}

#[test]
fn locating_again_changes_nothing() {
    let mut trips = vec![trip("t", vec![leg("Bern", "Zug", None, TripStatus::OnTime)])];
    let mut places = PlaceIndex::new();
    add_found(&mut places, "Bern", &vec![place("1", "Bern", Some(("46.9", "7.4")))]);
    enrich_trip_coordinates(&mut trips, &places);
    let once = format!("{:?}", trips);
    enrich_trip_coordinates(&mut trips, &places);
    assert_eq!(format!("{:?}", trips), once);
}

#[test]
fn server_starts_with_nothing() {
    let state = AppState::new(Config {
        ojp_endpoint: "o".to_string(),
        gtfs_rt_endpoint: "g".to_string(),
        formation_endpoint: "f".to_string(),
        api_token: "a".to_string(),
        gtfs_rt_token: "b".to_string(),
        formation_token: "c".to_string(),
        server_name: "s".to_string(),
        cache_ttl_seconds: 1,
    });
    assert_eq!((state.ojp.endpoint.as_str(), state.ojp.token.as_str()), ("o", "a"));
    assert_eq!((state.gtfs_rt.endpoint.as_str(), state.gtfs_rt.token.as_str()), ("g", "b"));
    assert_eq!((state.formation.endpoint.as_str(), state.formation.token.as_str()), ("f", "c"));
    assert!(state.monitor.snapshot().is_empty());
    let mut state = state;
    state.monitor.subscribe_as("s".to_string(), "t", None, at(7));
    let snapshot = state.monitor.snapshot();
    let sent = state.monitor_notifications(&snapshot, &vec![Ok((Some(details(12)), None))]);
    assert_eq!(sent.expect("a round").len(), 1);
}
