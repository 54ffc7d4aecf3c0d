use swiss_transport_mcp::api::ojp::client::{write_station_key, write_trip_key, OjpClient, SearchStep};
use swiss_transport_mcp::api::ojp::departure::{parse_departure_response, parse_departure_response_at};
use swiss_transport_mcp::api::ojp::request::{
    build_location_information_request, build_stop_event_request, build_trip_request,
    write_location_request, write_stop_event_request, write_trip_request,
};
use swiss_transport_mcp::api::ojp::retry::{refusal_message, Reply, Retry, Verdict};
use swiss_transport_mcp::api::ojp::station::{parse_station_response, StationParser};
use swiss_transport_mcp::api::ojp::suggest::{pick_best_names, suggest_station_names, ScoredName};
use swiss_transport_mcp::api::ojp::tags::{
    aggregate_occupancy_level, normalize_occupancy_level, normalize_platform_value,
    set_preferred_line,
};
use swiss_transport_mcp::api::ojp::trip::{parse_trip_response, TripParser};
use swiss_transport_mcp::error::failure;
use swiss_transport_mcp::models::{Station, StationType, TransportMode, TripStatus};
use swiss_transport_mcp::time::FixedDateTime;
use swiss_transport_mcp::xml::XmlEvent;

fn at(seconds: i64, offset: i32) -> FixedDateTime {
    FixedDateTime::new(seconds, 0, offset).expect("a time within the calendar")
}

fn station(id: &str, name: &str) -> Station {
    Station {
        id: id.to_string(),
        name: name.to_string(),
        latitude: None,
        longitude: None,
        station_type: StationType::Stop,
    }
}

const ROOT: &str = "<OJP xmlns=\"http://www.vdv.de/ojp\" version=\"2.0\" xmlns:siri=\"http://www.siri.org.uk/siri\"><OJPRequest><siri:ServiceRequest><siri:RequestTimestamp>T</siri:RequestTimestamp><siri:RequestorRef>sbb_mcp_prod</siri:RequestorRef>";
const END: &str = "</siri:ServiceRequest></OJPRequest></OJP>";

#[test]
fn question_for_stations_is_written_out() {
    assert_eq!(
        write_location_request("Bern & <Zug>", 10, "T"),
        format!("{ROOT}<OJPLocationInformationRequest><siri:RequestTimestamp>T</siri:RequestTimestamp><InitialInput><Name>Bern &amp; &lt;Zug&gt;</Name></InitialInput><Restrictions><Type>stop</Type><NumberOfResults>10</NumberOfResults><IncludePtModes>true</IncludePtModes></Restrictions></OJPLocationInformationRequest>{END}")
    );
    assert!(build_location_information_request("Bern", 3).contains("<Name>Bern</Name>"));
}

#[test]
fn question_for_trips_is_written_out() {
    let modes = vec![TransportMode::Rail, TransportMode::Ship];
    assert_eq!(
        write_trip_request(("Bern", "8507000"), ("Zug", "Zug"), at(1777280220, 7200), &modes, 9, "T"),
        format!("{ROOT}<OJPTripRequest><siri:RequestTimestamp>T</siri:RequestTimestamp><Origin><PlaceRef><StopPlaceRef>8507000</StopPlaceRef><Name><Text>Bern</Text></Name></PlaceRef><DepArrTime>2026-04-27T10:57:00+02:00</DepArrTime></Origin><Destination><PlaceRef><Name><Text>Zug</Text></Name></PlaceRef></Destination><Params><NumberOfResults>5</NumberOfResults><UseRealtimeData>full</UseRealtimeData><IncludeIntermediateStops>true</IncludeIntermediateStops><IncludePreviousCalls>true</IncludePreviousCalls><IncludeOnwardCalls>true</IncludeOnwardCalls><ModeAndModeOfOperationFilter><Exclude>false</Exclude><PtMode>rail</PtMode><PtMode>water</PtMode></ModeAndModeOfOperationFilter></Params></OJPTripRequest>{END}")
    );
    let all = vec![TransportMode::Rail, TransportMode::All];
    let open = build_trip_request("Bern", "8507000", "Zug", "ch:1:sloid:2204", at(0, 0), &all, 0);
    assert!(!open.contains("PtMode"));
    assert!(open.contains("<NumberOfResults>1</NumberOfResults>"));
    assert!(open.contains("<StopPlaceRef>ch:1:sloid:2204</StopPlaceRef>"));
}

#[test]
fn question_for_departures_is_written_out() {
    assert_eq!(
        write_stop_event_request("8507000", 20, "T"),
        format!("{ROOT}<OJPStopEventRequest><siri:RequestTimestamp>T</siri:RequestTimestamp><Location><PlaceRef><StopPlaceRef>8507000</StopPlaceRef><Name><Text>8507000</Text></Name></PlaceRef><DepArrTime>T</DepArrTime></Location><Params><NumberOfResults>20</NumberOfResults><StopEventType>departure</StopEventType><IncludePreviousCalls>false</IncludePreviousCalls><IncludeOnwardCalls>false</IncludeOnwardCalls><UseRealtimeData>full</UseRealtimeData></Params></OJPStopEventRequest>{END}")
    );
    assert!(build_stop_event_request("8507000", 20, 60).contains("<OJPStopEventRequest>"));
}

#[test]
fn stations_are_distinct_and_limited() {
    let entry = |id: &str, name: &str| {
        format!("<StopPlace><StopPlaceRef>{id}</StopPlaceRef><StopPlaceName>{name}</StopPlaceName></StopPlace>")
    };
    let xml = format!(
        "<r>{}{}{}<Address><AddressName>Gasse 1</AddressName></Address><PointOfInterest><id>9</id></PointOfInterest></r>",
        entry("1", "A"),
        entry("1", "B"),
        entry("2", "C")
    );
    let stations = parse_station_response(&xml, 10).expect("stations");
    let shown: Vec<(&str, &str)> =
        stations.iter().map(|s| (s.id.as_str(), s.name.as_str())).collect();
    assert_eq!(shown, vec![("1", "A"), ("2", "C"), ("Gasse 1", "Gasse 1")]);
    assert_eq!(stations[2].station_type, StationType::Address);
    assert_eq!(parse_station_response(&xml, 1).expect("stations").len(), 1);
}

#[test]
fn ill_formed_documents_are_refused() {
    assert!(parse_station_response("<a></b>", 5).is_err());
    assert!(parse_trip_response("<a></b>").is_err());
    assert!(parse_departure_response("<a></b>", 5).is_err());
}

#[test]
fn station_reader_takes_events_one_by_one() {
    let mut reader = StationParser::new();
    reader.step(XmlEvent::Start("ojp:StopPoint".to_string()));
    reader.step(XmlEvent::Start("Name".to_string()));
    reader.step(XmlEvent::Text(" Bern ".to_string()));
    reader.step(XmlEvent::Other);
    reader.step(XmlEvent::End("Name".to_string()));
    assert!(reader.found.is_empty());
    reader.step(XmlEvent::End("ojp:StopPoint".to_string()));
    assert_eq!(reader.found.len(), 1);
    assert_eq!(reader.found[0].name, "Bern");
    assert_eq!(reader.found[0].id, "Bern");
}

#[test]
fn trip_goes_by_the_given_reference_until_its_own_is_read() {
    let leg = "<Leg><LegBoard><StopPointName>A</StopPointName><ServiceDeparture><TimetabledTime>2026-04-27T10:00:00+02:00</TimetabledTime></ServiceDeparture></LegBoard><LegAlight><StopPointName>B</StopPointName><ServiceArrival><TimetabledTime>2026-04-27T10:30:00+02:00</TimetabledTime><EstimatedTime>2026-04-27T10:42:30+02:00</EstimatedTime></ServiceArrival></LegAlight></Leg>";
    let xml = format!("<r><TripResult>{leg}</TripResult></r>");
    let trips = parse_trip_response(&xml).expect("trips");
    assert_eq!(trips.len(), 1);
    assert_eq!(trips[0].id.len(), 36);
    assert_eq!(trips[0].id.as_bytes()[14], b'4');
    assert_eq!(trips[0].duration_minutes, 42);
    let l = &trips[0].legs[0];
    assert_eq!(l.mode, "rail");
    assert_eq!(l.service, "Train");
    assert_eq!(l.stops, vec!["A", "B"]);
    assert_eq!(l.arrival.delay_minutes, 12);
    assert_eq!(l.departure.delay_minutes, 0);
    assert_eq!(l.status, TripStatus::Delayed);

    let mut reader = TripParser::new();
    reader.step(XmlEvent::Start("TripResult".to_string()), "mine".to_string());
    assert_eq!(reader.trip.as_ref().map(|t| t.id.as_str()), Some("mine"));
    reader.step(XmlEvent::Start("Leg".to_string()), String::new());
    reader.step(XmlEvent::Start("JourneyRef".to_string()), String::new());
    reader.step(XmlEvent::Text("theirs".to_string()), String::new());
    assert_eq!(reader.trip.as_ref().map(|t| t.id.as_str()), Some("theirs"));
}

#[test]
fn trips_without_legs_are_left_out() {
    assert!(parse_trip_response("<r><TripResult><Leg></Leg></TripResult></r>").expect("trips").is_empty());
}

#[test]
fn adjacent_calls_at_one_stop_are_merged() {
    let xml = "<r><TripResult><TripLeg>\
<LegBoard><StopPointName>A</StopPointName><ServiceDeparture><TimetabledTime>2026-04-27T10:00:00+02:00</TimetabledTime></ServiceDeparture></LegBoard>\
<LegIntermediate><StopPointName>B</StopPointName><ServiceArrival><TimetabledTime>2026-04-27T10:10:00+02:00</TimetabledTime></ServiceArrival></LegIntermediate>\
<LegIntermediate><StopPointName>B</StopPointName><PlannedQuay>3</PlannedQuay><ServiceDeparture><TimetabledTime>2026-04-27T10:12:00+02:00</TimetabledTime></ServiceDeparture></LegIntermediate>\
<LegAlight><StopPointName>C</StopPointName><ServiceArrival><TimetabledTime>2026-04-27T10:30:00+02:00</TimetabledTime></ServiceArrival></LegAlight>\
</TripLeg></TripResult></r>";
    let trips = parse_trip_response(xml).expect("trips");
    let calls = &trips[0].legs[0].stop_calls;
    let names: Vec<&str> = calls.iter().map(|c| c.station.as_str()).collect();
    assert_eq!(names, vec!["A", "B", "C"]);
    assert!(calls[1].arrival.is_some());
    assert!(calls[1].departure.is_some());
    assert_eq!(calls[1].scheduled_platform.as_deref(), Some("3"));
    assert_eq!(calls[1].expected_platform, None);
}

const BOARD: &str = "<r>\
<StopEvent><JourneyRef>j2</JourneyRef><PublishedLineName>S1</PublishedLineName><PtMode>rail</PtMode><Destination><Text>Zug</Text></Destination><TimetabledTime>2026-04-27T11:00:00+02:00</TimetabledTime><EstimatedTime>2026-04-27T11:07:00+02:00</EstimatedTime><Platform>4</Platform></StopEvent>\
<StopEvent><JourneyRef>j1</JourneyRef><LineRef>ojp:1</LineRef><TimetabledTime>2026-04-27T10:00:00+02:00</TimetabledTime><Status>Cancelled</Status></StopEvent>\
<StopEvent></StopEvent></r>";

#[test]
fn departures_are_in_order_and_limited() {
    let now = at(1777280220, 7200);
    let departures = parse_departure_response_at(BOARD, 10, now).expect("departures");
    let order: Vec<Option<&str>> = departures.iter().map(|d| d.trip_id.as_deref()).collect();
    assert_eq!(order, vec![Some("j1"), None, Some("j2")]);
    assert_eq!(departures[0].status, TripStatus::Cancelled);
    assert_eq!(departures[0].destination, "Unknown destination");
    assert_eq!(departures[0].line, None);
    assert_eq!(departures[1].scheduled.seconds(), 1777280220);
    assert_eq!(departures[2].service, "Train S1");
    assert_eq!(departures[2].destination, "Zug");
    assert_eq!(departures[2].delay_minutes, 7);
    assert_eq!(departures[2].platform.as_deref(), Some("4"));
    assert_eq!(departures[2].status, TripStatus::Delayed);
    assert_eq!(parse_departure_response(BOARD, 2).expect("departures").len(), 2);
}

#[test]
fn occupancy_codes_are_put_in_words() {
    assert_eq!(normalize_occupancy_level(" Few_Seats-Available "), Some("high occupancy".to_string()));
    assert_eq!(normalize_occupancy_level("seatsAvailable"), Some("low to average".to_string()));
    assert_eq!(normalize_occupancy_level("FULL"), Some("very high occupancy".to_string()));
    assert_eq!(normalize_occupancy_level("unknown"), None);
    let levels = vec![Some("low to average"), None, Some("high occupancy"), Some("other")];
    assert_eq!(aggregate_occupancy_level(&levels), Some("high occupancy".to_string()));
    assert_eq!(aggregate_occupancy_level(&vec![None]), None);
}

#[test]
fn readable_lines_and_platforms_are_preferred() {
    let mut line = None;
    set_preferred_line(&mut line, "ojp:91".to_string());
    assert_eq!(line, None);
    set_preferred_line(&mut line, "IR15".to_string());
    set_preferred_line(&mut line, "IR16".to_string());
    assert_eq!(line, Some("IR15".to_string()));
    assert_eq!(normalize_platform_value(" 7 "), Some("7".to_string()));
    assert_eq!(normalize_platform_value("ch:1:sloid:7000:4:B"), Some("B".to_string()));
    assert_eq!(normalize_platform_value("8507000"), Some("8507000".to_string()));
    assert_eq!(normalize_platform_value("  "), None);
}

#[test]
fn questions_are_repeated_with_growing_waits() {
    let mut retry = Retry::new();
    for millis in [200, 400, 800, 1600] {
        let (verdict, next) = retry.decide(Reply::Unreachable);
        assert_eq!(verdict, Verdict::Wait { millis });
        retry = next;
    }
    let (verdict, retry) = retry.decide(Reply::Refused { status: 429 });
    assert_eq!(verdict, Verdict::GiveUp);
    assert_eq!(retry.decide(Reply::Success).0, Verdict::Accept);
    let (verdict, _) = Retry::new().decide(Reply::Refused { status: 500 });
    assert_eq!(verdict, Verdict::GiveUp);
    let (verdict, _) = Retry::new().decide(Reply::Refused { status: 429 });
    assert_eq!(verdict, Verdict::Wait { millis: 200 });
    assert_eq!(
        refusal_message("429 Too Many Requests"),
        "OJP API returned status 429 Too Many Requests"
    );
}

#[test]
fn similar_names_are_suggested() {
    let local = vec![station("1", "Luzern"), station("2", "Genf")];
    let known = vec![station("3", "Luzern"), station("4", "Luzern Bahnhof"), station("5", "Lugano")];
    let names = suggest_station_names("luzern", &local, &known);
    assert_eq!(names[0], "Luzern");
    assert!(names.contains(&"Luzern Bahnhof".to_string()));
    assert!(!names.contains(&"Genf".to_string()));
    assert_eq!(names.iter().filter(|n| *n == "Luzern").count(), 1);
}

#[test]
fn best_names_are_those_with_the_highest_scores() {
    let named = |name: &str, score: f64| ScoredName { name: name.to_string(), score: score.to_bits() };
    let names = vec![
        named("a", 0.70),
        named("b", 0.69),
        named("c", 1.0),
        named("d", 0.9),
        named("e", 0.9),
        named("f", 0.71),
        named("g", 0.8),
    ];
    assert_eq!(pick_best_names(names), vec!["c", "d", "e", "g", "f"]);
    let few = vec![named("a", 0.70), named("b", 0.6999999)];
    assert_eq!(pick_best_names(few), vec!["a"]);
}

#[test]
fn keys_tell_questions_apart() {
    assert_eq!(write_station_key("ZUG", 5), "zug:5");
    assert_ne!(write_station_key("zug:1", 2), write_station_key("zug", 12));
    assert_eq!(
        write_trip_key("CH:1", "X", at(0, 0), &[TransportMode::Bus, TransportMode::Tram], 3),
        "ch:1:x:1970-01-01T00:00:00+00:00:bus,tram:3"
    );
}

const FOUND: &str = "<r><StopPlace><StopPlaceRef>1</StopPlaceRef><StopPlaceName>Zug</StopPlaceName></StopPlace></r>";

#[test]
fn station_search_is_answered_from_the_cache() {
    let mut client = OjpClient::new("https://ojp".to_string(), "t".to_string());
    match client.search_stations("Zug", 5) {
        SearchStep::Send(document) => assert!(document.contains("<Name>Zug</Name>")),
        SearchStep::Answer(_) => panic!("nothing was asked yet"),
    }
    let (stations, suggestions, warning) =
        client.finish_station_search("Zug", 5, Ok(FOUND.to_string())).expect("stations");
    assert_eq!(stations.len(), 1);
    assert_eq!(suggestions, vec!["Zug"]);
    assert!(warning.is_none());
    assert_eq!(client.known_stations.len(), 1);
    match client.search_stations("zug", 5) {
        SearchStep::Answer((stations, _)) => assert_eq!(stations[0].id, "1"),
        SearchStep::Send(_) => panic!("the answer is in the cache"),
    }
    let (stale, _, warning) = client
        .finish_station_search("zug", 5, Err(failure("down".to_string())))
        .expect("stations");
    assert_eq!(stale.len(), 1);
    let warning = warning.expect("a caveat");
    assert!(warning.stale);
    assert_eq!(
        warning.message,
        "OJP station search failed (down); returning stale cached data"
    );
    let error = client
        .finish_station_search("Bern", 5, Err(failure("down".to_string())))
        .expect_err("nothing is in the cache");
    assert_eq!(error.message, "down");
}

#[test]
fn trip_search_is_answered_from_the_cache() {
    let mut client = OjpClient::new("https://ojp".to_string(), "t".to_string());
    let ask = |client: &mut OjpClient| {
        client.plan_trip_with_refs("A", "1", "B", "2", at(0, 0), &[TransportMode::All], 5)
    };
    let key = || write_trip_key("1", "2", at(0, 0), &[TransportMode::All], 5);
    assert!(matches!(ask(&mut client), SearchStep::Send(_)));
    let (trips, warning) = client.finish_trip_search(key(), Ok("<r></r>".to_string())).expect("trips");
    assert!(trips.is_empty());
    assert!(warning.is_none());
    assert!(matches!(ask(&mut client), SearchStep::Answer(_)));
    let (_, warning) =
        client.finish_trip_search(key(), Err(failure("down".to_string()))).expect("trips");
    assert_eq!(
        warning.expect("a caveat").message,
        "OJP trip planning failed (down); returning stale cached data"
    );
    assert!(client.finish_trip_search("x".to_string(), Err(failure("down".to_string()))).is_err());
    assert!(client.finish_trip_search("x".to_string(), Ok("<a></b>".to_string())).is_err());
    assert!(OjpClient::departures(Err(failure("down".to_string())), 5).is_err());
    let (departures, _) = OjpClient::departures(Ok(BOARD.to_string()), 5).expect("departures");
    assert_eq!(departures.len(), 3);
}
