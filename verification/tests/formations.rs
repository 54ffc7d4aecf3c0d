use swiss_transport_mcp::api::formation::render::render_formation_short_string;
use swiss_transport_mcp::api::formation::search::{
    add_numbers, check_calendar, extract_train_number_candidates, find_best_stop_formation_short_string,
    find_first_formation_short_string, formation_endpoint_candidates, infer_evu, judge_status,
    normalize_station_name, plan_formation_search, read_formation, refusal, FormationAction,
    FormationClient, FormationEvent, FormationSearch, StatusVerdict,
};
use swiss_transport_mcp::json::Json;
use swiss_transport_mcp::models::{LegStop, TimeInfo, Trip, TripLeg, TripStatus};
use swiss_transport_mcp::time::{FixedDateTime, MAX_SECONDS};

fn at(seconds: i64, offset: i32) -> FixedDateTime {
    FixedDateTime::new(seconds, 0, offset).expect("a time within the calendar")
}

fn leg(mode: &str, line: Option<&str>, service: &str, operator: Option<&str>) -> TripLeg {
    let time = |seconds| TimeInfo {
        scheduled: at(seconds, 7200),
        expected: at(seconds, 7200),
        delay_minutes: 0,
    };
    let end = |name: &str| LegStop { station: name.to_string(), platform: None, coordinates: None };
    TripLeg {
        mode: mode.to_string(),
        line: line.map(|l| l.to_string()),
        service: service.to_string(),
        operator: operator.map(|o| o.to_string()),
        occupancy: None,
        stops: vec![],
        stop_calls: vec![],
        from: end("Luzern"),
        to: end("Bern"),
        departure: time(1777280220),
        arrival: time(1777283820),
        status: TripStatus::OnTime,
    }
}

fn trip(id: &str, legs: Vec<TripLeg>) -> Trip {
    Trip { id: id.to_string(), duration_minutes: 60, legs }
}

fn object(fields: Vec<(&str, Json)>) -> Json {
    Json::Object(fields.into_iter().map(|(k, v)| (k.to_string(), v)).collect())
}

fn stop(name: &str, time: Option<&str>, notation: &str) -> Json {
    let times = match time {
        Some(t) => vec![("departureTime", Json::text(t))],
        None => vec![],
    };
    object(vec![
        (
            "scheduledStop",
            object(vec![
                ("stopPoint", object(vec![("name", Json::text(name))])),
                ("stopTime", object(times)),
            ]),
        ),
        ("formationShort", object(vec![("formationShortString", Json::text(notation))])),
    ])
}

#[test]
fn train_numbers_are_collected_once() {
    let t = trip(
        "ch:1:sjyid:100001:002511-001",
        vec![leg("rail", Some("IR 0015"), "Train 2511", None), leg("bus", None, "Bus 000", None)],
    );
    assert_eq!(
        extract_train_number_candidates(&t),
        vec!["15", "2511", "0", "1", "100001"]
    );
    let mut list = vec!["7".to_string()];
    add_numbers(&mut list, &vec!["007".to_string(), "08".to_string(), "8".to_string()]);
    assert_eq!(list, vec!["7", "8"]);
}

#[test]
fn undertaking_is_inferred_from_the_operators() {
    let run = |name: &str| infer_evu(&trip("x", vec![leg("rail", None, "", Some(name))]));
    assert_eq!(run("BLS AG"), Some("BLSP"));
    assert_eq!(run("SBB CFF FFS"), Some("SBBP"));
    assert_eq!(run("öbb"), Some("OeBB"));
    assert_eq!(run("RhB"), Some("RhB"));
    assert_eq!(run("unknown"), None);
    assert_eq!(infer_evu(&trip("x", vec![])), None);
}

#[test]
fn later_days_are_asked_for_elsewhere_first() {
    let base = "https://x/formations_stop_based";
    assert_eq!(formation_endpoint_candidates(base, 5, 5), vec![base]);
    assert_eq!(
        formation_endpoint_candidates(base, 6, 5),
        vec!["https://x/formations_vehicle_based", "https://x/formations_full", base]
    );
    assert_eq!(formation_endpoint_candidates("https://x/full", 6, 5), vec!["https://x/full"]);
}

#[test]
fn search_is_planned_for_the_first_train() {
    let t = trip("x", vec![leg("bus", None, "", None), leg("Rail", Some("IR15"), "", Some("BLS"))]);
    assert!(check_calendar(&t));
    let query = plan_formation_search(&t, "https://x/formations_stop_based", 20570).expect("a query");
    assert_eq!(query.evu, "BLSP");
    assert_eq!(query.operation_date, "2026-04-27");
    assert_eq!(query.train_numbers, vec!["15"]);
    assert_eq!(query.station, "Luzern");
    assert_eq!(query.departure.seconds(), 1777280220);
    assert_eq!(query.endpoints.len(), 1);
    assert!(plan_formation_search(&trip("x", vec![leg("bus", Some("1"), "", None)]), "e", 0).is_none());
    assert!(plan_formation_search(&trip("x", vec![leg("rail", None, "", None)]), "e", 0).is_none());
    let mut late = leg("rail", None, "", None);
    late.departure.expected = at(MAX_SECONDS, 7200);
    assert!(!check_calendar(&trip("x", vec![late])));
}

fn search() -> FormationSearch {
    let t = trip("x", vec![leg("rail", Some("1"), "2", None)]);
    let query = plan_formation_search(&t, "https://x/formations_stop_based", 0).expect("a query");
    FormationSearch::new(query)
}

fn describe(action: &FormationAction) -> String {
    match action {
        FormationAction::Ask { endpoint, evu, operation_date, train_number } => {
            assert_eq!(evu, "SBBP");
            assert_eq!(operation_date.len(), 10);
            format!("{} {}", endpoint.replace("https://x/formations_", ""), train_number)
        }
        FormationAction::ReadBody => "read".to_string(),
        FormationAction::Finish(Ok(Some(notation))) => format!("found {notation}"),
        FormationAction::Finish(Ok(None)) => "nothing".to_string(),
        FormationAction::Finish(Err(e)) => format!("failed {}", e.message),
    }
}

fn status(code: u16) -> FormationEvent {
    FormationEvent::Status { code, words: format!("{code} words") }
}

#[test]
fn each_place_is_asked_for_each_number() {
    let mut search = search();
    let mut action = search.action();
    let mut seen = Vec::new();
    loop {
        seen.push(describe(&action));
        if !matches!(action, FormationAction::Ask { .. }) {
            break;
        }
        let code = if seen.len() % 2 == 0 { 404 } else { 400 };
        (search, action) = search.take_event(status(code));
    }
    assert_eq!(
        seen,
        vec![
            "vehicle_based 1",
            "vehicle_based 2",
            "full 1",
            "full 2",
            "stop_based 1",
            "stop_based 2",
            "nothing",
        ]
    );
}

#[test]
fn search_ends_with_the_first_notation() {
    let (search, action) = search().take_event(status(200));
    assert_eq!(describe(&action), "read");
    let (search, action) = search.take_event(FormationEvent::Body("{\"a\": 1}".to_string()));
    assert_eq!(describe(&action), "vehicle_based 2");
    let (search, action) = search.take_event(status(204));
    assert_eq!(describe(&action), "read");
    let body = "{\"formationShortString\": \" @A,2:1 \"}".to_string();
    let (_, action) = search.take_event(FormationEvent::Body(body));
    assert_eq!(describe(&action), "found @A,2:1");
    let payload = object(vec![("formationShortString", Json::text("1:1"))]);
    let (_, action) = self::search().take_payload(&payload);
    assert_eq!(describe(&action), "found 1:1");
}

#[test]
fn failures_end_the_search() {
    let failed = |event| describe(&search().take_event(event).1);
    assert_eq!(failed(status(500)), "failed formation API returned status 500 words");
    assert_eq!(failed(FormationEvent::Lost("down".to_string())), "failed down");
    assert_eq!(
        failed(FormationEvent::Body("{".to_string())),
        "failed EOF while parsing an object at line 1 column 1"
    );
}

#[test]
fn search_starts_with_the_client() {
    let client = FormationClient::new("https://x/formations_stop_based".to_string(), "t".to_string());
    let mut long_gone = trip("x", vec![leg("rail", Some("1"), "2", None)]);
    long_gone.legs[0].departure.expected = at(0, 0);
    let search = client.wagon_formation_for_trip(&long_gone).expect("a search");
    assert_eq!(describe(&search.action()), "stop_based 1");
    assert!(client.wagon_formation_for_trip(&trip("x", vec![])).is_none());
}

#[test]
fn statuses_are_judged() {
    assert_eq!(judge_status(404), StatusVerdict::Skip);
    assert_eq!(judge_status(400), StatusVerdict::Skip);
    assert_eq!(judge_status(200), StatusVerdict::Read);
    assert_eq!(judge_status(299), StatusVerdict::Read);
    assert_eq!(judge_status(500), StatusVerdict::Fail);
    assert_eq!(refusal("500 X").message, "formation API returned status 500 X");
}

#[test]
fn nearest_departure_at_the_station_is_best() {
    let stops = |list| object(vec![("formationsAtScheduledStops", Json::Array(list))]);
    let departure = at(1777280220, 7200);
    let best = |payload: &Json| find_best_stop_formation_short_string(payload, "St. Gallen", departure);
    let near = stops(vec![
        stop("Bern", Some("2026-04-27T10:57:00+02:00"), "other"),
        stop("St Gallen", None, "untimed"),
        stop("st.  gallen", Some("2026-04-27T10:50:00+02:00"), "far"),
        stop("St. Gallen", Some("2026-04-27T10:58:00+02:00"), " near "),
        stop("St. Gallen", Some("2026-04-27T10:56:00+02:00"), "as near"),
    ]);
    assert_eq!(best(&near), Some("near".to_string()));
    assert_eq!(best(&stops(vec![stop("Bern", None, "other"), stop("St. Gallen", None, "here")])), Some("here".to_string()));
    assert_eq!(best(&stops(vec![stop("Bern", None, " "), stop("Zug", None, "any")])), Some("any".to_string()));
    assert_eq!(best(&stops(vec![])), None);
    assert_eq!(best(&Json::Null), None);
    assert_eq!(normalize_station_name(" St.  Gallen "), "st gallen");
}

#[test]
fn first_notation_is_found_anywhere() {
    let deep = object(vec![
        ("a", Json::Array(vec![Json::Null, object(vec![("b", Json::Bool(true))])])),
        (
            "c",
            object(vec![(
                "Formation_Short_String",
                object(vec![("en", Json::text("english")), ("de", Json::text(" deutsch "))]),
            )]),
        ),
    ]);
    assert_eq!(find_first_formation_short_string(&deep), Some("deutsch".to_string()));
    let blank = object(vec![("formationShortString", Json::Array(vec![Json::text(" "), Json::text("x")]))]);
    assert_eq!(find_first_formation_short_string(&blank), Some("x".to_string()));
    assert_eq!(find_first_formation_short_string(&Json::text("x")), None);
    let t = trip("x", vec![leg("rail", Some("1"), "", None)]);
    let query = plan_formation_search(&t, "e", 0).expect("a query");
    assert_eq!(read_formation(&query, &deep), Some("deutsch".to_string()));
}

#[test]
fn train_is_shown_in_every_form() {
    let shown = render_formation_short_string("@A,2:1#nf,(1:2@b),F,zz").expect("a train");
    assert_eq!(shown.diagram, "|2:1 nf @A| -> (|1:2 @B|) -> |zz|");
    assert_eq!(
        shown.readable,
        "Platform sectors seen: A, B. Coaches front->rear: 2:1 (2nd class, sector A, low-floor access) -> 1:2 (1st class, sector B, no passage to previous coach, no passage to next coach) -> zz (coach). Padding coaches: front 0, rear 0."
    );
    assert_eq!(
        shown.legend,
        vec![
            "-> = next coach toward rear",
            "( ... ) = no passage at one end of the marked coach",
            "@X = platform sector marker near that coach (X = A/B/C/...)",
            "1 = 1st class",
            "2 = 2nd class",
            "ZZ = coach",
            "NF = low-floor access",
        ]
    );
    assert_eq!(shown.boarding_hint, "Go to sector A for coach 2:1 (low-floor access)");
    assert_eq!(
        shown.human_display,
        "Boarding hint: Go to sector A for coach 2:1 (low-floor access)\nDirection: front -> rear\nSectors: A: 2:1 | B: 1:2\n2nd class: 2:1\n1st class: 1:2\nAccessible: 2:1 (NF)\nDiagram: |2:1 nf @A| -> (|1:2 @B|) -> |zz|"
    );
    assert_eq!(shown.parsed.sectors_seen, vec!["A", "B"]);
    assert!(shown.parsed.coaches[1].no_passage_prev);
}

#[test]
fn sector_ranges_run_from_first_to_last_coach() {
    let shown = render_formation_short_string("1:1@C,2:2@C,2:3,2:4@C").expect("a train");
    assert_eq!(shown.sector_to_coach_range.len(), 1);
    assert_eq!(shown.sector_to_coach_range[0].from_coach, "1:1");
    assert_eq!(shown.sector_to_coach_range[0].to_coach, "2:4");
    assert!(shown.human_display.contains("Sectors: C: 1:1..2:4"));
}

#[test]
fn padding_alone_is_no_train() {
    assert!(render_formation_short_string("F,f:1,@A").is_none());
    let shown = render_formation_short_string("F,2:1,F,X,F,F").expect("a train");
    assert_eq!((shown.parsed.padding.front, shown.parsed.padding.rear), (1, 2));
    assert_eq!(shown.parsed.coaches.len(), 2);
    assert_eq!(shown.boarding_hint, "Use sector markers shown for your coach.");
    assert!(shown.human_display.contains("1st class: none"));
}

#[test]
fn brackets_change_nothing() {
    for notation in ["[(2:1#NF@A,1:2)],F", " [ @a,[2:1] , ]1:2@[b ", "@[C]2:7", "[]", "[F]"] {
        let bare = notation.replace(['[', ']'], "");
        let shown = render_formation_short_string(notation);
        let expected = render_formation_short_string(&bare);
        assert_eq!(format!("{shown:?}"), format!("{expected:?}"));
    }
    assert!(render_formation_short_string("[F]").is_none());
    let shown = render_formation_short_string("@[C]2:7").expect("a train");
    assert_eq!(shown.diagram, render_formation_short_string("@C2:7").expect("a train").diagram);
}
