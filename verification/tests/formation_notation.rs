use swiss_transport_mcp::api::formation::render::render_formation_short_string;

#[test]
fn renders_short_string_to_readable_text_and_diagram() {
    let input =
        "@A,F,F,F,F,[(2:1#VR,2:2,2:3@B,2:4,2:5,2:6,2:7@C,2:8,2:9#BHP;KW@D,W1:10,1:11,1:12,1):14],F";

    let rendered = render_formation_short_string(input).expect("render output expected");

    assert!(rendered.diagram.contains("|2:1 VR|"));
    assert!(rendered.diagram.contains("|2:9 BHP+KW @D|"));
    assert!(!rendered.diagram.contains("|F|"));
    assert!(!rendered.diagram.contains("|X|"));
    assert!(rendered.boarding_hint.contains("Go to sector D for coach 2:9"));
    assert!(rendered.human_display.contains("Boarding hint:"));
    assert!(rendered.human_display.contains("Direction: front -> rear"));
    assert!(rendered.human_display.contains("Sectors: B: 2:3"));
    assert!(rendered.human_display.contains("1st class: W1:10, 1:11, 1:12, 1:14"));
    assert!(rendered.readable.contains("wheelchair spaces"));
    assert!(rendered.readable.contains("stroller area"));
    assert!(rendered.readable.contains("Padding coaches: front 4, rear 1."));
    assert!(
        rendered
            .legend
            .iter()
            .any(|line| line.contains("VR = bike spaces (reservation required)"))
    );
    assert!(
        rendered
            .legend
            .iter()
            .any(|line| line.contains("BHP = wheelchair spaces"))
    );
    assert_eq!(rendered.parsed.padding.front, 4);
    assert_eq!(rendered.parsed.padding.rear, 1);
    assert!(
        rendered
            .parsed
            .coaches
            .iter()
            .any(|coach| coach.id == "2:9" && coach.services == vec!["BHP", "KW"])
    );
    assert!(
        rendered
            .sector_to_coach_range
            .iter()
            .any(|range| range.sector == "D" && range.from_coach == "2:9")
    );
    assert!(rendered.accessible_coaches.contains(&"2:9".to_string()));
    assert!(rendered.first_class_coaches.contains(&"1:11".to_string()));
    assert!(rendered.second_class_coaches.contains(&"2:7".to_string()));
}

#[test]
fn returns_none_for_blank_short_string() {
    assert!(render_formation_short_string("   ").is_none());
}
