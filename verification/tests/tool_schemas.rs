use swiss_transport_mcp::mcp::tools::tool_definitions;

#[test]
fn tool_input_schemas_are_top_level_objects_without_disallowed_keywords() {
    let tools = tool_definitions();
    let disallowed = ["oneOf", "anyOf", "allOf", "enum", "not"];

    for tool in tools {
        let name = tool
            .get("name")
            .and_then(|value| value.as_str())
            .expect("tool definition must include string name");
        let schema = tool
            .get("inputSchema")
            .filter(|value| value.as_object().is_some())
            .expect("tool definition must include object inputSchema");
        let schema_type = schema
            .get("type")
            .and_then(|value| value.as_str())
            .expect("inputSchema must include string type");

        assert_eq!(
            schema_type, "object",
            "tool `{name}` inputSchema top-level type must be object"
        );

        for keyword in disallowed {
            assert!(
                schema.get(keyword).is_none(),
                "tool `{name}` inputSchema must not contain top-level `{keyword}`"
            );
        }
    }
}

#[test]
fn plan_trip_schema_stays_validator_compatible() {
    let plan_trip = tool_definitions()
        .into_iter()
        .find(|tool| tool.get("name").and_then(|value| value.as_str()) == Some("plan_trip"))
        .expect("plan_trip tool definition must exist");

    let schema = plan_trip
        .get("inputSchema")
        .filter(|value| value.as_object().is_some())
        .expect("plan_trip inputSchema must be an object");

    assert_eq!(
        schema.get("type").and_then(|value| value.as_str()),
        Some("object")
    );
    assert!(schema.get("anyOf").is_none());
}
