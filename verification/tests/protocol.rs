use swiss_transport_mcp::error::failure;
use swiss_transport_mcp::json::Json;
use swiss_transport_mcp::mcp::rpc::{
    answer_call, answer_rendered, handle_request, write_response, JsonRpcRequest, RpcStep,
};
use swiss_transport_mcp::mcp::tools::{find_tool, tool_definitions, ToolName};
use swiss_transport_mcp::service::state::list_transport_modes;

fn show(value: &Json) -> String {
    match value {
        Json::Null => "null".to_string(),
        Json::Bool(b) => format!("{b}"),
        Json::Number(n) => n.clone(),
        Json::Text(t) => format!("\"{t}\""),
        Json::Array(items) => {
            let parts: Vec<String> = items.iter().map(show).collect();
            format!("[{}]", parts.join(","))
        }
        Json::Object(fields) => {
            let parts: Vec<String> =
                fields.iter().map(|(k, v)| format!("\"{k}\":{}", show(v))).collect();
            format!("{{{}}}", parts.join(","))
        }
    }
}

fn request(method: &str, params: Option<Json>) -> JsonRpcRequest {
    JsonRpcRequest { id: Some(Json::Number("7".to_string())), method: method.to_string(), params }
}

fn respond(request: JsonRpcRequest) -> String {
    match handle_request(request, "sbb-transport", "0.1.0") {
        RpcStep::Ignore => "ignored".to_string(),
        RpcStep::Respond(response) => show(&write_response(response)),
        RpcStep::Call { id, tool, arguments } => {
            format!("{} {} {}", show(&id), tool, show(&arguments))
        }
    }
}

#[test]
fn server_introduces_itself() {
    assert_eq!(
        respond(request("initialize", None)),
        "{\"jsonrpc\":\"2.0\",\"id\":7,\"result\":{\"protocolVersion\":\"2024-11-05\",\"capabilities\":{\"tools\":{\"listChanged\":false}},\"serverInfo\":{\"name\":\"sbb-transport\",\"version\":\"0.1.0\"}}}"
    );
    assert_eq!(respond(request("ping", None)), "{\"jsonrpc\":\"2.0\",\"id\":7,\"result\":{}}");
    assert_eq!(respond(request("notifications/initialized", None)), "ignored");
}

#[test]
fn unknown_methods_are_refused_under_their_reference() {
    assert_eq!(
        respond(request("resources/list", None)),
        "{\"jsonrpc\":\"2.0\",\"id\":7,\"error\":{\"code\":-32601,\"message\":\"method not found: resources/list\"}}"
    );
    let anonymous = JsonRpcRequest { id: None, method: "x".to_string(), params: None };
    assert_eq!(
        respond(anonymous),
        "{\"jsonrpc\":\"2.0\",\"id\":null,\"error\":{\"code\":-32601,\"message\":\"method not found: x\"}}"
    );
}

#[test]
fn calls_name_a_tool() {
    let fault = "{\"jsonrpc\":\"2.0\",\"id\":null,\"error\":{\"code\":-32000,\"message\":\"tools/call requires 'name'\"}}";
    assert_eq!(respond(request("tools/call", None)), fault);
    let unnamed = Json::Object(vec![("name".to_string(), Json::Null)]);
    assert_eq!(respond(request("tools/call", Some(unnamed))), fault);
    let bare = Json::Object(vec![("name".to_string(), Json::text("plan_trip"))]);
    assert_eq!(respond(request("tools/call", Some(bare))), "7 plan_trip {}");
    let full = Json::Object(vec![
        ("name".to_string(), Json::text("plan_trip")),
        ("arguments".to_string(), Json::Array(vec![Json::Bool(true)])),
    ]);
    assert_eq!(respond(request("tools/call", Some(full))), "7 plan_trip [true]");
}

#[test]
fn calls_are_answered_however_they_went() {
    let id = || Json::Number("7".to_string());
    let good = answer_rendered(id(), Ok(("{}".to_string(), Json::Object(vec![]))));
    assert_eq!(
        show(&write_response(good)),
        "{\"jsonrpc\":\"2.0\",\"id\":7,\"result\":{\"content\":[{\"type\":\"text\",\"text\":\"{}\"}],\"structuredContent\":{},\"isError\":false}}"
    );
    let payload = Json::Object(vec![("b".to_string(), Json::Null), ("a".to_string(), id())]);
    let rendered = answer_call(id(), Ok(payload));
    let text = rendered
        .result
        .as_ref()
        .and_then(|r| r.get("content"))
        .and_then(|c| c.as_array())
        .and_then(|c| c[0].get("text"))
        .and_then(|t| t.as_str())
        .expect("a text");
    assert_eq!(text, "{\n  \"a\": 7,\n  \"b\": null\n}");
    let bad = answer_call(id(), Err(failure("no luck".to_string())));
    assert_eq!(
        show(&write_response(bad)),
        "{\"jsonrpc\":\"2.0\",\"id\":7,\"result\":{\"content\":[{\"type\":\"text\",\"text\":\"no luck\"}],\"structuredContent\":{\"error\":\"no luck\"},\"isError\":true}}"
    );
}

#[test]
fn tools_are_announced_and_known() {
    let tools = tool_definitions();
    assert_eq!(tools.len(), 9);
    for tool in &tools {
        let name = tool.get("name").and_then(|v| v.as_str()).expect("a name");
        assert!(find_tool(name).is_ok());
    }
    assert_eq!(find_tool("monitor_trip").expect("a tool"), ToolName::MonitorTrip);
    assert_eq!(find_tool("fly").expect_err("no tool").message, "unknown tool: fly");
    let listed = respond(request("tools/list", None));
    assert!(listed.starts_with("{\"jsonrpc\":\"2.0\",\"id\":7,\"result\":{\"tools\":[{\"name\":\"search_stations\",\"description\":\"Search Swiss stations and stops by free text query\",\"inputSchema\":{\"type\":\"object\",\"properties\":{\"query\":{\"type\":\"string\"},\"limit\":{\"type\":\"integer\",\"minimum\":1,\"maximum\":50}},\"required\":[\"query\"]}}"));
}

#[test]
fn argument_schemas_are_complete() {
    let tools = tool_definitions();
    let schema = |name: &str| {
        let tool = tools
            .iter()
            .find(|t| t.get("name").and_then(|v| v.as_str()) == Some(name))
            .expect("a tool");
        show(tool.get("inputSchema").expect("a schema"))
    };
    assert_eq!(schema("list_transport_modes"), "{\"type\":\"object\",\"properties\":{}}");
    assert_eq!(
        schema("monitor_trip"),
        "{\"type\":\"object\",\"properties\":{\"trip_id\":{\"type\":\"string\"},\"notify_on_delay_minutes\":{\"type\":\"integer\",\"minimum\":1}},\"required\":[\"trip_id\"]}"
    );
    assert!(schema("plan_trip").contains("\"modes\":{\"type\":\"array\",\"items\":{\"type\":\"string\"}}"));
    assert!(schema("resolve_place").contains(
        "\"strict_exact\":{\"type\":\"boolean\",\"description\":\"if true, fail unless one result exactly matches the query name\"}"
    ));
}

#[test]
fn modes_are_listed_by_their_words() {
    assert_eq!(
        show(&list_transport_modes()),
        "{\"modes\":[\"rail\",\"bus\",\"tram\",\"ship\",\"cableway\",\"funicular\",\"all\"]}"
    );
}
