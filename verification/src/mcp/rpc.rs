//! Requests and responses.

use vstd::prelude::*;

use crate::duplicate::Duplicate;
use crate::error::Error;
use crate::json;
use crate::json::{Json, JsonView};
use crate::mcp::tools;
use crate::text;

verus! {

/// A request of the client.
#[derive(Debug)]
pub struct JsonRpcRequest {
    /// The reference that the response repeats.
    pub id: Option<Json>,
    /// What is asked for.
    pub method: String,
    /// The arguments.
    pub params: Option<Json>,
}

/// The view of a [`JsonRpcRequest`].
#[verifier::ext_equal]
pub struct JsonRpcRequestView {
    pub id: Option<JsonView>,
    pub method: Seq<char>,
    pub params: Option<JsonView>,
}

impl DeepView for JsonRpcRequest {
    type V = JsonRpcRequestView;

    open spec fn deep_view(&self) -> JsonRpcRequestView {
        JsonRpcRequestView {
            id: self.id.deep_view(),
            method: self.method@,
            params: self.params.deep_view(),
        }
    }
}

/// A failure that a response reports.
#[derive(Debug)]
pub struct JsonRpcError {
    /// Its code.
    pub code: i32,
    /// Its message.
    pub message: String,
}

/// A response to the client.
#[derive(Debug)]
pub struct JsonRpcResponse {
    /// The reference of the request.
    pub id: Json,
    /// The result, if there is one.
    pub result: Option<Json>,
    /// The failure, if there is one.
    pub error: Option<JsonRpcError>,
}

/// The view of a [`JsonRpcResponse`].
#[verifier::ext_equal]
pub struct JsonRpcResponseView {
    pub id: JsonView,
    pub result: Option<JsonView>,
    pub error: Option<(int, Seq<char>)>,
}

impl DeepView for JsonRpcResponse {
    type V = JsonRpcResponseView;

    open spec fn deep_view(&self) -> JsonRpcResponseView {
        JsonRpcResponseView {
            id: self.id.deep_view(),
            result: self.result.deep_view(),
            error: match self.error {
                Some(e) => Some((e.code as int, e.message@)),
                None => None,
            },
        }
    }
}

/// What a request leads to.
#[derive(Debug)]
pub enum RpcStep {
    /// Nothing.
    Ignore,
    /// A response.
    Respond(JsonRpcResponse),
    /// The call of a tool, whose outcome is the response.
    Call {
        /// The reference that the response repeats.
        id: Json,
        /// The name of the tool.
        tool: String,
        /// Its arguments.
        arguments: Json,
    },
}

/// The view of an [`RpcStep`].
#[verifier::ext_equal]
pub enum RpcStepView {
    Ignore,
    Respond(JsonRpcResponseView),
    Call { id: JsonView, tool: Seq<char>, arguments: JsonView },
}

impl DeepView for RpcStep {
    type V = RpcStepView;

    open spec fn deep_view(&self) -> RpcStepView {
        match self {
            RpcStep::Ignore => RpcStepView::Ignore,
            RpcStep::Respond(response) => RpcStepView::Respond(response.deep_view()),
            RpcStep::Call { id, tool, arguments } => RpcStepView::Call {
                id: id.deep_view(),
                tool: tool@,
                arguments: arguments.deep_view(),
            },
        }
    }
}

/// The reference of a request; one without a reference has null.
pub open spec fn id_of(request: JsonRpcRequestView) -> JsonView {
    match request.id {
        Some(id) => id,
        None => JsonView::Null,
    }
}

/// A response with a result.
pub open spec fn success(id: JsonView, result: JsonView) -> JsonRpcResponseView {
    JsonRpcResponseView { id, result: Some(result), error: None }
}

/// A response with a failure.
pub open spec fn failure(id: JsonView, code: int, message: Seq<char>) -> JsonRpcResponseView {
    JsonRpcResponseView { id, result: None, error: Some((code, message)) }
}

/// What the server says of itself.
pub open spec fn introduction(server_name: Seq<char>, version: Seq<char>) -> JsonView {
    JsonView::Object(
        seq![
            tools::text_field("protocolVersion"@, "2024-11-05"@),
            (
                "capabilities"@,
                JsonView::Object(
                    seq![
                        (
                            "tools"@,
                            JsonView::Object(seq![("listChanged"@, JsonView::Bool(false))]),
                        ),
                    ],
                ),
            ),
            (
                "serverInfo"@,
                JsonView::Object(
                    seq![
                        tools::text_field("name"@, server_name),
                        tools::text_field("version"@, version),
                    ],
                ),
            ),
        ],
    )
}

/// The list of the tools.
pub open spec fn tool_list() -> JsonView {
    JsonView::Object(seq![("tools"@, JsonView::Array(tools::definitions()))])
}

/// The parameters of a request; one without parameters has null.
pub open spec fn params_of(request: JsonRpcRequestView) -> JsonView {
    match request.params {
        Some(params) => params,
        None => JsonView::Null,
    }
}

/// What a request leads to.
pub open spec fn step_for(
    request: JsonRpcRequestView,
    server_name: Seq<char>,
    version: Seq<char>,
) -> RpcStepView {
    let id = id_of(request);
    if request.method == "notifications/initialized"@ {
        RpcStepView::Ignore
    } else if request.method == "initialize"@ {
        RpcStepView::Respond(success(id, introduction(server_name, version)))
    } else if request.method == "ping"@ {
        RpcStepView::Respond(success(id, JsonView::Object(Seq::empty())))
    } else if request.method == "tools/list"@ {
        RpcStepView::Respond(success(id, tool_list()))
    } else if request.method == "tools/call"@ {
        match params_of(request).field("name"@) {
            Some(JsonView::Text(tool)) => RpcStepView::Call {
                id,
                tool,
                arguments: match params_of(request).field("arguments"@) {
                    Some(arguments) => arguments,
                    None => JsonView::Object(Seq::empty()),
                },
            },
            _ => RpcStepView::Respond(
                failure(JsonView::Null, -32000, "tools/call requires 'name'"@),
            ),
        }
    } else {
        RpcStepView::Respond(failure(id, -32601, "method not found: "@ + request.method))
    }
}

fn succeed(id: Json, result: Json) -> (r: JsonRpcResponse)
    ensures
        r.deep_view() == success(id.deep_view(), result.deep_view()),
{
    JsonRpcResponse { id, result: Some(result), error: None }
}

fn fail(id: Json, code: i32, message: String) -> (r: JsonRpcResponse)
    ensures
        r.deep_view() == failure(id.deep_view(), code as int, message@),
{
    JsonRpcResponse { id, result: None, error: Some(JsonRpcError { code, message }) }
}

fn empty_object() -> (r: Json)
    ensures
        r.deep_view() == JsonView::Object(Seq::empty()),
{
    let fields: Vec<(String, Json)> = Vec::new();
    assert(json::field_views(fields@) =~= Seq::empty());
    Json::object(fields)
}

/// An object with one field.
fn object_of(key: &str, value: Json) -> (r: Json)
    ensures
        r.deep_view() == JsonView::Object(seq![(key@, value.deep_view())]),
{
    let ghost view = value.deep_view();
    let mut fields: Vec<(String, Json)> = Vec::new();
    assert(json::field_views(fields@) =~= Seq::empty());
    tools::add_field(&mut fields, key, value);
    assert(json::field_views(fields@) =~= seq![(key@, view)]);
    Json::object(fields)
}

fn introduce(server_name: &str, version: &str) -> (r: Json)
    ensures
        r.deep_view() == introduction(server_name@, version@),
{
    let capabilities = object_of("tools", object_of("listChanged", Json::Bool(false)));
    let mut info: Vec<(String, Json)> = Vec::new();
    assert(json::field_views(info@) =~= Seq::empty());
    tools::add_field(&mut info, "name", Json::text(server_name));
    tools::add_field(&mut info, "version", Json::text(version));
    assert(json::field_views(info@) =~= seq![
        tools::text_field("name"@, server_name@),
        tools::text_field("version"@, version@),
    ]);
    let mut fields: Vec<(String, Json)> = Vec::new();
    assert(json::field_views(fields@) =~= Seq::empty());
    tools::add_field(&mut fields, "protocolVersion", Json::text("2024-11-05"));
    tools::add_field(&mut fields, "capabilities", capabilities);
    tools::add_field(&mut fields, "serverInfo", Json::object(info));
    assert(json::field_views(fields@) =~= introduction(server_name@, version@)->Object_0);
    Json::object(fields)
}

/// What a request leads to.
pub fn handle_request(request: JsonRpcRequest, server_name: &str, version: &str) -> (r: RpcStep)
    ensures
        r.deep_view() == step_for(request.deep_view(), server_name@, version@),
{
    let method = request.method.as_str();
    let id = match request.id {
        Some(id) => id,
        None => Json::Null,
    };
    if text::same(method, "notifications/initialized") {
        RpcStep::Ignore
    } else if text::same(method, "initialize") {
        RpcStep::Respond(succeed(id, introduce(server_name, version)))
    } else if text::same(method, "ping") {
        RpcStep::Respond(succeed(id, empty_object()))
    } else if text::same(method, "tools/list") {
        let list = Json::array(tools::tool_definitions());
        RpcStep::Respond(succeed(id, object_of("tools", list)))
    } else if text::same(method, "tools/call") {
        let params = match request.params {
            Some(params) => params,
            None => Json::Null,
        };
        let tool = match params.get("name") {
            Some(name) => match name.as_str() {
                Some(t) => Some(t.to_owned()),
                None => None,
            },
            None => None,
        };
        match tool {
            Some(tool) => {
                let arguments = match params.get("arguments") {
                    Some(arguments) => arguments.duplicate(),
                    None => empty_object(),
                };
                RpcStep::Call { id, tool, arguments }
            },
            None => RpcStep::Respond(
                fail(Json::Null, -32000, "tools/call requires 'name'".to_owned()),
            ),
        }
    } else {
        let mut message = "method not found: ".to_owned();
        message.append(method);
        RpcStep::Respond(fail(id, -32601, message))
    }
}

/// The content of the result of a tool: a text, the data, and whether it is a failure.
pub open spec fn tool_result(rendered: Seq<char>, payload: JsonView, failed: bool) -> JsonView {
    JsonView::Object(
        seq![
            (
                "content"@,
                JsonView::Array(
                    seq![
                        JsonView::Object(
                            seq![
                                tools::text_field("type"@, "text"@),
                                tools::text_field("text"@, rendered),
                            ],
                        ),
                    ],
                ),
            ),
            ("structuredContent"@, payload),
            ("isError"@, JsonView::Bool(failed)),
        ],
    )
}

fn make_tool_result(rendered: &str, payload: Json, failed: bool) -> (r: Json)
    ensures
        r.deep_view() == tool_result(rendered@, payload.deep_view(), failed),
{
    let ghost view = payload.deep_view();
    let mut entry: Vec<(String, Json)> = Vec::new();
    assert(json::field_views(entry@) =~= Seq::empty());
    tools::add_field(&mut entry, "type", Json::text("text"));
    tools::add_field(&mut entry, "text", Json::text(rendered));
    let ghost entry_view = seq![
        tools::text_field("type"@, "text"@),
        tools::text_field("text"@, rendered@),
    ];
    assert(json::field_views(entry@) =~= entry_view);
    let mut content: Vec<Json> = Vec::new();
    content.push(Json::object(entry));
    assert(json::views(content@) =~= seq![JsonView::Object(entry_view)]);
    let mut fields: Vec<(String, Json)> = Vec::new();
    assert(json::field_views(fields@) =~= Seq::empty());
    tools::add_field(&mut fields, "content", Json::array(content));
    tools::add_field(&mut fields, "structuredContent", payload);
    tools::add_field(&mut fields, "isError", Json::Bool(failed));
    assert(json::field_views(fields@) =~= tool_result(rendered@, view, failed)->Object_0);
    Json::object(fields)
}

/// The response to the call of a tool. What the tool handed out comes with its text; a
/// failure comes with its message in both places.
pub open spec fn call_response(id: JsonView, outcome: Result<(Seq<char>, JsonView), Seq<char>>) -> JsonRpcResponseView {
    success(
        id,
        match outcome {
            Ok((rendered, payload)) => tool_result(rendered, payload, false),
            Err(message) => tool_result(
                message,
                JsonView::Object(seq![tools::text_field("error"@, message)]),
                true,
            ),
        },
    )
}

/// What a tool handed out, with its text.
pub open spec fn with_text(outcome: Result<JsonView, Seq<char>>) -> Result<
    (Seq<char>, JsonView),
    Seq<char>,
> {
    match outcome {
        Ok(payload) => Ok((json::pretty_text(json::canonical(payload)), payload)),
        Err(message) => Err(message),
    }
}

/// The response to the call of a tool.
pub fn answer_call(id: Json, outcome: Result<Json, Error>) -> (r: JsonRpcResponse)
    ensures
        r.deep_view() == call_response(id.deep_view(), with_text(crate::error::outcome(outcome))),
{
    match outcome {
        Ok(payload) => {
            let rendered = payload.write_pretty();
            answer_rendered(id, Ok((rendered, payload)))
        },
        Err(e) => answer_rendered(id, Err(e)),
    }
}

/// The response to the call of a tool, whose text is at hand.
pub fn answer_rendered(id: Json, outcome: Result<(String, Json), Error>) -> (r: JsonRpcResponse)
    ensures
        r.deep_view() == call_response(id.deep_view(), crate::error::outcome(outcome)),
{
    match outcome {
        Ok((rendered, payload)) => succeed(id, make_tool_result(rendered.as_str(), payload, false)),
        Err(e) => {
            let message = e.message.as_str();
            succeed(
                id,
                make_tool_result(message, object_of("error", Json::text(message)), true),
            )
        },
    }
}

/// A response as it is sent. What is missing is left out.
pub open spec fn response_json(response: JsonRpcResponseView) -> JsonView {
    let head = seq![tools::text_field("jsonrpc"@, "2.0"@), ("id"@, response.id)];
    let with_result = match response.result {
        Some(result) => head.push(("result"@, result)),
        None => head,
    };
    JsonView::Object(
        match response.error {
            Some((code, message)) => with_result.push(
                (
                    "error"@,
                    JsonView::Object(
                        seq![
                            ("code"@, JsonView::Number(text::decimal_int(code))),
                            tools::text_field("message"@, message),
                        ],
                    ),
                ),
            ),
            None => with_result,
        },
    )
}

/// A response as it is sent.
pub fn write_response(response: JsonRpcResponse) -> (r: Json)
    ensures
        r.deep_view() == response_json(response.deep_view()),
{
    let ghost view = response.deep_view();
    let mut fields: Vec<(String, Json)> = Vec::new();
    assert(json::field_views(fields@) =~= Seq::empty());
    tools::add_field(&mut fields, "jsonrpc", Json::text("2.0"));
    tools::add_field(&mut fields, "id", response.id);
    assert(json::field_views(fields@) =~= seq![
        tools::text_field("jsonrpc"@, "2.0"@),
        ("id"@, view.id),
    ]);
    match response.result {
        Some(result) => tools::add_field(&mut fields, "result", result),
        None => {},
    }
    match response.error {
        Some(e) => {
            let mut error: Vec<(String, Json)> = Vec::new();
            assert(json::field_views(error@) =~= Seq::empty());
            let code = text::write_decimal_int(e.code as i64);
            tools::add_field(&mut error, "code", Json::Number(code));
            tools::add_field(&mut error, "message", Json::text(e.message.as_str()));
            assert(json::field_views(error@) =~= seq![
                ("code"@, JsonView::Number(text::decimal_int(e.code as int))),
                tools::text_field("message"@, e.message@),
            ]);
            tools::add_field(&mut fields, "error", Json::object(error));
        },
        None => {},
    }
    Json::object(fields)
}

/// A response has a result or reports a failure, and never both.
pub proof fn law_response_is_result_or_failure(
    request: JsonRpcRequestView,
    server_name: Seq<char>,
    version: Seq<char>,
)
    ensures
        step_for(request, server_name, version) matches RpcStepView::Respond(response) ==> (
        response.result is Some <==> response.error is None),
{
}

/// A response repeats the reference of its request, and so does the call of a tool, unless
/// a call names no tool.
pub proof fn law_response_keeps_the_reference(
    request: JsonRpcRequestView,
    server_name: Seq<char>,
    version: Seq<char>,
)
    requires
        request.method == "tools/call"@ ==> params_of(request).field("name"@) matches Some(
            JsonView::Text(_),
        ),
    ensures
        match step_for(request, server_name, version) {
            RpcStepView::Ignore => request.method == "notifications/initialized"@,
            RpcStepView::Respond(response) => response.id == id_of(request),
            RpcStepView::Call { id, .. } => id == id_of(request),
        },
{
}

/// The response to the call of a tool repeats the reference of the call and is no
/// protocol failure, however the call went.
pub proof fn law_call_is_always_answered(
    id: JsonView,
    outcome: Result<(Seq<char>, JsonView), Seq<char>>,
)
    ensures
        call_response(id, outcome).id == id,
        call_response(id, outcome).error is None,
        call_response(id, outcome).result is Some,
{
}

/// What each method leads to: two are answered by what the server is and can do, a ping by
/// nothing, the notice of a client is passed over, and an unknown method is a failure.
pub proof fn law_methods_are_answered(
    request: JsonRpcRequestView,
    server_name: Seq<char>,
    version: Seq<char>,
)
    ensures
        ({
            let step = step_for(request, server_name, version);
            let m = request.method;
            let id = match request.id {
                Some(given) => given,
                None => JsonView::Null,
            };
            &&& m == "notifications/initialized"@ <==> step is Ignore
            &&& m == "initialize"@ ==> step == RpcStepView::Respond(
                JsonRpcResponseView {
                    id,
                    result: Some(introduction(server_name, version)),
                    error: None,
                },
            )
            &&& m == "ping"@ ==> step == RpcStepView::Respond(
                JsonRpcResponseView {
                    id,
                    result: Some(JsonView::Object(Seq::empty())),
                    error: None,
                },
            )
            &&& m == "tools/list"@ ==> step == RpcStepView::Respond(
                JsonRpcResponseView {
                    id,
                    result: Some(
                        JsonView::Object(seq![("tools"@, JsonView::Array(tools::definitions()))]),
                    ),
                    error: None,
                },
            )
            &&& step is Call ==> m == "tools/call"@
            &&& m != "notifications/initialized"@ && m != "initialize"@ && m != "ping"@ && m
                != "tools/list"@ && m != "tools/call"@ ==> step == RpcStepView::Respond(
                JsonRpcResponseView {
                    id,
                    result: None,
                    error: Some((-32601, "method not found: "@ + m)),
                },
            )
        }),
{
    reveal_strlit("notifications/initialized");
    reveal_strlit("initialize");
    reveal_strlit("ping");
    reveal_strlit("tools/list");
    reveal_strlit("tools/call");
    assert("notifications/initialized"@.len() == 25);
    assert("initialize"@.len() == 10 && "initialize"@[0] == 'i');
    assert("ping"@.len() == 4);
    assert("tools/list"@.len() == 10 && "tools/list"@[0] == 't' && "tools/list"@[6] == 'l');
    assert("tools/call"@.len() == 10 && "tools/call"@[0] == 't' && "tools/call"@[6] == 'c');
}

/// A call is of the tool that the parameters name, with the arguments they hold, or with
/// none; without a name it is a failure of the server, to no one's reference.
pub proof fn law_calls_are_passed_on(
    request: JsonRpcRequestView,
    server_name: Seq<char>,
    version: Seq<char>,
    name: Seq<char>,
)
    requires
        request.method == "tools/call"@,
    ensures
        ({
            let step = step_for(request, server_name, version);
            let params = request.params;
            let told = match params {
                Some(given) => given.field("name"@),
                None => JsonView::Null.field("name"@),
            };
            let with = match params {
                Some(given) => given.field("arguments"@),
                None => JsonView::Null.field("arguments"@),
            };
            &&& told == Some(JsonView::Text(name)) && with is Some ==> (
            step matches RpcStepView::Call { id, tool, arguments } && tool == name && arguments
                == with->0 && (request.id is Some ==> id == request.id->0) && (request.id is None
                ==> id == JsonView::Null))
            &&& told == Some(JsonView::Text(name)) && with is None ==> (
            step matches RpcStepView::Call { id, tool, arguments } && tool == name && arguments
                == JsonView::Object(Seq::empty()))
            &&& !(told is Some && told->0 is Text) ==> step == RpcStepView::Respond(
                JsonRpcResponseView {
                    id: JsonView::Null,
                    result: None,
                    error: Some((-32000, "tools/call requires 'name'"@)),
                },
            )
        }),
{
    reveal_strlit("notifications/initialized");
    reveal_strlit("initialize");
    reveal_strlit("ping");
    reveal_strlit("tools/list");
    reveal_strlit("tools/call");
    assert("notifications/initialized"@.len() == 25);
    assert("initialize"@.len() == 10 && "initialize"@[0] == 'i');
    assert("ping"@.len() == 4);
    assert("tools/list"@.len() == 10 && "tools/list"@[0] == 't' && "tools/list"@[6] == 'l');
    assert("tools/call"@.len() == 10 && "tools/call"@[0] == 't' && "tools/call"@[6] == 'c');
}

/// The server tells the version of the protocol, that its tools do not change, its name and
/// its version.
pub proof fn law_server_introduces_itself(server_name: Seq<char>, version: Seq<char>)
    ensures
        ({
            let fields = introduction(server_name, version)->Object_0;
            let info = fields[2].1->Object_0;
            let about_tools = fields[1].1->Object_0[0].1->Object_0;
            &&& introduction(server_name, version) is Object && fields.len() == 3
            &&& fields[0] == ("protocolVersion"@, JsonView::Text("2024-11-05"@))
            &&& fields[1].0 == "capabilities"@ && fields[1].1 is Object
            &&& fields[1].1->Object_0.len() == 1 && fields[1].1->Object_0[0].0 == "tools"@
            &&& about_tools.len() == 1 && about_tools[0] == ("listChanged"@, JsonView::Bool(false))
            &&& fields[2].0 == "serverInfo"@ && fields[2].1 is Object && info.len() == 2
            &&& info[0] == ("name"@, JsonView::Text(server_name))
            &&& info[1] == ("version"@, JsonView::Text(version))
        }),
{
}

/// The result of a tool is its data with its text and is no failure; a failure is told both
/// as text and as data, and marked as one.
pub proof fn law_results_of_tools(
    id: JsonView,
    rendered: Seq<char>,
    payload: JsonView,
    message: Seq<char>,
)
    ensures
        ({
            let went = call_response(id, Ok((rendered, payload))).result->0->Object_0;
            let failed = call_response(id, Err(message)).result->0->Object_0;
            let text_of = went[0].1->Array_0[0]->Object_0;
            let told = failed[0].1->Array_0[0]->Object_0;
            &&& went.len() == 3 && failed.len() == 3
            &&& went[0].0 == "content"@ && failed[0].0 == "content"@
            &&& went[0].1->Array_0.len() == 1 && failed[0].1->Array_0.len() == 1
            &&& text_of[0] == ("type"@, JsonView::Text("text"@))
            &&& text_of[1] == ("text"@, JsonView::Text(rendered))
            &&& went[1] == ("structuredContent"@, payload)
            &&& went[2] == ("isError"@, JsonView::Bool(false))
            &&& told[1] == ("text"@, JsonView::Text(message))
            &&& failed[1].0 == "structuredContent"@
            &&& failed[1].1->Object_0.len() == 1
            &&& failed[1].1->Object_0[0] == ("error"@, JsonView::Text(message))
            &&& failed[2] == ("isError"@, JsonView::Bool(true))
            &&& with_text(Err(message)) == Err::<(Seq<char>, JsonView), Seq<char>>(message)
            &&& with_text(Ok(payload)) matches Ok((_, kept)) && kept == payload
        }),
{
}

/// A response is sent with the version of the protocol, its reference, and its result or its
/// failure with code and message; what is missing is not told.
pub proof fn law_response_is_sent(
    id: JsonView,
    result: JsonView,
    code: int,
    message: Seq<char>,
)
    ensures
        ({
            let went = response_json(
                JsonRpcResponseView { id, result: Some(result), error: None },
            )->Object_0;
            let failed = response_json(
                JsonRpcResponseView { id, result: None, error: Some((code, message)) },
            )->Object_0;
            let fault = failed[2].1->Object_0;
            &&& went.len() == 3 && failed.len() == 3
            &&& went[0] == ("jsonrpc"@, JsonView::Text("2.0"@)) && failed[0] == went[0]
            &&& went[1] == ("id"@, id) && failed[1] == went[1]
            &&& went[2] == ("result"@, result)
            &&& failed[2].0 == "error"@ && fault.len() == 2
            &&& fault[0] == ("code"@, JsonView::Number(text::decimal_int(code)))
            &&& fault[1] == ("message"@, JsonView::Text(message))
        }),
{
}

} // verus!
