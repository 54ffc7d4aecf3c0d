//! The tools of the server and the schemas of their arguments.

use vstd::prelude::*;

use crate::error;
use crate::error::Error;
use crate::json;
use crate::json::{Json, JsonView};
use crate::text;

verus! {

/// What a property of the arguments of a tool holds.
#[derive(Debug, Clone, Copy, PartialEq, Eq, Structural)]
pub enum PropertyKind {
    /// A text.
    Text,
    /// A truth value.
    Boolean,
    /// An integer within bounds.
    Integer {
        /// The least value.
        minimum: u64,
        /// The largest value, if there is one.
        maximum: Option<u64>,
    },
    /// A list of texts.
    TextList,
}

/// A property of the arguments of a tool.
#[derive(Debug)]
pub struct Property {
    /// Its name.
    pub name: String,
    /// What it holds.
    pub kind: PropertyKind,
    /// What it is for.
    pub description: Option<String>,
}

/// The view of a [`Property`].
#[verifier::ext_equal]
pub struct PropertyView {
    pub name: Seq<char>,
    pub kind: PropertyKind,
    pub description: Option<Seq<char>>,
}

impl DeepView for Property {
    type V = PropertyView;

    open spec fn deep_view(&self) -> PropertyView {
        PropertyView {
            name: self.name@,
            kind: self.kind,
            description: self.description.deep_view(),
        }
    }
}

/// A tool and its arguments.
#[derive(Debug)]
pub struct Tool {
    /// Its name.
    pub name: String,
    /// What it does.
    pub description: String,
    /// The properties of its arguments.
    pub properties: Vec<Property>,
    /// The names of those that must be given.
    pub required: Vec<String>,
}

/// The view of a [`Tool`].
#[verifier::ext_equal]
pub struct ToolView {
    pub name: Seq<char>,
    pub description: Seq<char>,
    pub properties: Seq<PropertyView>,
    pub required: Seq<Seq<char>>,
}

impl DeepView for Tool {
    type V = ToolView;

    open spec fn deep_view(&self) -> ToolView {
        ToolView {
            name: self.name@,
            description: self.description@,
            properties: self.properties.deep_view(),
            required: self.required.deep_view(),
        }
    }
}

/// A property of the arguments of a tool.
pub open spec fn property(
    name: Seq<char>,
    kind: PropertyKind,
    description: Option<Seq<char>>,
) -> PropertyView {
    PropertyView { name, kind, description }
}

fn make_property(name: &str, kind: PropertyKind, description: Option<&str>) -> (r: Property)
    ensures
        r.deep_view() == property(name@, kind, description.deep_view()),
{
    Property {
        name: name.to_owned(),
        kind,
        description: match description {
            Some(d) => Some(d.to_owned()),
            None => None,
        },
    }
}

/// The tool `search_stations`.
pub open spec fn search_stations() -> ToolView {
    ToolView {
        name: "search_stations"@,
        description: "Search Swiss stations and stops by free text query"@,
        properties: seq![
            property("query"@, PropertyKind::Text, None),
            property("limit"@, PropertyKind::Integer { minimum: 1, maximum: Some(50) }, None),
        ],
        required: seq!["query"@],
    }
}

fn make_search_stations() -> (r: Tool)
    ensures
        r.deep_view() == search_stations(),
{
    let mut properties: Vec<Property> = Vec::new();
    properties.push(make_property("query", PropertyKind::Text, None));
    properties.push(make_property("limit", PropertyKind::Integer { minimum: 1, maximum: Some(50) }, None));
    assert(properties.deep_view() =~= search_stations().properties);
    let mut required: Vec<String> = Vec::new();
    required.push("query".to_owned());
    assert(required.deep_view() =~= search_stations().required);
    Tool {
        name: "search_stations".to_owned(),
        description: "Search Swiss stations and stops by free text query".to_owned(),
        properties,
        required,
    }
}

/// The tool `resolve_place`.
pub open spec fn resolve_place() -> ToolView {
    ToolView {
        name: "resolve_place"@,
        description: "Resolve a place/station query to OJP ids for deterministic point-to-point trip planning"@,
        properties: seq![
            property("query"@, PropertyKind::Text, None),
            property("limit"@, PropertyKind::Integer { minimum: 1, maximum: Some(20) }, None),
            property("strict_exact"@, PropertyKind::Boolean, Some("if true, fail unless one result exactly matches the query name"@)),
        ],
        required: seq!["query"@],
    }
}

fn make_resolve_place() -> (r: Tool)
    ensures
        r.deep_view() == resolve_place(),
{
    let mut properties: Vec<Property> = Vec::new();
    properties.push(make_property("query", PropertyKind::Text, None));
    properties.push(make_property("limit", PropertyKind::Integer { minimum: 1, maximum: Some(20) }, None));
    properties.push(make_property("strict_exact", PropertyKind::Boolean, Some("if true, fail unless one result exactly matches the query name")));
    assert(properties.deep_view() =~= resolve_place().properties);
    let mut required: Vec<String> = Vec::new();
    required.push("query".to_owned());
    assert(required.deep_view() =~= resolve_place().required);
    Tool {
        name: "resolve_place".to_owned(),
        description: "Resolve a place/station query to OJP ids for deterministic point-to-point trip planning".to_owned(),
        properties,
        required,
    }
}

/// The tool `plan_trip`.
pub open spec fn plan_trip() -> ToolView {
    ToolView {
        name: "plan_trip"@,
        description: "Plan a trip between places/stations using OJP trip planning"@,
        properties: seq![
            property("from_station"@, PropertyKind::Text, Some("origin station/place name (required when from_station_id is not provided)"@)),
            property("from_station_id"@, PropertyKind::Text, Some("optional explicit origin stop/place id"@)),
            property("to_station"@, PropertyKind::Text, Some("destination station/place name (required when to_station_id is not provided)"@)),
            property("to_station_id"@, PropertyKind::Text, Some("optional explicit destination stop/place id"@)),
            property("datetime"@, PropertyKind::Text, Some("ISO8601, earliest, now, tomorrow at 6"@)),
            property("limit"@, PropertyKind::Integer { minimum: 1, maximum: Some(5) }, Some("maximum number of options to return (default 5)"@)),
            property("strict_resolution"@, PropertyKind::Boolean, Some("if true and no explicit id is provided, require exact station-name match instead of best-effort fuzzy selection"@)),
            property("modes"@, PropertyKind::TextList, None),
        ],
        required: Seq::empty(),
    }
}

fn make_plan_trip() -> (r: Tool)
    ensures
        r.deep_view() == plan_trip(),
{
    let mut properties: Vec<Property> = Vec::new();
    properties.push(make_property("from_station", PropertyKind::Text, Some("origin station/place name (required when from_station_id is not provided)")));
    properties.push(make_property("from_station_id", PropertyKind::Text, Some("optional explicit origin stop/place id")));
    properties.push(make_property("to_station", PropertyKind::Text, Some("destination station/place name (required when to_station_id is not provided)")));
    properties.push(make_property("to_station_id", PropertyKind::Text, Some("optional explicit destination stop/place id")));
    properties.push(make_property("datetime", PropertyKind::Text, Some("ISO8601, earliest, now, tomorrow at 6")));
    properties.push(make_property("limit", PropertyKind::Integer { minimum: 1, maximum: Some(5) }, Some("maximum number of options to return (default 5)")));
    properties.push(make_property("strict_resolution", PropertyKind::Boolean, Some("if true and no explicit id is provided, require exact station-name match instead of best-effort fuzzy selection")));
    properties.push(make_property("modes", PropertyKind::TextList, None));
    assert(properties.deep_view() =~= plan_trip().properties);
    let required: Vec<String> = Vec::new();
    assert(required.deep_view() =~= plan_trip().required);
    Tool {
        name: "plan_trip".to_owned(),
        description: "Plan a trip between places/stations using OJP trip planning".to_owned(),
        properties,
        required,
    }
}

/// The tool `plan_trip_point_to_point`.
pub open spec fn plan_trip_point_to_point() -> ToolView {
    ToolView {
        name: "plan_trip_point_to_point"@,
        description: "Plan a deterministic trip between explicit origin/destination ids"@,
        properties: seq![
            property("from_id"@, PropertyKind::Text, None),
            property("to_id"@, PropertyKind::Text, None),
            property("from_name"@, PropertyKind::Text, Some("optional human-readable origin label"@)),
            property("to_name"@, PropertyKind::Text, Some("optional human-readable destination label"@)),
            property("datetime"@, PropertyKind::Text, Some("ISO8601, earliest, now, tomorrow at 6"@)),
            property("limit"@, PropertyKind::Integer { minimum: 1, maximum: Some(5) }, Some("maximum number of options to return (default 5)"@)),
            property("modes"@, PropertyKind::TextList, None),
        ],
        required: seq!["from_id"@, "to_id"@],
    }
}

fn make_plan_trip_point_to_point() -> (r: Tool)
    ensures
        r.deep_view() == plan_trip_point_to_point(),
{
    let mut properties: Vec<Property> = Vec::new();
    properties.push(make_property("from_id", PropertyKind::Text, None));
    properties.push(make_property("to_id", PropertyKind::Text, None));
    properties.push(make_property("from_name", PropertyKind::Text, Some("optional human-readable origin label")));
    properties.push(make_property("to_name", PropertyKind::Text, Some("optional human-readable destination label")));
    properties.push(make_property("datetime", PropertyKind::Text, Some("ISO8601, earliest, now, tomorrow at 6")));
    properties.push(make_property("limit", PropertyKind::Integer { minimum: 1, maximum: Some(5) }, Some("maximum number of options to return (default 5)")));
    properties.push(make_property("modes", PropertyKind::TextList, None));
    assert(properties.deep_view() =~= plan_trip_point_to_point().properties);
    let mut required: Vec<String> = Vec::new();
    required.push("from_id".to_owned());
    required.push("to_id".to_owned());
    assert(required.deep_view() =~= plan_trip_point_to_point().required);
    Tool {
        name: "plan_trip_point_to_point".to_owned(),
        description: "Plan a deterministic trip between explicit origin/destination ids".to_owned(),
        properties,
        required,
    }
}

/// The tool `get_departures`.
pub open spec fn get_departures() -> ToolView {
    ToolView {
        name: "get_departures"@,
        description: "Get real-time departures for a station id or station query (supports mode filters, e.g. boats/ships)"@,
        properties: seq![
            property("station_id"@, PropertyKind::Text, None),
            property("station_query"@, PropertyKind::Text, Some("free-text place/station query when station_id is not provided"@)),
            property("limit"@, PropertyKind::Integer { minimum: 1, maximum: Some(100) }, None),
            property("time_window"@, PropertyKind::Integer { minimum: 1, maximum: None }, Some("minutes"@)),
            property("modes"@, PropertyKind::TextList, None),
            property("query"@, PropertyKind::Text, Some("free text like 'boats in the area'"@)),
        ],
        required: Seq::empty(),
    }
}

fn make_get_departures() -> (r: Tool)
    ensures
        r.deep_view() == get_departures(),
{
    let mut properties: Vec<Property> = Vec::new();
    properties.push(make_property("station_id", PropertyKind::Text, None));
    properties.push(make_property("station_query", PropertyKind::Text, Some("free-text place/station query when station_id is not provided")));
    properties.push(make_property("limit", PropertyKind::Integer { minimum: 1, maximum: Some(100) }, None));
    properties.push(make_property("time_window", PropertyKind::Integer { minimum: 1, maximum: None }, Some("minutes")));
    properties.push(make_property("modes", PropertyKind::TextList, None));
    properties.push(make_property("query", PropertyKind::Text, Some("free text like 'boats in the area'")));
    assert(properties.deep_view() =~= get_departures().properties);
    let required: Vec<String> = Vec::new();
    assert(required.deep_view() =~= get_departures().required);
    Tool {
        name: "get_departures".to_owned(),
        description: "Get real-time departures for a station id or station query (supports mode filters, e.g. boats/ships)".to_owned(),
        properties,
        required,
    }
}

/// The tool `get_trip_details`.
pub open spec fn get_trip_details() -> ToolView {
    ToolView {
        name: "get_trip_details"@,
        description: "Get live GTFS-RT updates for a specific trip"@,
        properties: seq![
            property("trip_id"@, PropertyKind::Text, None),
        ],
        required: seq!["trip_id"@],
    }
}

fn make_get_trip_details() -> (r: Tool)
    ensures
        r.deep_view() == get_trip_details(),
{
    let mut properties: Vec<Property> = Vec::new();
    properties.push(make_property("trip_id", PropertyKind::Text, None));
    assert(properties.deep_view() =~= get_trip_details().properties);
    let mut required: Vec<String> = Vec::new();
    required.push("trip_id".to_owned());
    assert(required.deep_view() =~= get_trip_details().required);
    Tool {
        name: "get_trip_details".to_owned(),
        description: "Get live GTFS-RT updates for a specific trip".to_owned(),
        properties,
        required,
    }
}

/// The tool `monitor_trip`.
pub open spec fn monitor_trip() -> ToolView {
    ToolView {
        name: "monitor_trip"@,
        description: "Subscribe to delay notifications for a trip"@,
        properties: seq![
            property("trip_id"@, PropertyKind::Text, None),
            property("notify_on_delay_minutes"@, PropertyKind::Integer { minimum: 1, maximum: None }, None),
        ],
        required: seq!["trip_id"@],
    }
}

fn make_monitor_trip() -> (r: Tool)
    ensures
        r.deep_view() == monitor_trip(),
{
    let mut properties: Vec<Property> = Vec::new();
    properties.push(make_property("trip_id", PropertyKind::Text, None));
    properties.push(make_property("notify_on_delay_minutes", PropertyKind::Integer { minimum: 1, maximum: None }, None));
    assert(properties.deep_view() =~= monitor_trip().properties);
    let mut required: Vec<String> = Vec::new();
    required.push("trip_id".to_owned());
    assert(required.deep_view() =~= monitor_trip().required);
    Tool {
        name: "monitor_trip".to_owned(),
        description: "Subscribe to delay notifications for a trip".to_owned(),
        properties,
        required,
    }
}

/// The tool `list_transport_modes`.
pub open spec fn list_transport_modes() -> ToolView {
    ToolView {
        name: "list_transport_modes"@,
        description: "List supported transport mode filters"@,
        properties: Seq::empty(),
        required: Seq::empty(),
    }
}

fn make_list_transport_modes() -> (r: Tool)
    ensures
        r.deep_view() == list_transport_modes(),
{
    let properties: Vec<Property> = Vec::new();
    assert(properties.deep_view() =~= list_transport_modes().properties);
    let required: Vec<String> = Vec::new();
    assert(required.deep_view() =~= list_transport_modes().required);
    Tool {
        name: "list_transport_modes".to_owned(),
        description: "List supported transport mode filters".to_owned(),
        properties,
        required,
    }
}

/// The tool `get_disruptions`.
pub open spec fn get_disruptions() -> ToolView {
    ToolView {
        name: "get_disruptions"@,
        description: "Get active service disruptions from GTFS alerts"@,
        properties: seq![
            property("line"@, PropertyKind::Text, None),
            property("station"@, PropertyKind::Text, None),
        ],
        required: Seq::empty(),
    }
}

fn make_get_disruptions() -> (r: Tool)
    ensures
        r.deep_view() == get_disruptions(),
{
    let mut properties: Vec<Property> = Vec::new();
    properties.push(make_property("line", PropertyKind::Text, None));
    properties.push(make_property("station", PropertyKind::Text, None));
    assert(properties.deep_view() =~= get_disruptions().properties);
    let required: Vec<String> = Vec::new();
    assert(required.deep_view() =~= get_disruptions().required);
    Tool {
        name: "get_disruptions".to_owned(),
        description: "Get active service disruptions from GTFS alerts".to_owned(),
        properties,
        required,
    }
}

/// The tools of the server.
pub open spec fn tools() -> Seq<ToolView> {
    seq![
        search_stations(),
        resolve_place(),
        plan_trip(),
        plan_trip_point_to_point(),
        get_departures(),
        get_trip_details(),
        monitor_trip(),
        list_transport_modes(),
        get_disruptions(),
    ]
}

fn make_tools() -> (r: Vec<Tool>)
    ensures
        r.deep_view() == tools(),
{
    let mut list: Vec<Tool> = Vec::new();
    list.push(make_search_stations());
    list.push(make_resolve_place());
    list.push(make_plan_trip());
    list.push(make_plan_trip_point_to_point());
    list.push(make_get_departures());
    list.push(make_get_trip_details());
    list.push(make_monitor_trip());
    list.push(make_list_transport_modes());
    list.push(make_get_disruptions());
    assert(list.deep_view() =~= tools());
    list
}

// ---------------------------------------------------------------------------
// Definitions
// ---------------------------------------------------------------------------

/// A field with a text.
pub open spec fn text_field(key: Seq<char>, value: Seq<char>) -> (Seq<char>, JsonView) {
    (key, JsonView::Text(value))
}

/// A field with a number.
pub open spec fn number_field(key: Seq<char>, value: nat) -> (Seq<char>, JsonView) {
    (key, JsonView::Number(text::decimal(value)))
}

/// The fields of the schema for what a property holds.
pub open spec fn kind_fields(kind: PropertyKind) -> Seq<(Seq<char>, JsonView)> {
    match kind {
        PropertyKind::Text => seq![text_field("type"@, "string"@)],
        PropertyKind::Boolean => seq![text_field("type"@, "boolean"@)],
        PropertyKind::Integer { minimum, maximum } => {
            let head = seq![
                text_field("type"@, "integer"@),
                number_field("minimum"@, minimum as nat),
            ];
            match maximum {
                Some(m) => head.push(number_field("maximum"@, m as nat)),
                None => head,
            }
        },
        PropertyKind::TextList => seq![
            text_field("type"@, "array"@),
            ("items"@, JsonView::Object(seq![text_field("type"@, "string"@)])),
        ],
    }
}

/// The schema of a property.
pub open spec fn property_schema(p: PropertyView) -> JsonView {
    JsonView::Object(
        match p.description {
            Some(d) => kind_fields(p.kind).push(text_field("description"@, d)),
            None => kind_fields(p.kind),
        },
    )
}

/// The schemas of properties, by name.
pub open spec fn property_schemas(properties: Seq<PropertyView>) -> Seq<(Seq<char>, JsonView)> {
    Seq::new(
        properties.len(),
        |i: int| (properties[i].name, property_schema(properties[i])),
    )
}

/// Texts as a list.
pub open spec fn text_items(items: Seq<Seq<char>>) -> Seq<JsonView> {
    Seq::new(items.len(), |i: int| JsonView::Text(items[i]))
}

/// The fields of the schema of the arguments of a tool.
pub open spec fn schema_fields(tool: ToolView) -> Seq<(Seq<char>, JsonView)> {
    let head = seq![
        text_field("type"@, "object"@),
        ("properties"@, JsonView::Object(property_schemas(tool.properties))),
    ];
    if tool.required.len() > 0 {
        head.push(("required"@, JsonView::Array(text_items(tool.required))))
    } else {
        head
    }
}

/// The definition of a tool.
pub open spec fn definition(tool: ToolView) -> JsonView {
    JsonView::Object(
        seq![
            text_field("name"@, tool.name),
            text_field("description"@, tool.description),
            ("inputSchema"@, JsonView::Object(schema_fields(tool))),
        ],
    )
}

/// The definitions of the tools of the server.
pub open spec fn definitions() -> Seq<JsonView> {
    Seq::new(tools().len(), |i: int| definition(tools()[i]))
}

/// Adds a field to those of an object.
pub fn add_field(fields: &mut Vec<(String, Json)>, key: &str, value: Json)
    ensures
        json::field_views(final(fields)@) == json::field_views(old(fields)@).push(
            (key@, value.deep_view()),
        ),
{
    let ghost before = json::field_views(fields@);
    let ghost view = value.deep_view();
    fields.push((key.to_owned(), value));
    assert(json::field_views(fields@) =~= before.push((key@, view)));
}

/// Texts as a list.
pub fn list_texts(items: &Vec<String>) -> (r: Json)
    ensures
        r.deep_view() == JsonView::Array(text_items(items.deep_view())),
{
    let mut out: Vec<Json> = Vec::new();
    let mut i: usize = 0;
    while i < items.len()
        invariant
            i <= items@.len(),
            out@.len() == i,
            forall|k: int|
                0 <= k < i ==> json::view_of(#[trigger] out@[k]) == JsonView::Text(items@[k]@),
        decreases items@.len() - i,
    {
        out.push(Json::text(items[i].as_str()));
        i += 1;
    }
    assert(json::views(out@) =~= text_items(items.deep_view()));
    Json::array(out)
}

fn define_property(p: &Property) -> (r: Json)
    ensures
        r.deep_view() == property_schema(p.deep_view()),
{
    let mut fields: Vec<(String, Json)> = Vec::new();
    assert(json::field_views(fields@) =~= Seq::empty());
    match p.kind {
        PropertyKind::Text => {
            add_field(&mut fields, "type", Json::text("string"));
        },
        PropertyKind::Boolean => {
            add_field(&mut fields, "type", Json::text("boolean"));
        },
        PropertyKind::Integer { minimum, maximum } => {
            add_field(&mut fields, "type", Json::text("integer"));
            add_field(&mut fields, "minimum", Json::Number(text::write_decimal(minimum)));
            match maximum {
                Some(m) => add_field(&mut fields, "maximum", Json::Number(text::write_decimal(m))),
                None => {},
            }
        },
        PropertyKind::TextList => {
            add_field(&mut fields, "type", Json::text("array"));
            let mut items: Vec<(String, Json)> = Vec::new();
            assert(json::field_views(items@) =~= Seq::empty());
            add_field(&mut items, "type", Json::text("string"));
            assert(json::field_views(items@) =~= seq![text_field("type"@, "string"@)]);
            add_field(&mut fields, "items", Json::object(items));
        },
    }
    assert(json::field_views(fields@) =~= kind_fields(p.kind));
    match &p.description {
        Some(d) => add_field(&mut fields, "description", Json::text(d.as_str())),
        None => {},
    }
    Json::object(fields)
}

fn define_tool(tool: &Tool) -> (r: Json)
    ensures
        r.deep_view() == definition(tool.deep_view()),
{
    let ghost view = tool.deep_view();
    let mut properties: Vec<(String, Json)> = Vec::new();
    let mut i: usize = 0;
    while i < tool.properties.len()
        invariant
            i <= tool.properties@.len(),
            view == tool.deep_view(),
            properties@.len() == i,
            forall|k: int|
                0 <= k < i ==> ((#[trigger] properties@[k]).0@, json::view_of(properties@[k].1))
                    == property_schemas(view.properties)[k],
        decreases tool.properties@.len() - i,
    {
        assert(view.properties[i as int] == tool.properties@[i as int].deep_view());
        let p = &tool.properties[i];
        properties.push((p.name.clone(), define_property(p)));
        i += 1;
    }
    assert(json::field_views(properties@) =~= property_schemas(view.properties));
    let mut schema: Vec<(String, Json)> = Vec::new();
    assert(json::field_views(schema@) =~= Seq::empty());
    add_field(&mut schema, "type", Json::text("object"));
    add_field(&mut schema, "properties", Json::object(properties));
    if tool.required.len() > 0 {
        add_field(&mut schema, "required", list_texts(&tool.required));
    }
    assert(json::field_views(schema@) =~= schema_fields(view));
    let mut fields: Vec<(String, Json)> = Vec::new();
    assert(json::field_views(fields@) =~= Seq::empty());
    add_field(&mut fields, "name", Json::text(tool.name.as_str()));
    add_field(&mut fields, "description", Json::text(tool.description.as_str()));
    add_field(&mut fields, "inputSchema", Json::object(schema));
    assert(json::field_views(fields@) =~= definition(view)->Object_0);
    Json::object(fields)
}

/// The definitions of the tools of the server.
pub fn tool_definitions() -> (r: Vec<Json>)
    ensures
        json::views(r@) == definitions(),
{
    let list = make_tools();
    let mut out: Vec<Json> = Vec::new();
    let mut i: usize = 0;
    while i < list.len()
        invariant
            i <= list@.len(),
            list.deep_view() == tools(),
            out@.len() == i,
            forall|k: int| 0 <= k < i ==> json::view_of(#[trigger] out@[k]) == definition(tools()[k]),
        decreases list@.len() - i,
    {
        assert(list.deep_view()[i as int] == list@[i as int].deep_view());
        out.push(define_tool(&list[i]));
        i += 1;
    }
    assert(json::views(out@) =~= definitions());
    out
}

/// A keyword that validators of schemas do not take at the top level.
pub open spec fn disallowed(keyword: Seq<char>) -> bool {
    keyword == "oneOf"@ || keyword == "anyOf"@ || keyword == "allOf"@ || keyword == "enum"@
        || keyword == "not"@
}

/// The schema of the arguments of a tool is an object, and holds none of the keywords
/// that validators do not take at the top level.
pub proof fn law_schemas_are_plain_objects(tool: ToolView, keyword: Seq<char>)
    ensures
        json::first_field(schema_fields(tool), "type"@) == Some(JsonView::Text("object"@)),
        disallowed(keyword) ==> json::first_field(schema_fields(tool), keyword) is None,
{
    reveal_strlit("oneOf");
    reveal_strlit("anyOf");
    reveal_strlit("allOf");
    reveal_strlit("enum");
    reveal_strlit("not");
    reveal_strlit("type");
    reveal_strlit("properties");
    reveal_strlit("required");
    reveal_with_fuel(json::first_field, 4);
    let fields = schema_fields(tool);
    assert(fields[0].0 == "type"@);
    if disallowed(keyword) {
        assert(keyword != "type"@) by {
            if keyword == "type"@ {
                assert(keyword[0] == 't');
            }
        }
        assert(keyword != "properties"@) by {
            if keyword == "properties"@ {
                assert(keyword[0] == 'p');
            }
        }
        assert(keyword != "required"@) by {
            if keyword == "required"@ {
                assert(keyword[0] == 'r');
            }
        }
        assert(fields.drop_first()[0] == fields[1]);
        assert(fields.drop_first().drop_first().len() == fields.len() - 2);
        assert(fields.len() == 3 ==> fields.drop_first().drop_first()[0] == fields[2]);
    }
}

/// A tool, by its name.
#[derive(Debug, Clone, Copy, PartialEq, Eq, Structural)]
pub enum ToolName {
    /// `search_stations`.
    SearchStations,
    /// `resolve_place`.
    ResolvePlace,
    /// `plan_trip`.
    PlanTrip,
    /// `plan_trip_point_to_point`.
    PlanTripPointToPoint,
    /// `get_departures`.
    GetDepartures,
    /// `get_trip_details`.
    GetTripDetails,
    /// `monitor_trip`.
    MonitorTrip,
    /// `list_transport_modes`.
    ListTransportModes,
    /// `get_disruptions`.
    GetDisruptions,
}

/// The tool of a name.
pub open spec fn tool_named(name: Seq<char>) -> Option<ToolName> {
    if name == "search_stations"@ {
        Some(ToolName::SearchStations)
    } else if name == "resolve_place"@ {
        Some(ToolName::ResolvePlace)
    } else if name == "plan_trip"@ {
        Some(ToolName::PlanTrip)
    } else if name == "plan_trip_point_to_point"@ {
        Some(ToolName::PlanTripPointToPoint)
    } else if name == "get_departures"@ {
        Some(ToolName::GetDepartures)
    } else if name == "get_trip_details"@ {
        Some(ToolName::GetTripDetails)
    } else if name == "monitor_trip"@ {
        Some(ToolName::MonitorTrip)
    } else if name == "list_transport_modes"@ {
        Some(ToolName::ListTransportModes)
    } else if name == "get_disruptions"@ {
        Some(ToolName::GetDisruptions)
    } else {
        None
    }
}

/// The tool of a name, or the failure for a name that is unknown.
pub fn find_tool(name: &str) -> (r: Result<ToolName, Error>)
    ensures
        match r {
            Ok(tool) => tool_named(name@) == Some(tool),
            Err(e) => tool_named(name@) is None && e.deep_view() == "unknown tool: "@ + name@,
        },
{
    if text::same(name, "search_stations") {
        Ok(ToolName::SearchStations)
    } else if text::same(name, "resolve_place") {
        Ok(ToolName::ResolvePlace)
    } else if text::same(name, "plan_trip") {
        Ok(ToolName::PlanTrip)
    } else if text::same(name, "plan_trip_point_to_point") {
        Ok(ToolName::PlanTripPointToPoint)
    } else if text::same(name, "get_departures") {
        Ok(ToolName::GetDepartures)
    } else if text::same(name, "get_trip_details") {
        Ok(ToolName::GetTripDetails)
    } else if text::same(name, "monitor_trip") {
        Ok(ToolName::MonitorTrip)
    } else if text::same(name, "list_transport_modes") {
        Ok(ToolName::ListTransportModes)
    } else if text::same(name, "get_disruptions") {
        Ok(ToolName::GetDisruptions)
    } else {
        let mut message = "unknown tool: ".to_owned();
        message.append(name);
        Err(error::failure(message))
    }
}

/// Each tool that is announced can be called by its name.
pub proof fn law_announced_tools_are_known(i: int)
    requires
        0 <= i < tools().len(),
    ensures
        tool_named(tools()[i].name) is Some,
{
}

/// Each tool is called by its own name, and by no other.
pub proof fn law_tools_have_their_names(name: Seq<char>)
    ensures
        ({
            let t = tool_named(name);
            &&& name == "search_stations"@ <==> t == Some(ToolName::SearchStations)
            &&& name == "resolve_place"@ <==> t == Some(ToolName::ResolvePlace)
            &&& name == "plan_trip"@ <==> t == Some(ToolName::PlanTrip)
            &&& name == "plan_trip_point_to_point"@ <==> t == Some(ToolName::PlanTripPointToPoint)
            &&& name == "get_departures"@ <==> t == Some(ToolName::GetDepartures)
            &&& name == "get_trip_details"@ <==> t == Some(ToolName::GetTripDetails)
            &&& name == "monitor_trip"@ <==> t == Some(ToolName::MonitorTrip)
            &&& name == "list_transport_modes"@ <==> t == Some(ToolName::ListTransportModes)
            &&& name == "get_disruptions"@ <==> t == Some(ToolName::GetDisruptions)
        }),
{
    lemma_names_differ();
}

proof fn lemma_names_differ()
    ensures
        ({
            let a = "search_stations"@;
            let b = "resolve_place"@;
            let c = "plan_trip"@;
            let d = "plan_trip_point_to_point"@;
            let e = "get_departures"@;
            let f = "get_trip_details"@;
            let g = "monitor_trip"@;
            let h = "list_transport_modes"@;
            let i = "get_disruptions"@;
            &&& a.len() == 15 && a[0] == 's'
            &&& b.len() == 13
            &&& c.len() == 9
            &&& d.len() == 24
            &&& e.len() == 14
            &&& f.len() == 16
            &&& g.len() == 12
            &&& h.len() == 20
            &&& i.len() == 15 && i[0] == 'g'
        }),
{
    reveal_strlit("search_stations");
    reveal_strlit("resolve_place");
    reveal_strlit("plan_trip");
    reveal_strlit("plan_trip_point_to_point");
    reveal_strlit("get_departures");
    reveal_strlit("get_trip_details");
    reveal_strlit("monitor_trip");
    reveal_strlit("list_transport_modes");
    reveal_strlit("get_disruptions");
}

/// All tools are announced, no two under one name.
pub proof fn law_every_tool_is_announced(tool: ToolName, i: int, j: int)
    ensures
        exists|k: int|
            0 <= k < tools().len() && tool_named((#[trigger] tools()[k]).name) == Some(tool),
        0 <= i < j < tools().len() ==> tools()[i].name != tools()[j].name,
{
    lemma_names_differ();
    let all = tools();
    match tool {
        ToolName::SearchStations => {
            assert(tool_named(all[0].name) == Some(tool));
        },
        ToolName::ResolvePlace => {
            assert(tool_named(all[1].name) == Some(tool));
        },
        ToolName::PlanTrip => {
            assert(tool_named(all[2].name) == Some(tool));
        },
        ToolName::PlanTripPointToPoint => {
            assert(tool_named(all[3].name) == Some(tool));
        },
        ToolName::GetDepartures => {
            assert(tool_named(all[4].name) == Some(tool));
        },
        ToolName::GetTripDetails => {
            assert(tool_named(all[5].name) == Some(tool));
        },
        ToolName::MonitorTrip => {
            assert(tool_named(all[6].name) == Some(tool));
        },
        ToolName::ListTransportModes => {
            assert(tool_named(all[7].name) == Some(tool));
        },
        ToolName::GetDisruptions => {
            assert(tool_named(all[8].name) == Some(tool));
        },
    }
}

/// The arguments that a tool needs are among those that it announces.
pub proof fn law_needed_arguments_are_announced(i: int, k: int)
    requires
        0 <= i < tools().len(),
        0 <= k < tools()[i].required.len(),
    ensures
        exists|j: int|
            0 <= j < tools()[i].properties.len() && (#[trigger] tools()[i].properties[j]).name
                == tools()[i].required[k],
{
    let t = tools()[i];
    if i == 3 {
        assert(t.properties[k].name == t.required[k]);
    } else {
        assert(t.properties[0].name == t.required[k]);
    }
}

/// The numbers that a tool takes begin with one.
pub proof fn law_numbers_begin_with_one(i: int, j: int)
    requires
        0 <= i < tools().len(),
        0 <= j < tools()[i].properties.len(),
    ensures
        tools()[i].properties[j].kind matches PropertyKind::Integer { minimum, .. } ==> minimum
            == 1,
{
}

/// The definition of a tool tells its name, what it does and what it takes: the schema of
/// each argument by its name, and the needed ones if there are any.
pub proof fn law_definitions_tell_of_the_tool(tool: ToolView, j: int)
    ensures
        ({
            let fields = definition(tool)->Object_0;
            let schema = fields[2].1->Object_0;
            let taken = schema[1].1->Object_0;
            &&& definition(tool) is Object && fields.len() == 3
            &&& fields[0] == ("name"@, JsonView::Text(tool.name))
            &&& fields[1] == ("description"@, JsonView::Text(tool.description))
            &&& fields[2].0 == "inputSchema"@ && fields[2].1 is Object
            &&& schema[0] == ("type"@, JsonView::Text("object"@))
            &&& schema[1].0 == "properties"@ && taken.len() == tool.properties.len()
            &&& 0 <= j < taken.len() ==> taken[j] == (
                tool.properties[j].name,
                property_schema(tool.properties[j]),
            )
            &&& tool.required.len() == 0 ==> schema.len() == 2
            &&& tool.required.len() > 0 ==> schema.len() == 3 && schema[2].0 == "required"@
                && schema[2].1->Array_0.len() == tool.required.len()
            &&& tool.required.len() > 0 && 0 <= j < tool.required.len() ==> schema[2].1->Array_0[j]
                == JsonView::Text(tool.required[j])
        }),
        definitions().len() == tools().len(),
        0 <= j < tools().len() ==> definitions()[j] == definition(tools()[j]),
{
}

/// The schema of an argument tells its type, the bounds of a number and, if it is given,
/// what it is for.
pub proof fn law_schemas_tell_of_the_argument(
    name: Seq<char>,
    kind: PropertyKind,
    description: Seq<char>,
    low: u64,
    high: u64,
)
    ensures
        ({
            let bare = property_schema(PropertyView { name, kind, description: None })->Object_0;
            let told = property_schema(
                PropertyView { name, kind, description: Some(description) },
            )->Object_0;
            let bounded = property_schema(
                PropertyView {
                    name,
                    kind: PropertyKind::Integer { minimum: low, maximum: Some(high) },
                    description: None,
                },
            )->Object_0;
            let open = property_schema(
                PropertyView {
                    name,
                    kind: PropertyKind::Integer { minimum: low, maximum: None },
                    description: None,
                },
            )->Object_0;
            &&& told == bare.push(("description"@, JsonView::Text(description)))
            &&& bare[0].0 == "type"@
            &&& kind is Text ==> bare.len() == 1 && bare[0].1 == JsonView::Text("string"@)
            &&& kind is Boolean ==> bare.len() == 1 && bare[0].1 == JsonView::Text("boolean"@)
            &&& kind is Integer ==> bare[0].1 == JsonView::Text("integer"@)
            &&& kind is TextList ==> bare.len() == 2 && bare[0].1 == JsonView::Text("array"@)
                && bare[1].0 == "items"@ && bare[1].1->Object_0[0] == (
                "type"@,
                JsonView::Text("string"@),
            )
            &&& bounded.len() == 3 && bounded[1] == (
                "minimum"@,
                JsonView::Number(text::decimal(low as nat)),
            ) && bounded[2] == ("maximum"@, JsonView::Number(text::decimal(high as nat)))
            &&& open.len() == 2 && open[1] == bounded[1]
        }),
{
}

/// What each tool takes, in order, and which of it is needed.
pub proof fn law_arguments_of_the_tools()
    ensures
        names_taken(0) == seq!["query"@, "limit"@],
        names_taken(1) == seq!["query"@, "limit"@, "strict_exact"@],
        names_taken(2) == seq![
            "from_station"@,
            "from_station_id"@,
            "to_station"@,
            "to_station_id"@,
            "datetime"@,
            "limit"@,
            "strict_resolution"@,
            "modes"@,
        ],
        names_taken(3) == seq![
            "from_id"@,
            "to_id"@,
            "from_name"@,
            "to_name"@,
            "datetime"@,
            "limit"@,
            "modes"@,
        ],
        names_taken(4) == seq![
            "station_id"@,
            "station_query"@,
            "limit"@,
            "time_window"@,
            "modes"@,
            "query"@,
        ],
        names_taken(5) == seq!["trip_id"@],
        names_taken(6) == seq!["trip_id"@, "notify_on_delay_minutes"@],
        names_taken(7) == Seq::<Seq<char>>::empty(),
        names_taken(8) == seq!["line"@, "station"@],
        tools()[0].required == seq!["query"@],
        tools()[1].required == seq!["query"@],
        tools()[2].required.len() == 0,
        tools()[3].required == seq!["from_id"@, "to_id"@],
        tools()[4].required.len() == 0,
        tools()[5].required == seq!["trip_id"@],
        tools()[6].required == seq!["trip_id"@],
        tools()[7].required.len() == 0,
        tools()[8].required.len() == 0,
{
    assert(names_taken(0) =~= seq!["query"@, "limit"@]);
    assert(names_taken(1) =~= seq!["query"@, "limit"@, "strict_exact"@]);
    assert(names_taken(2) =~= seq![
        "from_station"@,
        "from_station_id"@,
        "to_station"@,
        "to_station_id"@,
        "datetime"@,
        "limit"@,
        "strict_resolution"@,
        "modes"@,
    ]);
    assert(names_taken(3) =~= seq![
        "from_id"@,
        "to_id"@,
        "from_name"@,
        "to_name"@,
        "datetime"@,
        "limit"@,
        "modes"@,
    ]);
    assert(names_taken(4) =~= seq![
        "station_id"@,
        "station_query"@,
        "limit"@,
        "time_window"@,
        "modes"@,
        "query"@,
    ]);
    assert(names_taken(5) =~= seq!["trip_id"@]);
    assert(names_taken(6) =~= seq!["trip_id"@, "notify_on_delay_minutes"@]);
    assert(names_taken(7) =~= Seq::<Seq<char>>::empty());
    assert(names_taken(8) =~= seq!["line"@, "station"@]);
}

/// The names of what a tool takes.
pub open spec fn names_taken(i: int) -> Seq<Seq<char>> {
    Seq::new(tools()[i].properties.len(), |j: int| tools()[i].properties[j].name)
}

/// An argument named `limit` is a number with a bound that goes with its tool, a flag begins
/// with `strict`, and modes are a list.
pub proof fn law_arguments_hold_what_they_are_named_for(i: int, j: int)
    requires
        0 <= i < tools().len(),
        0 <= j < tools()[i].properties.len(),
    ensures
        ({
            let p = tools()[i].properties[j];
            &&& p.name == "modes"@ <==> p.kind == PropertyKind::TextList
            &&& p.name == "strict_exact"@ || p.name == "strict_resolution"@ <==> p.kind
                == PropertyKind::Boolean
            &&& p.name == "limit"@ ==> p.kind == (PropertyKind::Integer {
                minimum: 1,
                maximum: Some(
                    if i == 0 {
                        50
                    } else if i == 1 {
                        20
                    } else if i == 4 {
                        100
                    } else {
                        5
                    },
                ),
            })
            &&& p.name == "time_window"@ || p.name == "notify_on_delay_minutes"@ ==> p.kind == (
            PropertyKind::Integer { minimum: 1, maximum: None })
            &&& p.kind is Integer ==> p.name == "limit"@ || p.name == "time_window"@ || p.name
                == "notify_on_delay_minutes"@
        }),
{
    reveal_strlit("modes");
    reveal_strlit("strict_exact");
    reveal_strlit("strict_resolution");
    reveal_strlit("limit");
    reveal_strlit("time_window");
    reveal_strlit("notify_on_delay_minutes");
    reveal_strlit("query");
    reveal_strlit("from_station");
    reveal_strlit("from_station_id");
    reveal_strlit("to_station");
    reveal_strlit("to_station_id");
    reveal_strlit("datetime");
    reveal_strlit("from_id");
    reveal_strlit("to_id");
    reveal_strlit("from_name");
    reveal_strlit("to_name");
    reveal_strlit("station_id");
    reveal_strlit("station_query");
    reveal_strlit("trip_id");
    reveal_strlit("line");
    reveal_strlit("station");
    assert("modes"@[0] == 'm' && "strict_exact"@[1] == 't' && "strict_resolution"@[1] == 't');
    assert("strict_exact"@.len() == 12 && "strict_resolution"@.len() == 17);
    assert("strict_exact"@[0] == 's' && "strict_resolution"@[0] == 's');
    assert("limit"@[0] == 'l' && "limit"@.len() == 5);
    assert("time_window"@[0] == 't' && "time_window"@[1] == 'i' && "time_window"@.len() == 11);
    assert("notify_on_delay_minutes"@[0] == 'n');
    assert("query"@[0] == 'q' && "from_station"@[0] == 'f' && "from_station_id"@[0] == 'f');
    assert("to_station"@[1] == 'o' && "to_station_id"@[1] == 'o' && "datetime"@[0] == 'd');
    assert("to_station"@[0] == 't' && "to_station_id"@[0] == 't');
    assert("from_id"@[0] == 'f' && "to_id"@[0] == 't' && "to_id"@[1] == 'o');
    assert("from_name"@[0] == 'f' && "to_name"@[0] == 't' && "to_name"@[1] == 'o');
    assert("station_id"@.len() == 10 && "station_query"@.len() == 13);
    assert("trip_id"@[0] == 't' && "trip_id"@[1] == 'r');
    assert("line"@.len() == 4 && "station"@.len() == 7);
}

} // verus!
