//! JSON values, as plain data.

use vstd::prelude::*;

use crate::duplicate::Duplicate;
use crate::error;
use crate::error::Error;
use crate::order;
use crate::text;

verus! {

/// A JSON value.
#[derive(Debug)]
pub enum Json {
    /// `null`.
    Null,
    /// A truth value.
    Bool(bool),
    /// A number, as it is written.
    Number(String),
    /// A text.
    Text(String),
    /// A list.
    Array(Vec<Json>),
    /// An object, as its fields in order.
    Object(Vec<(String, Json)>),
}

/// The view of a [`Json`].
#[verifier::ext_equal]
pub enum JsonView {
    Null,
    Bool(bool),
    Number(Seq<char>),
    Text(Seq<char>),
    Array(Seq<JsonView>),
    Object(Seq<(Seq<char>, JsonView)>),
}

/// The view of a JSON value.
pub open spec fn view_of(value: Json) -> JsonView
    decreases value,
{
    match value {
        Json::Null => JsonView::Null,
        Json::Bool(b) => JsonView::Bool(b),
        Json::Number(n) => JsonView::Number(n@),
        Json::Text(t) => JsonView::Text(t@),
        Json::Array(items) => JsonView::Array(
            Seq::new(
                items@.len(),
                |i: int|
                    if 0 <= i < items@.len() {
                        view_of(items@[i])
                    } else {
                        JsonView::Null
                    },
            ),
        ),
        Json::Object(fields) => JsonView::Object(
            Seq::new(
                fields@.len(),
                |i: int|
                    if 0 <= i < fields@.len() {
                        (fields@[i].0@, view_of(fields@[i].1))
                    } else {
                        (Seq::empty(), JsonView::Null)
                    },
            ),
        ),
    }
}

impl DeepView for Json {
    type V = JsonView;

    open spec fn deep_view(&self) -> JsonView {
        view_of(*self)
    }
}

/// The views of JSON values.
pub open spec fn views(items: Seq<Json>) -> Seq<JsonView> {
    Seq::new(items.len(), |i: int| view_of(items[i]))
}

/// The views of the fields of an object.
pub open spec fn field_views(fields: Seq<(String, Json)>) -> Seq<(Seq<char>, JsonView)> {
    Seq::new(fields.len(), |i: int| (fields[i].0@, view_of(fields[i].1)))
}

proof fn lemma_view_of_array(items: Vec<Json>)
    ensures
        view_of(Json::Array(items)) == JsonView::Array(views(items@)),
{
    assert(view_of(Json::Array(items))->Array_0 =~= views(items@));
}

proof fn lemma_view_of_object(fields: Vec<(String, Json)>)
    ensures
        view_of(Json::Object(fields)) == JsonView::Object(field_views(fields@)),
{
    assert(view_of(Json::Object(fields))->Object_0 =~= field_views(fields@));
}

impl JsonView {
    /// The first field of an object under a key.
    pub open spec fn field(self, key: Seq<char>) -> Option<JsonView> {
        match self {
            JsonView::Object(fields) => first_field(fields, key),
            _ => None,
        }
    }
}

/// The first of some fields under a key.
pub open spec fn first_field(fields: Seq<(Seq<char>, JsonView)>, key: Seq<char>) -> Option<JsonView>
    decreases fields.len(),
{
    if fields.len() == 0 {
        None
    } else if fields[0].0 == key {
        Some(fields[0].1)
    } else {
        first_field(fields.drop_first(), key)
    }
}

// ---------------------------------------------------------------------------
// Reading
// ---------------------------------------------------------------------------

/// `serde_json::Value`.
#[verifier::external_type_specification]
#[verifier::external_body]
pub struct ExValue(serde_json::Value);

/// What a value of `serde_json` holds: a number by its notation, and the fields of an
/// object in the order in which it hands them out, which is that of their keys.
pub uninterp spec fn held(value: serde_json::Value) -> JsonView;

/// What `serde_json::from_str` makes of a text: a value, or the message of the failure.
pub uninterp spec fn text_meaning(s: Seq<char>) -> Result<JsonView, Seq<char>>;

/// What `serde_json::from_slice` makes of bytes: a value, or the message of the failure.
pub uninterp spec fn bytes_meaning(s: Seq<u8>) -> Result<JsonView, Seq<char>>;

/// A value of `serde_json`, taken apart by one level.
pub(crate) enum Shape<'a> {
    Null,
    Bool(bool),
    Number(String),
    Text(String),
    Array(Vec<&'a serde_json::Value>),
    Object(Vec<(String, &'a serde_json::Value)>),
}

/// The decimal notation of an integer that fits in 64 bits, with a sign or without.
pub open spec fn integer_notation(s: Seq<char>) -> bool {
    exists|n: int| i64::MIN <= n <= u64::MAX && s == #[trigger] text::decimal_int(n)
}

/// `serde_json::from_str`: the value that a text denotes, or the message of the failure.
/// An integer of 64 bits is read as it is written. The grammar is not spelled out beyond
/// that.
#[verifier::external_body]
fn read_text(s: &str) -> (r: Result<serde_json::Value, String>)
    ensures
        match r {
            Ok(value) => text_meaning(s@) == Ok::<JsonView, Seq<char>>(held(value)),
            Err(message) => text_meaning(s@) == Err::<JsonView, Seq<char>>(message@),
        },
        integer_notation(s@) ==> r is Ok && held(r->Ok_0) == JsonView::Number(s@),
{
    serde_json::from_str::<serde_json::Value>(s).map_err(|e| e.to_string())
}

/// `serde_json::from_slice`: the value that bytes denote, or the message of the failure.
/// The grammar is not spelled out.
#[verifier::external_body]
fn read_bytes(s: &[u8]) -> (r: Result<serde_json::Value, String>)
    ensures
        match r {
            Ok(value) => bytes_meaning(s@) == Ok::<JsonView, Seq<char>>(held(value)),
            Err(message) => bytes_meaning(s@) == Err::<JsonView, Seq<char>>(message@),
        },
{
    serde_json::from_slice::<serde_json::Value>(s).map_err(|e| e.to_string())
}

/// The variants of `serde_json::Value`: what a value holds is what its parts hold.
#[verifier::external_body]
fn take_apart(value: &serde_json::Value) -> (r: Shape<'_>)
    ensures
        match r {
            Shape::Null => held(*value) == JsonView::Null,
            Shape::Bool(b) => held(*value) == JsonView::Bool(b),
            Shape::Number(n) => held(*value) == JsonView::Number(n@),
            Shape::Text(t) => held(*value) == JsonView::Text(t@),
            Shape::Array(items) => held(*value) == JsonView::Array(
                Seq::new(items@.len(), |i: int| held(*items@[i])),
            ),
            Shape::Object(fields) => held(*value) == JsonView::Object(
                Seq::new(fields@.len(), |i: int| (fields@[i].0@, held(*fields@[i].1))),
            ),
        },
{
    match value {
        serde_json::Value::Null => Shape::Null,
        serde_json::Value::Bool(b) => Shape::Bool(*b),
        serde_json::Value::Number(n) => Shape::Number(n.to_string()),
        serde_json::Value::String(t) => Shape::Text(t.clone()),
        serde_json::Value::Array(items) => Shape::Array(items.iter().collect()),
        serde_json::Value::Object(fields) => {
            Shape::Object(fields.iter().map(|(key, v)| (key.clone(), v)).collect())
        }
    }
}

/// A value of `serde_json` as plain data.
fn convert(value: &serde_json::Value) -> (r: Json)
    ensures
        r.deep_view() == held(*value),
    decreases held(*value),
{
    match take_apart(value) {
        Shape::Null => Json::Null,
        Shape::Bool(b) => Json::Bool(b),
        Shape::Number(n) => Json::Number(n),
        Shape::Text(t) => Json::Text(t),
        Shape::Array(items) => {
            let ghost parts = held(*value)->Array_0;
            let mut out: Vec<Json> = Vec::new();
            let mut i: usize = 0;
            while i < items.len()
                invariant
                    i <= items@.len(),
                    held(*value) == JsonView::Array(parts),
                    parts == Seq::new(items@.len(), |k: int| held(*items@[k])),
                    out@.len() == i,
                    forall|k: int| 0 <= k < i ==> view_of(#[trigger] out@[k]) == parts[k],
                decreases items@.len() - i,
            {
                assert(decreases_to!(held(*value) => held(*value)->Array_0));
                assert(parts[i as int] == held(*items@[i as int]));
                out.push(convert(items[i]));
                i += 1;
            }
            assert(views(out@) =~= parts);
            Json::array(out)
        },
        Shape::Object(fields) => {
            let ghost parts = held(*value)->Object_0;
            let mut out: Vec<(String, Json)> = Vec::new();
            let mut i: usize = 0;
            while i < fields.len()
                invariant
                    i <= fields@.len(),
                    held(*value) == JsonView::Object(parts),
                    parts == Seq::new(
                        fields@.len(),
                        |k: int| (fields@[k].0@, held(*fields@[k].1)),
                    ),
                    out@.len() == i,
                    forall|k: int|
                        0 <= k < i ==> (#[trigger] out@[k]).0@ == parts[k].0 && view_of(out@[k].1)
                            == parts[k].1,
                decreases fields@.len() - i,
            {
                assert(decreases_to!(held(*value) => held(*value)->Object_0));
                assert(decreases_to!(parts[i as int] => parts[i as int].1));
                assert(parts[i as int].1 == held(*fields@[i as int].1));
                out.push((fields[i].0.clone(), convert(fields[i].1)));
                i += 1;
            }
            assert(field_views(out@) =~= parts);
            Json::object(out)
        },
    }
}

// ---------------------------------------------------------------------------
// Writing
// ---------------------------------------------------------------------------

/// What `serde_json::to_string_pretty` writes for a value.
pub uninterp spec fn pretty_text(value: JsonView) -> Seq<char>;

/// What `serde_json::to_vec` writes for a value, as a text.
pub uninterp spec fn compact_text(value: JsonView) -> Seq<char>;

/// The number of lists and objects within each other up to which a text can be read.
pub const MAX_DEPTH: usize = 127;

/// A value whose numbers are integers of 64 bits, with at most so many lists and objects
/// within each other.
pub open spec fn plain(value: JsonView, depth: nat) -> bool
    decreases value,
{
    match value {
        JsonView::Number(n) => integer_notation(n),
        JsonView::Array(items) => depth > 0 && forall|i: int|
            0 <= i < items.len() ==> plain(#[trigger] items[i], (depth - 1) as nat),
        JsonView::Object(fields) => depth > 0 && forall|i: int|
            0 <= i < fields.len() ==> plain((#[trigger] fields[i]).1, (depth - 1) as nat),
        _ => true,
    }
}

/// Fields in the order of their keys, with one more. It takes the place of one under the
/// same key.
pub open spec fn with_field(
    fields: Seq<(Seq<char>, JsonView)>,
    key: Seq<char>,
    value: JsonView,
) -> Seq<(Seq<char>, JsonView)>
    decreases fields.len(),
{
    if fields.len() == 0 {
        seq![(key, value)]
    } else if fields[0].0 == key {
        seq![(key, value)] + fields.drop_first()
    } else if order::text_precedes(key, fields[0].0) {
        seq![(key, value)] + fields
    } else {
        seq![fields[0]] + with_field(fields.drop_first(), key, value)
    }
}

/// A value as it is written: with the fields of objects in the order of their keys, and
/// null for a number whose notation is none.
pub open spec fn canonical(value: JsonView) -> JsonView
    decreases value,
{
    match value {
        JsonView::Number(n) => if integer_notation(n) {
            value
        } else {
            match text_meaning(n) {
                Ok(number) => number,
                Err(_) => JsonView::Null,
            }
        },
        JsonView::Array(items) => JsonView::Array(
            Seq::new(
                items.len(),
                |i: int|
                    if 0 <= i < items.len() {
                        canonical(items[i])
                    } else {
                        JsonView::Null
                    },
            ),
        ),
        JsonView::Object(fields) => JsonView::Object(canonical_fields(fields)),
        _ => value,
    }
}

/// The fields of an object as they are written: in the order of their keys. Of those under
/// the same key the last one counts.
pub open spec fn canonical_fields(fields: Seq<(Seq<char>, JsonView)>) -> Seq<(Seq<char>, JsonView)>
    decreases fields,
{
    if fields.len() == 0 {
        fields
    } else {
        with_field(
            canonical_fields(fields.drop_last()),
            fields.last().0,
            canonical(fields.last().1),
        )
    }
}

/// A value of `serde_json`, to be put together from values that are there.
enum Part {
    Null,
    Bool(bool),
    Text(String),
    Array(Vec<serde_json::Value>),
    Object,
}

/// The variants of `serde_json::Value`, but for numbers: a value holds what its parts hold.
/// An object is without fields at first.
#[verifier::external_body]
fn put_together(part: Part) -> (r: serde_json::Value)
    ensures
        held(r) == match part {
            Part::Null => JsonView::Null,
            Part::Bool(b) => JsonView::Bool(b),
            Part::Text(t) => JsonView::Text(t@),
            Part::Array(items) => JsonView::Array(
                Seq::new(items@.len(), |i: int| held(items@[i])),
            ),
            Part::Object => JsonView::Object(Seq::empty()),
        },
{
    match part {
        Part::Null => serde_json::Value::Null,
        Part::Bool(b) => serde_json::Value::Bool(b),
        Part::Text(t) => serde_json::Value::String(t),
        Part::Array(items) => serde_json::Value::Array(items),
        Part::Object => serde_json::Value::Object(serde_json::Map::new()),
    }
}

/// `serde_json::Map::insert` on the fields of an object: a field goes where its key
/// belongs, in place of one under the same key.
#[verifier::external_body]
fn set_field(object: &mut serde_json::Value, key: String, value: serde_json::Value)
    requires
        held(*old(object)) is Object,
    ensures
        held(*final(object)) == JsonView::Object(
            with_field(held(*old(object))->Object_0, key@, held(value)),
        ),
{
    object.as_object_mut().unwrap().insert(key, value);
}

/// `serde_json::to_string_pretty`: a text on several lines that denotes the value. Its
/// layout is not spelled out.
#[verifier::external_body]
fn render_pretty(value: &serde_json::Value) -> (r: String)
    ensures
        r@ == pretty_text(held(*value)),
{
    serde_json::to_string_pretty(value).unwrap()
}

/// `serde_json::to_vec`: a text that denotes the value, in UTF-8. It holds no control
/// character, and that of an object stands between braces. `serde_json::from_slice` reads
/// it back from the bytes, and `serde_json::from_str` from the text, as long as no number
/// is a float, which may be rounded, and no more lists and objects are within each other
/// than these two take. The text is not spelled out beyond that.
#[verifier::external_body]
fn render_compact(value: &serde_json::Value) -> (r: Vec<u8>)
    ensures
        r@ == vstd::utf8::encode_utf8(compact_text(held(*value))),
        forall|i: int| 0 <= i < r@.len() ==> #[trigger] r@[i] >= 32,
        held(*value) is Object ==> r@.len() > 0 && r@[0] == 123 && r@[r@.len() - 1] == 125,
        plain(held(*value), MAX_DEPTH as nat) ==> bytes_meaning(r@) is Ok && bytes_meaning(r@)->Ok_0
            == held(*value),
        plain(held(*value), MAX_DEPTH as nat) ==> text_meaning(vstd::utf8::decode_utf8(r@)) is Ok
            && text_meaning(vstd::utf8::decode_utf8(r@))->Ok_0 == held(*value),
{
    serde_json::to_vec(value).unwrap()
}

/// A value of `serde_json` from plain data.
fn compose(json: &Json) -> (r: serde_json::Value)
    ensures
        held(r) == canonical(json.deep_view()),
    decreases json,
{
    match json {
        Json::Null => put_together(Part::Null),
        Json::Bool(b) => put_together(Part::Bool(*b)),
        Json::Number(n) => match read_text(n.as_str()) {
            Ok(value) => value,
            Err(_) => put_together(Part::Null),
        },
        Json::Text(t) => put_together(Part::Text(t.clone())),
        Json::Array(items) => {
            let mut out: Vec<serde_json::Value> = Vec::new();
            let mut i: usize = 0;
            while i < items.len()
                invariant
                    i <= items@.len(),
                    *json == Json::Array(*items),
                    out@.len() == i,
                    forall|k: int|
                        0 <= k < i ==> held(#[trigger] out@[k]) == canonical(view_of(items@[k])),
                decreases items@.len() - i,
            {
                assert(decreases_to!(*json => json->Array_0));
                out.push(compose(&items[i]));
                i += 1;
            }
            proof {
                lemma_view_of_array(*items);
            }
            let r = put_together(Part::Array(out));
            assert(held(r)->Array_0 =~= canonical(JsonView::Array(views(items@)))->Array_0);
            r
        },
        Json::Object(fields) => {
            proof {
                lemma_view_of_object(*fields);
            }
            let ghost parts = field_views(fields@);
            let mut object = put_together(Part::Object);
            let mut i: usize = 0;
            assert(canonical_fields(parts.take(0)) =~= Seq::empty());
            while i < fields.len()
                invariant
                    i <= fields@.len(),
                    *json == Json::Object(*fields),
                    parts == field_views(fields@),
                    held(object) == JsonView::Object(canonical_fields(parts.take(i as int))),
                decreases fields@.len() - i,
            {
                assert(decreases_to!(*json => json->Object_0));
                let value = compose(&fields[i].1);
                assert(parts.take(i + 1).drop_last() =~= parts.take(i as int));
                assert(parts.take(i + 1).last() == parts[i as int]);
                set_field(&mut object, fields[i].0.clone(), value);
                i += 1;
            }
            assert(parts.take(i as int) =~= parts);
            object
        },
    }
}

/// Keys in order, each one once.
pub open spec fn keys_in_order(fields: Seq<(Seq<char>, JsonView)>) -> bool {
    forall|i: int, j: int|
        0 <= i < j < fields.len() ==> order::text_precedes(
            (#[trigger] fields[i]).0,
            (#[trigger] fields[j]).0,
        ) && fields[i].0 != fields[j].0
}

/// A value whose objects have their fields in the order of their keys, each key once.
pub open spec fn in_key_order(value: JsonView) -> bool
    decreases value,
{
    match value {
        JsonView::Array(items) => forall|i: int|
            0 <= i < items.len() ==> in_key_order(#[trigger] items[i]),
        JsonView::Object(fields) => keys_in_order(fields) && forall|i: int|
            0 <= i < fields.len() ==> in_key_order((#[trigger] fields[i]).1),
        _ => true,
    }
}

proof fn lemma_with_last_field(
    fields: Seq<(Seq<char>, JsonView)>,
    key: Seq<char>,
    value: JsonView,
)
    requires
        forall|i: int|
            0 <= i < fields.len() ==> order::text_precedes((#[trigger] fields[i]).0, key)
                && fields[i].0 != key,
    ensures
        with_field(fields, key, value) == fields.push((key, value)),
    decreases fields.len(),
{
    if fields.len() == 0 {
        assert(seq![(key, value)] =~= fields.push((key, value)));
    } else {
        let rest = fields.drop_first();
        assert forall|i: int| 0 <= i < rest.len() implies order::text_precedes(
            (#[trigger] rest[i]).0,
            key,
        ) && rest[i].0 != key by {
            assert(rest[i] == fields[i + 1]);
        }
        lemma_with_last_field(rest, key, value);
        assert(fields[0].0 != key);
        if order::text_precedes(key, fields[0].0) {
            order::law_text_order_is_strict(key, fields[0].0);
        }
        assert(seq![fields[0]] + rest.push((key, value)) =~= fields.push((key, value)));
    }
}

/// A value with the fields of its objects in the order of their keys is written as it is,
/// if its numbers are integers.
pub proof fn law_value_in_order_is_kept(value: JsonView, depth: nat)
    requires
        plain(value, depth),
        in_key_order(value),
    ensures
        canonical(value) == value,
    decreases value,
{
    match value {
        JsonView::Array(items) => {
            assert forall|i: int| 0 <= i < items.len() implies canonical(#[trigger] items[i])
                == items[i] by {
                law_value_in_order_is_kept(items[i], (depth - 1) as nat);
            }
            assert(canonical(value)->Array_0 =~= items);
            assert(canonical(value) == JsonView::Array(items));
        },
        JsonView::Object(fields) => {
            lemma_fields_in_order_are_kept(fields, (depth - 1) as nat);
        },
        _ => {},
    }
}

proof fn lemma_fields_in_order_are_kept(fields: Seq<(Seq<char>, JsonView)>, depth: nat)
    requires
        keys_in_order(fields),
        forall|i: int|
            0 <= i < fields.len() ==> plain((#[trigger] fields[i]).1, depth) && in_key_order(
                fields[i].1,
            ),
    ensures
        canonical_fields(fields) == fields,
    decreases fields,
{
    if fields.len() > 0 {
        let before = fields.drop_last();
        let last = fields[fields.len() - 1];
        assert forall|i: int| 0 <= i < before.len() implies plain((#[trigger] before[i]).1, depth)
            && in_key_order(before[i].1) by {
            assert(before[i] == fields[i]);
        }
        assert forall|i: int, j: int| 0 <= i < j < before.len() implies order::text_precedes(
            (#[trigger] before[i]).0,
            (#[trigger] before[j]).0,
        ) && before[i].0 != before[j].0 by {
            assert(before[i] == fields[i] && before[j] == fields[j]);
        }
        lemma_fields_in_order_are_kept(before, depth);
        assert(decreases_to!(fields => fields[fields.len() - 1]));
        assert(decreases_to!(last => last.1));
        law_value_in_order_is_kept(last.1, depth);
        assert forall|i: int| 0 <= i < before.len() implies order::text_precedes(
            (#[trigger] before[i]).0,
            last.0,
        ) && before[i].0 != last.0 by {
            assert(before[i] == fields[i]);
        }
        lemma_with_last_field(before, last.0, last.1);
        assert(before.push(last) =~= fields);
    }
}

proof fn lemma_with_field(fields: Seq<(Seq<char>, JsonView)>, key: Seq<char>, value: JsonView)
    requires
        keys_in_order(fields),
    ensures
        keys_in_order(with_field(fields, key, value)),
        forall|i: int|
            0 <= i < with_field(fields, key, value).len() ==> {
                let f = #[trigger] with_field(fields, key, value)[i];
                f == (key, value) || fields.contains(f)
            },
    decreases fields.len(),
{
    let out = with_field(fields, key, value);
    if fields.len() > 0 {
        let rest = fields.drop_first();
        let first = fields[0];
        assert forall|i: int, j: int| 0 <= i < j < rest.len() implies order::text_precedes(
            (#[trigger] rest[i]).0,
            (#[trigger] rest[j]).0,
        ) && rest[i].0 != rest[j].0 by {
            assert(rest[i] == fields[i + 1] && rest[j] == fields[j + 1]);
        }
        lemma_with_field(rest, key, value);
        let tail = with_field(rest, key, value);
        assert(fields.contains(first));
        if first.0 == key {
            assert forall|i: int| 0 <= i < out.len() implies (#[trigger] out[i]) == (key, value)
                || fields.contains(out[i]) by {
                if i > 0 {
                    assert(out[i] == fields[i]);
                }
            }
        } else if order::text_precedes(key, first.0) {
            assert forall|i: int| 0 <= i < out.len() implies (#[trigger] out[i]) == (key, value)
                || fields.contains(out[i]) by {
                if i > 0 {
                    assert(out[i] == fields[i - 1]);
                }
            }
            assert forall|i: int, j: int| 0 <= i < j < out.len() implies order::text_precedes(
                (#[trigger] out[i]).0,
                (#[trigger] out[j]).0,
            ) && out[i].0 != out[j].0 by {
                assert(out[j] == fields[j - 1]);
                if i > 0 {
                    assert(out[i] == fields[i - 1]);
                } else if j > 1 {
                    assert(order::text_precedes(fields[0].0, fields[j - 1].0));
                    <String as order::Ranked>::carries_over(key, fields[0].0, fields[j - 1].0);
                    if fields[j - 1].0 == key {
                        order::law_text_order_is_strict(key, fields[0].0);
                    }
                }
            }
        } else {
            <String as order::Ranked>::comparable(key, first.0);
            assert forall|i: int| 0 <= i < out.len() implies (#[trigger] out[i]) == (key, value)
                || fields.contains(out[i]) by {
                if i > 0 {
                    assert(out[i] == tail[i - 1]);
                    if tail[i - 1] != (key, value) {
                        let k = choose|k: int| 0 <= k < rest.len() && rest[k] == tail[i - 1];
                        assert(fields[k + 1] == out[i]);
                    }
                }
            }
            assert forall|i: int, j: int| 0 <= i < j < out.len() implies order::text_precedes(
                (#[trigger] out[i]).0,
                (#[trigger] out[j]).0,
            ) && out[i].0 != out[j].0 by {
                assert(out[j] == tail[j - 1]);
                if i > 0 {
                    assert(out[i] == tail[i - 1]);
                } else if tail[j - 1] != (key, value) {
                    let k = choose|k: int| 0 <= k < rest.len() && rest[k] == tail[j - 1];
                    assert(rest[k] == fields[k + 1]);
                    assert(fields[0].0 != fields[k + 1].0);
                }
            }
        }
    }
}

/// What is written of a value has the fields of its objects in the order of their keys,
/// and no more lists and objects within each other than the value.
pub proof fn law_written_value_is_in_order(value: JsonView, depth: nat)
    requires
        plain(value, depth),
    ensures
        plain(canonical(value), depth),
        in_key_order(canonical(value)),
    decreases value,
{
    match value {
        JsonView::Array(items) => {
            let out = canonical(value)->Array_0;
            assert forall|i: int| 0 <= i < out.len() implies plain(
                #[trigger] out[i],
                (depth - 1) as nat,
            ) && in_key_order(out[i]) by {
                assert(plain(items[i], (depth - 1) as nat));
                law_written_value_is_in_order(items[i], (depth - 1) as nat);
                assert(out[i] == canonical(items[i]));
            }
        },
        JsonView::Object(fields) => {
            lemma_written_fields(fields, (depth - 1) as nat);
        },
        _ => {},
    }
}

proof fn lemma_written_fields(fields: Seq<(Seq<char>, JsonView)>, depth: nat)
    requires
        forall|i: int| 0 <= i < fields.len() ==> plain((#[trigger] fields[i]).1, depth),
    ensures
        keys_in_order(canonical_fields(fields)),
        forall|i: int|
            0 <= i < canonical_fields(fields).len() ==> plain(
                (#[trigger] canonical_fields(fields)[i]).1,
                depth,
            ) && in_key_order(canonical_fields(fields)[i].1),
    decreases fields,
{
    if fields.len() > 0 {
        let before = fields.drop_last();
        let last = fields[fields.len() - 1];
        assert forall|i: int| 0 <= i < before.len() implies plain((#[trigger] before[i]).1, depth) by {
            assert(before[i] == fields[i]);
        }
        lemma_written_fields(before, depth);
        assert(decreases_to!(fields => fields[fields.len() - 1]));
        assert(decreases_to!(last => last.1));
        law_written_value_is_in_order(last.1, depth);
        let done = canonical_fields(before);
        lemma_with_field(done, last.0, canonical(last.1));
        let out = canonical_fields(fields);
        assert forall|i: int| 0 <= i < out.len() implies plain((#[trigger] out[i]).1, depth)
            && in_key_order(out[i].1) by {
            if out[i] != (last.0, canonical(last.1)) {
                assert(done.contains(out[i]));
                let k = choose|k: int| 0 <= k < done.len() && done[k] == out[i];
                assert(plain(done[k].1, depth));
            }
        }
    }
}

impl Json {
    /// The text of the value on several lines.
    pub fn write_pretty(&self) -> (r: String)
        ensures
            r@ == pretty_text(canonical(self.deep_view())),
    {
        render_pretty(&compose(self))
    }

    /// The text of the value, in UTF-8. It can be read back, as long as its numbers are
    /// integers and not too many lists and objects are within each other.
    pub fn write_compact(&self) -> (r: Vec<u8>)
        ensures
            r@ == vstd::utf8::encode_utf8(compact_text(canonical(self.deep_view()))),
            forall|i: int| 0 <= i < r@.len() ==> #[trigger] r@[i] >= 32,
            self.deep_view() is Object ==> r@.len() > 0 && r@[0] == 123 && r@[r@.len() - 1] == 125,
            plain(self.deep_view(), MAX_DEPTH as nat) ==> {
                &&& bytes_meaning(r@) == Ok::<JsonView, Seq<char>>(canonical(self.deep_view()))
                &&& text_meaning(compact_text(canonical(self.deep_view()))) == Ok::<
                    JsonView,
                    Seq<char>,
                >(canonical(self.deep_view()))
            },
    {
        proof {
            vstd::utf8::encode_utf8_decode_utf8(compact_text(canonical(self.deep_view())));
            if plain(self.deep_view(), MAX_DEPTH as nat) {
                law_written_value_is_in_order(self.deep_view(), MAX_DEPTH as nat);
            }
        }
        render_compact(&compose(self))
    }

    /// The value that a text denotes.
    pub fn parse(s: &str) -> (r: Result<Json, Error>)
        ensures
            error::outcome(r) == text_meaning(s@),
    {
        match read_text(s) {
            Ok(value) => Ok(convert(&value)),
            Err(message) => Err(error::failure(message)),
        }
    }

    /// The value that bytes denote.
    pub fn parse_bytes(s: &[u8]) -> (r: Result<Json, Error>)
        ensures
            error::outcome(r) == bytes_meaning(s@),
    {
        match read_bytes(s) {
            Ok(value) => Ok(convert(&value)),
            Err(message) => Err(error::failure(message)),
        }
    }

    /// A text.
    pub fn text(value: &str) -> (r: Json)
        ensures
            r.deep_view() == JsonView::Text(value@),
    {
        Json::Text(value.to_owned())
    }

    /// A list.
    pub fn array(items: Vec<Json>) -> (r: Json)
        ensures
            r.deep_view() == JsonView::Array(views(items@)),
            r matches Json::Array(v) && v@ == items@,
    {
        proof {
            lemma_view_of_array(items);
        }
        Json::Array(items)
    }

    /// An object.
    pub fn object(fields: Vec<(String, Json)>) -> (r: Json)
        ensures
            r.deep_view() == JsonView::Object(field_views(fields@)),
    {
        proof {
            lemma_view_of_object(fields);
        }
        Json::Object(fields)
    }

    /// The field of an object under a key.
    pub fn get(&self, key: &str) -> (r: Option<&Json>)
        ensures
            match r {
                Some(value) => self.deep_view().field(key@) == Some(value.deep_view()),
                None => self.deep_view().field(key@) is None,
            },
            r matches Some(value) ==> decreases_to!(*self => *value),
    {
        match self {
            Json::Object(fields) => {
                proof {
                    lemma_view_of_object(*fields);
                }
                let ghost all = field_views(fields@);
                let mut i: usize = 0;
                assert(all.skip(0) =~= all);
                while i < fields.len()
                    invariant
                        i <= fields@.len(),
                        all == field_views(fields@),
                        *self == Json::Object(*fields),
                        self.deep_view() == JsonView::Object(all),
                        first_field(all, key@) == first_field(all.skip(i as int), key@),
                    decreases fields@.len() - i,
                {
                    assert(all.skip(i as int)[0] == all[i as int]);
                    assert(all.skip(i as int).drop_first() =~= all.skip(i + 1));
                    if text::same(fields[i].0.as_str(), key) {
                        assert(decreases_to!(*self => fields@[i as int].1));
                        return Some(&fields[i].1);
                    }
                    i += 1;
                }
                None
            },
            _ => None,
        }
    }

    /// The text of a value that is one.
    pub fn as_str(&self) -> (r: Option<&str>)
        ensures
            match r {
                Some(t) => self.deep_view() == JsonView::Text(t@),
                None => !(self.deep_view() is Text),
            },
    {
        match self {
            Json::Text(t) => Some(t.as_str()),
            _ => None,
        }
    }

    /// The items of a value that is a list.
    pub fn as_array(&self) -> (r: Option<&Vec<Json>>)
        ensures
            match r {
                Some(items) => {
                    &&& *self == Json::Array(*items)
                    &&& self.deep_view() == JsonView::Array(views(items@))
                },
                None => !(self.deep_view() is Array),
            },
    {
        match self {
            Json::Array(items) => {
                proof {
                    lemma_view_of_array(*items);
                }
                Some(items)
            },
            _ => None,
        }
    }

    /// The fields of a value that is an object.
    pub fn as_object(&self) -> (r: Option<&Vec<(String, Json)>>)
        ensures
            match r {
                Some(fields) => {
                    &&& *self == Json::Object(*fields)
                    &&& self.deep_view() == JsonView::Object(field_views(fields@))
                },
                None => !(self.deep_view() is Object),
            },
    {
        match self {
            Json::Object(fields) => {
                proof {
                    lemma_view_of_object(*fields);
                }
                Some(fields)
            },
            _ => None,
        }
    }
}

impl Duplicate for Json {
    fn duplicate(&self) -> (r: Self)
        decreases self,
    {
        match self {
            Json::Null => Json::Null,
            Json::Bool(b) => Json::Bool(*b),
            Json::Number(n) => Json::Number(n.clone()),
            Json::Text(t) => Json::Text(t.clone()),
            Json::Array(items) => {
                let mut out: Vec<Json> = Vec::new();
                let mut i: usize = 0;
                while i < items.len()
                    invariant
                        i <= items@.len(),
                        *self == Json::Array(*items),
                        out@.len() == i,
                        forall|k: int| 0 <= k < i ==> view_of(#[trigger] out@[k]) == view_of(items@[k]),
                    decreases items@.len() - i,
                {
                    assert(decreases_to!(*self => self->Array_0));
                    out.push(items[i].duplicate());
                    i += 1;
                }
                proof {
                    lemma_view_of_array(*items);
                    lemma_view_of_array(out);
                    assert(views(out@) =~= views(items@));
                }
                Json::Array(out)
            },
            Json::Object(fields) => {
                let mut out: Vec<(String, Json)> = Vec::new();
                let mut i: usize = 0;
                while i < fields.len()
                    invariant
                        i <= fields@.len(),
                        *self == Json::Object(*fields),
                        out@.len() == i,
                        forall|k: int|
                            0 <= k < i ==> (#[trigger] out@[k]).0@ == fields@[k].0@ && view_of(
                                out@[k].1,
                            ) == view_of(fields@[k].1),
                    decreases fields@.len() - i,
                {
                    assert(decreases_to!(*self => self->Object_0));
                    out.push((fields[i].0.clone(), fields[i].1.duplicate()));
                    i += 1;
                }
                proof {
                    lemma_view_of_object(*fields);
                    lemma_view_of_object(out);
                    assert(field_views(out@) =~= field_views(fields@));
                }
                Json::Object(out)
            },
        }
    }
}

/// The value under a key is that of the first field of that key; without one there is none,
/// and only objects have fields.
pub proof fn law_first_field_counts(fields: Seq<(Seq<char>, JsonView)>, key: Seq<char>, k: int)
    requires
        0 <= k <= fields.len(),
        k < fields.len() ==> fields[k].0 == key,
        forall|j: int| 0 <= j < k ==> (#[trigger] fields[j]).0 != key,
    ensures
        k < fields.len() ==> JsonView::Object(fields).field(key) == Some(fields[k].1),
        k == fields.len() ==> JsonView::Object(fields).field(key) is None,
        JsonView::Null.field(key) is None,
    decreases fields.len(),
{
    if k > 0 {
        let rest = fields.drop_first();
        assert forall|j: int| 0 <= j < k - 1 implies (#[trigger] rest[j]).0 != key by {
            assert(rest[j] == fields[j + 1]);
        }
        assert(fields[0].0 != key);
        law_first_field_counts(rest, key, k - 1);
    }
}

proof fn lemma_field_is_found(
    fields: Seq<(Seq<char>, JsonView)>,
    key: Seq<char>,
    value: JsonView,
    other: Seq<char>,
)
    ensures
        first_field(with_field(fields, key, value), key) == Some(value),
        other != key ==> first_field(with_field(fields, key, value), other) == first_field(
            fields,
            other,
        ),
    decreases fields.len(),
{
    let new = seq![(key, value)];
    if fields.len() == 0 {
        assert(new.drop_first() =~= fields);
    } else if fields[0].0 == key {
        assert((new + fields.drop_first()).drop_first() =~= fields.drop_first());
    } else if order::text_precedes(key, fields[0].0) {
        assert((new + fields).drop_first() =~= fields);
    } else {
        let rest = with_field(fields.drop_first(), key, value);
        lemma_field_is_found(fields.drop_first(), key, value, other);
        assert((seq![fields[0]] + rest).drop_first() =~= rest);
    }
}

/// What is written of an object has the last value under each key, and all of its keys.
pub proof fn law_last_field_is_written(
    fields: Seq<(Seq<char>, JsonView)>,
    key: Seq<char>,
    value: JsonView,
    other: Seq<char>,
)
    ensures
        canonical(JsonView::Object(fields.push((key, value)))).field(key) == Some(
            canonical(value),
        ),
        other != key ==> canonical(JsonView::Object(fields.push((key, value)))).field(other)
            == canonical(JsonView::Object(fields)).field(other),
        canonical(JsonView::Object(Seq::empty())).field(key) is None,
{
    let more = fields.push((key, value));
    assert(more.drop_last() =~= fields);
    lemma_field_is_found(canonical_fields(fields), key, canonical(value), other);
    assert(canonical_fields(more) == with_field(canonical_fields(fields), key, canonical(value)));
    let none = Seq::<(Seq<char>, JsonView)>::empty();
    assert(canonical_fields(none) =~= none);
}

/// Lists are written item by item, and texts, truth values, integers and null as they are.
pub proof fn law_values_are_written(
    items: Seq<JsonView>,
    i: int,
    t: Seq<char>,
    b: bool,
    n: int,
)
    requires
        i64::MIN <= n <= u64::MAX,
    ensures
        canonical(JsonView::Array(items)) is Array,
        canonical(JsonView::Array(items))->Array_0.len() == items.len(),
        0 <= i < items.len() ==> canonical(JsonView::Array(items))->Array_0[i] == canonical(
            items[i],
        ),
        canonical(JsonView::Text(t)) == JsonView::Text(t),
        canonical(JsonView::Bool(b)) == JsonView::Bool(b),
        canonical(JsonView::Null) == JsonView::Null,
        canonical(JsonView::Number(text::decimal_int(n))) == JsonView::Number(text::decimal_int(n)),
{
    assert(integer_notation(text::decimal_int(n)));
}

} // verus!
