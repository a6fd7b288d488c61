//! JSON values out of their texts, and back.

use vstd::prelude::*;

use serde::Serializer;
use serde_json::{Number, Value};

use crate::convert::json_result;
use crate::json::{group_json_views, json_views, member_views, Json, JsonValue};
use crate::path::text_before;

verus! {

/// A value of the `serde_json` crate.
#[verifier::external_type_specification]
#[verifier::external_body]
pub struct ExSerdeValue(serde_json::Value);

/// The value that a text stands for, or why it stands for none, as the
/// `serde_json` crate reads it.
pub uninterp spec fn parsed_json(text: Seq<char>) -> Result<Json, Seq<char>>;

/// The text of what a value of the `serde_json` crate holds, as the crate writes
/// it.
pub uninterp spec fn json_text_of(value: Json) -> Seq<char>;

/// The text of an object with its members in a given order, as the
/// `serde_json` crate writes it.
pub uninterp spec fn object_text_of(members: Seq<(Seq<char>, Json)>) -> Seq<char>;

/// What a value of the `serde_json` crate holds.
pub uninterp spec fn held_json(value: serde_json::Value) -> Json;

/// A value of the `serde_json` crate by its variant, its parts still in the
/// crate's hands.
#[derive(Debug)]
pub enum Shape {
    Null,
    Bool(bool),
    Integer(i128),
    Float(String),
    Text(String),
    Array(Vec<serde_json::Value>),
    Object(Vec<(String, serde_json::Value)>),
}

/// What values of the crate hold.
pub open spec fn held_items(items: Seq<serde_json::Value>) -> Seq<Json> {
    items.map_values(|v: serde_json::Value| held_json(v))
}

/// What members of an object of the crate hold.
pub open spec fn held_members(members: Seq<(String, serde_json::Value)>) -> Seq<(Seq<char>, Json)> {
    members.map_values(|m: (String, serde_json::Value)| (m.0@, held_json(m.1)))
}

/// What a value of the crate holds, by its variant.
pub open spec fn shape_holds(shape: Shape) -> Json {
    match shape {
        Shape::Null => Json::Null,
        Shape::Bool(b) => Json::Bool(b),
        Shape::Integer(i) => Json::Integer(i as int),
        Shape::Float(text) => Json::Float(text@),
        Shape::Text(text) => Json::Text(text@),
        Shape::Array(items) => Json::Array(held_items(items@)),
        Shape::Object(members) => Json::Object(held_members(members@)),
    }
}

/// The variants of `serde_json::Value`, told apart: a value holds what its
/// variant and the parts of it hold. A number that is no integer of 64 bits is
/// given as the text that the crate writes for it.
#[verifier::external_body]
fn shape_of(value: Value) -> (shape: Shape)
    ensures
        held_json(value) == shape_holds(shape),
{
    match value {
        Value::Null => Shape::Null,
        Value::Bool(b) => Shape::Bool(b),
        Value::Number(n) => match n.as_i128() {
            Some(i) => Shape::Integer(i),
            None => Shape::Float(n.to_string()),
        },
        Value::String(s) => Shape::Text(s),
        Value::Array(items) => Shape::Array(items),
        Value::Object(members) => Shape::Object(members.into_iter().collect()),
    }
}

/// The value that a value of the crate holds.
fn from_serde(value: Value) -> (r: JsonValue)
    ensures
        r@ == held_json(value),
    decreases held_json(value),
{
    broadcast use group_json_views;

    let ghost whole = held_json(value);
    match shape_of(value) {
        Shape::Null => JsonValue::Null,
        Shape::Bool(b) => JsonValue::Bool(b),
        Shape::Integer(i) => JsonValue::Integer(i),
        Shape::Float(text) => JsonValue::Float(text),
        Shape::Text(text) => JsonValue::Text(text),
        Shape::Array(items) => {
            let ghost all = held_items(items@);
            let mut out: Vec<JsonValue> = Vec::new();
            assert(json_views(out@) =~= all.take(0));
            for item in iter: items
                invariant
                    all == held_items(iter.seq()),
                    whole is Array && all == whole->Array_0,
                    whole == held_json(value),
                    json_views(out@) == all.take(iter.index()),
            {
                let ghost i = iter.index();
                let ghost before = out@;
                assert(all[i] == held_json(item));
                assert(decreases_to!(whole => whole->Array_0));
                assert(decreases_to!(all => all[i]));
                let one = from_serde(item);
                out.push(one);
                assert(json_views(out@) =~= json_views(before).push(one@));
                assert(json_views(out@) =~= all.take(i + 1));
            }
            assert(all.take(all.len() as int) =~= all);
            JsonValue::Array(out)
        },
        Shape::Object(members) => {
            let ghost all = held_members(members@);
            let mut out: Vec<(String, JsonValue)> = Vec::new();
            assert(member_views(out@) =~= all.take(0));
            for member in iter: members
                invariant
                    all == held_members(iter.seq()),
                    whole is Object && all == whole->Object_0,
                    whole == held_json(value),
                    member_views(out@) == all.take(iter.index()),
            {
                let ghost i = iter.index();
                let ghost before = out@;
                let (key, inner) = member;
                assert(all[i] == (key@, held_json(inner)));
                assert(decreases_to!(whole => whole->Object_0));
                assert(decreases_to!(all => all[i]));
                assert(decreases_to!(all[i] => all[i].1));
                let one = from_serde(inner);
                out.push((key, one));
                assert(member_views(out@) =~= member_views(before).push((key@, one@)));
                assert(member_views(out@) =~= all.take(i + 1));
            }
            assert(all.take(all.len() as int) =~= all);
            JsonValue::Object(out)
        },
    }
}

/// The number that a decimal text stands for, as the `serde_json` crate holds it:
/// null where it stands for none.
pub uninterp spec fn float_json(text: Seq<char>) -> Json;

/// Members in the order of their keys, with one of them set.
pub open spec fn put_in_order(
    members: Seq<(Seq<char>, Json)>,
    key: Seq<char>,
    value: Json,
) -> Seq<(Seq<char>, Json)>
    decreases members.len(),
{
    if members.len() == 0 || text_before(key, members[0].0) {
        seq![(key, value)] + members
    } else if members[0].0 == key {
        seq![(key, value)] + members.drop_first()
    } else {
        seq![members[0]] + put_in_order(members.drop_first(), key, value)
    }
}

/// Members in the order of their keys; of two with the same key the later one.
pub open spec fn in_key_order(members: Seq<(Seq<char>, Json)>) -> Seq<(Seq<char>, Json)>
    decreases members.len(),
{
    if members.len() == 0 {
        seq![]
    } else {
        put_in_order(in_key_order(members.drop_last()), members.last().0, members.last().1)
    }
}

/// What a value of the crate holds that is made by its variant, unless it is a
/// number with a fraction: an integer of more than 64 bits becomes null, and
/// members come into the order of their keys.
pub open spec fn made_of(shape: Shape) -> Json {
    match shape {
        Shape::Integer(i) => if i64::MIN <= i <= u64::MAX {
            Json::Integer(i as int)
        } else {
            Json::Null
        },
        Shape::Object(members) => Json::Object(in_key_order(held_members(members@))),
        _ => shape_holds(shape),
    }
}

/// The variants of `serde_json::Value`, made out of their parts. A decimal text
/// is read by `str::parse` and handed to `Number::from_f64`; what number that is
/// is not stated here, only that the text decides it. An object's map is sorted
/// by key.
#[verifier::external_body]
fn make_value(shape: Shape) -> (value: Value)
    ensures
        held_json(value) == match shape {
            Shape::Float(text) => float_json(text@),
            _ => made_of(shape),
        },
{
    match shape {
        Shape::Null => Value::Null,
        Shape::Bool(b) => Value::Bool(b),
        Shape::Integer(i) => Number::from_i128(i).into(),
        Shape::Float(text) => text.parse().ok().and_then(Number::from_f64).into(),
        Shape::Text(text) => Value::String(text),
        Shape::Array(items) => Value::Array(items),
        Shape::Object(members) => Value::Object(members.into_iter().collect()),
    }
}

/// What a value becomes in the hands of the crate.
pub open spec fn sent_json(value: Json) -> Json
    decreases value,
{
    match value {
        Json::Integer(i) => if i64::MIN <= i <= u64::MAX {
            Json::Integer(i)
        } else {
            Json::Null
        },
        Json::Float(text) => float_json(text),
        Json::Array(items) => Json::Array(sent_items(items)),
        Json::Object(members) => Json::Object(in_key_order(sent_members(members))),
        _ => value,
    }
}

/// What values become in the hands of the crate.
pub open spec fn sent_items(items: Seq<Json>) -> Seq<Json>
    decreases items,
{
    Seq::new(
        items.len(),
        |i: int|
            if 0 <= i < items.len() {
                sent_json(items[i])
            } else {
                Json::Null
            },
    )
}

/// What members become in the hands of the crate, in the order given.
pub open spec fn sent_members(members: Seq<(Seq<char>, Json)>) -> Seq<(Seq<char>, Json)>
    decreases members,
{
    Seq::new(
        members.len(),
        |i: int|
            if 0 <= i < members.len() {
                (members[i].0, sent_json(members[i].1))
            } else {
                (seq![], Json::Null)
            },
    )
}

/// The value of the crate for a value.
pub(crate) fn to_serde(value: &JsonValue) -> (r: Value)
    ensures
        held_json(r) == sent_json(value@),
    decreases value,
{
    broadcast use group_json_views;

    match value {
        JsonValue::Null => make_value(Shape::Null),
        JsonValue::Bool(b) => make_value(Shape::Bool(*b)),
        JsonValue::Integer(i) => make_value(Shape::Integer(*i)),
        JsonValue::Float(text) => make_value(Shape::Float(text.clone())),
        JsonValue::Text(text) => make_value(Shape::Text(text.clone())),
        JsonValue::Array(items) => {
            let ghost all = sent_items(json_views(items@));
            let mut out: Vec<Value> = Vec::new();
            let mut i: usize = 0;
            assert(held_items(out@) =~= all.take(0));
            while i < items.len()
                invariant
                    i <= items@.len(),
                    *value is Array && *items == (*value)->Array_0,
                    all == sent_items(json_views(items@)),
                    held_items(out@) == all.take(i as int),
                decreases items.len() - i,
            {
                assert(decreases_to!(*value => *items));
                assert(decreases_to!(*items => items@[i as int]));
                let ghost before = out@;
                let item = to_serde(&items[i]);
                assert(held_json(item) == all[i as int]);
                out.push(item);
                assert(held_items(out@) =~= held_items(before).push(held_json(item)));
                i += 1;
                assert(held_items(out@) =~= all.take(i as int));
            }
            assert(all.take(i as int) =~= all);
            make_value(Shape::Array(out))
        },
        JsonValue::Object(members) => {
            let out = to_serde_members(members);
            make_value(Shape::Object(out))
        },
    }
}

/// The members of the crate for some members.
fn to_serde_members(members: &Vec<(String, JsonValue)>) -> (r: Vec<(String, Value)>)
    ensures
        held_members(r@) == sent_members(member_views(members@)),
    decreases members,
{
    let ghost all = sent_members(member_views(members@));
    let mut out: Vec<(String, Value)> = Vec::new();
    let mut i: usize = 0;
    assert(held_members(out@) =~= all.take(0));
    while i < members.len()
        invariant
            i <= members@.len(),
            all == sent_members(member_views(members@)),
            held_members(out@) == all.take(i as int),
        decreases members.len() - i,
    {
        assert(decreases_to!(*members => members@[i as int]));
        let ghost before = out@;
        assert(member_views(members@)[i as int] == (members@[i as int].0@, members@[i as int].1@));
        let key = members[i].0.clone();
        let item = to_serde(&members[i].1);
        assert((key@, held_json(item)) == all[i as int]);
        out.push((key, item));
        assert(held_members(out@) =~= held_members(before).push((key@, held_json(item))));
        i += 1;
        assert(held_members(out@) =~= all.take(i as int));
    }
    assert(all.take(i as int) =~= all);
    out
}

/// `serde_json::from_str` (the crate's `de.rs`), with its error as a text. How it
/// reads a text is not stated here, only that the text decides what it reads: it
/// keeps nothing from one call to the next, and stops at a depth of 128.
#[verifier::external_body]
fn parse_value(text: &str) -> (value: Result<Value, String>)
    ensures
        match value {
            Ok(value) => parsed_json(text@) == Ok::<Json, Seq<char>>(held_json(value)),
            Err(message) => parsed_json(text@) == Err::<Json, Seq<char>>(message@),
        },
{
    serde_json::from_str(text).map_err(|e| e.to_string())
}

/// The value that a text stands for, or why it stands for none.
pub fn parse_json(text: &str) -> (value: Result<JsonValue, String>)
    ensures
        json_result(value) == parsed_json(text@),
{
    match parse_value(text) {
        Ok(value) => Ok(from_serde(value)),
        Err(message) => Err(message),
    }
}

/// `serde_json::Value::to_string` (the crate's `value/mod.rs` and `ser.rs`). How
/// it writes a value is not stated here, only that what the value holds decides
/// what it writes: its variant, and for a number its integer or its decimal text.
#[verifier::external_body]
fn write_value(value: &Value) -> (text: String)
    ensures
        text@ == json_text_of(held_json(*value)),
{
    value.to_string()
}

/// `collect_map` of `serde_json::Serializer` (the crate's `ser.rs`) on the members
/// of an object, one after the other in the order given. How it writes them is
/// not stated here, only that what the members hold and their order decide what
/// it writes. Writing to memory does not fail, and what is written is UTF-8.
#[verifier::external_body]
fn write_members(members: &Vec<(String, Value)>) -> (text: String)
    ensures
        text@ == object_text_of(held_members(members@)),
{
    let mut bytes: Vec<u8> = Vec::new();
    let _ = serde_json::Serializer::new(&mut bytes).collect_map(members.iter().map(|m| (&m.0, &m.1)));
    String::from_utf8_lossy(&bytes).into_owned()
}

/// The JSON text of a value.
pub open spec fn written_json(value: Json) -> Seq<char> {
    json_text_of(sent_json(value))
}

/// The JSON text of an object with its members in a given order.
pub open spec fn written_object(members: Seq<(Seq<char>, Json)>) -> Seq<char> {
    object_text_of(sent_members(members))
}

/// Writes a value as JSON text.
pub fn write_json(value: &JsonValue) -> (text: String)
    ensures
        text@ == written_json(value@),
{
    write_value(&to_serde(value))
}

/// Writes an object as JSON text, its members in the order given.
pub fn write_object(members: &Vec<(String, JsonValue)>) -> (text: String)
    ensures
        text@ == written_object(member_views(members@)),
{
    write_members(&to_serde_members(members))
}

} // verus!
