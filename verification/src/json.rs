//! JSON values, their members, and their texts.

use vstd::prelude::*;

use crate::text::{opt_view, same_text};

verus! {

/// A JSON value. A number with a fraction or an exponent is held by its
/// shortest decimal text; the keys of an object differ.
#[derive(Debug, PartialEq, Eq)]
pub enum JsonValue {
    Null,
    Bool(bool),
    Integer(i128),
    Float(String),
    Text(String),
    Array(Vec<JsonValue>),
    Object(Vec<(String, JsonValue)>),
}

/// A JSON value, as mathematics.
pub enum Json {
    Null,
    Bool(bool),
    Integer(int),
    Float(Seq<char>),
    Text(Seq<char>),
    Array(Seq<Json>),
    Object(Seq<(Seq<char>, Json)>),
}

/// The mathematical value of a JSON value.
pub open spec fn json(value: JsonValue) -> Json
    decreases value,
{
    match value {
        JsonValue::Null => Json::Null,
        JsonValue::Bool(b) => Json::Bool(b),
        JsonValue::Integer(i) => Json::Integer(i as int),
        JsonValue::Float(text) => Json::Float(text@),
        JsonValue::Text(text) => Json::Text(text@),
        JsonValue::Array(items) => Json::Array(
            Seq::new(
                items@.len(),
                |i: int|
                    if 0 <= i < items@.len() {
                        json(items@[i])
                    } else {
                        Json::Null
                    },
            ),
        ),
        JsonValue::Object(members) => Json::Object(
            Seq::new(
                members@.len(),
                |i: int|
                    if 0 <= i < members@.len() {
                        (members@[i].0@, json(members@[i].1))
                    } else {
                        (seq![], Json::Null)
                    },
            ),
        ),
    }
}

impl View for JsonValue {
    type V = Json;

    open spec fn view(&self) -> Json {
        json(*self)
    }
}

/// The views of a list of values.
pub open spec fn json_views(items: Seq<JsonValue>) -> Seq<Json> {
    items.map_values(|v: JsonValue| v@)
}

/// The views of the members of an object.
pub open spec fn member_views(members: Seq<(String, JsonValue)>) -> Seq<(Seq<char>, Json)> {
    members.map_values(|m: (String, JsonValue)| (m.0@, m.1@))
}

/// The view of an optional value.
pub open spec fn opt_json(value: Option<JsonValue>) -> Option<Json> {
    match value {
        Some(value) => Some(value@),
        None => None,
    }
}

/// The view of an array is the views of its items.
pub broadcast proof fn lemma_json_array_view(items: Vec<JsonValue>)
    ensures
        #[trigger] json(JsonValue::Array(items)) == Json::Array(json_views(items@)),
{
    assert(json(JsonValue::Array(items))->Array_0 =~= json_views(items@));
}

/// The view of an object is the views of its members.
pub broadcast proof fn lemma_json_object_view(members: Vec<(String, JsonValue)>)
    ensures
        #[trigger] json(JsonValue::Object(members)) == Json::Object(member_views(members@)),
{
    assert(json(JsonValue::Object(members))->Object_0 =~= member_views(members@));
}

pub broadcast group group_json_views {
    lemma_json_array_view,
    lemma_json_object_view,
}

impl JsonValue {
    /// A copy of the value.
    pub fn copy(&self) -> (value: JsonValue)
        ensures
            value@ == self@,
        decreases self,
    {
        broadcast use group_json_views;

        match self {
            JsonValue::Null => JsonValue::Null,
            JsonValue::Bool(b) => JsonValue::Bool(*b),
            JsonValue::Integer(i) => JsonValue::Integer(*i),
            JsonValue::Float(text) => JsonValue::Float(text.clone()),
            JsonValue::Text(text) => JsonValue::Text(text.clone()),
            JsonValue::Array(items) => {
                let mut out: Vec<JsonValue> = Vec::new();
                let mut i: usize = 0;
                while i < items.len()
                    invariant
                        i <= items@.len(),
                        *self is Array && *items == (*self)->Array_0,
                        json_views(out@) == json_views(items@).take(i as int),
                    decreases items.len() - i,
                {
                    let ghost before = out@;
                    assert(decreases_to!(*self => *items));
                    assert(decreases_to!(*items => items@[i as int]));
                    let item = items[i].copy();
                    out.push(item);
                    i += 1;
                    assert(json_views(out@) =~= json_views(before).push(item@));
                    assert(json_views(out@) =~= json_views(items@).take(i as int));
                }
                assert(json_views(out@) =~= json_views(items@));
                JsonValue::Array(out)
            },
            JsonValue::Object(members) => {
                let mut out: Vec<(String, JsonValue)> = Vec::new();
                let mut i: usize = 0;
                while i < members.len()
                    invariant
                        i <= members@.len(),
                        *self is Object && *members == (*self)->Object_0,
                        member_views(out@) == member_views(members@).take(i as int),
                    decreases members.len() - i,
                {
                    let ghost before = out@;
                    assert(decreases_to!(*self => *members));
                    assert(decreases_to!(*members => members@[i as int]));
                    let key = members[i].0.clone();
                    let value = members[i].1.copy();
                    out.push((key, value));
                    i += 1;
                    assert(member_views(out@) =~= member_views(before).push((key@, value@)));
                    assert(member_views(out@) =~= member_views(members@).take(i as int));
                }
                assert(member_views(out@) =~= member_views(members@));
                JsonValue::Object(out)
            },
        }
    }
}

/// The value of the first member with a key.
pub open spec fn find_member(members: Seq<(Seq<char>, Json)>, key: Seq<char>) -> Option<Json>
    decreases members.len(),
{
    if members.len() == 0 {
        None
    } else if members[0].0 == key {
        Some(members[0].1)
    } else {
        find_member(members.drop_first(), key)
    }
}

/// The first member with a key is the one that is found.
pub proof fn lemma_first_member(members: Seq<(Seq<char>, Json)>, key: Seq<char>, n: int)
    requires
        0 <= n <= members.len(),
        n < members.len() ==> members[n].0 == key,
        forall|i: int| 0 <= i < n ==> (#[trigger] members[i]).0 != key,
    ensures
        find_member(members, key) == if n < members.len() {
            Some(members[n].1)
        } else {
            None
        },
    decreases n,
{
    if n > 0 {
        let rest = members.drop_first();
        assert forall|i: int| 0 <= i < n - 1 implies (#[trigger] rest[i]).0 != key by {
            assert(rest[i] == members[i + 1]);
        }
        assert(members[0].0 != key);
        lemma_first_member(rest, key, n - 1);
    }
}

/// A member of an object; nothing where the value is no object.
pub open spec fn member(value: Json, key: Seq<char>) -> Option<Json> {
    match value {
        Json::Object(members) => find_member(members, key),
        _ => None,
    }
}

/// A member of an object, null where there is none.
pub open spec fn at(value: Json, key: Seq<char>) -> Json {
    match member(value, key) {
        Some(found) => found,
        None => Json::Null,
    }
}

/// The text that a value holds.
pub open spec fn text_in(value: Json) -> Option<Seq<char>> {
    match value {
        Json::Text(text) => Some(text),
        _ => None,
    }
}

/// The unsigned number that a value holds.
pub open spec fn unsigned_in(value: Json) -> Option<u64> {
    match value {
        Json::Integer(i) if 0 <= i <= u64::MAX => Some(i as u64),
        _ => None,
    }
}

/// A member that holds a text.
pub open spec fn text_at(value: Json, key: Seq<char>) -> Option<Seq<char>> {
    text_in(at(value, key))
}

/// A member that holds an unsigned number.
pub open spec fn unsigned_at(value: Json, key: Seq<char>) -> Option<u64> {
    unsigned_in(at(value, key))
}

/// The first of two that is there.
pub open spec fn or_else<A>(first: Option<A>, second: Option<A>) -> Option<A> {
    if first is Some {
        first
    } else {
        second
    }
}

/// A member of an object.
pub fn get<'a>(value: &'a JsonValue, key: &str) -> (found: Option<&'a JsonValue>)
    ensures
        match found {
            Some(v) => member(value@, key@) == Some(v@),
            None => member(value@, key@) is None,
        },
{
    broadcast use group_json_views;

    match value {
        JsonValue::Object(members) => {
            let mut i: usize = 0;
            assert(member_views(members@).skip(0) =~= member_views(members@));
            while i < members.len()
                invariant
                    i <= members@.len(),
                    find_member(member_views(members@).skip(i as int), key@) == find_member(
                        member_views(members@),
                        key@,
                    ),
                    member(value@, key@) == find_member(member_views(members@), key@),
                decreases members.len() - i,
            {
                let ghost rest = member_views(members@).skip(i as int);
                assert(rest[0] == (members@[i as int].0@, members@[i as int].1@));
                if same_text(members[i].0.as_str(), key) {
                    return Some(&members[i].1);
                }
                i += 1;
                assert(rest.drop_first() =~= member_views(members@).skip(i as int));
            }
            None
        },
        _ => None,
    }
}

/// A member that holds a text.
pub fn get_text(value: &JsonValue, key: &str) -> (text: Option<String>)
    ensures
        opt_view(text) == text_at(value@, key@),
{
    match get(value, key) {
        Some(JsonValue::Text(text)) => Some(text.clone()),
        _ => None,
    }
}

/// A member that holds an unsigned number.
pub fn get_unsigned(value: &JsonValue, key: &str) -> (number: Option<u64>)
    ensures
        number == unsigned_at(value@, key@),
{
    match get(value, key) {
        Some(JsonValue::Integer(i)) => {
            if 0i128 <= *i && *i <= 18446744073709551615i128 {
                Some(*i as u64)
            } else {
                None
            }
        },
        _ => None,
    }
}

/// A text inside of a member.
pub fn get_text_in(value: &JsonValue, outer: &str, inner: &str) -> (text: Option<String>)
    ensures
        opt_view(text) == text_at(at(value@, outer@), inner@),
{
    match get(value, outer) {
        Some(found) => get_text(found, inner),
        None => None,
    }
}

/// An unsigned number inside of a member.
pub fn get_unsigned_in(value: &JsonValue, outer: &str, inner: &str) -> (number: Option<u64>)
    ensures
        number == unsigned_at(at(value@, outer@), inner@),
{
    match get(value, outer) {
        Some(found) => get_unsigned(found, inner),
        None => None,
    }
}

/// A text as a value.
pub fn json_text(text: &str) -> (value: JsonValue)
    ensures
        value@ == Json::Text(text@),
{
    JsonValue::Text(text.to_owned())
}

/// Adds a member at the end of an object's members.
pub fn push_member(members: &mut Vec<(String, JsonValue)>, key: &str, value: JsonValue)
    ensures
        member_views(final(members)@) == member_views(old(members)@).push((key@, value@)),
{
    let ghost before = members@;
    let name = key.to_owned();
    members.push((name, value));
    assert(member_views(members@) =~= member_views(before).push((name@, value@)));
}

/// The members with one of them set: replaced where it is there, else added.
pub open spec fn put(members: Seq<(Seq<char>, Json)>, key: Seq<char>, value: Json) -> Seq<
    (Seq<char>, Json),
>
    decreases members.len(),
{
    if members.len() == 0 {
        seq![(key, value)]
    } else if members[0].0 == key {
        seq![(key, value)] + members.drop_first()
    } else {
        seq![members[0]] + put(members.drop_first(), key, value)
    }
}

/// Sets a member of an object.
pub fn put_member(members: &mut Vec<(String, JsonValue)>, key: String, value: JsonValue)
    ensures
        member_views(final(members)@) == put(member_views(old(members)@), key@, value@),
{
    let ghost before = member_views(members@);
    let ghost goal = put(before, key@, value@);
    let ghost set = (key@, value@);
    let n: usize = members.len();
    let mut i: usize = 0;
    assert(before.skip(0) =~= before);
    assert(before.take(0) + goal =~= goal);
    while i < n
        invariant
            i <= n == members@.len(),
            before == member_views(members@),
            before == member_views(old(members)@),
            set == (key@, value@),
            goal == put(before, key@, value@),
            before.take(i as int) + put(before.skip(i as int), key@, value@) == goal,
        decreases n - i,
    {
        let ghost rest = before.skip(i as int);
        assert(rest[0] == (members@[i as int].0@, members@[i as int].1@));
        assert(rest.drop_first() =~= before.skip(i + 1));
        if same_text(members[i].0.as_str(), key.as_str()) {
            members.set(i, (key, value));
            assert(member_views(members@) =~= before.take(i as int) + (seq![set] + rest.drop_first()));
            return ;
        }
        assert(before.take(i as int) + (seq![rest[0]] + put(before.skip(i + 1), key@, value@))
            =~= before.take(i + 1) + put(before.skip(i + 1), key@, value@));
        i += 1;
    }
    assert(before.skip(n as int) =~= seq![]);
    assert(before.take(n as int) =~= before);
    members.push((key, value));
    assert(member_views(members@) =~= before + seq![set]);
}

/// A member that is set is found with its value, and every other member stays.
pub proof fn law_set_member_is_found(
    members: Seq<(Seq<char>, Json)>,
    key: Seq<char>,
    value: Json,
    other: Seq<char>,
)
    ensures
        find_member(put(members, key, value), key) == Some(value),
        other != key ==> find_member(put(members, key, value), other) == find_member(
            members,
            other,
        ),
    decreases members.len(),
{
    let after = put(members, key, value);
    if members.len() == 0 {
        assert(after.drop_first() =~= members);
    } else if members[0].0 == key {
        assert(after.drop_first() =~= members.drop_first());
    } else {
        law_set_member_is_found(members.drop_first(), key, value, other);
        assert(after[0] == members[0]);
        assert(after.drop_first() =~= put(members.drop_first(), key, value));
    }
}

} // verus!
