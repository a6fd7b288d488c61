//! JSON values out of CBOR values, and back.

use vstd::prelude::*;

use crate::json::{
    group_json_views, json_views, member_views, put, put_member, Json, JsonValue,
};
use crate::text::same_text;
use crate::value::{entry_views, group_cbor_views, value_views, Cbor, CborValue};

verus! {

/// The results all together, or the first error among them.
pub open spec fn collect<A, E>(results: Seq<Result<A, E>>) -> Result<Seq<A>, E>
    decreases results.len(),
{
    if results.len() == 0 {
        Ok(seq![])
    } else {
        match collect(results.drop_last()) {
            Err(error) => Err(error),
            Ok(list) => match results.last() {
                Err(error) => Err(error),
                Ok(item) => Ok(list.push(item)),
            },
        }
    }
}

/// What comes behind the first error changes nothing.
pub proof fn lemma_collect_error<A, E>(results: Seq<Result<A, E>>, n: int)
    requires
        0 <= n <= results.len(),
        collect(results.take(n)) is Err,
    ensures
        collect(results) == collect(results.take(n)),
    decreases results.len() - n,
{
    if n < results.len() {
        assert(results.take(n + 1).drop_last() =~= results.take(n));
        lemma_collect_error(results, n + 1);
    } else {
        assert(results.take(n) =~= results);
    }
}

/// An object that holds given members; of two with the same key the later one.
pub open spec fn object_of(members: Seq<(Seq<char>, Json)>) -> Seq<(Seq<char>, Json)>
    decreases members.len(),
{
    if members.len() == 0 {
        seq![]
    } else {
        put(object_of(members.drop_last()), members.last().0, members.last().1)
    }
}

/// Whether the decimal text of a number is that of a finite one.
pub open spec fn is_finite(text: Seq<char>) -> bool {
    text != "NaN"@ && text != "inf"@ && text != "-inf"@
}

/// Whether the decimal text of a number is that of a finite one.
pub fn finite(text: &str) -> (b: bool)
    ensures
        b == is_finite(text@),
{
    !same_text(text, "NaN") && !same_text(text, "inf") && !same_text(text, "-inf")
}

/// The JSON value for a CBOR value, or why there is none.
pub open spec fn json_of_cbor(value: Cbor) -> Result<Json, Seq<char>>
    decreases value,
{
    match value {
        Cbor::Null => Ok(Json::Null),
        Cbor::Bool(b) => Ok(Json::Bool(b)),
        Cbor::Integer(i) => if i64::MIN <= i <= i64::MAX {
            Ok(Json::Integer(i))
        } else {
            Err("CBOR integer is outside JSON integer range"@)
        },
        Cbor::Float(text) => if is_finite(text) {
            Ok(Json::Float(text))
        } else {
            Err("CBOR float must be finite"@)
        },
        Cbor::Text(text) => Ok(Json::Text(text)),
        Cbor::Bytes(_) => Err("CBOR bytes are not JSON-compatible"@),
        Cbor::Array(items) => match collect(items_of_cbor(items)) {
            Ok(list) => Ok(Json::Array(list)),
            Err(message) => Err(message),
        },
        Cbor::Dict(entries) => match collect(members_of_cbor(entries)) {
            Ok(members) => Ok(Json::Object(object_of(members))),
            Err(message) => Err(message),
        },
        Cbor::Tag(_, inner) => json_of_cbor(*inner),
    }
}

/// The member for an entry of a map, given what its value becomes.
pub open spec fn member_of_entry(key: Cbor, value: Result<Json, Seq<char>>) -> Result<
    (Seq<char>, Json),
    Seq<char>,
> {
    match key {
        Cbor::Text(name) => match value {
            Ok(value) => Ok((name, value)),
            Err(message) => Err(message),
        },
        _ => Err("CBOR map key is not a string"@),
    }
}

/// What the items of an array become.
pub open spec fn items_of_cbor(items: Seq<Cbor>) -> Seq<Result<Json, Seq<char>>>
    decreases items,
{
    Seq::new(
        items.len(),
        |i: int|
            if 0 <= i < items.len() {
                json_of_cbor(items[i])
            } else {
                Ok(Json::Null)
            },
    )
}

/// What the entries of a map become.
pub open spec fn members_of_cbor(entries: Seq<(Cbor, Cbor)>) -> Seq<
    Result<(Seq<char>, Json), Seq<char>>,
>
    decreases entries,
{
    Seq::new(
        entries.len(),
        |i: int|
            if 0 <= i < entries.len() {
                member_of_entry(entries[i].0, json_of_cbor(entries[i].1))
            } else {
                Ok((seq![], Json::Null))
            },
    )
}

/// The view of a JSON value or a message.
pub open spec fn json_result(r: Result<JsonValue, String>) -> Result<Json, Seq<char>> {
    match r {
        Ok(value) => Ok(value@),
        Err(message) => Err(message@),
    }
}

/// The JSON value for a CBOR value.
pub fn cbor_to_json(value: &CborValue) -> (r: Result<JsonValue, String>)
    ensures
        json_result(r) == json_of_cbor(value@),
    decreases value,
{
    broadcast use group_cbor_views;
    broadcast use group_json_views;

    match value {
        CborValue::Null => Ok(JsonValue::Null),
        CborValue::Bool(b) => Ok(JsonValue::Bool(*b)),
        CborValue::Integer(i) => {
            if -9223372036854775808i128 <= *i && *i <= 9223372036854775807i128 {
                Ok(JsonValue::Integer(*i))
            } else {
                Err("CBOR integer is outside JSON integer range".to_owned())
            }
        },
        CborValue::Float(text) => {
            if finite(text.as_str()) {
                Ok(JsonValue::Float(text.clone()))
            } else {
                Err("CBOR float must be finite".to_owned())
            }
        },
        CborValue::Text(text) => Ok(JsonValue::Text(text.clone())),
        CborValue::Bytes(_) => Err("CBOR bytes are not JSON-compatible".to_owned()),
        CborValue::Array(items) => {
            let ghost all = items_of_cbor(value_views(items@));
            let mut out: Vec<JsonValue> = Vec::new();
            let mut i: usize = 0;
            assert(json_views(out@) =~= seq![]);
            while i < items.len()
                invariant
                    i <= items@.len(),
                    *value is Array && *items == (*value)->Array_0,
                    all == items_of_cbor(value_views(items@)),
                    collect(all.take(i as int)) == Ok::<Seq<Json>, Seq<char>>(json_views(out@)),
                    json_of_cbor(value@) == match collect(all) {
                        Ok(list) => Ok(Json::Array(list)),
                        Err(message) => Err(message),
                    },
                decreases items.len() - i,
            {
                assert(decreases_to!(*value => *items));
                assert(decreases_to!(*items => items@[i as int]));
                assert(all.take(i + 1).drop_last() =~= all.take(i as int));
                assert(all.take(i + 1).last() == json_of_cbor(items@[i as int]@));
                match cbor_to_json(&items[i]) {
                    Ok(item) => {
                        let ghost before = out@;
                        out.push(item);
                        assert(json_views(out@) =~= json_views(before).push(item@));
                    },
                    Err(message) => {
                        proof {
                            lemma_collect_error(all, i + 1);
                        }
                        return Err(message);
                    },
                }
                i += 1;
            }
            assert(all.take(i as int) =~= all);
            Ok(JsonValue::Array(out))
        },
        CborValue::Dict(entries) => {
            let ghost all = members_of_cbor(entry_views(entries@));
            let mut out: Vec<(String, JsonValue)> = Vec::new();
            let mut i: usize = 0;
            let ghost mut members: Seq<(Seq<char>, Json)> = seq![];
            assert(member_views(out@) =~= seq![]);
            while i < entries.len()
                invariant
                    i <= entries@.len(),
                    *value is Dict && *entries == (*value)->Dict_0,
                    all == members_of_cbor(entry_views(entries@)),
                    collect(all.take(i as int)) == Ok::<Seq<(Seq<char>, Json)>, Seq<char>>(members),
                    member_views(out@) == object_of(members),
                    json_of_cbor(value@) == match collect(all) {
                        Ok(members) => Ok(Json::Object(object_of(members))),
                        Err(message) => Err(message),
                    },
                decreases entries.len() - i,
            {
                assert(decreases_to!(*value => *entries));
                assert(decreases_to!(*entries => entries@[i as int]));
                assert(all.take(i + 1).drop_last() =~= all.take(i as int));
                assert(all.take(i + 1).last() == member_of_entry(
                    entries@[i as int].0@,
                    json_of_cbor(entries@[i as int].1@),
                ));
                let name = match &entries[i].0 {
                    CborValue::Text(name) => name.clone(),
                    _ => {
                        proof {
                            lemma_collect_error(all, i + 1);
                        }
                        return Err("CBOR map key is not a string".to_owned());
                    },
                };
                match cbor_to_json(&entries[i].1) {
                    Ok(item) => {
                        proof {
                            let next = members.push((name@, item@));
                            assert(next.drop_last() =~= members);
                            members = next;
                        }
                        put_member(&mut out, name, item);
                    },
                    Err(message) => {
                        proof {
                            lemma_collect_error(all, i + 1);
                        }
                        return Err(message);
                    },
                }
                i += 1;
            }
            assert(all.take(i as int) =~= all);
            Ok(JsonValue::Object(out))
        },
        CborValue::Tag(_, inner) => cbor_to_json(inner),
    }
}

/// The JSON value that stands for a CBOR value where one has to: what JSON
/// cannot say becomes null, and a map keeps the entries with a text key.
pub open spec fn nearest_json(value: Cbor) -> Json
    decreases value,
{
    match value {
        Cbor::Null => Json::Null,
        Cbor::Bool(b) => Json::Bool(b),
        Cbor::Integer(i) => if i64::MIN <= i <= u64::MAX {
            Json::Integer(i)
        } else {
            Json::Null
        },
        Cbor::Float(text) => if is_finite(text) {
            Json::Float(text)
        } else {
            Json::Null
        },
        Cbor::Text(text) => Json::Text(text),
        Cbor::Bytes(_) => Json::Null,
        Cbor::Array(items) => Json::Array(nearest_items(items)),
        Cbor::Dict(entries) => Json::Object(object_of(present(nearest_members(entries)))),
        Cbor::Tag(_, inner) => nearest_json(*inner),
    }
}

/// The items of a list that are there.
pub open spec fn present<A>(items: Seq<Option<A>>) -> Seq<A>
    decreases items.len(),
{
    if items.len() == 0 {
        seq![]
    } else {
        match items.last() {
            Some(item) => present(items.drop_last()).push(item),
            None => present(items.drop_last()),
        }
    }
}

/// What stands for the items of an array.
pub open spec fn nearest_items(items: Seq<Cbor>) -> Seq<Json>
    decreases items,
{
    Seq::new(
        items.len(),
        |i: int|
            if 0 <= i < items.len() {
                nearest_json(items[i])
            } else {
                Json::Null
            },
    )
}

/// What stands for the entries of a map.
pub open spec fn nearest_members(entries: Seq<(Cbor, Cbor)>) -> Seq<Option<(Seq<char>, Json)>>
    decreases entries,
{
    Seq::new(
        entries.len(),
        |i: int|
            if 0 <= i < entries.len() {
                match entries[i].0 {
                    Cbor::Text(name) => Some((name, nearest_json(entries[i].1))),
                    _ => None,
                }
            } else {
                None
            },
    )
}

/// The JSON value that stands for a CBOR value.
pub fn cbor_to_nearest_json(value: &CborValue) -> (r: JsonValue)
    ensures
        r@ == nearest_json(value@),
    decreases value,
{
    broadcast use group_cbor_views;
    broadcast use group_json_views;

    match value {
        CborValue::Null => JsonValue::Null,
        CborValue::Bool(b) => JsonValue::Bool(*b),
        CborValue::Integer(i) => {
            if -9223372036854775808i128 <= *i && *i <= 18446744073709551615i128 {
                JsonValue::Integer(*i)
            } else {
                JsonValue::Null
            }
        },
        CborValue::Float(text) => {
            if finite(text.as_str()) {
                JsonValue::Float(text.clone())
            } else {
                JsonValue::Null
            }
        },
        CborValue::Text(text) => JsonValue::Text(text.clone()),
        CborValue::Bytes(_) => JsonValue::Null,
        CborValue::Array(items) => {
            let ghost all = nearest_items(value_views(items@));
            let mut out: Vec<JsonValue> = Vec::new();
            let mut i: usize = 0;
            assert(json_views(out@) =~= all.take(0));
            while i < items.len()
                invariant
                    i <= items@.len(),
                    *value is Array && *items == (*value)->Array_0,
                    all == nearest_items(value_views(items@)),
                    json_views(out@) == all.take(i as int),
                decreases items.len() - i,
            {
                assert(decreases_to!(*value => *items));
                assert(decreases_to!(*items => items@[i as int]));
                let ghost before = out@;
                let item = cbor_to_nearest_json(&items[i]);
                assert(item@ == all[i as int]);
                out.push(item);
                assert(json_views(out@) =~= json_views(before).push(item@));
                i += 1;
                assert(json_views(out@) =~= all.take(i as int));
            }
            assert(all.take(i as int) =~= all);
            JsonValue::Array(out)
        },
        CborValue::Dict(entries) => {
            let ghost all = nearest_members(entry_views(entries@));
            let mut out: Vec<(String, JsonValue)> = Vec::new();
            let mut i: usize = 0;
            assert(member_views(out@) =~= seq![]);
            while i < entries.len()
                invariant
                    i <= entries@.len(),
                    *value is Dict && *entries == (*value)->Dict_0,
                    all == nearest_members(entry_views(entries@)),
                    member_views(out@) == object_of(present(all.take(i as int))),
                decreases entries.len() - i,
            {
                assert(decreases_to!(*value => *entries));
                assert(decreases_to!(*entries => entries@[i as int]));
                assert(all.take(i + 1).drop_last() =~= all.take(i as int));
                assert(all.take(i + 1).last() == all[i as int]);
                assert(entry_views(entries@)[i as int] == (
                    entries@[i as int].0@,
                    entries@[i as int].1@,
                ));
                if let CborValue::Text(name) = &entries[i].0 {
                    let item = cbor_to_nearest_json(&entries[i].1);
                    assert(all[i as int] == Some((name@, item@)));
                    assert(present(all.take(i + 1)).drop_last() =~= present(all.take(i as int)));
                    put_member(&mut out, name.clone(), item);
                }
                i += 1;
            }
            assert(all.take(i as int) =~= all);
            JsonValue::Object(out)
        },
        CborValue::Tag(_, inner) => cbor_to_nearest_json(inner),
    }
}

/// The CBOR value for a JSON value.
pub open spec fn cbor_of_json(value: Json) -> Cbor
    decreases value,
{
    match value {
        Json::Null => Cbor::Null,
        Json::Bool(b) => Cbor::Bool(b),
        Json::Integer(i) => Cbor::Integer(i),
        Json::Float(text) => Cbor::Float(text),
        Json::Text(text) => Cbor::Text(text),
        Json::Array(items) => Cbor::Array(cbor_items(items)),
        Json::Object(members) => Cbor::Dict(cbor_entries(members)),
    }
}

/// The CBOR values for a list of JSON values.
pub open spec fn cbor_items(items: Seq<Json>) -> Seq<Cbor>
    decreases items,
{
    Seq::new(
        items.len(),
        |i: int|
            if 0 <= i < items.len() {
                cbor_of_json(items[i])
            } else {
                Cbor::Null
            },
    )
}

/// The entries of a map for the members of an object.
pub open spec fn cbor_entries(members: Seq<(Seq<char>, Json)>) -> Seq<(Cbor, Cbor)>
    decreases members,
{
    Seq::new(
        members.len(),
        |i: int|
            if 0 <= i < members.len() {
                (Cbor::Text(members[i].0), cbor_of_json(members[i].1))
            } else {
                (Cbor::Null, Cbor::Null)
            },
    )
}

/// The CBOR value for a JSON value.
pub fn json_to_cbor(value: &JsonValue) -> (r: CborValue)
    ensures
        r@ == cbor_of_json(value@),
    decreases value,
{
    broadcast use group_cbor_views;
    broadcast use group_json_views;

    match value {
        JsonValue::Null => CborValue::Null,
        JsonValue::Bool(b) => CborValue::Bool(*b),
        JsonValue::Integer(i) => CborValue::Integer(*i),
        JsonValue::Float(text) => CborValue::Float(text.clone()),
        JsonValue::Text(text) => CborValue::Text(text.clone()),
        JsonValue::Array(items) => {
            let ghost all = cbor_items(json_views(items@));
            let mut out: Vec<CborValue> = Vec::new();
            let mut i: usize = 0;
            assert(value_views(out@) =~= all.take(0));
            while i < items.len()
                invariant
                    i <= items@.len(),
                    *value is Array && *items == (*value)->Array_0,
                    all == cbor_items(json_views(items@)),
                    value_views(out@) == all.take(i as int),
                decreases items.len() - i,
            {
                assert(decreases_to!(*value => *items));
                assert(decreases_to!(*items => items@[i as int]));
                let ghost before = out@;
                let item = json_to_cbor(&items[i]);
                assert(item@ == all[i as int]);
                out.push(item);
                assert(value_views(out@) =~= value_views(before).push(item@));
                i += 1;
                assert(value_views(out@) =~= all.take(i as int));
            }
            assert(all.take(i as int) =~= all);
            CborValue::Array(out)
        },
        JsonValue::Object(members) => {
            let ghost all = cbor_entries(member_views(members@));
            let mut out: Vec<(CborValue, CborValue)> = Vec::new();
            let mut i: usize = 0;
            assert(entry_views(out@) =~= all.take(0));
            while i < members.len()
                invariant
                    i <= members@.len(),
                    *value is Object && *members == (*value)->Object_0,
                    all == cbor_entries(member_views(members@)),
                    entry_views(out@) == all.take(i as int),
                decreases members.len() - i,
            {
                assert(decreases_to!(*value => *members));
                assert(decreases_to!(*members => members@[i as int]));
                let ghost before = out@;
                assert(member_views(members@)[i as int] == (
                    members@[i as int].0@,
                    members@[i as int].1@,
                ));
                let key = CborValue::Text(members[i].0.clone());
                let item = json_to_cbor(&members[i].1);
                assert(all[i as int] == (key@, item@));
                out.push((key, item));
                assert(entry_views(out@) =~= entry_views(before).push((key@, item@)));
                i += 1;
                assert(entry_views(out@) =~= all.take(i as int));
            }
            assert(all.take(i as int) =~= all);
            CborValue::Dict(out)
        },
    }
}

/// Whether the keys of an object differ.
pub open spec fn keys_differ(members: Seq<(Seq<char>, Json)>) -> bool {
    forall|i: int, j: int|
        0 <= i < j < members.len() ==> #[trigger] members[i].0 != #[trigger] members[j].0
}

/// Whether a JSON value is one that CBOR gives back: its integers fit in 64
/// bits with a sign, its other numbers are finite, its keys differ.
pub open spec fn is_plain(value: Json) -> bool
    decreases value,
{
    match value {
        Json::Integer(i) => i64::MIN <= i <= i64::MAX,
        Json::Float(text) => is_finite(text),
        Json::Array(items) => forall|i: int|
            0 <= i < items.len() ==> is_plain(#[trigger] items[i]),
        Json::Object(members) => keys_differ(members) && forall|i: int|
            0 <= i < members.len() ==> is_plain((#[trigger] members[i]).1),
        _ => true,
    }
}

/// To set a member that is not there adds it.
proof fn lemma_put_new(members: Seq<(Seq<char>, Json)>, key: Seq<char>, value: Json)
    requires
        forall|i: int| 0 <= i < members.len() ==> (#[trigger] members[i]).0 != key,
    ensures
        put(members, key, value) == members.push((key, value)),
    decreases members.len(),
{
    if members.len() > 0 {
        let rest = members.drop_first();
        assert forall|i: int| 0 <= i < rest.len() implies (#[trigger] rest[i]).0 != key by {
            assert(rest[i] == members[i + 1]);
        }
        lemma_put_new(rest, key, value);
        assert(seq![members[0]] + rest.push((key, value)) =~= members.push((key, value)));
    } else {
        assert(seq![(key, value)] =~= members.push((key, value)));
    }
}

/// An object that holds members with different keys holds them as they are.
pub proof fn lemma_object_of_distinct(members: Seq<(Seq<char>, Json)>)
    requires
        keys_differ(members),
    ensures
        object_of(members) == members,
    decreases members.len(),
{
    if members.len() > 0 {
        let front = members.drop_last();
        assert(keys_differ(front)) by {
            assert forall|i: int, j: int| 0 <= i < j < front.len() implies #[trigger] front[i].0
                != #[trigger] front[j].0 by {
                assert(front[i] == members[i] && front[j] == members[j]);
            }
        }
        lemma_object_of_distinct(front);
        assert forall|i: int| 0 <= i < front.len() implies (#[trigger] front[i]).0
            != members.last().0 by {
            assert(front[i] == members[i]);
        }
        lemma_put_new(front, members.last().0, members.last().1);
        assert(front.push(members.last()) =~= members);
    } else {
        assert(members =~= seq![]);
    }
}

/// Results that are all there are collected as they are.
pub proof fn lemma_collect_all<A, E>(results: Seq<Result<A, E>>, items: Seq<A>)
    requires
        results.len() == items.len(),
        forall|i: int| 0 <= i < items.len() ==> #[trigger] results[i] == Ok::<A, E>(items[i]),
    ensures
        collect(results) == Ok::<Seq<A>, E>(items),
    decreases items.len(),
{
    if items.len() > 0 {
        let front = results.drop_last();
        assert forall|i: int| 0 <= i < items.drop_last().len() implies #[trigger] front[i] == Ok::<
            A,
            E,
        >(items.drop_last()[i]) by {
            assert(front[i] == results[i]);
        }
        lemma_collect_all(front, items.drop_last());
        assert(items.drop_last().push(items.last()) =~= items);
        assert(results.last() == results[items.len() - 1]);
    } else {
        assert(items =~= seq![]);
    }
}

/// A JSON value that goes into CBOR comes back as it was.
pub proof fn law_json_survives_cbor(value: Json)
    requires
        is_plain(value),
    ensures
        json_of_cbor(cbor_of_json(value)) == Ok::<Json, Seq<char>>(value),
    decreases value,
{
    match value {
        Json::Array(items) => {
            let results = items_of_cbor(cbor_items(items));
            assert forall|i: int| 0 <= i < items.len() implies #[trigger] results[i] == Ok::<
                Json,
                Seq<char>,
            >(items[i]) by {
                assert(is_plain(items[i]));
                law_json_survives_cbor(items[i]);
                assert(cbor_items(items)[i] == cbor_of_json(items[i]));
            }
            lemma_collect_all(results, items);
        },
        Json::Object(members) => {
            let results = members_of_cbor(cbor_entries(members));
            assert forall|i: int| 0 <= i < members.len() implies #[trigger] results[i] == Ok::<
                (Seq<char>, Json),
                Seq<char>,
            >(members[i]) by {
                assert(is_plain(members[i].1));
                law_json_survives_cbor(members[i].1);
                assert(cbor_entries(members)[i] == (
                    Cbor::Text(members[i].0),
                    cbor_of_json(members[i].1),
                ));
            }
            lemma_collect_all(results, members);
            lemma_object_of_distinct(members);
        },
        _ => {},
    }
}

/// Whether a value is one that JSON texts stand for: its integers fit in 64
/// bits, with or without a sign, its other numbers are finite, its keys differ.
pub open spec fn is_proper(value: Json) -> bool
    decreases value,
{
    match value {
        Json::Integer(i) => i64::MIN <= i <= u64::MAX,
        Json::Float(text) => is_finite(text),
        Json::Array(items) => forall|i: int|
            0 <= i < items.len() ==> is_proper(#[trigger] items[i]),
        Json::Object(members) => keys_differ(members) && forall|i: int|
            0 <= i < members.len() ==> is_proper((#[trigger] members[i]).1),
        _ => true,
    }
}

/// Items that are all there stay as they are.
proof fn lemma_present_all<A>(options: Seq<Option<A>>, items: Seq<A>)
    requires
        options.len() == items.len(),
        forall|i: int| 0 <= i < items.len() ==> #[trigger] options[i] == Some(items[i]),
    ensures
        present(options) == items,
    decreases items.len(),
{
    if items.len() > 0 {
        let front = options.drop_last();
        assert forall|i: int| 0 <= i < items.drop_last().len() implies #[trigger] front[i] == Some(
            items.drop_last()[i],
        ) by {
            assert(front[i] == options[i]);
        }
        lemma_present_all(front, items.drop_last());
        assert(options.last() == options[items.len() - 1]);
        assert(items.drop_last().push(items.last()) =~= items);
    } else {
        assert(items =~= seq![]);
    }
}

/// A value that JSON texts stand for goes into CBOR and is shown again as it was.
pub proof fn law_shown_json_survives_cbor(value: Json)
    requires
        is_proper(value),
    ensures
        nearest_json(cbor_of_json(value)) == value,
    decreases value,
{
    match value {
        Json::Array(items) => {
            let shown = nearest_items(cbor_items(items));
            assert forall|i: int| 0 <= i < items.len() implies shown[i] == items[i] by {
                assert(is_proper(items[i]));
                law_shown_json_survives_cbor(items[i]);
                assert(cbor_items(items)[i] == cbor_of_json(items[i]));
            }
            assert(shown =~= items);
        },
        Json::Object(members) => {
            let shown = nearest_members(cbor_entries(members));
            assert forall|i: int| 0 <= i < members.len() implies #[trigger] shown[i] == Some(
                members[i],
            ) by {
                assert(is_proper(members[i].1));
                law_shown_json_survives_cbor(members[i].1);
                assert(cbor_entries(members)[i] == (
                    Cbor::Text(members[i].0),
                    cbor_of_json(members[i].1),
                ));
            }
            lemma_present_all(shown, members);
            lemma_object_of_distinct(members);
        },
        _ => {},
    }
}

} // verus!
