//! The values of a script.

use vstd::prelude::*;

use crate::convert::{
    collect, finite, is_finite, is_plain, json_result, lemma_collect_all, lemma_collect_error,
    lemma_object_of_distinct, object_of,
};
use crate::json::{
    group_json_views, json_views, member_views, put_member, Json, JsonValue,
};
use crate::text::{decimal, decimal_of};

verus! {

/// A value of a script. A number with a fraction is held by its shortest decimal
/// text; the keys of a map differ.
#[derive(Debug)]
pub enum ScriptValue {
    Unit,
    Bool(bool),
    Int(i64),
    Float(String),
    Text(String),
    Array(Vec<ScriptValue>),
    Dict(Vec<(String, ScriptValue)>),
    /// A function, by its name.
    Function(String),
    /// A job that runs in a shell.
    Job(i64),
    /// A value of any other type, by the name of the type.
    Other(String),
}

/// A value of a script, as mathematics.
pub enum Script {
    Unit,
    Bool(bool),
    Int(int),
    Float(Seq<char>),
    Text(Seq<char>),
    Array(Seq<Script>),
    Dict(Seq<(Seq<char>, Script)>),
    Function(Seq<char>),
    Job(i64),
    Other(Seq<char>),
}

/// The mathematical value of a value.
pub open spec fn script(value: ScriptValue) -> Script
    decreases value,
{
    match value {
        ScriptValue::Unit => Script::Unit,
        ScriptValue::Bool(b) => Script::Bool(b),
        ScriptValue::Int(i) => Script::Int(i as int),
        ScriptValue::Float(text) => Script::Float(text@),
        ScriptValue::Text(text) => Script::Text(text@),
        ScriptValue::Array(items) => Script::Array(
            Seq::new(
                items@.len(),
                |i: int|
                    if 0 <= i < items@.len() {
                        script(items@[i])
                    } else {
                        Script::Unit
                    },
            ),
        ),
        ScriptValue::Dict(entries) => Script::Dict(
            Seq::new(
                entries@.len(),
                |i: int|
                    if 0 <= i < entries@.len() {
                        (entries@[i].0@, script(entries@[i].1))
                    } else {
                        (seq![], Script::Unit)
                    },
            ),
        ),
        ScriptValue::Function(name) => Script::Function(name@),
        ScriptValue::Job(id) => Script::Job(id),
        ScriptValue::Other(name) => Script::Other(name@),
    }
}

impl View for ScriptValue {
    type V = Script;

    open spec fn view(&self) -> Script {
        script(*self)
    }
}

/// The views of a list of values.
pub open spec fn script_views(items: Seq<ScriptValue>) -> Seq<Script> {
    items.map_values(|v: ScriptValue| v@)
}

/// The views of the entries of a map.
pub open spec fn dict_views(entries: Seq<(String, ScriptValue)>) -> Seq<(Seq<char>, Script)> {
    entries.map_values(|e: (String, ScriptValue)| (e.0@, e.1@))
}

/// The view of an array is the views of its items.
pub broadcast proof fn lemma_script_array_view(items: Vec<ScriptValue>)
    ensures
        #[trigger] script(ScriptValue::Array(items)) == Script::Array(script_views(items@)),
{
    assert(script(ScriptValue::Array(items))->Array_0 =~= script_views(items@));
}

/// The view of a map is the views of its entries.
pub broadcast proof fn lemma_script_dict_view(entries: Vec<(String, ScriptValue)>)
    ensures
        #[trigger] script(ScriptValue::Dict(entries)) == Script::Dict(dict_views(entries@)),
{
    assert(script(ScriptValue::Dict(entries))->Dict_0 =~= dict_views(entries@));
}

pub broadcast group group_script_views {
    lemma_script_array_view,
    lemma_script_dict_view,
}

impl ScriptValue {
    /// A copy of the value.
    pub fn copy(&self) -> (value: ScriptValue)
        ensures
            value@ == self@,
        decreases self,
    {
        broadcast use group_script_views;

        match self {
            ScriptValue::Unit => ScriptValue::Unit,
            ScriptValue::Bool(b) => ScriptValue::Bool(*b),
            ScriptValue::Int(i) => ScriptValue::Int(*i),
            ScriptValue::Float(text) => ScriptValue::Float(text.clone()),
            ScriptValue::Text(text) => ScriptValue::Text(text.clone()),
            ScriptValue::Array(items) => {
                let mut out: Vec<ScriptValue> = Vec::new();
                let mut i: usize = 0;
                while i < items.len()
                    invariant
                        i <= items@.len(),
                        *self is Array && *items == (*self)->Array_0,
                        script_views(out@) == script_views(items@).take(i as int),
                    decreases items.len() - i,
                {
                    let ghost before = out@;
                    assert(decreases_to!(*self => *items));
                    assert(decreases_to!(*items => items@[i as int]));
                    let item = items[i].copy();
                    out.push(item);
                    i += 1;
                    assert(script_views(out@) =~= script_views(before).push(item@));
                    assert(script_views(out@) =~= script_views(items@).take(i as int));
                }
                assert(script_views(out@) =~= script_views(items@));
                ScriptValue::Array(out)
            },
            ScriptValue::Dict(entries) => {
                let mut out: Vec<(String, ScriptValue)> = Vec::new();
                let mut i: usize = 0;
                while i < entries.len()
                    invariant
                        i <= entries@.len(),
                        *self is Dict && *entries == (*self)->Dict_0,
                        dict_views(out@) == dict_views(entries@).take(i as int),
                    decreases entries.len() - i,
                {
                    let ghost before = out@;
                    assert(decreases_to!(*self => *entries));
                    assert(decreases_to!(*entries => entries@[i as int]));
                    let key = entries[i].0.clone();
                    let value = entries[i].1.copy();
                    out.push((key, value));
                    i += 1;
                    assert(dict_views(out@) =~= dict_views(before).push((key@, value@)));
                    assert(dict_views(out@) =~= dict_views(entries@).take(i as int));
                }
                assert(dict_views(out@) =~= dict_views(entries@));
                ScriptValue::Dict(out)
            },
            ScriptValue::Function(name) => ScriptValue::Function(name.clone()),
            ScriptValue::Job(id) => ScriptValue::Job(*id),
            ScriptValue::Other(name) => ScriptValue::Other(name.clone()),
        }
    }
}

/// The value of a script for a JSON value, or why there is none. An integer that
/// does not fit is given as a text.
pub open spec fn script_of_json(value: Json) -> Result<Script, Seq<char>>
    decreases value,
{
    match value {
        Json::Null => Ok(Script::Unit),
        Json::Bool(b) => Ok(Script::Bool(b)),
        Json::Integer(i) => if i64::MIN <= i <= i64::MAX {
            Ok(Script::Int(i))
        } else if 0 <= i <= u64::MAX {
            Ok(Script::Text(decimal_of(i as nat)))
        } else {
            Err("unsupported JSON number"@)
        },
        Json::Float(text) => Ok(Script::Float(text)),
        Json::Text(text) => Ok(Script::Text(text)),
        Json::Array(items) => match collect(items_of_json(items)) {
            Ok(list) => Ok(Script::Array(list)),
            Err(message) => Err(message),
        },
        Json::Object(members) => match collect(entries_of_json(members)) {
            Ok(entries) => Ok(Script::Dict(entries)),
            Err(message) => Err(message),
        },
    }
}

/// What the items of an array become.
pub open spec fn items_of_json(items: Seq<Json>) -> Seq<Result<Script, Seq<char>>>
    decreases items,
{
    Seq::new(
        items.len(),
        |i: int|
            if 0 <= i < items.len() {
                script_of_json(items[i])
            } else {
                Ok(Script::Unit)
            },
    )
}

/// A key with what its value becomes.
pub open spec fn keyed<A>(key: Seq<char>, value: Result<A, Seq<char>>) -> Result<
    (Seq<char>, A),
    Seq<char>,
> {
    match value {
        Ok(value) => Ok((key, value)),
        Err(message) => Err(message),
    }
}

/// What the members of an object become.
pub open spec fn entries_of_json(members: Seq<(Seq<char>, Json)>) -> Seq<
    Result<(Seq<char>, Script), Seq<char>>,
>
    decreases members,
{
    Seq::new(
        members.len(),
        |i: int|
            if 0 <= i < members.len() {
                keyed(members[i].0, script_of_json(members[i].1))
            } else {
                Ok((seq![], Script::Unit))
            },
    )
}

/// The view of a value or a message.
pub open spec fn script_result(r: Result<ScriptValue, String>) -> Result<Script, Seq<char>> {
    match r {
        Ok(value) => Ok(value@),
        Err(message) => Err(message@),
    }
}

/// The value of a script for a JSON value.
pub fn json_to_dynamic(value: &JsonValue) -> (r: Result<ScriptValue, String>)
    ensures
        script_result(r) == script_of_json(value@),
    decreases value,
{
    broadcast use group_script_views;
    broadcast use group_json_views;

    match value {
        JsonValue::Null => Ok(ScriptValue::Unit),
        JsonValue::Bool(b) => Ok(ScriptValue::Bool(*b)),
        JsonValue::Integer(i) => {
            if -9223372036854775808i128 <= *i && *i <= 9223372036854775807i128 {
                Ok(ScriptValue::Int(*i as i64))
            } else if 0i128 <= *i && *i <= 18446744073709551615i128 {
                Ok(ScriptValue::Text(decimal(*i as u64)))
            } else {
                Err("unsupported JSON number".to_owned())
            }
        },
        JsonValue::Float(text) => Ok(ScriptValue::Float(text.clone())),
        JsonValue::Text(text) => Ok(ScriptValue::Text(text.clone())),
        JsonValue::Array(items) => {
            let ghost all = items_of_json(json_views(items@));
            let mut out: Vec<ScriptValue> = Vec::new();
            let mut i: usize = 0;
            assert(script_views(out@) =~= seq![]);
            while i < items.len()
                invariant
                    i <= items@.len(),
                    *value is Array && *items == (*value)->Array_0,
                    all == items_of_json(json_views(items@)),
                    collect(all.take(i as int)) == Ok::<Seq<Script>, Seq<char>>(script_views(out@)),
                    script_of_json(value@) == match collect(all) {
                        Ok(list) => Ok(Script::Array(list)),
                        Err(message) => Err(message),
                    },
                decreases items.len() - i,
            {
                assert(decreases_to!(*value => *items));
                assert(decreases_to!(*items => items@[i as int]));
                assert(all.take(i + 1).drop_last() =~= all.take(i as int));
                assert(all.take(i + 1).last() == script_of_json(items@[i as int]@));
                match json_to_dynamic(&items[i]) {
                    Ok(item) => {
                        let ghost before = out@;
                        out.push(item);
                        assert(script_views(out@) =~= script_views(before).push(item@));
                    },
                    Err(message) => {
                        proof {
                            lemma_collect_error(all, i + 1);
                        }
                        return Err(message);
                    },
                }
                i += 1;
            }
            assert(all.take(i as int) =~= all);
            Ok(ScriptValue::Array(out))
        },
        JsonValue::Object(members) => {
            let ghost all = entries_of_json(member_views(members@));
            let mut out: Vec<(String, ScriptValue)> = Vec::new();
            let mut i: usize = 0;
            assert(dict_views(out@) =~= seq![]);
            while i < members.len()
                invariant
                    i <= members@.len(),
                    *value is Object && *members == (*value)->Object_0,
                    all == entries_of_json(member_views(members@)),
                    collect(all.take(i as int)) == Ok::<Seq<(Seq<char>, Script)>, Seq<char>>(
                        dict_views(out@),
                    ),
                    script_of_json(value@) == match collect(all) {
                        Ok(entries) => Ok(Script::Dict(entries)),
                        Err(message) => Err(message),
                    },
                decreases members.len() - i,
            {
                assert(decreases_to!(*value => *members));
                assert(decreases_to!(*members => members@[i as int]));
                assert(all.take(i + 1).drop_last() =~= all.take(i as int));
                assert(all.take(i + 1).last() == keyed(
                    members@[i as int].0@,
                    script_of_json(members@[i as int].1@),
                ));
                match json_to_dynamic(&members[i].1) {
                    Ok(item) => {
                        let ghost before = out@;
                        let key = members[i].0.clone();
                        out.push((key, item));
                        assert(dict_views(out@) =~= dict_views(before).push((key@, item@)));
                    },
                    Err(message) => {
                        proof {
                            lemma_collect_error(all, i + 1);
                        }
                        return Err(message);
                    },
                }
                i += 1;
            }
            assert(all.take(i as int) =~= all);
            Ok(ScriptValue::Dict(out))
        },
    }
}

/// The word that a value has no JSON form.
pub open spec fn unsupported(of_type: Seq<char>) -> Seq<char> {
    "unsupported Rhai value type `"@ + of_type + "`"@
}

/// The JSON value for a value of a script, or why there is none.
pub open spec fn json_of_script(value: Script) -> Result<Json, Seq<char>>
    decreases value,
{
    match value {
        Script::Unit => Ok(Json::Null),
        Script::Bool(b) => Ok(Json::Bool(b)),
        Script::Int(i) => Ok(Json::Integer(i)),
        Script::Float(text) => if is_finite(text) {
            Ok(Json::Float(text))
        } else {
            Err("float must be finite"@)
        },
        Script::Text(text) => Ok(Json::Text(text)),
        Script::Array(items) => match collect(items_of_script(items)) {
            Ok(list) => Ok(Json::Array(list)),
            Err(message) => Err(message),
        },
        Script::Dict(entries) => match collect(members_of_script(entries)) {
            Ok(members) => Ok(Json::Object(object_of(members))),
            Err(message) => Err(message),
        },
        Script::Function(_) => Err(unsupported("Fn"@)),
        Script::Job(_) => Err(unsupported("tau_ext_rhai::ShellJob"@)),
        Script::Other(name) => Err(unsupported(name)),
    }
}

/// What the items of an array become.
pub open spec fn items_of_script(items: Seq<Script>) -> Seq<Result<Json, Seq<char>>>
    decreases items,
{
    Seq::new(
        items.len(),
        |i: int|
            if 0 <= i < items.len() {
                json_of_script(items[i])
            } else {
                Ok(Json::Null)
            },
    )
}

/// What the entries of a map become.
pub open spec fn members_of_script(entries: Seq<(Seq<char>, Script)>) -> Seq<
    Result<(Seq<char>, Json), Seq<char>>,
>
    decreases entries,
{
    Seq::new(
        entries.len(),
        |i: int|
            if 0 <= i < entries.len() {
                keyed(entries[i].0, json_of_script(entries[i].1))
            } else {
                Ok((seq![], Json::Null))
            },
    )
}

/// The word that a value has no JSON form.
fn unsupported_text(of_type: &str) -> (text: String)
    ensures
        text@ == unsupported(of_type@),
{
    let mut text = "unsupported Rhai value type `".to_owned();
    text.append(of_type);
    text.append("`");
    text
}

/// The JSON value for a value of a script.
pub fn dynamic_to_json(value: &ScriptValue) -> (r: Result<JsonValue, String>)
    ensures
        json_result(r) == json_of_script(value@),
    decreases value,
{
    broadcast use group_script_views;
    broadcast use group_json_views;

    match value {
        ScriptValue::Unit => Ok(JsonValue::Null),
        ScriptValue::Bool(b) => Ok(JsonValue::Bool(*b)),
        ScriptValue::Int(i) => Ok(JsonValue::Integer(*i as i128)),
        ScriptValue::Float(text) => {
            if finite(text.as_str()) {
                Ok(JsonValue::Float(text.clone()))
            } else {
                Err("float must be finite".to_owned())
            }
        },
        ScriptValue::Text(text) => Ok(JsonValue::Text(text.clone())),
        ScriptValue::Array(items) => {
            let ghost all = items_of_script(script_views(items@));
            let mut out: Vec<JsonValue> = Vec::new();
            let mut i: usize = 0;
            assert(json_views(out@) =~= seq![]);
            while i < items.len()
                invariant
                    i <= items@.len(),
                    *value is Array && *items == (*value)->Array_0,
                    all == items_of_script(script_views(items@)),
                    collect(all.take(i as int)) == Ok::<Seq<Json>, Seq<char>>(json_views(out@)),
                    json_of_script(value@) == match collect(all) {
                        Ok(list) => Ok(Json::Array(list)),
                        Err(message) => Err(message),
                    },
                decreases items.len() - i,
            {
                assert(decreases_to!(*value => *items));
                assert(decreases_to!(*items => items@[i as int]));
                assert(all.take(i + 1).drop_last() =~= all.take(i as int));
                assert(all.take(i + 1).last() == json_of_script(items@[i as int]@));
                match dynamic_to_json(&items[i]) {
                    Ok(item) => {
                        let ghost before = out@;
                        out.push(item);
                        assert(json_views(out@) =~= json_views(before).push(item@));
                    },
                    Err(message) => {
                        proof {
                            lemma_collect_error(all, i + 1);
                        }
                        return Err(message);
                    },
                }
                i += 1;
            }
            assert(all.take(i as int) =~= all);
            Ok(JsonValue::Array(out))
        },
        ScriptValue::Dict(entries) => {
            let ghost all = members_of_script(dict_views(entries@));
            let mut out: Vec<(String, JsonValue)> = Vec::new();
            let mut i: usize = 0;
            let ghost mut members: Seq<(Seq<char>, Json)> = seq![];
            assert(member_views(out@) =~= seq![]);
            while i < entries.len()
                invariant
                    i <= entries@.len(),
                    *value is Dict && *entries == (*value)->Dict_0,
                    all == members_of_script(dict_views(entries@)),
                    collect(all.take(i as int)) == Ok::<Seq<(Seq<char>, Json)>, Seq<char>>(members),
                    member_views(out@) == object_of(members),
                    json_of_script(value@) == match collect(all) {
                        Ok(members) => Ok(Json::Object(object_of(members))),
                        Err(message) => Err(message),
                    },
                decreases entries.len() - i,
            {
                assert(decreases_to!(*value => *entries));
                assert(decreases_to!(*entries => entries@[i as int]));
                assert(all.take(i + 1).drop_last() =~= all.take(i as int));
                assert(all.take(i + 1).last() == keyed(
                    entries@[i as int].0@,
                    json_of_script(entries@[i as int].1@),
                ));
                match dynamic_to_json(&entries[i].1) {
                    Ok(item) => {
                        let key = entries[i].0.clone();
                        proof {
                            let next = members.push((key@, item@));
                            assert(next.drop_last() =~= members);
                            members = next;
                        }
                        put_member(&mut out, key, item);
                    },
                    Err(message) => {
                        proof {
                            lemma_collect_error(all, i + 1);
                        }
                        return Err(message);
                    },
                }
                i += 1;
            }
            assert(all.take(i as int) =~= all);
            Ok(JsonValue::Object(out))
        },
        ScriptValue::Function(_) => Err(unsupported_text("Fn")),
        ScriptValue::Job(_) => Err(unsupported_text("tau_ext_rhai::ShellJob")),
        ScriptValue::Other(name) => Err(unsupported_text(name.as_str())),
    }
}

/// A JSON value that a script is given and gives back comes back as it was.
pub proof fn law_json_survives_a_script(value: Json)
    requires
        is_plain(value),
    ensures
        script_of_json(value) is Ok,
        json_of_script(script_of_json(value)->Ok_0) == Ok::<Json, Seq<char>>(value),
    decreases value,
{
    match value {
        Json::Array(items) => {
            let given = Seq::new(items.len(), |i: int| script_of_json(items[i])->Ok_0);
            let results = items_of_json(items);
            assert forall|i: int| 0 <= i < items.len() implies #[trigger] results[i] == Ok::<
                Script,
                Seq<char>,
            >(given[i]) by {
                assert(is_plain(items[i]));
                law_json_survives_a_script(items[i]);
            }
            lemma_collect_all(results, given);
            let back = items_of_script(given);
            assert forall|i: int| 0 <= i < items.len() implies #[trigger] back[i] == Ok::<
                Json,
                Seq<char>,
            >(items[i]) by {
                assert(is_plain(items[i]));
                law_json_survives_a_script(items[i]);
            }
            lemma_collect_all(back, items);
        },
        Json::Object(members) => {
            let given = Seq::new(
                members.len(),
                |i: int| (members[i].0, script_of_json(members[i].1)->Ok_0),
            );
            let results = entries_of_json(members);
            assert forall|i: int| 0 <= i < members.len() implies #[trigger] results[i] == Ok::<
                (Seq<char>, Script),
                Seq<char>,
            >(given[i]) by {
                assert(is_plain(members[i].1));
                law_json_survives_a_script(members[i].1);
            }
            lemma_collect_all(results, given);
            let back = members_of_script(given);
            assert forall|i: int| 0 <= i < members.len() implies #[trigger] back[i] == Ok::<
                (Seq<char>, Json),
                Seq<char>,
            >(members[i]) by {
                assert(is_plain(members[i].1));
                law_json_survives_a_script(members[i].1);
            }
            lemma_collect_all(back, members);
            lemma_object_of_distinct(members);
        },
        _ => {},
    }
}

} // verus!
