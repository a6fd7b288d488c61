//! Structured values: the arguments and results of tools.

use vstd::prelude::*;

use crate::text::{opt_view, same_text};

verus! {

/// A CBOR value. A floating-point number is held by its decimal text.
#[derive(Debug, PartialEq, Eq)]
pub enum CborValue {
    Null,
    Bool(bool),
    Integer(i128),
    Float(String),
    Bytes(Vec<u8>),
    Text(String),
    Array(Vec<CborValue>),
    Dict(Vec<(CborValue, CborValue)>),
    Tag(u64, Box<CborValue>),
}

/// A CBOR value, as mathematics.
pub enum Cbor {
    Null,
    Bool(bool),
    Integer(int),
    Float(Seq<char>),
    Bytes(Seq<u8>),
    Text(Seq<char>),
    Array(Seq<Cbor>),
    Dict(Seq<(Cbor, Cbor)>),
    Tag(u64, Box<Cbor>),
}

/// The mathematical value of a CBOR value.
pub open spec fn cbor(value: CborValue) -> Cbor
    decreases value,
{
    match value {
        CborValue::Null => Cbor::Null,
        CborValue::Bool(b) => Cbor::Bool(b),
        CborValue::Integer(i) => Cbor::Integer(i as int),
        CborValue::Float(text) => Cbor::Float(text@),
        CborValue::Bytes(bytes) => Cbor::Bytes(bytes@),
        CborValue::Text(text) => Cbor::Text(text@),
        CborValue::Array(items) => Cbor::Array(
            Seq::new(
                items@.len(),
                |i: int|
                    if 0 <= i < items@.len() {
                        cbor(items@[i])
                    } else {
                        Cbor::Null
                    },
            ),
        ),
        CborValue::Dict(entries) => Cbor::Dict(
            Seq::new(
                entries@.len(),
                |i: int|
                    if 0 <= i < entries@.len() {
                        (cbor(entries@[i].0), cbor(entries@[i].1))
                    } else {
                        (Cbor::Null, Cbor::Null)
                    },
            ),
        ),
        CborValue::Tag(tag, inner) => Cbor::Tag(tag, Box::new(cbor(*inner))),
    }
}

impl View for CborValue {
    type V = Cbor;

    open spec fn view(&self) -> Cbor {
        cbor(*self)
    }
}

/// The views of a list of values.
pub open spec fn value_views(items: Seq<CborValue>) -> Seq<Cbor> {
    items.map_values(|v: CborValue| v@)
}

/// The views of the entries of a map.
pub open spec fn entry_views(entries: Seq<(CborValue, CborValue)>) -> Seq<(Cbor, Cbor)> {
    entries.map_values(|e: (CborValue, CborValue)| (e.0@, e.1@))
}

/// The view of an optional value.
pub open spec fn opt_cbor(value: Option<CborValue>) -> Option<Cbor> {
    match value {
        Some(value) => Some(value@),
        None => None,
    }
}

/// The view of an array is the views of its items.
pub broadcast proof fn lemma_array_view(items: Vec<CborValue>)
    ensures
        #[trigger] cbor(CborValue::Array(items)) == Cbor::Array(value_views(items@)),
{
    assert(cbor(CborValue::Array(items))->Array_0 =~= value_views(items@));
}

/// The view of a map is the views of its entries.
pub broadcast proof fn lemma_dict_view(entries: Vec<(CborValue, CborValue)>)
    ensures
        #[trigger] cbor(CborValue::Dict(entries)) == Cbor::Dict(entry_views(entries@)),
{
    assert(cbor(CborValue::Dict(entries))->Dict_0 =~= entry_views(entries@));
}

pub broadcast group group_cbor_views {
    lemma_array_view,
    lemma_dict_view,
}

impl CborValue {
    /// A copy of the value.
    pub fn copy(&self) -> (value: CborValue)
        ensures
            value@ == self@,
        decreases self,
    {
        broadcast use group_cbor_views;

        match self {
            CborValue::Null => CborValue::Null,
            CborValue::Bool(b) => CborValue::Bool(*b),
            CborValue::Integer(i) => CborValue::Integer(*i),
            CborValue::Float(text) => CborValue::Float(text.clone()),
            CborValue::Bytes(bytes) => {
                let mut out: Vec<u8> = Vec::new();
                let mut i: usize = 0;
                while i < bytes.len()
                    invariant
                        i <= bytes@.len(),
                        out@ == bytes@.take(i as int),
                    decreases bytes.len() - i,
                {
                    out.push(bytes[i]);
                    i += 1;
                    assert(out@ =~= bytes@.take(i as int));
                }
                assert(out@ =~= bytes@);
                CborValue::Bytes(out)
            },
            CborValue::Text(text) => CborValue::Text(text.clone()),
            CborValue::Array(items) => {
                let mut out: Vec<CborValue> = Vec::new();
                let mut i: usize = 0;
                while i < items.len()
                    invariant
                        i <= items@.len(),
                        *self is Array && *items == (*self)->Array_0,
                        value_views(out@) == value_views(items@).take(i as int),
                    decreases items.len() - i,
                {
                    let ghost before = out@;
                    assert(decreases_to!(*self => *items));
                    assert(decreases_to!(*items => items@[i as int]));
                    let item = items[i].copy();
                    out.push(item);
                    i += 1;
                    assert(value_views(out@) =~= value_views(before).push(item@));
                    assert(value_views(out@) =~= value_views(items@).take(i as int));
                }
                assert(value_views(out@) =~= value_views(items@));
                CborValue::Array(out)
            },
            CborValue::Dict(entries) => {
                let mut out: Vec<(CborValue, CborValue)> = Vec::new();
                let mut i: usize = 0;
                while i < entries.len()
                    invariant
                        i <= entries@.len(),
                        *self is Dict && *entries == (*self)->Dict_0,
                        entry_views(out@) == entry_views(entries@).take(i as int),
                    decreases entries.len() - i,
                {
                    let ghost before = out@;
                    assert(decreases_to!(*self => *entries));
                    assert(decreases_to!(*entries => entries@[i as int]));
                    let key = entries[i].0.copy();
                    let value = entries[i].1.copy();
                    out.push((key, value));
                    i += 1;
                    assert(entry_views(out@) =~= entry_views(before).push((key@, value@)));
                    assert(entry_views(out@) =~= entry_views(entries@).take(i as int));
                }
                assert(entry_views(out@) =~= entry_views(entries@));
                CborValue::Dict(out)
            },
            CborValue::Tag(tag, inner) => CborValue::Tag(*tag, Box::new(inner.copy())),
        }
    }
}

/// The value of the first entry with a text key.
pub open spec fn lookup(entries: Seq<(Cbor, Cbor)>, key: Seq<char>) -> Option<Cbor>
    decreases entries.len(),
{
    if entries.len() == 0 {
        None
    } else if entries[0].0 == Cbor::Text(key) {
        Some(entries[0].1)
    } else {
        lookup(entries.drop_first(), key)
    }
}

/// The first entry with a key is the one that is found.
pub proof fn lemma_first_entry(entries: Seq<(Cbor, Cbor)>, key: Seq<char>, n: int)
    requires
        0 <= n <= entries.len(),
        n < entries.len() ==> entries[n].0 == Cbor::Text(key),
        forall|i: int| 0 <= i < n ==> (#[trigger] entries[i]).0 != Cbor::Text(key),
    ensures
        lookup(entries, key) == if n < entries.len() {
            Some(entries[n].1)
        } else {
            None
        },
    decreases n,
{
    if n > 0 {
        let rest = entries.drop_first();
        assert forall|i: int| 0 <= i < n - 1 implies (#[trigger] rest[i]).0 != Cbor::Text(key) by {
            assert(rest[i] == entries[i + 1]);
        }
        assert(entries[0].0 != Cbor::Text(key));
        lemma_first_entry(rest, key, n - 1);
    }
}

/// A field of a map; nothing where the value is no map.
pub open spec fn field(value: Cbor, key: Seq<char>) -> Option<Cbor> {
    match value {
        Cbor::Dict(entries) => lookup(entries, key),
        _ => None,
    }
}

/// A text field of a map.
pub open spec fn text_field(value: Cbor, key: Seq<char>) -> Option<Seq<char>> {
    match field(value, key) {
        Some(Cbor::Text(text)) => Some(text),
        _ => None,
    }
}

/// An integer field of a map that fits in 64 bits.
pub open spec fn int_field(value: Cbor, key: Seq<char>) -> Option<i64> {
    match field(value, key) {
        Some(Cbor::Integer(i)) if i64::MIN <= i <= i64::MAX => Some(i as i64),
        _ => None,
    }
}

/// A truth value in a field of a map.
pub open spec fn bool_field(value: Cbor, key: Seq<char>) -> Option<bool> {
    match field(value, key) {
        Some(Cbor::Bool(b)) => Some(b),
        _ => None,
    }
}

/// A field of a map; nothing where the value is no map.
pub fn cbor_field<'a>(value: &'a CborValue, key: &str) -> (found: Option<&'a CborValue>)
    ensures
        match found {
            Some(v) => field(value@, key@) == Some(v@),
            None => field(value@, key@) is None,
        },
{
    broadcast use group_cbor_views;

    match value {
        CborValue::Dict(entries) => {
            let mut i: usize = 0;
            assert(entry_views(entries@).skip(0) =~= entry_views(entries@));
            while i < entries.len()
                invariant
                    i <= entries@.len(),
                    lookup(entry_views(entries@).skip(i as int), key@) == lookup(
                        entry_views(entries@),
                        key@,
                    ),
                    field(value@, key@) == lookup(entry_views(entries@), key@),
                decreases entries.len() - i,
            {
                let ghost rest = entry_views(entries@).skip(i as int);
                assert(rest[0] == (entries@[i as int].0@, entries@[i as int].1@));
                if let CborValue::Text(name) = &entries[i].0 {
                    if same_text(name.as_str(), key) {
                        return Some(&entries[i].1);
                    }
                }
                i += 1;
                assert(rest.drop_first() =~= entry_views(entries@).skip(i as int));
            }
            None
        },
        _ => None,
    }
}

/// A text field of a map.
pub fn cbor_map_text(value: &CborValue, key: &str) -> (text: Option<String>)
    ensures
        opt_view(text) == text_field(value@, key@),
{
    match cbor_field(value, key) {
        Some(CborValue::Text(text)) => Some(text.clone()),
        _ => None,
    }
}

/// An integer field of a map that fits in 64 bits.
pub fn cbor_map_int(value: &CborValue, key: &str) -> (number: Option<i64>)
    ensures
        number == int_field(value@, key@),
{
    match cbor_field(value, key) {
        Some(CborValue::Integer(i)) => {
            if -9223372036854775808i128 <= *i && *i <= 9223372036854775807i128 {
                Some(*i as i64)
            } else {
                None
            }
        },
        _ => None,
    }
}

/// A truth value in a field of a map.
pub fn cbor_map_bool(value: &CborValue, key: &str) -> (b: Option<bool>)
    ensures
        b == bool_field(value@, key@),
{
    match cbor_field(value, key) {
        Some(CborValue::Bool(b)) => Some(*b),
        _ => None,
    }
}

/// An array field of a map.
pub fn cbor_map_array<'a>(value: &'a CborValue, key: &str) -> (items: Option<&'a Vec<CborValue>>)
    ensures
        match items {
            Some(items) => field(value@, key@) == Some(Cbor::Array(value_views(items@))),
            None => !(field(value@, key@) matches Some(Cbor::Array(_))),
        },
{
    broadcast use group_cbor_views;

    match cbor_field(value, key) {
        Some(CborValue::Array(items)) => Some(items),
        _ => None,
    }
}

/// A value that holds a text.
pub fn text_value(text: &str) -> (value: CborValue)
    ensures
        value@ == Cbor::Text(text@),
{
    CborValue::Text(text.to_owned())
}

/// Adds an entry with a text key at the end of a map's entries.
pub fn push_entry(entries: &mut Vec<(CborValue, CborValue)>, key: &str, value: CborValue)
    ensures
        entry_views(final(entries)@) == entry_views(old(entries)@).push((Cbor::Text(key@), value@)),
{
    let ghost before = entries@;
    let name = text_value(key);
    entries.push((name, value));
    assert(entry_views(entries@) =~= entry_views(before).push((name@, value@)));
}

/// An entry with a text key.
pub open spec fn entry(key: &str, value: Cbor) -> (Cbor, Cbor) {
    (Cbor::Text(key@), value)
}

/// An entry where a condition holds, else nothing.
pub open spec fn entry_if(condition: bool, key: &str, value: Cbor) -> Seq<(Cbor, Cbor)> {
    if condition {
        seq![entry(key, value)]
    } else {
        seq![]
    }
}

/// The message for an argument that is not what it has to be.
pub open spec fn argument_error(key: Seq<char>, what: Seq<char>) -> Seq<char> {
    "argument `"@ + key + "` must be "@ + what
}

/// The message for an argument that is not what it has to be.
pub fn argument_error_text(key: &str, what: &str) -> (message: String)
    ensures
        message@ == argument_error(key@, what@),
{
    let mut message = "argument `".to_owned();
    message.append(key);
    message.append("` must be ");
    message.append(what);
    message
}

/// A text argument that has to be there.
pub fn argument_text(arguments: &CborValue, key: &str) -> (text: Result<String, String>)
    ensures
        match text {
            Ok(text) => text_field(arguments@, key@) == Some(text@),
            Err(message) => text_field(arguments@, key@) is None && message@ == argument_error(
                key@,
                "a string"@,
            ),
        },
{
    match cbor_map_text(arguments, key) {
        Some(text) => Ok(text),
        None => Err(argument_error_text(key, "a string")),
    }
}

/// Whether a field may be left out: it is not there, or null.
pub open spec fn is_absent(found: Option<Cbor>) -> bool {
    found is None || found == Some(Cbor::Null)
}

/// A text argument that may be left out, and is refused where it is no text.
pub fn optional_argument_text_strict(arguments: &CborValue, key: &str) -> (text: Result<
    Option<String>,
    String,
>)
    ensures
        match text {
            Ok(Some(text)) => field(arguments@, key@) == Some(Cbor::Text(text@)),
            Ok(None) => is_absent(field(arguments@, key@)),
            Err(message) => !is_absent(field(arguments@, key@)) && text_field(
                arguments@,
                key@,
            ) is None && message@ == argument_error(key@, "a string"@),
        },
{
    match cbor_field(arguments, key) {
        None => Ok(None),
        Some(CborValue::Null) => Ok(None),
        Some(CborValue::Text(text)) => Ok(Some(text.clone())),
        Some(_) => Err(argument_error_text(key, "a string")),
    }
}

/// An integer argument that may be left out, and is refused where it is no
/// integer of 64 bits.
pub fn optional_argument_int_strict(arguments: &CborValue, key: &str) -> (number: Result<
    Option<i64>,
    String,
>)
    ensures
        match number {
            Ok(Some(n)) => int_field(arguments@, key@) == Some(n),
            Ok(None) => is_absent(field(arguments@, key@)),
            Err(message) => !is_absent(field(arguments@, key@)) && int_field(
                arguments@,
                key@,
            ) is None && message@ == argument_error(key@, "an integer"@),
        },
{
    match cbor_field(arguments, key) {
        None => Ok(None),
        Some(CborValue::Null) => Ok(None),
        Some(_) => match cbor_map_int(arguments, key) {
            Some(n) => Ok(Some(n)),
            None => Err(argument_error_text(key, "an integer")),
        },
    }
}

} // verus!
