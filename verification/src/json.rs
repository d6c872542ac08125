//! A plain model of JSON values, holding what the metadata extraction reads.
//!
//! Objects keep their members in the order the parser produced them. A
//! lookup returns the first member with the key, and the member names of an
//! object are listed once each, in the order of their first appearance.

use serde_json::Value;
use vstd::prelude::*;

verus! {

/// A JSON number: integers by value, any other number by its text.
#[derive(Debug, Clone, PartialEq, Eq)]
pub enum JsonNumber {
    /// A non-negative integer that fits in `u64`.
    PosInt(u64),
    /// A negative integer that fits in `i64`.
    NegInt(i64),
    /// Any other number (a fraction or an exponent form), by the text that
    /// serde_json writes for it.
    Float(String),
}

/// A JSON value.
#[derive(Debug)]
pub enum JsonValue {
    Null,
    Bool(bool),
    Number(JsonNumber),
    String(String),
    Array(Vec<JsonValue>),
    Object(Vec<(String, JsonValue)>),
}

/// The text of a string value.
pub open spec fn json_as_str(v: JsonValue) -> Option<Seq<char>> {
    match v {
        JsonValue::String(s) => Some(s@),
        _ => None,
    }
}

/// The value of a number that is a non-negative integer fitting in `u64`.
pub open spec fn json_as_u64(v: JsonValue) -> Option<u64> {
    match v {
        JsonValue::Number(JsonNumber::PosInt(n)) => Some(n),
        _ => None,
    }
}

/// The value of the first member named `key`.
pub open spec fn lookup(entries: Seq<(String, JsonValue)>, key: Seq<char>) -> Option<JsonValue>
    decreases entries.len(),
{
    if entries.len() == 0 {
        None
    } else if entries[0].0@ == key {
        Some(entries[0].1)
    } else {
        lookup(entries.drop_first(), key)
    }
}

/// The member of an object named `key`; nothing for any other value.
pub open spec fn json_get(v: JsonValue, key: Seq<char>) -> Option<JsonValue> {
    match v {
        JsonValue::Object(entries) => lookup(entries@, key),
        _ => None,
    }
}

/// The member names of an object, each once, in the order of their first
/// appearance.
pub open spec fn entry_keys(entries: Seq<(String, JsonValue)>) -> Seq<Seq<char>>
    decreases entries.len(),
{
    if entries.len() == 0 {
        Seq::empty()
    } else {
        let rest = entry_keys(entries.drop_last());
        let name = entries.last().0@;
        if rest.contains(name) {
            rest
        } else {
            rest.push(name)
        }
    }
}

/// No two members have the same name.
pub open spec fn distinct_names(entries: Seq<(String, JsonValue)>) -> bool {
    forall|i: int, j: int| 0 <= i < j < entries.len() ==> entries[i].0@ != entries[j].0@
}

/// The member names that `entry_keys` lists never repeat, and they are
/// exactly the names of the members; where no name repeats among the
/// members, they are the members' names in order.
pub proof fn law_member_names_listed_once(entries: Seq<(String, JsonValue)>)
    ensures
        entry_keys(entries).no_duplicates(),
        forall|k: Seq<char>|
            entry_keys(entries).contains(k) <==> exists|i: int| 0 <= i < entries.len() && #[trigger] entries[i].0@ == k,
        distinct_names(entries) ==> entry_keys(entries) == entries.map_values(|e: (String, JsonValue)| e.0@),
    decreases entries.len(),
{
    if entries.len() > 0 {
        let init = entries.drop_last();
        law_member_names_listed_once(init);
        let rest = entry_keys(init);
        let name = entries.last().0@;
        assert forall|k: Seq<char>|
            entry_keys(entries).contains(k) <==> exists|i: int| 0 <= i < entries.len() && #[trigger] entries[i].0@ == k by {
            if entry_keys(entries).contains(k) {
                if rest.contains(k) {
                    let i = choose|i: int| 0 <= i < init.len() && #[trigger] init[i].0@ == k;
                    assert(entries[i] == init[i]);
                } else {
                    assert(k == name);
                    assert(entries[entries.len() - 1].0@ == k);
                }
            }
            if exists|i: int| 0 <= i < entries.len() && #[trigger] entries[i].0@ == k {
                let i = choose|i: int| 0 <= i < entries.len() && #[trigger] entries[i].0@ == k;
                if i < entries.len() - 1 {
                    assert(init[i] == entries[i]);
                    assert(rest.contains(k));
                    if !rest.contains(name) {
                        assert(rest.push(name)[rest.index_of(k)] == k);
                    }
                } else {
                    if !rest.contains(name) {
                        assert(rest.push(name)[rest.len() as int] == k);
                    }
                }
            }
        }
        if !rest.contains(name) {
            assert forall|a: int, b: int| 0 <= a < b < rest.push(name).len() implies rest.push(name)[a] != rest.push(
                name,
            )[b] by {
                if b == rest.len() {
                    assert(rest[a] == rest.push(name)[a]);
                }
            }
        }
        if distinct_names(entries) {
            assert(distinct_names(init));
            assert(!rest.contains(name)) by {
                if rest.contains(name) {
                    let i = choose|i: int| 0 <= i < init.len() && #[trigger] init[i].0@ == name;
                    assert(entries[i].0@ == entries[entries.len() - 1].0@);
                }
            }
            assert(entries.map_values(|e: (String, JsonValue)| e.0@) =~= init.map_values(
                |e: (String, JsonValue)| e.0@,
            ).push(name));
        }
    } else {
        assert(entries.map_values(|e: (String, JsonValue)| e.0@) =~= Seq::<Seq<char>>::empty());
    }
}

/// The member names of an object value.
pub open spec fn json_object_keys(v: JsonValue) -> Option<Seq<Seq<char>>> {
    match v {
        JsonValue::Object(entries) => Some(entry_keys(entries@)),
        _ => None,
    }
}

/// The texts of the string elements of an array, in order; other elements are skipped.
pub open spec fn string_elements(items: Seq<JsonValue>) -> Seq<Seq<char>>
    decreases items.len(),
{
    if items.len() == 0 {
        Seq::empty()
    } else {
        let rest = string_elements(items.drop_last());
        match items.last() {
            JsonValue::String(s) => rest.push(s@),
            _ => rest,
        }
    }
}

impl JsonValue {
    /// The text of a string value.
    pub fn as_str(&self) -> (r: Option<&String>)
        ensures
            match r {
                Some(s) => json_as_str(*self) == Some(s@),
                None => json_as_str(*self) is None,
            },
    {
        match self {
            JsonValue::String(s) => Some(s),
            _ => None,
        }
    }

    /// The value of a number that is a non-negative integer fitting in `u64`.
    pub fn as_u64(&self) -> (r: Option<u64>)
        ensures
            r == json_as_u64(*self),
    {
        match self {
            JsonValue::Number(JsonNumber::PosInt(n)) => Some(*n),
            _ => None,
        }
    }

    /// The member of an object named `key`.
    pub fn get(&self, key: &str) -> (r: Option<&JsonValue>)
        ensures
            match r {
                Some(v) => json_get(*self, key@) == Some(*v),
                None => json_get(*self, key@) is None,
            },
    {
        match self {
            JsonValue::Object(entries) => lookup_entry(entries, key),
            _ => None,
        }
    }

    /// The member names of an object value.
    pub fn object_keys(&self) -> (r: Option<Vec<String>>)
        ensures
            match r {
                Some(keys) => json_object_keys(*self) == Some(keys@.map_values(|k: String| k@)),
                None => json_object_keys(*self) is None,
            },
    {
        match self {
            JsonValue::Object(entries) => Some(keys_of(entries)),
            _ => None,
        }
    }
}

/// The value of the first member named `key`.
pub fn lookup_entry<'a>(entries: &'a Vec<(String, JsonValue)>, key: &str) -> (r: Option<&'a JsonValue>)
    ensures
        match r {
            Some(v) => lookup(entries@, key@) == Some(*v),
            None => lookup(entries@, key@) is None,
        },
{
    let key_string = key.to_string();
    assert(key_string@ == key@) by {
        broadcast use vstd::string::group_string_axioms;
    }
    let mut i: usize = 0;
    assert(entries@.skip(0) =~= entries@);
    while i < entries.len()
        invariant
            i <= entries@.len(),
            key_string@ == key@,
            lookup(entries@, key@) == lookup(entries@.skip(i as int), key@),
        decreases entries@.len() - i,
    {
        assert(entries@.skip(i as int).drop_first() =~= entries@.skip(i + 1));
        if entries[i].0 == key_string {
            return Some(&entries[i].1);
        }
        i = i + 1;
    }
    None
}

/// Whether `name` is among `keys`.
fn has_key(keys: &Vec<String>, name: &String) -> (b: bool)
    ensures
        b == keys@.map_values(|k: String| k@).contains(name@),
{
    let ghost texts = keys@.map_values(|k: String| k@);
    let mut j: usize = 0;
    while j < keys.len()
        invariant
            j <= keys@.len(),
            texts == keys@.map_values(|k: String| k@),
            forall|m: int| 0 <= m < j ==> texts[m] != name@,
        decreases keys@.len() - j,
    {
        if keys[j] == *name {
            assert(texts[j as int] == name@);
            return true;
        }
        j = j + 1;
    }
    false
}

/// The member names, each once, in the order of their first appearance.
pub fn keys_of(entries: &Vec<(String, JsonValue)>) -> (keys: Vec<String>)
    ensures
        keys@.map_values(|k: String| k@) == entry_keys(entries@),
        keys@.map_values(|k: String| k@).no_duplicates(),
{
    let mut keys: Vec<String> = Vec::new();
    let mut i: usize = 0;
    while i < entries.len()
        invariant
            i <= entries@.len(),
            keys@.map_values(|k: String| k@) == entry_keys(entries@.take(i as int)),
        decreases entries@.len() - i,
    {
        assert(entries@.take(i + 1).drop_last() =~= entries@.take(i as int));
        let name = &entries[i].0;
        if !has_key(&keys, name) {
            keys.push(name.clone());
            assert(keys@.map_values(|k: String| k@) =~= entry_keys(entries@.take(i as int)).push(name@));
        }
        i = i + 1;
    }
    assert(entries@.take(entries@.len() as int) =~= entries@);
    proof {
        law_member_names_listed_once(entries@);
    }
    keys
}

/// The texts of the string elements of an array, in order.
pub fn strings_of(items: &Vec<JsonValue>) -> (out: Vec<String>)
    ensures
        out@.map_values(|k: String| k@) == string_elements(items@),
{
    let mut out: Vec<String> = Vec::new();
    let mut i: usize = 0;
    while i < items.len()
        invariant
            i <= items@.len(),
            out@.map_values(|k: String| k@) == string_elements(items@.take(i as int)),
        decreases items@.len() - i,
    {
        assert(items@.take(i + 1).drop_last() =~= items@.take(i as int));
        match &items[i] {
            JsonValue::String(s) => {
                out.push(s.clone());
                assert(out@.map_values(|k: String| k@) =~= string_elements(items@.take(i as int)).push(s@));
            },
            _ => {},
        }
        i = i + 1;
    }
    assert(items@.take(items@.len() as int) =~= items@);
    out
}

} // verus!

verus! {

#[verifier::external_type_specification]
#[verifier::external_body]
pub struct ExOutsideJsonValue(serde_json::Value);

/// What `serde_json::from_str::<serde_json::Value>` yields for a text, in the
/// model of this module; nothing where the text is not one JSON value.
pub uninterp spec fn json_parse(text: Seq<char>) -> Option<JsonValue>;

/// Parses `text` with `serde_json::from_str::<serde_json::Value>` and carries
/// the value over to the model. The contract only names the result: it is a
/// function of the text alone (`json_parse`); what that function is on a given
/// text is left to serde_json.
#[verifier::external_body]
pub(crate) fn parse_json(text: &str) -> (r: Option<JsonValue>)
    ensures
        r == json_parse(text@),
{
    match serde_json::from_str::<serde_json::Value>(text) {
        Ok(v) => Some(from_outside_value(v)),
        Err(_) => None,
    }
}

/// Carries a `serde_json::Value` over to the model, variant for variant,
/// recursively; used only by `parse_json`, whose contract covers the result.
#[verifier::external_body]
fn from_outside_value(v: Value) -> JsonValue {
    match v {
        Value::Null => JsonValue::Null,
        Value::Bool(b) => JsonValue::Bool(b),
        Value::Number(n) => JsonValue::Number(match (n.as_u64(), n.as_i64()) {
            (Some(u), _) => JsonNumber::PosInt(u),
            (None, Some(i)) => JsonNumber::NegInt(i),
            (None, None) => JsonNumber::Float(n.to_string()),
        }),
        Value::String(s) => JsonValue::String(s),
        Value::Array(a) => JsonValue::Array(a.into_iter().map(from_outside_value).collect()),
        Value::Object(m) => JsonValue::Object(m.into_iter().map(|(k, x)| (k, from_outside_value(x))).collect()),
    }
}

} // verus!
