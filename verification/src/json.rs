//! JSON documents as the controller reads and writes them.
//!
//! A number keeps the text that `serde_json` renders for it (digits for an
//! integer, the shortest float form otherwise), because the controller reads
//! dates by rendering a value and parsing the text as an unsigned integer.
//! An object keeps its entries in order; the ones that `serde_json` produces
//! have distinct keys.

use vstd::prelude::*;
use vstd::string::*;
use crate::text::{parse_decimal, parse_unsigned, trim_ws};

verus! {

/// A JSON value.
pub enum JsonValue {
    Null,
    Bool(bool),
    /// The rendering of the number.
    Number(String),
    Str(String),
    Array(Vec<JsonValue>),
    /// Key and value of each entry, in order.
    Object(Vec<(String, JsonValue)>),
}

/// The mathematical value of a JSON document.
pub enum JsonView {
    Null,
    Bool(bool),
    Number(Seq<char>),
    Str(Seq<char>),
    Array(Seq<JsonView>),
    Object(Seq<(Seq<char>, JsonView)>),
}

/// The view of each element, in order.
pub open spec fn items_view(items: Seq<JsonValue>) -> Seq<JsonView>
    decreases items, 0int,
{
    if items.len() == 0 {
        Seq::empty()
    } else {
        items_view(items.subrange(0, items.len() - 1)).push(value_view(items[items.len() - 1]))
    }
}

/// The view of each entry, in order.
pub open spec fn entries_view(entries: Seq<(String, JsonValue)>) -> Seq<(Seq<char>, JsonView)>
    decreases entries, 0int,
{
    if entries.len() == 0 {
        Seq::empty()
    } else {
        entries_view(entries.subrange(0, entries.len() - 1)).push(
            (entries[entries.len() - 1].0@, value_view(entries[entries.len() - 1].1)),
        )
    }
}

/// The view of a JSON value.
pub open spec fn value_view(v: JsonValue) -> JsonView
    decreases v, 1int,
{
    match v {
        JsonValue::Null => JsonView::Null,
        JsonValue::Bool(b) => JsonView::Bool(b),
        JsonValue::Number(t) => JsonView::Number(t@),
        JsonValue::Str(s) => JsonView::Str(s@),
        JsonValue::Array(items) => JsonView::Array(items_view(items@)),
        JsonValue::Object(entries) => JsonView::Object(entries_view(entries@)),
    }
}

impl View for JsonValue {
    type V = JsonView;

    open spec fn view(&self) -> JsonView {
        value_view(*self)
    }
}

/// The value of the first entry whose key is `key`.
pub open spec fn entry_lookup(entries: Seq<(Seq<char>, JsonView)>, key: Seq<char>) -> Option<JsonView>
    decreases entries.len(),
{
    if entries.len() == 0 {
        None
    } else if entries[0].0 == key {
        Some(entries[0].1)
    } else {
        entry_lookup(entries.drop_first(), key)
    }
}

/// Adding an entry adds its view.
pub proof fn lemma_entries_view_push(entries: Seq<(String, JsonValue)>, e: (String, JsonValue))
    ensures
        entries_view(entries.push(e)) == entries_view(entries).push((e.0@, value_view(e.1))),
{
    assert(entries.push(e).subrange(0, entries.len() as int) =~= entries);
}

/// Appends the entry `key`: `value` to the entries of an object.
pub fn push_entry(entries: &mut Vec<(String, JsonValue)>, key: &str, value: JsonValue)
    ensures
        final(entries)@.len() == old(entries)@.len() + 1,
        final(entries)@.drop_last() == old(entries)@,
        final(entries)@.last().0@ == key@,
        final(entries)@.last().1 == value,
        entries_view(final(entries)@) == entries_view(old(entries)@).push((key@, value@)),
{
    let k = String::from_str(key);
    proof {
        lemma_entries_view_push(entries@, (k, value));
    }
    entries.push((k, value));
    assert(entries@.drop_last() =~= old(entries)@);
}

/// Position of the first entry whose key is `key`.
pub open spec fn key_position(entries: Seq<(String, JsonValue)>, key: Seq<char>) -> Option<int> {
    if exists|i: int| 0 <= i < entries.len() && (#[trigger] entries[i]).0@ == key {
        Some(
            choose|i: int|
                0 <= i < entries.len() && (#[trigger] entries[i]).0@ == key && forall|j: int|
                    0 <= j < i ==> (#[trigger] entries[j]).0@ != key,
        )
    } else {
        None
    }
}

/// The first position holding `key` is the one `key_position` names.
pub proof fn lemma_key_position_first(entries: Seq<(String, JsonValue)>, key: Seq<char>, i: int)
    requires
        0 <= i < entries.len(),
        entries[i].0@ == key,
        forall|j: int| 0 <= j < i ==> (#[trigger] entries[j]).0@ != key,
    ensures
        key_position(entries, key) == Some(i),
{
    let k = choose|k: int|
        0 <= k < entries.len() && (#[trigger] entries[k]).0@ == key && forall|j: int|
            0 <= j < k ==> (#[trigger] entries[j]).0@ != key;
    assert(0 <= k < entries.len() && entries[k].0@ == key && forall|j: int|
        0 <= j < k ==> (#[trigger] entries[j]).0@ != key);
    if k < i {
        assert(entries[k].0@ != key);
    }
    if i < k {
        assert(entries[i].0@ != key);
    }
}

/// Compares two strings by their characters.
pub fn str_eq(a: &str, b: &str) -> (r: bool)
    ensures
        r == (a@ == b@),
{
    let n: usize = a.unicode_len();
    if n != b.unicode_len() {
        return false;
    }
    let mut i: usize = 0;
    while i < n
        invariant
            n == a@.len(),
            n == b@.len(),
            i <= n,
            forall|j: int| 0 <= j < i ==> a@[j] == b@[j],
        decreases n - i,
    {
        if a.get_char(i) != b.get_char(i) {
            return false;
        }
        i = i + 1;
    }
    assert(a@ =~= b@);
    true
}

impl JsonValue {
    /// `self[key]` where `self` is an object that holds `key`; for any other
    /// value, or a missing key, JSON's `null` stands in its place.
    pub open spec fn spec_field(&self, key: Seq<char>) -> Option<JsonValue> {
        match self {
            JsonValue::Object(entries) => match key_position(entries@, key) {
                Some(i) => Some(entries@[i].1),
                None => None,
            },
            _ => None,
        }
    }

    /// The text of a string value.
    pub open spec fn spec_as_str(&self) -> Option<Seq<char>> {
        match self {
            JsonValue::Str(s) => Some(s@),
            _ => None,
        }
    }

    /// The text of the string held under `key`.
    #[verifier::opaque]
    pub open spec fn spec_str_field(&self, key: Seq<char>) -> Option<Seq<char>> {
        match self.spec_field(key) {
            Some(v) => v.spec_as_str(),
            None => None,
        }
    }

    /// The unsigned integer that the rendering of the value under `key`
    /// parses to after trimming. Only a number renders as digits: a string
    /// renders with a quote, an array or object with a bracket or brace, and
    /// `null`, `true` and `false` as those words, none of which parse.
    #[verifier::opaque]
    pub open spec fn spec_u128_field(&self, key: Seq<char>) -> Option<nat> {
        match self.spec_field(key) {
            Some(JsonValue::Number(t)) => parse_unsigned(trim_ws(t@), u128::MAX as nat),
            _ => None,
        }
    }

    /// The value under `key` (`value["key"]` in `serde_json`), where `None`
    /// stands for the `null` that indexing gives for a missing key or a value
    /// that is not an object.
    pub fn get(&self, key: &str) -> (r: Option<&JsonValue>)
        ensures
            match self.spec_field(key@) {
                Some(v) => r == Some(&v),
                None => r is None,
            },
    {
        match self {
            JsonValue::Object(entries) => {
                let mut i: usize = 0;
                while i < entries.len()
                    invariant
                        *self == JsonValue::Object(*entries),
                        i <= entries@.len(),
                        forall|j: int| 0 <= j < i ==> (#[trigger] entries@[j]).0@ != key@,
                    decreases entries@.len() - i,
                {
                    if str_eq(entries[i].0.as_str(), key) {
                        proof {
                            lemma_key_position_first(entries@, key@, i as int);
                            assert(self.spec_field(key@) == Some(entries@[i as int].1));
                        }
                        return Some(&entries[i].1);
                    }
                    i = i + 1;
                }
                assert(!exists|k: int| 0 <= k < entries@.len() && (#[trigger] entries@[k]).0@ == key@);
                None
            },
            _ => None,
        }
    }

    /// The text of a string value (`Value::as_str`).
    pub fn as_str(&self) -> (r: Option<&str>)
        ensures
            match self.spec_as_str() {
                Some(s) => r is Some && r->0@ == s,
                None => r is None,
            },
    {
        match self {
            JsonValue::Str(s) => Some(s.as_str()),
            _ => None,
        }
    }

    /// The elements of an array value (`Value::as_array`).
    pub fn as_array(&self) -> (r: Option<&Vec<JsonValue>>)
        ensures
            match self {
                JsonValue::Array(items) => r == Some(items),
                _ => r is None,
            },
    {
        match self {
            JsonValue::Array(items) => Some(items),
            _ => None,
        }
    }

    /// Whether the value is the string `other` (`value == "text"` in
    /// `serde_json`).
    pub fn eq_str(&self, other: &str) -> (r: bool)
        ensures
            r == (self.spec_as_str() == Some(other@)),
    {
        match self {
            JsonValue::Str(s) => str_eq(s.as_str(), other),
            _ => false,
        }
    }

    /// The text of the string under `key` (`value["key"].as_str()`).
    pub fn str_field(&self, key: &str) -> (r: Option<&str>)
        ensures
            match self.spec_str_field(key@) {
                Some(s) => r is Some && r->0@ == s,
                None => r is None,
            },
    {
        proof {
            reveal(JsonValue::spec_str_field);
        }
        match self.get(key) {
            Some(v) => v.as_str(),
            None => None,
        }
    }

    /// The value under `key` rendered, trimmed and parsed as a `u128`
    /// (`value["key"].to_string().trim().parse::<u128>()`).
    pub fn u128_field(&self, key: &str) -> (r: Option<u128>)
        ensures
            match self.spec_u128_field(key@) {
                Some(v) => v <= u128::MAX && r == Some(v as u128),
                None => r is None,
            },
    {
        proof {
            reveal(JsonValue::spec_u128_field);
        }
        match self.get(key) {
            Some(JsonValue::Number(t)) => parse_decimal(t.as_str().trim(), u128::MAX),
            _ => None,
        }
    }
}

} // verus!
