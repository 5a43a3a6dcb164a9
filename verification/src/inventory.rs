//! Indexing the inventories that the gateway lists: each element of a
//! listing adds one entry to an index, later elements taking the place of
//! earlier ones with the same key.

use vstd::prelude::*;
use vstd::string::*;
use crate::json::{key_position, str_eq, JsonValue};
use crate::strmap::StrMap;

verus! {

/// What one element adds to an index: `None` when the element lacks a text
/// field that the index needs, `Some(None)` when the index skips it, and
/// `Some(Some((key, value)))` for the entry it adds.
pub type EntryFn<V> = spec_fn(JsonValue) -> Option<Option<(Seq<char>, V)>>;

/// The index that `elems` give, added in order to `m`; `None` when an
/// element lacks a needed field.
pub open spec fn index_into<V>(m: Map<Seq<char>, V>, elems: Seq<JsonValue>, entry: EntryFn<V>) -> Option<
    Map<Seq<char>, V>,
>
    decreases elems.len(),
{
    if elems.len() == 0 {
        Some(m)
    } else {
        match index_into(m, elems.drop_last(), entry) {
            None => None,
            Some(m2) => match entry(elems.last()) {
                None => None,
                Some(None) => Some(m2),
                Some(Some(kv)) => Some(m2.insert(kv.0, kv.1)),
            },
        }
    }
}

/// Every element has the fields that the index needs.
pub open spec fn complete<V>(elems: Seq<JsonValue>, entry: EntryFn<V>) -> bool {
    forall|i: int| 0 <= i < elems.len() ==> (#[trigger] entry(elems[i])) is Some
}

/// An index can be built exactly when every element has its fields,
/// whatever it is added to.
pub proof fn lemma_index_into_some<V>(m: Map<Seq<char>, V>, elems: Seq<JsonValue>, entry: EntryFn<V>)
    ensures
        index_into(m, elems, entry) is Some <==> complete(elems, entry),
    decreases elems.len(),
{
    if elems.len() > 0 {
        let init = elems.drop_last();
        lemma_index_into_some(m, init, entry);
        if complete(elems, entry) {
            assert forall|i: int| 0 <= i < init.len() implies (#[trigger] entry(init[i])) is Some by {
                assert(init[i] == elems[i]);
            }
            assert(entry(elems[elems.len() - 1]) is Some);
        }
        if index_into(m, elems, entry) is Some {
            assert forall|i: int| 0 <= i < elems.len() implies (#[trigger] entry(elems[i])) is Some by {
                if i < elems.len() - 1 {
                    assert(init[i] == elems[i]);
                }
            }
        }
    }
}

/// The key and value of an element's entry, when it adds one.
pub open spec fn adds<V>(entry: EntryFn<V>, e: JsonValue, key: Seq<char>, value: V) -> bool {
    entry(e) == Some(Some((key, value)))
}

/// Whether an element adds an entry for `key`.
pub open spec fn adds_key<V>(entry: EntryFn<V>, e: JsonValue, key: Seq<char>) -> bool {
    match entry(e) {
        Some(Some(kv)) => kv.0 == key,
        _ => false,
    }
}

/// Later elements win: when the element at `i` adds `key` with `value` and
/// no later element adds an entry for `key`, the index holds `value` for
/// `key`.
pub proof fn lemma_index_last_wins<V>(
    m: Map<Seq<char>, V>,
    elems: Seq<JsonValue>,
    entry: EntryFn<V>,
    i: int,
    key: Seq<char>,
    value: V,
)
    requires
        complete(elems, entry),
        0 <= i < elems.len(),
        adds(entry, elems[i], key, value),
        forall|j: int| i < j < elems.len() ==> !adds_key(entry, #[trigger] elems[j], key),
    ensures
        index_into(m, elems, entry) is Some,
        index_into(m, elems, entry)->0.contains_key(key),
        index_into(m, elems, entry)->0[key] == value,
    decreases elems.len(),
{
    lemma_index_into_some(m, elems, entry);
    let init = elems.drop_last();
    lemma_index_into_some(m, init, entry);
    assert forall|j: int| 0 <= j < init.len() implies (#[trigger] entry(init[j])) is Some by {
        assert(init[j] == elems[j]);
    }
    if i < elems.len() - 1 {
        assert forall|j: int| i < j < init.len() implies !adds_key(entry, #[trigger] init[j], key) by {
            assert(init[j] == elems[j]);
        }
        assert(init[i] == elems[i]);
        lemma_index_last_wins(m, init, entry, i, key, value);
        assert(!adds_key(entry, elems[elems.len() - 1], key));
    }
}

/// An index of `key` fields to `value` fields.
pub open spec fn pair_entry(key: Seq<char>, value: Seq<char>) -> EntryFn<Seq<char>> {
    |e: JsonValue|
        match (e.spec_str_field(key), e.spec_str_field(value)) {
            (Some(k), Some(v)) => Some(Some((k, v))),
            _ => None,
        }
}

/// Device types and assignments: `id` to `token`.
pub open spec fn id_token_entry() -> EntryFn<Seq<char>> {
    pair_entry("id"@, "token"@)
}

/// Commands: the `ping` commands, `deviceTypeId` to `token`; the others
/// are skipped whatever fields they have.
pub open spec fn ping_command_entry() -> EntryFn<Seq<char>> {
    |e: JsonValue|
        if e.spec_str_field("name"@) == Some("ping"@) {
            pair_entry("deviceTypeId"@, "token"@)(e)
        } else {
            Some(None)
        }
}

/// Devices: `id` to `token` and `deviceTypeId`.
pub open spec fn device_entry() -> EntryFn<(Seq<char>, Seq<char>)> {
    |e: JsonValue|
        match (
            e.spec_str_field("id"@),
            e.spec_str_field("token"@),
            e.spec_str_field("deviceTypeId"@),
        ) {
            (Some(k), Some(t), Some(d)) => Some(Some((k, (t, d)))),
            _ => None,
        }
}

/// Whether every element has text fields `key` and `value`.
pub fn pairs_complete(elems: &Vec<JsonValue>, key: &str, value: &str) -> (r: bool)
    ensures
        r == complete(elems@, pair_entry(key@, value@)),
{
    let mut i: usize = 0;
    while i < elems.len()
        invariant
            i <= elems@.len(),
            forall|j: int| 0 <= j < i ==> (#[trigger] pair_entry(key@, value@)(elems@[j])) is Some,
        decreases elems@.len() - i,
    {
        if elems[i].str_field(key).is_none() || elems[i].str_field(value).is_none() {
            assert(pair_entry(key@, value@)(elems@[i as int]) is None);
            return false;
        }
        i = i + 1;
    }
    true
}

/// Adds the `key` to `value` entries of `elems` to `map`, in order.
pub fn index_pairs(map: &mut StrMap<String>, elems: &Vec<JsonValue>, key: &str, value: &str)
    requires
        complete(elems@, pair_entry(key@, value@)),
    ensures
        Some(final(map)@) == index_into(old(map)@, elems@, pair_entry(key@, value@)),
{
    let ghost f = pair_entry(key@, value@);
    let ghost m0 = map@;
    let mut i: usize = 0;
    assert(elems@.take(0) =~= Seq::<JsonValue>::empty());
    while i < elems.len()
        invariant
            i <= elems@.len(),
            complete(elems@, f),
            f == pair_entry(key@, value@),
            Some(map@) == index_into(m0, elems@.take(i as int), f),
        decreases elems@.len() - i,
    {
        let e = &elems[i];
        assert(f(elems@[i as int]) is Some);
        let k = e.str_field(key).unwrap();
        let v = e.str_field(value).unwrap();
        assert(elems@.take(i + 1).drop_last() =~= elems@.take(i as int));
        map.insert(String::from_str(k), String::from_str(v));
        i = i + 1;
    }
    assert(elems@.take(elems@.len() as int) =~= elems@);
}

/// Whether every `ping` command has text fields `deviceTypeId` and
/// `token`.
pub fn ping_commands_complete(elems: &Vec<JsonValue>) -> (r: bool)
    ensures
        r == complete(elems@, ping_command_entry()),
{
    let mut i: usize = 0;
    while i < elems.len()
        invariant
            i <= elems@.len(),
            forall|j: int| 0 <= j < i ==> (#[trigger] ping_command_entry()(elems@[j])) is Some,
        decreases elems@.len() - i,
    {
        let e = &elems[i];
        if is_ping(e) && (e.str_field("deviceTypeId").is_none() || e.str_field("token").is_none()) {
            assert(ping_command_entry()(elems@[i as int]) is None);
            return false;
        }
        i = i + 1;
    }
    true
}

/// Whether the command is named `ping` (`element["name"] == "ping"`).
fn is_ping(e: &JsonValue) -> (r: bool)
    ensures
        r == (e.spec_str_field("name"@) == Some("ping"@)),
{
    match e.str_field("name") {
        Some(name) => str_eq(name, "ping"),
        None => false,
    }
}

/// Adds the `ping` commands of `elems` to `map`, in order.
pub fn index_ping_commands(map: &mut StrMap<String>, elems: &Vec<JsonValue>)
    requires
        complete(elems@, ping_command_entry()),
    ensures
        Some(final(map)@) == index_into(old(map)@, elems@, ping_command_entry()),
{
    let ghost f = ping_command_entry();
    let ghost m0 = map@;
    let mut i: usize = 0;
    assert(elems@.take(0) =~= Seq::<JsonValue>::empty());
    while i < elems.len()
        invariant
            i <= elems@.len(),
            complete(elems@, f),
            f == ping_command_entry(),
            Some(map@) == index_into(m0, elems@.take(i as int), f),
        decreases elems@.len() - i,
    {
        let e = &elems[i];
        assert(f(elems@[i as int]) is Some);
        assert(elems@.take(i + 1).drop_last() =~= elems@.take(i as int));
        if is_ping(e) {
            let k = e.str_field("deviceTypeId").unwrap();
            let v = e.str_field("token").unwrap();
            map.insert(String::from_str(k), String::from_str(v));
        }
        i = i + 1;
    }
    assert(elems@.take(elems@.len() as int) =~= elems@);
}

/// Whether every device has text fields `id`, `token` and `deviceTypeId`.
pub fn devices_complete(elems: &Vec<JsonValue>) -> (r: bool)
    ensures
        r == complete(elems@, device_entry()),
{
    let mut i: usize = 0;
    while i < elems.len()
        invariant
            i <= elems@.len(),
            forall|j: int| 0 <= j < i ==> (#[trigger] device_entry()(elems@[j])) is Some,
        decreases elems@.len() - i,
    {
        let e = &elems[i];
        if e.str_field("id").is_none() || e.str_field("token").is_none() || e.str_field(
            "deviceTypeId",
        ).is_none() {
            assert(device_entry()(elems@[i as int]) is None);
            return false;
        }
        i = i + 1;
    }
    true
}

/// Adds the devices of `elems` to `map`, in order.
pub fn index_devices(map: &mut StrMap<(String, String)>, elems: &Vec<JsonValue>)
    requires
        complete(elems@, device_entry()),
    ensures
        Some(final(map)@) == index_into(old(map)@, elems@, device_entry()),
{
    let ghost f = device_entry();
    let ghost m0 = map@;
    let mut i: usize = 0;
    assert(elems@.take(0) =~= Seq::<JsonValue>::empty());
    while i < elems.len()
        invariant
            i <= elems@.len(),
            complete(elems@, f),
            f == device_entry(),
            Some(map@) == index_into(m0, elems@.take(i as int), f),
        decreases elems@.len() - i,
    {
        let e = &elems[i];
        assert(f(elems@[i as int]) is Some);
        assert(elems@.take(i + 1).drop_last() =~= elems@.take(i as int));
        let k = e.str_field("id").unwrap();
        let t = e.str_field("token").unwrap();
        let d = e.str_field("deviceTypeId").unwrap();
        map.insert(String::from_str(k), (String::from_str(t), String::from_str(d)));
        i = i + 1;
    }
    assert(elems@.take(elems@.len() as int) =~= elems@);
}

/// The value under `key`, taken out of `v`; JSON's `null` when `v` is not
/// an object or has no such key (`v[key]`, with `v` given up).
pub fn take_field(v: JsonValue, key: &str) -> (r: JsonValue)
    ensures
        match v.spec_field(key@) {
            Some(x) => r == x,
            None => r == JsonValue::Null,
        },
{
    let ghost whole = v;
    match v {
        JsonValue::Object(mut entries) => {
            let mut i: usize = 0;
            while i < entries.len()
                invariant
                    whole == v,
                    whole == JsonValue::Object(entries),
                    i <= entries@.len(),
                    forall|j: int| 0 <= j < i ==> (#[trigger] entries@[j]).0@ != key@,
                decreases entries@.len() - i,
            {
                if str_eq(entries[i].0.as_str(), key) {
                    proof {
                        crate::json::lemma_key_position_first(entries@, key@, i as int);
                    }
                    let ghost before = entries@;
                    let (_, value) = entries.remove(i);
                    assert(value == before[i as int].1);
                    assert(whole.spec_field(key@) == Some(before[i as int].1));
                    return value;
                }
                i = i + 1;
            }
            assert(!exists|k: int|
                0 <= k < entries@.len() && (#[trigger] entries@[k]).0@ == key@);
            JsonValue::Null
        },
        _ => JsonValue::Null,
    }
}

} // verus!
