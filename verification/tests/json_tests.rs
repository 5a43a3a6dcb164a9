use sitewhere_controller::json::{str_eq, JsonValue};
use sitewhere_controller::strmap::StrMap;

fn s(text: &str) -> JsonValue {
    JsonValue::Str(text.to_string())
}

fn num(text: &str) -> JsonValue {
    JsonValue::Number(text.to_string())
}

fn obj(entries: Vec<(&str, JsonValue)>) -> JsonValue {
    JsonValue::Object(entries.into_iter().map(|(k, v)| (k.to_string(), v)).collect())
}

#[test]
fn get_finds_the_first_entry_with_the_key() {
    let v = obj(vec![("a", s("x")), ("b", s("y")), ("a", s("z"))]);
    assert!(matches!(v.get("a"), Some(JsonValue::Str(t)) if t == "x"));
    assert!(matches!(v.get("b"), Some(JsonValue::Str(t)) if t == "y"));
    assert!(v.get("c").is_none());
}

#[test]
fn get_on_a_non_object_is_null() {
    assert!(s("a").get("a").is_none());
    assert!(JsonValue::Array(vec![]).get("a").is_none());
    assert!(JsonValue::Null.get("a").is_none());
}

#[test]
fn as_str_only_on_strings() {
    assert_eq!(s("ping").as_str(), Some("ping"));
    assert_eq!(num("1").as_str(), None);
    assert_eq!(JsonValue::Bool(true).as_str(), None);
}

#[test]
fn eq_str_compares_string_values() {
    assert!(s("ping").eq_str("ping"));
    assert!(!s("Ping").eq_str("ping"));
    assert!(!num("1").eq_str("1"));
}

#[test]
fn as_array_only_on_arrays() {
    assert_eq!(JsonValue::Array(vec![s("a")]).as_array().map(|v| v.len()), Some(1));
    assert!(obj(vec![]).as_array().is_none());
}

#[test]
fn str_field_reads_text_fields() {
    let v = obj(vec![("id", s("d1")), ("n", num("3"))]);
    assert_eq!(v.str_field("id"), Some("d1"));
    assert_eq!(v.str_field("n"), None);
    assert_eq!(v.str_field("missing"), None);
}

#[test]
fn u128_field_reads_integer_numbers() {
    let v = obj(vec![
        ("date", num("1700000000123456")),
        ("padded", num(" 42 \n")),
        ("float", num("1.5")),
        ("negative", num("-5")),
        ("text", s("12")),
        ("huge", num("340282366920938463463374607431768211456")),
    ]);
    assert_eq!(v.u128_field("date"), Some(1700000000123456));
    assert_eq!(v.u128_field("padded"), Some(42));
    assert_eq!(v.u128_field("float"), None);
    assert_eq!(v.u128_field("negative"), None);
    assert_eq!(v.u128_field("text"), None);
    assert_eq!(v.u128_field("huge"), None);
    assert_eq!(v.u128_field("missing"), None);
}

#[test]
fn str_eq_by_characters() {
    assert!(str_eq("", ""));
    assert!(str_eq("héllo", "héllo"));
    assert!(!str_eq("hello", "hell"));
    assert!(!str_eq("a", "b"));
}

#[test]
fn strmap_insert_and_get() {
    let mut m: StrMap<String> = StrMap::new();
    assert_eq!(m.len(), 0);
    assert!(m.get("k").is_none());
    m.insert("k".to_string(), "v1".to_string());
    m.insert("j".to_string(), "w".to_string());
    assert_eq!(m.get("k").map(|v| v.as_str()), Some("v1"));
    m.insert("k".to_string(), "v2".to_string());
    assert_eq!(m.get("k").map(|v| v.as_str()), Some("v2"));
    assert_eq!(m.get("j").map(|v| v.as_str()), Some("w"));
    assert_eq!(m.len(), 2);
}

use sitewhere_controller::inventory::{
    devices_complete, index_devices, index_pairs, index_ping_commands, pairs_complete,
    ping_commands_complete, take_field,
};

#[test]
fn take_field_gives_the_value_or_null() {
    let v = obj(vec![("results", JsonValue::Array(vec![s("a")])), ("n", num("1"))]);
    assert!(matches!(take_field(v, "results"), JsonValue::Array(items) if items.len() == 1));
    let v = obj(vec![("n", num("1"))]);
    assert!(matches!(take_field(v, "results"), JsonValue::Null));
    assert!(matches!(take_field(s("x"), "results"), JsonValue::Null));
}

#[test]
fn indexes_pairs_in_order() {
    let elems = vec![
        obj(vec![("id", s("a")), ("token", s("1"))]),
        obj(vec![("id", s("b")), ("token", s("2"))]),
        obj(vec![("id", s("a")), ("token", s("3"))]),
    ];
    assert!(pairs_complete(&elems, "id", "token"));
    assert!(!pairs_complete(&elems, "id", "name"));
    let mut m: StrMap<String> = StrMap::new();
    m.insert("z".to_string(), "0".to_string());
    index_pairs(&mut m, &elems, "id", "token");
    assert_eq!(m.len(), 3);
    assert_eq!(m.get("a").map(|v| v.as_str()), Some("3"));
    assert_eq!(m.get("b").map(|v| v.as_str()), Some("2"));
    assert_eq!(m.get("z").map(|v| v.as_str()), Some("0"));
}

#[test]
fn indexes_ping_commands_and_devices() {
    let commands = vec![
        obj(vec![("name", s("ping")), ("deviceTypeId", s("t")), ("token", s("c"))]),
        obj(vec![("name", s("pong"))]),
    ];
    assert!(ping_commands_complete(&commands));
    assert!(!ping_commands_complete(&vec![obj(vec![("name", s("ping"))])]));
    let mut m: StrMap<String> = StrMap::new();
    index_ping_commands(&mut m, &commands);
    assert_eq!(m.len(), 1);
    assert_eq!(m.get("t").map(|v| v.as_str()), Some("c"));

    let devices = vec![obj(vec![("id", s("d")), ("token", s("k")), ("deviceTypeId", s("t"))])];
    assert!(devices_complete(&devices));
    assert!(!devices_complete(&vec![obj(vec![("id", s("d")), ("token", s("k"))])]));
    let mut dm: StrMap<(String, String)> = StrMap::new();
    index_devices(&mut dm, &devices);
    assert_eq!(dm.get("d").map(|v| (v.0.as_str(), v.1.as_str())), Some(("k", "t")));
}
