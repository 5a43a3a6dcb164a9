use sitewhere_controller::client::{
    InitError, LoginError, MessageError, Resource, SitewhereHttpClient,
};
use sitewhere_controller::json::JsonValue;

fn s(text: &str) -> JsonValue {
    JsonValue::Str(text.to_string())
}

fn num(text: &str) -> JsonValue {
    JsonValue::Number(text.to_string())
}

fn obj(entries: Vec<(&str, JsonValue)>) -> JsonValue {
    JsonValue::Object(entries.into_iter().map(|(k, v)| (k.to_string(), v)).collect())
}

fn listing(items: Vec<JsonValue>) -> JsonValue {
    obj(vec![("numResults", num("1")), ("results", JsonValue::Array(items))])
}

fn device(id: &str, token: &str, type_id: &str) -> JsonValue {
    obj(vec![("id", s(id)), ("token", s(token)), ("deviceTypeId", s(type_id))])
}

fn pair(id: &str, token: &str) -> JsonValue {
    obj(vec![("id", s(id)), ("token", s(token))])
}

fn command(name: &str, type_id: &str, token: &str) -> JsonValue {
    obj(vec![("name", s(name)), ("deviceTypeId", s(type_id)), ("token", s(token))])
}

fn gateway() -> SitewhereHttpClient {
    SitewhereHttpClient::new("http://gw/sitewhere/".to_string())
}

fn loaded() -> SitewhereHttpClient {
    let mut c = gateway();
    let r = c.init(
        listing(vec![device("dev-1", "tok-1", "type-1"), device("dev-2", "tok-2", "type-2")]),
        listing(vec![pair("type-1", "tt-1"), pair("type-2", "tt-2")]),
        listing(vec![
            command("ping", "type-1", "cmd-ping-1"),
            command("reboot", "type-1", "cmd-reboot-1"),
        ]),
        listing(vec![pair("asg-1", "asg-tok-1"), pair("asg-2", "asg-tok-2")]),
    );
    assert_eq!(r, Ok(()));
    c
}

fn event(event_type: Option<&str>, device_id: &str, assignment_id: &str) -> JsonValue {
    let mut entries = vec![
        ("eventDate", num("1700000000000123")),
        ("receivedDate", num("1700000000001")),
        ("deviceId", s(device_id)),
        ("deviceAssignmentId", s(assignment_id)),
    ];
    if let Some(t) = event_type {
        entries.push(("eventType", s(t)));
    }
    obj(entries)
}

#[test]
fn urls_are_built_on_the_gateway_address() {
    let c = gateway();
    assert_eq!(c.login_url(), "http://gw/sitewhere/authapi/jwt");
    assert_eq!(c.query_url(Resource::Devices.path()), "http://gw/sitewhere/api/devices?pageSize=1000");
    assert_eq!(c.invocation_url("asg"), "http://gw/sitewhere/api/assignments/asg/invocations");
}

#[test]
fn resource_paths() {
    assert_eq!(Resource::Devices.path(), "api/devices?pageSize=1000");
    assert_eq!(Resource::DeviceTypes.path(), "api/devicetypes?pageSize=1000");
    assert_eq!(Resource::Commands.path(), "api/commands?pageSize=1000");
    assert_eq!(Resource::Assignments.path(), "api/assignments?pageSize=1000");
}

#[test]
fn login_sets_the_session_headers() {
    let mut c = gateway();
    assert!(c.headers.is_none());
    assert_eq!(c.login("abc.def.ghi"), Ok(()));
    let headers = c.headers.clone().unwrap();
    let expected = vec![
        ("Authorization", "Bearer abc.def.ghi"),
        ("X-SiteWhere-Tenant-Id", "default"),
        ("X-SiteWhere-Tenant-Auth", "sitewhere1234567890"),
        ("Content-Type", "application/json;charset=UTF-8"),
    ];
    assert_eq!(headers.len(), expected.len());
    for ((n, v), (en, ev)) in headers.iter().zip(expected) {
        assert_eq!(n, en);
        assert_eq!(v, ev);
    }
}

#[test]
fn login_refuses_a_token_that_is_no_header_value() {
    let mut c = gateway();
    assert_eq!(c.login("abc\ndef"), Err(LoginError::InvalidHeaderValue));
    assert!(c.headers.is_none());
    assert_eq!(c.login("abc\u{7f}"), Err(LoginError::InvalidHeaderValue));
    assert_eq!(c.login("tab\tand \u{e9}"), Ok(()));
}

#[test]
fn init_indexes_the_listings() {
    let c = loaded();
    assert_eq!(c.map_devices.get("dev-1").map(|d| (d.0.as_str(), d.1.as_str())), Some(("tok-1", "type-1")));
    assert_eq!(c.map_device_types.get("type-2").map(|v| v.as_str()), Some("tt-2"));
    assert_eq!(c.map_assignments.get("asg-1").map(|v| v.as_str()), Some("asg-tok-1"));
    assert_eq!(c.map_commands.get("type-1").map(|v| v.as_str()), Some("cmd-ping-1"));
    assert_eq!(c.map_commands.len(), 1);
    assert!(matches!(&c.devices, Some(JsonValue::Array(items)) if items.len() == 2));
}

#[test]
fn init_later_elements_win() {
    let mut c = gateway();
    let r = c.init(
        listing(vec![device("d", "first", "t"), device("d", "second", "t")]),
        listing(vec![]),
        listing(vec![command("ping", "t", "c1"), command("ping", "t", "c2")]),
        listing(vec![]),
    );
    assert_eq!(r, Ok(()));
    assert_eq!(c.map_devices.get("d").map(|d| d.0.as_str()), Some("second"));
    assert_eq!(c.map_commands.get("t").map(|v| v.as_str()), Some("c2"));
    assert_eq!(c.map_devices.len(), 1);
}

#[test]
fn init_skips_other_commands_whatever_their_fields() {
    let mut c = gateway();
    let r = c.init(
        listing(vec![]),
        listing(vec![]),
        listing(vec![obj(vec![("name", s("reboot"))]), obj(vec![("token", s("x"))])]),
        listing(vec![]),
    );
    assert_eq!(r, Ok(()));
    assert_eq!(c.map_commands.len(), 0);
}

#[test]
fn init_needs_arrays_of_results() {
    let mut c = gateway();
    let r = c.init(
        listing(vec![]),
        obj(vec![("results", s("none"))]),
        obj(vec![]),
        listing(vec![]),
    );
    assert_eq!(r, Err(InitError::NotAnArray(Resource::DeviceTypes)));
    assert!(c.devices.is_none());
    let r = c.init(JsonValue::Null, listing(vec![]), listing(vec![]), listing(vec![]));
    assert_eq!(r, Err(InitError::NotAnArray(Resource::Devices)));
    let r = c.init(listing(vec![]), listing(vec![]), listing(vec![]), obj(vec![]));
    assert_eq!(r, Err(InitError::NotAnArray(Resource::Assignments)));
}

#[test]
fn init_needs_text_fields() {
    let mut c = gateway();
    let r = c.init(
        listing(vec![obj(vec![("id", s("d"))])]),
        listing(vec![pair("t", "tt")]),
        listing(vec![obj(vec![("name", s("ping")), ("token", s("c"))])]),
        listing(vec![obj(vec![("id", num("1")), ("token", s("a"))])]),
    );
    assert_eq!(r, Err(InitError::MissingField(Resource::Assignments)));
    assert_eq!(c.map_device_types.len(), 0);
    let r = c.init(
        listing(vec![obj(vec![("id", s("d"))])]),
        listing(vec![]),
        listing(vec![obj(vec![("name", s("ping")), ("token", s("c"))])]),
        listing(vec![]),
    );
    assert_eq!(r, Err(InitError::MissingField(Resource::Commands)));
    let r = c.init(listing(vec![obj(vec![("id", s("d"))])]), listing(vec![]), listing(vec![]), listing(vec![]));
    assert_eq!(r, Err(InitError::MissingField(Resource::Devices)));
}

#[test]
fn an_alert_yields_a_ping_command_and_a_line() {
    let c = loaded();
    let out = c.process_message(1700000000000999, &event(Some("Alert"), "dev-1", "asg-2")).unwrap();
    assert_eq!(out.line, "tok-1,Alert,1700000000000123,1700000000001000,1700000000000999");
    let cmd = out.command.unwrap();
    assert_eq!(cmd.command_id, "cmd-ping-1");
    assert_eq!(cmd.assignment_token, "asg-tok-2");
    assert_eq!(cmd.token, "asg-tok-2");
    assert!(matches!(&cmd.parameter_values, JsonValue::Object(e) if e.is_empty()));
    match &cmd.metadata {
        JsonValue::Object(e) => {
            assert_eq!(e.len(), 2);
            assert_eq!(e[0].0, "precision");
            assert!(matches!(&e[0].1, JsonValue::Str(t) if t == "mu"));
            assert_eq!(e[1].0, "originEventDate");
            assert!(matches!(&e[1].1, JsonValue::Number(t) if t == "1700000000000123"));
        }
        _ => panic!("metadata is an object"),
    }
}

#[test]
fn other_events_only_yield_a_line() {
    let c = loaded();
    let out = c.process_message(5, &event(Some("Measurement"), "dev-2", "unknown")).unwrap();
    assert!(out.command.is_none());
    assert_eq!(out.line, "tok-2,Measurement,1700000000000123,1700000000001000,5");
    let out = c.process_message(6, &event(None, "dev-2", "unknown")).unwrap();
    assert!(out.command.is_none());
    assert_eq!(out.line, "tok-2,None,1700000000000123,1700000000001000,6");
}

#[test]
fn errors_where_the_event_cannot_be_handled() {
    let c = loaded();
    let bad_date = obj(vec![("eventDate", s("1")), ("receivedDate", num("1")), ("deviceId", s("dev-1"))]);
    assert_eq!(c.process_message(0, &bad_date).err(), Some(MessageError::InvalidEventDate));
    let bad_received = obj(vec![("eventDate", num("1")), ("receivedDate", num("2.5")), ("deviceId", s("dev-1"))]);
    assert_eq!(c.process_message(0, &bad_received).err(), Some(MessageError::InvalidReceivedDate));
    let huge_received = obj(vec![
        ("eventDate", num("1")),
        ("receivedDate", num("340282366920938463463374607431768212")),
        ("deviceId", s("dev-1")),
    ]);
    assert_eq!(c.process_message(0, &huge_received).err(), Some(MessageError::ReceivedDateOverflow));
    assert_eq!(
        c.process_message(0, &event(Some("Alert"), "nobody", "asg-1")).err(),
        Some(MessageError::UnknownDevice)
    );
    assert_eq!(
        c.process_message(0, &event(Some("Alert"), "dev-1", "nowhere")).err(),
        Some(MessageError::UnknownAssignment)
    );
    assert_eq!(
        c.process_message(0, &event(Some("Alert"), "dev-2", "asg-1")).err(),
        Some(MessageError::UnknownCommand)
    );
    assert_eq!(
        c.process_message(0, &event(Some("Info"), "nobody", "asg-1")).err(),
        Some(MessageError::UnknownDevice)
    );
    let no_device = obj(vec![("eventDate", num("1")), ("receivedDate", num("1"))]);
    assert_eq!(c.process_message(0, &no_device).err(), Some(MessageError::MissingDeviceId));
    let no_assignment = obj(vec![
        ("eventDate", num("1")),
        ("receivedDate", num("1")),
        ("deviceId", s("dev-1")),
        ("eventType", s("Alert")),
    ]);
    assert_eq!(c.process_message(0, &no_assignment).err(), Some(MessageError::MissingAssignmentId));
    let late_alert = obj(vec![
        ("eventDate", num("18446744073709551616")),
        ("receivedDate", num("1")),
        ("deviceId", s("dev-1")),
        ("deviceAssignmentId", s("asg-1")),
        ("eventType", s("Alert")),
    ]);
    assert_eq!(c.process_message(0, &late_alert).err(), Some(MessageError::EventDateOutOfRange));
}

#[test]
fn command_payload_carries_the_invocation() {
    let c = gateway();
    let metadata = JsonValue::Object(vec![("precision".to_string(), s("mu"))]);
    let (url, payload) = c.send_command_payload(
        "cmd".to_string(),
        "asg".to_string(),
        "target".to_string(),
        JsonValue::Object(vec![]),
        metadata,
        1234,
    );
    assert_eq!(url, "http://gw/sitewhere/api/assignments/asg/invocations");
    let entries = match payload {
        JsonValue::Object(e) => e,
        _ => panic!("payload is an object"),
    };
    let keys: Vec<&str> = entries.iter().map(|(k, _)| k.as_str()).collect();
    assert_eq!(
        keys,
        vec![
            "commandToken",
            "initiator",
            "initiatorId",
            "metadata",
            "parameterValues",
            "target",
            "eventDate",
            "targetId",
            "updateState"
        ]
    );
    assert!(matches!(&entries[0].1, JsonValue::Str(t) if t == "cmd"));
    assert!(matches!(&entries[1].1, JsonValue::Str(t) if t == "REST"));
    assert!(matches!(&entries[2].1, JsonValue::Str(t) if t == "admin"));
    assert!(matches!(&entries[5].1, JsonValue::Str(t) if t == "Assignment"));
    assert!(matches!(&entries[6].1, JsonValue::Str(t) if t == "1234"));
    assert!(matches!(&entries[7].1, JsonValue::Str(t) if t == "target"));
    assert!(matches!(&entries[8].1, JsonValue::Bool(true)));
}
