//! The state and the decisions of the SiteWhere REST client: where it sends
//! its requests, which headers it sends, how it indexes the inventory it
//! loads, and what it does with each device event.

use vstd::prelude::*;
use vstd::string::*;
use vstd::utf8::*;
use crate::inventory::{
    adds_key, complete, device_entry, devices_complete, id_token_entry, index_devices, index_into,
    index_pairs, index_ping_commands, lemma_index_into_some, lemma_index_last_wins,
    pairs_complete, ping_command_entry, ping_commands_complete, take_field,
};
use crate::json::{entries_view, entry_lookup, push_entry, str_eq, JsonValue, JsonView};
use crate::pipeline::{collect, lemma_collect_until_marker};
use crate::strmap::StrMap;
use crate::text::{decimal, lemma_decimal_roundtrip, parse_decimal, u128_to_decimal};

verus! {

/// A byte that `http` accepts in a header value: visible ASCII, a space, a
/// tab, or any byte of 0x80 and above.
pub open spec fn header_byte_valid(b: u8) -> bool {
    (b >= 32 && b != 127) || b == 9
}

/// Every byte of `bytes` may stand in a header value.
pub open spec fn header_value_valid(bytes: Seq<u8>) -> bool {
    forall|i: int| 0 <= i < bytes.len() ==> header_byte_valid(#[trigger] bytes[i])
}

/// `reqwest::header::HeaderValue::from_str` (defined in `http`), which the
/// text of a header passes through. Its source checks each byte of the
/// text and refuses the text if one is neither `>= 32 && != 127` nor a
/// tab; the contract claims that the call succeeds exactly then.
#[verifier::external_body]
fn header_value_accepts(text: &str) -> (r: bool)
    ensures
        r == header_value_valid(encode_utf8(text@)),
{
    reqwest::header::HeaderValue::from_str(text).is_ok()
}

/// Text made of printable ASCII characters (space to tilde).
pub open spec fn printable_ascii(s: Seq<char>) -> bool {
    forall|i: int| 0 <= i < s.len() ==> ' ' <= #[trigger] s[i] && s[i] <= '~'
}

/// Printable ASCII text is a valid header value.
pub proof fn lemma_printable_header_value(s: Seq<char>)
    requires
        printable_ascii(s),
    ensures
        header_value_valid(encode_utf8(s)),
{
    assert(is_ascii_chars(s));
    is_ascii_chars_encode_utf8(s);
    assert forall|i: int| 0 <= i < encode_utf8(s).len() implies header_byte_valid(
        #[trigger] encode_utf8(s)[i],
    ) by {
        assert(s[i] as u8 == encode_utf8(s)[i]);
    }
}

/// Name and text of each header, in order.
pub open spec fn headers_view(headers: Seq<(String, String)>) -> Seq<(Seq<char>, Seq<char>)> {
    headers.map_values(|h: (String, String)| (h.0@, h.1@))
}

/// The value of the authorization header for a session token.
pub open spec fn bearer(jwt: Seq<char>) -> Seq<char> {
    "Bearer "@ + jwt
}

/// The headers that every request of a session with token `jwt` carries.
pub open spec fn session_headers(jwt: Seq<char>) -> Seq<(Seq<char>, Seq<char>)> {
    seq![
        ("Authorization"@, bearer(jwt)),
        ("X-SiteWhere-Tenant-Id"@, "default"@),
        ("X-SiteWhere-Tenant-Auth"@, "sitewhere1234567890"@),
        ("Content-Type"@, "application/json;charset=UTF-8"@),
    ]
}

/// A header value that `http` refuses.
#[derive(Debug, PartialEq, Eq, Structural)]
pub enum LoginError {
    InvalidHeaderValue,
}

/// The four inventories that the client loads.
#[derive(Debug, Clone, Copy, PartialEq, Eq, Structural)]
pub enum Resource {
    Devices,
    DeviceTypes,
    Commands,
    Assignments,
}

impl Resource {
    /// The API path that lists the resource.
    pub open spec fn spec_path(self) -> Seq<char> {
        match self {
            Resource::Devices => "api/devices?pageSize=1000"@,
            Resource::DeviceTypes => "api/devicetypes?pageSize=1000"@,
            Resource::Commands => "api/commands?pageSize=1000"@,
            Resource::Assignments => "api/assignments?pageSize=1000"@,
        }
    }

    /// The API path that lists the resource (a page of up to 1000).
    pub fn path(self) -> (p: &'static str)
        ensures
            p@ == self.spec_path(),
    {
        match self {
            Resource::Devices => "api/devices?pageSize=1000",
            Resource::DeviceTypes => "api/devicetypes?pageSize=1000",
            Resource::Commands => "api/commands?pageSize=1000",
            Resource::Assignments => "api/assignments?pageSize=1000",
        }
    }
}

/// Why the loaded inventories cannot be indexed.
#[derive(Debug, PartialEq, Eq, Structural)]
pub enum InitError {
    /// The `results` of the listing are not an array.
    NotAnArray(Resource),
    /// An element of the listing lacks a text field that its index needs.
    MissingField(Resource),
}

/// The `results` of a listing; JSON's `null` when there are none.
pub open spec fn listing_results(response: JsonValue) -> JsonValue {
    match response.spec_field("results"@) {
        Some(v) => v,
        None => JsonValue::Null,
    }
}

/// The elements of an array value.
pub open spec fn array_items(v: JsonValue) -> Option<Seq<JsonValue>> {
    match v {
        JsonValue::Array(items) => Some(items@),
        _ => None,
    }
}

/// The first failure that indexing the four listings meets: the results
/// are checked to be arrays in the order devices, device types, commands,
/// assignments; then the elements are indexed in the order device types,
/// assignments, commands, devices.
pub open spec fn init_error(
    devices: JsonValue,
    device_types: JsonValue,
    commands: JsonValue,
    assignments: JsonValue,
) -> Option<InitError> {
    if array_items(devices) is None {
        Some(InitError::NotAnArray(Resource::Devices))
    } else if array_items(device_types) is None {
        Some(InitError::NotAnArray(Resource::DeviceTypes))
    } else if array_items(commands) is None {
        Some(InitError::NotAnArray(Resource::Commands))
    } else if array_items(assignments) is None {
        Some(InitError::NotAnArray(Resource::Assignments))
    } else if !complete(array_items(device_types)->0, id_token_entry()) {
        Some(InitError::MissingField(Resource::DeviceTypes))
    } else if !complete(array_items(assignments)->0, id_token_entry()) {
        Some(InitError::MissingField(Resource::Assignments))
    } else if !complete(array_items(commands)->0, ping_command_entry()) {
        Some(InitError::MissingField(Resource::Commands))
    } else if !complete(array_items(devices)->0, device_entry()) {
        Some(InitError::MissingField(Resource::Devices))
    } else {
        None
    }
}

/// Why a device event cannot be handled.
#[derive(Debug, PartialEq, Eq, Structural)]
pub enum MessageError {
    /// `eventDate` does not render as an unsigned integer.
    InvalidEventDate,
    /// `receivedDate` does not render as an unsigned integer.
    InvalidReceivedDate,
    /// `receivedDate` in microseconds does not fit in a `u128`.
    ReceivedDateOverflow,
    /// An alert's `eventDate` does not fit in the JSON number of the
    /// command's metadata (a `u64`).
    EventDateOutOfRange,
    /// `deviceId` is not text.
    MissingDeviceId,
    /// `deviceId` names no known device.
    UnknownDevice,
    /// An alert's `deviceAssignmentId` is not text.
    MissingAssignmentId,
    /// An alert's `deviceAssignmentId` names no known assignment.
    UnknownAssignment,
    /// The alerting device's type has no `ping` command.
    UnknownCommand,
}

/// A command to invoke in answer to an alert.
pub struct CommandInvocation {
    pub command_id: String,
    pub assignment_token: String,
    pub token: String,
    pub parameter_values: JsonValue,
    pub metadata: JsonValue,
}

/// The mathematical value of a command invocation.
pub struct InvocationView {
    pub command_id: Seq<char>,
    pub assignment_token: Seq<char>,
    pub token: Seq<char>,
    pub parameter_values: JsonView,
    pub metadata: JsonView,
}

impl View for CommandInvocation {
    type V = InvocationView;

    open spec fn view(&self) -> InvocationView {
        InvocationView {
            command_id: self.command_id@,
            assignment_token: self.assignment_token@,
            token: self.token@,
            parameter_values: self.parameter_values@,
            metadata: self.metadata@,
        }
    }
}

/// What handling one device event gives: the command to invoke, for an
/// alert, and the line that reports the event.
pub struct MessageOutcome {
    pub command: Option<CommandInvocation>,
    pub line: String,
}

impl View for MessageOutcome {
    type V = (Option<InvocationView>, Seq<char>);

    open spec fn view(&self) -> (Option<InvocationView>, Seq<char>) {
        (
            match self.command {
                Some(c) => Some(c@),
                None => None,
            },
            self.line@,
        )
    }
}

/// The metadata of the command that answers an alert dated `event_date`.
pub open spec fn alert_metadata(event_date: nat) -> JsonView {
    JsonView::Object(
        seq![
            ("precision"@, JsonView::Str("mu"@)),
            ("originEventDate"@, JsonView::Number(decimal(event_date))),
        ],
    )
}

/// The line that reports an event: device token, event type, event date,
/// received date and arrival time, separated by commas.
pub open spec fn result_line(
    device_token: Seq<char>,
    event_type: Seq<char>,
    event_date: nat,
    received_date: nat,
    now: nat,
) -> Seq<char> {
    device_token + ","@ + event_type + ","@ + decimal(event_date) + ","@ + decimal(received_date)
        + ","@ + decimal(now)
}

/// The body of the request that invokes command `command_id` on the
/// assignment `token` at `now` (microseconds since the Unix epoch).
pub open spec fn command_payload(
    command_id: Seq<char>,
    token: Seq<char>,
    parameter_values: JsonView,
    metadata: JsonView,
    now: nat,
) -> JsonView {
    JsonView::Object(
        seq![
            ("commandToken"@, JsonView::Str(command_id)),
            ("initiator"@, JsonView::Str("REST"@)),
            ("initiatorId"@, JsonView::Str("admin"@)),
            ("metadata"@, metadata),
            ("parameterValues"@, parameter_values),
            ("target"@, JsonView::Str("Assignment"@)),
            ("eventDate"@, JsonView::Str(decimal(now))),
            ("targetId"@, JsonView::Str(token)),
            ("updateState"@, JsonView::Bool(true)),
        ],
    )
}

/// The REST side of the controller: the gateway's address, the session
/// headers, the loaded inventories and their indexes.
pub struct SitewhereHttpClient {
    pub api_gateway_url: String,
    pub headers: Option<Vec<(String, String)>>,
    pub devices: Option<JsonValue>,
    pub assignments: Option<JsonValue>,
    pub device_types: Option<JsonValue>,
    pub commands: Option<JsonValue>,
    /// Device type id to device type token.
    pub map_device_types: StrMap<String>,
    /// Assignment id to assignment token.
    pub map_assignments: StrMap<String>,
    /// Device type id to the token of its `ping` command.
    pub map_commands: StrMap<String>,
    /// Device id to device token and device type id.
    pub map_devices: StrMap<(String, String)>,
}

/// Renders a date and parses it back (`date.to_string().parse()`), which
/// gives the date itself.
fn reparse(date: u128) -> (r: u128)
    ensures
        r == date,
{
    let text = u128_to_decimal(date);
    proof {
        lemma_decimal_roundtrip(date as nat, u128::MAX as nat);
    }
    match parse_decimal(text.as_str(), u128::MAX) {
        Some(v) => v,
        None => {
            proof {
                assert(false);
            }
            date
        },
    }
}

impl SitewhereHttpClient {
    /// A client of the gateway at `api_gateway_url`, with no session and
    /// nothing loaded.
    pub fn new(api_gateway_url: String) -> (c: Self)
        ensures
            c.api_gateway_url == api_gateway_url,
            c.headers is None,
            c.devices is None,
            c.assignments is None,
            c.device_types is None,
            c.commands is None,
            c.map_device_types@ == Map::<Seq<char>, Seq<char>>::empty(),
            c.map_assignments@ == Map::<Seq<char>, Seq<char>>::empty(),
            c.map_commands@ == Map::<Seq<char>, Seq<char>>::empty(),
            c.map_devices@ == Map::<Seq<char>, (Seq<char>, Seq<char>)>::empty(),
    {
        SitewhereHttpClient {
            api_gateway_url,
            headers: None,
            devices: None,
            assignments: None,
            device_types: None,
            commands: None,
            map_device_types: StrMap::new(),
            map_assignments: StrMap::new(),
            map_commands: StrMap::new(),
            map_devices: StrMap::new(),
        }
    }

    /// The gateway address followed by `path`.
    pub fn query_url(&self, path: &str) -> (url: String)
        ensures
            url@ == self.api_gateway_url@ + path@,
    {
        self.api_gateway_url.clone().concat(path)
    }

    /// Where the client asks for its session token.
    pub fn login_url(&self) -> (url: String)
        ensures
            url@ == self.api_gateway_url@ + "authapi/jwt"@,
    {
        self.query_url("authapi/jwt")
    }

    /// Where the invocations of a command for an assignment are posted.
    pub fn invocation_url(&self, assignment_token: &str) -> (url: String)
        ensures
            url@ == self.api_gateway_url@ + "api/assignments/"@ + assignment_token@
                + "/invocations"@,
    {
        self.api_gateway_url.clone().concat("api/assignments/").concat(assignment_token).concat(
            "/invocations",
        )
    }

    /// Where and what to post to invoke command `command_id` on the
    /// assignment `assignment_token` (targeting `token`), stamped with `now`
    /// in microseconds since the Unix epoch.
    pub fn send_command_payload(
        &self,
        command_id: String,
        assignment_token: String,
        token: String,
        parameter_values: JsonValue,
        metadata: JsonValue,
        now: u128,
    ) -> (r: (String, JsonValue))
        ensures
            r.0@ == self.api_gateway_url@ + "api/assignments/"@ + assignment_token@
                + "/invocations"@,
            r.1@ == command_payload(
                command_id@,
                token@,
                parameter_values@,
                metadata@,
                now as nat,
            ),
            r.1@ is Object,
            entry_lookup(r.1@->Object_0, "commandToken"@) == Some(JsonView::Str(command_id@)),
            entry_lookup(r.1@->Object_0, "metadata"@) == Some(metadata@),
            entry_lookup(r.1@->Object_0, "parameterValues"@) == Some(parameter_values@),
            entry_lookup(r.1@->Object_0, "eventDate"@) == Some(JsonView::Str(decimal(now as nat))),
            entry_lookup(r.1@->Object_0, "targetId"@) == Some(JsonView::Str(token@)),
    {
        let mut es: Vec<(String, JsonValue)> = Vec::new();
        let ghost cid = command_id@;
        let ghost tok = token@;
        let ghost pv = parameter_values@;
        let ghost md = metadata@;
        push_entry(&mut es, "commandToken", JsonValue::Str(command_id));
        push_entry(&mut es, "initiator", JsonValue::Str(String::from_str("REST")));
        push_entry(&mut es, "initiatorId", JsonValue::Str(String::from_str("admin")));
        push_entry(&mut es, "metadata", metadata);
        push_entry(&mut es, "parameterValues", parameter_values);
        push_entry(&mut es, "target", JsonValue::Str(String::from_str("Assignment")));
        push_entry(&mut es, "eventDate", JsonValue::Str(u128_to_decimal(now)));
        push_entry(&mut es, "targetId", JsonValue::Str(token));
        push_entry(&mut es, "updateState", JsonValue::Bool(true));
        let url = self.invocation_url(assignment_token.as_str());
        assert(entries_view(Seq::<(String, JsonValue)>::empty()) =~= Seq::<(Seq<char>, JsonView)>::empty());
        assert(entries_view(es@) =~= seq![
            ("commandToken"@, JsonView::Str(cid)),
            ("initiator"@, JsonView::Str("REST"@)),
            ("initiatorId"@, JsonView::Str("admin"@)),
            ("metadata"@, md),
            ("parameterValues"@, pv),
            ("target"@, JsonView::Str("Assignment"@)),
            ("eventDate"@, JsonView::Str(decimal(now as nat))),
            ("targetId"@, JsonView::Str(tok)),
            ("updateState"@, JsonView::Bool(true)),
        ]);
        let payload = JsonValue::Object(es);
        proof {
            law_command_payload_entries(cid, tok, pv, md, now as nat);
        }
        (url, payload)
    }

    /// Opens a session with the token `jwt` that the gateway handed out:
    /// the session headers become those of `session_headers(jwt)`, once
    /// `http` has accepted each header value.
    pub fn login(&mut self, jwt: &str) -> (r: Result<(), LoginError>)
        ensures
            r is Ok <==> header_value_valid(encode_utf8(bearer(jwt@))),
            r is Ok ==> final(self).headers is Some && headers_view(final(self).headers->0@)
                == session_headers(jwt@),
            r is Ok ==> ({
                let auth = final(self).headers->0@[0];
                &&& auth.0@ == "Authorization"@
                &&& auth.1@.len() == jwt@.len() + 7
                &&& auth.1@.skip(7) == jwt@
            }),
            r is Ok ==> final(self).api_gateway_url == old(self).api_gateway_url
                && final(self).devices == old(self).devices
                && final(self).assignments == old(self).assignments
                && final(self).device_types == old(self).device_types
                && final(self).commands == old(self).commands
                && final(self).map_device_types == old(self).map_device_types
                && final(self).map_assignments == old(self).map_assignments
                && final(self).map_commands == old(self).map_commands
                && final(self).map_devices == old(self).map_devices,
            r is Err ==> *final(self) == *old(self),
    {
        let authorization = String::from_str("Bearer ").concat(jwt);
        let tenant_id = "default";
        let tenant_auth = "sitewhere1234567890";
        let content_type = "application/json;charset=UTF-8";
        proof {
            reveal_strlit("default");
            reveal_strlit("sitewhere1234567890");
            reveal_strlit("application/json;charset=UTF-8");
            lemma_printable_header_value(tenant_id@);
            lemma_printable_header_value(tenant_auth@);
            lemma_printable_header_value(content_type@);
        }
        if !header_value_accepts(authorization.as_str()) || !header_value_accepts(tenant_id)
            || !header_value_accepts(tenant_auth) || !header_value_accepts(content_type) {
            return Err(LoginError::InvalidHeaderValue);
        }
        let mut headers: Vec<(String, String)> = Vec::new();
        headers.push((String::from_str("Authorization"), authorization));
        headers.push((String::from_str("X-SiteWhere-Tenant-Id"), String::from_str(tenant_id)));
        headers.push(
            (String::from_str("X-SiteWhere-Tenant-Auth"), String::from_str(tenant_auth)),
        );
        headers.push((String::from_str("Content-Type"), String::from_str(content_type)));
        assert(headers_view(headers@) =~= session_headers(jwt@));
        proof {
            law_session_authorization(jwt@);
            assert(headers_view(headers@)[0] == (headers@[0].0@, headers@[0].1@));
        }
        self.headers = Some(headers);
        Ok(())
    }

    /// The command that answers an alert with the given metadata, when
    /// `message` names a known device, a known assignment, and a device type
    /// with a `ping` command.
    pub open spec fn spec_alert_command(self, message: JsonValue, event_date: nat) -> Result<
        InvocationView,
        MessageError,
    > {
        if event_date > u64::MAX {
            Err(MessageError::EventDateOutOfRange)
        } else {
            match message.spec_str_field("deviceId"@) {
                None => Err(MessageError::MissingDeviceId),
                Some(device_id) => if !self.map_devices@.contains_key(device_id) {
                    Err(MessageError::UnknownDevice)
                } else {
                    let device_type_id = self.map_devices@[device_id].1;
                    match message.spec_str_field("deviceAssignmentId"@) {
                        None => Err(MessageError::MissingAssignmentId),
                        Some(assignment_id) => if !self.map_assignments@.contains_key(
                            assignment_id,
                        ) {
                            Err(MessageError::UnknownAssignment)
                        } else if !self.map_commands@.contains_key(device_type_id) {
                            Err(MessageError::UnknownCommand)
                        } else {
                            let assignment_token = self.map_assignments@[assignment_id];
                            Ok(
                                InvocationView {
                                    command_id: self.map_commands@[device_type_id],
                                    assignment_token: assignment_token,
                                    token: assignment_token,
                                    parameter_values: JsonView::Object(seq![]),
                                    metadata: alert_metadata(event_date),
                                },
                            )
                        },
                    }
                },
            }
        }
    }

    /// What handling `message`, which arrived at `now`, gives: its dates
    /// are read from `eventDate` and `receivedDate` (the latter in
    /// milliseconds, scaled to microseconds); an `Alert` event yields the
    /// `ping` command of the device's type for the device's assignment;
    /// every event yields the line that reports it, with `None` for an
    /// event type that is not text.
    pub open spec fn spec_process(self, now: nat, message: JsonValue) -> Result<
        (Option<InvocationView>, Seq<char>),
        MessageError,
    > {
        match message.spec_u128_field("eventDate"@) {
            None => Err(MessageError::InvalidEventDate),
            Some(event_date) => match message.spec_u128_field("receivedDate"@) {
                None => Err(MessageError::InvalidReceivedDate),
                Some(received) => if received * 1000 > u128::MAX {
                    Err(MessageError::ReceivedDateOverflow)
                } else {
                    let event_type = message.spec_str_field("eventType"@);
                    let command: Result<Option<InvocationView>, MessageError> = if event_type
                        == Some("Alert"@) {
                        match self.spec_alert_command(message, event_date) {
                            Ok(c) => Ok(Some(c)),
                            Err(e) => Err(e),
                        }
                    } else {
                        Ok(None)
                    };
                    match command {
                        Err(e) => Err(e),
                        Ok(c) => match message.spec_str_field("deviceId"@) {
                            None => Err(MessageError::MissingDeviceId),
                            Some(device_id) => if !self.map_devices@.contains_key(device_id) {
                                Err(MessageError::UnknownDevice)
                            } else {
                                Ok(
                                    (
                                        c,
                                        result_line(
                                            self.map_devices@[device_id].0,
                                            match event_type {
                                                Some(t) => t,
                                                None => "None"@,
                                            },
                                            event_date,
                                            received * 1000,
                                            now,
                                        ),
                                    ),
                                )
                            },
                        },
                    }
                },
            },
        }
    }

    /// Handles a device event that arrived at `now` (see `spec_process`).
    pub fn process_message(&self, now: u128, message: &JsonValue) -> (r: Result<
        MessageOutcome,
        MessageError,
    >)
        ensures
            match self.spec_process(now as nat, *message) {
                Ok(o) => r is Ok && r->Ok_0@ == o,
                Err(e) => r == Err::<MessageOutcome, MessageError>(e),
            },
            r is Ok ==> ({
                let line = r->Ok_0.line@;
                let t = decimal(now as nat);
                &&& line.len() > t.len()
                &&& line.subrange(line.len() - t.len() - 1, line.len() as int) == seq![','] + t
            }),
    {
        let event_date: u128 = match message.u128_field("eventDate") {
            Some(v) => v,
            None => return Err(MessageError::InvalidEventDate),
        };
        let event_date: u128 = reparse(event_date);
        let received: u128 = match message.u128_field("receivedDate") {
            Some(v) => v,
            None => return Err(MessageError::InvalidReceivedDate),
        };
        assert(received > u128::MAX / 1000 <==> received * 1000 > u128::MAX) by (nonlinear_arith);
        if received > u128::MAX / 1000 {
            return Err(MessageError::ReceivedDateOverflow);
        }
        let received_date: u128 = received * 1000;
        let event_type = message.str_field("eventType");
        let is_alert = match event_type {
            Some(t) => str_eq(t, "Alert"),
            None => false,
        };
        let command = if is_alert {
            match self.alert_command(message, event_date) {
                Ok(c) => Some(c),
                Err(e) => return Err(e),
            }
        } else {
            None
        };
        let device_id = match message.str_field("deviceId") {
            Some(id) => id,
            None => return Err(MessageError::MissingDeviceId),
        };
        let device = match self.map_devices.get(device_id) {
            Some(d) => d,
            None => return Err(MessageError::UnknownDevice),
        };
        let mut line = device.0.clone();
        line.append(",");
        line.append(event_type.unwrap_or("None"));
        line.append(",");
        line.append(u128_to_decimal(event_date).as_str());
        line.append(",");
        line.append(u128_to_decimal(received_date).as_str());
        line.append(",");
        line.append(u128_to_decimal(now).as_str());
        let ghost et = match message.spec_str_field("eventType"@) {
            Some(t) => t,
            None => "None"@,
        };
        assert(line@ == result_line(
            self.map_devices@[device_id@].0,
            et,
            event_date as nat,
            received_date as nat,
            now as nat,
        ));
        proof {
            law_line_ends_with_arrival_time(*self, now as nat, *message);
        }
        Ok(MessageOutcome { command, line })
    }

    /// The command that answers an alert (see `spec_alert_command`).
    fn alert_command(&self, message: &JsonValue, event_date: u128) -> (r: Result<
        CommandInvocation,
        MessageError,
    >)
        ensures
            match self.spec_alert_command(*message, event_date as nat) {
                Ok(c) => r is Ok && r->Ok_0@ == c,
                Err(e) => r == Err::<CommandInvocation, MessageError>(e),
            },
    {
        if event_date > u64::MAX as u128 {
            return Err(MessageError::EventDateOutOfRange);
        }
        let mut meta_entries: Vec<(String, JsonValue)> = Vec::new();
        push_entry(&mut meta_entries, "precision", JsonValue::Str(String::from_str("mu")));
        push_entry(
            &mut meta_entries,
            "originEventDate",
            JsonValue::Number(u128_to_decimal(event_date)),
        );
        proof {
            assert(entries_view(Seq::<(String, JsonValue)>::empty()) =~= Seq::<
                (Seq<char>, JsonView),
            >::empty());
            assert(entries_view(meta_entries@) =~= seq![
                ("precision"@, JsonView::Str("mu"@)),
                ("originEventDate"@, JsonView::Number(decimal(event_date as nat))),
            ]);
        }
        let metadata = JsonValue::Object(meta_entries);
        let parameter_values = JsonValue::Object(Vec::new());
        let device_id = match message.str_field("deviceId") {
            Some(id) => id,
            None => return Err(MessageError::MissingDeviceId),
        };
        let device = match self.map_devices.get(device_id) {
            Some(d) => d,
            None => return Err(MessageError::UnknownDevice),
        };
        let assignment_id = match message.str_field("deviceAssignmentId") {
            Some(id) => id,
            None => return Err(MessageError::MissingAssignmentId),
        };
        let assignment_token = match self.map_assignments.get(assignment_id) {
            Some(t) => t,
            None => return Err(MessageError::UnknownAssignment),
        };
        let command_id = match self.map_commands.get(device.1.as_str()) {
            Some(c) => c,
            None => return Err(MessageError::UnknownCommand),
        };
        Ok(
            CommandInvocation {
                command_id: command_id.clone(),
                assignment_token: assignment_token.clone(),
                token: assignment_token.clone(),
                parameter_values,
                metadata,
            },
        )
    }

    /// Takes in the four listings that the gateway answered (devices,
    /// device types, commands, assignments), keeps their `results`, and
    /// indexes them: device types and assignments by `id` to `token`, the
    /// `ping` commands by `deviceTypeId` to `token`, devices by `id` to
    /// `token` and `deviceTypeId`. Later elements replace earlier ones with
    /// the same key; the indexes grow from what they held before.
    pub fn init(
        &mut self,
        devices: JsonValue,
        device_types: JsonValue,
        commands: JsonValue,
        assignments: JsonValue,
    ) -> (r: Result<(), InitError>)
        ensures
            ({
                let d = listing_results(devices);
                let t = listing_results(device_types);
                let c = listing_results(commands);
                let a = listing_results(assignments);
                match init_error(d, t, c, a) {
                    Some(e) => r == Err::<(), InitError>(e) && *final(self) == *old(self),
                    None => {
                        &&& r is Ok
                        &&& final(self).devices == Some(d)
                        &&& final(self).device_types == Some(t)
                        &&& final(self).commands == Some(c)
                        &&& final(self).assignments == Some(a)
                        &&& Some(final(self).map_device_types@) == index_into(
                            old(self).map_device_types@,
                            array_items(t)->0,
                            id_token_entry(),
                        )
                        &&& Some(final(self).map_assignments@) == index_into(
                            old(self).map_assignments@,
                            array_items(a)->0,
                            id_token_entry(),
                        )
                        &&& Some(final(self).map_commands@) == index_into(
                            old(self).map_commands@,
                            array_items(c)->0,
                            ping_command_entry(),
                        )
                        &&& Some(final(self).map_devices@) == index_into(
                            old(self).map_devices@,
                            array_items(d)->0,
                            device_entry(),
                        )
                        &&& final(self).api_gateway_url == old(self).api_gateway_url
                        &&& final(self).headers == old(self).headers
                    },
                }
            }),
    {
        let d = take_field(devices, "results");
        let t = take_field(device_types, "results");
        let c = take_field(commands, "results");
        let a = take_field(assignments, "results");
        let ghost err = init_error(d, t, c, a);
        {
            let d_items = match d.as_array() {
                Some(items) => items,
                None => return Err(InitError::NotAnArray(Resource::Devices)),
            };
            let t_items = match t.as_array() {
                Some(items) => items,
                None => return Err(InitError::NotAnArray(Resource::DeviceTypes)),
            };
            let c_items = match c.as_array() {
                Some(items) => items,
                None => return Err(InitError::NotAnArray(Resource::Commands)),
            };
            let a_items = match a.as_array() {
                Some(items) => items,
                None => return Err(InitError::NotAnArray(Resource::Assignments)),
            };
            if !pairs_complete(t_items, "id", "token") {
                return Err(InitError::MissingField(Resource::DeviceTypes));
            }
            if !pairs_complete(a_items, "id", "token") {
                return Err(InitError::MissingField(Resource::Assignments));
            }
            if !ping_commands_complete(c_items) {
                return Err(InitError::MissingField(Resource::Commands));
            }
            if !devices_complete(d_items) {
                return Err(InitError::MissingField(Resource::Devices));
            }
            index_pairs(&mut self.map_device_types, t_items, "id", "token");
            index_pairs(&mut self.map_assignments, a_items, "id", "token");
            index_ping_commands(&mut self.map_commands, c_items);
            index_devices(&mut self.map_devices, d_items);
        }
        self.devices = Some(d);
        self.device_types = Some(t);
        self.commands = Some(c);
        self.assignments = Some(a);
        Ok(())
    }
}

/// An event yields a command exactly when its type is `Alert`.
pub proof fn law_command_iff_alert(client: SitewhereHttpClient, now: nat, message: JsonValue)
    requires
        client.spec_process(now, message) is Ok,
    ensures
        (client.spec_process(now, message)->Ok_0.0 is Some) <==> message.spec_str_field(
            "eventType"@,
        ) == Some("Alert"@),
{
}

/// The line that reports an event starts with the token that the device
/// listing gave for the event's device (the last listed device with that
/// id), followed by a comma.
pub proof fn law_line_reports_listed_token(
    before: SitewhereHttpClient,
    after: SitewhereHttpClient,
    listing: Seq<JsonValue>,
    i: int,
    device_id: Seq<char>,
    token: Seq<char>,
    device_type_id: Seq<char>,
    now: nat,
    message: JsonValue,
)
    requires
        Some(after.map_devices@) == index_into(before.map_devices@, listing, device_entry()),
        0 <= i < listing.len(),
        device_entry()(listing[i]) == Some(Some((device_id, (token, device_type_id)))),
        forall|j: int| i < j < listing.len() ==> !adds_key(device_entry(), #[trigger] listing[j], device_id),
        message.spec_str_field("deviceId"@) == Some(device_id),
        after.spec_process(now, message) is Ok,
    ensures
        after.spec_process(now, message)->Ok_0.1.take(token.len() + 1int) == token.push(','),
{
    lemma_index_into_some(before.map_devices@, listing, device_entry());
    lemma_index_last_wins(
        before.map_devices@,
        listing,
        device_entry(),
        i,
        device_id,
        (token, device_type_id),
    );
    assert(after.map_devices@[device_id] == (token, device_type_id));
    let line = after.spec_process(now, message)->Ok_0.1;
    reveal_strlit(",");
    assert(line.take(token.len() + 1int) =~= token.push(','));
}

/// The lines of a run of events that the REST worker handles, in the order
/// the events arrived (each event with its time of arrival).
pub open spec fn event_lines(client: SitewhereHttpClient, events: Seq<(nat, JsonValue)>) -> Seq<
    Seq<char>,
> {
    Seq::new(events.len(), |i: int| client.spec_process(events[i].0, events[i].1)->Ok_0.1)
}

/// The line that reports an event is never the empty end marker.
pub proof fn lemma_result_line_not_empty(
    device_token: Seq<char>,
    event_type: Seq<char>,
    event_date: nat,
    received_date: nat,
    now: nat,
)
    ensures
        result_line(device_token, event_type, event_date, received_date, now).len() > 0,
{
    reveal_strlit(",");
}

/// One line per event, in order: when the REST worker handles each event of
/// a run without error and then sends the end marker, the collector holds
/// exactly the events' lines, in the order the events arrived.
pub proof fn law_one_line_per_event(client: SitewhereHttpClient, events: Seq<(nat, JsonValue)>)
    requires
        forall|i: int|
            0 <= i < events.len() ==> (#[trigger] client.spec_process(events[i].0, events[i].1))
                is Ok,
    ensures
        collect(Seq::empty(), event_lines(client, events).push(Seq::empty())) == event_lines(
            client,
            events,
        ),
{
    let lines = event_lines(client, events);
    assert forall|i: int| 0 <= i < lines.len() implies (#[trigger] lines[i]).len() > 0 by {
        let m = events[i].1;
        assert(client.spec_process(events[i].0, m) is Ok);
        let device_id = m.spec_str_field("deviceId"@)->0;
        lemma_result_line_not_empty(
            client.map_devices@[device_id].0,
            match m.spec_str_field("eventType"@) {
                Some(t) => t,
                None => "None"@,
            },
            m.spec_u128_field("eventDate"@)->0,
            m.spec_u128_field("receivedDate"@)->0 * 1000,
            events[i].0,
        );
    }
    lemma_collect_until_marker(Seq::empty(), lines);
    assert(Seq::<Seq<char>>::empty() + lines =~= lines);
}

/// The line that reports an event ends with a comma and the event's time
/// of arrival in decimal, whatever the event's other fields.
pub proof fn law_line_ends_with_arrival_time(
    client: SitewhereHttpClient,
    now: nat,
    message: JsonValue,
)
    requires
        client.spec_process(now, message) is Ok,
    ensures
        ({
            let line = client.spec_process(now, message)->Ok_0.1;
            let t = decimal(now);
            &&& line.len() > t.len()
            &&& line.subrange(line.len() - t.len() - 1, line.len() as int) == seq![','] + t
        }),
{
    reveal_strlit(",");
    let line = client.spec_process(now, message)->Ok_0.1;
    let t = decimal(now);
    assert(line.subrange(line.len() - t.len() - 1, line.len() as int) =~= seq![','] + t);
}

/// The authorization header of a session is `Bearer ` followed by the
/// whole token.
pub proof fn law_session_authorization(jwt: Seq<char>)
    ensures
        session_headers(jwt).len() == 4,
        session_headers(jwt)[0].0 == "Authorization"@,
        session_headers(jwt)[0].1.len() == jwt.len() + 7,
        session_headers(jwt)[0].1.take(7) == seq!['B', 'e', 'a', 'r', 'e', 'r', ' '],
        session_headers(jwt)[0].1.skip(7) == jwt,
{
    reveal_strlit("Bearer ");
    let v = session_headers(jwt)[0].1;
    assert(v.take(7) =~= seq!['B', 'e', 'a', 'r', 'e', 'r', ' ']);
    assert(v.skip(7) =~= jwt);
}

/// Each key of a command's body carries its own argument: `commandToken`
/// the command, `metadata` the metadata, `parameterValues` the parameter
/// values, `targetId` the target, `eventDate` the time in decimal, and the
/// fixed `initiator`, `initiatorId`, `target` and `updateState`.
pub proof fn law_command_payload_entries(
    command_id: Seq<char>,
    token: Seq<char>,
    parameter_values: JsonView,
    metadata: JsonView,
    now: nat,
)
    ensures
        command_payload(command_id, token, parameter_values, metadata, now) is Object,
        ({
            let es = command_payload(command_id, token, parameter_values, metadata, now)->Object_0;
            &&& es.len() == 9
            &&& entry_lookup(es, "commandToken"@) == Some(JsonView::Str(command_id))
            &&& entry_lookup(es, "initiator"@) == Some(JsonView::Str("REST"@))
            &&& entry_lookup(es, "initiatorId"@) == Some(JsonView::Str("admin"@))
            &&& entry_lookup(es, "metadata"@) == Some(metadata)
            &&& entry_lookup(es, "parameterValues"@) == Some(parameter_values)
            &&& entry_lookup(es, "target"@) == Some(JsonView::Str("Assignment"@))
            &&& entry_lookup(es, "eventDate"@) == Some(JsonView::Str(decimal(now)))
            &&& entry_lookup(es, "targetId"@) == Some(JsonView::Str(token))
            &&& entry_lookup(es, "updateState"@) == Some(JsonView::Bool(true))
        }),
{
    reveal_strlit("commandToken");
    reveal_strlit("initiator");
    reveal_strlit("initiatorId");
    reveal_strlit("metadata");
    reveal_strlit("parameterValues");
    reveal_strlit("target");
    reveal_strlit("eventDate");
    reveal_strlit("targetId");
    reveal_strlit("updateState");
    let es = command_payload(command_id, token, parameter_values, metadata, now)->Object_0;
    reveal_with_fuel(entry_lookup, 10);
    assert(es.drop_first() =~= es.subrange(1, 9));
    let keys = seq![
        "commandToken"@,
        "initiator"@,
        "initiatorId"@,
        "metadata"@,
        "parameterValues"@,
        "target"@,
        "eventDate"@,
        "targetId"@,
        "updateState"@,
    ];
    assert forall|i: int, j: int| 0 <= i < 9 && 0 <= j < 9 && i != j implies keys[i] != keys[j] by {
        if keys[i].len() == keys[j].len() {
            assert(keys[i][0] != keys[j][0]);
        }
    }
    assert(forall|i: int| 0 <= i < 9 ==> es[i].0 == keys[i]);
    assert(es.drop_first().drop_first() =~= es.subrange(2, 9));
    assert(es.subrange(2, 9).drop_first() =~= es.subrange(3, 9));
    assert(es.subrange(3, 9).drop_first() =~= es.subrange(4, 9));
    assert(es.subrange(4, 9).drop_first() =~= es.subrange(5, 9));
    assert(es.subrange(5, 9).drop_first() =~= es.subrange(6, 9));
    assert(es.subrange(6, 9).drop_first() =~= es.subrange(7, 9));
    assert(es.subrange(7, 9).drop_first() =~= es.subrange(8, 9));
    assert(es.subrange(1, 9).drop_first() =~= es.subrange(2, 9));
}

} // verus!
