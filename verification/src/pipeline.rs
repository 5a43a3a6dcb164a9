//! The decisions of the three workers that pass events along: the MQTT
//! worker forwards what it receives, the REST worker takes deliveries until
//! it is told to stop, and the result collector gathers lines until the end
//! marker.

use vstd::prelude::*;
use vstd::string::*;
use crate::text::{join_lines, join_with_newlines, texts};

verus! {

/// What the MQTT event loop reports.
pub enum MqttEvent {
    /// A message published on the subscribed topic, with its payload.
    Publish(Vec<u8>),
    /// The connection failed.
    ConnectionError,
    /// Any other packet or notification.
    Other,
}

/// What the MQTT worker does with an event.
pub enum MqttAction {
    /// Pass the payload on to the REST worker, stamped with the time of
    /// arrival.
    Forward(Vec<u8>),
    /// Stop listening.
    Stop,
    /// Go on listening.
    Ignore,
}

/// The mathematical value of an MQTT event.
pub enum MqttEventView {
    Publish(Seq<u8>),
    ConnectionError,
    Other,
}

/// The mathematical value of what the MQTT worker does.
pub enum MqttActionView {
    Forward(Seq<u8>),
    Stop,
    Ignore,
}

impl View for MqttEvent {
    type V = MqttEventView;

    open spec fn view(&self) -> MqttEventView {
        match self {
            MqttEvent::Publish(p) => MqttEventView::Publish(p@),
            MqttEvent::ConnectionError => MqttEventView::ConnectionError,
            MqttEvent::Other => MqttEventView::Other,
        }
    }
}

impl View for MqttAction {
    type V = MqttActionView;

    open spec fn view(&self) -> MqttActionView {
        match self {
            MqttAction::Forward(p) => MqttActionView::Forward(p@),
            MqttAction::Stop => MqttActionView::Stop,
            MqttAction::Ignore => MqttActionView::Ignore,
        }
    }
}

/// What the MQTT worker does with an event.
pub open spec fn mqtt_action(event: MqttEventView) -> MqttActionView {
    match event {
        MqttEventView::Publish(p) => MqttActionView::Forward(p),
        MqttEventView::ConnectionError => MqttActionView::Stop,
        MqttEventView::Other => MqttActionView::Ignore,
    }
}

/// The MQTT worker's decision for one event: a publication is forwarded
/// with its payload unchanged, a connection error stops the worker, and
/// anything else is passed over.
pub fn mqtt_step(event: MqttEvent) -> (action: MqttAction)
    ensures
        match event {
            MqttEvent::Publish(payload) => action == MqttAction::Forward(payload),
            MqttEvent::ConnectionError => action == MqttAction::Stop,
            MqttEvent::Other => action == MqttAction::Ignore,
        },
        action@ == mqtt_action(event@),
{
    match event {
        MqttEvent::Publish(payload) => MqttAction::Forward(payload),
        MqttEvent::ConnectionError => MqttAction::Stop,
        MqttEvent::Other => MqttAction::Ignore,
    }
}

/// The bytes of the payload that tells the REST worker to stop.
pub open spec fn stop_payload() -> Seq<u8> {
    seq![83u8, 84u8, 79u8, 80u8]
}

/// What the REST worker does with a delivery.
pub enum Delivery {
    /// An empty delivery: wait for the next one.
    Skip,
    /// The stop payload: leave the loop.
    Stop,
    /// A device event, with its time of arrival and its payload.
    Message(u128, Vec<u8>),
}

/// The mathematical value of what the REST worker does with a delivery.
pub enum Handling {
    Skip,
    Stop,
    Handle(u128, Seq<u8>),
}

impl View for Delivery {
    type V = Handling;

    open spec fn view(&self) -> Handling {
        match self {
            Delivery::Skip => Handling::Skip,
            Delivery::Stop => Handling::Stop,
            Delivery::Message(now, p) => Handling::Handle(*now, p@),
        }
    }
}

/// What the REST worker does with a delivery: skip an empty one, stop at
/// the stop payload, handle anything else.
pub open spec fn handling(delivery: Option<(u128, Seq<u8>)>) -> Handling {
    match delivery {
        None => Handling::Skip,
        Some((now, payload)) => if payload == stop_payload() {
            Handling::Stop
        } else {
            Handling::Handle(now, payload)
        },
    }
}

/// A publication that the MQTT worker forwards, stamped with its time of
/// arrival, is handled by the REST worker as an event with that time and
/// the same payload, unless it is the stop payload.
pub proof fn law_forwarded_publication_is_handled(now: u128, payload: Seq<u8>)
    requires
        payload != stop_payload(),
    ensures
        mqtt_action(MqttEventView::Publish(payload)) == MqttActionView::Forward(payload),
        handling(Some((now, payload))) == Handling::Handle(now, payload),
{
}

/// The REST worker's decision for one delivery: an empty delivery is
/// skipped, the payload `STOP` ends the loop, and anything else is a device
/// event to handle.
pub fn classify_delivery(delivery: Option<(u128, Vec<u8>)>) -> (d: Delivery)
    ensures
        match delivery {
            None => d == Delivery::Skip,
            Some((now, payload)) => if payload@ == stop_payload() {
                d == Delivery::Stop
            } else {
                d == Delivery::Message(now, payload)
            },
        },
        d@ == handling(
            match delivery {
                Some((now, payload)) => Some((now, payload@)),
                None => None,
            },
        ),
{
    match delivery {
        None => Delivery::Skip,
        Some((now, payload)) => {
            if payload.len() == 4 && payload[0] == 83u8 && payload[1] == 84u8 && payload[2] == 79u8
                && payload[3] == 80u8 {
                assert(payload@ =~= stop_payload());
                Delivery::Stop
            } else {
                Delivery::Message(now, payload)
            }
        },
    }
}

/// The lines that the collector holds after taking `incoming` in order,
/// having held `kept`: it keeps each line until the first empty one, the
/// end marker, and takes nothing after it.
pub open spec fn collect(kept: Seq<Seq<char>>, incoming: Seq<Seq<char>>) -> Seq<Seq<char>>
    decreases incoming.len(),
{
    if incoming.len() == 0 || incoming[0].len() == 0 {
        kept
    } else {
        collect(kept.push(incoming[0]), incoming.drop_first())
    }
}

/// Lines that are all non-empty, followed by the end marker, are collected
/// whole and in order.
pub proof fn lemma_collect_until_marker(kept: Seq<Seq<char>>, lines: Seq<Seq<char>>)
    requires
        forall|i: int| 0 <= i < lines.len() ==> (#[trigger] lines[i]).len() > 0,
    ensures
        collect(kept, lines.push(Seq::empty())) == kept + lines,
    decreases lines.len(),
{
    if lines.len() == 0 {
        assert(kept + lines =~= kept);
    } else {
        let rest = lines.drop_first();
        assert(lines.push(Seq::empty()).drop_first() =~= rest.push(Seq::empty()));
        assert forall|i: int| 0 <= i < rest.len() implies (#[trigger] rest[i]).len() > 0 by {
            assert(rest[i] == lines[i + 1]);
        }
        lemma_collect_until_marker(kept.push(lines[0]), rest);
        assert(kept.push(lines[0]) + rest =~= kept + lines);
    }
}

/// The lines that the collector has gathered, in the order they came.
pub struct ResultLog {
    pub lines: Vec<String>,
}

impl ResultLog {
    /// A log with no lines.
    pub fn new() -> (log: Self)
        ensures
            log.lines@.len() == 0,
    {
        ResultLog { lines: Vec::new() }
    }

    /// Takes one line from the REST worker: the empty line marks the end
    /// and is not kept (the result is `false`); any other line is added
    /// after the others (the result is `true`).
    pub fn accept(&mut self, line: String) -> (more: bool)
        ensures
            more == (line@.len() != 0),
            texts(final(self).lines@) == collect(texts(old(self).lines@), seq![line@]),
            more ==> final(self).lines@ == old(self).lines@.push(line),
            !more ==> final(self).lines@ == old(self).lines@,
    {
        if line.as_str().unicode_len() == 0 {
            false
        } else {
            let ghost before = self.lines@;
            self.lines.push(line);
            assert(seq![line@].drop_first() =~= Seq::<Seq<char>>::empty());
            assert(texts(self.lines@) =~= texts(before).push(line@));
            assert(collect(texts(before).push(line@), Seq::<Seq<char>>::empty()) == texts(
                before,
            ).push(line@));
            true
        }
    }

    /// The report: the lines joined by newlines.
    pub fn contents(&self) -> (text: String)
        ensures
            text@ == join_lines(texts(self.lines@)),
    {
        join_with_newlines(&self.lines)
    }

    /// The number of lines.
    pub fn len(&self) -> (n: usize)
        ensures
            n == self.lines@.len(),
    {
        self.lines.len()
    }
}

} // verus!
