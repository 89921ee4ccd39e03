//! Variable events that flows publish through the event service.

use vstd::prelude::*;

use crate::json;
use crate::queue;

verus! {

/// The number of events that wait between two updates of the host.
pub const MAX_PENDING_VARIABLE_EVENTS: usize = 4096;

/// The number of events that the host keeps for its systems.
pub const MAX_VARIABLE_EVENTS: usize = 4096;

/// One published variable event.
#[derive(Clone, Debug)]
pub struct Neon3VariableEvent {
    pub name: String,
    pub epoch: u64,
    pub sequence: u64,
    pub payload: serde_json::Value,
}

/// The events that host systems have not consumed yet.
pub struct Neon3VariableEvents {
    pub events: Vec<Neon3VariableEvent>,
}

/// A number that counts as zero where it is missing.
pub open spec fn or_zero(n: Option<u64>) -> u64 {
    match n {
        Some(v) => v,
        None => 0,
    }
}

/// What a variable event holds.
pub struct VariableEventView {
    pub name: Seq<char>,
    pub epoch: u64,
    pub sequence: u64,
    pub payload: json::JsonView,
}

/// An optional variable event by what it holds.
pub open spec fn event_view(event: Option<Neon3VariableEvent>) -> Option<VariableEventView> {
    match event {
        Some(e) => Some(
            VariableEventView {
                name: e.name@,
                epoch: e.epoch,
                sequence: e.sequence,
                payload: json::json_view(e.payload),
            },
        ),
        None => None,
    }
}

/// The variable event that a frame of the event service carries.
pub open spec fn received_event(frame: json::JsonView) -> Option<VariableEventView> {
    match frame.member("event"@) {
        Some(event) => match event.text_member("name"@) {
            Some(name) => Some(
                VariableEventView {
                    name,
                    epoch: or_zero(event.natural_member("epoch"@)),
                    sequence: or_zero(event.natural_member("sequence"@)),
                    payload: match event.member("payload"@) {
                        Some(payload) => payload,
                        None => json::JsonView::Null,
                    },
                },
            ),
            None => None,
        },
        None => None,
    }
}

/// Reads a variable event out of a frame of the event service. Frames without
/// an event, and events without a name, are of no interest to the host.
pub fn variable_event_from_frame(frame: &serde_json::Value) -> (r: Option<Neon3VariableEvent>)
    ensures
        r is Some <==> (json::json_view(*frame).member("event"@) matches Some(event)
            && event.text_member("name"@) is Some),
        r matches Some(item) ==> ({
            let event = json::json_view(*frame).member("event"@)->0;
            &&& item.name@ == event.text_member("name"@)->0
            &&& item.epoch == or_zero(event.natural_member("epoch"@))
            &&& item.sequence == or_zero(event.natural_member("sequence"@))
            &&& json::json_view(item.payload) == match event.member("payload"@) {
                Some(payload) => payload,
                None => json::JsonView::Null,
            }
        }),
        event_view(r) == received_event(json::json_view(*frame)),
{
    let event = match json::json_get(frame, "event") {
        Some(event) => event,
        None => {
            return None;
        },
    };
    let name = match json::text_member(event, "name") {
        Some(name) => name,
        None => {
            return None;
        },
    };
    let payload = match json::json_get(event, "payload") {
        Some(payload) => payload.clone(),
        None => json::json_null(),
    };
    Some(
        Neon3VariableEvent {
            name,
            epoch: json::natural_member(event, "epoch").unwrap_or(0),
            sequence: json::natural_member(event, "sequence").unwrap_or(0),
            payload,
        },
    )
}

/// Queues an event for the next update, at the cost of the oldest ones.
pub fn queue_variable_event(pending: &mut Vec<Neon3VariableEvent>, item: Neon3VariableEvent)
    ensures
        final(pending)@ == queue::newest(
            old(pending)@.push(item),
            MAX_PENDING_VARIABLE_EVENTS as nat,
        ),
{
    queue::push_newest(pending, MAX_PENDING_VARIABLE_EVENTS, item);
}

/// Hands the pending events over to the host systems.
pub fn consume_variable_events(
    output: &mut Neon3VariableEvents,
    pending: &mut Vec<Neon3VariableEvent>,
)
    ensures
        final(output).events@ == queue::newest(
            old(output).events@ + old(pending)@,
            MAX_VARIABLE_EVENTS as nat,
        ),
        final(pending)@ == Seq::<Neon3VariableEvent>::empty(),
{
    queue::append_newest(&mut output.events, pending, MAX_VARIABLE_EVENTS);
}

/// However many events are received between two updates, the newest of all wait.
pub proof fn law_received_events_are_the_newest(
    pending: Seq<Neon3VariableEvent>,
    received: Seq<Neon3VariableEvent>,
)
    requires
        pending.len() <= MAX_PENDING_VARIABLE_EVENTS,
    ensures
        queue::pushed_newest(pending, MAX_PENDING_VARIABLE_EVENTS as nat, received)
            == queue::newest(pending + received, MAX_PENDING_VARIABLE_EVENTS as nat),
        queue::pushed_newest(pending, MAX_PENDING_VARIABLE_EVENTS as nat, received).len()
            <= MAX_PENDING_VARIABLE_EVENTS,
{
    queue::law_appended_entries_keep_newest(
        pending,
        MAX_PENDING_VARIABLE_EVENTS as nat,
        received,
    );
}

/// What the host systems get after an update are the newest of everything that
/// they had and that was received since: the queue between loses nothing that
/// they would have kept.
pub proof fn law_host_gets_the_newest_events(
    output: Seq<Neon3VariableEvent>,
    received: Seq<Neon3VariableEvent>,
)
    ensures
        queue::newest(
            output + queue::pushed_newest(
                Seq::empty(),
                MAX_PENDING_VARIABLE_EVENTS as nat,
                received,
            ),
            MAX_VARIABLE_EVENTS as nat,
        ) == queue::newest(output + received, MAX_VARIABLE_EVENTS as nat),
{
    let none = Seq::<Neon3VariableEvent>::empty();
    law_received_events_are_the_newest(none, received);
    assert(none + received =~= received);
    queue::law_newest_of_newest(received, output, MAX_VARIABLE_EVENTS as nat);
}

impl Default for Neon3VariableEvents {
    fn default() -> (r: Self)
        ensures
            r.events@ == Seq::<Neon3VariableEvent>::empty(),
    {
        Neon3VariableEvents { events: Vec::new() }
    }
}

/// An event that was put into a frame is read back whole: its name, its epoch, its
/// number and its payload, whatever else the frame and the event hold.
pub proof fn law_event_is_read_back(
    frame: Map<Seq<char>, json::JsonView>,
    event: Map<Seq<char>, json::JsonView>,
    name: Seq<char>,
    epoch: u64,
    sequence: u64,
    payload: json::JsonView,
)
    ensures
        ({
            let sent = event.insert("name"@, json::JsonView::Text(name)).insert(
                "epoch"@,
                json::json_number(epoch),
            ).insert("sequence"@, json::json_number(sequence)).insert("payload"@, payload);
            let read = received_event(
                json::JsonView::Members(frame.insert("event"@, json::JsonView::Members(sent))),
            );
            &&& read is Some
            &&& read->0.name == name
            &&& read->0.epoch == epoch
            &&& read->0.sequence == sequence
            &&& read->0.payload == payload
        }),
{
    reveal_strlit("name");
    reveal_strlit("epoch");
    reveal_strlit("sequence");
    reveal_strlit("payload");
    assert("name"@.len() == 4 && "epoch"@.len() == 5 && "sequence"@.len() == 8 && "payload"@.len()
        == 7);
}

/// A frame without an event, or with one that has no name, carries none. An event
/// without an epoch or a number has zero, and one without a payload has null.
pub proof fn law_missing_parts_have_defaults(frame: json::JsonView)
    ensures
        ({
            let event = frame.member("event"@);
            let read = received_event(frame);
            &&& event is None ==> read is None
            &&& event is Some && event->0.text_member("name"@) is None ==> read is None
            &&& event is Some && event->0.text_member("name"@) is Some ==> {
                &&& read is Some
                &&& event->0.natural_member("epoch"@) is None ==> read->0.epoch == 0
                &&& event->0.natural_member("sequence"@) is None ==> read->0.sequence == 0
                &&& event->0.member("payload"@) is None ==> read->0.payload == json::JsonView::Null
            }
        }),
{
}

} // verus!
