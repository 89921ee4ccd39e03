//! Semantic intents: what the user asked for, as the UI runtime resolved it.

use vstd::prelude::*;
use vstd::string::*;

use crate::json;
use crate::queue;
use crate::text;

verus! {

broadcast use vstd::string::group_string_axioms;

/// A semantic label that belongs to a Rust type, so that host code can pick
/// the intents of one user interface by type.
pub trait Neon3SemanticInteractionKey {
    const KEY: &'static str;
}

/// The fixed-screen status of the player character.
#[derive(Clone, Copy, Debug)]
pub struct CharacterStatusScreenKey;

impl Neon3SemanticInteractionKey for CharacterStatusScreenKey {
    const KEY: &'static str = "character.player.main.status";
}

/// The world-space status of a monster.
#[derive(Clone, Copy, Debug)]
pub struct MonsterStatusWorldKey;

impl Neon3SemanticInteractionKey for MonsterStatusWorldKey {
    const KEY: &'static str = "monster.status";
}

/// One resolved intent, as host systems consume it.
#[derive(Clone, Debug)]
pub struct Neon3SemanticIntentEvent {
    pub intent: String,
    pub source_node_key: Option<String>,
    pub interaction_key: Option<String>,
    pub payload: serde_json::Value,
    pub requested_value: Option<serde_json::Value>,
    pub request_id: String,
}

/// The number of intents that the host keeps for its systems.
pub const MAX_SEMANTIC_EVENTS: usize = 4096;

/// The intents that host systems have not consumed yet.
pub struct Neon3SemanticIntentEvents {
    pub events: Vec<Neon3SemanticIntentEvent>,
}

impl Default for Neon3SemanticIntentEvents {
    fn default() -> (r: Self)
        ensures
            r.events@ == Seq::<Neon3SemanticIntentEvent>::empty(),
    {
        Neon3SemanticIntentEvents { events: Vec::new() }
    }
}

impl Neon3SemanticIntentEvents {
    /// Hands out all waiting intents, oldest first, and leaves none.
    pub fn drain(&mut self) -> (r: Vec<Neon3SemanticIntentEvent>)
        ensures
            r@ == old(self).events@,
            final(self).events@ == Seq::<Neon3SemanticIntentEvent>::empty(),
    {
        let mut drained: Vec<Neon3SemanticIntentEvent> = Vec::new();
        drained.append(&mut self.events);
        drained
    }

    /// Queues an intent; a full queue gives up its oldest one.
    pub fn push(&mut self, event: Neon3SemanticIntentEvent)
        ensures
            final(self).events@ == queue::with_room(
                old(self).events@,
                MAX_SEMANTIC_EVENTS as nat,
            ).push(event),
    {
        queue::push_with_room(&mut self.events, MAX_SEMANTIC_EVENTS, event);
    }
}

/// Whether the event belongs to the interface that `K` labels.
pub fn semantic_intent_targets<K: Neon3SemanticInteractionKey>(
    event: &Neon3SemanticIntentEvent,
) -> (r: bool)
    ensures
        r == (event.interaction_key matches Some(key) && key@ == K::KEY@),
{
    match &event.interaction_key {
        Some(key) => text::same_text(key.as_str(), K::KEY),
        None => false,
    }
}

/// A resolved intent by what it holds.
pub struct SemanticIntentView {
    pub intent: Seq<char>,
    pub source_node_key: Option<Seq<char>>,
    pub interaction_key: Option<Seq<char>>,
    pub payload: json::JsonView,
    pub requested_value: Option<json::JsonView>,
    pub request_id: Seq<char>,
}

/// An optional text by its characters.
pub open spec fn text_view(text: Option<String>) -> Option<Seq<char>> {
    match text {
        Some(t) => Some(t@),
        None => None,
    }
}

impl View for Neon3SemanticIntentEvent {
    type V = SemanticIntentView;

    open spec fn view(&self) -> SemanticIntentView {
        SemanticIntentView {
            intent: self.intent@,
            source_node_key: text_view(self.source_node_key),
            interaction_key: text_view(self.interaction_key),
            payload: json::json_view(self.payload),
            requested_value: match self.requested_value {
                Some(value) => Some(json::json_view(value)),
                None => None,
            },
            request_id: self.request_id@,
        }
    }
}

/// The member of a member.
pub open spec fn nested_member(
    value: json::JsonView,
    outer: Seq<char>,
    inner: Seq<char>,
) -> Option<json::JsonView> {
    match value.member(outer) {
        Some(v) => v.member(inner),
        None => None,
    }
}

/// The part of a result that describes the semantic event. Pointer resolution
/// names it `semantic_event`, host publications name it `semantic_intent`, and
/// either may stand one level down. A result without any of them is itself
/// taken for the event.
pub open spec fn event_part(result: json::JsonView) -> json::JsonView {
    match result.member("semantic_intent"@) {
        Some(event) => event,
        None => match result.member("semantic_event"@) {
            Some(event) => event,
            None => match nested_member(result, "renderer"@, "semantic_event"@) {
                Some(event) => event,
                None => match nested_member(result, "result"@, "semantic_intent"@) {
                    Some(event) => event,
                    None => result,
                },
            },
        },
    }
}

/// The name of the intent: the member `intent`, or its member `action`.
pub open spec fn intent_name(event: json::JsonView) -> Option<Seq<char>> {
    match event.text_member("intent"@) {
        Some(name) => Some(name),
        None => match nested_member(event, "intent"@, "action"@) {
            Some(action) => action.text(),
            None => None,
        },
    }
}

/// The interaction key that the event itself carries.
pub open spec fn carried_key(event: json::JsonView) -> Option<Seq<char>> {
    match event.member("interaction_key"@) {
        Some(key) => key.text(),
        None => event.text_member("semantic_key"@),
    }
}

/// The digits of the monster panel that a node key of the form `p<digits>`
/// names.
pub open spec fn panel_digits(source: Seq<char>) -> Option<Seq<char>> {
    if source.len() > 1 && source[0] == 'p' && text::all_digits(source.drop_first()) {
        Some(source.drop_first())
    } else {
        None
    }
}

/// The interaction key that follows from the node which was hit.
pub open spec fn implied_key(source: Option<Seq<char>>) -> Option<Seq<char>> {
    match source {
        Some(node) => if node == "status-root"@ || node == "status-action"@ {
            Some("character.player.main.status"@)
        } else if panel_digits(node) is Some {
            Some("monster.status"@)
        } else {
            None
        },
        None => None,
    }
}

/// An object with a member added where it had none of that name.
pub open spec fn with_default_member(
    value: json::JsonView,
    key: Seq<char>,
    default: json::JsonView,
) -> json::JsonView {
    match value {
        json::JsonView::Members(members) => if members.contains_key(key) {
            value
        } else {
            json::JsonView::Members(members.insert(key, default))
        },
        _ => value,
    }
}

/// The payload of an event. Where the interaction key had to be implied from a
/// monster panel, an object payload names that monster.
pub open spec fn payload_part(event: json::JsonView) -> json::JsonView {
    let payload = match event.member("payload"@) {
        Some(p) => p,
        None => json::JsonView::Members(Map::empty()),
    };
    match event.text_member("source_node_key"@) {
        Some(node) => if carried_key(event) is None && node != "status-root"@ && node
            != "status-action"@ && panel_digits(node) is Some {
            let anchor = json::JsonView::Text("monster.m"@ + panel_digits(node)->0);
            with_default_member(
                with_default_member(payload, "anchor"@, anchor),
                "object_id"@,
                anchor,
            )
        } else {
            payload
        },
        None => payload,
    }
}

/// The intent that a result carries, if it carries one.
pub open spec fn semantic_intent(result: json::JsonView, request_id: Seq<char>) -> Option<
    SemanticIntentView,
> {
    let event = event_part(result);
    match intent_name(event) {
        Some(intent) => Some(
            SemanticIntentView {
                intent,
                source_node_key: event.text_member("source_node_key"@),
                interaction_key: match carried_key(event) {
                    Some(key) => Some(key),
                    None => implied_key(event.text_member("source_node_key"@)),
                },
                payload: payload_part(event),
                requested_value: event.member("requested_value"@),
                request_id,
            },
        ),
        None => None,
    }
}

fn get_nested<'a>(value: &'a serde_json::Value, outer: &str, inner: &str) -> (r: Option<
    &'a serde_json::Value,
>)
    ensures
        json::json_view_opt(r) == nested_member(json::json_view(*value), outer@, inner@),
{
    match json::json_get(value, outer) {
        Some(v) => json::json_get(v, inner),
        None => None,
    }
}

fn find_event<'a>(result: &'a serde_json::Value) -> (r: &'a serde_json::Value)
    ensures
        json::json_view(*r) == event_part(json::json_view(*result)),
{
    if let Some(event) = json::json_get(result, "semantic_intent") {
        return event;
    }
    if let Some(event) = json::json_get(result, "semantic_event") {
        return event;
    }
    if let Some(event) = get_nested(result, "renderer", "semantic_event") {
        return event;
    }
    if let Some(event) = get_nested(result, "result", "semantic_intent") {
        return event;
    }
    result
}

fn find_intent(event: &serde_json::Value) -> (r: Option<String>)
    ensures
        text_view(r) == intent_name(json::json_view(*event)),
{
    if let Some(name) = json::text_member(event, "intent") {
        return Some(name);
    }
    match get_nested(event, "intent", "action") {
        Some(action) => match json::json_as_str(action) {
            Some(name) => Some(name.to_owned()),
            None => None,
        },
        None => None,
    }
}

fn find_carried_key(event: &serde_json::Value) -> (r: Option<String>)
    ensures
        text_view(r) == carried_key(json::json_view(*event)),
{
    match json::json_get(event, "interaction_key") {
        Some(key) => match json::json_as_str(key) {
            Some(text) => Some(text.to_owned()),
            None => None,
        },
        None => json::text_member(event, "semantic_key"),
    }
}

fn find_panel_digits<'a>(source: &'a str) -> (r: Option<&'a str>)
    ensures
        r is Some <==> panel_digits(source@) is Some,
        r matches Some(digits) ==> digits@ == panel_digits(source@)->0,
{
    proof {
        reveal_strlit("p");
        assert("p"@ =~= seq!['p']);
        if source@.len() > 0 {
            assert(source@.subrange(0, 1) =~= seq![source@[0]]);
            assert(source@.subrange(0, 1)[0] == source@[0]);
            assert(source@.subrange(1, source@.len() as int) =~= source@.drop_first());
        }
    }
    match text::after_prefix(source, "p") {
        Some(digits) => if !digits.is_empty() && text::is_all_digits(digits) {
            Some(digits)
        } else {
            None
        },
        None => None,
    }
}

fn set_default_member(object: &mut serde_json::Value, key: &str, text: String)
    ensures
        json::json_view(*final(object)) == with_default_member(
            json::json_view(*old(object)),
            key@,
            json::JsonView::Text(text@),
        ),
{
    if json::json_is_object(object) && json::json_get(object, key).is_none() {
        json::json_set(object, key, json::json_text(text));
    }
}

/// Reads the semantic intent out of the result of an accepted request.
pub fn semantic_intent_from_result(result: &serde_json::Value, request_id: &str) -> (r: Option<
    Neon3SemanticIntentEvent,
>)
    ensures
        r is Some <==> semantic_intent(json::json_view(*result), request_id@) is Some,
        r matches Some(event) ==> event@ == semantic_intent(
            json::json_view(*result),
            request_id@,
        )->0,
{
    let event = find_event(result);
    let intent = match find_intent(event) {
        Some(name) => name,
        None => {
            return None;
        },
    };
    let source_node_key = json::text_member(event, "source_node_key");
    let mut payload = match json::json_get(event, "payload") {
        Some(p) => p.clone(),
        None => json::json_object(),
    };
    let requested_value = match json::json_get(event, "requested_value") {
        Some(v) => Some(v.clone()),
        None => None,
    };
    let mut interaction_key = find_carried_key(event);
    if interaction_key.is_none() {
        if let Some(source) = &source_node_key {
            if text::same_text(source.as_str(), "status-root") || text::same_text(
                source.as_str(),
                "status-action",
            ) {
                interaction_key = Some("character.player.main.status".to_owned());
            } else if let Some(digits) = find_panel_digits(source.as_str()) {
                let anchor = "monster.m".to_owned().concat(digits);
                set_default_member(&mut payload, "anchor", anchor.clone());
                set_default_member(&mut payload, "object_id", anchor);
                interaction_key = Some("monster.status".to_owned());
            }
        }
    }
    Some(
        Neon3SemanticIntentEvent {
            intent,
            source_node_key,
            interaction_key,
            payload,
            requested_value,
            request_id: request_id.to_owned(),
        },
    )
}

/// The event of a reply is the first of four that it may hold: the intent, the event,
/// the event of the renderer, the intent of the result. A reply with none of them is
/// the event itself.
pub proof fn law_event_is_the_first_there(result: json::JsonView)
    ensures
        ({
            let intent = result.member("semantic_intent"@);
            let event = result.member("semantic_event"@);
            let rendered = result.member("renderer"@)->0.member("semantic_event"@);
            let has_rendered = result.member("renderer"@) is Some && rendered is Some;
            let nested = result.member("result"@)->0.member("semantic_intent"@);
            let has_nested = result.member("result"@) is Some && nested is Some;
            &&& intent is Some ==> event_part(result) == intent->0
            &&& intent is None && event is Some ==> event_part(result) == event->0
            &&& intent is None && event is None && has_rendered ==> event_part(result)
                == rendered->0
            &&& intent is None && event is None && !has_rendered && has_nested ==> event_part(
                result,
            ) == nested->0
            &&& intent is None && event is None && !has_rendered && !has_nested ==> event_part(
                result,
            ) == result
        }),
{
}

/// A reply carries an intent exactly where its event names one, as a text or as the
/// action of an object; and then the intent has that name, the source, the key and
/// the value of the event, and the name of the request.
pub proof fn law_intent_is_read_from_its_event(result: json::JsonView, request_id: Seq<char>)
    ensures
        ({
            let event = event_part(result);
            let read = semantic_intent(result, request_id);
            let plain = event.text_member("intent"@);
            let action = event.member("intent"@)->0.text_member("action"@);
            let has_action = event.member("intent"@) is Some && action is Some;
            let key = event.member("interaction_key"@);
            &&& read is Some <==> plain is Some || has_action
            &&& plain is Some ==> read->0.intent == plain->0
            &&& plain is None && has_action ==> read->0.intent == action->0
            &&& read is Some ==> {
                &&& read->0.request_id == request_id
                &&& read->0.source_node_key == event.text_member("source_node_key"@)
                &&& read->0.requested_value == event.member("requested_value"@)
                &&& key is Some && key->0.text() is Some ==> read->0.interaction_key
                    == key->0.text()
                &&& key is None && event.text_member("semantic_key"@) is Some
                    ==> read->0.interaction_key == event.text_member("semantic_key"@)
            }
        }),
{
}

/// An event without a key of its own has the key of the node that it came from: the
/// status of the player for the two nodes of the status, that of a monster for a
/// numbered panel, and none for any other.
pub proof fn law_key_follows_from_the_node(
    result: json::JsonView,
    request_id: Seq<char>,
    n: nat,
)
    requires
        semantic_intent(result, request_id) is Some,
        event_part(result).member("interaction_key"@) is None,
        event_part(result).member("semantic_key"@) is None,
    ensures
        ({
            let node = event_part(result).text_member("source_node_key"@);
            let key = semantic_intent(result, request_id)->0.interaction_key;
            &&& node == Some("status-root"@) || node == Some("status-action"@) ==> key == Some(
                "character.player.main.status"@,
            )
            &&& node == Some("p"@ + text::decimal(n)) ==> key == Some("monster.status"@)
            &&& node is None ==> key is None
            &&& node is Some && node->0 != "status-root"@ && node->0 != "status-action"@
                && !text::has_prefix(node->0, "p"@) ==> key is None
        }),
{
    lemma_panel_node(n);
    reveal_strlit("p");
    let node = event_part(result).text_member("source_node_key"@);
    if node is Some && panel_digits(node->0) is Some {
        assert(node->0.subrange(0, 1) =~= "p"@);
    }
}

proof fn lemma_panel_node(n: nat)
    ensures
        panel_digits("p"@ + text::decimal(n)) == Some(text::decimal(n)),
        "p"@ + text::decimal(n) != "status-root"@,
        "p"@ + text::decimal(n) != "status-action"@,
{
    reveal_strlit("p");
    reveal_strlit("status-root");
    reveal_strlit("status-action");
    text::law_decimal_reads_back(n);
    let node = "p"@ + text::decimal(n);
    assert(node[0] == 'p');
    assert("status-root"@[0] == 's' && "status-action"@[0] == 's');
    assert(node.drop_first() =~= text::decimal(n));
}

/// The payload of an intent is that of its event, or an empty object where it has
/// none. A numbered panel without a key of its own adds the anchor of the monster of
/// that number under both names, and overwrites neither; every other member stays.
pub proof fn law_payload_is_that_of_the_event(
    event: json::JsonView,
    members: Map<Seq<char>, json::JsonView>,
    key: Seq<char>,
    n: nat,
)
    requires
        event.member("payload"@) == Some(json::JsonView::Members(members)) || (event.member(
            "payload"@,
        ) is None && members == Map::<Seq<char>, json::JsonView>::empty()),
    ensures
        ({
            let payload = payload_part(event);
            let node = event.text_member("source_node_key"@);
            let anchor = json::JsonView::Text("monster.m"@ + text::decimal(n));
            let keyed = carried_key(event) is Some;
            let panel = !keyed && node == Some("p"@ + text::decimal(n));
            &&& payload is Members
            &&& members.contains_key(key) ==> payload.member(key) == Some(members[key])
            &&& panel && !members.contains_key("anchor"@) ==> payload.member("anchor"@) == Some(
                anchor,
            )
            &&& panel && !members.contains_key("object_id"@) ==> payload.member("object_id"@)
                == Some(anchor)
            &&& payload.member(key) is Some ==> members.contains_key(key) || key == "anchor"@ || key
                == "object_id"@
            &&& keyed || node is None || !text::has_prefix(node->0, "p"@) ==> payload
                == json::JsonView::Members(members)
        }),
{
    lemma_panel_node(n);
    reveal_strlit("p");
    reveal_strlit("anchor");
    reveal_strlit("object_id");
    assert("anchor"@.len() != "object_id"@.len());
    let node = event.text_member("source_node_key"@);
    if node is Some && panel_digits(node->0) is Some {
        assert(node->0.subrange(0, 1) =~= "p"@);
    }
}

} // verus!
