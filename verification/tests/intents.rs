use bevy_nui_plugins::events::{
    consume_variable_events, queue_variable_event, variable_event_from_frame, Neon3VariableEvent,
    Neon3VariableEvents, MAX_PENDING_VARIABLE_EVENTS, MAX_VARIABLE_EVENTS,
};
use bevy_nui_plugins::intents::{
    semantic_intent_from_result, semantic_intent_targets, CharacterStatusScreenKey,
    MonsterStatusWorldKey, Neon3SemanticIntentEvents, Neon3SemanticInteractionKey,
    MAX_SEMANTIC_EVENTS,
};
use serde_json::Value;

fn parse(text: &str) -> Value {
    serde_json::from_str(text).expect("test JSON")
}

#[test]
fn semantic_response_round_trip_extracts_physics_kick() {
    let result = parse(
        r#"{
            "state": "accepted",
            "semantic_intent": {
                "event_id": "wgpu-pointer-click-1",
                "intent": "phys.kick.12",
                "source_node_key": "phys-tag-12",
                "payload": {},
                "requested_value": null
            }
        }"#,
    );
    let event = semantic_intent_from_result(&result, "bevy-pointer-1")
        .expect("semantic response must reach the host event queue");
    assert_eq!(event.intent, "phys.kick.12");
    assert_eq!(event.source_node_key.as_deref(), Some("phys-tag-12"));
}

#[test]
fn intent_is_found_under_each_of_its_names() {
    for text in [
        r#"{"semantic_intent": {"intent": "a"}, "semantic_event": {"intent": "b"}}"#,
        r#"{"semantic_event": {"intent": "a"}, "renderer": {"semantic_event": {"intent": "b"}}}"#,
        r#"{"renderer": {"semantic_event": {"intent": "a"}}, "result": {"semantic_intent": {"intent": "b"}}}"#,
        r#"{"result": {"semantic_intent": {"intent": "a"}}, "intent": "b"}"#,
        r#"{"intent": "a"}"#,
        r#"{"intent": {"action": "a"}}"#,
    ] {
        let event = semantic_intent_from_result(&parse(text), "id").expect("intent");
        assert_eq!(event.intent, "a");
        assert_eq!(event.request_id, "id");
        assert_eq!(event.payload, parse("{}"));
        assert_eq!(event.requested_value, None);
    }
    for text in [
        r#"{}"#,
        r#"null"#,
        r#"{"intent": 4}"#,
        r#"{"semantic_intent": null, "intent": "a"}"#,
        r#"{"intent": {"action": 4}}"#,
    ] {
        assert!(semantic_intent_from_result(&parse(text), "id").is_none());
    }
}

#[test]
fn interaction_key_is_carried_or_implied() {
    let key = |text: &str| {
        semantic_intent_from_result(&parse(text), "id").expect("intent").interaction_key
    };
    let status = Some("character.player.main.status".to_string());
    let monster = Some("monster.status".to_string());
    assert_eq!(key(r#"{"intent": "a", "interaction_key": "k"}"#), Some("k".to_string()));
    assert_eq!(key(r#"{"intent": "a", "semantic_key": "k"}"#), Some("k".to_string()));
    assert_eq!(key(r#"{"intent": "a", "source_node_key": "status-root"}"#), status);
    assert_eq!(key(r#"{"intent": "a", "source_node_key": "status-action"}"#), status);
    assert_eq!(key(r#"{"intent": "a", "source_node_key": "p12"}"#), monster);
    assert_eq!(key(r#"{"intent": "a", "source_node_key": "p"}"#), None);
    assert_eq!(key(r#"{"intent": "a", "source_node_key": "p1x"}"#), None);
    assert_eq!(key(r#"{"intent": "a", "source_node_key": "q1"}"#), None);
    assert_eq!(
        key(r#"{"intent": "a", "interaction_key": 4, "semantic_key": "k", "source_node_key": "p1"}"#),
        monster
    );
}

#[test]
fn monster_panel_names_its_monster_in_the_payload() {
    let event = semantic_intent_from_result(
        &parse(r#"{"intent": "a", "source_node_key": "p07", "payload": {"x": 1}}"#),
        "id",
    )
    .expect("intent");
    assert_eq!(
        event.payload,
        parse(r#"{"x": 1, "anchor": "monster.m07", "object_id": "monster.m07"}"#)
    );
    let given = semantic_intent_from_result(
        &parse(r#"{"intent": "a", "source_node_key": "p7", "payload": {"anchor": "own"}}"#),
        "id",
    )
    .expect("intent");
    assert_eq!(given.payload, parse(r#"{"anchor": "own", "object_id": "monster.m7"}"#));
    let list = semantic_intent_from_result(
        &parse(r#"{"intent": "a", "source_node_key": "p7", "payload": [1]}"#),
        "id",
    )
    .expect("intent");
    assert_eq!(list.payload, parse("[1]"));
    let keyed = semantic_intent_from_result(
        &parse(
            r#"{"intent": "a", "source_node_key": "p7", "interaction_key": "k", "payload": {},
                "requested_value": [2]}"#,
        ),
        "id",
    )
    .expect("intent");
    assert_eq!(keyed.payload, parse("{}"));
    assert_eq!(keyed.requested_value, Some(parse("[2]")));
}

#[test]
fn intents_are_told_apart_by_type() {
    let event = semantic_intent_from_result(
        &parse(r#"{"intent": "a", "source_node_key": "p1"}"#),
        "id",
    )
    .expect("intent");
    assert!(semantic_intent_targets::<MonsterStatusWorldKey>(&event));
    assert!(!semantic_intent_targets::<CharacterStatusScreenKey>(&event));
    assert_eq!(CharacterStatusScreenKey::KEY, "character.player.main.status");
    assert_eq!(MonsterStatusWorldKey::KEY, "monster.status");
    let plain = semantic_intent_from_result(&parse(r#"{"intent": "a"}"#), "id").expect("intent");
    assert!(!semantic_intent_targets::<MonsterStatusWorldKey>(&plain));
}

#[test]
fn intent_queue_keeps_the_newest_and_drains() {
    let mut queue = Neon3SemanticIntentEvents::default();
    let result = parse(r#"{"intent": "a"}"#);
    for i in 0..MAX_SEMANTIC_EVENTS + 2 {
        queue.push(semantic_intent_from_result(&result, &i.to_string()).expect("intent"));
    }
    assert_eq!(queue.events.len(), MAX_SEMANTIC_EVENTS);
    let drained = queue.drain();
    assert_eq!(drained.len(), 4096);
    assert_eq!(drained[0].request_id, "2");
    assert_eq!(drained[4095].request_id, "4097");
    assert!(queue.events.is_empty());
}

#[test]
fn variable_events_are_read_from_frames() {
    let event = variable_event_from_frame(&parse(
        r#"{"event": {"name": "flow.x", "epoch": 2, "sequence": 9, "payload": {"v": 1}}}"#,
    ))
    .expect("event");
    assert_eq!(event.name, "flow.x");
    assert_eq!((event.epoch, event.sequence), (2, 9));
    assert_eq!(event.payload, parse(r#"{"v": 1}"#));
    let bare = variable_event_from_frame(&parse(r#"{"event": {"name": "n", "epoch": -1}}"#))
        .expect("event");
    assert_eq!((bare.epoch, bare.sequence), (0, 0));
    assert_eq!(bare.payload, Value::Null);
    assert!(variable_event_from_frame(&parse(r#"{"kind": "ack"}"#)).is_none());
    assert!(variable_event_from_frame(&parse(r#"{"event": {"name": 3}}"#)).is_none());
}

#[test]
fn variable_event_queues_keep_the_newest() {
    let event = |n: u64| Neon3VariableEvent {
        name: "flow.x".into(),
        epoch: 1,
        sequence: n,
        payload: Value::Null,
    };
    let mut pending = Vec::new();
    for n in 0..MAX_PENDING_VARIABLE_EVENTS as u64 + 3 {
        queue_variable_event(&mut pending, event(n));
    }
    assert_eq!(pending.len(), 4096);
    assert_eq!(pending[0].sequence, 3);
    let mut output = Neon3VariableEvents::default();
    output.events.push(event(100_000));
    consume_variable_events(&mut output, &mut pending);
    assert!(pending.is_empty());
    assert_eq!(output.events.len(), MAX_VARIABLE_EVENTS);
    assert_eq!(output.events[0].sequence, 3);
    assert_eq!(output.events[4095].sequence, 4098);
}
