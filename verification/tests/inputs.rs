use bevy_nui_plugins::flow::{CharacterStatusVars, NuiFlowIdentity, UiInputFrame, UiInputValue};
use bevy_nui_plugins::inputs::{
    flush_character_status, flush_input_changes, flush_intents, input_sent, input_unsent,
    status_sent, status_unsent, Neon3InputChanges, Neon3Intent, Neon3IntentQueue,
};
use bevy_nui_plugins::request::{RequestParams, RpcLane, TransportRequest};
use bevy_nui_plugins::scalar::Scalar32;
use bevy_nui_plugins::session::{Neon3BevyConfig, Neon3Session};
use bevy_nui_plugins::ui::{CharacterStatusBridge, NeonScreenUi, NeonWorldUi, WorldUiOcclusion};

fn scalar(x: f32) -> Scalar32 {
    Scalar32 { bits: x.to_bits() }
}

fn session(world_ui: bool) -> Neon3Session {
    let mut session = Neon3Session::new(Neon3BevyConfig::with_ui_sources(Vec::new()));
    session.config.world_ui = world_ui;
    session
}

fn ready_bridge() -> CharacterStatusBridge {
    let mut bridge = CharacterStatusBridge::default();
    bridge.flow_ready = true;
    bridge.identity.expected_input_revision = 4;
    bridge
}

fn identity() -> NuiFlowIdentity {
    CharacterStatusBridge::default().identity
}

fn vars(level: u32) -> CharacterStatusVars {
    CharacterStatusVars { health: scalar(82.0), mana: scalar(64.0), level }
}

fn screen() -> NeonScreenUi<CharacterStatusVars> {
    NeonScreenUi::new("character-status".into(), vars(12), identity())
}

fn monster(anchor: &str, level: u32) -> NeonWorldUi<CharacterStatusVars> {
    NeonWorldUi {
        flow: "character-status".into(),
        vars: vars(level),
        identity: identity(),
        anchor: anchor.into(),
        offset: [scalar(0.0); 3],
        sent: None,
        visible: true,
        occlusion: WorldUiOcclusion::DepthTested,
    }
}

fn frame(request: &TransportRequest) -> &UiInputFrame {
    match &request.request.params {
        RequestParams::Input(frame) => frame,
        _ => panic!("input parameters"),
    }
}

fn keys(request: &TransportRequest) -> Vec<&str> {
    frame(request).changes.iter().map(|c| c.key.as_str()).collect()
}

#[test]
fn intents_are_sent_with_the_current_identity() {
    let mut queue = Neon3IntentQueue::default();
    for (action, id) in [("kick", "i-1"), ("open", "i-2")] {
        queue.events.push(Neon3Intent {
            action: action.into(),
            params: serde_json::Value::from(vec![1, 2]),
            request_id: id.into(),
        });
    }
    let requests = flush_intents(&mut queue, &session(false), &ready_bridge(), 9);
    assert!(queue.events.is_empty());
    assert_eq!(requests.len(), 2);
    assert_eq!(requests[1].request.request_id, "i-2");
    assert_eq!(requests[0].lane, RpcLane::Interaction);
    assert_eq!(requests[0].request.method, "ui.host.inbound");
    let expected: serde_json::Value = serde_json::from_str(
        r#"{"kind": "semantic_intent", "event": {"event_id": "i-1", "kind": "activate",
            "intent": "kick", "source_node_key": "bevy.pointer.click", "payload": [1, 2],
            "program_revision": {"program_id": "character.player.main.status", "revision": 1,
                "schema_version": 1, "capabilities": []},
            "input_revision": 4, "request_id": "i-1",
            "idempotency_key": "bevy-ui-intent:i-1"}}"#,
    )
    .expect("test JSON");
    match &requests[0].request.params {
        RequestParams::Json(value) => assert_eq!(*value, expected),
        _ => panic!("JSON parameters"),
    }
}

#[test]
fn program_revisions_with_capabilities_are_written_in_full() {
    let mut queue = Neon3IntentQueue::default();
    queue.events.push(Neon3Intent {
        action: "a".into(),
        params: serde_json::Value::Null,
        request_id: "i".into(),
    });
    let text = r#"{"program_id": "p", "revision": 7, "schema_version": 2, "capabilities": [
        {"name": "c", "version": 3, "owner": "shared_contract", "status": "deprecated"}]}"#;
    let written: serde_json::Value = serde_json::from_str(text).expect("test JSON");
    let mut bridge = ready_bridge();
    bridge.identity.program_revision = serde_json::from_str(text).expect("program revision");
    let requests = flush_intents(&mut queue, &session(false), &bridge, 9);
    match &requests[0].request.params {
        RequestParams::Json(value) => {
            let event = value.get("event").expect("event");
            assert_eq!(event.get("program_revision"), Some(&written));
        }
        _ => panic!("JSON parameters"),
    }
}

#[test]
fn host_variables_wait_until_the_flow_takes_them() {
    let session = session(false);
    let mut changes = Neon3InputChanges::default();
    let mut bridge = ready_bridge();
    assert!(flush_input_changes(&mut changes, &mut bridge, &session, 9).is_none());
    changes.changes.insert("b".into(), UiInputValue::U32 { value: 2 });
    changes.changes.insert("a".into(), UiInputValue::U32 { value: 1 });
    bridge.flow_ready = false;
    assert!(flush_input_changes(&mut changes, &mut bridge, &session, 9).is_none());
    bridge.flow_ready = true;
    bridge.input_pending = true;
    assert!(flush_input_changes(&mut changes, &mut bridge, &session, 9).is_none());
    bridge.input_pending = false;
    let pending = flush_input_changes(&mut changes, &mut bridge, &session, 9).expect("frame");
    assert!(changes.changes.is_empty());
    assert_eq!(keys(&pending.request), vec!["a", "b"]);
    assert_eq!(pending.request.request.request_id, "nui-flow:host-changes:1");
    assert_eq!(pending.request.request.method, "ui.input.frame");
    assert_eq!(frame(&pending.request).idempotency_key, "nui-flow:host-changes:1");
    assert_eq!(frame(&pending.request).expected_input_revision, 4);
    input_unsent(&mut changes, pending.values);
    assert_eq!(changes.changes.len(), 2);
    assert_eq!(changes.changes.get("b"), Some(&UiInputValue::U32 { value: 2 }));
    let again = flush_input_changes(&mut changes, &mut bridge, &session, 9).expect("frame");
    assert_eq!(again.request.request.request_id, "nui-flow:host-changes:2");
    input_sent(&mut bridge);
    assert!(bridge.input_pending);
}

#[test]
fn first_status_frame_is_full_and_later_ones_are_sparse() {
    let mut session = session(false);
    let mut bridge = ready_bridge();
    let mut screen = screen();
    let flush = flush_character_status(&mut bridge, &session, &[], Some(&mut screen), 9)
        .expect("full frame");
    assert_eq!(keys(&flush.request), vec!["health", "mana", "level"]);
    assert_eq!(flush.request.request.request_id, "nui-flow:combined-ui:1");
    assert_eq!(screen.identity.request_sequence, 1);
    assert!(flush.rows.is_none());
    status_sent(&mut bridge, &mut session, Some(&mut screen), flush.rows, flush.screen_vars);
    assert!(bridge.input_pending);
    assert_eq!(screen.sent, Some(vars(12)));
    screen.vars.level = 13;
    assert!(flush_character_status(&mut bridge, &session, &[], Some(&mut screen), 9).is_none());
    assert_eq!(screen.identity.request_sequence, 1);
    bridge.input_pending = false;
    let sparse = flush_character_status(&mut bridge, &session, &[], Some(&mut screen), 9)
        .expect("sparse frame");
    assert_eq!(keys(&sparse.request), vec!["level"]);
    assert_eq!(sparse.screen_vars, Some(vars(13)));
    status_unsent(&mut bridge);
    assert!(!bridge.input_pending);
    screen.sent = Some(vars(13));
    assert!(flush_character_status(&mut bridge, &session, &[], Some(&mut screen), 9).is_none());
    assert!(flush_character_status(&mut bridge, &session, &[], None, 9).is_none());
    assert_eq!(bridge.identity.request_sequence, 2);
}

#[test]
fn monsters_fill_the_slots_of_their_number() {
    let mut session = session(true);
    let mut bridge = ready_bridge();
    let far = monster("monster.m10", 1);
    let near = monster("monster.m2", 2);
    let person = monster("npc.blacksmith", 3);
    let mut hidden = monster("monster.m3", 4);
    hidden.visible = false;
    let padded = monster("monster.m007", 5);
    let world = [&near, &person, &far, &hidden, &padded];
    let flush = flush_character_status(&mut bridge, &session, &world, None, 9).expect("rows");
    assert_eq!(
        keys(&flush.request),
        vec![
            "health7", "level7", "mana7", "health10", "level10", "mana10", "health2", "level2",
            "mana2"
        ]
    );
    let rows = flush.rows.as_ref().expect("changed rows");
    let anchors: Vec<&str> = rows.iter().map(|r| r.stable_row_key.as_str()).collect();
    assert_eq!(anchors, vec!["monster.m007", "monster.m10", "monster.m2"]);
    assert_eq!(rows[1].values.get("level10"), Some(&UiInputValue::U32 { value: 1 }));
    status_sent(&mut bridge, &mut session, None, flush.rows, flush.screen_vars);
    bridge.input_pending = false;
    assert!(flush_character_status(&mut bridge, &session, &world, None, 9).is_none());
    let weaker = monster("monster.m2", 1);
    let changed = flush_character_status(&mut bridge, &session, &[&weaker], None, 9);
    assert_eq!(keys(&changed.expect("rows").request), vec!["health2", "level2", "mana2"]);
}

#[test]
fn refused_status_is_sent_again_in_full() {
    let mut session = session(true);
    let mut bridge = ready_bridge();
    let mut screen = screen();
    let monster = monster("monster.m1", 2);
    let flush = flush_character_status(&mut bridge, &session, &[&monster], Some(&mut screen), 9)
        .expect("frame");
    let all = vec!["health1", "level1", "mana1", "health", "mana", "level"];
    assert_eq!(keys(&flush.request), all);
    status_sent(&mut bridge, &mut session, Some(&mut screen), flush.rows, flush.screen_vars);
    bridge.input_pending = false;
    session.world_ui_snapshot = None;
    screen.sent = None;
    let again = flush_character_status(&mut bridge, &session, &[&monster], Some(&mut screen), 9)
        .expect("frame");
    assert_eq!(keys(&again.request), all);
}

#[test]
fn world_rows_stay_home_without_world_interfaces() {
    let mut bridge = ready_bridge();
    let monster = monster("monster.m1", 2);
    assert!(flush_character_status(&mut bridge, &session(false), &[&monster], None, 9).is_none());
}
