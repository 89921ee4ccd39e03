use bevy_nui_plugins::pointer::{
    active_modifiers, last_logical_pixel, mouse_button_name, pointer_request,
    pressed_mouse_buttons, publish_pointer_events, queue_pointer_event, take_pointer_events,
    takes_wheel, MouseButton, Neon3PointerEvents, Neon3PointerState, PointerInput, WheelTurn,
};
use bevy_nui_plugins::request::{RequestParams, RpcLane};
use bevy_nui_plugins::scalar::Scalar32;
use bevy_nui_plugins::session::{Neon3BevyConfig, Neon3Session};

fn scalar(x: f32) -> Scalar32 {
    Scalar32 { bits: x.to_bits() }
}

fn session() -> Neon3Session {
    let mut session = Neon3Session::new(Neon3BevyConfig::with_ui_sources(Vec::new()));
    session.surface_acquired = true;
    session.generation = 3;
    session.frame_sequence = 8;
    session
}

fn input(pixel: Option<[u32; 2]>) -> PointerInput {
    PointerInput {
        focused: true,
        pixel,
        pressed: [false; 5],
        just_pressed: [false; 5],
        just_released: [false; 5],
        modifiers: [false; 4],
        wheel: Vec::new(),
    }
}

fn kinds(queue: &Neon3PointerEvents) -> Vec<&str> {
    queue.events.iter().map(|e| e.event_type.as_str()).collect()
}

#[test]
fn buttons_and_modifiers_have_protocol_names() {
    assert_eq!(mouse_button_name(MouseButton::Left), "primary");
    assert_eq!(mouse_button_name(MouseButton::Right), "secondary");
    assert_eq!(mouse_button_name(MouseButton::Middle), "auxiliary");
    assert_eq!(mouse_button_name(MouseButton::Back), "back");
    assert_eq!(mouse_button_name(MouseButton::Forward), "forward");
    assert_eq!(mouse_button_name(MouseButton::Other(17)), "other:17");
    assert_eq!(pressed_mouse_buttons(&[true, false, true, false, true]), vec![
        "primary", "auxiliary", "forward"
    ]);
    assert!(pressed_mouse_buttons(&[false; 5]).is_empty());
    assert_eq!(active_modifiers(&[true, true, true, true]), vec![
        "shift", "control", "alt", "meta"
    ]);
    assert_eq!(active_modifiers(&[false, true, false, false]), vec!["control"]);
}

#[test]
fn logical_pixels_end_before_the_surface_does() {
    assert_eq!(last_logical_pixel(2560), 1279);
    assert_eq!(last_logical_pixel(3), 0);
    assert_eq!(last_logical_pixel(1), 0);
    assert_eq!(last_logical_pixel(0), 0);
}

#[test]
fn pointer_enters_moves_and_leaves() {
    let session = session();
    let mut queue = Neon3PointerEvents::default();
    let mut state = Neon3PointerState::default();
    publish_pointer_events(&session, &mut queue, &mut state, &input(Some([4, 5])));
    assert_eq!(kinds(&queue), vec!["enter", "move"]);
    assert!(state.inside && state.focused);
    assert_eq!(state.last_pixel, Some([4, 5]));
    publish_pointer_events(&session, &mut queue, &mut state, &input(Some([4, 5])));
    assert_eq!(queue.events.len(), 2);
    publish_pointer_events(&session, &mut queue, &mut state, &input(None));
    assert_eq!(kinds(&queue), vec!["enter", "move", "leave"]);
    assert_eq!(queue.events[2].pixel, Some([4, 5]));
    assert!(!state.inside);
    assert_eq!(state.last_pixel, None);
    let sequences: Vec<u64> = queue.events.iter().map(|e| e.sequence).collect();
    assert_eq!(sequences, vec![1, 2, 3]);
    assert_eq!((queue.events[0].generation, queue.events[0].frame_sequence), (3, 8));
}

#[test]
fn buttons_report_before_the_wheel() {
    let session = session();
    let mut queue = Neon3PointerEvents::default();
    let mut state = Neon3PointerState::default();
    let mut update = input(Some([1, 2]));
    update.pressed = [true, false, false, false, false];
    update.just_pressed = [true, false, false, false, false];
    update.just_released = [true, true, false, false, false];
    update.modifiers = [true, false, false, false];
    update.wheel = vec![
        WheelTurn { delta: [scalar(0.0), scalar(-1.5)], in_lines: true },
        WheelTurn { delta: [scalar(2.0), scalar(0.0)], in_lines: false },
    ];
    publish_pointer_events(&session, &mut queue, &mut state, &update);
    assert_eq!(kinds(&queue), vec!["enter", "move", "down", "up", "up", "wheel", "wheel"]);
    assert_eq!(queue.events[2].button.as_deref(), Some("primary"));
    assert_eq!(queue.events[4].button.as_deref(), Some("secondary"));
    assert_eq!(queue.events[2].buttons, vec!["primary"]);
    assert_eq!(queue.events[2].modifiers, vec!["shift"]);
    assert_eq!(queue.events[5].delta_mode, "line");
    assert_eq!(queue.events[5].delta, [scalar(0.0), scalar(-1.5)]);
    assert_eq!(queue.events[6].delta_mode, "pixel");
    assert_eq!(queue.events[6].button, None);
    queue.events.clear();
    let mut outside = input(None);
    outside.wheel = vec![WheelTurn { delta: [scalar(1.0), scalar(1.0)], in_lines: false }];
    publish_pointer_events(&session, &mut queue, &mut state, &outside);
    assert_eq!(kinds(&queue), vec!["leave", "wheel"]);
    assert_eq!(queue.events[1].pixel, Some([1, 2]));
}

#[test]
fn losing_the_focus_cancels_once() {
    let session = session();
    let mut queue = Neon3PointerEvents::default();
    let mut state = Neon3PointerState::default();
    let mut away = input(Some([9, 9]));
    away.focused = false;
    publish_pointer_events(&session, &mut queue, &mut state, &away);
    assert!(queue.events.is_empty());
    publish_pointer_events(&session, &mut queue, &mut state, &input(Some([1, 1])));
    queue.events.clear();
    publish_pointer_events(&session, &mut queue, &mut state, &away);
    assert_eq!(kinds(&queue), vec!["cancel"]);
    assert_eq!(queue.events[0].pixel, Some([1, 1]));
    assert!(!state.focused && state.inside);
    publish_pointer_events(&session, &mut queue, &mut state, &away);
    assert_eq!(queue.events.len(), 1);
}

#[test]
fn wheel_is_taken_with_surface_and_focus() {
    let mut session = session();
    assert!(takes_wheel(&session, true));
    assert!(!takes_wheel(&session, false));
    session.surface_acquired = false;
    assert!(!takes_wheel(&session, true));
}

#[test]
fn nothing_is_queued_without_a_surface() {
    let mut session = session();
    session.surface_acquired = false;
    let mut queue = Neon3PointerEvents::default();
    let mut state = Neon3PointerState::default();
    publish_pointer_events(&session, &mut queue, &mut state, &input(Some([1, 1])));
    assert!(queue.events.is_empty());
    assert!(!state.focused);
}

#[test]
fn full_pointer_queue_gives_up_its_oldest_event() {
    let session = session();
    let mut queue = Neon3PointerEvents::default();
    let mut state = Neon3PointerState::default();
    for _ in 0..2050 {
        queue_pointer_event(
            &mut queue,
            &mut state,
            &session,
            "down",
            None,
            [scalar(0.0), scalar(0.0)],
            "pixel",
            None,
            Vec::new(),
            Vec::new(),
        );
    }
    assert_eq!(queue.events.len(), 2048);
    assert_eq!(queue.events[0].sequence, 3);
    assert_eq!(queue.events[2047].sequence, 2050);
}

#[test]
fn runs_of_moves_collapse_to_the_newest() {
    let session = session();
    let mut queue = Neon3PointerEvents::default();
    let mut state = Neon3PointerState::default();
    for kind in ["move", "move", "down", "move", "up", "move", "move", "move"] {
        queue_pointer_event(
            &mut queue,
            &mut state,
            &session,
            kind,
            Some([0, 0]),
            [scalar(0.0), scalar(0.0)],
            "pixel",
            None,
            Vec::new(),
            Vec::new(),
        );
    }
    let events = take_pointer_events(&mut queue);
    assert!(queue.events.is_empty());
    let kept: Vec<(&str, u64)> =
        events.iter().map(|e| (e.event_type.as_str(), e.sequence)).collect();
    assert_eq!(kept, vec![("move", 2), ("down", 3), ("move", 4), ("up", 5), ("move", 8)]);
}

#[test]
fn pointer_requests_go_to_the_screen_surface() {
    let session = session();
    let mut queue = Neon3PointerEvents::default();
    let mut state = Neon3PointerState::default();
    let mut update = input(None);
    update.just_pressed = [true, false, false, false, false];
    publish_pointer_events(&session, &mut queue, &mut state, &update);
    let delta = serde_json::Value::from(vec![0.5f32, 1.0]);
    let request = pointer_request(&session, &queue.events[0], delta, 77, 6);
    assert_eq!(request.lane, RpcLane::Interaction);
    assert_eq!(request.request.request_id, "bevy-pointer-1");
    assert_eq!(request.request.method, "ui.host.inbound");
    let expected: serde_json::Value = serde_json::from_str(
        r#"{"kind": "pointer_event", "event": {
            "event_type": "down", "surface_id": "case.bevy.screen.ui", "pixel": [0, 0],
            "delta": [0.5, 1.0], "delta_mode": "pixel", "button": "primary", "buttons": [],
            "modifiers": [], "pointer_id": 0, "sequence": 1, "generation": 3,
            "frame_sequence": 8, "timestamp_monotonic_ns": 77}}"#,
    )
    .expect("test JSON");
    match &request.request.params {
        RequestParams::Json(value) => assert_eq!(*value, expected),
        _ => panic!("JSON parameters"),
    }
    let mut wheel = queue.events[0].clone();
    wheel.button = None;
    wheel.pixel = Some([7, 8]);
    wheel.buttons = vec!["primary".into(), "back".into()];
    let second = pointer_request(&session, &wheel, serde_json::Value::Null, 78, 6);
    match &second.request.params {
        RequestParams::Json(value) => {
            let event = value.get("event").expect("event");
            assert_eq!(event.get("button"), Some(&serde_json::Value::Null));
            assert_eq!(event.get("pixel"), Some(&serde_json::Value::from(vec![7, 8])));
            assert_eq!(
                event.get("buttons"),
                Some(&serde_json::Value::from(vec!["primary", "back"]))
            );
        }
        _ => panic!("JSON parameters"),
    }
}
