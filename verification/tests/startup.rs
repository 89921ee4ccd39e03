use bevy_nui_plugins::request::{
    health_request, rpc_request_for, ClientKind, RequestParams, RpcLane,
};
use bevy_nui_plugins::session::{Neon3BevyConfig, Neon3ServiceMode, Neon3Session, WORLD_SPACE_ID};
use bevy_nui_plugins::startup::{
    next_health_step, request_screen_surface, request_world_info, request_world_surface,
    screen_surface_unsent, start_owned_services, switch_is_on, unhealthy_message,
    variable_subscription, HealthStep, ServiceStep,
};
use bevy_nui_plugins::text::{
    contains_text, decimal_text, parse_unsigned, starts_with, text_order, TextOrder,
};
use bevy_nui_plugins::transport::{
    after_call, after_connect, route_name, timestamp_from_nanos, CallStep, ConnectStep, RouteTable,
};

fn session() -> Neon3Session {
    Neon3Session::new(Neon3BevyConfig::with_ui_sources(vec!["flow".into()]))
}

fn parse(text: &str) -> serde_json::Value {
    serde_json::from_str(text).expect("test JSON")
}

fn json(params: &RequestParams) -> &serde_json::Value {
    match params {
        RequestParams::Json(value) => value,
        _ => panic!("JSON parameters"),
    }
}

#[test]
fn standard_configuration_is_local_and_headless() {
    let config = Neon3BevyConfig::with_ui_sources(vec!["flow".into()]);
    assert_eq!(config.wgpu_endpoint, "127.0.0.1:39103");
    assert_eq!(config.ui_endpoint, "127.0.0.1:39102");
    assert_eq!(config.eventd_endpoint, None);
    assert_eq!(config.session_id, "bevy-nui-host");
    assert_eq!(config.surface_size, [2560, 1440]);
    assert_eq!(config.ui_sources, vec!["flow"]);
    assert!(!config.world_ui);
    assert_eq!(config.service_mode, Neon3ServiceMode::default());
    assert!(config.auto_start_services);
    assert!(config.starts_services());
    let external = Neon3BevyConfig { service_mode: Neon3ServiceMode::External, ..config.clone() };
    assert!(!external.starts_services());
    let manual = Neon3BevyConfig { auto_start_services: false, ..config };
    assert!(!manual.starts_services());
}

#[test]
fn session_starts_unconnected() {
    let session = session();
    assert_eq!(session.surface_id, "case.bevy.screen.ui");
    assert_eq!(session.color_target_id, "case.bevy.screen.ui.color");
    assert_eq!((session.generation, session.producer_epoch), (0, 1));
    assert_eq!((session.frame_sequence, session.world_frame_sequence), (0, 0));
    assert!(!session.connected && !session.acquire_requested);
    assert!(!session.surface_acquired && !session.world_surface_acquired);
    assert!(session.last_error.is_none() && session.world_ui_snapshot.is_none());
    assert!(!session.world_is_published());
}

#[test]
fn requests_name_their_service_by_method() {
    let params = || RequestParams::Json(parse("{}"));
    let ui = rpc_request_for("one".into(), "ui.flow.submit", &session(), 4, params());
    assert_eq!(ui.target, "ui-runtime");
    assert_eq!(ui.idempotency_key.as_deref(), Some("bevy:ui.flow.submit:one"));
    assert_eq!(ui.expected_revision, None);
    assert_eq!(ui.client_pid, 4);
    let wgpu = rpc_request_for("two".into(), "render.surface.open", &session(), 4, params());
    assert_eq!(wgpu.target, "wgpu-runtime");
    let near = rpc_request_for("three".into(), "ui", &session(), 4, params());
    assert_eq!(near.target, "wgpu-runtime");
}

#[test]
fn screen_surface_is_opened_without_depth() {
    let mut session = session();
    let request = request_screen_surface(&session, 4);
    assert_eq!(request.lane, RpcLane::WorldLatest);
    assert_eq!(request.endpoint, "127.0.0.1:39103");
    assert_eq!(request.request.request_id, "bevy-surface-open");
    assert_eq!(request.request.method, "render.surface.open");
    assert_eq!(
        *json(&request.request.params),
        parse(
            r#"{"session_id": "bevy-nui-host", "surface_id": "case.bevy.screen.ui",
                "kind": "screen_ui", "size": {"width": 2560, "height": 1440},
                "format": "rgba8unorm", "color_space": "linear", "depth": false,
                "buffer_count": 3, "placement": null, "targets": [
                    {"target_id": "case.bevy.screen.ui.color", "kind": "color",
                     "format": "rgba8unorm"}]}"#
        )
    );
    let read: neon_protocol::RenderSurfaceOpen =
        serde_json::from_value(json(&request.request.params).clone()).expect("protocol form");
    assert_eq!(read.buffer_count, 3);
    screen_surface_unsent(&mut session);
    assert_eq!(session.last_error.as_deref(), Some("neon_transport_closed"));
}

#[test]
fn world_surface_has_depth_unless_switched_off() {
    let session = session();
    let request = request_world_surface(&session, None, 4);
    assert_eq!(request.request.request_id, "bevy-world-surface-open");
    assert_eq!(
        *json(&request.request.params),
        parse(
            r#"{"session_id": "bevy-nui-host", "surface_id": "case.bevy.world.ui",
                "kind": "world_ui", "size": {"width": 2560, "height": 1440},
                "format": "rgba8unorm", "color_space": "linear", "depth": true,
                "buffer_count": 3, "placement": {"anchor_id": null, "position": null,
                    "rotation": null, "scale": null, "billboard": true,
                    "occlusion": "depth_tested"}, "targets": [
                    {"target_id": "case.bevy.world.ui.color", "kind": "color",
                     "format": "rgba8unorm"}]}"#
        )
    );
    let flat = request_world_surface(&session, Some("1"), 4);
    assert_eq!(json(&flat.request.params).get("depth"), Some(&serde_json::Value::from(false)));
    assert!(switch_is_on(Some("1")));
    assert!(!switch_is_on(Some("true")));
    assert!(!switch_is_on(None));
}

#[test]
fn world_space_is_described_in_meters() {
    let request = request_world_info(&session(), 4);
    assert_eq!(request.request.request_id, "bevy-world-info");
    assert_eq!(request.request.method, "wgpu.world.info.configure");
    match &request.request.params {
        RequestParams::WorldInformation(world) => {
            assert_eq!(world.world_space_id, WORLD_SPACE_ID);
            assert_eq!(world.revision, 1);
            assert_eq!(f64::from_bits(world.units_per_meter.bits), 1.0);
        }
        _ => panic!("world parameters"),
    }
}

#[test]
fn subscription_asks_for_all_flow_events() {
    let frame = variable_subscription(12);
    assert_eq!(
        frame,
        parse(
            r#"{"kind": "subscribe", "protocol": "neon3.event",
                "version": {"major": 1, "minor": 0},
                "request_id": "bevy-variable-subscribe",
                "client": {"kind": "external_host", "instance_id": "bevy-nui-host", "pid": 12,
                    "origin": "neon3-bevy-nui-host"},
                "filters": [{"name": null, "name_prefix": "flow.", "publisher_kinds": null}]}"#
        )
    );
}

#[test]
fn health_requests_name_their_target() {
    let request = health_request("ui-runtime", 3);
    assert_eq!(request.request_id, "bevy-plugin-health-ui-runtime");
    assert_eq!(request.target, "ui-runtime");
    assert_eq!(request.method, "service.health");
    assert_eq!(request.client_instance_id, "neon3-bevy-plugin-startup");
    assert_eq!(request.client_kind, ClientKind::ExternalHost);
    assert_eq!(request.client_origin, "neon3-bevy-plugin");
    assert_eq!(request.protocol, "neon3.rpc");
    assert_eq!((request.version_major, request.version_minor), (1, 0));
    assert_eq!(*json(&request.params), parse("{}"));
    assert_eq!(request.idempotency_key.as_deref(), Some("bevy-plugin-health:ui-runtime"));
}

#[test]
fn services_start_in_order() {
    let mut config = Neon3BevyConfig::with_ui_sources(Vec::new());
    let tail = [ServiceStep::AwaitRenderer, ServiceStep::StartUiForwarder, ServiceStep::AwaitUi];
    let mut headless = vec![ServiceStep::StartHeadlessRenderer];
    headless.extend(tail);
    assert_eq!(start_owned_services(&config), headless);
    config.eventd_endpoint = Some("127.0.0.1:39104".into());
    config.service_mode = Neon3ServiceMode::AutoWindowed;
    let mut windowed = vec![ServiceStep::StartEvents, ServiceStep::StartWindowedRenderer];
    windowed.extend(tail);
    assert_eq!(start_owned_services(&config), windowed);
    config.eventd_endpoint = None;
    config.service_mode = Neon3ServiceMode::External;
    assert_eq!(start_owned_services(&config), tail.to_vec());
}

#[test]
fn services_are_asked_until_the_deadline() {
    assert_eq!(next_health_step(None, 0), HealthStep::Ask);
    assert_eq!(next_health_step(None, 9_999), HealthStep::Ask);
    assert_eq!(next_health_step(None, 10_000), HealthStep::GiveUp);
    assert_eq!(next_health_step(Some(false), 20_000), HealthStep::Pause);
    assert_eq!(next_health_step(Some(true), 20_000), HealthStep::Ready);
    assert_eq!(
        unhealthy_message("ui-runtime", "127.0.0.1:39102"),
        "[neon3-bevy-plugin] ui-runtime did not become healthy at 127.0.0.1:39102"
    );
}

#[test]
fn lanes_take_separate_routes() {
    let mut routes = RouteTable::new();
    let world = routes.route_for("a", RpcLane::WorldLatest);
    let interaction = routes.route_for("a", RpcLane::Interaction);
    assert!(world.is_new && interaction.is_new);
    assert_ne!(world.number, interaction.number);
    let again = routes.route_for("a", RpcLane::WorldLatest);
    assert!(!again.is_new);
    assert_eq!(again.number, world.number);
    routes.forget("a", RpcLane::WorldLatest);
    let reopened = routes.route_for("a", RpcLane::WorldLatest);
    assert!(reopened.is_new);
    assert_eq!(reopened.number, 2);
    assert!(!routes.route_for("a", RpcLane::Interaction).is_new);
    assert_eq!(routes.opened_count(), 3);
    assert_eq!(route_name("a", RpcLane::WorldLatest), "neon3-bevy-rpc-a-WorldLatest");
    assert_eq!(route_name("b", RpcLane::Interaction), "neon3-bevy-rpc-b-Interaction");
}

#[test]
fn failed_call_is_repeated_once() {
    assert!(matches!(after_connect(None, Ok(())), ConnectStep::Call));
    match after_connect(None, Err("down".into())) {
        ConnectStep::Fail(message) => assert_eq!(message, "down"),
        ConnectStep::Call => panic!("no connection"),
    }
    match after_connect(Some("cut".into()), Err("down".into())) {
        ConnectStep::Fail(message) => assert_eq!(message, "cut; reconnect failed: down"),
        ConnectStep::Call => panic!("no connection"),
    }
    match after_call(None, Ok::<u8, String>(5)) {
        CallStep::Done(result) => assert_eq!(result, Ok(5)),
        CallStep::Retry(_) => panic!("answered"),
    }
    match after_call::<u8>(None, Err("cut".into())) {
        CallStep::Retry(first) => assert_eq!(first, "cut"),
        CallStep::Done(_) => panic!("one attempt is left"),
    }
    match after_call::<u8>(Some("cut".into()), Err("late".into())) {
        CallStep::Done(result) => assert_eq!(result, Err("cut; retry failed: late".into())),
        CallStep::Retry(_) => panic!("no attempt is left"),
    }
    match after_call(Some("cut".into()), Ok::<u8, String>(6)) {
        CallStep::Done(result) => assert_eq!(result, Ok(6)),
        CallStep::Retry(_) => panic!("answered"),
    }
    assert_eq!(timestamp_from_nanos(17), 17);
    assert_eq!(timestamp_from_nanos(u128::from(u64::MAX) + 1), u64::MAX);
}

#[test]
fn texts_are_searched_parsed_and_ordered() {
    assert!(starts_with("bevy-camera-1", "bevy-camera-"));
    assert!(!starts_with("bevy", "bevy-camera-"));
    assert!(contains_text("a resource b", "resource "));
    assert!(!contains_text("a resource", "resource "));
    assert!(contains_text("", ""));
    assert_eq!(decimal_text(0), "0");
    assert_eq!(decimal_text(u64::MAX), u64::MAX.to_string());
    for (text, max) in [("0012", 99), ("+7", 99), ("", 99), ("+", 99), ("1x", 99), ("300", 255)] {
        let expected = text.parse::<u64>().ok().filter(|n| *n <= max);
        assert_eq!(parse_unsigned(text, max), expected);
    }
    assert_eq!(parse_unsigned("18446744073709551615", u64::MAX), Some(u64::MAX));
    assert_eq!(parse_unsigned("18446744073709551616", u64::MAX), None);
    for (a, b) in [("a", "b"), ("a", "aa"), ("Z", "a"), ("z", "\u{e9}"), ("\u{ffff}", "\u{10000}")] {
        assert!(a < b);
        assert_eq!(text_order(a, b), TextOrder::Before);
        assert_eq!(text_order(b, a), TextOrder::After);
        assert_eq!(text_order(a, a), TextOrder::Same);
    }
}
