use bevy_nui_plugins::flow::{CharacterStatusVars, NuiFlowIdentity};
use bevy_nui_plugins::frames::WorldCoordinate;
use bevy_nui_plugins::intents::Neon3SemanticIntentEvents;
use bevy_nui_plugins::request::{RequestParams, RpcLane};
use bevy_nui_plugins::responses::{
    consume_neon_response, responses_unavailable, update_screen, ImageOutcome, ResponseEffects,
    RpcError, RpcResponse, RpcStatus, ScreenUpdate, TransportResponse,
};
use bevy_nui_plugins::scalar::{Scalar32, Scalar64};
use bevy_nui_plugins::session::{Neon3BevyConfig, Neon3ServiceMode, Neon3Session};
use bevy_nui_plugins::surface::{Neon3ExternalSurfaceHandles, Neon3WorldExternalSurfaceHandles};
use bevy_nui_plugins::ui::{CharacterStatusBridge, NeonScreenUi};
use bevy_nui_plugins::upload::Neon3ImageUploadState;
use bevy_nui_plugins::world::{
    flush_world_latest, publish_camera_snapshot, publish_world_anchor, HostCamera, HostProjection,
    LatestWorldSubmission,
};

struct Host {
    session: Neon3Session,
    latest: LatestWorldSubmission,
    uploads: Neon3ImageUploadState,
    handles: Neon3ExternalSurfaceHandles,
    world_handles: Neon3WorldExternalSurfaceHandles,
    bridge: CharacterStatusBridge,
    intents: Neon3SemanticIntentEvents,
}

impl Host {
    fn new() -> Self {
        Host {
            session: Neon3Session::new(Neon3BevyConfig::with_ui_sources(Vec::new())),
            latest: LatestWorldSubmission::default(),
            uploads: Neon3ImageUploadState::default(),
            handles: Neon3ExternalSurfaceHandles::default(),
            world_handles: Neon3WorldExternalSurfaceHandles::default(),
            bridge: CharacterStatusBridge::default(),
            intents: Neon3SemanticIntentEvents::default(),
        }
    }

    fn take(&mut self, response: TransportResponse) -> ResponseEffects {
        consume_neon_response(
            &mut self.session,
            &mut self.latest,
            &mut self.uploads,
            &mut self.handles,
            &mut self.world_handles,
            &mut self.bridge,
            &mut self.intents,
            response,
            900,
            31,
        )
    }

    /// Publishes and sends a camera with its anchors.
    fn with_world_in_flight() -> Self {
        let mut host = Host::new();
        host.session.config.world_ui = true;
        host.session.surface_acquired = true;
        host.session.world_surface_acquired = true;
        let zero = Scalar32 { bits: 0 };
        let origin = WorldCoordinate { wide: Scalar64 { bits: 0 }, narrow_bits: 0 };
        let projection = HostProjection::Perspective {
            vertical_fov_radians: zero,
            near: zero,
            far: zero,
        };
        let camera = HostCamera { position: [origin; 3], orientation: [zero; 4], projection };
        publish_camera_snapshot(&host.session, &mut host.latest, Some(camera), 1);
        publish_world_anchor(&host.session, &mut host.latest, Some(projection), &Vec::new(), 1);
        let flush = flush_world_latest(&mut host.session, &mut host.latest, 1, 31);
        assert!(flush.camera.is_some() && flush.anchors.is_some());
        host.latest.camera_sent();
        host.latest.anchors_sent();
        host
    }

    fn camera_flags(&self) -> (bool, bool) {
        let camera = self.latest.camera.as_ref().expect("camera");
        (camera.dirty, camera.in_flight)
    }

    fn anchor_flags(&self) -> (bool, bool) {
        let anchors = self.latest.anchors.as_ref().expect("anchors");
        (anchors.dirty, anchors.in_flight)
    }
}

fn parse(text: &str) -> serde_json::Value {
    serde_json::from_str(text).expect("test JSON")
}

fn reply(id: &str, status: RpcStatus, result: Option<&str>) -> TransportResponse {
    TransportResponse {
        lane: RpcLane::Interaction,
        request_id: id.into(),
        result: Ok(RpcResponse {
            request_id: id.into(),
            status,
            result: result.map(parse),
            error: None,
        }),
    }
}

fn accepted(id: &str, result: &str) -> TransportResponse {
    reply(id, RpcStatus::Accepted, Some(result))
}

fn refused(id: &str, result: Option<&str>, error: Option<RpcError>) -> TransportResponse {
    let mut response = reply(id, RpcStatus::Rejected, result);
    if let Ok(inner) = &mut response.result {
        inner.error = error;
    }
    response
}

fn failed(id: &str, lane: RpcLane) -> TransportResponse {
    TransportResponse { lane, request_id: id.into(), result: Err("cut".into()) }
}

fn request_id(effects: &ResponseEffects) -> Option<&str> {
    effects.request.as_ref().map(|r| r.request.request_id.as_str())
}

fn screen() -> NeonScreenUi<CharacterStatusVars> {
    let bridge = CharacterStatusBridge::default();
    let vars = bridge.current;
    let mut screen = NeonScreenUi::new(
        "character-status".into(),
        vars,
        NuiFlowIdentity { request_sequence: 6, ..bridge.identity },
    );
    screen.sent = Some(vars);
    screen
}

const BUFFERS: &str = r#"{"texture_handle": 40, "fence_handle": 41, "buffers": [
    {"buffer_index": 2, "color_texture_handle": 1, "color_fence_handle": 2,
     "consumer_release_fence_handle": 3}]}"#;

#[test]
fn accepted_reply_connects_the_session() {
    let mut host = Host::new();
    host.session.last_error = Some("old".into());
    let effects = host.take(accepted("any", r#"{"generation": 4, "producer_epoch": 9}"#));
    assert!(host.session.connected);
    assert_eq!(host.session.last_error, None);
    assert_eq!((host.session.generation, host.session.producer_epoch), (4, 9));
    assert!(effects.image.is_none() && effects.request.is_none());
    host.take(accepted("any", r#"{"producer_epoch": 0}"#));
    assert_eq!((host.session.generation, host.session.producer_epoch), (4, 9));
    host.take(reply("any", RpcStatus::Accepted, None));
    assert!(host.session.connected);
}

#[test]
fn opened_surfaces_are_acquired() {
    let mut host = Host::new();
    let effects = host.take(accepted("bevy-surface-open", "{}"));
    assert_eq!(request_id(&effects), Some("bevy-surface-acquire"));
    let request = effects.request.expect("acquisition");
    assert_eq!(request.request.method, "render.surface.acquire");
    assert_eq!(request.lane, RpcLane::WorldLatest);
    match &request.request.params {
        RequestParams::Json(value) => {
            assert_eq!(*value, parse(r#"{"surface_id": "case.bevy.screen.ui", "pid": 31}"#));
        }
        _ => panic!("JSON parameters"),
    }
    assert!(host.session.acquire_requested);
    assert!(host.take(accepted("bevy-surface-open", "{}")).request.is_none());
    host.take(accepted("bevy-surface-acquire", BUFFERS));
    host.take(refused("any", None, None));
    assert!(host.take(accepted("bevy-surface-open", "{}")).request.is_none());
    assert!(host.take(reply("bevy-surface-open", RpcStatus::Accepted, None)).request.is_none());
    for _ in 0..2 {
        let world = host.take(accepted("bevy-world-surface-open", "{}"));
        assert_eq!(request_id(&world), Some("bevy-world-surface-acquire"));
        match &world.request.expect("acquisition").request.params {
            RequestParams::Json(value) => {
                assert_eq!(*value, parse(r#"{"surface_id": "case.bevy.world.ui", "pid": 31}"#));
            }
            _ => panic!("JSON parameters"),
        }
    }
}

#[test]
fn acquired_surfaces_hand_over_their_buffers() {
    let mut host = Host::new();
    let effects = host.take(accepted("bevy-surface-acquire", BUFFERS));
    assert!(effects.request.is_none());
    assert!(host.session.surface_acquired);
    assert!(!host.session.world_surface_acquired);
    assert_eq!(host.handles.buffers.len(), 1);
    assert_eq!(host.handles.buffers[0].buffer_index, 2);
    assert_eq!(host.handles.color_texture_handle, Some(40));
    assert_eq!(host.handles.color_fence_handle, Some(41));
    host.take(accepted("bevy-world-surface-acquire", BUFFERS));
    assert!(host.session.world_surface_acquired);
    assert_eq!(host.world_handles.buffers.len(), 1);
    host.take(accepted("bevy-surface-acquire", r#"{"texture_handle": 40, "buffers": []}"#));
    assert!(!host.session.surface_acquired);
    assert!(host.handles.buffers.is_empty());
    assert_eq!(host.handles.color_texture_handle, Some(40));
    assert_eq!(host.handles.color_fence_handle, None);
    assert_eq!(host.world_handles.buffers.len(), 1);
}

#[test]
fn windowed_renderer_is_asked_for_frames() {
    let mut host = Host::new();
    assert!(host.take(accepted("bevy-surface-frame-1", r#"{"frame_sequence": 5}"#)).request.is_none());
    assert_eq!(host.session.frame_sequence, 5);
    host.session.config.service_mode = Neon3ServiceMode::AutoWindowed;
    let effects = host.take(accepted("bevy-surface-frame-2", r#"{"frame_sequence": 3}"#));
    assert_eq!(host.session.frame_sequence, 5);
    assert_eq!(request_id(&effects), Some("bevy-surface-frame-900"));
    match &effects.request.expect("frame").request.params {
        RequestParams::Json(value) => {
            assert_eq!(*value, parse(r#"{"surface_id": "case.bevy.screen.ui"}"#));
        }
        _ => panic!("JSON parameters"),
    }
    let acquired = host.take(accepted("bevy-surface-acquire", BUFFERS));
    assert_eq!(request_id(&acquired), Some("bevy-surface-frame-900"));
    assert!(host.take(accepted("bevy-surface-acquire", "{}")).request.is_none());
    assert!(host.take(accepted("bevy-world-surface-acquire", BUFFERS)).request.is_none());
}

#[test]
fn accepted_flow_source_readies_the_bridge() {
    let mut host = Host::new();
    let program = r#"{"program_revision": {"program_id": "p", "revision": 8, "schema_version": 1,
        "capabilities": []}}"#;
    let ignored = host.take(accepted("other", program));
    assert!(ignored.screen.expect("update").program_revision.is_none());
    assert!(!host.bridge.flow_ready);
    let unreadable = host.take(accepted("bevy-flow-source-0", r#"{"program_revision": 5}"#));
    assert!(unreadable.screen.expect("update").program_revision.is_none());
    assert!(!host.bridge.flow_ready);
    let effects = host.take(accepted("bevy-flow-source-0", program));
    assert!(host.bridge.flow_ready);
    assert_eq!(host.bridge.identity.program_revision.program_id, "p");
    assert_eq!(host.bridge.identity.program_revision.revision, neon_protocol::Revision(8));
    let update = effects.screen.expect("update");
    assert_eq!(update.program_revision.as_ref(), Some(&host.bridge.identity.program_revision));
    let mut screen = screen();
    update_screen(&mut screen, update);
    assert_eq!(screen.identity.program_revision.program_id, "p");
    assert_eq!(screen.identity.request_sequence, 6);
    assert!(screen.sent.is_some());
}

#[test]
fn input_revision_only_advances_on_accepted_replies() {
    let mut host = Host::new();
    host.bridge.input_pending = true;
    let effects = host.take(accepted("nui-flow:combined-ui:1", r#"{"input_revision": 5}"#));
    assert!(!host.bridge.input_pending);
    assert_eq!(host.bridge.identity.expected_input_revision, 5);
    assert_eq!(effects.screen.expect("update").expected_input_revision, Some(5));
    let late = host.take(accepted("x", r#"{"input_revision": "no", "accepted_input_revision": 4}"#));
    assert_eq!(host.bridge.identity.expected_input_revision, 5);
    assert_eq!(late.screen.expect("update").expected_input_revision, Some(5));
    host.take(accepted("x", r#"{"snapshot": {"scalar_inputs": {"input_revision": 9}}}"#));
    assert_eq!(host.bridge.identity.expected_input_revision, 9);
    let silent = host.take(accepted("x", "{}"));
    assert_eq!(silent.screen.expect("update").expected_input_revision, None);
}

#[test]
fn refusal_corrects_the_identity_and_reopens() {
    let mut host = Host::new();
    host.bridge.input_pending = true;
    host.bridge.sent = Some(host.bridge.current);
    host.bridge.identity.expected_input_revision = 9;
    host.session.world_ui_snapshot = Some(Vec::new());
    let effects = host.take(refused(
        "nui-flow:combined-ui:1",
        Some(
            r#"{"expected_program_revision": {"program_id": "q", "revision": 2,
                "schema_version": 1, "capabilities": []}, "expected_input_revision": 3}"#,
        ),
        Some(RpcError { code: "stale".into(), message: "m".into(), current_revision: None }),
    ));
    assert_eq!(host.bridge.identity.expected_input_revision, 3);
    assert_eq!(host.bridge.identity.program_revision.program_id, "q");
    assert!(!host.bridge.input_pending);
    assert!(host.bridge.sent.is_none());
    assert!(host.session.world_ui_snapshot.is_none());
    assert_eq!(host.session.last_error.as_deref(), Some("stale"));
    let update = effects.screen.expect("update");
    assert!(update.reopen);
    assert_eq!(update.expected_input_revision, Some(3));
    let mut screen = screen();
    update_screen(&mut screen, update);
    assert!(screen.sent.is_none());
    assert_eq!(screen.identity.expected_input_revision, 3);
    assert_eq!(screen.identity.program_revision.program_id, "q");
    let other = host.take(refused(
        "bevy-pointer-4",
        Some(r#"{"program_revision": {"program_id": "r"}, "input_revision": 6}"#),
        Some(RpcError { code: "c".into(), message: "m".into(), current_revision: Some(11) }),
    ));
    assert_eq!(host.bridge.identity.expected_input_revision, 11);
    assert_eq!(host.bridge.identity.program_revision.program_id, "q");
    assert!(other.screen.expect("update").program_revision.is_none());
    host.take(refused("x", Some(r#"{"input_revision": 6}"#), None));
    assert_eq!(host.bridge.identity.expected_input_revision, 6);
    assert_eq!(host.session.last_error, None);
    host.take(refused("x", Some(r#"{"expected_input_revision": "no", "input_revision": 7}"#), None));
    assert_eq!(host.bridge.identity.expected_input_revision, 6);
    host.take(reply("x", RpcStatus::Failed, None));
    assert_eq!(host.bridge.identity.expected_input_revision, 6);
}

#[test]
fn world_requests_settle_by_their_answer() {
    let mut host = Host::with_world_in_flight();
    assert_eq!((host.camera_flags(), host.anchor_flags()), ((false, true), (false, true)));
    host.take(accepted("bevy-camera-1", "{}"));
    assert_eq!((host.camera_flags(), host.anchor_flags()), ((false, false), (false, true)));
    host.take(refused("bevy-anchor-batch-1", None, None));
    assert_eq!((host.camera_flags(), host.anchor_flags()), ((false, false), (true, false)));
    host.take(failed("bevy-camera-1", RpcLane::Interaction));
    assert_eq!(host.camera_flags(), (false, false));
    assert_eq!(host.session.last_error.as_deref(), Some("cut"));
    host.take(failed("bevy-camera-1", RpcLane::WorldLatest));
    assert_eq!(host.camera_flags(), (true, false));
}

#[test]
fn uploads_end_with_their_request() {
    let mut host = Host::new();
    for (n, id) in [(1u64, "a"), (2, "b"), (3, "c")] {
        host.uploads.pending.insert(id.to_string(), n);
    }
    assert_eq!(
        host.take(accepted("a", "{}")).image,
        Some(ImageOutcome { entity: 1, accepted: true })
    );
    assert_eq!(
        host.take(refused("b", None, None)).image,
        Some(ImageOutcome { entity: 2, accepted: false })
    );
    assert_eq!(
        host.take(failed("c", RpcLane::Interaction)).image,
        Some(ImageOutcome { entity: 3, accepted: false })
    );
    assert_eq!(host.take(accepted("a", "{}")).image, None);
}

#[test]
fn intents_of_accepted_replies_are_queued() {
    let mut host = Host::new();
    host.take(accepted("bevy-pointer-3", r#"{"semantic_event": {"intent": "phys.kick"}}"#));
    host.take(accepted("other", r#"{"semantic_intent": {"intent": "open"}}"#));
    host.take(accepted("bevy-pointer-4", r#"{"state": "accepted"}"#));
    host.take(refused("bevy-pointer-5", Some(r#"{"intent": "no"}"#), None));
    let intents = host.intents.drain();
    assert_eq!(intents.len(), 2);
    assert_eq!(intents[0].intent, "phys.kick");
    assert_eq!(intents[0].request_id, "bevy-pointer-3");
    assert_eq!(intents[1].intent, "open");
}

#[test]
fn newest_intents_of_many_replies_wait() {
    let mut host = Host::new();
    for n in 0..4100 {
        let result = format!(r#"{{"semantic_intent": {{"intent": "i{n}"}}}}"#);
        host.take(accepted("other", &result));
        host.take(accepted("other", "{}"));
    }
    let intents = host.intents.drain();
    assert_eq!(intents.len(), 4096);
    assert_eq!(intents[0].intent, "i4");
    assert_eq!(intents[4095].intent, "i4099");
}

#[test]
fn failed_call_changes_only_the_error() {
    let mut host = Host::new();
    host.bridge.input_pending = true;
    let effects = host.take(failed("nui-flow:combined-ui:1", RpcLane::Interaction));
    assert!(host.bridge.input_pending);
    assert!(effects.screen.is_none() && effects.request.is_none());
    assert!(!host.session.connected);
    responses_unavailable(&mut host.session);
    assert_eq!(host.session.last_error.as_deref(), Some("neon_response_lock_poisoned"));
    let mut screen = screen();
    update_screen(
        &mut screen,
        ScreenUpdate { program_revision: None, expected_input_revision: None, reopen: false },
    );
    assert!(screen.sent.is_some());
}
