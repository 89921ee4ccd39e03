//! How the host takes the replies of the services.

use vstd::prelude::*;
use vstd::string::*;

use crate::flow::NuiFlowVars;
use crate::intents;
use crate::intents::{
    Neon3SemanticIntentEvent, Neon3SemanticIntentEvents, MAX_SEMANTIC_EVENTS,
};
use crate::json;
use crate::queue;
use crate::request;
use crate::request::{ParamsView, RequestParams, RpcLane, TransportRequest, TransportView};
use crate::revision;
use crate::session::{Neon3ServiceMode, Neon3Session, WORLD_SURFACE_ID};
use crate::surface;
use crate::surface::{Neon3ExternalSurfaceHandles, Neon3WorldExternalSurfaceHandles};
use crate::text;
use crate::ui::{CharacterStatusBridge, NeonScreenUi};
use crate::upload::Neon3ImageUploadState;
use crate::world;
use crate::world::{LatestView, LatestWorldSubmission};

verus! {

broadcast use vstd::string::group_string_axioms;

// ---------------------------------------------------------------------------
// Replies
// ---------------------------------------------------------------------------

/// How a service decided on a request.
#[derive(Clone, Copy, Debug, PartialEq, Eq, Structural)]
pub enum RpcStatus {
    Accepted,
    Rejected,
    Failed,
}

/// Why a service did not accept a request.
#[derive(Debug)]
pub struct RpcError {
    pub code: String,
    pub message: String,
    /// The revision that the service is at.
    pub current_revision: Option<u64>,
}

/// The reply of a service.
#[derive(Debug)]
pub struct RpcResponse {
    pub request_id: String,
    pub status: RpcStatus,
    pub result: Option<serde_json::Value>,
    pub error: Option<RpcError>,
}

/// What became of a request: a reply, or a message that says why there is none.
#[derive(Debug)]
pub struct TransportResponse {
    pub lane: RpcLane,
    pub request_id: String,
    pub result: Result<RpcResponse, String>,
}

/// An optional JSON value by its model.
pub open spec fn result_view(result: Option<serde_json::Value>) -> Option<json::JsonView> {
    match result {
        Some(value) => Some(json::json_view(value)),
        None => None,
    }
}

/// What a reply changes in the screen interface.
pub struct ScreenUpdate {
    pub program_revision: Option<neon_ui::UiProgramRevision>,
    pub expected_input_revision: Option<u64>,
    /// Whether the last submission counts as not sent.
    pub reopen: bool,
}

/// Applies what a reply changes in the screen interface.
pub fn update_screen<V: NuiFlowVars>(screen: &mut NeonScreenUi<V>, update: ScreenUpdate)
    ensures
        final(screen).identity.program_revision == match update.program_revision {
            Some(r) => r,
            None => old(screen).identity.program_revision,
        },
        final(screen).identity.expected_input_revision == match update.expected_input_revision {
            Some(n) => n,
            None => old(screen).identity.expected_input_revision,
        },
        final(screen).identity.request_sequence == old(screen).identity.request_sequence,
        final(screen).sent == if update.reopen {
            None
        } else {
            old(screen).sent
        },
        final(screen).flow == old(screen).flow,
        final(screen).vars == old(screen).vars,
        final(screen).visible == old(screen).visible,
        final(screen).selected_object == old(screen).selected_object,
{
    if let Some(r) = update.program_revision {
        screen.identity.program_revision = r;
    }
    if let Some(n) = update.expected_input_revision {
        screen.identity.expected_input_revision = n;
    }
    if update.reopen {
        screen.sent = None;
    }
}

// ---------------------------------------------------------------------------
// World data
// ---------------------------------------------------------------------------

/// The world data after a request was answered.
pub open spec fn world_answered(latest: LatestView, id: Seq<char>, accepted: bool) -> LatestView {
    let after_camera = if text::has_prefix(id, "bevy-camera-"@) {
        world::camera_answered(latest, accepted)
    } else {
        latest
    };
    if text::has_prefix(id, "bevy-anchor-batch-"@) {
        world::anchors_answered(after_camera, accepted)
    } else {
        after_camera
    }
}

fn answer_world(latest: &mut LatestWorldSubmission, id: &str, accepted: bool)
    ensures
        final(latest)@ == world_answered(old(latest)@, id@, accepted),
{
    if text::starts_with(id, "bevy-camera-") {
        latest.camera_done(accepted);
    }
    if text::starts_with(id, "bevy-anchor-batch-") {
        latest.anchors_done(accepted);
    }
}

/// What waits to be submitted after the outcome of a request. An acceptance is
/// told by the request, a refusal by the reply, and a request that found no
/// service counts only among those that submit the world.
pub open spec fn world_consumed(latest: LatestView, response: TransportResponse) -> LatestView {
    match response.result {
        Ok(reply) => if reply.status == RpcStatus::Accepted {
            world_answered(latest, response.request_id@, true)
        } else {
            world_answered(latest, reply.request_id@, false)
        },
        Err(_) => if response.lane == RpcLane::WorldLatest {
            world_answered(latest, response.request_id@, false)
        } else {
            latest
        },
    }
}

// ---------------------------------------------------------------------------
// Accepted requests: intents
// ---------------------------------------------------------------------------

/// The waiting intents after the result of an accepted request was read.
pub open spec fn intents_after(
    before: Seq<Neon3SemanticIntentEvent>,
    after: Seq<Neon3SemanticIntentEvent>,
    id: Seq<char>,
    result: Option<json::JsonView>,
) -> bool {
    match result {
        Some(r) => match intents::semantic_intent(r, id) {
            Some(intent) => {
                &&& after.len() > 0
                &&& after.drop_last() == queue::with_room(before, MAX_SEMANTIC_EVENTS as nat)
                &&& after.last()@ == intent
            },
            None => after == before,
        },
        None => after == before,
    }
}

/// The intent that a reply carries: the result of an accepted request may hold
/// one.
pub open spec fn carried_intent(response: TransportResponse) -> Option<
    intents::SemanticIntentView,
> {
    if is_accepted(response) && response.result->Ok_0.result is Some {
        intents::semantic_intent(
            json::json_view(response.result->Ok_0.result->0),
            response.request_id@,
        )
    } else {
        None
    }
}

/// The intents that replies carry, in the order in which they came.
pub open spec fn carried_intents(responses: Seq<TransportResponse>) -> Seq<
    intents::SemanticIntentView,
>
    decreases responses.len(),
{
    if responses.len() == 0 {
        Seq::empty()
    } else {
        match carried_intent(responses.last()) {
            Some(intent) => carried_intents(responses.drop_last()).push(intent),
            None => carried_intents(responses.drop_last()),
        }
    }
}

/// The waiting intents after one reply was taken.
pub open spec fn intents_taken(
    before: Seq<Neon3SemanticIntentEvent>,
    after: Seq<Neon3SemanticIntentEvent>,
    response: TransportResponse,
) -> bool {
    if is_accepted(response) {
        intents_after(
            before,
            after,
            response.request_id@,
            result_view(response.result->Ok_0.result),
        )
    } else {
        after == before
    }
}

/// A list of intents by what they hold.
pub open spec fn intents_view(events: Seq<Neon3SemanticIntentEvent>) -> Seq<
    intents::SemanticIntentView,
> {
    events.map_values(|e: Neon3SemanticIntentEvent| e@)
}

fn accept_intents(
    events: &mut Neon3SemanticIntentEvents,
    id: &str,
    result: &Option<serde_json::Value>,
)
    ensures
        intents_after(old(events).events@, final(events).events@, id@, result_view(*result)),
{
    if let Some(r) = result {
        if let Some(event) = intents::semantic_intent_from_result(r, id) {
            events.push(event);
            assert(events.events@.drop_last() =~= queue::with_room(
                old(events).events@,
                MAX_SEMANTIC_EVENTS as nat,
            ));
        }
    }
}

// ---------------------------------------------------------------------------
// Accepted requests: session
// ---------------------------------------------------------------------------

/// A number, or another one where it is missing.
pub open spec fn or_else(n: Option<u64>, other: u64) -> u64 {
    match n {
        Some(v) => v,
        None => other,
    }
}

/// The producer epoch that a result tells: epochs count from one.
pub open spec fn told_epoch(result: json::JsonView) -> Option<u64> {
    match result.natural_member("producer_epoch"@) {
        Some(epoch) => if epoch > 0 {
            Some(epoch)
        } else {
            None
        },
        None => None,
    }
}

/// Whether a request acquires a surface.
pub open spec fn is_acquisition(id: Seq<char>) -> bool {
    id == "bevy-surface-acquire"@ || id == "bevy-world-surface-acquire"@
}

/// Whether a request asks for the next frame of the screen surface.
pub open spec fn asks_for_frame(id: Seq<char>) -> bool {
    text::has_prefix(id, "bevy-surface-frame"@)
}

/// The session after the result of an accepted request was read.
pub open spec fn session_with_result(
    session: Neon3Session,
    id: Seq<char>,
    reply_id: Seq<char>,
    result: json::JsonView,
) -> Neon3Session {
    let has_buffers = surface::acquired_buffers(result).len() > 0;
    let frame = or_else(result.natural_member("frame_sequence"@), 0);
    Neon3Session {
        generation: or_else(result.natural_member("generation"@), session.generation),
        producer_epoch: or_else(told_epoch(result), session.producer_epoch),
        acquire_requested: session.acquire_requested || (id == "bevy-surface-open"@ && reply_id
            == "bevy-surface-open"@),
        frame_sequence: if asks_for_frame(id) && frame > session.frame_sequence {
            frame
        } else {
            session.frame_sequence
        },
        surface_acquired: if is_acquisition(id) && reply_id != "bevy-world-surface-acquire"@ {
            has_buffers
        } else {
            session.surface_acquired
        },
        world_surface_acquired: if is_acquisition(id) && reply_id
            == "bevy-world-surface-acquire"@ {
            has_buffers
        } else {
            session.world_surface_acquired
        },
        ..session
    }
}

/// The session after an accepted request.
pub open spec fn session_accepted(
    session: Neon3Session,
    id: Seq<char>,
    reply_id: Seq<char>,
    result: Option<json::JsonView>,
) -> Neon3Session {
    let heard = Neon3Session { connected: true, last_error: None, ..session };
    match result {
        Some(r) => session_with_result(heard, id, reply_id, r),
        None => heard,
    }
}

fn accept_session(
    session: &mut Neon3Session,
    id: &str,
    reply_id: &str,
    result: &Option<serde_json::Value>,
)
    ensures
        *final(session) == session_accepted(*old(session), id@, reply_id@, result_view(*result)),
{
    session.connected = true;
    session.last_error = None;
    if let Some(r) = result {
        session.generation = json::natural_member(r, "generation").unwrap_or(session.generation);
        if let Some(epoch) = json::natural_member(r, "producer_epoch") {
            if epoch > 0 {
                session.producer_epoch = epoch;
            }
        }
        if text::same_text(id, "bevy-surface-open") && text::same_text(
            reply_id,
            "bevy-surface-open",
        ) {
            session.acquire_requested = true;
        }
        if text::starts_with(id, "bevy-surface-frame") {
            if let Some(frame) = json::natural_member(r, "frame_sequence") {
                if frame > session.frame_sequence {
                    session.frame_sequence = frame;
                }
            }
        }
        if text::same_text(id, "bevy-surface-acquire") || text::same_text(
            id,
            "bevy-world-surface-acquire",
        ) {
            let has_buffers = surface::read_acquired_buffers(r).len() > 0;
            if text::same_text(reply_id, "bevy-world-surface-acquire") {
                session.world_surface_acquired = has_buffers;
            } else {
                session.surface_acquired = has_buffers;
            }
        }
    }
}

// ---------------------------------------------------------------------------
// Accepted requests: surfaces
// ---------------------------------------------------------------------------

/// Whether the screen handles follow from the result of an accepted request.
pub open spec fn handles_after(
    before: Neon3ExternalSurfaceHandles,
    after: Neon3ExternalSurfaceHandles,
    id: Seq<char>,
    reply_id: Seq<char>,
    result: Option<json::JsonView>,
) -> bool {
    if result is Some && is_acquisition(id) && reply_id != "bevy-world-surface-acquire"@ {
        &&& after.buffers@ == surface::acquired_buffers(result->0)
        &&& after.color_texture_handle == surface::as_handle(
            result->0.natural_member("texture_handle"@),
        )
        &&& after.color_fence_handle == surface::as_handle(
            result->0.natural_member("fence_handle"@),
        )
    } else {
        after == before
    }
}

/// Whether the world handles follow from the result of an accepted request.
pub open spec fn world_handles_after(
    before: Neon3WorldExternalSurfaceHandles,
    after: Neon3WorldExternalSurfaceHandles,
    id: Seq<char>,
    reply_id: Seq<char>,
    result: Option<json::JsonView>,
) -> bool {
    if result is Some && is_acquisition(id) && reply_id == "bevy-world-surface-acquire"@ {
        after.buffers@ == surface::acquired_buffers(result->0)
    } else {
        after == before
    }
}

fn accept_surfaces(
    handles: &mut Neon3ExternalSurfaceHandles,
    world_handles: &mut Neon3WorldExternalSurfaceHandles,
    id: &str,
    reply_id: &str,
    result: &Option<serde_json::Value>,
)
    ensures
        handles_after(*old(handles), *final(handles), id@, reply_id@, result_view(*result)),
        world_handles_after(
            *old(world_handles),
            *final(world_handles),
            id@,
            reply_id@,
            result_view(*result),
        ),
{
    if let Some(r) = result {
        if text::same_text(id, "bevy-surface-acquire") || text::same_text(
            id,
            "bevy-world-surface-acquire",
        ) {
            let buffers = surface::read_acquired_buffers(r);
            if text::same_text(reply_id, "bevy-world-surface-acquire") {
                world_handles.buffers = buffers;
            } else {
                handles.buffers = buffers;
                handles.color_texture_handle = surface::read_handle(r, "texture_handle");
                handles.color_fence_handle = surface::read_handle(r, "fence_handle");
            }
        }
    }
}

// ---------------------------------------------------------------------------
// Accepted requests: what the host asks for next
// ---------------------------------------------------------------------------

/// The request that acquires a surface.
pub open spec fn acquire_call(
    session: Neon3Session,
    pid: u32,
    id: Seq<char>,
    surface_id: Seq<char>,
) -> TransportView {
    request::wgpu_request(
        session,
        pid,
        id,
        "render.surface.acquire"@,
        ParamsView::Json(
            json::JsonView::Members(
                map![
                    "surface_id"@ => json::JsonView::Text(surface_id),
                    "pid"@ => json::json_number(pid as u64),
                ],
            ),
        ),
    )
}

/// The request for the next frame of the screen surface.
pub open spec fn frame_call(session: Neon3Session, pid: u32, timestamp: u64) -> TransportView {
    request::wgpu_request(
        session,
        pid,
        "bevy-surface-frame-"@ + text::decimal(timestamp as nat),
        "render.surface.frame"@,
        ParamsView::Json(
            json::JsonView::Members(
                map!["surface_id"@ => json::JsonView::Text(session.surface_id@)],
            ),
        ),
    )
}

/// What the host asks for after an accepted request: to acquire a surface that
/// was opened (the screen surface once), and, where the renderer has a window,
/// the next frame of a screen surface that is there.
pub open spec fn follow_up(
    session: Neon3Session,
    pid: u32,
    id: Seq<char>,
    reply_id: Seq<char>,
    result: Option<json::JsonView>,
    timestamp: u64,
) -> Option<TransportView> {
    if result is None {
        None
    } else if id == "bevy-surface-open"@ {
        if session.acquire_requested {
            None
        } else {
            Some(acquire_call(session, pid, "bevy-surface-acquire"@, session.surface_id@))
        }
    } else if id == "bevy-world-surface-open"@ {
        Some(acquire_call(session, pid, "bevy-world-surface-acquire"@, WORLD_SURFACE_ID@))
    } else if session.config.service_mode != Neon3ServiceMode::AutoWindowed {
        None
    } else if asks_for_frame(id) {
        Some(frame_call(session, pid, timestamp))
    } else if is_acquisition(id) && reply_id != "bevy-world-surface-acquire"@
        && surface::acquired_buffers(result->0).len() > 0 {
        Some(frame_call(session, pid, timestamp))
    } else {
        None
    }
}

fn acquire_request(session: &Neon3Session, pid: u32, id: &str, surface_id: &str) -> (r:
    TransportRequest)
    ensures
        r@ == acquire_call(*session, pid, id@, surface_id@),
{
    let mut params = json::json_object();
    json::json_set(&mut params, "surface_id", json::json_text(surface_id.to_owned()));
    json::json_set(&mut params, "pid", json::json_natural(pid as u64));
    request::request_to_wgpu(
        id.to_owned(),
        "render.surface.acquire",
        session,
        pid,
        RequestParams::Json(params),
    )
}

fn frame_request(session: &Neon3Session, pid: u32, timestamp: u64) -> (r: TransportRequest)
    ensures
        r@ == frame_call(*session, pid, timestamp),
{
    let mut params = json::json_object();
    json::json_set(&mut params, "surface_id", json::json_text(session.surface_id.clone()));
    request::request_to_wgpu(
        "bevy-surface-frame-".to_owned().concat(text::decimal_text(timestamp).as_str()),
        "render.surface.frame",
        session,
        pid,
        RequestParams::Json(params),
    )
}

fn next_request(
    session: &Neon3Session,
    pid: u32,
    id: &str,
    reply_id: &str,
    result: &Option<serde_json::Value>,
    timestamp: u64,
) -> (r: Option<TransportRequest>)
    ensures
        request::transport_view(r) == follow_up(
            *session,
            pid,
            id@,
            reply_id@,
            result_view(*result),
            timestamp,
        ),
{
    let r = match result {
        Some(r) => r,
        None => {
            return None;
        },
    };
    if text::same_text(id, "bevy-surface-open") {
        if session.acquire_requested {
            return None;
        }
        return Some(
            acquire_request(session, pid, "bevy-surface-acquire", session.surface_id.as_str()),
        );
    }
    if text::same_text(id, "bevy-world-surface-open") {
        return Some(acquire_request(session, pid, "bevy-world-surface-acquire", WORLD_SURFACE_ID));
    }
    if session.config.service_mode != Neon3ServiceMode::AutoWindowed {
        return None;
    }
    if text::starts_with(id, "bevy-surface-frame") {
        return Some(frame_request(session, pid, timestamp));
    }
    if (text::same_text(id, "bevy-surface-acquire") || text::same_text(
        id,
        "bevy-world-surface-acquire",
    )) && !text::same_text(reply_id, "bevy-world-surface-acquire")
        && surface::read_acquired_buffers(r).len() > 0 {
        return Some(frame_request(session, pid, timestamp));
    }
    None
}

// ---------------------------------------------------------------------------
// Accepted requests: flow
// ---------------------------------------------------------------------------

/// The input revision that an accepted result tells.
pub open spec fn told_revision(result: json::JsonView) -> Option<u64> {
    match result.natural_member("input_revision"@) {
        Some(n) => Some(n),
        None => match result.natural_member("accepted_input_revision"@) {
            Some(n) => Some(n),
            None => match intents::nested_member(result, "snapshot"@, "scalar_inputs"@) {
                Some(inputs) => inputs.natural_member("input_revision"@),
                None => None,
            },
        },
    }
}

/// The program revision that the reply to a flow source tells.
pub open spec fn told_program(id: Seq<char>, result: Option<json::JsonView>) -> Option<
    revision::ProgramRevisionView,
> {
    if result is Some && text::has_prefix(id, "bevy-flow-source"@) {
        match result->0.member("program_revision"@) {
            Some(value) => revision::decoded_program_revision(value),
            None => None,
        }
    } else {
        None
    }
}

/// The input revision that the host expects after an accepted request. It never
/// goes back on a late reply.
pub open spec fn advanced_revision(before: u64, result: Option<json::JsonView>) -> u64 {
    match result {
        Some(r) => match told_revision(r) {
            Some(n) => if n > before {
                n
            } else {
                before
            },
            None => before,
        },
        None => before,
    }
}

/// Whether the bridge follows from an accepted request.
pub open spec fn bridge_accepted(
    before: CharacterStatusBridge,
    after: CharacterStatusBridge,
    id: Seq<char>,
    result: Option<json::JsonView>,
) -> bool {
    let program = told_program(id, result);
    &&& match program {
        Some(p) => revision::program_revision_view(after.identity.program_revision) == p,
        None => after.identity.program_revision == before.identity.program_revision,
    }
    &&& after.identity.expected_input_revision == advanced_revision(
        before.identity.expected_input_revision,
        result,
    )
    &&& after.identity.request_sequence == before.identity.request_sequence
    &&& after.current == before.current
    &&& after.sent == before.sent
    &&& after.flow_ready == (before.flow_ready || program is Some)
    &&& after.input_pending == (before.input_pending && !text::has_prefix(id, "nui-flow:"@))
}

/// Whether the screen is told what the bridge learned from an accepted request.
pub open spec fn screen_accepted(
    after: CharacterStatusBridge,
    update: ScreenUpdate,
    id: Seq<char>,
    result: Option<json::JsonView>,
) -> bool {
    &&& update.program_revision == if told_program(id, result) is Some {
        Some(after.identity.program_revision)
    } else {
        None
    }
    &&& update.expected_input_revision == if result is Some && told_revision(result->0) is Some {
        Some(after.identity.expected_input_revision)
    } else {
        None
    }
    &&& !update.reopen
}

fn find_revision(result: &serde_json::Value) -> (r: Option<u64>)
    ensures
        r == told_revision(json::json_view(*result)),
{
    if let Some(n) = json::natural_member(result, "input_revision") {
        return Some(n);
    }
    if let Some(n) = json::natural_member(result, "accepted_input_revision") {
        return Some(n);
    }
    match json::json_get(result, "snapshot") {
        Some(snapshot) => match json::json_get(snapshot, "scalar_inputs") {
            Some(inputs) => json::natural_member(inputs, "input_revision"),
            None => None,
        },
        None => None,
    }
}

fn find_program(id: &str, result: &Option<serde_json::Value>) -> (r: Option<
    neon_ui::UiProgramRevision,
>)
    ensures
        revision::program_revision_view_opt(r) == told_program(id@, result_view(*result)),
{
    match result {
        Some(value) => if text::starts_with(id, "bevy-flow-source") {
            match json::json_get(value, "program_revision") {
                Some(program) => revision::decode_program_revision(program),
                None => None,
            }
        } else {
            None
        },
        None => None,
    }
}

fn accept_flow(
    bridge: &mut CharacterStatusBridge,
    id: &str,
    result: &Option<serde_json::Value>,
) -> (update: ScreenUpdate)
    ensures
        bridge_accepted(*old(bridge), *final(bridge), id@, result_view(*result)),
        screen_accepted(*final(bridge), update, id@, result_view(*result)),
{
    let mut update = ScreenUpdate {
        program_revision: None,
        expected_input_revision: None,
        reopen: false,
    };
    if text::starts_with(id, "nui-flow:") {
        bridge.input_pending = false;
    }
    if let Some(program) = find_program(id, result) {
        bridge.identity.program_revision = program.clone();
        update.program_revision = Some(program);
        bridge.flow_ready = true;
    }
    if let Some(value) = result {
        if let Some(n) = find_revision(value) {
            if n > bridge.identity.expected_input_revision {
                bridge.identity.expected_input_revision = n;
            }
            update.expected_input_revision = Some(bridge.identity.expected_input_revision);
        }
    }
    update
}

// ---------------------------------------------------------------------------
// Refused requests
// ---------------------------------------------------------------------------

/// The program revision that the refusal of an input frame tells.
pub open spec fn corrected_program(id: Seq<char>, result: Option<json::JsonView>) -> Option<
    revision::ProgramRevisionView,
> {
    if result is Some && text::has_prefix(id, "nui-flow:"@) {
        match result->0.member("expected_program_revision"@) {
            Some(value) => revision::decoded_program_revision(value),
            None => match result->0.member("program_revision"@) {
                Some(value) => revision::decoded_program_revision(value),
                None => None,
            },
        }
    } else {
        None
    }
}

/// The input revision that the result of a refused request tells.
pub open spec fn refused_revision(result: Option<json::JsonView>) -> Option<u64> {
    match result {
        Some(r) => match r.member("expected_input_revision"@) {
            Some(value) => value.natural(),
            None => r.natural_member("input_revision"@),
        },
        None => None,
    }
}

/// The input revision that a refusal tells. That of the error counts most.
pub open spec fn corrected_revision(
    result: Option<json::JsonView>,
    error: Option<RpcError>,
) -> Option<u64> {
    if error matches Some(e) && e.current_revision is Some {
        error->0.current_revision
    } else {
        refused_revision(result)
    }
}

/// Whether the bridge follows from a refused request. What was sent counts as
/// not sent, so that the next update tries again.
pub open spec fn bridge_refused(
    before: CharacterStatusBridge,
    after: CharacterStatusBridge,
    id: Seq<char>,
    result: Option<json::JsonView>,
    error: Option<RpcError>,
) -> bool {
    &&& match corrected_program(id, result) {
        Some(p) => revision::program_revision_view(after.identity.program_revision) == p,
        None => after.identity.program_revision == before.identity.program_revision,
    }
    &&& after.identity.expected_input_revision == or_else(
        corrected_revision(result, error),
        before.identity.expected_input_revision,
    )
    &&& after.identity.request_sequence == before.identity.request_sequence
    &&& after.current == before.current
    &&& after.sent is None
    &&& after.flow_ready == before.flow_ready
    &&& after.input_pending == (before.input_pending && !text::has_prefix(id, "nui-flow:"@))
}

/// Whether the screen is told what the bridge learned from a refused request.
pub open spec fn screen_refused(
    after: CharacterStatusBridge,
    update: ScreenUpdate,
    id: Seq<char>,
    result: Option<json::JsonView>,
    error: Option<RpcError>,
) -> bool {
    &&& update.program_revision == if corrected_program(id, result) is Some {
        Some(after.identity.program_revision)
    } else {
        None
    }
    &&& update.expected_input_revision == corrected_revision(result, error)
    &&& update.reopen
}

fn find_corrected_program(id: &str, result: &Option<serde_json::Value>) -> (r: Option<
    neon_ui::UiProgramRevision,
>)
    ensures
        revision::program_revision_view_opt(r) == corrected_program(id@, result_view(*result)),
{
    let value = match result {
        Some(value) => value,
        None => {
            return None;
        },
    };
    if !text::starts_with(id, "nui-flow:") {
        return None;
    }
    match json::json_get(value, "expected_program_revision") {
        Some(program) => revision::decode_program_revision(program),
        None => match json::json_get(value, "program_revision") {
            Some(program) => revision::decode_program_revision(program),
            None => None,
        },
    }
}

fn find_corrected_revision(result: &Option<serde_json::Value>, error: &Option<RpcError>) -> (r:
    Option<u64>)
    ensures
        r == corrected_revision(result_view(*result), *error),
{
    if let Some(e) = error {
        if e.current_revision.is_some() {
            return e.current_revision;
        }
    }
    match result {
        Some(value) => match json::json_get(value, "expected_input_revision") {
            Some(n) => json::json_as_u64(n),
            None => json::natural_member(value, "input_revision"),
        },
        None => None,
    }
}

fn refuse_flow(
    bridge: &mut CharacterStatusBridge,
    id: &str,
    result: &Option<serde_json::Value>,
    error: &Option<RpcError>,
) -> (update: ScreenUpdate)
    ensures
        bridge_refused(*old(bridge), *final(bridge), id@, result_view(*result), *error),
        screen_refused(*final(bridge), update, id@, result_view(*result), *error),
{
    let mut update = ScreenUpdate {
        program_revision: None,
        expected_input_revision: None,
        reopen: true,
    };
    if text::starts_with(id, "nui-flow:") {
        bridge.input_pending = false;
    }
    if let Some(program) = find_corrected_program(id, result) {
        bridge.identity.program_revision = program.clone();
        update.program_revision = Some(program);
    }
    if let Some(n) = find_corrected_revision(result, error) {
        bridge.identity.expected_input_revision = n;
        update.expected_input_revision = Some(n);
    }
    bridge.sent = None;
    update
}

/// The session after a refused request.
pub open spec fn session_refused(session: Neon3Session, error: Option<RpcError>) -> Neon3Session {
    Neon3Session {
        world_ui_snapshot: None,
        last_error: match error {
            Some(e) => Some(e.code),
            None => None,
        },
        ..session
    }
}

fn refuse_session(session: &mut Neon3Session, error: &Option<RpcError>)
    ensures
        *final(session) == session_refused(*old(session), *error),
{
    session.world_ui_snapshot = None;
    session.last_error = match error {
        Some(e) => Some(e.code.clone()),
        None => None,
    };
}

// ---------------------------------------------------------------------------
// All replies
// ---------------------------------------------------------------------------

/// How the upload of the image of an entity ended.
#[derive(Clone, Copy, Debug, PartialEq, Eq, Structural)]
pub struct ImageOutcome {
    pub entity: u64,
    pub accepted: bool,
}

/// What a reply has the host do.
pub struct ResponseEffects {
    pub image: Option<ImageOutcome>,
    pub screen: Option<ScreenUpdate>,
    pub request: Option<TransportRequest>,
}

/// Whether a service accepted the request.
pub open spec fn is_accepted(response: TransportResponse) -> bool {
    response.result matches Ok(reply) && reply.status == RpcStatus::Accepted
}

/// Whether a service answered without accepting the request.
pub open spec fn is_refused(response: TransportResponse) -> bool {
    response.result matches Ok(reply) && reply.status != RpcStatus::Accepted
}

/// What the outcome of a request means for the image whose upload it was.
pub open spec fn image_outcome(
    pending: Map<Seq<char>, u64>,
    response: TransportResponse,
) -> Option<ImageOutcome> {
    if pending.contains_key(response.request_id@) {
        Some(
            ImageOutcome {
                entity: pending[response.request_id@],
                accepted: is_accepted(response),
            },
        )
    } else {
        None
    }
}

/// Takes one reply.
pub fn consume_neon_response(
    session: &mut Neon3Session,
    latest: &mut LatestWorldSubmission,
    image_uploads: &mut Neon3ImageUploadState,
    handles: &mut Neon3ExternalSurfaceHandles,
    world_handles: &mut Neon3WorldExternalSurfaceHandles,
    bridge: &mut CharacterStatusBridge,
    semantic_events: &mut Neon3SemanticIntentEvents,
    response: TransportResponse,
    timestamp: u64,
    pid: u32,
) -> (r: ResponseEffects)
    ensures
        // The upload that the request belongs to ends with it.
        final(image_uploads).next_sequence == old(image_uploads).next_sequence,
        final(image_uploads).pending@ == old(image_uploads).pending@.remove(
            response.request_id@,
        ),
        r.image == if old(image_uploads).pending@.contains_key(response.request_id@) {
            Some(
                ImageOutcome {
                    entity: old(image_uploads).pending@[response.request_id@],
                    accepted: is_accepted(response),
                },
            )
        } else {
            None
        },
        r.image == image_outcome(old(image_uploads).pending@, response),
        intents_taken(old(semantic_events).events@, final(semantic_events).events@, response),
        final(latest)@ == world_consumed(old(latest)@, response),
        is_accepted(response) ==> ({
            let id = response.request_id@;
            let reply = response.result->Ok_0;
            let result = result_view(reply.result);
            &&& final(latest)@ == world_answered(old(latest)@, id, true)
            &&& *final(session) == session_accepted(*old(session), id, reply.request_id@, result)
            &&& handles_after(*old(handles), *final(handles), id, reply.request_id@, result)
            &&& world_handles_after(
                *old(world_handles),
                *final(world_handles),
                id,
                reply.request_id@,
                result,
            )
            &&& bridge_accepted(*old(bridge), *final(bridge), id, result)
            &&& r.screen matches Some(update) && screen_accepted(*final(bridge), update, id, result)
            &&& request::transport_view(r.request) == follow_up(
                *old(session),
                pid,
                id,
                reply.request_id@,
                result,
                timestamp,
            )
        }),
        is_refused(response) ==> ({
            let reply = response.result->Ok_0;
            let id = reply.request_id@;
            let result = result_view(reply.result);
            &&& final(latest)@ == world_answered(old(latest)@, id, false)
            &&& *final(session) == session_refused(*old(session), reply.error)
            &&& bridge_refused(*old(bridge), *final(bridge), id, result, reply.error)
            &&& r.screen matches Some(update) && screen_refused(
                *final(bridge),
                update,
                id,
                result,
                reply.error,
            )
        }),
        response.result matches Err(error) ==> {
            // A failed interaction must not disturb the world data.
            &&& final(latest)@ == if response.lane == RpcLane::WorldLatest {
                world_answered(old(latest)@, response.request_id@, false)
            } else {
                old(latest)@
            }
            &&& *final(session) == (Neon3Session { last_error: Some(error), ..*old(session) })
            &&& *final(bridge) == *old(bridge)
            &&& r.screen is None
        },
        !is_accepted(response) ==> {
            &&& *final(handles) == *old(handles)
            &&& *final(world_handles) == *old(world_handles)
            &&& r.request is None
        },
{
    let image_entity = image_uploads.take_pending(response.request_id.as_str());
    let id = response.request_id;
    match response.result {
        Ok(reply) => {
            if reply.status == RpcStatus::Accepted {
                let request = next_request(
                    session,
                    pid,
                    id.as_str(),
                    reply.request_id.as_str(),
                    &reply.result,
                    timestamp,
                );
                answer_world(latest, id.as_str(), true);
                accept_session(session, id.as_str(), reply.request_id.as_str(), &reply.result);
                accept_intents(semantic_events, id.as_str(), &reply.result);
                accept_surfaces(
                    handles,
                    world_handles,
                    id.as_str(),
                    reply.request_id.as_str(),
                    &reply.result,
                );
                let update = accept_flow(bridge, id.as_str(), &reply.result);
                ResponseEffects {
                    image: outcome(image_entity, true),
                    screen: Some(update),
                    request,
                }
            } else {
                answer_world(latest, reply.request_id.as_str(), false);
                let update = refuse_flow(
                    bridge,
                    reply.request_id.as_str(),
                    &reply.result,
                    &reply.error,
                );
                refuse_session(session, &reply.error);
                ResponseEffects {
                    image: outcome(image_entity, false),
                    screen: Some(update),
                    request: None,
                }
            }
        },
        Err(error) => {
            if response.lane == RpcLane::WorldLatest {
                answer_world(latest, id.as_str(), false);
            }
            session.last_error = Some(error);
            ResponseEffects { image: outcome(image_entity, false), screen: None, request: None }
        },
    }
}

fn outcome(entity: Option<u64>, accepted: bool) -> (r: Option<ImageOutcome>)
    ensures
        r == match entity {
            Some(e) => Some(ImageOutcome { entity: e, accepted }),
            None => None,
        },
{
    match entity {
        Some(e) => Some(ImageOutcome { entity: e, accepted }),
        None => None,
    }
}

/// Notes that replies can no longer be received.
pub fn responses_unavailable(session: &mut Neon3Session)
    ensures
        final(session).last_error matches Some(e) && e@ == "neon_response_lock_poisoned"@,
        *final(session) == (Neon3Session {
            last_error: final(session).last_error,
            ..*old(session)
        }),
{
    session.last_error = Some("neon_response_lock_poisoned".to_owned());
}

// ---------------------------------------------------------------------------
// Laws
// ---------------------------------------------------------------------------

/// However many replies are taken, the waiting intents are the newest of those
/// that waited and those that the replies carried. `states` lists the waiting
/// intents before the first reply and after each one.
pub proof fn law_waiting_intents_are_the_newest(
    states: Seq<Seq<Neon3SemanticIntentEvent>>,
    responses: Seq<TransportResponse>,
)
    requires
        states.len() == responses.len() + 1,
        states[0].len() <= MAX_SEMANTIC_EVENTS,
        forall|i: int|
            0 <= i < responses.len() ==> intents_taken(
                states[i],
                states[i + 1],
                #[trigger] responses[i],
            ),
    ensures
        intents_view(states.last()) == queue::newest(
            intents_view(states[0]) + carried_intents(responses),
            MAX_SEMANTIC_EVENTS as nat,
        ),
        states.last().len() <= MAX_SEMANTIC_EVENTS,
    decreases responses.len(),
{
    let max = MAX_SEMANTIC_EVENTS as nat;
    let first = intents_view(states[0]);
    if responses.len() == 0 {
        assert(first + carried_intents(responses) =~= first);
    } else {
        let n = responses.len() - 1;
        let (before, after) = (states[n], states[n + 1]);
        let earlier = responses.drop_last();
        let told = carried_intents(earlier);
        assert(intents_taken(states[n], states[n + 1], responses[n]));
        assert forall|i: int| 0 <= i < earlier.len() implies intents_taken(
            states.drop_last()[i],
            states.drop_last()[i + 1],
            #[trigger] earlier[i],
        ) by {
            assert(earlier[i] == responses[i]);
        }
        law_waiting_intents_are_the_newest(states.drop_last(), earlier);
        assert(states.drop_last().last() == before);
        match carried_intent(responses[n]) {
            Some(intent) => {
                queue::law_room_keeps_newest(before, max, after.last());
                assert(after =~= after.drop_last().push(after.last()));
                assert(intents_view(after) =~= queue::newest(
                    intents_view(before).push(intent),
                    max,
                ));
                queue::law_newest_of_newest(first + told, seq![intent], max);
                assert(intents_view(before).push(intent) =~= intents_view(before) + seq![intent]);
                assert((first + told) + seq![intent] =~= first + carried_intents(responses));
            },
            None => {
                assert(after == before);
            },
        }
    }
}

/// An accepted reply never takes the expected input revision back, however late
/// it comes.
pub proof fn law_revision_never_regresses(
    before: CharacterStatusBridge,
    after: CharacterStatusBridge,
    id: Seq<char>,
    result: Option<json::JsonView>,
)
    requires
        bridge_accepted(before, after, id, result),
    ensures
        after.identity.expected_input_revision >= before.identity.expected_input_revision,
        result is Some && told_revision(result->0) is Some
            ==> after.identity.expected_input_revision >= told_revision(result->0)->0,
{
}

/// An answer to a request that is neither for the camera nor for the anchors
/// leaves the world data alone.
pub proof fn law_other_answers_leave_the_world_alone(
    latest: LatestView,
    id: Seq<char>,
    accepted: bool,
)
    requires
        !text::has_prefix(id, "bevy-camera-"@),
        !text::has_prefix(id, "bevy-anchor-batch-"@),
    ensures
        world_answered(latest, id, accepted) == latest,
{
}

/// Without buffers a surface does not count as acquired, whatever else the
/// reply says.
pub proof fn law_acquisition_needs_buffers(
    session: Neon3Session,
    id: Seq<char>,
    reply_id: Seq<char>,
    result: json::JsonView,
)
    requires
        is_acquisition(id),
        surface::acquired_buffers(result).len() == 0,
    ensures
        reply_id != "bevy-world-surface-acquire"@ ==> !session_accepted(
            session,
            id,
            reply_id,
            Some(result),
        ).surface_acquired,
        reply_id == "bevy-world-surface-acquire"@ ==> !session_accepted(
            session,
            id,
            reply_id,
            Some(result),
        ).world_surface_acquired,
{
}

/// The screen surface is acquired once: the reply to its opening notes that it
/// was asked for, no reply takes the note back, and with it no reply asks again.
pub proof fn law_screen_is_acquired_once(
    session: Neon3Session,
    pid: u32,
    id: Seq<char>,
    reply_id: Seq<char>,
    result: Option<json::JsonView>,
    error: Option<RpcError>,
    timestamp: u64,
)
    ensures
        result is Some ==> session_accepted(
            session,
            "bevy-surface-open"@,
            "bevy-surface-open"@,
            result,
        ).acquire_requested,
        session.acquire_requested ==> session_accepted(
            session,
            id,
            reply_id,
            result,
        ).acquire_requested,
        session.acquire_requested ==> session_refused(session, error).acquire_requested,
        session.acquire_requested ==> follow_up(
            session,
            pid,
            "bevy-surface-open"@,
            reply_id,
            result,
            timestamp,
        ) is None,
{
}

/// The answer to a request of the camera, whatever number it carries, ends the
/// wait for it: the pending camera is no longer on its way, and waits to be
/// submitted where it did before or the answer was a refusal. The frame and the
/// anchors stay as they are.
pub proof fn law_camera_answer_ends_its_request(
    latest: LatestView,
    rest: Seq<char>,
    accepted: bool,
)
    ensures
        ({
            let after = world_answered(latest, "bevy-camera-"@ + rest, accepted);
            &&& after.camera is Some <==> latest.camera is Some
            &&& latest.camera is Some ==> {
                &&& !after.camera->0.in_flight
                &&& after.camera->0.dirty <==> latest.camera->0.dirty || !accepted
                &&& after.camera->0.frame == latest.camera->0.frame
            }
            &&& after.anchors == latest.anchors
            &&& after.last_sent_signature == latest.last_sent_signature
            &&& after.last_sent_camera == latest.last_sent_camera
            &&& after.last_sent_anchors == latest.last_sent_anchors
        }),
{
    reveal_strlit("bevy-camera-");
    reveal_strlit("bevy-anchor-batch-");
    let id = "bevy-camera-"@ + rest;
    assert(id[5] == 'c');
    assert("bevy-anchor-batch-"@[5] == 'a');
    text::law_prefix_is_the_beginning(id, "bevy-camera-"@);
    if text::has_prefix(id, "bevy-anchor-batch-"@) {
        assert(id.subrange(0, 18) == "bevy-anchor-batch-"@);
        assert(id.subrange(0, 18)[5] == id[5]);
    }
}

/// The answer to a request of the anchors, whatever number it carries, ends the
/// wait for it: the pending anchors are no longer on their way, and wait to be
/// submitted where they did before or the answer was a refusal. The batch and
/// the camera stay as they are.
pub proof fn law_anchor_answer_ends_its_request(
    latest: LatestView,
    rest: Seq<char>,
    accepted: bool,
)
    ensures
        ({
            let after = world_answered(latest, "bevy-anchor-batch-"@ + rest, accepted);
            &&& after.anchors is Some <==> latest.anchors is Some
            &&& latest.anchors is Some ==> {
                &&& !after.anchors->0.in_flight
                &&& after.anchors->0.dirty <==> latest.anchors->0.dirty || !accepted
                &&& after.anchors->0.batch == latest.anchors->0.batch
            }
            &&& after.camera == latest.camera
            &&& after.last_sent_signature == latest.last_sent_signature
            &&& after.last_sent_camera == latest.last_sent_camera
            &&& after.last_sent_anchors == latest.last_sent_anchors
        }),
{
    reveal_strlit("bevy-camera-");
    reveal_strlit("bevy-anchor-batch-");
    let id = "bevy-anchor-batch-"@ + rest;
    assert(id[5] == 'a');
    assert("bevy-camera-"@[5] == 'c');
    text::law_prefix_is_the_beginning(id, "bevy-anchor-batch-"@);
    if text::has_prefix(id, "bevy-camera-"@) {
        assert(id.subrange(0, 12) == "bevy-camera-"@);
        assert(id.subrange(0, 12)[5] == id[5]);
    }
}

/// Whatever a service replied to a request of the camera or of the anchors, that
/// request is over: its side is no longer on its way, and waits to be submitted
/// where it did before or was refused. The other side is not touched.
pub proof fn law_every_reply_ends_its_request(
    latest: LatestView,
    response: TransportResponse,
    rest: Seq<char>,
)
    requires
        response.result is Ok,
        response.result->Ok_0.request_id@ == response.request_id@,
    ensures
        response.request_id@ == "bevy-camera-"@ + rest && latest.camera is Some ==> {
            let after = world_consumed(latest, response);
            &&& after.camera is Some
            &&& !after.camera->0.in_flight
            &&& after.camera->0.dirty <==> latest.camera->0.dirty
                || response.result->Ok_0.status != RpcStatus::Accepted
            &&& after.camera->0.frame == latest.camera->0.frame
            &&& after.anchors == latest.anchors
        },
        response.request_id@ == "bevy-anchor-batch-"@ + rest && latest.anchors is Some ==> {
            let after = world_consumed(latest, response);
            &&& after.anchors is Some
            &&& !after.anchors->0.in_flight
            &&& after.anchors->0.dirty <==> latest.anchors->0.dirty
                || response.result->Ok_0.status != RpcStatus::Accepted
            &&& after.anchors->0.batch == latest.anchors->0.batch
            &&& after.camera == latest.camera
        },
{
    law_camera_answer_ends_its_request(
        latest,
        rest,
        response.result->Ok_0.status == RpcStatus::Accepted,
    );
    law_anchor_answer_ends_its_request(
        latest,
        rest,
        response.result->Ok_0.status == RpcStatus::Accepted,
    );
}

/// A submission that found no service waits again and is no longer on its way.
/// An interaction that found none leaves the world as it is, whatever its name.
pub proof fn law_lost_submission_waits_again(
    latest: LatestView,
    response: TransportResponse,
    rest: Seq<char>,
)
    requires
        response.result is Err,
    ensures
        response.lane == RpcLane::Interaction ==> world_consumed(latest, response) == latest,
        response.lane == RpcLane::WorldLatest && latest.camera is Some && response.request_id@
            == "bevy-camera-"@ + rest ==> {
            let after = world_consumed(latest, response);
            &&& after.camera is Some && after.camera->0.dirty && !after.camera->0.in_flight
            &&& after.camera->0.frame == latest.camera->0.frame
            &&& after.anchors == latest.anchors
        },
        response.lane == RpcLane::WorldLatest && latest.anchors is Some && response.request_id@
            == "bevy-anchor-batch-"@ + rest ==> {
            let after = world_consumed(latest, response);
            &&& after.anchors is Some && after.anchors->0.dirty && !after.anchors->0.in_flight
            &&& after.anchors->0.batch == latest.anchors->0.batch
            &&& after.camera == latest.camera
        },
{
    law_camera_answer_ends_its_request(latest, rest, false);
    law_anchor_answer_ends_its_request(latest, rest, false);
}

/// What an accepted reply tells is taken over: the generation as told, the epoch
/// where it is not zero. What it does not tell stays, and so does what no reply
/// tells.
pub proof fn law_session_takes_what_is_told(
    session: Neon3Session,
    id: Seq<char>,
    reply_id: Seq<char>,
    result: json::JsonView,
    n: u64,
)
    ensures
        ({
            let after = session_accepted(session, id, reply_id, Some(result));
            let generation = result.natural_member("generation"@);
            let epoch = result.natural_member("producer_epoch"@);
            &&& after.connected && after.last_error is None
            &&& generation == Some(n) ==> after.generation == n
            &&& generation is None ==> after.generation == session.generation
            &&& epoch == Some(n) && n > 0 ==> after.producer_epoch == n
            &&& epoch == Some(0u64) || epoch is None ==> after.producer_epoch
                == session.producer_epoch
            &&& after.config == session.config
            &&& after.surface_id == session.surface_id
            &&& after.color_target_id == session.color_target_id
            &&& after.world_frame_sequence == session.world_frame_sequence
            &&& after.world_ui_snapshot == session.world_ui_snapshot
        }),
        ({
            let after = session_accepted(session, id, reply_id, None);
            &&& after.connected && after.last_error is None
            &&& after.generation == session.generation
            &&& after.producer_epoch == session.producer_epoch
            &&& after.frame_sequence == session.frame_sequence
            &&& after.acquire_requested == session.acquire_requested
            &&& after.surface_acquired == session.surface_acquired
            &&& after.world_surface_acquired == session.world_surface_acquired
            &&& after.world_frame_sequence == session.world_frame_sequence
            &&& after.world_ui_snapshot == session.world_ui_snapshot
            &&& after.config == session.config
        }),
{
}

/// The number of the newest frame of the screen only grows. A reply about a frame
/// carries it up to the number that it tells; no other reply touches it.
pub proof fn law_frame_number_only_grows(
    session: Neon3Session,
    rest: Seq<char>,
    id: Seq<char>,
    reply_id: Seq<char>,
    result: json::JsonView,
    n: u64,
)
    requires
        !text::has_prefix(id, "bevy-surface-frame"@),
        result.natural_member("frame_sequence"@) == Some(n),
    ensures
        ({
            let after = session_accepted(
                session,
                "bevy-surface-frame"@ + rest,
                reply_id,
                Some(result),
            );
            &&& after.frame_sequence >= session.frame_sequence
            &&& after.frame_sequence >= n
            &&& after.frame_sequence == session.frame_sequence || after.frame_sequence == n
        }),
        session_accepted(session, id, reply_id, Some(result)).frame_sequence
            == session.frame_sequence,
{
    text::law_prefix_is_the_beginning("bevy-surface-frame"@ + rest, "bevy-surface-frame"@);
}

/// A reply to the acquisition of a surface says whether that surface is there,
/// and nothing of the other one; other replies say nothing of either.
pub proof fn law_each_surface_is_acquired_by_its_reply(
    session: Neon3Session,
    id: Seq<char>,
    reply_id: Seq<char>,
    result: json::JsonView,
)
    ensures
        ({
            let after = session_accepted(
                session,
                "bevy-surface-acquire"@,
                "bevy-surface-acquire"@,
                Some(result),
            );
            &&& after.surface_acquired <==> surface::acquired_buffers(result).len() > 0
            &&& after.world_surface_acquired == session.world_surface_acquired
        }),
        ({
            let after = session_accepted(
                session,
                "bevy-world-surface-acquire"@,
                "bevy-world-surface-acquire"@,
                Some(result),
            );
            &&& after.world_surface_acquired <==> surface::acquired_buffers(result).len() > 0
            &&& after.surface_acquired == session.surface_acquired
        }),
        id != "bevy-surface-acquire"@ && id != "bevy-world-surface-acquire"@ ==> {
            let after = session_accepted(session, id, reply_id, Some(result));
            &&& after.surface_acquired == session.surface_acquired
            &&& after.world_surface_acquired == session.world_surface_acquired
        },
{
    reveal_strlit("bevy-surface-acquire");
    reveal_strlit("bevy-world-surface-acquire");
    assert("bevy-surface-acquire"@.len() != "bevy-world-surface-acquire"@.len());
}

/// The buffers of a surface go to the handles of that surface, whole, and the
/// handles of the other one stay as they are. The texture and the fence of the screen
/// are those that the reply tells under these names.
pub proof fn law_each_surface_keeps_its_buffers(
    screen: Neon3ExternalSurfaceHandles,
    screen_after: Neon3ExternalSurfaceHandles,
    world: Neon3WorldExternalSurfaceHandles,
    world_after: Neon3WorldExternalSurfaceHandles,
    id: Seq<char>,
    result: json::JsonView,
)
    requires
        handles_after(screen, screen_after, id, id, Some(result)),
        world_handles_after(world, world_after, id, id, Some(result)),
    ensures
        id == "bevy-surface-acquire"@ ==> {
            &&& screen_after.buffers@ == surface::acquired_buffers(result)
            &&& screen_after.color_texture_handle is Some <==> result.natural_member(
                "texture_handle"@,
            ) is Some
            &&& result.natural_member("texture_handle"@) matches Some(n) ==> n <= usize::MAX
                ==> screen_after.color_texture_handle->0 == n
            &&& screen_after.color_fence_handle is Some <==> result.natural_member(
                "fence_handle"@,
            ) is Some
            &&& result.natural_member("fence_handle"@) matches Some(n) ==> n <= usize::MAX
                ==> screen_after.color_fence_handle->0 == n
            &&& world_after == world
        },
        id == "bevy-world-surface-acquire"@ ==> {
            &&& world_after.buffers@ == surface::acquired_buffers(result)
            &&& screen_after == screen
        },
        id != "bevy-surface-acquire"@ && id != "bevy-world-surface-acquire"@ ==> {
            &&& screen_after == screen
            &&& world_after == world
        },
{
    reveal_strlit("bevy-surface-acquire");
    reveal_strlit("bevy-world-surface-acquire");
    assert("bevy-surface-acquire"@.len() != "bevy-world-surface-acquire"@.len());
}

/// An opened surface is acquired next, the screen once and under its own name,
/// the world under its own. A host with a visible renderer asks for a frame
/// behind each frame and behind the buffers of the screen.
pub proof fn law_surfaces_are_opened_then_acquired(
    session: Neon3Session,
    pid: u32,
    reply_id: Seq<char>,
    rest: Seq<char>,
    result: json::JsonView,
    timestamp: u64,
)
    ensures
        ({
            let next = follow_up(
                session,
                pid,
                "bevy-surface-open"@,
                reply_id,
                Some(result),
                timestamp,
            );
            &&& next is Some <==> !session.acquire_requested
            &&& next is Some ==> {
                &&& next->0.request.request_id == "bevy-surface-acquire"@
                &&& next->0.request.method == "render.surface.acquire"@
                &&& next->0.request.params is Json
                &&& next->0.request.params->Json_0.text_member("surface_id"@) == Some(
                    session.surface_id@,
                )
                &&& next->0.request.params->Json_0.natural_member("pid"@) == Some(pid as u64)
            }
        }),
        ({
            let next = follow_up(
                session,
                pid,
                "bevy-world-surface-open"@,
                reply_id,
                Some(result),
                timestamp,
            );
            &&& next is Some
            &&& next->0.request.request_id == "bevy-world-surface-acquire"@
            &&& next->0.request.method == "render.surface.acquire"@
            &&& next->0.request.params is Json
            &&& next->0.request.params->Json_0.text_member("surface_id"@) == Some(
                WORLD_SURFACE_ID@,
            )
            &&& next->0.request.params->Json_0.natural_member("pid"@) == Some(pid as u64)
        }),
        ({
            let next = follow_up(
                session,
                pid,
                "bevy-surface-frame"@ + rest,
                reply_id,
                Some(result),
                timestamp,
            );
            &&& next is Some <==> session.config.service_mode == Neon3ServiceMode::AutoWindowed
            &&& next is Some ==> {
                &&& next->0.request.method == "render.surface.frame"@
                &&& next->0.request.request_id == "bevy-surface-frame-"@ + text::decimal(
                    timestamp as nat,
                )
                &&& next->0.request.params is Json
                &&& next->0.request.params->Json_0.text_member("surface_id"@) == Some(
                    session.surface_id@,
                )
            }
        }),
        ({
            let next = follow_up(
                session,
                pid,
                "bevy-surface-acquire"@,
                "bevy-surface-acquire"@,
                Some(result),
                timestamp,
            );
            next is Some <==> session.config.service_mode == Neon3ServiceMode::AutoWindowed
                && surface::acquired_buffers(result).len() > 0
        }),
        follow_up(session, pid, rest, reply_id, None, timestamp) is None,
{
    reveal_strlit("bevy-surface-open");
    reveal_strlit("bevy-world-surface-open");
    reveal_strlit("bevy-surface-acquire");
    reveal_strlit("bevy-world-surface-acquire");
    reveal_strlit("bevy-surface-frame");
    reveal_strlit("surface_id");
    reveal_strlit("pid");
    assert("surface_id"@.len() != "pid"@.len());
    let id = "bevy-surface-frame"@ + rest;
    text::law_prefix_is_the_beginning(id, "bevy-surface-frame"@);
    assert(id[13] == 'f' && id[5] == 's');
    assert("bevy-surface-open"@[13] == 'o' && "bevy-world-surface-open"@[5] == 'w');
    assert("bevy-surface-acquire"@[13] == 'a' && "bevy-surface-open"@.len()
        != "bevy-world-surface-open"@.len());
    assert("bevy-surface-acquire"@[5] == 's');
    assert("bevy-surface-acquire"@.len() != "bevy-world-surface-acquire"@.len());
    let acquire = "bevy-surface-acquire"@;
    if text::has_prefix(acquire, "bevy-surface-frame"@) {
        assert(acquire.subrange(0, 18)[13] == acquire[13]);
        assert("bevy-surface-frame"@[13] == 'f');
    }
}

/// The revision that a reply tells is the first of three that it may hold: the
/// revision, the accepted one, and that of the snapshot. The revision of the flow
/// becomes the greater of the one it had and the one told.
pub proof fn law_told_revision_is_the_first_there(before: u64, result: json::JsonView, n: u64)
    ensures
        result.natural_member("input_revision"@) == Some(n) ==> told_revision(result) == Some(n),
        result.natural_member("input_revision"@) is None && result.natural_member(
            "accepted_input_revision"@,
        ) == Some(n) ==> told_revision(result) == Some(n),
        result.natural_member("input_revision"@) is None && result.natural_member(
            "accepted_input_revision"@,
        ) is None ==> {
            let inputs = result.member("snapshot"@)->0.member("scalar_inputs"@);
            told_revision(result) == if result.member("snapshot"@) is Some && inputs is Some {
                inputs->0.natural_member("input_revision"@)
            } else {
                None
            }
        },
        told_revision(result) == Some(n) ==> {
            &&& advanced_revision(before, Some(result)) >= n
            &&& advanced_revision(before, Some(result)) >= before
            &&& advanced_revision(before, Some(result)) == n || advanced_revision(
                before,
                Some(result),
            ) == before
        },
        told_revision(result) is None ==> advanced_revision(before, Some(result)) == before,
        advanced_revision(before, None) == before,
{
}

/// An accepted flow source readies the flow under the program that the reply
/// names; no other reply names one. An accepted input ends the wait for it. What
/// was sent stays sent.
pub proof fn law_accepted_reply_moves_the_flow(
    before: CharacterStatusBridge,
    after: CharacterStatusBridge,
    id: Seq<char>,
    rest: Seq<char>,
    result: json::JsonView,
)
    requires
        bridge_accepted(before, after, id, Some(result)),
    ensures
        after.sent == before.sent,
        after.current == before.current,
        after.identity.request_sequence == before.identity.request_sequence,
        ({
            let told = revision::decoded_program_revision(result.member("program_revision"@)->0);
            let named = id == "bevy-flow-source"@ + rest && result.member("program_revision"@)
                is Some && told is Some;
            &&& named ==> after.flow_ready
            &&& named ==> revision::program_revision_view(after.identity.program_revision)
                == told->0
        }),
        !text::has_prefix(id, "bevy-flow-source"@) ==> {
            &&& after.flow_ready == before.flow_ready
            &&& after.identity.program_revision == before.identity.program_revision
        },
        id == "nui-flow:"@ + rest ==> !after.input_pending,
        !text::has_prefix(id, "nui-flow:"@) ==> after.input_pending == before.input_pending,
{
    text::law_prefix_is_the_beginning(id, "bevy-flow-source"@);
    text::law_prefix_is_the_beginning(id, "nui-flow:"@);
}

/// A refusal makes everything go out again: nothing counts as sent, the program
/// and the revision are those that the refusal names, the error's before the
/// result's, and where it names none they stay. A refused input is no longer on
/// its way.
pub proof fn law_refusal_corrects_the_flow(
    before: CharacterStatusBridge,
    after: CharacterStatusBridge,
    id: Seq<char>,
    rest: Seq<char>,
    result: json::JsonView,
    error: Option<RpcError>,
)
    requires
        bridge_refused(before, after, id, Some(result), error),
    ensures
        after.sent is None,
        after.current == before.current,
        after.flow_ready == before.flow_ready,
        after.identity.request_sequence == before.identity.request_sequence,
        id == "nui-flow:"@ + rest ==> !after.input_pending,
        !text::has_prefix(id, "nui-flow:"@) ==> after.input_pending == before.input_pending,
        ({
            let told = error->0.current_revision;
            let expected = result.member("expected_input_revision"@);
            let held = result.natural_member("input_revision"@);
            let revision = after.identity.expected_input_revision;
            let by_error = error is Some && told is Some;
            &&& by_error ==> revision == told->0
            &&& !by_error && expected is Some && expected->0.natural() is Some ==> revision
                == expected->0.natural()->0
            &&& !by_error && expected is Some && expected->0.natural() is None ==> revision
                == before.identity.expected_input_revision
            &&& !by_error && expected is None && held is Some ==> revision == held->0
            &&& !by_error && expected is None && held is None ==> revision
                == before.identity.expected_input_revision
        }),
        ({
            let expected = result.member("expected_program_revision"@);
            let named = if expected is Some {
                expected
            } else {
                result.member("program_revision"@)
            };
            let told = revision::decoded_program_revision(named->0);
            &&& id == "nui-flow:"@ + rest && named is Some && told is Some
                ==> revision::program_revision_view(after.identity.program_revision) == told->0
            &&& !(named is Some && told is Some) ==> after.identity.program_revision
                == before.identity.program_revision
            &&& !text::has_prefix(id, "nui-flow:"@) ==> after.identity.program_revision
                == before.identity.program_revision
        }),
{
    text::law_prefix_is_the_beginning(id, "nui-flow:"@);
}

/// The screen interface is told what the flow took over from a reply: the program
/// and the revision where the reply told them. Only a refusal opens it again.
pub proof fn law_screen_follows_the_flow(
    before: CharacterStatusBridge,
    after: CharacterStatusBridge,
    update: ScreenUpdate,
    id: Seq<char>,
    result: json::JsonView,
    error: Option<RpcError>,
)
    ensures
        bridge_accepted(before, after, id, Some(result)) && screen_accepted(
            after,
            update,
            id,
            Some(result),
        ) ==> {
            &&& !update.reopen
            &&& update.program_revision is Some ==> update.program_revision->0
                == after.identity.program_revision
            &&& update.program_revision is None ==> after.identity.program_revision
                == before.identity.program_revision
            &&& update.expected_input_revision is Some ==> update.expected_input_revision->0
                == after.identity.expected_input_revision
            &&& update.expected_input_revision is None ==> after.identity.expected_input_revision
                == before.identity.expected_input_revision
        },
        bridge_refused(before, after, id, Some(result), error) && screen_refused(
            after,
            update,
            id,
            Some(result),
            error,
        ) ==> {
            &&& update.reopen
            &&& update.program_revision is Some ==> update.program_revision->0
                == after.identity.program_revision
            &&& update.program_revision is None ==> after.identity.program_revision
                == before.identity.program_revision
            &&& update.expected_input_revision is Some ==> update.expected_input_revision->0
                == after.identity.expected_input_revision
            &&& update.expected_input_revision is None ==> after.identity.expected_input_revision
                == before.identity.expected_input_revision
        },
{
}

/// A refusal is noted by its code and drops the rows that counted as submitted.
/// The rest of the session stays.
pub proof fn law_refusal_is_noted(session: Neon3Session, error: Option<RpcError>)
    ensures
        ({
            let after = session_refused(session, error);
            &&& error is Some ==> after.last_error == Some(error->0.code)
            &&& error is None ==> after.last_error is None
            &&& after.world_ui_snapshot is None
            &&& after.connected == session.connected
            &&& after.generation == session.generation
            &&& after.producer_epoch == session.producer_epoch
            &&& after.frame_sequence == session.frame_sequence
            &&& after.world_frame_sequence == session.world_frame_sequence
            &&& after.acquire_requested == session.acquire_requested
            &&& after.surface_acquired == session.surface_acquired
            &&& after.world_surface_acquired == session.world_surface_acquired
            &&& after.config == session.config
            &&& after.surface_id == session.surface_id
        }),
{
}

/// An acceptance concerns the request that was made, a refusal the one that the reply
/// names, also where the two differ.
pub proof fn law_reply_names_what_it_refuses(
    latest: LatestView,
    response: TransportResponse,
    rest: Seq<char>,
)
    requires
        response.result is Ok,
        latest.camera is Some,
        latest.anchors is Some,
    ensures
        ({
            let after = world_consumed(latest, response);
            let named = if response.result->Ok_0.status == RpcStatus::Accepted {
                response.request_id@
            } else {
                response.result->Ok_0.request_id@
            };
            &&& named == "bevy-camera-"@ + rest ==> !after.camera->0.in_flight && after.anchors
                == latest.anchors
            &&& named == "bevy-anchor-batch-"@ + rest ==> !after.anchors->0.in_flight
                && after.camera == latest.camera
            &&& !text::has_prefix(named, "bevy-camera-"@) && !text::has_prefix(
                named,
                "bevy-anchor-batch-"@,
            ) ==> after == latest
        }),
{
    let accepted = response.result->Ok_0.status == RpcStatus::Accepted;
    law_camera_answer_ends_its_request(latest, rest, accepted);
    law_anchor_answer_ends_its_request(latest, rest, accepted);
}

/// A request ends in one of three ways: accepted by the service, refused by it, or
/// without having reached it. It is accepted exactly where a reply says so.
pub proof fn law_request_ends_in_one_way(response: TransportResponse)
    ensures
        response.result is Err ==> !is_accepted(response) && !is_refused(response),
        response.result is Ok ==> (is_accepted(response) <==> !is_refused(response)),
        response.result is Ok ==> (is_accepted(response) <==> response.result->Ok_0.status
            == RpcStatus::Accepted),
{
}

/// An image hears of its own upload and of no other: of an upload that was noted for
/// it, whether it was accepted. Requests that are no uploads concern no image.
pub proof fn law_image_hears_of_its_own_upload(
    pending: Map<Seq<char>, u64>,
    response: TransportResponse,
    entity: u64,
)
    ensures
        ({
            let noted = image_outcome(pending.insert(response.request_id@, entity), response);
            &&& noted is Some
            &&& noted->0.entity == entity
            &&& noted->0.accepted <==> response.result is Ok && response.result->Ok_0.status
                == RpcStatus::Accepted
        }),
        image_outcome(pending.remove(response.request_id@), response) is None,
{
}

/// An intent is taken from an accepted reply only, goes by the name of the request
/// that was made, and waits behind all others. A reply without one changes nothing.
pub proof fn law_carried_intent_waits_last(
    before: Seq<Neon3SemanticIntentEvent>,
    after: Seq<Neon3SemanticIntentEvent>,
    response: TransportResponse,
)
    requires
        intents_taken(before, after, response),
    ensures
        carried_intent(response) matches Some(intent) ==> {
            &&& response.result is Ok
            &&& response.result->Ok_0.status == RpcStatus::Accepted
            &&& intent.request_id == response.request_id@
            &&& after.len() > 0
            &&& after.last()@ == intent
            &&& after.len() <= before.len() + 1
        },
        carried_intent(response) is None ==> after == before,
        response.result is Err ==> after == before,
        response.result is Ok && response.result->Ok_0.result is Some
            && response.result->Ok_0.status == RpcStatus::Accepted ==> (carried_intent(response)
            is Some <==> intents::semantic_intent(
            json::json_view(response.result->Ok_0.result->0),
            response.request_id@,
        ) is Some),
{
    if carried_intent(response) is Some {
        assert(after.drop_last().len() == after.len() - 1);
    }
}

} // verus!
