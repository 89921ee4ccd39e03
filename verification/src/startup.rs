//! What the host asks for when it starts: services, surfaces, a world space and
//! the variable events.

use neon_protocol::ClientKind as ProtocolKind;
use neon_protocol::{
    RenderSurfaceColorSpace, RenderSurfaceKind, RenderSurfaceOpen, RenderSurfacePlacement,
    RenderSurfaceSize, RenderSurfaceTarget, RenderSurfaceTargetKind,
};

use vstd::prelude::*;
use vstd::string::*;

use crate::json;
use crate::request;
use crate::request::{
    ClientKind, CoordinateSystem, ParamsView, RequestParams, TransportRequest, TransportView,
    WorldInformationSnapshot, WorldInformationView, WorldPrecisionMode,
};
use crate::scalar::Scalar64;
use crate::session::{
    Neon3BevyConfig, Neon3ServiceMode, Neon3Session, WORLD_COLOR_TARGET_ID, WORLD_SPACE_ID,
    WORLD_SURFACE_ID,
};
use crate::text;

verus! {

broadcast use vstd::string::group_string_axioms;

/// Whether a switch of the environment is on.
pub open spec fn switched_on(value: Option<Seq<char>>) -> bool {
    value == Some("1"@)
}

/// Whether a switch of the environment is on, given the value of its variable.
pub fn switch_is_on(value: Option<&str>) -> (r: bool)
    ensures
        r == switched_on(
            match value {
                Some(v) => Some(v@),
                None => None,
            },
        ),
{
    match value {
        Some(v) => text::same_text(v, "1"),
        None => false,
    }
}

// ---------------------------------------------------------------------------
// Surfaces
// ---------------------------------------------------------------------------

/// What a surface shows.
#[derive(Clone, Copy, Debug, PartialEq, Eq, Structural)]
pub enum SurfaceKind {
    ScreenUi,
    WorldUi,
}

/// How the texels of a surface encode colors.
#[derive(Clone, Copy, Debug, PartialEq, Eq, Structural)]
pub enum SurfaceColorSpace {
    Linear,
    Srgb,
}

/// What a target of a surface holds.
#[derive(Clone, Copy, Debug, PartialEq, Eq, Structural)]
pub enum SurfaceTargetKind {
    Color,
    Id,
}

/// What a target of a surface is.
pub struct SurfaceTargetView {
    pub target_id: Seq<char>,
    pub kind: SurfaceTargetKind,
    pub format: Seq<char>,
}

/// `neon_protocol::RenderSurfaceTarget`, a target of a surface.
#[verifier::external_type_specification]
#[verifier::external_body]
pub struct ExRenderSurfaceTarget(neon_protocol::RenderSurfaceTarget);

/// What a `neon_protocol::RenderSurfaceTarget` holds.
pub uninterp spec fn surface_target_view(
    target: neon_protocol::RenderSurfaceTarget,
) -> SurfaceTargetView;

/// Builds a `neon_protocol::RenderSurfaceTarget` of its three fields.
#[verifier::external_body]
fn surface_target(target_id: String, kind: SurfaceTargetKind, format: String) -> (r:
    neon_protocol::RenderSurfaceTarget)
    ensures
        surface_target_view(r) == (SurfaceTargetView {
            target_id: target_id@,
            kind,
            format: format@,
        }),
{
    let kind = match kind {
        SurfaceTargetKind::Color => RenderSurfaceTargetKind::Color,
        SurfaceTargetKind::Id => RenderSurfaceTargetKind::Id,
    };
    RenderSurfaceTarget { target_id, kind, format }
}

/// How panels of a surface stand in the world.
#[derive(Debug)]
pub struct SurfacePlacement {
    pub billboard: bool,
    pub occlusion: String,
}

/// The request for a shared surface.
#[derive(Debug)]
pub struct SurfaceOpen {
    pub session_id: String,
    pub surface_id: String,
    pub kind: SurfaceKind,
    pub size: [u32; 2],
    pub format: String,
    pub color_space: SurfaceColorSpace,
    pub depth: bool,
    pub buffer_count: u8,
    pub placement: Option<SurfacePlacement>,
    pub targets: Vec<neon_protocol::RenderSurfaceTarget>,
}

/// What the request for a surface holds.
pub struct SurfaceOpenView {
    pub session_id: Seq<char>,
    pub surface_id: Seq<char>,
    pub kind: SurfaceKind,
    pub width: u32,
    pub height: u32,
    pub format: Seq<char>,
    pub color_space: SurfaceColorSpace,
    pub depth: bool,
    pub buffer_count: u8,
    /// Billboard and occlusion.
    pub placement: Option<(bool, Seq<char>)>,
    pub targets: Seq<SurfaceTargetView>,
}

impl View for SurfaceOpen {
    type V = SurfaceOpenView;

    open spec fn view(&self) -> SurfaceOpenView {
        SurfaceOpenView {
            session_id: self.session_id@,
            surface_id: self.surface_id@,
            kind: self.kind,
            width: self.size[0],
            height: self.size[1],
            format: self.format@,
            color_space: self.color_space,
            depth: self.depth,
            buffer_count: self.buffer_count,
            placement: match self.placement {
                Some(p) => Some((p.billboard, p.occlusion@)),
                None => None,
            },
            targets: self.targets@.map_values(
                |t: neon_protocol::RenderSurfaceTarget| surface_target_view(t),
            ),
        }
    }
}

/// The JSON form of a placement without coordinates.
pub open spec fn placement_json(placement: Option<(bool, Seq<char>)>) -> json::JsonView {
    match placement {
        Some((billboard, occlusion)) => json::JsonView::Members(
            map![
                "anchor_id"@ => json::JsonView::Null,
                "position"@ => json::JsonView::Null,
                "rotation"@ => json::JsonView::Null,
                "scale"@ => json::JsonView::Null,
                "billboard"@ => json::JsonView::Bool(billboard),
                "occlusion"@ => json::JsonView::Text(occlusion),
            ],
        ),
        None => json::JsonView::Null,
    }
}

/// The JSON form of a target.
pub open spec fn target_json(target: SurfaceTargetView) -> json::JsonView {
    json::JsonView::Members(
        map![
            "target_id"@ => json::JsonView::Text(target.target_id),
            "kind"@ => json::JsonView::Text(match target.kind {
                SurfaceTargetKind::Color => "color"@,
                SurfaceTargetKind::Id => "id"@,
            }),
            "format"@ => json::JsonView::Text(target.format),
        ],
    )
}

/// The JSON form of the request for a surface.
pub open spec fn surface_open_json(open: SurfaceOpenView) -> json::JsonView {
    json::JsonView::Members(
        map![
            "session_id"@ => json::JsonView::Text(open.session_id),
            "surface_id"@ => json::JsonView::Text(open.surface_id),
            "kind"@ => json::JsonView::Text(match open.kind {
                SurfaceKind::ScreenUi => "screen_ui"@,
                SurfaceKind::WorldUi => "world_ui"@,
            }),
            "size"@ => json::JsonView::Members(
                map![
                    "width"@ => json::json_number(open.width as u64),
                    "height"@ => json::json_number(open.height as u64),
                ],
            ),
            "format"@ => json::JsonView::Text(open.format),
            "color_space"@ => json::JsonView::Text(match open.color_space {
                SurfaceColorSpace::Linear => "linear"@,
                SurfaceColorSpace::Srgb => "srgb"@,
            }),
            "depth"@ => json::JsonView::Bool(open.depth),
            "buffer_count"@ => json::json_number(open.buffer_count as u64),
            "placement"@ => placement_json(open.placement),
            "targets"@ => json::JsonView::Items(
                open.targets.map_values(|t: SurfaceTargetView| target_json(t)),
            ),
        ],
    )
}

/// Calls `serde_json::to_value` on a `neon_protocol::RenderSurfaceOpen` whose
/// placement has no coordinates. The value then holds texts, integers, flags and
/// nulls alone, so the call succeeds and writes every field under its name.
#[verifier::external_body]
fn encode_surface_open(open: SurfaceOpen) -> (r: serde_json::Value)
    ensures
        json::json_view(r) == surface_open_json(open@),
{
    let SurfaceOpen { session_id, surface_id, kind, size, format, color_space, depth, buffer_count,
        placement, targets } = open;
    let kind = match kind { SurfaceKind::ScreenUi => RenderSurfaceKind::ScreenUi,
        SurfaceKind::WorldUi => RenderSurfaceKind::WorldUi };
    let color_space = match color_space {
        SurfaceColorSpace::Linear => RenderSurfaceColorSpace::Linear,
        SurfaceColorSpace::Srgb => RenderSurfaceColorSpace::Srgb };
    let placement = match placement { None => None,
        Some(p) => Some(RenderSurfacePlacement { anchor_id: None, position: None, rotation: None,
            scale: None, billboard: p.billboard, occlusion: p.occlusion }) };
    let size = RenderSurfaceSize { width: size[0], height: size[1] };
    let value = RenderSurfaceOpen { session_id, surface_id, kind, size, format, color_space, depth,
        buffer_count, placement, targets };
    serde_json::to_value(value).unwrap_or_default()
}

/// One color target of the format that the surfaces have.
pub open spec fn color_target(target_id: Seq<char>) -> SurfaceTargetView {
    SurfaceTargetView { target_id, kind: SurfaceTargetKind::Color, format: "rgba8unorm"@ }
}

fn color_targets(target_id: String) -> (r: Vec<neon_protocol::RenderSurfaceTarget>)
    ensures
        r@.map_values(|t: neon_protocol::RenderSurfaceTarget| surface_target_view(t)) == seq![
            color_target(target_id@),
        ],
{
    let target = surface_target(target_id, SurfaceTargetKind::Color, "rgba8unorm".to_owned());
    let mut r: Vec<neon_protocol::RenderSurfaceTarget> = Vec::new();
    r.push(target);
    assert(r@.map_values(|t: neon_protocol::RenderSurfaceTarget| surface_target_view(t)) =~= seq![
        surface_target_view(target),
    ]);
    r
}

/// The surface of the screen interface. It lies on top of everything, so it
/// needs no depth.
pub open spec fn screen_surface(session: Neon3Session) -> SurfaceOpenView {
    SurfaceOpenView {
        session_id: session.config.session_id@,
        surface_id: session.surface_id@,
        kind: SurfaceKind::ScreenUi,
        width: session.config.surface_size[0],
        height: session.config.surface_size[1],
        format: "rgba8unorm"@,
        color_space: SurfaceColorSpace::Linear,
        depth: false,
        buffer_count: 3,
        placement: None,
        targets: seq![color_target(session.color_target_id@)],
    }
}

/// The surface of the world interfaces. It has depth unless occlusion is
/// switched off.
pub open spec fn world_surface(session: Neon3Session, occlusion_disabled: bool) -> SurfaceOpenView {
    SurfaceOpenView {
        session_id: session.config.session_id@,
        surface_id: WORLD_SURFACE_ID@,
        kind: SurfaceKind::WorldUi,
        width: session.config.surface_size[0],
        height: session.config.surface_size[1],
        format: "rgba8unorm"@,
        color_space: SurfaceColorSpace::Linear,
        depth: !occlusion_disabled,
        buffer_count: 3,
        placement: Some((true, "depth_tested"@)),
        targets: seq![color_target(WORLD_COLOR_TARGET_ID@)],
    }
}

/// The request for a surface.
pub open spec fn surface_call(
    session: Neon3Session,
    pid: u32,
    id: Seq<char>,
    open: SurfaceOpenView,
) -> TransportView {
    request::wgpu_request(
        session,
        pid,
        id,
        "render.surface.open"@,
        ParamsView::Json(surface_open_json(open)),
    )
}

/// Builds the request for the screen surface. Where it cannot leave, the caller
/// reports that by `screen_surface_unsent`.
pub fn request_screen_surface(session: &Neon3Session, pid: u32) -> (r: TransportRequest)
    ensures
        r@ == surface_call(*session, pid, "bevy-surface-open"@, screen_surface(*session)),
{
    let open = SurfaceOpen {
        session_id: session.config.session_id.clone(),
        surface_id: session.surface_id.clone(),
        kind: SurfaceKind::ScreenUi,
        size: session.config.surface_size,
        format: "rgba8unorm".to_owned(),
        color_space: SurfaceColorSpace::Linear,
        depth: false,
        buffer_count: 3,
        placement: None,
        targets: color_targets(session.color_target_id.clone()),
    };
    request::request_to_wgpu(
        "bevy-surface-open".to_owned(),
        "render.surface.open",
        session,
        pid,
        RequestParams::Json(encode_surface_open(open)),
    )
}

/// Notes that the request for the screen surface could not leave.
pub fn screen_surface_unsent(session: &mut Neon3Session)
    ensures
        final(session).last_error matches Some(e) && e@ == "neon_transport_closed"@,
        *final(session) == (Neon3Session {
            last_error: final(session).last_error,
            ..*old(session)
        }),
{
    session.last_error = Some("neon_transport_closed".to_owned());
}

/// Builds the request for the world surface, given the value of the variable
/// that switches occlusion off.
pub fn request_world_surface(
    session: &Neon3Session,
    occlusion_switch: Option<&str>,
    pid: u32,
) -> (r: TransportRequest)
    ensures
        r@ == surface_call(
            *session,
            pid,
            "bevy-world-surface-open"@,
            world_surface(
                *session,
                switched_on(
                    match occlusion_switch {
                        Some(v) => Some(v@),
                        None => None,
                    },
                ),
            ),
        ),
{
    let open = SurfaceOpen {
        session_id: session.config.session_id.clone(),
        surface_id: WORLD_SURFACE_ID.to_owned(),
        kind: SurfaceKind::WorldUi,
        size: session.config.surface_size,
        format: "rgba8unorm".to_owned(),
        color_space: SurfaceColorSpace::Linear,
        depth: !switch_is_on(occlusion_switch),
        buffer_count: 3,
        placement: Some(
            SurfacePlacement { billboard: true, occlusion: "depth_tested".to_owned() },
        ),
        targets: color_targets(WORLD_COLOR_TARGET_ID.to_owned()),
    };
    request::request_to_wgpu(
        "bevy-world-surface-open".to_owned(),
        "render.surface.open",
        session,
        pid,
        RequestParams::Json(encode_surface_open(open)),
    )
}

/// The bits of the double precision number one.
pub const ONE_BITS: u64 = 0x3ff0_0000_0000_0000;

/// The world space of the host: meters, right-handed with y up, looking along
/// negative z.
pub open spec fn host_world() -> WorldInformationView {
    WorldInformationView {
        world_space_id: WORLD_SPACE_ID@,
        revision: 1,
        coordinate_system: CoordinateSystem::RightHandedYUpNegativeZForward,
        units_per_meter: Scalar64 { bits: ONE_BITS },
        precision_mode: WorldPrecisionMode::CameraRelativeDouble,
    }
}

/// Builds the request that describes the world space of the host.
pub fn request_world_info(session: &Neon3Session, pid: u32) -> (r: TransportRequest)
    ensures
        r@ == request::wgpu_request(
            *session,
            pid,
            "bevy-world-info"@,
            "wgpu.world.info.configure"@,
            ParamsView::WorldInformation(host_world()),
        ),
{
    request::request_to_wgpu(
        "bevy-world-info".to_owned(),
        "wgpu.world.info.configure",
        session,
        pid,
        RequestParams::WorldInformation(
            WorldInformationSnapshot {
                world_space_id: WORLD_SPACE_ID.to_owned(),
                revision: 1,
                coordinate_system: CoordinateSystem::RightHandedYUpNegativeZForward,
                units_per_meter: Scalar64 { bits: ONE_BITS },
                precision_mode: WorldPrecisionMode::CameraRelativeDouble,
            },
        ),
    )
}

// ---------------------------------------------------------------------------
// Variable events
// ---------------------------------------------------------------------------

/// What a subscription to events says.
pub struct SubscriptionView {
    pub request_id: Seq<char>,
    pub kind: ClientKind,
    pub instance_id: Seq<char>,
    pub pid: u32,
    pub origin: Seq<char>,
    pub name_prefix: Seq<char>,
}

/// The JSON name of a kind of caller.
pub open spec fn client_kind_name(kind: ClientKind) -> Seq<char> {
    match kind {
        ClientKind::Cli => "cli"@,
        ClientKind::UiReactClient => "ui_react_client"@,
        ClientKind::UiRuntime => "ui_runtime"@,
        ClientKind::TerrainRuntime => "terrain_runtime"@,
        ClientKind::ResourceRuntime => "resource_runtime"@,
        ClientKind::Projectd => "projectd"@,
        ClientKind::WgpuRuntime => "wgpu_runtime"@,
        ClientKind::ExternalHost => "external_host"@,
    }
}

/// The JSON form of a subscription to the events whose names begin with a
/// prefix.
pub open spec fn subscription_json(s: SubscriptionView) -> json::JsonView {
    json::JsonView::Members(
        map![
            "kind"@ => json::JsonView::Text("subscribe"@),
            "protocol"@ => json::JsonView::Text("neon3.event"@),
            "version"@ => json::JsonView::Members(
                map!["major"@ => json::json_number(1), "minor"@ => json::json_number(0)],
            ),
            "request_id"@ => json::JsonView::Text(s.request_id),
            "client"@ => json::JsonView::Members(
                map![
                    "kind"@ => json::JsonView::Text(client_kind_name(s.kind)),
                    "instance_id"@ => json::JsonView::Text(s.instance_id),
                    "pid"@ => json::json_number(s.pid as u64),
                    "origin"@ => json::JsonView::Text(s.origin),
                ],
            ),
            "filters"@ => json::JsonView::Items(
                seq![
                    json::JsonView::Members(
                        map![
                            "name"@ => json::JsonView::Null,
                            "name_prefix"@ => json::JsonView::Text(s.name_prefix),
                            "publisher_kinds"@ => json::JsonView::Null,
                        ],
                    ),
                ],
            ),
        ],
    )
}

/// Calls `serde_json::to_value` on a `neon_protocol::EventFrame::Subscribe` with
/// one filter, under the name and version that the constants
/// `neon_protocol::EVENT_PROTOCOL` and `neon_protocol::PROTOCOL_VERSION` give.
/// The frame holds texts, integers and nulls alone, so the call succeeds. It
/// writes every field under its name beside the kind of the frame, except the
/// replay position and the rate limit, which are left out where there is none.
#[verifier::external_body]
fn encode_subscription(
    request_id: String,
    kind: ClientKind,
    instance_id: String,
    pid: u32,
    origin: String,
    name_prefix: String,
) -> (r: serde_json::Value)
    ensures
        json::json_view(r) == subscription_json(
            SubscriptionView {
                request_id: request_id@,
                kind,
                instance_id: instance_id@,
                pid,
                origin: origin@,
                name_prefix: name_prefix@,
            },
        ),
{
    let kind = match kind {
        ClientKind::Cli => ProtocolKind::Cli, ClientKind::UiReactClient => ProtocolKind::UiReactClient,
        ClientKind::UiRuntime => ProtocolKind::UiRuntime, ClientKind::Projectd => ProtocolKind::Projectd,
        ClientKind::TerrainRuntime => ProtocolKind::TerrainRuntime,
        ClientKind::ResourceRuntime => ProtocolKind::ResourceRuntime,
        ClientKind::WgpuRuntime => ProtocolKind::WgpuRuntime,
        ClientKind::ExternalHost => ProtocolKind::ExternalHost };
    let client = neon_protocol::ClientIdentity { kind, instance_id, pid, origin };
    let filters = vec![neon_protocol::EventFilter { name: None, name_prefix: Some(name_prefix),
        publisher_kinds: None }];
    let frame = neon_protocol::EventFrame::Subscribe(neon_protocol::EventSubscribe {
        protocol: neon_protocol::EVENT_PROTOCOL.to_owned(), version: neon_protocol::PROTOCOL_VERSION,
        request_id: neon_protocol::RequestId(request_id), client, filters,
        replay_from_sequence: None, max_rate_hz: None });
    serde_json::to_value(frame).unwrap_or_default()
}

/// Builds the subscription to the events of all flows.
pub fn variable_subscription(pid: u32) -> (r: serde_json::Value)
    ensures
        json::json_view(r) == subscription_json(
            SubscriptionView {
                request_id: "bevy-variable-subscribe"@,
                kind: ClientKind::ExternalHost,
                instance_id: "bevy-nui-host"@,
                pid,
                origin: "neon3-bevy-nui-host"@,
                name_prefix: "flow."@,
            },
        ),
{
    encode_subscription(
        "bevy-variable-subscribe".to_owned(),
        ClientKind::ExternalHost,
        "bevy-nui-host".to_owned(),
        pid,
        "neon3-bevy-nui-host".to_owned(),
        "flow.".to_owned(),
    )
}

// ---------------------------------------------------------------------------
// Services
// ---------------------------------------------------------------------------

/// One thing to do to bring the services up.
#[derive(Clone, Copy, Debug, PartialEq, Eq, Structural)]
pub enum ServiceStep {
    /// Start the event service.
    StartEvents,
    /// Start the renderer without a window.
    StartHeadlessRenderer,
    /// Start the renderer with a window.
    StartWindowedRenderer,
    /// Start the UI forwarder.
    StartUiForwarder,
    /// Wait until the renderer answers.
    AwaitRenderer,
    /// Wait until the UI runtime answers.
    AwaitUi,
}

/// The steps that bring up the services of a configuration, in order: the event
/// service where one is configured, the renderer where the mode has one, and
/// the UI forwarder once the renderer answers.
pub open spec fn service_steps(events: bool, mode: Neon3ServiceMode) -> Seq<ServiceStep> {
    (if events {
        seq![ServiceStep::StartEvents]
    } else {
        Seq::empty()
    }) + (match mode {
        Neon3ServiceMode::AutoHeadless => seq![ServiceStep::StartHeadlessRenderer],
        Neon3ServiceMode::AutoWindowed => seq![ServiceStep::StartWindowedRenderer],
        Neon3ServiceMode::External => Seq::empty(),
    }) + seq![ServiceStep::AwaitRenderer, ServiceStep::StartUiForwarder, ServiceStep::AwaitUi]
}

/// Lists what the host has to do to bring its services up.
pub fn start_owned_services(config: &Neon3BevyConfig) -> (r: Vec<ServiceStep>)
    ensures
        r@ == service_steps(config.eventd_endpoint is Some, config.service_mode),
{
    let mut r: Vec<ServiceStep> = Vec::new();
    if config.eventd_endpoint.is_some() {
        r.push(ServiceStep::StartEvents);
    }
    match config.service_mode {
        Neon3ServiceMode::AutoHeadless => {
            r.push(ServiceStep::StartHeadlessRenderer);
        },
        Neon3ServiceMode::AutoWindowed => {
            r.push(ServiceStep::StartWindowedRenderer);
        },
        Neon3ServiceMode::External => {},
    }
    r.push(ServiceStep::AwaitRenderer);
    r.push(ServiceStep::StartUiForwarder);
    r.push(ServiceStep::AwaitUi);
    assert(r@ =~= service_steps(config.eventd_endpoint is Some, config.service_mode));
    r
}

/// How long the host waits for a service, in milliseconds.
pub const SERVICE_DEADLINE_MS: u64 = 10_000;

/// How long the host waits for one answer, in milliseconds.
pub const HEALTH_TIMEOUT_MS: u64 = 250;

/// How long the host pauses before it asks again, in milliseconds.
pub const HEALTH_PAUSE_MS: u64 = 50;

/// What to do while waiting for a service.
#[derive(Clone, Copy, Debug, PartialEq, Eq, Structural)]
pub enum HealthStep {
    /// Ask the service.
    Ask,
    /// The service is up.
    Ready,
    /// Pause and look at the clock again.
    Pause,
    /// The service did not come up in time.
    GiveUp,
}

/// The next step in waiting for a service.
pub open spec fn health_step(answered: Option<bool>, elapsed_ms: u64) -> HealthStep {
    match answered {
        Some(up) => if up {
            HealthStep::Ready
        } else {
            HealthStep::Pause
        },
        None => if elapsed_ms < SERVICE_DEADLINE_MS {
            HealthStep::Ask
        } else {
            HealthStep::GiveUp
        },
    }
}

/// What to do next in waiting for a service. `answered` is the outcome of the
/// last question, where one was asked since the last pause; `elapsed_ms` is the
/// time since the waiting began.
pub fn next_health_step(answered: Option<bool>, elapsed_ms: u64) -> (r: HealthStep)
    ensures
        r == match answered {
            Some(true) => HealthStep::Ready,
            Some(false) => HealthStep::Pause,
            None => if elapsed_ms < SERVICE_DEADLINE_MS {
                HealthStep::Ask
            } else {
                HealthStep::GiveUp
            },
        },
        r == health_step(answered, elapsed_ms),
{
    match answered {
        Some(true) => HealthStep::Ready,
        Some(false) => HealthStep::Pause,
        None => if elapsed_ms < SERVICE_DEADLINE_MS {
            HealthStep::Ask
        } else {
            HealthStep::GiveUp
        },
    }
}

/// The message for a service that did not come up.
pub fn unhealthy_message(target: &str, endpoint: &str) -> (r: String)
    ensures
        r@ == "[neon3-bevy-plugin] "@ + target@ + " did not become healthy at "@ + endpoint@,
{
    "[neon3-bevy-plugin] ".to_owned().concat(target).concat(" did not become healthy at ").concat(
        endpoint,
    )
}

/// The services start in order: the events first, where they are asked for, then the
/// renderer of the mode, which is awaited, then the UI runtime, which is awaited too.
/// A host that does not own the renderer starts none.
pub proof fn law_services_start_in_order(events: bool, mode: Neon3ServiceMode)
    ensures
        ({
            let steps = service_steps(events, mode);
            let n = steps.len() as int;
            &&& n >= 3
            &&& steps[n - 1] == ServiceStep::AwaitUi
            &&& steps[n - 2] == ServiceStep::StartUiForwarder
            &&& steps[n - 3] == ServiceStep::AwaitRenderer
            &&& events <==> steps.contains(ServiceStep::StartEvents)
            &&& events ==> steps[0] == ServiceStep::StartEvents
            &&& mode == Neon3ServiceMode::AutoHeadless <==> steps.contains(
                ServiceStep::StartHeadlessRenderer,
            )
            &&& mode == Neon3ServiceMode::AutoWindowed <==> steps.contains(
                ServiceStep::StartWindowedRenderer,
            )
            &&& mode != Neon3ServiceMode::External ==> n >= 4 && (steps[n - 4]
                == ServiceStep::StartHeadlessRenderer || steps[n - 4]
                == ServiceStep::StartWindowedRenderer)
        }),
{
    let steps = service_steps(events, mode);
    let n = steps.len() as int;
    if events {
        assert(steps[0] == ServiceStep::StartEvents);
    }
    if mode == Neon3ServiceMode::AutoHeadless {
        assert(steps[n - 4] == ServiceStep::StartHeadlessRenderer);
    }
    if mode == Neon3ServiceMode::AutoWindowed {
        assert(steps[n - 4] == ServiceStep::StartWindowedRenderer);
    }
}

/// The request for a surface names the session and the surface, and asks for the size
/// of the configuration, width as width and height as height. Only the world surface
/// is placed, and it has a depth unless occlusion is switched off.
pub proof fn law_surface_request_names_its_surface(
    session: Neon3Session,
    pid: u32,
    id: Seq<char>,
    occlusion_disabled: bool,
)
    ensures
        ({
            let call = surface_call(session, pid, id, screen_surface(session)).request;
            let sent = call.params->Json_0;
            &&& call.request_id == id
            &&& call.method == "render.surface.open"@
            &&& call.params is Json
            &&& sent.text_member("session_id"@) == Some(session.config.session_id@)
            &&& sent.text_member("surface_id"@) == Some(session.surface_id@)
            &&& sent.text_member("kind"@) == Some("screen_ui"@)
            &&& sent.member("size"@) is Some
            &&& sent.member("size"@)->0.natural_member("width"@) == Some(
                session.config.surface_size[0] as u64,
            )
            &&& sent.member("size"@)->0.natural_member("height"@) == Some(
                session.config.surface_size[1] as u64,
            )
            &&& sent.member("depth"@) == Some(json::JsonView::Bool(false))
            &&& sent.natural_member("buffer_count"@) == Some(3u64)
            &&& sent.member("placement"@) == Some(json::JsonView::Null)
        }),
        ({
            let call = surface_call(
                session,
                pid,
                id,
                world_surface(session, occlusion_disabled),
            ).request;
            let sent = call.params->Json_0;
            let placement = sent.member("placement"@)->0;
            &&& call.method == "render.surface.open"@
            &&& call.params is Json
            &&& sent.text_member("session_id"@) == Some(session.config.session_id@)
            &&& sent.text_member("surface_id"@) == Some(WORLD_SURFACE_ID@)
            &&& sent.text_member("kind"@) == Some("world_ui"@)
            &&& sent.member("size"@)->0.natural_member("width"@) == Some(
                session.config.surface_size[0] as u64,
            )
            &&& sent.member("size"@)->0.natural_member("height"@) == Some(
                session.config.surface_size[1] as u64,
            )
            &&& sent.member("depth"@) == Some(json::JsonView::Bool(!occlusion_disabled))
            &&& sent.natural_member("buffer_count"@) == Some(3u64)
            &&& placement.member("billboard"@) == Some(json::JsonView::Bool(true))
            &&& placement.text_member("occlusion"@) == Some("depth_tested"@)
        }),
{
    reveal_strlit("session_id");
    reveal_strlit("surface_id");
    reveal_strlit("kind");
    reveal_strlit("size");
    reveal_strlit("format");
    reveal_strlit("color_space");
    reveal_strlit("depth");
    reveal_strlit("buffer_count");
    reveal_strlit("placement");
    reveal_strlit("targets");
    reveal_strlit("width");
    reveal_strlit("height");
    reveal_strlit("billboard");
    reveal_strlit("occlusion");
    assert("session_id"@.len() == 10 && "session_id"@[1] == 'e' && "surface_id"@[1] == 'u'
        && "surface_id"@.len() == 10);
    assert("kind"@.len() == 4 && "kind"@[0] == 'k' && "size"@.len() == 4 && "size"@[0] == 's');
    assert("format"@.len() == 6 && "color_space"@.len() == 11 && "depth"@.len() == 5
        && "buffer_count"@.len() == 12 && "placement"@.len() == 9 && "targets"@.len() == 7);
    assert("width"@.len() != "height"@.len());
    assert("billboard"@.len() == 9 && "billboard"@[0] == 'b' && "occlusion"@.len() == 9
        && "occlusion"@[0] == 'o');
}

/// The host subscribes under its own name, kind and process, to the names with the
/// prefix asked for.
pub proof fn law_subscription_names_what_is_asked(s: SubscriptionView)
    ensures
        ({
            let sent = subscription_json(s);
            let client = sent.member("client"@)->0;
            let filters = sent.member("filters"@)->0;
            &&& sent.text_member("kind"@) == Some("subscribe"@)
            &&& sent.text_member("request_id"@) == Some(s.request_id)
            &&& sent.member("client"@) is Some
            &&& client.text_member("instance_id"@) == Some(s.instance_id)
            &&& client.text_member("origin"@) == Some(s.origin)
            &&& client.natural_member("pid"@) == Some(s.pid as u64)
            &&& client.text_member("kind"@) == Some(client_kind_name(s.kind))
            &&& sent.member("filters"@) is Some && filters is Items
            &&& filters->Items_0.len() == 1
            &&& filters->Items_0[0].text_member("name_prefix"@) == Some(s.name_prefix)
            &&& filters->Items_0[0].member("name"@) == Some(json::JsonView::Null)
        }),
{
    reveal_strlit("kind");
    reveal_strlit("protocol");
    reveal_strlit("version");
    reveal_strlit("request_id");
    reveal_strlit("client");
    reveal_strlit("filters");
    reveal_strlit("instance_id");
    reveal_strlit("pid");
    reveal_strlit("origin");
    reveal_strlit("name");
    reveal_strlit("name_prefix");
    reveal_strlit("publisher_kinds");
    assert("kind"@.len() == 4 && "protocol"@.len() == 8 && "request_id"@.len() == 10
        && "client"@.len() == 6);
    assert("version"@.len() == 7 && "version"@[0] == 'v' && "filters"@.len() == 7 && "filters"@[0]
        == 'f');
    assert("instance_id"@.len() == 11 && "pid"@.len() == 3 && "origin"@.len() == 6);
    assert("name"@.len() == 4 && "name_prefix"@.len() == 11 && "publisher_kinds"@.len() == 15);
}

/// A switch is on exactly where it is set to one.
pub proof fn law_switch_is_on_at_one(value: Seq<char>)
    ensures
        switched_on(Some(value)) <==> value.len() == 1 && value[0] == '1',
        !switched_on(None),
{
    reveal_strlit("1");
    if value.len() == 1 && value[0] == '1' {
        assert(value =~= "1"@);
    }
}

/// A surface has one target, in color and under its own name: that of the session for
/// the screen, that of the world for the world. Both surfaces and their targets have
/// one format, and colors are linear.
pub proof fn law_surface_has_its_color_target(session: Neon3Session, occlusion_disabled: bool)
    ensures
        ({
            let screen = surface_open_json(screen_surface(session));
            let world = surface_open_json(world_surface(session, occlusion_disabled));
            let on_screen = screen.member("targets"@)->0->Items_0;
            let in_world = world.member("targets"@)->0->Items_0;
            &&& screen.member("targets"@) is Some && screen.member("targets"@)->0 is Items
            &&& world.member("targets"@) is Some && world.member("targets"@)->0 is Items
            &&& on_screen.len() == 1 && in_world.len() == 1
            &&& on_screen[0].text_member("target_id"@) == Some(session.color_target_id@)
            &&& in_world[0].text_member("target_id"@) == Some(WORLD_COLOR_TARGET_ID@)
            &&& on_screen[0].text_member("kind"@) == Some("color"@)
            &&& in_world[0].text_member("kind"@) == Some("color"@)
            &&& on_screen[0].text_member("format"@) == Some("rgba8unorm"@)
            &&& in_world[0].text_member("format"@) == Some("rgba8unorm"@)
            &&& screen.text_member("format"@) == Some("rgba8unorm"@)
            &&& world.text_member("format"@) == Some("rgba8unorm"@)
            &&& screen.text_member("color_space"@) == Some("linear"@)
            &&& world.text_member("color_space"@) == Some("linear"@)
        }),
{
    reveal_strlit("session_id");
    reveal_strlit("surface_id");
    reveal_strlit("kind");
    reveal_strlit("size");
    reveal_strlit("format");
    reveal_strlit("color_space");
    reveal_strlit("depth");
    reveal_strlit("buffer_count");
    reveal_strlit("placement");
    reveal_strlit("targets");
    reveal_strlit("target_id");
    assert("session_id"@.len() == 10 && "surface_id"@.len() == 10 && "kind"@.len() == 4
        && "size"@.len() == 4);
    assert("format"@.len() == 6 && "color_space"@.len() == 11 && "depth"@.len() == 5
        && "buffer_count"@.len() == 12 && "placement"@.len() == 9 && "targets"@.len() == 7);
    assert("target_id"@.len() == 9);
}

/// A service is ready exactly where it said so. As long as it did not answer, it is
/// asked before the deadline and given up from then on, once and for all; a refusal is
/// followed by a pause at any time.
pub proof fn law_service_is_awaited_until_the_deadline(
    answered: Option<bool>,
    elapsed_ms: u64,
    later_ms: u64,
)
    requires
        elapsed_ms <= later_ms,
    ensures
        health_step(answered, elapsed_ms) is Ready <==> answered == Some(true),
        health_step(answered, elapsed_ms) is Pause <==> answered == Some(false),
        health_step(None, elapsed_ms) is Ask <==> elapsed_ms < SERVICE_DEADLINE_MS,
        health_step(None, elapsed_ms) is GiveUp ==> health_step(None, later_ms) is GiveUp,
        health_step(None, later_ms) is Ask ==> health_step(None, elapsed_ms) is Ask,
        health_step(None, SERVICE_DEADLINE_MS) is GiveUp,
{
}

} // verus!
