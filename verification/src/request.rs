//! Requests of the host to the Neon3 services.

use vstd::prelude::*;
use vstd::string::*;

use crate::flow;
use crate::flow::{UiInputFrame, UiInputValue};
use crate::frames::{AnchorBatchView, CameraFrame, CameraFrameView, WorldUiAnchorBatch};
use crate::json;
use crate::scalar::Scalar64;
use crate::session::Neon3Session;
use crate::text;

verus! {

broadcast use vstd::string::group_string_axioms;

/// Which of the independent connections to a service a request takes.
#[derive(Clone, Copy, Debug, PartialEq, Eq, Structural, Hash)]
pub enum RpcLane {
    /// The surfaces and the world data, of which only the latest value counts.
    WorldLatest,
    /// What the user does, and the flows.
    Interaction,
}

/// What kind of program a caller is.
#[derive(Clone, Copy, Debug, PartialEq, Eq, Structural)]
pub enum ClientKind {
    Cli,
    UiReactClient,
    UiRuntime,
    TerrainRuntime,
    ResourceRuntime,
    Projectd,
    WgpuRuntime,
    ExternalHost,
}

/// Handedness and axes of a world space.
#[derive(Clone, Copy, Debug, PartialEq, Eq, Structural)]
pub enum CoordinateSystem {
    RightHandedYUpNegativeZForward,
    RightHandedZUpNegativeYForward,
}

/// How world positions reach the renderer.
#[derive(Clone, Copy, Debug, PartialEq, Eq, Structural)]
pub enum WorldPrecisionMode {
    /// In double precision, relative to the camera.
    CameraRelativeDouble,
}

/// The description of a world space.
#[derive(Debug)]
pub struct WorldInformationSnapshot {
    pub world_space_id: String,
    pub revision: u64,
    pub coordinate_system: CoordinateSystem,
    pub units_per_meter: Scalar64,
    pub precision_mode: WorldPrecisionMode,
}

/// What the description of a world space holds.
pub struct WorldInformationView {
    pub world_space_id: Seq<char>,
    pub revision: u64,
    pub coordinate_system: CoordinateSystem,
    pub units_per_meter: Scalar64,
    pub precision_mode: WorldPrecisionMode,
}

impl View for WorldInformationSnapshot {
    type V = WorldInformationView;

    open spec fn view(&self) -> WorldInformationView {
        WorldInformationView {
            world_space_id: self.world_space_id@,
            revision: self.revision,
            coordinate_system: self.coordinate_system,
            units_per_meter: self.units_per_meter,
            precision_mode: self.precision_mode,
        }
    }
}

/// What an input frame holds.
pub struct InputFrameView {
    pub program_revision: neon_ui::UiProgramRevision,
    pub expected_input_revision: u64,
    pub request_id: Seq<char>,
    pub idempotency_key: Seq<char>,
    pub changes: Seq<(Seq<char>, UiInputValue)>,
}

impl View for UiInputFrame {
    type V = InputFrameView;

    open spec fn view(&self) -> InputFrameView {
        InputFrameView {
            program_revision: self.program_revision,
            expected_input_revision: self.expected_input_revision,
            request_id: self.request_id@,
            idempotency_key: self.idempotency_key@,
            changes: flow::changes_view(self.changes@),
        }
    }
}

/// The parameters of a request. Those without floating point numbers are JSON
/// already; the others are still to be serialised.
#[derive(Debug)]
pub enum RequestParams {
    Json(serde_json::Value),
    WorldInformation(WorldInformationSnapshot),
    Camera(CameraFrame),
    Anchors(WorldUiAnchorBatch),
    Input(UiInputFrame),
}

/// What the parameters of a request hold.
pub enum ParamsView {
    Json(json::JsonView),
    WorldInformation(WorldInformationView),
    Camera(CameraFrameView),
    Anchors(AnchorBatchView),
    Input(InputFrameView),
}

impl View for RequestParams {
    type V = ParamsView;

    open spec fn view(&self) -> ParamsView {
        match self {
            RequestParams::Json(value) => ParamsView::Json(json::json_view(*value)),
            RequestParams::WorldInformation(world) => ParamsView::WorldInformation(world@),
            RequestParams::Camera(frame) => ParamsView::Camera(frame@),
            RequestParams::Anchors(batch) => ParamsView::Anchors(batch@),
            RequestParams::Input(frame) => ParamsView::Input(frame@),
        }
    }
}

/// One call of a service.
#[derive(Debug)]
pub struct RpcRequest {
    pub protocol: String,
    pub version_major: u16,
    pub version_minor: u16,
    pub request_id: String,
    pub client_kind: ClientKind,
    pub client_instance_id: String,
    pub client_pid: u32,
    pub client_origin: String,
    pub target: String,
    pub method: String,
    pub params: RequestParams,
    pub expected_revision: Option<u64>,
    pub idempotency_key: Option<String>,
}

/// What a call holds.
pub struct RequestView {
    pub protocol: Seq<char>,
    pub version_major: u16,
    pub version_minor: u16,
    pub request_id: Seq<char>,
    pub client_kind: ClientKind,
    pub client_instance_id: Seq<char>,
    pub client_pid: u32,
    pub client_origin: Seq<char>,
    pub target: Seq<char>,
    pub method: Seq<char>,
    pub params: ParamsView,
    pub expected_revision: Option<u64>,
    pub idempotency_key: Option<Seq<char>>,
}

impl View for RpcRequest {
    type V = RequestView;

    open spec fn view(&self) -> RequestView {
        RequestView {
            protocol: self.protocol@,
            version_major: self.version_major,
            version_minor: self.version_minor,
            request_id: self.request_id@,
            client_kind: self.client_kind,
            client_instance_id: self.client_instance_id@,
            client_pid: self.client_pid,
            client_origin: self.client_origin@,
            target: self.target@,
            method: self.method@,
            params: self.params@,
            expected_revision: self.expected_revision,
            idempotency_key: match self.idempotency_key {
                Some(key) => Some(key@),
                None => None,
            },
        }
    }
}

/// A call with the service and the connection it goes to.
#[derive(Debug)]
pub struct TransportRequest {
    pub endpoint: String,
    pub request: RpcRequest,
    pub lane: RpcLane,
}

/// What a call with its destination holds.
pub struct TransportView {
    pub endpoint: Seq<char>,
    pub request: RequestView,
    pub lane: RpcLane,
}

impl View for TransportRequest {
    type V = TransportView;

    open spec fn view(&self) -> TransportView {
        TransportView { endpoint: self.endpoint@, request: self.request@, lane: self.lane }
    }
}

/// An optional call by what it holds.
pub open spec fn transport_view(request: Option<TransportRequest>) -> Option<TransportView> {
    match request {
        Some(r) => Some(r@),
        None => None,
    }
}

/// A list of calls by what they hold.
pub open spec fn transports_view(requests: Seq<TransportRequest>) -> Seq<TransportView> {
    requests.map_values(|r: TransportRequest| r@)
}

/// Reads the constant `neon_protocol::RPC_PROTOCOL`, the name of the call
/// protocol.
#[verifier::external_body]
fn rpc_protocol() -> (r: &'static str)
    ensures
        r@ == "neon3.rpc"@,
{
    neon_protocol::RPC_PROTOCOL
}

/// Reads the constant `neon_protocol::PROTOCOL_VERSION`, the version of both
/// protocols, as its major and minor number.
#[verifier::external_body]
fn protocol_version() -> (r: (u16, u16))
    ensures
        r == (1u16, 0u16),
{
    (neon_protocol::PROTOCOL_VERSION.major, neon_protocol::PROTOCOL_VERSION.minor)
}

/// The service that answers a method.
pub open spec fn service_of(method: Seq<char>) -> Seq<char> {
    if text::has_prefix(method, "ui."@) {
        "ui-runtime"@
    } else {
        "wgpu-runtime"@
    }
}

/// The call of a method in a session.
pub open spec fn host_request(
    session: Neon3Session,
    pid: u32,
    id: Seq<char>,
    method: Seq<char>,
    params: ParamsView,
) -> RequestView {
    RequestView {
        protocol: "neon3.rpc"@,
        version_major: 1,
        version_minor: 0,
        request_id: id,
        client_kind: ClientKind::ExternalHost,
        client_instance_id: session.config.session_id@,
        client_pid: pid,
        client_origin: "neon3-bevy-nui-host"@,
        target: service_of(method),
        method,
        params,
        expected_revision: None,
        idempotency_key: Some("bevy:"@ + method + ":"@ + id),
    }
}

/// Builds the call of a method in a session.
pub fn rpc_request_for(
    id: String,
    method: &str,
    session: &Neon3Session,
    pid: u32,
    params: RequestParams,
) -> (r: RpcRequest)
    ensures
        r@ == host_request(*session, pid, id@, method@, params@),
{
    let target = if text::starts_with(method, "ui.") {
        "ui-runtime"
    } else {
        "wgpu-runtime"
    };
    let (version_major, version_minor) = protocol_version();
    RpcRequest {
        protocol: rpc_protocol().to_owned(),
        version_major,
        version_minor,
        idempotency_key: Some(
            "bevy:".to_owned().concat(method).concat(":").concat(id.as_str()),
        ),
        request_id: id,
        client_kind: ClientKind::ExternalHost,
        client_instance_id: session.config.session_id.clone(),
        client_pid: pid,
        client_origin: "neon3-bevy-nui-host".to_owned(),
        target: target.to_owned(),
        method: method.to_owned(),
        params,
        expected_revision: None,
    }
}

/// A call that goes to the renderer.
pub open spec fn wgpu_request(
    session: Neon3Session,
    pid: u32,
    id: Seq<char>,
    method: Seq<char>,
    params: ParamsView,
) -> TransportView {
    TransportView {
        endpoint: session.config.wgpu_endpoint@,
        request: host_request(session, pid, id, method, params),
        lane: RpcLane::WorldLatest,
    }
}

/// A call that goes to the UI runtime.
pub open spec fn ui_request(
    session: Neon3Session,
    pid: u32,
    id: Seq<char>,
    method: Seq<char>,
    params: ParamsView,
) -> TransportView {
    TransportView {
        endpoint: session.config.ui_endpoint@,
        request: host_request(session, pid, id, method, params),
        lane: RpcLane::Interaction,
    }
}

/// Builds a call that goes to the renderer.
pub fn request_to_wgpu(
    id: String,
    method: &str,
    session: &Neon3Session,
    pid: u32,
    params: RequestParams,
) -> (r: TransportRequest)
    ensures
        r@ == wgpu_request(*session, pid, id@, method@, params@),
{
    TransportRequest {
        endpoint: session.config.wgpu_endpoint.clone(),
        request: rpc_request_for(id, method, session, pid, params),
        lane: RpcLane::WorldLatest,
    }
}

/// Builds a call that goes to the UI runtime.
pub fn request_to_ui(
    id: String,
    method: &str,
    session: &Neon3Session,
    pid: u32,
    params: RequestParams,
) -> (r: TransportRequest)
    ensures
        r@ == ui_request(*session, pid, id@, method@, params@),
{
    TransportRequest {
        endpoint: session.config.ui_endpoint.clone(),
        request: rpc_request_for(id, method, session, pid, params),
        lane: RpcLane::Interaction,
    }
}

/// The call that asks a service whether it is up.
pub open spec fn health_call(target: Seq<char>, pid: u32) -> RequestView {
    RequestView {
        protocol: "neon3.rpc"@,
        version_major: 1,
        version_minor: 0,
        request_id: "bevy-plugin-health-"@ + target,
        client_kind: ClientKind::ExternalHost,
        client_instance_id: "neon3-bevy-plugin-startup"@,
        client_pid: pid,
        client_origin: "neon3-bevy-plugin"@,
        target,
        method: "service.health"@,
        params: ParamsView::Json(json::JsonView::Members(Map::empty())),
        expected_revision: None,
        idempotency_key: Some("bevy-plugin-health:"@ + target),
    }
}

/// Builds the call that asks a service whether it is up.
pub fn health_request(target: &str, pid: u32) -> (r: RpcRequest)
    ensures
        r@ == health_call(target@, pid),
{
    let (version_major, version_minor) = protocol_version();
    RpcRequest {
        protocol: rpc_protocol().to_owned(),
        version_major,
        version_minor,
        request_id: "bevy-plugin-health-".to_owned().concat(target),
        client_kind: ClientKind::ExternalHost,
        client_instance_id: "neon3-bevy-plugin-startup".to_owned(),
        client_pid: pid,
        client_origin: "neon3-bevy-plugin".to_owned(),
        target: target.to_owned(),
        method: "service.health".to_owned(),
        params: RequestParams::Json(json::json_object()),
        expected_revision: None,
        idempotency_key: Some("bevy-plugin-health:".to_owned().concat(target)),
    }
}

/// A call carries its name, its method and its parameters as they are given, for the
/// session and the process that make it. Methods of the UI runtime go to it, all
/// others to the renderer. Its key names both method and call.
pub proof fn law_request_carries_its_call(
    session: Neon3Session,
    pid: u32,
    id: Seq<char>,
    method: Seq<char>,
    rest: Seq<char>,
    params: ParamsView,
)
    ensures
        ({
            let r = host_request(session, pid, id, method, params);
            &&& r.request_id == id
            &&& r.method == method
            &&& r.params == params
            &&& r.client_pid == pid
            &&& r.client_instance_id == session.config.session_id@
            &&& r.client_kind == ClientKind::ExternalHost
            &&& r.expected_revision is None
            &&& r.idempotency_key == Some("bevy:"@ + method + ":"@ + id)
            &&& method == "ui."@ + rest ==> r.target == "ui-runtime"@
            &&& !text::has_prefix(method, "ui."@) ==> r.target == "wgpu-runtime"@
        }),
        ({
            let to_renderer = wgpu_request(session, pid, id, method, params);
            let to_ui = ui_request(session, pid, id, method, params);
            &&& to_renderer.endpoint == session.config.wgpu_endpoint@
            &&& to_renderer.lane == RpcLane::WorldLatest
            &&& to_ui.endpoint == session.config.ui_endpoint@
            &&& to_ui.lane == RpcLane::Interaction
            &&& to_renderer.request == to_ui.request
            &&& to_ui.request == host_request(session, pid, id, method, params)
        }),
{
    text::law_prefix_is_the_beginning(method, "ui."@);
}

} // verus!
