//! The world data plane: camera frames and anchor batches as latest values.
//!
//! Pending values are overwritten while a request is in flight; only the newest
//! value is sent next. One sequence number is shared by a camera frame and its
//! anchor batch.

use vstd::prelude::*;
use vstd::string::*;

use crate::flow;
use crate::frames;
use crate::frames::{
    AnchorBatchView, AnchorView, CameraFrame, CameraFramePayload, CameraFrameView, WorldCoordinate,
    WorldUiAnchorBatch, WorldUiAnchorSample,
};
use crate::order;
use crate::order::KeyText;
use crate::request;
use crate::request::{ParamsView, RequestParams, TransportRequest, TransportView};
use crate::scalar::{Scalar32, Scalar64};
use crate::session::{Neon3Session, WORLD_SPACE_ID};
use crate::text;
use crate::ui::WorldUiOcclusion;

verus! {

broadcast use vstd::string::group_string_axioms;

// ---------------------------------------------------------------------------
// Signatures
// ---------------------------------------------------------------------------

/// A short description of a camera and its anchors that changes with any bit
/// of the camera.
#[derive(Clone, Copy, Debug, PartialEq, Eq)]
pub struct WorldFrameSignature {
    pub camera_position: [u32; 3],
    pub camera_orientation: [u32; 4],
    pub fov: u32,
    pub near: u32,
    pub far: u32,
    pub anchor_count: u32,
    pub anchor_hash: u64,
}

/// What a signature holds.
pub struct SignatureView {
    pub camera_position: Seq<u32>,
    pub camera_orientation: Seq<u32>,
    pub fov: u32,
    pub near: u32,
    pub far: u32,
    pub anchor_count: u32,
    pub anchor_hash: u64,
}

impl View for WorldFrameSignature {
    type V = SignatureView;

    open spec fn view(&self) -> SignatureView {
        SignatureView {
            camera_position: self.camera_position@,
            camera_orientation: self.camera_orientation@,
            fov: self.fov,
            near: self.near,
            far: self.far,
            anchor_count: self.anchor_count,
            anchor_hash: self.anchor_hash,
        }
    }
}

/// The signature of a camera with the given anchor part. A camera without
/// depth contributes nothing.
pub open spec fn signature_of_camera(
    frame: CameraFrameView,
    anchor_count: u32,
    anchor_hash: u64,
) -> SignatureView {
    match frame.payload {
        CameraFramePayload::ThreeDimensional {
            position,
            orientation,
            vertical_fov_radians,
            near,
            far,
        } => SignatureView {
            camera_position: seq![
                position[0].narrow_bits,
                position[1].narrow_bits,
                position[2].narrow_bits,
            ],
            camera_orientation: seq![
                orientation[0].bits,
                orientation[1].bits,
                orientation[2].bits,
                orientation[3].bits,
            ],
            fov: vertical_fov_radians.bits,
            near: near.bits,
            far: far.bits,
            anchor_count,
            anchor_hash,
        },
        CameraFramePayload::TwoDimensional { .. } => signature_of_anchors(
            anchor_count,
            anchor_hash,
        ),
    }
}

/// The signature of anchors without a camera.
pub open spec fn signature_of_anchors(anchor_count: u32, anchor_hash: u64) -> SignatureView {
    SignatureView {
        camera_position: seq![0u32, 0, 0],
        camera_orientation: seq![0u32, 0, 0, 0],
        fov: 0,
        near: 0,
        far: 0,
        anchor_count,
        anchor_hash,
    }
}

/// The number of anchors as a signature keeps it.
pub open spec fn anchor_count(anchors: Seq<AnchorView>) -> u32 {
    anchors.len() as usize as u32
}

/// The signature of a camera with its anchors.
pub open spec fn signature_of(camera: CameraFrameView, anchors: AnchorBatchView) -> SignatureView {
    signature_of_camera(
        camera,
        anchor_count(anchors.anchors),
        frames::anchors_hash(anchors.anchors),
    )
}

fn bare_signature(anchor_count: u32, anchor_hash: u64) -> (r: WorldFrameSignature)
    ensures
        r@ == signature_of_anchors(anchor_count, anchor_hash),
{
    let r = WorldFrameSignature {
        camera_position: [0, 0, 0],
        camera_orientation: [0, 0, 0, 0],
        fov: 0,
        near: 0,
        far: 0,
        anchor_count,
        anchor_hash,
    };
    assert(r.camera_position@ =~= seq![0u32, 0, 0]);
    assert(r.camera_orientation@ =~= seq![0u32, 0, 0, 0]);
    r
}

/// The signature of a camera with the given anchor part.
pub fn camera_signature(frame: &CameraFrame, anchor_count: u32, anchor_hash: u64) -> (r:
    WorldFrameSignature)
    ensures
        r@ == signature_of_camera(frame@, anchor_count, anchor_hash),
{
    match &frame.payload {
        CameraFramePayload::ThreeDimensional {
            position,
            orientation,
            vertical_fov_radians,
            near,
            far,
        } => {
            let r = WorldFrameSignature {
                camera_position: [
                    position[0].narrow_bits,
                    position[1].narrow_bits,
                    position[2].narrow_bits,
                ],
                camera_orientation: [
                    orientation[0].bits,
                    orientation[1].bits,
                    orientation[2].bits,
                    orientation[3].bits,
                ],
                fov: vertical_fov_radians.bits,
                near: near.bits,
                far: far.bits,
                anchor_count,
                anchor_hash,
            };
            proof {
                let s = signature_of_camera(frame@, anchor_count, anchor_hash);
                assert(r.camera_position@ =~= s.camera_position);
                assert(r.camera_orientation@ =~= s.camera_orientation);
            }
            r
        },
        CameraFramePayload::TwoDimensional { .. } => bare_signature(anchor_count, anchor_hash),
    }
}

/// The signature of a camera with its anchors.
pub fn world_frame_signature(camera: &CameraFrame, anchors: &WorldUiAnchorBatch) -> (r:
    WorldFrameSignature)
    ensures
        r@ == signature_of(camera@, anchors@),
{
    camera_signature(camera, anchors.anchors.len() as u32, frames::anchor_hash(anchors))
}

fn same_signature(a: &WorldFrameSignature, b: &WorldFrameSignature) -> (r: bool)
    ensures
        r == (a@ == b@),
{
    let same = a.camera_position[0] == b.camera_position[0] && a.camera_position[1]
        == b.camera_position[1] && a.camera_position[2] == b.camera_position[2]
        && a.camera_orientation[0] == b.camera_orientation[0] && a.camera_orientation[1]
        == b.camera_orientation[1] && a.camera_orientation[2] == b.camera_orientation[2]
        && a.camera_orientation[3] == b.camera_orientation[3] && a.fov == b.fov && a.near == b.near
        && a.far == b.far && a.anchor_count == b.anchor_count && a.anchor_hash == b.anchor_hash;
    proof {
        if same {
            assert(a.camera_position@ =~= b.camera_position@);
            assert(a.camera_orientation@ =~= b.camera_orientation@);
        }
        if a@ == b@ {
            assert(a.camera_position@ == b.camera_position@);
            assert(a.camera_orientation@ == b.camera_orientation@);
        }
    }
    same
}

/// The signature does not depend on the order in which a batch lists its
/// anchors, as long as no two of them share an identity.
pub proof fn law_signature_ignores_anchor_order(
    camera: CameraFrameView,
    a: AnchorBatchView,
    b: AnchorBatchView,
)
    requires
        order::keys_differ(a.anchors),
        order::keys_differ(b.anchors),
        forall|x: AnchorView| #[trigger] a.anchors.contains(x) <==> b.anchors.contains(x),
    ensures
        signature_of(camera, a) == signature_of(camera, b),
{
    order::law_order_ignores_arrangement(a.anchors, b.anchors);
    assert(a.anchors.no_duplicates()) by {
        assert forall|i: int, j: int|
            0 <= i < a.anchors.len() && 0 <= j < a.anchors.len() && i != j implies a.anchors[i]
            != a.anchors[j] by {
            if i < j {
                assert(order::KeyText::key_text(&a.anchors[i]) != order::KeyText::key_text(
                    &a.anchors[j],
                ));
            } else {
                assert(order::KeyText::key_text(&a.anchors[j]) != order::KeyText::key_text(
                    &a.anchors[i],
                ));
            }
        }
    }
    assert(b.anchors.no_duplicates()) by {
        assert forall|i: int, j: int|
            0 <= i < b.anchors.len() && 0 <= j < b.anchors.len() && i != j implies b.anchors[i]
            != b.anchors[j] by {
            if i < j {
                assert(order::KeyText::key_text(&b.anchors[i]) != order::KeyText::key_text(
                    &b.anchors[j],
                ));
            } else {
                assert(order::KeyText::key_text(&b.anchors[j]) != order::KeyText::key_text(
                    &b.anchors[i],
                ));
            }
        }
    }
    a.anchors.unique_seq_to_set();
    b.anchors.unique_seq_to_set();
    assert(a.anchors.to_set() =~= b.anchors.to_set());
}

/// Two cameras with depth have the same signature exactly where they agree in
/// every bit that the renderer uses.
pub proof fn law_signature_is_bit_exact(
    a: CameraFrameView,
    b: CameraFrameView,
    anchors: AnchorBatchView,
)
    requires
        a.payload is ThreeDimensional,
        b.payload is ThreeDimensional,
    ensures
        signature_of(a, anchors) == signature_of(b, anchors) <==> {
            &&& forall|i: int|
                0 <= i < 3 ==> (#[trigger] a.payload->position[i]).narrow_bits
                    == b.payload->position[i].narrow_bits
            &&& forall|i: int|
                0 <= i < 4 ==> (#[trigger] a.payload->orientation[i]).bits
                    == b.payload->orientation[i].bits
            &&& a.payload->vertical_fov_radians.bits == b.payload->vertical_fov_radians.bits
            &&& a.payload->near.bits == b.payload->near.bits
            &&& a.payload->far.bits == b.payload->far.bits
        },
{
    let (s, t) = (signature_of(a, anchors), signature_of(b, anchors));
    if s == t {
        assert(s.camera_position[0] == t.camera_position[0]);
        assert(s.camera_position[1] == t.camera_position[1]);
        assert(s.camera_position[2] == t.camera_position[2]);
        assert(s.camera_orientation[0] == t.camera_orientation[0]);
        assert(s.camera_orientation[1] == t.camera_orientation[1]);
        assert(s.camera_orientation[2] == t.camera_orientation[2]);
        assert(s.camera_orientation[3] == t.camera_orientation[3]);
    } else {
        assert(a.payload->position[0].narrow_bits == a.payload->position[0].narrow_bits);
        assert(!(s.camera_position =~= t.camera_position) || !(s.camera_orientation
            =~= t.camera_orientation) || s.fov != t.fov || s.near != t.near || s.far != t.far);
    }
}

// ---------------------------------------------------------------------------
// Pending values
// ---------------------------------------------------------------------------

/// The camera that is to be sent or was sent last.
#[derive(Clone, Debug)]
pub struct PendingCameraSubmission {
    pub frame: CameraFrame,
    pub signature: WorldFrameSignature,
    /// Whether the frame still has to be sent.
    pub dirty: bool,
    /// Whether a request is on its way.
    pub in_flight: bool,
}

/// The anchors that are to be sent or were sent last.
#[derive(Clone, Debug)]
pub struct PendingAnchorSubmission {
    pub batch: WorldUiAnchorBatch,
    pub signature: WorldFrameSignature,
    /// Whether the batch still has to be sent.
    pub dirty: bool,
    /// Whether a request is on its way.
    pub in_flight: bool,
}

/// The latest values of the world data plane.
pub struct LatestWorldSubmission {
    pub camera: Option<PendingCameraSubmission>,
    pub anchors: Option<PendingAnchorSubmission>,
    pub last_sent_signature: Option<WorldFrameSignature>,
    pub last_sent_camera: Option<CameraFrame>,
    pub last_sent_anchors: Option<WorldUiAnchorBatch>,
}

/// What a pending camera holds.
pub struct PendingCameraView {
    pub frame: CameraFrameView,
    pub signature: SignatureView,
    pub dirty: bool,
    pub in_flight: bool,
}

/// What a pending anchor batch holds.
pub struct PendingAnchorView {
    pub batch: AnchorBatchView,
    pub signature: SignatureView,
    pub dirty: bool,
    pub in_flight: bool,
}

/// What the latest values hold.
pub struct LatestView {
    pub camera: Option<PendingCameraView>,
    pub anchors: Option<PendingAnchorView>,
    pub last_sent_signature: Option<SignatureView>,
    pub last_sent_camera: Option<CameraFrameView>,
    pub last_sent_anchors: Option<AnchorBatchView>,
}

impl View for PendingCameraSubmission {
    type V = PendingCameraView;

    open spec fn view(&self) -> PendingCameraView {
        PendingCameraView {
            frame: self.frame@,
            signature: self.signature@,
            dirty: self.dirty,
            in_flight: self.in_flight,
        }
    }
}

impl View for PendingAnchorSubmission {
    type V = PendingAnchorView;

    open spec fn view(&self) -> PendingAnchorView {
        PendingAnchorView {
            batch: self.batch@,
            signature: self.signature@,
            dirty: self.dirty,
            in_flight: self.in_flight,
        }
    }
}

impl View for LatestWorldSubmission {
    type V = LatestView;

    open spec fn view(&self) -> LatestView {
        LatestView {
            camera: match self.camera {
                Some(pending) => Some(pending@),
                None => None,
            },
            anchors: match self.anchors {
                Some(pending) => Some(pending@),
                None => None,
            },
            last_sent_signature: match self.last_sent_signature {
                Some(signature) => Some(signature@),
                None => None,
            },
            last_sent_camera: match self.last_sent_camera {
                Some(frame) => Some(frame@),
                None => None,
            },
            last_sent_anchors: match self.last_sent_anchors {
                Some(batch) => Some(batch@),
                None => None,
            },
        }
    }
}

/// Nothing pending, nothing sent.
pub open spec fn nothing_pending() -> LatestView {
    LatestView {
        camera: None,
        anchors: None,
        last_sent_signature: None,
        last_sent_camera: None,
        last_sent_anchors: None,
    }
}

impl Default for LatestWorldSubmission {
    fn default() -> (r: Self)
        ensures
            r@ == nothing_pending(),
    {
        LatestWorldSubmission {
            camera: None,
            anchors: None,
            last_sent_signature: None,
            last_sent_camera: None,
            last_sent_anchors: None,
        }
    }
}

/// The state after a camera frame was published. One that shows what is already
/// pending changes nothing; another takes its place, and a request that is on
/// its way stays on its way.
pub open spec fn camera_published(latest: LatestView, frame: CameraFrameView) -> LatestView {
    if latest.camera matches Some(pending) && frames::same_camera(pending.frame, frame) {
        latest
    } else {
        LatestView {
            camera: Some(
                PendingCameraView {
                    frame,
                    signature: signature_of_camera(frame, 0, 0),
                    dirty: true,
                    in_flight: latest.camera matches Some(pending) && pending.in_flight,
                },
            ),
            ..latest
        }
    }
}

/// The state after an anchor batch was published, with the same rules.
pub open spec fn anchors_published(latest: LatestView, batch: AnchorBatchView) -> LatestView {
    if latest.anchors matches Some(pending) && frames::same_anchors(pending.batch, batch) {
        latest
    } else {
        LatestView {
            anchors: Some(
                PendingAnchorView {
                    batch,
                    signature: signature_of_anchors(
                        anchor_count(batch.anchors),
                        frames::anchors_hash(batch.anchors),
                    ),
                    dirty: true,
                    in_flight: latest.anchors matches Some(pending) && pending.in_flight,
                },
            ),
            ..latest
        }
    }
}

/// The state after the request for the camera left.
pub open spec fn camera_left(latest: LatestView) -> LatestView {
    LatestView {
        camera: match latest.camera {
            Some(pending) => Some(
                PendingCameraView { dirty: false, in_flight: true, ..pending },
            ),
            None => None,
        },
        ..latest
    }
}

/// The state after the request for the anchors left.
pub open spec fn anchors_left(latest: LatestView) -> LatestView {
    LatestView {
        anchors: match latest.anchors {
            Some(pending) => Some(
                PendingAnchorView { dirty: false, in_flight: true, ..pending },
            ),
            None => None,
        },
        ..latest
    }
}

/// The state after the request for the camera was answered. Where it was not
/// accepted, the camera has to be sent again.
pub open spec fn camera_answered(latest: LatestView, accepted: bool) -> LatestView {
    LatestView {
        camera: match latest.camera {
            Some(pending) => Some(
                PendingCameraView { dirty: pending.dirty || !accepted, in_flight: false, ..pending },
            ),
            None => None,
        },
        ..latest
    }
}

/// The state after the request for the anchors was answered. Where it was not
/// accepted, the anchors have to be sent again.
pub open spec fn anchors_answered(latest: LatestView, accepted: bool) -> LatestView {
    LatestView {
        anchors: match latest.anchors {
            Some(pending) => Some(
                PendingAnchorView { dirty: pending.dirty || !accepted, in_flight: false, ..pending },
            ),
            None => None,
        },
        ..latest
    }
}

impl LatestWorldSubmission {
    /// Publishes a camera frame.
    pub fn publish_camera(&mut self, frame: CameraFrame)
        ensures
            final(self)@ == camera_published(old(self)@, frame@),
    {
        let mut in_flight = false;
        if let Some(pending) = &self.camera {
            if frames::same_camera_frame(&pending.frame, &frame) {
                return;
            }
            in_flight = pending.in_flight;
        }
        let signature = camera_signature(&frame, 0, 0);
        self.camera = Some(PendingCameraSubmission { frame, signature, dirty: true, in_flight });
    }

    /// Publishes an anchor batch.
    pub fn publish_anchors(&mut self, batch: WorldUiAnchorBatch)
        ensures
            final(self)@ == anchors_published(old(self)@, batch@),
    {
        let mut in_flight = false;
        if let Some(pending) = &self.anchors {
            if frames::same_anchor_batch(&pending.batch, &batch) {
                return;
            }
            in_flight = pending.in_flight;
        }
        let signature = bare_signature(batch.anchors.len() as u32, frames::anchor_hash(&batch));
        self.anchors = Some(PendingAnchorSubmission { batch, signature, dirty: true, in_flight });
    }

    /// Notes that the request for the camera left.
    pub fn camera_sent(&mut self)
        ensures
            final(self)@ == camera_left(old(self)@),
    {
        if let Some(mut pending) = self.camera.take() {
            pending.in_flight = true;
            pending.dirty = false;
            self.camera = Some(pending);
        }
    }

    /// Notes that the request for the anchors left.
    pub fn anchors_sent(&mut self)
        ensures
            final(self)@ == anchors_left(old(self)@),
    {
        if let Some(mut pending) = self.anchors.take() {
            pending.in_flight = true;
            pending.dirty = false;
            self.anchors = Some(pending);
        }
    }

    /// Notes that the request for the camera was answered.
    pub fn camera_done(&mut self, accepted: bool)
        ensures
            final(self)@ == camera_answered(old(self)@, accepted),
    {
        if let Some(mut pending) = self.camera.take() {
            pending.in_flight = false;
            if !accepted {
                pending.dirty = true;
            }
            self.camera = Some(pending);
        }
    }

    /// Notes that the request for the anchors was answered.
    pub fn anchors_done(&mut self, accepted: bool)
        ensures
            final(self)@ == anchors_answered(old(self)@, accepted),
    {
        if let Some(mut pending) = self.anchors.take() {
            pending.in_flight = false;
            if !accepted {
                pending.dirty = true;
            }
            self.anchors = Some(pending);
        }
    }
}

// ---------------------------------------------------------------------------
// Publishing
// ---------------------------------------------------------------------------

/// How the host camera projects.
#[derive(Clone, Copy, Debug, PartialEq)]
pub enum HostProjection {
    Perspective { vertical_fov_radians: Scalar32, near: Scalar32, far: Scalar32 },
    /// A projection that the renderer does not take.
    Other,
}

/// The one camera of the host.
#[derive(Clone, Copy, Debug, PartialEq)]
pub struct HostCamera {
    pub position: [WorldCoordinate; 3],
    pub orientation: [Scalar32; 4],
    pub projection: HostProjection,
}

/// The frame that a host camera becomes. Its sequence is given when it is sent.
pub open spec fn host_camera_frame(
    camera: HostCamera,
    producer_epoch: u64,
    timestamp: u64,
) -> CameraFrameView {
    CameraFrameView {
        camera_id: "bevy.main.camera"@,
        world_space_id: WORLD_SPACE_ID@,
        producer_epoch,
        sequence: 0,
        timestamp_monotonic_ns: timestamp,
        payload: CameraFramePayload::ThreeDimensional {
            position: camera.position,
            orientation: camera.orientation,
            vertical_fov_radians: camera.projection->vertical_fov_radians,
            near: camera.projection->near,
            far: camera.projection->far,
        },
    }
}

/// What waits to be submitted after the host showed its camera.
pub open spec fn camera_shown(
    session: Neon3Session,
    latest: LatestView,
    camera: Option<HostCamera>,
    timestamp: u64,
) -> LatestView {
    match camera {
        Some(c) => if session.publishes_world() && c.projection is Perspective {
            camera_published(latest, host_camera_frame(c, session.producer_epoch, timestamp))
        } else {
            latest
        },
        None => latest,
    }
}

/// Publishes the host camera, once both surfaces are there and the host shows
/// world interfaces. Without a single perspective camera nothing happens.
pub fn publish_camera_snapshot(
    session: &Neon3Session,
    latest: &mut LatestWorldSubmission,
    camera: Option<HostCamera>,
    timestamp: u64,
)
    ensures
        final(latest)@ == if session.publishes_world() && (camera matches Some(c)
            && c.projection is Perspective) {
            camera_published(
                old(latest)@,
                host_camera_frame(camera->0, session.producer_epoch, timestamp),
            )
        } else {
            old(latest)@
        },
        final(latest)@ == camera_shown(*session, old(latest)@, camera, timestamp),
{
    if !session.world_is_published() {
        return;
    }
    if let Some(c) = camera {
        if let HostProjection::Perspective { vertical_fov_radians, near, far } = c.projection {
            latest.publish_camera(
                CameraFrame {
                    camera_id: "bevy.main.camera".to_owned(),
                    world_space_id: WORLD_SPACE_ID.to_owned(),
                    producer_epoch: session.producer_epoch,
                    sequence: 0,
                    timestamp_monotonic_ns: timestamp,
                    payload: CameraFramePayload::ThreeDimensional {
                        position: c.position,
                        orientation: c.orientation,
                        vertical_fov_radians,
                        near,
                        far,
                    },
                },
            );
        }
    }
}

/// A world instance as the host camera sees it.
#[derive(Debug)]
pub struct WorldPlacement {
    pub anchor: String,
    /// The attachment point in the world.
    pub position: [Scalar64; 3],
    pub occlusion: WorldUiOcclusion,
    /// The distance from the camera along its view axis.
    pub view_distance: Scalar32,
    /// The attachment point in normalized device coordinates.
    pub device_x: Scalar32,
    pub device_y: Scalar32,
    /// The same point in viewport coordinates, from the top left.
    pub viewport_x: Scalar32,
    pub viewport_y: Scalar32,
}

/// The bits of the coordinate of a hidden panel, minus one.
pub const HIDDEN_COORDINATE_BITS: u32 = 0xbf80_0000;

/// Whether a number lies between minus one and one.
pub open spec fn within_unit(x: Scalar32) -> bool {
    x.magnitude() <= 0x3f80_0000
}

/// Whether an instance is in front of the camera, within its range and on the
/// screen.
pub open spec fn on_screen(p: WorldPlacement, near: Scalar32, far: Scalar32) -> bool {
    &&& near.below(p.view_distance)
    &&& p.view_distance.below(far) || p.view_distance.same_number(far)
    &&& within_unit(p.device_x)
    &&& within_unit(p.device_y)
}

/// The anchor sample of an instance. What is not on the screen gets
/// coordinates that hide the panel; the real distance stays.
pub open spec fn placed_anchor(p: WorldPlacement, near: Scalar32, far: Scalar32) -> AnchorView {
    let shown = on_screen(p, near, far);
    AnchorView {
        anchor_id: p.anchor@,
        position: p.position@,
        billboard: true,
        occlusion: p.occlusion.name(),
        screen_x: if shown {
            p.viewport_x
        } else {
            Scalar32 { bits: HIDDEN_COORDINATE_BITS }
        },
        screen_y: if shown {
            p.viewport_y
        } else {
            Scalar32 { bits: HIDDEN_COORDINATE_BITS }
        },
        view_distance: p.view_distance,
    }
}

/// The samples of several instances, in their order.
pub open spec fn placed_anchors(
    placements: Seq<WorldPlacement>,
    near: Scalar32,
    far: Scalar32,
) -> Seq<AnchorView> {
    placements.map_values(|p: WorldPlacement| placed_anchor(p, near, far))
}

fn is_within_unit(x: Scalar32) -> (r: bool)
    ensures
        r == within_unit(x),
{
    if x.bits >= 0x8000_0000 {
        x.bits - 0x8000_0000 <= 0x3f80_0000
    } else {
        x.bits <= 0x3f80_0000
    }
}

fn place_anchor(p: &WorldPlacement, near: Scalar32, far: Scalar32) -> (r: WorldUiAnchorSample)
    ensures
        r@ == placed_anchor(*p, near, far),
{
    let shown = near.is_below(p.view_distance) && p.view_distance.is_at_most(far)
        && is_within_unit(p.device_x) && is_within_unit(p.device_y);
    let (screen_x, screen_y) = if shown {
        (p.viewport_x, p.viewport_y)
    } else {
        (
            Scalar32 { bits: HIDDEN_COORDINATE_BITS },
            Scalar32 { bits: HIDDEN_COORDINATE_BITS },
        )
    };
    WorldUiAnchorSample {
        anchor_id: p.anchor.clone(),
        position: p.position,
        billboard: true,
        occlusion: p.occlusion.as_str().to_owned(),
        screen_x,
        screen_y,
        view_distance: p.view_distance,
    }
}

/// The batch that the world instances of the host become, ordered by anchor.
/// Its sequence is given when it is sent.
pub open spec fn host_anchor_batch(
    anchors: Seq<AnchorView>,
    producer_epoch: u64,
    timestamp: u64,
) -> AnchorBatchView {
    AnchorBatchView {
        world_space_id: WORLD_SPACE_ID@,
        producer_epoch,
        sequence: 0,
        timestamp_monotonic_ns: timestamp,
        anchors: order::stable_order(anchors),
    }
}

/// A panel is published as a billboard at its real distance from the camera,
/// whether or not it is on the screen.
pub proof fn law_panels_keep_their_distance(
    placements: Seq<WorldPlacement>,
    near: Scalar32,
    far: Scalar32,
)
    ensures
        placed_anchors(placements, near, far).len() == placements.len(),
        forall|i: int|
            0 <= i < placements.len() ==> {
                &&& (#[trigger] placed_anchors(placements, near, far)[i]).billboard
                &&& placed_anchors(placements, near, far)[i].view_distance
                    == placements[i].view_distance
            },
{
}

/// What waits to be submitted after the host showed its panels.
pub open spec fn panels_shown(
    session: Neon3Session,
    latest: LatestView,
    projection: Option<HostProjection>,
    placements: Seq<WorldPlacement>,
    timestamp: u64,
) -> LatestView {
    match projection {
        Some(p) => if session.publishes_world() && p is Perspective {
            anchors_published(
                latest,
                host_anchor_batch(
                    placed_anchors(placements, p->near, p->far),
                    session.producer_epoch,
                    timestamp,
                ),
            )
        } else {
            latest
        },
        None => latest,
    }
}

/// Publishes the world instances of the host, once both surfaces are there and
/// the host shows world interfaces. Without a single perspective camera nothing
/// happens.
pub fn publish_world_anchor(
    session: &Neon3Session,
    latest: &mut LatestWorldSubmission,
    projection: Option<HostProjection>,
    placements: &Vec<WorldPlacement>,
    timestamp: u64,
)
    ensures
        final(latest)@ == if session.publishes_world() && (projection matches Some(p)
            && p is Perspective) {
            anchors_published(
                old(latest)@,
                host_anchor_batch(
                    placed_anchors(placements@, projection->0->near, projection->0->far),
                    session.producer_epoch,
                    timestamp,
                ),
            )
        } else {
            old(latest)@
        },
        final(latest)@ == panels_shown(
            *session,
            old(latest)@,
            projection,
            placements@,
            timestamp,
        ),
{
    if !session.world_is_published() {
        return;
    }
    if let Some(HostProjection::Perspective { vertical_fov_radians: _, near, far }) = projection {
        let mut samples: Vec<WorldUiAnchorSample> = Vec::new();
        let ghost placed = placed_anchors(placements@, near, far);
        let mut i: usize = 0;
        while i < placements.len()
            invariant
                i <= placements.len(),
                placed == placed_anchors(placements@, near, far),
                frames::anchors_view(samples@) =~= placed.take(i as int),
            decreases placements.len() - i,
        {
            let ghost before = samples@;
            samples.push(place_anchor(&placements[i], near, far));
            assert(frames::anchors_view(samples@) =~= frames::anchors_view(before).push(
                placed[i as int],
            ));
            i += 1;
        }
        assert(placed.take(i as int) =~= placed);
        let anchors = frames::sort_anchors(samples);
        latest.publish_anchors(
            WorldUiAnchorBatch {
                world_space_id: WORLD_SPACE_ID.to_owned(),
                producer_epoch: session.producer_epoch,
                sequence: 0,
                timestamp_monotonic_ns: timestamp,
                anchors,
            },
        );
    }
}

// ---------------------------------------------------------------------------
// Sending
// ---------------------------------------------------------------------------

/// Whether a camera and its anchors are known.
pub open spec fn is_complete(latest: LatestView) -> bool {
    latest.camera is Some && latest.anchors is Some
}

/// Whether a complete snapshot differs from the one that was sent last.
pub open spec fn snapshot_is_new(latest: LatestView) -> bool {
    let camera = latest.camera->0.frame;
    let batch = latest.anchors->0.batch;
    !{
        &&& latest.last_sent_signature == Some(signature_of(camera, batch))
        &&& latest.last_sent_camera matches Some(last) && frames::same_camera(last, camera)
        &&& latest.last_sent_anchors matches Some(last) && frames::same_anchors(last, batch)
    }
}

/// A complete snapshot under a new sequence number.
pub open spec fn stamped(latest: LatestView, sequence: u64, timestamp: u64) -> LatestView {
    let camera = latest.camera->0;
    let anchors = latest.anchors->0;
    let signature = signature_of(camera.frame, anchors.batch);
    let frame = CameraFrameView { sequence, timestamp_monotonic_ns: timestamp, ..camera.frame };
    let batch = AnchorBatchView { sequence, timestamp_monotonic_ns: timestamp, ..anchors.batch };
    LatestView {
        camera: Some(PendingCameraView { frame, signature, dirty: true, ..camera }),
        anchors: Some(PendingAnchorView { batch, signature, dirty: true, ..anchors }),
        last_sent_signature: Some(signature),
        last_sent_camera: Some(frame),
        last_sent_anchors: Some(batch),
    }
}

/// The latest values and the sequence number after a flush. A complete snapshot
/// that is new gets the next number; anything else stays as it is.
pub open spec fn flushed(latest: LatestView, sequence: u64, timestamp: u64) -> (LatestView, u64) {
    if is_complete(latest) && snapshot_is_new(latest) {
        (
            stamped(latest, flow::next_sequence(sequence), timestamp),
            flow::next_sequence(sequence),
        )
    } else {
        (latest, sequence)
    }
}

/// The request for the camera: there is one where a complete snapshot is known,
/// the camera has to be sent and no request for it is on its way.
pub open spec fn camera_call(latest: LatestView, session: Neon3Session, pid: u32) -> Option<
    TransportView,
> {
    if is_complete(latest) && latest.camera->0.dirty && !latest.camera->0.in_flight {
        let frame = latest.camera->0.frame;
        Some(
            request::wgpu_request(
                session,
                pid,
                "bevy-camera-"@ + text::decimal(frame.sequence as nat),
                "wgpu.world.camera.submit_frame"@,
                ParamsView::Camera(frame),
            ),
        )
    } else {
        None
    }
}

/// The request for the anchors, with the same rules.
pub open spec fn anchors_call(latest: LatestView, session: Neon3Session, pid: u32) -> Option<
    TransportView,
> {
    if is_complete(latest) && latest.anchors->0.dirty && !latest.anchors->0.in_flight {
        let batch = latest.anchors->0.batch;
        Some(
            request::wgpu_request(
                session,
                pid,
                "bevy-anchor-batch-"@ + text::decimal(batch.sequence as nat),
                "wgpu.world.ui.anchor.submit_batch"@,
                ParamsView::Anchors(batch),
            ),
        )
    } else {
        None
    }
}

/// The requests of one flush.
pub struct WorldFlush {
    pub camera: Option<TransportRequest>,
    pub anchors: Option<TransportRequest>,
}

fn was_sent(latest: &LatestWorldSubmission, signature: &WorldFrameSignature) -> (r: bool)
    requires
        is_complete(latest@),
        signature@ == signature_of(latest@.camera->0.frame, latest@.anchors->0.batch),
    ensures
        r == !snapshot_is_new(latest@),
{
    match (
        &latest.camera,
        &latest.anchors,
        &latest.last_sent_signature,
        &latest.last_sent_camera,
        &latest.last_sent_anchors,
    ) {
        (Some(camera), Some(anchors), Some(last_signature), Some(last_camera), Some(last_anchors))
            => same_signature(last_signature, signature) && frames::same_camera_frame(
            last_camera,
            &camera.frame,
        ) && frames::same_anchor_batch(last_anchors, &anchors.batch),
        _ => false,
    }
}

fn stamp(
    latest: &mut LatestWorldSubmission,
    signature: WorldFrameSignature,
    sequence: u64,
    timestamp: u64,
)
    requires
        is_complete(old(latest)@),
        signature@ == signature_of(old(latest)@.camera->0.frame, old(latest)@.anchors->0.batch),
    ensures
        final(latest)@ == stamped(old(latest)@, sequence, timestamp),
{
    if let Some(mut camera) = latest.camera.take() {
        camera.frame.sequence = sequence;
        camera.frame.timestamp_monotonic_ns = timestamp;
        camera.signature = signature;
        camera.dirty = true;
        latest.last_sent_camera = Some(camera.frame.clone());
        latest.camera = Some(camera);
    }
    if let Some(mut anchors) = latest.anchors.take() {
        anchors.batch.sequence = sequence;
        anchors.batch.timestamp_monotonic_ns = timestamp;
        anchors.signature = signature;
        anchors.dirty = true;
        latest.last_sent_anchors = Some(anchors.batch.clone());
        latest.anchors = Some(anchors);
    }
    latest.last_sent_signature = Some(signature);
}

/// Gives a new snapshot its sequence number and builds the requests that are
/// due. The caller reports each request that left by `camera_sent` and
/// `anchors_sent`.
pub fn flush_world_latest(
    session: &mut Neon3Session,
    latest: &mut LatestWorldSubmission,
    timestamp: u64,
    pid: u32,
) -> (r: WorldFlush)
    ensures
        (final(latest)@, final(session).world_frame_sequence) == flushed(
            old(latest)@,
            old(session).world_frame_sequence,
            timestamp,
        ),
        *final(session) == (Neon3Session {
            world_frame_sequence: final(session).world_frame_sequence,
            ..*old(session)
        }),
        request::transport_view(r.camera) == camera_call(final(latest)@, *final(session), pid),
        request::transport_view(r.anchors) == anchors_call(final(latest)@, *final(session), pid),
{
    let signature = match (&latest.camera, &latest.anchors) {
        (Some(camera), Some(anchors)) => world_frame_signature(&camera.frame, &anchors.batch),
        _ => {
            return WorldFlush { camera: None, anchors: None };
        },
    };
    if !was_sent(latest, &signature) {
        session.world_frame_sequence = session.world_frame_sequence.saturating_add(1);
        stamp(latest, signature, session.world_frame_sequence, timestamp);
    }
    let mut camera_request: Option<TransportRequest> = None;
    if let Some(camera) = &latest.camera {
        if camera.dirty && !camera.in_flight {
            let id = "bevy-camera-".to_owned().concat(
                text::decimal_text(camera.frame.sequence).as_str(),
            );
            camera_request = Some(
                request::request_to_wgpu(
                    id,
                    "wgpu.world.camera.submit_frame",
                    session,
                    pid,
                    RequestParams::Camera(camera.frame.clone()),
                ),
            );
        }
    }
    let mut anchors_request: Option<TransportRequest> = None;
    if let Some(anchors) = &latest.anchors {
        if anchors.dirty && !anchors.in_flight {
            let id = "bevy-anchor-batch-".to_owned().concat(
                text::decimal_text(anchors.batch.sequence).as_str(),
            );
            anchors_request = Some(
                request::request_to_wgpu(
                    id,
                    "wgpu.world.ui.anchor.submit_batch",
                    session,
                    pid,
                    RequestParams::Anchors(anchors.batch.clone()),
                ),
            );
        }
    }
    WorldFlush { camera: camera_request, anchors: anchors_request }
}

// ---------------------------------------------------------------------------
// Laws of the data plane
// ---------------------------------------------------------------------------

/// Nothing was sent yet.
pub open spec fn is_fresh(latest: LatestView) -> bool {
    &&& latest.last_sent_signature is None
    &&& latest.last_sent_camera is None
    &&& latest.last_sent_anchors is None
}

/// A camera and its anchors are known under one sequence number, and they are
/// what was handed out last.
pub open spec fn is_paired(latest: LatestView) -> bool {
    &&& is_complete(latest)
    &&& latest.camera->0.frame.sequence == latest.anchors->0.batch.sequence
    &&& latest.last_sent_camera == Some(latest.camera->0.frame)
    &&& latest.last_sent_anchors == Some(latest.anchors->0.batch)
    &&& latest.last_sent_signature == Some(
        signature_of(latest.camera->0.frame, latest.anchors->0.batch),
    )
}

/// The state after the host published what it has.
pub open spec fn published(
    latest: LatestView,
    camera: Option<CameraFrameView>,
    anchors: Option<AnchorBatchView>,
) -> LatestView {
    let with_camera = match camera {
        Some(frame) => camera_published(latest, frame),
        None => latest,
    };
    match anchors {
        Some(batch) => anchors_published(with_camera, batch),
        None => with_camera,
    }
}

/// Camera frames and anchor batches never drift apart: an update of the host
/// publishes at most one of each and flushes, and from then on a complete
/// snapshot stands under a single sequence number.
pub proof fn law_update_keeps_pairing(
    latest: LatestView,
    camera: Option<CameraFrameView>,
    anchors: Option<AnchorBatchView>,
    sequence: u64,
    timestamp: u64,
)
    requires
        is_fresh(latest) || is_paired(latest),
    ensures
        ({
            let after = flushed(published(latest, camera, anchors), sequence, timestamp).0;
            &&& is_fresh(after) || is_paired(after)
            &&& is_complete(after) ==> is_paired(after)
        }),
{
}

/// The two requests of a paired snapshot carry one sequence number.
pub proof fn law_paired_requests_share_a_sequence(
    latest: LatestView,
    session: Neon3Session,
    pid: u32,
)
    requires
        is_paired(latest),
        camera_call(latest, session, pid) is Some,
        anchors_call(latest, session, pid) is Some,
    ensures
        camera_call(latest, session, pid)->0.request.params is Camera,
        anchors_call(latest, session, pid)->0.request.params is Anchors,
        camera_call(latest, session, pid)->0.request.params->Camera_0.sequence == anchors_call(
            latest,
            session,
            pid,
        )->0.request.params->Anchors_0.sequence,
{
}

/// What happens to the requests between two updates does not part a camera
/// from its anchors.
pub proof fn law_answers_keep_pairing(latest: LatestView, accepted: bool)
    requires
        is_fresh(latest) || is_paired(latest),
    ensures
        is_fresh(camera_left(latest)) || is_paired(camera_left(latest)),
        is_fresh(anchors_left(latest)) || is_paired(anchors_left(latest)),
        is_fresh(camera_answered(latest, accepted)) || is_paired(camera_answered(latest, accepted)),
        is_fresh(anchors_answered(latest, accepted)) || is_paired(
            anchors_answered(latest, accepted),
        ),
{
}

/// While a request for the camera is on its way, no other one is made, however
/// many frames are published. Once it is answered, the newest of them goes next.
pub proof fn law_newest_camera_goes_next(
    latest: LatestView,
    earlier: CameraFrameView,
    newest: CameraFrameView,
    session: Neon3Session,
    pid: u32,
    timestamp: u64,
    accepted: bool,
)
    requires
        latest.camera is Some,
        latest.camera->0.in_flight,
    ensures
        ({
            let waiting = camera_published(camera_published(latest, earlier), newest);
            let after = flushed(waiting, session.world_frame_sequence, timestamp).0;
            &&& waiting.camera is Some
            &&& waiting.camera->0.frame == newest || frames::same_camera(
                waiting.camera->0.frame,
                newest,
            )
            &&& after.camera is Some
            &&& after.camera->0.in_flight
            &&& after.camera->0.frame.payload == waiting.camera->0.frame.payload
            &&& camera_call(after, session, pid) is None
            &&& after.anchors is Some && after.camera->0.dirty ==> {
                &&& camera_call(camera_answered(after, accepted), session, pid) is Some
                &&& camera_call(camera_answered(after, accepted), session, pid)->0.request.params
                    == ParamsView::Camera(after.camera->0.frame)
            }
        }),
{
}

/// While a request for the anchors is on its way, no other one is made, however
/// many batches are published. Once it is answered, the newest of them goes next.
pub proof fn law_newest_anchors_go_next(
    latest: LatestView,
    earlier: AnchorBatchView,
    newest: AnchorBatchView,
    session: Neon3Session,
    pid: u32,
    timestamp: u64,
    accepted: bool,
)
    requires
        latest.anchors is Some,
        latest.anchors->0.in_flight,
    ensures
        ({
            let waiting = anchors_published(anchors_published(latest, earlier), newest);
            let after = flushed(waiting, session.world_frame_sequence, timestamp).0;
            &&& waiting.anchors is Some
            &&& waiting.anchors->0.batch == newest || frames::same_anchors(
                waiting.anchors->0.batch,
                newest,
            )
            &&& after.anchors is Some
            &&& after.anchors->0.in_flight
            &&& after.anchors->0.batch.anchors == waiting.anchors->0.batch.anchors
            &&& anchors_call(after, session, pid) is None
            &&& after.camera is Some && after.anchors->0.dirty ==> {
                &&& anchors_call(anchors_answered(after, accepted), session, pid) is Some
                &&& anchors_call(anchors_answered(after, accepted), session, pid)->0.request.params
                    == ParamsView::Anchors(after.anchors->0.batch)
            }
        }),
{
}

/// A snapshot that was refused is sent again under its number.
pub proof fn law_refused_snapshot_is_sent_again(
    latest: LatestView,
    session: Neon3Session,
    pid: u32,
)
    requires
        is_complete(latest),
    ensures
        camera_call(camera_answered(latest, false), session, pid) == Some(
            request::wgpu_request(
                session,
                pid,
                "bevy-camera-"@ + text::decimal(latest.camera->0.frame.sequence as nat),
                "wgpu.world.camera.submit_frame"@,
                ParamsView::Camera(latest.camera->0.frame),
            ),
        ),
        anchors_call(anchors_answered(latest, false), session, pid) == Some(
            request::wgpu_request(
                session,
                pid,
                "bevy-anchor-batch-"@ + text::decimal(latest.anchors->0.batch.sequence as nat),
                "wgpu.world.ui.anchor.submit_batch"@,
                ParamsView::Anchors(latest.anchors->0.batch),
            ),
        ),
{
}

/// A snapshot that was sent and accepted is not sent a second time, and takes
/// no new number, as long as it equals itself (only what is no number does not).
pub proof fn law_unchanged_snapshot_stays_quiet(
    latest: LatestView,
    session: Neon3Session,
    pid: u32,
    timestamp: u64,
)
    requires
        is_paired(latest),
        !latest.camera->0.dirty,
        !latest.anchors->0.dirty,
        frames::same_camera(latest.camera->0.frame, latest.camera->0.frame),
        frames::same_anchors(latest.anchors->0.batch, latest.anchors->0.batch),
    ensures
        flushed(latest, session.world_frame_sequence, timestamp) == (
            latest,
            session.world_frame_sequence,
        ),
        camera_call(latest, session, pid) is None,
        anchors_call(latest, session, pid) is None,
{
}

/// After a frame with depth is published, the pending frame is that very frame,
/// or one that names the same camera, world and epoch and agrees with it number
/// by number: in the position, the orientation, the field of view and both
/// distances. A frame that differs in one of these replaces the pending one and
/// waits to be submitted, behind a request that is on its way. Nothing else
/// changes.
pub proof fn law_published_camera_is_pending(latest: LatestView, frame: CameraFrameView)
    requires
        frame.payload is ThreeDimensional,
    ensures
        ({
            let after = camera_published(latest, frame);
            let pending = after.camera->0;
            let before = latest.camera->0.frame;
            let kept = {
                &&& latest.camera is Some
                &&& before.camera_id == frame.camera_id
                &&& before.world_space_id == frame.world_space_id
                &&& before.producer_epoch == frame.producer_epoch
                &&& before.payload is ThreeDimensional
                &&& forall|i: int|
                    0 <= i < 3 ==> (#[trigger] before.payload->position[i]).wide.same_number(
                        frame.payload->position[i].wide,
                    )
                &&& forall|i: int|
                    0 <= i < 4 ==> (#[trigger] before.payload->orientation[i]).same_number(
                        frame.payload->orientation[i],
                    )
                &&& before.payload->vertical_fov_radians.same_number(
                    frame.payload->vertical_fov_radians,
                )
                &&& before.payload->near.same_number(frame.payload->near)
                &&& before.payload->far.same_number(frame.payload->far)
            };
            &&& after.camera is Some
            &&& pending.frame == frame || {
                &&& pending.frame.camera_id == frame.camera_id
                &&& pending.frame.world_space_id == frame.world_space_id
                &&& pending.frame.producer_epoch == frame.producer_epoch
                &&& pending.frame.payload is ThreeDimensional
                &&& forall|i: int|
                    0 <= i < 3 ==> (#[trigger] pending.frame.payload->position[i]).wide.same_number(
                        frame.payload->position[i].wide,
                    )
                &&& forall|i: int|
                    0 <= i < 4 ==> (#[trigger] pending.frame.payload->orientation[i]).same_number(
                        frame.payload->orientation[i],
                    )
                &&& pending.frame.payload->vertical_fov_radians.same_number(
                    frame.payload->vertical_fov_radians,
                )
                &&& pending.frame.payload->near.same_number(frame.payload->near)
                &&& pending.frame.payload->far.same_number(frame.payload->far)
            }
            &&& kept ==> after == latest
            &&& !kept ==> {
                &&& pending.frame == frame
                &&& pending.dirty
                &&& pending.in_flight == (latest.camera is Some && latest.camera->0.in_flight)
            }
            &&& after.anchors == latest.anchors
            &&& after.last_sent_signature == latest.last_sent_signature
            &&& after.last_sent_camera == latest.last_sent_camera
            &&& after.last_sent_anchors == latest.last_sent_anchors
        }),
{
    if latest.camera is Some {
        if latest.camera->0.frame.payload is ThreeDimensional {
            frames::law_same_camera_agrees_in_every_component(latest.camera->0.frame, frame);
        } else {
            frames::law_same_flat_camera_agrees_in_every_component(latest.camera->0.frame, frame);
        }
    }
}

/// After anchors are published, the pending batch is that very batch, or one of
/// the same world and epoch whose anchors agree with its anchors one by one. A
/// batch that differs in one of them replaces the pending one and waits to be
/// submitted, behind a request that is on its way. Nothing else changes.
pub proof fn law_published_anchors_are_pending(latest: LatestView, batch: AnchorBatchView)
    ensures
        ({
            let after = anchors_published(latest, batch);
            let before = latest.anchors->0.batch;
            let kept = {
                &&& latest.anchors is Some
                &&& before.world_space_id == batch.world_space_id
                &&& before.producer_epoch == batch.producer_epoch
                &&& before.anchors.len() == batch.anchors.len()
                &&& forall|i: int|
                    0 <= i < before.anchors.len() ==> {
                        &&& (#[trigger] before.anchors[i]).anchor_id == batch.anchors[i].anchor_id
                        &&& before.anchors[i].position[0].same_number(batch.anchors[i].position[0])
                        &&& before.anchors[i].position[1].same_number(batch.anchors[i].position[1])
                        &&& before.anchors[i].position[2].same_number(batch.anchors[i].position[2])
                        &&& before.anchors[i].billboard == batch.anchors[i].billboard
                        &&& before.anchors[i].occlusion == batch.anchors[i].occlusion
                        &&& before.anchors[i].screen_x.same_number(batch.anchors[i].screen_x)
                        &&& before.anchors[i].screen_y.same_number(batch.anchors[i].screen_y)
                        &&& before.anchors[i].view_distance.same_number(
                            batch.anchors[i].view_distance,
                        )
                    }
            };
            &&& after.anchors is Some
            &&& kept ==> after == latest
            &&& !kept ==> {
                &&& after.anchors->0.batch == batch
                &&& after.anchors->0.dirty
                &&& after.anchors->0.in_flight == (latest.anchors is Some
                    && latest.anchors->0.in_flight)
            }
            &&& after.camera == latest.camera
            &&& after.last_sent_signature == latest.last_sent_signature
            &&& after.last_sent_camera == latest.last_sent_camera
            &&& after.last_sent_anchors == latest.last_sent_anchors
        }),
{
    if latest.anchors is Some {
        frames::law_same_anchors_agree_one_by_one(latest.anchors->0.batch, batch);
    }
}

/// A camera that moved is submitted, whichever number of it changed: where the
/// last snapshot was sent and is settled, publishing a frame that differs from
/// the one sent in any component takes the next number, and both requests are
/// made under it, the camera's with what was published, the anchors' with the
/// anchors as they are.
pub proof fn law_moved_camera_is_submitted(
    latest: LatestView,
    frame: CameraFrameView,
    session: Neon3Session,
    pid: u32,
    timestamp: u64,
)
    requires
        is_paired(latest),
        !latest.camera->0.in_flight,
        !latest.anchors->0.in_flight,
        frame.payload is ThreeDimensional,
        ({
            let sent = latest.camera->0.frame.payload;
            &&& sent is ThreeDimensional
            &&& {
                ||| exists|i: int|
                    0 <= i < 3 && !(#[trigger] sent->position[i]).wide.same_number(
                        frame.payload->position[i].wide,
                    )
                ||| exists|i: int|
                    0 <= i < 4 && !(#[trigger] sent->orientation[i]).same_number(
                        frame.payload->orientation[i],
                    )
                ||| !sent->vertical_fov_radians.same_number(frame.payload->vertical_fov_radians)
                ||| !sent->near.same_number(frame.payload->near)
                ||| !sent->far.same_number(frame.payload->far)
            }
        }),
        session.world_frame_sequence < u64::MAX,
    ensures
        ({
            let next = flushed(
                camera_published(latest, frame),
                session.world_frame_sequence,
                timestamp,
            );
            let camera = camera_call(next.0, session, pid)->0.request;
            let anchors = anchors_call(next.0, session, pid)->0.request;
            &&& next.1 == session.world_frame_sequence + 1
            &&& camera_call(next.0, session, pid) is Some
            &&& anchors_call(next.0, session, pid) is Some
            &&& camera.request_id == "bevy-camera-"@ + text::decimal(next.1 as nat)
            &&& camera.method == "wgpu.world.camera.submit_frame"@
            &&& camera.params is Camera
            &&& camera.params->Camera_0 == (CameraFrameView {
                sequence: next.1,
                timestamp_monotonic_ns: timestamp,
                ..frame
            })
            &&& anchors.request_id == "bevy-anchor-batch-"@ + text::decimal(next.1 as nat)
            &&& anchors.method == "wgpu.world.ui.anchor.submit_batch"@
            &&& anchors.params is Anchors
            &&& anchors.params->Anchors_0 == (AnchorBatchView {
                sequence: next.1,
                timestamp_monotonic_ns: timestamp,
                ..latest.anchors->0.batch
            })
        }),
{
    law_published_camera_is_pending(latest, frame);
    let published = camera_published(latest, frame);
    frames::law_same_camera_agrees_in_every_component(latest.camera->0.frame, frame);
    assert(published.camera->0.frame == frame);
    assert(snapshot_is_new(published));
}

/// Anchors that moved are submitted: where the last snapshot was sent and is
/// settled, publishing a batch that differs from the one sent in the number of
/// anchors, or in an anchor's identity, flags or numbers, takes the next number,
/// and both requests are made under it.
pub proof fn law_moved_anchors_are_submitted(
    latest: LatestView,
    batch: AnchorBatchView,
    session: Neon3Session,
    pid: u32,
    timestamp: u64,
)
    requires
        is_paired(latest),
        !latest.camera->0.in_flight,
        !latest.anchors->0.in_flight,
        ({
            let sent = latest.anchors->0.batch.anchors;
            ||| sent.len() != batch.anchors.len()
            ||| exists|i: int|
                0 <= i < sent.len() && {
                    ||| (#[trigger] sent[i]).anchor_id != batch.anchors[i].anchor_id
                    ||| !sent[i].position[0].same_number(batch.anchors[i].position[0])
                    ||| !sent[i].position[1].same_number(batch.anchors[i].position[1])
                    ||| !sent[i].position[2].same_number(batch.anchors[i].position[2])
                    ||| sent[i].billboard != batch.anchors[i].billboard
                    ||| sent[i].occlusion != batch.anchors[i].occlusion
                    ||| !sent[i].screen_x.same_number(batch.anchors[i].screen_x)
                    ||| !sent[i].screen_y.same_number(batch.anchors[i].screen_y)
                    ||| !sent[i].view_distance.same_number(batch.anchors[i].view_distance)
                }
        }),
        session.world_frame_sequence < u64::MAX,
    ensures
        ({
            let next = flushed(
                anchors_published(latest, batch),
                session.world_frame_sequence,
                timestamp,
            );
            let camera = camera_call(next.0, session, pid)->0.request;
            let anchors = anchors_call(next.0, session, pid)->0.request;
            &&& next.1 == session.world_frame_sequence + 1
            &&& camera_call(next.0, session, pid) is Some
            &&& anchors_call(next.0, session, pid) is Some
            &&& camera.params is Camera
            &&& camera.params->Camera_0 == (CameraFrameView {
                sequence: next.1,
                timestamp_monotonic_ns: timestamp,
                ..latest.camera->0.frame
            })
            &&& anchors.params is Anchors
            &&& anchors.params->Anchors_0 == (AnchorBatchView {
                sequence: next.1,
                timestamp_monotonic_ns: timestamp,
                ..batch
            })
        }),
{
    law_published_anchors_are_pending(latest, batch);
    let published = anchors_published(latest, batch);
    frames::law_same_anchors_agree_one_by_one(latest.anchors->0.batch, batch);
    assert(published.anchors->0.batch == batch);
    assert(snapshot_is_new(published));
}

/// Nothing is submitted, and no number taken, before there is both a camera and
/// anchors; and the first complete snapshot is submitted.
pub proof fn law_first_snapshot_is_submitted(
    latest: LatestView,
    session: Neon3Session,
    pid: u32,
    timestamp: u64,
)
    requires
        is_fresh(latest),
        session.world_frame_sequence < u64::MAX,
    ensures
        ({
            let next = flushed(latest, session.world_frame_sequence, timestamp);
            let complete = latest.camera is Some && latest.anchors is Some;
            &&& !complete ==> next == (latest, session.world_frame_sequence)
            &&& !complete ==> camera_call(next.0, session, pid) is None
            &&& !complete ==> anchors_call(next.0, session, pid) is None
            &&& complete ==> next.1 == session.world_frame_sequence + 1
            &&& complete ==> next.0.camera->0.dirty && next.0.anchors->0.dirty
            &&& complete ==> next.0.camera->0.frame == (CameraFrameView {
                sequence: next.1,
                timestamp_monotonic_ns: timestamp,
                ..latest.camera->0.frame
            })
            &&& complete ==> next.0.anchors->0.batch == (AnchorBatchView {
                sequence: next.1,
                timestamp_monotonic_ns: timestamp,
                ..latest.anchors->0.batch
            })
        }),
{
}

/// A request that leaves is on its way and waits for nothing; its answer ends
/// that, and what was refused waits again beside what changed meanwhile. The
/// frame or batch stays as it is, and so does the other side.
pub proof fn law_requests_leave_and_are_answered(latest: LatestView, accepted: bool)
    ensures
        ({
            let left = camera_left(latest);
            let answered = camera_answered(latest, accepted);
            &&& left.anchors == latest.anchors && answered.anchors == latest.anchors
            &&& left.last_sent_camera == latest.last_sent_camera
            &&& answered.last_sent_camera == latest.last_sent_camera
            &&& left.camera is Some <==> latest.camera is Some
            &&& answered.camera is Some <==> latest.camera is Some
            &&& latest.camera is Some ==> {
                &&& left.camera->0.frame == latest.camera->0.frame
                &&& left.camera->0.in_flight && !left.camera->0.dirty
                &&& answered.camera->0.frame == latest.camera->0.frame
                &&& !answered.camera->0.in_flight
                &&& answered.camera->0.dirty <==> latest.camera->0.dirty || !accepted
            }
        }),
        ({
            let left = anchors_left(latest);
            let answered = anchors_answered(latest, accepted);
            &&& left.camera == latest.camera && answered.camera == latest.camera
            &&& left.last_sent_anchors == latest.last_sent_anchors
            &&& answered.last_sent_anchors == latest.last_sent_anchors
            &&& left.anchors is Some <==> latest.anchors is Some
            &&& answered.anchors is Some <==> latest.anchors is Some
            &&& latest.anchors is Some ==> {
                &&& left.anchors->0.batch == latest.anchors->0.batch
                &&& left.anchors->0.in_flight && !left.anchors->0.dirty
                &&& answered.anchors->0.batch == latest.anchors->0.batch
                &&& !answered.anchors->0.in_flight
                &&& answered.anchors->0.dirty <==> latest.anchors->0.dirty || !accepted
            }
        }),
{
}

/// The published frame shows the host camera: where it stands, how it is turned
/// and how it projects, in the world of the host and under its epoch.
pub proof fn law_published_frame_shows_the_camera(
    camera: HostCamera,
    producer_epoch: u64,
    timestamp: u64,
)
    requires
        camera.projection is Perspective,
    ensures
        ({
            let frame = host_camera_frame(camera, producer_epoch, timestamp);
            &&& frame.payload is ThreeDimensional
            &&& forall|i: int|
                0 <= i < 3 ==> #[trigger] frame.payload->position[i] == camera.position[i]
            &&& forall|i: int|
                0 <= i < 4 ==> #[trigger] frame.payload->orientation[i] == camera.orientation[i]
            &&& frame.payload->vertical_fov_radians == camera.projection->vertical_fov_radians
            &&& frame.payload->near == camera.projection->near
            &&& frame.payload->far == camera.projection->far
            &&& frame.world_space_id == WORLD_SPACE_ID@
            &&& frame.producer_epoch == producer_epoch
            &&& frame.timestamp_monotonic_ns == timestamp
        }),
{
}

/// A panel stands at its viewport coordinates exactly where it lies beyond the
/// near distance, not beyond the far one, and neither device coordinate leaves
/// the span from minus one to one; else both its screen coordinates are minus
/// one. Its identity, its place in the world and its distance are its own either
/// way.
pub proof fn law_panel_is_shown_within_the_view(p: WorldPlacement, near: Scalar32, far: Scalar32)
    ensures
        ({
            let anchor = placed_anchor(p, near, far);
            let one = Scalar32 { bits: 0x3f80_0000 };
            let minus_one = Scalar32 { bits: 0xbf80_0000 };
            let within = |x: Scalar32|
                !x.is_nan() && !one.below(x) && !x.below(minus_one);
            let shown = {
                &&& near.below(p.view_distance)
                &&& p.view_distance.below(far) || p.view_distance.same_number(far)
                &&& within(p.device_x)
                &&& within(p.device_y)
            };
            &&& shown ==> anchor.screen_x == p.viewport_x && anchor.screen_y == p.viewport_y
            &&& !shown ==> anchor.screen_x == minus_one && anchor.screen_y == minus_one
            &&& anchor.anchor_id == p.anchor@
            &&& anchor.position.len() == 3
            &&& forall|i: int| 0 <= i < 3 ==> #[trigger] anchor.position[i] == p.position[i]
            &&& anchor.occlusion == p.occlusion.name()
            &&& anchor.view_distance == p.view_distance
        }),
{
}

/// A published batch holds the anchors of the placements and no others, ordered
/// by identity, in the world of the host and under its epoch.
pub proof fn law_published_batch_holds_every_panel(
    anchors: Seq<AnchorView>,
    producer_epoch: u64,
    timestamp: u64,
    x: AnchorView,
)
    ensures
        ({
            let batch = host_anchor_batch(anchors, producer_epoch, timestamp);
            &&& batch.anchors.contains(x) <==> anchors.contains(x)
            &&& forall|i: int, j: int|
                0 <= i < j < batch.anchors.len() ==> !text::text_before(
                    (#[trigger] batch.anchors[j]).anchor_id,
                    (#[trigger] batch.anchors[i]).anchor_id,
                )
            &&& batch.world_space_id == WORLD_SPACE_ID@
            &&& batch.producer_epoch == producer_epoch
            &&& batch.timestamp_monotonic_ns == timestamp
        }),
{
    let keep = |y: AnchorView| y.anchor_id == x.anchor_id;
    order::law_order_rearranges(anchors, x.anchor_id, keep, x);
    let batch = host_anchor_batch(anchors, producer_epoch, timestamp);
    assert forall|i: int, j: int|
        0 <= i < j < batch.anchors.len() implies !text::text_before(
        (#[trigger] batch.anchors[j]).anchor_id,
        (#[trigger] batch.anchors[i]).anchor_id,
    ) by {
        assert(order::stable_order(anchors)[i].key_text() == batch.anchors[i].anchor_id);
        assert(order::stable_order(anchors)[j].key_text() == batch.anchors[j].anchor_id);
    }
}

/// Signatures that agree name as many anchors with the same hash, whatever the
/// cameras.
pub proof fn law_signature_covers_the_anchors(
    camera: CameraFrameView,
    other: CameraFrameView,
    a: AnchorBatchView,
    b: AnchorBatchView,
)
    requires
        a.anchors.len() <= u32::MAX,
        b.anchors.len() <= u32::MAX,
    ensures
        signature_of(camera, a) == signature_of(other, b) ==> {
            &&& a.anchors.len() == b.anchors.len()
            &&& frames::anchors_hash(a.anchors) == frames::anchors_hash(b.anchors)
        },
{
    let m = a.anchors.len() as usize;
    let n = b.anchors.len() as usize;
    assert(m <= 0xffff_ffff && n <= 0xffff_ffff && m as u32 == n as u32 ==> m == n)
        by (bit_vector);
}

/// A snapshot whose signature is not that of the last one sent takes the next number,
/// whatever else was sent. One that takes a number is noted as the last one sent, with
/// the content that it had; one that takes none is left as it is.
pub proof fn law_new_signature_is_submitted(latest: LatestView, sequence: u64, timestamp: u64)
    requires
        is_complete(latest),
        sequence < u64::MAX,
    ensures
        ({
            let next = flushed(latest, sequence, timestamp);
            let signature = signature_of(latest.camera->0.frame, latest.anchors->0.batch);
            &&& latest.last_sent_signature != Some(signature) ==> next.1 == sequence + 1
            &&& latest.last_sent_camera is None ==> next.1 == sequence + 1
            &&& latest.last_sent_anchors is None ==> next.1 == sequence + 1
            &&& next.0.last_sent_signature == Some(signature)
            &&& next.1 == sequence + 1 ==> {
                &&& next.0.last_sent_camera == Some(next.0.camera->0.frame)
                &&& next.0.last_sent_anchors == Some(next.0.anchors->0.batch)
                &&& next.0.camera->0.signature == signature
                &&& next.0.anchors->0.signature == signature
                &&& next.0.camera->0.frame.payload == latest.camera->0.frame.payload
                &&& next.0.anchors->0.batch.anchors == latest.anchors->0.batch.anchors
                &&& next.0.camera->0.in_flight == latest.camera->0.in_flight
                &&& next.0.anchors->0.in_flight == latest.anchors->0.in_flight
            }
            &&& next.1 != sequence + 1 ==> next == (latest, sequence)
        }),
{
}

/// The signature of a published camera holds the bits of its numbers, the positions
/// in single precision, and no anchors. That of published anchors holds their number
/// and their hash, and no camera.
pub proof fn law_pending_signature_holds_the_bits(
    latest: LatestView,
    frame: CameraFrameView,
    batch: AnchorBatchView,
)
    requires
        frame.payload is ThreeDimensional,
        latest.camera is None,
        latest.anchors is None,
        batch.anchors.len() <= u32::MAX,
    ensures
        ({
            let s = camera_published(latest, frame).camera->0.signature;
            &&& s.camera_position.len() == 3
            &&& forall|i: int|
                0 <= i < 3 ==> #[trigger] s.camera_position[i]
                    == frame.payload->position[i].narrow_bits
            &&& s.camera_orientation.len() == 4
            &&& forall|i: int|
                0 <= i < 4 ==> #[trigger] s.camera_orientation[i]
                    == frame.payload->orientation[i].bits
            &&& s.fov == frame.payload->vertical_fov_radians.bits
            &&& s.near == frame.payload->near.bits
            &&& s.far == frame.payload->far.bits
            &&& s.anchor_count == 0
            &&& s.anchor_hash == 0
        }),
        ({
            let s = anchors_published(latest, batch).anchors->0.signature;
            &&& s.camera_position == seq![0u32, 0u32, 0u32]
            &&& s.camera_orientation == seq![0u32, 0u32, 0u32, 0u32]
            &&& s.fov == 0 && s.near == 0 && s.far == 0
            &&& s.anchor_count == batch.anchors.len()
            &&& s.anchor_hash == frames::anchors_hash(batch.anchors)
        }),
{
    let n = batch.anchors.len() as usize;
    assert(n <= 0xffff_ffff ==> n as u32 == n) by (bit_vector);
}

/// Once both surfaces are there and the host shows world interfaces, the pending
/// camera is the perspective camera of the host, number for number. Before that, or
/// without such a camera, nothing changes.
pub proof fn law_host_camera_becomes_pending(
    session: Neon3Session,
    latest: LatestView,
    camera: Option<HostCamera>,
    timestamp: u64,
)
    ensures
        ({
            let after = camera_shown(session, latest, camera, timestamp);
            let open = session.surface_acquired && session.world_surface_acquired
                && session.config.world_ui;
            let c = camera->0;
            let shown = after.camera->0.frame;
            &&& !open || camera is None || !(c.projection is Perspective) ==> after == latest
            &&& open && camera is Some && c.projection is Perspective ==> {
                &&& after.camera is Some
                &&& shown.payload is ThreeDimensional
                &&& shown.world_space_id == WORLD_SPACE_ID@
                &&& shown.producer_epoch == session.producer_epoch
                &&& forall|i: int|
                    0 <= i < 3 ==> #[trigger] shown.payload->position[i] == c.position[i]
                        || shown.payload->position[i].wide.same_number(c.position[i].wide)
                &&& forall|i: int|
                    0 <= i < 4 ==> #[trigger] shown.payload->orientation[i] == c.orientation[i]
                        || shown.payload->orientation[i].same_number(c.orientation[i])
                &&& shown.payload->vertical_fov_radians == c.projection->vertical_fov_radians
                    || shown.payload->vertical_fov_radians.same_number(
                    c.projection->vertical_fov_radians,
                )
                &&& shown.payload->near == c.projection->near || shown.payload->near.same_number(
                    c.projection->near,
                )
                &&& shown.payload->far == c.projection->far || shown.payload->far.same_number(
                    c.projection->far,
                )
                &&& after.anchors == latest.anchors
            }
        }),
{
    if camera is Some && camera->0.projection is Perspective {
        let frame = host_camera_frame(camera->0, session.producer_epoch, timestamp);
        law_published_frame_shows_the_camera(camera->0, session.producer_epoch, timestamp);
        law_published_camera_is_pending(latest, frame);
    }
}

/// Once both surfaces are there and the host shows world interfaces, every panel of
/// the host has a pending anchor of its own, as seen with the distances of the
/// camera. Before that, or without a perspective camera, nothing changes.
pub proof fn law_host_panels_become_pending(
    session: Neon3Session,
    latest: LatestView,
    projection: Option<HostProjection>,
    placements: Seq<WorldPlacement>,
    timestamp: u64,
    i: int,
)
    requires
        latest.anchors is None,
        0 <= i < placements.len(),
    ensures
        ({
            let after = panels_shown(session, latest, projection, placements, timestamp);
            let open = session.surface_acquired && session.world_surface_acquired
                && session.config.world_ui;
            let batch = after.anchors->0.batch;
            &&& !open || projection is None || !(projection->0 is Perspective) ==> after == latest
            &&& open && projection is Some && projection->0 is Perspective ==> {
                &&& after.anchors is Some
                &&& after.camera == latest.camera
                &&& batch.anchors.contains(
                    placed_anchor(placements[i], projection->0->near, projection->0->far),
                )
                &&& batch.producer_epoch == session.producer_epoch
            }
        }),
{
    if projection is Some && projection->0 is Perspective {
        let (near, far) = (projection->0->near, projection->0->far);
        let anchors = placed_anchors(placements, near, far);
        let x = placed_anchor(placements[i], near, far);
        assert(anchors[i] == x);
        law_published_batch_holds_every_panel(anchors, session.producer_epoch, timestamp, x);
    }
}

} // verus!
