use bevy_nui_plugins::frames::{
    same_anchor_batch, same_camera_frame, CameraFrame, CameraFramePayload, WorldCoordinate,
    WorldUiAnchorBatch, WorldUiAnchorSample,
};
use bevy_nui_plugins::request::{RequestParams, RpcLane, TransportRequest};
use bevy_nui_plugins::scalar::{Scalar32, Scalar64};
use bevy_nui_plugins::session::{Neon3BevyConfig, Neon3Session};
use bevy_nui_plugins::ui::WorldUiOcclusion;
use bevy_nui_plugins::world::{
    camera_signature, flush_world_latest, publish_camera_snapshot, publish_world_anchor,
    world_frame_signature, HostCamera, HostProjection, LatestWorldSubmission,
    PendingCameraSubmission, WorldPlacement,
};

fn single(x: f32) -> Scalar32 {
    Scalar32 { bits: x.to_bits() }
}

fn double(x: f64) -> Scalar64 {
    Scalar64 { bits: x.to_bits() }
}

fn coordinate(x: f64) -> WorldCoordinate {
    WorldCoordinate { wide: double(x), narrow_bits: (x as f32).to_bits() }
}

fn payload(position: [f64; 3], orientation: [f32; 4]) -> CameraFramePayload {
    CameraFramePayload::ThreeDimensional {
        position: position.map(coordinate),
        orientation: orientation.map(single),
        vertical_fov_radians: single(1.0),
        near: single(0.1),
        far: single(1000.0),
    }
}

fn camera() -> CameraFrame {
    CameraFrame {
        camera_id: "camera".into(),
        world_space_id: "world".into(),
        producer_epoch: 1,
        sequence: 10,
        timestamp_monotonic_ns: 100,
        payload: payload([1.25, 2.5, -3.75], [0.0, 0.5, 0.0, 1.0]),
    }
}

fn sample(id: &str, x: f64) -> WorldUiAnchorSample {
    WorldUiAnchorSample {
        anchor_id: id.into(),
        position: [double(x), double(1.0), double(2.0)],
        billboard: true,
        occlusion: "depth_tested".into(),
        screen_x: single(0.5),
        screen_y: single(0.5),
        view_distance: single(4.0),
    }
}

fn batch(anchors: Vec<WorldUiAnchorSample>) -> WorldUiAnchorBatch {
    WorldUiAnchorBatch {
        world_space_id: "world".into(),
        producer_epoch: 1,
        sequence: 10,
        timestamp_monotonic_ns: 100,
        anchors,
    }
}

fn session() -> Neon3Session {
    let mut session = Neon3Session::new(Neon3BevyConfig::with_ui_sources(Vec::new()));
    session.config.world_ui = true;
    session.surface_acquired = true;
    session.world_surface_acquired = true;
    session.producer_epoch = 3;
    session
}

fn host_camera(x: f64) -> HostCamera {
    HostCamera {
        position: [coordinate(x), coordinate(0.0), coordinate(0.0)],
        orientation: [0.0, 0.0, 0.0, 1.0].map(single),
        projection: perspective(),
    }
}

fn perspective() -> HostProjection {
    HostProjection::Perspective {
        vertical_fov_radians: single(1.0),
        near: single(0.1),
        far: single(1000.0),
    }
}

fn placement(anchor: &str, distance: f32, device_x: f32) -> WorldPlacement {
    WorldPlacement {
        anchor: anchor.into(),
        position: [double(1.0), double(2.0), double(3.0)],
        occlusion: WorldUiOcclusion::DepthTested,
        view_distance: single(distance),
        device_x: single(device_x),
        device_y: single(0.0),
        viewport_x: single(0.75),
        viewport_y: single(0.5),
    }
}

fn sent_camera(request: &TransportRequest) -> &CameraFrame {
    match &request.request.params {
        RequestParams::Camera(frame) => frame,
        _ => panic!("camera parameters"),
    }
}

fn sent_anchors(request: &TransportRequest) -> &WorldUiAnchorBatch {
    match &request.request.params {
        RequestParams::Anchors(batch) => batch,
        _ => panic!("anchor parameters"),
    }
}

#[test]
fn world_frame_signature_is_order_independent_and_bit_exact() {
    let camera = camera();
    let first = batch(vec![sample("b", 2.0), sample("a", 1.0)]);
    let second = WorldUiAnchorBatch {
        anchors: vec![sample("a", 1.0), sample("b", 2.0)],
        ..first.clone()
    };
    assert_eq!(
        world_frame_signature(&camera, &first),
        world_frame_signature(&camera, &second)
    );

    let mut changed = camera.clone();
    if let CameraFramePayload::ThreeDimensional { position, .. } = &mut changed.payload {
        position[0] = coordinate(f32::from_bits(1.25_f32.to_bits() + 1) as f64);
    }
    assert_ne!(
        world_frame_signature(&camera, &first),
        world_frame_signature(&changed, &first)
    );
}

#[test]
fn latest_submission_keeps_new_pending_value_while_old_request_is_in_flight() {
    let frame = CameraFrame {
        camera_id: "camera".into(),
        world_space_id: "world".into(),
        producer_epoch: 1,
        sequence: 1,
        timestamp_monotonic_ns: 1,
        payload: payload([0.0, 0.0, 0.0], [0.0, 0.0, 0.0, 1.0]),
    };
    let mut latest = LatestWorldSubmission {
        camera: Some(PendingCameraSubmission {
            signature: camera_signature(&frame, 0, 0),
            frame: frame.clone(),
            dirty: false,
            in_flight: true,
        }),
        ..Default::default()
    };
    let mut next = frame;
    if let CameraFramePayload::ThreeDimensional { position, .. } = &mut next.payload {
        position[2] = coordinate(10.0);
    }
    latest.publish_camera(next.clone());
    let pending = latest.camera.as_ref().expect("pending camera");
    assert!(pending.in_flight);
    assert!(pending.dirty);
    assert_eq!(pending.frame.payload, next.payload);
}

#[test]
fn signature_holds_the_exact_hash_of_its_anchors() {
    let empty = world_frame_signature(&camera(), &batch(Vec::new()));
    assert_eq!(empty.anchor_count, 0);
    assert_eq!(empty.anchor_hash, 0xcbf29ce484222325);
    assert_eq!(empty.camera_position, [1.25f32, 2.5, -3.75].map(f32::to_bits));
    assert_eq!(empty.camera_orientation, [0.0f32, 0.5, 0.0, 1.0].map(f32::to_bits));
    assert_eq!((empty.fov, empty.near), (1.0f32.to_bits(), 0.1f32.to_bits()));
    let mut expected = 0xcbf29ce484222325u64;
    let mut words: Vec<u64> = vec![u64::from(b'a')];
    words.extend([1.0f64, 1.0, 2.0].map(f64::to_bits));
    words.extend([1, 12]);
    words.extend([0.5f32, 0.5, 4.0].map(|x| u64::from(x.to_bits())));
    words.extend("depth_tested".bytes().map(u64::from));
    for word in words {
        expected = (expected ^ word).wrapping_mul(0x100000001b3);
    }
    let one = world_frame_signature(&camera(), &batch(vec![sample("a", 1.0)]));
    assert_eq!(one.anchor_count, 1);
    assert_eq!(one.anchor_hash, expected);
    assert_ne!(one.anchor_hash, empty.anchor_hash);
}

#[test]
fn camera_without_depth_has_an_empty_signature() {
    let mut flat = camera();
    flat.payload = CameraFramePayload::TwoDimensional {
        center: [double(1.0), double(2.0)],
        rotation_radians: single(0.5),
        zoom: single(2.0),
    };
    let signature = camera_signature(&flat, 4, 5);
    assert_eq!(signature.camera_position, [0; 3]);
    assert_eq!(signature.camera_orientation, [0; 4]);
    assert_eq!((signature.fov, signature.near, signature.far), (0, 0, 0));
    assert_eq!((signature.anchor_count, signature.anchor_hash), (4, 5));
    assert!(same_camera_frame(&flat, &flat.clone()));
    assert!(!same_camera_frame(&flat, &camera()));
}

#[test]
fn frames_compare_by_what_they_show() {
    let mut later = camera();
    later.sequence = 99;
    later.timestamp_monotonic_ns = 5;
    assert!(same_camera_frame(&camera(), &later));
    later.producer_epoch = 2;
    assert!(!same_camera_frame(&camera(), &later));
    let mut nan = camera();
    nan.payload = payload([f64::NAN, 0.0, 0.0], [0.0; 4]);
    assert!(!same_camera_frame(&nan, &nan.clone()));
    let left = batch(vec![sample("a", 0.0)]);
    let mut right = batch(vec![sample("a", -0.0)]);
    right.sequence = 11;
    assert!(same_anchor_batch(&left, &right));
    right.anchors[0].billboard = false;
    assert!(!same_anchor_batch(&left, &right));
    assert!(!same_anchor_batch(&left, &batch(Vec::new())));
}

#[test]
fn camera_and_anchors_leave_under_one_sequence() {
    let mut session = session();
    let mut latest = LatestWorldSubmission::default();
    publish_camera_snapshot(&session, &mut latest, Some(host_camera(1.0)), 50);
    let alone = flush_world_latest(&mut session, &mut latest, 60, 7);
    assert!(alone.camera.is_none() && alone.anchors.is_none());
    assert_eq!(session.world_frame_sequence, 0);
    let placements = vec![placement("z", 4.0, 0.5), placement("m", 4.0, 0.5)];
    publish_world_anchor(&session, &mut latest, Some(perspective()), &placements, 55);
    let flush = flush_world_latest(&mut session, &mut latest, 70, 7);
    assert_eq!(session.world_frame_sequence, 1);
    let camera = flush.camera.expect("camera request");
    let anchors = flush.anchors.expect("anchor request");
    assert_eq!(camera.lane, RpcLane::WorldLatest);
    assert_eq!(camera.endpoint, "127.0.0.1:39103");
    assert_eq!(camera.request.request_id, "bevy-camera-1");
    assert_eq!(camera.request.method, "wgpu.world.camera.submit_frame");
    assert_eq!(camera.request.target, "wgpu-runtime");
    assert_eq!(camera.request.protocol, neon_protocol::RPC_PROTOCOL);
    assert_eq!(camera.request.version_major, neon_protocol::PROTOCOL_VERSION.major);
    assert_eq!(camera.request.version_minor, neon_protocol::PROTOCOL_VERSION.minor);
    assert_eq!(camera.request.client_instance_id, "bevy-nui-host");
    assert_eq!(camera.request.client_origin, "neon3-bevy-nui-host");
    assert_eq!(camera.request.client_pid, 7);
    assert_eq!(
        camera.request.idempotency_key.as_deref(),
        Some("bevy:wgpu.world.camera.submit_frame:bevy-camera-1")
    );
    assert_eq!(anchors.request.request_id, "bevy-anchor-batch-1");
    assert_eq!(anchors.request.method, "wgpu.world.ui.anchor.submit_batch");
    let frame = sent_camera(&camera);
    let batch = sent_anchors(&anchors);
    assert_eq!((frame.sequence, frame.timestamp_monotonic_ns), (1, 70));
    assert_eq!((batch.sequence, batch.timestamp_monotonic_ns), (1, 70));
    assert_eq!(frame.camera_id, "bevy.main.camera");
    assert_eq!(frame.world_space_id, "case.bevy.world.main");
    assert_eq!(frame.producer_epoch, 3);
    let ids: Vec<&str> = batch.anchors.iter().map(|a| a.anchor_id.as_str()).collect();
    assert_eq!(ids, vec!["m", "z"]);
}

#[test]
fn only_the_newest_camera_goes_after_the_one_in_flight() {
    let mut session = session();
    let mut latest = LatestWorldSubmission::default();
    publish_camera_snapshot(&session, &mut latest, Some(host_camera(1.0)), 1);
    publish_world_anchor(&session, &mut latest, Some(perspective()), &Vec::new(), 1);
    let first = flush_world_latest(&mut session, &mut latest, 1, 7);
    assert!(first.camera.is_some() && first.anchors.is_some());
    latest.camera_sent();
    latest.anchors_sent();
    for step in 2..5u64 {
        publish_camera_snapshot(&session, &mut latest, Some(host_camera(step as f64)), step);
        publish_world_anchor(&session, &mut latest, Some(perspective()), &Vec::new(), step);
        let waiting = flush_world_latest(&mut session, &mut latest, step, 7);
        assert!(waiting.camera.is_none() && waiting.anchors.is_none());
    }
    latest.camera_done(true);
    latest.anchors_done(true);
    let next = flush_world_latest(&mut session, &mut latest, 9, 7);
    let camera = next.camera.expect("newest camera");
    let anchors = next.anchors.expect("its anchors");
    assert_eq!(camera.request.request_id, "bevy-camera-4");
    assert_eq!(anchors.request.request_id, "bevy-anchor-batch-4");
    assert_eq!(sent_camera(&camera).payload, {
        let mut frame = payload([4.0, 0.0, 0.0], [0.0, 0.0, 0.0, 1.0]);
        if let CameraFramePayload::ThreeDimensional { near, .. } = &mut frame {
            *near = single(0.1);
        }
        frame
    });
}

#[test]
fn unchanged_snapshot_is_not_sent_again_but_a_refused_one_is() {
    let mut session = session();
    let mut latest = LatestWorldSubmission::default();
    publish_camera_snapshot(&session, &mut latest, Some(host_camera(1.0)), 1);
    publish_world_anchor(&session, &mut latest, Some(perspective()), &Vec::new(), 1);
    flush_world_latest(&mut session, &mut latest, 1, 7);
    latest.camera_sent();
    latest.anchors_sent();
    latest.camera_done(true);
    latest.anchors_done(true);
    publish_camera_snapshot(&session, &mut latest, Some(host_camera(1.0)), 2);
    let quiet = flush_world_latest(&mut session, &mut latest, 2, 7);
    assert!(quiet.camera.is_none() && quiet.anchors.is_none());
    assert_eq!(session.world_frame_sequence, 1);
    latest.camera_done(false);
    let again = flush_world_latest(&mut session, &mut latest, 3, 7);
    assert_eq!(again.camera.expect("repeated").request.request_id, "bevy-camera-1");
    assert!(again.anchors.is_none());
}

#[test]
fn nothing_is_published_before_both_surfaces_are_there() {
    let mut latest = LatestWorldSubmission::default();
    for missing in 0..3 {
        let mut session = session();
        match missing {
            0 => session.surface_acquired = false,
            1 => session.world_surface_acquired = false,
            _ => session.config.world_ui = false,
        }
        publish_camera_snapshot(&session, &mut latest, Some(host_camera(1.0)), 1);
        publish_world_anchor(&session, &mut latest, Some(perspective()), &Vec::new(), 1);
        assert!(latest.camera.is_none() && latest.anchors.is_none());
    }
    publish_camera_snapshot(&session(), &mut latest, None, 1);
    let mut other = host_camera(1.0);
    other.projection = HostProjection::Other;
    publish_camera_snapshot(&session(), &mut latest, Some(other), 1);
    publish_world_anchor(&session(), &mut latest, Some(HostProjection::Other), &Vec::new(), 1);
    publish_world_anchor(&session(), &mut latest, None, &Vec::new(), 1);
    assert!(latest.camera.is_none() && latest.anchors.is_none());
}

#[test]
fn panels_off_the_screen_are_hidden_but_keep_their_distance() {
    let session = session();
    let shown = |p: WorldPlacement| {
        let mut latest = LatestWorldSubmission::default();
        publish_world_anchor(&session, &mut latest, Some(perspective()), &vec![p], 1);
        let sample = latest.anchors.expect("anchors").batch.anchors.remove(0);
        assert!(sample.billboard);
        assert_eq!(sample.occlusion, "depth_tested");
        (
            f32::from_bits(sample.screen_x.bits),
            f32::from_bits(sample.screen_y.bits),
            f32::from_bits(sample.view_distance.bits),
        )
    };
    assert_eq!(shown(placement("a", 4.0, 0.5)), (0.75, 0.5, 4.0));
    assert_eq!(shown(placement("a", 4.0, -1.0)), (0.75, 0.5, 4.0));
    assert_eq!(shown(placement("a", 4.0, 1.0001)), (-1.0, -1.0, 4.0));
    assert_eq!(shown(placement("a", 4.0, f32::NAN)), (-1.0, -1.0, 4.0));
    assert_eq!(shown(placement("a", 0.1, 0.0)), (-1.0, -1.0, 0.1));
    assert_eq!(shown(placement("a", -2.0, 0.0)), (-1.0, -1.0, -2.0));
    assert_eq!(shown(placement("a", 1000.0, 0.0)), (0.75, 0.5, 1000.0));
    assert_eq!(shown(placement("a", 1000.5, 0.0)), (-1.0, -1.0, 1000.5));
}

#[test]
fn scalars_compare_as_numbers() {
    assert!(single(0.0).equals(single(-0.0)));
    assert!(!single(f32::NAN).equals(single(f32::NAN)));
    assert!(single(-2.0).is_below(single(-1.0)));
    assert!(!single(f32::NAN).is_below(single(1.0)));
    assert!(single(f32::NEG_INFINITY).is_below(single(f32::INFINITY)));
    assert!(single(1.0).is_at_most(single(1.0)));
    assert!(double(0.0).equals(double(-0.0)));
    assert!(!double(f64::NAN).equals(double(f64::NAN)));
    assert!(!double(1.0).equals(double(1.5)));
}
