use bevy_nui_plugins::image::{
    alpha_summary, neon3_image_source, neon3_image_source_with_region, ImageDimension,
    ImageFormat, SourceImage,
};
use bevy_nui_plugins::request::{RequestParams, RpcLane};
use bevy_nui_plugins::session::{Neon3BevyConfig, Neon3Session};
use bevy_nui_plugins::upload::{
    images_are_resident, plan_image_upload, submit_flow_source, upload_sent, Neon3ExternalImage,
    Neon3FlowSubmissionState, Neon3ImageUploadState,
};

fn source(width: u32, height: u32, format: ImageFormat, data: Option<&[u8]>) -> SourceImage<'_> {
    SourceImage {
        dimension: ImageDimension::D2,
        width,
        height,
        depth_or_array_layers: 1,
        mip_level_count: 1,
        format,
        data,
    }
}

fn session(sources: &[&str]) -> Neon3Session {
    let sources = sources.iter().map(|s| s.to_string()).collect();
    Neon3Session::new(Neon3BevyConfig::with_ui_sources(sources))
}

#[test]
fn bevy_image_source_accepts_rgba8_and_rejects_gpu_only_images() {
    let data = vec![255, 0, 0, 255, 0, 255, 0, 255];
    let image = source(2, 1, ImageFormat::Rgba8UnormSrgb, Some(&data));
    let converted = neon3_image_source("test-image".into(), &image).expect("RGBA8 source");
    assert_eq!(converted.image_id, "test-image");
    assert_eq!((converted.width, converted.height), (2, 1));
    assert_eq!(converted.bytes.len(), 8);

    let large = vec![64; 3000 * 1500 * 4];
    let oversized = source(3000, 1500, ImageFormat::Rgba8Unorm, Some(&large));
    let thumbnail = neon3_image_source("thumbnail".into(), &oversized).expect("bounded RGBA8");
    assert_eq!((thumbnail.width, thumbnail.height), (2046, 1023));
    assert_eq!(thumbnail.bytes.len(), 2046 * 1023 * 4);

    let gpu_only = source(2, 1, ImageFormat::Rgba8UnormSrgb, None);
    assert!(neon3_image_source("gpu-only".into(), &gpu_only).is_none());
}

#[test]
fn unreadable_images_are_refused() {
    let data = vec![1; 16];
    let good = source(2, 2, ImageFormat::Rgba8Unorm, Some(&data));
    let converted = neon3_image_source("a".into(), &good).expect("readable");
    assert_eq!(converted.media_type, "application/x-neon-rgba8");
    assert_eq!(converted.bytes, data);
    for dimension in [ImageDimension::D1, ImageDimension::D3] {
        let not_flat = SourceImage { dimension, ..good };
        assert!(neon3_image_source("image".into(), &not_flat).is_none());
        assert!(
            neon3_image_source_with_region("image".into(), &not_flat, Some([0, 0, 1, 1])).is_none()
        );
    }
    let layered = SourceImage { depth_or_array_layers: 2, ..good };
    assert!(neon3_image_source("a".into(), &layered).is_none());
    let mipped = SourceImage { mip_level_count: 2, ..good };
    assert!(neon3_image_source("a".into(), &mipped).is_none());
    let foreign = SourceImage { format: ImageFormat::Other, ..good };
    assert!(neon3_image_source("a".into(), &foreign).is_none());
    let short = source(2, 3, ImageFormat::Rgba8Unorm, Some(&data));
    assert!(neon3_image_source("a".into(), &short).is_none());
    let empty = source(0, 2, ImageFormat::Rgba8Unorm, Some(&[]));
    assert!(neon3_image_source("a".into(), &empty).is_none());
    let huge = source(u32::MAX, u32::MAX, ImageFormat::Rgba8Unorm, Some(&data));
    assert!(neon3_image_source("a".into(), &huge).is_none());
}

#[test]
fn regions_are_cut_out_texel_by_texel() {
    let data: Vec<u8> = (0..3 * 2 * 4).collect();
    let image = source(3, 2, ImageFormat::Rgba8Unorm, Some(&data));
    let cut = neon3_image_source_with_region("a".into(), &image, Some([1, 0, 2, 2])).expect("cut");
    assert_eq!((cut.width, cut.height), (2, 2));
    assert_eq!(cut.bytes, vec![4, 5, 6, 7, 8, 9, 10, 11, 16, 17, 18, 19, 20, 21, 22, 23]);
    let whole = neon3_image_source_with_region("a".into(), &image, Some([0, 0, 3, 2]));
    assert_eq!(whole.expect("whole").bytes, data);
    for region in [[0, 0, 0, 1], [0, 0, 1, 0], [2, 0, 2, 1], [0, 1, 1, 2], [u32::MAX, 0, 1, 1]] {
        assert!(neon3_image_source_with_region("a".into(), &image, Some(region)).is_none());
    }
}

#[test]
fn scaled_texels_come_from_the_same_proportion() {
    let mut data = vec![0; 4092 * 4];
    for (i, texel) in data.chunks_exact_mut(4).enumerate() {
        texel.copy_from_slice(&(i as u32).to_le_bytes());
    }
    let image = source(4092, 1, ImageFormat::Rgba8Unorm, Some(&data));
    let scaled = neon3_image_source("a".into(), &image).expect("scaled");
    assert_eq!((scaled.width, scaled.height), (2046, 1));
    let texel = |i: usize| {
        let b = &scaled.bytes[4 * i..4 * i + 4];
        u32::from_le_bytes([b[0], b[1], b[2], b[3]])
    };
    assert_eq!((texel(0), texel(1), texel(1000), texel(2045)), (0, 2, 2000, 4090));
}

#[test]
fn alpha_is_summarised() {
    assert_eq!(alpha_summary(&[]), (0, 0));
    assert_eq!(alpha_summary(&[9, 9, 9, 0, 1, 1, 1, 7, 0, 0, 0, 3, 255]), (2, 7));
}

#[test]
fn upload_is_planned_once_until_the_asset_changes() {
    let session = session(&[]);
    let data = vec![1, 2, 3, 4];
    let image = source(1, 1, ImageFormat::Rgba8Unorm, Some(&data));
    let mut external = Neon3ExternalImage::new("icon".into());
    let mut state = Neon3ImageUploadState::default();
    assert!(plan_image_upload(&mut external, false, None, &session, &mut state, 5).is_none());
    assert_eq!(state.next_sequence, 0);
    let upload = plan_image_upload(&mut external, false, Some(image), &session, &mut state, 5)
        .expect("upload due");
    assert_eq!(upload.request_id, "bevy-image-upload-1");
    assert_eq!(upload.request.lane, RpcLane::Interaction);
    assert_eq!(upload.request.endpoint, "127.0.0.1:39102");
    assert_eq!(upload.request.request.method, "ui.image.upload");
    assert_eq!(upload.request.request.target, "ui-runtime");
    assert_eq!((upload.width, upload.height, upload.byte_count), (1, 1, 4));
    assert_eq!((upload.visible_texels, upload.greatest_alpha), (1, 4));
    let mut fingerprint = 0xcbf29ce484222325u64;
    for byte in [1u64, 2, 3, 4] {
        fingerprint = (fingerprint ^ byte).wrapping_mul(0x100000001b3);
    }
    assert_eq!(upload.fingerprint, fingerprint);
    match &upload.request.request.params {
        RequestParams::Json(value) => {
            let expected: serde_json::Value = serde_json::from_str(
                r#"{"source": {"image_id": "icon", "media_type": "application/x-neon-rgba8",
                    "width": 1, "height": 1, "bytes": [1, 2, 3, 4]}}"#,
            )
            .expect("test JSON");
            assert_eq!(*value, expected);
        }
        _ => panic!("JSON parameters"),
    }
    upload_sent(&mut external, &mut state, upload.request_id, upload.fingerprint, 42);
    assert!(external.upload_in_flight);
    assert_eq!(external.pending_fingerprint, Some(fingerprint));
    assert!(plan_image_upload(&mut external, true, Some(image), &session, &mut state, 5).is_none());
    assert_eq!(state.take_pending("bevy-image-upload-9"), None);
    assert_eq!(state.take_pending("bevy-image-upload-1"), Some(42));
    assert_eq!(state.take_pending("bevy-image-upload-1"), None);
    external.upload_answered(true);
    assert_eq!(external.uploaded_fingerprint, Some(fingerprint));
    assert!(!external.upload_in_flight);
    assert!(plan_image_upload(&mut external, false, Some(image), &session, &mut state, 5).is_none());
    let second = plan_image_upload(&mut external, true, Some(image), &session, &mut state, 5)
        .expect("changed asset");
    assert_eq!(second.request_id, "bevy-image-upload-2");
    assert_eq!(external.uploaded_fingerprint, None);
    upload_sent(&mut external, &mut state, second.request_id, second.fingerprint, 42);
    external.upload_answered(false);
    assert_eq!(external.uploaded_fingerprint, None);
    assert_eq!(external.pending_fingerprint, None);
    assert!(plan_image_upload(&mut external, false, Some(image), &session, &mut state, 5).is_some());
}

#[test]
fn region_of_an_external_image_is_uploaded() {
    let session = session(&[]);
    let data: Vec<u8> = (0..8).collect();
    let image = source(2, 1, ImageFormat::Rgba8Unorm, Some(&data));
    let mut external = Neon3ExternalImage::new("icon".into()).with_region([1, 0, 1, 1]);
    assert_eq!(external.source_region, Some([1, 0, 1, 1]));
    let mut state = Neon3ImageUploadState::default();
    let upload = plan_image_upload(&mut external, false, Some(image), &session, &mut state, 5)
        .expect("upload due");
    assert_eq!((upload.width, upload.byte_count, upload.greatest_alpha), (1, 4, 7));
    let mut beyond = Neon3ExternalImage::new("icon".into()).with_region([2, 0, 1, 1]);
    assert!(plan_image_upload(&mut beyond, false, Some(image), &session, &mut state, 5).is_none());
}

#[test]
fn flow_sources_with_resources_wait_for_the_images() {
    let session = session(&["plain", "uses resource icon", "other"]);
    let mut state = Neon3FlowSubmissionState::default();
    let mut image = Neon3ExternalImage::new("icon".into());
    assert!(images_are_resident(&[]));
    assert!(!images_are_resident(&[&image]));
    let due = submit_flow_source(&session, &[&image], &state, 5);
    let places: Vec<usize> = due.iter().map(|s| s.index).collect();
    assert_eq!(places, vec![0, 2]);
    assert_eq!(due[1].request.request.request_id, "bevy-flow-source-2");
    assert_eq!(due[1].request.request.method, "ui.flow.submit");
    match &due[1].request.request.params {
        RequestParams::Json(value) => {
            assert_eq!(value.get("source").and_then(|s| s.as_str()), Some("other"));
        }
        _ => panic!("JSON parameters"),
    }
    state.source_sent(0);
    state.source_sent(2);
    assert!(submit_flow_source(&session, &[&image], &state, 5).is_empty());
    image.uploaded_fingerprint = Some(1);
    let last = submit_flow_source(&session, &[&image], &state, 5);
    assert_eq!(last.len(), 1);
    assert_eq!(last[0].index, 1);
    state.source_sent(1);
    assert!(submit_flow_source(&session, &[&image], &state, 5).is_empty());
}
