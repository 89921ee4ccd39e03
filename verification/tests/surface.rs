use bevy_nui_plugins::dx12_consumer::ImportError;
use bevy_nui_plugins::gpu_readback::{
    aligned_bytes_per_row, staging_size, texture_staging_size, GpuReadbackError, ReadbackExtent,
};
use bevy_nui_plugins::surface::{
    color_import, composition_key, composition_params, depth_import, has_imported,
    has_scene_depth, import_round_due, next_releases, occlusion_debug_mode, plan_frame, plan_releases,
    read_acquired_buffers, read_handle, select_frame, CompletedBuffer,
    Neon3ExternalSurfaceBufferHandle, TextureImport, SCREEN_MODE,
};

fn buffer(buffer_index: u32, completed: u64) -> CompletedBuffer {
    CompletedBuffer { buffer_index, completed }
}

fn handle(buffer_index: u32) -> Neon3ExternalSurfaceBufferHandle {
    Neon3ExternalSurfaceBufferHandle {
        buffer_index,
        color_texture_handle: 10,
        color_fence_handle: 11,
        consumer_release_fence_handle: 12,
        depth_texture_handle: Some(20),
        depth_fence_handle: Some(21),
        depth_consumer_release_fence_handle: Some(22),
    }
}

fn extent(width: u32, height: u32, depth_or_array_layers: u32) -> ReadbackExtent {
    ReadbackExtent { width, height, depth_or_array_layers }
}

fn refused(result: Result<u64, GpuReadbackError>) -> String {
    result.expect_err("layout must be refused").message()
}

#[test]
fn acquired_buffers_are_read_from_json() {
    let result: serde_json::Value = serde_json::from_str(
        r#"{"texture_handle": 5, "buffers": [
            {"buffer_index": 0, "color_texture_handle": 1, "color_fence_handle": 2,
             "consumer_release_fence_handle": 3, "depth_texture_handle": 4},
            {"buffer_index": 1, "color_texture_handle": 1, "color_fence_handle": 2},
            {"buffer_index": -1, "color_texture_handle": 1, "color_fence_handle": 2,
             "consumer_release_fence_handle": 3},
            "nothing",
            {"buffer_index": 4294967298, "color_texture_handle": 6, "color_fence_handle": 7,
             "consumer_release_fence_handle": 8, "depth_fence_handle": 9,
             "depth_consumer_release_fence_handle": 10}]}"#,
    )
    .expect("test JSON");
    let buffers = read_acquired_buffers(&result);
    assert_eq!(buffers.len(), 2);
    assert_eq!(buffers[0].buffer_index, 0);
    assert_eq!(buffers[0].color_texture_handle, 1);
    assert_eq!(buffers[0].color_fence_handle, 2);
    assert_eq!(buffers[0].consumer_release_fence_handle, 3);
    assert_eq!(buffers[0].depth_texture_handle, Some(4));
    assert_eq!(buffers[0].depth_fence_handle, None);
    assert_eq!(buffers[1].buffer_index, 2);
    assert_eq!(buffers[1].depth_consumer_release_fence_handle, Some(10));
    assert_eq!(read_handle(&result, "texture_handle"), Some(5));
    assert_eq!(read_handle(&result, "fence_handle"), None);
    assert!(read_acquired_buffers(&serde_json::Value::Null).is_empty());
}

#[test]
fn buffers_are_imported_once() {
    let imported = vec![1, 3];
    assert!(has_imported(&imported, 3));
    assert!(!has_imported(&imported, 2));
    assert_eq!(color_import(&imported, &handle(1)), None);
    assert_eq!(
        color_import(&imported, &handle(2)),
        Some(TextureImport { texture_handle: 10, fence_handle: 11, release_fence_handle: 12 })
    );
    assert_eq!(depth_import(&imported, &handle(3)), None);
    assert_eq!(
        depth_import(&imported, &handle(2)),
        Some(TextureImport { texture_handle: 20, fence_handle: 21, release_fence_handle: 22 })
    );
    let mut flat = handle(2);
    flat.depth_fence_handle = None;
    assert_eq!(depth_import(&imported, &flat), None);
}

#[test]
fn import_rounds_start_only_while_buffers_are_missing() {
    assert!(import_round_due(0, 3));
    assert!(import_round_due(2, 3));
    assert!(!import_round_due(2, 2));
    assert!(!import_round_due(3, 2));
    assert!(!import_round_due(0, 0));
}

#[test]
fn newest_complete_frame_is_selected() {
    let screen = vec![buffer(0, 4), buffer(1, 6), buffer(2, 5)];
    let none = Vec::new();
    assert_eq!(select_frame(&screen, &none, &none), Some((1, 6)));
    let lagging = vec![buffer(0, 4), buffer(1, 5), buffer(2, 5)];
    assert_eq!(select_frame(&screen, &lagging, &none), Some((2, 5)));
    let depths = vec![buffer(0, 9), buffer(1, 9)];
    assert_eq!(select_frame(&screen, &lagging, &depths), Some((0, 4)));
    assert_eq!(select_frame(&screen, &none, &vec![buffer(7, 9)]), None);
    assert_eq!(select_frame(&vec![buffer(0, 0)], &none, &none), None);
    assert_eq!(select_frame(&none, &none, &none), None);
    let tied = vec![buffer(0, 6), buffer(1, 6), buffer(2, 1)];
    assert_eq!(select_frame(&tied, &none, &none), Some((1, 6)));
}

#[test]
fn shown_buffer_is_kept_and_others_are_released() {
    let pending = vec![buffer(0, 3), buffer(1, 4), buffer(0, 5)];
    let plan = plan_releases(&pending, 0);
    assert_eq!(plan.keep, vec![buffer(0, 3), buffer(0, 5)]);
    assert_eq!(plan.release, vec![buffer(1, 4)]);
    let screen = vec![buffer(1, 7), buffer(0, 0)];
    let none = Vec::new();
    let frame = plan_frame(&pending, &screen, &none, &none);
    assert_eq!(frame.selected, Some((0, 7)));
    assert_eq!(frame.keep, vec![buffer(1, 4)]);
    assert_eq!(frame.release, vec![buffer(0, 3), buffer(0, 5)]);
    let idle = plan_frame(&pending, &none, &none, &none);
    assert_eq!(idle.selected, None);
    assert_eq!(idle.keep, pending);
    assert!(idle.release.is_empty());
    assert_eq!(next_releases(&screen), vec![buffer(1, 7)]);
}

#[test]
fn composition_parameters_are_little_endian_words() {
    let mut expected = Vec::new();
    expected.extend(0.1f32.to_le_bytes());
    expected.extend(1000.0f32.to_le_bytes());
    expected.extend(1u32.to_le_bytes());
    expected.extend(3u32.to_le_bytes());
    assert_eq!(composition_params(1, 3), expected);
    let screen = composition_params(0, SCREEN_MODE);
    assert_eq!(screen[8..], [0, 0, 0, 0, 4, 0, 0, 0]);
    assert_eq!(composition_key(1, 3), 7);
    assert_eq!(composition_key(0, 4), 8);
}

#[test]
fn diagnostic_mode_is_a_small_number() {
    assert_eq!(occlusion_debug_mode(None), 0);
    assert_eq!(occlusion_debug_mode(Some("3")), 3);
    assert_eq!(occlusion_debug_mode(Some("+4")), 4);
    assert_eq!(occlusion_debug_mode(Some("5")), 0);
    assert_eq!(occlusion_debug_mode(Some("-1")), 0);
    assert_eq!(occlusion_debug_mode(Some("")), 0);
    assert_eq!(occlusion_debug_mode(Some("4294967297")), 0);
    assert_eq!(has_scene_depth(None, true), 1);
    assert_eq!(has_scene_depth(Some("0"), true), 1);
    assert_eq!(has_scene_depth(Some("1"), true), 0);
    assert_eq!(has_scene_depth(None, false), 0);
}

#[test]
fn rows_are_padded_to_the_copy_alignment() {
    assert_eq!(wgpu::COPY_BYTES_PER_ROW_ALIGNMENT, 256);
    assert_eq!(aligned_bytes_per_row(0), 0);
    assert_eq!(aligned_bytes_per_row(8), 256);
    assert_eq!(aligned_bytes_per_row(256), 256);
    assert_eq!(aligned_bytes_per_row(257), 512);
}

#[test]
fn readback_layouts_are_checked_in_order() {
    let size = staging_size(extent(2, 3, 4), Some(4), 256).expect("valid layout");
    assert_eq!(size, 256 * 3 * 4);
    assert_eq!(
        refused(staging_size(extent(0, 3, 4), None, 1)),
        "invalid_gpu_readback_layout: texture extent is empty"
    );
    assert_eq!(
        refused(staging_size(extent(2, 3, 4), None, 1)),
        "invalid_gpu_readback_layout: texture format has no byte size"
    );
    assert_eq!(
        refused(staging_size(extent(u32::MAX, 1, 1), Some(4), 1)),
        "invalid_gpu_readback_layout: row byte count overflow"
    );
    let row = "invalid_gpu_readback_layout: bytes_per_row is too small or not 256-byte aligned";
    assert_eq!(refused(staging_size(extent(2, 3, 4), Some(4), 255)), row);
    assert_eq!(refused(staging_size(extent(65, 3, 4), Some(4), 256)), row);
    assert_eq!(
        refused(staging_size(extent(1, u32::MAX, u32::MAX), Some(4), 0xffff_ff00)),
        "invalid_gpu_readback_layout: staging size overflow"
    );
    assert_eq!(
        GpuReadbackError::MapFailed("lost".into()).message(),
        "gpu_readback_map_failed: lost"
    );
}

#[test]
fn readback_size_depends_on_the_texture_format() {
    let row = aligned_bytes_per_row(8);
    let float = texture_staging_size(wgpu::TextureFormat::R32Float, extent(2, 1, 1), row);
    assert_eq!(float.expect("four bytes each"), 256);
    let wide = wgpu::TextureFormat::Rgba32Float;
    assert!(texture_staging_size(wide, extent(16, 1, 1), 256).is_ok());
    assert!(texture_staging_size(wide, extent(17, 1, 1), 256).is_err());
    assert!(texture_staging_size(wgpu::TextureFormat::R8Unorm, extent(17, 1, 1), 256).is_ok());
    assert_eq!(
        refused(texture_staging_size(wgpu::TextureFormat::Depth24Plus, extent(1, 1, 1), 256)),
        "invalid_gpu_readback_layout: texture format has no byte size"
    );
}

#[test]
fn import_failures_have_messages() {
    assert_eq!(ImportError::NotDx12.message(), "Bevy RenderDevice is not using DX12");
    assert_eq!(
        ImportError::HalDeviceUnavailable.message(),
        "Bevy DX12 HAL device is unavailable"
    );
    assert_eq!(
        ImportError::OpenSharedHandle("null fence".into()).message(),
        "open shared D3D12 texture: null fence"
    );
    assert_eq!(
        ImportError::WaitExternalFence("lost".into()).message(),
        "wait external D3D12 fence: lost"
    );
}
