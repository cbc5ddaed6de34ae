use compositor::device::{
    api_version_parts, device_type_from_raw, device_type_name, find_memory_type, find_queue_families, select_physical_device,
    DeviceCandidate, DeviceChoice, DeviceType, GpuPreference,
};
use compositor::formats::{
    dmabuf_format_from_fourcc, dmabuf_format_to_vulkan, shm_format_from_code, shm_format_to_vulkan,
    advertised_dmabuf_formats, dmabuf_import, shm_texture_format, DmaBufFormat, FormatModifier, GpuFormat,
    ImportError, ShmFormat, DRM_FORMAT_ARGB8888, DRM_FORMAT_RGBA8888, DRM_FORMAT_RGBX8888, DRM_FORMAT_XRGB8888,
    MODIFIER_LINEAR,
};
use compositor::swapchain::{
    choose_extent, choose_image_count, choose_present_mode, choose_surface_format, plan_swapchain, Extent,
    SurfaceCapabilities, SurfaceFormat, PRESENT_MODE_FIFO, PRESENT_MODE_MAILBOX,
};
use compositor::upload::{shm_copy_layout, staging_needs_realloc, CopyLayout, UploadError};

fn caps(current_width: u32) -> SurfaceCapabilities {
    SurfaceCapabilities {
        min_image_count: 2,
        max_image_count: 3,
        current_extent: Extent { width: current_width, height: 1080 },
        min_image_extent: Extent { width: 1, height: 1 },
        max_image_extent: Extent { width: 4096, height: 4096 },
    }
}

#[test]
fn swapchain_prefers_srgb_bgra() {
    let unorm = SurfaceFormat { format: 44, color_space: 0 };
    let rgba = SurfaceFormat { format: 43, color_space: 0 };
    let bgra = SurfaceFormat { format: 50, color_space: 0 };
    assert_eq!(choose_surface_format(&vec![unorm, rgba, bgra]), bgra);
    assert_eq!(choose_surface_format(&vec![unorm, rgba]), rgba);
    assert_eq!(choose_surface_format(&vec![unorm]), unorm);
}

#[test]
fn swapchain_prefers_mailbox() {
    assert_eq!(choose_present_mode(&vec![0, 2, 1]), PRESENT_MODE_MAILBOX);
    assert_eq!(choose_present_mode(&vec![0, 3]), PRESENT_MODE_FIFO);
    assert_eq!(choose_present_mode(&vec![]), PRESENT_MODE_FIFO);
}

#[test]
fn swapchain_extent_and_image_count() {
    assert_eq!(choose_extent(&caps(1920), 3840, 2160), Extent { width: 1920, height: 1080 });
    assert_eq!(choose_extent(&caps(u32::MAX), 5000, 0), Extent { width: 4096, height: 1 });
    assert_eq!(choose_extent(&caps(u32::MAX), 3840, 2160), Extent { width: 3840, height: 2160 });
    assert_eq!(choose_image_count(&caps(1)), 3);
    let mut c = caps(1);
    c.min_image_count = 3;
    assert_eq!(choose_image_count(&c), 3);
    c.max_image_count = 0;
    assert_eq!(choose_image_count(&c), 4);
}

#[test]
fn zero_area_surface_gets_no_swapchain() {
    let f = vec![SurfaceFormat { format: 50, color_space: 0 }];
    assert!(plan_swapchain(&caps(u32::MAX), &f, &vec![2], 0, 100).is_none());
    let p = plan_swapchain(&caps(u32::MAX), &f, &vec![2], 100, 100).unwrap();
    assert_eq!(p.present_mode, PRESENT_MODE_FIFO);
    assert_eq!(p.extent, Extent { width: 100, height: 100 });
    assert_eq!(p.image_count, 3);
}

#[test]
fn device_selection_prefers_discrete_with_graphics() {
    let devices = vec![
        DeviceCandidate { device_type: DeviceType::IntegratedGpu, queue_families: vec![0x4, 0x1] },
        DeviceCandidate { device_type: DeviceType::DiscreteGpu, queue_families: vec![0x2] },
        DeviceCandidate { device_type: DeviceType::DiscreteGpu, queue_families: vec![0x6, 0x7] },
        DeviceCandidate { device_type: DeviceType::DiscreteGpu, queue_families: vec![0x1] },
    ];
    assert_eq!(
        select_physical_device(GpuPreference::Discrete, &devices),
        Some(DeviceChoice { index: 2, queue_family: 1 })
    );
    assert_eq!(
        select_physical_device(GpuPreference::Integrated, &devices),
        Some(DeviceChoice { index: 0, queue_family: 1 })
    );
    assert_eq!(
        select_physical_device(GpuPreference::Any, &devices),
        Some(DeviceChoice { index: 0, queue_family: 1 })
    );
    let none = vec![DeviceCandidate { device_type: DeviceType::Cpu, queue_families: vec![0x2, 0x4] }];
    assert_eq!(select_physical_device(GpuPreference::Discrete, &none), None);
}

#[test]
fn device_selection_ranks_virtual_above_cpu() {
    let devices = vec![
        DeviceCandidate { device_type: DeviceType::Cpu, queue_families: vec![0x1] },
        DeviceCandidate { device_type: DeviceType::VirtualGpu, queue_families: vec![0x1] },
    ];
    assert_eq!(select_physical_device(GpuPreference::Discrete, &devices).map(|c| c.index), Some(1));
}

#[test]
fn queue_family_and_memory_type_lookup() {
    assert_eq!(find_queue_families(&vec![0x2, 0x3, 0x1]), Some(1));
    assert_eq!(find_queue_families(&vec![0x2]), None);
    // type 0 not allowed by the filter, type 1 lacks the flags, type 2 fits
    assert_eq!(find_memory_type(0b110, &vec![0x7, 0x1, 0x7], 0x6), Some(2));
    assert_eq!(find_memory_type(0b001, &vec![0x1, 0x7], 0x6), None);
}

#[test]
fn device_type_names() {
    assert_eq!(device_type_from_raw(2), DeviceType::DiscreteGpu);
    assert_eq!(device_type_from_raw(9), DeviceType::Other);
    assert_eq!(device_type_name(DeviceType::DiscreteGpu), "Discrete GPU");
    assert_eq!(device_type_name(DeviceType::Cpu), "CPU");
}

#[test]
fn format_codes_map_to_gpu_formats() {
    assert_eq!(shm_format_from_code(0), Some(ShmFormat::Argb8888));
    assert_eq!(shm_format_from_code(1), Some(ShmFormat::Xrgb8888));
    assert_eq!(shm_format_from_code(DRM_FORMAT_RGBX8888), Some(ShmFormat::Rgbx8888));
    assert_eq!(shm_format_from_code(DRM_FORMAT_ARGB8888), None);
    assert_eq!(dmabuf_format_from_fourcc(DRM_FORMAT_ARGB8888), Some(DmaBufFormat::Argb8888));
    assert_eq!(dmabuf_format_from_fourcc(0), None);
    assert_eq!(DRM_FORMAT_ARGB8888, u32::from_le_bytes(*b"AR24"));
    assert_eq!(DRM_FORMAT_RGBA8888, u32::from_le_bytes(*b"RA24"));
    assert_eq!(shm_format_to_vulkan(ShmFormat::Xrgb8888), GpuFormat::B8G8R8A8Unorm);
    assert_eq!(dmabuf_format_to_vulkan(DmaBufFormat::Rgba8888), GpuFormat::R8G8B8A8Unorm);
    assert_eq!(GpuFormat::B8G8R8A8Unorm.raw(), 44);
    assert_eq!(GpuFormat::R8G8B8A8Unorm.raw(), 37);
    assert!(shm_texture_format(DRM_FORMAT_RGBX8888).opaque_alpha);
    assert!(!shm_texture_format(DRM_FORMAT_RGBA8888).opaque_alpha);
}

#[test]
fn shm_copy_layout_checks_stride() {
    assert_eq!(
        shm_copy_layout(256, 256, 1024),
        Ok(CopyLayout { row_length: 256, height: 256, total_bytes: 262144 })
    );
    assert_eq!(shm_copy_layout(256, 2, 1088), Ok(CopyLayout { row_length: 272, height: 2, total_bytes: 2176 }));
    assert_eq!(shm_copy_layout(0, 256, 1024), Err(UploadError::EmptyBuffer));
    assert_eq!(shm_copy_layout(256, 256, 1022), Err(UploadError::UnalignedStride));
    assert_eq!(shm_copy_layout(256, 256, 1020), Err(UploadError::StrideTooSmall));
    assert!(staging_needs_realloc(None, 1));
    assert!(staging_needs_realloc(Some(10), 11));
    assert!(!staging_needs_realloc(Some(11), 11));
}

#[test]
fn dmabuf_advertisement_and_import() {
    let formats = advertised_dmabuf_formats();
    assert_eq!(formats.len(), 4);
    assert_eq!(formats[0], FormatModifier { fourcc: DRM_FORMAT_ARGB8888, modifier: MODIFIER_LINEAR });
    assert_eq!(formats[1], FormatModifier { fourcc: DRM_FORMAT_XRGB8888, modifier: MODIFIER_LINEAR });
    assert_eq!(dmabuf_import(DRM_FORMAT_ARGB8888, 0, 2, 64, 64), Err(ImportError::MultiPlanar { planes: 2 }));
    assert_eq!(dmabuf_import(DRM_FORMAT_ARGB8888, 0, 1, 0, 64), Err(ImportError::EmptyBuffer));
    let f = dmabuf_import(DRM_FORMAT_RGBA8888, MODIFIER_LINEAR, 1, 64, 64).unwrap();
    assert_eq!(f.gpu, GpuFormat::R8G8B8A8Unorm);
    assert_eq!(
        dmabuf_import(0x3231564e, MODIFIER_LINEAR, 1, 64, 64),
        Err(ImportError::UnsupportedFormat { fourcc: 0x3231564e, modifier: 0 })
    );
    let tiled = 0x0100_0000_0000_0001u64;
    assert_eq!(
        dmabuf_import(DRM_FORMAT_ARGB8888, tiled, 1, 64, 64),
        Err(ImportError::UnsupportedFormat { fourcc: DRM_FORMAT_ARGB8888, modifier: tiled })
    );
}

#[test]
fn vulkan_version_decoding() {
    let v = (1u32 << 22) | (3 << 12) | 281;
    assert_eq!(api_version_parts(v), (1, 3, 281));
    assert_eq!(api_version_parts(0xffff_ffff), (127, 1023, 4095));
}
