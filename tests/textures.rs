use compositor::formats::{GpuFormat, TextureFormat, DRM_FORMAT_XRGB8888};
use compositor::surface::{BufferInfo, BufferKind, Damage, Rect, Surface};
use compositor::surface_manager::SurfaceManager;
use compositor::texture_cache::{release_point, ReleasePoint, TextureCache, TextureRef};

fn shm(id: u64, format: u32) -> BufferInfo {
    BufferInfo { id, width: 64, height: 32, format, kind: BufferKind::Shm { stride: 256 } }
}

#[test]
fn lookup_returns_most_recent_commit() {
    let mut c = TextureCache::new();
    assert_eq!(c.lookup(1), None);
    let e1 = c.on_commit(1, shm(100, 0));
    let e2 = c.on_commit(1, shm(101, 1));
    assert_ne!(e1.generation, e2.generation);
    let t = c.lookup(1).unwrap();
    assert_eq!(t.buffer_id, 101);
    assert_eq!(t.format, TextureFormat { gpu: GpuFormat::B8G8R8A8Unorm, opaque_alpha: true, black_fill: false });
    assert_eq!(c.retired_count(), 1);
}

#[test]
fn replaced_texture_outlives_frames_that_use_it() {
    let mut c = TextureCache::new();
    let e1 = c.on_commit(1, shm(100, 0));
    let refs = c.record_frame(7, &vec![1, 2]);
    assert_eq!(refs, vec![TextureRef { surface: 1, generation: e1.generation }]);
    c.on_commit(1, shm(101, 0));
    // the first texture is replaced but frame 7 still samples it
    let freed = c.frame_completed(8);
    assert!(freed.is_empty());
    assert_eq!(c.retired_count(), 1);
    let freed = c.frame_completed(7);
    assert_eq!(freed, vec![TextureRef { surface: 1, generation: e1.generation }]);
    assert_eq!(c.retired_count(), 0);
    assert_eq!(c.in_flight_count(), 0);
}

#[test]
fn eviction_removes_lookup() {
    let mut c = TextureCache::new();
    c.on_commit(5, shm(1, 0));
    let e = c.evict(5);
    assert_eq!(e.map(|t| t.buffer_id), Some(1));
    assert_eq!(c.lookup(5), None);
    assert_eq!(c.evict(5), None);
}

#[test]
fn unsupported_format_falls_back_to_black() {
    let mut c = TextureCache::new();
    let e = c.on_commit(1, shm(1, 0x1234));
    assert_eq!(e.format, TextureFormat { gpu: GpuFormat::B8G8R8A8Unorm, opaque_alpha: false, black_fill: true });
    let d = BufferInfo { id: 2, width: 8, height: 8, format: DRM_FORMAT_XRGB8888, kind: BufferKind::DmaBuf { modifier: 0 } };
    let e = c.on_commit(2, d);
    assert_eq!(e.format, TextureFormat { gpu: GpuFormat::B8G8R8A8Unorm, opaque_alpha: true, black_fill: false });
}

#[test]
fn surface_manager_registers_unknown_surfaces_on_commit() {
    let mut m = SurfaceManager::new();
    assert_eq!(m.register_surface(40), 1);
    let (id, _) = m.handle_surface_commit(41, shm(9, 0));
    assert_eq!(id, 2);
    let (id, _) = m.handle_surface_commit(40, shm(10, 0));
    assert_eq!(id, 1);
    assert_eq!(m.surface_count(), 2);
    assert_eq!(m.lookup_texture(41).map(|t| t.buffer_id), Some(9));
    assert_eq!(m.internal_id(40), Some(1));
    assert!(m.remove_surface(41).is_some());
    assert_eq!(m.lookup_texture(41), None);
    assert_eq!(m.surface_count(), 1);
    assert_eq!(m.next_surface_id(), 3);
}

#[test]
fn shm_single_client_round_trip() {
    let mut m = SurfaceManager::new();
    let mut s = Surface::new(3);
    let green = BufferInfo { id: 50, width: 256, height: 256, format: 0, kind: BufferKind::Shm { stride: 1024 } };
    s.attach(Some(green));
    s.add_damage(Damage::Buffer(Rect { x: 0, y: 0, width: 256, height: 256 }));
    s.request_frame(77);
    let (seq, attached) = s.commit_for_import();
    assert_eq!(seq, 1);
    let b = attached.unwrap();
    let ok: Result<(), ()> = Ok(());
    let (id, tex) = m.finish_import(3, b, &ok).unwrap();
    assert_eq!(id, 1);
    assert_eq!((tex.buffer_id, tex.width, tex.height), (50, 256, 256));
    assert_eq!(tex.format.gpu, GpuFormat::B8G8R8A8Unorm);
    assert_eq!(m.lookup_texture(3).map(|t| t.buffer_id), Some(50));
    // a commit with no new attach imports nothing
    assert_eq!(s.commit_for_import(), (2, None));
    let fired = s.frame_presented(1, 16);
    assert_eq!(fired.len(), 1);
    assert_eq!(fired[0].callback, 77);
    assert!(s.frame_presented(2, 32).is_empty());
}

#[test]
fn failed_import_keeps_last_good_texture() {
    let mut m = SurfaceManager::new();
    let ok: Result<(), &str> = Ok(());
    let failed: Result<(), &str> = Err("import failed");
    m.finish_import(8, shm(1, 0), &ok);
    assert_eq!(m.finish_import(8, shm(2, 0), &failed), None);
    assert_eq!(m.lookup_texture(8).map(|t| t.buffer_id), Some(1));
    assert_eq!(m.finish_import(9, shm(3, 0), &failed), None);
    assert_eq!(m.internal_id(9), None);
    assert_eq!(m.surface_count(), 1);
}

#[test]
fn buffer_release_points() {
    assert_eq!(release_point(BufferKind::Shm { stride: 4 }), ReleasePoint::AfterPresent);
    assert_eq!(release_point(BufferKind::DmaBuf { modifier: 0 }), ReleasePoint::WhenTextureFreed);
}
