use compositor::surface::{
    BufferChange, BufferInfo, BufferKind, ContentType, Damage, PendingRequest, Rect, Surface, SurfaceError,
    SurfaceRole,
};

fn shm_buffer(id: u64) -> BufferInfo {
    BufferInfo { id, width: 256, height: 256, format: 0, kind: BufferKind::Shm { stride: 1024 } }
}

#[test]
fn role_reassignment_is_rejected_without_change() {
    let mut s = Surface::new(7);
    assert_eq!(s.assign_role(SurfaceRole::Toplevel), Ok(()));
    let r = s.assign_role(SurfaceRole::Layer);
    assert_eq!(
        r,
        Err(SurfaceError::RoleAlreadyAssigned { current: SurfaceRole::Toplevel, requested: SurfaceRole::Layer })
    );
    assert_eq!(s.role(), Some(SurfaceRole::Toplevel));
}

#[test]
fn same_role_twice_is_accepted() {
    let mut s = Surface::new(1);
    assert_eq!(s.assign_role(SurfaceRole::Cursor), Ok(()));
    assert_eq!(s.assign_role(SurfaceRole::Cursor), Ok(()));
    assert_eq!(s.role(), Some(SurfaceRole::Cursor));
}

#[test]
fn pending_state_is_invisible_until_commit() {
    let mut s = Surface::new(3);
    s.attach(Some(shm_buffer(10)));
    s.add_damage(Damage::Surface(Rect { x: 0, y: 0, width: 256, height: 256 }));
    s.request_frame(99);
    assert_eq!(s.set_buffer_scale(2), Ok(()));
    assert_eq!(s.current_buffer(), None);
    assert_eq!(s.current().buffer_scale, 1);
    assert!(s.current().damage.is_empty());
    assert_eq!(s.commit(), 1);
    assert_eq!(s.current_buffer(), Some(shm_buffer(10)));
    assert_eq!(s.pending_buffer(), BufferChange::Unchanged);
    assert_eq!(s.current().buffer_scale, 2);
    assert_eq!(s.current().damage, vec![Damage::Surface(Rect { x: 0, y: 0, width: 256, height: 256 })]);
    assert_eq!(s.current().frame_callbacks, vec![99]);
    assert!(s.pending().damage.is_empty());
    assert!(s.pending().frame_callbacks.is_empty());
    assert_eq!(s.pending().buffer_scale, 2);
    assert_eq!(s.commit_count(), 1);
}

#[test]
fn invalid_scale_and_transform_are_errors() {
    let mut s = Surface::new(4);
    assert_eq!(s.set_buffer_scale(0), Err(SurfaceError::InvalidScale { scale: 0 }));
    assert_eq!(s.set_buffer_transform(8), Err(SurfaceError::InvalidTransform { transform: 8 }));
    assert_eq!(s.set_buffer_transform(7), Ok(()));
    assert_eq!(s.pending().buffer_scale, 1);
    assert_eq!(s.pending().buffer_transform, 7);
    assert_eq!(
        s.apply_request(PendingRequest::SetBufferScale(-3)),
        Err(SurfaceError::InvalidScale { scale: -3 })
    );
}

#[test]
fn apply_request_routes_each_request() {
    let mut s = Surface::new(5);
    assert_eq!(s.apply_request(PendingRequest::Attach(Some(shm_buffer(1)))), Ok(()));
    assert_eq!(s.apply_request(PendingRequest::Frame(4)), Ok(()));
    assert_eq!(s.apply_request(PendingRequest::SetViewport(None)), Ok(()));
    assert_eq!(s.pending_buffer(), BufferChange::Attach(shm_buffer(1)));
    assert_eq!(s.apply_request(PendingRequest::SetContentType(ContentType::Video)), Ok(()));
    assert_eq!(s.pending().content_type, ContentType::Video);
    assert_eq!(s.current().content_type, ContentType::Unspecified);
    assert_eq!(s.pending().frame_callbacks, vec![4]);
}

#[test]
fn regions_are_double_buffered() {
    let mut s = Surface::new(6);
    let r = Rect { x: 1, y: 2, width: 3, height: 4 };
    s.set_opaque_region(Some(vec![r]));
    s.set_input_region(Some(vec![r]));
    assert!(s.current().opaque_region.is_empty());
    assert!(s.current().input_region.is_none());
    s.commit();
    assert_eq!(s.current().opaque_region, vec![r]);
    assert_eq!(s.current().input_region, Some(vec![r]));
    s.set_input_region(None);
    s.commit();
    assert_eq!(s.current().input_region, None);
}

#[test]
fn frame_callbacks_fire_only_after_their_commit_is_presented() {
    let mut s = Surface::new(8);
    s.request_frame(1);
    let c1 = s.commit();
    s.request_frame(2);
    let c2 = s.commit();
    assert_eq!((c1, c2), (1, 2));
    let fired = s.frame_presented(0, 100);
    assert!(fired.is_empty());
    let fired = s.frame_presented(1, 120);
    assert_eq!(fired.len(), 1);
    assert_eq!((fired[0].callback, fired[0].commit, fired[0].time), (1, 1, 120));
    assert_eq!(s.queued_callbacks().len(), 1);
    // the clock reading went backwards: the timestamp does not
    let fired = s.frame_presented(2, 50);
    assert_eq!(fired.len(), 1);
    assert_eq!((fired[0].callback, fired[0].time), (2, 120));
    assert_eq!(s.last_callback_time(), 120);
    assert!(s.queued_callbacks().is_empty());
}

#[test]
fn callback_fires_exactly_once() {
    let mut s = Surface::new(9);
    s.attach(Some(shm_buffer(3)));
    s.request_frame(11);
    let c = s.commit();
    let first = s.frame_presented(c, 16);
    let second = s.frame_presented(c, 32);
    assert_eq!(first.len(), 1);
    assert!(second.is_empty());
}

#[test]
fn commit_consumes_the_pending_attach() {
    let mut s = Surface::new(12);
    s.attach(Some(shm_buffer(5)));
    assert_eq!(s.commit_for_import(), (1, Some(shm_buffer(5))));
    assert_eq!(s.pending_buffer(), BufferChange::Unchanged);
    // no new attach: the buffer stays and nothing is imported
    assert_eq!(s.commit_for_import(), (2, None));
    assert_eq!(s.current_buffer(), Some(shm_buffer(5)));
    // re-attaching the same buffer is an attach
    s.attach(Some(shm_buffer(5)));
    assert_eq!(s.commit_for_import(), (3, Some(shm_buffer(5))));
    s.attach(None);
    assert_eq!(s.pending_buffer(), BufferChange::Detach);
    assert_eq!(s.commit_for_import(), (4, None));
    assert_eq!(s.current_buffer(), None);
}

#[test]
fn synchronized_subsurface_waits_for_parent() {
    let mut s = Surface::new(20);
    assert_eq!(s.assign_role(SurfaceRole::Subsurface), Ok(()));
    s.set_synchronized(true);
    s.attach(Some(shm_buffer(7)));
    s.add_damage(Damage::Surface(Rect { x: 0, y: 0, width: 8, height: 8 }));
    s.request_frame(1);
    assert_eq!(s.commit_request(), None);
    assert!(s.has_cached_state());
    assert_eq!(s.current_buffer(), None);
    assert_eq!(s.pending_buffer(), BufferChange::Unchanged);
    // a second cached commit: damage and callbacks accumulate, the buffer stays attached
    s.add_damage(Damage::Surface(Rect { x: 1, y: 1, width: 2, height: 2 }));
    s.request_frame(2);
    assert_eq!(s.commit_request(), None);
    assert_eq!(s.commit_count(), 0);
    assert_eq!(s.parent_committed(), Some((1, Some(shm_buffer(7)))));
    assert!(!s.has_cached_state());
    assert_eq!(s.current_buffer(), Some(shm_buffer(7)));
    assert_eq!(s.current().damage.len(), 2);
    assert_eq!(s.current().frame_callbacks, vec![1, 2]);
    assert_eq!(s.parent_committed(), None);
}

#[test]
fn desynchronized_commit_applies_cached_state_too() {
    let mut s = Surface::new(21);
    s.set_synchronized(true);
    s.attach(Some(shm_buffer(3)));
    assert_eq!(s.commit_request(), None);
    s.set_synchronized(false);
    s.request_frame(9);
    assert_eq!(s.commit_request(), Some((1, Some(shm_buffer(3)))));
    assert_eq!(s.current_buffer(), Some(shm_buffer(3)));
    assert_eq!(s.current().frame_callbacks, vec![9]);
    assert_eq!(s.commit_request(), Some((2, None)));
}
