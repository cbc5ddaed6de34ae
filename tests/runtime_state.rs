use compositor::config::{flag_override, parse_resolution_override, ConfigError, DisplayModeConfig, PerformanceConfig};
use compositor::desktop::{AppBar, AsyncError};
use compositor::device::GpuPreference;
use compositor::frame::{
    frame_content, frame_time_ms, lock, locker_died, may_submit, needs_redraw, unlock, FrameSlots, LockState,
    RedrawInput,
};
use compositor::lifecycle::{
    backend_startup_step, loop_step, BackendType, LoopAction, LoopObservation, Phase, StartupAction,
    SEAT_POLL_ATTEMPTS,
};
use compositor::socket::{display_number, lowest_free_display};
use compositor::surface_manager::SurfaceManager;
use compositor::memory::{get_memory_stats, MemoryTracker};
use compositor::output::{Mode, Output};
use compositor::plugin::{PluginCapability, PluginContext, PluginManifest, ManifestError};
use compositor::session::{SessionError, SessionEvent, SessionManager, SessionState};

#[test]
fn session_follows_events() {
    let mut s = SessionManager::new();
    assert_eq!(s.state(), SessionState::Inactive);
    assert_eq!(s.check_acquire(), Err(SessionError::SeatInactive));
    let ev = s.poll_events(vec![SessionEvent::Activated]);
    assert_eq!(ev, vec![SessionEvent::Activated]);
    assert!(s.is_active());
    assert_eq!(s.check_acquire(), Ok(()));
    s.poll_events(vec![SessionEvent::Deactivated, SessionEvent::Activated, SessionEvent::Terminated]);
    assert_eq!(s.state(), SessionState::Terminating);
    assert!(!may_submit(s.state(), true));
}

#[test]
fn device_release_is_idempotent() {
    let mut s = SessionManager::new();
    s.record_device("/dev/dri/card0".to_string(), 5);
    s.record_device("/dev/input/event0".to_string(), 6);
    assert!(s.release_device(5));
    assert!(!s.release_device(5));
    assert!(s.release_device(6));
}

#[test]
fn rendering_pauses_while_inactive() {
    assert!(may_submit(SessionState::Active, true));
    assert!(!may_submit(SessionState::Active, false));
    assert!(!may_submit(SessionState::Inactive, true));
}

#[test]
fn redraw_needed_only_for_damage_or_new_buffer() {
    assert!(!needs_redraw(RedrawInput { presented_buffer: Some(1), current_buffer: Some(1), damage_count: 0 }));
    assert!(needs_redraw(RedrawInput { presented_buffer: Some(1), current_buffer: Some(1), damage_count: 2 }));
    assert!(needs_redraw(RedrawInput { presented_buffer: Some(1), current_buffer: Some(2), damage_count: 0 }));
    assert!(needs_redraw(RedrawInput { presented_buffer: None, current_buffer: Some(2), damage_count: 0 }));
}

#[test]
fn frame_clock_and_slots() {
    assert_eq!(frame_time_ms(1234), 1234);
    assert_eq!(frame_time_ms(0x1_0000_0005), 5);
    let mut slots = FrameSlots::new(3);
    assert_eq!(slots.current(), 0);
    assert_eq!(slots.advance(), 1);
    assert_eq!(slots.advance(), 2);
    assert_eq!(slots.advance(), 0);
}

#[test]
fn session_lock_stays_locked_when_locker_dies() {
    let l = lock(LockState::Unlocked);
    assert_eq!(l, LockState::Locked { locker_alive: true });
    let l = locker_died(l);
    assert_eq!(l, LockState::Locked { locker_alive: false });
    assert_eq!(frame_content(l, vec![1, 2], vec![9]), vec![9]);
    let l = unlock(l);
    assert_eq!(frame_content(l, vec![1, 2], vec![9]), vec![1, 2]);
    assert_eq!(locker_died(LockState::Unlocked), LockState::Unlocked);
}

#[test]
fn resolution_override_parsing() {
    assert_eq!(parse_resolution_override("1920x1080"), Ok(Some((1920, 1080))));
    assert_eq!(parse_resolution_override("+640x480"), Ok(Some((640, 480))));
    assert_eq!(parse_resolution_override("1920"), Ok(None));
    assert_eq!(parse_resolution_override("1x2x3"), Ok(None));
    assert_eq!(parse_resolution_override("axb"), Err(ConfigError::InvalidResolutionWidth));
    assert_eq!(parse_resolution_override("10x"), Err(ConfigError::InvalidResolutionHeight));
    assert_eq!(parse_resolution_override("4294967296x1"), Err(ConfigError::InvalidResolutionWidth));
    assert_eq!(parse_resolution_override("4294967295x1"), Ok(Some((4294967295, 1))));
}

#[test]
fn config_defaults_and_validation() {
    let d = DisplayModeConfig::default_mode();
    assert_eq!((d.width, d.height, d.refresh_rate), (3840, 2160, 60));
    assert_eq!(d.validate(), Ok(()));
    let bad = DisplayModeConfig { refresh_rate: 0, ..d };
    assert_eq!(bad.validate(), Err(ConfigError::ZeroRefreshRate));
    let mut p = PerformanceConfig::default();
    assert_eq!(p.max_fps, 120);
    assert_eq!(p.gpu_preference(), GpuPreference::Discrete);
    assert_eq!(p.validate(), Ok(()));
    p.max_fps = 0;
    assert_eq!(p.validate(), Err(ConfigError::ZeroMaxFps));
    p.vulkan_device_preference = "integrated".to_string();
    assert_eq!(p.gpu_preference(), GpuPreference::Integrated);
    p.vulkan_device_preference = "any".to_string();
    assert_eq!(p.gpu_preference(), GpuPreference::Any);
    p.max_fps = 60;
    assert_eq!(p.validate(), Ok(()));
    p.vulkan_device_preference = "nvidia".to_string();
    assert_eq!(p.validate(), Err(ConfigError::UnknownGpuPreference));
    p.max_fps = 0;
    assert_eq!(p.validate(), Err(ConfigError::ZeroMaxFps));
    assert!(!flag_override("false"));
    assert!(flag_override("true"));
    assert!(flag_override("nonsense"));
}

#[test]
fn memory_tracker_counts_and_peaks() {
    let mut t = MemoryTracker::new();
    t.allocated(100);
    t.allocated(50);
    t.deallocated(120);
    assert_eq!(t.current_usage(), 30);
    assert_eq!(t.peak_usage(), 150);
    t.reset_peak();
    assert_eq!(t.peak_usage(), 30);
    t.deallocated(1000);
    assert_eq!(t.current_usage(), 0);
    t.allocated(usize::MAX);
    t.allocated(1);
    assert_eq!(t.current_usage(), usize::MAX);
    let s = get_memory_stats(&t);
    assert_eq!((s.current_bytes, s.peak_bytes), (usize::MAX, usize::MAX));
}

#[test]
fn plugin_context_and_manifest() {
    let c = PluginContext::new();
    assert!(!c.has_capability(PluginCapability::InputHandling));
    let c = PluginContext::with_capabilities(0b10);
    assert!(c.has_capability(PluginCapability::InputHandling));
    assert!(!c.has_capability(PluginCapability::SystemAccess));
    assert_eq!(c.compositor_version(), "0.1.0");
    assert_eq!(PluginCapability::ExternalCommunication.bit(), 32);
    let mut m = PluginManifest::default();
    assert_eq!(m.entry_point, "plugin.so");
    assert_eq!(m.validate(), Err(ManifestError::EmptyName));
    m.name = "dock".to_string();
    assert_eq!(m.validate(), Ok(()));
    m.entry_point = String::new();
    assert_eq!(m.validate(), Err(ManifestError::EmptyEntryPoint));
    m.version = String::new();
    assert_eq!(m.validate(), Err(ManifestError::EmptyVersion));
}

#[test]
fn output_logical_size() {
    let mut o = Output::new(600, 340, Mode { width: 3840, height: 2160, refresh_mhz: 60000 });
    assert_eq!(o.logical_size(), (3840, 2160));
    o.scale = 180;
    assert_eq!(o.logical_size(), (2560, 1440));
    assert_eq!(o.preferred_fractional_scale(), 180);
    let _bar = AppBar::new();
    assert_eq!(AsyncError::TaskFailed.message(), "Task execution failed");
}

#[test]
fn backend_startup_waits_then_falls_back() {
    assert_eq!(backend_startup_step(BackendType::Windowed, 0, SessionState::Active), StartupAction::UseWindowed);
    assert_eq!(backend_startup_step(BackendType::Auto, 3, SessionState::Active), StartupAction::UseDrm);
    assert_eq!(backend_startup_step(BackendType::Auto, 3, SessionState::Inactive), StartupAction::Wait);
    assert_eq!(
        backend_startup_step(BackendType::Auto, SEAT_POLL_ATTEMPTS, SessionState::Inactive),
        StartupAction::UseWindowed
    );
    assert_eq!(
        backend_startup_step(BackendType::Drm, SEAT_POLL_ATTEMPTS, SessionState::Inactive),
        StartupAction::Abort
    );
}

#[test]
fn shutdown_drains_gpu_then_closes() {
    let busy = LoopObservation { termination_requested: false, frames_in_flight: 2, open_clients: 1, socket_present: true };
    assert_eq!(loop_step(Phase::Running, busy), (Phase::Running, LoopAction::Dispatch));
    let term = LoopObservation { termination_requested: true, ..busy };
    assert_eq!(loop_step(Phase::Running, term), (Phase::Draining, LoopAction::WaitDeviceIdle));
    assert_eq!(loop_step(Phase::Draining, term), (Phase::Draining, LoopAction::WaitDeviceIdle));
    let idle = LoopObservation { frames_in_flight: 0, ..term };
    assert_eq!(loop_step(Phase::Draining, idle), (Phase::Closing, LoopAction::CloseClients));
    assert_eq!(loop_step(Phase::Closing, idle), (Phase::Closing, LoopAction::CloseClients));
    let no_clients = LoopObservation { open_clients: 0, ..idle };
    assert_eq!(loop_step(Phase::Closing, no_clients), (Phase::Closing, LoopAction::RemoveSocket));
    let done = LoopObservation { socket_present: false, ..no_clients };
    assert_eq!(loop_step(Phase::Closing, done), (Phase::Exited, LoopAction::Exit));
}

#[test]
fn socket_gets_lowest_free_number() {
    assert_eq!(lowest_free_display(&vec![]), 0);
    assert_eq!(lowest_free_display(&vec![0, 1, 3]), 2);
    assert_eq!(lowest_free_display(&vec![2, 0, 1]), 3);
}

#[test]
fn runtime_dir_entries_claim_display_numbers() {
    assert_eq!(display_number("wayland-0"), Some(0));
    assert_eq!(display_number("wayland-12.lock"), Some(12));
    assert_eq!(display_number("wayland-"), None);
    assert_eq!(display_number("wayland-x"), None);
    assert_eq!(display_number("pulse"), None);
    assert_eq!(display_number("wayland-3.lockx"), None);
}

#[test]
fn register_surface_counts_new_surfaces_only() {
    let mut m = SurfaceManager::new();
    assert_eq!(m.register_surface(5), 1);
    assert_eq!(m.surface_count(), 1);
    assert_eq!(m.register_surface(5), 2);
    assert_eq!(m.surface_count(), 1);
    assert_eq!(m.register_surface(6), 3);
    assert_eq!(m.surface_count(), 2);
}
