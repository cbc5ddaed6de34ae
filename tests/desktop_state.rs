use compositor::shell::{negotiate_decoration, Configure, ConfigureTracker, DecorationMode, PopupGrab, ShellError};
use compositor::space::{Space, Window};
use compositor::seat::InputManager;
use compositor::layers::{compose_order, usable_area, Area, Edge, Layer, LayerSurfaceInfo};

fn cfg(width: i32) -> Configure {
    Configure { width, height: 600, maximized: false, fullscreen: false, activated: true, decoration: DecorationMode::ServerSide }
}

#[test]
fn later_toplevel_draws_above_until_raised() {
    let mut space = Space::new();
    space.map_window(Window { surface: 1, x: 0, y: 0, width: 400, height: 400 }, true);
    space.map_window(Window { surface: 2, x: 200, y: 200, width: 400, height: 400 }, true);
    assert_eq!(space.stacking_order(), vec![1, 2]);
    assert_eq!(space.window_at(300, 300).map(|w| w.surface), Some(2));
    assert_eq!(space.window_at(100, 100).map(|w| w.surface), Some(1));
    assert!(space.raise(1));
    assert_eq!(space.stacking_order(), vec![2, 1]);
    assert_eq!(space.window_at(300, 300).map(|w| w.surface), Some(1));
    assert_eq!(space.window_at(700, 700), None);
    assert_eq!(space.activated(), Some(2));
}

#[test]
fn unmap_and_visibility() {
    let mut space = Space::new();
    space.map_window(Window { surface: 1, x: 0, y: 0, width: 100, height: 100 }, false);
    space.map_window(Window { surface: 2, x: 5000, y: 0, width: 100, height: 100 }, false);
    let visible = space.visible_on(0, 0, 1920, 1080);
    assert_eq!(visible.len(), 1);
    assert_eq!(visible[0].surface, 1);
    assert!(space.unmap(1));
    assert!(!space.unmap(1));
    assert_eq!(space.stacking_order(), vec![2]);
    assert!(!space.raise(9));
}

#[test]
fn popup_chain_dismissal() {
    let mut grab = PopupGrab::new(10);
    assert_eq!(grab.grab(11, 10), Ok(()));
    assert_eq!(grab.grab(12, 11), Ok(()));
    assert_eq!(grab.focus(), 12);
    // click inside P1, outside P2
    assert_eq!(grab.click(Some(11)), vec![12]);
    assert_eq!(grab.focus(), 11);
    // click outside P1
    assert_eq!(grab.click(Some(10)), vec![11]);
    assert_eq!(grab.focus(), 10);
}

#[test]
fn popup_chain_must_stay_rooted() {
    let mut grab = PopupGrab::new(10);
    assert_eq!(grab.grab(11, 10), Ok(()));
    assert_eq!(grab.grab(12, 10), Err(ShellError::PopupChainBroken { popup: 12, parent: 10 }));
    assert_eq!(grab.grab(12, 11), Ok(()));
    assert_eq!(grab.grab(13, 12), Ok(()));
    assert_eq!(grab.popup_destroyed(12), vec![13, 12]);
    assert_eq!(grab.top(), 11);
    assert!(grab.popup_destroyed(99).is_empty());
    assert_eq!(grab.click(None), vec![11]);
}

#[test]
fn configure_ack_cycle() {
    let mut t = ConfigureTracker::new(5);
    let s1 = t.send_configure(cfg(800));
    let s2 = t.send_configure(cfg(1024));
    assert_eq!((s1, s2), (5, 6));
    assert_eq!(t.ack_configure(9), Err(ShellError::InvalidSerial { serial: 9 }));
    assert_eq!(t.ack_configure(6), Ok(cfg(1024)));
    // serial 5 is older than the latest ack: stale
    assert_eq!(t.ack_configure(5), Err(ShellError::InvalidSerial { serial: 5 }));
    assert_eq!(t.acked(), Some(cfg(1024)));
}

#[test]
fn decoration_defaults_to_server_side() {
    assert_eq!(negotiate_decoration(1), DecorationMode::ClientSide);
    assert_eq!(negotiate_decoration(2), DecorationMode::ServerSide);
    assert_eq!(negotiate_decoration(7), DecorationMode::ServerSide);
}

#[test]
fn focus_is_cleared_when_surface_dies() {
    let mut m = InputManager::new();
    m.set_keyboard_focus(Some(3));
    m.set_pointer_focus(Some(4));
    m.surface_destroyed(3);
    assert_eq!(m.keyboard_focus(), None);
    assert_eq!(m.pointer_focus(), Some(4));
}

#[test]
fn layers_stack_around_windows() {
    let ls = vec![
        LayerSurfaceInfo { surface: 1, layer: Layer::Overlay, edge: None, exclusive_zone: 0 },
        LayerSurfaceInfo { surface: 2, layer: Layer::Background, edge: None, exclusive_zone: 0 },
        LayerSurfaceInfo { surface: 3, layer: Layer::Top, edge: Some(Edge::Top), exclusive_zone: 32 },
        LayerSurfaceInfo { surface: 4, layer: Layer::Bottom, edge: None, exclusive_zone: 0 },
        LayerSurfaceInfo { surface: 5, layer: Layer::Background, edge: None, exclusive_zone: 0 },
    ];
    assert_eq!(compose_order(&ls, &vec![10, 11]), vec![2, 5, 4, 10, 11, 3, 1]);
}

#[test]
fn exclusive_zones_shrink_usable_area() {
    let ls = vec![
        LayerSurfaceInfo { surface: 1, layer: Layer::Top, edge: Some(Edge::Top), exclusive_zone: 32 },
        LayerSurfaceInfo { surface: 2, layer: Layer::Top, edge: Some(Edge::Left), exclusive_zone: 80 },
        LayerSurfaceInfo { surface: 3, layer: Layer::Top, edge: Some(Edge::Bottom), exclusive_zone: -1 },
        LayerSurfaceInfo { surface: 4, layer: Layer::Top, edge: None, exclusive_zone: 500 },
    ];
    assert_eq!(usable_area(1920, 1080, &ls), Area { x: 80, y: 32, width: 1840, height: 1048 });
    let wide = vec![LayerSurfaceInfo { surface: 1, layer: Layer::Top, edge: Some(Edge::Right), exclusive_zone: 5000 }];
    assert_eq!(usable_area(1920, 1080, &wide), Area { x: 0, y: 0, width: 0, height: 1080 });
}
