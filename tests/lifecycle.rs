use rwm::client::ClientId;
use rwm::config::{BorderConfig, ConfigColor, ConfigError, GapsConfig, KeyBinding, KeyboardConfig, MainConfig, TagsConfig};
use rwm::events::{Outcome, X11Event};
use rwm::geometry::Geometry;
use rwm::keybind::KeybindAction;
use rwm::keyboard::{MOD1_MASK, MOD4_MASK};
use rwm::platform::{frame_geometry, reparent_offset, FrameGeometry, ManagedFrame, PlatformError, RWMPlatform, Server};
use rwm::wm::{ManageError, WindowManager};

#[derive(Default)]
struct Mock {
    next_frame: u32,
    next_sequence: u16,
    fail_name: bool,
    pointer: Option<(i32, i32)>,
    calls: Vec<String>,
}

impl RWMPlatform for Mock {
    fn window_name(&mut self, window: u32) -> Result<String, PlatformError> {
        if self.fail_name {
            Err(PlatformError { message: "gone".to_string() })
        } else {
            Ok(format!("window {window}"))
        }
    }

    fn manage(
        &mut self,
        window: u32,
        frame: FrameGeometry,
        offset: i16,
        background: u32,
        root: u32,
    ) -> Result<ManagedFrame, PlatformError> {
        self.next_frame += 1;
        self.next_sequence += 1;
        self.calls.push(format!(
            "manage {window} {} {} {} {} {offset} {background:06x} {root}",
            frame.x, frame.y, frame.width, frame.height
        ));
        Ok(ManagedFrame { frame: 1000 + self.next_frame, sequence: self.next_sequence })
    }

    fn unmanage(&mut self, window: u32, geometry: Geometry, frame: Option<u32>, root: u32) {
        self.calls.push(format!("unmanage {window} {} {} {frame:?} {root}", geometry.x, geometry.y));
    }

    fn update_bordered_client_geometry(&mut self, g: FrameGeometry, offset: i16, window: u32, frame: u32) {
        self.calls.push(format!("bordered {window} {frame} {} {} {} {} {offset}", g.x, g.y, g.width, g.height));
    }

    fn delete_frame(&mut self, geometry: Geometry, window: u32, frame: u32, root: u32) {
        self.calls.push(format!("delete_frame {window} {frame} {} {} {root}", geometry.x, geometry.y));
    }

    fn update_client_geometry(&mut self, g: Geometry, window: u32) {
        self.calls.push(format!("geometry {window} {} {} {} {}", g.x, g.y, g.width, g.height));
    }

    fn move_frame(&mut self, frame: u32, x: i64, y: i64) {
        self.calls.push(format!("move_frame {frame} {x} {y}"));
    }

    fn raise(&mut self, frame: u32) {
        self.calls.push(format!("raise {frame}"));
    }

    fn focus(&mut self, window: u32) {
        self.calls.push(format!("focus {window}"));
    }

    fn ungrab_mouse(&mut self) {
        self.calls.push("ungrab".to_string());
    }

    fn query_pointer(&mut self, _root: u32) -> Option<(i32, i32)> {
        self.pointer
    }
}

const ROOT: u32 = 1;

fn config(bindings: Vec<KeyBinding>) -> MainConfig {
    let mut tags = TagsConfig::default();
    tags.enabled_tags = vec![1, 2];
    tags.label_1 = Some("web".to_string());
    tags.label_2 = Some("code".to_string());
    MainConfig {
        tags,
        keyboard: KeyboardConfig::default(),
        bindings,
        border: BorderConfig {
            enabled: true,
            selected_color: ConfigColor::Hex(0x00ff00),
            inactive_color: ConfigColor::Hex(0x333333),
            width: 2,
        },
        gaps: GapsConfig::default(),
    }
}

fn wm(screens: Vec<(u16, u16)>) -> WindowManager {
    WindowManager::new(config(vec![]), ROOT, &screens).unwrap()
}

fn geometry_of(w: &WindowManager, id: ClientId) -> Geometry {
    w.clients[w.find_client(id).unwrap()].geometry
}

#[test]
fn new_builds_monitors_and_tags() {
    let w = wm(vec![(1920, 1080), (1280, 1024)]);
    assert_eq!(w.monitors.len(), 2);
    assert_eq!(w.monitors[0].dimensions, Geometry::new(0, 0, 1920, 1080));
    assert_eq!(w.monitors[1].dimensions, Geometry::new(1920, 0, 1280, 1024));
    assert_eq!(w.monitors[1].id, 1);
    let labels: Vec<&str> = w.monitors[0].tags.iter().map(|t| t.label().as_str()).collect();
    assert_eq!(labels, vec!["web", "code"]);
    assert_eq!(w.monitors[0].tags[1].idx(), 2);
    assert!(w.clients.is_empty());
}

#[test]
fn new_rejects_an_invalid_configuration() {
    let mut c = config(vec![]);
    c.tags.label_2 = None;
    assert_eq!(WindowManager::new(c, ROOT, &vec![(800, 600)]).err(), Some(ConfigError::MissingLabel(2)));
}

#[test]
fn frame_surrounds_the_client() {
    let f = frame_geometry(Geometry::new(10, 20, 300, 200), 3);
    assert_eq!(f, FrameGeometry { x: 7, y: 17, width: 306, height: 206 });
    assert_eq!(reparent_offset(3), 4);
    assert_eq!(reparent_offset(2), 3);
    assert_eq!(reparent_offset(0), 0);
}

#[test]
fn manage_places_the_window_on_the_overlapping_monitor() {
    let mut w = wm(vec![(100, 100), (100, 100)]);
    // The second monitor lies at (100, 0).
    let mut p = Server::new(Mock::default());
    let id = w.manage(&mut p, 77, Geometry::new(150, 50, 20, 20)).unwrap();
    assert!(w.monitors[0].tags[0].clients().is_empty());
    assert_eq!(w.monitors[1].tags[0].clients(), &vec![id]);
    assert!(w.monitors[1].tags[0].state().occupied);
    assert_eq!(p.platform.calls, vec!["manage 77 148 48 24 24 3 00ff00 1".to_string()]);
    let c = &w.clients[0];
    assert_eq!((c.window, c.frame, c.name.as_str()), (77, 1001, "window 77"));
    assert_eq!(w.ignored.len(), 1);
}

#[test]
fn manage_failures_change_nothing() {
    let mut p = Server::new(Mock::default());
    let mut empty = WindowManager::new(config(vec![]), ROOT, &vec![]).unwrap();
    assert_eq!(empty.manage(&mut p, 5, Geometry::new(0, 0, 10, 10)), Err(ManageError::NoMonitor));

    let mut c = config(vec![]);
    c.tags.enabled_tags = vec![];
    let mut tagless = WindowManager::new(c, ROOT, &vec![(800, 600)]).unwrap();
    assert_eq!(tagless.manage(&mut p, 5, Geometry::new(0, 0, 10, 10)), Err(ManageError::NoTag));

    let mut c = config(vec![]);
    c.border.enabled = false;
    c.border.selected_color = ConfigColor::HexString("nope".to_string());
    let mut colourless = WindowManager::new(c, ROOT, &vec![(800, 600)]).unwrap();
    assert_eq!(
        colourless.manage(&mut p, 5, Geometry::new(0, 0, 10, 10)),
        Err(ManageError::InvalidColor(ConfigError::InvalidHexColor("nope".to_string())))
    );

    let mut w = wm(vec![(800, 600)]);
    let mut failing = Server::new(Mock { fail_name: true, ..Mock::default() });
    assert!(matches!(w.manage(&mut failing, 5, Geometry::new(0, 0, 10, 10)), Err(ManageError::Platform(_))));
    assert!(w.clients.is_empty());
    assert!(w.monitors[0].tags[0].clients().is_empty());
    assert_eq!(w.ignored.len(), 0);
    assert!(p.platform.calls.is_empty());
}

#[test]
fn manage_then_unmanage_restores_the_tag() {
    let mut w = wm(vec![(800, 600)]);
    let mut p = Server::new(Mock::default());
    let a = w.manage(&mut p, 10, Geometry::new(0, 0, 50, 50)).unwrap();
    let b = w.manage(&mut p, 11, Geometry::new(0, 0, 50, 50)).unwrap();
    let before = w.monitors[0].tags[0].clients().clone();
    let c = w.manage(&mut p, 12, Geometry::new(5, 6, 50, 50)).unwrap();
    w.unmanage(&mut p, c);
    assert_eq!(w.monitors[0].tags[0].clients(), &before);
    assert_eq!(before, vec![a, b]);
    assert_eq!(w.clients.len(), 2);
    assert_eq!(p.platform.calls.last().unwrap(), "unmanage 12 5 6 Some(1003) 1");
}

#[test]
fn unmanage_twice_is_harmless() {
    let mut w = wm(vec![(800, 600)]);
    let mut p = Server::new(Mock::default());
    let a = w.manage(&mut p, 10, Geometry::new(0, 0, 50, 50)).unwrap();
    let b = w.manage(&mut p, 11, Geometry::new(0, 0, 50, 50)).unwrap();
    w.unmanage(&mut p, a);
    let calls = p.platform.calls.len();
    w.unmanage(&mut p, a);
    assert_eq!(p.platform.calls.len(), calls);
    assert_eq!(w.monitors[0].tags[0].clients(), &vec![b]);
    assert_eq!(w.clients.len(), 1);
    assert_eq!(w.clients[0].id, b);
    w.unmanage(&mut p, ClientId(999));
    assert_eq!(w.monitors[0].tags[0].clients(), &vec![b]);
}

#[test]
fn fullscreen_round_trip_restores_geometry() {
    let mut w = wm(vec![(1920, 1080)]);
    let mut p = Server::new(Mock::default());
    let id = w.manage(&mut p, 10, Geometry::new(10, 10, 300, 200)).unwrap();
    w.enter_fullscreen(&mut p, id);
    assert_eq!(geometry_of(&w, id), Geometry::new(0, 0, 1920, 1080));
    let c = &w.clients[0];
    assert!(c.state.fullscreen && c.transitioning);
    assert_eq!(c.original_geometry, Geometry::new(10, 10, 300, 200));
    assert_eq!(
        p.platform.calls[1..].to_vec(),
        vec!["delete_frame 10 1001 0 0 1", "geometry 10 0 0 1920 1080", "focus 10"]
    );
    let new = w.exit_fullscreen(&mut p, id).unwrap().unwrap();
    assert_ne!(new, id);
    assert!(w.find_client(id).is_none());
    assert_eq!(geometry_of(&w, new), Geometry::new(10, 10, 300, 200));
    assert!(!w.clients[0].state.fullscreen);
    assert!(w.clients[0].transitioning);
    assert_eq!(w.monitors[0].tags[0].clients(), &vec![new]);
    assert_eq!(p.platform.calls.last().unwrap(), "focus 10");
    assert!(p.platform.calls.contains(&"ungrab".to_string()));
    assert!(p.platform.calls.contains(&"bordered 10 1002 8 8 304 204 3".to_string()));
}

#[test]
fn exit_fullscreen_of_a_windowed_client_does_nothing() {
    let mut w = wm(vec![(1920, 1080)]);
    let mut p = Server::new(Mock::default());
    let id = w.manage(&mut p, 10, Geometry::new(10, 10, 300, 200)).unwrap();
    assert_eq!(w.exit_fullscreen(&mut p, id), None);
    assert_eq!(geometry_of(&w, id), Geometry::new(10, 10, 300, 200));
    assert_eq!(p.platform.calls.len(), 1);
}

#[test]
fn monitors_do_not_overlap() {
    let w = wm(vec![(100, 100), (100, 100), (100, 100)]);
    for i in 0..3 {
        for j in 0..3 {
            if i != j {
                assert_eq!(w.monitors[i].dimensions.overlap(w.monitors[j].dimensions), 0);
            }
        }
    }
    assert_eq!(w.monitors[2].dimensions, Geometry::new(200, 0, 100, 100));
}

#[test]
fn failed_remanage_drops_the_client_only() {
    let mut w = wm(vec![(1920, 1080)]);
    let mut p = Server::new(Mock::default());
    let keep = w.manage(&mut p, 9, Geometry::new(0, 0, 30, 30)).unwrap();
    let id = w.manage(&mut p, 10, Geometry::new(10, 10, 300, 200)).unwrap();
    w.enter_fullscreen(&mut p, id);
    p.platform.fail_name = true;
    let r = w.exit_fullscreen(&mut p, id).unwrap();
    assert!(matches!(r, Err(ManageError::Platform(_))));
    assert!(w.find_client(id).is_none());
    assert_eq!(w.clients.len(), 1);
    assert_eq!(w.clients[0].id, keep);
    assert_eq!(w.monitors[0].tags[0].clients(), &vec![keep]);
    assert_eq!(p.platform.calls.last().unwrap(), "focus 10");
}

#[test]
fn geometry_update_goes_to_the_platform() {
    let mut w = wm(vec![(1920, 1080)]);
    let mut p = Server::new(Mock::default());
    let id = w.manage(&mut p, 10, Geometry::new(10, 20, 300, 200)).unwrap();
    w.update_client_geometry(&mut p, id);
    assert_eq!(p.platform.calls.last().unwrap(), "bordered 10 1001 8 18 304 204 3");
    let n = p.platform.calls.len();
    w.enter_fullscreen(&mut p, id);
    let m = p.platform.calls.len();
    w.update_client_geometry(&mut p, id);
    w.update_client_geometry(&mut p, ClientId(42));
    assert_eq!(p.platform.calls.len(), m);
    assert!(m > n);
}

#[test]
fn toggle_key_binding_flips_fullscreen() {
    let binding = KeyBinding { key: "f".to_string(), modifiers: None, action: KeybindAction::ToggleFullscreen };
    let mut w = WindowManager::new(config(vec![binding]), ROOT, &vec![(1920, 1080)]).unwrap();
    let mut p = Server::new(Mock::default());
    let id = w.manage(&mut p, 10, Geometry::new(10, 10, 300, 200)).unwrap();
    let events = w.handle_key_press(&mut p, 41, Some(0x66), MOD4_MASK);
    assert_eq!(events.len(), 1);
    assert_eq!(events[0].client(), Some(id));
    assert_eq!(events[0].action(), &KeybindAction::ToggleFullscreen);
    assert_eq!(geometry_of(&w, id), Geometry::new(0, 0, 1920, 1080));
    w.handle_key_press(&mut p, 41, Some(0x66), MOD4_MASK);
    assert_eq!(w.clients.len(), 1);
    assert_eq!(w.clients[0].geometry, Geometry::new(10, 10, 300, 200));
    // Wrong modifier: nothing fires.
    assert!(w.handle_key_press(&mut p, 41, Some(0x66), MOD1_MASK).is_empty());
}

#[test]
fn key_binding_without_clients_raises_one_unaddressed_event() {
    let binding = KeyBinding { key: "t".to_string(), modifiers: None, action: KeybindAction::Shell("xterm".to_string()) };
    let mut w = WindowManager::new(config(vec![binding]), ROOT, &vec![(800, 600)]).unwrap();
    let mut p = Server::new(Mock::default());
    let events = w.handle_key_press(&mut p, 28, Some(0x74), MOD4_MASK);
    assert_eq!(events.len(), 1);
    assert_eq!(events[0].client(), None);
    assert_eq!(events[0].action(), &KeybindAction::Shell("xterm".to_string()));
}

#[test]
fn drag_moves_the_client_and_its_frame() {
    let mut w = wm(vec![(1920, 1080)]);
    let mut p = Server::new(Mock::default());
    let id = w.manage(&mut p, 10, Geometry::new(0, 0, 300, 200)).unwrap();
    let frame = w.clients[0].frame;
    // Wrong modifier: stays idle.
    w.handle_button_press(1, MOD1_MASK, frame, 0, -5, -5);
    assert!(w.dragging.is_none());
    // Another button: stays idle.
    w.handle_button_press(3, MOD4_MASK, frame, 0, -5, -5);
    assert!(w.dragging.is_none());
    w.handle_button_press(1, MOD4_MASK, frame, 0, -5, -5);
    let d = w.dragging.unwrap();
    assert_eq!((d.client, d.frame, d.offset_x, d.offset_y), (id, frame, 5, 5));
    w.handle_motion_notify(&mut p, 100, 100);
    assert_eq!(geometry_of(&w, id), Geometry::new(105, 105, 300, 200));
    assert_eq!(w.clients[0].prev_geometry, Geometry::new(0, 0, 300, 200));
    assert_eq!(p.platform.calls.last().unwrap(), &format!("move_frame {frame} 103 103"));
    p.platform.pointer = Some((110, 110));
    w.handle_button_release(&mut p, 1, frame, 0);
    assert!(w.dragging.is_none());
    assert_eq!(p.platform.calls[p.platform.calls.len() - 2..].to_vec(), vec!["ungrab", "focus 10"]);
    // Motion after release moves nothing.
    w.handle_motion_notify(&mut p, 300, 300);
    assert_eq!(geometry_of(&w, id), Geometry::new(105, 105, 300, 200));
}

#[test]
fn fullscreen_client_cannot_be_dragged() {
    let mut w = wm(vec![(1920, 1080)]);
    let mut p = Server::new(Mock::default());
    let id = w.manage(&mut p, 10, Geometry::new(0, 0, 300, 200)).unwrap();
    w.enter_fullscreen(&mut p, id);
    w.handle_button_press(1, MOD4_MASK, 10, 0, -5, -5);
    assert!(w.dragging.is_none());
}

#[test]
fn unmap_during_fullscreen_transition_is_swallowed() {
    let mut w = wm(vec![(1920, 1080)]);
    let mut p = Server::new(Mock::default());
    let id = w.manage(&mut p, 10, Geometry::new(0, 0, 300, 200)).unwrap();
    let frame = w.clients[0].frame;
    w.enter_fullscreen(&mut p, id);
    // The window leaving its frame, reported on the frame.
    w.handle_unmap_notify(&mut p, frame, 10);
    assert!(w.find_client(id).is_some());
    // The frame going, reported on the root.
    w.handle_unmap_notify(&mut p, ROOT, frame);
    assert!(w.find_client(id).is_some());
    // Once the transition is confirmed, a real unmap removes the client.
    w.handle_map_notify(frame);
    assert!(!w.clients[0].transitioning);
    w.handle_unmap_notify(&mut p, ROOT, 10);
    assert!(w.find_client(id).is_none());
    assert!(w.monitors[0].tags[0].clients().is_empty());
    assert_eq!(p.platform.calls.last().unwrap(), "unmanage 10 0 0 None 1");
}

#[test]
fn enter_focuses_and_raises() {
    let mut w = wm(vec![(800, 600)]);
    let mut p = Server::new(Mock::default());
    w.manage(&mut p, 10, Geometry::new(0, 0, 30, 20)).unwrap();
    w.handle_enter_notify(&mut p, 10, 0);
    assert_eq!(p.platform.calls[1..].to_vec(), vec!["focus 10", "raise 1001"]);
    w.handle_enter_notify(&mut p, ROOT, 1);
    assert_eq!(p.platform.calls.len(), 3);
}

#[test]
fn dispatcher_suppresses_own_sequence_numbers() {
    let mut w = wm(vec![(800, 600)]);
    let mut p = Server::new(Mock::default());
    let out = w.handle_event(&mut p, Some(7), X11Event::MapRequest { window: 10, geometry: Geometry::new(0, 0, 30, 20) });
    let id = match out {
        Outcome::Managed(Ok(id)) => id,
        other => panic!("unexpected {other:?}"),
    };
    // The mock numbered the reparent request 1.
    let out = w.handle_event(&mut p, Some(1), X11Event::UnmapNotify { event: ROOT, window: 10 });
    assert!(matches!(out, Outcome::Ignored));
    assert!(w.find_client(id).is_some());
    let out = w.handle_event(&mut p, Some(2), X11Event::UnmapNotify { event: ROOT, window: 10 });
    assert!(matches!(out, Outcome::Handled));
    assert!(w.find_client(id).is_none());
    assert!(matches!(w.handle_event(&mut p, None, X11Event::Error), Outcome::Handled));
}
