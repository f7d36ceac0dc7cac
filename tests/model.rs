use rwm::atom::Atom;
use rwm::cli::{Cli, CliCommand};
use rwm::client::{Client, ClientId, ClientState};
use rwm::geometry::Geometry;
use rwm::keybind::{KeybindAction, KeybindTriggered};
use rwm::monitor::Bar;
use rwm::tag::{Gaps, Layout, LayoutKind, Tag};

#[test]
fn atom_names() {
    assert_eq!(Atom::WMProtocols.id(), "WM_PROTOCOLS");
    assert_eq!(Atom::WMDelete.id(), "WM_DELETE_WINDOW");
}

#[test]
fn cli_print_config() {
    let mut cli = Cli { config_file: None, log_dir: None, command: None };
    assert!(!cli.wants_print_config());
    cli.command = Some(CliCommand::PrintConfig);
    assert!(cli.wants_print_config());
}

#[test]
fn client_setters_keep_the_previous_values() {
    let g = Geometry::new(1, 2, 3, 4);
    let mut c = Client::new(ClientId(7), "term".to_string(), 10, 11, g);
    assert_eq!(c.state, ClientState::cleared());
    assert_eq!(c.original_geometry, g);
    let h = Geometry::new(5, 6, 7, 8);
    c.set_geometry(h);
    assert_eq!((c.geometry, c.prev_geometry), (h, g));
    let mut s = ClientState::cleared();
    s.urgent = true;
    c.set_state(s);
    assert_eq!(c.prev_state, ClientState::cleared());
    assert!(c.state.urgent);
    assert!(c.is_targeted_by(11, 0));
    assert!(c.is_targeted_by(0, 10));
    assert!(!c.is_targeted_by(1, 2));
}

#[test]
fn tag_tracks_its_clients() {
    let layout = Layout::new("[]", "test", LayoutKind::Test);
    let mut t = Tag::new(3, "mail".to_string(), layout);
    assert_eq!(t.idx(), 3);
    assert_eq!(t.label(), "mail");
    assert!(!t.state().occupied);
    assert_eq!(t.gaps(), Gaps::default());
    t.push_client(ClientId(1));
    t.push_client(ClientId(2));
    t.push_client(ClientId(1));
    assert!(t.state().occupied);
    t.remove_client(ClientId(1));
    assert_eq!(t.clients(), &vec![ClientId(2)]);
    t.remove_client(ClientId(9));
    assert_eq!(t.clients(), &vec![ClientId(2)]);
    t.remove_client(ClientId(2));
    assert!(t.clients().is_empty());
    assert!(!t.state().occupied);
    t.set_master_factor(550);
    assert_eq!(t.master_factor(), 550);
    t.change_layout(Layout::new("M", "mono", LayoutKind::Test));
    assert_eq!(t.layout().symbol, "M");
}

#[test]
fn tags_are_equal_by_index_and_label() {
    let layout = Layout::new("[]", "test", LayoutKind::Test);
    let mut a = Tag::new(1, "web".to_string(), layout);
    let b = Tag::new(1, "web".to_string(), Layout::new("M", "mono", LayoutKind::Test));
    a.push_client(ClientId(4));
    assert!(a == b);
    assert!(a != Tag::new(2, "web".to_string(), layout));
    assert!(a != Tag::new(1, "www".to_string(), layout));
}

#[test]
fn bar_and_keybind_event() {
    let bar = Bar::new(true, false);
    assert_eq!(bar.window, None);
    assert!(bar.show && !bar.top);
    let ev = KeybindTriggered::new(KeybindAction::Shell("ls".to_string()), Some(ClientId(3)));
    assert_eq!(ev.client(), Some(ClientId(3)));
    assert_eq!(ev.action().duplicate(), KeybindAction::Shell("ls".to_string()));
    assert!(!ev.action().is_toggle_fullscreen());
    assert!(KeybindAction::ToggleFullscreen.is_toggle_fullscreen());
}
