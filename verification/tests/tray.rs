use hindsight_desktop::tray::{
    needs_version, on_menu_event, render, shutting_down_label, start_clicked_view, MenuCommand,
    StatusMonitor, TrayIcon, TrayState,
};

#[test]
fn running_shows_port_and_version() {
    let v = render(true, false, &Some("0.8.2".to_string()));
    assert_eq!(v.label, "● Hindsight — running (:8899) · API v0.8.2");
    assert_eq!(v.icon, TrayIcon::Running);
    assert!(!v.start_enabled);
}

#[test]
fn running_without_version() {
    let v = render(true, true, &None);
    assert_eq!(v.label, "● Hindsight — running (:8899)");
    assert_eq!(v.icon, TrayIcon::Running);
    assert!(!v.start_enabled);
}

#[test]
fn starting_and_stopped() {
    let v = render(false, true, &None);
    assert_eq!(v.label, "◐ Hindsight — starting…");
    assert_eq!(v.icon, TrayIcon::Starting);
    assert!(!v.start_enabled);
    let v = render(false, false, &Some("1".to_string()));
    assert_eq!(v.label, "○ Hindsight — stopped");
    assert_eq!(v.icon, TrayIcon::Stopped);
    assert!(v.start_enabled);
}

#[test]
fn quit_label() {
    assert_eq!(shutting_down_label(), "○ Hindsight — shutting down…");
}

#[test]
fn menu_ids_map_to_commands() {
    assert_eq!(on_menu_event("start"), MenuCommand::Start);
    assert_eq!(on_menu_event("control"), MenuCommand::OpenControlCenter);
    assert_eq!(on_menu_event("quit"), MenuCommand::Quit);
    assert_eq!(on_menu_event("status"), MenuCommand::Ignore);
    assert_eq!(on_menu_event("Start"), MenuCommand::Ignore);
    assert_eq!(on_menu_event(""), MenuCommand::Ignore);
}

fn state(up: bool, starting: bool, version: Option<&str>) -> TrayState {
    TrayState { up, starting, version: version.map(|v| v.to_string()) }
}

#[test]
fn monitor_repaints_only_on_change() {
    let mut m = StatusMonitor::new();
    assert!(m.observe(state(false, false, None)));
    assert!(!m.observe(state(false, false, None)));
    assert!(m.observe(state(false, true, None)));
    assert!(m.observe(state(true, true, Some("1"))));
    assert!(!m.observe(state(true, true, Some("1"))));
    assert!(m.observe(state(true, true, Some("2"))));
    assert!(m.observe(state(true, true, None)));
    assert!(m.observe(state(true, false, None)));
}

#[test]
fn start_click_paints_starting_at_once() {
    let v = start_clicked_view();
    assert_eq!(v.label, "◐ Hindsight — starting…");
    assert_eq!(v.icon, TrayIcon::Starting);
    assert!(!v.start_enabled);
}

#[test]
fn version_only_while_up() {
    assert!(needs_version(true));
    assert!(!needs_version(false));
    let s = TrayState::observed(false, true, Some("1".to_string()));
    assert_eq!(s.version, None);
    assert!(!s.up && s.starting);
    let s = TrayState::observed(true, false, Some("1".to_string()));
    assert_eq!(s.version, Some("1".to_string()));
}
