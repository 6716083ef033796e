use rz::hub::{HubEvent, HubState};

#[test]
fn hub_starts_clean() {
    let hub = HubState::new();
    assert_eq!(hub.plugin_id, 0);
    assert!(!hub.dirty);
    assert_eq!(hub.next_timer_id, 1);
}

#[test]
fn hub_hides_unless_visible() {
    let mut hub = HubState::new();
    assert!(hub.load(7, None));
    assert_eq!(hub.plugin_id, 7);
    assert!(hub.load(8, Some("false")));
    assert!(hub.load(8, Some("TRUE")));
    assert!(!hub.load(9, Some("true")));
    assert_eq!(hub.plugin_id, 9);
}

#[test]
fn pane_updates_mark_dirty_until_render() {
    let mut hub = HubState::new();
    assert!(!hub.update(&HubEvent::Timer));
    assert!(!hub.update(&HubEvent::PermissionRequestResult));
    assert!(hub.update(&HubEvent::PaneUpdate));
    assert!(hub.update(&HubEvent::Other));
    hub.render();
    assert!(!hub.dirty);
    assert!(!hub.update(&HubEvent::Other));
}

#[test]
fn pipe_routes_only_hub_messages() {
    let mut hub = HubState::new();
    hub.update(&HubEvent::PaneUpdate);
    let d = hub.pipe("other", Some("register"));
    assert!(!d.route);
    assert!(!d.render);
    assert!(hub.dirty);

    let d = hub.pipe("rz", Some("send"));
    assert!(d.route);
    assert!(!d.render);
    assert!(!hub.dirty);

    let d = hub.pipe("rz", Some("register"));
    assert!(d.route && d.render);
    let d = hub.pipe("rz", Some("unregister"));
    assert!(d.route && d.render);
    let d = hub.pipe("rz", None);
    assert!(d.route && !d.render);
}
