use rz::session::{sender_id, workspace_path};
use rz::zellij::{
    close, dump, list_pane_ids, normalize_pane_id, own_pane_id, rename, reset_color, send, set_color, spawn, PaneInfo,
};

fn pane(id: u64, is_plugin: bool) -> PaneInfo {
    PaneInfo {
        id,
        is_plugin,
        is_focused: false,
        is_floating: false,
        title: String::new(),
        exited: false,
        exit_status: None,
        pane_command: None,
        pane_cwd: None,
        tab_id: None,
        tab_name: None,
    }
}

fn strs(v: &[&str]) -> Vec<String> {
    v.iter().map(|s| s.to_string()).collect()
}

#[test]
fn pane_id_of_terminal_and_plugin() {
    assert_eq!(pane(3, false).pane_id(), "terminal_3");
    assert_eq!(pane(1, true).pane_id(), "plugin_1");
    assert_eq!(pane(0, false).pane_id(), "terminal_0");
    assert_eq!(pane(1234567890, false).pane_id(), "terminal_1234567890");
    assert_eq!(pane(u64::MAX, true).pane_id(), format!("plugin_{}", u64::MAX));
}

#[test]
fn list_pane_ids_excludes_plugins() {
    let panes = vec![pane(0, false), pane(1, true), pane(2, false), pane(7, true), pane(10, false)];
    assert_eq!(list_pane_ids(&panes), strs(&["terminal_0", "terminal_2", "terminal_10"]));
    assert!(list_pane_ids(&[]).is_empty());
    assert!(list_pane_ids(&[pane(4, true)]).is_empty());
}

#[test]
fn own_pane_id_normalizes() {
    assert_eq!(own_pane_id(Some("3")), Some("terminal_3".to_string()));
    assert_eq!(own_pane_id(Some("terminal_5")), Some("terminal_5".to_string()));
    assert_eq!(own_pane_id(Some("plugin_2")), Some("plugin_2".to_string()));
    assert_eq!(own_pane_id(Some("")), Some("terminal_".to_string()));
    assert_eq!(own_pane_id(Some("terminal")), Some("terminal_terminal".to_string()));
    assert_eq!(own_pane_id(None), None);
}

#[test]
fn own_pane_id_keeps_full_ids() {
    for p in [pane(9, false), pane(12, true)] {
        let id = p.pane_id();
        assert_eq!(own_pane_id(Some(&id)), Some(id.clone()));
        let again = own_pane_id(Some("42")).unwrap();
        assert_eq!(own_pane_id(Some(&again)), Some(again.clone()));
    }
}

#[test]
fn sender_id_prefers_explicit_sender() {
    assert_eq!(sender_id(Some("orchestrator"), Some("3")), "orchestrator");
    assert_eq!(sender_id(None, Some("3")), "terminal_3");
    assert_eq!(sender_id(None, Some("plugin_4")), "plugin_4");
    assert_eq!(sender_id(None, None), "unknown");
}

#[test]
fn workspace_path_is_under_tmp() {
    assert_eq!(workspace_path("main"), "/tmp/rz-main");
    assert_eq!(workspace_path(""), "/tmp/rz-");
}

#[test]
fn send_pastes_then_submits() {
    let (paste, submit) = send("terminal_3", "hello there");
    assert_eq!(paste, strs(&["action", "paste", "--pane-id", "terminal_3", "hello there"]));
    assert_eq!(submit, strs(&["action", "write", "--pane-id", "terminal_3", "13"]));
}

#[test]
fn spawn_arguments() {
    assert_eq!(spawn("helper", &[], None), strs(&["run", "--", "helper"]));
    assert_eq!(
        spawn("python", &["agent.py", "-v"], Some("researcher")),
        strs(&["run", "--name", "researcher", "--", "python", "agent.py", "-v"])
    );
}

#[test]
fn pane_lifecycle_arguments() {
    assert_eq!(close("terminal_1"), strs(&["action", "close-pane", "--pane-id", "terminal_1"]));
    assert_eq!(
        rename("terminal_1", "worker"),
        strs(&["action", "rename-pane", "--pane-id", "terminal_1", "worker"])
    );
    assert_eq!(
        reset_color("terminal_1"),
        strs(&["action", "set-pane-color", "--pane-id", "terminal_1", "--reset"])
    );
    assert_eq!(
        dump("terminal_1"),
        strs(&["action", "dump-screen", "--pane-id", "terminal_1", "--full"])
    );
}

#[test]
fn set_color_arguments() {
    assert_eq!(
        set_color("terminal_3", None, Some("#003366")),
        strs(&["action", "set-pane-color", "--pane-id", "terminal_3", "--bg", "#003366"])
    );
    assert_eq!(
        set_color("terminal_3", Some("#00e000"), Some("#001a3a")),
        strs(&["action", "set-pane-color", "--pane-id", "terminal_3", "--fg", "#00e000", "--bg", "#001a3a"])
    );
    assert_eq!(
        set_color("terminal_3", Some("#00e000"), None),
        strs(&["action", "set-pane-color", "--pane-id", "terminal_3", "--fg", "#00e000"])
    );
    assert_eq!(
        set_color("terminal_3", None, None),
        strs(&["action", "set-pane-color", "--pane-id", "terminal_3"])
    );
}

#[test]
fn normalize_pane_id_shorthand() {
    assert_eq!(normalize_pane_id("3"), "terminal_3");
    assert_eq!(normalize_pane_id("terminal_3"), "terminal_3");
    assert_eq!(normalize_pane_id("plugin_1"), "plugin_1");
}

#[test]
fn bootstrap_wait_over_cases() {
    let f = rz::session::bootstrap_wait_over;
    assert!(f(8000, 8000, None));
    assert!(f(9000, 8000, Some("")));
    assert!(!f(100, 8000, None));
    assert!(!f(100, 8000, Some("")));
    assert!(!f(100, 8000, Some(" \n\t\r\u{a0}\u{3000}\u{2029}")));
    assert!(f(100, 8000, Some("\n  $ ")));
    assert!(f(0, 1, Some("x")));
    for s in ["", " ", "\u{85}", "\u{200b}", "\u{feff}", "a", "\u{180e}", "\u{2007}"] {
        assert_eq!(!f(0, 1, Some(s)), s.trim().is_empty(), "{:?}", s);
    }
}
