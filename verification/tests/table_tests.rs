use rz::session::broadcast_targets;
use rz::table::pane_table;
use rz::zellij::{subscribe, PaneInfo};

fn pane(id: u64, is_plugin: bool) -> PaneInfo {
    PaneInfo {
        id,
        is_plugin,
        is_focused: false,
        is_floating: false,
        title: String::new(),
        exited: false,
        exit_status: None,
        pane_command: None,
        pane_cwd: None,
        tab_id: None,
        tab_name: None,
    }
}

#[test]
fn pane_table_rows() {
    let mut a = pane(0, false);
    a.pane_command = Some("helper".to_string());
    a.tab_name = Some("main".to_string());
    a.pane_cwd = Some("/home/u".to_string());
    let mut b = pane(3, false);
    b.exited = true;
    b.exit_status = Some(-1);
    let mut c = pane(4, false);
    c.exited = true;
    let plugin = pane(1, true);
    let text = pane_table(&[a, plugin, b, c]);
    let mut expected = format!("{:<14} {:<10} {:<20} {:<6} CWD\n", "PANE_ID", "TAB", "COMMAND", "EXIT");
    expected.push_str(&format!("{:<14} {:<10} {:<20} {:<6} {}\n", "terminal_0", "main", "helper", "-", "/home/u"));
    expected.push_str(&format!("{:<14} {:<10} {:<20} {:<6} {}\n", "terminal_3", "-", "-", "-1", "-"));
    expected.push_str(&format!("{:<14} {:<10} {:<20} {:<6} {}\n", "terminal_4", "-", "-", "yes", "-"));
    assert_eq!(text, expected);
}

#[test]
fn pane_table_keeps_long_cells() {
    let mut a = pane(7, false);
    a.pane_command = Some("a-very-long-command-name-indeed".to_string());
    a.tab_name = Some("tabé-ünïcødé".to_string());
    let text = pane_table(&[a]);
    let row = text.lines().nth(1).unwrap().to_string();
    let expected = format!(
        "{:<14} {:<10} {:<20} {:<6} {}",
        "terminal_7", "tabé-ünïcødé", "a-very-long-command-name-indeed", "-", "-"
    );
    assert_eq!(row, expected);
}

#[test]
fn subscribe_arguments() {
    let plain: Vec<String> = vec!["subscribe".into(), "--pane-id".into(), "terminal_2".into()];
    assert_eq!(subscribe("terminal_2", false), plain);
    let mut json = plain.clone();
    json.extend(["--format".to_string(), "json".to_string()]);
    assert_eq!(subscribe("terminal_2", true), json);
}

#[test]
fn broadcast_skips_own_pane() {
    let peers: Vec<String> = vec!["terminal_0".into(), "terminal_2".into(), "terminal_5".into()];
    assert_eq!(
        broadcast_targets(&peers, Some("terminal_2")),
        vec!["terminal_0".to_string(), "terminal_5".to_string()]
    );
    assert_eq!(broadcast_targets(&peers, None), peers);
    assert_eq!(broadcast_targets(&peers, Some("plugin_1")), peers);
    assert!(broadcast_targets(&[], Some("terminal_0")).is_empty());
}

#[test]
fn titled_pane_table_rows() {
    let mut a = pane(0, false);
    a.title = "lead".to_string();
    a.pane_command = Some("helper".to_string());
    a.tab_name = Some("main".to_string());
    a.pane_cwd = Some("/home/u".to_string());
    let mut b = pane(3, false);
    b.exited = true;
    b.exit_status = Some(2);
    let plugin = pane(1, true);
    let text = rz::table::titled_pane_table(&[a, plugin, b], Some("terminal_3"));
    let mut expected = format!(
        "{:<14} {:<16} {:<10} {:<20} {:<6} CWD\n",
        "PANE_ID", "TITLE", "TAB", "COMMAND", "EXIT"
    );
    expected.push_str(&format!(
        "{:<14} {:<16} {:<10} {:<20} {:<6} {}{}\n",
        "terminal_0", "lead", "main", "helper", "-", "/home/u", ""
    ));
    expected.push_str(&format!(
        "{:<14} {:<16} {:<10} {:<20} {:<6} {}{}\n",
        "terminal_3", "-", "-", "-", "2", "-", " *"
    ));
    assert_eq!(text, expected);
}

#[test]
fn titled_pane_table_without_own_pane() {
    let text = rz::table::titled_pane_table(&[pane(5, false)], None);
    assert!(!text.contains(" *"));
    assert_eq!(text.lines().count(), 2);
}
