use rz::protocol::SENTINEL;
use rz::status::{count_messages, format_summary, summarize, PaneStatus, StatusSummary};
use rz::zellij::PaneInfo;

fn pane(id: u64, title: &str, exited: bool, exit_status: Option<i32>, cmd: Option<&str>) -> PaneInfo {
    PaneInfo {
        id,
        is_plugin: false,
        is_focused: false,
        is_floating: false,
        title: title.to_string(),
        exited,
        exit_status,
        pane_command: cmd.map(|c| c.to_string()),
        pane_cwd: None,
        tab_id: None,
        tab_name: None,
    }
}

#[test]
fn sentinel_text() {
    assert_eq!(SENTINEL, "@@RZ:");
}

#[test]
fn count_messages_counts_marked_lines() {
    assert_eq!(count_messages(""), 0);
    assert_eq!(count_messages("hello\nworld\n"), 0);
    assert_eq!(count_messages("@@RZ:{}"), 1);
    assert_eq!(count_messages("a @@RZ:x @@RZ:y\nb\n@@RZ:z\n"), 2);
    assert_eq!(count_messages("@@RZ:a\r\n@@RZ:b\r\nplain\r\n"), 2);
    assert_eq!(count_messages("@@RZ\n:\n@@R Z:"), 0);
    assert_eq!(count_messages("@@@RZ:"), 1);
    assert_eq!(count_messages("\n\n\n@@RZ:"), 1);
}

#[test]
fn count_messages_adds_over_lines() {
    let a = "x @@RZ:1\nplain";
    let b = "@@RZ:2\n@@RZ:3";
    let joined = format!("{a}\n{b}");
    assert_eq!(count_messages(&joined), count_messages(a) + count_messages(b));
    assert_eq!(count_messages(&joined), 3);
}

#[test]
fn summarize_counts_and_describes_panes() {
    let panes = vec![
        pane(0, "main", false, None, Some("/usr/bin/helper")),
        pane(3, "worker", true, Some(1), Some("python")),
        pane(5, "", true, None, None),
    ];
    let summary = summarize(&panes, |id| match id {
        "terminal_0" => Some("@@RZ:a\nfoo\n@@RZ:b\n".to_string()),
        "terminal_3" => Some("nothing".to_string()),
        _ => None,
    });
    assert_eq!(summary.total, 3);
    assert_eq!(summary.running, 1);
    assert_eq!(summary.exited, 2);
    assert_eq!(summary.panes.len(), 3);
    let p0 = &summary.panes[0];
    assert_eq!(p0.pane_id, "terminal_0");
    assert_eq!(p0.title, "main");
    assert_eq!(p0.command, "helper");
    assert!(p0.running);
    assert_eq!(p0.exit_status, None);
    assert_eq!(p0.message_count, 2);
    let p1 = &summary.panes[1];
    assert_eq!(p1.command, "python");
    assert!(!p1.running);
    assert_eq!(p1.exit_status, Some(1));
    assert_eq!(p1.message_count, 0);
    let p2 = &summary.panes[2];
    assert_eq!(p2.command, "-");
    assert_eq!(p2.message_count, 0);
}

#[test]
fn summarize_basename_edge_cases() {
    let panes = vec![
        pane(1, "", false, None, Some("dir/")),
        pane(2, "", false, None, Some("/")),
        pane(3, "", false, None, Some("a/b/c d")),
    ];
    let summary = summarize(&panes, |_| None);
    assert_eq!(summary.panes[0].command, "");
    assert_eq!(summary.panes[1].command, "");
    assert_eq!(summary.panes[2].command, "c d");
}

#[test]
fn summarize_empty() {
    let summary = summarize(&[], |_| None);
    assert_eq!(summary.total, 0);
    assert_eq!(summary.running, 0);
    assert_eq!(summary.exited, 0);
    assert_eq!(format_summary(&summary), "0 panes (0 running, 0 exited)\n");
}

#[test]
fn format_summary_lines() {
    let summary = StatusSummary {
        total: 3,
        running: 1,
        exited: 2,
        panes: vec![
            PaneStatus {
                pane_id: "terminal_0".to_string(),
                title: "main".to_string(),
                command: "helper".to_string(),
                running: true,
                exit_status: None,
                message_count: 12,
            },
            PaneStatus {
                pane_id: "terminal_3".to_string(),
                title: "worker".to_string(),
                command: "python".to_string(),
                running: false,
                exit_status: Some(-2),
                message_count: 0,
            },
            PaneStatus {
                pane_id: "terminal_5".to_string(),
                title: "".to_string(),
                command: "-".to_string(),
                running: false,
                exit_status: None,
                message_count: 1,
            },
        ],
    };
    assert_eq!(
        format_summary(&summary),
        "3 panes (1 running, 2 exited)\n  terminal_0 | main | helper | running | 12 msgs\n  terminal_3 | worker | python | exited (-2) | 0 msgs\n  terminal_5 |  | - | exited | 1 msgs\n"
    );
}

#[test]
fn format_summary_extreme_exit_codes() {
    let summary = StatusSummary {
        total: 1,
        running: 0,
        exited: 1,
        panes: vec![PaneStatus {
            pane_id: "terminal_1".to_string(),
            title: "t".to_string(),
            command: "c".to_string(),
            running: false,
            exit_status: Some(i32::MIN),
            message_count: 0,
        }],
    };
    assert_eq!(
        format_summary(&summary),
        "1 panes (0 running, 1 exited)\n  terminal_1 | t | c | exited (-2147483648) | 0 msgs\n"
    );
}
