use rz::bootstrap::build;
use rz::workspace_bootstrap;
use rz::zellij::PaneInfo;

fn pane(id: u64, is_plugin: bool, cmd: Option<&str>, tab: Option<&str>) -> PaneInfo {
    PaneInfo {
        id,
        is_plugin,
        is_focused: false,
        is_floating: false,
        title: String::new(),
        exited: false,
        exit_status: None,
        pane_command: cmd.map(|c| c.to_string()),
        pane_cwd: None,
        tab_id: None,
        tab_name: tab.map(|t| t.to_string()),
    }
}

fn expected(identity: &str, pane_id: &str, rz_path: &str, peers: &str) -> String {
    format!(
        r#"## Multi-Agent Environment

You are agent "{identity}" (pane: {pane_id}) in a multi-agent Zellij session.

### Communication

You have `rz` at `{rz_path}`. Use it to talk to other agents:

```bash
# Send a message to another agent
{rz_path} send <pane_id> "your message"

# Send raw text (no protocol envelope)
{rz_path} send --raw <pane_id> "raw text"

# List all agents
{rz_path} list

# Read another agent's scrollback
{rz_path} dump <pane_id>

# Stream another agent's output in real-time
{rz_path} watch <pane_id>

# Spawn a new agent
{rz_path} spawn <command>

# Broadcast to all agents
{rz_path} broadcast "message"
```

### Active agents

{peers}
### Protocol

When you receive a message starting with `@@RZ:` it is a protocol envelope.
The JSON inside has `from`, `kind`, and `ts` fields. Respond by using
`{rz_path} send <from_pane_id> "your response"`.

Plain text messages (no @@RZ: prefix) are direct human-style instructions."#
    )
}

fn expected_ws_section(ws: &str) -> String {
    format!(
        r#"### Workspace

Shared workspace: `{ws}/shared/` — write large outputs here, not in messages.

**Project files** (read these first, update as you work):

- **`{ws}/goals.md`** — Session objectives. READ on start. Add sub-goals you discover.
- **`{ws}/context.md`** — Decisions and discoveries. APPEND entries as you learn things others should know.
- **`{ws}/agents.md`** — Who's doing what. UPDATE with your pane ID, name, and current task when you start or switch tasks.
"#
    )
}

fn expected_ws(identity: &str, pane_id: &str, rz_path: &str, peers: &str, workspace_section: &str) -> String {
    format!(
        r#"## Multi-Agent Environment

You are agent "{identity}" (pane: {pane_id}) in a multi-agent Zellij session.

You are **long-lived** — you will receive multiple tasks over time, not just one.
After completing a task, report back and wait for the next one. Your context
and knowledge accumulate across tasks, making you more valuable over time.
Do not exit after finishing a task.

### Communication

You have `rz` at `{rz_path}`. Use it to talk to other agents:

```bash
# Send a message to another agent (use just the number)
{rz_path} send <pane_id> "your message"

# Send and block until reply (timeout in seconds)
{rz_path} send --wait 30 <pane_id> "question"

# Reply to a specific message (threading)
{rz_path} send --ref <message_id> <pane_id> "your response"

# List all agents
{rz_path} list

# Session overview with message counts
{rz_path} status

# Read another agent's scrollback (last N lines)
{rz_path} dump <pane_id> --last 50

# View protocol messages only
{rz_path} log <pane_id>

# Broadcast to all agents
{rz_path} broadcast "message"

# Set a timer — you'll get an @@RZ: Timer message when it fires
{rz_path} timer <seconds> "label"
```

{workspace_section}### Active agents

{peers}
### Protocol

When you receive a message starting with `@@RZ:` it is a protocol envelope.
The JSON inside has `from`, `kind`, and `ts` fields. Reply with
`{rz_path} send --ref <message_id> <from_pane_id> "your response"`.

### Working patterns

**Messages vs files.** Keep `rz send` messages short (status updates, questions,
results). Write large outputs (research, code drafts, audit reports) to the
workspace `shared/` directory and send the file path instead.

**Parallel work.** When multiple agents edit code simultaneously, divide by
**file** not by feature. Two agents editing the same file causes conflicts.
Claim your files, finish, then hand off.

**Spawning sub-agents.** You can spawn your own helpers for sub-tasks:
`{rz_path} spawn --name subtask-name -p "focused task description" <command>`
Give sub-agents narrow scope. They report back to you; you report to your caller.

**Situational awareness.** Run `{rz_path} status` or `{rz_path} list` to see
who else is active. Check `{rz_path} log <pane_id>` to catch up on what
another agent has been doing.

**Timers.** Use `{rz_path} timer 300 "check build"` for periodic monitoring,
build checks, or goal reviews. No polling — the hub wakes you up.

**Audits and reviews.** Write findings to the workspace (`shared/audit-*.md`).
Send a short summary via message with the file path. Do NOT fix code outside
your assigned scope — report issues and let the responsible agent fix them.
This prevents merge conflicts and respects file ownership."#
    )
}

#[test]
fn bootstrap_lists_peers() {
    let panes = vec![
        pane(0, false, Some("helper"), Some("main")),
        pane(1, true, Some("rz-hub"), Some("main")),
        pane(2, false, None, None),
        pane(3, false, Some("python"), Some("work")),
    ];
    let text = build("terminal_2", Some("researcher"), "/usr/bin/rz", &panes);
    let peers = "  - terminal_0 (helper, tab: main)\n  - terminal_3 (python, tab: work)\n";
    assert_eq!(text, expected("researcher", "terminal_2", "/usr/bin/rz", peers));
    assert!(text.contains("You are agent \"researcher\" (pane: terminal_2)"));
}

#[test]
fn bootstrap_without_peers_says_none() {
    let panes = vec![pane(2, false, None, None), pane(1, true, None, None)];
    let text = build("terminal_2", None, "rz", &panes);
    assert_eq!(text, expected("terminal_2", "terminal_2", "rz", "  (none)\n"));
    assert_eq!(build("terminal_9", None, "rz", &[]), expected("terminal_9", "terminal_9", "rz", "  (none)\n"));
}

#[test]
fn bootstrap_defaults_for_unknown_command_and_tab() {
    let panes = vec![pane(4, false, None, None)];
    let text = build("terminal_0", None, "rz", &panes);
    assert!(text.contains("  - terminal_4 (shell, tab: -)\n"));
}

#[test]
fn workspace_bootstrap_with_workspace() {
    let panes = vec![pane(0, false, Some("helper"), Some("main")), pane(5, false, Some("bash"), None)];
    let text = workspace_bootstrap::build("terminal_5", None, "/bin/rz", &panes, Some("/tmp/rz-s1"));
    let peers = "  - terminal_0 (helper, tab: main)\n";
    let section = expected_ws_section("/tmp/rz-s1");
    assert_eq!(text, expected_ws("terminal_5", "terminal_5", "/bin/rz", peers, &section));
    assert!(text.contains("Shared workspace: `/tmp/rz-s1/shared/`"));
}

#[test]
fn workspace_bootstrap_without_workspace() {
    let text = workspace_bootstrap::build("terminal_1", Some("lead"), "rz", &[], None);
    assert_eq!(text, expected_ws("lead", "terminal_1", "rz", "  (none)\n", ""));
    assert!(!text.contains("### Workspace"));
}
