//! Bootstrap message for agents of a session that may have a shared workspace.
//!
//! Beside what [`crate::bootstrap`] tells a new agent, this text asks it to stay
//! for several tasks and, when the session's workspace exists, points it at the
//! workspace's shared files.

use vstd::prelude::*;
use vstd::string::*;

use crate::bootstrap::{identity_of, peer_section, peers};
use crate::text::owned;
use crate::zellij::PaneInfo;

verus! {

/// The workspace section for the workspace directory `ws`.
pub open spec fn workspace_text(ws: Seq<char>) -> Seq<char> {
    r#"### Workspace

Shared workspace: `"#@
        + ws
        + r#"/shared/` — write large outputs here, not in messages.

**Project files** (read these first, update as you work):

- **`"#@
        + ws
        + r#"/goals.md`** — Session objectives. READ on start. Add sub-goals you discover.
- **`"#@
        + ws
        + r#"/context.md`** — Decisions and discoveries. APPEND entries as you learn things others should know.
- **`"#@
        + ws
        + r#"/agents.md`** — Who's doing what. UPDATE with your pane ID, name, and current task when you start or switch tasks.
"#@
}

/// The workspace section: present only when the session has a workspace.
pub open spec fn workspace_section(workspace: Option<&str>) -> Seq<char> {
    match workspace {
        Some(ws) => workspace_text(ws@),
        None => Seq::empty(),
    }
}

fn section(workspace: Option<&str>) -> (r: String)
    ensures
        r@ == workspace_section(workspace),
{
    match workspace {
        Some(ws) => {
            let mut out = owned(r#"### Workspace

Shared workspace: `"#);
            out.append(ws);
            out.append(r#"/shared/` — write large outputs here, not in messages.

**Project files** (read these first, update as you work):

- **`"#);
            out.append(ws);
            out.append(r#"/goals.md`** — Session objectives. READ on start. Add sub-goals you discover.
- **`"#);
            out.append(ws);
            out.append(r#"/context.md`** — Decisions and discoveries. APPEND entries as you learn things others should know.
- **`"#);
            out.append(ws);
            out.append(r#"/agents.md`** — Who's doing what. UPDATE with your pane ID, name, and current task when you start or switch tasks.
"#);
            assert(out@ =~= workspace_text(ws@));
            out
        },
        None => String::new(),
    }
}

/// The bootstrap text for the agent `identity` in pane `pane_id`, with `rz` at
/// `rz_path`, the workspace section `workspace_section` and the active-agents
/// section `peers`.
pub open spec fn bootstrap_text(
    identity: Seq<char>,
    pane_id: Seq<char>,
    rz_path: Seq<char>,
    workspace_section: Seq<char>,
    peers: Seq<char>,
) -> Seq<char> {
    r#"## Multi-Agent Environment

You are agent ""#@
        + identity
        + r#"" (pane: "#@
        + pane_id
        + r#") in a multi-agent Zellij session.

You are **long-lived** — you will receive multiple tasks over time, not just one.
After completing a task, report back and wait for the next one. Your context
and knowledge accumulate across tasks, making you more valuable over time.
Do not exit after finishing a task.

### Communication

You have `rz` at `"#@
        + rz_path
        + r#"`. Use it to talk to other agents:

```bash
# Send a message to another agent (use just the number)
"#@
        + rz_path
        + r#" send <pane_id> "your message"

# Send and block until reply (timeout in seconds)
"#@
        + rz_path
        + r#" send --wait 30 <pane_id> "question"

# Reply to a specific message (threading)
"#@
        + rz_path
        + r#" send --ref <message_id> <pane_id> "your response"

# List all agents
"#@
        + rz_path
        + r#" list

# Session overview with message counts
"#@
        + rz_path
        + r#" status

# Read another agent's scrollback (last N lines)
"#@
        + rz_path
        + r#" dump <pane_id> --last 50

# View protocol messages only
"#@
        + rz_path
        + r#" log <pane_id>

# Broadcast to all agents
"#@
        + rz_path
        + r#" broadcast "message"

# Set a timer — you'll get an @@RZ: Timer message when it fires
"#@
        + rz_path
        + r#" timer <seconds> "label"
```

"#@
        + workspace_section
        + r#"### Active agents

"#@
        + peers
        + r#"
### Protocol

When you receive a message starting with `@@RZ:` it is a protocol envelope.
The JSON inside has `from`, `kind`, and `ts` fields. Reply with
`"#@
        + rz_path
        + r#" send --ref <message_id> <from_pane_id> "your response"`.

### Working patterns

**Messages vs files.** Keep `rz send` messages short (status updates, questions,
results). Write large outputs (research, code drafts, audit reports) to the
workspace `shared/` directory and send the file path instead.

**Parallel work.** When multiple agents edit code simultaneously, divide by
**file** not by feature. Two agents editing the same file causes conflicts.
Claim your files, finish, then hand off.

**Spawning sub-agents.** You can spawn your own helpers for sub-tasks:
`"#@
        + rz_path
        + r#" spawn --name subtask-name -p "focused task description" <command>`
Give sub-agents narrow scope. They report back to you; you report to your caller.

**Situational awareness.** Run `"#@
        + rz_path
        + r#" status` or `"#@
        + rz_path
        + r#" list` to see
who else is active. Check `"#@
        + rz_path
        + r#" log <pane_id>` to catch up on what
another agent has been doing.

**Timers.** Use `"#@
        + rz_path
        + r#" timer 300 "check build"` for periodic monitoring,
build checks, or goal reviews. No polling — the hub wakes you up.

**Audits and reviews.** Write findings to the workspace (`shared/audit-*.md`).
Send a short summary via message with the file path. Do NOT fix code outside
your assigned scope — report issues and let the responsible agent fix them.
This prevents merge conflicts and respects file ownership."#@
}

/// Build bootstrap instructions for a newly spawned agent in pane `pane_id`,
/// named `name` when it has a name, given the session's panes and the session
/// workspace directory when that directory exists.
///
/// Includes: identity, how to communicate, the workspace, who else is running.
pub fn build(
    pane_id: &str,
    name: Option<&str>,
    rz_path: &str,
    panes: &[PaneInfo],
    workspace: Option<&str>,
) -> (r: String)
    ensures
        r@ == bootstrap_text(
            identity_of(pane_id, name),
            pane_id@,
            rz_path@,
            workspace_section(workspace),
            peer_section(panes@, pane_id@),
        ),
{
    let identity = match name {
        Some(n) => n,
        None => pane_id,
    };
    let peers = peers(panes, pane_id);
    let workspace_section = section(workspace);
    let mut out = owned(r#"## Multi-Agent Environment

You are agent ""#);
    out.append(identity);
    out.append(r#"" (pane: "#);
    out.append(pane_id);
    out.append(r#") in a multi-agent Zellij session.

You are **long-lived** — you will receive multiple tasks over time, not just one.
After completing a task, report back and wait for the next one. Your context
and knowledge accumulate across tasks, making you more valuable over time.
Do not exit after finishing a task.

### Communication

You have `rz` at `"#);
    out.append(rz_path);
    out.append(r#"`. Use it to talk to other agents:

```bash
# Send a message to another agent (use just the number)
"#);
    out.append(rz_path);
    out.append(r#" send <pane_id> "your message"

# Send and block until reply (timeout in seconds)
"#);
    out.append(rz_path);
    out.append(r#" send --wait 30 <pane_id> "question"

# Reply to a specific message (threading)
"#);
    out.append(rz_path);
    out.append(r#" send --ref <message_id> <pane_id> "your response"

# List all agents
"#);
    out.append(rz_path);
    out.append(r#" list

# Session overview with message counts
"#);
    out.append(rz_path);
    out.append(r#" status

# Read another agent's scrollback (last N lines)
"#);
    out.append(rz_path);
    out.append(r#" dump <pane_id> --last 50

# View protocol messages only
"#);
    out.append(rz_path);
    out.append(r#" log <pane_id>

# Broadcast to all agents
"#);
    out.append(rz_path);
    out.append(r#" broadcast "message"

# Set a timer — you'll get an @@RZ: Timer message when it fires
"#);
    out.append(rz_path);
    out.append(r#" timer <seconds> "label"
```

"#);
    out.append(workspace_section.as_str());
    out.append(r#"### Active agents

"#);
    out.append(peers.as_str());
    out.append(r#"
### Protocol

When you receive a message starting with `@@RZ:` it is a protocol envelope.
The JSON inside has `from`, `kind`, and `ts` fields. Reply with
`"#);
    out.append(rz_path);
    out.append(r#" send --ref <message_id> <from_pane_id> "your response"`.

### Working patterns

**Messages vs files.** Keep `rz send` messages short (status updates, questions,
results). Write large outputs (research, code drafts, audit reports) to the
workspace `shared/` directory and send the file path instead.

**Parallel work.** When multiple agents edit code simultaneously, divide by
**file** not by feature. Two agents editing the same file causes conflicts.
Claim your files, finish, then hand off.

**Spawning sub-agents.** You can spawn your own helpers for sub-tasks:
`"#);
    out.append(rz_path);
    out.append(r#" spawn --name subtask-name -p "focused task description" <command>`
Give sub-agents narrow scope. They report back to you; you report to your caller.

**Situational awareness.** Run `"#);
    out.append(rz_path);
    out.append(r#" status` or `"#);
    out.append(rz_path);
    out.append(r#" list` to see
who else is active. Check `"#);
    out.append(rz_path);
    out.append(r#" log <pane_id>` to catch up on what
another agent has been doing.

**Timers.** Use `"#);
    out.append(rz_path);
    out.append(r#" timer 300 "check build"` for periodic monitoring,
build checks, or goal reviews. No polling — the hub wakes you up.

**Audits and reviews.** Write findings to the workspace (`shared/audit-*.md`).
Send a short summary via message with the file path. Do NOT fix code outside
your assigned scope — report issues and let the responsible agent fix them.
This prevents merge conflicts and respects file ownership."#);
    assert(out@ =~= bootstrap_text(identity@, pane_id@, rz_path@, workspace_section@, peers@));
    out
}

} // verus!
