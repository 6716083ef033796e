//! Bootstrap message sent to newly spawned agents.

use vstd::prelude::*;
use vstd::string::*;

use crate::text::owned;
use crate::zellij::PaneInfo;

verus! {

/// The text of an optional string, or `default` when there is none.
pub open spec fn text_or(s: Option<String>, default: Seq<char>) -> Seq<char> {
    match s {
        Some(t) => t@,
        None => default,
    }
}

/// `p` is listed as a peer of the agent in pane `own_id`: a terminal pane other than its own.
pub open spec fn is_peer(p: PaneInfo, own_id: Seq<char>) -> bool {
    !p.is_plugin && p.full_id() != own_id
}

/// The line that lists one peer: its pane ID, command (`shell` when unknown)
/// and tab (`-` when unknown).
pub open spec fn peer_line(p: PaneInfo) -> Seq<char> {
    "  - "@ + p.full_id() + " ("@ + text_or(p.pane_command, "shell"@) + ", tab: "@ + text_or(
        p.tab_name,
        "-"@,
    ) + ")\n"@
}

/// The lines of all peers among `panes`, in order.
pub open spec fn peer_lines(panes: Seq<PaneInfo>, own_id: Seq<char>) -> Seq<char>
    decreases panes.len(),
{
    if panes.len() == 0 {
        Seq::empty()
    } else if is_peer(panes.last(), own_id) {
        peer_lines(panes.drop_last(), own_id) + peer_line(panes.last())
    } else {
        peer_lines(panes.drop_last(), own_id)
    }
}

/// The active-agents section: the peer lines, or `  (none)` when there are no peers.
pub open spec fn peer_section(panes: Seq<PaneInfo>, own_id: Seq<char>) -> Seq<char> {
    if peer_lines(panes, own_id).len() == 0 {
        "  (none)\n"@
    } else {
        peer_lines(panes, own_id)
    }
}

/// The name an agent is addressed by: its pane name when it has one, else its pane ID.
pub open spec fn identity_of(pane_id: &str, name: Option<&str>) -> Seq<char> {
    match name {
        Some(n) => n@,
        None => pane_id@,
    }
}

/// The active-agents section says `(none)` exactly when no pane is a peer:
/// plugin panes and the agent's own pane are never listed.
pub proof fn lemma_no_peers_iff_none_listed(panes: Seq<PaneInfo>, own_id: Seq<char>)
    ensures
        (peer_lines(panes, own_id).len() == 0) <==> (forall|k: int|
            0 <= k < panes.len() ==> !is_peer(#[trigger] panes[k], own_id)),
    decreases panes.len(),
{
    if panes.len() > 0 {
        let rest = panes.drop_last();
        lemma_no_peers_iff_none_listed(rest, own_id);
        if is_peer(panes.last(), own_id) {
            assert(peer_line(panes.last()).len() > 0);
            assert(!is_peer(panes[panes.len() - 1], own_id) == false);
        } else {
            assert(peer_lines(panes, own_id) == peer_lines(rest, own_id));
            if peer_lines(rest, own_id).len() == 0 {
                assert forall|k: int| 0 <= k < panes.len() implies !is_peer(#[trigger] panes[k], own_id) by {
                    if k < panes.len() - 1 {
                        assert(rest[k] == panes[k]);
                    }
                }
            } else {
                let w = choose|k: int| 0 <= k < rest.len() && is_peer(#[trigger] rest[k], own_id);
                assert(rest[w] == panes[w]);
            }
        }
    }
}

proof fn lemma_map_push<A, B>(s: Seq<A>, x: A, f: spec_fn(A) -> B)
    ensures
        s.push(x).map_values(f) == s.map_values(f).push(f(x)),
{
    assert(s.push(x).map_values(f) =~= s.map_values(f).push(f(x)));
}

/// The peer lines are the lines of every terminal pane other than the agent's
/// own, in order, whatever else is known of those panes (focus, floating, exit).
pub proof fn lemma_peers_are_other_terminals(panes: Seq<PaneInfo>, own_id: Seq<char>)
    ensures
        peer_lines(panes, own_id) == panes.filter(
            |p: PaneInfo| !p.is_plugin && p.full_id() != own_id,
        ).map_values(|p: PaneInfo| peer_line(p)).flatten(),
        peer_section(panes, own_id) == if panes.filter(
            |p: PaneInfo| !p.is_plugin && p.full_id() != own_id,
        ).len() == 0 {
            "  (none)\n"@
        } else {
            peer_lines(panes, own_id)
        },
    decreases panes.len(),
{
    let pred = |p: PaneInfo| !p.is_plugin && p.full_id() != own_id;
    let f = |p: PaneInfo| peer_line(p);
    if panes.len() == 0 {
        reveal(Seq::filter);
        assert(panes.filter(pred).map_values(f) =~= Seq::<Seq<char>>::empty());
    } else {
        let init = panes.drop_last();
        let x = panes.last();
        lemma_peers_are_other_terminals(init, own_id);
        assert(init.push(x) =~= panes);
        init.lemma_filter_push(x, pred);
        if pred(x) {
            lemma_map_push(init.filter(pred), x, f);
            init.filter(pred).map_values(f).lemma_flatten_push(peer_line(x));
            assert(peer_line(x).len() > 0);
        }
    }
    lemma_no_peers_iff_none_listed(panes, own_id);
    if peer_lines(panes, own_id).len() == 0 {
        if panes.filter(pred).len() != 0 {
            let q = panes.filter(pred)[0];
            panes.lemma_filter_pred(pred, 0);
            panes.lemma_filter_contains_rev(pred, q);
            let k = choose|k: int| 0 <= k < panes.len() && panes[k] == q;
            assert(is_peer(panes[k], own_id));
        }
    } else {
        if panes.filter(pred).len() == 0 {
            let k = choose|k: int| 0 <= k < panes.len() && is_peer(#[trigger] panes[k], own_id);
            panes.lemma_filter_contains(pred, k);
        }
    }
}

/// Lists the peers of the agent in pane `pane_id`.
pub fn peers(panes: &[PaneInfo], pane_id: &str) -> (r: String)
    ensures
        r@ == peer_section(panes@, pane_id@),
{
    let own = owned(pane_id);
    let mut out = String::new();
    let mut i: usize = 0;
    while i < panes.len()
        invariant
            i <= panes@.len(),
            own@ == pane_id@,
            out@ == peer_lines(panes@.take(i as int), pane_id@),
        decreases panes@.len() - i,
    {
        let p = &panes[i];
        assert(panes@.take(i + 1).drop_last() =~= panes@.take(i as int));
        let id = p.pane_id();
        if !p.is_plugin && !(id == own) {
            let ghost before = out@;
            out.append("  - ");
            out.append(id.as_str());
            out.append(" (");
            match &p.pane_command {
                Some(c) => out.append(c.as_str()),
                None => out.append("shell"),
            }
            out.append(", tab: ");
            match &p.tab_name {
                Some(t) => out.append(t.as_str()),
                None => out.append("-"),
            }
            out.append(")\n");
            assert(out@ =~= before + peer_line(*p));
        }
        i = i + 1;
    }
    assert(panes@.take(panes@.len() as int) =~= panes@);
    if out.as_str().is_empty() {
        out.append("  (none)\n");
    }
    out
}

/// The bootstrap text for the agent `identity` in pane `pane_id`, with `rz` at
/// `rz_path` and the active-agents section `peers`.
pub open spec fn bootstrap_text(
    identity: Seq<char>,
    pane_id: Seq<char>,
    rz_path: Seq<char>,
    peers: Seq<char>,
) -> Seq<char> {
    r#"## Multi-Agent Environment

You are agent ""#@
        + identity
        + r#"" (pane: "#@
        + pane_id
        + r#") in a multi-agent Zellij session.

### Communication

You have `rz` at `"#@
        + rz_path
        + r#"`. Use it to talk to other agents:

```bash
# Send a message to another agent
"#@
        + rz_path
        + r#" send <pane_id> "your message"

# Send raw text (no protocol envelope)
"#@
        + rz_path
        + r#" send --raw <pane_id> "raw text"

# List all agents
"#@
        + rz_path
        + r#" list

# Read another agent's scrollback
"#@
        + rz_path
        + r#" dump <pane_id>

# Stream another agent's output in real-time
"#@
        + rz_path
        + r#" watch <pane_id>

# Spawn a new agent
"#@
        + rz_path
        + r#" spawn <command>

# Broadcast to all agents
"#@
        + rz_path
        + r#" broadcast "message"
```

### Active agents

"#@
        + peers
        + r#"
### Protocol

When you receive a message starting with `@@RZ:` it is a protocol envelope.
The JSON inside has `from`, `kind`, and `ts` fields. Respond by using
`"#@
        + rz_path
        + r#" send <from_pane_id> "your response"`.

Plain text messages (no @@RZ: prefix) are direct human-style instructions."#@
}

/// Build bootstrap instructions for a newly spawned agent in pane `pane_id`,
/// named `name` when it has a name, given the session's panes.
///
/// Includes: identity, how to communicate, who else is running.
pub fn build(pane_id: &str, name: Option<&str>, rz_path: &str, panes: &[PaneInfo]) -> (r: String)
    ensures
        r@ == bootstrap_text(
            identity_of(pane_id, name),
            pane_id@,
            rz_path@,
            peer_section(panes@, pane_id@),
        ),
{
    let identity = match name {
        Some(n) => n,
        None => pane_id,
    };
    let peers = peers(panes, pane_id);
    let mut out = owned(r#"## Multi-Agent Environment

You are agent ""#);
    out.append(identity);
    out.append(r#"" (pane: "#);
    out.append(pane_id);
    out.append(r#") in a multi-agent Zellij session.

### Communication

You have `rz` at `"#);
    out.append(rz_path);
    out.append(r#"`. Use it to talk to other agents:

```bash
# Send a message to another agent
"#);
    out.append(rz_path);
    out.append(r#" send <pane_id> "your message"

# Send raw text (no protocol envelope)
"#);
    out.append(rz_path);
    out.append(r#" send --raw <pane_id> "raw text"

# List all agents
"#);
    out.append(rz_path);
    out.append(r#" list

# Read another agent's scrollback
"#);
    out.append(rz_path);
    out.append(r#" dump <pane_id>

# Stream another agent's output in real-time
"#);
    out.append(rz_path);
    out.append(r#" watch <pane_id>

# Spawn a new agent
"#);
    out.append(rz_path);
    out.append(r#" spawn <command>

# Broadcast to all agents
"#);
    out.append(rz_path);
    out.append(r#" broadcast "message"
```

### Active agents

"#);
    out.append(peers.as_str());
    out.append(r#"
### Protocol

When you receive a message starting with `@@RZ:` it is a protocol envelope.
The JSON inside has `from`, `kind`, and `ts` fields. Respond by using
`"#);
    out.append(rz_path);
    out.append(r#" send <from_pane_id> "your response"`.

Plain text messages (no @@RZ: prefix) are direct human-style instructions."#);
    assert(out@ =~= bootstrap_text(identity@, pane_id@, rz_path@, peers@));
    out
}

} // verus!
