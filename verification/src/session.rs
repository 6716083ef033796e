//! What the `rz` tool derives from its session: who is sending, and where the
//! session's shared workspace lives.

use vstd::prelude::*;
use vstd::string::*;

use crate::text::{blank, is_blank, owned};
use crate::zellij::{normalized_pane_id, own_pane_id};

verus! {

/// The sender identity: the explicit `from`, else the own pane ID derived from
/// `ZELLIJ_PANE_ID`, else `unknown`.
pub open spec fn sender_text(from: Option<&str>, zellij_pane_id: Option<&str>) -> Seq<char> {
    match from {
        Some(f) => f@,
        None => match zellij_pane_id {
            Some(id) => normalized_pane_id(id@),
            None => "unknown"@,
        },
    }
}

/// Sender identity of an outgoing message, given `--from` and the value of
/// `ZELLIJ_PANE_ID`.
pub fn sender_id(from: Option<&str>, zellij_pane_id: Option<&str>) -> (r: String)
    ensures
        r@ == sender_text(from, zellij_pane_id),
{
    match from {
        Some(f) => owned(f),
        None => match own_pane_id(zellij_pane_id) {
            Some(id) => id,
            None => owned("unknown"),
        },
    }
}

/// The panes a broadcast goes to: every listed pane but the sender's own, in order.
pub open spec fn broadcast_to(peers: Seq<Seq<char>>, own: Option<&str>) -> Seq<Seq<char>>
    decreases peers.len(),
{
    if peers.len() == 0 {
        Seq::empty()
    } else {
        let rest = broadcast_to(peers.drop_last(), own);
        match own {
            Some(o) => if peers.last() == o@ { rest } else { rest.push(peers.last()) },
            None => rest.push(peers.last()),
        }
    }
}

/// A broadcast never goes back to the sender's own pane, and goes only to listed panes.
pub proof fn lemma_broadcast_skips_sender(peers: Seq<Seq<char>>, own: Option<&str>)
    ensures
        forall|k: int|
            0 <= k < broadcast_to(peers, own).len() ==> peers.contains(
                #[trigger] broadcast_to(peers, own)[k],
            ) && match own {
                Some(o) => broadcast_to(peers, own)[k] != o@,
                None => true,
            },
        own is None ==> broadcast_to(peers, own) == peers,
    decreases peers.len(),
{
    if peers.len() > 0 {
        let rest = peers.drop_last();
        lemma_broadcast_skips_sender(rest, own);
        let b = broadcast_to(peers, own);
        assert forall|k: int| 0 <= k < b.len() implies peers.contains(#[trigger] b[k]) && match own {
            Some(o) => b[k] != o@,
            None => true,
        } by {
            let br = broadcast_to(rest, own);
            if k < br.len() {
                assert(b[k] == br[k]);
                let j = choose|j: int| 0 <= j < rest.len() && rest[j] == br[k];
                assert(peers[j] == rest[j]);
            } else {
                assert(b[k] == peers[peers.len() - 1]);
            }
        }
        if own is None {
            assert(rest.push(peers.last()) =~= peers);
        }
    } else {
        assert(broadcast_to(peers, own) =~= peers);
    }
}

/// A broadcast goes to the listed panes other than the sender's own, in order.
pub proof fn lemma_broadcast_filters_sender(peers: Seq<Seq<char>>, own: Option<&str>)
    ensures
        broadcast_to(peers, own) == peers.filter(
            |x: Seq<char>| match own {
                Some(o) => x != o@,
                None => true,
            },
        ),
    decreases peers.len(),
{
    let pred = |x: Seq<char>| match own {
        Some(o) => x != o@,
        None => true,
    };
    if peers.len() == 0 {
        reveal(Seq::filter);
    } else {
        let init = peers.drop_last();
        lemma_broadcast_filters_sender(init, own);
        assert(init.push(peers.last()) =~= peers);
        init.lemma_filter_push(peers.last(), pred);
    }
}

/// The pane IDs a broadcast is sent to, given the terminal pane IDs and the
/// sender's own pane ID when it is known.
pub fn broadcast_targets(peers: &[String], own: Option<&str>) -> (r: Vec<String>)
    ensures
        r.deep_view() == broadcast_to(peers.deep_view(), own),
{
    let own_id: Option<String> = match own {
        Some(o) => Some(owned(o)),
        None => None,
    };
    let mut r: Vec<String> = Vec::new();
    let mut i: usize = 0;
    while i < peers.len()
        invariant
            i <= peers@.len(),
            match own {
                Some(o) => own_id is Some && own_id->0@ == o@,
                None => own_id is None,
            },
            r.deep_view() == broadcast_to(peers.deep_view().take(i as int), own),
        decreases peers@.len() - i,
    {
        let ghost dv = peers.deep_view();
        assert(dv.take(i + 1).drop_last() =~= dv.take(i as int));
        assert(dv[i as int] == peers@[i as int]@);
        let skip = match &own_id {
            Some(o) => peers[i] == *o,
            None => false,
        };
        if !skip {
            r.push(peers[i].clone());
        }
        assert(r.deep_view() =~= broadcast_to(dv.take(i + 1), own));
        i = i + 1;
    }
    assert(peers.deep_view().take(peers@.len() as int) =~= peers.deep_view());
    r
}

/// The workspace directory of the session named `session`: `/tmp/rz-<session>`.
pub open spec fn workspace_dir(session: Seq<char>) -> Seq<char> {
    "/tmp/rz-"@ + session
}

/// Path of the shared workspace of the session named `session`.
pub fn workspace_path(session: &str) -> (r: String)
    ensures
        r@ == workspace_dir(session@),
{
    let mut r = owned("/tmp/rz-");
    r.append(session);
    r
}

/// Whether to stop waiting for a newly spawned pane before bootstrapping it:
/// the deadline has passed, or the pane's screen, when it could be read, shows
/// anything but white space (its process has started).
pub open spec fn wait_over(now_ms: u64, deadline_ms: u64, screen: Option<&str>) -> bool {
    now_ms >= deadline_ms || match screen {
        Some(s) => !blank(s@),
        None => false,
    }
}

/// One step of waiting for a spawned pane: `true` when the wait is over, given
/// the time, the deadline and the pane's screen (`None` when it could not be read).
pub fn bootstrap_wait_over(now_ms: u64, deadline_ms: u64, screen: Option<&str>) -> (r: bool)
    ensures
        r == wait_over(now_ms, deadline_ms, screen),
{
    if now_ms >= deadline_ms {
        return true;
    }
    match screen {
        Some(s) => !is_blank(s),
        None => false,
    }
}

} // verus!
