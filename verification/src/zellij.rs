//! Zellij panes and the Zellij command lines that act on them.
//!
//! Each command function returns the arguments that `zellij` is run with;
//! the caller runs the process and reports a non-zero exit as an error.

use vstd::prelude::*;
use vstd::string::*;

use crate::text::{append_decimal, decimal, has_prefix, is_numeral_of, lemma_decimal_is_numeral, owned, starts_with};

verus! {

// ---------------------------------------------------------------------------
// Pane info
// ---------------------------------------------------------------------------

/// One pane, as `zellij action list-panes --json` describes it.
#[derive(Debug, Clone)]
pub struct PaneInfo {
    pub id: u64,
    pub is_plugin: bool,
    pub is_focused: bool,
    pub is_floating: bool,
    pub title: String,
    pub exited: bool,
    pub exit_status: Option<i32>,
    pub pane_command: Option<String>,
    pub pane_cwd: Option<String>,
    pub tab_id: Option<u64>,
    pub tab_name: Option<String>,
}

/// `"plugin_"` or `"terminal_"` followed by the pane number.
pub open spec fn full_pane_id(is_plugin: bool, id: u64) -> Seq<char> {
    (if is_plugin { seq!['p', 'l', 'u', 'g', 'i', 'n', '_'] } else {
        seq!['t', 'e', 'r', 'm', 'i', 'n', 'a', 'l', '_']
    }) + decimal(id as nat)
}

impl PaneInfo {
    /// The full pane ID of this pane.
    pub open spec fn full_id(self) -> Seq<char> {
        full_pane_id(self.is_plugin, self.id)
    }

    /// Full pane ID string (e.g. "terminal_3" or "plugin_1").
    pub fn pane_id(&self) -> (r: String)
        ensures
            r@ == self.full_id(),
    {
        let mut r = if self.is_plugin {
            let p = owned("plugin_");
            proof { reveal_strlit("plugin_"); }
            p
        } else {
            let p = owned("terminal_");
            proof { reveal_strlit("terminal_"); }
            p
        };
        append_decimal(&mut r, self.id);
        r
    }
}

/// The views of a list of strings.
pub open spec fn str_views(xs: Seq<&str>) -> Seq<Seq<char>> {
    xs.map_values(|x: &str| x@)
}

// ---------------------------------------------------------------------------
// Command lines
// ---------------------------------------------------------------------------

/// Arguments that paste `text` into a pane and that then submit it with a
/// carriage return (byte 13), in this order.
pub fn send(pane_id: &str, text: &str) -> (r: (Vec<String>, Vec<String>))
    ensures
        r.0.deep_view() == seq!["action"@, "paste"@, "--pane-id"@, pane_id@, text@],
        r.1.deep_view() == seq!["action"@, "write"@, "--pane-id"@, pane_id@, "13"@],
{
    let paste = vec![owned("action"), owned("paste"), owned("--pane-id"), owned(pane_id), owned(text)];
    let submit = vec![owned("action"), owned("write"), owned("--pane-id"), owned(pane_id), owned("13")];
    assert(paste.deep_view() =~= seq!["action"@, "paste"@, "--pane-id"@, pane_id@, text@]);
    assert(submit.deep_view() =~= seq!["action"@, "write"@, "--pane-id"@, pane_id@, "13"@]);
    (paste, submit)
}

/// The `zellij run` arguments for the optional pane name.
pub open spec fn name_args(name: Option<&str>) -> Seq<Seq<char>> {
    match name {
        Some(n) => seq!["--name"@, n@],
        None => Seq::empty(),
    }
}

/// Arguments that run `cmd` with `args` in a new pane, named `name` when given.
pub fn spawn(cmd: &str, args: &[&str], name: Option<&str>) -> (r: Vec<String>)
    ensures
        r.deep_view() == seq!["run"@] + name_args(name) + seq!["--"@, cmd@] + str_views(args@),
{
    let mut r = vec![owned("run")];
    if let Some(n) = name {
        r.push(owned("--name"));
        r.push(owned(n));
    }
    r.push(owned("--"));
    r.push(owned(cmd));
    let ghost head = r.deep_view();
    assert(head =~= seq!["run"@] + name_args(name) + seq!["--"@, cmd@]);
    let mut i: usize = 0;
    while i < args.len()
        invariant
            i <= args@.len(),
            r.deep_view() == head + str_views(args@.take(i as int)),
        decreases args@.len() - i,
    {
        let ghost before = r.deep_view();
        let a = owned(args[i]);
        assert(a@ == args@[i as int]@);
        r.push(a);
        assert(r.deep_view() =~= before.push(args@[i as int]@));
        assert(args@.take(i + 1) =~= args@.take(i as int).push(args@[i as int]));
        assert(str_views(args@.take(i + 1)) =~= str_views(args@.take(i as int)).push(args@[i as int]@));
        assert(r.deep_view() =~= head + str_views(args@.take(i + 1)));
        i = i + 1;
    }
    assert(args@.take(args@.len() as int) =~= args@);
    r
}

/// Arguments that close a pane.
pub fn close(pane_id: &str) -> (r: Vec<String>)
    ensures
        r.deep_view() == seq!["action"@, "close-pane"@, "--pane-id"@, pane_id@],
{
    let r = vec![owned("action"), owned("close-pane"), owned("--pane-id"), owned(pane_id)];
    assert(r.deep_view() =~= seq!["action"@, "close-pane"@, "--pane-id"@, pane_id@]);
    r
}

/// Arguments that rename a pane (the name appears on the pane frame).
pub fn rename(pane_id: &str, name: &str) -> (r: Vec<String>)
    ensures
        r.deep_view() == seq!["action"@, "rename-pane"@, "--pane-id"@, pane_id@, name@],
{
    let r = vec![owned("action"), owned("rename-pane"), owned("--pane-id"), owned(pane_id), owned(name)];
    assert(r.deep_view() =~= seq!["action"@, "rename-pane"@, "--pane-id"@, pane_id@, name@]);
    r
}

/// The arguments for an optional color: the flag and the value, or nothing.
pub open spec fn color_args(flag: Seq<char>, color: Option<&str>) -> Seq<Seq<char>> {
    match color {
        Some(c) => seq![flag, c@],
        None => Seq::empty(),
    }
}

/// Arguments that set a pane's foreground and/or background color.
pub fn set_color(pane_id: &str, fg: Option<&str>, bg: Option<&str>) -> (r: Vec<String>)
    ensures
        r.deep_view() == seq!["action"@, "set-pane-color"@, "--pane-id"@, pane_id@]
            + color_args("--fg"@, fg) + color_args("--bg"@, bg),
{
    let mut r = vec![owned("action"), owned("set-pane-color"), owned("--pane-id"), owned(pane_id)];
    if let Some(f) = fg {
        r.push(owned("--fg"));
        r.push(owned(f));
    }
    if let Some(b) = bg {
        r.push(owned("--bg"));
        r.push(owned(b));
    }
    assert(r.deep_view() =~= seq!["action"@, "set-pane-color"@, "--pane-id"@, pane_id@]
        + color_args("--fg"@, fg) + color_args("--bg"@, bg));
    r
}

/// Arguments that reset a pane's colors to terminal defaults.
pub fn reset_color(pane_id: &str) -> (r: Vec<String>)
    ensures
        r.deep_view() == seq!["action"@, "set-pane-color"@, "--pane-id"@, pane_id@, "--reset"@],
{
    let r = vec![owned("action"), owned("set-pane-color"), owned("--pane-id"), owned(pane_id), owned("--reset")];
    assert(r.deep_view() =~= seq!["action"@, "set-pane-color"@, "--pane-id"@, pane_id@, "--reset"@]);
    r
}

/// Arguments that dump a pane's full scrollback.
pub fn dump(pane_id: &str) -> (r: Vec<String>)
    ensures
        r.deep_view() == seq!["action"@, "dump-screen"@, "--pane-id"@, pane_id@, "--full"@],
{
    let r = vec![owned("action"), owned("dump-screen"), owned("--pane-id"), owned(pane_id), owned("--full")];
    assert(r.deep_view() =~= seq!["action"@, "dump-screen"@, "--pane-id"@, pane_id@, "--full"@]);
    r
}

/// The output-format arguments of `zellij subscribe`: JSON lines when asked for.
pub open spec fn format_args(json: bool) -> Seq<Seq<char>> {
    if json {
        seq!["--format"@, "json"@]
    } else {
        Seq::empty()
    }
}

/// Arguments that stream a pane's output as it changes, as NDJSON when `json`.
pub fn subscribe(pane_id: &str, json: bool) -> (r: Vec<String>)
    ensures
        r.deep_view() == seq!["subscribe"@, "--pane-id"@, pane_id@] + format_args(json),
{
    let mut r = vec![owned("subscribe"), owned("--pane-id"), owned(pane_id)];
    if json {
        r.push(owned("--format"));
        r.push(owned("json"));
    }
    assert(r.deep_view() =~= seq!["subscribe"@, "--pane-id"@, pane_id@] + format_args(json));
    r
}

// ---------------------------------------------------------------------------
// Query
// ---------------------------------------------------------------------------

/// The full IDs of the terminal panes among `panes`, in order.
pub open spec fn terminal_ids(panes: Seq<PaneInfo>) -> Seq<Seq<char>>
    decreases panes.len(),
{
    if panes.len() == 0 {
        Seq::empty()
    } else {
        let rest = terminal_ids(panes.drop_last());
        if panes.last().is_plugin { rest } else { rest.push(panes.last().full_id()) }
    }
}

/// List terminal pane IDs only (excludes plugins).
pub fn list_pane_ids(panes: &[PaneInfo]) -> (r: Vec<String>)
    ensures
        r.deep_view() == terminal_ids(panes@),
{
    let mut r: Vec<String> = Vec::new();
    let mut i: usize = 0;
    while i < panes.len()
        invariant
            i <= panes@.len(),
            r.deep_view() == terminal_ids(panes@.take(i as int)),
        decreases panes@.len() - i,
    {
        assert(panes@.take(i + 1).drop_last() =~= panes@.take(i as int));
        if !panes[i].is_plugin {
            let id = panes[i].pane_id();
            r.push(id);
        }
        assert(r.deep_view() =~= terminal_ids(panes@.take(i + 1)));
        i = i + 1;
    }
    assert(panes@.take(panes@.len() as int) =~= panes@);
    r
}

/// The pane ID that the value of `ZELLIJ_PANE_ID` names: kept when it already
/// starts with `terminal_` or `plugin_`, otherwise a bare number of a terminal pane.
pub open spec fn normalized_pane_id(id: Seq<char>) -> Seq<char> {
    if has_prefix(id, "terminal_"@) || has_prefix(id, "plugin_"@) {
        id
    } else {
        "terminal_"@ + id
    }
}

/// Full pane ID for a pane ID as a user writes it: a bare number stands for
/// the terminal pane with that number.
pub fn normalize_pane_id(id: &str) -> (r: String)
    ensures
        r@ == normalized_pane_id(id@),
{
    if starts_with(id, "terminal_") || starts_with(id, "plugin_") {
        owned(id)
    } else {
        let mut r = owned("terminal_");
        r.append(id);
        r
    }
}

/// Own pane ID from the value of `ZELLIJ_PANE_ID`; `None` when it is not set
/// (not inside Zellij).
pub fn own_pane_id(zellij_pane_id: Option<&str>) -> (r: Option<String>)
    ensures
        match zellij_pane_id {
            Some(id) => r is Some && r->0@ == normalized_pane_id(id@),
            None => r is None,
        },
{
    match zellij_pane_id {
        None => None,
        Some(id) => Some(normalize_pane_id(id)),
    }
}

// ---------------------------------------------------------------------------
// Laws
// ---------------------------------------------------------------------------

/// Listing pane IDs excludes plugins: every listed ID is a terminal pane ID,
/// and each terminal pane is listed once.
pub proof fn lemma_listed_ids_are_terminals(panes: Seq<PaneInfo>)
    ensures
        count_plugins(panes) <= panes.len(),
        terminal_ids(panes).len() == panes.len() - count_plugins(panes),
        forall|k: int|
            0 <= k < terminal_ids(panes).len() ==> has_prefix(
                #[trigger] terminal_ids(panes)[k],
                "terminal_"@,
            ),
    decreases panes.len(),
{
    reveal_strlit("terminal_");
    lemma_plugins_at_most(panes);
    if panes.len() > 0 {
        lemma_listed_ids_are_terminals(panes.drop_last());
        let p = panes.last();
        if !p.is_plugin {
            let id = p.full_id();
            assert(id.subrange(0, 9) =~= "terminal_"@);
        }
    }
}

/// How many of `panes` are plugin panes.
pub open spec fn count_plugins(panes: Seq<PaneInfo>) -> nat
    decreases panes.len(),
{
    if panes.len() == 0 {
        0
    } else {
        count_plugins(panes.drop_last()) + if panes.last().is_plugin { 1nat } else { 0nat }
    }
}

proof fn lemma_plugins_at_most(panes: Seq<PaneInfo>)
    ensures
        count_plugins(panes) <= panes.len(),
    decreases panes.len(),
{
    if panes.len() > 0 {
        lemma_plugins_at_most(panes.drop_last());
    }
}

/// The own pane ID is always a full pane ID, and taking it again changes nothing.
pub proof fn lemma_own_pane_id_normal(id: Seq<char>)
    ensures
        has_prefix(normalized_pane_id(id), "terminal_"@) || has_prefix(
            normalized_pane_id(id),
            "plugin_"@,
        ),
        normalized_pane_id(normalized_pane_id(id)) == normalized_pane_id(id),
{
    if !(has_prefix(id, "terminal_"@) || has_prefix(id, "plugin_"@)) {
        assert(("terminal_"@ + id).subrange(0, "terminal_"@.len() as int) =~= "terminal_"@);
    }
}

/// The full ID of any pane names that pane: read back as `ZELLIJ_PANE_ID`, it is kept as it is.
pub proof fn lemma_full_id_is_own_pane_id(is_plugin: bool, id: u64)
    ensures
        normalized_pane_id(full_pane_id(is_plugin, id)) == full_pane_id(is_plugin, id),
{
    reveal_strlit("terminal_");
    reveal_strlit("plugin_");
    let f = full_pane_id(is_plugin, id);
    if is_plugin {
        assert(f.subrange(0, 7) =~= "plugin_"@);
    } else {
        assert(f.subrange(0, 9) =~= "terminal_"@);
    }
}

proof fn lemma_map_push<A, B>(s: Seq<A>, x: A, f: spec_fn(A) -> B)
    ensures
        s.push(x).map_values(f) == s.map_values(f).push(f(x)),
{
    assert(s.push(x).map_values(f) =~= s.map_values(f).push(f(x)));
}

/// The listed pane IDs are the full IDs of the terminal panes, in order,
/// whatever else is known of those panes.
pub proof fn lemma_listed_ids_are_terminal_panes(panes: Seq<PaneInfo>)
    ensures
        terminal_ids(panes) == panes.filter(|p: PaneInfo| !p.is_plugin).map_values(
            |p: PaneInfo| p.full_id(),
        ),
    decreases panes.len(),
{
    let pred = |p: PaneInfo| !p.is_plugin;
    let f = |p: PaneInfo| p.full_id();
    if panes.len() == 0 {
        reveal(Seq::filter);
        assert(panes.filter(pred).map_values(f) =~= Seq::<Seq<char>>::empty());
    } else {
        let init = panes.drop_last();
        let x = panes.last();
        lemma_listed_ids_are_terminal_panes(init);
        assert(init.push(x) =~= panes);
        init.lemma_filter_push(x, pred);
        if pred(x) {
            lemma_map_push(init.filter(pred), x, f);
        }
    }
}

/// A full pane ID is `plugin_` or `terminal_` (by the pane's kind) followed by
/// the usual decimal numeral of the pane number.
pub proof fn lemma_full_id_names_pane(is_plugin: bool, id: u64)
    ensures
        ({
            let prefix = if is_plugin { "plugin_"@ } else { "terminal_"@ };
            &&& has_prefix(full_pane_id(is_plugin, id), prefix)
            &&& is_numeral_of(full_pane_id(is_plugin, id).skip(prefix.len() as int), id as int)
        }),
{
    reveal_strlit("terminal_");
    reveal_strlit("plugin_");
    lemma_decimal_is_numeral(id as nat);
    let prefix = if is_plugin { "plugin_"@ } else { "terminal_"@ };
    let f = full_pane_id(is_plugin, id);
    assert(f.subrange(0, prefix.len() as int) =~= prefix);
    assert(f.skip(prefix.len() as int) =~= decimal(id as nat));
}

} // verus!
