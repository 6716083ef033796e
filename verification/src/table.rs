//! The pane table printed by `rz list`.

use vstd::prelude::*;
use vstd::string::*;

use crate::text::{append_signed, is_signed_numeral_of, lemma_signed_decimal_is_numeral, owned, signed_decimal};
use crate::zellij::PaneInfo;

verus! {

/// `s` padded on the right with spaces to at least `width` characters, the
/// way `{:<width}` pads it.
pub open spec fn padded(s: Seq<char>, width: nat) -> Seq<char> {
    if s.len() >= width {
        s
    } else {
        s + Seq::new((width - s.len()) as nat, |i: int| ' ')
    }
}

/// Appends `s` padded to `width` characters.
fn append_padded(out: &mut String, s: &str, width: usize)
    ensures
        final(out)@ == old(out)@ + padded(s@, width as nat),
{
    let n = s.unicode_len();
    out.append(s);
    if n < width {
        let mut k: usize = n;
        while k < width
            invariant
                n <= k <= width,
                n == s@.len(),
                out@ == old(out)@ + s@ + Seq::new((k - n) as nat, |i: int| ' '),
            decreases width - k,
        {
            proof { reveal_strlit(" "); }
            out.append(" ");
            assert(Seq::new((k - n) as nat, |i: int| ' ').push(' ') =~= Seq::new(
                (k + 1 - n) as nat,
                |i: int| ' ',
            ));
            k = k + 1;
        }
        assert(out@ =~= old(out)@ + padded(s@, width as nat));
    } else {
        assert(out@ =~= old(out)@ + padded(s@, width as nat));
    }
}

/// The header line of the pane table.
pub open spec fn table_header() -> Seq<char> {
    padded("PANE_ID"@, 14) + " "@ + padded("TAB"@, 10) + " "@ + padded("COMMAND"@, 20) + " "@
        + padded("EXIT"@, 6) + " CWD\n"@
}

/// The exit column: the exit code of an exited pane (`yes` when unknown), or `-`.
pub open spec fn exit_column(p: PaneInfo) -> Seq<char> {
    if p.exited {
        match p.exit_status {
            Some(code) => signed_decimal(code as int),
            None => "yes"@,
        }
    } else {
        "-"@
    }
}

/// The text of an optional string, or `-` when there is none.
pub open spec fn or_dash(s: Option<String>) -> Seq<char> {
    match s {
        Some(t) => t@,
        None => "-"@,
    }
}

/// The table row of one pane.
pub open spec fn table_row(p: PaneInfo) -> Seq<char> {
    padded(p.full_id(), 14) + " "@ + padded(or_dash(p.tab_name), 10) + " "@ + padded(
        or_dash(p.pane_command),
        20,
    ) + " "@ + padded(exit_column(p), 6) + " "@ + or_dash(p.pane_cwd) + "\n"@
}

/// The rows of the terminal panes among `panes`, in order.
pub open spec fn table_rows(panes: Seq<PaneInfo>) -> Seq<char>
    decreases panes.len(),
{
    if panes.len() == 0 {
        Seq::empty()
    } else if panes.last().is_plugin {
        table_rows(panes.drop_last())
    } else {
        table_rows(panes.drop_last()) + table_row(panes.last())
    }
}

fn append_cells(out: &mut String, id: &str, tab: &str, cmd: &str, exit: &str, cwd: &str)
    ensures
        final(out)@ == old(out)@ + (padded(id@, 14) + " "@ + padded(tab@, 10) + " "@ + padded(
            cmd@,
            20,
        ) + " "@ + padded(exit@, 6) + " "@ + cwd@ + "\n"@),
{
    append_padded(out, id, 14);
    out.append(" ");
    append_padded(out, tab, 10);
    out.append(" ");
    append_padded(out, cmd, 20);
    out.append(" ");
    append_padded(out, exit, 6);
    out.append(" ");
    out.append(cwd);
    out.append("\n");
    assert(out@ =~= old(out)@ + (padded(id@, 14) + " "@ + padded(tab@, 10) + " "@ + padded(
        cmd@,
        20,
    ) + " "@ + padded(exit@, 6) + " "@ + cwd@ + "\n"@));
}

fn text_or_dash(s: &Option<String>) -> (r: &str)
    ensures
        r@ == or_dash(*s),
{
    match s {
        Some(t) => t.as_str(),
        None => "-",
    }
}

fn append_row(out: &mut String, p: &PaneInfo)
    ensures
        final(out)@ == old(out)@ + table_row(*p),
{
    let id = p.pane_id();
    let mut exit = String::new();
    if p.exited {
        match p.exit_status {
            Some(code) => append_signed(&mut exit, code),
            None => exit.append("yes"),
        }
    } else {
        exit.append("-");
    }
    assert(exit@ =~= exit_column(*p));
    append_cells(
        out,
        id.as_str(),
        text_or_dash(&p.tab_name),
        text_or_dash(&p.pane_command),
        exit.as_str(),
        text_or_dash(&p.pane_cwd),
    );
}

/// The pane table of `rz list`: a header line, then one line per terminal pane
/// with its ID, tab, command, exit state and working directory.
pub fn pane_table(panes: &[PaneInfo]) -> (out: String)
    ensures
        out@ == table_header() + table_rows(panes@),
{
    let mut out = String::new();
    append_padded(&mut out, "PANE_ID", 14);
    out.append(" ");
    append_padded(&mut out, "TAB", 10);
    out.append(" ");
    append_padded(&mut out, "COMMAND", 20);
    out.append(" ");
    append_padded(&mut out, "EXIT", 6);
    out.append(" CWD\n");
    assert(out@ =~= table_header());
    let mut i: usize = 0;
    while i < panes.len()
        invariant
            i <= panes@.len(),
            out@ == table_header() + table_rows(panes@.take(i as int)),
        decreases panes@.len() - i,
    {
        assert(panes@.take(i + 1).drop_last() =~= panes@.take(i as int));
        if !panes[i].is_plugin {
            append_row(&mut out, &panes[i]);
            assert(out@ =~= table_header() + table_rows(panes@.take(i + 1)));
        } else {
            assert(table_rows(panes@.take(i + 1)) == table_rows(panes@.take(i as int)));
        }
        i = i + 1;
    }
    assert(panes@.take(panes@.len() as int) =~= panes@);
    out
}

/// The header line of the titled pane table.
pub open spec fn titled_header() -> Seq<char> {
    padded("PANE_ID"@, 14) + " "@ + padded("TITLE"@, 16) + " "@ + padded("TAB"@, 10) + " "@
        + padded("COMMAND"@, 20) + " "@ + padded("EXIT"@, 6) + " CWD\n"@
}

/// The title column: the pane title, or `-` when it is empty.
pub open spec fn title_column(p: PaneInfo) -> Seq<char> {
    if p.title@.len() == 0 {
        "-"@
    } else {
        p.title@
    }
}

/// The mark after the row of the caller's own pane.
pub open spec fn own_mark(p: PaneInfo, own: Option<&str>) -> Seq<char> {
    match own {
        Some(o) => if o@ == p.full_id() { " *"@ } else { Seq::empty() },
        None => Seq::empty(),
    }
}

/// The titled table row of one pane.
pub open spec fn titled_row(p: PaneInfo, own: Option<&str>) -> Seq<char> {
    padded(p.full_id(), 14) + " "@ + padded(title_column(p), 16) + " "@ + padded(
        or_dash(p.tab_name),
        10,
    ) + " "@ + padded(or_dash(p.pane_command), 20) + " "@ + padded(exit_column(p), 6) + " "@
        + or_dash(p.pane_cwd) + own_mark(p, own) + "\n"@
}

/// The titled rows of the terminal panes among `panes`, in order.
pub open spec fn titled_rows(panes: Seq<PaneInfo>, own: Option<&str>) -> Seq<char>
    decreases panes.len(),
{
    if panes.len() == 0 {
        Seq::empty()
    } else if panes.last().is_plugin {
        titled_rows(panes.drop_last(), own)
    } else {
        titled_rows(panes.drop_last(), own) + titled_row(panes.last(), own)
    }
}

fn append_titled_cells(
    out: &mut String,
    id: &str,
    title: &str,
    tab: &str,
    cmd: &str,
    exit: &str,
    cwd: &str,
    mark: &str,
)
    ensures
        final(out)@ == old(out)@ + (padded(id@, 14) + " "@ + padded(title@, 16) + " "@ + padded(
            tab@,
            10,
        ) + " "@ + padded(cmd@, 20) + " "@ + padded(exit@, 6) + " "@ + cwd@ + mark@ + "\n"@),
{
    append_padded(out, id, 14);
    out.append(" ");
    append_padded(out, title, 16);
    out.append(" ");
    append_padded(out, tab, 10);
    out.append(" ");
    append_padded(out, cmd, 20);
    out.append(" ");
    append_padded(out, exit, 6);
    out.append(" ");
    out.append(cwd);
    out.append(mark);
    out.append("\n");
    assert(out@ =~= old(out)@ + (padded(id@, 14) + " "@ + padded(title@, 16) + " "@ + padded(
        tab@,
        10,
    ) + " "@ + padded(cmd@, 20) + " "@ + padded(exit@, 6) + " "@ + cwd@ + mark@ + "\n"@));
}

fn append_titled_row(out: &mut String, p: &PaneInfo, own: Option<&str>)
    ensures
        final(out)@ == old(out)@ + titled_row(*p, own),
{
    let id = p.pane_id();
    let mut exit = String::new();
    if p.exited {
        match p.exit_status {
            Some(code) => append_signed(&mut exit, code),
            None => exit.append("yes"),
        }
    } else {
        exit.append("-");
    }
    assert(exit@ =~= exit_column(*p));
    let title: &str = if p.title.as_str().is_empty() {
        "-"
    } else {
        p.title.as_str()
    };
    let is_own = match own {
        Some(o) => id == owned(o),
        None => false,
    };
    let mark: &str = if is_own {
        " *"
    } else {
        proof { reveal_strlit(""); }
        ""
    };
    assert(mark@ == own_mark(*p, own));
    append_titled_cells(
        out,
        id.as_str(),
        title,
        text_or_dash(&p.tab_name),
        text_or_dash(&p.pane_command),
        exit.as_str(),
        text_or_dash(&p.pane_cwd),
        mark,
    );
}

/// The pane table of `rz list` with titles: a header line, then one line per
/// terminal pane with its ID, title (`-` when empty), tab, command, exit state
/// and working directory, the caller's own pane (`own`) marked with ` *`.
pub fn titled_pane_table(panes: &[PaneInfo], own: Option<&str>) -> (out: String)
    ensures
        out@ == titled_header() + titled_rows(panes@, own),
{
    let mut out = String::new();
    append_padded(&mut out, "PANE_ID", 14);
    out.append(" ");
    append_padded(&mut out, "TITLE", 16);
    out.append(" ");
    append_padded(&mut out, "TAB", 10);
    out.append(" ");
    append_padded(&mut out, "COMMAND", 20);
    out.append(" ");
    append_padded(&mut out, "EXIT", 6);
    out.append(" CWD\n");
    assert(out@ =~= titled_header());
    let mut i: usize = 0;
    while i < panes.len()
        invariant
            i <= panes@.len(),
            out@ == titled_header() + titled_rows(panes@.take(i as int), own),
        decreases panes@.len() - i,
    {
        assert(panes@.take(i + 1).drop_last() =~= panes@.take(i as int));
        if !panes[i].is_plugin {
            append_titled_row(&mut out, &panes[i], own);
            assert(out@ =~= titled_header() + titled_rows(panes@.take(i + 1), own));
        } else {
            assert(titled_rows(panes@.take(i + 1), own) == titled_rows(panes@.take(i as int), own));
        }
        i = i + 1;
    }
    assert(panes@.take(panes@.len() as int) =~= panes@);
    out
}

proof fn lemma_map_push<A, B>(s: Seq<A>, x: A, f: spec_fn(A) -> B)
    ensures
        s.push(x).map_values(f) == s.map_values(f).push(f(x)),
{
    assert(s.push(x).map_values(f) =~= s.map_values(f).push(f(x)));
}

/// Padding keeps the text, adds only spaces, and makes it at least `width` long.
pub proof fn lemma_padded(s: Seq<char>, width: nat)
    ensures
        padded(s, width).len() == if s.len() >= width { s.len() } else { width },
        padded(s, width).subrange(0, s.len() as int) == s,
        forall|k: int| s.len() <= k < padded(s, width).len() ==> #[trigger] padded(s, width)[k] == ' ',
{
    assert(padded(s, width).subrange(0, s.len() as int) =~= s);
}

/// The table has one row per terminal pane, in order, whatever else is known of
/// those panes (focus, floating, exit); plugin panes have none.
pub proof fn lemma_rows_are_terminals(panes: Seq<PaneInfo>, own: Option<&str>)
    ensures
        titled_rows(panes, own) == panes.filter(|p: PaneInfo| !p.is_plugin).map_values(
            |p: PaneInfo| titled_row(p, own),
        ).flatten(),
        table_rows(panes) == panes.filter(|p: PaneInfo| !p.is_plugin).map_values(
            |p: PaneInfo| table_row(p),
        ).flatten(),
    decreases panes.len(),
{
    let pred = |p: PaneInfo| !p.is_plugin;
    let f = |p: PaneInfo| titled_row(p, own);
    let g = |p: PaneInfo| table_row(p);
    if panes.len() == 0 {
        reveal(Seq::filter);
        assert(panes.filter(pred).map_values(f) =~= Seq::<Seq<char>>::empty());
        assert(panes.filter(pred).map_values(g) =~= Seq::<Seq<char>>::empty());
    } else {
        let init = panes.drop_last();
        let x = panes.last();
        lemma_rows_are_terminals(init, own);
        assert(init.push(x) =~= panes);
        init.lemma_filter_push(x, pred);
        if pred(x) {
            lemma_map_push(init.filter(pred), x, f);
            lemma_map_push(init.filter(pred), x, g);
            init.filter(pred).map_values(f).lemma_flatten_push(titled_row(x, own));
            init.filter(pred).map_values(g).lemma_flatten_push(table_row(x));
        }
    }
}

/// The exit column shows `-` for a running pane, `yes` for an exited pane
/// without a known code, and the usual signed decimal numeral of the code otherwise.
pub proof fn lemma_exit_column(p: PaneInfo)
    ensures
        !p.exited ==> exit_column(p) == "-"@,
        p.exited && p.exit_status is None ==> exit_column(p) == "yes"@,
        p.exited && p.exit_status is Some ==> is_signed_numeral_of(
            exit_column(p),
            p.exit_status->0 as int,
        ),
{
    if p.exited && p.exit_status is Some {
        lemma_signed_decimal_is_numeral(p.exit_status->0 as int);
    }
}

/// Each row is a nonempty line ending in a line break, and the caller's own
/// pane, and only it, is marked.
pub proof fn lemma_row_shape(p: PaneInfo, own: Option<&str>)
    ensures
        titled_row(p, own).len() > 0,
        titled_row(p, own).last() == '\n',
        table_row(p).len() > 0,
        table_row(p).last() == '\n',
        own_mark(p, own) == if own is Some && own->0@ == p.full_id() { " *"@ } else { Seq::empty() },
{
    reveal_strlit("\n");
}

} // verus!
