//! Pane status summary for the `status` subcommand.

use vstd::prelude::*;
use vstd::string::*;

use crate::protocol::{contains_sentinel, sentinel};
use crate::text::{has_prefix, is_signed_numeral_of, lemma_signed_decimal_is_numeral, append_decimal, append_signed, decimal, owned, signed_decimal};
use crate::zellij::PaneInfo;

verus! {

/// Per-pane status line.
pub struct PaneStatus {
    pub pane_id: String,
    pub title: String,
    pub command: String,
    pub running: bool,
    pub exit_status: Option<i32>,
    pub message_count: usize,
}

/// Summary of all panes.
pub struct StatusSummary {
    pub total: usize,
    pub running: usize,
    pub exited: usize,
    pub panes: Vec<PaneStatus>,
}

/// The text split at each `'\n'`, the way `str::split('\n')` splits it: `k` newlines
/// give `k + 1` segments, the last of them empty when the text ends with a newline.
pub open spec fn segments(s: Seq<char>) -> Seq<Seq<char>>
    decreases s.len(),
{
    if s.len() == 0 {
        seq![Seq::<char>::empty()]
    } else if s.last() == '\n' {
        segments(s.drop_last()).push(Seq::<char>::empty())
    } else {
        let prev = segments(s.drop_last());
        prev.update(prev.len() - 1, prev.last().push(s.last()))
    }
}

/// How many of `lines` hold the sentinel.
pub open spec fn count_marked(lines: Seq<Seq<char>>) -> nat
    decreases lines.len(),
{
    if lines.len() == 0 {
        0
    } else {
        count_marked(lines.drop_last()) + if contains_sentinel(lines.last()) { 1nat } else { 0nat }
    }
}

/// The number of lines of `scrollback` that hold an `@@RZ:` marker.
///
/// `str::lines` drops the empty piece after a final newline and a `'\r'` before
/// each newline; neither can hold or break a marker, so counting over the
/// newline-separated segments gives the same number.
pub open spec fn message_count(scrollback: Seq<char>) -> nat {
    count_marked(segments(scrollback))
}

proof fn lemma_segments_nonempty(s: Seq<char>)
    ensures
        segments(s).len() >= 1,
    decreases s.len(),
{
    if s.len() > 0 {
        lemma_segments_nonempty(s.drop_last());
    }
}

/// The number of panes that have not exited, counted by `filter`.
proof fn lemma_counts_as_filters(panes: Seq<PaneInfo>)
    ensures
        count_running(panes) == panes.filter(|p: PaneInfo| !p.exited).len(),
        count_exited(panes) == panes.filter(|p: PaneInfo| p.exited).len(),
    decreases panes.len(),
{
    if panes.len() > 0 {
        let init = panes.drop_last();
        lemma_counts_as_filters(init);
        assert(init.push(panes.last()) =~= panes);
        init.lemma_filter_push(panes.last(), |p: PaneInfo| !p.exited);
        init.lemma_filter_push(panes.last(), |p: PaneInfo| p.exited);
    } else {
        reveal(Seq::filter);
    }
}

proof fn lemma_count_marked_concat(x: Seq<Seq<char>>, y: Seq<Seq<char>>)
    ensures
        count_marked(x + y) == count_marked(x) + count_marked(y),
    decreases y.len(),
{
    if y.len() > 0 {
        lemma_count_marked_concat(x, y.drop_last());
        assert((x + y).drop_last() =~= x + y.drop_last());
    } else {
        assert(x + y =~= x);
    }
}

proof fn lemma_segments_concat(a: Seq<char>, b: Seq<char>)
    ensures
        segments(a + seq!['\n'] + b) == segments(a) + segments(b),
    decreases b.len(),
{
    let s = a + seq!['\n'] + b;
    if b.len() == 0 {
        assert(s.drop_last() =~= a);
        assert(segments(a).push(Seq::<char>::empty()) =~= segments(a) + segments(b));
    } else {
        assert(s.drop_last() =~= a + seq!['\n'] + b.drop_last());
        lemma_segments_concat(a, b.drop_last());
        lemma_segments_nonempty(b.drop_last());
        let x = segments(a);
        let y = segments(b.drop_last());
        if b.last() == '\n' {
            assert((x + y).push(Seq::<char>::empty()) =~= x + y.push(Seq::<char>::empty()));
        } else {
            let z = x + y;
            assert(z.update(z.len() - 1, z.last().push(b.last())) =~= x + y.update(
                y.len() - 1,
                y.last().push(b.last()),
            ));
        }
    }
}

/// Counting is additive over lines: the marked lines of two texts joined by a
/// newline are those of the first text and those of the second.
pub proof fn lemma_message_count_concat(a: Seq<char>, b: Seq<char>)
    ensures
        message_count(a + seq!['\n'] + b) == message_count(a) + message_count(b),
{
    lemma_segments_concat(a, b);
    lemma_count_marked_concat(segments(a), segments(b));
}

/// A single line counts once when it holds the marker and not at all
/// otherwise, whatever its length.
pub proof fn lemma_one_line_counts_once(t: Seq<char>)
    requires
        forall|k: int| 0 <= k < t.len() ==> t[k] != '\n',
    ensures
        message_count(t) == if contains_sentinel(t) { 1int } else { 0int },
{
    lemma_segments_of_single_line(t);
    assert(seq![t].drop_last() =~= Seq::<Seq<char>>::empty());
    assert(seq![t].last() == t);
    assert(count_marked(Seq::<Seq<char>>::empty()) == 0);
}

proof fn lemma_segments_within(s: Seq<char>)
    ensures
        forall|k: int|
            0 <= k < segments(s).len() ==> exists|a: int, b: int|
                0 <= a <= b <= s.len() && #[trigger] segments(s)[k] == s.subrange(a, b),
        segments(s).last() == s.subrange(s.len() - segments(s).last().len(), s.len() as int),
    decreases s.len(),
{
    lemma_segments_nonempty(s);
    if s.len() == 0 {
        assert(segments(s)[0] == s.subrange(0, 0));
    } else {
        let t = s.drop_last();
        lemma_segments_within(t);
        lemma_segments_nonempty(t);
        let prev = segments(t);
        assert forall|k: int| 0 <= k < prev.len() implies exists|a: int, b: int|
            0 <= a <= b <= s.len() && #[trigger] prev[k] == s.subrange(a, b) by {
            let (a, b) = choose|a: int, b: int| 0 <= a <= b <= t.len() && prev[k] == t.subrange(a, b);
            assert(t.subrange(a, b) =~= s.subrange(a, b));
        }
        if s.last() == '\n' {
            let segs = segments(s);
            assert(segs.last() =~= s.subrange(s.len() as int, s.len() as int));
            assert forall|k: int| 0 <= k < segs.len() implies exists|a: int, b: int|
                0 <= a <= b <= s.len() && #[trigger] segs[k] == s.subrange(a, b) by {
                if k < prev.len() {
                    assert(segs[k] == prev[k]);
                } else {
                    assert(segs[k] == s.subrange(s.len() as int, s.len() as int));
                }
            }
        } else {
            let segs = segments(s);
            let n = prev.last().len();
            assert(prev.last() == t.subrange(t.len() - n, t.len() as int));
            assert(segs.last() =~= s.subrange(s.len() - (n + 1), s.len() as int));
            assert forall|k: int| 0 <= k < segs.len() implies exists|a: int, b: int|
                0 <= a <= b <= s.len() && #[trigger] segs[k] == s.subrange(a, b) by {
                if k < prev.len() - 1 {
                    assert(segs[k] == prev[k]);
                } else {
                    assert(segs[k] == s.subrange(s.len() - (n + 1), s.len() as int));
                }
            }
        }
    }
}

proof fn lemma_count_marked_zero(lines: Seq<Seq<char>>)
    requires
        forall|k: int| 0 <= k < lines.len() ==> !contains_sentinel(#[trigger] lines[k]),
    ensures
        count_marked(lines) == 0,
    decreases lines.len(),
{
    if lines.len() > 0 {
        let rest = lines.drop_last();
        assert forall|k: int| 0 <= k < rest.len() implies !contains_sentinel(#[trigger] rest[k]) by {
            assert(rest[k] == lines[k]);
        }
        lemma_count_marked_zero(rest);
        assert(!contains_sentinel(lines[lines.len() - 1]));
    }
}

/// A scrollback in which `@@RZ:` never occurs holds no messages.
pub proof fn lemma_unmarked_text_counts_none(s: Seq<char>)
    requires
        !contains_sentinel(s),
    ensures
        message_count(s) == 0,
{
    lemma_segments_within(s);
    let segs = segments(s);
    assert forall|k: int| 0 <= k < segs.len() implies !contains_sentinel(#[trigger] segs[k]) by {
        let (a, b) = choose|a: int, b: int| 0 <= a <= b <= s.len() && segs[k] == s.subrange(a, b);
        if contains_sentinel(segs[k]) {
            let j = choose|j: int| 0 <= j && j + 5 <= segs[k].len() && #[trigger] segs[k].subrange(j, j + 5) == sentinel();
            assert(s.subrange(a + j, a + j + 5) =~= segs[k].subrange(j, j + 5));
        }
    }
    lemma_count_marked_zero(segs);
}

fn holds_sentinel(line: &Vec<char>) -> (b: bool)
    ensures
        b == contains_sentinel(line@),
{
    let n = line.len();
    if n < 5 {
        assert(!contains_sentinel(line@));
        return false;
    }
    let mut k: usize = 0;
    while k <= n - 5
        invariant
            n == line@.len(),
            5 <= n,
            k + 5 <= n + 1,
            forall|j: int| 0 <= j < k ==> #[trigger] line@.subrange(j, j + 5) != sentinel(),
        decreases n - k,
    {
        if line[k] == '@' && line[k + 1] == '@' && line[k + 2] == 'R' && line[k + 3] == 'Z'
            && line[k + 4] == ':' {
            assert(line@.subrange(k as int, k + 5) =~= sentinel());
            return true;
        }
        assert(line@.subrange(k as int, k + 5) != sentinel()) by {
            let sub = line@.subrange(k as int, k + 5);
            if sub == sentinel() {
                assert(sub[0] == line@[k as int]);
                assert(sub[1] == line@[k + 1]);
                assert(sub[2] == line@[k + 2]);
                assert(sub[3] == line@[k + 3]);
                assert(sub[4] == line@[k + 4]);
            }
        }
        k = k + 1;
    }
    false
}

/// Count `@@RZ:` lines in a scrollback string.
pub fn count_messages(scrollback: &str) -> (n: usize)
    ensures
        n == message_count(scrollback@),
{
    let total = scrollback.unicode_len();
    let mut count: usize = 0;
    let mut line: Vec<char> = Vec::new();
    let ghost mut done: Seq<Seq<char>> = Seq::empty();
    for c in it: scrollback.chars()
        invariant
            total == scrollback@.len(),
            it.seq() == scrollback@,
            segments(scrollback@.take(it.index() as int)) == done.push(line@),
            count == count_marked(done),
            count + line@.len() <= it.index(),
            it.index() <= total,
    {
        let ghost prefix = scrollback@.take(it.index() as int);
        let ghost next = scrollback@.take(it.index() + 1);
        assert(next.drop_last() =~= prefix);
        if c == '\n' {
            if holds_sentinel(&line) {
                count = count + 1;
            }
            proof {
                assert(done.push(line@).drop_last() =~= done);
                done = done.push(line@);
            }
            line = Vec::new();
        } else {
            let ghost before = line@;
            line.push(c);
            assert(done.push(before).update(done.len() as int, before.push(c)) =~= done.push(line@));
        }
    }
    assert(scrollback@.take(total as int) =~= scrollback@);
    if holds_sentinel(&line) {
        count = count + 1;
    }
    assert(done.push(line@).drop_last() =~= done);
    count
}

/// How many of `panes` are still running (have not exited).
pub open spec fn count_running(panes: Seq<PaneInfo>) -> nat
    decreases panes.len(),
{
    if panes.len() == 0 {
        0
    } else {
        count_running(panes.drop_last()) + if panes.last().exited { 0nat } else { 1nat }
    }
}

/// How many of `panes` have exited.
pub open spec fn count_exited(panes: Seq<PaneInfo>) -> nat
    decreases panes.len(),
{
    if panes.len() == 0 {
        0
    } else {
        count_exited(panes.drop_last()) + if panes.last().exited { 1nat } else { 0nat }
    }
}

/// Every pane is counted once, as running or as exited.
pub proof fn lemma_running_plus_exited(panes: Seq<PaneInfo>)
    ensures
        count_running(panes) + count_exited(panes) == panes.len(),
    decreases panes.len(),
{
    if panes.len() > 0 {
        lemma_running_plus_exited(panes.drop_last());
    }
}

/// The part of a path after its last `'/'` (all of it when there is none).
pub open spec fn basename(path: Seq<char>) -> Seq<char>
    decreases path.len(),
{
    if path.len() == 0 {
        path
    } else if path.last() == '/' {
        Seq::empty()
    } else {
        basename(path.drop_last()).push(path.last())
    }
}

/// The basename of a path is the part after its last `/`: a suffix of the path
/// without any `/`, which is all of the path or follows a `/` in it.
pub proof fn lemma_basename_is_last_part(path: Seq<char>)
    ensures
        basename(path).len() <= path.len(),
        basename(path) == path.skip(path.len() - basename(path).len()),
        forall|k: int| 0 <= k < basename(path).len() ==> #[trigger] basename(path)[k] != '/',
        basename(path).len() < path.len() ==> path[path.len() - basename(path).len() - 1] == '/',
    decreases path.len(),
{
    if path.len() > 0 {
        let t = path.drop_last();
        lemma_basename_is_last_part(t);
        if path.last() == '/' {
            assert(path.skip(path.len() as int) =~= Seq::<char>::empty());
        } else {
            let b = basename(t);
            assert(basename(path) == b.push(path.last()));
            assert(t.skip(t.len() - b.len()).push(path.last()) =~= path.skip(
                path.len() - (b.len() + 1),
            ));
            if b.len() < t.len() {
                assert(path[path.len() - b.len() - 2] == t[t.len() - b.len() - 1]);
            }
        }
    } else {
        assert(path.skip(0) =~= path);
    }
}

/// The command column of a pane: the basename of its command, or `-`.
pub open spec fn command_column(command: Option<String>) -> Seq<char> {
    match command {
        Some(c) => basename(c@),
        None => seq!['-'],
    }
}

/// The number of marked lines in a scrollback, or zero when there is none.
pub open spec fn scrollback_count(scrollback: Option<String>) -> nat {
    match scrollback {
        Some(s) => message_count(s@),
        None => 0,
    }
}

fn basename_of(path: &str) -> (r: &str)
    ensures
        r@ == basename(path@),
{
    let n = path.unicode_len();
    let mut i: usize = 0;
    let mut start: usize = 0;
    for c in it: path.chars()
        invariant
            it.seq() == path@,
            n == path@.len(),
            i == it.index(),
            start <= i <= n,
            basename(path@.take(i as int)) == path@.subrange(start as int, i as int),
    {
        assert(path@.take(i + 1).drop_last() =~= path@.take(i as int));
        assert(path@[i as int] == c);
        if c == '/' {
            start = i + 1;
            assert(path@.subrange(start as int, i + 1) =~= Seq::<char>::empty());
        } else {
            assert(path@.subrange(start as int, i + 1) =~= path@.subrange(start as int, i as int).push(c));
        }
        i = i + 1;
    }
    assert(path@.take(n as int) =~= path@);
    path.substring_char(start, n)
}

/// The status line of one pane, its message count aside.
pub open spec fn status_describes(s: PaneStatus, p: PaneInfo) -> bool {
    &&& s.pane_id@ == p.full_id()
    &&& s.title@ == p.title@
    &&& s.command@ == command_column(p.pane_command)
    &&& s.running == !p.exited
    &&& s.exit_status == p.exit_status
}

/// The message count of `s` is that of a scrollback that `get_scrollback`
/// returned for the full pane ID of `p`.
pub open spec fn counted_from<F: Fn(&str) -> Option<String>>(get_scrollback: F, s: PaneStatus, p: PaneInfo) -> bool {
    exists|id: &str, sb: Option<String>|
        id@ == p.full_id() && #[trigger] get_scrollback.ensures((id,), sb) && s.message_count
            == scrollback_count(sb)
}

/// Build a [`StatusSummary`] from a list of panes and a function that provides
/// each pane's scrollback (in production, a dump of the pane).
///
/// Each pane's message count is the number of marked lines in what
/// `get_scrollback` returned for its full pane ID, and zero when it returned `None`.
pub fn summarize(panes: &[PaneInfo], get_scrollback: impl Fn(&str) -> Option<String>) -> (r:
    StatusSummary)
    requires
        forall|id: &str| get_scrollback.requires((id,)),
    ensures
        r.total == panes@.len(),
        r.running == count_running(panes@),
        r.exited == count_exited(panes@),
        r.running + r.exited == r.total,
        r.running == panes@.filter(|p: PaneInfo| !p.exited).len(),
        r.exited == panes@.filter(|p: PaneInfo| p.exited).len(),
        r.panes@.len() == panes@.len(),
        forall|i: int|
            0 <= i < panes@.len() ==> {
                &&& #[trigger] r.panes@[i].running == !panes@[i].exited
                &&& r.panes@[i].exit_status == panes@[i].exit_status
                &&& r.panes@[i].pane_id@ == panes@[i].full_id()
                &&& r.panes@[i].title@ == panes@[i].title@
            },
        forall|i: int| 0 <= i < panes@.len() ==> status_describes(#[trigger] r.panes@[i], panes@[i]),
        forall|i: int|
            0 <= i < panes@.len() ==> counted_from(get_scrollback, #[trigger] r.panes@[i], panes@[i]),
{
    let mut running: usize = 0;
    let mut exited: usize = 0;
    let mut statuses: Vec<PaneStatus> = Vec::new();
    let mut i: usize = 0;
    while i < panes.len()
        invariant
            forall|id: &str| get_scrollback.requires((id,)),
            i <= panes@.len(),
            running == count_running(panes@.take(i as int)),
            exited == count_exited(panes@.take(i as int)),
            running + exited == i,
            statuses@.len() == i,
            forall|j: int| 0 <= j < i ==> status_describes(#[trigger] statuses@[j], panes@[j]),
            forall|j: int|
                0 <= j < i ==> counted_from(get_scrollback, #[trigger] statuses@[j], panes@[j]),
        decreases panes@.len() - i,
    {
        let pane = &panes[i];
        assert(panes@.take(i + 1).drop_last() =~= panes@.take(i as int));
        if pane.exited {
            exited = exited + 1;
        } else {
            running = running + 1;
        }
        let pane_id = pane.pane_id();
        let id = pane_id.as_str();
        let sb = get_scrollback(id);
        let msg_count = match &sb {
            Some(s) => count_messages(s.as_str()),
            None => 0,
        };
        assert(get_scrollback.ensures((id,), sb));
        let command = match &pane.pane_command {
            Some(c) => owned(basename_of(c.as_str())),
            None => owned("-"),
        };
        proof {
            reveal_strlit("-");
        }
        let status = PaneStatus {
            pane_id,
            title: pane.title.clone(),
            command,
            running: !pane.exited,
            exit_status: pane.exit_status,
            message_count: msg_count,
        };
        assert(status.title@ == pane.title@ && status.command@ == command_column(pane.pane_command));
        assert(counted_from(get_scrollback, status, panes@[i as int]));
        let ghost before = statuses@;
        statuses.push(status);
        assert(forall|j: int| 0 <= j < i ==> statuses@[j] == before[j]);
        i = i + 1;
    }
    assert(panes@.take(panes@.len() as int) =~= panes@);
    proof {
        lemma_counts_as_filters(panes@);
    }
    StatusSummary { total: panes.len(), running, exited, panes: statuses }
}

/// The state column of a pane status.
pub open spec fn state_text(p: PaneStatus) -> Seq<char> {
    if p.running {
        "running"@
    } else {
        match p.exit_status {
            Some(code) => "exited ("@ + signed_decimal(code as int) + ")"@,
            None => "exited"@,
        }
    }
}

/// The state column says `running` for a running pane, `exited` for an exited
/// pane without a known exit code, and `exited (<code>)` with the code written
/// as the usual signed decimal numeral otherwise.
pub proof fn lemma_state_column(p: PaneStatus)
    ensures
        p.running ==> state_text(p) == "running"@,
        !p.running && p.exit_status is None ==> state_text(p) == "exited"@,
        !p.running && p.exit_status is Some ==> exists|d: Seq<char>|
            #[trigger] is_signed_numeral_of(d, p.exit_status->0 as int) && state_text(p) == "exited ("@
                + d + ")"@,
{
    if !p.running && p.exit_status is Some {
        let c = p.exit_status->0 as int;
        lemma_signed_decimal_is_numeral(c);
        assert(is_signed_numeral_of(signed_decimal(c), c));
    }
}

/// The text of the line that describes one pane, without its line break.
pub open spec fn pane_text(p: PaneStatus) -> Seq<char> {
    "  "@ + p.pane_id@ + " | "@ + p.title@ + " | "@ + p.command@ + " | "@ + state_text(p) + " | "@
        + decimal(p.message_count as nat) + " msgs"@
}

/// The line that describes one pane in the summary text.
pub open spec fn pane_line(p: PaneStatus) -> Seq<char> {
    pane_text(p) + "\n"@
}

/// The lines of all panes, in order.
pub open spec fn pane_lines(panes: Seq<PaneStatus>) -> Seq<char>
    decreases panes.len(),
{
    if panes.len() == 0 {
        Seq::empty()
    } else {
        pane_lines(panes.drop_last()) + pane_line(panes.last())
    }
}

/// The text of the header line of the summary, without its line break.
pub open spec fn header_text(summary: StatusSummary) -> Seq<char> {
    decimal(summary.total as nat) + " panes ("@ + decimal(summary.running as nat) + " running, "@
        + decimal(summary.exited as nat) + " exited)"@
}

/// The header line of the summary text.
pub open spec fn header_line(summary: StatusSummary) -> Seq<char> {
    header_text(summary) + "\n"@
}

/// The summary as text: the header line, then one line per pane.
pub open spec fn summary_text(summary: StatusSummary) -> Seq<char> {
    header_line(summary) + pane_lines(summary.panes@)
}

fn append_state(out: &mut String, p: &PaneStatus)
    ensures
        final(out)@ == old(out)@ + state_text(*p),
{
    if p.running {
        out.append("running");
    } else {
        match p.exit_status {
            Some(code) => {
                out.append("exited (");
                append_signed(out, code);
                out.append(")");
                assert(out@ =~= old(out)@ + state_text(*p));
            },
            None => {
                out.append("exited");
            },
        }
    }
}

fn append_pane_line(out: &mut String, p: &PaneStatus)
    ensures
        final(out)@ == old(out)@ + pane_line(*p),
{
    out.append("  ");
    out.append(p.pane_id.as_str());
    out.append(" | ");
    out.append(p.title.as_str());
    out.append(" | ");
    out.append(p.command.as_str());
    out.append(" | ");
    append_state(out, p);
    out.append(" | ");
    append_decimal(out, p.message_count as u64);
    out.append(" msgs");
    out.append("\n");
    assert(out@ =~= old(out)@ + pane_line(*p));
}

/// Format the summary as a human-readable string.
pub fn format_summary(summary: &StatusSummary) -> (out: String)
    ensures
        out@ == summary_text(*summary),
{
    let mut out = String::new();
    append_decimal(&mut out, summary.total as u64);
    out.append(" panes (");
    append_decimal(&mut out, summary.running as u64);
    out.append(" running, ");
    append_decimal(&mut out, summary.exited as u64);
    out.append(" exited)");
    out.append("\n");
    assert(out@ =~= header_line(*summary));
    let mut i: usize = 0;
    while i < summary.panes.len()
        invariant
            i <= summary.panes@.len(),
            out@ == header_line(*summary) + pane_lines(summary.panes@.take(i as int)),
        decreases summary.panes@.len() - i,
    {
        append_pane_line(&mut out, &summary.panes[i]);
        assert(summary.panes@.take(i + 1).drop_last() =~= summary.panes@.take(i as int));
        i = i + 1;
    }
    assert(summary.panes@.take(summary.panes@.len() as int) =~= summary.panes@);
    out
}

proof fn lemma_pane_lines_concat(x: Seq<PaneStatus>, y: Seq<PaneStatus>)
    ensures
        pane_lines(x + y) == pane_lines(x) + pane_lines(y),
    decreases y.len(),
{
    if y.len() == 0 {
        assert(x + y =~= x);
        assert(pane_lines(x) + pane_lines(y) =~= pane_lines(x));
    } else {
        lemma_pane_lines_concat(x, y.drop_last());
        assert((x + y).drop_last() =~= x + y.drop_last());
        assert(pane_lines(x) + pane_lines(y) =~= pane_lines(x) + pane_lines(y.drop_last())
            + pane_line(y.last()));
    }
}

/// The status text of a summary of `panes` (as [`summarize`] makes it) starts
/// with the pane counts, then holds one line per pane in the order of `panes`,
/// each beginning with the pane's full ID and title.
pub proof fn lemma_status_text_follows_panes(panes: Seq<PaneInfo>, r: StatusSummary)
    requires
        r.total == panes.len(),
        r.running == count_running(panes),
        r.exited == count_exited(panes),
        r.panes@.len() == panes.len(),
        forall|i: int| 0 <= i < panes.len() ==> status_describes(#[trigger] r.panes@[i], panes[i]),
    ensures
        summary_text(r) == decimal(panes.len()) + " panes ("@ + decimal(count_running(panes))
            + " running, "@ + decimal(count_exited(panes)) + " exited)"@ + "\n"@ + pane_lines(r.panes@),
        forall|i: int|
            0 <= i < panes.len() ==> pane_lines(r.panes@) == pane_lines(r.panes@.take(i))
                + #[trigger] pane_line(r.panes@[i]) + pane_lines(r.panes@.skip(i + 1)),
        forall|i: int|
            0 <= i < panes.len() ==> has_prefix(
                #[trigger] pane_line(r.panes@[i]),
                "  "@ + panes[i].full_id() + " | "@ + panes[i].title@ + " | "@,
            ),
{
    let ps = r.panes@;
    assert forall|i: int| 0 <= i < panes.len() implies pane_lines(ps) == pane_lines(ps.take(i))
        + #[trigger] pane_line(ps[i]) + pane_lines(ps.skip(i + 1)) by {
        lemma_pane_lines_split(ps, i);
    }
    assert forall|i: int| 0 <= i < panes.len() implies has_prefix(
        #[trigger] pane_line(ps[i]),
        "  "@ + panes[i].full_id() + " | "@ + panes[i].title@ + " | "@,
    ) by {
        lemma_pane_line_prefix(ps[i], panes[i]);
    }
}

proof fn lemma_pane_lines_split(ps: Seq<PaneStatus>, i: int)
    requires
        0 <= i < ps.len(),
    ensures
        pane_lines(ps) == pane_lines(ps.take(i)) + pane_line(ps[i]) + pane_lines(ps.skip(i + 1)),
{
    assert(ps =~= ps.take(i) + (seq![ps[i]] + ps.skip(i + 1)));
    lemma_pane_lines_concat(ps.take(i), seq![ps[i]] + ps.skip(i + 1));
    lemma_pane_lines_concat(seq![ps[i]], ps.skip(i + 1));
    assert(seq![ps[i]].drop_last() =~= Seq::<PaneStatus>::empty());
    assert(pane_lines(Seq::<PaneStatus>::empty()) + pane_line(ps[i]) =~= pane_line(ps[i]));
}

proof fn lemma_pane_line_prefix(s: PaneStatus, p: PaneInfo)
    requires
        status_describes(s, p),
    ensures
        has_prefix(pane_line(s), "  "@ + p.full_id() + " | "@ + p.title@ + " | "@),
        has_prefix(pane_text(s), "  "@ + p.full_id() + " | "@ + p.title@ + " | "@),
{
    let pre = "  "@ + p.full_id() + " | "@ + p.title@ + " | "@;
    assert(pane_text(s).subrange(0, pre.len() as int) =~= pre);
    assert(pane_line(s).subrange(0, pre.len() as int) =~= pre);
}

/// `s` holds no line break.
pub open spec fn single_line(s: Seq<char>) -> bool {
    forall|k: int| 0 <= k < s.len() ==> s[k] != '\n'
}

proof fn lemma_segments_of_single_line(s: Seq<char>)
    requires
        single_line(s),
    ensures
        segments(s) == seq![s],
    decreases s.len(),
{
    if s.len() > 0 {
        let t = s.drop_last();
        assert(single_line(t));
        lemma_segments_of_single_line(t);
        assert(s[s.len() - 1] != '\n');
        assert(t.push(s.last()) =~= s);
        assert(seq![t].update(0, t.push(s.last())) =~= seq![s]);
    } else {
        assert(s =~= Seq::<char>::empty());
    }
}

proof fn lemma_decimal_single_line(n: nat)
    ensures
        single_line(decimal(n)),
    decreases n,
{
    if n >= 10 {
        lemma_decimal_single_line(n / 10);
    }
}

proof fn lemma_basename_single_line(path: Seq<char>)
    requires
        single_line(path),
    ensures
        single_line(basename(path)),
    decreases path.len(),
{
    if path.len() > 0 {
        let t = path.drop_last();
        assert(single_line(t));
        lemma_basename_single_line(t);
        assert(path[path.len() - 1] != '\n');
    }
}

/// The text of a pane's line holds no line break when its title and command hold none.
proof fn lemma_pane_text_single_line(p: PaneStatus)
    requires
        single_line(p.title@),
        single_line(p.command@),
        single_line(p.pane_id@),
    ensures
        single_line(pane_text(p)),
{
    reveal_strlit("  ");
    reveal_strlit(" | ");
    reveal_strlit(" msgs");
    reveal_strlit("running");
    reveal_strlit("exited (");
    reveal_strlit(")");
    reveal_strlit("exited");
    lemma_decimal_single_line(p.message_count as nat);
    match p.exit_status {
        Some(code) => {
            lemma_decimal_single_line(if code < 0 { (-code) as nat } else { code as nat });
        },
        None => {},
    }
    assert(single_line(state_text(p)));
}

/// The lines of `panes`, each without its line break.
pub open spec fn pane_texts(panes: Seq<PaneStatus>) -> Seq<Seq<char>> {
    panes.map_values(|p: PaneStatus| pane_text(p))
}

proof fn lemma_pane_lines_end_in_newline(ps: Seq<PaneStatus>)
    requires
        ps.len() > 0,
    ensures
        pane_lines(ps).len() > 0,
        pane_lines(ps).last() == '\n',
{
    reveal_strlit("\n");
    assert(pane_lines(ps) == pane_lines(ps.drop_last()) + (pane_text(ps.last()) + seq!['\n']));
}

#[verifier::spinoff_prover]
proof fn lemma_segments_of_pane_lines(ps: Seq<PaneStatus>)
    requires
        forall|i: int| 0 <= i < ps.len() ==> single_line(#[trigger] pane_text(ps[i])),
    ensures
        segments(pane_lines(ps)) == pane_texts(ps).push(Seq::<char>::empty()),
    decreases ps.len(),
{
    reveal_strlit("\n");
    if ps.len() == 0 {
        assert(segments(pane_lines(ps)) =~= pane_texts(ps).push(Seq::<char>::empty()));
    } else {
        let init = ps.drop_last();
        let body = pane_text(ps.last());
        assert(single_line(pane_text(ps[ps.len() - 1])));
        assert forall|i: int| 0 <= i < init.len() implies single_line(#[trigger] pane_text(init[i])) by {
            assert(init[i] == ps[i]);
        }
        lemma_segments_of_pane_lines(init);
        lemma_segments_of_single_line(body);
        let e = Seq::<char>::empty();
        assert(segments(e) == seq![e]);
        let p = pane_lines(init);
        lemma_segments_concat(body, e);
        assert(body + seq!['\n'] + e =~= body + seq!['\n']);
        assert(segments(body + seq!['\n']) == seq![body] + seq![e]);
        if init.len() == 0 {
            assert(pane_lines(ps) =~= body + seq!['\n']);
            assert(pane_texts(ps).push(e) =~= seq![body] + seq![e]);
        } else {
            lemma_pane_lines_end_in_newline(init);
            let q = p.drop_last();
            assert(p =~= q + seq!['\n'] + e);
            lemma_segments_concat(q, e);
            assert(segments(q) + seq![e] == pane_texts(init).push(e));
            assert((segments(q) + seq![e]).drop_last() =~= segments(q));
            assert(pane_texts(init).push(e).drop_last() =~= pane_texts(init));
            assert(pane_lines(ps) =~= q + seq!['\n'] + (body + seq!['\n']));
            lemma_segments_concat(q, body + seq!['\n']);
            assert(pane_texts(ps).push(e) =~= pane_texts(init) + (seq![body] + seq![e]));
        }
    }
}

/// The status text, read line by line: the first line is the header with the
/// pane counts, line `i + 1` is the line of pane `i` (its full ID, title,
/// command, state and message count), and nothing follows the last line break. This holds of a summary
/// of `panes` (as [`summarize`] makes it) when no title or command holds a line
/// break; lines are the newline-separated segments.
pub proof fn lemma_status_lines(panes: Seq<PaneInfo>, r: StatusSummary)
    requires
        r.total == panes.len(),
        r.running == count_running(panes),
        r.exited == count_exited(panes),
        r.panes@.len() == panes.len(),
        forall|i: int| 0 <= i < panes.len() ==> status_describes(#[trigger] r.panes@[i], panes[i]),
        forall|i: int|
            0 <= i < panes.len() ==> single_line(#[trigger] panes[i].title@) && match panes[i].pane_command {
                Some(c) => single_line(c@),
                None => true,
            },
    ensures
        segments(summary_text(r)).len() == panes.len() + 2,
        segments(summary_text(r))[0] == decimal(panes.len()) + " panes ("@ + decimal(
            count_running(panes),
        ) + " running, "@ + decimal(count_exited(panes)) + " exited)"@,
        forall|i: int|
            0 <= i < panes.len() ==> has_prefix(
                #[trigger] segments(summary_text(r))[i + 1],
                "  "@ + panes[i].full_id() + " | "@ + panes[i].title@ + " | "@,
            ),
        forall|i: int|
            0 <= i < panes.len() ==> #[trigger] segments(summary_text(r))[i + 1] == "  "@
                + panes[i].full_id() + " | "@ + panes[i].title@ + " | "@ + command_column(
                panes[i].pane_command,
            ) + " | "@ + state_text(r.panes@[i]) + " | "@ + decimal(r.panes@[i].message_count as nat)
                + " msgs"@,
        segments(summary_text(r)).last() == Seq::<char>::empty(),
{
    reveal_strlit("\n");
    reveal_strlit(" panes (");
    reveal_strlit(" running, ");
    reveal_strlit(" exited)");
    reveal_strlit("-");
    reveal_strlit("terminal_");
    reveal_strlit("plugin_");
    let ps = r.panes@;
    assert forall|i: int| 0 <= i < ps.len() implies single_line(#[trigger] pane_text(ps[i])) by {
        assert(status_describes(ps[i], panes[i]));
        assert(single_line(panes[i].title@));
        match panes[i].pane_command {
            Some(c) => lemma_basename_single_line(c@),
            None => {},
        }
        lemma_decimal_single_line(panes[i].id as nat);
        lemma_pane_text_single_line(ps[i]);
    }
    lemma_segments_of_pane_lines(ps);
    let h = header_text(r);
    lemma_decimal_single_line(r.total as nat);
    lemma_decimal_single_line(r.running as nat);
    lemma_decimal_single_line(r.exited as nat);
    assert(single_line(h));
    lemma_segments_of_single_line(h);
    assert(summary_text(r) =~= h + seq!['\n'] + pane_lines(ps));
    lemma_segments_concat(h, pane_lines(ps));
    let segs = segments(summary_text(r));
    assert(segs == seq![h] + pane_texts(ps).push(Seq::<char>::empty()));
    assert forall|i: int| 0 <= i < panes.len() implies has_prefix(
        #[trigger] segs[i + 1],
        "  "@ + panes[i].full_id() + " | "@ + panes[i].title@ + " | "@,
    ) by {
        assert(segs[i + 1] == pane_text(ps[i]));
        lemma_pane_line_prefix(ps[i], panes[i]);
    }
    assert forall|i: int| 0 <= i < panes.len() implies #[trigger] segs[i + 1] == "  "@
        + panes[i].full_id() + " | "@ + panes[i].title@ + " | "@ + command_column(
        panes[i].pane_command,
    ) + " | "@ + state_text(ps[i]) + " | "@ + decimal(ps[i].message_count as nat) + " msgs"@ by {
        assert(segs[i + 1] == pane_text(ps[i]));
        assert(status_describes(ps[i], panes[i]));
    }
}

proof fn lemma_counts_concat(a: Seq<PaneInfo>, b: Seq<PaneInfo>)
    ensures
        count_running(a + b) == count_running(a) + count_running(b),
        count_exited(a + b) == count_exited(a) + count_exited(b),
    decreases b.len(),
{
    if b.len() == 0 {
        assert(a + b =~= a);
    } else {
        lemma_counts_concat(a, b.drop_last());
        assert((a + b).drop_last() =~= a + b.drop_last());
    }
}

/// Two status lines describe the same pane state (their message counts aside).
pub open spec fn same_status(s: PaneStatus, t: PaneStatus) -> bool {
    &&& s.pane_id@ == t.pane_id@
    &&& s.title@ == t.title@
    &&& s.command@ == t.command@
    &&& s.running == t.running
    &&& s.exit_status == t.exit_status
}

/// A summary of `a` followed by `b` adds up the summaries of `a` and of `b`:
/// the counts are sums, and the pane statuses are those of `a`, then those of
/// `b`, in order. (Message counts come from the scrollback function and agree
/// when it gives the same answer each time it is asked.)
pub proof fn lemma_summary_of_concat(
    a: Seq<PaneInfo>,
    b: Seq<PaneInfo>,
    sa: StatusSummary,
    sb: StatusSummary,
    sab: StatusSummary,
)
    requires
        sa.total == a.len() && sa.running == count_running(a) && sa.exited == count_exited(a),
        sb.total == b.len() && sb.running == count_running(b) && sb.exited == count_exited(b),
        sab.total == (a + b).len() && sab.running == count_running(a + b) && sab.exited
            == count_exited(a + b),
        sa.panes@.len() == a.len(),
        sb.panes@.len() == b.len(),
        sab.panes@.len() == (a + b).len(),
        forall|i: int| 0 <= i < a.len() ==> status_describes(#[trigger] sa.panes@[i], a[i]),
        forall|i: int| 0 <= i < b.len() ==> status_describes(#[trigger] sb.panes@[i], b[i]),
        forall|i: int|
            0 <= i < (a + b).len() ==> status_describes(#[trigger] sab.panes@[i], (a + b)[i]),
    ensures
        sab.total == sa.total + sb.total,
        sab.running == sa.running + sb.running,
        sab.exited == sa.exited + sb.exited,
        sab.panes@.len() == sa.panes@.len() + sb.panes@.len(),
        forall|i: int| 0 <= i < a.len() ==> same_status(#[trigger] sab.panes@[i], sa.panes@[i]),
        forall|i: int|
            0 <= i < b.len() ==> same_status(#[trigger] sab.panes@[a.len() + i], sb.panes@[i]),
{
    lemma_counts_concat(a, b);
    assert forall|i: int| 0 <= i < a.len() implies same_status(#[trigger] sab.panes@[i], sa.panes@[i]) by {
        assert(status_describes(sab.panes@[i], (a + b)[i]));
        assert(status_describes(sa.panes@[i], a[i]));
        assert((a + b)[i] == a[i]);
    }
    assert forall|i: int| 0 <= i < b.len() implies same_status(
        #[trigger] sab.panes@[a.len() + i],
        sb.panes@[i],
    ) by {
        assert(status_describes(sab.panes@[a.len() + i], (a + b)[a.len() + i]));
        assert(status_describes(sb.panes@[i], b[i]));
        assert((a + b)[a.len() + i] == b[i]);
    }
}

} // verus!
