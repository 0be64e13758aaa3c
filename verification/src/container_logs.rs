//! The log of a container: cutting what it writes into lines, and keeping the last of them for an
//! error message.

use std::collections::VecDeque;

use vstd::prelude::*;

use crate::text;

verus! {

/// How many lines are kept while a gateway starts.
pub const RECENT_LOG_LINES: usize = 15;

// ---------------------------------------------------------------------------
// Lines
// ---------------------------------------------------------------------------

/// `line` as a list, or nothing for an empty line.
pub open spec fn unless_empty(line: Seq<char>) -> Seq<Seq<char>> {
    if line.len() == 0 {
        Seq::empty()
    } else {
        seq![line]
    }
}

/// The lines of `t` that a line feed ends, without carriage returns at their ends and without
/// those that are then empty.
pub open spec fn ended_lines(t: Seq<char>) -> Seq<Seq<char>>
    decreases t.len(),
{
    let k = text::run(t, text::but('\n')) as int;
    if k < t.len() {
        unless_empty(text::trim_end(t.take(k), text::only('\r'))) + ended_lines(t.skip(k + 1))
    } else {
        Seq::empty()
    }
}

/// What follows the last line feed in `t`.
pub open spec fn open_line(t: Seq<char>) -> Seq<char> {
    t.skip(text::last_position(t, '\n') + 1)
}

/// Where the first line feed of a text is, seen from after it.
proof fn lemma_open_line_rest(t: Seq<char>)
    ensures
        text::run(t, text::but('\n')) <= t.len(),
        text::run(t, text::but('\n')) < t.len() ==> open_line(t) == open_line(
            t.skip(text::run(t, text::but('\n')) as int + 1),
        ),
        text::run(t, text::but('\n')) == t.len() ==> open_line(t) == t,
{
    let p = text::but('\n');
    let k = text::run(t, p) as int;
    text::lemma_run(t, p);
    text::lemma_last_position(t, '\n');
    let l = text::last_position(t, '\n');
    if k < t.len() {
        let u = t.skip(k + 1);
        text::lemma_last_position(u, '\n');
        let m = text::last_position(u, '\n');
        if m >= 0 {
            assert(u[m] == t[k + 1 + m]);
            if l > k + 1 + m {
                assert(u[l - k - 1] == t[l]);
            }
            assert(l == k + 1 + m);
        } else {
            if l > k {
                assert(u[l - k - 1] == t[l]);
            }
            assert(l == k);
        }
        assert(t.skip(l + 1) =~= u.skip(m + 1));
    } else {
        if l >= 0 {
            assert(p(t[l]));
        }
        assert(t.skip(0) =~= t);
    }
}

/// The lines that come out do not depend on how the text is cut into pieces: what is left of one
/// piece and the next piece give what both together give.
pub proof fn law_lines_do_not_depend_on_the_pieces(t: Seq<char>, next: Seq<char>)
    ensures
        ended_lines(t) + ended_lines(open_line(t) + next) == ended_lines(t + next),
        open_line(open_line(t) + next) == open_line(t + next),
    decreases t.len(),
{
    let p = text::but('\n');
    let k = text::run(t, p) as int;
    text::lemma_run(t, p);
    lemma_open_line_rest(t);
    if k < t.len() {
        let both = t + next;
        assert forall|i: int| 0 <= i < k implies p(#[trigger] both[i]) by {
            assert(p(t[i]));
        }
        assert(both[k] == t[k]);
        text::lemma_run_is(both, p, k);
        assert(both.take(k) =~= t.take(k));
        assert(both.skip(k + 1) =~= t.skip(k + 1) + next);
        law_lines_do_not_depend_on_the_pieces(t.skip(k + 1), next);
        lemma_open_line_rest(both);
        let head = unless_empty(text::trim_end(t.take(k), text::only('\r')));
        assert(ended_lines(t) == head + ended_lines(t.skip(k + 1)));
        assert(ended_lines(both) == head + ended_lines(t.skip(k + 1) + next));
        assert(head + ended_lines(t.skip(k + 1)) + ended_lines(open_line(t) + next) =~= head + (
        ended_lines(t.skip(k + 1)) + ended_lines(open_line(t) + next)));
    } else {
        assert(ended_lines(t) =~= Seq::empty());
        assert(ended_lines(t) + ended_lines(t + next) =~= ended_lines(t + next));
    }
}

/// Takes a piece of log text after what is left of the one before, and gives out the lines that
/// are now complete.
pub fn append_log_chunk(partial: &mut String, chunk: &str) -> (lines: Vec<String>)
    ensures
        text::views(lines@) == ended_lines(old(partial)@ + chunk@),
        final(partial)@ == open_line(old(partial)@ + chunk@),
{
    broadcast use text::lemma_views_push;

    let ghost all = partial@ + chunk@;
    partial.append(chunk);
    let v = text::chars(partial.as_str());
    let mut lines: Vec<String> = Vec::new();
    let mut from: usize = 0;
    assert(text::views(lines@) =~= Seq::empty());
    assert(all.skip(0) =~= all);
    assert(Seq::<Seq<char>>::empty() + ended_lines(all) =~= ended_lines(all));
    loop
        invariant_except_break
            from <= v@.len(),
            v@ == all,
            text::views(lines@) + ended_lines(all.skip(from as int)) == ended_lines(all),
            open_line(all.skip(from as int)) == open_line(all),
        ensures
            from <= v@.len(),
            v@ == all,
            text::views(lines@) == ended_lines(all),
            all.skip(from as int) == open_line(all),
        decreases v@.len() - from,
    {
        let ghost rest = all.skip(from as int);
        let pos = text::find_char(&v, from, '\n');
        proof {
            lemma_open_line_rest(rest);
        }
        if pos == v.len() {
            proof {
                assert(ended_lines(rest) =~= Seq::empty());
                assert(text::views(lines@) + ended_lines(rest) =~= text::views(lines@));
            }
            break;
        }
        let piece = text::slice(&v, from, pos);
        let line = text::trim_end_char(piece.as_str(), '\r');
        let ghost done = text::views(lines@);
        proof {
            assert(piece@ =~= rest.take(pos - from));
            assert(rest.skip(pos - from + 1) =~= all.skip(pos + 1));
            assert(done + (unless_empty(line@) + ended_lines(all.skip(pos + 1))) =~= done
                + unless_empty(line@) + ended_lines(all.skip(pos + 1)));
            if line@.len() == 0 {
                assert(done + unless_empty(line@) =~= done);
            } else {
                assert(done + unless_empty(line@) =~= done.push(line@));
            }
        }
        if !line.as_str().is_empty() {
            lines.push(line);
        }
        from = pos + 1;
    }
    let rest = text::slice(&v, from, v.len());
    assert(rest@ =~= all.skip(from as int));
    *partial = rest;
    lines
}

/// The line that is left when the log ends, if it holds more than white space.
pub fn flush_partial(partial: &mut String) -> (line: Option<String>)
    ensures
        final(partial)@ == Seq::<char>::empty(),
        line is None <==> text::blank(old(partial)@),
        line matches Some(s) ==> s@ == text::trimmed(old(partial)@),
{
    proof {
        text::lemma_trimmed_empty(partial@);
    }
    let line = text::trim(partial.as_str());
    *partial = String::new();
    if line.as_str().is_empty() {
        None
    } else {
        Some(line)
    }
}

// ---------------------------------------------------------------------------
// Streams
// ---------------------------------------------------------------------------

/// A piece of what a container writes.
#[derive(Debug)]
pub enum LogOutput {
    StdOut(Vec<u8>),
    StdErr(Vec<u8>),
    Console(Vec<u8>),
    /// Input that was echoed, which is no log.
    StdIn,
}

impl LogOutput {
    /// The bytes of a log, as text.
    pub open spec fn log_text(self) -> Option<Seq<char>> {
        match self {
            LogOutput::StdOut(b) | LogOutput::StdErr(b) | LogOutput::Console(b) => Some(
                text::lossy_text(b@),
            ),
            LogOutput::StdIn => None,
        }
    }

    /// The text of the piece. `None`: it is no log.
    pub fn text(&self) -> (r: Option<String>)
        ensures
            text::opt_view(r) == self.log_text(),
    {
        match self {
            LogOutput::StdOut(b) => Some(text::utf8_lossy(b.as_slice())),
            LogOutput::StdErr(b) => Some(text::utf8_lossy(b.as_slice())),
            LogOutput::Console(b) => Some(text::utf8_lossy(b.as_slice())),
            LogOutput::StdIn => None,
        }
    }
}

/// The lines of a container's streams that are not complete yet.
#[derive(Debug)]
pub struct LogStreams {
    pub stdout: String,
    pub stderr: String,
    pub console: String,
}

impl LogStreams {
    /// Streams from which nothing has come.
    pub fn new() -> (s: LogStreams)
        ensures
            s.stdout@ == Seq::<char>::empty(),
            s.stderr@ == Seq::<char>::empty(),
            s.console@ == Seq::<char>::empty(),
    {
        LogStreams { stdout: String::new(), stderr: String::new(), console: String::new() }
    }

    /// Takes a piece of output, and gives out the lines that are now complete. Each stream has its
    /// own incomplete line.
    pub fn accept(&mut self, output: &LogOutput) -> (lines: Vec<String>)
        ensures
            match *output {
                LogOutput::StdOut(b) => {
                    let all = old(self).stdout@ + text::lossy_text(b@);
                    &&& text::views(lines@) == ended_lines(all)
                    &&& final(self).stdout@ == open_line(all)
                },
                _ => final(self).stdout@ == old(self).stdout@,
            },
            match *output {
                LogOutput::StdErr(b) => {
                    let all = old(self).stderr@ + text::lossy_text(b@);
                    &&& text::views(lines@) == ended_lines(all)
                    &&& final(self).stderr@ == open_line(all)
                },
                _ => final(self).stderr@ == old(self).stderr@,
            },
            match *output {
                LogOutput::Console(b) => {
                    let all = old(self).console@ + text::lossy_text(b@);
                    &&& text::views(lines@) == ended_lines(all)
                    &&& final(self).console@ == open_line(all)
                },
                _ => final(self).console@ == old(self).console@,
            },
            output is StdIn ==> lines@.len() == 0,
    {
        match output {
            LogOutput::StdOut(b) => {
                let chunk = text::utf8_lossy(b.as_slice());
                append_log_chunk(&mut self.stdout, chunk.as_str())
            },
            LogOutput::StdErr(b) => {
                let chunk = text::utf8_lossy(b.as_slice());
                append_log_chunk(&mut self.stderr, chunk.as_str())
            },
            LogOutput::Console(b) => {
                let chunk = text::utf8_lossy(b.as_slice());
                append_log_chunk(&mut self.console, chunk.as_str())
            },
            LogOutput::StdIn => Vec::new(),
        }
    }

    /// The log has ended: gives out what is left of each stream.
    pub fn finish(&mut self) -> (lines: Vec<String>)
        ensures
            text::views(lines@) == unless_empty(text::trimmed(old(self).stdout@)) + unless_empty(
                text::trimmed(old(self).stderr@),
            ) + unless_empty(text::trimmed(old(self).console@)),
            final(self).stdout@ == Seq::<char>::empty(),
            final(self).stderr@ == Seq::<char>::empty(),
            final(self).console@ == Seq::<char>::empty(),
    {
        broadcast use text::lemma_views_push;

        let ghost (a, b, c) = (
            unless_empty(text::trimmed(self.stdout@)),
            unless_empty(text::trimmed(self.stderr@)),
            unless_empty(text::trimmed(self.console@)),
        );
        proof {
            text::lemma_trimmed_empty(self.stdout@);
            text::lemma_trimmed_empty(self.stderr@);
            text::lemma_trimmed_empty(self.console@);
        }
        let mut lines: Vec<String> = Vec::new();
        assert(text::views(lines@) =~= Seq::empty());
        if let Some(line) = flush_partial(&mut self.stdout) {
            lines.push(line);
        }
        assert(text::views(lines@) =~= a);
        if let Some(line) = flush_partial(&mut self.stderr) {
            lines.push(line);
        }
        assert(text::views(lines@) =~= a + b);
        if let Some(line) = flush_partial(&mut self.console) {
            lines.push(line);
        }
        assert(text::views(lines@) =~= a + b + c);
        lines
    }
}

/// The line that stands in the log for a failure of the log stream itself.
pub fn stream_error_line(reason: &str) -> (line: String)
    ensures
        line@ == "[log stream error] "@ + reason@,
{
    "[log stream error] ".to_owned().concat(reason)
}

/// Appends what a piece of output says to the output of a command.
pub fn capture(buffer: &mut String, output: &LogOutput)
    ensures
        final(buffer)@ == (match output.log_text() {
            Some(t) => old(buffer)@ + t,
            None => old(buffer)@,
        }),
{
    if let Some(t) = output.text() {
        buffer.append(t.as_str());
    }
}

// ---------------------------------------------------------------------------
// The last lines
// ---------------------------------------------------------------------------

/// The lines that are kept once `line` has come.
pub open spec fn kept(recent: Seq<Seq<char>>, line: Seq<char>) -> Seq<Seq<char>> {
    if recent.len() == RECENT_LOG_LINES {
        recent.drop_first().push(line)
    } else {
        recent.push(line)
    }
}

/// The lines that are kept once all of `lines` have come, one after the other.
pub open spec fn all_kept(lines: Seq<Seq<char>>) -> Seq<Seq<char>>
    decreases lines.len(),
{
    if lines.len() == 0 {
        Seq::empty()
    } else {
        kept(all_kept(lines.drop_last()), lines.last())
    }
}

/// What is kept of a log is its end: all of it up to the limit, and the last lines beyond that.
pub proof fn law_the_last_lines_are_kept(lines: Seq<Seq<char>>)
    ensures
        all_kept(lines) == (if lines.len() <= RECENT_LOG_LINES {
            lines
        } else {
            lines.skip(lines.len() - RECENT_LOG_LINES)
        }),
    decreases lines.len(),
{
    if lines.len() > 0 {
        let front = lines.drop_last();
        law_the_last_lines_are_kept(front);
        let whole = if lines.len() <= RECENT_LOG_LINES {
            lines
        } else {
            lines.skip(lines.len() - RECENT_LOG_LINES)
        };
        assert(kept(all_kept(front), lines.last()) =~= whole);
    } else {
        assert(all_kept(lines) =~= lines);
    }
}

/// Keeps a line, in place of the oldest one if there are as many as are kept.
pub fn keep_log(recent: &mut VecDeque<String>, line: String)
    ensures
        text::views(final(recent)@) == kept(text::views(old(recent)@), line@),
{
    let ghost l = line@;
    if recent.len() == RECENT_LOG_LINES {
        recent.pop_front();
    }
    recent.push_back(line);
    assert(text::views(recent@) =~= kept(text::views(old(recent)@), l));
}

// ---------------------------------------------------------------------------
// Rendering
// ---------------------------------------------------------------------------

/// Each of `lines` on a line of its own, indented.
pub open spec fn indented(lines: Seq<Seq<char>>) -> Seq<char>
    decreases lines.len(),
{
    if lines.len() == 0 {
        Seq::empty()
    } else {
        indented(lines.drop_last()) + "\n  "@ + lines.last()
    }
}

/// Log lines under a heading, or `none` where there are no lines.
pub open spec fn log_section(lines: Seq<Seq<char>>, none: Seq<char>) -> Seq<char> {
    if lines.len() == 0 {
        none
    } else {
        "container logs:"@ + indented(lines)
    }
}

/// The lines that were kept, for an error message.
pub fn format_recent_logs(recent_logs: &VecDeque<String>) -> (s: String)
    ensures
        s@ == log_section(text::views(recent_logs@), "container logs: none received"@),
{
    if recent_logs.len() == 0 {
        return "container logs: none received".to_owned();
    }
    let ghost all = text::views(recent_logs@);
    let mut rendered = "container logs:".to_owned();
    let mut i: usize = 0;
    assert(all.take(0) =~= Seq::empty());
    assert("container logs:"@ + indented(all.take(0)) =~= "container logs:"@);
    while i < recent_logs.len()
        invariant
            i <= recent_logs@.len(),
            all == text::views(recent_logs@),
            rendered@ == "container logs:"@ + indented(all.take(i as int)),
        decreases recent_logs@.len() - i,
    {
        proof {
            assert(all.take(i + 1).drop_last() =~= all.take(i as int));
            assert(all.take(i + 1).last() == recent_logs@[i as int]@);
        }
        rendered.append("\n  ");
        rendered.append(recent_logs[i].as_str());
        i += 1;
        assert(rendered@ =~= "container logs:"@ + indented(all.take(i as int)));
    }
    assert(all.take(i as int) =~= all);
    rendered
}

/// The lines that were fetched, for an error message.
pub fn format_fetched_logs(lines: &Vec<String>) -> (s: String)
    ensures
        s@ == log_section(text::views(lines@), "container logs: none available"@),
{
    if lines.len() == 0 {
        return "container logs: none available".to_owned();
    }
    let ghost all = text::views(lines@);
    let mut rendered = "container logs:".to_owned();
    let mut i: usize = 0;
    assert(all.take(0) =~= Seq::empty());
    assert("container logs:"@ + indented(all.take(0)) =~= "container logs:"@);
    while i < lines.len()
        invariant
            i <= lines@.len(),
            all == text::views(lines@),
            rendered@ == "container logs:"@ + indented(all.take(i as int)),
        decreases lines@.len() - i,
    {
        proof {
            assert(all.take(i + 1).drop_last() =~= all.take(i as int));
            assert(all.take(i + 1).last() == lines@[i as int]@);
        }
        rendered.append("\n  ");
        rendered.append(lines[i].as_str());
        i += 1;
        assert(rendered@ =~= "container logs:"@ + indented(all.take(i as int)));
    }
    assert(all.take(i as int) =~= all);
    rendered
}

// ---------------------------------------------------------------------------
// Fetching
// ---------------------------------------------------------------------------

/// The lines of `t`, without white space at their ends and without those that are then empty.
pub open spec fn trimmed_lines(t: Seq<char>) -> Seq<Seq<char>>
    decreases t.len(),
{
    let k = text::run(t, text::but('\n')) as int;
    if k < t.len() {
        unless_empty(text::trimmed(t.take(k))) + trimmed_lines(t.skip(k + 1))
    } else {
        unless_empty(text::trimmed(t))
    }
}

/// Adds the trimmed, non-empty lines of `t` to `lines`.
pub fn push_trimmed_lines(lines: &mut Vec<String>, t: &str)
    ensures
        text::views(final(lines)@) == text::views(old(lines)@) + trimmed_lines(t@),
{
    broadcast use text::lemma_views_push;

    let v = text::chars(t);
    let ghost first = text::views(lines@);
    let mut from: usize = 0;
    let mut more = true;
    assert(v@.skip(0) =~= t@);
    while more
        invariant
            from <= v.len(),
            v@ == t@,
            more ==> text::views(lines@) + trimmed_lines(t@.skip(from as int)) == first
                + trimmed_lines(t@),
            !more ==> text::views(lines@) == first + trimmed_lines(t@),
        decreases more as int + v.len() - from,
    {
        let ghost rest = t@.skip(from as int);
        let ghost done = text::views(lines@);
        let pos = text::find_char(&v, from, '\n');
        let piece = text::slice(&v, from, pos);
        let line = text::trim(piece.as_str());
        proof {
            assert(piece@ =~= rest.take(pos - from));
            assert(rest.take(rest.len() as int) =~= rest);
            if pos < v@.len() {
                assert(rest.skip(pos - from + 1) =~= t@.skip(pos + 1));
                assert(done + (unless_empty(line@) + trimmed_lines(t@.skip(pos + 1))) =~= done
                    + unless_empty(line@) + trimmed_lines(t@.skip(pos + 1)));
            }
            if line@.len() == 0 {
                assert(done + unless_empty(line@) =~= done);
            } else {
                assert(done + unless_empty(line@) =~= done.push(line@));
            }
        }
        if !line.as_str().is_empty() {
            lines.push(line);
        }
        if pos == v.len() {
            more = false;
        } else {
            from = pos + 1;
        }
    }
}

/// Adds the lines of a piece of a log that is fetched in one go. White space around a line and
/// empty lines are dropped.
pub fn push_fetched(lines: &mut Vec<String>, output: &LogOutput)
    ensures
        text::views(final(lines)@) == (match output.log_text() {
            Some(t) => text::views(old(lines)@) + trimmed_lines(t),
            None => text::views(old(lines)@),
        }),
{
    if let Some(t) = output.text() {
        push_trimmed_lines(lines, t.as_str());
    }
}

// ---------------------------------------------------------------------------
// Laws
// ---------------------------------------------------------------------------

/// A line comes out when its line feed has come, as it is but for carriage returns at its end, and
/// one that is then empty does not come out. What has no line feed yet stays.
pub proof fn law_lines_come_out_at_line_feeds(t: Seq<char>, line: Seq<char>, rest: Seq<char>)
    requires
        !line.contains('\n'),
    ensures
        ended_lines(line).len() == 0,
        open_line(line) == line,
        open_line(t + seq!['\n'] + line) == line,
        ended_lines(seq!['\n'] + rest) == ended_lines(rest),
        line.len() > 0 && line.last() != '\r' ==> ended_lines(line + seq!['\n'] + rest)
            == seq![line] + ended_lines(rest),
        line.len() > 0 && line.last() != '\r' ==> ended_lines(line + seq!['\r', '\n'] + rest)
            == seq![line] + ended_lines(rest),
{
    let p = text::but('\n');
    assert forall|i: int| 0 <= i < line.len() implies p(#[trigger] line[i]) by {
        assert(line.contains(line[i]));
    }
    text::lemma_run_is(line, p, line.len() as int);
    lemma_open_line_rest(line);
    let s = t + seq!['\n'] + line;
    text::lemma_last_position(s, '\n');
    assert(s[t.len() as int] == '\n');
    let k = text::last_position(s, '\n');
    if k > t.len() {
        assert(s[k] == line[k - t.len() - 1]);
    }
    assert(s.skip(k + 1) =~= line);
    lemma_ended_line(Seq::empty(), rest);
    assert(Seq::<char>::empty() + seq!['\n'] + rest =~= seq!['\n'] + rest);
    assert(unless_empty(text::trim_end(Seq::empty(), text::only('\r'))) + ended_lines(rest)
        =~= ended_lines(rest));
    if line.len() > 0 && line.last() != '\r' {
        text::lemma_trim_end_is(line, text::only('\r'), line.len() as int);
        assert(line.take(line.len() as int) =~= line);
        lemma_ended_line(line, rest);
        let longer = line.push('\r');
        assert forall|i: int| 0 <= i < longer.len() implies longer[i] != '\n' by {
            if i < line.len() {
                assert(longer[i] == line[i]);
            }
        }
        assert(longer[line.len() - 1] == line.last());
        text::lemma_trim_end_is(longer, text::only('\r'), line.len() as int);
        assert(longer.take(line.len() as int) =~= line);
        lemma_ended_line(longer, rest);
        assert(longer + seq!['\n'] + rest =~= line + seq!['\r', '\n'] + rest);
    }
}

proof fn lemma_ended_line(line: Seq<char>, rest: Seq<char>)
    requires
        !line.contains('\n'),
    ensures
        ended_lines(line + seq!['\n'] + rest) == unless_empty(
            text::trim_end(line, text::only('\r')),
        ) + ended_lines(rest),
        trimmed_lines(line + seq!['\n'] + rest) == unless_empty(text::trimmed(line))
            + trimmed_lines(rest),
{
    let s = line + seq!['\n'] + rest;
    let n = line.len() as int;
    assert forall|i: int| 0 <= i < n implies text::but('\n')(#[trigger] s[i]) by {
        assert(line.contains(line[i]));
    }
    assert(s[n] == '\n');
    text::lemma_run_is(s, text::but('\n'), n);
    assert(s.take(n) =~= line);
    assert(s.skip(n + 1) =~= rest);
}

/// Carriage returns at the end of a line make no difference, however many there are.
pub proof fn law_carriage_returns_make_no_difference(line: Seq<char>, rest: Seq<char>)
    requires
        !line.contains('\n'),
    ensures
        ended_lines(line.push('\r') + seq!['\n'] + rest) == ended_lines(
            line + seq!['\n'] + rest,
        ),
{
    let longer = line.push('\r');
    assert forall|i: int| 0 <= i < longer.len() implies longer[i] != '\n' by {
        if i < line.len() {
            assert(line.contains(line[i]));
        }
    }
    assert(longer.drop_last() =~= line);
    lemma_ended_line(line, rest);
    lemma_ended_line(longer, rest);
}

/// A log that is fetched in one go gives each of its lines without white space around it, in their
/// order, and leaves out those that are blank.
pub proof fn law_fetched_lines_are_trimmed(line: Seq<char>, rest: Seq<char>)
    requires
        !line.contains('\n'),
    ensures
        text::blank(line) ==> trimmed_lines(line).len() == 0,
        text::blank(line) ==> trimmed_lines(line + seq!['\n'] + rest) == trimmed_lines(rest),
        !text::blank(line) ==> trimmed_lines(line) == seq![text::trimmed(line)],
        !text::blank(line) ==> trimmed_lines(line + seq!['\n'] + rest) == seq![text::trimmed(line)]
            + trimmed_lines(rest),
{
    let p = text::but('\n');
    assert forall|i: int| 0 <= i < line.len() implies p(#[trigger] line[i]) by {
        assert(line.contains(line[i]));
    }
    text::lemma_run_is(line, p, line.len() as int);
    text::lemma_trimmed_empty(line);
    lemma_ended_line(line, rest);
    assert(Seq::<Seq<char>>::empty() + trimmed_lines(rest) =~= trimmed_lines(rest));
}

/// A line is kept at the end, and pushes out the oldest only where the limit is reached.
pub proof fn law_new_line_comes_last(recent: Seq<Seq<char>>, line: Seq<char>)
    requires
        recent.len() <= 15,
    ensures
        kept(recent, line).last() == line,
        recent.len() < 15 ==> kept(recent, line).drop_last() == recent,
        recent.len() == 15 ==> kept(recent, line).drop_last() == recent.skip(1),
        kept(recent, line).len() <= 15,
{
    if recent.len() < 15 {
        assert(kept(recent, line).drop_last() =~= recent);
    } else {
        assert(kept(recent, line).drop_last() =~= recent.skip(1));
    }
}

/// The section of an error message that shows a log has a heading, and under it every line of the
/// log, in their order, each on a line of its own and two columns in. Without lines it says so.
pub proof fn law_log_section_shows_every_line(
    lines: Seq<Seq<char>>,
    line: Seq<char>,
    none: Seq<char>,
)
    ensures
        log_section(Seq::empty(), none) == none,
        log_section(seq![line], none) == "container logs:"@ + "\n  "@ + line,
        lines.len() > 0 ==> log_section(lines.push(line), none) == log_section(lines, none)
            + "\n  "@ + line,
{
    reveal_with_fuel(indented, 2);
    let one = seq![line];
    assert(one.drop_last() =~= Seq::empty());
    assert(indented(one.drop_last()) =~= Seq::empty());
    assert("container logs:"@ + (Seq::<char>::empty() + "\n  "@ + line) =~= "container logs:"@
        + "\n  "@ + line);
    let more = lines.push(line);
    assert(more.drop_last() =~= lines);
    assert("container logs:"@ + (indented(lines) + "\n  "@ + line) =~= "container logs:"@
        + indented(lines) + "\n  "@ + line);
}

/// What a container writes is log, on whichever stream; what was typed into it is not.
pub proof fn law_output_is_log(bytes: Vec<u8>)
    ensures
        LogOutput::StdOut(bytes).log_text() == Some(text::lossy_text(bytes@)),
        LogOutput::StdErr(bytes).log_text() == Some(text::lossy_text(bytes@)),
        LogOutput::Console(bytes).log_text() == Some(text::lossy_text(bytes@)),
        LogOutput::StdIn.log_text() is None,
{
}

/// A line that is not empty is a list of one.
pub proof fn law_empty_lines_are_no_lines(line: Seq<char>)
    ensures
        line.len() == 0 ==> unless_empty(line).len() == 0,
        line.len() > 0 ==> unless_empty(line) == seq![line],
{
}

} // verus!
