//! The log pane of the terminal interface: what stands on the screen for a list of log lines.

use ratatui::layout::{Constraint, Direction, Layout, Rect};
use vstd::prelude::*;

use crate::number;
use crate::sandbox_logs::{self, LogLine};
use crate::text;

verus! {

// ---------------------------------------------------------------------------
// Styled text
// ---------------------------------------------------------------------------

/// A role that a theme gives a style to.
#[derive(Debug, Clone, Copy, PartialEq, Eq, Structural)]
pub enum Style {
    Plain,
    Text,
    Muted,
    Accent,
    Heading,
    StatusOk,
    StatusWarn,
    StatusErr,
}

/// A stretch of text in one style.
#[derive(Debug)]
pub struct Span {
    pub content: String,
    pub style: Style,
}

impl View for Span {
    type V = (Seq<char>, Style);

    open spec fn view(&self) -> (Seq<char>, Style) {
        (self.content@, self.style)
    }
}

/// The contents of a list of spans.
pub open spec fn span_views(v: Seq<Span>) -> Seq<(Seq<char>, Style)> {
    Seq::new(v.len(), |i: int| v[i]@)
}

fn push_span(v: &mut Vec<Span>, content: &str, style: Style)
    ensures
        span_views(final(v)@) == span_views(old(v)@).push((content@, style)),
{
    v.push(Span { content: content.to_owned(), style });
    assert(span_views(v@) =~= span_views(old(v)@).push((content@, style)));
}

/// The style of a level.
pub open spec fn style_of_level(level: Seq<char>) -> Style {
    if level == "ERROR"@ {
        Style::StatusErr
    } else if level == "WARN"@ {
        Style::StatusWarn
    } else if level == "INFO"@ {
        Style::StatusOk
    } else {
        Style::Muted
    }
}

/// The style of a level.
pub fn level_style(level: &str) -> (s: Style)
    ensures
        s == style_of_level(level@),
{
    if text::same(level, "ERROR") {
        Style::StatusErr
    } else if text::same(level, "WARN") {
        Style::StatusWarn
    } else if text::same(level, "INFO") {
        Style::StatusOk
    } else {
        Style::Muted
    }
}

// ---------------------------------------------------------------------------
// Truncation
// ---------------------------------------------------------------------------

/// The ellipsis.
pub open spec fn ellipsis() -> Seq<char> {
    seq!['…']
}

/// `spans` as they stand on a line of `room` characters: as many of them as fit and, of the next, as
/// much as fits with an ellipsis.
pub open spec fn truncated(spans: Seq<(Seq<char>, Style)>, room: int) -> Seq<(Seq<char>, Style)>
    decreases spans.len(),
{
    if spans.len() == 0 {
        Seq::empty()
    } else {
        let len = spans[0].0.len();
        if len <= room {
            seq![spans[0]] + truncated(spans.drop_first(), room - len)
        } else if room > 1 {
            seq![(spans[0].0.take(room - 1) + ellipsis(), spans[0].1)]
        } else if room == 1 {
            seq![(ellipsis(), Style::Muted)]
        } else {
            Seq::empty()
        }
    }
}

/// Truncate a span list to fit within `max_width` characters, appending `…` if needed.
pub fn truncate_line(spans: Vec<Span>, max_width: usize) -> (line: Vec<Span>)
    ensures
        span_views(line@) == truncated(span_views(spans@), max_width as int),
{
    let ghost all = span_views(spans@);
    let mut remaining: usize = max_width;
    let mut out: Vec<Span> = Vec::new();
    let mut i: usize = 0;
    assert(all.skip(0) =~= all);
    assert(span_views(out@) + truncated(all, max_width as int) =~= truncated(
        all,
        max_width as int,
    ));
    while i < spans.len()
        invariant
            i <= spans@.len(),
            all == span_views(spans@),
            span_views(out@) + truncated(all.skip(i as int), remaining as int) == truncated(
                all,
                max_width as int,
            ),
        decreases spans@.len() - i,
    {
        let ghost rest = all.skip(i as int);
        let ghost done = span_views(out@);
        proof {
            assert(rest[0] == spans@[i as int]@);
            assert(rest.drop_first() =~= all.skip(i + 1));
        }
        let content = text::chars(spans[i].content.as_str());
        if content.len() <= remaining {
            push_span(&mut out, spans[i].content.as_str(), spans[i].style);
            assert(done + truncated(rest, remaining as int) =~= done.push(rest[0]) + truncated(
                all.skip(i + 1),
                remaining - content@.len(),
            ));
            remaining = remaining - content.len();
        } else {
            if remaining > 1 {
                let mut s = text::slice(&content, 0, remaining - 1);
                s.push('…');
                assert(s@ =~= content@.take(remaining - 1) + ellipsis());
                push_span(&mut out, s.as_str(), spans[i].style);
            } else if remaining == 1 {
                proof {
                    reveal_strlit("…");
                    assert("…"@ =~= ellipsis());
                }
                push_span(&mut out, "…", Style::Muted);
            }
            assert(span_views(out@) =~= done + truncated(rest, remaining as int));
            return out;
        }
        i += 1;
    }
    assert(truncated(all.skip(i as int), remaining as int) =~= Seq::empty());
    assert(span_views(out@) =~= truncated(all, max_width as int));
    out
}

/// The text of `spans`.
pub open spec fn text_of(spans: Seq<(Seq<char>, Style)>) -> Seq<char>
    decreases spans.len(),
{
    if spans.len() == 0 {
        Seq::empty()
    } else {
        spans[0].0 + text_of(spans.drop_first())
    }
}

/// A truncated line fits: it has at most as many characters as the line is wide.
pub proof fn law_truncated_line_fits(spans: Seq<(Seq<char>, Style)>, max_width: int)
    requires
        max_width >= 0,
    ensures
        text_of(truncated(spans, max_width)).len() <= max_width,
    decreases spans.len(),
{
    reveal_with_fuel(text_of, 3);
    if spans.len() > 0 {
        let len = spans[0].0.len();
        if len <= max_width {
            law_truncated_line_fits(spans.drop_first(), max_width - len);
            assert(truncated(spans, max_width).drop_first() =~= truncated(
                spans.drop_first(),
                max_width - len,
            ));
        }
    }
}

/// A line that fits is left as it is.
pub proof fn law_short_line_is_kept(spans: Seq<(Seq<char>, Style)>, max_width: int)
    requires
        text_of(spans).len() <= max_width,
    ensures
        truncated(spans, max_width) == spans,
    decreases spans.len(),
{
    if spans.len() > 0 {
        law_short_line_is_kept(spans.drop_first(), max_width - spans[0].0.len());
    }
    assert(truncated(spans, max_width) =~= spans);
}

/// Whether `cut` is the beginning of `whole`, with an ellipsis after it or without one.
pub open spec fn is_beginning(cut: Seq<char>, whole: Seq<char>) -> bool {
    exists|k: int|
        #![trigger whole.take(k)]
        0 <= k <= whole.len() && (cut == whole.take(k) || cut == whole.take(k) + ellipsis())
}

/// What is left of a line is its beginning, with at most an ellipsis after it.
pub proof fn law_truncated_line_is_a_beginning(spans: Seq<(Seq<char>, Style)>, max_width: int)
    requires
        max_width >= 0,
    ensures
        is_beginning(text_of(truncated(spans, max_width)), text_of(spans)),
    decreases spans.len(),
{
    reveal_with_fuel(text_of, 3);
    let whole = text_of(spans);
    let line = truncated(spans, max_width);
    if spans.len() == 0 {
        assert(text_of(line) =~= whole.take(0));
    } else {
        let len = spans[0].0.len() as int;
        let rest = spans.drop_first();
        if len <= max_width {
            law_truncated_line_is_a_beginning(rest, max_width - len);
            assert(line.drop_first() =~= truncated(rest, max_width - len));
            let tail = text_of(truncated(rest, max_width - len));
            let k = choose|k: int|
                #![trigger text_of(rest).take(k)]
                0 <= k <= text_of(rest).len() && (tail == text_of(rest).take(k) || tail == text_of(
                    rest,
                ).take(k) + ellipsis());
            assert(whole.take(len + k) =~= spans[0].0 + text_of(rest).take(k));
            assert(spans[0].0 + (text_of(rest).take(k) + ellipsis()) =~= whole.take(len + k)
                + ellipsis());
        } else if max_width > 1 {
            assert(whole.take(max_width - 1) =~= spans[0].0.take(max_width - 1));
            assert(line.drop_first() =~= Seq::empty());
            assert(text_of(line) =~= whole.take(max_width - 1) + ellipsis());
        } else if max_width == 1 {
            assert(line.drop_first() =~= Seq::empty());
            assert(text_of(line) =~= whole.take(0) + ellipsis());
        } else {
            assert(text_of(line) =~= whole.take(0));
        }
    }
}

// ---------------------------------------------------------------------------
// One line
// ---------------------------------------------------------------------------

/// `s` with spaces after it, up to `width` characters.
pub open spec fn padded(s: Seq<char>, width: nat) -> Seq<char>
    decreases width - s.len(),
{
    if s.len() < width {
        padded(s.push(' '), width)
    } else {
        s
    }
}

fn pad(s: &str, width: usize) -> (r: String)
    ensures
        r@ == padded(s@, width as nat),
{
    let mut r = s.to_owned();
    let mut n: usize = text::chars(s).len();
    while n < width
        invariant
            n == r@.len(),
            padded(r@, width as nat) == padded(s@, width as nat),
        decreases width - n,
    {
        r.push(' ');
        n += 1;
    }
    r
}

/// The style of a source.
pub open spec fn style_of_source(source: Seq<char>) -> Style {
    if source == "sandbox"@ {
        Style::Accent
    } else {
        Style::Muted
    }
}

/// The fields that are not empty, each after a space, as `key=value`.
pub open spec fn field_spans(fields: Seq<(Seq<char>, Seq<char>)>) -> Seq<(Seq<char>, Style)>
    decreases fields.len(),
{
    if fields.len() == 0 {
        Seq::empty()
    } else {
        let rest = field_spans(fields.drop_last());
        if fields.last().1.len() == 0 {
            rest
        } else {
            rest.push((" "@, Style::Plain)).push((fields.last().0 + "="@, Style::Muted)).push(
                (fields.last().1, Style::Text),
            )
        }
    }
}

/// A log line in full: its time, source, level and message, and its fields.
pub open spec fn line_spans(log: LogLine) -> Seq<(Seq<char>, Style)> {
    seq![
        (sandbox_logs::short_time(log.timestamp_ms as int), Style::Muted),
        (" "@, Style::Plain),
        (padded(log.source@, 7), style_of_source(log.source@)),
        (" "@, Style::Plain),
        (padded(log.level@, 5), style_of_level(log.level@)),
        (" "@, Style::Plain),
        (log.message@, Style::Text),
    ] + field_spans(sandbox_logs::shown_fields(log.message@, log.fields@))
}

/// Render a single structured log line — no target, smart field order, truncated.
pub fn render_log_line(log: &LogLine, max_width: usize) -> (line: Vec<Span>)
    ensures
        span_views(line@) == truncated(line_spans(*log), max_width as int),
{
    let source_style = if text::same(log.source.as_str(), "sandbox") {
        Style::Accent
    } else {
        Style::Muted
    };
    let ts = sandbox_logs::format_short_time(log.timestamp_ms);
    let source = pad(log.source.as_str(), 7);
    let level = pad(log.level.as_str(), 5);
    let mut spans: Vec<Span> = Vec::new();
    assert(span_views(spans@) =~= Seq::empty());
    push_span(&mut spans, ts.as_str(), Style::Muted);
    push_span(&mut spans, " ", Style::Plain);
    push_span(&mut spans, source.as_str(), source_style);
    push_span(&mut spans, " ", Style::Plain);
    push_span(&mut spans, level.as_str(), level_style(log.level.as_str()));
    push_span(&mut spans, " ", Style::Plain);
    push_span(&mut spans, log.message.as_str(), Style::Text);
    let ghost head = span_views(spans@);
    let ordered = sandbox_logs::ordered_fields(log);
    let ghost fields = sandbox_logs::ref_views(ordered@);
    let mut i: usize = 0;
    assert(fields.take(0) =~= Seq::empty());
    assert(head + field_spans(fields.take(0)) =~= head);
    while i < ordered.len()
        invariant
            i <= ordered@.len(),
            fields == sandbox_logs::ref_views(ordered@),
            span_views(spans@) == head + field_spans(fields.take(i as int)),
        decreases ordered@.len() - i,
    {
        proof {
            let t = fields.take(i + 1);
            assert(t.drop_last() =~= fields.take(i as int));
            assert(t.last() == (ordered@[i as int].0@, ordered@[i as int].1@));
        }
        let (key, value) = ordered[i];
        if !value.is_empty() {
            let label = key.to_owned().concat("=");
            push_span(&mut spans, " ", Style::Plain);
            push_span(&mut spans, label.as_str(), Style::Muted);
            push_span(&mut spans, value, Style::Text);
        }
        i += 1;
        assert(span_views(spans@) =~= head + field_spans(fields.take(i as int)));
    }
    assert(fields.take(i as int) =~= fields);
    assert(span_views(spans@) =~= line_spans(*log));
    truncate_line(spans, max_width)
}

// ---------------------------------------------------------------------------
// The pane
// ---------------------------------------------------------------------------

/// What the log pane shows.
pub struct LogView<'a> {
    pub sandbox_names: &'a Vec<String>,
    pub sandbox_selected: usize,
    /// The name of the filter.
    pub filter_label: &'a str,
    /// The lines that pass the filter.
    pub filtered: &'a Vec<&'a LogLine>,
    /// Whether there are any lines, filtered or not.
    pub has_lines: bool,
    /// How many lines are scrolled past.
    pub scroll: usize,
    /// The line of the pane that the cursor is on.
    pub cursor: usize,
    pub autoscroll: bool,
}

/// A line of the pane.
#[derive(Debug)]
pub struct PaneLine {
    pub spans: Vec<Span>,
    /// Whether the cursor is on the line.
    pub highlighted: bool,
}

/// The log pane.
#[derive(Debug)]
pub struct LogPane {
    pub title: Span,
    /// How many lines fit.
    pub viewport_height: usize,
    /// Where the cursor is now.
    pub cursor: usize,
    pub lines: Vec<PaneLine>,
    /// What stands in the bottom border.
    pub bottom: Vec<Span>,
}

/// How many lines are visible.
pub open spec fn visible_lines(total: nat, scroll: nat, height: nat) -> nat {
    let left = if total > scroll {
        (total - scroll) as nat
    } else {
        0
    };
    if left < height {
        left
    } else {
        height
    }
}

/// Where the cursor is: not below the last visible line, if there is one.
pub open spec fn cursor_on(visible: nat, cursor: nat) -> nat {
    if visible > 0 && cursor >= visible {
        (visible - 1) as nat
    } else {
        cursor
    }
}

/// What is left of `n` without `border`.
pub open spec fn inside(n: u16, border: int) -> nat {
    if n > border {
        (n - border) as nat
    } else {
        0
    }
}

/// The name of the sandbox whose log is shown.
pub open spec fn selected_name(names: Seq<Seq<char>>, selected: int) -> Seq<char> {
    if selected < names.len() {
        names[selected]
    } else {
        "-"@
    }
}

/// What stands before a log line.
pub open spec fn cursor_mark(here: bool) -> (Seq<char>, Style) {
    if here {
        ("▌ "@, Style::Accent)
    } else {
        ("  "@, Style::Plain)
    }
}

/// A line of the pane: a mark where the cursor is, and a log line in the room that is left.
pub open spec fn pane_spans(log: LogLine, inner_width: nat, here: bool) -> Seq<(Seq<char>, Style)> {
    let room = if inner_width > 2 {
        inner_width - 2
    } else {
        0
    };
    seq![cursor_mark(here)] + truncated(line_spans(log), room)
}

/// The filter, in the bottom border.
pub open spec fn filter_span(label: Seq<char>) -> (Seq<char>, Style) {
    (" filter: "@ + label + " "@, Style::Muted)
}

/// Whether the pane follows the log, in the bottom border.
pub open spec fn follow_span(autoscroll: bool) -> (Seq<char>, Style) {
    if autoscroll {
        (" ● FOLLOWING "@, Style::StatusOk)
    } else {
        (" ○ PAUSED "@, Style::StatusWarn)
    }
}

/// The position of the cursor in the log, in the bottom border.
pub open spec fn position_span(position: nat, total: nat) -> (Seq<char>, Style) {
    if total > 0 {
        (
            " ["@ + number::decimal(position) + "/"@ + number::decimal(total) + "] "@,
            Style::Muted,
        )
    } else {
        (Seq::empty(), Style::Muted)
    }
}

/// Whether a line of the pane is what `spans` and `highlighted` say.
pub open spec fn shows(line: PaneLine, spans: Seq<(Seq<char>, Style)>, highlighted: bool) -> bool {
    span_views(line.spans@) == spans && line.highlighted == highlighted
}

fn mark(line: Vec<Span>, here: bool) -> (r: Vec<Span>)
    ensures
        span_views(r@) == seq![cursor_mark(here)] + span_views(line@),
{
    let mut r: Vec<Span> = Vec::new();
    assert(span_views(r@) =~= Seq::empty());
    if here {
        push_span(&mut r, "▌ ", Style::Accent);
    } else {
        push_span(&mut r, "  ", Style::Plain);
    }
    let mut line = line;
    let ghost rest = line@;
    let ghost first = r@;
    r.append(&mut line);
    assert(span_views(r@) =~= span_views(first) + span_views(rest));
    r
}

/// Whether the pane can say where the cursor is. Only a cursor that is far from any line can be
/// beyond the numbers there are.
pub open spec fn position_fits(view: LogView, height: u16) -> bool {
    ||| view.filtered@.len() == 0 && !view.has_lines
    ||| visible_lines(view.filtered@.len(), view.scroll as nat, inside(height, 2)) > 0
    ||| view.scroll + view.cursor < usize::MAX
}

/// The log pane in an area of this size, borders included.
pub fn draw(view: &LogView, width: u16, height: u16) -> (pane: LogPane)
    requires
        position_fits(*view, height),
    ensures
        pane.title@ == (
            " Logs: "@ + selected_name(
                text::views(view.sandbox_names@),
                view.sandbox_selected as int,
            ) + " "@,
            Style::Heading,
        ),
        pane.viewport_height == inside(height, 2),
        ({
            let total = view.filtered@.len();
            let visible = visible_lines(total, view.scroll as nat, inside(height, 2));
            let cursor = cursor_on(visible, view.cursor as nat);
            &&& pane.cursor == cursor
            &&& if total == 0 && !view.has_lines {
                &&& pane.lines@.len() == 1
                &&& shows(pane.lines@[0], seq![("Loading..."@, Style::Muted)], false)
                &&& span_views(pane.bottom@) == seq![filter_span(view.filter_label@)]
            } else {
                &&& pane.lines@.len() == visible
                &&& forall|i: int|
                    0 <= i < visible ==> shows(
                        #[trigger] pane.lines@[i],
                        pane_spans(
                            *view.filtered@[view.scroll + i],
                            inside(width, 4),
                            i == cursor,
                        ),
                        i == cursor,
                    )
                &&& span_views(pane.bottom@) == seq![
                    follow_span(view.autoscroll),
                    position_span((view.scroll + cursor + 1) as nat, total),
                    filter_span(view.filter_label@),
                ]
            }
        }),
{
    let name = if view.sandbox_selected < view.sandbox_names.len() {
        view.sandbox_names[view.sandbox_selected].as_str()
    } else {
        "-"
    };
    let title = Span {
        content: " Logs: ".to_owned().concat(name).concat(" "),
        style: Style::Heading,
    };
    let filter = " filter: ".to_owned().concat(view.filter_label).concat(" ");
    let inner_height: usize = height.saturating_sub(2) as usize;
    let inner_width: usize = width.saturating_sub(4) as usize;
    let total: usize = view.filtered.len();
    let left: usize = total.saturating_sub(view.scroll);
    let visible: usize = if left < inner_height {
        left
    } else {
        inner_height
    };
    let cursor: usize = if visible > 0 && view.cursor >= visible {
        visible - 1
    } else {
        view.cursor
    };
    let mut lines: Vec<PaneLine> = Vec::new();
    let mut bottom: Vec<Span> = Vec::new();
    assert(span_views(bottom@) =~= Seq::empty());
    if total == 0 && !view.has_lines {
        let mut spans: Vec<Span> = Vec::new();
        push_span(&mut spans, "Loading...", Style::Muted);
        assert(span_views(spans@) =~= seq![("Loading..."@, Style::Muted)]);
        lines.push(PaneLine { spans, highlighted: false });
        push_span(&mut bottom, filter.as_str(), Style::Muted);
        assert(span_views(bottom@) =~= seq![filter_span(view.filter_label@)]);
        return LogPane { title, viewport_height: inner_height, cursor, lines, bottom };
    }
    let room: usize = inner_width.saturating_sub(2);
    let mut i: usize = 0;
    while i < visible
        invariant
            i <= visible,
            visible == visible_lines(
                view.filtered@.len(),
                view.scroll as nat,
                inner_height as nat,
            ),
            room == (if inner_width > 2 {
                inner_width - 2
            } else {
                0
            }),
            inner_width == inside(width, 4),
            view.filtered.len() == total,
            lines@.len() == i,
            forall|k: int|
                0 <= k < i ==> shows(
                    #[trigger] lines@[k],
                    pane_spans(
                        *view.filtered@[view.scroll + k],
                        inside(width, 4),
                        k == cursor,
                    ),
                    k == cursor,
                ),
        decreases visible - i,
    {
        let log = view.filtered[view.scroll + i];
        let here = i == cursor;
        let spans = mark(render_log_line(log, room), here);
        lines.push(PaneLine { spans, highlighted: here });
        i += 1;
    }
    if view.autoscroll {
        push_span(&mut bottom, " ● FOLLOWING ", Style::StatusOk);
    } else {
        push_span(&mut bottom, " ○ PAUSED ", Style::StatusWarn);
    }
    assert(view.scroll + cursor + 1 <= usize::MAX) by {
        if visible > 0 {
            assert(view.scroll + cursor < view.filtered.len());
        }
    }
    let position: usize = view.scroll + cursor + 1;
    if total > 0 {
        let p = number::render_u64(position as u64);
        let t = number::render_u64(total as u64);
        let scroll_info = " [".to_owned().concat(p.as_str()).concat("/").concat(t.as_str()).concat(
            "] ",
        );
        push_span(&mut bottom, scroll_info.as_str(), Style::Muted);
    } else {
        proof {
            reveal_strlit("");
            assert(""@ =~= Seq::empty());
        }
        push_span(&mut bottom, "", Style::Muted);
    }
    push_span(&mut bottom, filter.as_str(), Style::Muted);
    assert(span_views(bottom@) =~= seq![
        follow_span(view.autoscroll),
        position_span((view.scroll + cursor + 1) as nat, total as nat),
        filter_span(view.filter_label@),
    ]);
    LogPane { title, viewport_height: inner_height, cursor, lines, bottom }
}

/// The cursor is on one of the visible lines, if there are any, and does not move if it was.
pub proof fn law_cursor_is_visible(visible: nat, cursor: nat)
    ensures
        visible > 0 ==> cursor_on(visible, cursor) < visible,
        cursor < visible || visible == 0 ==> cursor_on(visible, cursor) == cursor,
        cursor_on(visible, cursor_on(visible, cursor)) == cursor_on(visible, cursor),
{
}

// ---------------------------------------------------------------------------
// The detail popup
// ---------------------------------------------------------------------------

/// The contents of a list of lines.
pub open spec fn line_views(v: Seq<Vec<Span>>) -> Seq<Seq<(Seq<char>, Style)>> {
    Seq::new(v.len(), |i: int| span_views(v[i]@))
}

fn push_pair(v: &mut Vec<Vec<Span>>, label: &str, value: &str, style: Style)
    ensures
        line_views(final(v)@) == line_views(old(v)@).push(
            seq![(label@, Style::Muted), (value@, style)],
        ),
{
    let mut line: Vec<Span> = Vec::new();
    assert(span_views(line@) =~= Seq::empty());
    push_span(&mut line, label, Style::Muted);
    push_span(&mut line, value, style);
    assert(span_views(line@) =~= seq![(label@, Style::Muted), (value@, style)]);
    v.push(line);
    assert(line_views(v@) =~= line_views(old(v)@).push(
        seq![(label@, Style::Muted), (value@, style)],
    ));
}

fn push_single(v: &mut Vec<Vec<Span>>, content: &str, style: Style)
    ensures
        line_views(final(v)@) == line_views(old(v)@).push(seq![(content@, style)]),
{
    let mut line: Vec<Span> = Vec::new();
    assert(span_views(line@) =~= Seq::empty());
    push_span(&mut line, content, style);
    assert(span_views(line@) =~= seq![(content@, style)]);
    v.push(line);
    assert(line_views(v@) =~= line_views(old(v)@).push(seq![(content@, style)]));
}

/// The fields that are not empty, one on each line.
pub open spec fn field_lines(fields: Seq<(Seq<char>, Seq<char>)>) -> Seq<Seq<(Seq<char>, Style)>>
    decreases fields.len(),
{
    if fields.len() == 0 {
        Seq::empty()
    } else {
        let rest = field_lines(fields.drop_last());
        if fields.last().1.len() == 0 {
            rest
        } else {
            rest.push(
                seq![
                    ("  "@ + fields.last().0 + ": "@, Style::Muted),
                    (fields.last().1, Style::Text),
                ],
            )
        }
    }
}

/// What the popup says of a log line before its fields.
pub open spec fn detail_head(log: LogLine) -> Seq<Seq<(Seq<char>, Style)>> {
    seq![
        seq![
            ("Time:    "@, Style::Muted),
            (sandbox_logs::short_time(log.timestamp_ms as int), Style::Text),
        ],
        seq![("Source:  "@, Style::Muted), (log.source@, Style::Text)],
        seq![("Level:   "@, Style::Muted), (log.level@, style_of_level(log.level@))],
    ] + (if log.target@.len() == 0 {
        Seq::empty()
    } else {
        seq![seq![("Target:  "@, Style::Muted), (log.target@, Style::Muted)]]
    }) + seq![seq![("Message: "@, Style::Muted), (log.message@, Style::Text)]]
}

/// What the popup says of a log line's fields: nothing, if it has none.
pub open spec fn detail_fields(log: LogLine) -> Seq<Seq<(Seq<char>, Style)>> {
    if log.fields@ == Map::<Seq<char>, Seq<char>>::empty() {
        Seq::empty()
    } else {
        seq![seq![(""@, Style::Plain)], seq![("Fields:"@, Style::Muted)]] + field_lines(
            sandbox_logs::shown_fields(log.message@, log.fields@),
        )
    }
}

/// How to close the popup.
pub open spec fn detail_foot() -> Seq<Seq<(Seq<char>, Style)>> {
    seq![seq![(""@, Style::Plain)], seq![("Press Esc or Enter to close"@, Style::Muted)]]
}

/// The lines of the popup for a log line.
pub fn detail_lines(log: &LogLine) -> (lines: Vec<Vec<Span>>)
    ensures
        line_views(lines@) == detail_head(*log) + detail_fields(*log) + detail_foot(),
{
    let ts = sandbox_logs::format_short_time(log.timestamp_ms);
    let mut lines: Vec<Vec<Span>> = Vec::new();
    assert(line_views(lines@) =~= Seq::empty());
    push_pair(&mut lines, "Time:    ", ts.as_str(), Style::Text);
    push_pair(&mut lines, "Source:  ", log.source.as_str(), Style::Text);
    push_pair(
        &mut lines,
        "Level:   ",
        log.level.as_str(),
        level_style(log.level.as_str()),
    );
    if !log.target.as_str().is_empty() {
        push_pair(&mut lines, "Target:  ", log.target.as_str(), Style::Muted);
    }
    push_pair(&mut lines, "Message: ", log.message.as_str(), Style::Text);
    assert(line_views(lines@) =~= detail_head(*log));
    if !log.fields.is_empty() {
        push_single(&mut lines, "", Style::Plain);
        push_single(&mut lines, "Fields:", Style::Muted);
        let ghost head = line_views(lines@);
        let ordered = sandbox_logs::ordered_fields(log);
        let ghost fields = sandbox_logs::ref_views(ordered@);
        let mut i: usize = 0;
        assert(fields.take(0) =~= Seq::empty());
        assert(head + field_lines(fields.take(0)) =~= head);
        while i < ordered.len()
            invariant
                i <= ordered@.len(),
                fields == sandbox_logs::ref_views(ordered@),
                line_views(lines@) == head + field_lines(fields.take(i as int)),
            decreases ordered@.len() - i,
        {
            proof {
                let t = fields.take(i + 1);
                assert(t.drop_last() =~= fields.take(i as int));
                assert(t.last() == (ordered@[i as int].0@, ordered@[i as int].1@));
            }
            let (key, value) = ordered[i];
            if !value.is_empty() {
                let label = "  ".to_owned().concat(key).concat(": ");
                push_pair(&mut lines, label.as_str(), value, Style::Text);
            }
            i += 1;
            assert(line_views(lines@) =~= head + field_lines(fields.take(i as int)));
        }
        assert(fields.take(i as int) =~= fields);
    }
    assert(line_views(lines@) =~= detail_head(*log) + detail_fields(*log));
    push_single(&mut lines, "", Style::Plain);
    push_single(&mut lines, "Press Esc or Enter to close", Style::Muted);
    assert(line_views(lines@) =~= detail_head(*log) + detail_fields(*log) + detail_foot());
    lines
}

/// A rectangle on the screen.
#[derive(Debug, Clone, Copy, PartialEq, Eq, Structural)]
pub struct ScreenRect {
    pub x: u16,
    pub y: u16,
    pub width: u16,
    pub height: u16,
}

/// Whether a rectangle ends on the screen.
pub open spec fn on_screen(r: ScreenRect) -> bool {
    r.x + r.width <= u16::MAX && r.y + r.height <= u16::MAX
}

/// A direction in which an area is split.
#[derive(Debug, Clone, Copy, PartialEq, Eq, Structural)]
pub enum Axis {
    /// From top to bottom.
    Vertical,
    /// From left to right.
    Horizontal,
}

/// The part of an area that comes after `lead` cells and has `length` cells along an axis.
pub open spec fn part_of(area: ScreenRect, axis: Axis, lead: u16, length: u16) -> ScreenRect {
    match axis {
        Axis::Vertical => ScreenRect { y: (area.y + lead) as u16, height: length, ..area },
        Axis::Horizontal => ScreenRect { x: (area.x + lead) as u16, width: length, ..area },
    }
}

/// How long an area is along an axis.
pub open spec fn extent(area: ScreenRect, axis: Axis) -> u16 {
    match axis {
        Axis::Vertical => area.height,
        Axis::Horizontal => area.width,
    }
}

/// `ratatui::layout::Layout::split` with the constraints `Length(lead)`, `Length(length)` and
/// `Min(0)`: where there is room for both lengths, the part in the middle has the second length
/// and comes after the first, over the full extent of the other axis.
#[verifier::external_body]
fn middle_part(area: ScreenRect, axis: Axis, lead: u16, length: u16) -> (r: ScreenRect)
    requires
        on_screen(area),
        lead + length <= extent(area, axis),
    ensures
        r == part_of(area, axis, lead, length),
{
    let direction = match axis {
        Axis::Vertical => Direction::Vertical,
        Axis::Horizontal => Direction::Horizontal,
    };
    let parts = Layout::default()
        .direction(direction)
        .constraints([Constraint::Length(lead), Constraint::Length(length), Constraint::Min(0)])
        .split(Rect::new(area.x, area.y, area.width, area.height));
    let part = parts[1];
    ScreenRect { x: part.x, y: part.y, width: part.width, height: part.height }
}

/// `size`, or `extent` if that is less.
pub open spec fn clipped(size: u16, extent: u16) -> u16 {
    if size < extent {
        size
    } else {
        extent
    }
}

/// The rectangle of this size in the middle of an area, towards its top left where the middle falls
/// between two cells. It does not reach beyond the area.
pub open spec fn centered(width: u16, height: u16, area: ScreenRect) -> ScreenRect {
    let w = clipped(width, area.width);
    let h = clipped(height, area.height);
    ScreenRect {
        x: (area.x + (area.width - w) / 2) as u16,
        y: (area.y + (area.height - h) / 2) as u16,
        width: w,
        height: h,
    }
}

/// The rectangle of this size in the middle of an area.
pub fn centered_rect(width: u16, height: u16, area: ScreenRect) -> (r: ScreenRect)
    requires
        on_screen(area),
    ensures
        r == centered(width, height, area),
{
    let w: u16 = if width < area.width {
        width
    } else {
        area.width
    };
    let h: u16 = if height < area.height {
        height
    } else {
        area.height
    };
    let row = middle_part(area, Axis::Vertical, (area.height - h) / 2, h);
    middle_part(row, Axis::Horizontal, (area.width - w) / 2, w)
}

/// How wide the popup is: four fifths of the screen, with two columns left on either side.
pub open spec fn popup_width(width: u16) -> u16 {
    let part = width as int * 4 / 5;
    let most = inside(width, 4) as int;
    (if part < most {
        part
    } else {
        most
    }) as u16
}

/// How high the popup is: up to 20 lines, with two left above and below.
pub open spec fn popup_height(height: u16) -> u16 {
    let most = inside(height, 4);
    (if 20 < most {
        20
    } else {
        most
    }) as u16
}

/// Where the popup is: in the middle of the screen. Screens on which four times the width is no
/// 16-bit number are left out.
pub fn popup_area(area: ScreenRect) -> (r: ScreenRect)
    requires
        on_screen(area),
        area.width * 4 <= u16::MAX,
    ensures
        r == centered(popup_width(area.width), popup_height(area.height), area),
{
    let part: u16 = area.width * 4 / 5;
    let most_width: u16 = area.width.saturating_sub(4);
    let width: u16 = if part < most_width {
        part
    } else {
        most_width
    };
    let most_height: u16 = area.height.saturating_sub(4);
    let height: u16 = if 20 < most_height {
        20
    } else {
        most_height
    };
    centered_rect(width, height, area)
}

/// The popup lies within the screen, and is as far from one edge as from the other, give or take
/// one cell.
pub proof fn law_popup_is_centred(area: ScreenRect)
    requires
        on_screen(area),
    ensures
        ({
            let p = centered(popup_width(area.width), popup_height(area.height), area);
            let left = p.x - area.x;
            let right = area.x + area.width - (p.x + p.width);
            let above = p.y - area.y;
            let below = area.y + area.height - (p.y + p.height);
            &&& 0 <= left <= right <= left + 1
            &&& 0 <= above <= below <= above + 1
        }),
{
}

// ---------------------------------------------------------------------------
// Laws
// ---------------------------------------------------------------------------

/// A truncated line uses the room that it has: it is as long as the line is or as the room is,
/// whichever is less.
pub proof fn law_truncated_line_uses_the_room(spans: Seq<(Seq<char>, Style)>, max_width: int)
    requires
        max_width >= 0,
    ensures
        text_of(truncated(spans, max_width)).len() == (if text_of(spans).len() < max_width {
            text_of(spans).len() as int
        } else {
            max_width
        }),
    decreases spans.len(),
{
    reveal_with_fuel(text_of, 3);
    if spans.len() > 0 {
        let len = spans[0].0.len();
        if len <= max_width {
            law_truncated_line_uses_the_room(spans.drop_first(), max_width - len);
            assert(truncated(spans, max_width).drop_first() =~= truncated(
                spans.drop_first(),
                max_width - len,
            ));
        } else if max_width >= 1 {
            assert(truncated(spans, max_width).drop_first() =~= Seq::empty());
        }
    }
}

/// Truncation leaves the spans before the cut alone, and cuts one at most: what is left of that one
/// keeps its style, and an ellipsis that stands alone is muted.
pub proof fn law_only_the_last_span_is_cut(
    spans: Seq<(Seq<char>, Style)>,
    max_width: int,
    i: int,
)
    requires
        max_width >= 0,
        0 <= i < truncated(spans, max_width).len(),
    ensures
        truncated(spans, max_width).len() <= spans.len(),
        truncated(spans, max_width)[i] == spans[i] || (i == truncated(spans, max_width).len() - 1
            && {
            ||| truncated(spans, max_width)[i] == (ellipsis(), Style::Muted)
            ||| exists|k: int|
                0 < k < spans[i].0.len() && truncated(spans, max_width)[i] == (
                    #[trigger] spans[i].0.take(k) + ellipsis(),
                    spans[i].1,
                )
        }),
    decreases spans.len(),
{
    let len = spans[0].0.len();
    if len <= max_width {
        let rest = truncated(spans.drop_first(), max_width - len);
        if i > 0 {
            law_only_the_last_span_is_cut(spans.drop_first(), max_width - len, i - 1);
            assert(truncated(spans, max_width)[i] == rest[i - 1]);
            assert(spans.drop_first()[i - 1] == spans[i]);
        } else if rest.len() > 0 {
            law_only_the_last_span_is_cut(spans.drop_first(), max_width - len, 0);
        }
    } else if max_width > 1 {
        assert(truncated(spans, max_width)[0] == (
            spans[0].0.take(max_width - 1) + ellipsis(),
            spans[0].1,
        ));
    }
}

/// The ellipsis is one character.
pub proof fn law_ellipsis_is_one_character()
    ensures
        ellipsis() == seq!['…'],
{
    assert(ellipsis() =~= seq!['…']);
}

/// Padding adds spaces at the end, as many as are missing, and changes nothing else.
pub proof fn law_padding_adds_spaces(s: Seq<char>, width: nat)
    ensures
        padded(s, width).len() == (if s.len() < width {
            width
        } else {
            s.len()
        }),
        padded(s, width).take(s.len() as int) == s,
        forall|i: int| s.len() <= i < padded(s, width).len() ==> #[trigger] padded(s, width)[i]
            == ' ',
    decreases width - s.len(),
{
    if s.len() < width {
        let t = s.push(' ');
        law_padding_adds_spaces(t, width);
        let p = padded(s, width);
        assert(p.take(s.len() as int) =~= p.take(t.len() as int).take(s.len() as int));
        assert(t.take(s.len() as int) =~= s);
        assert(p[s.len() as int] == p.take(t.len() as int)[s.len() as int]);
    } else {
        assert(s.take(s.len() as int) =~= s);
    }
}

/// The levels that a reader looks for stand out, each in its own way; so does the sandbox among the
/// sources.
pub proof fn law_styles_of_levels_and_sources(s: Seq<char>)
    ensures
        style_of_level(s) == Style::StatusErr <==> s == "ERROR"@,
        style_of_level(s) == Style::StatusWarn <==> s == "WARN"@,
        style_of_level(s) == Style::StatusOk <==> s == "INFO"@,
        s != "ERROR"@ && s != "WARN"@ && s != "INFO"@ ==> style_of_level(s) == Style::Muted,
        s == "sandbox"@ ==> style_of_source(s) == Style::Accent,
        s != "sandbox"@ ==> style_of_source(s) == Style::Muted,
{
    reveal_strlit("ERROR");
    reveal_strlit("WARN");
    reveal_strlit("INFO");
    assert("ERROR"@.len() == 5 && "WARN"@.len() == 4 && "INFO"@.len() == 4);
    assert("WARN"@[0] == 'W' && "INFO"@[0] == 'I');
}

/// Each field shows by itself, after a space, as its key, an equals sign and its value; one whose
/// value is empty does not show. In the popup it has a line to itself.
pub proof fn law_fields_show_one_by_one(
    a: Seq<(Seq<char>, Seq<char>)>,
    f: (Seq<char>, Seq<char>),
    b: Seq<(Seq<char>, Seq<char>)>,
)
    ensures
        field_spans(a + b) == field_spans(a) + field_spans(b),
        field_lines(a + b) == field_lines(a) + field_lines(b),
        f.1.len() == 0 ==> field_spans(seq![f]).len() == 0 && field_lines(seq![f]).len() == 0,
        f.1.len() > 0 ==> field_spans(seq![f]) == seq![
            (" "@, Style::Plain),
            (f.0 + "="@, Style::Muted),
            (f.1, Style::Text),
        ],
        f.1.len() > 0 ==> field_lines(seq![f]) == seq![
            seq![("  "@ + f.0 + ": "@, Style::Muted), (f.1, Style::Text)],
        ],
    decreases b.len(),
{
    reveal_with_fuel(field_spans, 2);
    reveal_with_fuel(field_lines, 2);
    let one = seq![f];
    assert(one.drop_last() =~= Seq::empty());
    assert(field_spans(one.drop_last()) =~= Seq::empty());
    assert(field_lines(one.drop_last()) =~= Seq::empty());
    if f.1.len() > 0 {
        assert(field_spans(one) =~= seq![
            (" "@, Style::Plain),
            (f.0 + "="@, Style::Muted),
            (f.1, Style::Text),
        ]);
        assert(field_lines(one) =~= seq![
            seq![("  "@ + f.0 + ": "@, Style::Muted), (f.1, Style::Text)],
        ]);
    }
    if b.len() == 0 {
        assert(a + b =~= a);
        assert(field_spans(a) + field_spans(b) =~= field_spans(a));
        assert(field_lines(a) + field_lines(b) =~= field_lines(a));
    } else {
        law_fields_show_one_by_one(a, f, b.drop_last());
        assert((a + b).drop_last() =~= a + b.drop_last());
        assert((a + b).last() == b.last());
        assert(field_spans(a + b) =~= field_spans(a) + field_spans(b));
        assert(field_lines(a + b) =~= field_lines(a) + field_lines(b));
    }
}

/// A log line shows its time, its source, its level and its message, in this order and with a space
/// between them, and then its fields.
pub proof fn law_line_shows_the_whole_log_line(log: LogLine)
    ensures
        ({
            let spans = line_spans(log);
            &&& spans.len() >= 7
            &&& spans[0] == (sandbox_logs::short_time(log.timestamp_ms as int), Style::Muted)
            &&& spans[1] == (" "@, Style::Plain)
            &&& spans[2] == (padded(log.source@, 7), style_of_source(log.source@))
            &&& spans[3] == (" "@, Style::Plain)
            &&& spans[4] == (padded(log.level@, 5), style_of_level(log.level@))
            &&& spans[5] == (" "@, Style::Plain)
            &&& spans[6] == (log.message@, Style::Text)
            &&& spans.skip(7) == field_spans(
                sandbox_logs::shown_fields(log.message@, log.fields@),
            )
        }),
{
    assert(line_spans(log).skip(7) =~= field_spans(
        sandbox_logs::shown_fields(log.message@, log.fields@),
    ));
}

/// As many lines are visible as the pane has room for and as there are after the scrolled ones: no
/// more than either, and as many as one of them.
pub proof fn law_pane_is_filled(total: nat, scroll: nat, height: nat)
    ensures
        visible_lines(total, scroll, height) <= height,
        visible_lines(total, scroll, height) > 0 ==> scroll + visible_lines(total, scroll, height)
            <= total,
        visible_lines(total, scroll, height) == height || scroll + visible_lines(
            total,
            scroll,
            height,
        ) >= total,
{
}

/// A cursor below the last visible line comes to stand on it.
pub proof fn law_cursor_comes_to_the_last_line(visible: nat, cursor: nat)
    requires
        cursor >= visible > 0,
    ensures
        cursor_on(visible, cursor) == visible - 1,
{
}

/// What is inside a border is what the border leaves, if anything.
pub proof fn law_border_takes_its_share(n: u16, border: int)
    requires
        border >= 0,
    ensures
        n >= border ==> inside(n, border) == n - border,
        n < border ==> inside(n, border) == 0,
{
}

/// The pane is titled with the sandbox that is selected, or with a dash if there is none.
pub proof fn law_title_names_the_selected(names: Seq<Seq<char>>, selected: int)
    requires
        selected >= 0,
    ensures
        selected < names.len() ==> selected_name(names, selected) == names[selected],
        selected >= names.len() ==> selected_name(names, selected) == "-"@,
{
}

/// A line of the pane is a mark of two characters, which is a bar where the cursor is and blank
/// elsewhere, and the log line in what room the mark leaves.
pub proof fn law_pane_line_is_mark_and_log_line(log: LogLine, inner_width: nat, here: bool)
    ensures
        pane_spans(log, inner_width, here).len() > 0,
        here ==> pane_spans(log, inner_width, here)[0] == ("▌ "@, Style::Accent),
        !here ==> pane_spans(log, inner_width, here)[0] == ("  "@, Style::Plain),
        inner_width >= 2 ==> pane_spans(log, inner_width, here).skip(1) == truncated(
            line_spans(log),
            inner_width - 2,
        ),
        inner_width < 2 ==> pane_spans(log, inner_width, here).skip(1) == truncated(
            line_spans(log),
            0,
        ),
{
    let room: int = if inner_width > 2 {
        inner_width - 2
    } else {
        0
    };
    assert(pane_spans(log, inner_width, here).skip(1) =~= truncated(line_spans(log), room));
}

/// The bottom border tells whether the pane follows the log, where the cursor is among all lines,
/// and the filter; without lines there is no place to tell.
pub proof fn law_bottom_border_tells_the_state(position: nat, total: nat, label: Seq<char>)
    ensures
        follow_span(true) == (" ● FOLLOWING "@, Style::StatusOk),
        follow_span(false) == (" ○ PAUSED "@, Style::StatusWarn),
        total > 0 ==> position_span(position, total) == (
            " ["@ + number::decimal(position) + "/"@ + number::decimal(total) + "] "@,
            Style::Muted,
        ),
        position_span(position, 0).0.len() == 0,
        position_span(position, 0).1 == Style::Muted,
        filter_span(label) == (" filter: "@ + label + " "@, Style::Muted),
{
}

/// The popup tells the time, the source, the level and the message of a log line, and its target
/// if it has one.
pub proof fn law_popup_tells_the_log_line(log: LogLine)
    ensures
        ({
            let head = detail_head(log);
            &&& head.len() == (if log.target@.len() == 0 {
                4int
            } else {
                5
            })
            &&& head[0] == seq![
                ("Time:    "@, Style::Muted),
                (sandbox_logs::short_time(log.timestamp_ms as int), Style::Text),
            ]
            &&& head[1] == seq![("Source:  "@, Style::Muted), (log.source@, Style::Text)]
            &&& head[2] == seq![
                ("Level:   "@, Style::Muted),
                (log.level@, style_of_level(log.level@)),
            ]
            &&& log.target@.len() > 0 ==> head[3] == seq![
                ("Target:  "@, Style::Muted),
                (log.target@, Style::Muted),
            ]
            &&& head.last() == seq![("Message: "@, Style::Muted), (log.message@, Style::Text)]
        }),
{
}

/// The popup tells the fields of a log line under a heading, if it has any, and how to close it.
pub proof fn law_popup_tells_the_fields(log: LogLine, key: Seq<char>)
    ensures
        log.fields@.dom().contains(key) ==> {
            &&& detail_fields(log).len() >= 2
            &&& detail_fields(log)[0] == seq![(""@, Style::Plain)]
            &&& detail_fields(log)[1] == seq![("Fields:"@, Style::Muted)]
            &&& detail_fields(log).skip(2) == field_lines(
                sandbox_logs::shown_fields(log.message@, log.fields@),
            )
        },
        (forall|k: Seq<char>| !#[trigger] log.fields@.dom().contains(k)) ==> detail_fields(
            log,
        ).len() == 0,
        detail_foot().len() == 2,
        detail_foot()[0] == seq![(""@, Style::Plain)],
        detail_foot()[1] == seq![("Press Esc or Enter to close"@, Style::Muted)],
{
    if forall|k: Seq<char>| !#[trigger] log.fields@.dom().contains(k) {
        assert(log.fields@ =~= Map::<Seq<char>, Seq<char>>::empty());
    } else {
        assert(detail_fields(log).skip(2) =~= field_lines(
            sandbox_logs::shown_fields(log.message@, log.fields@),
        ));
    }
}

/// A line of the pane is what it is said to show exactly if its spans are those and it is
/// highlighted where that is said.
pub proof fn law_pane_line_shows_its_spans(line: PaneLine, other: Seq<(Seq<char>, Style)>)
    ensures
        shows(line, span_views(line.spans@), line.highlighted),
        !shows(line, span_views(line.spans@), !line.highlighted),
        other != span_views(line.spans@) ==> !shows(line, other, line.highlighted),
{
}

/// A rectangle in the middle of an area has the size that was asked for, as far as the area has
/// room, lies within it, and is as far from one edge as from the other, give or take one cell.
pub proof fn law_rectangle_is_centred(width: u16, height: u16, area: ScreenRect)
    requires
        on_screen(area),
    ensures
        ({
            let r = centered(width, height, area);
            let left = r.x - area.x;
            let right = area.x + area.width - (r.x + r.width);
            let above = r.y - area.y;
            let below = area.y + area.height - (r.y + r.height);
            &&& width <= area.width ==> r.width == width
            &&& width > area.width ==> r.width == area.width
            &&& height <= area.height ==> r.height == height
            &&& height > area.height ==> r.height == area.height
            &&& 0 <= left <= right <= left + 1
            &&& 0 <= above <= below <= above + 1
        }),
{
}

/// The popup takes four fifths of the width and twenty lines, unless that would leave fewer than
/// two cells on a side.
pub proof fn law_popup_takes_its_share(n: u16)
    ensures
        n >= 20 ==> 5 * popup_width(n) <= 4 * n < 5 * popup_width(n) + 5,
        4 <= n < 20 ==> popup_width(n) == n - 4,
        n < 4 ==> popup_width(n) == 0,
        n >= 24 ==> popup_height(n) == 20,
        4 <= n < 24 ==> popup_height(n) == n - 4,
        n < 4 ==> popup_height(n) == 0,
{
}

/// The contents of spans and lines are those of their members, one for one.
pub proof fn law_contents_of_spans(spans: Seq<Span>, lines: Seq<Vec<Span>>)
    ensures
        span_views(spans).len() == spans.len(),
        forall|i: int|
            0 <= i < spans.len() ==> #[trigger] span_views(spans)[i] == (
                spans[i].content@,
                spans[i].style,
            ),
        line_views(lines).len() == lines.len(),
        forall|i: int|
            0 <= i < lines.len() ==> #[trigger] line_views(lines)[i] == span_views(lines[i]@),
{
}

} // verus!
