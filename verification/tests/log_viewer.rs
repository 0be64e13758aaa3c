use openshell::log_pane::{
    centered_rect, detail_lines, draw, level_style, popup_area, render_log_line, truncate_line,
    LogView, ScreenRect, Span, Style,
};
use openshell::sandbox_logs::{format_short_time, ordered_fields, safe_truncate, LogLine};
use openshell::string_map::StringMap;
use ratatui::layout::{Constraint, Direction, Layout, Rect};

fn log(message: &str, fields: &[(&str, &str)]) -> LogLine {
    let mut m = StringMap::new();
    for (k, v) in fields {
        m.insert(k.to_string(), v.to_string());
    }
    LogLine {
        timestamp_ms: 3_723_000,
        source: "sandbox".to_string(),
        level: "INFO".to_string(),
        target: "t".to_string(),
        message: message.to_string(),
        fields: m,
    }
}

fn text(spans: &[Span]) -> String {
    spans.iter().map(|s| s.content.as_str()).collect()
}

fn span(content: &str, style: Style) -> Span {
    Span { content: content.to_string(), style }
}

#[test]
fn times_are_shown_in_utc() {
    assert_eq!(format_short_time(3_723_000), "01:02:03");
    assert_eq!(format_short_time(1), "00:00:00");
    assert_eq!(format_short_time(86_399_999), "23:59:59");
    assert_eq!(format_short_time(86_400_000), "00:00:00");
    assert_eq!(format_short_time(0), "--:--:--");
    assert_eq!(format_short_time(-5), "--:--:--");
    assert_eq!(format_short_time(i64::MAX), "07:12:55");
}

#[test]
fn strings_are_cut_at_character_boundaries() {
    let s = "aé…😀z";
    for max in 0..=s.len() + 2 {
        let mut end = max.min(s.len());
        while !s.is_char_boundary(end) {
            end -= 1;
        }
        assert_eq!(safe_truncate(s, max), &s[..end], "{max}");
    }
    assert_eq!(safe_truncate("", 0), "");
}

#[test]
fn fields_of_connect_lines_are_ordered() {
    let line = log(
        "CONNECT",
        &[("zz", "1"), ("reason", "r"), ("dst_host", "h"), ("action", "allow"), ("aa", "2")],
    );
    assert_eq!(
        ordered_fields(&line),
        vec![("action", "allow"), ("dst_host", "h"), ("reason", "r"), ("aa", "2"), ("zz", "1")]
    );
}

#[test]
fn fields_of_l7_lines_are_ordered() {
    let line = log(
        "L7_REQUEST x",
        &[("policy", "p"), ("l7_target", "/"), ("engine", "e"), ("l7_action", "GET")],
    );
    assert_eq!(
        ordered_fields(&line),
        vec![("l7_action", "GET"), ("l7_target", "/"), ("policy", "p"), ("engine", "e")]
    );
}

#[test]
fn other_fields_are_alphabetical() {
    let line = log("hello CONNECT", &[("b", "1"), ("action", "2"), ("a", "")]);
    assert_eq!(ordered_fields(&line), vec![("a", ""), ("action", "2"), ("b", "1")]);
    assert!(ordered_fields(&log("x", &[])).is_empty());
}

#[test]
fn every_field_is_shown_once() {
    let keys = [
        "action", "dst_host", "dst_port", "policy", "engine", "src_addr", "src_port", "binary",
        "binary_pid", "cmdline", "ancestors", "proxy_addr", "reason", "l7_action", "x",
    ];
    let fields: Vec<(&str, &str)> = keys.iter().map(|k| (*k, "v")).collect();
    for message in ["CONNECT", "L7_REQUEST", "other"] {
        let line = log(message, &fields);
        let mut shown: Vec<&str> = ordered_fields(&line).into_iter().map(|(k, _)| k).collect();
        shown.sort();
        let mut expected = keys.to_vec();
        expected.sort();
        assert_eq!(shown, expected);
    }
}

#[test]
fn lines_are_rendered() {
    let line = log("CONNECT", &[("policy", "p"), ("reason", "")]);
    let spans = render_log_line(&line, 200);
    assert_eq!(text(&spans), "01:02:03 sandbox INFO  CONNECT policy=p");
    assert_eq!(spans[0].style, Style::Muted);
    assert_eq!(spans[2].style, Style::Accent);
    assert_eq!(spans[4].style, Style::StatusOk);
    assert_eq!(spans[6].style, Style::Text);
    assert_eq!(spans[8].style, Style::Muted);
    let mut other = log("m", &[]);
    other.source = "gw".to_string();
    other.level = "CRITICAL".to_string();
    let spans = render_log_line(&other, 200);
    assert_eq!(text(&spans), "01:02:03 gw      CRITICAL m");
    assert_eq!((spans[2].style, spans[4].style), (Style::Muted, Style::Muted));
}

#[test]
fn levels_have_styles() {
    assert_eq!(level_style("ERROR"), Style::StatusErr);
    assert_eq!(level_style("WARN"), Style::StatusWarn);
    assert_eq!(level_style("INFO"), Style::StatusOk);
    assert_eq!(level_style("info"), Style::Muted);
}

#[test]
fn lines_are_truncated() {
    let spans = || vec![span("abc", Style::Text), span("defg", Style::Accent)];
    assert!(truncate_line(spans(), 0).is_empty());
    assert_eq!(text(&truncate_line(spans(), 7)), "abcdefg");
    let cut = truncate_line(spans(), 5);
    assert_eq!(text(&cut), "abcd…");
    assert_eq!(cut[1].style, Style::Accent);
    let cut = truncate_line(spans(), 4);
    assert_eq!(text(&cut), "abc…");
    assert_eq!(cut[1].style, Style::Muted);
    assert_eq!(text(&truncate_line(spans(), 3)), "abc");
    assert_eq!(text(&truncate_line(spans(), 1)), "…");
    let accented = |width| text(&truncate_line(vec![span("ééé", Style::Text)], width));
    assert_eq!(accented(5), "ééé");
    assert_eq!(accented(3), "ééé");
    assert_eq!(accented(2), "é…");
    assert_eq!(accented(1), "…");
}

#[test]
fn truncated_lines_fit() {
    let line = log("CONNECT é…😀", &[("policy", "péñ"), ("x", "yyyy")]);
    let whole: Vec<char> = text(&render_log_line(&line, 200)).chars().collect();
    for width in 0..80 {
        let cut: Vec<char> = text(&render_log_line(&line, width)).chars().collect();
        assert_eq!(cut.len(), width.min(whole.len()), "{width}");
        if width >= whole.len() {
            assert_eq!(cut, whole);
        } else if width > 0 {
            assert_eq!(cut[..width - 1], whole[..width - 1]);
            assert!(cut[width - 1] == '…' || cut[width - 1] == whole[width - 1]);
        }
    }
}

fn view<'a>(
    names: &'a Vec<String>,
    filtered: &'a Vec<&'a LogLine>,
    scroll: usize,
    cursor: usize,
) -> LogView<'a> {
    LogView {
        sandbox_names: names,
        sandbox_selected: 0,
        filter_label: "all",
        filtered,
        has_lines: true,
        scroll,
        cursor,
        autoscroll: true,
    }
}

#[test]
fn the_pane_shows_a_window_of_the_log() {
    let names = vec!["box".to_string()];
    let logs: Vec<LogLine> = (0..10).map(|i| log(&format!("m{i}"), &[])).collect();
    let filtered: Vec<&LogLine> = logs.iter().collect();
    let pane = draw(&view(&names, &filtered, 7, 9), 80, 6);
    assert_eq!(pane.title.content, " Logs: box ");
    assert_eq!(pane.title.style, Style::Heading);
    assert_eq!(pane.viewport_height, 4);
    assert_eq!(pane.cursor, 2);
    assert_eq!(pane.lines.len(), 3);
    assert_eq!(text(&pane.lines[0].spans), "  01:02:03 sandbox INFO  m7");
    assert_eq!(text(&pane.lines[2].spans), "▌ 01:02:03 sandbox INFO  m9");
    assert!(pane.lines[2].highlighted && !pane.lines[0].highlighted);
    assert_eq!(pane.lines[2].spans[0].style, Style::Accent);
    assert_eq!(text(&pane.bottom), " ● FOLLOWING  [10/10]  filter: all ");
    let pane = draw(&view(&names, &filtered, 2, 1), 20, 5);
    assert_eq!(pane.lines.len(), 3);
    assert_eq!(pane.cursor, 1);
    assert_eq!(text(&pane.lines[0].spans).chars().count(), 2 + 14);
    assert_eq!(text(&pane.bottom), " ● FOLLOWING  [4/10]  filter: all ");
}

#[test]
fn narrow_panes_show_the_mark_only() {
    let names = vec!["box".to_string()];
    let logs = vec![log("m", &[])];
    let filtered: Vec<&LogLine> = logs.iter().collect();
    for width in [0, 1, 4, 6] {
        let pane = draw(&view(&names, &filtered, 0, 0), width, 5);
        assert_eq!(text(&pane.lines[0].spans), "▌ ", "{width}");
    }
    let pane = draw(&view(&names, &filtered, 0, 0), 7, 5);
    assert_eq!(text(&pane.lines[0].spans), "▌ …");
}

#[test]
fn a_cursor_beyond_every_line_is_brought_back() {
    let names = vec!["box".to_string()];
    let logs = vec![log("m", &[])];
    let filtered: Vec<&LogLine> = logs.iter().collect();
    assert_eq!(draw(&view(&names, &filtered, 0, usize::MAX), 80, 5).cursor, 0);
    let none: Vec<&LogLine> = Vec::new();
    let mut v = view(&names, &none, usize::MAX, usize::MAX);
    v.has_lines = false;
    assert_eq!(text(&draw(&v, 80, 5).lines[0].spans), "Loading...");
}

#[test]
fn the_pane_says_when_there_is_nothing() {
    let names = Vec::new();
    let none: Vec<&LogLine> = Vec::new();
    let mut v = view(&names, &none, 0, 3);
    v.autoscroll = false;
    let pane = draw(&v, 40, 10);
    assert_eq!(pane.title.content, " Logs: - ");
    assert!(pane.lines.is_empty());
    assert_eq!(pane.cursor, 3);
    assert_eq!(text(&pane.bottom), " ○ PAUSED  filter: all ");
    assert_eq!(pane.bottom.len(), 3);
    v.has_lines = false;
    let pane = draw(&v, 40, 10);
    assert_eq!(text(&pane.lines[0].spans), "Loading...");
    assert_eq!(text(&pane.bottom), " filter: all ");
    let pane = draw(&v, 1, 1);
    assert_eq!(pane.viewport_height, 0);
}

#[test]
fn the_popup_tells_everything() {
    let line = log("CONNECT", &[("policy", "p"), ("action", "deny"), ("x", "")]);
    let lines: Vec<String> = detail_lines(&line).iter().map(|l| text(l)).collect();
    assert_eq!(
        lines,
        vec![
            "Time:    01:02:03",
            "Source:  sandbox",
            "Level:   INFO",
            "Target:  t",
            "Message: CONNECT",
            "",
            "Fields:",
            "  action: deny",
            "  policy: p",
            "",
            "Press Esc or Enter to close",
        ]
    );
    let mut bare = log("m", &[]);
    bare.target = String::new();
    assert_eq!(detail_lines(&bare).len(), 6);
}

fn rect(x: u16, y: u16, width: u16, height: u16) -> ScreenRect {
    ScreenRect { x, y, width, height }
}

#[test]
fn rectangles_are_centred() {
    assert_eq!(centered_rect(10, 4, rect(0, 0, 20, 10)), rect(5, 3, 10, 4));
    assert_eq!(centered_rect(3, 3, rect(2, 1, 10, 10)), rect(5, 4, 3, 3));
    assert_eq!(centered_rect(0, 0, rect(0, 0, 0, 0)), rect(0, 0, 0, 0));
}

#[test]
fn rectangles_are_centred_at_every_size() {
    let mut sizes: Vec<u16> = (0..40).collect();
    sizes.extend([99, 100, 255, 256, 999, 16383, 32767, 65534, 65535]);
    for &extent in &sizes {
        for &size in &sizes {
            let lead = extent.saturating_sub(size) / 2;
            let size = size.min(extent);
            assert_eq!(
                centered_rect(size, 1, rect(0, 0, extent, 1)),
                rect(lead, 0, size, 1),
                "{size} in {extent}"
            );
            assert_eq!(
                centered_rect(1, size, rect(0, 0, 1, extent)),
                rect(0, lead, 1, size),
                "{size} in {extent}"
            );
        }
    }
    assert_eq!(centered_rect(100, 50, rect(65335, 65435, 200, 100)), rect(65385, 65460, 100, 50));
}

#[test]
fn rectangles_are_clipped_as_the_layout_clips() {
    assert_layout_agrees(30, 20, rect(0, 0, 20, 10));
    for area in [rect(0, 0, 20, 10), rect(3, 7, 11, 1), rect(5, 5, 0, 0), rect(0, 0, 1, 65535)] {
        for width in [0, 1, 7, 10, 11, 20, 21, 400, 65535] {
            for height in [0, 1, 2, 9, 10, 11, 300, 65535] {
                assert_layout_agrees(width, height, area);
            }
        }
    }
}

fn assert_layout_agrees(width: u16, height: u16, area: ScreenRect) {
    let parts = |direction, lead: u16, length: u16, area: Rect| {
        Layout::default()
            .direction(direction)
            .constraints([
                Constraint::Length(lead),
                Constraint::Length(length),
                Constraint::Min(0),
            ])
            .split(area)[1]
    };
    let whole = Rect { x: area.x, y: area.y, width: area.width, height: area.height };
    let row =
        parts(Direction::Vertical, area.height.saturating_sub(height) / 2, height, whole);
    let r = parts(Direction::Horizontal, area.width.saturating_sub(width) / 2, width, row);
    assert_eq!(centered_rect(width, height, area), rect(r.x, r.y, r.width, r.height));
}

#[test]
fn the_popup_is_in_the_middle() {
    assert_eq!(popup_area(rect(0, 0, 100, 50)), rect(10, 15, 80, 20));
    assert_eq!(popup_area(rect(0, 0, 10, 12)), rect(2, 2, 6, 8));
    assert_eq!(popup_area(rect(3, 4, 3, 2)), rect(4, 5, 0, 0));
    assert_eq!(popup_area(rect(0, 0, 16383, 24)), rect(1638, 2, 13106, 20));
}
