use eesh::scrollback::LogBuffer;
use eesh::text::{Style, StyledLine, StyledSpan};

fn line(text: &str) -> StyledLine {
    StyledLine { spans: vec![StyledSpan { text: text.to_string(), style: Style { code: 0 } }] }
}

fn line_body_text(l: &StyledLine) -> String {
    let mut s = String::new();
    for sp in &l.spans {
        s.push_str(&sp.text);
    }
    s
}

#[test]
fn count_stays_within_capacity() {
    let mut buf = LogBuffer::new(4, chrono_tz::Tz::UTC);
    for i in 0..20 {
        buf.push_line(i, line("tag"), line("body"));
        assert!(buf.count() <= 4);
    }
}

#[test]
fn eviction_keeps_the_newest_lines() {
    let mut buf = LogBuffer::new(3, chrono_tz::Tz::UTC);
    buf.push_line(1, line("a"), line("first"));
    buf.push_line(2, line("b"), line("second"));
    buf.push_line(3, line("c"), line("third"));
    // Reaching the capacity evicts from the front down to one below it.
    assert_eq!(buf.count(), 2);
    let kept = buf.lines();
    assert_eq!(kept[0].timestamp, 2);
    assert_eq!(line_body_text(&kept[0].body), "second");
    assert_eq!(kept[1].timestamp, 3);
    assert_eq!(line_body_text(&kept[1].body), "third");
}

#[test]
fn zero_capacity_keeps_nothing() {
    let mut buf = LogBuffer::new(0, chrono_tz::Tz::UTC);
    buf.push_line(1, line("a"), line("x"));
    assert_eq!(buf.count(), 0);
}

#[test]
fn zero_scroll_stays_zero_across_pushes() {
    let mut buf = LogBuffer::new(100, chrono_tz::Tz::UTC);
    for i in 0..10 {
        buf.push_line(i, line("t"), line("b"));
        assert_eq!(buf.scroll(), 0);
    }
}

#[test]
fn nonzero_scroll_grows_by_one_per_push() {
    let mut buf = LogBuffer::new(100, chrono_tz::Tz::UTC);
    for i in 0..5 {
        buf.push_line(i, line("t"), line("b"));
    }
    // With no render seen yet, the clamp allows count + 2.
    buf.set_scroll(3);
    assert_eq!(buf.scroll(), 3);
    buf.push_line(99, line("t"), line("b"));
    assert_eq!(buf.scroll(), 4);
    buf.push_line(100, line("t"), line("b"));
    assert_eq!(buf.scroll(), 5);
}

#[test]
fn scroll_ops_clamp_to_the_bound() {
    let mut buf = LogBuffer::new(100, chrono_tz::Tz::UTC);
    for i in 0..4 {
        buf.push_line(i, line("t"), line("b"));
    }
    // Bound is count + 2 while no viewport height has been observed.
    buf.set_scroll(u16::MAX);
    assert_eq!(buf.scroll(), 6);
    buf.inc_scroll();
    assert_eq!(buf.scroll(), 6);
    buf.dec_scroll();
    assert_eq!(buf.scroll(), 5);
    buf.set_scroll(0);
    buf.dec_scroll();
    assert_eq!(buf.scroll(), 0);
}

#[test]
fn scroll_clamp_uses_last_rendered_height() {
    let mut buf = LogBuffer::new(100, chrono_tz::Tz::UTC);
    for i in 0..10 {
        buf.push_line(i, line("t"), line("b"));
    }
    buf.render(80, 6, 12);
    // Now the bound is count + 2 - height = 10 + 2 - 6.
    buf.set_scroll(u16::MAX);
    assert_eq!(buf.scroll(), 6);
    assert!(i64::from(buf.scroll()) <= 10 + 2 - 6);
}

#[test]
fn render_records_height_and_offset() {
    let mut buf = LogBuffer::new(100, chrono_tz::Tz::UTC);
    for i in 0..10 {
        buf.push_line(i, line("t"), line("b"));
    }
    let frame = buf.render(80, 6, 12);
    // Ten lines, four rows of content: the window starts at line 6.
    assert_eq!(frame.rows.len(), 10);
    assert_eq!(frame.offset, 6);
    assert_eq!(frame.content_width, 80 - 14 - 12);

    buf.set_scroll(2);
    let frame = buf.render(80, 6, 12);
    assert_eq!(frame.offset, 4);
}

#[test]
fn render_on_empty_buffer_is_empty() {
    let mut buf = LogBuffer::new(8, chrono_tz::Tz::UTC);
    let frame = buf.render(20, 5, 4);
    assert_eq!(frame.rows.len(), 0);
    assert_eq!(frame.offset, 0);
}

#[test]
fn rows_carry_tag_wrap_and_clock() {
    let mut buf = LogBuffer::new(10, chrono_tz::Tz::UTC);
    buf.push_line(3661, line("alice"), line("abcdefgh"));
    let rows = buf.rows(3);
    assert_eq!(rows.len(), 1);
    assert_eq!(rows[0].time, "[01:01:01]");
    assert_eq!(line_body_text(&rows[0].tag), "alice");
    // Width 8 at 3 columns wraps to "abc", "def", "gh".
    let body: Vec<String> = rows[0].body.iter().map(line_body_text).collect();
    assert_eq!(body, vec!["abc".to_string(), "def".to_string(), "gh".to_string()]);
    // Height is width / max_width + 1.
    assert_eq!(rows[0].height, 8 / 3 + 1);
}

#[test]
fn rows_follow_the_zone_offset() {
    // Etc/GMT-5 is five hours ahead of UTC.
    let mut buf = LogBuffer::new(10, chrono_tz::Tz::Etc__GMTMinus5);
    buf.push_line(0, line("t"), line("b"));
    let rows = buf.rows(10);
    assert_eq!(rows[0].time, "[05:00:00]");
}

#[test]
fn line_height_counts_wrapped_rows() {
    assert_eq!(LogBuffer::line_height(&line("abcdefghij"), 4), 10 / 4 + 1);
    assert_eq!(LogBuffer::line_height(&line("abc"), 10), 1);
    assert_eq!(LogBuffer::line_height(&line(""), 10), 1);
    // A zero-width viewport degenerates to a single row.
    assert_eq!(LogBuffer::line_height(&line("abc"), 0), 1);
}
