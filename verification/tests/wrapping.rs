use eesh::text::{Style, StyledLine, StyledSpan};
use eesh::wrap::wrap;

fn span(text: &str, code: u32) -> StyledSpan {
    StyledSpan { text: text.to_string(), style: Style { code } }
}

fn line(text: &str) -> StyledLine {
    StyledLine { spans: vec![span(text, 0)] }
}

fn sub_line_text(l: &StyledLine) -> String {
    let mut s = String::new();
    for sp in &l.spans {
        s.push_str(&sp.text);
    }
    s
}

fn joined(sub_lines: &[StyledLine]) -> String {
    let mut s = String::new();
    for l in sub_lines {
        s.push_str(&sub_line_text(l));
    }
    s
}

#[test]
fn empty_line_wraps_to_one_empty_sub_line() {
    let wrapped = wrap(&StyledLine { spans: Vec::new() }, 10);
    assert_eq!(wrapped.len(), 1);
    assert_eq!(sub_line_text(&wrapped[0]), "");
}

#[test]
fn short_line_stays_whole() {
    let wrapped = wrap(&line("hi"), 10);
    assert_eq!(wrapped.len(), 1);
    assert_eq!(sub_line_text(&wrapped[0]), "hi");
}

#[test]
fn overflow_breaks_before_the_cluster_that_would_not_fit() {
    let wrapped = wrap(&line("abc"), 2);
    let texts: Vec<String> = wrapped.iter().map(sub_line_text).collect();
    assert_eq!(texts, vec!["ab".to_string(), "c".to_string()]);
}

#[test]
fn round_trip_preserves_all_text() {
    for width in 0..12u16 {
        let l = line("the quick brown fox");
        assert_eq!(joined(&wrap(&l, width)), "the quick brown fox");
    }
}

#[test]
fn round_trip_preserves_text_across_spans() {
    let l = StyledLine { spans: vec![span("red ", 1), span("green ", 2), span("blue", 3)] };
    for width in 0..8u16 {
        assert_eq!(joined(&wrap(&l, width)), "red green blue");
    }
}

#[test]
fn styles_stay_with_their_text() {
    let l = StyledLine { spans: vec![span("aa", 7), span("bb", 9)] };
    let wrapped = wrap(&l, 2);
    for sub in &wrapped {
        for sp in &sub.spans {
            if sp.text.contains('a') {
                assert_eq!(sp.style, Style { code: 7 });
            }
            if sp.text.contains('b') {
                assert_eq!(sp.style, Style { code: 9 });
            }
        }
    }
}

#[test]
fn combining_mark_is_never_split_from_its_base() {
    // "e" followed by a combining acute accent is one grapheme cluster.
    let text = "ae\u{301}o";
    let wrapped = wrap(&line(text), 1);
    let texts: Vec<String> = wrapped.iter().map(sub_line_text).collect();
    assert_eq!(texts, vec!["a".to_string(), "e\u{301}".to_string(), "o".to_string()]);
    assert_eq!(joined(&wrap(&line(text), 2)), text);
}

#[test]
fn wide_characters_count_their_display_cells() {
    // CJK characters occupy two cells each, so only one fits in three.
    let wrapped = wrap(&line("\u{5B57}\u{5B57}\u{5B57}"), 3);
    let texts: Vec<String> = wrapped.iter().map(sub_line_text).collect();
    assert_eq!(
        texts,
        vec!["\u{5B57}".to_string(), "\u{5B57}".to_string(), "\u{5B57}".to_string()]
    );
}

#[test]
fn zero_width_viewport_still_keeps_all_text() {
    let wrapped = wrap(&line("ab"), 0);
    let texts: Vec<String> = wrapped.iter().map(sub_line_text).collect();
    // Every cluster overflows a zero-width line, so each lands alone,
    // after the empty line flushed by the first overflow.
    assert_eq!(texts, vec!["".to_string(), "a".to_string(), "b".to_string()]);
}
