//! Wrapping styled text.

use clust::style::{Span, Style};
use clust::wrapping::wrap_spans;

fn raw(text: &str) -> Span {
    Span::of(text, Style::new())
}

/// `wrap_spans` must not loop forever when `max_width == 0` (e.g., when
/// the diff body is narrower than the gutter width).
#[test]
fn wrap_spans_max_width_zero_returns_one_empty_row() {
    let spans = vec![raw("hello world")];
    let rows = wrap_spans(spans, 0);
    assert_eq!(rows.len(), 1);
    assert!(rows[0].is_empty());
}

/// Sanity: ordinary wrapping still produces multiple rows.
#[test]
fn wrap_spans_wraps_long_input() {
    let spans = vec![raw("abcdefghij")];
    let rows = wrap_spans(spans, 3);
    let joined: Vec<String> = rows
        .iter()
        .map(|row| row.iter().map(|s| s.content.to_string()).collect())
        .collect();
    assert_eq!(joined, vec!["abc", "def", "ghi", "j"]);
}

/// Multi-byte spans must wrap on char boundaries (no panic from
/// `split_at` landing in the middle of a UTF-8 sequence).
#[test]
fn wrap_spans_handles_multibyte() {
    let spans = vec![raw("aébécédéf")];
    let rows = wrap_spans(spans, 2);
    // Just verify the joined output equals the input — no chars lost,
    // no panic on multi-byte boundaries.
    let joined: String = rows
        .iter()
        .flat_map(|row| row.iter().map(|s| s.content.to_string()))
        .collect();
    assert_eq!(joined, "aébécédéf");
}
