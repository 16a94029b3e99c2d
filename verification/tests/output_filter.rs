//! Assembling escape sequences that arrive in pieces.

use clust::output_filter::{EscapeSequenceAssembler, FilterChain, OutputFilter, MAX_PENDING};


// ── FilterChain tests ──────────────────────────────────────────

#[test]
fn empty_chain_passes_through() {
    let mut chain = FilterChain::new();
    assert_eq!(chain.filter(b"hello"), b"hello");
}

#[test]
fn chain_flush_empty() {
    let mut chain = FilterChain::new();
    assert!(chain.flush().is_empty());
}

#[test]
fn chain_with_assembler() {
    let mut chain = FilterChain::new();
    chain.push(Box::new(EscapeSequenceAssembler::new()));

    let out1 = chain.filter(b"text\x1b[38;2;255;");
    assert_eq!(out1, b"text");

    let out2 = chain.filter(b"255;255mworld");
    assert_eq!(out2, b"\x1b[38;2;255;255;255mworld");
}

#[test]
fn chain_flush_with_assembler() {
    let mut chain = FilterChain::new();
    chain.push(Box::new(EscapeSequenceAssembler::new()));

    let _ = chain.filter(b"\x1b[31");
    let flushed = chain.flush();
    assert_eq!(flushed, b"\x1b[31");
}

// ── EscapeSequenceAssembler tests ──────────────────────────────

#[test]
fn plain_text_passes_through() {
    let mut assembler = EscapeSequenceAssembler::new();
    assert_eq!(assembler.filter(b"hello world"), b"hello world");
    assert!(assembler.pending.is_empty());
}

#[test]
fn complete_sgr_passes_through() {
    let mut assembler = EscapeSequenceAssembler::new();
    let seq = b"\x1b[38;2;255;255;255m";
    assert_eq!(assembler.filter(seq), seq.to_vec());
    assert!(assembler.pending.is_empty());
}

#[test]
fn complete_cursor_position_passes_through() {
    let mut assembler = EscapeSequenceAssembler::new();
    let seq = b"\x1b[84;1H";
    assert_eq!(assembler.filter(seq), seq.to_vec());
}

#[test]
fn split_sgr_across_two_chunks() {
    let mut assembler = EscapeSequenceAssembler::new();

    let out1 = assembler.filter(b"hello\x1b[38;2;255;255;25");
    assert_eq!(out1, b"hello");
    assert_eq!(assembler.pending, b"\x1b[38;2;255;255;25");

    let out2 = assembler.filter(b"5mworld");
    assert_eq!(out2, b"\x1b[38;2;255;255;255mworld");
    assert!(assembler.pending.is_empty());
}

#[test]
fn split_at_esc_byte() {
    let mut assembler = EscapeSequenceAssembler::new();

    let out1 = assembler.filter(b"text\x1b");
    assert_eq!(out1, b"text");
    assert_eq!(assembler.pending, b"\x1b");

    let out2 = assembler.filter(b"[1;2H");
    assert_eq!(out2, b"\x1b[1;2H");
    assert!(assembler.pending.is_empty());
}

#[test]
fn split_after_csi_bracket() {
    let mut assembler = EscapeSequenceAssembler::new();

    let out1 = assembler.filter(b"abc\x1b[");
    assert_eq!(out1, b"abc");

    let out2 = assembler.filter(b"2Kdef");
    assert_eq!(out2, b"\x1b[2Kdef");
}

#[test]
fn multiple_complete_sequences() {
    let mut assembler = EscapeSequenceAssembler::new();
    let input = b"\x1b[1m\x1b[31mhello\x1b[0m";
    assert_eq!(assembler.filter(input), input.to_vec());
}

#[test]
fn osc_terminated_by_bel() {
    let mut assembler = EscapeSequenceAssembler::new();
    let seq = b"\x1b]0;my title\x07rest";
    assert_eq!(assembler.filter(seq), seq.to_vec());
}

#[test]
fn osc_terminated_by_st() {
    let mut assembler = EscapeSequenceAssembler::new();
    let seq = b"\x1b]0;title\x1b\\rest";
    assert_eq!(assembler.filter(seq), seq.to_vec());
}

#[test]
fn osc_split_across_chunks() {
    let mut assembler = EscapeSequenceAssembler::new();

    let out1 = assembler.filter(b"pre\x1b]0;my ti");
    assert_eq!(out1, b"pre");

    let out2 = assembler.filter(b"tle\x07post");
    assert_eq!(out2, b"\x1b]0;my title\x07post");
}

#[test]
fn dcs_string_command() {
    let mut assembler = EscapeSequenceAssembler::new();
    let seq = b"\x1bPcontent\x1b\\after";
    assert_eq!(assembler.filter(seq), seq.to_vec());
}

#[test]
fn apc_string_command() {
    let mut assembler = EscapeSequenceAssembler::new();
    let seq = b"\x1b_Gcontent\x1b\\after";
    assert_eq!(assembler.filter(seq), seq.to_vec());
}

#[test]
fn two_char_escape_sequences() {
    let mut assembler = EscapeSequenceAssembler::new();
    assert_eq!(assembler.filter(b"\x1b7text\x1b8"), b"\x1b7text\x1b8");
}

#[test]
fn escape_intermediate_sequence() {
    let mut assembler = EscapeSequenceAssembler::new();
    // ESC # 8 = DEC screen alignment test
    assert_eq!(assembler.filter(b"\x1b#8"), b"\x1b#8");
}

#[test]
fn escape_intermediate_split() {
    let mut assembler = EscapeSequenceAssembler::new();

    let out1 = assembler.filter(b"a\x1b#");
    assert_eq!(out1, b"a");

    let out2 = assembler.filter(b"8b");
    assert_eq!(out2, b"\x1b#8b");
}

#[test]
fn ss3_f_key_sequence() {
    let mut assembler = EscapeSequenceAssembler::new();
    // ESC O P = F1
    assert_eq!(assembler.filter(b"\x1bOP"), b"\x1bOP");
}

#[test]
fn ss3_split_across_chunks() {
    let mut assembler = EscapeSequenceAssembler::new();

    let out1 = assembler.filter(b"text\x1bO");
    assert_eq!(out1, b"text");

    let out2 = assembler.filter(b"Pmore");
    assert_eq!(out2, b"\x1bOPmore");
}

#[test]
fn c0_controls_pass_through() {
    let mut assembler = EscapeSequenceAssembler::new();
    assert_eq!(assembler.filter(b"\x07\x08\t\n\r"), b"\x07\x08\t\n\r");
}

#[test]
fn flush_returns_pending() {
    let mut assembler = EscapeSequenceAssembler::new();
    let _ = assembler.filter(b"text\x1b[31");
    assert_eq!(assembler.pending, b"\x1b[31");

    let flushed = assembler.flush();
    assert_eq!(flushed, b"\x1b[31");
    assert!(assembler.pending.is_empty());
}

#[test]
fn safety_valve_flushes_on_overflow() {
    let mut assembler = EscapeSequenceAssembler::new();
    let mut big = Vec::new();
    big.extend_from_slice(b"\x1b]0;");
    big.extend(vec![b'X'; MAX_PENDING + 100]);
    let output = assembler.filter(&big);
    assert_eq!(output.len(), big.len());
    assert!(assembler.pending.is_empty());
}

#[test]
fn the_exact_bug_scenario() {
    // Simulates the exact bug from the screenshots:
    // PTY outputs \x1b[38;2;255;255;255m in two chunks
    let mut assembler = EscapeSequenceAssembler::new();

    let out1 = assembler.filter(b"some text\x1b[38;2;255;255;");
    assert_eq!(out1, b"some text");

    // Without the assembler, "255m" would appear as visible text
    let out2 = assembler.filter(b"255m more text");
    assert_eq!(out2, b"\x1b[38;2;255;255;255m more text");
}

#[test]
fn cursor_position_split() {
    // Another bug from screenshots: "84;1H" visible
    let mut assembler = EscapeSequenceAssembler::new();

    let out1 = assembler.filter(b"line\x1b[");
    assert_eq!(out1, b"line");

    let out2 = assembler.filter(b"84;1Hcontent");
    assert_eq!(out2, b"\x1b[84;1Hcontent");
}

#[test]
fn mixed_text_and_sequences() {
    let mut assembler = EscapeSequenceAssembler::new();
    let input = b"hello \x1b[1mbold\x1b[0m normal \x1b[38;2;100;200;50mcolor\x1b[0m";
    assert_eq!(assembler.filter(input), input.to_vec());
}

#[test]
fn empty_input() {
    let mut assembler = EscapeSequenceAssembler::new();
    assert_eq!(assembler.filter(b""), b"".to_vec());
}

#[test]
fn flush_empty() {
    let mut assembler = EscapeSequenceAssembler::new();
    assert!(assembler.flush().is_empty());
}

#[test]
fn three_way_split() {
    let mut assembler = EscapeSequenceAssembler::new();

    let out1 = assembler.filter(b"text\x1b");
    assert_eq!(out1, b"text");

    let out2 = assembler.filter(b"[48;2;");
    assert!(out2.is_empty());

    let out3 = assembler.filter(b"10;10;10mmore");
    assert_eq!(out3, b"\x1b[48;2;10;10;10mmore");
}

#[test]
fn consecutive_partial_sequences() {
    let mut assembler = EscapeSequenceAssembler::new();

    // First sequence completes, second is partial
    let out1 = assembler.filter(b"\x1b[1m\x1b[38;2;");
    assert_eq!(out1, b"\x1b[1m");

    let out2 = assembler.filter(b"200;100;50m");
    assert_eq!(out2, b"\x1b[38;2;200;100;50m");
}
