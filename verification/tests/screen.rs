//! The terminal screen, fed with bytes.

use clust::screen::Screen;
use clust::style::Color;
use clust::virtual_terminal::VirtualTerminal;


fn screen_text(screen: &Screen) -> Vec<String> {
    screen
        .grid
        .iter()
        .map(|row| row.iter().map(|c| c.ch).collect())
        .collect()
}

#[test]
fn test_basic_print() {
    let mut vt = VirtualTerminal::new(10, 3);
    vt.process(b"Hello");
    let lines = screen_text(&vt.screen);
    assert_eq!(&lines[0], "Hello     ");
}

#[test]
fn test_newline() {
    let mut vt = VirtualTerminal::new(10, 3);
    // LF only moves cursor down, CR+LF moves to start of next line
    vt.process(b"A\r\nB");
    let lines = screen_text(&vt.screen);
    assert_eq!(&lines[0], "A         ");
    assert_eq!(&lines[1], "B         ");
}

#[test]
fn test_carriage_return() {
    let mut vt = VirtualTerminal::new(10, 3);
    vt.process(b"Hello\rXY");
    let lines = screen_text(&vt.screen);
    assert_eq!(&lines[0], "XYllo     ");
}

#[test]
fn test_cursor_movement() {
    let mut vt = VirtualTerminal::new(10, 5);
    // Move cursor to row 3, col 5 (1-indexed)
    vt.process(b"\x1b[3;5HA");
    let lines = screen_text(&vt.screen);
    assert_eq!(lines[2].chars().nth(4), Some('A'));
}

#[test]
fn test_erase_display() {
    let mut vt = VirtualTerminal::new(5, 3);
    vt.process(b"AAAAA\nBBBBB\nCCCCC");
    // Erase entire display
    vt.process(b"\x1b[2J");
    let lines = screen_text(&vt.screen);
    assert_eq!(&lines[0], "     ");
    assert_eq!(&lines[1], "     ");
    assert_eq!(&lines[2], "     ");
}

#[test]
fn test_erase_line() {
    let mut vt = VirtualTerminal::new(10, 3);
    vt.process(b"ABCDEFGHIJ");
    // Move to col 5, erase from cursor to end
    vt.process(b"\x1b[1;6H\x1b[0K");
    let lines = screen_text(&vt.screen);
    assert_eq!(&lines[0], "ABCDE     ");
}

#[test]
fn test_scroll_region() {
    let mut vt = VirtualTerminal::new(5, 5);
    // Use CUP to position each line precisely
    vt.process(b"\x1b[1;1HAAAAA\x1b[2;1HBBBBB\x1b[3;1HCCCCC\x1b[4;1HDDDDD\x1b[5;1HEEEEE");
    // Set scroll region to lines 2-4
    vt.process(b"\x1b[2;4r");
    // Move to line 4 and do linefeed (should scroll within region)
    vt.process(b"\x1b[4;1H\n");
    let lines = screen_text(&vt.screen);
    assert_eq!(&lines[0], "AAAAA"); // unchanged (outside region)
    assert_eq!(&lines[1], "CCCCC"); // was line 3
    assert_eq!(&lines[2], "DDDDD"); // was line 4
    assert_eq!(&lines[3], "     "); // new empty line
    assert_eq!(&lines[4], "EEEEE"); // unchanged (outside region)
}

#[test]
fn test_line_wrap() {
    let mut vt = VirtualTerminal::new(5, 3);
    vt.process(b"ABCDEFGH");
    let lines = screen_text(&vt.screen);
    assert_eq!(&lines[0], "ABCDE");
    assert_eq!(&lines[1], "FGH  ");
}

#[test]
fn test_sgr_bold() {
    let mut vt = VirtualTerminal::new(10, 3);
    vt.process(b"\x1b[1mBold\x1b[0m");
    assert!(vt.screen.grid[0][0]
        .style
        .add_modifier
        .bold);
    // After reset, should not be bold
    assert!(!vt.screen.grid[0][4]
        .style
        .add_modifier
        .bold);
}

#[test]
fn test_sgr_true_color() {
    let mut vt = VirtualTerminal::new(10, 3);
    // Set fg to RGB(255, 128, 0) using colon-separated subparams
    vt.process(b"\x1b[38;2;255;128;0mX");
    let style = vt.screen.grid[0][0].style;
    assert_eq!(style.fg, Some(Color::Rgb(255, 128, 0)));
}

#[test]
fn test_backspace() {
    let mut vt = VirtualTerminal::new(10, 3);
    vt.process(b"AB\x08C");
    let lines = screen_text(&vt.screen);
    assert_eq!(&lines[0], "AC        ");
}

#[test]
fn test_resize() {
    let mut vt = VirtualTerminal::new(5, 3);
    vt.process(b"Hello");
    vt.resize(10, 5);
    assert_eq!(vt.screen.cols, 10);
    assert_eq!(vt.screen.rows, 5);
    // Grid is cleared on resize to prevent stale content artifacts
    let lines = screen_text(&vt.screen);
    assert_eq!(&lines[0], "          ");
}

#[test]
fn test_resize_noop_preserves_content() {
    let mut vt = VirtualTerminal::new(5, 3);
    vt.process(b"Hello");
    vt.resize(5, 3); // same dimensions — no-op
    let lines = screen_text(&vt.screen);
    assert_eq!(&lines[0], "Hello");
}

#[test]
fn test_to_ratatui_lines() {
    let mut vt = VirtualTerminal::new(5, 2);
    vt.process(b"Hello");
    let lines = vt.screen.to_ratatui_lines();
    assert_eq!(lines.len(), 2);
}

#[test]
fn test_erase_display_saves_scrollback() {
    let mut vt = VirtualTerminal::new(5, 3);
    vt.process(b"AAAAA\r\nBBBBB\r\nCCCCC");
    assert_eq!(vt.screen.scrollback_len(), 0);
    vt.process(b"\x1b[2J");
    assert_eq!(vt.screen.scrollback_len(), 3);
}

#[test]
fn test_erase_display_skips_blank_screen() {
    let mut vt = VirtualTerminal::new(5, 3);
    vt.process(b"\x1b[2J");
    assert_eq!(vt.screen.scrollback_len(), 0);
}

#[test]
fn test_erase_display_mode0_at_home_saves_scrollback() {
    let mut vt = VirtualTerminal::new(5, 3);
    vt.process(b"AAAAA\r\nBBBBB\r\nCCCCC");
    // Cursor home + ED mode 0
    vt.process(b"\x1b[H\x1b[J");
    assert_eq!(vt.screen.scrollback_len(), 3);
}

#[test]
fn test_erase_display_mode0_not_at_home_no_save() {
    let mut vt = VirtualTerminal::new(5, 3);
    vt.process(b"AAAAA\r\nBBBBB\r\nCCCCC");
    // Cursor to row 2, then ED mode 0 — partial clear
    vt.process(b"\x1b[2;1H\x1b[J");
    assert_eq!(vt.screen.scrollback_len(), 0);
}

#[test]
fn test_resize_keep_scrollback_preserves() {
    let mut vt = VirtualTerminal::new(5, 3);
    vt.process(b"AAAAA\r\nBBBBB\r\nCCCCC");
    vt.process(b"\x1b[2J");
    assert_eq!(vt.screen.scrollback_len(), 3);
    vt.resize_keep_scrollback(10, 5);
    assert_eq!(vt.screen.scrollback_len(), 3);
}

#[test]
fn test_scrollback_trims_trailing_blank_rows() {
    let mut vt = VirtualTerminal::new(5, 5);
    vt.process(b"AAAAA\r\nBBBBB");
    vt.process(b"\x1b[2J");
    // Only 2 rows had content
    assert_eq!(vt.screen.scrollback_len(), 2);
}

#[test]
fn cursor_is_where_the_output_left_it() {
    let mut vt = VirtualTerminal::new(10, 4);
    vt.process(b"ab\r\ncde");
    assert_eq!(vt.screen.cursor_position(), (1, 3));
    vt.process(b"\x1b[3;2H");
    assert_eq!(vt.screen.cursor_position(), (2, 1));
}
