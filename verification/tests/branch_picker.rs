//! Choosing a branch.

use clust::branch_picker::BranchPicker;
use clust::keys::{KeyCode, KeyEvent, KeyModifiers};

fn press(code: KeyCode) -> KeyEvent {
    KeyEvent::new(code, KeyModifiers::none())
}

/// Repro for the panic at the end of an ASCII input — `KeyCode::Right`
/// previously called `.unwrap()` on `chars().next()` after only a
/// byte-position guard, which exploded when `cursor_pos == input.len()`.
#[test]
fn branch_picker_right_at_end_does_not_panic() {
    let mut picker = BranchPicker::new();
    picker.enter_search();
    picker.handle_key(press(KeyCode::Char('a')));
    picker.handle_key(press(KeyCode::Char('b')));
    // cursor_pos == input.len() (== 2). Right should be a no-op.
    let cursor_before = picker.cursor_pos;
    picker.handle_key(press(KeyCode::Right));
    assert_eq!(picker.cursor_pos, cursor_before);
    assert_eq!(picker.input, "ab");
}

/// Multi-byte chars in the input must not corrupt `cursor_pos`. Walk Left
/// then Right across an emoji and verify we always land on a char
/// boundary (i.e., the `String` slicing in subsequent operations is
/// valid).
#[test]
fn branch_picker_left_right_handles_multibyte() {
    let mut picker = BranchPicker::new();
    picker.enter_search();
    // 'a' (1 byte) + 'é' (2 bytes) + 'a' (1 byte) = 4-byte string.
    for c in "aéa".chars() {
        picker.handle_key(press(KeyCode::Char(c)));
    }
    assert_eq!(picker.cursor_pos, picker.input.len());
    // Walk left across all chars.
    picker.handle_key(press(KeyCode::Left));
    picker.handle_key(press(KeyCode::Left));
    picker.handle_key(press(KeyCode::Left));
    assert_eq!(picker.cursor_pos, 0);
    // Now walk right across all chars.
    picker.handle_key(press(KeyCode::Right));
    picker.handle_key(press(KeyCode::Right));
    picker.handle_key(press(KeyCode::Right));
    assert_eq!(picker.cursor_pos, picker.input.len());
    // One more right past the end is a no-op (no panic).
    picker.handle_key(press(KeyCode::Right));
    assert_eq!(picker.cursor_pos, picker.input.len());
}

/// Pasting multi-byte text places the cursor on a valid char boundary
/// after each scalar value. `String::insert` would panic on a non-boundary
/// byte index, so the absence of a panic here exercises the invariant.
#[test]
fn branch_picker_paste_multibyte_keeps_cursor_valid() {
    let mut picker = BranchPicker::new();
    picker.enter_search();
    picker.handle_paste("aé");
    // Cursor is at byte len after paste.
    assert_eq!(picker.cursor_pos, picker.input.len());
    // Inserting at the cursor must succeed (i.e., cursor is on a boundary).
    picker.input.insert(picker.cursor_pos, 'z');
}
