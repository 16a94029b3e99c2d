//! The bytes that keys stand for.

use clust::keys::{key_event_to_bytes, KeyCode, KeyEvent, KeyModifiers};

#[test]
fn test_regular_char() {
    let bytes = key_event_to_bytes(&KeyEvent::new(KeyCode::Char('a'), KeyModifiers::none()));
    assert_eq!(bytes, Some(vec![b'a']));
}

#[test]
fn test_ctrl_c() {
    let bytes = key_event_to_bytes(&KeyEvent::new(KeyCode::Char('c'), KeyModifiers::control()));
    assert_eq!(bytes, Some(vec![0x03]));
}

#[test]
fn test_enter() {
    let bytes = key_event_to_bytes(&KeyEvent::new(KeyCode::Enter, KeyModifiers::none()));
    assert_eq!(bytes, Some(vec![b'\r']));
}

#[test]
fn test_arrow_up() {
    let bytes = key_event_to_bytes(&KeyEvent::new(KeyCode::Up, KeyModifiers::none()));
    assert_eq!(bytes, Some(b"\x1b[A".to_vec()));
}

#[test]
fn test_f1() {
    let bytes = key_event_to_bytes(&KeyEvent::new(KeyCode::F(1), KeyModifiers::none()));
    assert_eq!(bytes, Some(b"\x1bOP".to_vec()));
}

#[test]
fn test_unicode() {
    let bytes = key_event_to_bytes(&KeyEvent::new(KeyCode::Char('ñ'), KeyModifiers::none()));
    assert_eq!(bytes, Some("ñ".as_bytes().to_vec()));
}
