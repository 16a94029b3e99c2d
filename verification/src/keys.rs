//! Keys, and the bytes that a terminal sends for them.

use vstd::prelude::*;

verus! {

/// A key without its modifiers.
#[derive(Debug, Clone, Copy, PartialEq, Eq, Structural)]
pub enum KeyCode {
    Char(char),
    Enter,
    Backspace,
    Tab,
    BackTab,
    Esc,
    Up,
    Down,
    Left,
    Right,
    Home,
    End,
    PageUp,
    PageDown,
    Delete,
    Insert,
    F(u8),
    /// Any other key.
    Other,
}

/// The modifiers that were held.
#[derive(Debug, Clone, Copy, PartialEq, Eq, Structural)]
pub struct KeyModifiers {
    pub shift: bool,
    pub control: bool,
    pub alt: bool,
    /// The key with a logo on it.
    pub meta: bool,
}

impl KeyModifiers {
    /// No modifier.
    pub fn none() -> (m: Self)
        ensures
            m == (KeyModifiers { shift: false, control: false, alt: false, meta: false }),
    {
        KeyModifiers { shift: false, control: false, alt: false, meta: false }
    }

    /// Control alone.
    pub fn control() -> (m: Self)
        ensures
            m == (KeyModifiers { shift: false, control: true, alt: false, meta: false }),
    {
        KeyModifiers { shift: false, control: true, alt: false, meta: false }
    }
}

/// A key press.
#[derive(Debug, Clone, Copy, PartialEq, Eq, Structural)]
pub struct KeyEvent {
    pub code: KeyCode,
    pub modifiers: KeyModifiers,
}

impl KeyEvent {
    pub fn new(code: KeyCode, modifiers: KeyModifiers) -> (key: Self)
        ensures
            key == (KeyEvent { code, modifiers }),
    {
        KeyEvent { code, modifiers }
    }
}

pub open spec fn is_lower(c: char) -> bool {
    'a' <= c <= 'z'
}

pub open spec fn is_upper(c: char) -> bool {
    'A' <= c <= 'Z'
}

/// The control code of a character that is typed with Control held.
pub open spec fn control_code(c: char) -> Option<u8> {
    if is_lower(c) {
        Some((c as int - 96) as u8)
    } else if is_upper(c) {
        Some((c as int - 64) as u8)
    } else if c == '@' {
        Some(0x00)
    } else if c == '[' {
        Some(0x1b)
    } else if c == '\\' {
        Some(0x1c)
    } else if c == ']' {
        Some(0x1d)
    } else if c == '^' {
        Some(0x1e)
    } else if c == '_' {
        Some(0x1f)
    } else {
        None
    }
}

/// What follows ESC for a function key; nothing is sent for a key that has no code.
pub open spec fn f_key_code(n: u8) -> Seq<u8> {
    if 1 <= n <= 4 {
        // O P to O S
        seq![0x4fu8, (0x4f + n) as u8]
    } else if n == 5 {
        csi_tilde(0x31, 0x35)
    } else if 6 <= n <= 8 {
        csi_tilde(0x31, (0x31 + n) as u8)
    } else if n == 9 {
        csi_tilde(0x32, 0x30)
    } else if n == 10 {
        csi_tilde(0x32, 0x31)
    } else if n == 11 {
        csi_tilde(0x32, 0x33)
    } else if n == 12 {
        csi_tilde(0x32, 0x34)
    } else {
        Seq::empty()
    }
}

/// `[`, two digits and `~`.
pub open spec fn csi_tilde(tens: u8, ones: u8) -> Seq<u8> {
    seq![0x5bu8, tens, ones, 0x7eu8]
}

/// ESC, `[` and one letter.
pub open spec fn csi_letter(letter: u8) -> Seq<u8> {
    seq![0x1bu8, 0x5bu8, letter]
}

/// ESC, `[`, one digit and `~`.
pub open spec fn csi_digit(digit: u8) -> Seq<u8> {
    seq![0x1bu8, 0x5bu8, digit, 0x7eu8]
}

/// The bytes that a terminal sends for a key.
pub open spec fn key_bytes(key: KeyEvent) -> Option<Seq<u8>> {
    match key.code {
        KeyCode::Char(c) => if key.modifiers.control {
            match control_code(c) {
                Some(code) => Some(seq![code]),
                None => None,
            }
        } else {
            Some(vstd::utf8::encode_utf8(seq![c]))
        },
        KeyCode::Enter => Some(seq![0x0du8]),
        KeyCode::Backspace => Some(seq![0x7fu8]),
        KeyCode::Tab => Some(seq![0x09u8]),
        KeyCode::BackTab => Some(csi_letter(0x5a)),
        KeyCode::Esc => Some(seq![0x1bu8]),
        KeyCode::Up => Some(csi_letter(0x41)),
        KeyCode::Down => Some(csi_letter(0x42)),
        KeyCode::Right => Some(csi_letter(0x43)),
        KeyCode::Left => Some(csi_letter(0x44)),
        KeyCode::Home => Some(csi_letter(0x48)),
        KeyCode::End => Some(csi_letter(0x46)),
        KeyCode::PageUp => Some(csi_digit(0x35)),
        KeyCode::PageDown => Some(csi_digit(0x36)),
        KeyCode::Delete => Some(csi_digit(0x33)),
        KeyCode::Insert => Some(csi_digit(0x32)),
        KeyCode::F(n) => Some(
            if 1 <= n <= 12 {
                seq![0x1bu8] + f_key_code(n)
            } else {
                Seq::empty()
            },
        ),
        KeyCode::Other => None,
    }
}

/// Convert a key press into the raw byte sequence a terminal
/// would send for that key. Returns `None` for keys that should not be
/// forwarded (e.g. modifier-only presses).
pub fn key_event_to_bytes(key: &KeyEvent) -> (bytes: Option<Vec<u8>>)
    ensures
        match bytes {
            Some(b) => key_bytes(*key) == Some(b@),
            None => key_bytes(*key) is None,
        },
{
    match key.code {
        KeyCode::Char(c) => if key.modifiers.control {
            match control_byte(c) {
                Some(code) => Some(vec![code]),
                None => None,
            }
        } else {
            let mut s = String::new();
            s.push(c);
            assert(s@ =~= seq![c]);
            let mut bytes: Vec<u8> = Vec::new();
            bytes.extend_from_slice(s.as_str().as_bytes());
            assert(bytes@ =~= vstd::utf8::encode_utf8(s@));
            Some(bytes)
        },
        KeyCode::Enter => Some(vec![0x0d]),
        KeyCode::Backspace => Some(vec![0x7f]),
        KeyCode::Tab => Some(vec![0x09]),
        KeyCode::BackTab => Some(vec![0x1b, 0x5b, 0x5a]),
        KeyCode::Esc => Some(vec![0x1b]),
        KeyCode::Up => Some(vec![0x1b, 0x5b, 0x41]),
        KeyCode::Down => Some(vec![0x1b, 0x5b, 0x42]),
        KeyCode::Right => Some(vec![0x1b, 0x5b, 0x43]),
        KeyCode::Left => Some(vec![0x1b, 0x5b, 0x44]),
        KeyCode::Home => Some(vec![0x1b, 0x5b, 0x48]),
        KeyCode::End => Some(vec![0x1b, 0x5b, 0x46]),
        KeyCode::PageUp => Some(vec![0x1b, 0x5b, 0x35, 0x7e]),
        KeyCode::PageDown => Some(vec![0x1b, 0x5b, 0x36, 0x7e]),
        KeyCode::Delete => Some(vec![0x1b, 0x5b, 0x33, 0x7e]),
        KeyCode::Insert => Some(vec![0x1b, 0x5b, 0x32, 0x7e]),
        KeyCode::F(n) => Some(f_key_bytes(n)),
        KeyCode::Other => None,
    }
}

fn control_byte(c: char) -> (code: Option<u8>)
    ensures
        code == control_code(c),
{
    if 'a' <= c && c <= 'z' {
        Some((c as u8) - 96)
    } else if 'A' <= c && c <= 'Z' {
        Some((c as u8) - 64)
    } else {
        match c {
            '@' => Some(0x00),
            '[' => Some(0x1b),
            '\\' => Some(0x1c),
            ']' => Some(0x1d),
            '^' => Some(0x1e),
            '_' => Some(0x1f),
            _ => None,
        }
    }
}

fn f_key_bytes(n: u8) -> (bytes: Vec<u8>)
    ensures
        bytes@ == (if 1 <= n <= 12 {
            seq![0x1bu8] + f_key_code(n)
        } else {
            Seq::empty()
        }),
{
    let bytes: Vec<u8> = match n {
        1..=4 => vec![0x1b, 0x4f, 0x4f + n],
        5 => vec![0x1b, 0x5b, 0x31, 0x35, 0x7e],
        6..=8 => vec![0x1b, 0x5b, 0x31, 0x31 + n, 0x7e],
        9 => vec![0x1b, 0x5b, 0x32, 0x30, 0x7e],
        10 => vec![0x1b, 0x5b, 0x32, 0x31, 0x7e],
        11 => vec![0x1b, 0x5b, 0x32, 0x33, 0x7e],
        12 => vec![0x1b, 0x5b, 0x32, 0x34, 0x7e],
        _ => Vec::new(),
    };
    assert(bytes@ =~= if 1 <= n <= 12 {
        seq![0x1bu8] + f_key_code(n)
    } else {
        Seq::empty()
    });
    bytes
}

/// Typing a plain character sends that character and nothing else.
pub proof fn typed_character_is_sent_as_itself(c: char, modifiers: KeyModifiers)
    requires
        !modifiers.control,
    ensures
        ({
            let bytes = key_bytes(KeyEvent { code: KeyCode::Char(c), modifiers });
            bytes is Some && vstd::utf8::decode_utf8(bytes->0) == seq![c]
        }),
{
    vstd::utf8::encode_utf8_decode_utf8(seq![c]);
}

/// With Control held, a letter sends its place in the alphabet, whatever its case, and each of the
/// characters around the letters sends how far it lies behind the at sign.
pub proof fn control_sends_the_place_in_the_alphabet(c: char, modifiers: KeyModifiers)
    requires
        modifiers.control,
    ensures
        ({
            let bytes = key_bytes(KeyEvent { code: KeyCode::Char(c), modifiers });
            &&& 'a' <= c <= 'z' ==> bytes is Some && bytes->0.len() == 1 && bytes->0[0] as int
                == c as int - 'a' as int + 1
            &&& '@' <= c <= '_' ==> bytes is Some && bytes->0.len() == 1 && bytes->0[0] as int
                == c as int - '@' as int
            &&& !('a' <= c <= 'z') && !('@' <= c <= '_') ==> bytes is None
        }),
{
}

/// The keys that have a control character of their own send it: Enter a carriage return, Tab a
/// tab, Escape an escape and Backspace a delete.
pub proof fn keys_with_control_characters_send_them(modifiers: KeyModifiers)
    ensures
        ({
            let bytes = |code: KeyCode| key_bytes(KeyEvent { code, modifiers });
            &&& bytes(KeyCode::Enter) == Some(seq!['\r' as u8])
            &&& bytes(KeyCode::Tab) == Some(seq!['\t' as u8])
            &&& bytes(KeyCode::Esc) == Some(seq!['\x1b' as u8])
            &&& bytes(KeyCode::Backspace) == Some(seq!['\x7f' as u8])
        }),
{
}

/// The number of a key that is sent by its number: the four keys above the arrows, and the function
/// keys from the fifth on, whose numbers leave out sixteen and twenty-two.
pub open spec fn key_number(code: KeyCode) -> Option<nat> {
    match code {
        KeyCode::Insert => Some(2),
        KeyCode::Delete => Some(3),
        KeyCode::PageUp => Some(5),
        KeyCode::PageDown => Some(6),
        KeyCode::F(n) => if n == 5 {
            Some(15)
        } else if 6 <= n <= 10 {
            Some((n + 11) as nat)
        } else if 11 <= n <= 12 {
            Some((n + 12) as nat)
        } else {
            None
        },
        _ => None,
    }
}

/// A key that is sent by its number is sent as an escape, a bracket, the number's digits and a
/// tilde.
pub proof fn numbered_keys_send_their_number(code: KeyCode, modifiers: KeyModifiers)
    requires
        key_number(code) is Some,
    ensures
        ({
            let bytes = key_bytes(KeyEvent { code, modifiers })->0;
            let digits = crate::text::decimal(key_number(code)->0);
            &&& key_bytes(KeyEvent { code, modifiers }) is Some
            &&& bytes.len() == digits.len() + 3
            &&& bytes[0] == '\x1b' as u8 && bytes[1] == '[' as u8 && bytes.last() == '~' as u8
            &&& forall|i: int|
                0 <= i < digits.len() ==> bytes[i + 2] == (#[trigger] digits[i]) as u8
        }),
{
    let n = key_number(code)->0;
    crate::text::decimal_is_digit_by_digit(n);
    let digits = crate::text::decimal(n);
    if n >= 10 {
        crate::text::decimal_is_digit_by_digit(n / 10);
        assert(digits.len() == 2);
        assert(digits[0] == digits.drop_last()[0]);
        assert(digits[0] as int - '0' as int == n / 10);
    }
    let bytes = key_bytes(KeyEvent { code, modifiers })->0;
    assert(bytes.len() == digits.len() + 3);
    assert forall|i: int| 0 <= i < digits.len() implies bytes[i + 2] == (#[trigger] digits[i]) as u8 by {}
}

/// The first four function keys send an escape, an `O` and a letter from `P` on; Shift and Tab
/// together, and End, send a bracket and a letter; a key that is not known sends nothing.
pub proof fn lettered_keys_send_their_letter(n: u8, modifiers: KeyModifiers)
    requires
        1 <= n <= 4,
    ensures
        ({
            let bytes = |code: KeyCode| key_bytes(KeyEvent { code, modifiers });
            &&& bytes(KeyCode::F(n)) == Some(
                seq!['\x1b' as u8, 'O' as u8, ('P' as u8 + n - 1) as u8],
            )
            &&& bytes(KeyCode::BackTab) == Some(seq!['\x1b' as u8, '[' as u8, 'Z' as u8])
            &&& bytes(KeyCode::End) == Some(seq!['\x1b' as u8, '[' as u8, 'F' as u8])
            &&& bytes(KeyCode::Other) is None
        }),
{
    assert(seq![0x1bu8] + f_key_code(n) =~= seq!['\x1b' as u8, 'O' as u8, ('P' as u8 + n - 1) as u8]);
}

} // verus!
