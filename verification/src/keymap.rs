use crate::machine::KEY_COUNT;
use vstd::prelude::*;

verus! {

/// The keypad key that a character of the host keyboard stands for. The
/// four rows `1234`, `qwer`, `asdf`, `zxcv` of the keyboard lie over the
/// four rows `123C`, `456D`, `789E`, `A0BF` of the keypad.
pub open spec fn keypad_key(c: char) -> Option<usize> {
    if c == '1' {
        Some(0x1usize)
    } else if c == '2' {
        Some(0x2usize)
    } else if c == '3' {
        Some(0x3usize)
    } else if c == '4' {
        Some(0xCusize)
    } else if c == 'q' {
        Some(0x4usize)
    } else if c == 'w' {
        Some(0x5usize)
    } else if c == 'e' {
        Some(0x6usize)
    } else if c == 'r' {
        Some(0xDusize)
    } else if c == 'a' {
        Some(0x7usize)
    } else if c == 's' {
        Some(0x8usize)
    } else if c == 'd' {
        Some(0x9usize)
    } else if c == 'f' {
        Some(0xEusize)
    } else if c == 'z' {
        Some(0xAusize)
    } else if c == 'x' {
        Some(0x0usize)
    } else if c == 'c' {
        Some(0xBusize)
    } else if c == 'v' {
        Some(0xFusize)
    } else {
        None
    }
}

/// The keypad key for the name of a keyboard key: that of its one
/// character, and none for a longer or an empty name.
pub open spec fn key2btn_spec(key: Seq<char>) -> Option<usize> {
    if key.len() == 1 {
        keypad_key(key[0])
    } else {
        None
    }
}

/// The keypad key for a key code that is the code point of the key's
/// character, as the codes of the printing keys are.
pub open spec fn map_key_spec(keycode: i32) -> Option<usize> {
    if 0 <= keycode < 0x80 {
        keypad_key(keycode as u8 as char)
    } else {
        None
    }
}

/// Looks one character up in the keyboard layout.
fn keypad_key_of(c: char) -> (key: Option<usize>)
    ensures
        key == keypad_key(c),
        key matches Some(k) ==> k < KEY_COUNT,
{
    match c {
        '1' => Some(0x1),
        '2' => Some(0x2),
        '3' => Some(0x3),
        '4' => Some(0xC),
        'q' => Some(0x4),
        'w' => Some(0x5),
        'e' => Some(0x6),
        'r' => Some(0xD),
        'a' => Some(0x7),
        's' => Some(0x8),
        'd' => Some(0x9),
        'f' => Some(0xE),
        'z' => Some(0xA),
        'x' => Some(0x0),
        'c' => Some(0xB),
        'v' => Some(0xF),
        _ => None,
    }
}

/// The keypad key for a keyboard key given by name, as a browser names it
/// in a keyboard event.
pub fn key2btn(key: &str) -> (btn: Option<usize>)
    ensures
        btn == key2btn_spec(key@),
        btn matches Some(k) ==> k < KEY_COUNT,
{
    if key.unicode_len() == 1 {
        keypad_key_of(key.get_char(0))
    } else {
        None
    }
}

/// The keypad key for a keyboard key given by its key code.
pub fn map_key(keycode: i32) -> (idx: Option<usize>)
    ensures
        idx == map_key_spec(keycode),
        idx matches Some(k) ==> k < KEY_COUNT,
{
    if 0 <= keycode && keycode < 0x80 {
        keypad_key_of(keycode as u8 as char)
    } else {
        None
    }
}

} // verus!
