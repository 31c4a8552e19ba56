//! The key lexicon: symbolic names for keys and mouse buttons.
//!
//! A target token names either a modifier or navigation key, or is a
//! single accepted printable character that stands for the literal key
//! producing it.

use vstd::prelude::*;
use crate::norm::str_eq;

verus! {

/// An abstract key identifier.
#[derive(Clone, Copy, PartialEq, Eq, Structural, Debug)]
pub enum Key {
    Alt,
    Backspace,
    CapsLock,
    Control,
    Delete,
    DownArrow,
    End,
    Escape,
    F1,
    F2,
    F3,
    F4,
    F5,
    F6,
    F7,
    F8,
    F9,
    F10,
    F11,
    F12,
    Home,
    LeftArrow,
    Meta,
    /// The key written `option` in source text.
    OptionKey,
    PageDown,
    PageUp,
    Return,
    RightArrow,
    Shift,
    Space,
    Tab,
    UpArrow,
    /// A literal printable character key.
    Layout(char),
}

/// An abstract mouse button identifier.
#[derive(Clone, Copy, PartialEq, Eq, Structural, Debug)]
pub enum MouseButton {
    Left,
    Middle,
    Right,
}

/// A single character accepted as a literal key: an ASCII letter or digit,
/// or one of the punctuation characters `` ` - = [ ] \ ; ' , . / ``.
pub open spec fn is_layout_char(c: char) -> bool {
    let u = c as u32;
    (97 <= u <= 122)  // a-z
     || (65 <= u <= 90)  // A-Z
     || (48 <= u <= 57)  // 0-9
     || u == 96 || u == 45 || u == 61 || u == 91 || u == 93 || u == 92 || u == 59 || u == 39
        || u == 44 || u == 46 || u == 47
}

/// The key named by a target token, if any.
pub open spec fn spec_key_of_name(s: Seq<char>) -> Option<Key> {
    if s == "alt"@ {
        Some(Key::Alt)
    } else if s == "backspace"@ || s == "back"@ {
        Some(Key::Backspace)
    } else if s == "caps_lock"@ {
        Some(Key::CapsLock)
    } else if s == "control"@ || s == "ctrl"@ {
        Some(Key::Control)
    } else if s == "del"@ || s == "delete"@ {
        Some(Key::Delete)
    } else if s == "down"@ {
        Some(Key::DownArrow)
    } else if s == "end"@ {
        Some(Key::End)
    } else if s == "esc"@ || s == "escape"@ {
        Some(Key::Escape)
    } else if s == "f1"@ {
        Some(Key::F1)
    } else if s == "f2"@ {
        Some(Key::F2)
    } else if s == "f3"@ {
        Some(Key::F3)
    } else if s == "f4"@ {
        Some(Key::F4)
    } else if s == "f5"@ {
        Some(Key::F5)
    } else if s == "f6"@ {
        Some(Key::F6)
    } else if s == "f7"@ {
        Some(Key::F7)
    } else if s == "f8"@ {
        Some(Key::F8)
    } else if s == "f9"@ {
        Some(Key::F9)
    } else if s == "f10"@ {
        Some(Key::F10)
    } else if s == "f11"@ {
        Some(Key::F11)
    } else if s == "f12"@ {
        Some(Key::F12)
    } else if s == "home"@ {
        Some(Key::Home)
    } else if s == "left"@ {
        Some(Key::LeftArrow)
    } else if s == "win"@ || s == "windows"@ || s == "meta"@ || s == "command"@ || s == "super"@ {
        Some(Key::Meta)
    } else if s == "option"@ {
        Some(Key::OptionKey)
    } else if s == "pgdown"@ || s == "pg_down"@ || s == "page_down"@ {
        Some(Key::PageDown)
    } else if s == "pgup"@ || s == "pg_up"@ || s == "page_up"@ {
        Some(Key::PageUp)
    } else if s == "return"@ || s == "enter"@ {
        Some(Key::Return)
    } else if s == "right"@ {
        Some(Key::RightArrow)
    } else if s == "shift"@ {
        Some(Key::Shift)
    } else if s == "space"@ {
        Some(Key::Space)
    } else if s == "tab"@ {
        Some(Key::Tab)
    } else if s == "up"@ {
        Some(Key::UpArrow)
    } else if s.len() == 1 && is_layout_char(s[0]) {
        Some(Key::Layout(s[0]))
    } else {
        None
    }
}

/// The mouse button named by a token, if any.
pub open spec fn spec_button_of_name(s: Seq<char>) -> Option<MouseButton> {
    if s == "left"@ {
        Some(MouseButton::Left)
    } else if s == "middle"@ {
        Some(MouseButton::Middle)
    } else if s == "right"@ {
        Some(MouseButton::Right)
    } else {
        None
    }
}

/// Whether a token spells a mouse-button name; used to hint that the
/// author may have meant a button when a key lookup fails.
pub open spec fn spec_is_button_word(s: Seq<char>) -> bool {
    s == "left"@ || s == "right"@ || s == "middle"@
}

/// Look a target token up in the key lexicon.
pub fn key_of_name(tok: &str) -> (r: Option<Key>)
    ensures
        r == spec_key_of_name(tok@),
{
    if str_eq(tok, "alt") {
        Some(Key::Alt)
    } else if str_eq(tok, "backspace") || str_eq(tok, "back") {
        Some(Key::Backspace)
    } else if str_eq(tok, "caps_lock") {
        Some(Key::CapsLock)
    } else if str_eq(tok, "control") || str_eq(tok, "ctrl") {
        Some(Key::Control)
    } else if str_eq(tok, "del") || str_eq(tok, "delete") {
        Some(Key::Delete)
    } else if str_eq(tok, "down") {
        Some(Key::DownArrow)
    } else if str_eq(tok, "end") {
        Some(Key::End)
    } else if str_eq(tok, "esc") || str_eq(tok, "escape") {
        Some(Key::Escape)
    } else if str_eq(tok, "f1") {
        Some(Key::F1)
    } else if str_eq(tok, "f2") {
        Some(Key::F2)
    } else if str_eq(tok, "f3") {
        Some(Key::F3)
    } else if str_eq(tok, "f4") {
        Some(Key::F4)
    } else if str_eq(tok, "f5") {
        Some(Key::F5)
    } else if str_eq(tok, "f6") {
        Some(Key::F6)
    } else if str_eq(tok, "f7") {
        Some(Key::F7)
    } else if str_eq(tok, "f8") {
        Some(Key::F8)
    } else if str_eq(tok, "f9") {
        Some(Key::F9)
    } else if str_eq(tok, "f10") {
        Some(Key::F10)
    } else if str_eq(tok, "f11") {
        Some(Key::F11)
    } else if str_eq(tok, "f12") {
        Some(Key::F12)
    } else if str_eq(tok, "home") {
        Some(Key::Home)
    } else if str_eq(tok, "left") {
        Some(Key::LeftArrow)
    } else if str_eq(tok, "win") || str_eq(tok, "windows") || str_eq(tok, "meta") || str_eq(
        tok,
        "command",
    ) || str_eq(tok, "super") {
        Some(Key::Meta)
    } else if str_eq(tok, "option") {
        Some(Key::OptionKey)
    } else if str_eq(tok, "pgdown") || str_eq(tok, "pg_down") || str_eq(tok, "page_down") {
        Some(Key::PageDown)
    } else if str_eq(tok, "pgup") || str_eq(tok, "pg_up") || str_eq(tok, "page_up") {
        Some(Key::PageUp)
    } else if str_eq(tok, "return") || str_eq(tok, "enter") {
        Some(Key::Return)
    } else if str_eq(tok, "right") {
        Some(Key::RightArrow)
    } else if str_eq(tok, "shift") {
        Some(Key::Shift)
    } else if str_eq(tok, "space") {
        Some(Key::Space)
    } else if str_eq(tok, "tab") {
        Some(Key::Tab)
    } else if str_eq(tok, "up") {
        Some(Key::UpArrow)
    } else if tok.unicode_len() == 1 {
        let c = tok.get_char(0);
        let u = c as u32;
        if (97 <= u && u <= 122) || (65 <= u && u <= 90) || (48 <= u && u <= 57) || u == 96 || u
            == 45 || u == 61 || u == 91 || u == 93 || u == 92 || u == 59 || u == 39 || u == 44 || u
            == 46 || u == 47 {
            Some(Key::Layout(c))
        } else {
            None
        }
    } else {
        None
    }
}

/// Look a mouse-button token up.
pub fn button_of_name(tok: &str) -> (r: Option<MouseButton>)
    ensures
        r == spec_button_of_name(tok@),
{
    if str_eq(tok, "left") {
        Some(MouseButton::Left)
    } else if str_eq(tok, "middle") {
        Some(MouseButton::Middle)
    } else if str_eq(tok, "right") {
        Some(MouseButton::Right)
    } else {
        None
    }
}

/// Whether a token spells a mouse-button name.
pub fn is_button_word(tok: &str) -> (r: bool)
    ensures
        r == spec_is_button_word(tok@),
{
    str_eq(tok, "left") || str_eq(tok, "right") || str_eq(tok, "middle")
}

} // verus!
