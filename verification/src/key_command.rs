//! Encoding abstract key identifiers into the textual command lines the
//! device helper understands: `down <code>`, `up <code>`, or a paired
//! down/up click, one command per line.

use vstd::prelude::*;

verus! {

use crate::preferences::KeyMap;

/// An abstract key the UI can request, resolved to a concrete key-code
/// string through the key map.
#[derive(Clone, Copy, Debug, PartialEq, Eq, Structural)]
pub enum SendEventKey {
    Back,
    ColorRed,
    ColorGreen,
    ColorBlue,
    ColorYellow,
    DpadUp,
    DpadDown,
    DpadLeft,
    DpadRight,
    DpadOk,
    Num0,
    Num1,
    Num2,
    Num3,
    Num4,
    Num5,
    Num6,
    Num7,
    Num8,
    Num9,
    Home,
}

/// A keyboard key as the UI reports it, reduced to what the mapping reads:
/// a single character, one of the two named keys it cares about, or anything
/// else.
#[derive(Clone, Copy, Debug, PartialEq, Eq, Structural)]
pub enum KeyboardKey {
    Character(char),
    Enter,
    Backspace,
    Other,
}

/// The key-code string the key map assigns to `key`.
pub open spec fn spec_key_code(key_map: KeyMap, key: SendEventKey) -> Seq<char> {
    match key {
        SendEventKey::Back => key_map.back@,
        SendEventKey::ColorRed => key_map.color_red@,
        SendEventKey::ColorGreen => key_map.color_green@,
        SendEventKey::ColorBlue => key_map.color_blue@,
        SendEventKey::ColorYellow => key_map.color_yellow@,
        SendEventKey::DpadUp => key_map.dpad_up@,
        SendEventKey::DpadDown => key_map.dpad_down@,
        SendEventKey::DpadLeft => key_map.dpad_left@,
        SendEventKey::DpadRight => key_map.dpad_right@,
        SendEventKey::DpadOk => key_map.dpad_ok@,
        SendEventKey::Num0 => key_map.numpad_0@,
        SendEventKey::Num1 => key_map.numpad_1@,
        SendEventKey::Num2 => key_map.numpad_2@,
        SendEventKey::Num3 => key_map.numpad_3@,
        SendEventKey::Num4 => key_map.numpad_4@,
        SendEventKey::Num5 => key_map.numpad_5@,
        SendEventKey::Num6 => key_map.numpad_6@,
        SendEventKey::Num7 => key_map.numpad_7@,
        SendEventKey::Num8 => key_map.numpad_8@,
        SendEventKey::Num9 => key_map.numpad_9@,
        SendEventKey::Home => key_map.home@,
    }
}

/// Which abstract key a keyboard key stands for, if any.
pub open spec fn spec_send_event_key(key: KeyboardKey) -> Option<SendEventKey> {
    match key {
        KeyboardKey::Character(c) => match c {
            '1' => Some(SendEventKey::Num1),
            '2' => Some(SendEventKey::Num2),
            '3' => Some(SendEventKey::Num3),
            '4' => Some(SendEventKey::Num4),
            '5' => Some(SendEventKey::Num5),
            '6' => Some(SendEventKey::Num6),
            '7' => Some(SendEventKey::Num7),
            '8' => Some(SendEventKey::Num8),
            '9' => Some(SendEventKey::Num9),
            '0' => Some(SendEventKey::Num0),
            'j' => Some(SendEventKey::DpadDown),
            'k' => Some(SendEventKey::DpadUp),
            'h' => Some(SendEventKey::DpadLeft),
            'l' => Some(SendEventKey::DpadRight),
            't' => Some(SendEventKey::Home),
            _ => None,
        },
        KeyboardKey::Enter => Some(SendEventKey::DpadOk),
        KeyboardKey::Backspace => Some(SendEventKey::Back),
        KeyboardKey::Other => None,
    }
}

/// The full `down` command line for `key`.
pub open spec fn spec_pressed_command(key_map: KeyMap, key: SendEventKey) -> Seq<char> {
    "down "@ + spec_key_code(key_map, key)
}

/// The full `up` command line for `key`.
pub open spec fn spec_release_command(key_map: KeyMap, key: SendEventKey) -> Seq<char> {
    "up "@ + spec_key_code(key_map, key)
}

/// The two-line click command for `key`: `down <code>`, newline, `up <code>`.
pub open spec fn spec_click_command(key_map: KeyMap, key: SendEventKey) -> Seq<char> {
    "down "@ + spec_key_code(key_map, key) + "\nup "@ + spec_key_code(key_map, key)
}

/// Map a keyboard key to the abstract key it requests, if any: digits and
/// the vi-style motion letters click the matching buttons, enter confirms,
/// backspace goes back.
pub fn create_send_event_key(key: KeyboardKey) -> (r: Option<SendEventKey>)
    ensures
        r == spec_send_event_key(key),
{
    match key {
        KeyboardKey::Character(c) => match c {
            '1' => Some(SendEventKey::Num1),
            '2' => Some(SendEventKey::Num2),
            '3' => Some(SendEventKey::Num3),
            '4' => Some(SendEventKey::Num4),
            '5' => Some(SendEventKey::Num5),
            '6' => Some(SendEventKey::Num6),
            '7' => Some(SendEventKey::Num7),
            '8' => Some(SendEventKey::Num8),
            '9' => Some(SendEventKey::Num9),
            '0' => Some(SendEventKey::Num0),
            'j' => Some(SendEventKey::DpadDown),
            'k' => Some(SendEventKey::DpadUp),
            'h' => Some(SendEventKey::DpadLeft),
            'l' => Some(SendEventKey::DpadRight),
            't' => Some(SendEventKey::Home),
            _ => None,
        },
        KeyboardKey::Enter => Some(SendEventKey::DpadOk),
        KeyboardKey::Backspace => Some(SendEventKey::Back),
        KeyboardKey::Other => None,
    }
}

/// Look up the key-code string the key map assigns to `key`.
pub fn get_key<'a>(key_map: &'a KeyMap, key: &SendEventKey) -> (r: &'a str)
    ensures
        r@ == spec_key_code(*key_map, *key),
{
    match key {
        SendEventKey::Back => key_map.back.as_str(),
        SendEventKey::ColorRed => key_map.color_red.as_str(),
        SendEventKey::ColorGreen => key_map.color_green.as_str(),
        SendEventKey::ColorBlue => key_map.color_blue.as_str(),
        SendEventKey::ColorYellow => key_map.color_yellow.as_str(),
        SendEventKey::DpadUp => key_map.dpad_up.as_str(),
        SendEventKey::DpadDown => key_map.dpad_down.as_str(),
        SendEventKey::DpadLeft => key_map.dpad_left.as_str(),
        SendEventKey::DpadRight => key_map.dpad_right.as_str(),
        SendEventKey::DpadOk => key_map.dpad_ok.as_str(),
        SendEventKey::Num0 => key_map.numpad_0.as_str(),
        SendEventKey::Num1 => key_map.numpad_1.as_str(),
        SendEventKey::Num2 => key_map.numpad_2.as_str(),
        SendEventKey::Num3 => key_map.numpad_3.as_str(),
        SendEventKey::Num4 => key_map.numpad_4.as_str(),
        SendEventKey::Num5 => key_map.numpad_5.as_str(),
        SendEventKey::Num6 => key_map.numpad_6.as_str(),
        SendEventKey::Num7 => key_map.numpad_7.as_str(),
        SendEventKey::Num8 => key_map.numpad_8.as_str(),
        SendEventKey::Num9 => key_map.numpad_9.as_str(),
        SendEventKey::Home => key_map.home.as_str(),
    }
}

/// Encode a key press: `down <code>`.
pub fn create_pressed_key_command(key_map: &KeyMap, key: &SendEventKey) -> (r: String)
    ensures
        r@ == spec_pressed_command(*key_map, *key),
{
    let mut r = String::from_str("down ");
    r.append(get_key(key_map, key));
    r
}

/// Encode a key release: `up <code>`.
pub fn create_release_key_command(key_map: &KeyMap, key: &SendEventKey) -> (r: String)
    ensures
        r@ == spec_release_command(*key_map, *key),
{
    let mut r = String::from_str("up ");
    r.append(get_key(key_map, key));
    r
}

/// Encode a click: the `down` line, a newline, then the `up` line, so both
/// reach the helper in one write.
pub fn create_click_key_command(key_map: &KeyMap, key: &SendEventKey) -> (r: String)
    ensures
        r@ == spec_click_command(*key_map, *key),
{
    let mut r = String::from_str("down ");
    r.append(get_key(key_map, key));
    r.append("\nup ");
    r.append(get_key(key_map, key));
    r
}

} // verus!
