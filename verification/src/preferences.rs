//! User preferences: the key-identifier to key-code table consumed by the
//! command encoder.

use vstd::prelude::*;

verus! {

/// Preferences fed into the command encoder; only the key map matters to the
/// command channel.
#[derive(Debug, Eq, PartialEq)]
pub struct Preferences {
    pub key_map: KeyMap,
}

/// Holds exactly when `m` carries the stock Android key codes.
pub open spec fn is_default_key_map(m: KeyMap) -> bool {
    &&& m.back@ == "KEYCODE_BACK"@
    &&& m.color_red@ == "KEYCODE_PROG_RED"@
    &&& m.color_green@ == "KEYCODE_PROG_GREEN"@
    &&& m.color_blue@ == "KEYCODE_PROG_BLUE"@
    &&& m.color_yellow@ == "KEYCODE_PROG_YELLOW"@
    &&& m.dpad_up@ == "KEYCODE_DPAD_UP"@
    &&& m.dpad_down@ == "KEYCODE_DPAD_DOWN"@
    &&& m.dpad_left@ == "KEYCODE_DPAD_LEFT"@
    &&& m.dpad_right@ == "KEYCODE_DPAD_RIGHT"@
    &&& m.dpad_ok@ == "KEYCODE_DPAD_CENTER"@
    &&& m.numpad_0@ == "KEYCODE_NUMPAD_0"@
    &&& m.numpad_1@ == "KEYCODE_NUMPAD_1"@
    &&& m.numpad_2@ == "KEYCODE_NUMPAD_2"@
    &&& m.numpad_3@ == "KEYCODE_NUMPAD_3"@
    &&& m.numpad_4@ == "KEYCODE_NUMPAD_4"@
    &&& m.numpad_5@ == "KEYCODE_NUMPAD_5"@
    &&& m.numpad_6@ == "KEYCODE_NUMPAD_6"@
    &&& m.numpad_7@ == "KEYCODE_NUMPAD_7"@
    &&& m.numpad_8@ == "KEYCODE_NUMPAD_8"@
    &&& m.numpad_9@ == "KEYCODE_NUMPAD_9"@
    &&& m.home@ == "KEYCODE_HOME"@
}

/// The user-configurable table mapping each abstract key identifier to the
/// key-code string sent to the device helper.
#[derive(Clone, Debug, Eq, PartialEq)]
pub struct KeyMap {
    pub back: String,
    pub color_red: String,
    pub color_green: String,
    pub color_blue: String,
    pub color_yellow: String,
    pub dpad_up: String,
    pub dpad_down: String,
    pub dpad_left: String,
    pub dpad_right: String,
    pub dpad_ok: String,
    pub numpad_0: String,
    pub numpad_1: String,
    pub numpad_2: String,
    pub numpad_3: String,
    pub numpad_4: String,
    pub numpad_5: String,
    pub numpad_6: String,
    pub numpad_7: String,
    pub numpad_8: String,
    pub numpad_9: String,
    pub home: String,
}

impl Default for KeyMap {
    /// The stock Android key codes used until the user edits the table.
    fn default() -> (r: Self)
        ensures
            is_default_key_map(r),
    {
        KeyMap {
            back: String::from_str("KEYCODE_BACK"),
            color_red: String::from_str("KEYCODE_PROG_RED"),
            color_green: String::from_str("KEYCODE_PROG_GREEN"),
            color_blue: String::from_str("KEYCODE_PROG_BLUE"),
            color_yellow: String::from_str("KEYCODE_PROG_YELLOW"),
            dpad_up: String::from_str("KEYCODE_DPAD_UP"),
            dpad_down: String::from_str("KEYCODE_DPAD_DOWN"),
            dpad_left: String::from_str("KEYCODE_DPAD_LEFT"),
            dpad_right: String::from_str("KEYCODE_DPAD_RIGHT"),
            dpad_ok: String::from_str("KEYCODE_DPAD_CENTER"),
            numpad_0: String::from_str("KEYCODE_NUMPAD_0"),
            numpad_1: String::from_str("KEYCODE_NUMPAD_1"),
            numpad_2: String::from_str("KEYCODE_NUMPAD_2"),
            numpad_3: String::from_str("KEYCODE_NUMPAD_3"),
            numpad_4: String::from_str("KEYCODE_NUMPAD_4"),
            numpad_5: String::from_str("KEYCODE_NUMPAD_5"),
            numpad_6: String::from_str("KEYCODE_NUMPAD_6"),
            numpad_7: String::from_str("KEYCODE_NUMPAD_7"),
            numpad_8: String::from_str("KEYCODE_NUMPAD_8"),
            numpad_9: String::from_str("KEYCODE_NUMPAD_9"),
            home: String::from_str("KEYCODE_HOME"),
        }
    }
}

impl Default for Preferences {
    /// Fresh preferences carry the stock key map.
    fn default() -> (r: Self)
        ensures
            is_default_key_map(r.key_map),
    {
        Preferences { key_map: KeyMap::default() }
    }
}

} // verus!
