//! Building raw `sendevent` shell commands for a device input node, and
//! parsing the hexadecimal key lists that `getevent` prints.
//!
//! This is the low-level command path: a key is injected by writing the
//! EV_KEY event followed by a synchronization event straight to the chosen
//! `/dev/input/eventN` node.

use vstd::prelude::*;

verus! {

use crate::decimal::{spec_decimal, u64_to_decimal};
use crate::key_command::KeyboardKey;

/// The `/dev/input` node the events are written to.
#[derive(Clone, Copy, Debug, PartialEq, Eq, Structural)]
pub enum SendEventDevice {
    Event0,
    Event1,
    Event2,
    Event3,
    Event4,
    Event5,
    Event6,
    Event7,
    Event8,
    Event9,
}

/// A clickable key with a fixed Linux input event code.
#[derive(Clone, Copy, Debug, PartialEq, Eq, Hash, Structural)]
pub enum SendEventKey {
    KeyDpadUpClick,
    KeyDpadDownClick,
    KeyDpadLeftClick,
    KeyDpadRightClick,
    KeyEnterClick,
    KeyBackClick,
    KeySelectClick,
}

/// The node's file name under `/dev/input`.
pub open spec fn spec_device_name(d: SendEventDevice) -> Seq<char> {
    match d {
        SendEventDevice::Event0 => "event0"@,
        SendEventDevice::Event1 => "event1"@,
        SendEventDevice::Event2 => "event2"@,
        SendEventDevice::Event3 => "event3"@,
        SendEventDevice::Event4 => "event4"@,
        SendEventDevice::Event5 => "event5"@,
        SendEventDevice::Event6 => "event6"@,
        SendEventDevice::Event7 => "event7"@,
        SendEventDevice::Event8 => "event8"@,
        SendEventDevice::Event9 => "event9"@,
    }
}

/// The Linux input event code each key injects.
pub open spec fn spec_syn_code(k: SendEventKey) -> u16 {
    match k {
        SendEventKey::KeyDpadUpClick => 103,
        SendEventKey::KeyDpadDownClick => 108,
        SendEventKey::KeyDpadLeftClick => 105,
        SendEventKey::KeyDpadRightClick => 106,
        SendEventKey::KeyEnterClick => 28,
        SendEventKey::KeyBackClick => 158,
        SendEventKey::KeySelectClick => 353,
    }
}

impl SendEventDevice {
    /// The node's file name under `/dev/input`.
    pub fn name(&self) -> (r: &'static str)
        ensures
            r@ == spec_device_name(*self),
    {
        match self {
            SendEventDevice::Event0 => "event0",
            SendEventDevice::Event1 => "event1",
            SendEventDevice::Event2 => "event2",
            SendEventDevice::Event3 => "event3",
            SendEventDevice::Event4 => "event4",
            SendEventDevice::Event5 => "event5",
            SendEventDevice::Event6 => "event6",
            SendEventDevice::Event7 => "event7",
            SendEventDevice::Event8 => "event8",
            SendEventDevice::Event9 => "event9",
        }
    }
}

impl SendEventKey {
    /// Every key here is an EV_KEY event: event type 1.
    pub fn get_key_with_syn_type(&self) -> (r: u8)
        ensures
            r == 1u8,
    {
        match self {
            SendEventKey::KeyDpadUpClick
            | SendEventKey::KeyDpadDownClick
            | SendEventKey::KeyDpadLeftClick
            | SendEventKey::KeyDpadRightClick
            | SendEventKey::KeyEnterClick
            | SendEventKey::KeyBackClick
            | SendEventKey::KeySelectClick => 1,
        }
    }

    /// The Linux input event code this key injects.
    pub fn get_key_with_syn_code(&self) -> (r: u16)
        ensures
            r == spec_syn_code(*self),
    {
        match self {
            SendEventKey::KeyDpadUpClick => 103,
            SendEventKey::KeyDpadDownClick => 108,
            SendEventKey::KeyDpadLeftClick => 105,
            SendEventKey::KeyDpadRightClick => 106,
            SendEventKey::KeyEnterClick => 28,
            SendEventKey::KeyBackClick => 158,
            SendEventKey::KeySelectClick => 353,
        }
    }

    /// Which clickable key a keyboard key stands for, if any: the vi-style
    /// motion letters, enter and backspace.
    pub fn from_keyboard(key: KeyboardKey) -> (r: Option<SendEventKey>)
        ensures
            r == spec_key_for_keyboard(key),
    {
        match key {
            KeyboardKey::Character(c) => match c {
                'j' => Some(SendEventKey::KeyDpadDownClick),
                'k' => Some(SendEventKey::KeyDpadUpClick),
                'h' => Some(SendEventKey::KeyDpadLeftClick),
                'l' => Some(SendEventKey::KeyDpadRightClick),
                _ => None,
            },
            KeyboardKey::Enter => Some(SendEventKey::KeyEnterClick),
            KeyboardKey::Backspace => Some(SendEventKey::KeyBackClick),
            KeyboardKey::Other => None,
        }
    }
}

/// Which clickable key a keyboard key stands for, if any.
pub open spec fn spec_key_for_keyboard(key: KeyboardKey) -> Option<SendEventKey> {
    match key {
        KeyboardKey::Character(c) => match c {
            'j' => Some(SendEventKey::KeyDpadDownClick),
            'k' => Some(SendEventKey::KeyDpadUpClick),
            'h' => Some(SendEventKey::KeyDpadLeftClick),
            'l' => Some(SendEventKey::KeyDpadRightClick),
            _ => None,
        },
        KeyboardKey::Enter => Some(SendEventKey::KeyEnterClick),
        KeyboardKey::Backspace => Some(SendEventKey::KeyBackClick),
        KeyboardKey::Other => None,
    }
}

/// The shell command that presses `key` on `device`: the EV_KEY event with
/// value 1, then the synchronization event.
pub open spec fn spec_pressed_sendevent(d: SendEventDevice, k: SendEventKey) -> Seq<char> {
    "sendevent /dev/input/"@ + spec_device_name(d) + " 1 "@ + spec_decimal(
        spec_syn_code(k) as nat,
    ) + " 1 && sendevent /dev/input/"@ + spec_device_name(d) + " 0 0 0"@
}

/// The shell command that releases `key` on `device`: the EV_KEY event with
/// value 0, then the synchronization event.
pub open spec fn spec_release_sendevent(d: SendEventDevice, k: SendEventKey) -> Seq<char> {
    "sendevent /dev/input/"@ + spec_device_name(d) + " 1 "@ + spec_decimal(
        spec_syn_code(k) as nat,
    ) + " 0 && sendevent /dev/input/"@ + spec_device_name(d) + " 0 0 0"@
}

/// The shell command that clicks `key` on `device`: the press command, then
/// the release command.
pub open spec fn spec_click_sendevent(d: SendEventDevice, k: SendEventKey) -> Seq<char> {
    spec_pressed_sendevent(d, k) + " && "@ + spec_release_sendevent(d, k)
}

/// Build the press command for `key` on `device`.
pub fn create_pressed_key_with_syn_sendevent(device: &SendEventDevice, key: &SendEventKey) -> (r:
    String)
    ensures
        r@ == spec_pressed_sendevent(*device, *key),
{
    let mut r = String::from_str("sendevent /dev/input/");
    r.append(device.name());
    r.append(" 1 ");
    let code = u64_to_decimal(key.get_key_with_syn_code() as u64);
    r.append(code.as_str());
    r.append(" 1 && sendevent /dev/input/");
    r.append(device.name());
    r.append(" 0 0 0");
    proof {
        assert(r@ =~= spec_pressed_sendevent(*device, *key));
    }
    r
}

/// Build the release command for `key` on `device`.
pub fn create_release_key_with_syn_sendevent(device: &SendEventDevice, key: &SendEventKey) -> (r:
    String)
    ensures
        r@ == spec_release_sendevent(*device, *key),
{
    let mut r = String::from_str("sendevent /dev/input/");
    r.append(device.name());
    r.append(" 1 ");
    let code = u64_to_decimal(key.get_key_with_syn_code() as u64);
    r.append(code.as_str());
    r.append(" 0 && sendevent /dev/input/");
    r.append(device.name());
    r.append(" 0 0 0");
    proof {
        assert(r@ =~= spec_release_sendevent(*device, *key));
    }
    r
}

/// Build the click command for `key` on `device`: press, then release.
pub fn create_click_key_with_syn_sendevent(device: &SendEventDevice, key: &SendEventKey) -> (r:
    String)
    ensures
        r@ == spec_click_sendevent(*device, *key),
{
    let mut r = create_pressed_key_with_syn_sendevent(device, key);
    r.append(" && ");
    let release = create_release_key_with_syn_sendevent(device, key);
    r.append(release.as_str());
    proof {
        assert(r@ =~= spec_click_sendevent(*device, *key));
    }
    r
}

/// Why a hexadecimal field could not be read as a `u16`.
#[derive(Clone, Copy, Debug, PartialEq, Eq, Structural)]
pub enum HexParseError {
    /// The field was empty.
    Empty,
    /// The field held a character that is no hexadecimal digit.
    InvalidDigit,
    /// The value does not fit in sixteen bits.
    Overflow,
}

/// Whether `c` is a hexadecimal digit, either case.
pub open spec fn is_hex_digit(c: char) -> bool {
    ||| (48 <= c as u32 && c as u32 <= 57)
    ||| (97 <= c as u32 && c as u32 <= 102)
    ||| (65 <= c as u32 && c as u32 <= 70)
}

/// The value of one hexadecimal digit.
pub open spec fn hex_digit_value(c: char) -> int {
    if 48 <= c as u32 && c as u32 <= 57 {
        c as u32 - 48
    } else if 97 <= c as u32 && c as u32 <= 102 {
        c as u32 - 87
    } else {
        c as u32 - 55
    }
}

/// The value of a big-endian string of hexadecimal digits.
pub open spec fn hex_value(s: Seq<char>) -> int
    decreases s.len(),
{
    if s.len() == 0 {
        0
    } else {
        hex_value(s.drop_last()) * 16 + hex_digit_value(s.last())
    }
}

/// Every string of hexadecimal digits has a non-negative value.
proof fn lemma_hex_value_nonneg(s: Seq<char>)
    requires
        forall|j: int| 0 <= j < s.len() ==> is_hex_digit(#[trigger] s[j]),
    ensures
        hex_value(s) >= 0,
    decreases s.len(),
{
    if s.len() > 0 {
        lemma_hex_value_nonneg(s.drop_last());
    }
}

/// A prefix of a string of hexadecimal digits is worth no more than the
/// whole.
proof fn lemma_hex_prefix_le(s: Seq<char>, i: int)
    requires
        forall|j: int| 0 <= j < s.len() ==> is_hex_digit(#[trigger] s[j]),
        0 <= i <= s.len(),
    ensures
        hex_value(s.subrange(0, i)) <= hex_value(s),
    decreases s.len() - i,
{
    if i < s.len() {
        lemma_hex_prefix_le(s, i + 1);
        let shorter = s.subrange(0, i);
        let longer = s.subrange(0, i + 1);
        assert(longer.drop_last() =~= shorter);
        lemma_hex_value_nonneg(shorter);
    } else {
        assert(s.subrange(0, i) =~= s);
    }
}

/// Whether `s` reads as a hexadecimal `u16`: at least one digit, all digits
/// hexadecimal, value within sixteen bits.
pub open spec fn spec_hex_u16_ok(s: Seq<char>) -> bool {
    &&& s.len() > 0
    &&& forall|j: int| 0 <= j < s.len() ==> is_hex_digit(#[trigger] s[j])
    &&& hex_value(s) <= 0xFFFF
}

/// The value of one hexadecimal digit character, if it is one.
fn hex_digit_of(c: char) -> (r: Option<u16>)
    ensures
        r is Some <==> is_hex_digit(c),
        r matches Some(v) ==> v as int == hex_digit_value(c) && v < 16,
{
    let v = c as u32;
    if 48 <= v && v <= 57 {
        Some((v - 48) as u16)
    } else if 97 <= v && v <= 102 {
        Some((v - 87) as u16)
    } else if 65 <= v && v <= 70 {
        Some((v - 55) as u16)
    } else {
        None
    }
}

/// Read one hexadecimal field as a `u16`.
///
/// Succeeds exactly on a non-empty, all-hexadecimal string whose value fits,
/// and then returns that value; reports an empty field, a stray character,
/// or a too-large value otherwise.
pub fn hex_to_u16(s: &str) -> (r: Result<u16, HexParseError>)
    ensures
        r is Ok <==> spec_hex_u16_ok(s@),
        r matches Ok(v) ==> v as int == hex_value(s@),
        r == Err::<u16, HexParseError>(HexParseError::Empty) <==> s@.len() == 0,
        r == Err::<u16, HexParseError>(HexParseError::InvalidDigit) ==> exists|j: int|
            0 <= j < s@.len() && !is_hex_digit(#[trigger] s@[j]),
        r == Err::<u16, HexParseError>(HexParseError::Overflow) ==> exists|k: int|
            0 < k <= s@.len() && (forall|j: int| 0 <= j < k ==> is_hex_digit(#[trigger] s@[j]))
                && hex_value(#[trigger] s@.subrange(0, k)) > 0xFFFF,
{
    let n = s.unicode_len();
    if n == 0 {
        return Err(HexParseError::Empty);
    }
    let mut acc: u32 = 0;
    let mut i: usize = 0;
    while i < n
        invariant
            n == s@.len(),
            0 <= i <= n,
            acc as int == hex_value(s@.subrange(0, i as int)),
            acc <= 0xFFFF,
            forall|j: int| 0 <= j < i ==> is_hex_digit(#[trigger] s@[j]),
        decreases n - i,
    {
        let c = s.get_char(i);
        let v = (match hex_digit_of(c) {
            Some(v) => v,
            None => {
                return Err(HexParseError::InvalidDigit);
            },
        });
        acc = acc * 16 + v as u32;
        proof {
            assert(s@.subrange(0, i + 1).drop_last() =~= s@.subrange(0, i as int));
            assert(s@.subrange(0, i + 1).last() == s@[i as int]);
        }
        if acc > 0xFFFF {
            proof {
                assert(acc as int == hex_value(s@.subrange(0, i + 1)));
                if forall|j: int| 0 <= j < s@.len() ==> is_hex_digit(#[trigger] s@[j]) {
                    lemma_hex_prefix_le(s@, i + 1);
                }
            }
            return Err(HexParseError::Overflow);
        }
        i = i + 1;
    }
    proof {
        assert(s@.subrange(0, n as int) =~= s@);
    }
    Ok(acc as u16)
}

/// Read a row of hexadecimal fields as `u16` values, as `getevent` prints
/// key lists. Succeeds exactly when every field reads as a hexadecimal
/// `u16`, and then returns the values in field order; the first bad field's
/// error is reported otherwise.
pub fn hex_str_to_u16(data: &[&str]) -> (r: Result<Vec<u16>, HexParseError>)
    ensures
        r is Ok <==> (forall|k: int| 0 <= k < data@.len() ==> spec_hex_u16_ok(#[trigger] data@[k]@)),
        r matches Ok(v) ==> v@.len() == data@.len() && (forall|k: int|
            0 <= k < data@.len() ==> #[trigger] v@[k] as int == hex_value(data@[k]@)),
{
    let mut ret: Vec<u16> = Vec::new();
    let n = data.len();
    let mut i: usize = 0;
    while i < n
        invariant
            n == data@.len(),
            0 <= i <= n,
            ret@.len() == i,
            forall|k: int| 0 <= k < i ==> spec_hex_u16_ok(#[trigger] data@[k]@),
            forall|k: int| 0 <= k < i ==> #[trigger] ret@[k] as int == hex_value(data@[k]@),
        decreases n - i,
    {
        let entry: &str = data[i];
        match hex_to_u16(entry) {
            Ok(d) => ret.push(d),
            Err(e) => {
                return Err(e);
            },
        }
        i = i + 1;
    }
    Ok(ret)
}

} // verus!
