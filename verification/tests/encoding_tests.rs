use android_commander::key_command::{
    create_click_key_command, create_pressed_key_command, create_release_key_command,
    create_send_event_key, get_key, KeyboardKey, SendEventKey,
};
use android_commander::preferences::{KeyMap, Preferences};
use android_commander::sendevent::{
    create_click_key_with_syn_sendevent, create_pressed_key_with_syn_sendevent,
    create_release_key_with_syn_sendevent, SendEventDevice,
};
use android_commander::sendevent::SendEventKey as SynKey;
use android_commander::theme::{AppTheme, ColorKeyButtonStyle};

#[test]
fn default_key_map_holds_the_stock_codes() {
    let m = KeyMap::default();
    assert_eq!(m.back, "KEYCODE_BACK");
    assert_eq!(m.color_red, "KEYCODE_PROG_RED");
    assert_eq!(m.color_green, "KEYCODE_PROG_GREEN");
    assert_eq!(m.color_blue, "KEYCODE_PROG_BLUE");
    assert_eq!(m.color_yellow, "KEYCODE_PROG_YELLOW");
    assert_eq!(m.dpad_up, "KEYCODE_DPAD_UP");
    assert_eq!(m.dpad_down, "KEYCODE_DPAD_DOWN");
    assert_eq!(m.dpad_left, "KEYCODE_DPAD_LEFT");
    assert_eq!(m.dpad_right, "KEYCODE_DPAD_RIGHT");
    assert_eq!(m.dpad_ok, "KEYCODE_DPAD_CENTER");
    assert_eq!(m.numpad_0, "KEYCODE_NUMPAD_0");
    assert_eq!(m.numpad_1, "KEYCODE_NUMPAD_1");
    assert_eq!(m.numpad_9, "KEYCODE_NUMPAD_9");
    assert_eq!(m.home, "KEYCODE_HOME");
    let p = Preferences::default();
    assert_eq!(p.key_map, m);
}

#[test]
fn pressed_and_release_commands() {
    let m = KeyMap::default();
    assert_eq!(create_pressed_key_command(&m, &SendEventKey::Home), "down KEYCODE_HOME");
    assert_eq!(create_release_key_command(&m, &SendEventKey::Home), "up KEYCODE_HOME");
    assert_eq!(
        create_click_key_command(&m, &SendEventKey::ColorRed),
        "down KEYCODE_PROG_RED\nup KEYCODE_PROG_RED"
    );
}

#[test]
fn commands_follow_an_edited_key_map() {
    let mut m = KeyMap::default();
    m.dpad_ok = String::from("KEYCODE_ENTER");
    assert_eq!(get_key(&m, &SendEventKey::DpadOk), "KEYCODE_ENTER");
    assert_eq!(create_pressed_key_command(&m, &SendEventKey::DpadOk), "down KEYCODE_ENTER");
}

#[test]
fn keyboard_keys_map_to_send_event_keys() {
    assert_eq!(create_send_event_key(KeyboardKey::Character('1')), Some(SendEventKey::Num1));
    assert_eq!(create_send_event_key(KeyboardKey::Character('0')), Some(SendEventKey::Num0));
    assert_eq!(create_send_event_key(KeyboardKey::Character('j')), Some(SendEventKey::DpadDown));
    assert_eq!(create_send_event_key(KeyboardKey::Character('k')), Some(SendEventKey::DpadUp));
    assert_eq!(create_send_event_key(KeyboardKey::Character('h')), Some(SendEventKey::DpadLeft));
    assert_eq!(create_send_event_key(KeyboardKey::Character('l')), Some(SendEventKey::DpadRight));
    assert_eq!(create_send_event_key(KeyboardKey::Character('t')), Some(SendEventKey::Home));
    assert_eq!(create_send_event_key(KeyboardKey::Enter), Some(SendEventKey::DpadOk));
    assert_eq!(create_send_event_key(KeyboardKey::Backspace), Some(SendEventKey::Back));
    assert_eq!(create_send_event_key(KeyboardKey::Character('x')), None);
    assert_eq!(create_send_event_key(KeyboardKey::Other), None);
}

#[test]
fn keyboard_keys_map_to_syn_keys() {
    assert_eq!(
        SynKey::from_keyboard(KeyboardKey::Character('j')),
        Some(SynKey::KeyDpadDownClick)
    );
    assert_eq!(SynKey::from_keyboard(KeyboardKey::Character('k')), Some(SynKey::KeyDpadUpClick));
    assert_eq!(SynKey::from_keyboard(KeyboardKey::Enter), Some(SynKey::KeyEnterClick));
    assert_eq!(SynKey::from_keyboard(KeyboardKey::Backspace), Some(SynKey::KeyBackClick));
    assert_eq!(SynKey::from_keyboard(KeyboardKey::Character('q')), None);
}

#[test]
fn syn_types_and_codes() {
    assert_eq!(SynKey::KeyDpadUpClick.get_key_with_syn_type(), 1);
    assert_eq!(SynKey::KeySelectClick.get_key_with_syn_type(), 1);
    assert_eq!(SynKey::KeyDpadUpClick.get_key_with_syn_code(), 103);
    assert_eq!(SynKey::KeyDpadDownClick.get_key_with_syn_code(), 108);
    assert_eq!(SynKey::KeyDpadLeftClick.get_key_with_syn_code(), 105);
    assert_eq!(SynKey::KeyDpadRightClick.get_key_with_syn_code(), 106);
    assert_eq!(SynKey::KeyEnterClick.get_key_with_syn_code(), 28);
    assert_eq!(SynKey::KeyBackClick.get_key_with_syn_code(), 158);
    assert_eq!(SynKey::KeySelectClick.get_key_with_syn_code(), 353);
}

#[test]
fn device_node_names() {
    assert_eq!(SendEventDevice::Event0.name(), "event0");
    assert_eq!(SendEventDevice::Event5.name(), "event5");
    assert_eq!(SendEventDevice::Event9.name(), "event9");
}

#[test]
fn sendevent_command_strings() {
    let d = SendEventDevice::Event0;
    let k = SynKey::KeyDpadUpClick;
    assert_eq!(
        create_pressed_key_with_syn_sendevent(&d, &k),
        "sendevent /dev/input/event0 1 103 1 && sendevent /dev/input/event0 0 0 0"
    );
    assert_eq!(
        create_release_key_with_syn_sendevent(&d, &k),
        "sendevent /dev/input/event0 1 103 0 && sendevent /dev/input/event0 0 0 0"
    );
    assert_eq!(
        create_click_key_with_syn_sendevent(&d, &k),
        "sendevent /dev/input/event0 1 103 1 && sendevent /dev/input/event0 0 0 0 && \
         sendevent /dev/input/event0 1 103 0 && sendevent /dev/input/event0 0 0 0"
    );
    assert_eq!(
        create_click_key_with_syn_sendevent(&SendEventDevice::Event3, &SynKey::KeySelectClick),
        "sendevent /dev/input/event3 1 353 1 && sendevent /dev/input/event3 0 0 0 && \
         sendevent /dev/input/event3 1 353 0 && sendevent /dev/input/event3 0 0 0"
    );
}

#[test]
fn theme_defaults() {
    assert_eq!(AppTheme::default(), AppTheme::Light);
    assert_eq!(ColorKeyButtonStyle::default(), ColorKeyButtonStyle::ColorKeyRed);
}
