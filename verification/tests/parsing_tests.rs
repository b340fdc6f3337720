use android_commander::decimal::{i32_to_decimal, parse_i32, u64_to_decimal, DecParseError};
use android_commander::device::parse_device_line;
use android_commander::file_version::{FileVersion, VersionParseError};
use android_commander::host::{choose_adb_path, get_filer, HostKind};
use android_commander::preferences_repository::{
    MockPreferencesRepository, PreferencesRepository, PreferencesRepositoryImpl,
};
use android_commander::sendevent::{hex_str_to_u16, hex_to_u16, HexParseError};

#[test]
fn decimal_rendering() {
    assert_eq!(u64_to_decimal(0), "0");
    assert_eq!(u64_to_decimal(7), "7");
    assert_eq!(u64_to_decimal(10), "10");
    assert_eq!(u64_to_decimal(10230), "10230");
    assert_eq!(u64_to_decimal(u64::MAX), "18446744073709551615");
    assert_eq!(i32_to_decimal(-5), "-5");
    assert_eq!(i32_to_decimal(i32::MIN), "-2147483648");
    assert_eq!(i32_to_decimal(i32::MAX), "2147483647");
}

#[test]
fn decimal_parsing() {
    assert_eq!(parse_i32("0"), Ok(0));
    assert_eq!(parse_i32("123"), Ok(123));
    assert_eq!(parse_i32("-123"), Ok(-123));
    assert_eq!(parse_i32("2147483647"), Ok(i32::MAX));
    assert_eq!(parse_i32("-2147483648"), Ok(i32::MIN));
    assert_eq!(parse_i32("2147483648"), Err(DecParseError::OutOfRange));
    assert_eq!(parse_i32("-2147483649"), Err(DecParseError::OutOfRange));
    assert_eq!(parse_i32(""), Err(DecParseError::Empty));
    assert_eq!(parse_i32("-"), Err(DecParseError::Empty));
    assert_eq!(parse_i32("12a"), Err(DecParseError::InvalidDigit));
    assert_eq!(parse_i32("1-2"), Err(DecParseError::InvalidDigit));
}

#[test]
fn hex_parsing() {
    assert_eq!(hex_to_u16("0"), Ok(0));
    assert_eq!(hex_to_u16("ff"), Ok(255));
    assert_eq!(hex_to_u16("FF"), Ok(255));
    assert_eq!(hex_to_u16("1a2B"), Ok(0x1a2b));
    assert_eq!(hex_to_u16("ffff"), Ok(0xffff));
    assert_eq!(hex_to_u16("0000ffff"), Ok(0xffff));
    assert_eq!(hex_to_u16("10000"), Err(HexParseError::Overflow));
    assert_eq!(hex_to_u16(""), Err(HexParseError::Empty));
    assert_eq!(hex_to_u16("12g4"), Err(HexParseError::InvalidDigit));
}

#[test]
fn hex_rows() {
    let row = ["0001", "0002", "ffff", "0"];
    assert_eq!(hex_str_to_u16(&row), Ok(vec![1, 2, 0xffff, 0]));
    let bad = ["0001", "zz", "10000"];
    assert_eq!(hex_str_to_u16(&bad), Err(HexParseError::InvalidDigit));
    let over = ["10000", "zz"];
    assert_eq!(hex_str_to_u16(&over), Err(HexParseError::Overflow));
    let empty: [&str; 0] = [];
    assert_eq!(hex_str_to_u16(&empty), Ok(vec![]));
}

#[test]
fn version_from_components_and_order() {
    let v = FileVersion::from([0, 1, 4]);
    assert_eq!(v, FileVersion { major: 0, minor: 1, patch: 4 });
    let a = FileVersion::from([0, 1, 0]);
    let b = FileVersion::from([0, 1, 1]);
    let c = FileVersion::from([0, 2, 0]);
    let d = FileVersion::from([1, 0, 0]);
    assert!(a < b);
    assert!(b < c);
    assert!(c < d);
    assert!(d > a);
    assert!(a <= FileVersion::from([0, 1, 0]));
    assert_eq!(
        a.partial_cmp(&FileVersion::from([0, 1, 0])),
        Some(std::cmp::Ordering::Equal)
    );
}

#[test]
fn version_strings() {
    assert_eq!(FileVersion::from([0, 1, 4]).version_string(), "0.1.4");
    assert_eq!(FileVersion::from([10, 20, 30]).version_string(), "10.20.30");
}

#[test]
fn version_parsing() {
    assert_eq!(FileVersion::from_str("0.1.4"), Ok(FileVersion::from([0, 1, 4])));
    assert_eq!(FileVersion::from_str("10.20.30"), Ok(FileVersion::from([10, 20, 30])));
    // anything after a fourth dot is ignored
    assert_eq!(FileVersion::from_str("1.2.3.4"), Ok(FileVersion::from([1, 2, 3])));
    assert_eq!(FileVersion::from_str("1.2"), Err(VersionParseError::MissingField));
    assert_eq!(FileVersion::from_str(""), Err(VersionParseError::MissingField));
    assert_eq!(
        FileVersion::from_str("1.2.x"),
        Err(VersionParseError::Number(DecParseError::InvalidDigit))
    );
    assert_eq!(
        FileVersion::from_str("..3"),
        Err(VersionParseError::Number(DecParseError::Empty))
    );
    // a parsed version renders back to the same text
    let v = FileVersion::from_str("0.1.2").unwrap();
    assert_eq!(v.version_string(), "0.1.2");
}

#[test]
fn device_lines() {
    let d = parse_device_line("ABC123\tdevice").expect("two fields");
    assert_eq!(d.serial, "ABC123");
    assert_eq!(d.display_string(), "ABC123");
    let d = parse_device_line("emulator-5554\toffline\n").expect("two fields");
    assert_eq!(d.serial, "emulator-5554");
    assert!(parse_device_line("List of devices attached").is_none());
    assert!(parse_device_line("").is_none());
    assert!(parse_device_line("a\tb\tc").is_none());
}

#[test]
fn host_choices() {
    assert_eq!(get_filer(HostKind::Windows), "explorer");
    assert_eq!(get_filer(HostKind::MacOs), "open");
    assert_eq!(get_filer(HostKind::Other), "xdg-open");

    assert_eq!(choose_adb_path(HostKind::Other, None, None, true), "adb");
    assert_eq!(
        choose_adb_path(HostKind::MacOs, Some(String::from("/sdk")), None, false),
        "/sdk/platform-tools/adb"
    );
    assert_eq!(
        choose_adb_path(
            HostKind::MacOs,
            None,
            Some(String::from("/Users/me/Library/Android/sdk/platform-tools/adb")),
            false
        ),
        "/Users/me/Library/Android/sdk/platform-tools/adb"
    );
    assert_eq!(
        choose_adb_path(HostKind::MacOs, None, None, true),
        "/opt/android-sdk-macosx/platform-tools/adb"
    );
    assert_eq!(choose_adb_path(HostKind::MacOs, None, None, false), "adb");
}

#[test]
fn repositories() {
    let repo = PreferencesRepositoryImpl::new(String::from("/tmp/preferences.toml"));
    assert_eq!(repo.config_file_path().as_str(), "/tmp/preferences.toml");
    let prefs = MockPreferencesRepository.load().expect("mock always loads");
    assert_eq!(prefs.key_map.dpad_up, "KEYCODE_DPAD_UP");
}
