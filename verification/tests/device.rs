use lg600r::config::ConfigError;
use lg600r::device::{
    find_g600, finishes_with, is_g600, read_error_is_transient, starts_with, EAGAIN, EINTR,
};
use lg600r::record::{LogicalEvent, RawRecord, EV_KEY, EV_MSC, MSC_SCAN};
use lg600r::sync::{SyncState, Synchronizer};

fn names(list: &[&str]) -> Vec<String> {
    list.iter().map(|name| name.to_string()).collect()
}

#[test]
fn device_file_by_name() {
    assert!(is_g600("usb-Logitech_Gaming_Mouse_G600_1234ABCD-if01-event-kbd"));
    assert!(is_g600("usb-Logitech_Gaming_Mouse_G600_-if01-event-kbd"));
    assert!(is_g600("usb-Logitech_Gaming_Mouse_G600_\u{e4}-if01-event-kbd"));
    assert!(!is_g600("usb-Logitech_Gaming_Mouse_G600_1234ABCD-event-mouse"));
    assert!(!is_g600("usb-Logitech_Gaming_Mouse_G600_1234ABCD-if01-event-kbd "));
    assert!(!is_g600("usb-Logitech_Gaming_Mouse_G500_1234ABCD-if01-event-kbd"));
    assert!(!is_g600(" usb-Logitech_Gaming_Mouse_G600_1234ABCD-if01-event-kbd"));
    assert!(!is_g600("usb-Logitech_Gaming_Mouse_G600_"));
    assert!(!is_g600("-if01-event-kbd"));
    assert!(!is_g600(""));
}

#[test]
fn beginnings_and_endings() {
    assert!(starts_with("abc", ""));
    assert!(starts_with("abc", "ab"));
    assert!(starts_with("abc", "abc"));
    assert!(!starts_with("abc", "abcd"));
    assert!(!starts_with("abc", "bc"));
    assert!(starts_with("\u{e4}bc", "\u{e4}b"));
    assert!(!starts_with("\u{e4}bc", "\u{e5}"));
    assert!(finishes_with("abc", ""));
    assert!(finishes_with("abc", "bc"));
    assert!(finishes_with("abc", "abc"));
    assert!(!finishes_with("abc", "xabc"));
    assert!(!finishes_with("abc", "ab"));
    assert!(finishes_with("ab\u{e4}", "b\u{e4}"));
    assert!(starts_with("", ""));
    assert!(finishes_with("", ""));
    assert!(!starts_with("", "a"));
}

#[test]
fn first_fitting_name_is_found() {
    let listing = names(&[
        "usb-Logitech_Gaming_Mouse_G600_1234ABCD-event-mouse",
        "usb-Some_Keyboard-event-kbd",
        "usb-Logitech_Gaming_Mouse_G600_1234ABCD-if01-event-kbd",
        "usb-Logitech_Gaming_Mouse_G600_FFFF0000-if01-event-kbd",
    ]);
    assert_eq!(find_g600(&listing), Some(2));
    assert_eq!(find_g600(&names(&["usb-Some_Keyboard-event-kbd"])), None);
    assert_eq!(find_g600(&names(&[])), None);
    assert_eq!(
        find_g600(&names(&["usb-Logitech_Gaming_Mouse_G600_0-if01-event-kbd"])),
        Some(0)
    );
}

#[test]
fn transient_read_errors() {
    assert_eq!(EINTR, 4);
    assert_eq!(EAGAIN, 11);
    assert!(read_error_is_transient(Some(4)));
    assert!(read_error_is_transient(Some(11)));
    assert!(!read_error_is_transient(Some(19)));
    assert!(!read_error_is_transient(Some(9)));
    assert!(!read_error_is_transient(Some(0)));
    assert!(!read_error_is_transient(None));
}

#[test]
fn error_messages() {
    let name = || "9".to_string();
    assert_eq!(
        ConfigError::Syntax("expected a value".to_string()).message(),
        "the configuration is no TOML document: expected a value"
    );
    assert_eq!(ConfigError::MissingBindings.message(), "the configuration has no table of bindings");
    assert_eq!(
        ConfigError::MissingScancodes.message(),
        "the configuration has no table of scancodes"
    );
    assert_eq!(
        ConfigError::UnsupportedBinding(name()).message(),
        "binding 9 is neither a command nor a table"
    );
    assert_eq!(
        ConfigError::InvalidGKey("x".to_string()).message(),
        "entry x is not named by the number of a logical key"
    );
    assert_eq!(ConfigError::MissingType(name()).message(), "binding 9 has no type");
    assert_eq!(
        ConfigError::UnknownType(name()).message(),
        "binding 9 is neither of type mouse nor of type keyboard"
    );
    assert_eq!(ConfigError::MissingButton(name()).message(), "mouse binding 9 has no button");
    assert_eq!(ConfigError::MissingKey(name()).message(), "keyboard binding 9 has no key");
    assert_eq!(ConfigError::UnknownKey(name()).message(), "keyboard binding 9 names no key");
    assert_eq!(ConfigError::InvalidScancode(name()).message(), "scancode 9 is not a number");
}

fn scan(value: i32) -> RawRecord {
    RawRecord { event_type: EV_MSC, code: MSC_SCAN, value }
}

fn key(value: i32) -> RawRecord {
    RawRecord { event_type: EV_KEY, code: 3, value }
}

#[test]
fn next_event_stops_at_the_first_pair() {
    let records = [key(1), scan(30), scan(31), key(1), scan(32), key(0)];
    let mut sync = Synchronizer::new();
    let (event, fed) = sync.next_logical_event(&records);
    assert_eq!(event, Some(LogicalEvent { scancode: 31, pressed: true }));
    assert_eq!(fed, 4);
    assert_eq!(sync.state(), SyncState::AwaitingPair);
    let (event, fed) = sync.next_logical_event(&records[4..]);
    assert_eq!(event, Some(LogicalEvent { scancode: 32, pressed: false }));
    assert_eq!(fed, 2);
    let (event, fed) = sync.next_logical_event(&records[6..]);
    assert_eq!(event, None);
    assert_eq!(fed, 0);
}

#[test]
fn next_event_keeps_a_scan_that_waits() {
    let mut sync = Synchronizer::new();
    let (event, fed) = sync.next_logical_event(&[key(1), scan(30)]);
    assert_eq!(event, None);
    assert_eq!(fed, 2);
    assert_eq!(sync.pending(), Some(scan(30)));
    let (event, fed) = sync.next_logical_event(&[key(0), key(1)]);
    assert_eq!(event, Some(LogicalEvent { scancode: 30, pressed: false }));
    assert_eq!(fed, 1);
}
