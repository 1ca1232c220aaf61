use krakenctl::device::{DebugLevel, PRODUCT_ID, VENDOR_ID};

#[test]
fn known_device_identity() {
    assert_eq!(VENDOR_ID, 0x1e71);
    assert_eq!(PRODUCT_ID, 0x3008);
}

#[test]
fn debug_levels_parse_from_digits() {
    assert_eq!(DebugLevel::parse("0"), DebugLevel::Silent);
    assert_eq!(DebugLevel::parse("1"), DebugLevel::Error);
    assert_eq!(DebugLevel::parse("2"), DebugLevel::Warning);
    assert_eq!(DebugLevel::parse("3"), DebugLevel::Info);
    assert_eq!(DebugLevel::parse("4"), DebugLevel::Debug);
    assert_eq!(DebugLevel::parse(""), DebugLevel::Debug);
    assert_eq!(DebugLevel::parse("verbose"), DebugLevel::Debug);
}

#[test]
fn debug_levels_are_ordered() {
    assert!(DebugLevel::Silent < DebugLevel::Error);
    assert!(DebugLevel::Info < DebugLevel::Debug);
    assert!(DebugLevel::Info >= DebugLevel::Info);
}
