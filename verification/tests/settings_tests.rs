use krakenctl::color::Color;
use krakenctl::settings::{parse_settings, Settings};

#[test]
fn defaults_are_white_and_soft_blue() {
    let st = Settings::default();
    assert_eq!(st.time, Color { r: 255, g: 255, b: 255, a: 255 });
    assert_eq!(st.left_bar, Color { r: 120, g: 120, b: 255, a: 255 });
    assert_eq!(st.left_value, Color { r: 255, g: 255, b: 255, a: 255 });
    assert!(!st.show_time);
}

#[test]
fn known_keys_override_defaults() {
    let st = parse_settings("left_bar=#112233\nright_value=#abcdef\nshow_time=true");
    assert_eq!(st.left_bar, Color { r: 0x11, g: 0x22, b: 0x33, a: 255 });
    assert_eq!(st.right_value, Color { r: 0xab, g: 0xcd, b: 0xef, a: 255 });
    assert!(st.show_time);
    // untouched keys keep their defaults
    assert_eq!(st.right_bar, Color { r: 120, g: 120, b: 255, a: 255 });
}

#[test]
fn lines_are_trimmed_and_junk_is_ignored() {
    let st = parse_settings("  time=#010203  \n\n   \nnonsense\ntoo=many=signs\nunknown=#445566");
    assert_eq!(st.time, Color { r: 1, g: 2, b: 3, a: 255 });
    assert_eq!(st.left_bar, Color { r: 120, g: 120, b: 255, a: 255 });
    assert!(!st.show_time);
}

#[test]
fn malformed_color_value_becomes_red() {
    let st = parse_settings("left_title=oops");
    assert_eq!(st.left_title, Color { r: 255, g: 0, b: 0, a: 255 });
}

#[test]
fn show_time_needs_the_exact_word() {
    assert!(!parse_settings("show_time=yes").show_time);
    assert!(!parse_settings("show_time=True").show_time);
    assert!(parse_settings("show_time=true").show_time);
}
