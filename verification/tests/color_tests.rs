use krakenctl::color::{string_to_rgba, Color};

fn rgba(r: u8, g: u8, b: u8, a: u8) -> Color {
    Color { r, g, b, a }
}

#[test]
fn well_formed_color() {
    assert_eq!(string_to_rgba("#7878ff"), rgba(120, 120, 255, 255));
    assert_eq!(string_to_rgba("#000000"), rgba(0, 0, 0, 255));
    assert_eq!(string_to_rgba("#FF00AA"), rgba(255, 0, 170, 255));
}

#[test]
fn malformed_color_falls_back_to_red() {
    let red = rgba(255, 0, 0, 255);
    assert_eq!(string_to_rgba("bogus"), red);
    assert_eq!(string_to_rgba(""), red);
    assert_eq!(string_to_rgba("#fff"), red);
    assert_eq!(string_to_rgba("7878ff"), red);
    assert_eq!(string_to_rgba("x7878ff"), red);
    assert_eq!(string_to_rgba("#7878fg"), red);
}

#[test]
fn longer_strings_use_first_six_digits() {
    assert_eq!(string_to_rgba("#7878ffzz"), rgba(120, 120, 255, 255));
}
