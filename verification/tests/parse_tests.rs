use krakenctl::input::Input;

#[test]
fn single_value_with_unit() {
    let input = Input::new("45\u{b0}", false);
    assert_eq!(input.values.len(), 1);
    assert_eq!(input.prefixes[0], "");
    assert_eq!(input.values[0].display(), "45");
    assert!(!input.values[0].neg);
    assert_eq!(input.postfixes[0], "\u{b0}");
    assert_eq!(input.titles.len(), 0);
    assert_eq!(input.get_string_at(0), "45\u{b0}");
    assert_eq!(input.get_title_at(0), "");
    assert!(!input.time);
}

#[test]
fn single_value_with_title() {
    let input = Input::new("45;CPU", false);
    assert_eq!(input.values.len(), 1);
    assert_eq!(input.values[0].display(), "45");
    assert_eq!(input.get_title_at(0), "CPU");
}

#[test]
fn two_values_with_titles() {
    let input = Input::new("45\u{b0},32\u{b0};CPU,GPU", false);
    assert_eq!(input.values.len(), 2);
    assert_eq!(input.values[0].display(), "45");
    assert_eq!(input.values[1].display(), "32");
    assert_eq!(input.postfixes[0], "\u{b0}");
    assert_eq!(input.postfixes[1], "\u{b0}");
    assert_eq!(input.get_title_at(0), "CPU");
    assert_eq!(input.get_title_at(1), "GPU");
    assert_eq!(input.get_string_at(0), "45\u{b0}");
    assert_eq!(input.get_string_at(1), "32\u{b0}");
}

#[test]
fn token_without_number_is_dropped() {
    let input = Input::new("abc", false);
    assert_eq!(input.values.len(), 0);
    let input = Input::new("abc,45", false);
    assert_eq!(input.values.len(), 1);
    assert_eq!(input.get_string_at(0), "45");
}

#[test]
fn empty_input_yields_no_channel() {
    let input = Input::new("", false);
    assert_eq!(input.values.len(), 0);
    assert_eq!(input.get_string_at(0), "");
}

#[test]
fn negative_and_decorated_values() {
    let input = Input::new("-12.5x", false);
    assert_eq!(input.values.len(), 1);
    assert_eq!(input.prefixes[0], "");
    assert!(input.values[0].neg);
    assert_eq!(input.values[0].display(), "-12.5");
    assert_eq!(input.postfixes[0], "x");

    let input = Input::new("a-5", false);
    assert_eq!(input.prefixes[0], "a");
    assert_eq!(input.values[0].display(), "-5");
    assert_eq!(input.postfixes[0], "");
}

#[test]
fn values_are_canonicalized() {
    assert_eq!(Input::new("007.50", false).values[0].display(), "7.5");
    assert_eq!(Input::new("45.", false).values[0].display(), "45");
    assert_eq!(Input::new("0.0", false).values[0].display(), "0");
    assert_eq!(Input::new("-0", false).values[0].display(), "-0");
    assert_eq!(Input::new("000", false).values[0].display(), "0");
    assert_eq!(Input::new("12.305", false).values[0].display(), "12.305");
}

#[test]
fn number_stops_at_second_run() {
    let input = Input::new("1-2", false);
    assert_eq!(input.values[0].display(), "1");
    assert_eq!(input.postfixes[0], "-2");

    let input = Input::new("12.5.6", false);
    assert_eq!(input.values[0].display(), "12.5");
    assert_eq!(input.postfixes[0], ".6");
}

#[test]
fn titles_may_be_shorter_than_values() {
    let input = Input::new("1,2;only", false);
    assert_eq!(input.values.len(), 2);
    assert_eq!(input.get_title_at(0), "only");
    assert_eq!(input.get_title_at(1), "");
}

#[test]
fn time_flag_is_carried() {
    let input = Input::new("45", true);
    assert!(input.time);
}
