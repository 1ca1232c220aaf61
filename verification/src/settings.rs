//! The color configuration and the parsing of its key=value text.
//!
//! Each line of the configuration holds `key=value`; unknown keys, lines
//! without exactly one `=`, and blank lines are ignored, and malformed
//! colors fall back to the default red.  Loading the text from disk is the
//! caller's business; this module only folds the text over the defaults.

use vstd::prelude::*;
use crate::color::{spec_parse_color, string_to_rgba, Color};
use crate::strutil::{spec_split, spec_trim, split_on, str_is, trim};

verus! {

/// The seven display colors and the time flag.
#[derive(Clone, Copy, Debug, PartialEq, Eq, Structural)]
pub struct Settings {
    pub time: Color,
    pub left_bar: Color,
    pub right_bar: Color,
    pub left_value: Color,
    pub right_value: Color,
    pub left_title: Color,
    pub right_title: Color,
    pub show_time: bool,
}

/// The built-in defaults: white time and values, a soft blue for bars and
/// titles, no clock.
pub open spec fn spec_default_settings() -> Settings {
    Settings {
        time: Color { r: 255, g: 255, b: 255, a: 255 },
        left_bar: Color { r: 120, g: 120, b: 255, a: 255 },
        right_bar: Color { r: 120, g: 120, b: 255, a: 255 },
        left_value: Color { r: 255, g: 255, b: 255, a: 255 },
        right_value: Color { r: 255, g: 255, b: 255, a: 255 },
        left_title: Color { r: 120, g: 120, b: 255, a: 255 },
        right_title: Color { r: 120, g: 120, b: 255, a: 255 },
        show_time: false,
    }
}

impl Default for Settings {
    fn default() -> (r: Settings)
        ensures
            r == spec_default_settings(),
    {
        Settings {
            time: Color { r: 255, g: 255, b: 255, a: 255 },
            left_bar: Color { r: 120, g: 120, b: 255, a: 255 },
            right_bar: Color { r: 120, g: 120, b: 255, a: 255 },
            left_value: Color { r: 255, g: 255, b: 255, a: 255 },
            right_value: Color { r: 255, g: 255, b: 255, a: 255 },
            left_title: Color { r: 120, g: 120, b: 255, a: 255 },
            right_title: Color { r: 120, g: 120, b: 255, a: 255 },
            show_time: false,
        }
    }
}

/// How one configuration line changes the settings: trimmed, a blank line
/// or one without exactly one `=` changes nothing; a known key takes the
/// parsed color, and `show_time=true` raises the flag.
pub open spec fn spec_apply_line(st: Settings, line: Seq<char>) -> Settings {
    let t = spec_trim(line);
    if t.len() == 0 {
        st
    } else {
        let parts = spec_split(t, '=');
        if parts.len() != 2 {
            st
        } else {
            let key = parts[0];
            let value = parts[1];
            if key == "left_bar"@ {
                Settings { left_bar: spec_parse_color(value), ..st }
            } else if key == "right_bar"@ {
                Settings { right_bar: spec_parse_color(value), ..st }
            } else if key == "left_value"@ {
                Settings { left_value: spec_parse_color(value), ..st }
            } else if key == "right_value"@ {
                Settings { right_value: spec_parse_color(value), ..st }
            } else if key == "left_title"@ {
                Settings { left_title: spec_parse_color(value), ..st }
            } else if key == "right_title"@ {
                Settings { right_title: spec_parse_color(value), ..st }
            } else if key == "time"@ {
                Settings { time: spec_parse_color(value), ..st }
            } else if key == "show_time"@ && value == "true"@ {
                Settings { show_time: true, ..st }
            } else {
                st
            }
        }
    }
}

/// The settings that a list of lines yields over a start state.
pub open spec fn spec_settings_from(st: Settings, lines: Seq<Seq<char>>) -> Settings
    decreases lines.len(),
{
    if lines.len() == 0 {
        st
    } else {
        spec_settings_from(spec_apply_line(st, lines[0]), lines.drop_first())
    }
}

proof fn lemma_settings_from_append(st: Settings, lines: Seq<Seq<char>>, line: Seq<char>)
    ensures
        spec_settings_from(st, lines.push(line)) == spec_apply_line(
            spec_settings_from(st, lines),
            line,
        ),
    decreases lines.len(),
{
    let pushed = lines.push(line);
    if lines.len() == 0 {
        assert(pushed[0] == line);
        assert(pushed.drop_first() =~= Seq::<Seq<char>>::empty());
        assert(spec_settings_from(st, lines) == st);
        assert(spec_settings_from(st, pushed) == spec_settings_from(
            spec_apply_line(st, line),
            pushed.drop_first(),
        ));
        assert(spec_settings_from(spec_apply_line(st, line), pushed.drop_first())
            == spec_apply_line(st, line));
    } else {
        assert(pushed[0] == lines[0]);
        assert(pushed.drop_first() =~= lines.drop_first().push(line));
        lemma_settings_from_append(spec_apply_line(st, lines[0]), lines.drop_first(), line);
        assert(spec_settings_from(st, pushed) == spec_settings_from(
            spec_apply_line(st, lines[0]),
            pushed.drop_first(),
        ));
        assert(spec_settings_from(st, lines) == spec_settings_from(
            spec_apply_line(st, lines[0]),
            lines.drop_first(),
        ));
    }
}

fn apply_line(st: Settings, line: &str) -> (r: Settings)
    ensures
        r == spec_apply_line(st, line@),
{
    let t = trim(line);
    if t.as_str().is_empty() {
        return st;
    }
    let parts = split_on(t.as_str(), '=');
    if parts.len() != 2 {
        proof {
            assert(parts.deep_view().len() == parts@.len());
        }
        return st;
    }
    proof {
        assert(parts.deep_view()[0] == parts@[0]@);
        assert(parts.deep_view()[1] == parts@[1]@);
    }
    let key = &parts[0];
    let value = &parts[1];
    if str_is(key.as_str(), "left_bar") {
        Settings { left_bar: string_to_rgba(value.as_str()), ..st }
    } else if str_is(key.as_str(), "right_bar") {
        Settings { right_bar: string_to_rgba(value.as_str()), ..st }
    } else if str_is(key.as_str(), "left_value") {
        Settings { left_value: string_to_rgba(value.as_str()), ..st }
    } else if str_is(key.as_str(), "right_value") {
        Settings { right_value: string_to_rgba(value.as_str()), ..st }
    } else if str_is(key.as_str(), "left_title") {
        Settings { left_title: string_to_rgba(value.as_str()), ..st }
    } else if str_is(key.as_str(), "right_title") {
        Settings { right_title: string_to_rgba(value.as_str()), ..st }
    } else if str_is(key.as_str(), "time") {
        Settings { time: string_to_rgba(value.as_str()), ..st }
    } else if str_is(key.as_str(), "show_time") && str_is(value.as_str(), "true") {
        Settings { show_time: true, ..st }
    } else {
        st
    }
}

/// Folds a whole configuration text over the defaults, line by line.
pub fn parse_settings(text: &str) -> (r: Settings)
    ensures
        r == spec_settings_from(spec_default_settings(), spec_split(text@, '\n')),
{
    let lines = split_on(text, '\n');
    let ghost lns = spec_split(text@, '\n');
    let mut st = Settings::default();
    let mut i: usize = 0;
    proof {
        assert(lns.take(0) =~= Seq::<Seq<char>>::empty());
    }
    while i < lines.len()
        invariant
            lines.deep_view() =~~= lns,
            i <= lines.len(),
            st == spec_settings_from(spec_default_settings(), lns.take(i as int)),
        decreases lines.len() - i,
    {
        proof {
            assert(lines.deep_view()[i as int] == lines@[i as int]@);
            assert(lns.take(i + 1) =~= lns.take(i as int).push(lns[i as int]));
            lemma_settings_from_append(spec_default_settings(), lns.take(i as int), lns[i as int]);
        }
        st = apply_line(st, lines[i].as_str());
        i += 1;
    }
    proof {
        assert(lns.take(lines.len() as int) =~= lns);
    }
    st
}

} // verus!
