use krakenctl::clock::format_clock;
use krakenctl::color::Color;
use krakenctl::input::Input;
use krakenctl::render::{render_plan, CharWidths, DrawOp};
use krakenctl::settings::Settings;
use krakenctl::text::truncate;
use unicode_segmentation::UnicodeSegmentation;

fn widths() -> CharWidths {
    CharWidths { value_single: 40, value_dual: 32, title: 20, clock: 24 }
}

#[test]
fn truncate_counts_graphemes_not_bytes() {
    assert_eq!(truncate("hello world", 6), "hello ");
    assert_eq!(truncate("hello", 6), "hello");
    assert_eq!(truncate("", 4), "");
    // three clusters: each letter carries a combining mark
    let marked = "a\u{310}e\u{301}o\u{308}\u{332}";
    assert_eq!(truncate(marked, 2), "a\u{310}e\u{301}");
    assert_eq!(truncate(marked, 3), marked);
    // one flag is one cluster of two code points
    assert_eq!(truncate("\u{1f1f7}\u{1f1fa}\u{1f1f8}\u{1f1f9}", 1), "\u{1f1f7}\u{1f1fa}");
}

#[test]
fn truncation_is_idempotent_and_counts_clusters() {
    for (s, len) in [
        ("hello world", 6usize),
        ("hi", 6),
        ("a\u{310}e\u{301}o\u{308}\u{332}", 2),
        ("\u{1f1f7}\u{1f1fa}\u{1f1f8}\u{1f1f9}", 1),
    ] {
        let once = truncate(s, len);
        let twice = truncate(&once, len);
        assert_eq!(twice, once);
        let g = s.graphemes(true).count();
        assert_eq!(once.graphemes(true).count(), g.min(len));
    }
}

#[test]
fn clock_is_hour_colon_padded_minute() {
    assert_eq!(format_clock(9, 5), "9:05");
    assert_eq!(format_clock(23, 59), "23:59");
    assert_eq!(format_clock(0, 0), "0:00");
    assert_eq!(format_clock(12, 30), "12:30");
}

#[test]
fn empty_input_draws_nothing_without_clock() {
    let input = Input::new("", false);
    let st = Settings::default();
    let plan = render_plan(&input, &st, &widths(), 12, 0);
    assert!(plan.is_empty());
}

#[test]
fn single_channel_plan_shape() {
    let input = Input::new("45\u{b0};CPU", false);
    let st = Settings::default();
    let plan = render_plan(&input, &st, &widths(), 12, 0);
    assert_eq!(plan.len(), 8);
    match &plan[0] {
        DrawOp::FillCircle { cx, cy, radius, color } => {
            assert_eq!((*cx, *cy, *radius), (160, 160, 160));
            assert_eq!(*color, Color { r: 30, g: 30, b: 30, a: 255 });
        },
        other => panic!("expected the background circle, got {:?}", other),
    }
    match &plan[1] {
        DrawOp::Wedge { toward_left, clamped, radius_x2, color } => {
            assert!(*toward_left);
            assert_eq!(clamped, "45");
            assert_eq!(*radius_x2, 1520);
            assert_eq!(*color, st.left_bar);
        },
        other => panic!("expected the left wedge, got {:?}", other),
    }
    // one channel drives both wedges
    match &plan[2] {
        DrawOp::Wedge { toward_left, clamped, .. } => {
            assert!(!*toward_left);
            assert_eq!(clamped, "45");
        },
        other => panic!("expected the right wedge, got {:?}", other),
    }
    match &plan[3] {
        DrawOp::FillCircle { radius, color, .. } => {
            assert_eq!(*radius, 127);
            assert_eq!(*color, Color { r: 0, g: 0, b: 0, a: 255 });
        },
        other => panic!("expected the erasing circle, got {:?}", other),
    }
    assert!(matches!(&plan[4], DrawOp::EndCaps { toward_left: true, .. }));
    assert!(matches!(&plan[5], DrawOp::EndCaps { toward_left: false, .. }));
    match &plan[6] {
        DrawOp::Text { x, y, scale, text, color } => {
            // three glyphs at width 40: origin 160 - 120/2
            assert_eq!(text, "45\u{b0}");
            assert_eq!(*x, 160 - (40 * 3) / 2);
            assert_eq!(*y, 110);
            assert_eq!(*scale, 80);
            assert_eq!(*color, st.left_value);
        },
        other => panic!("expected the value text, got {:?}", other),
    }
    match &plan[7] {
        DrawOp::Text { x, y, scale, text, .. } => {
            assert_eq!(text, "CPU");
            assert_eq!(*x, 160 - (20 * 3) / 2);
            assert_eq!(*y, 190);
            assert_eq!(*scale, 40);
        },
        other => panic!("expected the title text, got {:?}", other),
    }
}

#[test]
fn single_channel_collapses_bar_colors() {
    let mut st = Settings::default();
    st.left_bar = Color { r: 10, g: 20, b: 30, a: 255 };
    st.right_bar = Color { r: 200, g: 100, b: 50, a: 255 };
    let plan = render_plan(&Input::new("45", false), &st, &widths(), 1, 2);
    // one channel: both wedges and both cap pairs take that channel's bar color
    for index in [1usize, 2] {
        match &plan[index] {
            DrawOp::Wedge { color, .. } => assert_eq!(*color, st.left_bar),
            other => panic!("expected a wedge, got {:?}", other),
        }
    }
    for index in [4usize, 5] {
        match &plan[index] {
            DrawOp::EndCaps { color, .. } => assert_eq!(*color, st.left_bar),
            other => panic!("expected end caps, got {:?}", other),
        }
    }
}

#[test]
fn two_channels_keep_their_own_bar_colors() {
    let mut st = Settings::default();
    st.left_bar = Color { r: 10, g: 20, b: 30, a: 255 };
    st.right_bar = Color { r: 200, g: 100, b: 50, a: 255 };
    let plan = render_plan(&Input::new("45,55", false), &st, &widths(), 1, 2);
    match &plan[1] {
        DrawOp::Wedge { color, .. } => assert_eq!(*color, st.left_bar),
        other => panic!("expected the left wedge, got {:?}", other),
    }
    match &plan[2] {
        DrawOp::Wedge { color, .. } => assert_eq!(*color, st.right_bar),
        other => panic!("expected the right wedge, got {:?}", other),
    }
    match &plan[5] {
        DrawOp::EndCaps { color, .. } => assert_eq!(*color, st.right_bar),
        other => panic!("expected the right end caps, got {:?}", other),
    }
}

#[test]
fn values_above_the_ceiling_are_clamped_for_the_gauge() {
    let input = Input::new("150,-3", false);
    let st = Settings::default();
    let plan = render_plan(&input, &st, &widths(), 1, 1);
    match &plan[1] {
        DrawOp::Wedge { clamped, .. } => assert_eq!(clamped, "100"),
        other => panic!("expected the left wedge, got {:?}", other),
    }
    match &plan[2] {
        DrawOp::Wedge { clamped, .. } => assert_eq!(clamped, "0"),
        other => panic!("expected the right wedge, got {:?}", other),
    }
    // the shown text keeps the unclamped value
    match &plan[6] {
        DrawOp::Text { text, .. } => assert_eq!(text, "150"),
        other => panic!("expected the value text, got {:?}", other),
    }
}

#[test]
fn dual_channel_plan_truncates_to_four_and_centers_both() {
    let input = Input::new("123456,7;LONGNAME,B", false);
    let st = Settings::default();
    let plan = render_plan(&input, &st, &widths(), 3, 4);
    assert_eq!(plan.len(), 10);
    match &plan[6] {
        DrawOp::Text { x, y, scale, text, .. } => {
            assert_eq!(text, "1234");
            assert_eq!(*x, 105 - (32 * 4) / 2);
            assert_eq!(*y, 120);
            assert_eq!(*scale, 65);
        },
        other => panic!("expected the left value text, got {:?}", other),
    }
    match &plan[7] {
        DrawOp::Text { x, text, .. } => {
            assert_eq!(text, "7");
            assert_eq!(*x, 215 - 32 / 2);
        },
        other => panic!("expected the right value text, got {:?}", other),
    }
    match &plan[8] {
        DrawOp::Text { x, text, .. } => {
            assert_eq!(text, "LONG");
            assert_eq!(*x, 105 - (20 * 4) / 2);
        },
        other => panic!("expected the left title text, got {:?}", other),
    }
    match &plan[9] {
        DrawOp::Text { x, text, .. } => {
            assert_eq!(text, "B");
            assert_eq!(*x, 215 - 20 / 2);
        },
        other => panic!("expected the right title text, got {:?}", other),
    }
}

#[test]
fn clock_overlay_is_appended_when_asked() {
    let st = Settings::default();
    let with_flag = render_plan(&Input::new("45", true), &st, &widths(), 12, 5);
    match with_flag.last().unwrap() {
        DrawOp::Text { x, y, scale, text, color } => {
            assert_eq!(text, "12:05");
            // five glyphs at width 24: origin 160 - 120/2
            assert_eq!(*x, 160 - (24 * 5) / 2);
            assert_eq!(*y, 45);
            assert_eq!(*scale, 50);
            assert_eq!(*color, st.time);
        },
        other => panic!("expected the clock text, got {:?}", other),
    }
    let mut st_time = Settings::default();
    st_time.show_time = true;
    let via_settings = render_plan(&Input::new("", false), &st_time, &widths(), 7, 9);
    assert_eq!(via_settings.len(), 1);
    match &via_settings[0] {
        DrawOp::Text { text, .. } => assert_eq!(text, "7:09"),
        other => panic!("expected the clock text, got {:?}", other),
    }
}

#[test]
fn rendering_twice_yields_identical_plans() {
    let st = Settings::default();
    let a = render_plan(&Input::new("45\u{b0},32;CPU,GPU", true), &st, &widths(), 18, 45);
    let b = render_plan(&Input::new("45\u{b0},32;CPU,GPU", true), &st, &widths(), 18, 45);
    assert_eq!(a, b);
}
