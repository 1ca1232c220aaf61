//! Planning of the gauge display.
//!
//! The renderer decides everything that does not need trigonometry or
//! font shaping: which shapes are drawn in which order, with which
//! colors, which strings are shown where, and how text is centered.  The
//! result is an ordered draw plan; a thin rasteriser turns each operation
//! into pixels, computing the wedge angles from the clamped value it
//! carries.
//!
//! Text width is estimated as the advance width of a fixed reference
//! glyph at the given scale times the grapheme count.  The approximation
//! is deliberate: the display's centering is calibrated against it.

use vstd::prelude::*;
use crate::clock::{format_clock, local_hour_minute, spec_clock_text};
use crate::color::Color;
use crate::input::Input;
use crate::number::Decimal;
use crate::settings::Settings;
use crate::text::{grapheme_count, spec_graphemes, spec_truncate, truncate};

verus! {

broadcast use vstd::prelude::Seq::lemma_push_map_commute;

/// Center of the gauge, both axes.
pub const GAUGE_CENTER: i32 = 160;

/// Radius of the grey background ring.
pub const GAUGE_OUTER_RADIUS: i32 = 160;

/// Radius of the black circle that erases the wedge interiors, leaving a
/// ring.
pub const GAUGE_INNER_RADIUS: i32 = 127;

/// Twice the radius of the far wedge corners: long enough that the pie
/// slice always crosses the ring.
pub const WEDGE_RADIUS_X2: u32 = 1520;

/// Twice the radius of the arc on which the rounded end caps sit.
pub const CAP_ARC_RADIUS_X2: u32 = 287;

/// Radius of one rounded end cap.
pub const CAP_RADIUS: i32 = 16;

/// Grapheme limit for a single shown channel.
pub const SINGLE_TEXT_LIMIT: usize = 6;

/// Grapheme limit when two channels share the display.
pub const DUAL_TEXT_LIMIT: usize = 4;

/// The grey behind the gauge ring.
pub open spec fn spec_ring_grey() -> Color {
    Color { r: 30, g: 30, b: 30, a: 255 }
}

/// The black that erases the ring interior.
pub open spec fn spec_ring_black() -> Color {
    Color { r: 0, g: 0, b: 0, a: 255 }
}

/// One drawing step of the plan, in order.
#[derive(Debug, PartialEq)]
pub enum DrawOp {
    /// Fill a circle.
    FillCircle { cx: i32, cy: i32, radius: i32, color: Color },
    /// Fill the pie wedge of one gauge side; the sweep angle follows from
    /// the clamped value: a quarter turn times `clamped / 120`.
    Wedge { toward_left: bool, clamped: String, radius_x2: u32, color: Color },
    /// The two rounded end caps of one gauge side, at the sweep angle on
    /// the cap arc, above and below the horizontal axis.
    EndCaps { toward_left: bool, clamped: String, arc_radius_x2: u32, cap_radius: i32, color: Color },
    /// Draw text with its origin at `(x, y)`.
    Text { x: i32, y: i32, scale: u32, text: String, color: Color },
}

/// The mathematical shape of a drawing step.
#[verifier::ext_equal]
pub enum DrawOpModel {
    FillCircle { cx: i32, cy: i32, radius: i32, color: Color },
    Wedge { toward_left: bool, clamped: Seq<char>, radius_x2: u32, color: Color },
    EndCaps { toward_left: bool, clamped: Seq<char>, arc_radius_x2: u32, cap_radius: i32, color: Color },
    Text { x: i32, y: i32, scale: u32, text: Seq<char>, color: Color },
}

impl View for DrawOp {
    type V = DrawOpModel;

    open spec fn view(&self) -> DrawOpModel {
        match self {
            DrawOp::FillCircle { cx, cy, radius, color } => DrawOpModel::FillCircle {
                cx: *cx,
                cy: *cy,
                radius: *radius,
                color: *color,
            },
            DrawOp::Wedge { toward_left, clamped, radius_x2, color } => DrawOpModel::Wedge {
                toward_left: *toward_left,
                clamped: clamped@,
                radius_x2: *radius_x2,
                color: *color,
            },
            DrawOp::EndCaps { toward_left, clamped, arc_radius_x2, cap_radius, color } => DrawOpModel::EndCaps {
                toward_left: *toward_left,
                clamped: clamped@,
                arc_radius_x2: *arc_radius_x2,
                cap_radius: *cap_radius,
                color: *color,
            },
            DrawOp::Text { x, y, scale, text, color } => DrawOpModel::Text {
                x: *x,
                y: *y,
                scale: *scale,
                text: text@,
                color: *color,
            },
        }
    }
}

/// The models of a draw plan.
pub open spec fn spec_ops_of(s: Seq<DrawOp>) -> Seq<DrawOpModel> {
    s.map_values(|op: DrawOp| op@)
}

/// The measured advance width of the reference glyph at each text scale,
/// in pixels: single-channel value scale, dual-channel value scale, title
/// scale and clock scale.
pub struct CharWidths {
    pub value_single: i32,
    pub value_dual: i32,
    pub title: i32,
    pub clock: i32,
}

impl CharWidths {
    /// Widths are nonnegative and small enough that every centering
    /// computation stays far from overflow.
    pub open spec fn wf(self) -> bool {
        &&& 0 <= self.value_single <= 4096
        &&& 0 <= self.value_dual <= 4096
        &&& 0 <= self.title <= 4096
        &&& 0 <= self.clock <= 4096
    }

    pub fn check(&self) -> (r: bool)
        ensures
            r == self.wf(),
    {
        0 <= self.value_single && self.value_single <= 4096 && 0 <= self.value_dual
            && self.value_dual <= 4096 && 0 <= self.title && self.title <= 4096 && 0 <= self.clock
            && self.clock <= 4096
    }
}

/// A text step centered at `center_x`: the string cut to `limit`
/// clusters, its origin moved left by half the estimated width.
pub open spec fn spec_text_op(
    center_x: int,
    y: i32,
    scale: u32,
    s: Seq<char>,
    limit: nat,
    cw: int,
    color: Color,
) -> DrawOpModel {
    let count = vstd::math::min(spec_graphemes(s).len() as int, limit as int);
    DrawOpModel::Text {
        x: (center_x - (cw * count) / 2) as i32,
        y,
        scale,
        text: spec_truncate(s, limit),
        color,
    }
}

/// The clock step: `H:MM` centered at the gauge center near the top.
pub open spec fn spec_clock_op(hour: int, minute: int, cw: int, color: Color) -> DrawOpModel {
    let text = spec_clock_text(hour, minute);
    DrawOpModel::Text {
        x: (160 - (cw * spec_graphemes(text).len()) / 2) as i32,
        y: 45,
        scale: 50,
        text: text,
        color,
    }
}

/// The six gauge steps, in draw order: background ring, left wedge,
/// right wedge, erasing inner circle, left caps, right caps.
pub open spec fn spec_gauge_ops(
    left_val: Decimal,
    right_val: Decimal,
    left_color: Color,
    right_color: Color,
) -> Seq<DrawOpModel> {
    seq![
        DrawOpModel::FillCircle { cx: 160, cy: 160, radius: 160, color: spec_ring_grey() },
        DrawOpModel::Wedge {
            toward_left: true,
            clamped: left_val.spec_clamp_display(),
            radius_x2: 1520,
            color: left_color,
        },
        DrawOpModel::Wedge {
            toward_left: false,
            clamped: right_val.spec_clamp_display(),
            radius_x2: 1520,
            color: right_color,
        },
        DrawOpModel::FillCircle { cx: 160, cy: 160, radius: 127, color: spec_ring_black() },
        DrawOpModel::EndCaps {
            toward_left: true,
            clamped: left_val.spec_clamp_display(),
            arc_radius_x2: 287,
            cap_radius: 16,
            color: left_color,
        },
        DrawOpModel::EndCaps {
            toward_left: false,
            clamped: right_val.spec_clamp_display(),
            arc_radius_x2: 287,
            cap_radius: 16,
            color: right_color,
        },
    ]
}

/// The display string of channel `i`: leading text, canonical value,
/// trailing text.
pub open spec fn spec_channel_string(input: Input, i: int) -> Seq<char> {
    input.prefixes@[i]@ + input.values@[i].spec_display() + input.postfixes@[i]@
}

/// The title of channel `i`, empty when the title section holds none.
pub open spec fn spec_title_string(input: Input, i: int) -> Seq<char> {
    if i < input.titles.len() {
        input.titles@[i]@
    } else {
        Seq::<char>::empty()
    }
}

/// The draw steps before the optional clock overlay.
pub open spec fn spec_plan_body(input: Input, st: Settings, w: CharWidths) -> Seq<DrawOpModel> {
    let n = input.values.len() as int;
    if n == 0 {
        Seq::<DrawOpModel>::empty()
    } else if n == 1 {
        spec_gauge_ops(input.values@[0], input.values@[0], st.left_bar, st.left_bar) + seq![
            spec_text_op(
                160,
                110,
                80,
                spec_channel_string(input, 0),
                6,
                w.value_single as int,
                st.left_value,
            ),
            spec_text_op(160, 190, 40, spec_title_string(input, 0), 6, w.title as int, st.left_title),
        ]
    } else {
        spec_gauge_ops(input.values@[0], input.values@[1], st.left_bar, st.right_bar) + seq![
            spec_text_op(
                105,
                120,
                65,
                spec_channel_string(input, 0),
                4,
                w.value_dual as int,
                st.left_value,
            ),
            spec_text_op(
                215,
                120,
                65,
                spec_channel_string(input, 1),
                4,
                w.value_dual as int,
                st.right_value,
            ),
            spec_text_op(105, 190, 40, spec_title_string(input, 0), 4, w.title as int, st.left_title),
            spec_text_op(
                215,
                190,
                40,
                spec_title_string(input, 1),
                4,
                w.title as int,
                st.right_title,
            ),
        ]
    }
}

/// The whole draw plan of one rendering.
///
/// No channel draws nothing but the optional clock.  One channel drives
/// both wedges, its bar color covers both sides, and its text is
/// centered; two or more channels show side by side with their own bar
/// colors, and only the first two are ever used.  The clock is appended
/// when the input or the settings ask for it.
pub open spec fn spec_render_plan(
    input: Input,
    st: Settings,
    w: CharWidths,
    hour: int,
    minute: int,
) -> Seq<DrawOpModel> {
    spec_plan_body(input, st, w) + if input.time || st.show_time {
        seq![spec_clock_op(hour, minute, w.clock as int, st.time)]
    } else {
        Seq::<DrawOpModel>::empty()
    }
}

fn push_text_op(
    ops: &mut Vec<DrawOp>,
    center_x: i32,
    y: i32,
    scale: u32,
    s: &String,
    limit: usize,
    cw: i32,
    color: Color,
)
    requires
        0 <= cw <= 4096,
        100 <= center_x <= 220,
        limit == 4 || limit == 6,
    ensures
        spec_ops_of(final(ops)@) =~~= spec_ops_of(old(ops)@).push(
            spec_text_op(center_x as int, y, scale, s@, limit as nat, cw as int, color),
        ),
{
    let shown = truncate(s.as_str(), limit);
    let g = grapheme_count(s.as_str());
    let count: i32 = if g > limit {
        limit as i32
    } else {
        g as i32
    };
    proof {
        assert(0 <= cw * count <= 24576) by (nonlinear_arith)
            requires
                0 <= cw <= 4096,
                0 <= count <= 6,
        ;
    }
    let x = center_x - (cw * count) / 2;
    ops.push(DrawOp::Text { x, y, scale, text: shown, color });
}

/// Builds the draw plan for the parsed input under the given settings,
/// glyph widths and wall-clock time.
///
/// The plan is a function of its arguments alone: rendering the same
/// input and configuration twice yields identical plans, and so
/// identical framebuffers from a rasteriser that draws nothing else.
pub fn render_plan(
    input: &Input,
    st: &Settings,
    widths: &CharWidths,
    hour: u32,
    minute: u32,
) -> (r: Vec<DrawOp>)
    requires
        input.wf(),
        widths.wf(),
        hour < 24,
        minute < 60,
    ensures
        spec_ops_of(r@) =~~= spec_render_plan(*input, *st, *widths, hour as int, minute as int),
{
    let mut ops: Vec<DrawOp> = Vec::new();
    let n = input.values.len();
    if n >= 1 {
        let left_clamped = input.values[0].clamp_hundred().display();
        let right_clamped = if n >= 2 {
            input.values[1].clamp_hundred().display()
        } else {
            input.values[0].clamp_hundred().display()
        };
        // with one channel, both wedges take that channel's bar color
        let right_bar = if n >= 2 {
            st.right_bar
        } else {
            st.left_bar
        };
        ops.push(
            DrawOp::FillCircle {
                cx: GAUGE_CENTER,
                cy: GAUGE_CENTER,
                radius: GAUGE_OUTER_RADIUS,
                color: Color { r: 30, g: 30, b: 30, a: 255 },
            },
        );
        ops.push(
            DrawOp::Wedge {
                toward_left: true,
                clamped: left_clamped.clone(),
                radius_x2: WEDGE_RADIUS_X2,
                color: st.left_bar,
            },
        );
        ops.push(
            DrawOp::Wedge {
                toward_left: false,
                clamped: right_clamped.clone(),
                radius_x2: WEDGE_RADIUS_X2,
                color: right_bar,
            },
        );
        ops.push(
            DrawOp::FillCircle {
                cx: GAUGE_CENTER,
                cy: GAUGE_CENTER,
                radius: GAUGE_INNER_RADIUS,
                color: Color { r: 0, g: 0, b: 0, a: 255 },
            },
        );
        ops.push(
            DrawOp::EndCaps {
                toward_left: true,
                clamped: left_clamped,
                arc_radius_x2: CAP_ARC_RADIUS_X2,
                cap_radius: CAP_RADIUS,
                color: st.left_bar,
            },
        );
        ops.push(
            DrawOp::EndCaps {
                toward_left: false,
                clamped: right_clamped,
                arc_radius_x2: CAP_ARC_RADIUS_X2,
                cap_radius: CAP_RADIUS,
                color: right_bar,
            },
        );
        proof {
            let rv = if n >= 2 {
                input.values@[1]
            } else {
                input.values@[0]
            };
            assert(spec_ops_of(ops@) =~~= spec_gauge_ops(
                input.values@[0],
                rv,
                st.left_bar,
                right_bar,
            ));
        }
        let s0 = input.get_string_at(0);
        let t0 = input.get_title_at(0);
        if n == 1 {
            push_text_op(
                &mut ops,
                160,
                110,
                80,
                &s0,
                SINGLE_TEXT_LIMIT,
                widths.value_single,
                st.left_value,
            );
            push_text_op(&mut ops, 160, 190, 40, &t0, SINGLE_TEXT_LIMIT, widths.title, st.left_title);
            proof {
                assert(t0@ =~= spec_title_string(*input, 0));
                assert(spec_ops_of(ops@) =~~= spec_plan_body(*input, *st, *widths));
            }
        } else {
            let s1 = input.get_string_at(1);
            let t1 = input.get_title_at(1);
            push_text_op(&mut ops, 105, 120, 65, &s0, DUAL_TEXT_LIMIT, widths.value_dual, st.left_value);
            push_text_op(&mut ops, 215, 120, 65, &s1, DUAL_TEXT_LIMIT, widths.value_dual, st.right_value);
            push_text_op(&mut ops, 105, 190, 40, &t0, DUAL_TEXT_LIMIT, widths.title, st.left_title);
            push_text_op(&mut ops, 215, 190, 40, &t1, DUAL_TEXT_LIMIT, widths.title, st.right_title);
            proof {
                assert(t0@ =~= spec_title_string(*input, 0));
                assert(t1@ =~= spec_title_string(*input, 1));
                assert(spec_ops_of(ops@) =~~= spec_plan_body(*input, *st, *widths));
            }
        }
    } else {
        proof {
            assert(spec_ops_of(ops@) =~~= spec_plan_body(*input, *st, *widths));
        }
    }
    proof {
        assert(spec_ops_of(ops@) =~~= spec_plan_body(*input, *st, *widths));
    }
    if input.time || st.show_time {
        let text = format_clock(hour, minute);
        let g = grapheme_count(text.as_str());
        proof {
            assert(text@.len() <= 5);
        }
        let count = g as i32;
        proof {
            assert(0 <= widths.clock * count <= 20480) by (nonlinear_arith)
                requires
                    0 <= widths.clock <= 4096,
                    0 <= count <= 5,
            ;
        }
        let x = 160 - (widths.clock * count) / 2;
        ops.push(DrawOp::Text { x, y: 45, scale: 50, text, color: st.time });
    }
    proof {
        assert(spec_ops_of(ops@) =~~= spec_render_plan(
            *input,
            *st,
            *widths,
            hour as int,
            minute as int,
        ));
    }
    ops
}

/// Rendering is idempotent: the draw plan is a function of the parsed
/// input, the colors, the glyph widths and the clock alone, so two
/// renderings of equal arguments yield equal plans — and with them,
/// byte-identical framebuffers from any rasteriser that is itself a
/// function of the plan.
pub proof fn lemma_render_plan_deterministic(
    input1: Input,
    input2: Input,
    st1: Settings,
    st2: Settings,
    w1: CharWidths,
    w2: CharWidths,
    hour1: int,
    hour2: int,
    minute1: int,
    minute2: int,
)
    requires
        input1 == input2,
        st1 == st2,
        w1 == w2,
        hour1 == hour2,
        minute1 == minute2,
    ensures
        spec_render_plan(input1, st1, w1, hour1, minute1) == spec_render_plan(
            input2,
            st2,
            w2,
            hour2,
            minute2,
        ),
{
}

/// Builds the draw plan at the current wall-clock time.
pub fn render_plan_now(input: &Input, st: &Settings, widths: &CharWidths) -> (r: Vec<DrawOp>)
    requires
        input.wf(),
        widths.wf(),
    ensures
        exists|h: int, m: int|
            0 <= h < 24 && 0 <= m < 60 && spec_ops_of(r@) =~~= #[trigger] spec_render_plan(
                *input,
                *st,
                *widths,
                h,
                m,
            ),
{
    let (hour, minute) = local_hour_minute();
    let r = render_plan(input, st, widths, hour, minute);
    proof {
        assert(spec_ops_of(r@) =~~= spec_render_plan(
            *input,
            *st,
            *widths,
            hour as int,
            minute as int,
        ));
    }
    r
}

} // verus!
