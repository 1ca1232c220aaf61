//! The raw framebuffer and its final double mirror.
//!
//! The display buffer is a fixed 320 by 320 raster of four bytes per
//! pixel, row-major.  The device is mounted upside down: after all drawing
//! the canvas is mirrored both horizontally and vertically — one half-turn
//! — before its bytes are sent.

use vstd::prelude::*;

verus! {

/// Width and height of the display raster, in pixels.
pub const FB_SIDE: usize = 320;

/// Bytes per pixel: red, green, blue, alpha.
pub const FB_CHANNELS: usize = 4;

/// The exact byte length of every framebuffer.
pub const FB_BYTES: usize = FB_SIDE * FB_SIDE * FB_CHANNELS;

/// The byte that position `i` of the mirrored buffer takes from the
/// unmirrored one: same channel, pixel reflected through the center.
pub open spec fn spec_flip_index(i: int) -> int {
    let p = i / 4;
    let c = i % 4;
    let x = p % 320;
    let y = p / 320;
    4 * ((319 - y) * 320 + (319 - x)) + c
}

/// The buffer mirrored both horizontally and vertically.
pub open spec fn spec_flipped(fb: Seq<u8>) -> Seq<u8> {
    Seq::new(fb.len(), |i: int| fb[spec_flip_index(i)])
}

/// The reflection stays inside the buffer and undoes itself: applying it
/// to a position twice returns to the position.
pub proof fn lemma_flip_index_involution(i: int)
    requires
        0 <= i < FB_BYTES,
    ensures
        0 <= spec_flip_index(i) < FB_BYTES,
        spec_flip_index(spec_flip_index(i)) == i,
{
    let p = i / 4;
    let c = i % 4;
    assert(i == 4 * p + c && 0 <= c < 4 && 0 <= p < 102400) by (nonlinear_arith)
        requires
            0 <= i < 409600,
            p == i / 4,
            c == i % 4,
    ;
    let x = p % 320;
    let y = p / 320;
    assert(p == y * 320 + x && 0 <= x < 320 && 0 <= y < 320) by (nonlinear_arith)
        requires
            0 <= p < 102400,
            x == p % 320,
            y == p / 320,
    ;
    let q = (319 - y) * 320 + (319 - x);
    let j = 4 * q + c;
    assert(0 <= j < 409600) by (nonlinear_arith)
        requires
            j == 4 * q + c,
            q == (319 - y) * 320 + (319 - x),
            0 <= x < 320,
            0 <= y < 320,
            0 <= c < 4,
    ;
    assert(j / 4 == q && j % 4 == c) by (nonlinear_arith)
        requires
            j == 4 * q + c,
            0 <= c < 4,
            q >= 0,
    ;
    assert(q % 320 == 319 - x && q / 320 == 319 - y) by (nonlinear_arith)
        requires
            q == (319 - y) * 320 + (319 - x),
            0 <= 319 - x < 320,
            0 <= 319 - y,
    ;
    assert(spec_flip_index(i) == j);
    assert(spec_flip_index(j) == 4 * ((319 - (319 - y)) * 320 + (319 - (319 - x))) + c);
    assert(spec_flip_index(j) == i);
}

/// The mirror is an involution: flipping a framebuffer twice restores
/// every byte.
pub proof fn lemma_flip_involution(fb: Seq<u8>)
    requires
        fb.len() == FB_BYTES,
    ensures
        spec_flipped(spec_flipped(fb)) == fb,
{
    let once = spec_flipped(fb);
    let twice = spec_flipped(once);
    assert forall|i: int| 0 <= i < fb.len() implies twice[i] == fb[i] by {
        lemma_flip_index_involution(i);
        lemma_flip_index_involution(spec_flip_index(i));
    }
    assert(twice =~= fb);
}

/// Mirrors the framebuffer horizontally and vertically in one pass.
///
/// Whatever was drawn, the result is again exactly `FB_BYTES` bytes; the
/// output is a function of the input bytes alone.
pub fn flip_both(fb: &Vec<u8>) -> (r: Vec<u8>)
    requires
        fb@.len() == FB_BYTES,
    ensures
        r@ == spec_flipped(fb@),
        r@.len() == FB_BYTES,
{
    let mut r: Vec<u8> = Vec::new();
    let mut i: usize = 0;
    while i < FB_BYTES
        invariant
            fb@.len() == FB_BYTES,
            i <= FB_BYTES,
            r@.len() == i,
            forall|j: int| 0 <= j < i ==> r@[j] == fb@[spec_flip_index(j)],
        decreases FB_BYTES - i,
    {
        let p = i / 4;
        let c = i % 4;
        let x = p % 320;
        let y = p / 320;
        let src = 4 * ((319 - y) * 320 + (319 - x)) + c;
        proof {
            assert(y < 320) by (nonlinear_arith)
                requires
                    p == i / 4,
                    y == p / 320,
                    i < 409600,
            ;
            assert(src < 409600) by (nonlinear_arith)
                requires
                    x == p % 320,
                    c == i % 4,
                    x < 320,
                    y < 320,
                    c < 4,
                    src == 4 * ((319 - y) * 320 + (319 - x)) + c,
            ;
            assert(src == spec_flip_index(i as int));
        }
        r.push(fb[src]);
        i += 1;
    }
    proof {
        assert(r@ =~= spec_flipped(fb@));
    }
    r
}

} // verus!
