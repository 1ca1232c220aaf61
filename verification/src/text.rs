//! Truncation of display text by user-perceived characters.
//!
//! The display is narrow: value and title strings are cut to a handful of
//! grapheme clusters, counted as the user perceives them, not as bytes or
//! code points.

use vstd::prelude::*;
use unicode_segmentation::UnicodeSegmentation;

verus! {

broadcast use vstd::prelude::Seq::lemma_flatten_push;

/// The grapheme clusters of a string under Unicode extended grapheme
/// segmentation.  The clustering depends on the characters alone.
pub uninterp spec fn spec_graphemes(s: Seq<char>) -> Seq<Seq<char>>;

/// Relies on unicode_segmentation's UnicodeSegmentation::graphemes with
/// extended clusters: the clusters partition the string into nonempty
/// pieces whose concatenation is the string itself, and they are
/// prefix-stable — the segmentation rules read left to right, so a
/// concatenation of leading whole clusters segments back to exactly
/// those clusters.
#[verifier::external_body]
fn grapheme_clusters(s: &str) -> (r: Vec<String>)
    ensures
        r.deep_view() == spec_graphemes(s@),
        r.deep_view().flatten() == s@,
        forall|i: int| 0 <= i < r.deep_view().len() ==> r.deep_view()[i].len() > 0,
        forall|k: int|
            0 <= k <= r.deep_view().len() ==> spec_graphemes(
                (#[trigger] r.deep_view().take(k)).flatten(),
            ) == r.deep_view().take(k),
{
    s.graphemes(true).map(|g| g.to_owned()).collect()
}

/// Nonempty parts number at most as many as the characters they carry.
proof fn lemma_parts_count(ss: Seq<Seq<char>>)
    requires
        forall|i: int| 0 <= i < ss.len() ==> ss[i].len() > 0,
    ensures
        ss.len() <= ss.flatten().len(),
    decreases ss.len(),
{
    if ss.len() > 0 {
        assert(ss.flatten() == ss.first() + ss.drop_first().flatten());
        lemma_parts_count(ss.drop_first());
    }
}

/// How many grapheme clusters the string holds: never more than its
/// character count.
pub fn grapheme_count(s: &str) -> (r: usize)
    ensures
        r == spec_graphemes(s@).len(),
        r <= s@.len(),
{
    let gr = grapheme_clusters(s);
    proof {
        lemma_parts_count(gr.deep_view());
    }
    gr.len()
}

/// What truncation yields: the string itself when it holds at most
/// `limit` clusters, else its first `limit` clusters run together.
pub open spec fn spec_truncate(s: Seq<char>, limit: nat) -> Seq<char> {
    if spec_graphemes(s).len() <= limit {
        s
    } else {
        spec_graphemes(s).take(limit as int).flatten()
    }
}

/// Cuts a string to at most `len` grapheme clusters.
///
/// The truncation law: for a string of `g` clusters the output consists
/// of exactly the first `min(g, len)` clusters run together, so it holds
/// exactly `min(g, len)` clusters of its own; nothing is cut when the
/// string already fits, and truncating the result again changes nothing.
pub fn truncate(string: &str, len: usize) -> (r: String)
    ensures
        r@ == spec_truncate(string@, len as nat),
        r@ == spec_graphemes(string@).take(
            vstd::math::min(spec_graphemes(string@).len() as int, len as int),
        ).flatten(),
        spec_graphemes(r@) == spec_graphemes(string@).take(
            vstd::math::min(spec_graphemes(string@).len() as int, len as int),
        ),
        spec_graphemes(r@).len() == vstd::math::min(
            spec_graphemes(string@).len() as int,
            len as int,
        ),
        spec_truncate(r@, len as nat) == r@,
{
    let gr = grapheme_clusters(string);
    if gr.len() > len {
        let mut r = String::new();
        let mut i: usize = 0;
        while i < len
            invariant
                len < gr.len(),
                gr.deep_view() == spec_graphemes(string@),
                i <= len,
                r@ == spec_graphemes(string@).take(i as int).flatten(),
            decreases len - i,
        {
            proof {
                assert(gr.deep_view()[i as int] == gr@[i as int]@);
                assert(spec_graphemes(string@).take(i + 1) =~= spec_graphemes(string@).take(
                    i as int,
                ).push(spec_graphemes(string@)[i as int]));
            }
            r.append(gr[i].as_str());
            i += 1;
        }
        proof {
            let g = spec_graphemes(string@);
            assert(spec_graphemes(g.take(len as int).flatten()) == g.take(len as int));
        }
        r
    } else {
        proof {
            let g = spec_graphemes(string@);
            assert(g.take(g.len() as int) =~= g);
            assert(spec_graphemes(g.take(g.len() as int).flatten()) == g.take(g.len() as int));
        }
        String::from_str(string)
    }
}

} // verus!
