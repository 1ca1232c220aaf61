//! Verified helpers on character sequences: splitting on a separator and
//! trimming surrounding blanks.

use vstd::prelude::*;

verus! {

/// The blank characters stripped from line ends: the ASCII whitespace set.
pub open spec fn spec_is_blank(c: char) -> bool {
    c == ' ' || c == '\t' || c == '\n' || c == '\r' || c == '\u{b}' || c == '\u{c}'
}

pub fn is_blank(c: char) -> (r: bool)
    ensures
        r == spec_is_blank(c),
{
    c == ' ' || c == '\t' || c == '\n' || c == '\r' || c == '\u{b}' || c == '\u{c}'
}

/// Whether two pieces of text hold the same characters.
pub(crate) fn str_is(a: &str, b: &str) -> (r: bool)
    ensures
        r == (a@ == b@),
{
    let sa = String::from_str(a);
    let sb = String::from_str(b);
    sa.eq(&sb)
}

/// Splitting on a separator: every part between two separators is kept,
/// empty parts included, so the result holds one part more than the text
/// holds separators.
pub open spec fn spec_split(s: Seq<char>, sep: char) -> Seq<Seq<char>>
    decreases s.len(),
{
    if s.len() == 0 {
        seq![Seq::<char>::empty()]
    } else if s[0] == sep {
        seq![Seq::<char>::empty()] + spec_split(s.drop_first(), sep)
    } else {
        let rest = spec_split(s.drop_first(), sep);
        seq![seq![s[0]] + rest[0]] + rest.drop_first()
    }
}

/// A split has at least one part, even of empty text.
pub proof fn lemma_split_len(s: Seq<char>, sep: char)
    ensures
        spec_split(s, sep).len() >= 1,
    decreases s.len(),
{
    if s.len() != 0 {
        lemma_split_len(s.drop_first(), sep);
    }
}

/// A text without the separator is one single part.
proof fn lemma_split_whole(s: Seq<char>, sep: char)
    requires
        forall|i: int| 0 <= i < s.len() ==> s[i] != sep,
    ensures
        spec_split(s, sep) =~~= seq![s],
    decreases s.len(),
{
    if s.len() != 0 {
        lemma_split_whole(s.drop_first(), sep);
        assert(seq![s[0]] + s.drop_first() =~= s);
    }
}

/// The part before the first separator is split off whole.
proof fn lemma_split_step(head: Seq<char>, tail: Seq<char>, sep: char)
    requires
        forall|i: int| 0 <= i < head.len() ==> head[i] != sep,
    ensures
        spec_split(head + seq![sep] + tail, sep) =~~= seq![head] + spec_split(tail, sep),
    decreases head.len(),
{
    let s = head + seq![sep] + tail;
    if head.len() == 0 {
        assert(s =~= seq![sep] + tail);
        assert(s[0] == sep);
        assert(s.drop_first() =~= tail);
    } else {
        lemma_split_step(head.drop_first(), tail, sep);
        assert(s[0] == head[0]);
        assert(s[0] != sep);
        assert(s.drop_first() =~= head.drop_first() + seq![sep] + tail);
        let rest = spec_split(s.drop_first(), sep);
        assert(rest =~~= seq![head.drop_first()] + spec_split(tail, sep));
        assert(seq![s[0]] + rest[0] =~= head);
        assert(rest.drop_first() =~= spec_split(tail, sep));
    }
}

/// Splits `s` at every occurrence of `sep`, keeping empty parts.
pub fn split_on(s: &str, sep: char) -> (r: Vec<String>)
    ensures
        r.deep_view() =~~= spec_split(s@, sep),
{
    let len = s.unicode_len();
    proof {
        assert(s@.subrange(0, len as int) =~= s@);
    }
    let mut parts: Vec<String> = Vec::new();
    let mut part_start: usize = 0;
    let mut i: usize = 0;
    while i < len
        invariant
            len == s@.len(),
            part_start <= i <= len,
            forall|j: int| part_start <= j < i ==> s@[j] != sep,
            spec_split(s@, sep) =~~= parts.deep_view() + spec_split(
                s@.subrange(part_start as int, len as int),
                sep,
            ),
        decreases len - i,
    {
        if s.get_char(i) == sep {
            let part = s.substring_char(part_start, i);
            proof {
                let head = s@.subrange(part_start as int, i as int);
                let tail = s@.subrange(i + 1, len as int);
                assert(s@.subrange(part_start as int, len as int) =~= head + seq![sep] + tail);
                lemma_split_step(head, tail, sep);
            }
            parts.push(String::from_str(part));
            part_start = i + 1;
        }
        i += 1;
    }
    let last = s.substring_char(part_start, len);
    proof {
        lemma_split_whole(s@.subrange(part_start as int, len as int), sep);
    }
    parts.push(String::from_str(last));
    parts
}

/// Trimming from the front: blanks are dropped while they lead.
pub open spec fn spec_trim_start(s: Seq<char>) -> Seq<char>
    decreases s.len(),
{
    if s.len() > 0 && spec_is_blank(s[0]) {
        spec_trim_start(s.drop_first())
    } else {
        s
    }
}

/// Trimming from the back: blanks are dropped while they trail.
pub open spec fn spec_trim_end(s: Seq<char>) -> Seq<char>
    decreases s.len(),
{
    if s.len() > 0 && spec_is_blank(s.last()) {
        spec_trim_end(s.drop_last())
    } else {
        s
    }
}

/// A line stripped of leading and trailing blanks.
pub open spec fn spec_trim(s: Seq<char>) -> Seq<char> {
    spec_trim_end(spec_trim_start(s))
}

/// Returns `s` without leading and trailing blanks.
pub fn trim(s: &str) -> (r: String)
    ensures
        r@ == spec_trim(s@),
{
    let len = s.unicode_len();
    proof {
        assert(s@.subrange(0, len as int) =~= s@);
    }
    let mut start: usize = 0;
    while start < len && is_blank(s.get_char(start))
        invariant
            len == s@.len(),
            start <= len,
            spec_trim_start(s@) == spec_trim_start(s@.subrange(start as int, len as int)),
        decreases len - start,
    {
        proof {
            assert(s@.subrange(start as int, len as int).drop_first() =~= s@.subrange(
                start + 1,
                len as int,
            ));
        }
        start += 1;
    }
    proof {
        if start < len {
            assert(spec_trim_start(s@) == s@.subrange(start as int, len as int));
        } else {
            assert(s@.subrange(start as int, len as int).len() == 0);
            assert(spec_trim_start(s@) == s@.subrange(start as int, len as int));
        }
    }
    let mut end: usize = len;
    while end > start && is_blank(s.get_char(end - 1))
        invariant
            len == s@.len(),
            start <= end <= len,
            spec_trim_end(spec_trim_start(s@)) == spec_trim_end(
                s@.subrange(start as int, end as int),
            ),
        decreases end,
    {
        proof {
            assert(s@.subrange(start as int, end as int).drop_last() =~= s@.subrange(
                start as int,
                end - 1,
            ));
        }
        end -= 1;
    }
    proof {
        if end > start {
            assert(spec_trim_end(s@.subrange(start as int, end as int)) == s@.subrange(
                start as int,
                end as int,
            ));
        } else {
            assert(s@.subrange(start as int, end as int).len() == 0);
        }
    }
    let r = s.substring_char(start, end);
    String::from_str(r)
}

} // verus!
