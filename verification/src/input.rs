//! Parsing of the delimiter-separated gauge input text.
//!
//! A semicolon splits the value section from the title section; commas
//! split channels within each section.  Each value token is taken apart
//! into leading text, a numeric run and trailing text.  A token without a
//! numeric run is dropped silently: lenient parsing is the policy here,
//! not validation.

use vstd::prelude::*;
use crate::number::{
    parse_token, spec_num_len, spec_num_start, spec_token_frac, spec_token_int, spec_token_neg,
    Decimal,
};
use crate::strutil::{lemma_split_len, spec_split, split_on};

verus! {

/// A token that yields a channel: one holding a numeric run.
pub open spec fn spec_is_channel_token(t: Seq<char>) -> bool {
    spec_num_start(t) is Some
}

/// The value tokens that survive the silent drop, in input order.
pub open spec fn spec_channel_tokens(toks: Seq<Seq<char>>) -> Seq<Seq<char>> {
    toks.filter(|t: Seq<char>| spec_is_channel_token(t))
}

/// How one kept token decomposes into a channel: the text before the
/// numeric run, the parsed value in canonical form, the text after it.
pub open spec fn spec_channel_matches(
    tok: Seq<char>,
    pre: Seq<char>,
    d: Decimal,
    post: Seq<char>,
) -> bool {
    let start = spec_num_start(tok)->0 as int;
    let run = tok.skip(start);
    &&& pre == tok.take(start)
    &&& post == tok.skip(start + spec_num_len(run))
    &&& d.neg == spec_token_neg(run)
    &&& d.int_part@ == spec_token_int(run)
    &&& d.frac_part@ == spec_token_frac(run)
}

/// Structured gauge input: parallel channel lists plus titles.
pub struct Input {
    pub values: Vec<Decimal>,
    pub prefixes: Vec<String>,
    pub postfixes: Vec<String>,
    pub titles: Vec<String>,
    pub time: bool,
    pub overlay: String,
}

impl Input {
    /// The channel lists run in parallel; titles are independent and may
    /// be shorter.  Every kept value is well formed.
    pub open spec fn wf(self) -> bool {
        &&& self.values.len() == self.prefixes.len()
        &&& self.values.len() == self.postfixes.len()
        &&& forall|i: int| 0 <= i < self.values.len() ==> (#[trigger] self.values@[i]).wf()
    }

    /// Parses the delimiter-separated text into channels and titles.
    pub fn new(string: &str, time: bool) -> (r: Input)
        ensures
            r.wf(),
            r.time == time,
            r.overlay@.len() == 0,
            ({
                let lines = spec_split(string@, ';');
                let kept = spec_channel_tokens(spec_split(lines[0], ','));
                &&& r.values.len() == kept.len()
                &&& forall|j: int|
                    0 <= j < kept.len() ==> spec_channel_matches(
                        #[trigger] kept[j],
                        r.prefixes@[j]@,
                        r.values@[j],
                        r.postfixes@[j]@,
                    )
                &&& (lines.len() >= 2 ==> r.titles.deep_view() =~~= spec_split(lines[1], ','))
                &&& (lines.len() < 2 ==> r.titles@.len() == 0)
            }),
    {
        let lines = split_on(string, ';');
        proof {
            lemma_split_len(string@, ';');
            assert(lines.deep_view()[0] == lines@[0]@);
        }
        let tokens = split_on(lines[0].as_str(), ',');
        let ghost toks = spec_split(spec_split(string@, ';')[0], ',');
        proof {
            assert(tokens.deep_view() =~~= toks);
        }
        let mut values: Vec<Decimal> = Vec::new();
        let mut prefixes: Vec<String> = Vec::new();
        let mut postfixes: Vec<String> = Vec::new();
        let mut i: usize = 0;
        proof {
            assert(toks.take(0) =~= Seq::<Seq<char>>::empty());
            reveal(Seq::filter);
        }
        while i < tokens.len()
            invariant
                tokens.deep_view() =~~= toks,
                i <= tokens.len(),
                values.len() == prefixes.len(),
                values.len() == postfixes.len(),
                values.len() == spec_channel_tokens(toks.take(i as int)).len(),
                forall|j: int| 0 <= j < values.len() ==> (#[trigger] values@[j]).wf(),
                forall|j: int|
                    0 <= j < values.len() ==> spec_channel_matches(
                        #[trigger] spec_channel_tokens(toks.take(i as int))[j],
                        prefixes@[j]@,
                        values@[j],
                        postfixes@[j]@,
                    ),
            decreases tokens.len() - i,
        {
            let ghost prev_kept = spec_channel_tokens(toks.take(i as int));
            proof {
                reveal(Seq::filter);
                assert(toks.take(i + 1).drop_last() =~= toks.take(i as int));
                assert(toks.take(i + 1).last() == toks[i as int]);
                assert(tokens.deep_view()[i as int] == tokens@[i as int]@);
            }
            match parse_token(tokens[i].as_str()) {
                Some((pre, d, post)) => {
                    proof {
                        assert(spec_is_channel_token(toks[i as int]));
                        assert(spec_channel_tokens(toks.take(i + 1)) =~~= prev_kept.push(
                            toks[i as int],
                        ));
                    }
                    prefixes.push(pre);
                    values.push(d);
                    postfixes.push(post);
                },
                None => {
                    proof {
                        assert(!spec_is_channel_token(toks[i as int]));
                        assert(spec_channel_tokens(toks.take(i + 1)) =~~= prev_kept);
                    }
                },
            }
            i += 1;
        }
        proof {
            assert(toks.take(tokens.len() as int) =~= toks);
        }
        let titles = if lines.len() >= 2 {
            proof {
                assert(lines.deep_view()[1] == lines@[1]@);
            }
            split_on(lines[1].as_str(), ',')
        } else {
            Vec::new()
        };
        Input { values, prefixes, postfixes, titles, time, overlay: String::new() }
    }

    /// The display string of channel `index`: leading text, the value in
    /// its canonical form, trailing text.  An absent channel gives the
    /// empty string.
    pub fn get_string_at(&self, index: usize) -> (r: String)
        requires
            self.wf(),
        ensures
            index < self.values.len() ==> r@ == self.prefixes@[index as int]@
                + self.values@[index as int].spec_display() + self.postfixes@[index as int]@,
            index >= self.values.len() ==> r@.len() == 0,
    {
        if index < self.values.len() {
            let mut r = String::new();
            r.append(self.prefixes[index].as_str());
            let shown = self.values[index].display();
            r.append(shown.as_str());
            r.append(self.postfixes[index].as_str());
            r
        } else {
            String::new()
        }
    }

    /// The title of channel `index`, or the empty string when the title
    /// section holds none for it.
    pub fn get_title_at(&self, index: usize) -> (r: String)
        ensures
            index < self.titles.len() ==> r@ == self.titles@[index as int]@,
            index >= self.titles.len() ==> r@.len() == 0,
    {
        if index < self.titles.len() {
            self.titles[index].clone()
        } else {
            String::new()
        }
    }
}

} // verus!
