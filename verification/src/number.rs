//! The numeric value of a gauge channel.
//!
//! A value arrives inside free text, as an optional minus sign, digits, and
//! an optional fractional part.  It is kept exactly, as sign plus decimal
//! digit strings in canonical form, so that both its display form and the
//! clamping the gauge applies are precise.

use vstd::prelude::*;

verus! {

/// A decimal digit.
pub open spec fn spec_is_digit(c: char) -> bool {
    '0' <= c && c <= '9'
}

pub fn is_digit(c: char) -> (r: bool)
    ensures
        r == spec_is_digit(c),
{
    '0' <= c && c <= '9'
}

/// The value of one digit.
pub open spec fn spec_digit_val(c: char) -> int {
    c as int - '0' as int
}

pub open spec fn spec_all_digits(s: Seq<char>) -> bool {
    forall|i: int| 0 <= i < s.len() ==> spec_is_digit(#[trigger] s[i])
}

/// The value of a digit string, most significant digit first.
pub open spec fn spec_digits_val(s: Seq<char>) -> int
    decreases s.len(),
{
    if s.len() == 0 {
        0
    } else {
        spec_digits_val(s.drop_last()) * 10 + spec_digit_val(s.last())
    }
}

pub open spec fn spec_pow10(n: nat) -> int
    decreases n,
{
    if n == 0 {
        1
    } else {
        10 * spec_pow10((n - 1) as nat)
    }
}

pub proof fn lemma_pow10_pos(n: nat)
    ensures
        spec_pow10(n) >= 1,
    decreases n,
{
    if n > 0 {
        lemma_pow10_pos((n - 1) as nat);
    }
}

/// A digit string of length n has a value below 10^n.
pub proof fn lemma_digits_val_bounds(s: Seq<char>)
    requires
        spec_all_digits(s),
    ensures
        0 <= spec_digits_val(s) < spec_pow10(s.len()),
    decreases s.len(),
{
    if s.len() == 0 {
    } else {
        lemma_digits_val_bounds(s.drop_last());
        lemma_pow10_pos((s.len() - 1) as nat);
    }
}

/// A digit string whose last digit is not zero has a positive value.
proof fn lemma_digits_val_pos(s: Seq<char>)
    requires
        spec_all_digits(s),
        s.len() > 0,
        s.last() != '0',
    ensures
        spec_digits_val(s) >= 1,
{
    lemma_digits_val_bounds(s.drop_last());
}

/// A parsed numeric value: sign, integer digits, fraction digits.
///
/// Canonical form: the integer part has no leading zero unless it is the
/// single digit zero, and the fraction has no trailing zero and may be
/// empty.
pub struct Decimal {
    pub neg: bool,
    pub int_part: String,
    pub frac_part: String,
}

impl Decimal {
    pub open spec fn wf(self) -> bool {
        &&& self.int_part@.len() >= 1
        &&& spec_all_digits(self.int_part@)
        &&& spec_all_digits(self.frac_part@)
        &&& (self.int_part@[0] == '0' ==> self.int_part@.len() == 1)
        &&& (self.frac_part@.len() > 0 ==> self.frac_part@.last() != '0')
    }

    /// The value as an exact fraction: this numerator over `spec_den`.
    pub open spec fn spec_num(self) -> int {
        let mag = spec_digits_val(self.int_part@) * spec_pow10(self.frac_part@.len())
            + spec_digits_val(self.frac_part@);
        if self.neg {
            -mag
        } else {
            mag
        }
    }

    pub open spec fn spec_den(self) -> int {
        spec_pow10(self.frac_part@.len())
    }

    /// The display form: sign, integer digits, and the fraction after a
    /// point when there is one.
    pub open spec fn spec_display(self) -> Seq<char> {
        (if self.neg {
            seq!['-']
        } else {
            Seq::<char>::empty()
        }) + self.int_part@ + (if self.frac_part@.len() > 0 {
            seq!['.'] + self.frac_part@
        } else {
            Seq::<char>::empty()
        })
    }

    pub fn display(&self) -> (r: String)
        ensures
            r@ == self.spec_display(),
    {
        let mut r = if self.neg {
            let m = String::from_str("-");
            proof {
                reveal_strlit("-");
                assert(m@ =~= seq!['-']);
            }
            m
        } else {
            String::new()
        };
        r.append(self.int_part.as_str());
        if !self.frac_part.as_str().is_empty() {
            let dot = String::from_str(".");
            proof {
                reveal_strlit(".");
                assert(dot@ =~= seq!['.']);
            }
            r.append(dot.as_str());
            r.append(self.frac_part.as_str());
        }
        proof {
            assert(r@ =~= self.spec_display());
        }
        r
    }
}

/// Splitting a digit string splits its value by the weight of the tail.
pub proof fn lemma_digits_val_concat(a: Seq<char>, b: Seq<char>)
    ensures
        spec_digits_val(a + b) == spec_digits_val(a) * spec_pow10(b.len()) + spec_digits_val(b),
    decreases b.len(),
{
    if b.len() == 0 {
        assert(a + b =~= a);
    } else {
        lemma_digits_val_concat(a, b.drop_last());
        assert((a + b).drop_last() =~= a + b.drop_last());
        assert((a + b).last() == b.last());
        let va = spec_digits_val(a);
        let p = spec_pow10((b.len() - 1) as nat);
        assert((va * p) * 10 == va * (10 * p)) by (nonlinear_arith);
        assert(spec_pow10(b.len()) == 10 * p);
    }
}

/// Leading zeros carry no value: stripping them changes nothing, keeps
/// every character a digit, and leaves no leading zero except the single
/// digit zero.
pub proof fn lemma_strip_leading_zeros_value(s: Seq<char>)
    requires
        spec_all_digits(s),
        s.len() >= 1,
    ensures
        spec_digits_val(spec_strip_leading_zeros(s)) == spec_digits_val(s),
        spec_strip_leading_zeros(s).len() >= 1,
        spec_all_digits(spec_strip_leading_zeros(s)),
        spec_strip_leading_zeros(s)[0] == '0' ==> spec_strip_leading_zeros(s).len() == 1,
    decreases s.len(),
{
    if s.len() > 1 && s[0] == '0' {
        assert(forall|i: int|
            0 <= i < s.drop_first().len() ==> #[trigger] s.drop_first()[i] == s[i + 1]);
        assert(spec_all_digits(s.drop_first()));
        assert(s =~= seq![s[0]] + s.drop_first());
        lemma_digits_val_concat(seq![s[0]], s.drop_first());
        assert(seq![s[0]].drop_last() =~= Seq::<char>::empty());
        assert(spec_digits_val(Seq::<char>::empty()) == 0);
        assert(spec_digits_val(seq![s[0]]) == spec_digits_val(seq![s[0]].drop_last()) * 10
            + spec_digit_val(seq![s[0]].last()));
        assert(spec_digits_val(seq![s[0]]) == 0);
        lemma_strip_leading_zeros_value(s.drop_first());
        assert(spec_strip_leading_zeros(s) == spec_strip_leading_zeros(s.drop_first()));
        assert(spec_digits_val(s) == spec_digits_val(seq![s[0]] + s.drop_first()));
        assert(spec_digits_val(seq![s[0]] + s.drop_first()) == spec_digits_val(seq![s[0]])
            * spec_pow10(s.drop_first().len()) + spec_digits_val(s.drop_first()));
        assert(spec_digits_val(seq![s[0]]) * spec_pow10(s.drop_first().len()) == 0)
            by (nonlinear_arith)
            requires
                spec_digits_val(seq![s[0]]) == 0,
        ;
        assert(spec_digits_val(s) == spec_digits_val(s.drop_first()));
    }
}

/// Trailing zeros in a fraction carry no value: the stripped digits at
/// their shrunken scale spell the same fraction, the remaining characters
/// are digits, and none trails as zero.
pub proof fn lemma_strip_trailing_zeros_value(s: Seq<char>)
    requires
        spec_all_digits(s),
    ensures
        spec_digits_val(spec_strip_trailing_zeros(s)) * spec_pow10(
            (s.len() - spec_strip_trailing_zeros(s).len()) as nat,
        ) == spec_digits_val(s),
        spec_strip_trailing_zeros(s).len() <= s.len(),
        spec_all_digits(spec_strip_trailing_zeros(s)),
        spec_strip_trailing_zeros(s).len() > 0 ==> spec_strip_trailing_zeros(s).last() != '0',
    decreases s.len(),
{
    let t = spec_strip_trailing_zeros(s);
    if s.len() > 0 && s.last() == '0' {
        lemma_strip_trailing_zeros_value(s.drop_last());
        let vt = spec_digits_val(t);
        let k = (s.len() - 1 - t.len()) as nat;
        assert(vt * spec_pow10(k) == spec_digits_val(s.drop_last()));
        assert(spec_digits_val(s) == spec_digits_val(s.drop_last()) * 10);
        assert((vt * spec_pow10(k)) * 10 == vt * (10 * spec_pow10(k))) by (nonlinear_arith);
        assert(spec_pow10((s.len() - t.len()) as nat) == 10 * spec_pow10(k));
    } else {
        assert(spec_pow10(0) == 1);
    }
}

/// The value of a digit string is at least its first digit times the
/// weight of its position.
proof fn lemma_digits_val_lower(s: Seq<char>)
    requires
        spec_all_digits(s),
        s.len() >= 1,
    ensures
        spec_digits_val(s) >= spec_digit_val(s[0]) * spec_pow10((s.len() - 1) as nat),
    decreases s.len(),
{
    if s.len() == 1 {
        assert(spec_digits_val(s) == spec_digits_val(s.drop_last()) * 10 + spec_digit_val(
            s.last(),
        ));
        assert(spec_digits_val(s.drop_last()) == 0);
    } else {
        lemma_digits_val_lower(s.drop_last());
        assert(s.drop_last()[0] == s[0]);
        lemma_digits_val_bounds(s.drop_last());
        let d0 = spec_digit_val(s[0]);
        let p = spec_pow10((s.len() - 2) as nat);
        assert(spec_digits_val(s.drop_last()) >= d0 * p);
        assert(spec_digits_val(s) >= (d0 * p) * 10 + spec_digit_val(s.last())) by (nonlinear_arith)
            requires
                spec_digits_val(s) == spec_digits_val(s.drop_last()) * 10 + spec_digit_val(
                    s.last(),
                ),
                spec_digits_val(s.drop_last()) >= d0 * p,
        ;
        assert((d0 * p) * 10 == d0 * (10 * p)) by (nonlinear_arith);
        assert(spec_pow10((s.len() - 1) as nat) == 10 * p);
        assert(spec_digit_val(s.last()) >= 0);
    }
}

proof fn lemma_pow10_at_least(n: nat, m: nat)
    requires
        n >= m,
    ensures
        spec_pow10(n) >= spec_pow10(m),
    decreases n,
{
    if n > m {
        lemma_pow10_at_least((n - 1) as nat, m);
        lemma_pow10_pos((n - 1) as nat);
    }
}

fn zero_decimal() -> (r: Decimal)
    ensures
        r.wf(),
        !r.neg,
        r.spec_num() == 0,
        r.spec_den() == 1,
        r.spec_display() =~= seq!['0'],
{
    let r = Decimal { neg: false, int_part: String::from_str("0"), frac_part: String::new() };
    proof {
        reveal_strlit("0");
        assert(r.int_part@ =~= seq!['0']);
        reveal_with_fuel(spec_digits_val, 2);
        assert(seq!['0'].drop_last() =~= Seq::<char>::empty());
        assert(spec_digits_val(seq!['0']) == 0);
    }
    r
}

fn hundred_decimal() -> (r: Decimal)
    ensures
        r.wf(),
        !r.neg,
        r.spec_den() == 1,
        r.spec_num() == 100,
        r.spec_display() =~= seq!['1', '0', '0'],
{
    let r = Decimal { neg: false, int_part: String::from_str("100"), frac_part: String::new() };
    proof {
        reveal_strlit("100");
        let s = r.int_part@;
        assert(s.len() == 3);
        assert(s[0] == '1' && s[1] == '0' && s[2] == '0');
        assert(s =~= seq!['1', '0', '0']);
        reveal_with_fuel(spec_digits_val, 4);
        assert(seq!['1', '0', '0'].drop_last() =~= seq!['1', '0']);
        assert(seq!['1', '0'].drop_last() =~= seq!['1']);
        assert(seq!['1'].drop_last() =~= Seq::<char>::empty());
        assert(spec_digits_val(seq!['1', '0', '0']) == 100);
    }
    r
}

/// The numeric value of a short digit string, read directly.
fn small_digits_val(s: &str) -> (r: u32)
    requires
        spec_all_digits(s@),
        s@.len() <= 3,
    ensures
        r == spec_digits_val(s@),
{
    let len = s.unicode_len();
    let mut v: u32 = 0;
    let mut k: usize = 0;
    proof {
        assert(s@.subrange(0, 0) =~= Seq::<char>::empty());
        lemma_digits_val_bounds(s@.subrange(0, 0));
    }
    while k < len
        invariant
            len == s@.len() <= 3,
            k <= len,
            spec_all_digits(s@),
            v == spec_digits_val(s@.subrange(0, k as int)),
            v < 1000,
        decreases len - k,
    {
        let c = s.get_char(k);
        proof {
            let cur = s@.subrange(0, k + 1);
            assert(cur.drop_last() =~= s@.subrange(0, k as int));
            assert(cur.last() == s@[k as int]);
            lemma_digits_val_bounds(cur);
            lemma_pow10_at_least(3, cur.len());
            reveal_with_fuel(spec_pow10, 4);
            assert(spec_pow10(3) == 1000);
        }
        v = v * 10 + (c as u32 - 48);
        k += 1;
    }
    proof {
        assert(s@.subrange(0, len as int) =~= s@);
    }
    v
}

impl Decimal {
    fn duplicate(&self) -> (r: Decimal)
        ensures
            r == *self,
    {
        Decimal {
            neg: self.neg,
            int_part: self.int_part.clone(),
            frac_part: self.frac_part.clone(),
        }
    }

    /// The display form of the value pinned into [0, 100]: what the gauge
    /// geometry is computed from.
    pub open spec fn spec_clamp_display(self) -> Seq<char> {
        if self.spec_num() < 0 {
            seq!['0']
        } else if self.spec_num() > 100 * self.spec_den() {
            seq!['1', '0', '0']
        } else {
            self.spec_display()
        }
    }

    /// The value pinned into the gauge range [0, 100].
    ///
    /// A value already in range passes through unchanged; a negative value
    /// becomes zero and a value above one hundred becomes one hundred.
    pub fn clamp_hundred(&self) -> (r: Decimal)
        requires
            self.wf(),
        ensures
            r.wf(),
            0 <= r.spec_num(),
            r.spec_num() <= 100 * r.spec_den(),
            self.spec_num() < 0 ==> r.spec_num() == 0,
            self.spec_num() > 100 * self.spec_den() ==> r.spec_num() == 100 * r.spec_den(),
            0 <= self.spec_num() && self.spec_num() <= 100 * self.spec_den() ==> r == *self,
            r.spec_display() == self.spec_clamp_display(),
    {
        proof {
            lemma_pow10_pos(self.frac_part@.len());
            if self.frac_part@.len() > 0 {
                lemma_digits_val_pos(self.frac_part@);
            }
            lemma_digits_val_bounds(self.frac_part@);
            lemma_digits_val_bounds(self.int_part@);
        }
        let int_len = self.int_part.as_str().unicode_len();
        let frac_empty = self.frac_part.as_str().is_empty();
        let ghost iv = spec_digits_val(self.int_part@);
        let ghost fv = spec_digits_val(self.frac_part@);
        let ghost den = self.spec_den();
        if self.neg {
            if int_len == 1 && self.int_part.as_str().get_char(0) == '0' && frac_empty {
                // negative zero: already in range, kept as it stands
                proof {
                    assert(self.int_part@ =~= seq!['0']);
                    assert(self.int_part@.drop_last() =~= Seq::<char>::empty());
                    assert(iv == 0);
                }
                self.duplicate()
            } else {
                proof {
                    if int_len == 1 && self.int_part@[0] == '0' {
                        assert(self.int_part@ =~= seq!['0']);
                        assert(self.int_part@.drop_last() =~= Seq::<char>::empty());
                        assert(iv == 0);
                        assert(!frac_empty);
                        assert(fv >= 1);
                    } else if int_len == 1 {
                        assert(iv >= 1) by {
                            lemma_digits_val_lower(self.int_part@);
                        }
                    } else {
                        assert(self.int_part@[0] != '0');
                        assert(spec_digit_val(self.int_part@[0]) >= 1);
                        lemma_digits_val_lower(self.int_part@);
                        lemma_pow10_pos((self.int_part@.len() - 1) as nat);
                        assert(iv >= 1) by (nonlinear_arith)
                            requires
                                iv >= spec_digit_val(self.int_part@[0]) * spec_pow10(
                                    (self.int_part@.len() - 1) as nat,
                                ),
                                spec_digit_val(self.int_part@[0]) >= 1,
                                spec_pow10((self.int_part@.len() - 1) as nat) >= 1,
                        ;
                    }
                    assert(iv * den + fv >= 1) by (nonlinear_arith)
                        requires
                            iv >= 0,
                            fv >= 0,
                            den >= 1,
                            iv >= 1 || fv >= 1,
                    ;
                    assert(self.spec_num() < 0);
                }
                zero_decimal()
            }
        } else if int_len > 3 {
            proof {
                assert(self.int_part@[0] != '0');
                assert(spec_digit_val(self.int_part@[0]) >= 1);
                lemma_digits_val_lower(self.int_part@);
                lemma_pow10_at_least((self.int_part@.len() - 1) as nat, 3);
                reveal_with_fuel(spec_pow10, 4);
                assert(spec_pow10(3) == 1000);
                assert(iv >= 1000) by (nonlinear_arith)
                    requires
                        iv >= spec_digit_val(self.int_part@[0]) * spec_pow10(
                            (self.int_part@.len() - 1) as nat,
                        ),
                        spec_digit_val(self.int_part@[0]) >= 1,
                        spec_pow10((self.int_part@.len() - 1) as nat) >= 1000,
                ;
                assert(iv * den + fv > 100 * den) by (nonlinear_arith)
                    requires
                        iv >= 1000,
                        fv >= 0,
                        den >= 1,
                ;
            }
            hundred_decimal()
        } else if int_len == 3 {
            let v = small_digits_val(self.int_part.as_str());
            if v > 100 {
                proof {
                    assert(iv * den + fv > 100 * den) by (nonlinear_arith)
                        requires
                            iv >= 101,
                            fv >= 0,
                            den >= 1,
                    ;
                }
                hundred_decimal()
            } else if v == 100 && !frac_empty {
                proof {
                    assert(fv >= 1);
                    assert(iv * den + fv > 100 * den) by (nonlinear_arith)
                        requires
                            iv == 100,
                            fv >= 1,
                            den >= 1,
                    ;
                }
                hundred_decimal()
            } else {
                proof {
                    if frac_empty {
                        assert(fv == 0);
                    }
                    assert(iv * den + fv <= 100 * den) by (nonlinear_arith)
                        requires
                            iv <= 100,
                            0 <= fv < den,
                            den >= 1,
                            iv == 100 ==> fv == 0,
                    ;
                }
                self.duplicate()
            }
        } else {
            proof {
                lemma_pow10_at_least(2, self.int_part@.len());
                assert(iv < spec_pow10(self.int_part@.len()));
                assert(iv <= 99) by {
                    lemma_pow10_at_least(2, self.int_part@.len());
                    reveal_with_fuel(spec_pow10, 3);
                    assert(spec_pow10(2) == 100);
                };
                assert(iv * den + fv <= 100 * den) by (nonlinear_arith)
                    requires
                        iv <= 99,
                        fv < den,
                        den >= 1,
                ;
            }
            self.duplicate()
        }
    }
}

/// The gauge ratio never escapes its band: a clamped value `c` in
/// `[0, 100]` gives a sweep ratio `c / 120` inside `[0, 5/6]`, so the
/// sweep angle `ratio * (pi/2)` never exceeds five twelfths of pi even at
/// the clamp ceiling.  Stated over the exact fraction: with the ratio
/// written as `num / (120 * den)`, six times the numerator stays within
/// five times the denominator.
pub proof fn lemma_gauge_ratio_bounded(c: Decimal)
    requires
        c.wf(),
        0 <= c.spec_num(),
        c.spec_num() <= 100 * c.spec_den(),
    ensures
        0 <= 6 * c.spec_num(),
        6 * c.spec_num() <= 5 * (120 * c.spec_den()),
{
}

/// Where the numeric run of a token begins: the first position holding a
/// digit, or a minus sign directly followed by a digit.  `None` when the
/// token holds no numeric run at all.
pub open spec fn spec_num_start(s: Seq<char>) -> Option<nat>
    decreases s.len(),
{
    if s.len() == 0 {
        None
    } else if spec_is_digit(s[0]) || (s[0] == '-' && s.len() > 1 && spec_is_digit(s[1])) {
        Some(0nat)
    } else {
        match spec_num_start(s.drop_first()) {
            Some(i) => Some((i + 1) as nat),
            None => None,
        }
    }
}

/// How many digits lead the sequence.
pub open spec fn spec_digit_run(s: Seq<char>) -> nat
    decreases s.len(),
{
    if s.len() > 0 && spec_is_digit(s[0]) {
        (1 + spec_digit_run(s.drop_first())) as nat
    } else {
        0
    }
}

/// The length of the numeric run at the head of the sequence: an optional
/// minus sign, digits, then an optional point with further digits.
pub open spec fn spec_num_len(s: Seq<char>) -> nat {
    let sign: nat = if s.len() > 0 && s[0] == '-' {
        1nat
    } else {
        0nat
    };
    let whole = sign + spec_digit_run(s.skip(sign as int));
    if whole < s.len() && s[whole as int] == '.' {
        (whole + 1 + spec_digit_run(s.skip(whole + 1 as int))) as nat
    } else {
        whole
    }
}

/// Integer digits with leading zeros dropped, down to a single digit.
pub open spec fn spec_strip_leading_zeros(s: Seq<char>) -> Seq<char>
    decreases s.len(),
{
    if s.len() > 1 && s[0] == '0' {
        spec_strip_leading_zeros(s.drop_first())
    } else {
        s
    }
}

/// Fraction digits with trailing zeros dropped, possibly to nothing.
pub open spec fn spec_strip_trailing_zeros(s: Seq<char>) -> Seq<char>
    decreases s.len(),
{
    if s.len() > 0 && s.last() == '0' {
        spec_strip_trailing_zeros(s.drop_last())
    } else {
        s
    }
}

/// The sign of the numeric run at the head of `tok`.
pub open spec fn spec_token_neg(tok: Seq<char>) -> bool {
    tok.len() > 0 && tok[0] == '-'
}

/// The raw integer digits of the numeric run heading `tok`, zeros kept.
pub open spec fn spec_token_raw_int(tok: Seq<char>) -> Seq<char> {
    let sign: int = if spec_token_neg(tok) {
        1
    } else {
        0
    };
    tok.subrange(sign, sign + spec_digit_run(tok.skip(sign)))
}

/// The raw fraction digits of the numeric run heading `tok`, zeros kept.
pub open spec fn spec_token_raw_frac(tok: Seq<char>) -> Seq<char> {
    let sign: int = if spec_token_neg(tok) {
        1
    } else {
        0
    };
    let whole = sign + spec_digit_run(tok.skip(sign));
    if whole < tok.len() && tok[whole] == '.' {
        tok.subrange(whole + 1, whole + 1 + spec_digit_run(tok.skip(whole + 1)))
    } else {
        Seq::<char>::empty()
    }
}

/// The canonical integer digits of the numeric run heading `tok`.
pub open spec fn spec_token_int(tok: Seq<char>) -> Seq<char> {
    spec_strip_leading_zeros(spec_token_raw_int(tok))
}

/// The canonical fraction digits of the numeric run heading `tok`.
pub open spec fn spec_token_frac(tok: Seq<char>) -> Seq<char> {
    if spec_token_raw_frac(tok).len() > 0 {
        spec_strip_trailing_zeros(spec_token_raw_frac(tok))
    } else {
        Seq::<char>::empty()
    }
}

/// The numeric value the raw digit runs of `tok` spell, as a fraction
/// over `spec_pow10(spec_token_raw_frac(tok).len())`.
pub open spec fn spec_token_raw_num(tok: Seq<char>) -> int {
    let mag = spec_digits_val(spec_token_raw_int(tok)) * spec_pow10(spec_token_raw_frac(tok).len())
        + spec_digits_val(spec_token_raw_frac(tok));
    if spec_token_neg(tok) {
        -mag
    } else {
        mag
    }
}

proof fn lemma_pow10_add(a: nat, b: nat)
    ensures
        spec_pow10(a + b) == spec_pow10(a) * spec_pow10(b),
    decreases a,
{
    if a == 0 {
    } else {
        lemma_pow10_add((a - 1) as nat, b);
        let p = spec_pow10((a - 1) as nat) * spec_pow10(b);
        assert(10 * p == (10 * spec_pow10((a - 1) as nat)) * spec_pow10(b)) by (nonlinear_arith)
            requires
                p == spec_pow10((a - 1) as nat) * spec_pow10(b),
        ;
    }
}

/// A digit run consists of digits and stays within the sequence.
proof fn lemma_digit_run_digits(s: Seq<char>)
    ensures
        spec_digit_run(s) <= s.len(),
        spec_all_digits(s.take(spec_digit_run(s) as int)),
    decreases s.len(),
{
    if s.len() > 0 && spec_is_digit(s[0]) {
        lemma_digit_run_digits(s.drop_first());
        let r = spec_digit_run(s) as int;
        let taken = s.take(r);
        let rest_taken = s.drop_first().take(spec_digit_run(s.drop_first()) as int);
        assert(forall|i: int|
            0 < i < taken.len() ==> #[trigger] taken[i] == rest_taken[i - 1]);
        assert(spec_all_digits(taken));
    }
}

/// Parsing preserves the numeric value: the canonical sign and digits of
/// a token spell exactly the fraction its raw digit runs spell, with the
/// two fractions compared cross-multiplied over their scales.
pub proof fn lemma_parse_preserves_value(tok: Seq<char>, d: Decimal)
    requires
        d.neg == spec_token_neg(tok),
        d.int_part@ == spec_token_int(tok),
        d.frac_part@ == spec_token_frac(tok),
    ensures
        d.spec_num() * spec_pow10(spec_token_raw_frac(tok).len()) == spec_token_raw_num(tok)
            * d.spec_den(),
{
    let ri = spec_token_raw_int(tok);
    let rf = spec_token_raw_frac(tok);
    let ci = d.int_part@;
    let cf = d.frac_part@;
    let sign: int = if spec_token_neg(tok) {
        1
    } else {
        0
    };
    // the raw runs are digit strings
    lemma_digit_run_digits(tok.skip(sign));
    assert(ri =~= tok.skip(sign).take(spec_digit_run(tok.skip(sign)) as int));
    assert(spec_all_digits(ri));
    let whole = sign + spec_digit_run(tok.skip(sign));
    if whole < tok.len() && tok[whole] == '.' {
        lemma_digit_run_digits(tok.skip(whole + 1));
        assert(rf =~= tok.skip(whole + 1).take(spec_digit_run(tok.skip(whole + 1)) as int));
    }
    assert(spec_all_digits(rf));
    // canonicalisation preserves both parts
    let ival = spec_digits_val(ri);
    if ri.len() >= 1 {
        lemma_strip_leading_zeros_value(ri);
    } else {
        assert(ci == ri);
    }
    assert(spec_digits_val(ci) == ival);
    let fval_c = spec_digits_val(cf);
    let fval_r = spec_digits_val(rf);
    let pk = spec_pow10((rf.len() - cf.len()) as nat);
    if rf.len() > 0 {
        lemma_strip_trailing_zeros_value(rf);
    } else {
        assert(cf == rf);
        assert(spec_pow10(0) == 1);
    }
    assert(fval_c * pk == fval_r);
    assert(cf.len() <= rf.len());
    // the two fractions agree once cross-multiplied
    let pcf = spec_pow10(cf.len());
    let prf = spec_pow10(rf.len());
    lemma_pow10_add((rf.len() - cf.len()) as nat, cf.len());
    assert(prf == pk * pcf);
    let mag_c = spec_digits_val(ci) * pcf + fval_c;
    let mag_r = ival * prf + fval_r;
    assert(mag_c * prf == mag_r * pcf) by (nonlinear_arith)
        requires
            mag_c == ival * pcf + fval_c,
            mag_r == ival * prf + fval_r,
            fval_r == fval_c * pk,
            prf == pk * pcf,
    ;
    if d.neg {
        assert((-mag_c) * prf == -(mag_c * prf)) by (nonlinear_arith);
        assert((-mag_r) * pcf == -(mag_r * pcf)) by (nonlinear_arith);
    }
}

/// Finds the first numeric-run start of `s`, under `spec_num_start`.
fn find_num_start(s: &str) -> (r: Option<usize>)
    ensures
        r is Some <==> spec_num_start(s@) is Some,
        r matches Some(i) ==> spec_num_start(s@) == Some(i as nat) && i < s@.len() && (spec_is_digit(
            s@[i as int],
        ) || (s@[i as int] == '-' && i + 1 < s@.len() && spec_is_digit(s@[i + 1]))),
{
    let len = s.unicode_len();
    proof {
        assert(s@.skip(0) =~= s@);
    }
    let mut i: usize = 0;
    while i < len
        invariant
            len == s@.len(),
            i <= len,
            spec_num_start(s@) == match spec_num_start(s@.skip(i as int)) {
                Some(j) => Some((j + i) as nat),
                None => None::<nat>,
            },
        decreases len - i,
    {
        let c = s.get_char(i);
        let here = if is_digit(c) {
            true
        } else if c == '-' && i + 1 < len {
            is_digit(s.get_char(i + 1))
        } else {
            false
        };
        proof {
            let suf = s@.skip(i as int);
            assert(suf[0] == s@[i as int]);
            if suf.len() > 1 {
                assert(suf[1] == s@[i + 1]);
            }
            assert(suf.drop_first() =~= s@.skip(i + 1));
        }
        if here {
            return Some(i);
        }
        i += 1;
    }
    proof {
        assert(s@.skip(len as int).len() == 0);
    }
    None
}

/// Counts the digits of `s` from `from` on, under `spec_digit_run`.
fn digit_run_from(s: &str, from: usize) -> (r: usize)
    requires
        from <= s@.len(),
    ensures
        r == spec_digit_run(s@.skip(from as int)),
        from + r <= s@.len(),
        spec_all_digits(s@.subrange(from as int, from + r)),
        from + r < s@.len() ==> !spec_is_digit(s@[from + r]),
{
    let len = s.unicode_len();
    let mut j: usize = from;
    while j < len && is_digit(s.get_char(j))
        invariant
            len == s@.len(),
            from <= j <= len,
            spec_all_digits(s@.subrange(from as int, j as int)),
            spec_digit_run(s@.skip(from as int)) == j - from + spec_digit_run(s@.skip(j as int)),
        decreases len - j,
    {
        proof {
            let suf = s@.skip(j as int);
            assert(suf[0] == s@[j as int]);
            assert(suf.drop_first() =~= s@.skip(j + 1));
            assert(s@.subrange(from as int, j + 1) =~= s@.subrange(from as int, j as int)
                + seq![s@[j as int]]);
        }
        j += 1;
    }
    proof {
        let suf = s@.skip(j as int);
        if j < len {
            assert(suf[0] == s@[j as int]);
        }
        assert(spec_digit_run(suf) == 0);
    }
    j - from
}

/// Extracts the first numeric run of a token.
///
/// A token that holds no such run yields nothing: it contributes no
/// channel, by design, rather than an error.  Otherwise the text before
/// the run, the parsed value in canonical form, and the text after the
/// run are returned.
#[verifier::rlimit(30)]
pub fn parse_token(s: &str) -> (r: Option<(String, Decimal, String)>)
    ensures
        r is Some <==> spec_num_start(s@) is Some,
        r matches Some((pre, d, post)) ==> {
            let start = spec_num_start(s@)->0 as int;
            let tok = s@.skip(start);
            let toklen = spec_num_len(tok) as int;
            &&& pre@ == s@.take(start)
            &&& post@ == s@.skip(start + toklen)
            &&& d.neg == spec_token_neg(tok)
            &&& d.int_part@ == spec_token_int(tok)
            &&& d.frac_part@ == spec_token_frac(tok)
            &&& d.wf()
        },
{
    let len = s.unicode_len();
    let start = match find_num_start(s) {
        Some(i) => i,
        None => {
            return None;
        },
    };
    let ghost tok = s@.skip(start as int);
    let neg = s.get_char(start) == '-';
    let sign_len: usize = if neg {
        1
    } else {
        0
    };
    let int_start = start + sign_len;
    proof {
        assert(tok[0] == s@[start as int]);
        if tok.len() > 1 {
            assert(tok[1] == s@[start + 1]);
        }
        assert(tok.skip(sign_len as int) =~= s@.skip(int_start as int));
    }
    let int_run = digit_run_from(s, int_start);
    let int_end = int_start + int_run;
    proof {
        assert(int_run >= 1) by {
            let suf = s@.skip(int_start as int);
            assert(suf[0] == s@[int_start as int]);
            assert(spec_is_digit(s@[int_start as int]));
            assert(spec_digit_run(suf) >= 1);
        }
    }
    // the optional fraction
    let has_frac = int_end < len && s.get_char(int_end) == '.';
    let frac_start = if has_frac {
        int_end + 1
    } else {
        int_end
    };
    let frac_run = if has_frac {
        proof {
            assert(s@.skip(frac_start as int) =~= tok.skip(frac_start - start));
        }
        digit_run_from(s, frac_start)
    } else {
        0
    };
    let num_end = frac_start + frac_run;
    proof {
        let sign: int = sign_len as int;
        assert(tok.skip(sign) =~= s@.skip(int_start as int));
        assert(spec_digit_run(tok.skip(sign)) == int_run);
        let whole = sign + int_run;
        assert(whole < tok.len() <==> int_end < len);
        if int_end < len {
            assert(tok[whole] == s@[int_end as int]);
        }
        if has_frac {
            assert(tok.skip(whole + 1) =~= s@.skip(frac_start as int));
            assert(spec_num_len(tok) == whole + 1 + frac_run);
        } else {
            assert(spec_num_len(tok) == whole);
        }
    }
    // canonical integer digits: drop leading zeros down to one digit
    let mut i0 = int_start;
    while i0 + 1 < int_end && s.get_char(i0) == '0'
        invariant
            int_start <= i0 < int_end,
            int_end <= s@.len(),
            spec_strip_leading_zeros(s@.subrange(int_start as int, int_end as int))
                == spec_strip_leading_zeros(s@.subrange(i0 as int, int_end as int)),
        decreases int_end - i0,
    {
        proof {
            let cur = s@.subrange(i0 as int, int_end as int);
            assert(cur[0] == s@[i0 as int]);
            assert(cur.drop_first() =~= s@.subrange(i0 + 1, int_end as int));
        }
        i0 += 1;
    }
    proof {
        let cur = s@.subrange(i0 as int, int_end as int);
        assert(cur[0] == s@[i0 as int]);
        assert(spec_strip_leading_zeros(cur) == cur);
    }
    // canonical fraction digits: drop trailing zeros
    let mut f1 = num_end;
    while f1 > frac_start && s.get_char(f1 - 1) == '0'
        invariant
            frac_start <= f1 <= num_end,
            num_end <= s@.len(),
            spec_strip_trailing_zeros(s@.subrange(frac_start as int, num_end as int))
                == spec_strip_trailing_zeros(s@.subrange(frac_start as int, f1 as int)),
        decreases f1,
    {
        proof {
            let cur = s@.subrange(frac_start as int, f1 as int);
            assert(cur.last() == s@[f1 - 1]);
            assert(cur.drop_last() =~= s@.subrange(frac_start as int, f1 - 1));
        }
        f1 -= 1;
    }
    proof {
        let cur = s@.subrange(frac_start as int, f1 as int);
        if f1 > frac_start {
            assert(cur.last() == s@[f1 - 1]);
        }
        assert(spec_strip_trailing_zeros(cur) == cur);
    }
    let pre = String::from_str(s.substring_char(0, start));
    let int_part = String::from_str(s.substring_char(i0, int_end));
    let frac_part = String::from_str(s.substring_char(frac_start, f1));
    let post = String::from_str(s.substring_char(num_end, len));
    let d = Decimal { neg, int_part, frac_part };
    proof {
        let sign: int = sign_len as int;
        assert(tok.subrange(sign, sign + int_run) =~= s@.subrange(
            int_start as int,
            int_end as int,
        ));
        assert(d.int_part@ == spec_token_int(tok));
        if has_frac {
            let whole = sign + int_run;
            assert(tok.subrange(whole + 1, whole + 1 + frac_run) =~= s@.subrange(
                frac_start as int,
                num_end as int,
            ));
        }
        assert(d.frac_part@ == spec_token_frac(tok));
        assert(s@.skip(start + spec_num_len(tok)) =~= s@.subrange(num_end as int, len as int));
        assert(s@.take(start as int) =~= s@.subrange(0, start as int));
        // well-formedness of the canonical parts
        assert(d.wf()) by {
            let raw_int = s@.subrange(int_start as int, int_end as int);
            let canon = s@.subrange(i0 as int, int_end as int);
            assert(forall|k: int|
                0 <= k < canon.len() ==> #[trigger] canon[k] == raw_int[i0 - int_start + k]);
            assert(spec_all_digits(canon));
            assert(canon.len() >= 1);
            if canon.len() > 1 {
                assert(canon[0] == s@[i0 as int]);
                assert(canon[0] != '0');
            }
            let frac = s@.subrange(frac_start as int, f1 as int);
            if has_frac {
                let raw_frac = s@.subrange(frac_start as int, num_end as int);
                assert(forall|k: int|
                    0 <= k < frac.len() ==> #[trigger] frac[k] == raw_frac[k]);
            }
            assert(spec_all_digits(frac));
            if frac.len() > 0 {
                assert(frac.last() == s@[f1 - 1]);
                assert(frac.last() != '0');
            }
        }
    }
    Some((pre, d, post))
}

} // verus!
