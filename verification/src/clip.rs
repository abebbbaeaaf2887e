//! Clip bounds: optional decimal-second offsets delimiting the part of a
//! source video that a record covers.
//!
//! A bound keeps the decimal text exactly as the record gave it (the identity
//! hash and the transcoder arguments use that text verbatim) together with its
//! digits in normalized form, so that two bounds can be compared exactly as
//! rational numbers, with no rounding.

use vstd::prelude::*;

use crate::strutil::chars_vec;

verus! {

/// Whether the character is a decimal digit.
pub open spec fn is_digit(c: char) -> bool {
    48 <= (c as u32) && (c as u32) <= 57
}

/// The numeric value of a decimal digit character.
pub open spec fn digit_val(c: char) -> u8 {
    ((c as u32) - 48) as u8
}

/// Whether every character of the sequence is a decimal digit.
pub open spec fn all_digits(s: Seq<char>) -> bool {
    forall|i: int| 0 <= i < s.len() ==> is_digit(#[trigger] s[i])
}

/// Splits at the first `.`: the part before it, and the part after it
/// (`None` when the sequence has no dot at all).
pub open spec fn split_dot(s: Seq<char>) -> (Seq<char>, Option<Seq<char>>)
    decreases s.len(),
{
    if s.len() == 0 {
        (seq![], None)
    } else if s[0] == '.' {
        (seq![], Some(s.drop_first()))
    } else {
        let r = split_dot(s.drop_first());
        (seq![s[0]] + r.0, r.1)
    }
}

/// Whether the text is a well-formed decimal: digits with at most one dot,
/// and at least one digit somewhere.
pub open spec fn valid_clip_text(s: Seq<char>) -> bool {
    let (ip, fp) = split_dot(s);
    match fp {
        None => s.len() > 0 && all_digits(ip),
        Some(f) => all_digits(ip) && all_digits(f) && ip.len() + f.len() > 0,
    }
}

/// The digit characters mapped to their numeric values.
pub open spec fn to_digit_vals(s: Seq<char>) -> Seq<u8> {
    s.map_values(|c: char| digit_val(c))
}

/// The sequence with leading zeros removed.
pub open spec fn strip_leading(s: Seq<u8>) -> Seq<u8>
    decreases s.len(),
{
    if s.len() > 0 && s[0] == 0 {
        strip_leading(s.drop_first())
    } else {
        s
    }
}

/// The sequence with trailing zeros removed.
pub open spec fn strip_trailing(s: Seq<u8>) -> Seq<u8>
    decreases s.len(),
{
    if s.len() > 0 && s.last() == 0 {
        strip_trailing(s.drop_last())
    } else {
        s
    }
}

/// The integer-part digits of a well-formed decimal text, normalized.
pub open spec fn clip_int_digits(s: Seq<char>) -> Seq<u8> {
    strip_leading(to_digit_vals(split_dot(s).0))
}

/// The fractional-part digits of a well-formed decimal text, normalized.
pub open spec fn clip_frac_digits(s: Seq<char>) -> Seq<u8> {
    match split_dot(s).1 {
        None => seq![],
        Some(f) => strip_trailing(to_digit_vals(f)),
    }
}

/// Ten to the given power.
pub open spec fn pow10(n: nat) -> nat
    decreases n,
{
    if n == 0 {
        1
    } else {
        10 * pow10((n - 1) as nat)
    }
}

/// The value of a digit sequence read in base ten, most significant first.
pub open spec fn digits_val(s: Seq<u8>) -> nat
    decreases s.len(),
{
    if s.len() == 0 {
        0
    } else {
        (s[0] * pow10((s.len() - 1) as nat) + digits_val(s.drop_first())) as nat
    }
}

/// Whether every element of the sequence is at most nine.
pub open spec fn bounded_digits(s: Seq<u8>) -> bool {
    forall|i: int| 0 <= i < s.len() ==> #[trigger] s[i] <= 9
}

/// The fractional digits padded with zeros to the given length.
pub open spec fn pad_frac(f: Seq<u8>, l: nat) -> Seq<u8> {
    Seq::new(l, |i: int| if i < f.len() { f[i] } else { 0 })
}

/// Exact order on two decimals given as normalized (integer digits,
/// fractional digits) pairs: both are scaled by the same power of ten until
/// integral and the resulting values compared.
pub open spec fn clip_lt_spec(ai: Seq<u8>, af: Seq<u8>, bi: Seq<u8>, bf: Seq<u8>) -> bool {
    let l = if af.len() >= bf.len() {
        af.len()
    } else {
        bf.len()
    };
    digits_val(ai + pad_frac(af, l)) < digits_val(bi + pad_frac(bf, l))
}

proof fn lemma_pow10_mono(m: nat, n: nat)
    requires
        m <= n,
    ensures
        pow10(m) <= pow10(n),
    decreases n,
{
    if m < n {
        lemma_pow10_mono(m, (n - 1) as nat);
    }
}

proof fn lemma_digits_val_upper(s: Seq<u8>)
    requires
        bounded_digits(s),
    ensures
        digits_val(s) < pow10(s.len()),
    decreases s.len(),
{
    if s.len() > 0 {
        assert(bounded_digits(s.drop_first())) by {
            assert(forall|i: int|
                0 <= i < s.drop_first().len() ==> #[trigger] s.drop_first()[i] == s[i + 1]);
        }
        lemma_digits_val_upper(s.drop_first());
        let p = pow10((s.len() - 1) as nat);
        assert(s[0] * p <= 9 * p) by (nonlinear_arith)
            requires
                s[0] <= 9,
                p >= 0,
        ;
        assert(pow10(s.len()) == 10 * p);
    }
}

proof fn lemma_digits_val_lower(s: Seq<u8>)
    requires
        s.len() > 0,
        s[0] >= 1,
    ensures
        digits_val(s) >= pow10((s.len() - 1) as nat),
{
    let p = pow10((s.len() - 1) as nat);
    assert(s[0] * p >= 1 * p) by (nonlinear_arith)
        requires
            s[0] >= 1,
            p >= 0,
    ;
}

/// A shorter digit sequence names a smaller value than a longer one whose
/// first digit is not zero.
proof fn lemma_val_len_lt(a: Seq<u8>, b: Seq<u8>)
    requires
        bounded_digits(a),
        a.len() < b.len(),
        b.len() > 0,
        b[0] >= 1,
    ensures
        digits_val(a) < digits_val(b),
{
    lemma_digits_val_upper(a);
    lemma_digits_val_lower(b);
    lemma_pow10_mono(a.len(), (b.len() - 1) as nat);
}

/// Among equal-length digit sequences, the one that is smaller at the first
/// differing position names the smaller value.
proof fn lemma_val_lex_lt(a: Seq<u8>, b: Seq<u8>, k: int)
    requires
        bounded_digits(a),
        bounded_digits(b),
        a.len() == b.len(),
        0 <= k < a.len(),
        forall|j: int| 0 <= j < k ==> a[j] == b[j],
        a[k] < b[k],
    ensures
        digits_val(a) < digits_val(b),
    decreases k,
{
    if k == 0 {
        assert(bounded_digits(a.drop_first())) by {
            assert(forall|i: int|
                0 <= i < a.drop_first().len() ==> #[trigger] a.drop_first()[i] == a[i + 1]);
        }
        lemma_digits_val_upper(a.drop_first());
        assert(digits_val(a) < a[0] * pow10((a.len() - 1) as nat) + pow10((a.len() - 1) as nat));
        assert((a[0] + 1) * pow10((a.len() - 1) as nat) <= b[0] * pow10((a.len() - 1) as nat))
            by (nonlinear_arith)
            requires
                a[0] < b[0],
                pow10((a.len() - 1) as nat) >= 0,
                a.len() > 0,
        ;
        assert(digits_val(b) >= b[0] * pow10((b.len() - 1) as nat));
        assert(a[0] * pow10((a.len() - 1) as nat) + pow10((a.len() - 1) as nat) == (a[0] + 1)
            * pow10((a.len() - 1) as nat)) by (nonlinear_arith);
    } else {
        assert(bounded_digits(a.drop_first()) && bounded_digits(b.drop_first())) by {
            assert(forall|i: int|
                0 <= i < a.drop_first().len() ==> #[trigger] a.drop_first()[i] == a[i + 1]);
            assert(forall|i: int|
                0 <= i < b.drop_first().len() ==> #[trigger] b.drop_first()[i] == b[i + 1]);
        }
        assert(forall|j: int| 0 <= j < k - 1 ==> a.drop_first()[j] == b.drop_first()[j]);
        assert(a.drop_first()[k - 1] < b.drop_first()[k - 1]);
        lemma_val_lex_lt(a.drop_first(), b.drop_first(), k - 1);
        assert(a[0] == b[0]);
    }
}

proof fn lemma_split_dot_none(s: Seq<char>)
    requires
        forall|i: int| 0 <= i < s.len() ==> #[trigger] s[i] != '.',
    ensures
        split_dot(s) == (s, None::<Seq<char>>),
    decreases s.len(),
{
    if s.len() > 0 {
        assert(forall|i: int|
            0 <= i < s.drop_first().len() ==> #[trigger] s.drop_first()[i] == s[i + 1]);
        lemma_split_dot_none(s.drop_first());
        assert(seq![s[0]] + s.drop_first() =~= s);
    }
}

proof fn lemma_split_dot_at(s: Seq<char>, k: int)
    requires
        0 <= k < s.len(),
        s[k] == '.',
        forall|j: int| 0 <= j < k ==> #[trigger] s[j] != '.',
    ensures
        split_dot(s).0 == s.take(k),
        split_dot(s).1 == Some(s.skip(k + 1)),
    decreases k,
{
    if k == 0 {
        assert(s.take(0) =~= Seq::<char>::empty());
        assert(s.drop_first() =~= s.skip(1));
    } else {
        assert(forall|i: int|
            0 <= i < s.drop_first().len() ==> #[trigger] s.drop_first()[i] == s[i + 1]);
        lemma_split_dot_at(s.drop_first(), k - 1);
        assert(seq![s[0]] + s.drop_first().take(k - 1) =~= s.take(k));
        assert(s.drop_first().skip(k) =~= s.skip(k + 1));
    }
}

proof fn lemma_strip_leading_skip(s: Seq<u8>, m: int)
    requires
        0 <= m <= s.len(),
        forall|j: int| 0 <= j < m ==> #[trigger] s[j] == 0,
        m == s.len() || s[m] != 0,
    ensures
        strip_leading(s) == s.skip(m),
    decreases m,
{
    if m == 0 {
        assert(s.skip(0) =~= s);
    } else {
        assert(forall|i: int|
            0 <= i < s.drop_first().len() ==> #[trigger] s.drop_first()[i] == s[i + 1]);
        lemma_strip_leading_skip(s.drop_first(), m - 1);
        assert(s.drop_first().skip(m - 1) =~= s.skip(m));
    }
}

proof fn lemma_strip_trailing_take(s: Seq<u8>, m: int)
    requires
        0 <= m <= s.len(),
        forall|j: int| m <= j < s.len() ==> #[trigger] s[j] == 0,
        m == 0 || s[m - 1] != 0,
    ensures
        strip_trailing(s) == s.take(m),
    decreases s.len() - m,
{
    if m == s.len() {
        assert(s.take(m) =~= s);
    } else {
        assert(s.last() == 0);
        assert(forall|i: int|
            0 <= i < s.drop_last().len() ==> #[trigger] s.drop_last()[i] == s[i]);
        lemma_strip_trailing_take(s.drop_last(), m);
        assert(s.drop_last().take(m) =~= s.take(m));
    }
}

proof fn lemma_strip_leading_props(s: Seq<u8>)
    requires
        bounded_digits(s),
    ensures
        bounded_digits(strip_leading(s)),
        strip_leading(s).len() > 0 ==> strip_leading(s)[0] != 0,
    decreases s.len(),
{
    if s.len() > 0 && s[0] == 0 {
        assert(forall|i: int|
            0 <= i < s.drop_first().len() ==> #[trigger] s.drop_first()[i] == s[i + 1]);
        lemma_strip_leading_props(s.drop_first());
    }
}

proof fn lemma_strip_trailing_props(s: Seq<u8>)
    requires
        bounded_digits(s),
    ensures
        bounded_digits(strip_trailing(s)),
        strip_trailing(s).len() > 0 ==> strip_trailing(s).last() != 0,
    decreases s.len(),
{
    if s.len() > 0 && s.last() == 0 {
        assert(forall|i: int|
            0 <= i < s.drop_last().len() ==> #[trigger] s.drop_last()[i] == s[i]);
        lemma_strip_trailing_props(s.drop_last());
    }
}

/// A clip bound: the decimal text as the record gave it, with its digits in
/// normalized form for exact comparison.
#[derive(Debug)]
pub struct ClipBound {
    text: String,
    int_digits: Vec<u8>,
    frac_digits: Vec<u8>,
}

impl ClipBound {
    /// The decimal text exactly as the record gave it.
    pub closed spec fn spec_text(self) -> Seq<char> {
        self.text@
    }

    /// The normalized integer-part digits.
    pub closed spec fn spec_int(self) -> Seq<u8> {
        self.int_digits@
    }

    /// The normalized fractional-part digits.
    pub closed spec fn spec_frac(self) -> Seq<u8> {
        self.frac_digits@
    }

    /// Well-formedness: the text is a valid decimal and the stored digits
    /// are its normalized integer and fractional parts.
    pub open spec fn wf(self) -> bool {
        &&& valid_clip_text(self.spec_text())
        &&& self.spec_int() == clip_int_digits(self.spec_text())
        &&& self.spec_frac() == clip_frac_digits(self.spec_text())
    }

    /// The decimal text, for hashing and for the transcoder's arguments.
    pub fn text(&self) -> (r: &String)
        ensures
            r@ == self.spec_text(),
    {
        &self.text
    }

    /// Parses a clip bound. Returns `None` exactly when the text is not a
    /// well-formed decimal (digits with at most one dot, at least one digit).
    pub fn parse(s: &str) -> (r: Option<ClipBound>)
        ensures
            r is Some <==> valid_clip_text(s@),
            r matches Some(cb) ==> cb.wf() && cb.spec_text() == s@,
    {
        let cs = chars_vec(s);
        let n = cs.len();

        // The integer part runs up to the first dot, or to the end.
        let mut int_end: usize = 0;
        while int_end < n && cs[int_end] != '.'
            invariant
                cs@ == s@,
                n == cs.len(),
                int_end <= n,
                forall|j: int| 0 <= j < int_end ==> #[trigger] s@[j] != '.',
            decreases n - int_end,
        {
            int_end = int_end + 1;
        }
        proof {
            if int_end == n {
                lemma_split_dot_none(s@);
            } else {
                lemma_split_dot_at(s@, int_end as int);
            }
        }

        // Emptiness: at least one digit position must exist.
        if int_end == n {
            if n == 0 {
                return None;
            }
        } else {
            if n == 1 {
                // The text is a lone dot.
                assert(split_dot(s@).0.len() + split_dot(s@).1->0.len() == 0);
                return None;
            }
        }

        // Every character of the integer part must be a digit.
        let mut j: usize = 0;
        while j < int_end
            invariant
                cs@ == s@,
                n == cs.len(),
                int_end <= n,
                j <= int_end,
                split_dot(s@).0 == s@.take(int_end as int),
                int_end < n ==> split_dot(s@).1 == Some(s@.skip(int_end + 1)),
                int_end == n ==> split_dot(s@).1 is None,
                n > 0,
                forall|i: int| 0 <= i < j ==> is_digit(#[trigger] s@[i]),
            decreases int_end - j,
        {
            let c = cs[j];
            let cu = c as u32;
            if cu < 48 || cu > 57 {
                assert(!all_digits(split_dot(s@).0)) by {
                    assert(split_dot(s@).0[j as int] == s@[j as int]);
                }
                return None;
            }
            j = j + 1;
        }
        assert(all_digits(split_dot(s@).0)) by {
            assert(forall|i: int|
                0 <= i < split_dot(s@).0.len() ==> #[trigger] split_dot(s@).0[i] == s@[i]);
        }

        // And every character of the fractional part, when there is one.
        if int_end < n {
            let mut j: usize = int_end + 1;
            while j < n
                invariant
                    cs@ == s@,
                    n == cs.len(),
                    int_end < n,
                    int_end + 1 <= j <= n,
                    split_dot(s@).0 == s@.take(int_end as int),
                    split_dot(s@).1 == Some(s@.skip(int_end + 1)),
                    forall|i: int| int_end < i < j ==> is_digit(#[trigger] s@[i]),
                decreases n - j,
            {
                let c = cs[j];
                let cu = c as u32;
                if cu < 48 || cu > 57 {
                    assert(!all_digits(split_dot(s@).1->0)) by {
                        assert(split_dot(s@).1->0[j - int_end - 1] == s@[j as int]);
                    }
                    return None;
                }
                j = j + 1;
            }
            assert(all_digits(split_dot(s@).1->0)) by {
                assert(forall|i: int|
                    0 <= i < split_dot(s@).1->0.len() ==> #[trigger] split_dot(s@).1->0[i] == s@[i
                        + int_end + 1]);
            }
        }
        assert(valid_clip_text(s@));

        // Normalized integer digits: leading zeros dropped.
        let mut m: usize = 0;
        while m < int_end && (cs[m] as u32) == 48
            invariant
                cs@ == s@,
                n == cs.len(),
                int_end <= n,
                m <= int_end,
                forall|j: int| 0 <= j < m ==> (#[trigger] s@[j] as u32) == 48,
            decreases int_end - m,
        {
            m = m + 1;
        }
        let ghost ivals = to_digit_vals(split_dot(s@).0);
        proof {
            assert(forall|i: int| 0 <= i < int_end ==> #[trigger] ivals[i] == digit_val(s@[i]));
            assert(forall|j: int| 0 <= j < m ==> #[trigger] ivals[j] == 0);
            if m < int_end {
                assert((s@[m as int] as u32) != 48 && is_digit(s@[m as int]));
                assert(ivals[m as int] != 0);
            }
            lemma_strip_leading_skip(ivals, m as int);
        }
        let mut int_digits: Vec<u8> = Vec::new();
        let mut j: usize = m;
        while j < int_end
            invariant
                cs@ == s@,
                n == cs.len(),
                int_end <= n,
                m <= j <= int_end,
                forall|i: int| 0 <= i < int_end ==> is_digit(#[trigger] s@[i]),
                ivals == to_digit_vals(split_dot(s@).0),
                ivals.len() == int_end,
                forall|i: int| 0 <= i < int_end ==> #[trigger] ivals[i] == digit_val(s@[i]),
                int_digits@ =~= ivals.skip(m as int).take(j - m),
            decreases int_end - j,
        {
            let c = cs[j];
            let d: u8 = ((c as u32) - 48) as u8;
            int_digits.push(d);
            assert(int_digits@ =~= ivals.skip(m as int).take(j + 1 - m));
            j = j + 1;
        }
        assert(int_digits@ =~= ivals.skip(m as int));
        assert(int_digits@ == clip_int_digits(s@));

        // Normalized fractional digits: trailing zeros dropped.
        let mut frac_digits: Vec<u8> = Vec::new();
        if int_end < n {
            let fstart = int_end + 1;
            let ghost fvals = to_digit_vals(split_dot(s@).1->0);
            proof {
                assert(fvals.len() == n - fstart);
                assert(forall|i: int|
                    0 <= i < fvals.len() ==> #[trigger] fvals[i] == digit_val(s@[i + fstart]));
            }
            let mut e: usize = n;
            while e > fstart && (cs[e - 1] as u32) == 48
                invariant
                    cs@ == s@,
                    n == cs.len(),
                    fstart <= e <= n,
                    forall|j: int| e <= j < n ==> (#[trigger] s@[j] as u32) == 48,
                decreases e,
            {
                e = e - 1;
            }
            proof {
                assert(forall|j: int| e - fstart <= j < fvals.len() ==> #[trigger] fvals[j] == 0);
                if e > fstart {
                    assert((s@[e - 1] as u32) != 48 && is_digit(s@[e - 1]));
                    assert(fvals[e - 1 - fstart] != 0);
                }
                lemma_strip_trailing_take(fvals, e - fstart);
            }
            let mut j: usize = fstart;
            while j < e
                invariant
                    cs@ == s@,
                    n == cs.len(),
                    int_end < n,
                    fstart == int_end + 1,
                    fstart <= j <= e <= n,
                    forall|i: int| int_end < i < n ==> is_digit(#[trigger] s@[i]),
                    fvals == to_digit_vals(split_dot(s@).1->0),
                    fvals.len() == n - fstart,
                    forall|i: int|
                        0 <= i < fvals.len() ==> #[trigger] fvals[i] == digit_val(s@[i + fstart]),
                    frac_digits@ =~= fvals.take(j - fstart),
                decreases e - j,
            {
                let c = cs[j];
                let d: u8 = ((c as u32) - 48) as u8;
                frac_digits.push(d);
                assert(frac_digits@ =~= fvals.take(j + 1 - fstart));
                j = j + 1;
            }
            assert(frac_digits@ == clip_frac_digits(s@));
        }

        Some(
            ClipBound {
                text: s.to_owned(),
                int_digits,
                frac_digits,
            },
        )
    }

    /// Whether this bound is numerically strictly below the other.
    pub open spec fn spec_lt(self, other: ClipBound) -> bool {
        clip_lt_spec(self.spec_int(), self.spec_frac(), other.spec_int(), other.spec_frac())
    }

    /// The digits of a well-formed bound are in range and normalized.
    proof fn lemma_digit_props(self)
        requires
            self.wf(),
        ensures
            bounded_digits(self.spec_int()),
            bounded_digits(self.spec_frac()),
            self.spec_int().len() > 0 ==> self.spec_int()[0] != 0,
            self.spec_frac().len() > 0 ==> self.spec_frac().last() != 0,
    {
        let ip = split_dot(self.spec_text()).0;
        assert(bounded_digits(to_digit_vals(ip))) by {
            assert(forall|i: int|
                0 <= i < ip.len() ==> #[trigger] to_digit_vals(ip)[i] == digit_val(ip[i]));
        }
        lemma_strip_leading_props(to_digit_vals(ip));
        match split_dot(self.spec_text()).1 {
            None => {},
            Some(f) => {
                assert(bounded_digits(to_digit_vals(f))) by {
                    assert(forall|i: int|
                        0 <= i < f.len() ==> #[trigger] to_digit_vals(f)[i] == digit_val(f[i]));
                }
                lemma_strip_trailing_props(to_digit_vals(f));
            },
        }
    }

    /// Compares two bounds exactly, as rational numbers.
    pub fn lt(&self, other: &ClipBound) -> (r: bool)
        requires
            self.wf(),
            other.wf(),
        ensures
            r == self.spec_lt(*other),
    {
        proof {
            self.lemma_digit_props();
            other.lemma_digit_props();
        }
        let ghost ai = self.spec_int();
        let ghost af = self.spec_frac();
        let ghost bi = other.spec_int();
        let ghost bf = other.spec_frac();
        let l: usize = if self.frac_digits.len() >= other.frac_digits.len() {
            self.frac_digits.len()
        } else {
            other.frac_digits.len()
        };
        let ghost a_full = ai + pad_frac(af, l as nat);
        let ghost b_full = bi + pad_frac(bf, l as nat);
        proof {
            assert(bounded_digits(a_full));
            assert(bounded_digits(b_full));
        }

        let al = self.int_digits.len();
        let bl = other.int_digits.len();
        if al < bl {
            proof {
                assert(b_full[0] == bi[0]);
                lemma_val_len_lt(a_full, b_full);
            }
            return true;
        }
        if al > bl {
            proof {
                assert(a_full[0] == ai[0]);
                lemma_val_len_lt(b_full, a_full);
            }
            return false;
        }

        // Equal integer lengths: compare digit by digit, left to right.
        let mut i: usize = 0;
        while i < al
            invariant
                self.wf(),
                other.wf(),
                ai == self.spec_int(),
                af == self.spec_frac(),
                bi == other.spec_int(),
                bf == other.spec_frac(),
                a_full == ai + pad_frac(af, l as nat),
                b_full == bi + pad_frac(bf, l as nat),
                bounded_digits(a_full),
                bounded_digits(b_full),
                al == ai.len(),
                bl == bi.len(),
                al == bl,
                l >= af.len(),
                l >= bf.len(),
                l == if af.len() >= bf.len() { af.len() } else { bf.len() },
                i <= al,
                forall|j: int| 0 <= j < i ==> a_full[j] == b_full[j],
            decreases al - i,
        {
            let da = self.int_digits[i];
            let db = other.int_digits[i];
            if da < db {
                proof {
                    lemma_val_lex_lt(a_full, b_full, i as int);
                }
                return true;
            }
            if da > db {
                proof {
                    lemma_val_lex_lt(b_full, a_full, i as int);
                }
                return false;
            }
            i = i + 1;
        }

        // Then the fractional digits, padded with zeros on the right.
        let mut j: usize = 0;
        while j < l
            invariant
                self.wf(),
                other.wf(),
                ai == self.spec_int(),
                af == self.spec_frac(),
                bi == other.spec_int(),
                bf == other.spec_frac(),
                a_full == ai + pad_frac(af, l as nat),
                b_full == bi + pad_frac(bf, l as nat),
                bounded_digits(a_full),
                bounded_digits(b_full),
                al == ai.len(),
                bl == bi.len(),
                al == bl,
                l >= af.len(),
                l >= bf.len(),
                l == if af.len() >= bf.len() { af.len() } else { bf.len() },
                j <= l,
                forall|k: int| 0 <= k < al + j ==> a_full[k] == b_full[k],
            decreases l - j,
        {
            let da: u8 = if j < self.frac_digits.len() {
                self.frac_digits[j]
            } else {
                0
            };
            let db: u8 = if j < other.frac_digits.len() {
                other.frac_digits[j]
            } else {
                0
            };
            assert(a_full[al + j] == da);
            assert(b_full[al + j] == db);
            if da < db {
                proof {
                    lemma_val_lex_lt(a_full, b_full, al + j);
                }
                return true;
            }
            if da > db {
                proof {
                    lemma_val_lex_lt(b_full, a_full, al + j);
                }
                return false;
            }
            j = j + 1;
        }
        proof {
            assert(a_full =~= b_full);
        }
        false
    }
}

} // verus!
