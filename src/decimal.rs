//! Exact fixed-point decimal numbers: `mantissa / 10^scale`, with a sign.

use vstd::prelude::*;
use vstd::string::*;

use crate::text::{digits_text, find_char, first_index, padded_text, push_digits, push_padded};

verus! {

/// Ten to the power `n`.
pub open spec fn pow10(n: nat) -> nat
    decreases n,
{
    if n == 0 {
        1
    } else {
        10 * pow10((n - 1) as nat)
    }
}

/// Every power of ten is at least one.
pub proof fn lemma_pow10_positive(n: nat)
    ensures
        pow10(n) >= 1,
    decreases n,
{
    if n > 0 {
        lemma_pow10_positive((n - 1) as nat);
    }
}

/// Powers of ten grow with the exponent.
pub proof fn lemma_pow10_monotonic(a: nat, b: nat)
    requires
        a <= b,
    ensures
        pow10(a) <= pow10(b),
    decreases b,
{
    if a < b {
        lemma_pow10_monotonic(a, (b - 1) as nat);
        lemma_pow10_positive((b - 1) as nat);
    }
}

/// The largest power of ten that fits a `u128`.
pub proof fn lemma_pow10_38()
    ensures
        pow10(38) == 100_000_000_000_000_000_000_000_000_000_000_000_000,
{
    reveal_with_fuel(pow10, 39);
}

/// Computes `10^n` for exponents that fit a `u128`.
pub fn pow10_u128(n: u8) -> (r: u128)
    requires
        n <= 38,
    ensures
        r == pow10(n as nat),
{
    let mut r: u128 = 1;
    let mut i: u8 = 0;
    while i < n
        invariant
            i <= n <= 38,
            r == pow10(i as nat),
        decreases n - i,
    {
        proof {
            lemma_pow10_monotonic((i + 1) as nat, 38);
            lemma_pow10_38();
        }
        r = r * 10;
        i = i + 1;
    }
    r
}

/// The unit of [`Decimal::value_e18`].
pub proof fn lemma_pow10_18()
    ensures
        pow10(18) == 1_000_000_000_000_000_000,
{
    reveal_with_fuel(pow10, 19);
}

/// `mantissa / 10^scale` with the trailing fractional zeros removed.
pub open spec fn trimmed(mantissa: nat, scale: nat) -> (nat, nat)
    decreases scale,
{
    if scale > 0 && mantissa % 10 == 0 {
        trimmed(mantissa / 10, (scale - 1) as nat)
    } else {
        (mantissa, scale)
    }
}

/// `c` is an ASCII decimal digit.
pub open spec fn is_digit(c: char) -> bool {
    '0' <= c && c <= '9'
}

/// Every character of `cs` is a decimal digit.
pub open spec fn all_digits(cs: Seq<char>) -> bool {
    forall|i: int| 0 <= i < cs.len() ==> is_digit(#[trigger] cs[i])
}

/// The number written by the decimal digits `cs`.
pub open spec fn digits_value(cs: Seq<char>) -> nat
    decreases cs.len(),
{
    if cs.len() == 0 {
        0
    } else {
        digits_value(cs.drop_last()) * 10 + (cs.last() as u32 - '0' as u32) as nat
    }
}

/// Appending digits never makes the number smaller.
pub proof fn lemma_digits_value_grows(a: Seq<char>, b: Seq<char>)
    ensures
        digits_value(a + b) >= digits_value(a),
    decreases b.len(),
{
    if b.len() > 0 {
        assert((a + b).drop_last() =~= a + b.drop_last());
        lemma_digits_value_grows(a, b.drop_last());
    }
}

/// Reads the digits of `s` between `from` and `to` after those of `prefix`,
/// whose number is `acc`.
fn accumulate_digits(s: &str, from: usize, to: usize, acc: u128, Ghost(prefix): Ghost<Seq<char>>) -> (r:
    Option<u128>)
    requires
        from <= to <= s@.len(),
        all_digits(prefix),
        acc == digits_value(prefix),
        acc <= MAX_MANTISSA,
    ensures
        ({
            let seg = s@.subrange(from as int, to as int);
            match r {
                Some(v) => all_digits(seg) && v == digits_value(prefix + seg) && v <= MAX_MANTISSA,
                None => !all_digits(seg) || digits_value(prefix + seg) > MAX_MANTISSA,
            }
        }),
{
    let ghost seg = s@.subrange(from as int, to as int);
    let mut v = acc;
    let mut i = from;
    assert(prefix + s@.subrange(from as int, from as int) =~= prefix);
    while i < to
        invariant
            from <= i <= to <= s@.len(),
            seg == s@.subrange(from as int, to as int),
            all_digits(s@.subrange(from as int, i as int)),
            v == digits_value(prefix + s@.subrange(from as int, i as int)),
            v <= MAX_MANTISSA,
        decreases to - i,
    {
        let c = s.get_char(i);
        if !('0' <= c && c <= '9') {
            assert(seg[i - from] == c);
            return None;
        }
        let d = (c as u32 - '0' as u32) as u128;
        let ghost next = prefix + s@.subrange(from as int, i + 1);
        assert(next.drop_last() =~= prefix + s@.subrange(from as int, i as int));
        assert(next.last() == c);
        if v > (MAX_MANTISSA - d) / 10 {
            proof {
                assert(seg =~= s@.subrange(from as int, i + 1) + s@.subrange(i + 1, to as int));
                assert(prefix + seg =~= next + s@.subrange(i + 1, to as int));
                lemma_digits_value_grows(next, s@.subrange(i + 1, to as int));
            }
            return None;
        }
        v = v * 10 + d;
        i = i + 1;
        assert(all_digits(s@.subrange(from as int, i as int))) by {
            assert forall|j: int| 0 <= j < i - from implies is_digit(
                #[trigger] s@.subrange(from as int, i as int)[j],
            ) by {
                if j < i - 1 - from {
                    assert(s@.subrange(from as int, i - 1)[j] == s@.subrange(from as int, i as int)[j]);
                }
            }
        }
    }
    assert(seg =~= s@.subrange(from as int, i as int));
    Some(v)
}

/// The decimal that `cs` writes: an optional `-`, one or more digits, and
/// optionally a `.` followed by one or more digits; `None` for any other text,
/// or for a number outside the bounds of [`Decimal`].
pub open spec fn decimal_of(cs: Seq<char>) -> Option<Decimal> {
    let negative = cs.len() > 0 && cs[0] == '-';
    let body = if negative { cs.drop_first() } else { cs };
    let p = first_index(body, '.');
    let int_part = body.subrange(0, p as int);
    let has_dot = p < body.len();
    let frac = if has_dot { body.subrange(p as int + 1, body.len() as int) } else { Seq::<char>::empty() };
    let m = digits_value(int_part + frac);
    if int_part.len() > 0 && all_digits(int_part) && (has_dot ==> frac.len() > 0) && all_digits(frac)
        && frac.len() <= MAX_SCALE && m <= MAX_MANTISSA {
        Some(Decimal { negative: negative && m != 0, mantissa: m as u128, scale: frac.len() as u8 })
    } else {
        None
    }
}

/// Parses the decimal written in `s` between `from` and `to`.
pub fn parse_decimal_span(s: &str, from: usize, to: usize) -> (r: Option<Decimal>)
    requires
        from <= to <= s@.len(),
    ensures
        r == decimal_of(s@.subrange(from as int, to as int)),
        r matches Some(d) ==> d.wf(),
{
    let ghost cs = s@.subrange(from as int, to as int);
    let negative = from < to && s.get_char(from) == '-';
    let start = if negative { from + 1 } else { from };
    let ghost body = s@.subrange(start as int, to as int);
    assert(body =~= if negative { cs.drop_first() } else { cs });
    let dot = find_char(s, start, to, '.');
    let ghost int_part = s@.subrange(start as int, dot as int);
    assert(int_part =~= body.subrange(0, dot - start));
    if dot == start {
        return None;
    }
    assert(digits_value(Seq::<char>::empty()) == 0);
    let int_value = match accumulate_digits(s, start, dot, 0, Ghost(Seq::<char>::empty())) {
        Some(v) => v,
        None => {
            proof {
                assert(Seq::<char>::empty() + int_part =~= int_part);
                if all_digits(int_part) {
                    let frac = if dot < to { body.subrange(dot - start + 1, body.len() as int) } else { Seq::<char>::empty() };
                    lemma_digits_value_grows(int_part, frac);
                }
            }
            return None;
        },
    };
    assert(Seq::<char>::empty() + int_part =~= int_part);
    if dot == to {
        assert(int_part + Seq::<char>::empty() =~= int_part);
        return Some(Decimal { negative: negative && int_value != 0, mantissa: int_value, scale: 0 });
    }
    let ghost frac = s@.subrange(dot + 1, to as int);
    assert(frac =~= body.subrange(dot - start + 1, body.len() as int));
    if dot + 1 == to || to - (dot + 1) > MAX_SCALE as usize {
        return None;
    }
    match accumulate_digits(s, dot + 1, to, int_value, Ghost(int_part)) {
        Some(v) => Some(Decimal { negative: negative && v != 0, mantissa: v, scale: (to - (dot + 1)) as u8 }),
        None => None,
    }
}

/// The largest number of fractional digits a [`Decimal`] carries.
pub const MAX_SCALE: u8 = 18;

/// The largest mantissa a [`Decimal`] carries.
pub const MAX_MANTISSA: u128 = 200_000_000_000_000_000_000;

/// A signed decimal number worth `mantissa / 10^scale`.
///
/// Jitter values are decimals in milliseconds: a duration of `n`
/// nanoseconds is the decimal `n / 10^6`.
#[derive(Clone, Copy, Debug, Eq)]
pub struct Decimal {
    pub negative: bool,
    pub mantissa: u128,
    pub scale: u8,
}

impl Decimal {
    /// Within the bounds that exact comparison relies on; zero is never negative.
    pub open spec fn wf(&self) -> bool {
        &&& self.mantissa <= MAX_MANTISSA
        &&& self.scale <= MAX_SCALE
        &&& (self.mantissa == 0 ==> !self.negative)
    }

    /// The signed mantissa.
    pub open spec fn num(&self) -> int {
        if self.negative {
            -(self.mantissa as int)
        } else {
            self.mantissa as int
        }
    }

    /// The value in units of `10^-18`; exact, since the scale is at most 18.
    pub open spec fn value_e18(&self) -> int {
        self.num() * pow10((MAX_SCALE - self.scale) as nat)
    }

    /// Parses a decimal such as `12`, `-0.5` or `3.250` (see [`decimal_of`]).
    pub fn parse(s: &str) -> (r: Option<Decimal>)
        ensures
            r == decimal_of(s@),
            r matches Some(d) ==> d.wf(),
    {
        let n = s.unicode_len();
        assert(s@.subrange(0, n as int) =~= s@);
        parse_decimal_span(s, 0, n)
    }

    /// The decimal worth `nanos` nanoseconds, in milliseconds.
    pub open spec fn spec_from_nanos(nanos: u64) -> Decimal {
        Decimal { negative: false, mantissa: nanos as u128, scale: 6 }
    }

    /// The decimal worth `nanos` nanoseconds, in milliseconds.
    pub fn from_nanos(nanos: u64) -> (r: Decimal)
        ensures
            r == Decimal::spec_from_nanos(nanos),
            r.wf(),
    {
        Decimal { negative: false, mantissa: nanos as u128, scale: 6 }
    }

    /// `self` rounded to `precision` fractional digits, halves away from zero;
    /// a decimal with no more digits than that is kept as it is.
    pub open spec fn rounded(&self, precision: nat) -> Decimal {
        if precision >= self.scale {
            *self
        } else {
            let unit = pow10((self.scale - precision) as nat);
            let q = self.mantissa as nat / unit;
            let rem = self.mantissa as nat % unit;
            let m = if 2 * rem >= unit { q + 1 } else { q };
            Decimal { negative: self.negative && m != 0, mantissa: m as u128, scale: precision as u8 }
        }
    }

    /// Rounds to `precision` fractional digits, halves away from zero.
    pub fn round(&self, precision: u8) -> (r: Decimal)
        requires
            self.wf(),
        ensures
            r == self.rounded(precision as nat),
            r.wf(),
    {
        if precision >= self.scale {
            return *self;
        }
        let unit = pow10_u128(self.scale - precision);
        proof {
            lemma_pow10_monotonic(1, (self.scale - precision) as nat);
            assert(pow10(1) == 10) by {
                reveal_with_fuel(pow10, 2);
            }
        }
        let q = self.mantissa / unit;
        let rem = self.mantissa % unit;
        proof {
            let m = self.mantissa;
            assert(m == q * unit + rem && rem < unit) by (nonlinear_arith)
                requires q == m / unit, rem == m % unit, unit >= 10;
            if 2 * rem >= unit {
                assert(q + 1 <= m) by (nonlinear_arith)
                    requires m == q * unit + rem, unit >= 10, 2 * rem >= unit, q >= 0;
            }
        }
        let m = if 2 * rem >= unit { q + 1 } else { q };
        Decimal { negative: self.negative && m != 0, mantissa: m, scale: precision }
    }

    /// The shortest text of the value: an optional `-`, the integer digits,
    /// and the fractional digits after a `.` when any of them is not zero.
    pub open spec fn text(&self) -> Seq<char> {
        let (m, s) = trimmed(self.mantissa as nat, self.scale as nat);
        let sign = if self.negative { seq!['-'] } else { Seq::<char>::empty() };
        if s == 0 {
            sign + digits_text(m)
        } else {
            sign + digits_text(m / pow10(s)) + seq!['.'] + padded_text(m % pow10(s), s)
        }
    }

    /// The mantissa and scale without trailing fractional zeros.
    pub fn trim(&self) -> (r: (u128, u8))
        ensures
            (r.0 as nat, r.1 as nat) == trimmed(self.mantissa as nat, self.scale as nat),
            r.1 <= self.scale,
            r.0 <= self.mantissa,
    {
        let mut m = self.mantissa;
        let mut s = self.scale;
        while s > 0 && m % 10 == 0
            invariant
                s <= self.scale,
                m <= self.mantissa,
                trimmed(m as nat, s as nat) == trimmed(self.mantissa as nat, self.scale as nat),
            decreases s,
        {
            m = m / 10;
            s = s - 1;
        }
        (m, s)
    }

    /// Appends the text of the value.
    pub fn push_text(&self, out: &mut String)
        requires
            self.wf(),
        ensures
            final(out)@ == old(out)@ + self.text(),
    {
        let (m, s) = self.trim();
        let ghost start = out@;
        if self.negative {
            proof {
                reveal_strlit("-");
            }
            out.append("-");
        }
        if s == 0 {
            push_digits(out, m);
        } else {
            let unit = pow10_u128(s);
            proof {
                lemma_pow10_positive(s as nat);
            }
            push_digits(out, m / unit);
            proof {
                reveal_strlit(".");
            }
            out.append(".");
            push_padded(out, m % unit, s);
        }
        assert(out@ =~= start + self.text());
    }

    /// The shortest text of the value (see [`Decimal::text`]).
    pub fn to_text(&self) -> (r: String)
        requires
            self.wf(),
        ensures
            r@ == self.text(),
    {
        let mut out = String::new();
        self.push_text(&mut out);
        assert(out@ =~= self.text());
        out
    }

    /// The magnitude in units of `10^-18`.
    fn magnitude_e18(&self) -> (r: u128)
        requires
            self.wf(),
        ensures
            r == self.mantissa * pow10((MAX_SCALE - self.scale) as nat),
    {
        let unit = pow10_u128(MAX_SCALE - self.scale);
        proof {
            lemma_pow10_monotonic((MAX_SCALE - self.scale) as nat, 18);
            lemma_pow10_18();
            assert(self.mantissa * unit <= MAX_MANTISSA * 1_000_000_000_000_000_000) by (nonlinear_arith)
                requires
                    self.mantissa <= MAX_MANTISSA,
                    unit <= 1_000_000_000_000_000_000u128,
            ;
        }
        self.mantissa * unit
    }

    /// Whether `self` is at most `other`.
    pub fn is_at_most(&self, other: &Decimal) -> (r: bool)
        requires
            self.wf(),
            other.wf(),
        ensures
            r == (self.value_e18() <= other.value_e18()),
    {
        let a = self.magnitude_e18();
        let b = other.magnitude_e18();
        proof {
            let pa = pow10((MAX_SCALE - self.scale) as nat);
            let pb = pow10((MAX_SCALE - other.scale) as nat);
            assert(self.value_e18() == self.num() * pa);
            assert(other.value_e18() == other.num() * pb);
            if self.negative {
                assert(self.num() * pa == -(a as int)) by (nonlinear_arith)
                    requires a == self.mantissa * pa, self.num() == -(self.mantissa as int);
            } else {
                assert(self.num() * pa == a as int);
            }
            if other.negative {
                lemma_pow10_positive((MAX_SCALE - other.scale) as nat);
                assert(b >= 1) by (nonlinear_arith)
                    requires b == other.mantissa * pb, other.mantissa >= 1, pb >= 1;
                assert(other.num() * pb == -(b as int)) by (nonlinear_arith)
                    requires b == other.mantissa * pb, other.num() == -(other.mantissa as int);
            } else {
                assert(other.num() * pb == b as int);
            }
        }
        if self.negative {
            if other.negative {
                b <= a
            } else {
                true
            }
        } else {
            if other.negative {
                false
            } else {
                a <= b
            }
        }
    }
}

impl PartialEq for Decimal {
    /// Equal signs, and equal mantissas and scales once trailing fractional
    /// zeros are removed: for well-formed decimals, equal values.
    fn eq(&self, other: &Decimal) -> (r: bool) {
        let a = self.trim();
        let b = other.trim();
        self.negative == other.negative && a.0 == b.0 && a.1 == b.1
    }
}

impl vstd::std_specs::cmp::PartialEqSpecImpl for Decimal {
    open spec fn obeys_eq_spec() -> bool {
        true
    }

    open spec fn eq_spec(&self, other: &Decimal) -> bool {
        self.negative == other.negative && trimmed(self.mantissa as nat, self.scale as nat) == trimmed(
            other.mantissa as nat,
            other.scale as nat,
        )
    }
}

} // verus!
