//! Alert ranges in monitoring-plugin range syntax, and their evaluation.

use vstd::prelude::*;
use vstd::string::*;

use crate::decimal::{decimal_of, parse_decimal_span, Decimal};
use crate::text::{find_char, first_index};

verus! {

/// Whether a range alerts on the values inside it or on those outside it.
#[derive(Clone, Copy, Debug, PartialEq, Eq, Structural)]
pub enum CheckType {
    Inside,
    Outside,
}

/// A range `start..=end` with a polarity; a missing bound is infinite.
#[derive(Clone, Copy, Debug, PartialEq, Eq)]
pub struct ThresholdRange {
    pub check_type: CheckType,
    pub start: Option<Decimal>,
    pub end: Option<Decimal>,
}

/// Why a range text was refused.
#[derive(Clone, Copy, Debug, PartialEq, Eq, Structural)]
pub enum RangeError {
    EmptyRange,
    StartGreaterThanEnd,
    ParseStartPoint,
    ParseEndPoint,
}

/// The start of a range whose start is left out.
pub open spec fn zero() -> Decimal {
    Decimal { negative: false, mantissa: 0, scale: 0 }
}

/// The bounds that the text after an optional `@` gives: `N` is `0..=N`,
/// `N:` is `N..`, `~:N` is `..=N`, `N:M` is `N..=M`, and an empty start is 0.
pub open spec fn bounds_of(cs: Seq<char>) -> Result<(Option<Decimal>, Option<Decimal>), RangeError> {
    let p = first_index(cs, ':');
    if p < cs.len() {
        let a = cs.subrange(0, p as int);
        let b = cs.subrange(p as int + 1, cs.len() as int);
        let start = if a == seq!['~'] {
            Ok(None)
        } else if a.len() == 0 {
            Ok(Some(zero()))
        } else {
            match decimal_of(a) {
                Some(d) => Ok(Some(d)),
                None => Err(RangeError::ParseStartPoint),
            }
        };
        match start {
            Err(e) => Err(e),
            Ok(s) => if b.len() == 0 {
                Ok((s, None))
            } else {
                match decimal_of(b) {
                    None => Err(RangeError::ParseEndPoint),
                    Some(e) => match s {
                        Some(sv) => if sv.value_e18() > e.value_e18() {
                            Err(RangeError::StartGreaterThanEnd)
                        } else {
                            Ok((s, Some(e)))
                        },
                        None => Ok((s, Some(e))),
                    },
                }
            },
        }
    } else {
        match decimal_of(cs) {
            None => Err(RangeError::ParseEndPoint),
            Some(e) => Ok((Some(zero()), Some(e))),
        }
    }
}

/// The range that `cs` writes; a leading `@` makes it alert inside.
pub open spec fn range_of(cs: Seq<char>) -> Result<ThresholdRange, RangeError> {
    if cs.len() == 0 {
        Err(RangeError::EmptyRange)
    } else {
        let inside = cs[0] == '@';
        let rest = if inside { cs.drop_first() } else { cs };
        match bounds_of(rest) {
            Err(e) => Err(e),
            Ok((s, e)) => Ok(
                ThresholdRange {
                    check_type: if inside { CheckType::Inside } else { CheckType::Outside },
                    start: s,
                    end: e,
                },
            ),
        }
    }
}

impl ThresholdRange {
    /// Both bounds are well-formed decimals.
    pub open spec fn wf(&self) -> bool {
        &&& (self.start matches Some(s) ==> s.wf())
        &&& (self.end matches Some(e) ==> e.wf())
    }

    /// `v` lies in `start..=end`.
    pub open spec fn spec_contains(&self, v: Decimal) -> bool {
        &&& (self.start matches Some(s) ==> s.value_e18() <= v.value_e18())
        &&& (self.end matches Some(e) ==> v.value_e18() <= e.value_e18())
    }

    /// `v` raises an alert: inside the range for `Inside`, outside it for `Outside`.
    pub open spec fn alerts(&self, v: Decimal) -> bool {
        match self.check_type {
            CheckType::Inside => self.spec_contains(v),
            CheckType::Outside => !self.spec_contains(v),
        }
    }

    /// The text of the range: `@` for an inside range, then `start:end`
    /// with `~` for an infinite bound.
    pub open spec fn text(&self) -> Seq<char> {
        let at = if self.check_type == CheckType::Inside { seq!['@'] } else { Seq::<char>::empty() };
        let start = match self.start {
            Some(s) => s.text(),
            None => seq!['~'],
        };
        let end = match self.end {
            Some(e) => e.text(),
            None => seq!['~'],
        };
        at + start + seq![':'] + end
    }

    /// Appends the text of the range.
    pub fn push_text(&self, out: &mut String)
        requires
            self.wf(),
        ensures
            final(out)@ == old(out)@ + self.text(),
    {
        let ghost start = out@;
        proof {
            reveal_strlit("@");
            reveal_strlit("~");
            reveal_strlit(":");
        }
        if self.check_type == CheckType::Inside {
            out.append("@");
        }
        match &self.start {
            Some(s) => s.push_text(out),
            None => out.append("~"),
        }
        out.append(":");
        match &self.end {
            Some(e) => e.push_text(out),
            None => out.append("~"),
        }
        assert(out@ =~= start + self.text());
    }

    /// The text of the range (see [`ThresholdRange::text`]).
    pub fn to_text(&self) -> (r: String)
        requires
            self.wf(),
        ensures
            r@ == self.text(),
    {
        let mut out = String::new();
        self.push_text(&mut out);
        assert(out@ =~= self.text());
        out
    }

    /// Parses a range such as `10`, `10:`, `~:10`, `10:20` or `@10:20`.
    pub fn parse(s: &str) -> (r: Result<ThresholdRange, RangeError>)
        ensures
            r == range_of(s@),
            r matches Ok(range) ==> range.wf(),
    {
        let n = s.unicode_len();
        if n == 0 {
            return Err(RangeError::EmptyRange);
        }
        let inside = s.get_char(0) == '@';
        let from: usize = if inside { 1 } else { 0 };
        let ghost rest = s@.subrange(from as int, n as int);
        assert(rest =~= if inside { s@.drop_first() } else { s@ });
        let check_type = if inside { CheckType::Inside } else { CheckType::Outside };
        let colon = find_char(s, from, n, ':');
        if colon == n {
            return match parse_decimal_span(s, from, n) {
                None => Err(RangeError::ParseEndPoint),
                Some(e) => Ok(
                    ThresholdRange { check_type, start: Some(Decimal { negative: false, mantissa: 0, scale: 0 }), end: Some(e) },
                ),
            };
        }
        assert(rest.subrange(0, colon - from) =~= s@.subrange(from as int, colon as int));
        assert(rest.subrange(colon - from + 1, rest.len() as int) =~= s@.subrange(colon + 1, n as int));
        proof {
            reveal_strlit("~");
        }
        let start = if colon == from + 1 && s.get_char(from) == '~' {
            assert(s@.subrange(from as int, colon as int) =~= seq!['~']);
            None
        } else if colon == from {
            Some(Decimal { negative: false, mantissa: 0, scale: 0 })
        } else {
            assert(s@.subrange(from as int, colon as int) != seq!['~']) by {
                if colon == from + 1 {
                    assert(s@.subrange(from as int, colon as int)[0] == s@[from as int]);
                }
            }
            match parse_decimal_span(s, from, colon) {
                Some(d) => Some(d),
                None => return Err(RangeError::ParseStartPoint),
            }
        };
        if colon + 1 == n {
            return Ok(ThresholdRange { check_type, start, end: None });
        }
        let end = match parse_decimal_span(s, colon + 1, n) {
            Some(e) => e,
            None => return Err(RangeError::ParseEndPoint),
        };
        match start {
            Some(sv) => {
                if !sv.is_at_most(&end) {
                    return Err(RangeError::StartGreaterThanEnd);
                }
            },
            None => {},
        }
        Ok(ThresholdRange { check_type, start, end: Some(end) })
    }

    /// Whether `v` lies in `start..=end`, whatever the polarity.
    pub fn contains(&self, v: &Decimal) -> (r: bool)
        requires
            self.wf(),
            v.wf(),
        ensures
            r == self.spec_contains(*v),
    {
        let above_start = match &self.start {
            Some(s) => s.is_at_most(v),
            None => true,
        };
        let below_end = match &self.end {
            Some(e) => v.is_at_most(e),
            None => true,
        };
        above_start && below_end
    }

    /// Whether `v` raises an alert under this range.
    pub fn check(&self, v: &Decimal) -> (r: bool)
        requires
            self.wf(),
            v.wf(),
        ensures
            r == self.alerts(*v),
    {
        match self.check_type {
            CheckType::Inside => self.contains(v),
            CheckType::Outside => !self.contains(v),
        }
    }
}

/// The description of a refused range text.
pub open spec fn range_error_text(e: RangeError) -> Seq<char> {
    match e {
        RangeError::EmptyRange => "the range string must not be empty"@,
        RangeError::StartGreaterThanEnd => "the start point must be lesser than the end point"@,
        RangeError::ParseStartPoint => "the start point could not be parsed as a decimal number"@,
        RangeError::ParseEndPoint => "the end point could not be parsed as a decimal number"@,
    }
}

impl RangeError {
    /// The description of the error.
    pub fn message(&self) -> (r: &'static str)
        ensures
            r@ == range_error_text(*self),
    {
        match self {
            RangeError::EmptyRange => "the range string must not be empty",
            RangeError::StartGreaterThanEnd => "the start point must be lesser than the end point",
            RangeError::ParseStartPoint => "the start point could not be parsed as a decimal number",
            RangeError::ParseEndPoint => "the end point could not be parsed as a decimal number",
        }
    }
}

/// The warning and critical ranges; either may be missing.
#[derive(Clone, Copy, Debug, PartialEq, Eq)]
pub struct Thresholds {
    pub warning: Option<ThresholdRange>,
    pub critical: Option<ThresholdRange>,
}

impl Thresholds {
    /// Both ranges are well formed.
    pub open spec fn wf(&self) -> bool {
        &&& (self.warning matches Some(w) ==> w.wf())
        &&& (self.critical matches Some(c) ==> c.wf())
    }
}

} // verus!
