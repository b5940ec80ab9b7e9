//! Deltas between consecutive round-trip times, and their aggregation.
//!
//! Durations are whole nanoseconds; jitter values are [`Decimal`]s in
//! milliseconds.

use vstd::prelude::*;
use vstd::relations::{sorted_by, total_ordering};

use crate::decimal::Decimal;
use crate::error::CheckJitterError;
use crate::method::AggregationMethod;

verus! {

/// The absolute difference of two durations.
pub open spec fn abs_diff(a: u64, b: u64) -> u64 {
    if a > b {
        (a - b) as u64
    } else {
        (b - a) as u64
    }
}

/// The absolute difference of two durations, in nanoseconds.
pub fn abs_diff_duration(a: u64, b: u64) -> (r: u64)
    ensures
        r == abs_diff(a, b),
{
    if a > b {
        a - b
    } else {
        b - a
    }
}

/// The absolute difference is symmetric, and zero between equal durations.
pub proof fn lemma_delta_symmetric(a: u64, b: u64)
    ensures
        abs_diff(a, b) == abs_diff(b, a),
        abs_diff(a, a) == 0,
{
}

/// The delta of each pair of temporally adjacent samples, in order.
pub open spec fn deltas_of(samples: Seq<u64>) -> Seq<u64> {
    Seq::new((samples.len() - 1) as nat, |i: int| abs_diff(samples[i], samples[i + 1]))
}

/// The deltas between consecutive samples; at least two samples are needed.
pub fn calculate_deltas(durations: &[u64]) -> (r: Result<Vec<u64>, CheckJitterError>)
    ensures
        durations@.len() < 2 <==> r is Err,
        r matches Err(e) ==> e == CheckJitterError::InsufficientSamples(durations@.len() as u8),
        r matches Ok(v) ==> v@ == deltas_of(durations@),
{
    if durations.len() < 2 {
        return Err(CheckJitterError::InsufficientSamples(durations.len() as u8));
    }
    let mut deltas: Vec<u64> = Vec::new();
    let mut i: usize = 0;
    while i < durations.len() - 1
        invariant
            durations@.len() >= 2,
            i + 1 <= durations@.len(),
            deltas@ =~= deltas_of(durations@).take(i as int),
        decreases durations@.len() - i,
    {
        let d = abs_diff_duration(durations[i], durations[i + 1]);
        deltas.push(d);
        i = i + 1;
    }
    assert(deltas@ =~= deltas_of(durations@));
    Ok(deltas)
}

/// The sum of the durations.
pub open spec fn total(s: Seq<u64>) -> nat
    decreases s.len(),
{
    if s.len() == 0 {
        0
    } else {
        total(s.drop_last()) + s.last() as nat
    }
}

/// The mean delta, truncated to whole nanoseconds, in milliseconds.
pub open spec fn average_of(deltas: Seq<u64>) -> Decimal {
    Decimal::spec_from_nanos((total(deltas) / deltas.len()) as u64)
}

/// The arithmetic mean of the deltas (sum divided by count, truncated to
/// whole nanoseconds), in milliseconds.
pub fn calculate_avg_jitter(deltas: &Vec<u64>) -> (r: Decimal)
    requires
        deltas@.len() > 0,
    ensures
        r == average_of(deltas@),
        r.wf(),
{
    let mut sum: u128 = 0;
    let mut i: usize = 0;
    while i < deltas.len()
        invariant
            i <= deltas@.len(),
            sum == total(deltas@.take(i as int)),
            sum <= i * 0xffff_ffff_ffff_ffffu128,
        decreases deltas@.len() - i,
    {
        assert(deltas@.take(i + 1).drop_last() =~= deltas@.take(i as int));
        assert(i < 0x1_0000_0000_0000_0000u128);
        assert((i + 1) * 0xffff_ffff_ffff_ffffu128 <= 0xffff_ffff_ffff_ffff_ffff_ffff_ffff_ffffu128)
            by (nonlinear_arith)
            requires
                i < 0x1_0000_0000_0000_0000u128,
        ;
        sum = sum + deltas[i] as u128;
        i = i + 1;
    }
    assert(deltas@.take(i as int) =~= deltas@);
    let n = deltas.len() as u128;
    let avg = sum / n;
    assert(avg <= 0xffff_ffff_ffff_ffffu128) by (nonlinear_arith)
        requires
            avg == sum / n,
            sum <= n * 0xffff_ffff_ffff_ffffu128,
            n > 0,
    ;
    Decimal::from_nanos(avg as u64)
}

/// Orders durations from the shortest.
pub open spec fn ascending(a: u64, b: u64) -> bool {
    a <= b
}

/// The deltas sorted from the shortest.
pub open spec fn sorted_deltas(deltas: Seq<u64>) -> Seq<u64> {
    deltas.sort_by(|a: u64, b: u64| ascending(a, b))
}

/// Relies on `slice::sort`: the slice is afterwards in ascending order and
/// holds the same elements.
#[verifier::external_body]
fn sort_ascending(v: &mut Vec<u64>)
    ensures
        sorted_by(final(v)@, |a: u64, b: u64| ascending(a, b)),
        final(v)@.to_multiset() == old(v)@.to_multiset(),
{
    v.sort();
}

proof fn lemma_ascending_total()
    ensures
        total_ordering(|a: u64, b: u64| ascending(a, b)),
{
}

/// The median delta: the central element of the sorted deltas for an odd
/// count, else the mean of the two central ones, in milliseconds (the mean
/// of `a` and `b` nanoseconds is `(a + b) * 5 / 10^7` milliseconds).
pub open spec fn median_of(deltas: Seq<u64>) -> Decimal {
    let s = sorted_deltas(deltas);
    let n = s.len() as int;
    if n % 2 == 0 {
        Decimal {
            negative: false,
            mantissa: ((s[n / 2 - 1] + s[n / 2]) * 5) as u128,
            scale: 7,
        }
    } else {
        Decimal::spec_from_nanos(s[n / 2])
    }
}

/// The median of the deltas, in milliseconds.
pub fn calculate_median_jitter(deltas: &Vec<u64>) -> (r: Decimal)
    requires
        deltas@.len() > 0,
    ensures
        r == median_of(deltas@),
        r.wf(),
{
    let mut sorted = deltas.clone();
    assert(sorted@ == deltas@);
    sort_ascending(&mut sorted);
    proof {
        let leq = |a: u64, b: u64| ascending(a, b);
        deltas@.lemma_sort_by_ensures(leq);
        lemma_ascending_total();
        vstd::seq_lib::lemma_sorted_unique(sorted@, sorted_deltas(deltas@), leq);
        vstd::seq_lib::to_multiset_len(sorted@);
        vstd::seq_lib::to_multiset_len(deltas@);
    }
    let n = sorted.len();
    if n % 2 == 0 {
        let a = sorted[n / 2 - 1] as u128;
        let b = sorted[n / 2] as u128;
        Decimal { negative: false, mantissa: (a + b) * 5, scale: 7 }
    } else {
        Decimal::from_nanos(sorted[n / 2])
    }
}

/// `m` is one of the deltas and no delta is longer.
pub open spec fn is_longest(deltas: Seq<u64>, m: u64) -> bool {
    deltas.contains(m) && forall|j: int| 0 <= j < deltas.len() ==> deltas[j] <= m
}

/// `m` is one of the deltas and no delta is shorter.
pub open spec fn is_shortest(deltas: Seq<u64>, m: u64) -> bool {
    deltas.contains(m) && forall|j: int| 0 <= j < deltas.len() ==> m <= deltas[j]
}

/// The longest of the deltas.
pub open spec fn longest(deltas: Seq<u64>) -> u64 {
    choose|m: u64| is_longest(deltas, m)
}

/// The shortest of the deltas.
pub open spec fn shortest(deltas: Seq<u64>) -> u64 {
    choose|m: u64| is_shortest(deltas, m)
}

/// The longest delta, in milliseconds; fails on an empty list.
pub fn calculate_max_jitter(deltas: &Vec<u64>) -> (r: Result<Decimal, CheckJitterError>)
    ensures
        deltas@.len() == 0 <==> r is Err,
        r matches Err(e) ==> e == CheckJitterError::EmptyDeltas,
        r matches Ok(d) ==> d == Decimal::spec_from_nanos(longest(deltas@)) && d.wf(),
{
    if deltas.len() == 0 {
        return Err(CheckJitterError::EmptyDeltas);
    }
    let mut best: usize = 0;
    let mut i: usize = 1;
    while i < deltas.len()
        invariant
            1 <= i <= deltas@.len(),
            best < i,
            forall|j: int| 0 <= j < i ==> deltas@[j] <= deltas@[best as int],
        decreases deltas@.len() - i,
    {
        if deltas[i] > deltas[best] {
            best = i;
        }
        i = i + 1;
    }
    proof {
        assert(is_longest(deltas@, deltas@[best as int]));
        let m = longest(deltas@);
        assert(deltas@.contains(m));
    }
    Ok(Decimal::from_nanos(deltas[best]))
}

/// The shortest delta, in milliseconds; fails on an empty list.
pub fn calculate_min_jitter(deltas: &Vec<u64>) -> (r: Result<Decimal, CheckJitterError>)
    ensures
        deltas@.len() == 0 <==> r is Err,
        r matches Err(e) ==> e == CheckJitterError::EmptyDeltas,
        r matches Ok(d) ==> d == Decimal::spec_from_nanos(shortest(deltas@)) && d.wf(),
{
    if deltas.len() == 0 {
        return Err(CheckJitterError::EmptyDeltas);
    }
    let mut best: usize = 0;
    let mut i: usize = 1;
    while i < deltas.len()
        invariant
            1 <= i <= deltas@.len(),
            best < i,
            forall|j: int| 0 <= j < i ==> deltas@[best as int] <= deltas@[j],
        decreases deltas@.len() - i,
    {
        if deltas[i] < deltas[best] {
            best = i;
        }
        i = i + 1;
    }
    proof {
        assert(is_shortest(deltas@, deltas@[best as int]));
        let m = shortest(deltas@);
        assert(deltas@.contains(m));
    }
    Ok(Decimal::from_nanos(deltas[best]))
}

/// The aggregated jitter of the deltas, in milliseconds.
pub open spec fn jitter_of(method: AggregationMethod, deltas: Seq<u64>) -> Decimal {
    match method {
        AggregationMethod::Average => average_of(deltas),
        AggregationMethod::Median => median_of(deltas),
        AggregationMethod::Max => Decimal::spec_from_nanos(longest(deltas)),
        AggregationMethod::Min => Decimal::spec_from_nanos(shortest(deltas)),
    }
}

/// Computes the deltas of the samples and reduces them with `method`;
/// fails when there are fewer than two samples.
pub fn aggregate_jitter(method: AggregationMethod, durations: &[u64]) -> (r: Result<
    Decimal,
    CheckJitterError,
>)
    ensures
        durations@.len() < 2 <==> r is Err,
        r matches Err(e) ==> e == CheckJitterError::InsufficientSamples(durations@.len() as u8),
        r matches Ok(d) ==> d == jitter_of(method, deltas_of(durations@)) && d.wf(),
{
    let deltas = match calculate_deltas(durations) {
        Ok(d) => d,
        Err(e) => return Err(e),
    };
    match method {
        AggregationMethod::Average => Ok(calculate_avg_jitter(&deltas)),
        AggregationMethod::Median => Ok(calculate_median_jitter(&deltas)),
        AggregationMethod::Max => calculate_max_jitter(&deltas),
        AggregationMethod::Min => calculate_min_jitter(&deltas),
    }
}

/// Rounds the jitter to `precision` decimal places, halves away from zero.
pub fn round_jitter(j: Decimal, precision: u8) -> (r: Decimal)
    requires
        j.wf(),
    ensures
        r == j.rounded(precision as nat),
        r.wf(),
{
    j.round(precision)
}

/// Rounding an already rounded value at the same precision changes nothing.
pub proof fn lemma_round_idempotent(j: Decimal, precision: nat)
    requires
        j.wf(),
    ensures
        j.rounded(precision).rounded(precision) == j.rounded(precision),
{
}

} // verus!
