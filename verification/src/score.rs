//! Score algebra: ranges, values and grades of scored items, and their totals.
//!
//! Everything here is a pure value. A range declares what a scored item can be
//! worth, a value is what was achieved, and a grade pairs the two. Aggregates
//! (a problem, a problem set, a contest) are totals of their parts.

use vstd::prelude::*;

verus! {

/// How many millionths make one whole point.
pub const MICROS_PER_POINT: u64 = 1_000_000;

/// A non-negative amount of points, held exactly as a whole number of
/// millionths of a point. Sums of scores are exact: nothing is ever rounded.
#[derive(Clone, Copy, Debug, PartialEq, Eq, Structural)]
pub struct Score(pub u64);

impl Score {
    /// The amount in millionths of a point.
    pub open spec fn micros(self) -> nat {
        self.0 as nat
    }

    /// The score of `points` whole points.
    pub fn from_points(points: u32) -> (score: Score)
        ensures
            score.micros() == points as nat * MICROS_PER_POINT as nat,
    {
        let wide: u64 = points as u64;
        assert(wide * 1_000_000 <= u64::MAX) by (nonlinear_arith)
            requires
                wide <= u32::MAX,
        ;
        Score(wide * MICROS_PER_POINT)
    }

    /// The score of `micros` millionths of a point.
    pub fn from_micros(micros: u64) -> (score: Score)
        ensures
            score.micros() == micros as nat,
    {
        Score(micros)
    }

    /// The whole points in this score, the fraction left out.
    pub fn whole_points(&self) -> (points: u64)
        ensures
            points as nat == self.micros() / MICROS_PER_POINT as nat,
    {
        self.0 / MICROS_PER_POINT
    }

    /// The millionths of a point beyond the whole points.
    pub fn fraction_micros(&self) -> (micros: u64)
        ensures
            micros as nat == self.micros() % MICROS_PER_POINT as nat,
    {
        self.0 % MICROS_PER_POINT
    }
}

/// What a scorable item can be worth.
#[derive(Clone, Copy, Debug, PartialEq, Eq, Structural)]
pub struct ScoreRange {
    /// Number of decimal places worth showing. Advisory: values are never
    /// rounded to it.
    pub precision: u8,
    /// The highest score that can be assigned.
    pub max: Score,
    /// Whether scores strictly between zero and `max` can be assigned.
    pub allow_partial: bool,
}

/// The sum of the maxima of `ranges`, in millionths of a point.
pub open spec fn sum_of_maxima(ranges: Seq<ScoreRange>) -> nat
    decreases ranges.len(),
{
    if ranges.len() == 0 {
        0
    } else {
        sum_of_maxima(ranges.drop_last()) + ranges.last().max.micros()
    }
}

/// The largest precision among `ranges`, zero when there is none.
pub open spec fn widest_precision(ranges: Seq<ScoreRange>) -> u8
    decreases ranges.len(),
{
    if ranges.len() == 0 {
        0
    } else if ranges.last().precision > widest_precision(ranges.drop_last()) {
        ranges.last().precision
    } else {
        widest_precision(ranges.drop_last())
    }
}

/// Whether an aggregate of `ranges` can take values strictly between zero
/// and the sum of the maxima: it can as soon as one part can, or as soon as
/// there is more than one part.
pub open spec fn total_allows_partial(ranges: Seq<ScoreRange>) -> bool {
    ranges.len() > 1 || exists|i: int| 0 <= i < ranges.len() && #[trigger] ranges[i].allow_partial
}

/// The sum of `values`, in millionths of a point.
pub open spec fn sum_of_values(values: Seq<ScoreValue>) -> nat
    decreases values.len(),
{
    if values.len() == 0 {
        0
    } else {
        sum_of_values(values.drop_last()) + values.last().score.micros()
    }
}

/// A prefix of a list of ranges never sums to more than the whole list.
proof fn lemma_maxima_prefix(ranges: Seq<ScoreRange>, n: int)
    requires
        0 <= n <= ranges.len(),
    ensures
        sum_of_maxima(ranges.take(n)) <= sum_of_maxima(ranges),
    decreases ranges.len() - n,
{
    if n == ranges.len() {
        assert(ranges.take(n) =~= ranges);
    } else {
        lemma_maxima_prefix(ranges, n + 1);
        assert(ranges.take(n + 1).drop_last() =~= ranges.take(n));
    }
}

/// A prefix of a list of values never sums to more than the whole list.
proof fn lemma_values_prefix(values: Seq<ScoreValue>, n: int)
    requires
        0 <= n <= values.len(),
    ensures
        sum_of_values(values.take(n)) <= sum_of_values(values),
    decreases values.len() - n,
{
    if n == values.len() {
        assert(values.take(n) =~= values);
    } else {
        lemma_values_prefix(values, n + 1);
        assert(values.take(n + 1).drop_last() =~= values.take(n));
    }
}

impl ScoreRange {
    /// Whether `value` may be assigned under this range: it lies between zero
    /// and `max`, and is one of the two ends unless partial scores are allowed.
    pub open spec fn spec_admits(self, value: Score) -> bool {
        value.micros() <= self.max.micros() && (self.allow_partial || value.micros() == 0
            || value.micros() == self.max.micros())
    }

    /// The range of an aggregate of `ranges`, provided the maxima sum to no
    /// more than a score can hold.
    pub open spec fn spec_total(ranges: Seq<ScoreRange>) -> ScoreRange {
        ScoreRange {
            precision: widest_precision(ranges),
            max: Score(sum_of_maxima(ranges) as u64),
            allow_partial: total_allows_partial(ranges),
        }
    }

    /// Checks that `value` may be assigned under this range.
    #[verifier::when_used_as_spec(spec_admits)]
    pub fn admits(self, value: Score) -> (admitted: bool)
        ensures
            admitted == self.spec_admits(value),
    {
        value.0 <= self.max.0 && (self.allow_partial || value.0 == 0 || value.0 == self.max.0)
    }

    /// The range of an aggregate of `ranges`, or `None` when the maxima sum
    /// to more than a score can hold.
    pub fn try_total(ranges: &Vec<ScoreRange>) -> (total: Option<ScoreRange>)
        ensures
            total is Some <==> sum_of_maxima(ranges@) <= u64::MAX,
            total is Some ==> total->Some_0 == Self::spec_total(ranges@),
    {
        let mut max: u64 = 0;
        let mut precision: u8 = 0;
        let mut any_partial = false;
        let mut i: usize = 0;
        while i < ranges.len()
            invariant
                i <= ranges.len(),
                max as nat == sum_of_maxima(ranges@.take(i as int)),
                precision == widest_precision(ranges@.take(i as int)),
                any_partial == (exists|k: int| 0 <= k < i && #[trigger] ranges@[k].allow_partial),
            decreases ranges.len() - i,
        {
            let range = ranges[i];
            proof {
                assert(ranges@.take(i + 1).drop_last() =~= ranges@.take(i as int));
                assert(ranges@.take(i + 1).last() == ranges@[i as int]);
            }
            match max.checked_add(range.max.0) {
                Some(sum) => {
                    max = sum;
                },
                None => {
                    proof {
                        lemma_maxima_prefix(ranges@, i + 1);
                    }
                    return None;
                },
            }
            if range.precision > precision {
                precision = range.precision;
            }
            any_partial = any_partial || range.allow_partial;
            i += 1;
        }
        assert(ranges@.take(i as int) =~= ranges@);
        Some(ScoreRange { precision, max: Score(max), allow_partial: ranges.len() > 1 || any_partial })
    }

    /// The range of an aggregate of `ranges`: its maximum is the sum of their
    /// maxima, its precision the largest of theirs, and it allows partial
    /// scores when one of them does or when there is more than one of them.
    pub fn total(ranges: Vec<ScoreRange>) -> (total: ScoreRange)
        requires
            sum_of_maxima(ranges@) <= u64::MAX,
        ensures
            total == Self::spec_total(ranges@),
    {
        Self::try_total(&ranges).unwrap()
    }
}

/// The declared bound of a scored item, single or aggregate.
#[derive(Clone, Copy, Debug, PartialEq, Eq, Structural)]
pub struct ScoreDomain {
    pub range: ScoreRange,
}

/// The amount achieved on a scored item, single or aggregate.
#[derive(Clone, Copy, Debug, PartialEq, Eq, Structural)]
pub struct ScoreValue {
    pub score: Score,
}

impl ScoreValue {
    /// The value of an aggregate of `values`, provided they sum to no more
    /// than a score can hold.
    pub open spec fn spec_total(values: Seq<ScoreValue>) -> ScoreValue {
        ScoreValue { score: Score(sum_of_values(values) as u64) }
    }

    /// The sum of `values`, or `None` when it is more than a score can hold.
    pub fn try_total(values: &Vec<ScoreValue>) -> (total: Option<ScoreValue>)
        ensures
            total is Some <==> sum_of_values(values@) <= u64::MAX,
            total is Some ==> total->Some_0 == Self::spec_total(values@),
    {
        let mut sum: u64 = 0;
        let mut i: usize = 0;
        while i < values.len()
            invariant
                i <= values.len(),
                sum as nat == sum_of_values(values@.take(i as int)),
            decreases values.len() - i,
        {
            proof {
                assert(values@.take(i + 1).drop_last() =~= values@.take(i as int));
                assert(values@.take(i + 1).last() == values@[i as int]);
            }
            match sum.checked_add(values[i].score.0) {
                Some(next) => {
                    sum = next;
                },
                None => {
                    proof {
                        lemma_values_prefix(values@, i + 1);
                    }
                    return None;
                },
            }
            i += 1;
        }
        assert(values@.take(i as int) =~= values@);
        Some(ScoreValue { score: Score(sum) })
    }

    /// The value of an aggregate: the plain sum of `values`. Nothing is
    /// clamped; each part is taken to lie within its own range already.
    pub fn total(values: Vec<ScoreValue>) -> (total: ScoreValue)
        requires
            sum_of_values(values@) <= u64::MAX,
        ensures
            total == Self::spec_total(values@),
    {
        Self::try_total(&values).unwrap()
    }
}

/// A bound together with the amount achieved against it.
#[derive(Clone, Copy, Debug, PartialEq, Eq, Structural)]
pub struct ScoreGrade {
    pub domain: ScoreDomain,
    pub value: ScoreValue,
}

impl ScoreGrade {
    /// Whether the value lies within the domain.
    pub open spec fn spec_is_valid(self) -> bool {
        self.domain.range.spec_admits(self.value.score)
    }

    /// Pairs `domain` with `value`. The value is not held to the domain:
    /// `is_valid` does that for callers who want it.
    pub fn new(domain: ScoreDomain, value: ScoreValue) -> (grade: ScoreGrade)
        ensures
            grade == (ScoreGrade { domain, value }),
    {
        ScoreGrade { domain, value }
    }

    /// Checks that the value lies within the domain.
    #[verifier::when_used_as_spec(spec_is_valid)]
    pub fn is_valid(self) -> (valid: bool)
        ensures
            valid == self.spec_is_valid(),
    {
        self.domain.range.admits(self.value.score)
    }
}

/// The bound of a scored item, and the grade reached against it if there is
/// one.
#[derive(Clone, Copy, Debug, PartialEq, Eq, Structural)]
pub struct ScoreGrading {
    pub domain: ScoreDomain,
    pub grade: Option<ScoreGrade>,
}

/// The largest precision among a list of ranges bounds each of them, and is
/// the precision of one of them unless the list is empty.
pub proof fn lemma_widest_precision(ranges: Seq<ScoreRange>)
    ensures
        forall|i: int| 0 <= i < ranges.len() ==> (#[trigger] ranges[i]).precision <= widest_precision(ranges),
        ranges.len() == 0 ==> widest_precision(ranges) == 0,
        ranges.len() > 0 ==> exists|i: int|
            0 <= i < ranges.len() && (#[trigger] ranges[i]).precision == widest_precision(ranges),
    decreases ranges.len(),
{
    if ranges.len() > 0 {
        let rest = ranges.drop_last();
        lemma_widest_precision(rest);
        assert forall|i: int| 0 <= i < ranges.len() implies (#[trigger] ranges[i]).precision
            <= widest_precision(ranges) by {
            if i < rest.len() {
                assert(ranges[i] == rest[i]);
            }
        }
        if ranges.last().precision > widest_precision(rest) || rest.len() == 0 {
            assert(ranges[ranges.len() - 1].precision == widest_precision(ranges));
        } else {
            let j = choose|j: int| 0 <= j < rest.len() && (#[trigger] rest[j]).precision == widest_precision(rest);
            assert(ranges[j] == rest[j]);
        }
    }
}

/// Totals of admitted parts are admitted: when each value lies within the
/// range at the same place, the sum of the values lies within the total of
/// the ranges.
pub proof fn lemma_total_of_admitted_is_admitted(ranges: Seq<ScoreRange>, values: Seq<ScoreValue>)
    requires
        ranges.len() == values.len(),
        forall|i: int| 0 <= i < ranges.len() ==> (#[trigger] ranges[i]).spec_admits(values[i].score),
        sum_of_maxima(ranges) <= u64::MAX,
    ensures
        sum_of_values(values) <= sum_of_maxima(ranges),
        ScoreRange::spec_total(ranges).spec_admits(ScoreValue::spec_total(values).score),
    decreases ranges.len(),
{
    if ranges.len() > 0 {
        let r = ranges.drop_last();
        let v = values.drop_last();
        assert forall|i: int| 0 <= i < r.len() implies (#[trigger] r[i]).spec_admits(v[i].score) by {
            assert(ranges[i].spec_admits(values[i].score));
        }
        assert(ranges[ranges.len() - 1].spec_admits(values[ranges.len() - 1].score));
        lemma_total_of_admitted_is_admitted(r, v);
        if ranges.len() == 1 {
            assert(sum_of_maxima(r) == 0);
            assert(sum_of_values(v) == 0);
            if ranges[0].allow_partial {
                assert(total_allows_partial(ranges));
            }
        }
    }
}

} // verus!
