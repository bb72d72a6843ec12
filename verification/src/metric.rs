//! Datapoints as they come from the metric source, and what a month of them reduces to.

use crate::binary64::Binary64;
use crate::decimal::{decimal_quotient, Decimal, DecimalValue, Quotient, MAX_SCALE};
use crate::error::MetricsNotifierError;
use vstd::arithmetic::power::{lemma_pow_adds, pow};
use vstd::prelude::*;
use vstd::seq_lib::{commutative_foldl, group_to_multiset_ensures, lemma_fold_left_permutation};

verus! {

/// The bits of 0.0, which a window without datapoints has for each of its metrics.
pub const ZERO_BITS: u64 = 0;

/// The bits of a NaN, which stands for an extreme that is not set yet: it gives way to
/// the first statistic that is a number.
pub const UNSET_BITS: u64 = 0x7FF8_0000_0000_0000;

/// An average on its way into a decimal sum.
#[derive(Clone, Debug, PartialEq, Eq)]
pub enum Converted {
    /// The average as the decimal that it is exactly.
    Exact(Decimal),
    /// An average that no decimal stands for, which counts as zero.
    Unrepresentable,
}

/// The statistics of one period. Any of them may be absent.
#[derive(Clone, Debug, PartialEq, Eq)]
pub struct Datapoint {
    pub average: Option<Converted>,
    pub maximum: Option<Binary64>,
    pub minimum: Option<Binary64>,
}

/// Average, maximum and minimum over a reporting window.
#[derive(Clone, Copy, Debug, PartialEq, Eq, Structural)]
pub struct AggregatedMetrics {
    pub average: Binary64,
    pub maximum: Binary64,
    pub minimum: Binary64,
}

/// What the datapoints of a window reduce to before the average is made binary64.
#[derive(Clone, Debug, PartialEq, Eq)]
pub enum Reduction {
    /// There were no datapoints.
    Empty,
    /// The decimal mean of the averages beside the extremes.
    Mean { average: Quotient, maximum: Binary64, minimum: Binary64 },
}

impl Converted {
    /// What an average becomes, from what its conversion to a decimal gave: the digits
    /// and the scale, or nothing. An average that no decimal stands for is
    /// unrepresentable. A decimal whose scale no sum is taken at fails the conversion.
    pub fn from_parts(parts: Option<(Vec<u8>, i64)>) -> (result: Result<
        Converted,
        MetricsNotifierError,
    >)
        ensures
            match parts {
                None => result == Ok::<Converted, MetricsNotifierError>(
                    Converted::Unrepresentable,
                ),
                Some((digits, scale)) => if -MAX_SCALE <= scale <= MAX_SCALE {
                    result matches Ok(Converted::Exact(decimal)) && decimal.bytes() == digits@
                        && decimal.places() == scale
                } else {
                    result == Err::<Converted, MetricsNotifierError>(
                        MetricsNotifierError::ToPrimitive,
                    )
                },
            },
    {
        match parts {
            Some((digits, scale)) => match Decimal::new(digits, scale) {
                Some(decimal) => Ok(Converted::Exact(decimal)),
                None => Err(MetricsNotifierError::ToPrimitive),
            },
            None => Ok(Converted::Unrepresentable),
        }
    }
}

impl Datapoint {
    /// Whether all three statistics are there.
    pub open spec fn complete(&self) -> bool {
        self.average is Some && self.minimum is Some && self.maximum is Some
    }

    /// What the average adds to a sum.
    pub open spec fn addend(&self) -> DecimalValue {
        match self.average {
            Some(Converted::Exact(decimal)) => decimal@,
            _ => DecimalValue::zero(),
        }
    }
}

impl AggregatedMetrics {
    /// The metrics of a window without datapoints: all three are 0.0.
    pub open spec fn zero() -> AggregatedMetrics {
        AggregatedMetrics {
            average: Binary64 { bits: ZERO_BITS },
            maximum: Binary64 { bits: ZERO_BITS },
            minimum: Binary64 { bits: ZERO_BITS },
        }
    }
}

impl Default for AggregatedMetrics {
    fn default() -> (metrics: AggregatedMetrics)
        ensures
            metrics == AggregatedMetrics::zero(),
    {
        AggregatedMetrics {
            average: Binary64 { bits: ZERO_BITS },
            maximum: Binary64 { bits: ZERO_BITS },
            minimum: Binary64 { bits: ZERO_BITS },
        }
    }
}

pub open spec fn all_complete(points: Seq<Datapoint>) -> bool {
    forall|i: int| 0 <= i < points.len() ==> (#[trigger] points[i]).complete()
}

/// The averages summed from the first datapoint on, starting at zero.
pub open spec fn total_average(points: Seq<Datapoint>) -> DecimalValue
    decreases points.len(),
{
    if points.len() == 0 {
        DecimalValue::zero()
    } else {
        total_average(points.drop_last()).plus(points.last().addend())
    }
}

/// The least of the minimums, taken from the first datapoint on. It is unset until a
/// minimum is a number.
pub open spec fn least_minimum(points: Seq<Datapoint>) -> Binary64
    decreases points.len(),
{
    if points.len() == 0 {
        Binary64 { bits: UNSET_BITS }
    } else {
        least_minimum(points.drop_last()).min_of(points.last().minimum->0)
    }
}

/// The greatest of the maximums, taken from the first datapoint on. It is unset until a
/// maximum is a number.
pub open spec fn greatest_maximum(points: Seq<Datapoint>) -> Binary64
    decreases points.len(),
{
    if points.len() == 0 {
        Binary64 { bits: UNSET_BITS }
    } else {
        greatest_maximum(points.drop_last()).max_of(points.last().maximum->0)
    }
}

/// The sum of the averages divided by the number of datapoints, as bigdecimal divides.
pub open spec fn mean_average(points: Seq<Datapoint>) -> DecimalValue {
    let quotient = decimal_quotient(
        total_average(points).unscaled,
        total_average(points).scale,
        points.len() as int,
        0,
    );
    DecimalValue { unscaled: quotient.0, scale: quotient.1 }
}

/// What a reduction stands for.
pub ghost enum ReductionValue {
    Empty,
    Mean { average: DecimalValue, maximum: Binary64, minimum: Binary64 },
}

impl View for Reduction {
    type V = ReductionValue;

    open spec fn view(&self) -> ReductionValue {
        match self {
            Reduction::Empty => ReductionValue::Empty,
            Reduction::Mean { average, maximum, minimum } => ReductionValue::Mean {
                average: average@,
                maximum: *maximum,
                minimum: *minimum,
            },
        }
    }
}

/// What the datapoints of a window reduce to. No datapoints are no failure. Otherwise an
/// absent statistic fails the whole window, and so does a number of datapoints beyond
/// 32 bits.
pub open spec fn reduction_of(points: Seq<Datapoint>) -> Result<
    ReductionValue,
    MetricsNotifierError,
> {
    if points.len() == 0 {
        Ok(ReductionValue::Empty)
    } else if !all_complete(points) {
        Err(MetricsNotifierError::NoneValue)
    } else if points.len() > u32::MAX {
        Err(MetricsNotifierError::TryFromIntError)
    } else {
        Ok(
            ReductionValue::Mean {
                average: mean_average(points),
                maximum: greatest_maximum(points),
                minimum: least_minimum(points),
            },
        )
    }
}

/// One datapoint without one of its statistics fails the whole window.
pub proof fn lemma_absent_statistic_fails(points: Seq<Datapoint>, i: int)
    requires
        0 <= i < points.len(),
        !points[i].complete(),
    ensures
        reduction_of(points) == Err::<ReductionValue, MetricsNotifierError>(
            MetricsNotifierError::NoneValue,
        ),
{
}

/// The step that `total_average` takes at each datapoint.
pub open spec fn add_average() -> spec_fn(DecimalValue, Datapoint) -> DecimalValue {
    |sum: DecimalValue, point: Datapoint| sum.plus(point.addend())
}

/// The step that `least_minimum` takes at each datapoint.
pub open spec fn take_minimum() -> spec_fn(Binary64, Datapoint) -> Binary64 {
    |least: Binary64, point: Datapoint| least.min_of(point.minimum->0)
}

/// The step that `greatest_maximum` takes at each datapoint.
pub open spec fn take_maximum() -> spec_fn(Binary64, Datapoint) -> Binary64 {
    |greatest: Binary64, point: Datapoint| greatest.max_of(point.maximum->0)
}

/// The three reductions are left folds of their steps.
pub proof fn lemma_reductions_are_folds(points: Seq<Datapoint>)
    ensures
        total_average(points) == points.fold_left(DecimalValue::zero(), add_average()),
        least_minimum(points) == points.fold_left(Binary64 { bits: UNSET_BITS }, take_minimum()),
        greatest_maximum(points) == points.fold_left(
            Binary64 { bits: UNSET_BITS },
            take_maximum(),
        ),
    decreases points.len(),
{
    if points.len() > 0 {
        lemma_reductions_are_folds(points.drop_last());
    }
}

/// Summing two decimals onto a third comes to the same in either order.
pub proof fn lemma_plus_commutes(sum: DecimalValue, a: DecimalValue, b: DecimalValue)
    ensures
        sum.plus(a).plus(b) == sum.plus(b).plus(a),
{
    let with_a = sum.plus(a);
    let with_b = sum.plus(b);
    let scale = sum.plus(a).plus(b).scale;
    assert(scale == sum.plus(b).plus(a).scale);
    lemma_plus_rescaled(sum, a, scale);
    lemma_plus_rescaled(sum, b, scale);
}

/// A sum rescaled is the sum of its operands rescaled.
proof fn lemma_plus_rescaled(a: DecimalValue, b: DecimalValue, scale: int)
    requires
        a.scale <= scale,
        b.scale <= scale,
    ensures
        a.plus(b).rescaled(scale) == a.rescaled(scale) + b.rescaled(scale),
{
    let inner = a.plus(b).scale;
    lemma_rescaled_twice(a, inner, scale);
    lemma_rescaled_twice(b, inner, scale);
    let factor = pow(10, (scale - inner) as nat);
    assert((a.rescaled(inner) + b.rescaled(inner)) * factor == a.rescaled(inner) * factor
        + b.rescaled(inner) * factor) by (nonlinear_arith);
}

/// Rescaling in two steps is rescaling in one.
proof fn lemma_rescaled_twice(a: DecimalValue, inner: int, outer: int)
    requires
        a.scale <= inner <= outer,
    ensures
        a.rescaled(inner) * pow(10, (outer - inner) as nat) == a.rescaled(outer),
{
    let first = (inner - a.scale) as nat;
    let second = (outer - inner) as nat;
    lemma_pow_adds(10, first, second);
    assert(first + second == (outer - a.scale) as nat);
    assert(a.unscaled * pow(10, first) * pow(10, second) == a.unscaled * (pow(10, first) * pow(
        10,
        second,
    ))) by (nonlinear_arith);
}

/// Datapoints in another order reduce to the same: the same failure, or the same mean,
/// maximum and minimum.
pub proof fn lemma_reduction_ignores_order(a: Seq<Datapoint>, b: Seq<Datapoint>)
    requires
        a.to_multiset() == b.to_multiset(),
    ensures
        reduction_of(a) == reduction_of(b),
{
    broadcast use group_to_multiset_ensures;

    a.to_multiset_ensures();
    b.to_multiset_ensures();
    assert(a.len() == b.len());
    if all_complete(a) {
        lemma_complete_ignores_order(a, b);
    }
    if all_complete(b) {
        lemma_complete_ignores_order(b, a);
    }
    lemma_reductions_are_folds(a);
    lemma_reductions_are_folds(b);
    assert(commutative_foldl(add_average())) by {
        assert forall|x: Datapoint, y: Datapoint, v: DecimalValue| #[trigger]
            add_average()(add_average()(v, x), y) == add_average()(add_average()(v, y), x) by {
            lemma_plus_commutes(v, x.addend(), y.addend());
        }
    }
    assert(commutative_foldl(take_minimum()));
    assert(commutative_foldl(take_maximum()));
    lemma_fold_left_permutation(a, b, add_average(), DecimalValue::zero());
    lemma_fold_left_permutation(a, b, take_minimum(), Binary64 { bits: UNSET_BITS });
    lemma_fold_left_permutation(a, b, take_maximum(), Binary64 { bits: UNSET_BITS });
}

proof fn lemma_complete_ignores_order(a: Seq<Datapoint>, b: Seq<Datapoint>)
    requires
        a.to_multiset() == b.to_multiset(),
        all_complete(a),
    ensures
        all_complete(b),
{
    broadcast use group_to_multiset_ensures;

    assert forall|i: int| 0 <= i < b.len() implies (#[trigger] b[i]).complete() by {
        assert(b.contains(b[i]));
        assert(a.to_multiset().count(b[i]) > 0);
        assert(a.contains(b[i]));
    }
}

/// Whether `least` is the least of the minimums: one of them, a number, and ranked no
/// higher than any minimum that is a number.
pub open spec fn is_least_minimum(points: Seq<Datapoint>, least: Binary64) -> bool {
    &&& !least.is_nan()
    &&& exists|i: int| 0 <= i < points.len() && (#[trigger] points[i]).minimum == Some(least)
    &&& forall|i: int|
        0 <= i < points.len() && !((#[trigger] points[i]).minimum->0).is_nan() ==> least.rank()
            <= (points[i].minimum->0).rank()
}

/// Whether `greatest` is the greatest of the maximums: one of them, a number, and ranked
/// no lower than any maximum that is a number.
pub open spec fn is_greatest_maximum(points: Seq<Datapoint>, greatest: Binary64) -> bool {
    &&& !greatest.is_nan()
    &&& exists|i: int| 0 <= i < points.len() && (#[trigger] points[i]).maximum == Some(greatest)
    &&& forall|i: int|
        0 <= i < points.len() && !((#[trigger] points[i]).maximum->0).is_nan()
            ==> greatest.rank() >= (points[i].maximum->0).rank()
}

/// Whether one of the minimums is a number.
pub open spec fn has_minimum(points: Seq<Datapoint>) -> bool {
    exists|i: int| 0 <= i < points.len() && !((#[trigger] points[i]).minimum->0).is_nan()
}

/// Whether one of the maximums is a number.
pub open spec fn has_maximum(points: Seq<Datapoint>) -> bool {
    exists|i: int| 0 <= i < points.len() && !((#[trigger] points[i]).maximum->0).is_nan()
}

/// The least minimum is unset or one of the minimums and a number, and it is set and
/// ranked no higher than any minimum that is a number.
pub proof fn lemma_least_minimum_bounds(points: Seq<Datapoint>)
    requires
        all_complete(points),
    ensures
        forall|i: int|
            0 <= i < points.len() && !((#[trigger] points[i]).minimum->0).is_nan()
                ==> !least_minimum(points).is_nan() && least_minimum(points).rank() <= (
            points[i].minimum->0).rank(),
        least_minimum(points).bits == UNSET_BITS || (!least_minimum(points).is_nan()
            && exists|i: int|
            0 <= i < points.len() && (#[trigger] points[i]).minimum == Some(
                least_minimum(points),
            )),
    decreases points.len(),
{
    if points.len() > 0 {
        let front = points.drop_last();
        lemma_least_minimum_bounds(front);
        let before = least_minimum(front);
        let least = least_minimum(points);
        assert(points.last().complete());
        assert forall|i: int|
            0 <= i < points.len() && !((#[trigger] points[i]).minimum->0).is_nan()
                implies !least.is_nan() && least.rank() <= (points[i].minimum->0).rank() by {
            if i < front.len() {
                assert(front[i] == points[i]);
            }
        }
        if least == before {
            if before.bits != UNSET_BITS {
                let i = choose|i: int|
                    0 <= i < front.len() && (#[trigger] front[i]).minimum == Some(before);
                assert(points[i] == front[i]);
            }
        } else {
            assert(points[points.len() - 1].minimum == Some(least));
        }
    }
}

/// The greatest maximum is unset or one of the maximums and a number, and it is set and
/// ranked no lower than any maximum that is a number.
pub proof fn lemma_greatest_maximum_bounds(points: Seq<Datapoint>)
    requires
        all_complete(points),
    ensures
        forall|i: int|
            0 <= i < points.len() && !((#[trigger] points[i]).maximum->0).is_nan()
                ==> !greatest_maximum(points).is_nan() && greatest_maximum(points).rank() >= (
            points[i].maximum->0).rank(),
        greatest_maximum(points).bits == UNSET_BITS || (!greatest_maximum(points).is_nan()
            && exists|i: int|
            0 <= i < points.len() && (#[trigger] points[i]).maximum == Some(
                greatest_maximum(points),
            )),
    decreases points.len(),
{
    if points.len() > 0 {
        let front = points.drop_last();
        lemma_greatest_maximum_bounds(front);
        let before = greatest_maximum(front);
        let greatest = greatest_maximum(points);
        assert(points.last().complete());
        assert forall|i: int|
            0 <= i < points.len() && !((#[trigger] points[i]).maximum->0).is_nan()
                implies !greatest.is_nan() && greatest.rank() >= (points[i].maximum->0).rank() by {
            if i < front.len() {
                assert(front[i] == points[i]);
            }
        }
        if greatest == before {
            if before.bits != UNSET_BITS {
                let i = choose|i: int|
                    0 <= i < front.len() && (#[trigger] front[i]).maximum == Some(before);
                assert(points[i] == front[i]);
            }
        } else {
            assert(points[points.len() - 1].maximum == Some(greatest));
        }
    }
}

/// Where every datapoint is complete, the reduction's minimum is the least of the
/// minimums wherever one of them is a number, and its maximum the greatest of the
/// maximums wherever one of them is a number. An extreme of which none is a number
/// stays unset.
pub proof fn lemma_extremes_are_exact(points: Seq<Datapoint>)
    requires
        all_complete(points),
    ensures
        has_minimum(points) ==> is_least_minimum(points, least_minimum(points)),
        has_maximum(points) ==> is_greatest_maximum(points, greatest_maximum(points)),
        !has_minimum(points) ==> least_minimum(points).bits == UNSET_BITS,
        !has_maximum(points) ==> greatest_maximum(points).bits == UNSET_BITS,
{
    lemma_least_minimum_bounds(points);
    lemma_greatest_maximum_bounds(points);
    if !has_minimum(points) && least_minimum(points).bits != UNSET_BITS {
        let i = choose|i: int|
            0 <= i < points.len() && (#[trigger] points[i]).minimum == Some(
                least_minimum(points),
            );
        assert(!(points[i].minimum->0).is_nan());
    }
    if !has_maximum(points) && greatest_maximum(points).bits != UNSET_BITS {
        let i = choose|i: int|
            0 <= i < points.len() && (#[trigger] points[i]).maximum == Some(
                greatest_maximum(points),
            );
        assert(!(points[i].maximum->0).is_nan());
    }
}

} // verus!
