//! The client's part that computes: the reduction of the datapoints of a window.

use crate::binary64::Binary64;
use crate::clock::utc_text;
use crate::decimal::{decimal_add, decimal_div, decimal_from_u32};
use crate::error::MetricsNotifierError;
use crate::metric::{
    all_complete, greatest_maximum, has_maximum, has_minimum, is_greatest_maximum,
    is_least_minimum, least_minimum, lemma_extremes_are_exact, reduction_of, total_average,
    AggregatedMetrics, Converted, Datapoint, Reduction, ReductionValue, UNSET_BITS,
};
use crate::time_range::TimeRange;
use vstd::prelude::*;

verus! {

/// The datapoints that a response carries: none where it carries no list.
pub open spec fn points_of(data_points: Option<Vec<Datapoint>>) -> Seq<Datapoint> {
    match data_points {
        Some(points) => points@,
        None => Seq::empty(),
    }
}

/// The number of datapoints as the divisor of the mean, which has 32 bits.
pub fn sample_count(length: usize) -> (count: Result<u32, MetricsNotifierError>)
    ensures
        length <= u32::MAX ==> count == Ok::<u32, MetricsNotifierError>(length as u32),
        length > u32::MAX ==> count == Err::<u32, MetricsNotifierError>(
            MetricsNotifierError::TryFromIntError,
        ),
{
    match u32::try_from(length) {
        Ok(count) => Ok(count),
        Err(_) => Err(MetricsNotifierError::TryFromIntError),
    }
}

/// What the answer of the metric source reduces to: its failure is the report's, in the
/// source's own words, and its datapoints reduce as `reduction_of` says.
pub open spec fn reduction_of_answer(fetched: Result<Option<Vec<Datapoint>>, String>) -> Result<
    ReductionValue,
    MetricsNotifierError,
> {
    match fetched {
        Ok(data_points) => reduction_of(points_of(data_points)),
        Err(cause) => Err(MetricsNotifierError::GetMetricsError(cause)),
    }
}

/// What is asked of the metric source for one window.
#[derive(Clone, Debug, PartialEq, Eq)]
pub struct StatisticsRequest {
    pub start_time: String,
    pub end_time: String,
    pub metric_name: String,
    pub namespace: String,
    pub period: i64,
    pub statistics: Vec<String>,
}

/// Whether the request asks for the CPU utilisation of the window from `range.0` to
/// `range.1`: its average, minimum and maximum.
pub open spec fn is_request_for(request: StatisticsRequest, range: (int, int)) -> bool {
    &&& request.start_time@ == utc_text(range.0)
    &&& request.end_time@ == utc_text(range.1)
    &&& request.metric_name@ == "CPUUtilization"@
    &&& request.namespace@ == "AWS/EC2"@
    &&& request.period == 0
    &&& request.statistics@.len() == 3
    &&& request.statistics@[0]@ == "Average"@
    &&& request.statistics@[1]@ == "Minimum"@
    &&& request.statistics@[2]@ == "Maximum"@
}

/// The part of the CloudWatch client that needs no connection.
pub struct CloudWatchMetricsClient {}

impl CloudWatchMetricsClient {
    pub fn new() -> (client: CloudWatchMetricsClient) {
        CloudWatchMetricsClient {  }
    }

    /// The request for the CPU utilisation of a window: its average, minimum and maximum,
    /// from the window's first instant to its last.
    pub fn statistics_request(&self, time_range: &TimeRange) -> (request: StatisticsRequest)
        ensures
            is_request_for(request, time_range@),
    {
        let mut statistics: Vec<String> = Vec::new();
        statistics.push("Average".to_owned());
        statistics.push("Minimum".to_owned());
        statistics.push("Maximum".to_owned());
        StatisticsRequest {
            start_time: time_range.start().to_text(),
            end_time: time_range.end().to_text(),
            metric_name: "CPUUtilization".to_owned(),
            namespace: "AWS/EC2".to_owned(),
            period: 0,
            statistics,
        }
    }

    /// Reduces the datapoints of a window. No datapoints reduce to `Empty`. Otherwise
    /// every datapoint must be complete, and their number must fit 32 bits; the result
    /// is then the decimal mean of the averages, the greatest of the maximums and the
    /// least of the minimums.
    pub fn aggregate_data_points(&self, data_points: Option<Vec<Datapoint>>) -> (result: Result<
        Reduction,
        MetricsNotifierError,
    >)
        ensures
            match result {
                Ok(reduction) => reduction_of(points_of(data_points)) == Ok::<
                    ReductionValue,
                    MetricsNotifierError,
                >(reduction@),
                Err(error) => reduction_of(points_of(data_points)) == Err::<
                    ReductionValue,
                    MetricsNotifierError,
                >(error),
            },
            result matches Ok(Reduction::Mean { average: _, maximum, minimum }) ==> (has_minimum(
                points_of(data_points),
            ) ==> is_least_minimum(points_of(data_points), minimum)) && (has_maximum(
                points_of(data_points),
            ) ==> is_greatest_maximum(points_of(data_points), maximum)),
    {
        let points = match data_points {
            Some(points) => points,
            None => Vec::new(),
        };
        let length = points.len();
        if length == 0 {
            return Ok(Reduction::Empty);
        }
        let mut total = decimal_from_u32(0);
        let mut minimum = Binary64 { bits: UNSET_BITS };
        let mut maximum = Binary64 { bits: UNSET_BITS };
        let mut i: usize = 0;
        while i < length
            invariant
                i <= length,
                0 < length == points@.len(),
                points@ == points_of(data_points),
                all_complete(points@.take(i as int)),
                total@ == total_average(points@.take(i as int)),
                minimum == least_minimum(points@.take(i as int)),
                maximum == greatest_maximum(points@.take(i as int)),
            decreases length - i,
        {
            let point = &points[i];
            assert(points@.take(i + 1).drop_last() == points@.take(i as int));
            assert(points@.take(i + 1).last() == points@[i as int]);
            match &point.average {
                None => {
                    return Err(MetricsNotifierError::NoneValue);
                },
                Some(Converted::Exact(decimal)) => {
                    total = decimal_add(&total, decimal);
                },
                Some(Converted::Unrepresentable) => {
                    let zero = decimal_from_u32(0);
                    total = decimal_add(&total, &zero);
                },
            }
            match point.minimum {
                None => {
                    return Err(MetricsNotifierError::NoneValue);
                },
                Some(value) => {
                    minimum = minimum.min(value);
                },
            }
            match point.maximum {
                None => {
                    return Err(MetricsNotifierError::NoneValue);
                },
                Some(value) => {
                    maximum = maximum.max(value);
                },
            }
            i += 1;
        }
        assert(points@.take(length as int) == points@);
        let count = match sample_count(length) {
            Ok(count) => count,
            Err(error) => {
                return Err(error);
            },
        };
        let divisor = decimal_from_u32(count);
        let average = decimal_div(&total, &divisor);
        proof {
            lemma_extremes_are_exact(points@);
        }
        Ok(Reduction::Mean { average, maximum, minimum })
    }

    /// Reduces what the metric source answered to a request: a failure of the source
    /// ends the report, and datapoints are reduced.
    pub fn aggregate_metrics(&self, fetched: Result<Option<Vec<Datapoint>>, String>) -> (result:
        Result<Reduction, MetricsNotifierError>)
        ensures
            match result {
                Ok(reduction) => reduction_of_answer(fetched) == Ok::<
                    ReductionValue,
                    MetricsNotifierError,
                >(reduction@),
                Err(error) => reduction_of_answer(fetched) == Err::<
                    ReductionValue,
                    MetricsNotifierError,
                >(error),
            },
    {
        match fetched {
            Ok(data_points) => self.aggregate_data_points(data_points),
            Err(cause) => Err(MetricsNotifierError::GetMetricsError(cause)),
        }
    }

    /// Ends a reduction with the binary64 form of its decimal mean, where there is one.
    pub fn finish(&self, reduction: Reduction, average: Option<Binary64>) -> (result: Result<
        AggregatedMetrics,
        MetricsNotifierError,
    >)
        ensures
            reduction is Empty ==> result == Ok::<AggregatedMetrics, MetricsNotifierError>(
                AggregatedMetrics::zero(),
            ),
            reduction is Mean && average is None ==> result == Err::<
                AggregatedMetrics,
                MetricsNotifierError,
            >(MetricsNotifierError::ToPrimitive),
            reduction is Mean && average is Some ==> result == Ok::<
                AggregatedMetrics,
                MetricsNotifierError,
            >(
                AggregatedMetrics {
                    average: average->0,
                    maximum: reduction->maximum,
                    minimum: reduction->minimum,
                },
            ),
    {
        match reduction {
            Reduction::Empty => Ok(AggregatedMetrics::default()),
            Reduction::Mean { average: _, maximum, minimum } => match average {
                None => Err(MetricsNotifierError::ToPrimitive),
                Some(average) => Ok(AggregatedMetrics { average, maximum, minimum }),
            },
        }
    }
}

} // verus!
