//! One report from its trigger to its result.

use crate::binary64::Binary64;
use crate::cloud_watch_metrics_client::{
    is_request_for, reduction_of_answer, CloudWatchMetricsClient, StatisticsRequest,
};
use crate::decimal::Quotient;
use crate::error::MetricsNotifierError;
use crate::metric::{AggregatedMetrics, Datapoint, Reduction, ReductionValue};
use crate::time_range::{month_range, Instant, TimeRange};
use vstd::prelude::*;

verus! {

/// The event that triggers a report. It carries nothing.
#[derive(Clone, Copy, Debug, PartialEq, Eq, Structural)]
pub struct ReportEvent {}

/// What a report hands back to the one that triggered it.
#[derive(Debug, PartialEq, Eq)]
pub struct ReportHandlerOutput {
    message: String,
}

impl View for ReportHandlerOutput {
    type V = Seq<char>;

    /// The message.
    closed spec fn view(&self) -> Seq<char> {
        self.message@
    }
}

impl ReportHandlerOutput {
    pub fn new(message: String) -> (output: ReportHandlerOutput)
        ensures
            output@ == message@,
    {
        ReportHandlerOutput { message }
    }

    pub fn message(&self) -> (message: &String)
        ensures
            message@ == self@,
    {
        &self.message
    }
}

/// How a report ends once the datapoints are reduced: no datapoints give the zero
/// metrics; a mean is handed to `convert`, and ends the report with what came back.
pub open spec fn ends_after_reduction<C: FnOnce(&Quotient) -> Option<Binary64>>(
    reduction: ReductionValue,
    convert: C,
    result: Result<AggregatedMetrics, MetricsNotifierError>,
) -> bool {
    match reduction {
        ReductionValue::Empty => result == Ok::<AggregatedMetrics, MetricsNotifierError>(
            AggregatedMetrics::zero(),
        ),
        ReductionValue::Mean { average, maximum, minimum } => exists|
            quotient: Quotient,
            converted: Option<Binary64>,
        |
            quotient@ == average && call_ensures(convert, (&quotient,), converted) && result == (
            match converted {
                Some(average) => Ok(AggregatedMetrics { average, maximum, minimum }),
                None => Err(MetricsNotifierError::ToPrimitive),
            }),
    }
}

/// How a report ends once the metric source has answered: a failure of the source or of
/// the reduction ends the report with that failure.
pub open spec fn ends_after_fetch<C: FnOnce(&Quotient) -> Option<Binary64>>(
    fetched: Result<Option<Vec<Datapoint>>, String>,
    convert: C,
    result: Result<AggregatedMetrics, MetricsNotifierError>,
) -> bool {
    match reduction_of_answer(fetched) {
        Err(error) => result == Err::<AggregatedMetrics, MetricsNotifierError>(error),
        Ok(reduction) => ends_after_reduction(reduction, convert, result),
    }
}

/// A metric source that failed ends the report with that failure, in the source's own
/// words, and never with metrics.
pub proof fn lemma_failed_source_fails<C: FnOnce(&Quotient) -> Option<Binary64>>(
    cause: String,
    convert: C,
    result: Result<AggregatedMetrics, MetricsNotifierError>,
)
    requires
        ends_after_fetch(Err(cause), convert, result),
    ensures
        result == Err::<AggregatedMetrics, MetricsNotifierError>(
            MetricsNotifierError::GetMetricsError(cause),
        ),
{
}

/// One report: the month around `now`, the datapoints that `fetch` returns for it, and
/// their reduction, with the mean made binary64 by `convert`. The first failure ends the
/// report: an instant without a month, the metric source's failure, a failed reduction
/// or a mean without binary64 form.
pub fn run<F, C>(now: Instant, fetch: F, convert: C) -> (result: Result<
    AggregatedMetrics,
    MetricsNotifierError,
>) where
    F: FnOnce(StatisticsRequest) -> Result<Option<Vec<Datapoint>>, String>,
    C: FnOnce(&Quotient) -> Option<Binary64>,

    requires
        forall|request: StatisticsRequest| call_requires(fetch, (request,)),
        forall|quotient: &Quotient| call_requires(convert, (quotient,)),
    ensures
        match month_range(now@) {
            None => result == Err::<AggregatedMetrics, MetricsNotifierError>(
                MetricsNotifierError::NoneValue,
            ),
            Some(range) => exists|
                request: StatisticsRequest,
                fetched: Result<Option<Vec<Datapoint>>, String>,
            |
                is_request_for(request, range) && call_ensures(fetch, (request,), fetched)
                    && ends_after_fetch(fetched, convert, result),
        },
{
    let range = match TimeRange::try_from(now) {
        Ok(range) => range,
        Err(error) => {
            return Err(error);
        },
    };
    let client = CloudWatchMetricsClient::new();
    let request = client.statistics_request(&range);
    let reduction = match client.aggregate_metrics(fetch(request)) {
        Ok(reduction) => reduction,
        Err(error) => {
            return Err(error);
        },
    };
    let converted = match &reduction {
        Reduction::Empty => None,
        Reduction::Mean { average, maximum: _, minimum: _ } => convert(average),
    };
    let result = client.finish(reduction, converted);
    assert(ends_after_reduction(reduction@, convert, result));
    result
}

} // verus!
