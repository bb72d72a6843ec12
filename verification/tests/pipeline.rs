use bigdecimal::num_bigint::BigInt;
use bigdecimal::{BigDecimal, FromPrimitive, ToPrimitive};
use metrics_notifier::binary64::Binary64;
use metrics_notifier::cloud_watch_metrics_client::StatisticsRequest;
use metrics_notifier::decimal::Quotient;
use metrics_notifier::error::MetricsNotifierError;
use metrics_notifier::metric::{AggregatedMetrics, Converted, Datapoint};
use metrics_notifier::report::run;
use metrics_notifier::time_range::{Instant, LAST_MONTH_SECONDS};
use std::cell::RefCell;

fn binary64(value: f64) -> Binary64 {
    Binary64::from_bits(value.to_bits())
}

fn datapoint(average: f64, minimum: f64, maximum: f64) -> Datapoint {
    let parts = BigDecimal::from_f64(average).map(|decimal| {
        let (digits, scale) = decimal.into_bigint_and_exponent();
        (digits.to_signed_bytes_le(), scale)
    });
    Datapoint {
        average: Some(Converted::from_parts(parts).unwrap()),
        maximum: Some(binary64(maximum)),
        minimum: Some(binary64(minimum)),
    }
}

fn to_binary64(quotient: &Quotient) -> Option<Binary64> {
    BigDecimal::new(BigInt::from_signed_bytes_le(&quotient.digits), quotient.scale)
        .to_f64()
        .map(binary64)
}

fn metrics(average: f64, maximum: f64, minimum: f64) -> AggregatedMetrics {
    AggregatedMetrics {
        average: binary64(average),
        maximum: binary64(maximum),
        minimum: binary64(minimum),
    }
}

fn now() -> Instant {
    // 2019-01-12T00:00:00Z
    Instant::from_timestamp(1_547_251_200).unwrap()
}

#[test]
fn cloud_watch_metrics_client_test_aggregate_metrics() {
    let fetch = |_: StatisticsRequest| {
        Ok(Some(vec![
            datapoint(52.2, 10.0, 97.0),
            datapoint(51.4, 12.0, 99.0),
            datapoint(51.8, 11.0, 98.0),
            datapoint(51.8, 13.0, 96.0),
        ]))
    };
    let result = run(now(), fetch, to_binary64);

    assert_eq!(result.unwrap(), metrics(51.8, 99.0, 10.0));
}

#[test]
fn client_test_aggregate_metrics() {
    let fetch = |_: StatisticsRequest| {
        Ok(Some(vec![
            datapoint(52.2, 10.0, 97.0),
            datapoint(51.4, 12.0, 99.0),
            datapoint(51.8, 11.0, 98.0),
            datapoint(51.8, 13.0, 96.0),
        ]))
    };
    let result = run(now(), fetch, to_binary64);

    assert_eq!(result.unwrap(), metrics(51.8, 99.0, 10.0));
}

#[test]
fn cloud_watch_metrics_client_test_aggregate_metrics_error() {
    let fetch = |_: StatisticsRequest| Err("400 Bad Request".to_string());
    let result = run(now(), fetch, to_binary64);

    assert!(result.is_err());
}

#[test]
fn client_test_aggregate_metrics_error() {
    let fetch = |_: StatisticsRequest| Err("400 Bad Request".to_string());
    let result = run(now(), fetch, to_binary64);

    assert!(result.is_err());
}

#[test]
fn a_failed_source_ends_the_report_in_its_own_words() {
    let fetch = |_: StatisticsRequest| Err("400 Bad Request".to_string());
    let result = run(now(), fetch, to_binary64);
    assert_eq!(
        result,
        Err(MetricsNotifierError::GetMetricsError("400 Bad Request".to_string()))
    );
}

#[test]
fn the_source_is_asked_for_the_month_around_now() {
    let seen: RefCell<Option<StatisticsRequest>> = RefCell::new(None);
    let fetch = |request: StatisticsRequest| {
        *seen.borrow_mut() = Some(request);
        Ok(None)
    };
    let result = run(now(), fetch, to_binary64);
    assert_eq!(result, Ok(AggregatedMetrics::default()));
    let request = seen.into_inner().unwrap();
    assert_eq!(request.start_time, "2018-12-31T15:00:00Z");
    assert_eq!(request.end_time, "2019-01-31T14:59:59Z");
    assert_eq!(request.metric_name, "CPUUtilization");
    assert_eq!(request.namespace, "AWS/EC2");
    assert_eq!(request.statistics, ["Average", "Minimum", "Maximum"]);
}

#[test]
fn the_source_is_not_asked_where_there_is_no_month() {
    let asked = RefCell::new(false);
    let fetch = |_: StatisticsRequest| {
        *asked.borrow_mut() = true;
        Ok(None)
    };
    // The clock nine hours ahead shows a year here that has no dates.
    let late = Instant::from_timestamp(LAST_MONTH_SECONDS + 1).unwrap();
    assert_eq!(run(late, fetch, to_binary64), Err(MetricsNotifierError::NoneValue));
    assert!(!asked.into_inner());
}

#[test]
fn a_datapoint_without_a_statistic_ends_the_report() {
    let fetch = |_: StatisticsRequest| {
        let mut broken = datapoint(1.0, 1.0, 1.0);
        broken.maximum = None;
        Ok(Some(vec![datapoint(1.0, 1.0, 1.0), broken]))
    };
    assert_eq!(run(now(), fetch, to_binary64), Err(MetricsNotifierError::NoneValue));
}

#[test]
fn a_mean_that_does_not_convert_ends_the_report() {
    let fetch = |_: StatisticsRequest| Ok(Some(vec![datapoint(1.0, 1.0, 1.0)]));
    let convert = |_: &Quotient| None;
    assert_eq!(run(now(), fetch, convert), Err(MetricsNotifierError::ToPrimitive));
}
