use bigdecimal::num_bigint::BigInt;
use bigdecimal::{BigDecimal, FromPrimitive, ToPrimitive};
use metrics_notifier::binary64::Binary64;
use metrics_notifier::cloud_watch_metrics_client::{sample_count, CloudWatchMetricsClient};
use metrics_notifier::decimal::{Decimal, Quotient, MAX_SCALE};
use metrics_notifier::error::MetricsNotifierError;
use metrics_notifier::metric::{
    AggregatedMetrics, Converted, Datapoint, Reduction, UNSET_BITS,
};

fn converted(average: f64) -> Converted {
    Converted::from_parts(BigDecimal::from_f64(average).map(|decimal| {
        let (digits, scale) = decimal.into_bigint_and_exponent();
        (digits.to_signed_bytes_le(), scale)
    }))
    .unwrap()
}

fn binary64(value: f64) -> Binary64 {
    Binary64::from_bits(value.to_bits())
}

fn datapoint(average: Option<f64>, maximum: Option<f64>, minimum: Option<f64>) -> Datapoint {
    Datapoint {
        average: average.map(converted),
        maximum: maximum.map(binary64),
        minimum: minimum.map(binary64),
    }
}

fn to_binary64(quotient: &Quotient) -> Option<Binary64> {
    BigDecimal::new(BigInt::from_signed_bytes_le(&quotient.digits), quotient.scale)
        .to_f64()
        .map(binary64)
}

fn aggregate(
    data_points: Option<Vec<Datapoint>>,
) -> Result<AggregatedMetrics, MetricsNotifierError> {
    let client = CloudWatchMetricsClient::new();
    let reduction = client.aggregate_data_points(data_points)?;
    let average = match &reduction {
        Reduction::Empty => None,
        Reduction::Mean { average, .. } => to_binary64(average),
    };
    client.finish(reduction, average)
}

fn metrics(average: f64, maximum: f64, minimum: f64) -> AggregatedMetrics {
    AggregatedMetrics {
        average: binary64(average),
        maximum: binary64(maximum),
        minimum: binary64(minimum),
    }
}

fn four_points() -> Vec<Datapoint> {
    vec![
        datapoint(Some(55.5), Some(91.0), Some(11.0)),
        datapoint(Some(28.8), Some(92.0), Some(13.0)),
        datapoint(Some(40.2), Some(93.0), Some(12.0)),
        datapoint(Some(51.3), Some(93.0), Some(12.0)),
    ]
}

#[test]
fn cloud_watch_metrics_client_test_aggregate_data_points() {
    let result = aggregate(Some(four_points()));
    assert_eq!(metrics(43.95, 93.0, 11.0), result.unwrap());
}

#[test]
fn client_test_aggregate_data_points() {
    let result = aggregate(Some(four_points()));
    assert_eq!(metrics(43.95, 93.0, 11.0), result.unwrap());
}

#[test]
fn cloud_watch_metrics_client_test_aggregate_when_zero_value() {
    let result = aggregate(Some(vec![]));
    assert_eq!(metrics(0.0, 0.0, 0.0), result.unwrap());
}

#[test]
fn client_test_aggregate_when_zero_value() {
    let result = aggregate(Some(vec![]));
    assert_eq!(metrics(0.0, 0.0, 0.0), result.unwrap());
}

#[test]
fn cloud_watch_metrics_client_test_dont_aggregate_when_no_value() {
    let result = aggregate(Some(vec![datapoint(None, None, None)]));
    assert_eq!(result.err().unwrap(), MetricsNotifierError::NoneValue)
}

#[test]
fn client_test_dont_aggregate_when_no_value() {
    let result = aggregate(Some(vec![datapoint(None, None, None)]));
    assert_eq!(result.err().unwrap(), MetricsNotifierError::NoneValue)
}

#[test]
fn no_list_of_datapoints_is_no_datapoints() {
    let client = CloudWatchMetricsClient::new();
    assert_eq!(client.aggregate_data_points(None), Ok(Reduction::Empty));
    assert_eq!(client.aggregate_data_points(Some(vec![])), Ok(Reduction::Empty));
    assert_eq!(aggregate(None), Ok(AggregatedMetrics::default()));
    assert_eq!(AggregatedMetrics::default(), metrics(0.0, 0.0, 0.0));
}

#[test]
fn one_absent_statistic_fails_the_window() {
    let complete = datapoint(Some(1.0), Some(2.0), Some(0.5));
    for broken in [
        datapoint(None, Some(2.0), Some(0.5)),
        datapoint(Some(1.0), None, Some(0.5)),
        datapoint(Some(1.0), Some(2.0), None),
    ] {
        let first = vec![broken.clone(), complete.clone()];
        assert_eq!(aggregate(Some(first)), Err(MetricsNotifierError::NoneValue));
        let last = vec![complete.clone(), complete.clone(), broken];
        assert_eq!(aggregate(Some(last)), Err(MetricsNotifierError::NoneValue));
    }
}

#[test]
fn the_order_of_the_datapoints_does_not_matter() {
    let points = four_points();
    let expected = aggregate(Some(points.clone())).unwrap();
    let orders: [[usize; 4]; 5] =
        [[3, 2, 1, 0], [1, 0, 3, 2], [2, 3, 0, 1], [0, 2, 1, 3], [3, 0, 2, 1]];
    for order in orders {
        let shuffled: Vec<Datapoint> = order.iter().map(|&i| points[i].clone()).collect();
        assert_eq!(aggregate(Some(shuffled)).unwrap(), expected);
    }
}

#[test]
fn the_extremes_are_those_of_the_datapoints() {
    let points = vec![
        datapoint(Some(1.0), Some(7.25), Some(3.5)),
        datapoint(Some(1.0), Some(99.5), Some(0.125)),
        datapoint(Some(1.0), Some(42.0), Some(64.0)),
    ];
    assert_eq!(aggregate(Some(points)).unwrap(), metrics(1.0, 99.5, 0.125));
}

#[test]
fn one_datapoint_is_its_own_extremes() {
    let only = vec![datapoint(Some(175.0), Some(200.0), Some(150.0))];
    assert_eq!(aggregate(Some(only)).unwrap(), metrics(175.0, 200.0, 150.0));
}

#[test]
fn the_extremes_are_found_outside_zero_to_a_hundred() {
    let above = vec![
        datapoint(Some(150.0), Some(200.0), Some(150.0)),
        datapoint(Some(250.0), Some(300.0), Some(101.5)),
    ];
    assert_eq!(aggregate(Some(above)).unwrap(), metrics(200.0, 300.0, 101.5));
    let below = vec![
        datapoint(Some(-5.0), Some(-1.0), Some(-9.0)),
        datapoint(Some(-7.0), Some(-3.0), Some(-8.0)),
    ];
    assert_eq!(aggregate(Some(below)).unwrap(), metrics(-6.0, -1.0, -9.0));
    let zeros = vec![datapoint(Some(0.0), Some(-0.0), Some(0.0))];
    let reduced = aggregate(Some(zeros)).unwrap();
    assert_eq!(reduced.maximum, binary64(-0.0));
    assert_eq!(reduced.minimum, binary64(0.0));
}

#[test]
fn an_extreme_of_which_none_is_a_number_stays_unset() {
    let points = vec![
        datapoint(Some(1.0), Some(f64::NAN), Some(2.0)),
        datapoint(Some(1.0), Some(-f64::NAN), Some(f64::NAN)),
    ];
    let reduced = aggregate(Some(points)).unwrap();
    assert!(reduced.maximum.is_nan());
    assert_eq!(reduced.maximum.to_bits(), UNSET_BITS);
    assert_eq!(reduced.minimum, binary64(2.0));
}

#[test]
fn a_statistic_that_is_no_number_is_passed_over() {
    let points = vec![
        datapoint(Some(f64::NAN), Some(f64::NAN), Some(f64::NAN)),
        datapoint(Some(10.0), Some(30.0), Some(20.0)),
    ];
    assert_eq!(aggregate(Some(points)).unwrap(), metrics(5.0, 30.0, 20.0));
    let points = vec![datapoint(Some(f64::INFINITY), Some(f64::INFINITY), Some(f64::NEG_INFINITY))];
    assert_eq!(
        aggregate(Some(points)).unwrap(),
        metrics(0.0, f64::INFINITY, f64::NEG_INFINITY)
    );
}

#[test]
fn the_average_is_summed_in_decimal() {
    let points: Vec<Datapoint> =
        (0..10).map(|_| datapoint(Some(0.1), Some(1.0), Some(1.0))).collect();
    let tenth = BigDecimal::from_f64(0.1).unwrap();
    let client = CloudWatchMetricsClient::new();
    match client.aggregate_data_points(Some(points)).unwrap() {
        Reduction::Mean { average, maximum, minimum } => {
            let mean = BigDecimal::new(BigInt::from_signed_bytes_le(&average.digits), average.scale);
            assert_eq!(mean, tenth);
            assert_eq!(maximum, binary64(1.0));
            assert_eq!(minimum, binary64(1.0));
        }
        Reduction::Empty => panic!("ten datapoints are not none"),
    }
}

#[test]
fn the_mean_divides_the_sum_by_the_count() {
    let points = vec![
        datapoint(Some(1.5), Some(1.0), Some(1.0)),
        datapoint(Some(2.25), Some(1.0), Some(1.0)),
        datapoint(Some(-0.75), Some(1.0), Some(1.0)),
    ];
    assert_eq!(aggregate(Some(points)).unwrap(), metrics(1.0, 1.0, 1.0));
    let points = vec![
        datapoint(Some(1024.0), Some(1.0), Some(1.0)),
        datapoint(Some(0.0009765625), Some(1.0), Some(1.0)),
    ];
    assert_eq!(aggregate(Some(points)).unwrap(), metrics(512.00048828125, 1.0, 1.0));
    let thirds = vec![
        datapoint(Some(1.0), Some(1.0), Some(1.0)),
        datapoint(Some(0.0), Some(1.0), Some(1.0)),
        datapoint(Some(0.0), Some(1.0), Some(1.0)),
    ];
    assert_eq!(aggregate(Some(thirds)).unwrap(), metrics(1.0 / 3.0, 1.0, 1.0));
}

#[test]
fn a_mean_without_binary64_form_fails() {
    let client = CloudWatchMetricsClient::new();
    let reduction = client
        .aggregate_data_points(Some(vec![datapoint(Some(1.0), Some(2.0), Some(3.0))]))
        .unwrap();
    assert_eq!(client.finish(reduction, None), Err(MetricsNotifierError::ToPrimitive));
    assert_eq!(
        client.finish(Reduction::Empty, None),
        Ok(AggregatedMetrics::default())
    );
    assert_eq!(
        client.finish(Reduction::Empty, Some(binary64(7.0))),
        Ok(AggregatedMetrics::default())
    );
}

#[test]
fn the_count_has_thirty_two_bits() {
    assert_eq!(sample_count(0), Ok(0));
    assert_eq!(sample_count(4), Ok(4));
    assert_eq!(sample_count(u32::MAX as usize), Ok(u32::MAX));
    if usize::BITS > 32 {
        let beyond = (u32::MAX as u64 + 1) as usize;
        assert_eq!(sample_count(beyond), Err(MetricsNotifierError::TryFromIntError));
        assert_eq!(sample_count(usize::MAX), Err(MetricsNotifierError::TryFromIntError));
    }
}

#[test]
fn a_decimal_keeps_its_digits_and_scale() {
    let decimal = Decimal::new(vec![0x2b, 0x02], 3).unwrap();
    assert_eq!(decimal.digits(), &vec![0x2b, 0x02]);
    assert_eq!(decimal.scale(), 3);
    assert_eq!(decimal.clone(), decimal);
    assert!(Decimal::new(vec![1], MAX_SCALE).is_some());
    assert!(Decimal::new(vec![1], -MAX_SCALE).is_some());
    assert!(Decimal::new(vec![1], MAX_SCALE + 1).is_none());
    assert!(Decimal::new(vec![1], -MAX_SCALE - 1).is_none());
    assert!(Decimal::new(vec![], 0).is_some());
}

#[test]
fn an_average_is_what_its_conversion_gave() {
    assert_eq!(
        Converted::from_parts(Some((vec![0x19], 2))),
        Ok(Converted::Exact(Decimal::new(vec![0x19], 2).unwrap()))
    );
    assert_eq!(Converted::from_parts(None), Ok(Converted::Unrepresentable));
    assert_eq!(
        Converted::from_parts(Some((vec![0x19], MAX_SCALE + 1))),
        Err(MetricsNotifierError::ToPrimitive)
    );
    assert_eq!(
        Converted::from_parts(Some((vec![0x19], -MAX_SCALE - 1))),
        Err(MetricsNotifierError::ToPrimitive)
    );
    assert!(Converted::from_parts(Some((vec![0x19], MAX_SCALE))).is_ok());
    assert_eq!(converted(f64::NAN), Converted::Unrepresentable);
    assert_eq!(converted(f64::INFINITY), Converted::Unrepresentable);
    assert_eq!(converted(0.25), Converted::Exact(Decimal::new(vec![0x19], 2).unwrap()));
}

#[test]
fn decimals_of_any_scale_and_sign_are_summed() {
    let decimal = |digits: i64, scale: i64| {
        Converted::Exact(
            Decimal::new(BigInt::from(digits).to_signed_bytes_le(), scale).unwrap(),
        )
    };
    let point = |average: Converted| Datapoint {
        average: Some(average),
        maximum: Some(binary64(1.0)),
        minimum: Some(binary64(1.0)),
    };
    // 12.5 + (-0.25) + 300 + 0 = 312.25, and a quarter of it is 78.0625
    let points = vec![
        point(decimal(125, 1)),
        point(decimal(-25, 2)),
        point(decimal(3, -2)),
        point(Converted::Unrepresentable),
    ];
    let client = CloudWatchMetricsClient::new();
    match client.aggregate_data_points(Some(points)).unwrap() {
        Reduction::Mean { average, .. } => {
            let mean = BigDecimal::new(BigInt::from_signed_bytes_le(&average.digits), average.scale);
            assert_eq!(mean, "78.0625".parse::<BigDecimal>().unwrap());
            assert_eq!(to_binary64(&average), Some(binary64(78.0625)));
        }
        Reduction::Empty => panic!("four datapoints are not none"),
    }
}

#[test]
fn the_answer_of_the_source_is_reduced_or_fails() {
    let client = CloudWatchMetricsClient::new();
    assert_eq!(
        client.aggregate_metrics(Err("Throttling".to_string())),
        Err(MetricsNotifierError::GetMetricsError("Throttling".to_string()))
    );
    assert_eq!(client.aggregate_metrics(Ok(None)), Ok(Reduction::Empty));
    assert_eq!(
        client.aggregate_metrics(Ok(Some(vec![datapoint(None, Some(1.0), Some(1.0))]))),
        Err(MetricsNotifierError::NoneValue)
    );
    let reduced = client.aggregate_metrics(Ok(Some(four_points()))).unwrap();
    assert_eq!(reduced, client.aggregate_data_points(Some(four_points())).unwrap());
}
