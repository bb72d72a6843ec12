use metrics_notifier::cloud_watch_metrics_client::CloudWatchMetricsClient;
use metrics_notifier::error::MetricsNotifierError;
use metrics_notifier::report::{ReportEvent, ReportHandlerOutput};
use metrics_notifier::time_range::{Instant, TimeRange};

#[test]
fn the_request_names_the_window_and_the_statistics() {
    let now = Instant::from_timestamp(1_547_251_200).unwrap();
    let range = TimeRange::try_from(now).unwrap();
    let request = CloudWatchMetricsClient::new().statistics_request(&range);
    assert_eq!(request.start_time, "2018-12-31T15:00:00Z");
    assert_eq!(request.end_time, "2019-01-31T14:59:59Z");
    assert_eq!(request.metric_name, "CPUUtilization");
    assert_eq!(request.namespace, "AWS/EC2");
    assert_eq!(request.period, 0);
    assert_eq!(request.statistics, ["Average", "Minimum", "Maximum"]);
}

#[test]
fn each_failure_has_its_message() {
    assert_eq!(MetricsNotifierError::NoneValue.message(), "Value is None");
    assert_eq!(
        MetricsNotifierError::ToPrimitive.message(),
        "Failed to convert bigDecimal to primitive"
    );
    assert_eq!(MetricsNotifierError::TryFromIntError.message(), "Failed to convert int");
    assert_eq!(
        MetricsNotifierError::GetMetricsError("status 400".to_string()).message(),
        "status 400"
    );
    assert_eq!(
        MetricsNotifierError::DescribeInstancesError("denied".to_string()).message(),
        "denied"
    );
}

#[test]
fn only_a_failed_metric_source_has_a_cause() {
    assert_eq!(MetricsNotifierError::NoneValue.source(), None);
    assert_eq!(MetricsNotifierError::ToPrimitive.source(), None);
    assert_eq!(MetricsNotifierError::TryFromIntError.source(), None);
    assert_eq!(
        MetricsNotifierError::GetMetricsError("status 400".to_string()).source(),
        Some("status 400".to_string())
    );
    assert_eq!(MetricsNotifierError::DescribeInstancesError("denied".to_string()).source(), None);
}

#[test]
fn an_output_carries_its_message() {
    let output = ReportHandlerOutput::new("done".to_string());
    assert_eq!(output.message(), "done");
    assert_eq!(ReportEvent {}, ReportEvent {});
}
