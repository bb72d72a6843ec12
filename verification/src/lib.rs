//! Monthly utilisation reports: the calendar month around an instant, and the
//! reduction of a month's datapoints to one average, maximum and minimum.

pub mod binary64;
pub mod calendar;
pub mod clock;
pub mod cloud_watch_metrics_client;
pub mod decimal;
pub mod ec2_instance_client;
pub mod error;
pub mod metric;
pub mod report;
pub mod time_range;
