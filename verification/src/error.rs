//! The ways a report can fail.

use vstd::prelude::*;

verus! {

/// Why a report was not produced.
#[derive(Clone, Debug, PartialEq, Eq)]
pub enum MetricsNotifierError {
    /// A value that has to be there was absent.
    NoneValue,
    /// A decimal average has no binary64 form.
    ToPrimitive,
    /// A count does not fit the integer it is kept in.
    TryFromIntError,
    /// The metric source failed; the text is the source's own.
    GetMetricsError(String),
    /// Listing the instances failed; the text is the service's own.
    DescribeInstancesError(String),
}

impl MetricsNotifierError {
    /// The text that describes the failure.
    pub open spec fn text(&self) -> Seq<char> {
        match self {
            MetricsNotifierError::NoneValue => "Value is None"@,
            MetricsNotifierError::ToPrimitive => "Failed to convert bigDecimal to primitive"@,
            MetricsNotifierError::TryFromIntError => "Failed to convert int"@,
            MetricsNotifierError::GetMetricsError(cause) => cause@,
            MetricsNotifierError::DescribeInstancesError(cause) => cause@,
        }
    }

    /// The failure underneath this one, which only a failed metric source has.
    pub open spec fn cause(&self) -> Option<Seq<char>> {
        match self {
            MetricsNotifierError::GetMetricsError(cause) => Some(cause@),
            _ => None,
        }
    }

    pub fn message(&self) -> (text: String)
        ensures
            text@ == self.text(),
    {
        match self {
            MetricsNotifierError::NoneValue => "Value is None".to_owned(),
            MetricsNotifierError::ToPrimitive => {
                "Failed to convert bigDecimal to primitive".to_owned()
            },
            MetricsNotifierError::TryFromIntError => "Failed to convert int".to_owned(),
            MetricsNotifierError::GetMetricsError(cause) => cause.clone(),
            MetricsNotifierError::DescribeInstancesError(cause) => cause.clone(),
        }
    }

    pub fn source(&self) -> (cause: Option<String>)
        ensures
            cause is Some <==> self.cause() is Some,
            cause matches Some(text) ==> Some(text@) == self.cause(),
    {
        match self {
            MetricsNotifierError::GetMetricsError(cause) => Some(cause.clone()),
            _ => None,
        }
    }
}

} // verus!
