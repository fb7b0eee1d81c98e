//! Failures of the transport to the fault manager.

use vstd::prelude::*;
use vstd::string::*;

verus! {

/// Why a record or event could not be handed to the fault manager.
#[derive(Clone, Debug, PartialEq, Eq)]
pub enum SinkError {
    /// The transport is not available.
    TransportDown,
    /// Too many reports in a short time.
    RateLimited,
    /// The caller may not report.
    PermissionDenied,
    /// The path or descriptor is not acceptable.
    BadDescriptor(String),
    /// Anything else.
    Other(String),
    /// The service name is not acceptable.
    InvalidServiceName,
    /// No answer in time.
    Timeout,
    /// The queue to the worker is full.
    QueueFull,
}

impl SinkError {
    /// The message of the error.
    pub open spec fn message(self) -> Seq<char> {
        match self {
            SinkError::TransportDown => "transport unavailable"@,
            SinkError::RateLimited => "rate limited"@,
            SinkError::PermissionDenied => "permission denied"@,
            SinkError::BadDescriptor(m) => "invalid descriptor: "@ + m@,
            SinkError::Other(m) => "other: "@ + m@,
            SinkError::InvalidServiceName => "invalid service name"@,
            SinkError::Timeout => "timeout"@,
            SinkError::QueueFull => "queue full"@,
        }
    }

    /// The message of the error.
    pub fn to_string(&self) -> (r: String)
        ensures
            r@ == self.message(),
    {
        match self {
            SinkError::TransportDown => String::from_str("transport unavailable"),
            SinkError::RateLimited => String::from_str("rate limited"),
            SinkError::PermissionDenied => String::from_str("permission denied"),
            SinkError::BadDescriptor(m) => {
                String::from_str("invalid descriptor: ").concat(m.as_str())
            },
            SinkError::Other(m) => String::from_str("other: ").concat(m.as_str()),
            SinkError::InvalidServiceName => String::from_str("invalid service name"),
            SinkError::Timeout => String::from_str("timeout"),
            SinkError::QueueFull => String::from_str("queue full"),
        }
    }
}

/// The message of an error names its cause; the details of an error stand behind the name.
pub proof fn law_sink_messages_name_the_cause(m: String)
    ensures
        SinkError::TransportDown.message() == "transport unavailable"@,
        SinkError::RateLimited.message() == "rate limited"@,
        SinkError::PermissionDenied.message() == "permission denied"@,
        SinkError::InvalidServiceName.message() == "invalid service name"@,
        SinkError::Timeout.message() == "timeout"@,
        SinkError::QueueFull.message() == "queue full"@,
        SinkError::BadDescriptor(m).message() == "invalid descriptor: "@ + m@,
        SinkError::Other(m).message() == "other: "@ + m@,
{
}

} // verus!
