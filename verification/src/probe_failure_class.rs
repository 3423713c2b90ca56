//! How the failure of a paid probe is classified.

use vstd::prelude::*;

verus! {

/// The class of an upstream failure.
pub enum FailureClass {
    /// The upstream limits the rate.
    RateLimited,
    /// The credential was refused.
    Auth,
    /// The request was malformed.
    BadRequest,
    /// The content was refused.
    ContentPolicy,
    /// The request exceeds the context window.
    ContextWindow,
    /// The upstream failed.
    ServerError,
    /// The upstream did not answer in time.
    Timeout,
    /// The upstream could not be reached.
    NetworkError,
    /// The upstream is overloaded.
    Overloaded,
    /// The upstream lacks a capability.
    FeatureUnsupported {
        /// The capability.
        capability: String,
    },
    /// None of these.
    Unknown,
}

/// What the failure of a paid probe says of the field under test.
#[derive(Clone, Copy, PartialEq, Eq, Structural, Debug)]
pub enum PaidProbeFailure {
    /// The upstream lacks the capability: the one class that is evidence about
    /// the field.
    CapabilityRejected,
    /// The credential was refused.
    AuthRejected,
    /// The upstream sheds load.
    Throttled,
    /// A fault that gave no verdict.
    Transient,
    /// What was sent was refused.
    RequestRefused,
    /// None of these.
    Unclassified,
}

/// The class that an upstream failure gives a paid probe.
pub open spec fn paid_class(class: FailureClass) -> PaidProbeFailure {
    match class {
        FailureClass::FeatureUnsupported { .. } => PaidProbeFailure::CapabilityRejected,
        FailureClass::Auth => PaidProbeFailure::AuthRejected,
        FailureClass::RateLimited => PaidProbeFailure::Throttled,
        FailureClass::Overloaded => PaidProbeFailure::Throttled,
        FailureClass::ServerError => PaidProbeFailure::Transient,
        FailureClass::NetworkError => PaidProbeFailure::Transient,
        FailureClass::Timeout => PaidProbeFailure::Transient,
        FailureClass::BadRequest => PaidProbeFailure::RequestRefused,
        FailureClass::ContextWindow => PaidProbeFailure::RequestRefused,
        FailureClass::ContentPolicy => PaidProbeFailure::RequestRefused,
        FailureClass::Unknown => PaidProbeFailure::Unclassified,
    }
}

/// The class that an upstream failure gives a paid probe.
pub fn paid_failure_for_class(class: &FailureClass) -> (failure: PaidProbeFailure)
    ensures
        failure == paid_class(*class),
{
    match class {
        FailureClass::RateLimited => PaidProbeFailure::Throttled,
        FailureClass::Auth => PaidProbeFailure::AuthRejected,
        FailureClass::BadRequest => PaidProbeFailure::RequestRefused,
        FailureClass::ContentPolicy => PaidProbeFailure::RequestRefused,
        FailureClass::ContextWindow => PaidProbeFailure::RequestRefused,
        FailureClass::ServerError => PaidProbeFailure::Transient,
        FailureClass::Timeout => PaidProbeFailure::Transient,
        FailureClass::NetworkError => PaidProbeFailure::Transient,
        FailureClass::Overloaded => PaidProbeFailure::Throttled,
        FailureClass::FeatureUnsupported { .. } => PaidProbeFailure::CapabilityRejected,
        FailureClass::Unknown => PaidProbeFailure::Unclassified,
    }
}

impl PaidProbeFailure {
    /// The log token of a class.
    pub open spec fn token(self) -> Seq<char> {
        match self {
            PaidProbeFailure::CapabilityRejected => "capability_rejected"@,
            PaidProbeFailure::AuthRejected => "auth_rejected"@,
            PaidProbeFailure::Throttled => "throttled"@,
            PaidProbeFailure::Transient => "transient"@,
            PaidProbeFailure::RequestRefused => "request_refused"@,
            PaidProbeFailure::Unclassified => "unclassified"@,
        }
    }

    /// The log token of the class.
    pub fn as_str(self) -> (token: &'static str)
        ensures
            token@ == self.token(),
    {
        match self {
            PaidProbeFailure::CapabilityRejected => "capability_rejected",
            PaidProbeFailure::AuthRejected => "auth_rejected",
            PaidProbeFailure::Throttled => "throttled",
            PaidProbeFailure::Transient => "transient",
            PaidProbeFailure::RequestRefused => "request_refused",
            PaidProbeFailure::Unclassified => "unclassified",
        }
    }
}

} // verus!
