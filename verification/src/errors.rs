//! The closed set of failures the workflow can end in. Every error is
//! terminal for the run; callers branch on the variant, not on message text.

use vstd::prelude::*;

verus! {

/// Why a debt check or a payment-link request failed.
#[derive(Debug)]
pub enum AvtodorError {
    /// The underlying HTTP client could not be built.
    ClientInitError,
    /// A network or connection failure on any step.
    TransportError,
    /// The check endpoint answered with a non-success HTTP status; carries
    /// the status code and the response body text.
    DebtCheckError { status: u16, body: String },
    /// A response body was not the JSON shape a typed result was expected from.
    DecodeError,
    /// The pay endpoint answered with a non-success HTTP status.
    PaymentLinkError { status: u16 },
    /// The pay endpoint explicitly reported an error result.
    PaymentLinkRejected,
    /// The pay endpoint reported success but no link was present; carries the
    /// raw result value for diagnostics.
    MissingLinkError { result: String },
}

impl AvtodorError {
    /// A human-readable description, in place of a `Display` impl.
    pub fn describe(&self) -> (r: String)
        ensures
            r@ == match self {
                AvtodorError::ClientInitError => "failed to build the HTTP client"@,
                AvtodorError::TransportError => "network failure while talking to the service"@,
                AvtodorError::DebtCheckError { .. } => "the check endpoint answered with a failure status"@,
                AvtodorError::DecodeError => "the service answered with an unexpected body"@,
                AvtodorError::PaymentLinkError { .. } => "the pay endpoint answered with a failure status"@,
                AvtodorError::PaymentLinkRejected => "the service refused to issue a payment link"@,
                AvtodorError::MissingLinkError { .. } => "the service reported success but sent no link"@,
            },
            r@.len() > 0,
    {
        let r = match self {
            AvtodorError::ClientInitError => "failed to build the HTTP client",
            AvtodorError::TransportError => "network failure while talking to the service",
            AvtodorError::DebtCheckError { .. } => "the check endpoint answered with a failure status",
            AvtodorError::DecodeError => "the service answered with an unexpected body",
            AvtodorError::PaymentLinkError { .. } => "the pay endpoint answered with a failure status",
            AvtodorError::PaymentLinkRejected => "the service refused to issue a payment link",
            AvtodorError::MissingLinkError { .. } => "the service reported success but sent no link",
        };
        proof {
            reveal_strlit("failed to build the HTTP client");
            reveal_strlit("network failure while talking to the service");
            reveal_strlit("the check endpoint answered with a failure status");
            reveal_strlit("the service answered with an unexpected body");
            reveal_strlit("the pay endpoint answered with a failure status");
            reveal_strlit("the service refused to issue a payment link");
            reveal_strlit("the service reported success but sent no link");
        }
        String::from_str(r)
    }
}

} // verus!
