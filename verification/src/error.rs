use vstd::prelude::*;
use vstd::string::StringExecFns;

verus! {

/// Everything a client operation can fail with.
///
/// `NetworkFailure` and `DecodeFailure` describe one attempt and drive the
/// retry schedule; a caller of the composite operations only ever sees
/// `Config`, `AddressMismatch`, `ExhaustedAllEndpoints` or
/// `UnrecoverableTransport`.
#[derive(Debug, PartialEq, Eq, Clone)]
pub enum RpcError {
    /// The client could not be built: empty `base_uris`, or the HTTP side
    /// refused the configuration.
    Config,
    /// The supplied address is not valid for the configured network.
    AddressMismatch,
    /// Connection, DNS, TLS, timeout or socket error on one attempt.
    NetworkFailure,
    /// A response body arrived but is not the expected JSON shape.
    DecodeFailure,
    /// Every URI and every retry was used up for one call.
    ExhaustedAllEndpoints { last_uri: String },
    /// A failure the client does not retry, such as a body stream error.
    UnrecoverableTransport,
}

impl RpcError {
    /// A human-readable description; for `ExhaustedAllEndpoints` it names the
    /// last URI tried.
    pub fn message(&self) -> (r: String)
        ensures
            r@ == match *self {
                RpcError::Config => "invalid client configuration"@,
                RpcError::AddressMismatch => "address does not match the configured network"@,
                RpcError::NetworkFailure => "network failure"@,
                RpcError::DecodeFailure => "response body did not decode"@,
                RpcError::ExhaustedAllEndpoints { last_uri } => (
                    "all URIs exhausted, still failed; last URI: "@ + last_uri@
                ),
                RpcError::UnrecoverableTransport => "unrecoverable transport failure"@,
            },
    {
        match self {
            RpcError::Config => String::from_str("invalid client configuration"),
            RpcError::AddressMismatch => String::from_str(
                "address does not match the configured network",
            ),
            RpcError::NetworkFailure => String::from_str("network failure"),
            RpcError::DecodeFailure => String::from_str("response body did not decode"),
            RpcError::ExhaustedAllEndpoints { last_uri } => String::from_str(
                "all URIs exhausted, still failed; last URI: ",
            ).concat(last_uri.as_str()),
            RpcError::UnrecoverableTransport => String::from_str(
                "unrecoverable transport failure",
            ),
        }
    }
}

} // verus!
