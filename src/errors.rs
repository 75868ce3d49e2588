use vstd::prelude::*;

verus! {

/// A failure reported by the remote-call layer itself (transport, encoding,
/// routing), as opposed to a failure decided by the server's own logic.
#[derive(Debug, Clone, PartialEq, Eq)]
pub enum ApiError {
    Registration(String),
    UnsupportedRequestMethod(String),
    /// The request could not be delivered or its answer not received.
    Request(String),
    ServerError(String),
    MiddlewareError(String),
    Deserialization(String),
    Serialization(String),
    Args(String),
    MissingArg(String),
    Response(String),
}

/// Errors returned by the remote user service.
#[derive(Debug, Clone, PartialEq, Eq)]
#[non_exhaustive]
pub enum ServerError {
    API(ApiError),
    Unauthorized,
    Database(String),
    PasswordHash(String),
}

/// An error that knows whether the operation that produced it is worth
/// trying again.
pub trait Retryable {
    spec fn retryable(&self) -> bool;

    fn should_retry(&self) -> (r: bool)
        ensures
            r == self.retryable(),
    ;
}

impl ServerError {
    pub fn from_server_fn_error(value: ApiError) -> (r: Self)
        ensures
            r == ServerError::API(value),
    {
        ServerError::API(value)
    }
}

impl Retryable for ServerError {
    /// Only a failure to reach the service is transient.
    open spec fn retryable(&self) -> bool {
        self matches ServerError::API(ApiError::Request(_))
    }

    fn should_retry(&self) -> (r: bool) {
        matches!(self, ServerError::API(ApiError::Request(_)))
    }
}

} // verus!
