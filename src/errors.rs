use vstd::prelude::*;

verus! {

/// What can go wrong in the discovery registry.
#[derive(Debug, Clone, Copy, PartialEq, Eq, Structural)]
pub enum DiscoveryError {
    /// No registered peer serves the requested file.
    ServerNotFoundError,
    /// The registry could not be reached in a consistent state.
    InternalServerError,
    /// An identifier in a request is not a well-formed UUID.
    InvalidIdFormat,
}

/// What can go wrong on the signaling transport.
#[derive(Debug, Clone, PartialEq, Eq)]
pub enum ApiError {
    /// The HTTP client failed; the text describes how.
    ReqwestError(String),
    InvalidIdFormat,
    ErrorInitializingServer,
    ErrorRunningServer,
    InternalServerError,
    ErrAddIceCandidateReq,
}

/// What can go wrong in a peer process.
#[derive(Debug, Clone, PartialEq, Eq)]
pub enum ClientError {
    ApiError(ApiError),
    /// The connectivity negotiation failed; the text describes how.
    WebRTCError(String),
    DiscoveryServerNotUp,
    /// No source session matches the given identifier.
    ServerWithGivenIdNotFound,
    /// No sink session matches the given identifier.
    ClientWithGivenIdNotFound,
    /// The operation needs a role this process was not started with.
    InvalidConfiguration,
    ErrConvertingCandidateToJson,
    ErrReadingFile(String),
    ErrWritingFile(String),
    /// Every candidate source of a file failed before a connection was made.
    NoSourceAvailable,
    /// The transfer failed after a connection was made; no other source is tried.
    TransferAborted,
    /// A session with the given identifier already exists.
    SessionAlreadyExists,
    /// The session is not in a state from which the requested step is allowed.
    InvalidTransition,
}

/// The HTTP status that reports an error to the caller of an endpoint:
/// 400 for a malformed identifier, 500 for everything else.
pub open spec fn status_of(e: ClientError) -> u16 {
    match e {
        ClientError::ApiError(ApiError::InvalidIdFormat) => 400,
        _ => 500,
    }
}

impl ClientError {
    /// The HTTP status that reports this error.
    pub fn status_code(&self) -> (r: u16)
        ensures
            r == status_of(*self),
    {
        match self {
            ClientError::ApiError(err) => match err {
                ApiError::InvalidIdFormat => 400,
                ApiError::ReqwestError(_)
                | ApiError::ErrorInitializingServer
                | ApiError::ErrorRunningServer
                | ApiError::ErrAddIceCandidateReq
                | ApiError::InternalServerError => 500,
            },
            _ => 500,
        }
    }
}

} // verus!
