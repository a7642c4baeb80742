//! Configuration and the errors that the proxy reports.

use vstd::prelude::*;
use vstd::string::*;

verus! {

/// How a proxy instance is set up.
#[derive(Debug, Clone)]
pub struct PhantomOpts {
    /// The real server, as `host:port`.
    pub server: String,
    /// The local address to listen on.
    pub bind: String,
    /// The proxy port; 0 lets the system pick one.
    pub bind_port: u16,
    /// Seconds before an idle client is dropped (not acted on).
    pub timeout: u64,
    pub debug: bool,
    /// IPv6 listening (not acted on).
    pub ipv6: bool,
}

/// Why a proxy instance could not start, stop or be set up.
#[derive(Debug, Clone)]
pub enum PhantomError {
    UnknownError(String),
    FailedToBind(String),
    FailedToStart(String),
    IoError(String),
    InvalidAddress(String),
    AlreadyRunning,
    LoggerSetupFailed(String),
}

/// `prefix` followed by `detail`.
fn with_detail(prefix: &str, detail: &String) -> (r: String)
    ensures
        r@ == prefix@ + detail@,
{
    let mut r = String::from_str(prefix);
    r.append(detail.as_str());
    r
}

impl PhantomError {
    /// The human-readable text of the error.
    pub fn message(&self) -> (r: String)
        ensures
            match self {
                PhantomError::UnknownError(d) => r@ == "Phantom encountered an error: "@ + d@,
                PhantomError::FailedToBind(d) => r@ == "Failed to bind to address: "@ + d@,
                PhantomError::FailedToStart(d) => r@ == "Phantom failed to start: "@ + d@,
                PhantomError::IoError(d) => r@ == "Phantom encountered an IO error: "@ + d@,
                PhantomError::InvalidAddress(d) => r@ == "Unable to resolve remote address: "@ + d@,
                PhantomError::AlreadyRunning => r@ == "Phantom is already running"@,
                PhantomError::LoggerSetupFailed(d) => r@
                    == "Unable to configure Phantom logger: "@ + d@,
            },
    {
        match self {
            PhantomError::UnknownError(d) => with_detail("Phantom encountered an error: ", d),
            PhantomError::FailedToBind(d) => with_detail("Failed to bind to address: ", d),
            PhantomError::FailedToStart(d) => with_detail("Phantom failed to start: ", d),
            PhantomError::IoError(d) => with_detail("Phantom encountered an IO error: ", d),
            PhantomError::InvalidAddress(d) => with_detail("Unable to resolve remote address: ", d),
            PhantomError::AlreadyRunning => String::from_str("Phantom is already running"),
            PhantomError::LoggerSetupFailed(d) => with_detail(
                "Unable to configure Phantom logger: ",
                d,
            ),
        }
    }
}

/// Wraps an error from elsewhere as an unknown error, keeping its text.
pub fn unknown_error<E: std::error::Error>(error: E) -> (r: PhantomError)
    ensures
        r matches PhantomError::UnknownError(m) && to_string_from_display_ensures::<E>(&error, m),
{
    PhantomError::UnknownError(error.to_string())
}

/// Why a message could not reach an actor.
#[derive(Debug, Clone)]
pub enum ActorError {
    AlreadyRunning,
    FailedToSend(String),
}

impl ActorError {
    /// The human-readable text of the error.
    pub fn message(&self) -> (r: String)
        ensures
            match self {
                ActorError::AlreadyRunning => r@ == "Actor is already running"@,
                ActorError::FailedToSend(d) => r@ == "Failed to send message: "@ + d@,
            },
    {
        match self {
            ActorError::AlreadyRunning => String::from_str("Actor is already running"),
            ActorError::FailedToSend(d) => with_detail("Failed to send message: ", d),
        }
    }
}

/// Why a discovery ping to a server failed.
#[derive(Debug, Clone)]
pub enum ClientError {
    IoError(String),
    Timeout,
    InvalidAddress(String),
    InvalidResponse(String),
}

impl ClientError {
    /// The human-readable text of the error.
    pub fn message(&self) -> (r: String)
        ensures
            match self {
                ClientError::IoError(d) => r@ == "Client encountered an IO error: "@ + d@,
                ClientError::Timeout => r@
                    == "Client encountered a timeout while waiting for a ping response"@,
                ClientError::InvalidAddress(d) => r@ == "Unable to ping invalid address: "@ + d@,
                ClientError::InvalidResponse(d) => r@ == "Invalid response from server: "@ + d@,
            },
    {
        match self {
            ClientError::IoError(d) => with_detail("Client encountered an IO error: ", d),
            ClientError::Timeout => String::from_str(
                "Client encountered a timeout while waiting for a ping response",
            ),
            ClientError::InvalidAddress(d) => with_detail("Unable to ping invalid address: ", d),
            ClientError::InvalidResponse(d) => with_detail("Invalid response from server: ", d),
        }
    }
}

} // verus!
