//! Client library for a locally running game client's HTTP APIs.
//!
//! The crate covers connection discovery (finding the running client's port
//! and auth token), a request-preparation and response-decoding pipeline with
//! a unified error taxonomy, and a bounded-concurrency batch scheduler with
//! order-preserving results.

use vstd::prelude::*;

pub mod codec;
pub mod in_game;
pub mod process_info;
pub mod rest;
pub mod text;

verus! {

/// The serialization codec used for a request or response body.
#[derive(Clone, Copy, PartialEq, Eq, Structural, Debug)]
pub enum SerializeFormat {
    Json,
    MsgPack,
}

/// Why connection discovery failed.
#[derive(Clone, Copy, PartialEq, Eq, Structural, Debug)]
pub enum DiscoveryReason {
    /// Neither the client nor the companion process was detected.
    NotRunning,
    /// The lock file could not be read.
    LockFileUnavailable,
    /// The lock file was readable but its contents were malformed.
    MalformedCredentials,
}

/// Coarse category of an [`Error`], independent of the concrete variant.
#[derive(Clone, Copy, PartialEq, Eq, Structural, Debug)]
pub enum ErrorKind {
    Transport,
    Codec,
    Discovery,
    Stream,
}

/// Unified error taxonomy: every failure of discovery, request building,
/// transport, encoding or decoding is one variant of this sum type.
#[derive(Debug)]
pub enum Error {
    /// The transport request could not be built.
    TransportBuild { message: String },
    /// The transport request could not be sent, or the response not received.
    TransportSend { message: String },
    /// The request body could not be encoded with the chosen codec.
    EncodeFailure { codec: SerializeFormat, message: String },
    /// The response body could not be decoded with the chosen codec.
    /// `eof_at_start` records whether the body was zero-length, so that a
    /// caller can opt into treating that one case as "no content".
    DecodeFailure { codec: SerializeFormat, eof_at_start: bool, message: String },
    /// Connection discovery failed; no connection value was produced.
    DiscoveryFailure { reason: DiscoveryReason },
    /// An event-stream transport failed.
    StreamFailure { message: String },
}

impl DiscoveryReason {
    /// The human-readable reason text.
    pub open spec fn spec_message(&self) -> Seq<char> {
        match self {
            DiscoveryReason::NotRunning => "not running"@,
            DiscoveryReason::LockFileUnavailable => "lock file unavailable"@,
            DiscoveryReason::MalformedCredentials => "malformed credentials"@,
        }
    }

    pub fn message(&self) -> (r: String)
        ensures
            r@ == self.spec_message(),
    {
        match self {
            DiscoveryReason::NotRunning => String::from_str("not running"),
            DiscoveryReason::LockFileUnavailable => String::from_str("lock file unavailable"),
            DiscoveryReason::MalformedCredentials => String::from_str("malformed credentials"),
        }
    }
}

impl Error {
    /// The coarse category of this error.
    pub open spec fn spec_kind(&self) -> ErrorKind {
        match self {
            Error::TransportBuild { .. } => ErrorKind::Transport,
            Error::TransportSend { .. } => ErrorKind::Transport,
            Error::EncodeFailure { .. } => ErrorKind::Codec,
            Error::DecodeFailure { .. } => ErrorKind::Codec,
            Error::DiscoveryFailure { .. } => ErrorKind::Discovery,
            Error::StreamFailure { .. } => ErrorKind::Stream,
        }
    }

    pub fn kind(&self) -> (k: ErrorKind)
        ensures
            k == self.spec_kind(),
    {
        match self {
            Error::TransportBuild { .. } => ErrorKind::Transport,
            Error::TransportSend { .. } => ErrorKind::Transport,
            Error::EncodeFailure { .. } => ErrorKind::Codec,
            Error::DecodeFailure { .. } => ErrorKind::Codec,
            Error::DiscoveryFailure { .. } => ErrorKind::Discovery,
            Error::StreamFailure { .. } => ErrorKind::Stream,
        }
    }

    /// The innermost human-readable message of whichever variant is populated.
    pub open spec fn spec_message(&self) -> Seq<char> {
        match self {
            Error::TransportBuild { message } => message@,
            Error::TransportSend { message } => message@,
            Error::EncodeFailure { message, .. } => message@,
            Error::DecodeFailure { message, .. } => message@,
            Error::DiscoveryFailure { reason } => reason.spec_message(),
            Error::StreamFailure { message } => message@,
        }
    }

    pub fn message(&self) -> (r: String)
        ensures
            r@ == self.spec_message(),
    {
        match self {
            Error::TransportBuild { message } => message.clone(),
            Error::TransportSend { message } => message.clone(),
            Error::EncodeFailure { message, .. } => message.clone(),
            Error::DecodeFailure { message, .. } => message.clone(),
            Error::DiscoveryFailure { reason } => reason.message(),
            Error::StreamFailure { message } => message.clone(),
        }
    }
}

} // verus!
