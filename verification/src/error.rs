//! Error type used throughout the network stack and its mapping to the
//! numeric codes of the FFI boundary.

use vstd::prelude::*;

use crate::text;

pub mod error_codes;

verus! {

#[verifier::external_type_specification]
#[verifier::external_body]
pub struct ExIoError(std::io::Error);

#[verifier::external_type_specification]
#[verifier::external_body]
pub struct ExPostcardError(postcard::Error);

/// Everything that can go wrong in the network stack, grouped by category.
#[allow(inconsistent_fields)]
#[derive(Debug)]
pub enum NetworkError {
    // --- initialization --------------------------------------------------
    NotInitialized,
    AlreadyInitialized,
    // --- argument/validation ---------------------------------------------
    InvalidArgument(String),
    // --- I/O and connection-level errors ---------------------------------
    Io(std::io::Error),
    ConnectionFailed(String),
    HandshakeFailed(String),
    HandshakeTimeout,
    // --- peer membership -------------------------------------------------
    PeerNotFound(String),
    DuplicatePeerId(String),
    AlreadyConnected(String),
    VersionMismatch { expected: u16, got: u16 },
    SessionMismatch { expected: String, got: String },
    // --- protocol state --------------------------------------------------
    NotLeader,
    MaxConnectionsReached,
    // --- messaging -------------------------------------------------------
    SendQueueFull,
    MessageTooLarge(u32),
    // --- serialization ---------------------------------------------------
    Serialization(postcard::Error),
    // --- misc / internal -------------------------------------------------
    NotImplemented,
    Internal(String),
}

/// The outside error that a [`NetworkError`] was made from.
pub enum ErrorSource<'a> {
    Io(&'a std::io::Error),
    Serialization(&'a postcard::Error),
}

/// The text of an I/O error, by its `Display` implementation.
///
/// Nothing is claimed of the text: for an error of the operating system it
/// is the system's own message.
#[verifier::external_body]
fn io_error_text(e: &std::io::Error) -> (r: String) {
    format!("{e}")
}

/// The text of a `postcard` error, by its `Display` implementation.
///
/// Nothing is claimed of the text.
#[verifier::external_body]
fn postcard_error_text(e: &postcard::Error) -> (r: String) {
    format!("{e}")
}

impl NetworkError {
    /// The numeric code that stands for this error at the FFI boundary.
    pub open spec fn spec_code(self) -> i32 {
        match self {
            NetworkError::NotInitialized => error_codes::NOT_INITIALIZED,
            NetworkError::AlreadyInitialized => error_codes::ALREADY_INITIALIZED,
            NetworkError::InvalidArgument(_) => error_codes::INVALID_ARGUMENT,
            NetworkError::Io(_) => error_codes::CONNECTION_FAILED,
            NetworkError::ConnectionFailed(_) => error_codes::CONNECTION_FAILED,
            NetworkError::HandshakeFailed(_) => error_codes::CONNECTION_FAILED,
            NetworkError::HandshakeTimeout => error_codes::CONNECTION_FAILED,
            NetworkError::PeerNotFound(_) => error_codes::PEER_NOT_FOUND,
            NetworkError::DuplicatePeerId(_) => error_codes::DUPLICATE_PEER_ID,
            NetworkError::AlreadyConnected(_) => error_codes::ALREADY_CONNECTED,
            NetworkError::VersionMismatch { .. } => error_codes::VERSION_MISMATCH,
            NetworkError::SessionMismatch { .. } => error_codes::SESSION_MISMATCH,
            NetworkError::NotLeader => error_codes::NOT_LEADER,
            NetworkError::MaxConnectionsReached => error_codes::MAX_CONNECTIONS_REACHED,
            NetworkError::SendQueueFull => error_codes::SEND_QUEUE_FULL,
            NetworkError::MessageTooLarge(_) => error_codes::MESSAGE_TOO_LARGE,
            NetworkError::Serialization(_) => error_codes::SERIALIZATION_ERROR,
            NetworkError::NotImplemented => error_codes::INTERNAL_ERROR,
            NetworkError::Internal(_) => error_codes::INTERNAL_ERROR,
        }
    }

    /// Is `text` the message of this error? For an error that wraps an
    /// outside one only the fixed part in front is determined here.
    pub open spec fn is_message(self, text: Seq<char>) -> bool {
        match self {
            NetworkError::NotInitialized => text == "network not initialized"@,
            NetworkError::AlreadyInitialized => text == "network already initialized"@,
            NetworkError::InvalidArgument(m) => text == "invalid argument: "@ + m@,
            NetworkError::Io(_) => "IO error: "@.is_prefix_of(text),
            NetworkError::ConnectionFailed(m) => text == "connection failed: "@ + m@,
            NetworkError::HandshakeFailed(m) => text == "handshake failed: "@ + m@,
            NetworkError::HandshakeTimeout => text == "handshake timeout"@,
            NetworkError::PeerNotFound(id) => text == "peer not found: "@ + id@,
            NetworkError::DuplicatePeerId(id) => text == "duplicate peer id: "@ + id@,
            NetworkError::AlreadyConnected(id) => text == "already connected: "@ + id@,
            NetworkError::VersionMismatch { expected, got } => text
                == "version mismatch: expected "@ + text::decimal(expected as nat) + ", got "@
                + text::decimal(got as nat),
            NetworkError::SessionMismatch { expected, got } => text
                == "session mismatch: expected "@ + expected@ + ", got "@ + got@,
            NetworkError::NotLeader => text == "not leader"@,
            NetworkError::MaxConnectionsReached => text == "max connections reached"@,
            NetworkError::SendQueueFull => text == "send queue full"@,
            NetworkError::MessageTooLarge(size) => text
                == "message too large: "@ + text::decimal(size as nat) + " bytes"@,
            NetworkError::Serialization(_) => "serialization error: "@.is_prefix_of(text),
            NetworkError::NotImplemented => text == "not implemented"@,
            NetworkError::Internal(m) => text == "internal error: "@ + m@,
        }
    }

    /// Map the error to an FFI-compatible numeric code.
    pub fn error_code(&self) -> (r: i32)
        ensures
            r == self.spec_code(),
    {
        match self {
            Self::NotInitialized => error_codes::NOT_INITIALIZED,
            Self::AlreadyInitialized => error_codes::ALREADY_INITIALIZED,
            Self::InvalidArgument(_) => error_codes::INVALID_ARGUMENT,
            Self::Io(_) => error_codes::CONNECTION_FAILED,
            Self::ConnectionFailed(_) => error_codes::CONNECTION_FAILED,
            Self::HandshakeFailed(_) => error_codes::CONNECTION_FAILED,
            Self::HandshakeTimeout => error_codes::CONNECTION_FAILED,
            Self::PeerNotFound(_) => error_codes::PEER_NOT_FOUND,
            Self::NotLeader => error_codes::NOT_LEADER,
            Self::SendQueueFull => error_codes::SEND_QUEUE_FULL,
            Self::MessageTooLarge(_) => error_codes::MESSAGE_TOO_LARGE,
            Self::Serialization(_) => error_codes::SERIALIZATION_ERROR,
            Self::SessionMismatch { .. } => error_codes::SESSION_MISMATCH,
            Self::DuplicatePeerId(_) => error_codes::DUPLICATE_PEER_ID,
            Self::AlreadyConnected(_) => error_codes::ALREADY_CONNECTED,
            Self::VersionMismatch { .. } => error_codes::VERSION_MISMATCH,
            Self::MaxConnectionsReached => error_codes::MAX_CONNECTIONS_REACHED,
            Self::NotImplemented => error_codes::INTERNAL_ERROR,
            Self::Internal(_) => error_codes::INTERNAL_ERROR,
        }
    }

    /// The message of this error, as it is displayed.
    pub fn to_string(&self) -> (r: String)
        ensures
            self.is_message(r@),
    {
        match self {
            Self::NotInitialized => "network not initialized".to_owned(),
            Self::AlreadyInitialized => "network already initialized".to_owned(),
            Self::InvalidArgument(m) => text::concat("invalid argument: ", m.as_str()),
            Self::Io(e) => {
                let tail = io_error_text(e);
                text::concat("IO error: ", tail.as_str())
            },
            Self::ConnectionFailed(m) => text::concat("connection failed: ", m.as_str()),
            Self::PeerNotFound(id) => text::concat("peer not found: ", id.as_str()),
            Self::NotLeader => "not leader".to_owned(),
            Self::SendQueueFull => "send queue full".to_owned(),
            Self::MessageTooLarge(size) => {
                let mut s = "message too large: ".to_owned();
                text::append_decimal(&mut s, *size as u64);
                s.append(" bytes");
                s
            },
            Self::Serialization(e) => {
                let tail = postcard_error_text(e);
                text::concat("serialization error: ", tail.as_str())
            },
            Self::SessionMismatch { expected, got } => {
                let mut s = text::concat("session mismatch: expected ", expected.as_str());
                s.append(", got ");
                s.append(got.as_str());
                s
            },
            Self::DuplicatePeerId(id) => text::concat("duplicate peer id: ", id.as_str()),
            Self::AlreadyConnected(id) => text::concat("already connected: ", id.as_str()),
            Self::VersionMismatch { expected, got } => {
                let mut s = "version mismatch: expected ".to_owned();
                text::append_decimal(&mut s, *expected as u64);
                s.append(", got ");
                text::append_decimal(&mut s, *got as u64);
                s
            },
            Self::MaxConnectionsReached => "max connections reached".to_owned(),
            Self::HandshakeFailed(m) => text::concat("handshake failed: ", m.as_str()),
            Self::HandshakeTimeout => "handshake timeout".to_owned(),
            Self::NotImplemented => "not implemented".to_owned(),
            Self::Internal(m) => text::concat("internal error: ", m.as_str()),
        }
    }

    /// The outside error behind this one, where there is one.
    pub fn source(&self) -> (r: Option<ErrorSource<'_>>)
        ensures
            r == (match *self {
                NetworkError::Io(e) => Some(ErrorSource::Io(&e)),
                NetworkError::Serialization(e) => Some(ErrorSource::Serialization(&e)),
                _ => None::<ErrorSource>,
            }),
    {
        match self {
            Self::Io(e) => Some(ErrorSource::Io(e)),
            Self::Serialization(e) => Some(ErrorSource::Serialization(e)),
            _ => None,
        }
    }
}

impl From<std::io::Error> for NetworkError {
    fn from(e: std::io::Error) -> (r: Self) {
        Self::Io(e)
    }
}

impl vstd::std_specs::convert::FromSpecImpl<std::io::Error> for NetworkError {
    open spec fn obeys_from_spec() -> bool {
        true
    }

    open spec fn from_spec(e: std::io::Error) -> Self {
        NetworkError::Io(e)
    }
}

impl From<postcard::Error> for NetworkError {
    fn from(e: postcard::Error) -> (r: Self) {
        Self::Serialization(e)
    }
}

impl vstd::std_specs::convert::FromSpecImpl<postcard::Error> for NetworkError {
    open spec fn obeys_from_spec() -> bool {
        true
    }

    open spec fn from_spec(e: postcard::Error) -> Self {
        NetworkError::Serialization(e)
    }
}

/// Every error has a negative code, so that no error can be taken for
/// success; apart from the catch-all code they lie between `-14` and `-1`.
pub proof fn law_error_codes_are_negative(e: NetworkError)
    ensures
        e.spec_code() < error_codes::OK,
        e.spec_code() == error_codes::INTERNAL_ERROR || -14 <= e.spec_code() <= -1,
{
}

} // verus!
