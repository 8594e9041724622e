use std::io;

use meta_mystia_network::error::{error_codes, ErrorSource, NetworkError};

#[test]
fn test_error_code_mapping() {
    assert_eq!(
        NetworkError::NotInitialized.error_code(),
        error_codes::NOT_INITIALIZED
    );
    assert_eq!(
        NetworkError::AlreadyInitialized.error_code(),
        error_codes::ALREADY_INITIALIZED
    );
    assert_eq!(
        NetworkError::InvalidArgument("test".into()).error_code(),
        error_codes::INVALID_ARGUMENT
    );
    assert_eq!(
        NetworkError::Io(io::Error::new(io::ErrorKind::Other, "test")).error_code(),
        error_codes::CONNECTION_FAILED
    );
    assert_eq!(
        NetworkError::ConnectionFailed("test".into()).error_code(),
        error_codes::CONNECTION_FAILED
    );
    assert_eq!(
        NetworkError::PeerNotFound("test".into()).error_code(),
        error_codes::PEER_NOT_FOUND
    );
    assert_eq!(
        NetworkError::NotLeader.error_code(),
        error_codes::NOT_LEADER
    );
    assert_eq!(
        NetworkError::SendQueueFull.error_code(),
        error_codes::SEND_QUEUE_FULL
    );
    assert_eq!(
        NetworkError::MessageTooLarge(0).error_code(),
        error_codes::MESSAGE_TOO_LARGE
    );
    assert_eq!(
        NetworkError::SessionMismatch {
            expected: "a".into(),
            got: "b".into()
        }
        .error_code(),
        error_codes::SESSION_MISMATCH
    );
    assert_eq!(
        NetworkError::DuplicatePeerId("test".into()).error_code(),
        error_codes::DUPLICATE_PEER_ID
    );
    assert_eq!(
        NetworkError::VersionMismatch {
            expected: 1,
            got: 2
        }
        .error_code(),
        error_codes::VERSION_MISMATCH
    );
    assert_eq!(
        NetworkError::MaxConnectionsReached.error_code(),
        error_codes::MAX_CONNECTIONS_REACHED
    );
    assert_eq!(
        NetworkError::HandshakeFailed("test".into()).error_code(),
        error_codes::CONNECTION_FAILED
    );
    assert_eq!(
        NetworkError::HandshakeTimeout.error_code(),
        error_codes::CONNECTION_FAILED
    );
    assert_eq!(
        NetworkError::Serialization(postcard::Error::DeserializeBadVarint).error_code(),
        error_codes::SERIALIZATION_ERROR
    );
    assert_eq!(
        NetworkError::NotImplemented.error_code(),
        error_codes::INTERNAL_ERROR
    );
    assert_eq!(
        NetworkError::Internal("test".into()).error_code(),
        error_codes::INTERNAL_ERROR
    );
}

#[test]
fn test_error_display() {
    assert_eq!(
        NetworkError::NotInitialized.to_string(),
        "network not initialized"
    );
    assert_eq!(NetworkError::NotLeader.to_string(), "not leader");
    assert_eq!(NetworkError::SendQueueFull.to_string(), "send queue full");
    assert_eq!(
        NetworkError::HandshakeTimeout.to_string(),
        "handshake timeout"
    );
    assert_eq!(
        NetworkError::MaxConnectionsReached.to_string(),
        "max connections reached"
    );
    assert_eq!(NetworkError::NotImplemented.to_string(), "not implemented");

    let e = NetworkError::InvalidArgument("bad".into());
    assert!(e.to_string().contains("bad"));

    let e = NetworkError::MessageTooLarge(9999);
    assert!(e.to_string().contains("9999"));

    let e = NetworkError::SessionMismatch {
        expected: "a".into(),
        got: "b".into(),
    };
    let s = e.to_string();
    assert!(s.contains("a") && s.contains("b"));
}

#[test]
fn test_error_from_io() {
    let io_err = io::Error::new(io::ErrorKind::ConnectionRefused, "refused");
    let e: NetworkError = io_err.into();
    assert!(matches!(e, NetworkError::Io(_)));
    assert_eq!(e.error_code(), error_codes::CONNECTION_FAILED);
}

#[test]
fn test_error_from_postcard() {
    let pc_err = postcard::Error::DeserializeBadVarint;
    let e: NetworkError = pc_err.into();
    assert!(matches!(e, NetworkError::Serialization(_)));
    assert_eq!(e.error_code(), error_codes::SERIALIZATION_ERROR);
}

#[test]
fn test_error_source() {
    let io_err = NetworkError::Io(io::Error::new(io::ErrorKind::Other, "test"));
    assert!(io_err.source().is_some());

    let ser_err = NetworkError::Serialization(postcard::Error::DeserializeBadVarint);
    assert!(ser_err.source().is_some());

    assert!(NetworkError::NotLeader.source().is_none());
}

#[test]
fn messages_in_full() {
    assert_eq!(
        NetworkError::AlreadyInitialized.to_string(),
        "network already initialized"
    );
    assert_eq!(
        NetworkError::InvalidArgument("bad".into()).to_string(),
        "invalid argument: bad"
    );
    assert_eq!(
        NetworkError::Io(io::Error::new(io::ErrorKind::Other, "boom")).to_string(),
        "IO error: boom"
    );
    assert_eq!(
        NetworkError::ConnectionFailed("x".into()).to_string(),
        "connection failed: x"
    );
    assert_eq!(
        NetworkError::HandshakeFailed("x".into()).to_string(),
        "handshake failed: x"
    );
    assert_eq!(
        NetworkError::PeerNotFound("p".into()).to_string(),
        "peer not found: p"
    );
    assert_eq!(
        NetworkError::DuplicatePeerId("p".into()).to_string(),
        "duplicate peer id: p"
    );
    assert_eq!(
        NetworkError::AlreadyConnected("p".into()).to_string(),
        "already connected: p"
    );
    assert_eq!(
        NetworkError::VersionMismatch { expected: 1, got: 65535 }.to_string(),
        "version mismatch: expected 1, got 65535"
    );
    assert_eq!(
        NetworkError::SessionMismatch { expected: "a".into(), got: "b".into() }.to_string(),
        "session mismatch: expected a, got b"
    );
    assert_eq!(
        NetworkError::MessageTooLarge(4294967295).to_string(),
        "message too large: 4294967295 bytes"
    );
    assert_eq!(
        NetworkError::Serialization(postcard::Error::DeserializeBadBool).to_string(),
        "serialization error: Found a bool that wasn't 0 or 1"
    );
    assert_eq!(
        NetworkError::Internal("oops".into()).to_string(),
        "internal error: oops"
    );
}

#[test]
fn every_code_is_negative() {
    let errors = vec![
        NetworkError::NotInitialized,
        NetworkError::AlreadyInitialized,
        NetworkError::InvalidArgument(String::new()),
        NetworkError::ConnectionFailed(String::new()),
        NetworkError::PeerNotFound(String::new()),
        NetworkError::NotLeader,
        NetworkError::SendQueueFull,
        NetworkError::MessageTooLarge(1),
        NetworkError::DuplicatePeerId(String::new()),
        NetworkError::MaxConnectionsReached,
        NetworkError::AlreadyConnected(String::new()),
        NetworkError::NotImplemented,
    ];
    for e in &errors {
        assert!(e.error_code() < error_codes::OK);
    }
    assert_eq!(NetworkError::AlreadyConnected("p".into()).error_code(), -14);
    assert_eq!(NetworkError::NotImplemented.error_code(), -99);
}

#[test]
fn source_is_the_wrapped_error() {
    let e = NetworkError::Io(io::Error::new(io::ErrorKind::ConnectionRefused, "refused"));
    match e.source() {
        Some(ErrorSource::Io(inner)) => {
            assert_eq!(inner.kind(), io::ErrorKind::ConnectionRefused)
        }
        _ => panic!("expected the I/O error"),
    }
    let e = NetworkError::Serialization(postcard::Error::DeserializeBadUtf8);
    match e.source() {
        Some(ErrorSource::Serialization(inner)) => {
            assert_eq!(*inner, postcard::Error::DeserializeBadUtf8)
        }
        _ => panic!("expected the serialization error"),
    }
}
