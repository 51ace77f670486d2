use pinhole::client_error::NetworkError;
use pinhole::messages::ErrorCode;
use pinhole::network::{NetworkError as WireError, MAX_MESSAGE_SIZE};

#[test]
fn test_error_code_as_u16() {
    assert_eq!(ErrorCode::BadRequest.as_u16(), 400);
    assert_eq!(ErrorCode::NotFound.as_u16(), 404);
    assert_eq!(ErrorCode::InternalServerError.as_u16(), 500);
}

#[test]
fn test_all_error_codes_have_valid_status_codes() {
    assert!(ErrorCode::BadRequest.as_u16() >= 400);
    assert!(ErrorCode::BadRequest.as_u16() < 500);

    assert!(ErrorCode::NotFound.as_u16() >= 400);
    assert!(ErrorCode::NotFound.as_u16() < 500);

    assert!(ErrorCode::InternalServerError.as_u16() >= 500);
    assert!(ErrorCode::InternalServerError.as_u16() < 600);
}

#[test]
fn test_error_code_values() {
    assert_eq!(ErrorCode::BadRequest.as_u16(), 400);
    assert_eq!(ErrorCode::NotFound.as_u16(), 404);
    assert_eq!(ErrorCode::InternalServerError.as_u16(), 500);
}

#[test]
fn upgrade_required_is_426() {
    assert_eq!(ErrorCode::UpgradeRequired.as_u16(), 426);
}

#[test]
fn test_invalid_address_display() {
    let err = NetworkError::InvalidAddress("bad".to_string());
    assert!(err.to_string().contains("Invalid address format"));
    assert!(err.to_string().contains("bad"));
}

#[test]
fn test_tls_handshake_display() {
    let err = NetworkError::TlsHandshakeFailed("cert invalid".to_string());
    assert!(err.to_string().contains("TLS handshake failed"));
    assert!(err.to_string().contains("cert invalid"));
}

#[test]
fn test_tcp_connection_display() {
    let io_err = std::io::Error::new(std::io::ErrorKind::ConnectionRefused, "refused");
    let err = NetworkError::TcpConnectionFailed(io_err);
    assert!(err.to_string().contains("TCP connection failed"));
}

#[test]
fn test_protocol_error_display() {
    let err = NetworkError::ProtocolError("bad message".to_string());
    assert!(err.to_string().contains("Protocol error"));
    assert!(err.to_string().contains("bad message"));
}

#[test]
fn test_from_io_error() {
    let io_err = std::io::Error::new(std::io::ErrorKind::ConnectionRefused, "refused");
    let net_err: NetworkError = io_err.into();
    assert!(matches!(net_err, NetworkError::TcpConnectionFailed(_)));
}

#[test]
fn storage_and_connector_error_display() {
    assert_eq!(
        NetworkError::StorageError("disk".to_string()).to_string(),
        "Storage error: disk"
    );
    assert_eq!(
        NetworkError::TlsConnectorBuildFailed("x".to_string()).to_string(),
        "Failed to build TLS connector: x"
    );
    assert_eq!(
        NetworkError::InvalidAddress("h".to_string()).to_string(),
        "Invalid address format 'h' (expected 'host:port')"
    );
}

#[test]
fn test_max_message_size_constant() {
    const EXPECTED_MAX_SIZE: u32 = 10 * 1024 * 1024;
    assert_eq!(MAX_MESSAGE_SIZE, EXPECTED_MAX_SIZE);

    let oversized = EXPECTED_MAX_SIZE + 1;

    let err = WireError::MessageTooLarge {
        size: oversized,
        max: EXPECTED_MAX_SIZE,
    };

    let err_msg = err.to_string();
    assert!(err_msg.contains("exceeds maximum"));
    assert!(err_msg.contains(&oversized.to_string()));
    assert!(err_msg.contains(&EXPECTED_MAX_SIZE.to_string()));
}

#[test]
fn test_network_error_display() {
    let err = WireError::MessageTooLarge {
        size: 20_000_000,
        max: 10_000_000,
    };

    let msg = err.to_string();
    assert!(msg.contains("20000000"));
    assert!(msg.contains("10000000"));
    assert!(msg.contains("exceeds maximum"));
}

#[test]
fn test_network_error_io_conversion() {
    let io_err = std::io::Error::new(std::io::ErrorKind::ConnectionRefused, "test");
    let net_err: WireError = io_err.into();

    assert!(matches!(net_err, WireError::IoError(_)));
    assert!(net_err.to_string().contains("IO error"));
}

#[test]
fn test_network_error_serialization() {
    let err = WireError::SerializationError("bad data".to_string());
    let msg = err.to_string();

    assert!(msg.contains("Serialization error"));
    assert!(msg.contains("bad data"));
}

#[test]
fn test_network_error_to_boxed() {
    let err = WireError::MessageTooLarge { size: 100, max: 50 };

    let boxed: Box<String> = Box::new(err.to_string());
    assert!(boxed.contains("exceeds maximum"));
}

#[test]
fn too_large_message_text_is_exact() {
    let err = WireError::MessageTooLarge { size: 0, max: 9 };
    assert_eq!(err.to_string(), "Message size 0 bytes exceeds maximum 9 bytes");
}
