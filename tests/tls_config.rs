use pinhole::client_error::{tls_host_name, NetworkError};
use pinhole::tls::{ClientTlsConfig, ServerTlsConfig, TlsConfigError};

#[test]
fn tls_config_test_server_config_creation() {
    let config = ServerTlsConfig::new("cert.pem", "key.pem");
    assert_eq!(config.cert_path, "cert.pem");
    assert_eq!(config.key_path, "key.pem");
}

#[test]
fn test_client_config_defaults() {
    let config = ClientTlsConfig::new();
    assert!(!config.accept_invalid_certs);
    assert!(config.ca_cert_path.is_none());
}

#[test]
fn tls_config_test_client_config_danger_mode() {
    let config = ClientTlsConfig::new_danger_accept_invalid_certs();
    assert!(config.accept_invalid_certs);
}

#[test]
fn tls_config_test_client_config_with_ca() {
    let config = ClientTlsConfig::new().with_ca_cert("ca.pem");
    assert_eq!(config.ca_cert_path, Some("ca.pem".to_string()));
}

#[test]
fn tls_integration_test_test_server_config_creation() {
    let config = ServerTlsConfig::new("cert.pem", "key.pem");
    assert_eq!(config.cert_path, "cert.pem");
    assert_eq!(config.key_path, "key.pem");
}

#[test]
fn tls_integration_test_test_client_config_danger_mode() {
    let config = ClientTlsConfig::new_danger_accept_invalid_certs();
    assert!(config.accept_invalid_certs);
}

#[test]
fn test_client_config_default() {
    let config = ClientTlsConfig::new();
    assert!(!config.accept_invalid_certs);
    assert!(config.ca_cert_path.is_none());
}

#[test]
fn tls_integration_test_test_client_config_with_ca() {
    let config = ClientTlsConfig::new().with_ca_cert("ca.pem");
    assert_eq!(config.ca_cert_path, Some("ca.pem".to_string()));
}

#[test]
fn tls_error_messages() {
    let err = TlsConfigError::IdentityParseError("bad pem".to_string());
    assert_eq!(err.to_string(), "Failed to parse certificate/key: bad pem");
    let err = TlsConfigError::CertificateReadError {
        path: "cert.pem".to_string(),
        source: std::io::Error::new(std::io::ErrorKind::NotFound, "missing"),
    };
    let text = err.to_string();
    assert!(text.starts_with("Failed to read certificate file 'cert.pem': "));
    assert!(text.contains("missing"));
}

#[test]
fn host_name_is_part_before_colon() {
    let strict = ClientTlsConfig::new();
    assert_eq!(tls_host_name("example.com:443", &strict).unwrap(), "example.com");
    assert_eq!(tls_host_name("a:b:c", &strict).unwrap(), "a");
    let err = tls_host_name("localhost", &strict).unwrap_err();
    assert!(matches!(err, NetworkError::InvalidAddress(ref a) if a == "localhost"));
    let dev = ClientTlsConfig::new_danger_accept_invalid_certs();
    assert_eq!(tls_host_name("localhost", &dev).unwrap(), "localhost");
}
