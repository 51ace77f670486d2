use vstd::prelude::*;

use crate::text::join;

verus! {

/// A failure to set up TLS; the server does not start, or the client cannot
/// connect.
#[derive(Debug)]
pub enum TlsConfigError {
    CertificateReadError { path: String, source: std::io::Error },
    KeyReadError { path: String, source: std::io::Error },
    CaCertificateReadError { path: String, source: std::io::Error },
    IdentityParseError(String),
    CaCertificateParseError(String),
    AcceptorBuildError(String),
}

/// `t` begins with `p`.
pub open spec fn starts_with(t: Seq<char>, p: Seq<char>) -> bool {
    t.len() >= p.len() && t.take(p.len() as int) == p
}

impl TlsConfigError {
    /// A description of the error for people.
    pub fn to_string(&self) -> (r: String)
        ensures
            match *self {
                TlsConfigError::CertificateReadError { path, .. } => starts_with(
                    r@,
                    "Failed to read certificate file '"@ + path@ + "': "@,
                ),
                TlsConfigError::KeyReadError { path, .. } => starts_with(
                    r@,
                    "Failed to read key file '"@ + path@ + "': "@,
                ),
                TlsConfigError::CaCertificateReadError { path, .. } => starts_with(
                    r@,
                    "Failed to read CA certificate file '"@ + path@ + "': "@,
                ),
                TlsConfigError::IdentityParseError(m) => r@ == "Failed to parse certificate/key: "@
                    + m@,
                TlsConfigError::CaCertificateParseError(m) => r@
                    == "Failed to parse CA certificate: "@ + m@,
                TlsConfigError::AcceptorBuildError(m) => r@ == "Failed to build TLS acceptor: "@
                    + m@,
            },
    {
        match self {
            TlsConfigError::CertificateReadError { path, source } => {
                with_detail("Failed to read certificate file '", path, crate::text::io_error_text(source))
            },
            TlsConfigError::KeyReadError { path, source } => {
                with_detail("Failed to read key file '", path, crate::text::io_error_text(source))
            },
            TlsConfigError::CaCertificateReadError { path, source } => {
                with_detail("Failed to read CA certificate file '", path, crate::text::io_error_text(source))
            },
            TlsConfigError::IdentityParseError(m) => join(
                "Failed to parse certificate/key: ",
                m.as_str(),
            ),
            TlsConfigError::CaCertificateParseError(m) => join(
                "Failed to parse CA certificate: ",
                m.as_str(),
            ),
            TlsConfigError::AcceptorBuildError(m) => join(
                "Failed to build TLS acceptor: ",
                m.as_str(),
            ),
        }
    }
}

fn with_detail(lead: &str, path: &String, detail: String) -> (r: String)
    ensures
        starts_with(r@, lead@ + path@ + "': "@),
{
    let s = join(lead, path.as_str());
    let s = s.concat("': ");
    let ghost p = s@;
    let r = s.concat(detail.as_str());
    assert(r@.take(p.len() as int) =~= p);
    r
}

/// Where the server finds its TLS identity.
#[derive(Clone, Debug)]
pub struct ServerTlsConfig {
    /// A PEM certificate.
    pub cert_path: String,
    /// A PKCS#8 PEM private key.
    pub key_path: String,
}

impl ServerTlsConfig {
    /// The identity in `cert_path` and `key_path`.
    pub fn new(cert_path: &str, key_path: &str) -> (r: ServerTlsConfig)
        ensures
            r.cert_path@ == cert_path@,
            r.key_path@ == key_path@,
    {
        ServerTlsConfig { cert_path: cert_path.to_owned(), key_path: key_path.to_owned() }
    }
}

/// How the client trusts servers.
#[derive(Clone, Debug)]
pub struct ClientTlsConfig {
    /// Accepts any certificate and host name; for development only.
    pub accept_invalid_certs: bool,
    /// A root certificate trusted besides the system's.
    pub ca_cert_path: Option<String>,
}

impl ClientTlsConfig {
    /// The system's trust, strictly.
    pub fn new() -> (r: ClientTlsConfig)
        ensures
            !r.accept_invalid_certs,
            r.ca_cert_path is None,
    {
        ClientTlsConfig { accept_invalid_certs: false, ca_cert_path: None }
    }

    /// Accepts invalid certificates and host names.
    pub fn new_danger_accept_invalid_certs() -> (r: ClientTlsConfig)
        ensures
            r.accept_invalid_certs,
            r.ca_cert_path is None,
    {
        ClientTlsConfig { accept_invalid_certs: true, ca_cert_path: None }
    }

    /// Trusts the root certificate in `ca_cert_path` as well.
    pub fn with_ca_cert(self, ca_cert_path: &str) -> (r: ClientTlsConfig)
        ensures
            r.accept_invalid_certs == self.accept_invalid_certs,
            r.ca_cert_path matches Some(p) && p@ == ca_cert_path@,
    {
        ClientTlsConfig {
            accept_invalid_certs: self.accept_invalid_certs,
            ca_cert_path: Some(ca_cert_path.to_owned()),
        }
    }
}

impl Default for ClientTlsConfig {
    fn default() -> (r: Self)
        ensures
            !r.accept_invalid_certs,
            r.ca_cert_path is None,
    {
        ClientTlsConfig::new()
    }
}

} // verus!
