use vstd::prelude::*;

use crate::text::join;
use crate::tls::{starts_with, ClientTlsConfig};

verus! {

/// A failure of the client's connection to its server.
#[derive(Debug)]
pub enum NetworkError {
    /// The address is not of the form `host:port`.
    InvalidAddress(String),
    /// The TLS handshake failed; this is not retried.
    TlsHandshakeFailed(String),
    /// The TLS connector could not be built.
    TlsConnectorBuildFailed(String),
    /// The TCP connection failed.
    TcpConnectionFailed(std::io::Error),
    /// The peer broke the protocol, or the session is gone.
    ProtocolError(String),
    /// Client storage failed.
    StorageError(String),
}

impl From<std::io::Error> for NetworkError {
    fn from(err: std::io::Error) -> (r: NetworkError)
        ensures
            r == NetworkError::TcpConnectionFailed(err),
    {
        NetworkError::TcpConnectionFailed(err)
    }
}

impl vstd::std_specs::convert::FromSpecImpl<std::io::Error> for NetworkError {
    open spec fn obeys_from_spec() -> bool {
        true
    }

    open spec fn from_spec(v: std::io::Error) -> NetworkError {
        NetworkError::TcpConnectionFailed(v)
    }
}

impl NetworkError {
    /// A description of the error for people.
    pub fn to_string(&self) -> (r: String)
        ensures
            match *self {
                NetworkError::InvalidAddress(a) => r@ == "Invalid address format '"@ + a@
                    + "' (expected 'host:port')"@,
                NetworkError::TlsHandshakeFailed(m) => r@ == "TLS handshake failed: "@ + m@,
                NetworkError::TlsConnectorBuildFailed(m) => r@ == "Failed to build TLS connector: "@
                    + m@,
                NetworkError::TcpConnectionFailed(_) => starts_with(r@, "TCP connection failed: "@),
                NetworkError::ProtocolError(m) => r@ == "Protocol error: "@ + m@,
                NetworkError::StorageError(m) => r@ == "Storage error: "@ + m@,
            },
    {
        match self {
            NetworkError::InvalidAddress(a) => {
                let s = join("Invalid address format '", a.as_str());
                s.concat("' (expected 'host:port')")
            },
            NetworkError::TlsHandshakeFailed(m) => join("TLS handshake failed: ", m.as_str()),
            NetworkError::TlsConnectorBuildFailed(m) => join(
                "Failed to build TLS connector: ",
                m.as_str(),
            ),
            NetworkError::TcpConnectionFailed(e) => {
                let s = String::from_str("TCP connection failed: ");
                let r = s.concat(crate::text::io_error_text(e).as_str());
                assert(r@.take("TCP connection failed: "@.len() as int) =~= "TCP connection failed: "@);
                r
            },
            NetworkError::ProtocolError(m) => join("Protocol error: ", m.as_str()),
            NetworkError::StorageError(m) => join("Storage error: ", m.as_str()),
        }
    }
}

/// The part of an address before its first `:`, or the whole address when it
/// has none.
pub open spec fn host_part(address: Seq<char>) -> Seq<char>
    decreases address.len(),
{
    if address.len() == 0 {
        address
    } else if address[0] == ':' {
        Seq::empty()
    } else {
        seq![address[0]] + host_part(address.drop_first())
    }
}

/// Whether the address holds a `:`.
pub open spec fn has_port(address: Seq<char>) -> bool {
    exists|i: int| 0 <= i < address.len() && address[i] == ':'
}

proof fn lemma_host_part(s: Seq<char>, k: int)
    requires
        0 <= k <= s.len(),
        forall|j: int| 0 <= j < k ==> s[j] != ':',
        k == s.len() || s[k] == ':',
    ensures
        host_part(s) == s.take(k),
    decreases k,
{
    if k == 0 {
        assert(s.take(0) =~= Seq::<char>::empty());
        if s.len() == 0 {
            assert(s =~= Seq::<char>::empty());
        }
    } else {
        lemma_host_part(s.drop_first(), k - 1);
        assert(seq![s[0]] + s.drop_first().take(k - 1) =~= s.take(k));
    }
}

/// The host name to verify the server's certificate against: the part of
/// `address` before its first `:`. An address without a port is accepted only
/// when invalid certificates are accepted.
pub fn tls_host_name(address: &str, config: &ClientTlsConfig) -> (r: Result<String, NetworkError>)
    ensures
        has_port(address@) || config.accept_invalid_certs <==> r is Ok,
        r matches Ok(h) ==> h@ == host_part(address@),
        r matches Err(e) ==> e matches NetworkError::InvalidAddress(a) && a@ == address@,
{
    let cs = crate::text::chars_of(address);
    let mut k: usize = 0;
    while k < cs.len() && cs[k] != ':'
        invariant
            cs@ == address@,
            k <= cs@.len(),
            forall|j: int| 0 <= j < k ==> cs@[j] != ':',
        decreases cs@.len() - k,
    {
        k = k + 1;
    }
    proof {
        lemma_host_part(address@, k as int);
    }
    if k == cs.len() && !config.accept_invalid_certs {
        return Err(NetworkError::InvalidAddress(address.to_owned()));
    }
    Ok(address.substring_char(0, k).to_owned())
}

} // verus!
