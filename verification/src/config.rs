//! The immutable proxy configuration and the allowlist admission decision.

use vstd::prelude::*;

verus! {

use vstd::string::StringSliceAdditionalSpecFns;

/// The proxy's configuration, supplied once at startup and read-only
/// thereafter.
pub struct Config {
    /// The address of the local interface to listen on, e.g. `127.0.0.1`.
    pub local_addr: String,
    /// The local TCP port to bind to.
    pub local_port: u16,
    /// The servers (`host:port`) that a client may ask to be connected to.
    pub allowed_servers: Vec<String>,
    /// Whether the client-to-proxy leg uses TLS.
    pub use_tls: bool,
    /// Path of a file holding the TLS certificate chain, in PEM format.
    pub cert_chain: Option<String>,
    /// Path of a file holding the TLS private key, in PEM format.
    pub private_key: Option<String>,
}

/// Why a configuration was rejected or a lookup in it failed.
#[derive(Clone, Copy, Debug, PartialEq, Eq, Structural)]
pub enum ConfigError {
    /// TLS was requested but the certificate-chain or private-key path is
    /// missing.
    MissingCertOrKey,
}

impl ConfigError {
    /// A short description, for operator-facing status lines.
    pub fn message(&self) -> (r: &'static str)
        ensures
            r@ == "missing cert or key filename"@,
    {
        "missing cert or key filename"
    }
}

impl Config {
    /// A configuration is well formed when TLS, if enabled, comes with both
    /// a certificate-chain path and a private-key path.
    pub open spec fn wf(self) -> bool {
        self.use_tls ==> self.cert_chain is Some && self.private_key is Some
    }

    /// Build a configuration from its parts, rejecting a TLS configuration
    /// that lacks the certificate-chain or private-key path.
    pub fn new(
        local_addr: String,
        local_port: u16,
        allowed_servers: Vec<String>,
        use_tls: bool,
        cert_chain: Option<String>,
        private_key: Option<String>,
    ) -> (r: Result<Config, ConfigError>)
        ensures
            r is Ok <==> (use_tls ==> cert_chain is Some && private_key is Some),
            r matches Ok(c) ==> c == (Config {
                local_addr,
                local_port,
                allowed_servers,
                use_tls,
                cert_chain,
                private_key,
            }) && c.wf(),
            r is Err ==> r == Result::<Config, ConfigError>::Err(ConfigError::MissingCertOrKey),
    {
        if use_tls && (cert_chain.is_none() || private_key.is_none()) {
            return Err(ConfigError::MissingCertOrKey);
        }
        Ok(
            Config {
                local_addr,
                local_port,
                allowed_servers,
                use_tls,
                cert_chain,
                private_key,
            },
        )
    }

    /// Retrieve the certificate-chain and private-key paths, or an error if
    /// either is absent.
    pub fn get_cert_filenames(&self) -> (r: Result<(&str, &str), ConfigError>)
        ensures
            r is Ok <==> self.cert_chain is Some && self.private_key is Some,
            r matches Ok((cert, key)) ==> (self.cert_chain matches Some(c) && cert@ == c@) && (
            self.private_key matches Some(k) && key@ == k@),
            r is Err ==> r == Result::<(&str, &str), ConfigError>::Err(
                ConfigError::MissingCertOrKey,
            ),
    {
        match (&self.cert_chain, &self.private_key) {
            (Some(cert), Some(key)) => Ok((cert.as_str(), key.as_str())),
            _ => Err(ConfigError::MissingCertOrKey),
        }
    }

    /// A target authority is allowed exactly when it equals some entry of the
    /// allowlist.
    pub open spec fn allows(self, requested: Seq<char>) -> bool {
        exists|i: int|
            0 <= i < self.allowed_servers@.len() && self.allowed_servers@[i]@ == requested
    }

    /// Decide whether `requested` may be dialed: an exact, case-sensitive
    /// match against the allowlist, with no normalization.
    pub fn is_server_allowed(&self, requested: &str) -> (r: bool)
        ensures
            r == self.allows(requested@),
    {
        let req_bytes = requested.as_bytes();
        let n = self.allowed_servers.len();
        let mut i: usize = 0;
        while i < n
            invariant
                n == self.allowed_servers@.len(),
                req_bytes@ == vstd::utf8::encode_utf8(requested@),
                forall|j: int| 0 <= j < i ==> self.allowed_servers@[j]@ != requested@,
            decreases n - i,
        {
            let entry: &String = &self.allowed_servers[i];
            let entry_bytes = entry.as_str().as_bytes();
            if bytes_eq(req_bytes, entry_bytes) {
                proof {
                    lemma_encoded_eq_chars_eq(requested@, entry@);
                }
                return true;
            }
            proof {
                if entry@ == requested@ {
                    assert(vstd::utf8::encode_utf8(entry@) == vstd::utf8::encode_utf8(
                        requested@,
                    ));
                }
            }
            i = i + 1;
        }
        false
    }
}

/// Compare two byte slices for equality of contents.
pub fn bytes_eq(a: &[u8], b: &[u8]) -> (r: bool)
    ensures
        r == (a@ == b@),
{
    if a.len() != b.len() {
        return false;
    }
    let n = a.len();
    let mut i: usize = 0;
    while i < n
        invariant
            n == a@.len() == b@.len(),
            forall|j: int| 0 <= j < i ==> a@[j] == b@[j],
        decreases n - i,
    {
        if a[i] != b[i] {
            return false;
        }
        i = i + 1;
    }
    proof {
        assert(a@ =~= b@);
    }
    true
}

/// Two character sequences with equal UTF-8 encodings are equal.
proof fn lemma_encoded_eq_chars_eq(a: Seq<char>, b: Seq<char>)
    requires
        vstd::utf8::encode_utf8(a) == vstd::utf8::encode_utf8(b),
    ensures
        a == b,
{
    vstd::utf8::encode_utf8_decode_utf8(a);
    vstd::utf8::encode_utf8_decode_utf8(b);
}

} // verus!
