//! Execution-only HTTP credentials and the decoding of their secret headers.
//!
//! Credentials are decoded only while a live HTTP request is built; they never enter the
//! plan, effect fingerprints, events, traces or replay tasks.

use vstd::prelude::*;

use crate::text::{chars_of, trim, trim_chars};

verus! {

/// HTTP credentials used during one execution.
#[derive(Clone, Default)]
pub struct HttpExecutionCredentials {
    cookie_namespace: String,
    secret_bytes: Option<Vec<u8>>,
}

/// Secret HTTP headers, decoded for the time a request is built, in name order.
#[derive(Default)]
pub struct SecretHttpHeaders {
    headers: Vec<(String, String)>,
}

/// Why a source secret cannot serve as HTTP headers.
#[derive(Debug, Clone, Copy, PartialEq, Eq, Structural)]
pub enum HttpCredentialsError {
    /// There is a secret but the cookie namespace is empty.
    MissingCookieNamespace,
    /// The secret bytes are not a JSON object of string values.
    InvalidSecretEncoding,
}

/// The texts of `(name, value)` pairs.
pub open spec fn pair_views(v: Seq<(String, String)>) -> Seq<(Seq<char>, Seq<char>)> {
    v.map_values(|p: (String, String)| (p.0@, p.1@))
}

/// The entries, in key order, of the JSON object of strings that `bytes` encodes; `None`
/// when `bytes` is not such an object.
pub uninterp spec fn json_string_map(bytes: Seq<u8>) -> Option<Seq<(Seq<char>, Seq<char>)>>;

/// Calls `serde_json::from_slice` into a `BTreeMap<String, String>` and lists its entries.
/// Claimed: the result is the named decoding of the bytes (`None` on a decoding error).
#[verifier::external_body]
fn decode_string_map(bytes: &[u8]) -> (r: Option<Vec<(String, String)>>)
    ensures
        match r {
            Some(v) => json_string_map(bytes@) == Some(pair_views(v@)),
            None => json_string_map(bytes@) is None,
        },
{
    match serde_json::from_slice::<std::collections::BTreeMap<String, String>>(bytes) {
        Ok(map) => Some(map.into_iter().collect()),
        Err(_) => None,
    }
}

impl HttpExecutionCredentials {
    /// The cookie namespace.
    pub closed spec fn namespace_view(&self) -> Seq<char> {
        self.cookie_namespace@
    }

    /// The secret bytes, if any.
    pub closed spec fn secret_view(&self) -> Option<Seq<u8>> {
        match self.secret_bytes {
            Some(b) => Some(b@),
            None => None,
        }
    }

    /// Takes over decrypted source secret bytes for the live HTTP effects of one execution.
    pub fn from_source_secret(cookie_namespace: String, secret_bytes: Option<Vec<u8>>) -> (c: HttpExecutionCredentials)
        ensures
            c.namespace_view() == cookie_namespace@,
            c.secret_view() == (match secret_bytes {
                Some(b) => Some(b@),
                None => None::<Seq<u8>>,
            }),
    {
        HttpExecutionCredentials { cookie_namespace, secret_bytes }
    }

    /// The cookie namespace assigned to the pinned source version.
    pub fn cookie_namespace(&self) -> (s: &str)
        ensures
            s@ == self.namespace_view(),
    {
        self.cookie_namespace.as_str()
    }

    /// Decodes the secret headers: none without a secret; refused when there is a secret but
    /// the namespace is blank, or when the secret is not a JSON object of strings.
    pub fn decode_headers(&self) -> (r: Result<SecretHttpHeaders, HttpCredentialsError>)
        ensures
            match self.secret_view() {
                None => r matches Ok(h) && h.view().len() == 0,
                Some(b) => if trim(self.namespace_view()).len() == 0 {
                    r == Err::<SecretHttpHeaders, HttpCredentialsError>(HttpCredentialsError::MissingCookieNamespace)
                } else {
                    match json_string_map(b) {
                        None => r == Err::<SecretHttpHeaders, HttpCredentialsError>(HttpCredentialsError::InvalidSecretEncoding),
                        Some(m) => r matches Ok(h) && h.view() == m,
                    }
                },
            },
    {
        match &self.secret_bytes {
            None => Ok(SecretHttpHeaders { headers: Vec::new() }),
            Some(bytes) => {
                if trim_chars(&chars_of(self.cookie_namespace.as_str())).len() == 0 {
                    return Err(HttpCredentialsError::MissingCookieNamespace);
                }
                match decode_string_map(bytes.as_slice()) {
                    None => Err(HttpCredentialsError::InvalidSecretEncoding),
                    Some(headers) => Ok(SecretHttpHeaders { headers }),
                }
            },
        }
    }
}

impl SecretHttpHeaders {
    /// The headers as `(name, value)` texts.
    pub closed spec fn view(&self) -> Seq<(Seq<char>, Seq<char>)> {
        pair_views(self.headers@)
    }

    /// The headers in name order, borrowed.
    pub fn iter(&self) -> (r: &[(String, String)])
        ensures
            pair_views(r@) == self.view(),
    {
        self.headers.as_slice()
    }
}

} // verus!
