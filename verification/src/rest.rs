//! The REST request pipeline: connection values, request building, and
//! response decoding with opt-in empty-body normalization.

use vstd::prelude::*;
use vstd::string::StringExecFns;

use crate::codec::decode_value;
use crate::codec::encode_value;
use crate::codec::spec_encoding;
use crate::codec::json_document;
use crate::codec::msgpack_document;
use crate::process_info::basic_auth_header;
use crate::process_info::spec_basic_auth_header;
use crate::process_info::DiscoveredCredentials;
use crate::text::dec_chars;
use crate::text::dec_string;
use crate::Error;
use crate::SerializeFormat;

pub mod batch;

verus! {

/// An HTTP request method.
#[derive(Clone, Copy, PartialEq, Eq, Structural, Debug)]
pub enum Method {
    Delete,
    Get,
    Head,
    Patch,
    Post,
    Put,
}

impl Method {
    /// The method's name on the wire.
    pub open spec fn spec_as_str(&self) -> Seq<char> {
        match self {
            Method::Delete => "DELETE"@,
            Method::Get => "GET"@,
            Method::Head => "HEAD"@,
            Method::Patch => "PATCH"@,
            Method::Post => "POST"@,
            Method::Put => "PUT"@,
        }
    }

    pub fn as_str(&self) -> (r: &str)
        ensures
            r@ == self.spec_as_str(),
    {
        match self {
            Method::Delete => "DELETE",
            Method::Get => "GET",
            Method::Head => "HEAD",
            Method::Patch => "PATCH",
            Method::Post => "POST",
            Method::Put => "PUT",
        }
    }
}

/// One fully formed logical request: a method, a path-and-query endpoint,
/// and an optional body. Immutable once built.
pub struct Request<T> {
    pub method: Method,
    pub endpoint: String,
    pub body: Option<T>,
}

impl Request<()> {
    /// A body-less request for the given endpoint and method.
    pub fn new(endpoint: String, method: Method) -> (r: Self)
        ensures
            r.method == method,
            r.endpoint@ == endpoint@,
            r.body is None,
    {
        Request { method, body: None, endpoint }
    }
}

impl<T> Request<T> {
    /// A builder with every stage still unset.
    pub fn builder() -> (r: RequestBuilder<T>)
        ensures
            r.method is None,
            r.endpoint is None,
            r.body is None,
    {
        RequestBuilder { method: None, endpoint: None, body: None }
    }
}

/// Staged construction of a [`Request`]: `build` demands that a method and
/// an endpoint have been supplied, so a half-built request cannot escape.
pub struct RequestBuilder<T> {
    pub method: Option<Method>,
    pub endpoint: Option<String>,
    pub body: Option<T>,
}

impl<T> RequestBuilder<T> {
    pub fn endpoint(self, endpoint: String) -> (r: Self)
        ensures
            r.endpoint matches Some(e) && e@ == endpoint@,
            r.method == self.method,
            r.body == self.body,
    {
        RequestBuilder { endpoint: Some(endpoint), method: self.method, body: self.body }
    }

    pub fn body(self, body: T) -> (r: Self)
        ensures
            r.body == Some(body),
            r.method == self.method,
            r.endpoint == self.endpoint,
    {
        RequestBuilder { body: Some(body), method: self.method, endpoint: self.endpoint }
    }

    pub fn method(self, method: Method) -> (r: Self)
        ensures
            r.method == Some(method),
            r.endpoint == self.endpoint,
            r.body == self.body,
    {
        RequestBuilder { method: Some(method), endpoint: self.endpoint, body: self.body }
    }

    /// Finish the build. Requiring the method and endpoint stages to be set
    /// makes premature building a contract violation, not a runtime error.
    pub fn build(self) -> (r: Request<T>)
        requires
            self.method is Some,
            self.endpoint is Some,
        ensures
            Some(r.method) == self.method,
            Some(r.endpoint) == self.endpoint,
            r.body == self.body,
    {
        let method = match self.method {
            Some(m) => m,
            None => Method::Get,
        };
        let endpoint = match self.endpoint {
            Some(e) => e,
            None => String::new(),
        };
        Request { method, body: self.body, endpoint }
    }
}

/// Turns `Err(DecodeFailure)` for a zero-length body into `Ok(None)`.
///
/// Only the decode failure whose `eof_at_start` flag is set — the one
/// recorded for a body with no content at all — is downgraded; every other
/// error, and in particular a decode failure part-way into malformed
/// content, passes through unchanged.
pub fn eof_into_optional<T>(result: Result<T, Error>) -> (r: Result<Option<T>, Error>)
    ensures
        match result {
            Ok(v) => r == Ok::<Option<T>, Error>(Some(v)),
            Err(e) => if e matches Error::DecodeFailure { eof_at_start: true, .. } {
                r == Ok::<Option<T>, Error>(None::<T>)
            } else {
                r == Err::<Option<T>, Error>(e)
            },
        },
{
    match result {
        Ok(v) => Ok(Some(v)),
        Err(e) => match e {
            Error::DecodeFailure { codec, eof_at_start, message } => {
                if eof_at_start {
                    Ok(None)
                } else {
                    Err(Error::DecodeFailure { codec, eof_at_start, message })
                }
            },
            other => Err(other),
        },
    }
}

/// Decode a response body and normalize "no content at all" to `Ok(None)`.
///
/// A zero-length body yields `Ok(None)`; a well-formed document yields
/// `Ok(Some(..))`; a non-empty malformed body yields `Err(DecodeFailure)`.
pub fn response_into_optional(bytes: &Vec<u8>, format: SerializeFormat) -> (r: Result<
    Option<serde_json::Value>,
    Error,
>)
    ensures
        bytes@.len() == 0 ==> r is Ok && r->Ok_0 is None,
        format == SerializeFormat::Json && json_document(bytes@) ==> r is Ok
            && r->Ok_0 is Some,
        format == SerializeFormat::MsgPack && msgpack_document(bytes@) ==> r is Ok
            && r->Ok_0 is Some,
        r is Err ==> bytes@.len() != 0,
        format == SerializeFormat::Json ==> (r is Err <==> (bytes@.len() != 0
            && !json_document(bytes@))),
        format == SerializeFormat::MsgPack ==> (r is Err <==> (bytes@.len() != 0
            && !msgpack_document(bytes@))),
        r matches Err(e) ==> e matches Error::DecodeFailure { codec, .. } && codec == format,
{
    eof_into_optional(decode_value(bytes, format))
}

/// A transport-ready request: everything the wire needs, already rendered.
pub struct PreparedRequest {
    pub method: Method,
    pub uri: String,
    pub auth_header: Option<String>,
    pub format: SerializeFormat,
    pub body: Option<Vec<u8>>,
}

/// A connection to the locally running client: its address and the
/// ready-to-use authorization header. Immutable except through the explicit
/// reconnect operations, which replace both parts together.
pub struct LcuClient {
    host: String,
    port: u16,
    auth_header: String,
}

impl LcuClient {
    /// The URI this connection sends a request for `endpoint` to.
    pub open spec fn spec_request_uri(&self, endpoint: Seq<char>) -> Seq<char> {
        "https://"@ + self.spec_host() + ":"@ + dec_chars(self.spec_port() as nat) + endpoint
    }

    pub closed spec fn spec_host(&self) -> Seq<char> {
        self.host@
    }

    pub closed spec fn spec_port(&self) -> u16 {
        self.port
    }

    pub closed spec fn spec_auth_header(&self) -> Seq<char> {
        self.auth_header@
    }

    /// A client that implicitly trusts the address and auth header given.
    pub fn new_with_credentials(host: String, port: u16, auth_header: String) -> (r: LcuClient)
        ensures
            r.spec_host() == host@,
            r.spec_port() == port,
            r.spec_auth_header() == auth_header@,
    {
        LcuClient { host, port, auth_header }
    }

    /// Replace the address and auth header according to the values provided.
    /// Both fields change together; nothing else does.
    pub fn reconnect_with_credentials(&mut self, host: String, port: u16, auth: String)
        ensures
            final(self).spec_host() == host@,
            final(self).spec_port() == port,
            final(self).spec_auth_header() == auth@,
    {
        self.host = host;
        self.port = port;
        self.auth_header = auth;
    }

    /// Build the transport-ready form of a pre-built request, using the
    /// request's own method, endpoint and body.
    pub fn prepare_from(&self, request: &Request<serde_json::Value>, format: SerializeFormat)
        -> (r: Result<PreparedRequest, Error>)
        ensures
            r matches Ok(p) ==> {
                &&& p.method == request.method
                &&& p.uri@ == self.spec_request_uri(request.endpoint@)
                &&& p.auth_header matches Some(a) && a@ == self.spec_auth_header()
                &&& p.format == format
                &&& (p.body is Some <==> request.body is Some)
                &&& (request.body matches Some(v) ==> p.body matches Some(b) && b@
                    == spec_encoding(v, format))
            },
            request.body is None ==> r is Ok,
            format == SerializeFormat::Json ==> r is Ok,
            r matches Err(e) ==> e matches Error::EncodeFailure { codec, .. } && codec == format,
    {
        self.prepare_request(request.method, request.endpoint.as_str(), request.body.as_ref(), format)
    }

    /// A connection built from freshly discovered credentials: the local
    /// loopback host, the discovered port, and the authorization header
    /// derived from the discovered token.
    pub fn from_credentials(credentials: DiscoveredCredentials) -> (r: LcuClient)
        ensures
            r.spec_host() == "127.0.0.1"@,
            r.spec_port() == credentials.port,
            r.spec_auth_header() == spec_basic_auth_header(credentials.auth_token@),
    {
        let auth = basic_auth_header(credentials.auth_token.as_str());
        LcuClient {
            host: String::from_str("127.0.0.1"),
            port: credentials.port,
            auth_header: auth,
        }
    }

    /// Apply the outcome of a fresh discovery run to this connection. On
    /// success both the address and the auth header are replaced together,
    /// so the next request observes the new credentials; on failure the
    /// error is returned and the previous values are left untouched.
    pub fn apply_discovery(&mut self, outcome: Result<DiscoveredCredentials, Error>) -> (r:
        Result<(), Error>)
        ensures
            match outcome {
                Ok(c) => r is Ok && final(self).spec_host() == "127.0.0.1"@
                    && final(self).spec_port() == c.port
                    && final(self).spec_auth_header() == spec_basic_auth_header(c.auth_token@),
                Err(e) => r == Err::<(), Error>(e) && *final(self) == *old(self),
            },
    {
        match outcome {
            Ok(credentials) => {
                let fresh = LcuClient::from_credentials(credentials);
                *self = fresh;
                Ok(())
            },
            Err(e) => Err(e),
        }
    }

    /// An owned copy of this connection, equal to it in every part.
    pub fn duplicate(&self) -> (r: LcuClient)
        ensures
            r == *self,
    {
        LcuClient {
            host: self.host.clone(),
            port: self.port,
            auth_header: self.auth_header.clone(),
        }
    }

    /// The host this connection talks to.
    pub fn host(&self) -> (r: &String)
        ensures
            r@ == self.spec_host(),
    {
        &self.host
    }

    /// The port this connection talks to.
    pub fn port(&self) -> (r: u16)
        ensures
            r == self.spec_port(),
    {
        self.port
    }

    /// The address in use: the host and the port.
    pub fn url(&self) -> (r: (&String, u16))
        ensures
            r.0@ == self.spec_host(),
            r.1 == self.spec_port(),
    {
        (&self.host, self.port)
    }

    /// The address in use, rendered as `host:port`.
    pub fn url_string(&self) -> (r: String)
        ensures
            r@ == self.spec_host() + ":"@ + dec_chars(self.spec_port() as nat),
    {
        let mut s = self.host.clone();
        s.append(":");
        let p = dec_string(self.port as u32);
        s.append(p.as_str());
        s
    }

    /// The authorization header value in use.
    pub fn auth_header(&self) -> (r: &str)
        ensures
            r@ == self.spec_auth_header(),
    {
        self.auth_header.as_str()
    }

    /// The full URI for a request to `endpoint` over this connection.
    pub fn request_uri(&self, endpoint: &str) -> (r: String)
        ensures
            r@ == self.spec_request_uri(endpoint@),
    {
        let mut s = String::from_str("https://");
        s.append(self.host.as_str());
        s.append(":");
        let p = dec_string(self.port as u32);
        s.append(p.as_str());
        s.append(endpoint);
        s
    }

    /// Build the transport-ready form of one request: the URI for this
    /// connection, the authorization header, and the body encoded with the
    /// chosen codec. Encoding is the only step that can fail; a body-less
    /// request, and any JSON-encoded body, always prepares successfully.
    pub fn prepare_request(
        &self,
        method: Method,
        endpoint: &str,
        body: Option<&serde_json::Value>,
        format: SerializeFormat,
    ) -> (r: Result<PreparedRequest, Error>)
        ensures
            r matches Ok(p) ==> {
                &&& p.method == method
                &&& p.uri@ == self.spec_request_uri(endpoint@)
                &&& p.auth_header matches Some(a) && a@ == self.spec_auth_header()
                &&& p.format == format
                &&& (p.body is Some <==> body is Some)
                &&& (body matches Some(v) ==> p.body matches Some(b) && b@ == spec_encoding(
                    *v,
                    format,
                ))
            },
            body is None ==> r is Ok,
            format == SerializeFormat::Json ==> r is Ok,
            r matches Err(e) ==> e matches Error::EncodeFailure { codec, .. } && codec == format,
    {
        let encoded: Option<Vec<u8>> = match body {
            None => None,
            Some(value) => match encode_value(value, format) {
                Ok(bytes) => Some(bytes),
                Err(e) => {
                    return Err(e);
                },
            },
        };
        Ok(
            PreparedRequest {
                method,
                uri: self.request_uri(endpoint),
                auth_header: Some(String::from_str(self.auth_header.as_str())),
                format,
                body: encoded,
            },
        )
    }
}

} // verus!
