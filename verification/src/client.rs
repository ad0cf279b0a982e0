//! The identity client's dispatch layer. An operation has three stages:
//! encode the typed request as JSON, compose the endpoint URL under the
//! configured host, and hand the resulting POST to a transport. The
//! transport itself (the network) lives outside this crate; its outcome
//! comes back as a plain value and is folded into the operation's result
//! here. No HTTP status inspection happens at this layer: a response of any
//! status is passed through to the caller unchanged.

use vstd::prelude::*;

use crate::codec;
use crate::records::AuthRequest;
use crate::records::LoginRequest;
use crate::records::SignupRequest;
use crate::url;

verus! {

/// The closed set of failure kinds an operation can surface, each carrying
/// a description of its underlying cause.
#[derive(Debug, Clone, PartialEq, Eq)]
pub enum Error {
    /// The request could not be encoded to JSON.
    Serialization(String),
    /// The endpoint URL could not be composed as a valid string.
    UrlComposition(String),
    /// The HTTP exchange itself failed; the transport's report is kept.
    Transport(String),
}

/// A raw HTTP response as the transport hands it back: status code and body
/// text, neither inspected nor decoded by this layer.
#[derive(Debug, Clone, PartialEq, Eq)]
pub struct HttpResponse {
    pub status: u16,
    pub body: String,
}

/// An HTTP POST fully determined before any network activity: the composed
/// target URL and the JSON body to send.
#[derive(Debug, Clone, PartialEq, Eq)]
pub struct PreparedPost {
    pub url: String,
    pub body: String,
}

/// The endpoint name of the login operation.
pub open spec fn login_endpoint() -> Seq<char> {
    "login"@
}

/// The endpoint name of the signup operation.
pub open spec fn signup_endpoint() -> Seq<char> {
    "signup"@
}

/// The endpoint name of the auth operation.
pub open spec fn auth_endpoint() -> Seq<char> {
    "auth"@
}

/// A client of the identity service: an immutable base host under which the
/// endpoint names are composed. Construction validates nothing; the fields
/// never change afterwards, so one client may serve any number of calls.
pub struct IdentityClient {
    pub host: String,
}

impl IdentityClient {
    /// Make a client for the service under `host`.
    pub fn new(host: String) -> (c: IdentityClient)
        ensures
            c.host@ == host@,
    {
        IdentityClient { host }
    }

    /// The pre-network half of the generic dispatch: compose the endpoint
    /// URL for an already-encoded body. Succeeds on every input — with the
    /// body already a string and the host UTF-8, neither the serialization
    /// nor the composition failure kind can arise here.
    pub fn prepare(&self, body: String, endpoint: &str) -> (r: Result<PreparedPost, Error>)
        ensures
            (r matches Ok(p) && p.url@ == url::join_url_spec(self.host@, endpoint@) && p.body@
                == body@),
    {
        let target = url::join_url(self.host.as_str(), endpoint);
        Ok(PreparedPost { url: target, body })
    }

    /// Prepare a login: encode the request, compose `{host}/login`.
    pub fn login_request(&self, request: &LoginRequest) -> (r: Result<PreparedPost, Error>)
        ensures
            (r matches Ok(p) && p.url@ == url::join_url_spec(self.host@, login_endpoint())
                && p.body@ == codec::encode_login_spec(request.username@, request.password@)),
    {
        let body = codec::encode_login(request);
        self.prepare(body, "login")
    }

    /// Prepare a signup: encode the request, compose `{host}/signup`.
    pub fn signup_request(&self, request: &SignupRequest) -> (r: Result<PreparedPost, Error>)
        ensures
            (r matches Ok(p) && p.url@ == url::join_url_spec(self.host@, signup_endpoint())
                && p.body@ == codec::encode_signup_spec(
                request.username@,
                request.email@,
                request.password@,
            )),
    {
        let body = codec::encode_signup(request);
        self.prepare(body, "signup")
    }

    /// Prepare an auth: encode the request, compose `{host}/auth`.
    pub fn auth_request(&self, request: &AuthRequest) -> (r: Result<PreparedPost, Error>)
        ensures
            (r matches Ok(p) && p.url@ == url::join_url_spec(self.host@, auth_endpoint())
                && p.body@ == codec::encode_token_spec(request.token@)),
    {
        let body = codec::encode_auth(request);
        self.prepare(body, "auth")
    }
}

/// How a transport outcome becomes the operation's result: a response of
/// any status passes through unchanged, a transport fault becomes
/// `Error::Transport` wrapping that fault.
pub open spec fn complete_spec(outcome: Result<HttpResponse, String>) -> Result<
    HttpResponse,
    Error,
> {
    match outcome {
        Ok(response) => Ok(response),
        Err(fault) => Err(Error::Transport(fault)),
    }
}

/// The post-network half of the generic dispatch.
pub fn complete_post(outcome: Result<HttpResponse, String>) -> (r: Result<HttpResponse, Error>)
    ensures
        r == complete_spec(outcome),
{
    match outcome {
        Ok(response) => Ok(response),
        Err(fault) => Err(Error::Transport(fault)),
    }
}

/// Error taxonomy of a completed operation: when the transport fails, the
/// operation's result is a transport error carrying exactly that fault —
/// never a serialization or URL-composition error — and when the transport
/// succeeds, the raw response is returned unchanged.
pub proof fn lemma_transport_outcome_taxonomy(outcome: Result<HttpResponse, String>)
    ensures
        outcome matches Err(fault) ==> complete_spec(outcome) == Err::<HttpResponse, Error>(
            Error::Transport(fault),
        ),
        outcome matches Ok(response) ==> complete_spec(outcome) == Ok::<HttpResponse, Error>(
            response,
        ),
        !(complete_spec(outcome) matches Err(e) && (e is Serialization || e is UrlComposition)),
{
}

/// Determinism of dispatch: two clients built from the same host prepare
/// identical posts for equal requests, on every operation. The body of a
/// prepared post depends on the request record alone (see the `ensures` of
/// `login_request` and its siblings), and the URL depends only on the host
/// and the endpoint, which this lemma states agree.
pub proof fn lemma_same_host_same_posts(a: IdentityClient, b: IdentityClient, endpoint: Seq<char>)
    requires
        a.host@ == b.host@,
    ensures
        url::join_url_spec(a.host@, endpoint) == url::join_url_spec(b.host@, endpoint),
{
}

} // verus!
