//! Requests to make and the replies to them.

use vstd::prelude::*;

use crate::error::{ErrorView, ProviderError};
use crate::text::concat;

verus! {

/// How long a reply is waited for, in seconds.
pub const TIMEOUT_SECONDS: u64 = 15;

/// What a request does.
#[derive(Debug, Clone, Copy, PartialEq, Eq, Structural)]
pub enum Method {
    /// Gets a resource.
    Get,
    /// Posts an empty JSON object.
    PostEmptyObject,
}

/// What a request proves its right with.
#[derive(Debug)]
pub enum Credential {
    /// A bearer token.
    Bearer(String),
    /// The value of the `Cookie` header.
    Cookie(String),
}

/// `Credential` as a mathematical value.
pub enum CredentialView {
    Bearer(Seq<char>),
    Cookie(Seq<char>),
}

impl View for Credential {
    type V = CredentialView;

    open spec fn view(&self) -> CredentialView {
        match *self {
            Credential::Bearer(s) => CredentialView::Bearer(s@),
            Credential::Cookie(s) => CredentialView::Cookie(s@),
        }
    }
}

/// A request for JSON.
#[derive(Debug)]
pub struct HttpRequest {
    pub method: Method,
    pub url: String,
    pub credential: Credential,
    pub accept: &'static str,
    pub timeout_seconds: u64,
}

/// `HttpRequest` as a mathematical value.
pub struct RequestView {
    pub method: Method,
    pub url: Seq<char>,
    pub credential: CredentialView,
    pub accept: Seq<char>,
    pub timeout_seconds: u64,
}

impl View for HttpRequest {
    type V = RequestView;

    open spec fn view(&self) -> RequestView {
        RequestView {
            method: self.method,
            url: self.url@,
            credential: self.credential@,
            accept: self.accept@,
            timeout_seconds: self.timeout_seconds,
        }
    }
}

/// The request for JSON at `url`.
pub open spec fn json_request(
    method: Method,
    url: Seq<char>,
    credential: CredentialView,
) -> RequestView {
    RequestView {
        method,
        url,
        credential,
        accept: "application/json"@,
        timeout_seconds: TIMEOUT_SECONDS,
    }
}

impl HttpRequest {
    /// The request for JSON at `url`.
    pub fn json(method: Method, url: String, credential: Credential) -> (res: HttpRequest)
        ensures
            res@ == json_request(method, url@, credential@),
    {
        HttpRequest {
            method,
            url,
            credential,
            accept: "application/json",
            timeout_seconds: TIMEOUT_SECONDS,
        }
    }
}

/// What came of a request: the reason why there was no answer, or the status of the answer and
/// what its body holds, or why that could not be read. The body counts only if the status says
/// that the request succeeded.
#[derive(Debug)]
pub enum HttpReply<T> {
    Unreachable(String),
    Answered { status: u16, body: Result<T, String> },
}

impl<T> HttpReply<T> {
    /// Whether the status, if there is one, has three digits.
    pub open spec fn valid(self) -> bool {
        self matches HttpReply::Answered { status, .. } ==> 100 <= status <= 999
    }
}

/// Whether a status says that the request succeeded.
pub open spec fn success(status: u16) -> bool {
    200 <= status < 300
}

/// Whether a status says that the credentials were refused.
pub open spec fn refused(status: u16) -> bool {
    status == 401 || status == 403
}

/// Whether a status says that the request succeeded.
pub fn is_success(status: u16) -> (res: bool)
    ensures
        res == success(status),
{
    200 <= status && status < 300
}

/// How a status is written out: the number and its usual reason.
pub uninterp spec fn status_line(status: u16) -> Seq<char>;

/// Calls `reqwest::StatusCode::from_u16` and writes the status out. Taken on trust: every number
/// of three digits is a status, and how it is written depends on it alone.
#[verifier::external_body]
pub(crate) fn status_text(status: u16) -> (res: String)
    requires
        100 <= status <= 999,
    ensures
        res@ == status_line(status),
{
    reqwest::StatusCode::from_u16(status).unwrap().to_string()
}

/// What a result holds, with its error as a mathematical value.
pub open spec fn outcome<T>(result: Result<T, ProviderError>) -> Result<T, ErrorView> {
    match result {
        Ok(value) => Ok(value),
        Err(error) => Err(error@),
    }
}

/// What a reply from an endpoint that asks for credentials comes to. `complaint` is what is said
/// before the status of a failure.
pub open spec fn guarded_result<T>(
    reply: HttpReply<T>,
    complaint: Seq<char>,
) -> Result<T, ErrorView> {
    match reply {
        HttpReply::Unreachable(reason) => Err(ErrorView::Network(reason@)),
        HttpReply::Answered { status, body } => if refused(status) {
            Err(ErrorView::AuthRequired)
        } else if !success(status) {
            Err(ErrorView::Other(complaint + status_line(status)))
        } else {
            match body {
                Ok(value) => Ok(value),
                Err(reason) => Err(ErrorView::Parse(reason@)),
            }
        },
    }
}

/// What a reply from an endpoint that asks for credentials comes to.
pub fn read_guarded<T>(reply: HttpReply<T>, complaint: &str) -> (res: Result<T, ProviderError>)
    requires
        reply.valid(),
    ensures
        outcome(res) == guarded_result(reply, complaint@),
{
    match reply {
        HttpReply::Unreachable(reason) => Err(ProviderError::Network(reason)),
        HttpReply::Answered { status, body } => {
            if status == 401 || status == 403 {
                return Err(ProviderError::AuthRequired);
            }
            if !is_success(status) {
                return Err(ProviderError::Other(concat(complaint, status_text(status).as_str())));
            }
            match body {
                Ok(value) => Ok(value),
                Err(reason) => Err(ProviderError::Parse(reason)),
            }
        },
    }
}

/// What a reply comes to from an endpoint of which every failure is described alike.
pub open spec fn plain_result<T>(reply: HttpReply<T>, complaint: Seq<char>) -> Result<
    T,
    ErrorView,
> {
    match reply {
        HttpReply::Unreachable(reason) => Err(ErrorView::Network(reason@)),
        HttpReply::Answered { status, body } => if !success(status) {
            Err(ErrorView::Other(complaint))
        } else {
            match body {
                Ok(value) => Ok(value),
                Err(reason) => Err(ErrorView::Parse(reason@)),
            }
        },
    }
}

/// What a reply comes to from an endpoint of which every failure is described alike.
pub fn read_plain<T>(reply: HttpReply<T>, complaint: &str) -> (res: Result<T, ProviderError>)
    ensures
        outcome(res) == plain_result(reply, complaint@),
{
    match reply {
        HttpReply::Unreachable(reason) => Err(ProviderError::Network(reason)),
        HttpReply::Answered { status, body } => {
            if !is_success(status) {
                return Err(ProviderError::Other(complaint.to_owned()));
            }
            match body {
                Ok(value) => Ok(value),
                Err(reason) => Err(ProviderError::Parse(reason)),
            }
        },
    }
}

/// A refused status is never a success, so an endpoint that asks for credentials answers it with
/// `AuthRequired` whatever the body holds.
pub proof fn law_refusal_asks_for_credentials<T>(
    status: u16,
    body: Result<T, String>,
    complaint: Seq<char>,
)
    requires
        refused(status),
    ensures
        !success(status),
        guarded_result((HttpReply::Answered { status, body }), complaint) == Err::<T, ErrorView>(
            ErrorView::AuthRequired,
        ),
{
}

/// What a reply from an endpoint that asks for credentials comes to goes by its status alone,
/// unless that says success: only then does the body count.
pub proof fn law_guarded_by_status<T>(
    status: u16,
    body: Result<T, String>,
    complaint: Seq<char>,
    result: Result<T, ProviderError>,
)
    requires
        outcome(result) == guarded_result((HttpReply::Answered { status, body }), complaint),
    ensures
        status == 401 || status == 403 ==> result matches Err(ProviderError::AuthRequired),
        status != 401 && status != 403 && !(200 <= status <= 299) ==> (result matches Err(
            ProviderError::Other(m),
        ) && m@ == complaint + status_line(status)),
        200 <= status <= 299 ==> match body {
            Ok(value) => result == Ok::<T, ProviderError>(value),
            Err(reason) => result matches Err(ProviderError::Parse(m)) && m@ == reason@,
        },
{
}

/// What a reply comes to from an endpoint of which every failure is described alike goes by its
/// status alone, unless that says success.
pub proof fn law_plain_by_status<T>(
    status: u16,
    body: Result<T, String>,
    complaint: Seq<char>,
    result: Result<T, ProviderError>,
)
    requires
        outcome(result) == plain_result((HttpReply::Answered { status, body }), complaint),
    ensures
        !(200 <= status <= 299) ==> (result matches Err(ProviderError::Other(m)) && m@
            == complaint),
        200 <= status <= 299 ==> match body {
            Ok(value) => result == Ok::<T, ProviderError>(value),
            Err(reason) => result matches Err(ProviderError::Parse(m)) && m@ == reason@,
        },
{
}

/// Where there was no answer, the reason is passed on as a failure of the network.
pub proof fn law_no_answer_is_a_network_failure<T>(
    reason: String,
    complaint: Seq<char>,
    guarded: Result<T, ProviderError>,
    plain: Result<T, ProviderError>,
)
    requires
        outcome(guarded) == guarded_result(HttpReply::<T>::Unreachable(reason), complaint),
        outcome(plain) == plain_result(HttpReply::<T>::Unreachable(reason), complaint),
    ensures
        guarded matches Err(ProviderError::Network(m)) && m@ == reason@,
        plain matches Err(ProviderError::Network(m)) && m@ == reason@,
{
}

/// A status says success exactly if its first digit is a two.
pub proof fn law_success_by_first_digit(status: u16)
    ensures
        success(status) <==> status / 100 == 2,
{
}

/// A request for JSON says all that was asked for, accepts JSON and waits fifteen seconds.
pub proof fn law_request_by_fields(
    request: HttpRequest,
    method: Method,
    url: Seq<char>,
    secret: Seq<char>,
)
    ensures
        request@ == json_request(method, url, CredentialView::Bearer(secret)) ==> {
            &&& request.method == method
            &&& request.url@ == url
            &&& request.credential matches Credential::Bearer(s) && s@ == secret
            &&& request.accept@ == "application/json"@
            &&& request.timeout_seconds == 15
        },
        request@ == json_request(method, url, CredentialView::Cookie(secret)) ==> {
            &&& request.method == method
            &&& request.url@ == url
            &&& request.credential matches Credential::Cookie(s) && s@ == secret
            &&& request.accept@ == "application/json"@
            &&& request.timeout_seconds == 15
        },
{
}

/// A result is shown as it is: its value, or its error with the words that it has.
pub proof fn law_outcome_by_case<T>(value: T, error: ProviderError)
    ensures
        outcome(Ok::<T, ProviderError>(value)) == Ok::<T, ErrorView>(value),
        outcome(Err::<T, ProviderError>(error)) == Err::<T, ErrorView>(error@),
{
}

} // verus!
