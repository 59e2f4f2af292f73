//! The remote service client: which address each request goes to, and what
//! the reply to it means.
//!
//! The client makes no network call itself. It hands out the address of a
//! request, and is handed what came back as a [`Reply`].

use vstd::prelude::*;

verus! {

/// The usage limits that the service reports for an account.
#[derive(Debug, Clone, Copy, PartialEq, Eq)]
pub struct UsageLimits {
    pub scan_credits: i32,
    pub query_credits: i32,
    pub monitored_ips: Option<i32>,
}

/// The account information that a credit check returns.
#[derive(Debug, PartialEq, Eq)]
pub struct JsonData {
    pub scan_credits: i32,
    pub usage_limits: UsageLimits,
    pub plan: String,
    pub https: bool,
    pub unlocked: bool,
    pub query_credits: i32,
    pub monitored_ips: Option<i32>,
    pub unlocked_left: i32,
    pub telnet: bool,
}

impl JsonData {
    /// True when a lookup can be made on this account: it has query credits
    /// left.
    pub open spec fn usable(&self) -> bool {
        self.query_credits > 0
    }

    /// Says whether a lookup can be made on this account.
    pub fn is_usable(&self) -> (b: bool)
        ensures
            b == self.usable(),
    {
        self.query_credits > 0
    }
}

/// The result of a subdomain lookup. An absent list means that the service
/// knows no subdomain of the domain.
#[derive(Debug, PartialEq, Eq)]
pub struct JsonSubDomain {
    pub subdomains: Option<Vec<String>>,
}

/// Why a request gave no usable answer.
#[derive(Debug, PartialEq, Eq)]
pub enum ApiError {
    /// No response arrived. The text says what went wrong on the way.
    Transport(String),
    /// The service rejected the credential.
    InvalidCredential,
    /// The body of the response did not have the expected shape. The text
    /// says what was wrong with it.
    Decode(String),
}

/// The text that stands for an [`ApiError`] in a report.
pub open spec fn api_error_text(error: ApiError) -> Seq<char> {
    match error {
        ApiError::Transport(reason) => reason@,
        ApiError::InvalidCredential => "Unauthorized access - invalid API key"@,
        ApiError::Decode(reason) => reason@,
    }
}

impl ApiError {
    /// The text to report this error with.
    pub fn message(&self) -> (text: String)
        ensures
            text@ == api_error_text(*self),
    {
        match self {
            ApiError::Transport(reason) => reason.clone(),
            ApiError::InvalidCredential => String::from_str(
                "Unauthorized access - invalid API key",
            ),
            ApiError::Decode(reason) => reason.clone(),
        }
    }
}

/// What came back from one request. `T` is the shape that the body of a
/// response is decoded into.
#[derive(Debug, PartialEq, Eq)]
pub enum Reply<T> {
    /// The request failed before any response arrived, for this reason.
    Failed { reason: String },
    /// A response arrived, with this status code. `body` is the decoded body,
    /// or the reason why it could not be decoded.
    Answered { status: u16, body: Result<T, String> },
}

/// The status code with which the service rejects a credential.
pub open spec fn unauthorized() -> u16 {
    401
}

/// The address of the credit check for the credential `key`.
pub open spec fn account_url(key: Seq<char>) -> Seq<char> {
    "https://api.shodan.io"@ + "/api-info?key="@ + key
}

/// The address of the subdomain lookup for `domain` with the credential `key`.
pub open spec fn domain_url(domain: Seq<char>, key: Seq<char>) -> Seq<char> {
    "https://api.shodan.io/dns/domain/"@ + domain + "?key="@ + key
}

/// What the reply to a credit check means. A failed request is a transport
/// error. A response with the status [`unauthorized`] is an invalid
/// credential, whatever its body holds. Any other response gives the account
/// information in its body, and a decode error where the body could not be
/// decoded. An account without query credits is an answer like any other.
pub open spec fn account_outcome(reply: Reply<JsonData>) -> Result<JsonData, ApiError> {
    match reply {
        Reply::Failed { reason } => Err(ApiError::Transport(reason)),
        Reply::Answered { status, body } => if status == unauthorized() {
            Err(ApiError::InvalidCredential)
        } else {
            match body {
                Ok(info) => Ok(info),
                Err(reason) => Err(ApiError::Decode(reason)),
            }
        },
    }
}

/// What the reply to a subdomain lookup means. The status code plays no part:
/// a response gives what its body holds, and a decode error where the body
/// could not be decoded.
pub open spec fn lookup_outcome(reply: Reply<JsonSubDomain>) -> Result<JsonSubDomain, ApiError> {
    match reply {
        Reply::Failed { reason } => Err(ApiError::Transport(reason)),
        Reply::Answered { body, .. } => match body {
            Ok(found) => Ok(found),
            Err(reason) => Err(ApiError::Decode(reason)),
        },
    }
}

/// Asks `reqwest` for the number of its status `StatusCode::UNAUTHORIZED`,
/// through `StatusCode::as_u16`. The type is the one of the `http` crate,
/// which defines this constant with the number 401; `as_u16` gives the number
/// that a status was made with.
#[verifier::external_body]
fn unauthorized_status() -> (code: u16)
    ensures
        code == unauthorized(),
{
    reqwest::StatusCode::UNAUTHORIZED.as_u16()
}

/// The client of the remote service. Its view is the active credential.
pub struct API {
    api_key: String,
}

impl View for API {
    type V = Seq<char>;

    closed spec fn view(&self) -> Seq<char> {
        self.api_key@
    }
}

impl API {
    /// Makes a client whose active credential is `api_key`.
    pub fn new(api_key: String) -> (api: API)
        ensures
            api@ == api_key@,
    {
        API { api_key }
    }

    /// Replaces the active credential. Every later request carries `new_key`.
    pub fn set_api_key(&mut self, new_key: String)
        ensures
            final(self)@ == new_key@,
    {
        self.api_key = new_key;
    }

    /// The address to send the credit check of the active credential to.
    pub fn info_account_url(&self) -> (url: String)
        ensures
            url@ == account_url(self@),
    {
        let mut url = String::from_str("https://api.shodan.io");
        url.append("/api-info?key=");
        url.append(self.api_key.as_str());
        url
    }

    /// The address to send the lookup of the subdomains of `domain` to, with
    /// the active credential. The domain is not validated.
    pub fn subdomain_url(&self, domain: &str) -> (url: String)
        ensures
            url@ == domain_url(domain@, self@),
    {
        let mut url = String::from_str("https://api.shodan.io/dns/domain/");
        url.append(domain);
        url.append("?key=");
        url.append(self.api_key.as_str());
        url
    }

    /// Reads the reply to a credit check: the account information, or the
    /// reason why there is none.
    pub fn info_account(&self, reply: Reply<JsonData>) -> (outcome: Result<JsonData, ApiError>)
        ensures
            outcome == account_outcome(reply),
    {
        match reply {
            Reply::Failed { reason } => Err(ApiError::Transport(reason)),
            Reply::Answered { status, body } => {
                if status == unauthorized_status() {
                    Err(ApiError::InvalidCredential)
                } else {
                    match body {
                        Ok(info) => Ok(info),
                        Err(reason) => Err(ApiError::Decode(reason)),
                    }
                }
            },
        }
    }

    /// Reads the reply to a subdomain lookup: what the service found, or the
    /// reason why nothing is known.
    pub fn get_subdomain(&self, reply: Reply<JsonSubDomain>) -> (outcome: Result<
        JsonSubDomain,
        ApiError,
    >)
        ensures
            outcome == lookup_outcome(reply),
    {
        match reply {
            Reply::Failed { reason } => Err(ApiError::Transport(reason)),
            Reply::Answered { body, .. } => match body {
                Ok(found) => Ok(found),
                Err(reason) => Err(ApiError::Decode(reason)),
            },
        }
    }
}

} // verus!
