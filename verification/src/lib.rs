//! Client-side core of a transactional-email HTTP API binding.
//!
//! The library builds everything that one API call needs — the target URL,
//! the credentials to attach, and the flat string-keyed parameter mapping —
//! from typed values, and classifies the HTTP status of the answer.  The
//! network transport and the JSON decoding of response bodies are left to
//! the caller.

use vstd::prelude::*;

pub mod email;
pub mod params;
pub mod templates;
pub mod validation;

verus! {

use vstd::string::StrSliceExecFns;
use vstd::string::StringExecFns;

use crate::params::Params;

/// How one API call can fail: the transport broke, the server answered with
/// a non-2xx status, or the response body did not decode into the expected
/// shape.  Every failure is reported to the caller; none is retried.
#[derive(Debug, PartialEq, Eq)]
pub enum MailgunError {
    /// Network, connection or TLS failure, with the transport's description.
    Transport(String),
    /// The server answered with this non-2xx status.
    HttpStatus(u16),
    /// The response body did not match the expected shape.
    Deserialization(String),
}

/// Result of one API call.
pub type MailgunResult<T> = Result<T, MailgunError>;

/// The HTTP method of a prepared call.
#[derive(Debug, PartialEq, Eq, Structural, Clone, Copy)]
pub enum HttpMethod {
    Get,
    Post,
}

/// Everything the transport needs for one call: method, target URL, the API
/// key to attach as the password of Basic authentication (under the user
/// name [`auth_username`]), and the form parameters.
pub struct ApiRequest {
    pub method: HttpMethod,
    pub url: String,
    pub api_key: String,
    pub params: Params,
}

/// The fixed user name of the HTTP Basic authentication.
pub fn auth_username() -> (r: &'static str)
    ensures
        r@ == "api"@,
{
    "api"
}

/// Classifies an HTTP status: 2xx means the call went through, anything
/// else is reported as an HTTP-status error carrying that status.
pub fn check_status(status: u16) -> (r: Result<(), MailgunError>)
    ensures
        match r {
            Ok(_) => 200 <= status < 300,
            Err(e) => !(200 <= status < 300) && e == MailgunError::HttpStatus(status),
        },
{
    if 200 <= status && status < 300 {
        Ok(())
    } else {
        Err(MailgunError::HttpStatus(status))
    }
}

/// Holds iff the first four characters of `s` are `http`; both `http` and
/// `https` bases satisfy it.
pub open spec fn starts_with_http(s: Seq<char>) -> bool {
    s.len() >= 4 && s.subrange(0, 4) == "http"@
}

/// Holds iff some character of `s` is a dot.
pub open spec fn contains_dot(s: Seq<char>) -> bool {
    exists|i: int| 0 <= i < s.len() && s[i] == '.'
}

/// Shape that an API key must have: at least 35 characters.
pub open spec fn api_key_long_enough(s: Seq<char>) -> bool {
    s.len() >= 35
}

/// The shape invariants that credentials satisfy: the API base carries an
/// http(s) scheme and a domain separator, the key is long enough, and the
/// sending domain carries a separator.
pub open spec fn credentials_valid(api_base: Seq<char>, api_key: Seq<char>, domain: Seq<char>) -> bool {
    &&& starts_with_http(api_base)
    &&& contains_dot(api_base)
    &&& api_key_long_enough(api_key)
    &&& contains_dot(domain)
}

/// Why constructing credentials was refused.  When several conditions fail,
/// the first in this order is reported: scheme, base separator, key length,
/// domain separator.
#[derive(Debug, PartialEq, Eq, Clone, Copy)]
pub enum CredentialsError {
    /// The API base does not start with `http`.
    ApiBaseMissingScheme,
    /// The API base holds no dot.
    ApiBaseMissingDot,
    /// The API key is shorter than 35 characters.
    ApiKeyTooShort,
    /// The sending domain holds no dot.
    DomainMissingDot,
}

/// The error that [`Credentials::try_with_base`] reports for the given
/// inputs, assuming they are not valid.
pub open spec fn credentials_error(api_base: Seq<char>, api_key: Seq<char>, domain: Seq<char>) -> CredentialsError {
    if !starts_with_http(api_base) {
        CredentialsError::ApiBaseMissingScheme
    } else if !contains_dot(api_base) {
        CredentialsError::ApiBaseMissingDot
    } else if !api_key_long_enough(api_key) {
        CredentialsError::ApiKeyTooShort
    } else {
        CredentialsError::DomainMissingDot
    }
}

fn check_starts_with_http(s: &str) -> (r: bool)
    ensures
        r == starts_with_http(s@),
{
    proof {
        reveal_strlit("http");
    }
    let n = s.unicode_len();
    if n < 4 {
        return false;
    }
    let r = s.get_char(0) == 'h' && s.get_char(1) == 't' && s.get_char(2) == 't' && s.get_char(3)
        == 'p';
    proof {
        if r {
            assert(s@.subrange(0, 4) =~= "http"@);
        } else {
            if s@.subrange(0, 4) == "http"@ {
                assert(s@.subrange(0, 4)[0] == 'h');
                assert(s@.subrange(0, 4)[1] == 't');
                assert(s@.subrange(0, 4)[2] == 't');
                assert(s@.subrange(0, 4)[3] == 'p');
            }
        }
    }
    r
}

fn check_contains_dot(s: &str) -> (r: bool)
    ensures
        r == contains_dot(s@),
{
    let n = s.unicode_len();
    let mut i: usize = 0;
    while i < n
        invariant
            n == s@.len(),
            i <= n,
            forall|j: int| 0 <= j < i ==> s@[j] != '.',
        decreases n - i,
    {
        if s.get_char(i) == '.' {
            proof {
                assert(0 <= i < s@.len() && s@[i as int] == '.');
            }
            return true;
        }
        i = i + 1;
    }
    false
}

/// The API base that [`Credentials::new`] uses.
pub open spec fn default_api_base_spec() -> Seq<char> {
    "https://api.mailgun.net/v3"@
}

/// The API base that [`Credentials::new`] uses.
pub fn default_api_base() -> (r: &'static str)
    ensures
        r@ == default_api_base_spec(),
{
    "https://api.mailgun.net/v3"
}

/// Private API key, API base URL and sending domain.  Immutable once built,
/// so one value serves any number of calls.
pub struct Credentials {
    api_base: String,
    api_key: String,
    domain: String,
}

/// The mathematical content of a [`Credentials`] value.
pub ghost struct CredentialsView {
    pub api_base: Seq<char>,
    pub api_key: Seq<char>,
    pub domain: Seq<char>,
}

impl CredentialsView {
    /// The shape invariants, restated over the view.
    pub open spec fn valid(self) -> bool {
        credentials_valid(self.api_base, self.api_key, self.domain)
    }
}

impl View for Credentials {
    type V = CredentialsView;

    closed spec fn view(&self) -> CredentialsView {
        CredentialsView { api_base: self.api_base@, api_key: self.api_key@, domain: self.domain@ }
    }
}

impl Credentials {
    /// Builds credentials over the default API base.
    pub fn new(api_key: &str, domain: &str) -> (r: Self)
        requires
            api_key_long_enough(api_key@),
            contains_dot(domain@),
        ensures
            r@ == (CredentialsView {
                api_base: default_api_base_spec(),
                api_key: api_key@,
                domain: domain@,
            }),
            r@.valid(),
    {
        proof {
            reveal_strlit("https://api.mailgun.net/v3");
            reveal_strlit("http");
            assert(default_api_base_spec().subrange(0, 4) =~= "http"@);
            assert(default_api_base_spec()[11] == '.');
        }
        Self::with_base(default_api_base(), api_key, domain)
    }

    /// Builds credentials over a caller-chosen API base.  The inputs must
    /// already satisfy the shape invariants; [`Credentials::try_with_base`]
    /// checks them instead.
    pub fn with_base(api_base: &str, api_key: &str, domain: &str) -> (r: Self)
        requires
            credentials_valid(api_base@, api_key@, domain@),
        ensures
            r@ == (CredentialsView { api_base: api_base@, api_key: api_key@, domain: domain@ }),
            r@.valid(),
    {
        Credentials {
            api_base: api_base.to_owned(),
            api_key: api_key.to_owned(),
            domain: domain.to_owned(),
        }
    }

    /// Checks the shape invariants and builds credentials, or says which
    /// invariant failed first.
    pub fn try_with_base(api_base: &str, api_key: &str, domain: &str) -> (r: Result<
        Self,
        CredentialsError,
    >)
        ensures
            match r {
                Ok(c) => credentials_valid(api_base@, api_key@, domain@) && c@ == (CredentialsView {
                    api_base: api_base@,
                    api_key: api_key@,
                    domain: domain@,
                }),
                Err(e) => !credentials_valid(api_base@, api_key@, domain@) && e
                    == credentials_error(api_base@, api_key@, domain@),
            },
    {
        if !check_starts_with_http(api_base) {
            Err(CredentialsError::ApiBaseMissingScheme)
        } else if !check_contains_dot(api_base) {
            Err(CredentialsError::ApiBaseMissingDot)
        } else if api_key.unicode_len() < 35 {
            Err(CredentialsError::ApiKeyTooShort)
        } else if !check_contains_dot(domain) {
            Err(CredentialsError::DomainMissingDot)
        } else {
            Ok(Self::with_base(api_base, api_key, domain))
        }
    }

    /// The sending domain.
    pub fn domain(&self) -> (r: &str)
        ensures
            r@ == self@.domain,
    {
        self.domain.as_str()
    }

    /// The private API key; attached to each call as the password of HTTP
    /// Basic authentication.
    pub fn api_key(&self) -> (r: &str)
        ensures
            r@ == self@.api_key,
    {
        self.api_key.as_str()
    }

    /// The API base URL.
    pub fn api_base(&self) -> (r: &str)
        ensures
            r@ == self@.api_base,
    {
        self.api_base.as_str()
    }

    /// `{api_base}/{domain}/{endpoint}`: the target of a domain-scoped call.
    pub fn api_url(&self, endpoint: &str) -> (r: String)
        ensures
            r@ == self@.api_base + "/"@ + self@.domain + "/"@ + endpoint@,
    {
        let mut url = self.api_base.clone();
        url.append("/");
        url.append(self.domain.as_str());
        url.append("/");
        url.append(endpoint);
        url
    }

    /// `{api_base}/{endpoint}`: the target of a call against the bare API
    /// root, outside any sending domain.
    pub fn root_url(&self, endpoint: &str) -> (r: String)
        ensures
            r@ == self@.api_base + "/"@ + endpoint@,
    {
        let mut url = self.api_base.clone();
        url.append("/");
        url.append(endpoint);
        url
    }
}

/// An email address, with or without a display name.
pub struct EmailAddress {
    name: Option<String>,
    address: String,
}

/// The mathematical content of an [`EmailAddress`].
pub ghost struct EmailAddressView {
    pub name: Option<Seq<char>>,
    pub address: Seq<char>,
}

impl EmailAddressView {
    /// Wire form of an address: `Name <addr>` when a display name is
    /// present, the bare address otherwise.
    pub open spec fn rendered(self) -> Seq<char> {
        match self.name {
            Some(n) => n + " <"@ + self.address + ">"@,
            None => self.address,
        }
    }
}

impl View for EmailAddress {
    type V = EmailAddressView;

    closed spec fn view(&self) -> EmailAddressView {
        EmailAddressView {
            name: match self.name {
                Some(n) => Some(n@),
                None => None,
            },
            address: self.address@,
        }
    }
}

impl EmailAddress {
    /// An address without a display name.
    pub fn address(address: String) -> (r: Self)
        ensures
            r@.name is None,
            r@.address == address@,
    {
        EmailAddress { name: None, address }
    }

    /// An address with a display name.
    pub fn name_address(name: String, address: String) -> (r: Self)
        ensures
            r@.name == Some(name@),
            r@.address == address@,
    {
        EmailAddress { name: Some(name), address }
    }

    /// The bare address, without the display name.
    pub fn email(&self) -> (r: &str)
        ensures
            r@ == self@.address,
    {
        self.address.as_str()
    }

    /// Renders the address in its wire form.
    pub fn to_string(&self) -> (r: String)
        ensures
            r@ == self@.rendered(),
    {
        match &self.name {
            Some(name) => {
                let mut s = name.clone();
                s.append(" <");
                s.append(self.address.as_str());
                s.append(">");
                s
            },
            None => self.address.clone(),
        }
    }
}

} // verus!
