use mailgun_v3::{Credentials, CredentialsError};

const KEY: &str = "0123456789abcdef0123456789abcdef-01234567-89abcdef";

#[test]
fn accepts_valid_credentials() {
    let creds = Credentials::try_with_base("https://api.example.com/v3", KEY, "sandbox.example.org");
    let creds = creds.expect("valid credentials were refused");
    assert_eq!(creds.api_base(), "https://api.example.com/v3");
    assert_eq!(creds.api_key(), KEY);
    assert_eq!(creds.domain(), "sandbox.example.org");
}

#[test]
fn default_base_is_used_by_new() {
    let creds = Credentials::new(KEY, "sandbox.example.org");
    assert_eq!(creds.api_base(), "https://api.mailgun.net/v3");
    assert_eq!(creds.domain(), "sandbox.example.org");
}

#[test]
fn rejects_base_without_scheme() {
    let r = Credentials::try_with_base("ftp://api.example.com", KEY, "x.org");
    assert_eq!(r.err(), Some(CredentialsError::ApiBaseMissingScheme));
}

#[test]
fn rejects_base_without_dot() {
    let r = Credentials::try_with_base("https://localhost/v3", KEY, "x.org");
    assert_eq!(r.err(), Some(CredentialsError::ApiBaseMissingDot));
}

#[test]
fn rejects_short_api_key() {
    let r = Credentials::try_with_base("https://api.example.com", "key-your_key_here", "x.org");
    assert_eq!(r.err(), Some(CredentialsError::ApiKeyTooShort));
}

#[test]
fn rejects_domain_without_dot() {
    let r = Credentials::try_with_base("https://api.example.com", KEY, "not needed");
    assert_eq!(r.err(), Some(CredentialsError::DomainMissingDot));
}
