//! Preparation of an address-validation call.

use vstd::prelude::*;

verus! {

use crate::params::Params;
use crate::{ApiRequest, Credentials, HttpMethod};

/// The parsed pieces of an address that validated.
#[derive(Debug, PartialEq)]
pub struct EmailParts {
    pub domain: String,
    pub display_name: Option<String>,
    pub local_part: String,
}

/// The server's judgement on one address.
#[derive(Debug, PartialEq)]
pub struct ValidationResponse {
    pub address: String,
    pub did_you_mean: Option<String>,
    pub is_disposable_address: bool,
    pub is_role_address: bool,
    pub is_valid: bool,
    pub parts: Option<EmailParts>,
    pub reason: Option<String>,
}

/// Builds the one call that validates `address`: a GET against the
/// validation endpoint of the bare API root — validation is not scoped to a
/// sending domain — with the address as its only parameter.
pub fn prepare_validate(creds: &Credentials, address: &str) -> (r: ApiRequest)
    ensures
        r.method == HttpMethod::Get,
        r.url@ == creds@.api_base + "/"@ + "address/private/validate"@,
        r.api_key@ == creds@.api_key,
        r.params@ == Map::<Seq<char>, Seq<char>>::empty().insert("address"@, address@),
{
    let url = creds.root_url("address/private/validate");
    let api_key = creds.api_key().to_owned();
    let mut params = Params::new();
    params.insert("address".to_owned(), address.to_owned());
    ApiRequest { method: HttpMethod::Get, url, api_key, params }
}

} // verus!
