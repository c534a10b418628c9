//! The template model, its parameter mapping, and the routing of template
//! calls.

use vstd::prelude::*;

verus! {

use crate::params::Params;
use crate::{ApiRequest, Credentials, CredentialsView, HttpMethod};

/// One stored version of a template, as the server describes it.
#[derive(Debug, PartialEq)]
pub struct VersionResponse {
    pub created_at: String,
    pub engine: String,
    pub tag: String,
    pub comment: String,
    pub mjml: String,
    pub template: Option<String>,
    pub id: Option<String>,
    pub active: bool,
}

/// One template, as the server describes it.
#[derive(Debug, PartialEq)]
pub struct TemplateResponse {
    pub created_at: String,
    pub created_by: String,
    pub description: String,
    pub name: String,
    pub id: String,
    pub version: Option<VersionResponse>,
    pub versions: Option<Vec<VersionResponse>>,
}

/// The server's answer to a template creation.
#[derive(Debug, PartialEq)]
pub struct CreateTemplateResponse {
    pub message: String,
    pub template: TemplateResponse,
}

/// The uniform list-shaped answer of every template listing.
#[derive(Debug, PartialEq)]
pub struct GetTemplatesResponse {
    pub items: Vec<TemplateResponse>,
}

/// The server's answer when one template is fetched by name.
#[derive(Debug, PartialEq)]
pub struct GetSingleTemplateResponse {
    pub template: TemplateResponse,
}

/// A template to create.  Name and description are required; the other
/// fields go out only when present.
pub struct Template {
    pub name: String,
    pub description: String,
    pub template: Option<String>,
    pub tag: Option<String>,
    pub engine: Option<String>,
    pub comment: Option<String>,
}

/// Stores an optional field under `key` when it is present.
pub open spec fn opt_param(
    m: Map<Seq<char>, Seq<char>>,
    key: Seq<char>,
    field: Option<String>,
) -> Map<Seq<char>, Seq<char>> {
    match field {
        Some(v) => m.insert(key, v@),
        None => m,
    }
}

/// The wire parameters of a template creation: `name` and `description`
/// always, each optional field under its own key when present.
pub open spec fn template_params(t: Template) -> Map<Seq<char>, Seq<char>> {
    let required = Map::empty().insert("name"@, t.name@).insert("description"@, t.description@);
    opt_param(
        opt_param(opt_param(opt_param(required, "template"@, t.template), "tag"@, t.tag), "engine"@, t.engine),
        "comment"@,
        t.comment,
    )
}

impl Template {
    /// Turns the template into its wire parameters, consuming it.
    pub fn into_params(self) -> (r: Params)
        ensures
            r@ == template_params(self),
    {
        let Template { name, description, template, tag, engine, comment } = self;
        let mut params = Params::new();
        params.insert("name".to_owned(), name);
        params.insert("description".to_owned(), description);
        if let Some(template) = template {
            params.insert("template".to_owned(), template);
        }
        if let Some(tag) = tag {
            params.insert("tag".to_owned(), tag);
        }
        if let Some(engine) = engine {
            params.insert("engine".to_owned(), engine);
        }
        if let Some(comment) = comment {
            params.insert("comment".to_owned(), comment);
        }
        params
    }
}

/// The view of an optional template name.
pub open spec fn opt_name_view(name: Option<&String>) -> Option<Seq<char>> {
    match name {
        Some(n) => Some(n@),
        None => None,
    }
}

/// Where a template listing goes: with a name and the version-fetch flag, to
/// the `/versions` sub-endpoint of that template; with a name alone, to the
/// template's own endpoint; with no name, to the root templates endpoint.
pub open spec fn templates_list_url_spec(
    c: CredentialsView,
    name: Option<Seq<char>>,
    fetch_versions: bool,
) -> Seq<char> {
    let root = c.api_base + "/"@ + c.domain + "/"@ + "templates"@;
    match name {
        Some(n) => if fetch_versions {
            root + "/"@ + n + "/"@ + "versions"@
        } else {
            root + "/"@ + n
        },
        None => root,
    }
}

/// Builds the target URL of a template listing; see
/// [`templates_list_url_spec`] for the routing.
pub fn templates_list_url(
    creds: &Credentials,
    template_name: Option<&String>,
    do_fetch_versions: bool,
) -> (r: String)
    ensures
        r@ == templates_list_url_spec(creds@, opt_name_view(template_name), do_fetch_versions),
{
    let root = creds.api_url("templates");
    match template_name {
        Some(name) => {
            let mut url = root;
            url.append("/");
            url.append(name.as_str());
            if do_fetch_versions {
                url.append("/");
                url.append("versions");
            }
            url
        },
        None => root,
    }
}

/// Builds the one call that creates `template`: a POST to
/// `{api_base}/{domain}/templates` carrying the template's parameters.
pub fn prepare_create_template(creds: &Credentials, template: Template) -> (r: ApiRequest)
    ensures
        r.method == HttpMethod::Post,
        r.url@ == creds@.api_base + "/"@ + creds@.domain + "/"@ + "templates"@,
        r.api_key@ == creds@.api_key,
        r.params@ == template_params(template),
{
    let url = creds.api_url("templates");
    let api_key = creds.api_key().to_owned();
    let params = template.into_params();
    ApiRequest { method: HttpMethod::Post, url, api_key, params }
}

/// Builds the one call that lists templates: a GET against the endpoint
/// that [`templates_list_url_spec`] picks, with no parameters.
pub fn prepare_get_templates(
    creds: &Credentials,
    template_name: Option<&String>,
    do_fetch_versions: bool,
) -> (r: ApiRequest)
    ensures
        r.method == HttpMethod::Get,
        r.url@ == templates_list_url_spec(creds@, opt_name_view(template_name), do_fetch_versions),
        r.api_key@ == creds@.api_key,
        r.params@ == Map::<Seq<char>, Seq<char>>::empty(),
{
    let url = templates_list_url(creds, template_name, do_fetch_versions);
    let api_key = creds.api_key().to_owned();
    ApiRequest { method: HttpMethod::Get, url, api_key, params: Params::new() }
}

/// Wraps the answer of a single-template fetch into the uniform list shape,
/// as a list of exactly that one template.
pub fn wrap_single_template(parsed: GetSingleTemplateResponse) -> (r: GetTemplatesResponse)
    ensures
        r.items@.len() == 1,
        r.items@[0] == parsed.template,
{
    let mut items = Vec::new();
    items.push(parsed.template);
    GetTemplatesResponse { items }
}

} // verus!
