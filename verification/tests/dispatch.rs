use mailgun_v3::email::{prepare_send, Message, MessageBody};
use mailgun_v3::templates::{
    prepare_create_template, prepare_get_templates, wrap_single_template, GetSingleTemplateResponse,
    Template, TemplateResponse,
};
use mailgun_v3::validation::prepare_validate;
use mailgun_v3::{auth_username, check_status, Credentials, EmailAddress, HttpMethod, MailgunError};

const KEY: &str = "0123456789abcdef0123456789abcdef-01234567-89abcdef";

fn creds() -> Credentials {
    Credentials::with_base("https://api.example.com/v3", KEY, "sandbox.example.org")
}

#[test]
fn send_request_shape() {
    let sender = EmailAddress::name_address("Nick Testla".to_string(), "nick@sandbox.example.org".to_string());
    let msg = Message {
        to: vec![EmailAddress::address("user@example.com".to_string())],
        subject: "Test email".to_string(),
        body: MessageBody::Text("hello".to_string()),
        ..Default::default()
    };
    let req = prepare_send(&creds(), &sender, msg);
    assert_eq!(req.method, HttpMethod::Post);
    assert_eq!(req.url, "https://api.example.com/v3/sandbox.example.org/messages");
    assert_eq!(req.api_key, KEY);
    assert_eq!(req.params.get("from"), Some(&String::from("Nick Testla <nick@sandbox.example.org>")));
    assert_eq!(req.params.get("to"), Some(&String::from("user@example.com")));
    assert_eq!(req.params.get("subject"), Some(&String::from("Test email")));
    assert_eq!(req.params.get("text"), Some(&String::from("hello")));
}

#[test]
fn validate_request_shape() {
    let req = prepare_validate(&creds(), "james.earl.jones@gmail.com");
    assert_eq!(req.method, HttpMethod::Get);
    assert_eq!(req.url, "https://api.example.com/v3/address/private/validate");
    assert_eq!(req.params.get("address"), Some(&String::from("james.earl.jones@gmail.com")));
}

#[test]
fn create_template_request_shape() {
    let template = Template {
        name: "mytemplate12".to_string(),
        description: "template description12".to_string(),
        template: Some("{{fname}} {{lname}}".to_string()),
        tag: None,
        engine: Some("handlebars".to_string()),
        comment: None,
    };
    let req = prepare_create_template(&creds(), template);
    assert_eq!(req.method, HttpMethod::Post);
    assert_eq!(req.url, "https://api.example.com/v3/sandbox.example.org/templates");
    assert_eq!(req.params.get("name"), Some(&String::from("mytemplate12")));
    assert_eq!(req.params.get("description"), Some(&String::from("template description12")));
    assert_eq!(req.params.get("template"), Some(&String::from("{{fname}} {{lname}}")));
    assert_eq!(req.params.get("engine"), Some(&String::from("handlebars")));
    assert_eq!(req.params.get("tag"), None);
    assert_eq!(req.params.get("comment"), None);
}

#[test]
fn template_listing_routes() {
    let name = Some("mytemplate12".to_string());

    let with_versions = prepare_get_templates(&creds(), name.as_ref(), true);
    assert_eq!(
        with_versions.url,
        "https://api.example.com/v3/sandbox.example.org/templates/mytemplate12/versions"
    );

    let single = prepare_get_templates(&creds(), name.as_ref(), false);
    assert_eq!(single.url, "https://api.example.com/v3/sandbox.example.org/templates/mytemplate12");

    let all = prepare_get_templates(&creds(), None, false);
    assert_eq!(all.url, "https://api.example.com/v3/sandbox.example.org/templates");
    assert_eq!(all.method, HttpMethod::Get);
}

#[test]
fn single_template_wraps_into_list() {
    let response = GetSingleTemplateResponse {
        template: TemplateResponse {
            created_at: "Fri, 03 May 2013 18:26:27 GMT".to_string(),
            created_by: "someone".to_string(),
            description: "d".to_string(),
            name: "n".to_string(),
            id: "1".to_string(),
            version: None,
            versions: None,
        },
    };
    let wrapped = wrap_single_template(response);
    assert_eq!(wrapped.items.len(), 1);
    assert_eq!(wrapped.items[0].name, "n");
}

#[test]
fn status_ok_on_2xx() {
    assert!(check_status(200).is_ok());
    assert!(check_status(299).is_ok());
}

#[test]
fn status_unauthorized_carries_401() {
    assert_eq!(check_status(401).err(), Some(MailgunError::HttpStatus(401)));
    assert_eq!(check_status(500).err(), Some(MailgunError::HttpStatus(500)));
    assert_eq!(check_status(199).err(), Some(MailgunError::HttpStatus(199)));
    assert_eq!(check_status(300).err(), Some(MailgunError::HttpStatus(300)));
}

#[test]
fn basic_auth_user_is_api() {
    assert_eq!(auth_username(), "api");
}
