use mailgun_v3::email::{Message, MessageBody, SendOptions};
use mailgun_v3::EmailAddress;

#[test]
fn message_body() {
    let text = Message { body: MessageBody::Text(String::from("hello, world")), ..Default::default() };
    let params = text.to_params();
    assert_eq!(params.get("text"), Some(&String::from("hello, world")));

    let html = Message {
        body: MessageBody::Html(String::from("<body>hello, world</body>")),
        ..Default::default()
    };
    let params = html.to_params();
    assert_eq!(params.get("html"), Some(&String::from("<body>hello, world</body>")));

    let both = Message {
        body: MessageBody::HtmlAndText(String::from("<body/>"), String::from("hello")),
        ..Default::default()
    };
    let params = both.to_params();
    assert_eq!(params.get("html"), Some(&String::from("<body/>")));
    assert_eq!(params.get("text"), Some(&String::from("hello")));
}

#[test]
fn message_recipients() {
    let msg = Message {
        to: vec![EmailAddress::address("foo@bar.com".to_string())],
        cc: vec![
            EmailAddress::name_address("Tim".to_string(), "woo@woah.com".to_string()),
            EmailAddress::address("z@c.c".to_string()),
        ],
        ..Default::default()
    };

    let params = msg.to_params();
    assert_eq!(params.get("to"), Some(&String::from("foo@bar.com")));
    assert_eq!(params.get("cc"), Some(&String::from("Tim <woo@woah.com>,z@c.c")));
    assert_eq!(params.get("bcc"), None);
}

#[test]
fn send_options() {
    let msg = Message {
        options: vec![
            SendOptions::TestMode,
            SendOptions::DeliveryTime(1431648000),
            SendOptions::Header("X-For".to_owned(), "Fizz".to_owned()),
            SendOptions::Tag("Important".to_owned()),
        ],
        ..Default::default()
    };

    let params = msg.to_params();
    assert_eq!(params.get("o:testmode"), Some(&String::from("yes")));
    assert_eq!(params.get("o:deliverytime"), Some(&String::from("Sat, 17 Jan 1970 13:40:48 +0000")));
    assert_eq!(params.get("h:X-For"), Some(&String::from("Fizz")));
    assert_eq!(params.get("o:tag"), Some(&String::from("Important")));
}

#[test]
fn subject_always_present() {
    let msg = Message { ..Default::default() };
    let params = msg.to_params();
    assert_eq!(params.get("subject"), Some(&String::from("")));

    let msg = Message { subject: "Hi there".to_string(), ..Default::default() };
    let params = msg.to_params();
    assert_eq!(params.get("subject"), Some(&String::from("Hi there")));
}

#[test]
fn body_keys_exact() {
    let text = Message { body: MessageBody::Text(String::from("plain")), ..Default::default() };
    let params = text.to_params();
    assert_eq!(params.get("html"), None);

    let html = Message { body: MessageBody::Html(String::from("<p/>")), ..Default::default() };
    let params = html.to_params();
    assert_eq!(params.get("text"), None);
}

#[test]
fn duplicate_option_last_wins() {
    let msg = Message {
        options: vec![
            SendOptions::Tag("first".to_owned()),
            SendOptions::Tag("second".to_owned()),
            SendOptions::Header("X-A".to_owned(), "1".to_owned()),
            SendOptions::Header("X-A".to_owned(), "2".to_owned()),
        ],
        ..Default::default()
    };
    let params = msg.to_params();
    assert_eq!(params.get("o:tag"), Some(&String::from("second")));
    assert_eq!(params.get("h:X-A"), Some(&String::from("2")));
}

#[test]
fn address_rendering() {
    let bare = EmailAddress::address("a@b.com".to_string());
    assert_eq!(bare.to_string(), "a@b.com");
    assert_eq!(bare.email(), "a@b.com");

    let named = EmailAddress::name_address("Tim".to_string(), "t@t.com".to_string());
    assert_eq!(named.to_string(), "Tim <t@t.com>");
    assert_eq!(named.email(), "t@t.com");
}
