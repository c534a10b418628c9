//! The message model and its parameter mapping, and the preparation of a
//! send call.

use vstd::prelude::*;

verus! {

use vstd::string::StringExecFns;
use crate::params::Params;
use crate::{ApiRequest, Credentials, CredentialsView, EmailAddress, EmailAddressView, HttpMethod};

/// `Html` and `Text` bodies go out under different wire fields.
pub enum MessageBody {
    Html(String),
    Text(String),
    HtmlAndText(String, String),
}

impl Default for MessageBody {
    /// An empty plain-text body.
    fn default() -> (r: Self)
        ensures
            r matches MessageBody::Text(t) && t@ == Seq::<char>::empty(),
    {
        MessageBody::Text(String::new())
    }
}

/// The wire fields that a body contributes: `html` and/or `text`, per the
/// active variant.
pub open spec fn body_params_spec(m: Map<Seq<char>, Seq<char>>, body: MessageBody) -> Map<
    Seq<char>,
    Seq<char>,
> {
    match body {
        MessageBody::Html(c) => m.insert("html"@, c@),
        MessageBody::Text(c) => m.insert("text"@, c@),
        MessageBody::HtmlAndText(html, text) => m.insert("html"@, html@).insert("text"@, text@),
    }
}

impl MessageBody {
    fn add_to(self, params: &mut Params)
        ensures
            final(params)@ == body_params_spec(old(params)@, self),
    {
        match self {
            MessageBody::Html(c) => params.insert("html".to_owned(), c),
            MessageBody::Text(c) => params.insert("text".to_owned(), c),
            MessageBody::HtmlAndText(html, text) => {
                params.insert("html".to_owned(), html);
                params.insert("text".to_owned(), text);
            },
        }
    }
}

/// Millisecond timestamps whose UTC date lies in years 0 through 9999 — the
/// range that the RFC 2822 wire format can carry.
pub open spec fn rfc2822_representable(millis: int) -> bool {
    -62167219200000 <= millis <= 253402300799999
}

/// The RFC 2822 text of a UTC timestamp given in milliseconds.  The exact
/// text is defined by the date library that computes it.
pub uninterp spec fn rfc2822_of(millis: int) -> Seq<char>;

/// Relies on chrono's `TimeZone::timestamp_millis_opt` and
/// `DateTime::to_rfc2822`: for a timestamp whose UTC date lies in years 0
/// through 9999 the conversion succeeds without panicking, and the text
/// depends on the millisecond value alone.
#[verifier::external_body]
fn rfc2822_from_millis(millis: i64) -> (r: String)
    requires
        rfc2822_representable(millis as int),
    ensures
        r@ == rfc2822_of(millis as int),
{
    match chrono::TimeZone::timestamp_millis_opt(&chrono::Utc, millis) {
        chrono::MappedLocalTime::Single(dt) => dt.to_rfc2822(),
        _ => String::new(),
    }
}

/// The send options that the API exposes.  A delivery time is a UTC
/// timestamp in milliseconds.
pub enum SendOptions {
    TestMode,
    DeliveryTime(i64),
    Header(String, String),
    Tag(String),
}

/// The wire parameter name of one option.
pub open spec fn option_key(o: SendOptions) -> Seq<char> {
    match o {
        SendOptions::TestMode => "o:testmode"@,
        SendOptions::DeliveryTime(_) => "o:deliverytime"@,
        SendOptions::Header(header, _) => "h:"@ + header@,
        SendOptions::Tag(_) => "o:tag"@,
    }
}

/// The wire parameter value of one option.
pub open spec fn option_value(o: SendOptions) -> Seq<char> {
    match o {
        SendOptions::TestMode => "yes"@,
        SendOptions::DeliveryTime(t) => rfc2822_of(t as int),
        SendOptions::Header(_, value) => value@,
        SendOptions::Tag(tag) => tag@,
    }
}

/// A delivery time must be representable in the RFC 2822 wire format; every
/// other option always is.
pub open spec fn delivery_time_in_range(o: SendOptions) -> bool {
    match o {
        SendOptions::DeliveryTime(t) => rfc2822_representable(t as int),
        _ => true,
    }
}

/// All delivery times of an option list are representable.
pub open spec fn options_in_range(opts: Seq<SendOptions>) -> bool {
    forall|i: int| 0 <= i < opts.len() ==> delivery_time_in_range(#[trigger] opts[i])
}

/// Folds the options into the mapping in list order, so that on a repeated
/// key the last option wins.
pub open spec fn insert_options(m: Map<Seq<char>, Seq<char>>, opts: Seq<SendOptions>) -> Map<
    Seq<char>,
    Seq<char>,
>
    decreases opts.len(),
{
    if opts.len() == 0 {
        m
    } else {
        insert_options(m, opts.drop_last()).insert(
            option_key(opts.last()),
            option_value(opts.last()),
        )
    }
}

impl SendOptions {
    fn add_to(&self, params: &mut Params)
        requires
            delivery_time_in_range(*self),
        ensures
            final(params)@ == old(params)@.insert(option_key(*self), option_value(*self)),
    {
        match self {
            SendOptions::TestMode => params.insert("o:testmode".to_owned(), "yes".to_owned()),
            SendOptions::DeliveryTime(t) => params.insert(
                "o:deliverytime".to_owned(),
                rfc2822_from_millis(*t),
            ),
            SendOptions::Header(header, value) => {
                let mut key = "h:".to_owned();
                key.append(header.as_str());
                params.insert(key, value.clone());
            },
            SendOptions::Tag(tag) => params.insert("o:tag".to_owned(), tag.clone()),
        }
    }
}

/// The rendered addresses of a recipient list, joined with commas.
pub open spec fn rendered_list(addrs: Seq<EmailAddress>) -> Seq<char>
    decreases addrs.len(),
{
    if addrs.len() == 0 {
        Seq::empty()
    } else if addrs.len() == 1 {
        addrs[0]@.rendered()
    } else {
        rendered_list(addrs.drop_last()) + ","@ + addrs.last()@.rendered()
    }
}

/// A non-empty recipient list is stored, joined, under its field name; an
/// empty list leaves the mapping unchanged (the key stays absent).
pub open spec fn add_recipients_spec(
    m: Map<Seq<char>, Seq<char>>,
    field: Seq<char>,
    addrs: Seq<EmailAddress>,
) -> Map<Seq<char>, Seq<char>> {
    if addrs.len() == 0 {
        m
    } else {
        m.insert(field, rendered_list(addrs))
    }
}

fn join_addresses(addresses: &Vec<EmailAddress>) -> (r: String)
    ensures
        r@ == rendered_list(addresses@),
{
    let mut joined = String::new();
    let mut i: usize = 0;
    while i < addresses.len()
        invariant
            i <= addresses@.len(),
            joined@ == rendered_list(addresses@.take(i as int)),
        decreases addresses@.len() - i,
    {
        if i > 0 {
            joined.append(",");
        }
        let rendered = addresses[i].to_string();
        joined.append(rendered.as_str());
        proof {
            assert(addresses@.take(i + 1).drop_last() =~= addresses@.take(i as int));
            assert(addresses@.take(i + 1).last() == addresses@[i as int]);
            if i == 0 {
                assert(Seq::<char>::empty() + rendered@ =~= rendered@);
            }
        }
        i = i + 1;
    }
    proof {
        assert(addresses@.take(addresses@.len() as int) =~= addresses@);
    }
    joined
}

fn add_recipients(field: &str, addresses: &Vec<EmailAddress>, params: &mut Params)
    ensures
        final(params)@ == add_recipients_spec(old(params)@, field@, addresses@),
{
    if addresses.len() > 0 {
        let joined = join_addresses(addresses);
        params.insert(field.to_owned(), joined);
    }
}

/// An email to send.  The endpoint rejects a message without recipients or
/// body; the mapping itself carries whatever the caller put in.
pub struct Message {
    pub to: Vec<EmailAddress>,
    pub cc: Vec<EmailAddress>,
    pub bcc: Vec<EmailAddress>,
    pub subject: String,
    pub body: MessageBody,
    pub options: Vec<SendOptions>,
}

impl Default for Message {
    /// No recipients, empty subject, empty plain-text body, no options.
    fn default() -> (r: Self)
        ensures
            r.to@ == Seq::<EmailAddress>::empty(),
            r.cc@ == Seq::<EmailAddress>::empty(),
            r.bcc@ == Seq::<EmailAddress>::empty(),
            r.subject@ == Seq::<char>::empty(),
            r.body matches MessageBody::Text(t) && t@ == Seq::<char>::empty(),
            r.options@ == Seq::<SendOptions>::empty(),
    {
        Message {
            to: Vec::new(),
            cc: Vec::new(),
            bcc: Vec::new(),
            subject: String::new(),
            body: MessageBody::Text(String::new()),
            options: Vec::new(),
        }
    }
}

/// The full parameter mapping of a message: recipients under `to`/`cc`/`bcc`
/// (absent when the list is empty), the subject always, the body fields of
/// the active variant, then the options in list order.
pub open spec fn message_params(msg: Message) -> Map<Seq<char>, Seq<char>> {
    let with_to = add_recipients_spec(Map::empty(), "to"@, msg.to@);
    let with_cc = add_recipients_spec(with_to, "cc"@, msg.cc@);
    let with_bcc = add_recipients_spec(with_cc, "bcc"@, msg.bcc@);
    let with_subject = with_bcc.insert("subject"@, msg.subject@);
    let with_body = body_params_spec(with_subject, msg.body);
    insert_options(with_body, msg.options@)
}

impl Message {
    /// Turns the message into its wire parameters, consuming it.
    pub fn to_params(self) -> (r: Params)
        requires
            options_in_range(self.options@),
        ensures
            r@ == message_params(self),
    {
        let Message { to, cc, bcc, subject, body, options } = self;
        let mut params = Params::new();
        add_recipients("to", &to, &mut params);
        add_recipients("cc", &cc, &mut params);
        add_recipients("bcc", &bcc, &mut params);
        params.insert("subject".to_owned(), subject);
        body.add_to(&mut params);
        let ghost with_body = params@;
        let mut i: usize = 0;
        while i < options.len()
            invariant
                i <= options@.len(),
                options_in_range(options@),
                params@ == insert_options(with_body, options@.take(i as int)),
            decreases options@.len() - i,
        {
            options[i].add_to(&mut params);
            proof {
                assert(options@.take(i + 1).drop_last() =~= options@.take(i as int));
                assert(options@.take(i + 1).last() == options@[i as int]);
            }
            i = i + 1;
        }
        proof {
            assert(options@.take(options@.len() as int) =~= options@);
        }
        params
    }

    /// Checks that every delivery-time option of the message lies in the
    /// range that the RFC 2822 wire format can carry.
    pub fn delivery_times_ok(&self) -> (r: bool)
        ensures
            r == options_in_range(self.options@),
    {
        let mut i: usize = 0;
        while i < self.options.len()
            invariant
                i <= self.options@.len(),
                forall|j: int| 0 <= j < i ==> delivery_time_in_range(#[trigger] self.options@[j]),
            decreases self.options@.len() - i,
        {
            match &self.options[i] {
                SendOptions::DeliveryTime(t) => {
                    if !(-62167219200000i64 <= *t && *t <= 253402300799999i64) {
                        proof {
                            assert(!delivery_time_in_range(self.options@[i as int]));
                        }
                        return false;
                    }
                },
                _ => {},
            }
            proof {
                assert(delivery_time_in_range(self.options@[i as int]));
            }
            i = i + 1;
        }
        true
    }
}

proof fn lemma_literal_shapes()
    ensures
        "to"@.len() == 2 && "to"@[0] == 't' && "to"@[1] == 'o',
        "cc"@.len() == 2 && "cc"@[0] == 'c' && "cc"@[1] == 'c',
        "bcc"@.len() == 3 && "bcc"@[1] == 'c',
        "subject"@.len() == 7 && "subject"@[1] == 'u',
        "html"@.len() == 4 && "html"@[0] == 'h' && "html"@[1] == 't',
        "text"@.len() == 4 && "text"@[0] == 't' && "text"@[1] == 'e',
        "o:testmode"@.len() == 10 && "o:testmode"@[0] == 'o' && "o:testmode"@[1] == ':',
        "o:deliverytime"@.len() == 14 && "o:deliverytime"@[0] == 'o' && "o:deliverytime"@[1]
            == ':',
        "o:tag"@.len() == 5 && "o:tag"@[0] == 'o' && "o:tag"@[1] == ':',
        "h:"@.len() == 2 && "h:"@[0] == 'h' && "h:"@[1] == ':',
{
    reveal_strlit("to");
    reveal_strlit("cc");
    reveal_strlit("bcc");
    reveal_strlit("subject");
    reveal_strlit("html");
    reveal_strlit("text");
    reveal_strlit("o:testmode");
    reveal_strlit("o:deliverytime");
    reveal_strlit("o:tag");
    reveal_strlit("h:");
}

proof fn lemma_option_key_shape(o: SendOptions)
    ensures
        option_key(o).len() >= 2,
        option_key(o)[1] == ':',
{
    lemma_literal_shapes();
    match o {
        SendOptions::Header(h, _) => {
            assert(option_key(o) == "h:"@ + h@);
            assert(("h:"@ + h@)[1] == "h:"@[1]);
        },
        _ => {},
    }
}

proof fn lemma_options_avoid(opts: Seq<SendOptions>, k: Seq<char>)
    requires
        k.len() < 2 || k[1] != ':',
    ensures
        forall|i: int| 0 <= i < opts.len() ==> option_key(#[trigger] opts[i]) != k,
{
    assert forall|i: int| 0 <= i < opts.len() implies option_key(#[trigger] opts[i]) != k by {
        lemma_option_key_shape(opts[i]);
    }
}

proof fn lemma_insert_options_frame(
    m: Map<Seq<char>, Seq<char>>,
    opts: Seq<SendOptions>,
    k: Seq<char>,
)
    requires
        forall|i: int| 0 <= i < opts.len() ==> option_key(#[trigger] opts[i]) != k,
    ensures
        insert_options(m, opts).contains_key(k) == m.contains_key(k),
        m.contains_key(k) ==> insert_options(m, opts)[k] == m[k],
    decreases opts.len(),
{
    if opts.len() > 0 {
        assert(forall|i: int|
            0 <= i < opts.drop_last().len() ==> #[trigger] opts.drop_last()[i] == opts[i]);
        lemma_insert_options_frame(m, opts.drop_last(), k);
    }
}

proof fn lemma_insert_options_contains(
    m: Map<Seq<char>, Seq<char>>,
    opts: Seq<SendOptions>,
    i: int,
)
    requires
        0 <= i < opts.len(),
    ensures
        insert_options(m, opts).contains_key(option_key(opts[i])),
    decreases opts.len(),
{
    if i < opts.len() - 1 {
        assert(opts.drop_last()[i] == opts[i]);
        lemma_insert_options_contains(m, opts.drop_last(), i);
    }
}

proof fn lemma_insert_options_last_wins(
    m: Map<Seq<char>, Seq<char>>,
    opts: Seq<SendOptions>,
    i: int,
)
    requires
        0 <= i < opts.len(),
        forall|j: int| i < j < opts.len() ==> option_key(#[trigger] opts[j]) != option_key(
            opts[i],
        ),
    ensures
        insert_options(m, opts).contains_key(option_key(opts[i])),
        insert_options(m, opts)[option_key(opts[i])] == option_value(opts[i]),
    decreases opts.len(),
{
    if i < opts.len() - 1 {
        assert(option_key(opts[opts.len() - 1]) != option_key(opts[i]));
        assert(opts.drop_last()[i] == opts[i]);
        assert forall|j: int|
            i < j < opts.drop_last().len() implies option_key(#[trigger] opts.drop_last()[j])
            != option_key(opts.drop_last()[i]) by {
            assert(opts.drop_last()[j] == opts[j]);
        }
        lemma_insert_options_last_wins(m, opts.drop_last(), i);
    }
}

proof fn lemma_insert_options_dom(
    m: Map<Seq<char>, Seq<char>>,
    opts: Seq<SendOptions>,
    k: Seq<char>,
)
    ensures
        insert_options(m, opts).contains_key(k) <==> (m.contains_key(k) || exists|i: int|
            0 <= i < opts.len() && option_key(#[trigger] opts[i]) == k),
    decreases opts.len(),
{
    if opts.len() > 0 {
        lemma_insert_options_dom(m, opts.drop_last(), k);
        if option_key(opts.last()) == k {
            assert(option_key(opts[opts.len() - 1]) == k);
        } else {
            if exists|i: int|
                0 <= i < opts.drop_last().len() && option_key(#[trigger] opts.drop_last()[i])
                    == k {
                let i = choose|i: int|
                    0 <= i < opts.drop_last().len() && option_key(#[trigger] opts.drop_last()[i])
                        == k;
                assert(option_key(opts[i]) == k);
            }
            if exists|i: int| 0 <= i < opts.len() && option_key(#[trigger] opts[i]) == k {
                let i = choose|i: int| 0 <= i < opts.len() && option_key(#[trigger] opts[i]) == k;
                assert(i != opts.len() - 1);
                assert(option_key(opts.drop_last()[i]) == k);
            }
        }
    }
}

/// Law: for every message, the parameter mapping carries `subject` always;
/// exactly the body keys of the active body variant, with the variant's
/// content; the key of every option, and on a repeated option key the last
/// option in the list wins; and the keys `o:testmode`, `o:deliverytime` and
/// `o:tag` exactly when an option of that kind is present.
pub proof fn lemma_message_params(msg: Message)
    ensures
        message_params(msg).contains_key("subject"@),
        message_params(msg)["subject"@] == msg.subject@,
        message_params(msg).contains_key("html"@) <==> (msg.body is Html
            || msg.body is HtmlAndText),
        message_params(msg).contains_key("text"@) <==> (msg.body is Text
            || msg.body is HtmlAndText),
        msg.body matches MessageBody::Html(c) ==> message_params(msg)["html"@] == c@,
        msg.body matches MessageBody::Text(c) ==> message_params(msg)["text"@] == c@,
        msg.body matches MessageBody::HtmlAndText(html, text) ==> message_params(msg)["html"@]
            == html@ && message_params(msg)["text"@] == text@,
        forall|i: int| 0 <= i < msg.options@.len() ==> message_params(msg).contains_key(
            option_key(#[trigger] msg.options@[i]),
        ),
        forall|i: int|
            0 <= i < msg.options@.len() && (forall|j: int|
                i < j < msg.options@.len() ==> option_key(#[trigger] msg.options@[j])
                    != option_key(msg.options@[i])) ==> message_params(msg)[option_key(
                #[trigger] msg.options@[i],
            )] == option_value(msg.options@[i]),
        message_params(msg).contains_key("o:testmode"@) <==> exists|i: int|
            0 <= i < msg.options@.len() && (#[trigger] msg.options@[i]) is TestMode,
        message_params(msg).contains_key("o:deliverytime"@) <==> exists|i: int|
            0 <= i < msg.options@.len() && (#[trigger] msg.options@[i]) is DeliveryTime,
        message_params(msg).contains_key("o:tag"@) <==> exists|i: int|
            0 <= i < msg.options@.len() && (#[trigger] msg.options@[i]) is Tag,
{
    lemma_literal_shapes();
    let opts = msg.options@;
    let with_to = add_recipients_spec(Map::empty(), "to"@, msg.to@);
    let with_cc = add_recipients_spec(with_to, "cc"@, msg.cc@);
    let with_bcc = add_recipients_spec(with_cc, "bcc"@, msg.bcc@);
    let with_subject = with_bcc.insert("subject"@, msg.subject@);
    let with_body = body_params_spec(with_subject, msg.body);

    // The base keys never collide with an option key: an option key has a
    // colon in second position.
    lemma_options_avoid(opts, "subject"@);
    lemma_insert_options_frame(with_body, opts, "subject"@);
    lemma_options_avoid(opts, "html"@);
    lemma_insert_options_frame(with_body, opts, "html"@);
    lemma_options_avoid(opts, "text"@);
    lemma_insert_options_frame(with_body, opts, "text"@);

    assert(!with_subject.contains_key("html"@));
    assert(!with_subject.contains_key("text"@));
    assert(with_body.contains_key("subject"@) && with_body["subject"@] == msg.subject@);

    assert forall|i: int| 0 <= i < opts.len() implies message_params(msg).contains_key(
        option_key(#[trigger] opts[i]),
    ) by {
        lemma_insert_options_contains(with_body, opts, i);
    }

    assert forall|i: int|
        0 <= i < opts.len() && (forall|j: int|
            i < j < opts.len() ==> option_key(#[trigger] opts[j]) != option_key(
                opts[i],
            )) implies message_params(msg)[option_key(#[trigger] opts[i])] == option_value(
        opts[i],
    ) by {
        lemma_insert_options_last_wins(with_body, opts, i);
    }

    // The three fixed option keys are present exactly when an option of
    // that kind is.
    lemma_insert_options_dom(with_body, opts, "o:testmode"@);
    lemma_insert_options_dom(with_body, opts, "o:deliverytime"@);
    lemma_insert_options_dom(with_body, opts, "o:tag"@);
    assert(!with_body.contains_key("o:testmode"@));
    assert(!with_body.contains_key("o:deliverytime"@));
    assert(!with_body.contains_key("o:tag"@));

    assert forall|i: int| 0 <= i < opts.len() implies (option_key(#[trigger] opts[i])
        == "o:testmode"@ <==> opts[i] is TestMode) && (option_key(opts[i]) == "o:deliverytime"@
        <==> opts[i] is DeliveryTime) && (option_key(opts[i]) == "o:tag"@
        <==> opts[i] is Tag) by {
        lemma_option_key_shape(opts[i]);
        match opts[i] {
            SendOptions::Header(h, _) => {
                assert(option_key(opts[i])[0] == ("h:"@ + h@)[0]);
                assert(("h:"@ + h@)[0] == "h:"@[0]);
            },
            _ => {},
        }
    }
    if exists|i: int| 0 <= i < opts.len() && (#[trigger] opts[i]) is TestMode {
        let i = choose|i: int| 0 <= i < opts.len() && (#[trigger] opts[i]) is TestMode;
        assert(option_key(opts[i]) == "o:testmode"@);
    }
    if exists|i: int| 0 <= i < opts.len() && (#[trigger] opts[i]) is DeliveryTime {
        let i = choose|i: int| 0 <= i < opts.len() && (#[trigger] opts[i]) is DeliveryTime;
        assert(option_key(opts[i]) == "o:deliverytime"@);
    }
    if exists|i: int| 0 <= i < opts.len() && (#[trigger] opts[i]) is Tag {
        let i = choose|i: int| 0 <= i < opts.len() && (#[trigger] opts[i]) is Tag;
        assert(option_key(opts[i]) == "o:tag"@);
    }
    if exists|i: int| 0 <= i < opts.len() && option_key(#[trigger] opts[i]) == "o:testmode"@ {
        let i = choose|i: int|
            0 <= i < opts.len() && option_key(#[trigger] opts[i]) == "o:testmode"@;
        assert(opts[i] is TestMode);
    }
    if exists|i: int| 0 <= i < opts.len() && option_key(#[trigger] opts[i]) == "o:deliverytime"@ {
        let i = choose|i: int|
            0 <= i < opts.len() && option_key(#[trigger] opts[i]) == "o:deliverytime"@;
        assert(opts[i] is DeliveryTime);
    }
    if exists|i: int| 0 <= i < opts.len() && option_key(#[trigger] opts[i]) == "o:tag"@ {
        let i = choose|i: int| 0 <= i < opts.len() && option_key(#[trigger] opts[i]) == "o:tag"@;
        assert(opts[i] is Tag);
    }
}

/// Law: each recipient list appears under its field name exactly when it is
/// non-empty, as the rendered addresses joined with commas; an empty list
/// leaves its key absent.
pub proof fn lemma_message_recipients(msg: Message)
    ensures
        message_params(msg).contains_key("to"@) <==> msg.to@.len() > 0,
        message_params(msg).contains_key("cc"@) <==> msg.cc@.len() > 0,
        message_params(msg).contains_key("bcc"@) <==> msg.bcc@.len() > 0,
        msg.to@.len() > 0 ==> message_params(msg)["to"@] == rendered_list(msg.to@),
        msg.cc@.len() > 0 ==> message_params(msg)["cc"@] == rendered_list(msg.cc@),
        msg.bcc@.len() > 0 ==> message_params(msg)["bcc"@] == rendered_list(msg.bcc@),
{
    lemma_literal_shapes();
    let opts = msg.options@;
    let with_to = add_recipients_spec(Map::empty(), "to"@, msg.to@);
    let with_cc = add_recipients_spec(with_to, "cc"@, msg.cc@);
    let with_bcc = add_recipients_spec(with_cc, "bcc"@, msg.bcc@);
    let with_subject = with_bcc.insert("subject"@, msg.subject@);
    let with_body = body_params_spec(with_subject, msg.body);

    lemma_options_avoid(opts, "to"@);
    lemma_insert_options_frame(with_body, opts, "to"@);
    lemma_options_avoid(opts, "cc"@);
    lemma_insert_options_frame(with_body, opts, "cc"@);
    lemma_options_avoid(opts, "bcc"@);
    lemma_insert_options_frame(with_body, opts, "bcc"@);

    assert(with_body.contains_key("to"@) == with_subject.contains_key("to"@));
    assert(with_body.contains_key("cc"@) == with_subject.contains_key("cc"@));
    assert(with_body.contains_key("bcc"@) == with_subject.contains_key("bcc"@));
}

/// The server's answer to a send call.
#[derive(Debug, PartialEq)]
pub struct SendResponse {
    pub message: String,
    pub id: String,
}

/// The target URL of a send call.
pub open spec fn messages_url_spec(c: CredentialsView) -> Seq<char> {
    c.api_base + "/"@ + c.domain + "/"@ + "messages"@
}

/// The parameters of a send call: the message's mapping with the rendered
/// sender stored under `from`.
pub open spec fn send_params(msg: Message, sender: EmailAddressView) -> Map<Seq<char>, Seq<char>> {
    message_params(msg).insert("from"@, sender.rendered())
}

/// Builds the one call that sends `msg` from `sender`: a POST to
/// `{api_base}/{domain}/messages` carrying the message's parameters and the
/// sender under `from`.
pub fn prepare_send(creds: &Credentials, sender: &EmailAddress, msg: Message) -> (r: ApiRequest)
    requires
        options_in_range(msg.options@),
    ensures
        r.method == HttpMethod::Post,
        r.url@ == messages_url_spec(creds@),
        r.api_key@ == creds@.api_key,
        r.params@ == send_params(msg, sender@),
{
    let url = creds.api_url("messages");
    let api_key = creds.api_key().to_owned();
    let mut params = msg.to_params();
    params.insert("from".to_owned(), sender.to_string());
    ApiRequest { method: HttpMethod::Post, url, api_key, params }
}

} // verus!
