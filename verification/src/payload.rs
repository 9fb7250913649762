//! The rules a message must meet before it is sealed: which combinations of
//! channel, message type and template exist, and what each one requires.
use vstd::prelude::*;

use crate::error::{is_validation, CatzError};
use crate::text::{
    all_ws, char_count, chars_of, concat_str, contains_char, has_char, is_alnum,
    is_ascii_alphanumeric, is_blank, starts_with,
};
use crate::json::{has_key, json_view, object_view, pairs_view, JsonObject, JsonValue, JsonView};
use crate::types::{
    channel_name, message_type_name, template_name, Channel, DataMap, MessageType, OrderedMap,
    SendInput, SendPayload, Template,
};
use crate::validators::{is_valid_email, phone_problem, validate_email, validate_phone};

verus! {

/// The text of an optional string.
pub open spec fn opt_view(o: Option<String>) -> Option<Seq<char>> {
    match o {
        Some(s) => Some(s@),
        None => None,
    }
}

/// The field is present and not blank.
pub open spec fn filled(o: Option<String>) -> bool {
    o is Some && !all_ws(o->0@)
}

/// The error text for a required field that is absent.
pub open spec fn missing_text(name: Seq<char>) -> Seq<char> {
    "Missing '"@ + name + "' in payload"@
}

/// A WhatsApp one-time password: 1 to 15 ASCII letters or digits.
pub open spec fn otp_ok(otp: Seq<char>) -> bool {
    &&& 1 <= otp.len() <= 15
    &&& forall|i: int| 0 <= i < otp.len() ==> is_alnum(#[trigger] otp[i])
}

/// The length WhatsApp counts for a message: the body, plus the subject and
/// the six characters that set it in bold on a line of its own.
pub open spec fn whatsapp_length(body: Seq<char>, subject: Option<Seq<char>>) -> int {
    body.len() as int + match subject {
        Some(s) => s.len() as int + 6,
        None => 0int,
    }
}

/// `s` begins with `https://`.
pub open spec fn is_https_url(s: Seq<char>) -> bool {
    "https://"@.len() <= s.len() && s.subrange(0, "https://"@.len() as int) == "https://"@
}

/// The combinations of channel, message type and template that the API serves.
pub open spec fn supported(c: Channel, m: MessageType, t: Template) -> bool {
    ||| (c, m, t) == (Channel::Email, MessageType::Verification, Template::Otp)
    ||| (c, m, t) == (Channel::Email, MessageType::Transactional, Template::Custom)
    ||| (c, m, t) == (Channel::WhatsApp, MessageType::Verification, Template::Otp)
    ||| (c, m, t) == (Channel::WhatsApp, MessageType::Transactional, Template::Custom)
    ||| (c, m, t) == (Channel::Push, MessageType::Notification, Template::Notification)
}

/// The first rule that `p` breaks as an email one-time password, if any.
pub open spec fn email_otp_problem(p: SendPayload) -> Option<Seq<char>> {
    if p.to is None {
        Some(missing_text("to"@))
    } else if p.otp is None {
        Some(missing_text("otp"@))
    } else if !is_valid_email(p.to->0@) {
        Some("Invalid email: "@ + p.to->0@)
    } else {
        None
    }
}

/// The first rule that `p` breaks as a custom email, if any.
pub open spec fn email_custom_problem(p: SendPayload) -> Option<Seq<char>> {
    if p.to is None {
        Some(missing_text("to"@))
    } else if p.subject is None {
        Some(missing_text("subject"@))
    } else if p.body is None {
        Some(missing_text("body"@))
    } else if !is_valid_email(p.to->0@) {
        Some("Invalid email: "@ + p.to->0@)
    } else {
        None
    }
}

/// The first rule that `p` breaks as a WhatsApp one-time password, if any.
pub open spec fn whatsapp_otp_problem(p: SendPayload) -> Option<Seq<char>> {
    if !filled(p.to) {
        Some(missing_text("to"@))
    } else if phone_problem(p.to->0@) is Some {
        phone_problem(p.to->0@)
    } else if !filled(p.otp) {
        Some(missing_text("otp"@))
    } else if !otp_ok(p.otp->0@) {
        Some("'otp' must be up to 15 letters or digits"@)
    } else {
        None
    }
}

/// The first rule that `p` breaks as a custom WhatsApp message, if any.
pub open spec fn whatsapp_custom_problem(p: SendPayload) -> Option<Seq<char>> {
    if !filled(p.to) {
        Some(missing_text("to"@))
    } else if phone_problem(p.to->0@) is Some {
        phone_problem(p.to->0@)
    } else if !filled(p.body) {
        Some(missing_text("body"@))
    } else if whatsapp_length(p.body->0@, opt_view(p.subject)) > 4096 {
        Some("WhatsApp messages are limited to 4096 characters"@)
    } else {
        None
    }
}

/// The first rule that `p` breaks as a push notification, if any.
pub open spec fn push_problem(p: SendPayload) -> Option<Seq<char>> {
    if !filled(p.to) {
        Some(missing_text("to"@))
    } else if has_char(p.to->0@, '@') {
        Some("'to' must be an FCM registration token, not an email address"@)
    } else if !filled(p.body) {
        Some(missing_text("body"@))
    } else if p.image is Some && !is_https_url(p.image->0@) {
        Some("'image' must be an https:// URL"@)
    } else if p.link is Some && !is_https_url(p.link->0@) {
        Some("'link' must be an https:// URL"@)
    } else {
        None
    }
}

/// The first rule of the API that `input` breaks, as the error text, or
/// `None` when the message may be sent.
pub open spec fn payload_problem(input: SendInput) -> Option<Seq<char>> {
    let p = input.payload;
    match (input.channel, input.message_type, input.template) {
        (Channel::Email, MessageType::Verification, Template::Otp) => email_otp_problem(p),
        (Channel::Email, MessageType::Transactional, Template::Custom) => email_custom_problem(p),
        (Channel::WhatsApp, MessageType::Verification, Template::Otp) => whatsapp_otp_problem(p),
        (Channel::WhatsApp, MessageType::Transactional, Template::Custom) => whatsapp_custom_problem(
            p,
        ),
        (Channel::Push, MessageType::Notification, Template::Notification) => push_problem(p),
        _ => Some("Unsupported channel/message_type/template combination"@),
    }
}

/// `Missing '<name>' in payload`.
fn missing(name: &str) -> (e: CatzError)
    ensures
        is_validation(e, missing_text(name@)),
{
    let mut s = concat_str("Missing '", name);
    s.append("' in payload");
    CatzError::Validation(s)
}

/// The text of a field that must be present and not blank; otherwise the
/// error `Missing '<name>' in payload`.
pub fn required<'a>(v: &'a Option<String>, name: &str) -> (r: Result<&'a str, CatzError>)
    ensures
        filled(*v) ==> (r matches Ok(s) && s@ == v->0@),
        !filled(*v) ==> (r matches Err(e) && is_validation(e, missing_text(name@))),
{
    match v {
        Some(s) => {
            if is_blank(s.as_str()) {
                Err(missing(name))
            } else {
                Ok(s.as_str())
            }
        },
        None => Err(missing(name)),
    }
}

/// Whether `otp` is 1 to 15 ASCII letters or digits.
fn otp_acceptable(otp: &str) -> (b: bool)
    ensures
        b == otp_ok(otp@),
{
    let v = chars_of(otp);
    if v.len() == 0 || v.len() > 15 {
        return false;
    }
    let mut i: usize = 0;
    while i < v.len()
        invariant
            i <= v.len(),
            v@ == otp@,
            forall|j: int| 0 <= j < i ==> is_alnum(#[trigger] v@[j]),
        decreases v.len() - i,
    {
        if !is_ascii_alphanumeric(v[i]) {
            return false;
        }
        i = i + 1;
    }
    true
}

/// Rejects an optional URL that does not begin with `https://`, with the text `msg`.
fn check_https(v: &Option<String>, msg: &str) -> (r: Result<(), CatzError>)
    ensures
        r is Ok <==> (v is None || is_https_url(v->0@)),
        r matches Err(e) ==> is_validation(e, msg@),
{
    match v {
        Some(s) => {
            if starts_with(s.as_str(), "https://") {
                Ok(())
            } else {
                Err(CatzError::Validation(String::from_str(msg)))
            }
        },
        None => Ok(()),
    }
}

/// The text of a present field.
fn text_of(v: &Option<String>) -> (s: &str)
    requires
        v is Some,
    ensures
        s@ == v->0@,
{
    match v {
        Some(s) => s.as_str(),
        None => "",
    }
}

/// Checks `input` against the rules of its channel, message type and
/// template, and fails with the first rule it breaks.
pub fn verify_payload(input: &SendInput) -> (r: Result<(), CatzError>)
    ensures
        r is Ok <==> payload_problem(*input) is None,
        r matches Err(e) ==> is_validation(e, payload_problem(*input)->0),
        r is Ok ==> supported(input.channel, input.message_type, input.template),
{
    let p = &input.payload;
    match (input.channel, input.message_type, input.template) {
        (Channel::Email, MessageType::Verification, Template::Otp) => {
            if p.to.is_none() {
                return Err(missing("to"));
            }
            if p.otp.is_none() {
                return Err(missing("otp"));
            }
            validate_email(text_of(&p.to))
        },
        (Channel::Email, MessageType::Transactional, Template::Custom) => {
            if p.to.is_none() {
                return Err(missing("to"));
            }
            if p.subject.is_none() {
                return Err(missing("subject"));
            }
            if p.body.is_none() {
                return Err(missing("body"));
            }
            validate_email(text_of(&p.to))
        },
        (Channel::WhatsApp, MessageType::Verification, Template::Otp) => {
            let to = required(&p.to, "to")?;
            validate_phone(to)?;
            let otp = required(&p.otp, "otp")?;
            if !otp_acceptable(otp) {
                return Err(
                    CatzError::Validation(
                        String::from_str("'otp' must be up to 15 letters or digits"),
                    ),
                );
            }
            Ok(())
        },
        (Channel::WhatsApp, MessageType::Transactional, Template::Custom) => {
            let to = required(&p.to, "to")?;
            validate_phone(to)?;
            let body = required(&p.body, "body")?;
            let body_len = char_count(body);
            let too_long = match &p.subject {
                Some(s) => {
                    let subject_len = char_count(s.as_str());
                    body_len > 4096 || subject_len > 4096 || body_len + subject_len + 6 > 4096
                },
                None => body_len > 4096,
            };
            if too_long {
                return Err(
                    CatzError::Validation(
                        String::from_str("WhatsApp messages are limited to 4096 characters"),
                    ),
                );
            }
            Ok(())
        },
        (Channel::Push, MessageType::Notification, Template::Notification) => {
            let to = required(&p.to, "to")?;
            if contains_char(to, '@') {
                return Err(
                    CatzError::Validation(
                        String::from_str(
                            "'to' must be an FCM registration token, not an email address",
                        ),
                    ),
                );
            }
            required(&p.body, "body")?;
            check_https(&p.image, "'image' must be an https:// URL")?;
            check_https(&p.link, "'link' must be an https:// URL")?;
            Ok(())
        },
        _ => Err(
            CatzError::Validation(
                String::from_str("Unsupported channel/message_type/template combination"),
            ),
        ),
    }
}

/// The text of the error for a combination the API does not serve.
pub open spec fn unsupported_text() -> Seq<char> {
    "Unsupported channel/message_type/template combination"@
}

/// A field whose value is the text of an optional string, or null.
pub open spec fn optional_field(key: Seq<char>, o: Option<String>) -> (Seq<char>, JsonView) {
    (
        key,
        match o {
            Some(s) => JsonView::Str(s@),
            None => JsonView::Null,
        },
    )
}

/// The `data` field: the map's entries as a JSON object, or null.
pub open spec fn data_field(o: Option<DataMap>) -> (Seq<char>, JsonView) {
    (
        "data"@,
        match o {
            Some(m) => JsonView::Object(pairs_view(m.entries_view())),
            None => JsonView::Null,
        },
    )
}

/// The fields every message starts with.
pub open spec fn header_fields(input: SendInput) -> Seq<(Seq<char>, JsonView)> {
    seq![
        ("message_type"@, JsonView::Str(message_type_name(input.message_type))),
        ("channel"@, JsonView::Str(channel_name(input.channel))),
        ("template"@, JsonView::Str(template_name(input.template))),
        ("identity"@, JsonView::Str(input.identity@)),
    ]
}

/// The fields of the JSON object sent for `input`, in order, or `None` for a
/// combination the API does not serve: one-time passwords carry `to` and
/// `otp`; custom messages `to`, `subject` and `body`; push notifications
/// `to`, `title`, `body`, `data`, `image`, `link` and `device_key`.
pub open spec fn final_fields(input: SendInput) -> Option<Seq<(Seq<char>, JsonView)>> {
    let p = input.payload;
    match (input.channel, input.message_type, input.template) {
        (Channel::Email, MessageType::Verification, Template::Otp) | (
            Channel::WhatsApp,
            MessageType::Verification,
            Template::Otp,
        ) => Some(
            header_fields(input) + seq![optional_field("to"@, p.to), optional_field("otp"@, p.otp)],
        ),
        (Channel::Email, MessageType::Transactional, Template::Custom) | (
            Channel::WhatsApp,
            MessageType::Transactional,
            Template::Custom,
        ) => Some(
            header_fields(input) + seq![
                optional_field("to"@, p.to),
                optional_field("subject"@, p.subject),
                optional_field("body"@, p.body),
            ],
        ),
        (Channel::Push, MessageType::Notification, Template::Notification) => Some(
            header_fields(input) + seq![
                optional_field("to"@, p.to),
                optional_field("title"@, p.title),
                optional_field("body"@, p.body),
                data_field(p.data),
                optional_field("image"@, p.image),
                optional_field("link"@, p.link),
                optional_field("device_key"@, p.device_key),
            ],
        ),
        _ => None,
    }
}

/// Adds a field with a key the object does not hold yet; it goes last.
fn push_field(obj: &mut JsonObject, key: &str, value: JsonValue)
    requires
        !has_key(object_view(old(obj).entries_view()), key@),
    ensures
        object_view(final(obj).entries_view()) == object_view(old(obj).entries_view()).push(
            (key@, json_view(value)),
        ),
{
    let ghost before = obj.entries_view();
    let k = String::from_str(key);
    proof {
        if exists|i: int| 0 <= i < before.len() && #[trigger] before[i].0@ == k@ {
            let i = choose|i: int| 0 <= i < before.len() && #[trigger] before[i].0@ == k@;
            assert(object_view(before)[i].0 == key@);
        }
    }
    obj.insert(k, value);
    assert(object_view(obj.entries_view()) == object_view(before).push((key@, json_view(value))));
}

/// The JSON value of an optional string: its text, or null.
fn optional_value(o: Option<String>) -> (v: JsonValue)
    ensures
        json_view(v) == optional_field(""@, o).1,
{
    match o {
        Some(s) => JsonValue::Str(s),
        None => JsonValue::Null,
    }
}

/// Builds the JSON object sent for `input`: the names of its message type,
/// channel and template, its identity, then the payload fields its
/// combination carries (absent ones as null). A combination the API does not
/// serve fails with `Unsupported channel/message_type/template combination`.
pub fn final_payload(input: SendInput) -> (r: Result<JsonObject, CatzError>)
    ensures
        final_fields(input) matches Some(f) ==> (r matches Ok(o) && object_view(o.entries_view()) == f),
        final_fields(input) is None ==> (r matches Err(e) && is_validation(e, unsupported_text())),
{
    proof {
        reveal_strlit("message_type");
        reveal_strlit("channel");
        reveal_strlit("template");
        reveal_strlit("identity");
        reveal_strlit("to");
        reveal_strlit("otp");
        reveal_strlit("subject");
        reveal_strlit("body");
        reveal_strlit("title");
        reveal_strlit("data");
        reveal_strlit("image");
        reveal_strlit("link");
        reveal_strlit("device_key");
    }
    let ghost spec_input = input;
    let ghost fields = final_fields(input);
    let SendInput { message_type, channel, template, identity, payload } = input;
    let kind: u8 = match (channel, message_type, template) {
        (Channel::Email, MessageType::Verification, Template::Otp) => 0,
        (Channel::WhatsApp, MessageType::Verification, Template::Otp) => 0,
        (Channel::Email, MessageType::Transactional, Template::Custom) => 1,
        (Channel::WhatsApp, MessageType::Transactional, Template::Custom) => 1,
        (Channel::Push, MessageType::Notification, Template::Notification) => 2,
        _ => 3,
    };
    if kind == 3 {
        return Err(CatzError::Validation(String::from_str(
            "Unsupported channel/message_type/template combination",
        )));
    }
    let mut obj: JsonObject = OrderedMap::new();
    let ghost h = header_fields(spec_input);
    assert(object_view(obj.entries_view()) == h.take(0));
    push_field(&mut obj, "message_type", JsonValue::Str(String::from_str(message_type.name())));
    assert(object_view(obj.entries_view()) == h.take(1));
    assert(!has_key(h.take(1), "channel"@)) by {
        assert(h.take(1)[0].0 == "message_type"@);
    }
    push_field(&mut obj, "channel", JsonValue::Str(String::from_str(channel.name())));
    assert(object_view(obj.entries_view()) == h.take(2));
    assert(!has_key(h.take(2), "template"@)) by {
        assert(h.take(2)[0].0 == "message_type"@);
        assert(h.take(2)[1].0 == "channel"@);
    }
    push_field(&mut obj, "template", JsonValue::Str(String::from_str(template.name())));
    assert(object_view(obj.entries_view()) == h.take(3));
    assert(!has_key(h.take(3), "identity"@)) by {
        assert("identity"@[0] != "template"@[0]);
        assert(h.take(3)[0].0 == "message_type"@);
        assert(h.take(3)[1].0 == "channel"@);
        assert(h.take(3)[2].0 == "template"@);
    }
    push_field(&mut obj, "identity", JsonValue::Str(identity));
    assert(object_view(obj.entries_view()) == h);
    let SendPayload { to, otp, subject, body, title, data, image, link, device_key } = payload;
    assert(!has_key(h, "to"@)) by {
        assert(h[0].0 == "message_type"@);
        assert(h[1].0 == "channel"@);
        assert(h[2].0 == "template"@);
        assert(h[3].0 == "identity"@);
    }
    push_field(&mut obj, "to", optional_value(to));
    let ghost t = object_view(obj.entries_view());
    assert(t[0].0 == "message_type"@);
    assert(t[1].0 == "channel"@);
    assert(t[2].0 == "template"@);
    assert(t[3].0 == "identity"@);
    assert(t[4].0 == "to"@);
    if kind == 0 {
        assert(!has_key(t, "otp"@));
        push_field(&mut obj, "otp", optional_value(otp));
    } else if kind == 1 {
        assert(!has_key(t, "subject"@)) by {
            assert("subject"@[0] != "channel"@[0]);
        }
        push_field(&mut obj, "subject", optional_value(subject));
        let ghost u = object_view(obj.entries_view());
        assert(u[5].0 == "subject"@);
        assert(!has_key(u, "body"@)) by {
            assert(u[0].0 == t[0].0 && u[1].0 == t[1].0 && u[2].0 == t[2].0);
            assert(u[3].0 == t[3].0 && u[4].0 == t[4].0);
        }
        push_field(&mut obj, "body", optional_value(body));
    } else {
        assert(!has_key(t, "title"@));
        push_field(&mut obj, "title", optional_value(title));
        let ghost u = object_view(obj.entries_view());
        assert(u[5].0 == "title"@);
        assert(u[0].0 == t[0].0 && u[1].0 == t[1].0 && u[2].0 == t[2].0);
        assert(u[3].0 == t[3].0 && u[4].0 == t[4].0);
        assert(!has_key(u, "body"@));
        push_field(&mut obj, "body", optional_value(body));
        let d = match data {
            Some(m) => JsonValue::Object(m),
            None => JsonValue::Null,
        };
        let ghost w = object_view(obj.entries_view());
        assert(w[6].0 == "body"@);
        assert(w[0].0 == t[0].0 && w[1].0 == t[1].0 && w[2].0 == t[2].0);
        assert(w[3].0 == t[3].0 && w[4].0 == t[4].0 && w[5].0 == u[5].0);
        assert(!has_key(w, "data"@)) by {
            assert("data"@[0] != "body"@[0]);
        }
        push_field(&mut obj, "data", d);
        let ghost x = object_view(obj.entries_view());
        assert(x[7].0 == "data"@);
        assert(x[0].0 == t[0].0 && x[1].0 == t[1].0 && x[2].0 == t[2].0);
        assert(x[3].0 == t[3].0 && x[4].0 == t[4].0 && x[5].0 == u[5].0 && x[6].0 == w[6].0);
        assert(!has_key(x, "image"@)) by {
            assert("image"@[0] != "title"@[0]);
        }
        push_field(&mut obj, "image", optional_value(image));
        let ghost y = object_view(obj.entries_view());
        assert(y[8].0 == "image"@);
        assert(y[0].0 == t[0].0 && y[1].0 == t[1].0 && y[2].0 == t[2].0);
        assert(y[3].0 == t[3].0 && y[4].0 == t[4].0 && y[5].0 == u[5].0 && y[6].0 == w[6].0);
        assert(y[7].0 == x[7].0);
        assert(!has_key(y, "link"@)) by {
            assert("link"@[0] != "body"@[0]);
            assert("link"@[0] != "data"@[0]);
        }
        push_field(&mut obj, "link", optional_value(link));
        let ghost z = object_view(obj.entries_view());
        assert(z[9].0 == "link"@);
        assert(z[0].0 == t[0].0 && z[1].0 == t[1].0 && z[2].0 == t[2].0);
        assert(z[3].0 == t[3].0 && z[4].0 == t[4].0 && z[5].0 == u[5].0 && z[6].0 == w[6].0);
        assert(z[7].0 == x[7].0 && z[8].0 == y[8].0);
        assert(!has_key(z, "device_key"@));
        push_field(&mut obj, "device_key", optional_value(device_key));
    }
    assert(object_view(obj.entries_view()) == fields->0);
    Ok(obj)
}

/// Law: the validation and the building of the JSON object agree on which
/// combinations exist: a supported combination has fields to send, and any
/// other is refused by both with the same text.
pub proof fn lemma_combinations_agree(input: SendInput)
    ensures
        supported(input.channel, input.message_type, input.template) <==> final_fields(input) is Some,
        !supported(input.channel, input.message_type, input.template) ==> payload_problem(input)
            == Some(unsupported_text()),
{
}

/// Law: a message that passes validation serves a supported combination and
/// carries what that combination requires: an email recipient is a valid
/// address, a WhatsApp recipient a phone number, a push recipient no email
/// address; one-time passwords carry the password, custom emails a subject
/// and a body, custom WhatsApp messages and push notifications a body.
pub proof fn lemma_accepted_message(input: SendInput)
    requires
        payload_problem(input) is None,
    ensures
        supported(input.channel, input.message_type, input.template),
        final_fields(input) is Some,
        input.payload.to is Some,
        input.channel == Channel::Email ==> is_valid_email(input.payload.to->0@),
        input.channel == Channel::WhatsApp ==> filled(input.payload.to) && phone_problem(
            input.payload.to->0@,
        ) is None,
        input.channel == Channel::Push ==> filled(input.payload.to) && !has_char(
            input.payload.to->0@,
            '@',
        ) && filled(input.payload.body),
        input.template == Template::Otp ==> input.payload.otp is Some,
        input.channel == Channel::WhatsApp && input.template == Template::Otp ==> otp_ok(
            input.payload.otp->0@,
        ),
        input.channel == Channel::Email && input.template == Template::Custom ==> input.payload.subject is Some
            && input.payload.body is Some,
        input.channel == Channel::WhatsApp && input.template == Template::Custom ==> filled(
            input.payload.body,
        ) && whatsapp_length(input.payload.body->0@, opt_view(input.payload.subject)) <= 4096,
{
}

/// `v` is the JSON value of the optional text `o`: the text, or null when absent.
pub open spec fn carries_text(v: JsonView, o: Option<String>) -> bool {
    match o {
        Some(t) => v == JsonView::Str(t@),
        None => v == JsonView::Null,
    }
}

/// Law: the object sent for a supported message starts with the names of its
/// message type, channel and template and its identity, then `to`; after that
/// the template alone decides the fields, whatever the channel: a one-time
/// password adds `otp`; a custom message adds `subject` and `body`; a push
/// notification adds `title`, `body`, `data`, `image`, `link` and
/// `device_key`. Each field carries the payload's value, or null.
pub proof fn lemma_fields_follow_template(input: SendInput)
    requires
        supported(input.channel, input.message_type, input.template),
    ensures
        final_fields(input) matches Some(f) && {
            let p = input.payload;
            &&& f[0] == ("message_type"@, JsonView::Str(message_type_name(input.message_type)))
            &&& f[1] == ("channel"@, JsonView::Str(channel_name(input.channel)))
            &&& f[2] == ("template"@, JsonView::Str(template_name(input.template)))
            &&& f[3] == ("identity"@, JsonView::Str(input.identity@))
            &&& f[4].0 == "to"@ && carries_text(f[4].1, p.to)
            &&& input.template == Template::Otp ==> {
                &&& f.len() == 6
                &&& f[5].0 == "otp"@ && carries_text(f[5].1, p.otp)
            }
            &&& input.template == Template::Custom ==> {
                &&& f.len() == 7
                &&& f[5].0 == "subject"@ && carries_text(f[5].1, p.subject)
                &&& f[6].0 == "body"@ && carries_text(f[6].1, p.body)
            }
            &&& input.template == Template::Notification ==> {
                &&& f.len() == 11
                &&& f[5].0 == "title"@ && carries_text(f[5].1, p.title)
                &&& f[6].0 == "body"@ && carries_text(f[6].1, p.body)
                &&& f[7].0 == "data"@ && (p.data matches Some(m) ==> f[7].1 == JsonView::Object(
                    pairs_view(m.entries_view()),
                )) && (p.data is None ==> f[7].1 == JsonView::Null)
                &&& f[8].0 == "image"@ && carries_text(f[8].1, p.image)
                &&& f[9].0 == "link"@ && carries_text(f[9].1, p.link)
                &&& f[10].0 == "device_key"@ && carries_text(f[10].1, p.device_key)
            }
        },
{
}

/// Law: an email one-time password is accepted when it has a recipient that
/// is a valid email address and a password.
pub proof fn lemma_email_otp_accepted(input: SendInput)
    requires
        input.channel == Channel::Email,
        input.message_type == MessageType::Verification,
        input.template == Template::Otp,
        input.payload.to matches Some(t) && is_valid_email(t@),
        input.payload.otp is Some,
    ensures
        payload_problem(input) is None,
{
}

/// Law: a custom email is accepted when it has a recipient that is a valid
/// email address, a subject and a body.
pub proof fn lemma_email_custom_accepted(input: SendInput)
    requires
        input.channel == Channel::Email,
        input.message_type == MessageType::Transactional,
        input.template == Template::Custom,
        input.payload.to matches Some(t) && is_valid_email(t@),
        input.payload.subject is Some,
        input.payload.body is Some,
    ensures
        payload_problem(input) is None,
{
}

/// Law: a WhatsApp one-time password is accepted when its recipient is a
/// phone number the phone check accepts and its password is 1 to 15 ASCII
/// letters or digits.
pub proof fn lemma_whatsapp_otp_accepted(input: SendInput)
    requires
        input.channel == Channel::WhatsApp,
        input.message_type == MessageType::Verification,
        input.template == Template::Otp,
        input.payload.to matches Some(t) && !all_ws(t@) && phone_problem(t@) is None,
        input.payload.otp matches Some(o) && 1 <= o@.len() <= 15 && forall|i: int|
            0 <= i < o@.len() ==> is_alnum(#[trigger] o@[i]),
    ensures
        payload_problem(input) is None,
{
    let o = input.payload.otp->0@;
    assert(is_alnum(o[0]));
    assert(!all_ws(o));
}

/// Law: a custom WhatsApp message is accepted when its recipient is a phone
/// number the phone check accepts and its body is not blank and, with the
/// subject and its six characters of framing, at most 4096 characters.
pub proof fn lemma_whatsapp_custom_accepted(input: SendInput)
    requires
        input.channel == Channel::WhatsApp,
        input.message_type == MessageType::Transactional,
        input.template == Template::Custom,
        input.payload.to matches Some(t) && !all_ws(t@) && phone_problem(t@) is None,
        input.payload.body matches Some(b) && !all_ws(b@) && b@.len() + match input.payload.subject {
            Some(s) => s@.len() + 6,
            None => 0,
        } <= 4096,
    ensures
        payload_problem(input) is None,
{
}

/// Law: a push notification is accepted when its recipient is not blank and
/// holds no `@` (any other character, such as the `:` of an FCM token, is
/// fine), its body is not blank, and its image and link, when given, begin
/// with `https://`.
pub proof fn lemma_push_accepted(input: SendInput)
    requires
        input.channel == Channel::Push,
        input.message_type == MessageType::Notification,
        input.template == Template::Notification,
        input.payload.to matches Some(t) && !all_ws(t@) && forall|i: int|
            0 <= i < t@.len() ==> #[trigger] t@[i] != '@',
        input.payload.body matches Some(b) && !all_ws(b@),
        input.payload.image matches Some(u) ==> "https://"@.len() <= u@.len() && u@.subrange(
            0,
            "https://"@.len() as int,
        ) == "https://"@,
        input.payload.link matches Some(u) ==> "https://"@.len() <= u@.len() && u@.subrange(
            0,
            "https://"@.len() as int,
        ) == "https://"@,
    ensures
        payload_problem(input) is None,
{
}

} // verus!
