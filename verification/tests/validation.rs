use catzconnect::error::CatzError;
use catzconnect::payload::{final_payload, required, verify_payload};
use catzconnect::types::{Channel, DataMap, MessageType, SendInput, SendPayload, Template};
use catzconnect::validators::{validate_email, validate_phone};

fn validation_text(r: Result<(), CatzError>) -> String {
    match r {
        Err(CatzError::Validation(m)) => m,
        other => panic!("expected a validation error, got {:?}", other),
    }
}

fn input(channel: Channel, message_type: MessageType, template: Template, payload: SendPayload) -> SendInput {
    SendInput { message_type, channel, template, identity: "sender@domain.com".to_string(), payload }
}

fn some(s: &str) -> Option<String> {
    Some(s.to_string())
}

#[test]
fn email_addresses_that_match_the_pattern_pass() {
    assert!(validate_email("user@example.com").is_ok());
    assert!(validate_email("a@b.c").is_ok());
    assert!(validate_email("first.last@mail.example.co.uk").is_ok());
    assert!(validate_email("x@y.z.").is_ok());
}

#[test]
fn email_addresses_that_break_the_pattern_fail_with_their_text() {
    for bad in ["userexample.com", "user@example", "@example.com", "user@.com", "user@example.", "a b@c.d", "a@b@c.d", "a@b .c", "", "user@ex\tample.com"] {
        assert_eq!(validation_text(validate_email(bad)), format!("Invalid email: {bad}"), "{bad}");
    }
}

#[test]
fn email_address_with_unicode_white_space_fails() {
    assert!(validate_email("user\u{a0}@example.com").is_err());
    assert!(validate_email("user@exa\u{3000}mple.com").is_err());
    assert!(validate_email("üser@exämple.com").is_ok());
}

#[test]
fn phone_numbers_with_seven_to_fifteen_digits_pass() {
    assert!(validate_phone("+91 98765 43210").is_ok());
    assert!(validate_phone("123-456-7890").is_ok());
    assert!(validate_phone("(555) 123 4567").is_ok());
    assert!(validate_phone("1234567").is_ok());
    assert!(validate_phone("123456789012345").is_ok());
}

#[test]
fn phone_numbers_are_refused_with_the_reason() {
    assert_eq!(
        validation_text(validate_phone("user@example.com")),
        "WhatsApp messages go to phone numbers, not email addresses: user@example.com"
    );
    assert_eq!(validation_text(validate_phone("123456")), "Invalid phone number: 123456");
    assert_eq!(validation_text(validate_phone("1234567890123456")), "Invalid phone number: 1234567890123456");
    assert_eq!(validation_text(validate_phone("123.456.7890")), "Invalid phone number: 123.456.7890");
    assert_eq!(validation_text(validate_phone("")), "Invalid phone number: ");
}

#[test]
fn required_fields_must_not_be_blank() {
    assert_eq!(required(&some("  abc "), "to").unwrap(), "  abc ");
    assert!(matches!(required(&some(" \t\n"), "to"), Err(CatzError::Validation(m)) if m == "Missing 'to' in payload"));
    assert!(matches!(required(&None, "body"), Err(CatzError::Validation(m)) if m == "Missing 'body' in payload"));
}

#[test]
fn email_otp_rules() {
    let ok = SendPayload { to: some("user@example.com"), otp: some("123456"), ..Default::default() };
    assert!(verify_payload(&input(Channel::Email, MessageType::Verification, Template::Otp, ok)).is_ok());

    let no_to = SendPayload { otp: some("123456"), ..Default::default() };
    assert_eq!(validation_text(verify_payload(&input(Channel::Email, MessageType::Verification, Template::Otp, no_to))), "Missing 'to' in payload");

    let no_otp = SendPayload { to: some("not-an-email"), ..Default::default() };
    assert_eq!(validation_text(verify_payload(&input(Channel::Email, MessageType::Verification, Template::Otp, no_otp))), "Missing 'otp' in payload");

    let bad_to = SendPayload { to: some("not-an-email"), otp: some(""), ..Default::default() };
    assert_eq!(validation_text(verify_payload(&input(Channel::Email, MessageType::Verification, Template::Otp, bad_to))), "Invalid email: not-an-email");
}

#[test]
fn email_custom_rules() {
    let ok = SendPayload { to: some("user@example.com"), subject: some("hello world"), body: some("welcome to catzconnect"), ..Default::default() };
    assert!(verify_payload(&input(Channel::Email, MessageType::Transactional, Template::Custom, ok)).is_ok());

    let no_subject = SendPayload { to: some("user@example.com"), body: some("b"), ..Default::default() };
    assert_eq!(validation_text(verify_payload(&input(Channel::Email, MessageType::Transactional, Template::Custom, no_subject))), "Missing 'subject' in payload");

    let no_body = SendPayload { to: some("user@example.com"), subject: some("s"), ..Default::default() };
    assert_eq!(validation_text(verify_payload(&input(Channel::Email, MessageType::Transactional, Template::Custom, no_body))), "Missing 'body' in payload");
}

#[test]
fn whatsapp_otp_rules() {
    let ok = SendPayload { to: some("+91 98765 43210"), otp: some("123456"), ..Default::default() };
    assert!(verify_payload(&input(Channel::WhatsApp, MessageType::Verification, Template::Otp, ok)).is_ok());

    let blank_to = SendPayload { to: some("   "), otp: some("123456"), ..Default::default() };
    assert_eq!(validation_text(verify_payload(&input(Channel::WhatsApp, MessageType::Verification, Template::Otp, blank_to))), "Missing 'to' in payload");

    let email_to = SendPayload { to: some("user@example.com"), otp: some("123456"), ..Default::default() };
    assert_eq!(
        validation_text(verify_payload(&input(Channel::WhatsApp, MessageType::Verification, Template::Otp, email_to))),
        "WhatsApp messages go to phone numbers, not email addresses: user@example.com"
    );

    let blank_otp = SendPayload { to: some("+91 98765 43210"), otp: some(" "), ..Default::default() };
    assert_eq!(validation_text(verify_payload(&input(Channel::WhatsApp, MessageType::Verification, Template::Otp, blank_otp))), "Missing 'otp' in payload");

    for bad in ["1234567890123456", "12 34", "12-34", "ünï"] {
        let p = SendPayload { to: some("+91 98765 43210"), otp: some(bad), ..Default::default() };
        assert_eq!(
            validation_text(verify_payload(&input(Channel::WhatsApp, MessageType::Verification, Template::Otp, p))),
            "'otp' must be up to 15 letters or digits"
        );
    }
    let longest = SendPayload { to: some("+91 98765 43210"), otp: some("ABCdef123456789"), ..Default::default() };
    assert!(verify_payload(&input(Channel::WhatsApp, MessageType::Verification, Template::Otp, longest)).is_ok());
}

#[test]
fn whatsapp_custom_length_limit() {
    let body_4090 = "b".repeat(4090);
    let fits = SendPayload { to: some("+1 555 123 4567"), body: Some(body_4090.clone()), subject: some(""), ..Default::default() };
    assert!(verify_payload(&input(Channel::WhatsApp, MessageType::Transactional, Template::Custom, fits)).is_ok());

    let over = SendPayload { to: some("+1 555 123 4567"), body: Some(body_4090), subject: some("s"), ..Default::default() };
    assert_eq!(
        validation_text(verify_payload(&input(Channel::WhatsApp, MessageType::Transactional, Template::Custom, over))),
        "WhatsApp messages are limited to 4096 characters"
    );

    let body_only = SendPayload { to: some("+1 555 123 4567"), body: Some("é".repeat(4096)), ..Default::default() };
    assert!(verify_payload(&input(Channel::WhatsApp, MessageType::Transactional, Template::Custom, body_only)).is_ok());

    let no_body = SendPayload { to: some("+1 555 123 4567"), subject: some("s"), ..Default::default() };
    assert_eq!(validation_text(verify_payload(&input(Channel::WhatsApp, MessageType::Transactional, Template::Custom, no_body))), "Missing 'body' in payload");
}

#[test]
fn push_rules() {
    let ok = SendPayload { to: some("fcm-token"), body: some("Arriving Friday"), image: some("https://x.test/i.png"), link: some("https://x.test"), ..Default::default() };
    assert!(verify_payload(&input(Channel::Push, MessageType::Notification, Template::Notification, ok)).is_ok());

    let email_to = SendPayload { to: some("user@example.com"), body: some("b"), ..Default::default() };
    assert_eq!(
        validation_text(verify_payload(&input(Channel::Push, MessageType::Notification, Template::Notification, email_to))),
        "'to' must be an FCM registration token, not an email address"
    );

    let no_body = SendPayload { to: some("tok"), ..Default::default() };
    assert_eq!(validation_text(verify_payload(&input(Channel::Push, MessageType::Notification, Template::Notification, no_body))), "Missing 'body' in payload");

    let http_image = SendPayload { to: some("tok"), body: some("b"), image: some("http://x.test/i.png"), link: some("ftp://x"), ..Default::default() };
    assert_eq!(validation_text(verify_payload(&input(Channel::Push, MessageType::Notification, Template::Notification, http_image))), "'image' must be an https:// URL");

    let http_link = SendPayload { to: some("tok"), body: some("b"), link: some("https:/x"), ..Default::default() };
    assert_eq!(validation_text(verify_payload(&input(Channel::Push, MessageType::Notification, Template::Notification, http_link))), "'link' must be an https:// URL");
}

#[test]
fn unsupported_combinations_are_refused_by_validation_and_framing() {
    let p = || SendPayload { to: some("user@example.com"), otp: some("1"), body: some("b"), ..Default::default() };
    for (c, m, t) in [
        (Channel::Email, MessageType::Notification, Template::Otp),
        (Channel::Push, MessageType::Verification, Template::Otp),
        (Channel::WhatsApp, MessageType::Verification, Template::Custom),
        (Channel::Email, MessageType::Transactional, Template::Notification),
    ] {
        assert_eq!(validation_text(verify_payload(&input(c, m, t, p()))), "Unsupported channel/message_type/template combination");
        assert!(matches!(final_payload(input(c, m, t, p())), Err(CatzError::Validation(msg)) if msg == "Unsupported channel/message_type/template combination"));
    }
}

#[test]
fn data_map_insert_keeps_first_position() {
    let mut m = DataMap::new();
    m.insert("order".to_string(), "42".to_string());
    m.insert("state".to_string(), "shipped".to_string());
    m.insert("order".to_string(), "43".to_string());
    assert_eq!(m.len(), 2);
    let e = m.entries();
    assert_eq!(e[0], ("order".to_string(), "43".to_string()));
    assert_eq!(e[1], ("state".to_string(), "shipped".to_string()));
}


#[test]
fn phone_separators_do_not_change_acceptance() {
    let accepted = ["+1 (555) 123-4567", "15551234567", "1-5-5-5-1-2-3-4-5-6-7", "(((1555)))1234567 ++"];
    for p in accepted {
        assert!(validate_phone(p).is_ok(), "{p}");
    }
    let rejected = ["123456", "1 2 3 4 5 6", "(+123-456)", "1234567890123456", "1234 5678 9012 3456"];
    for p in rejected {
        assert!(validate_phone(p).is_err(), "{p}");
    }
}
