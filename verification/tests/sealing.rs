use base64::engine::general_purpose::{STANDARD, STANDARD_NO_PAD, URL_SAFE_NO_PAD};
use base64::Engine;
use blake2::digest::{Update, VariableOutput};
use blake2::Blake2bVar;
use chacha20poly1305::aead::{Aead, KeyInit};
use chacha20poly1305::{ChaCha20Poly1305, Nonce};
use x25519_dalek::{PublicKey, StaticSecret};

use catzconnect::b64::{b64_decode, b64_encode_bytes};
use catzconnect::crypto::{blake2b_32, derive_key, encrypt, load_keys, seal, seal_payload};
use catzconnect::error::CatzError;
use catzconnect::json::{message_json, push_decimal, str_eq, JsonObject, JsonValue};
use catzconnect::payload::final_payload;
use catzconnect::types::{Channel, DataMap, EnvValues, EnvVars, MessageType, OrderedMap, SendInput, SendPayload, Template};

const LABEL: &[u8] = b"CONNECT-@-2026-HS-@-CATZ";

fn b2(d: &[u8]) -> [u8; 32] {
    let mut h = Blake2bVar::new(32).unwrap();
    h.update(d);
    let mut o = [0u8; 32];
    h.finalize_variable(&mut o).unwrap();
    o
}

fn no_vars() -> EnvVars {
    EnvVars { api_key: None, private_key: None, server_public_key: None, base_url: None }
}

fn fixed_env() -> (EnvValues, StaticSecret, StaticSecret) {
    let client = StaticSecret::from([7u8; 32]);
    let server = StaticSecret::from([9u8; 32]);
    let env = EnvValues {
        api_key: "k".to_string(),
        private_key: STANDARD.encode(client.to_bytes()),
        server_public_key: STANDARD.encode(PublicKey::from(&server).as_bytes()),
    };
    (env, client, server)
}

/// The server's side: its private key and the client's public key.
fn server_open(server: &StaticSecret, client_pub: &PublicKey, nonce_b64: &str, ct_b64: &str) -> Vec<u8> {
    let master = b2(server.diffie_hellman(client_pub).as_bytes());
    let key = b2(&[&master[..], LABEL].concat());
    let n = STANDARD.decode(nonce_b64).unwrap();
    ChaCha20Poly1305::new_from_slice(&key).unwrap().decrypt(Nonce::from_slice(&n), STANDARD.decode(ct_b64).unwrap().as_ref()).unwrap()
}

fn push_input() -> SendInput {
    let mut data = DataMap::new();
    data.insert("order".to_string(), "42".to_string());
    SendInput {
        message_type: MessageType::Notification,
        channel: Channel::Push,
        template: Template::Notification,
        identity: "proj".to_string(),
        payload: SendPayload {
            to: Some("tok".to_string()),
            body: Some("from rust".to_string()),
            device_key: Some("DK".to_string()),
            data: Some(data),
            ..Default::default()
        },
    }
}

#[test]
fn push_payload_is_framed_in_field_order_with_ts_last() {
    let obj = final_payload(push_input()).unwrap();
    assert_eq!(
        message_json(&obj, 1700000000000).unwrap(),
        "{\"message_type\":\"Notification\",\"channel\":\"Push\",\"template\":\"Notification\",\"identity\":\"proj\",\"to\":\"tok\",\"title\":null,\"body\":\"from rust\",\"data\":{\"order\":\"42\"},\"image\":null,\"link\":null,\"device_key\":\"DK\",\"ts\":1700000000000}"
    );
}

#[test]
fn email_otp_payload_is_framed() {
    let input = SendInput {
        message_type: MessageType::Verification,
        channel: Channel::Email,
        template: Template::Otp,
        identity: "user@domain.com".to_string(),
        payload: SendPayload { to: Some("user@example.com".to_string()), otp: Some("123456".to_string()), ..Default::default() },
    };
    let obj = final_payload(input).unwrap();
    assert_eq!(
        message_json(&obj, 0).unwrap(),
        "{\"message_type\":\"Verification\",\"channel\":\"Email\",\"template\":\"Otp\",\"identity\":\"user@domain.com\",\"to\":\"user@example.com\",\"otp\":\"123456\",\"ts\":0}"
    );
}

#[test]
fn custom_payload_carries_subject_and_body() {
    let input = SendInput {
        message_type: MessageType::Transactional,
        channel: Channel::WhatsApp,
        template: Template::Custom,
        identity: "919578456444".to_string(),
        payload: SendPayload { to: Some("+91 98765 43210".to_string()), body: Some("hi".to_string()), ..Default::default() },
    };
    let obj = final_payload(input).unwrap();
    assert_eq!(
        message_json(&obj, 7).unwrap(),
        "{\"message_type\":\"Transactional\",\"channel\":\"WhatsApp\",\"template\":\"Custom\",\"identity\":\"919578456444\",\"to\":\"+91 98765 43210\",\"subject\":null,\"body\":\"hi\",\"ts\":7}"
    );
}

#[test]
fn strings_are_escaped_as_serde_json_does() {
    let mut obj: JsonObject = OrderedMap::new();
    obj.insert("b\"k".to_string(), JsonValue::Str("a\"b\\c\nd\u{1}e\u{7f}é\t\r\u{8}\u{c}/".to_string()));
    let text = message_json(&obj, 5).unwrap();
    assert_eq!(text, "{\"b\\\"k\":\"a\\\"b\\\\c\\nd\\u0001e\u{7f}é\\t\\r\\b\\f/\",\"ts\":5}");
    let parsed: serde_json::Value = serde_json::from_str(&text).unwrap();
    assert_eq!(parsed["b\"k"], serde_json::Value::String("a\"b\\c\nd\u{1}e\u{7f}é\t\r\u{8}\u{c}/".to_string()));
}

#[test]
fn an_existing_ts_field_is_replaced_in_place() {
    let mut obj: JsonObject = OrderedMap::new();
    obj.insert("ts".to_string(), JsonValue::Str("old".to_string()));
    obj.insert("x".to_string(), JsonValue::Null);
    obj.insert("n".to_string(), JsonValue::Num(18446744073709551615));
    assert_eq!(message_json(&obj, 12).unwrap(), "{\"ts\":12,\"x\":null,\"n\":18446744073709551615}");
    let empty: JsonObject = OrderedMap::new();
    assert_eq!(message_json(&empty, 99).unwrap(), "{\"ts\":99}");
}

#[test]
fn decimals_and_string_equality() {
    let mut s = String::new();
    push_decimal(&mut s, 0);
    assert_eq!(s, "0");
    let mut t = String::from("x");
    push_decimal(&mut t, 1234567890);
    assert_eq!(t, "x1234567890");
    assert!(str_eq("ts", "ts"));
    assert!(!str_eq("ts", "t"));
    assert!(!str_eq("ts", "tz"));
}

#[test]
fn base64_encoding_is_standard() {
    assert_eq!(b64_encode_bytes(b""), "");
    assert_eq!(b64_encode_bytes(b"f"), "Zg==");
    assert_eq!(b64_encode_bytes(b"fo"), "Zm8=");
    assert_eq!(b64_encode_bytes(b"foo"), "Zm9v");
    assert_eq!(b64_encode_bytes(b"foobar"), "Zm9vYmFy");
    assert_eq!(b64_encode_bytes(&[0xfb, 0xff]), "+/8=");
}

#[test]
fn key_decoding_is_lenient() {
    let bytes: Vec<u8> = (0u8..32).map(|i| i.wrapping_mul(37).wrapping_add(250)).collect();
    let std_text = STANDARD.encode(&bytes);
    let url_text = URL_SAFE_NO_PAD.encode(&bytes);
    assert!(url_text.contains('-') || url_text.contains('_'));
    assert_eq!(b64_decode(&std_text).unwrap(), bytes);
    assert_eq!(b64_decode(&url_text).unwrap(), bytes);
    assert_eq!(b64_decode(&format!("  {std_text}\n")).unwrap(), bytes);
    assert_eq!(b64_decode(std_text.trim_end_matches('=')).unwrap(), bytes);
    assert_eq!(b64_decode("Zg").unwrap(), b"f");
    assert_eq!(b64_decode("Zm8").unwrap(), b"fo");
    assert!(matches!(b64_decode("Zh=="), Err(CatzError::Base64(_))));
    assert!(matches!(b64_decode("Z"), Err(CatzError::Base64(_))));
    assert!(matches!(b64_decode("Zm9v!"), Err(CatzError::Base64(_))));
    assert!(matches!(b64_decode("é"), Err(CatzError::Base64(_))));
    assert_eq!(b64_decode("").unwrap(), b"");
    assert_eq!(b64_decode(" \t ").unwrap(), b"");
}

#[test]
fn white_space_around_a_key_text_is_ignored() {
    for text in ["AAEC", "Zg", "-_8", "Zh==", "Z", ""] {
        let plain = b64_decode(text);
        let padded = b64_decode(&format!(" \t{text}\r\n \u{3000}"));
        match (plain, padded) {
            (Ok(a), Ok(b)) => assert_eq!(a, b),
            (Err(CatzError::Base64(_)), Err(CatzError::Base64(_))) => {},
            other => panic!("different outcomes for {text:?}: {other:?}"),
        }
    }
}

#[test]
fn decoded_bytes_reencode_to_the_normalised_text() {
    for (text, normalised) in [("AAEC", "AAEC"), (" Zg ", "Zg"), ("Zm8=", "Zm8"), ("-_8", "+/8"), ("-_8=", "+/8")] {
        let v = b64_decode(text).unwrap();
        assert_eq!(STANDARD_NO_PAD.encode(&v), normalised);
    }
}

#[test]
fn hash_matches_blake2b_256() {
    assert_eq!(blake2b_32(b"abc"), b2(b"abc").to_vec());
    let empty = blake2b_32(b"");
    assert_eq!(empty.len(), 32);
    assert_eq!(empty[0], 0x0e);
    assert_eq!(empty[1], 0x57);
}

#[test]
fn key_derivation_matches_the_documented_recipe() {
    let (_, client, server) = fixed_env();
    let server_pub = PublicKey::from(&server);
    let k = derive_key(&client.to_bytes(), server_pub.as_bytes());
    let master = b2(client.diffie_hellman(&server_pub).as_bytes());
    assert_eq!(k, b2(&[&master[..], LABEL].concat()).to_vec());
    let client_pub = PublicKey::from(&client);
    assert_eq!(derive_key(&server.to_bytes(), client_pub.as_bytes()), k);
}

#[test]
fn seal_adds_a_sixteen_byte_tag() {
    let key = [3u8; 32];
    let nonce = [4u8; 12];
    let c = seal(&key, &nonce, b"hello").unwrap();
    assert_eq!(c.len(), 21);
    assert_eq!(ChaCha20Poly1305::new_from_slice(&key).unwrap().decrypt(Nonce::from_slice(&nonce), c.as_ref()).unwrap(), b"hello");
}

#[test]
fn sealed_payload_opens_on_the_server_side() {
    let (_, client, server) = fixed_env();
    let obj = final_payload(push_input()).unwrap();
    let nonce = [1u8; 12];
    let body = seal_payload(&obj, &client.to_bytes(), PublicKey::from(&server).as_bytes(), 42, &nonce).unwrap();
    assert_eq!(body.nonce, STANDARD.encode(nonce));
    let plain = server_open(&server, &PublicKey::from(&client), &body.nonce, &body.ciphertext);
    assert_eq!(String::from_utf8(plain).unwrap(), message_json(&obj, 42).unwrap());
}

#[test]
fn encrypt_stamps_the_time_and_uses_a_fresh_nonce() {
    let (env, client, server) = fixed_env();
    let obj = final_payload(push_input()).unwrap();
    let a = encrypt(&obj, Some(env.clone()), &no_vars()).unwrap();
    let b = encrypt(&obj, Some(env), &no_vars()).unwrap();
    assert_eq!(STANDARD.decode(&a.nonce).unwrap().len(), 12);
    assert_ne!(a.nonce, b.nonce);
    let plain = server_open(&server, &PublicKey::from(&client), &a.nonce, &a.ciphertext);
    let got: serde_json::Value = serde_json::from_slice(&plain).unwrap();
    assert_eq!(got["body"], "from rust");
    assert_eq!(got["device_key"], "DK");
    assert_eq!(got["data"]["order"], "42");
    assert!(got["ts"].as_u64().unwrap() > 1_600_000_000_000);
}

#[test]
fn keys_come_from_the_environment_when_none_are_given() {
    let (env, client, server) = fixed_env();
    let vars = EnvVars {
        api_key: None,
        private_key: Some(URL_SAFE_NO_PAD.encode(client.to_bytes())),
        server_public_key: Some(format!(" {} ", env.server_public_key)),
        base_url: None,
    };
    let (secret, public) = load_keys(&None, &vars).unwrap();
    assert_eq!(secret, client.to_bytes().to_vec());
    assert_eq!(public, PublicKey::from(&server).as_bytes().to_vec());
}

#[test]
fn key_errors_come_in_order() {
    let (env, _, _) = fixed_env();
    assert!(matches!(load_keys(&None, &no_vars()), Err(CatzError::MissingEnv(m)) if m == "PRIVATE_KEY"));
    let only_private = EnvVars { private_key: Some(env.private_key.clone()), ..no_vars() };
    assert!(matches!(load_keys(&None, &only_private), Err(CatzError::MissingEnv(m)) if m == "SERVER_PUBLIC_KEY"));
    let bad_private = EnvValues { private_key: "***".to_string(), server_public_key: "***".to_string(), ..env.clone() };
    assert!(matches!(load_keys(&Some(bad_private), &no_vars()), Err(CatzError::Base64(_))));
    let short = EnvValues { private_key: STANDARD.encode([1u8; 16]), server_public_key: STANDARD.encode([1u8; 20]), ..env.clone() };
    assert!(matches!(load_keys(&Some(short), &no_vars()), Err(CatzError::InvalidKeyLength(16))));
    let short_server = EnvValues { server_public_key: STANDARD.encode([1u8; 20]), ..env.clone() };
    assert!(matches!(load_keys(&Some(short_server), &no_vars()), Err(CatzError::InvalidKeyLength(20))));
    let obj = final_payload(push_input()).unwrap();
    assert!(matches!(encrypt(&obj, None, &no_vars()), Err(CatzError::MissingEnv(m)) if m == "PRIVATE_KEY"));
}
