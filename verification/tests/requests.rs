use base64::engine::general_purpose::STANDARD;
use base64::Engine;
use blake2::digest::{Update, VariableOutput};
use blake2::Blake2bVar;
use chacha20poly1305::aead::{Aead, KeyInit};
use chacha20poly1305::{ChaCha20Poly1305, Nonce};
use x25519_dalek::{PublicKey, StaticSecret};

use catzconnect::error::CatzError;
use catzconnect::http::HttpClient;
use catzconnect::types::{Channel, EncryptedBody, EnvValues, EnvVars, MessageType, SendInput, SendPayload, Template};
use catzconnect::CatzConnect;

fn b2(d: &[u8]) -> [u8; 32] {
    let mut h = Blake2bVar::new(32).unwrap();
    h.update(d);
    let mut o = [0u8; 32];
    h.finalize_variable(&mut o).unwrap();
    o
}

fn vars(api_key: Option<&str>, base_url: Option<&str>) -> EnvVars {
    EnvVars {
        api_key: api_key.map(|s| s.to_string()),
        private_key: None,
        server_public_key: None,
        base_url: base_url.map(|s| s.to_string()),
    }
}

fn env_with_key(api_key: &str) -> EnvValues {
    EnvValues { api_key: api_key.to_string(), private_key: String::new(), server_public_key: String::new() }
}

#[test]
fn client_settings_come_from_env_or_variables() {
    let c = HttpClient::from_env(Some(env_with_key("  secret \n")), &vars(None, None)).unwrap();
    assert_eq!(c.base_url(), "https://api.catzconnect.com");
    let c = HttpClient::from_env(None, &vars(Some("k"), Some(" https://example.test/api/// "))).unwrap();
    assert_eq!(c.base_url(), "https://example.test/api");
    assert!(matches!(HttpClient::from_env(None, &vars(None, None)), Err(CatzError::MissingEnv(m)) if m == "API_KEY"));
    assert!(matches!(HttpClient::from_env(Some(env_with_key(" \t")), &vars(Some("k"), None)), Err(CatzError::MissingEnv(m)) if m == "API_KEY is empty"));
}

#[test]
fn request_carries_body_and_bearer_token() {
    let c = HttpClient::from_env(Some(env_with_key(" secret ")), &vars(None, Some("https://example.test/"))).unwrap();
    let body = EncryptedBody { nonce: "AAAA".to_string(), ciphertext: "QkJC".to_string() };
    let req = c.request("/sdk/send", &body).unwrap();
    assert_eq!(req.url, "https://example.test/sdk/send");
    assert_eq!(req.body, "{\"nonce\":\"AAAA\",\"ciphertext\":\"QkJC\"}");
    let headers: Vec<(&str, &str)> = req.headers.iter().map(|(k, v)| (k.as_str(), v.as_str())).collect();
    assert_eq!(
        headers,
        vec![
            ("Content-Type", "application/json"),
            ("Content-Length", "36"),
            ("Authorization", "Bearer secret"),
            ("User-Agent", "catzconnect-rust-sdk/1.0.0"),
            ("Accept", "application/json"),
        ]
    );
}

#[test]
fn replies_outside_2xx_are_api_errors() {
    assert_eq!(HttpClient::read_response(200, b"{\"status\":\"success\"}".to_vec()).unwrap(), b"{\"status\":\"success\"}".to_vec());
    assert_eq!(HttpClient::read_response(299, vec![1, 2]).unwrap(), vec![1, 2]);
    match HttpClient::read_response(401, b"bad key".to_vec()) {
        Err(CatzError::ApiError { status, body }) => {
            assert_eq!(status, 401);
            assert_eq!(body, "bad key");
        },
        other => panic!("unexpected {:?}", other),
    }
    match HttpClient::read_response(500, vec![0x66, 0xff, 0x6f]) {
        Err(CatzError::ApiError { status, body }) => {
            assert_eq!(status, 500);
            assert_eq!(body, "f\u{fffd}o");
        },
        other => panic!("unexpected {:?}", other),
    }
    assert!(matches!(HttpClient::read_response(199, vec![]), Err(CatzError::ApiError { status: 199, .. })));
    assert!(matches!(HttpClient::read_response(300, vec![]), Err(CatzError::ApiError { status: 300, .. })));
}

#[test]
fn successful_replies_are_read_as_json() {
    let v = HttpClient::read_reply(200, b"{\"status\":\"success\",\"id\":7}".to_vec()).unwrap();
    assert_eq!(v["status"], "success");
    assert_eq!(v["id"], 7);
    let v = HttpClient::read_reply(201, b" [1, 2] \n".to_vec()).unwrap();
    assert_eq!(v, serde_json::Value::Array(vec![1.into(), 2.into()]));
    assert!(matches!(HttpClient::read_reply(200, b"not json".to_vec()), Err(CatzError::Json(_))));
    assert!(matches!(HttpClient::read_reply(200, b"{} {}".to_vec()), Err(CatzError::Json(_))));
    assert!(matches!(HttpClient::read_reply(204, vec![]), Err(CatzError::Json(_))));
    match HttpClient::read_reply(404, b"{\"error\":\"not found\"}".to_vec()) {
        Err(CatzError::ApiError { status, body }) => {
            assert_eq!(status, 404);
            assert_eq!(body, "{\"error\":\"not found\"}");
        },
        other => panic!("unexpected {:?}", other),
    }
}

fn email_otp(to: &str) -> SendInput {
    SendInput {
        message_type: MessageType::Verification,
        channel: Channel::Email,
        template: Template::Otp,
        identity: "user@domain.com".to_string(),
        payload: SendPayload { to: Some(to.to_string()), otp: Some("123456".to_string()), ..Default::default() },
    }
}

#[test]
fn validation_comes_before_keys_and_api_key() {
    let r = CatzConnect::prepare_send(email_otp("not-an-email"), None, &vars(None, None));
    assert!(matches!(r, Err(CatzError::Validation(m)) if m == "Invalid email: not-an-email"));
    let r = CatzConnect::prepare_send(email_otp("user@example.com"), None, &vars(None, None));
    assert!(matches!(r, Err(CatzError::MissingEnv(m)) if m == "PRIVATE_KEY"));
}

#[test]
fn prepared_request_opens_on_the_server_side() {
    let client = StaticSecret::from([7u8; 32]);
    let server = StaticSecret::from([9u8; 32]);
    let env = EnvValues {
        api_key: "key-123".to_string(),
        private_key: STANDARD.encode(client.to_bytes()),
        server_public_key: STANDARD.encode(PublicKey::from(&server).as_bytes()),
    };
    let req = CatzConnect::prepare_send(email_otp("user@example.com"), Some(env.clone()), &vars(None, None)).unwrap();
    assert_eq!(req.url, "https://api.catzconnect.com/sdk/send");
    assert_eq!(req.headers[2].1, "Bearer key-123");
    let outer: serde_json::Value = serde_json::from_str(&req.body).unwrap();
    let nonce = STANDARD.decode(outer["nonce"].as_str().unwrap()).unwrap();
    let ct = STANDARD.decode(outer["ciphertext"].as_str().unwrap()).unwrap();
    let master = b2(server.diffie_hellman(&PublicKey::from(&client)).as_bytes());
    let key = b2(&[&master[..], b"CONNECT-@-2026-HS-@-CATZ"].concat());
    let plain = ChaCha20Poly1305::new_from_slice(&key).unwrap().decrypt(Nonce::from_slice(&nonce), ct.as_ref()).unwrap();
    let got: serde_json::Value = serde_json::from_slice(&plain).unwrap();
    assert_eq!(got["message_type"], "Verification");
    assert_eq!(got["channel"], "Email");
    assert_eq!(got["template"], "Otp");
    assert_eq!(got["identity"], "user@domain.com");
    assert_eq!(got["to"], "user@example.com");
    assert_eq!(got["otp"], "123456");
    assert!(got["ts"].is_number());

    let no_api_key = EnvValues { api_key: "   ".to_string(), ..env };
    let r = CatzConnect::prepare_send(email_otp("user@example.com"), Some(no_api_key), &vars(None, None));
    assert!(matches!(r, Err(CatzError::MissingEnv(m)) if m == "API_KEY is empty"));
}

#[test]
fn given_credentials_make_the_request_independent_of_the_key_variables() {
    let client = StaticSecret::from([7u8; 32]);
    let server = StaticSecret::from([9u8; 32]);
    let env = EnvValues {
        api_key: " key-123 ".to_string(),
        private_key: STANDARD.encode(client.to_bytes()),
        server_public_key: STANDARD.encode(PublicKey::from(&server).as_bytes()),
    };
    let other = EnvVars {
        api_key: Some("other".to_string()),
        private_key: Some(STANDARD.encode([1u8; 32])),
        server_public_key: Some("***".to_string()),
        base_url: None,
    };
    let nonce = [5u8; 12];
    let a = CatzConnect::prepare_send_at(email_otp("user@example.com"), Some(env.clone()), &vars(None, None), 1234, &nonce).unwrap();
    let b = CatzConnect::prepare_send_at(email_otp("user@example.com"), Some(env), &other, 1234, &nonce).unwrap();
    assert_eq!(a.url, b.url);
    assert_eq!(a.headers, b.headers);
    assert_eq!(a.body, b.body);
    assert_eq!(a.headers[2].1, "Bearer key-123");
    let outer: serde_json::Value = serde_json::from_str(&a.body).unwrap();
    assert_eq!(outer["nonce"], STANDARD.encode(nonce));
    let ct = STANDARD.decode(outer["ciphertext"].as_str().unwrap()).unwrap();
    let message = "{\"message_type\":\"Verification\",\"channel\":\"Email\",\"template\":\"Otp\",\"identity\":\"user@domain.com\",\"to\":\"user@example.com\",\"otp\":\"123456\",\"ts\":1234}";
    assert_eq!(ct.len(), message.len() + 16);
    let master = b2(server.diffie_hellman(&PublicKey::from(&client)).as_bytes());
    let key = b2(&[&master[..], b"CONNECT-@-2026-HS-@-CATZ"].concat());
    let plain = ChaCha20Poly1305::new_from_slice(&key).unwrap().decrypt(Nonce::from_slice(&nonce), ct.as_ref()).unwrap();
    assert_eq!(String::from_utf8(plain).unwrap(), message);
}
