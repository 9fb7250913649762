//! The primitives that seal a message: X25519 key agreement, BLAKE2b-256 key
//! derivation and ChaCha20-Poly1305 encryption, plus the clock and the random
//! nonce.
use vstd::prelude::*;

use blake2::digest::{Update, VariableOutput};
use blake2::Blake2bVar;
use chacha20poly1305::aead::{Aead, KeyInit};
use chacha20poly1305::{ChaCha20Poly1305, Key, Nonce};
use rand::RngCore;
use std::time::{SystemTime, UNIX_EPOCH};
use x25519_dalek::{PublicKey, StaticSecret};

use crate::b64::{b64_decode, b64_decode_lenient, b64_encodable, b64_encode, b64_encode_bytes};
use crate::error::{is_missing_env, CatzError};
use crate::json::{message_json, object_json, object_view, with_timestamp, JsonObject, JsonView};
use crate::payload::opt_view;
use crate::types::{EncryptedBody, EnvValues, EnvVars};

verus! {

/// The X25519 shared secret of a (clamped) secret scalar and a public key.
pub uninterp spec fn x25519(secret: Seq<u8>, public: Seq<u8>) -> Seq<u8>;

/// The unkeyed BLAKE2b digest of `data` with a 32-byte output.
pub uninterp spec fn blake2b_256(data: Seq<u8>) -> Seq<u8>;

/// ChaCha20-Poly1305 (RFC 8439) encryption of `plaintext` under `key` and
/// `nonce` with no associated data: the ciphertext followed by the tag.
pub uninterp spec fn chacha20poly1305_seal(key: Seq<u8>, nonce: Seq<u8>, plaintext: Seq<u8>) -> Seq<u8>;

/// The label mixed into the master secret to derive the encryption key:
/// the ASCII bytes of `CONNECT-@-2026-HS-@-CATZ`.
pub open spec fn key_label() -> Seq<u8> {
    seq![
        67u8, 79, 78, 78, 69, 67, 84, 45, 64, 45, 50, 48, 50, 54, 45, 72, 83, 45, 64, 45, 67, 65,
        84, 90,
    ]
}

/// The key that seals messages between the holder of `secret` and the holder
/// of the private key behind `public`:
/// `BLAKE2b-256(BLAKE2b-256(X25519(secret, public)) || label)`.
pub open spec fn session_key(secret: Seq<u8>, public: Seq<u8>) -> Seq<u8> {
    blake2b_256(blake2b_256(x25519(secret, public)) + key_label())
}

/// The plaintexts ChaCha20-Poly1305 can seal: the keystream starts at block 1
/// of a 32-bit block counter, so at most `u32::MAX - 1` blocks of 64 bytes.
pub open spec fn sealable(len: nat) -> bool {
    len <= 64 * (u32::MAX - 1)
}

/// `x25519_dalek`: `StaticSecret::from(secret).diffie_hellman(&PublicKey::from(public))`.
/// Claimed: the 32 bytes of the shared secret, a function of the two keys alone.
#[verifier::external_body]
fn x25519_shared_secret(secret: &[u8], public: &[u8]) -> (s: Vec<u8>)
    requires
        secret@.len() == 32,
        public@.len() == 32,
    ensures
        s@ == x25519(secret@, public@),
        s@.len() == 32,
{
    let secret: [u8; 32] = secret.try_into().unwrap();
    let public: [u8; 32] = public.try_into().unwrap();
    StaticSecret::from(secret).diffie_hellman(&PublicKey::from(public)).as_bytes().to_vec()
}

/// `blake2`: `Blake2bVar::new(32)`, `update(data)`, `finalize_variable` into 32
/// bytes. Claimed: the 32-byte BLAKE2b digest of `data`. Neither `expect` can
/// fail: 32 is a valid output size and the buffer has that size.
#[verifier::external_body]
pub fn blake2b_32(data: &[u8]) -> (h: Vec<u8>)
    ensures
        h@ == blake2b_256(data@),
        h@.len() == 32,
{
    let mut hasher = Blake2bVar::new(32).expect("32 is a valid BLAKE2b output size");
    hasher.update(data);
    let mut out = [0u8; 32];
    hasher.finalize_variable(&mut out).expect("the buffer holds 32 bytes");
    out.to_vec()
}

/// `chacha20poly1305`: `ChaCha20Poly1305::new(key).encrypt(nonce, plaintext)`.
/// Claimed, from the crate's source: on a plaintext of at most `u32::MAX - 1`
/// blocks of 64 bytes (the keystream left after the block that keys Poly1305)
/// it succeeds and returns the ciphertext and 16-byte tag, one byte of
/// ciphertext per byte of plaintext. Longer plaintexts are not admitted: on
/// some of them the keystream runs out and the call panics.
#[verifier::external_body]
fn chacha_seal(key: &[u8], nonce: &[u8], plaintext: &[u8]) -> (r: Result<Vec<u8>, ()>)
    requires
        key@.len() == 32,
        nonce@.len() == 12,
        sealable(plaintext@.len()),
    ensures
        r is Ok,
        r matches Ok(c) ==> c@ == chacha20poly1305_seal(key@, nonce@, plaintext@),
        r matches Ok(c) ==> c@.len() == plaintext@.len() + 16,
{
    let cipher = ChaCha20Poly1305::new(Key::from_slice(key));
    match cipher.encrypt(Nonce::from_slice(nonce), plaintext) {
        Ok(c) => Ok(c),
        Err(_) => Err(()),
    }
}

/// `rand`: 12 bytes from `thread_rng().fill_bytes`. Claimed: only the length;
/// the bytes are random.
#[verifier::external_body]
pub fn random_nonce() -> (n: Vec<u8>)
    ensures
        n@.len() == 12,
{
    let mut bytes = [0u8; 12];
    rand::thread_rng().fill_bytes(&mut bytes);
    bytes.to_vec()
}

/// Milliseconds since the Unix epoch by the system clock (0 for a clock set
/// before the epoch). Nothing is claimed of the value.
#[verifier::external_body]
pub fn now_ms() -> u64 {
    match SystemTime::now().duration_since(UNIX_EPOCH) {
        Ok(d) => d.as_millis() as u64,
        Err(_) => 0,
    }
}

/// Derives the sealing key from our 32-byte secret key and the server's
/// 32-byte public key, as [`session_key`] states.
pub fn derive_key(secret: &[u8], public: &[u8]) -> (k: Vec<u8>)
    requires
        secret@.len() == 32,
        public@.len() == 32,
    ensures
        k@ == session_key(secret@, public@),
        k@.len() == 32,
{
    let shared = x25519_shared_secret(secret, public);
    let mut material = blake2b_32(shared.as_slice());
    let mut label: Vec<u8> = vec![
        67u8, 79, 78, 78, 69, 67, 84, 45, 64, 45, 50, 48, 50, 54, 45, 72, 83, 45, 64, 45, 67, 65,
        84, 90,
    ];
    assert(label@ == key_label());
    material.append(&mut label);
    blake2b_32(material.as_slice())
}

/// Encrypts `plaintext` under `key` and `nonce` with ChaCha20-Poly1305; refuses
/// a plaintext longer than the cipher's keystream allows.
pub fn seal(key: &[u8], nonce: &[u8], plaintext: &[u8]) -> (r: Option<Vec<u8>>)
    requires
        key@.len() == 32,
        nonce@.len() == 12,
    ensures
        r is Some <==> sealable(plaintext@.len()),
        plaintext@.len() <= 274877906816 ==> r is Some,
        r matches Some(c) ==> c@ == chacha20poly1305_seal(key@, nonce@, plaintext@) && c@.len()
            == plaintext@.len() + 16,
{
    let len: u64 = plaintext.len() as u64;
    if len > 64 * (u32::MAX as u64 - 1) {
        return None;
    }
    match chacha_seal(key, nonce, plaintext) {
        Ok(c) => Some(c),
        Err(_) => None,
    }
}

/// The text of our private key: from `env` when the caller gave it, else
/// from the process environment.
pub open spec fn private_key_text(env: Option<EnvValues>, vars: EnvVars) -> Option<Seq<char>> {
    match env {
        Some(e) => Some(e.private_key@),
        None => opt_view(vars.private_key),
    }
}

/// The text of the server's public key: from `env` when the caller gave it,
/// else from the process environment.
pub open spec fn server_key_text(env: Option<EnvValues>, vars: EnvVars) -> Option<Seq<char>> {
    match env {
        Some(e) => Some(e.server_public_key@),
        None => opt_view(vars.server_public_key),
    }
}

/// Our private key and the server's public key as bytes, when both are set,
/// both decode as base64 and both are 32 bytes long.
pub open spec fn decoded_keys(env: Option<EnvValues>, vars: EnvVars) -> Option<(Seq<u8>, Seq<u8>)> {
    match (private_key_text(env, vars), server_key_text(env, vars)) {
        (Some(p), Some(s)) => match (b64_decode_lenient(p), b64_decode_lenient(s)) {
            (Some(a), Some(b)) => if a.len() == 32 && b.len() == 32 {
                Some((a, b))
            } else {
                None
            },
            _ => None,
        },
        _ => None,
    }
}

/// `e` is the error for the first thing wrong with the keys, checked in this
/// order: private key unset, server key unset, private key not base64,
/// server key not base64, private key not 32 bytes, server key not 32 bytes.
pub open spec fn key_error(env: Option<EnvValues>, vars: EnvVars, e: CatzError) -> bool {
    let p = private_key_text(env, vars);
    let s = server_key_text(env, vars);
    if p is None {
        is_missing_env(e, "PRIVATE_KEY"@)
    } else if s is None {
        is_missing_env(e, "SERVER_PUBLIC_KEY"@)
    } else if b64_decode_lenient(p->0) is None {
        e is Base64
    } else if b64_decode_lenient(s->0) is None {
        e is Base64
    } else if b64_decode_lenient(p->0)->0.len() != 32 {
        e matches CatzError::InvalidKeyLength(n) && n == b64_decode_lenient(p->0)->0.len()
    } else if b64_decode_lenient(s->0)->0.len() != 32 {
        e matches CatzError::InvalidKeyLength(n) && n == b64_decode_lenient(s->0)->0.len()
    } else {
        false
    }
}

/// The bytes that are sealed: the UTF-8 text of the payload object after
/// `insert("ts", ts)`.
pub open spec fn sealed_message(payload: Seq<(Seq<char>, JsonView)>, ts: u64) -> Seq<u8> {
    vstd::utf8::encode_utf8(object_json(with_timestamp(payload, ts)))
}

/// A message of `len` bytes can be sealed and its ciphertext written in base64.
pub open spec fn message_fits(len: nat) -> bool {
    sealable(len) && b64_encodable(len + 16)
}

/// `body` carries the base64 of `nonce` and the base64 of the ChaCha20-Poly1305
/// sealing of `message` under the session key of `secret` and `public`; the
/// sealed bytes are the message's length plus the 16-byte tag.
pub open spec fn sealed_body(
    body: EncryptedBody,
    secret: Seq<u8>,
    public: Seq<u8>,
    nonce: Seq<u8>,
    message: Seq<u8>,
) -> bool {
    &&& body.nonce@ == b64_encode(nonce)
    &&& body.ciphertext@ == b64_encode(
        chacha20poly1305_seal(session_key(secret, public), nonce, message),
    )
    &&& chacha20poly1305_seal(session_key(secret, public), nonce, message).len() == message.len()
        + 16
}

/// Decodes a key text, failing as `b64_decode` does.
fn decode_key(text: &String) -> (r: Result<Vec<u8>, CatzError>)
    ensures
        r matches Ok(v) ==> b64_decode_lenient(text@) == Some(v@),
        r is Err ==> (b64_decode_lenient(text@) is None && r matches Err(CatzError::Base64(_))),
{
    b64_decode(text.as_str())
}

/// Finds, decodes and checks our private key and the server's public key.
pub fn load_keys(env: &Option<EnvValues>, vars: &EnvVars) -> (r: Result<(Vec<u8>, Vec<u8>), CatzError>)
    ensures
        decoded_keys(*env, *vars) matches Some(k) ==> (r matches Ok(p) && p.0@ == k.0 && p.1@
            == k.1),
        decoded_keys(*env, *vars) is None ==> (r matches Err(e) && key_error(*env, *vars, e)),
{
    let private_text = match env {
        Some(e) => &e.private_key,
        None => match &vars.private_key {
            Some(t) => t,
            None => {
                return Err(CatzError::MissingEnv(String::from_str("PRIVATE_KEY")));
            },
        },
    };
    let server_text = match env {
        Some(e) => &e.server_public_key,
        None => match &vars.server_public_key {
            Some(t) => t,
            None => {
                return Err(CatzError::MissingEnv(String::from_str("SERVER_PUBLIC_KEY")));
            },
        },
    };
    let secret = decode_key(private_text)?;
    let public = decode_key(server_text)?;
    if secret.len() != 32 {
        return Err(CatzError::InvalidKeyLength(secret.len()));
    }
    if public.len() != 32 {
        return Err(CatzError::InvalidKeyLength(public.len()));
    }
    Ok((secret, public))
}

/// Seals `payload`, stamped with `ts`, under the session key of `secret` and
/// `public` with `nonce`, and writes nonce and ciphertext in base64. Fails
/// with `EncryptionFailed` when the message is too long for the cipher.
pub fn seal_payload(payload: &JsonObject, secret: &[u8], public: &[u8], ts: u64, nonce: &[u8]) -> (r:
    Result<EncryptedBody, CatzError>)
    requires
        secret@.len() == 32,
        public@.len() == 32,
        nonce@.len() == 12,
    ensures
        ({
            let m = sealed_message(object_view(payload.entries_view()), ts);
            &&& message_fits(m.len()) ==> (r matches Ok(b) && sealed_body(b, secret@, public@, nonce@, m))
            &&& !message_fits(m.len()) ==> r matches Err(CatzError::EncryptionFailed)
        }),
{
    let key = derive_key(secret, public);
    let message = message_json(payload, ts)?;
    let bytes = message.as_str().as_bytes();
    match seal(key.as_slice(), nonce, bytes) {
        Some(ciphertext) => {
            if ciphertext.len() > usize::MAX / 4 * 3 {
                return Err(CatzError::EncryptionFailed);
            }
            Ok(
                EncryptedBody {
                    nonce: b64_encode_bytes(nonce),
                    ciphertext: b64_encode_bytes(ciphertext.as_slice()),
                },
            )
        },
        None => Err(CatzError::EncryptionFailed),
    }
}

/// Seals `payload` for the server: the keys come from `env`, or from the
/// process environment when `env` is `None`; the payload is stamped with the
/// current time in milliseconds as `ts` and sealed with a fresh random nonce.
///
/// The contract states the result for some timestamp and some 12-byte nonce:
/// it fixes neither the timestamp's value (the clock's) nor the nonce's
/// freshness (the random generator's). [`seal_payload`] states the result for
/// a given timestamp and nonce exactly.
pub fn encrypt(payload: &JsonObject, env: Option<EnvValues>, vars: &EnvVars) -> (r: Result<
    EncryptedBody,
    CatzError,
>)
    ensures
        decoded_keys(env, *vars) is None ==> (r matches Err(e) && key_error(env, *vars, e)),
        decoded_keys(env, *vars) matches Some(k) ==> {
            let fields = object_view(payload.entries_view());
            &&& r matches Ok(b) ==> exists|ts: u64, n: Seq<u8>|
                n.len() == 12 && #[trigger] sealed_body(b, k.0, k.1, n, sealed_message(fields, ts))
            &&& r is Err ==> (r matches Err(CatzError::EncryptionFailed) && exists|ts: u64|
                !message_fits(#[trigger] sealed_message(fields, ts).len()))
            &&& (forall|ts: u64| message_fits(#[trigger] sealed_message(fields, ts).len())) ==> r is Ok
        },
{
    let (secret, public) = load_keys(&env, vars)?;
    let ts = now_ms();
    let nonce = random_nonce();
    let r = seal_payload(payload, secret.as_slice(), public.as_slice(), ts, nonce.as_slice());
    proof {
        let fields = object_view(payload.entries_view());
        if r is Ok {
            assert(sealed_body(r->Ok_0, secret@, public@, nonce@, sealed_message(fields, ts)));
        } else {
            assert(!message_fits(sealed_message(fields, ts).len()));
        }
    }
    r
}

/// Law: ChaCha20-Poly1305 seals every plaintext of up to 274877906816 bytes
/// (64 bytes times `u32::MAX - 1` blocks) and no longer one; every message of
/// up to 2^31 - 1 bytes can be sealed and its ciphertext written in base64,
/// on 32-bit and 64-bit targets alike.
pub proof fn lemma_sealing_limit(n: nat)
    ensures
        sealable(n) <==> n <= 274877906816,
        n <= 0x7fff_ffff ==> message_fits(n),
{
}

/// Law: when the caller gives the credentials, the key variables of the
/// process play no part: which keys are used, and which key error is
/// reported, are the same whatever the process environment holds.
pub proof fn lemma_given_keys_ignore_environment(e: EnvValues, v1: EnvVars, v2: EnvVars)
    ensures
        decoded_keys(Some(e), v1) == decoded_keys(Some(e), v2),
        forall|err: CatzError| key_error(Some(e), v1, err) == key_error(Some(e), v2, err),
{
}

} // verus!
