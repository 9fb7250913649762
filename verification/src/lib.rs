//! Validation, framing and sealing of messages for the CatzConnect API.
//!
//! A message is checked against the rules of its channel, message type and
//! template, written as a JSON object, stamped with the time, sealed with
//! ChaCha20-Poly1305 under a key agreed by X25519 and derived with BLAKE2b,
//! and wrapped in a request for `POST /sdk/send`.
use vstd::prelude::*;

pub mod b64;
pub mod crypto;
pub mod error;
pub mod http;
pub mod json;
pub mod payload;
pub mod text;
pub mod types;
pub mod validators;

use crate::b64::b64_encode;
use crate::crypto::{
    chacha20poly1305_seal, decoded_keys, key_error, load_keys, message_fits, now_ms, random_nonce,
    seal_payload, sealed_message, session_key,
};
use crate::error::{is_missing_env, is_validation, CatzError};
use crate::http::{
    api_key_text, base_url_for, body_json_of, byte_len, headers_view, request_headers, ApiRequest,
    HttpClient,
};
use crate::payload::{final_fields, final_payload, opt_view, payload_problem, verify_payload};
use crate::text::trim;
use crate::types::{EnvValues, EnvVars, SendInput};

verus! {

/// The API key is set and not blank.
pub open spec fn api_key_ok(env: Option<EnvValues>, vars: EnvVars) -> bool {
    api_key_text(env, vars) is Some && trim(api_key_text(env, vars)->0).len() > 0
}

/// `e` is the error for an unset or blank API key.
pub open spec fn api_key_error(env: Option<EnvValues>, vars: EnvVars, e: CatzError) -> bool {
    if api_key_text(env, vars) is None {
        is_missing_env(e, "API_KEY"@)
    } else {
        is_missing_env(e, "API_KEY is empty"@)
    }
}

/// The texts of a request: URL, headers and body.
pub open spec fn request_view(req: ApiRequest) -> (Seq<char>, Seq<(Seq<char>, Seq<char>)>, Seq<char>) {
    (req.url@, headers_view(req.headers@), req.body@)
}

/// The request that carries `input`, sealed with the timestamp `ts` and the
/// nonce `nonce` under the keys of `env`/`vars`, to the API of `vars`.
pub open spec fn expected_request(
    input: SendInput,
    env: Option<EnvValues>,
    vars: EnvVars,
    ts: u64,
    nonce: Seq<u8>,
) -> (Seq<char>, Seq<(Seq<char>, Seq<char>)>, Seq<char>) {
    let k = decoded_keys(env, vars)->0;
    let message = sealed_message(final_fields(input)->0, ts);
    let sealed = chacha20poly1305_seal(session_key(k.0, k.1), nonce, message);
    let body = body_json_of(b64_encode(nonce), b64_encode(sealed));
    (
        base_url_for(vars) + "/sdk/send"@,
        request_headers(trim(api_key_text(env, vars)->0), byte_len(body)),
        body,
    )
}

/// `r` is what `send` prepares for `input` with the timestamp `ts` and the
/// nonce `nonce`. The checks come in this order: the payload's rules, the
/// keys, the length of the sealed message, the API key; a message that
/// passes all of them becomes [`expected_request`].
pub open spec fn send_outcome(
    r: Result<ApiRequest, CatzError>,
    input: SendInput,
    env: Option<EnvValues>,
    vars: EnvVars,
    ts: u64,
    nonce: Seq<u8>,
) -> bool {
    if payload_problem(input) is Some {
        r matches Err(e) && is_validation(e, payload_problem(input)->0)
    } else if decoded_keys(env, vars) is None {
        r matches Err(e) && key_error(env, vars, e)
    } else if !message_fits(sealed_message(final_fields(input)->0, ts).len()) {
        r matches Err(CatzError::EncryptionFailed)
    } else if !api_key_ok(env, vars) {
        r matches Err(e) && api_key_error(env, vars, e)
    } else {
        r matches Ok(req) && request_view(req) == expected_request(input, env, vars, ts, nonce)
    }
}

/// Two errors report the same failure (the details of a base64 error aside).
pub open spec fn same_failure(x: CatzError, y: CatzError) -> bool {
    match (x, y) {
        (CatzError::MissingEnv(a), CatzError::MissingEnv(b)) => a@ == b@,
        (CatzError::InvalidKeyLength(a), CatzError::InvalidKeyLength(b)) => a == b,
        (CatzError::Base64(_), CatzError::Base64(_)) => true,
        (CatzError::EncryptionFailed, CatzError::EncryptionFailed) => true,
        (CatzError::Validation(a), CatzError::Validation(b)) => a@ == b@,
        _ => false,
    }
}

/// Law: with the credentials given by the caller, the key variables of the
/// process play no part. For the same input, timestamp and nonce, two process
/// environments that agree on `CATZCONNECT_BASE_URL` lead to the same
/// outcome: the same request, or the same failure.
pub proof fn lemma_given_credentials_same_request(
    input: SendInput,
    e: EnvValues,
    v1: EnvVars,
    v2: EnvVars,
    ts: u64,
    nonce: Seq<u8>,
    r1: Result<ApiRequest, CatzError>,
    r2: Result<ApiRequest, CatzError>,
)
    requires
        opt_view(v1.base_url) == opt_view(v2.base_url),
        send_outcome(r1, input, Some(e), v1, ts, nonce),
        send_outcome(r2, input, Some(e), v2, ts, nonce),
    ensures
        r1 is Ok <==> r2 is Ok,
        r1 matches Ok(a) ==> (r2 matches Ok(b) && request_view(a) == request_view(b)),
        r1 matches Err(x) ==> (r2 matches Err(y) && same_failure(x, y)),
{
    assert(base_url_for(v1) == base_url_for(v2));
}

/// The client of the CatzConnect API.
pub struct CatzConnect;

impl CatzConnect {
    /// Everything `send` does before the network, for a given timestamp `ts`
    /// and nonce: validates `input`, builds its JSON object, seals it (keys
    /// from `env`, or from the process environment `vars` when `env` is
    /// `None`), settles the client settings and makes the request for
    /// `POST /sdk/send`, as [`send_outcome`] states.
    pub fn prepare_send_at(
        input: SendInput,
        env: Option<EnvValues>,
        vars: &EnvVars,
        ts: u64,
        nonce: &[u8],
    ) -> (r: Result<ApiRequest, CatzError>)
        requires
            nonce@.len() == 12,
        ensures
            send_outcome(r, input, env, *vars, ts, nonce@),
    {
        let ghost spec_input = input;
        verify_payload(&input)?;
        let payload = final_payload(input)?;
        let (secret, public) = load_keys(&env, vars)?;
        let encrypted = seal_payload(&payload, secret.as_slice(), public.as_slice(), ts, nonce)?;
        let client = HttpClient::from_env(env, vars)?;
        let req = client.request("/sdk/send", &encrypted);
        proof {
            assert(request_view(req->Ok_0) == expected_request(spec_input, env, *vars, ts, nonce@));
        }
        req
    }

    /// Everything `send` does before the network, with the current time in
    /// milliseconds as the timestamp and a fresh random nonce. The contract
    /// states the outcome for some timestamp and some 12-byte nonce: it fixes
    /// neither the timestamp's value nor the nonce's freshness.
    pub fn prepare_send(input: SendInput, env: Option<EnvValues>, vars: &EnvVars) -> (r: Result<
        ApiRequest,
        CatzError,
    >)
        ensures
            exists|ts: u64, n: Seq<u8>|
                n.len() == 12 && #[trigger] send_outcome(r, input, env, *vars, ts, n),
    {
        let ts = now_ms();
        let nonce = random_nonce();
        Self::prepare_send_at(input, env, vars, ts, nonce.as_slice())
    }
}

} // verus!
