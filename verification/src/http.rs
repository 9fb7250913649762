//! What goes over the wire: the client settings, the request for a sealed
//! message and the reading of the API's reply. The transport itself is the
//! caller's.
use vstd::prelude::*;

use crate::error::{is_missing_env, CatzError};
use crate::json::{decimal, json_quote, push_decimal};
use crate::payload::opt_view;
use crate::text::{concat_str, push_char, string_from_chars, trim, trimmed_chars};
use crate::types::{EncryptedBody, EnvValues, EnvVars};

verus! {

/// The API used when `CATZCONNECT_BASE_URL` is unset.
pub open spec fn default_base_url() -> Seq<char> {
    "https://api.catzconnect.com"@
}

/// `s` without the slashes at its end.
pub open spec fn trim_end_slashes(s: Seq<char>) -> Seq<char>
    decreases s.len(),
{
    if s.len() > 0 && s.last() == '/' {
        trim_end_slashes(s.drop_last())
    } else {
        s
    }
}

/// The text of the API key before trimming: from `env` when the caller gave
/// it, else from the process environment.
pub open spec fn api_key_text(env: Option<EnvValues>, vars: EnvVars) -> Option<Seq<char>> {
    match env {
        Some(e) => Some(e.api_key@),
        None => opt_view(vars.api_key),
    }
}

/// The base URL: `CATZCONNECT_BASE_URL` trimmed and without trailing slashes,
/// or the default.
pub open spec fn base_url_for(vars: EnvVars) -> Seq<char> {
    match vars.base_url {
        Some(u) => trim_end_slashes(trim(u@)),
        None => default_base_url(),
    }
}

/// A JSON value as `serde_json` reads it.
#[verifier::external_type_specification]
#[verifier::external_body]
pub struct ExValue(serde_json::Value);

/// The byte strings `serde_json::from_slice` reads as one JSON value (with
/// white space around it and nothing else).
pub uninterp spec fn json_accepts(b: Seq<u8>) -> bool;

/// `serde_json::from_slice::<Value>`. Claimed: whether the bytes are accepted
/// is a function of the bytes alone. Which value is read, and which error is
/// reported, are left unstated.
#[verifier::external_body]
fn parse_json(b: &[u8]) -> (r: Result<serde_json::Value, serde_json::Error>)
    ensures
        r is Ok <==> json_accepts(b@),
{
    serde_json::from_slice::<serde_json::Value>(b)
}

/// The settings of a client of the API.
#[derive(Debug)]
pub struct HttpClient {
    base_url: String,
    api_key: String,
}

/// A POST request to make: its URL, headers and JSON body.
#[derive(Debug)]
pub struct ApiRequest {
    pub url: String,
    pub headers: Vec<(String, String)>,
    pub body: String,
}

/// The JSON text of a sealed message.
pub open spec fn body_json(body: EncryptedBody) -> Seq<char> {
    body_json_of(body.nonce@, body.ciphertext@)
}

/// The JSON text `{"nonce":…,"ciphertext":…}` of the two base64 texts.
pub open spec fn body_json_of(nonce: Seq<char>, ciphertext: Seq<char>) -> Seq<char> {
    seq!['{'] + json_quote("nonce"@) + seq![':'] + json_quote(nonce) + seq![','] + json_quote(
        "ciphertext"@,
    ) + seq![':'] + json_quote(ciphertext) + seq!['}']
}

/// The texts of a list of header pairs.
pub open spec fn headers_view(h: Seq<(String, String)>) -> Seq<(Seq<char>, Seq<char>)> {
    Seq::new(h.len(), |i: int| (h[i].0@, h[i].1@))
}

/// The byte length of `s` as `str::len` reports it.
pub open spec fn byte_len(s: Seq<char>) -> nat {
    (vstd::utf8::encode_utf8(s).len() as usize) as nat
}

/// The headers of a request with a JSON body of `body_len` bytes.
pub open spec fn request_headers(api_key: Seq<char>, body_len: nat) -> Seq<(Seq<char>, Seq<char>)> {
    seq![
        ("Content-Type"@, "application/json"@),
        ("Content-Length"@, decimal(body_len)),
        ("Authorization"@, "Bearer "@ + api_key),
        ("User-Agent"@, "catzconnect-rust-sdk/1.0.0"@),
        ("Accept"@, "application/json"@),
    ]
}

/// `req` posts `body` to `path` under `base_url`, authorised by `api_key`.
pub open spec fn is_request_for(
    req: ApiRequest,
    base_url: Seq<char>,
    api_key: Seq<char>,
    path: Seq<char>,
    body: EncryptedBody,
) -> bool {
    &&& req.url@ == base_url + path
    &&& req.body@ == body_json(body)
    &&& headers_view(req.headers@) == request_headers(api_key, byte_len(body_json(body)))
}

/// A status in 200..=299.
pub open spec fn is_success(status: u16) -> bool {
    200 <= status <= 299
}

/// The text `String::from_utf8_lossy` makes of `b`.
pub uninterp spec fn utf8_lossy(b: Seq<u8>) -> Seq<char>;

/// `String::from_utf8_lossy`. Claimed: a function of the bytes alone, and the
/// decoded text itself when the bytes are valid UTF-8 (invalid sequences become
/// U+FFFD, which is left unstated).
#[verifier::external_body]
fn lossy_text(b: &[u8]) -> (s: String)
    ensures
        s@ == utf8_lossy(b@),
        vstd::utf8::valid_utf8(b@) ==> s@ == vstd::utf8::decode_utf8(b@),
{
    String::from_utf8_lossy(b).into_owned()
}

/// The string made of `s` without its trailing slashes.
fn without_trailing_slashes(s: Vec<char>) -> (r: String)
    ensures
        r@ == trim_end_slashes(s@),
{
    let mut k: usize = s.len();
    assert(s@.subrange(0, k as int) == s@);
    while k > 0 && s[k - 1] == '/'
        invariant
            k <= s.len(),
            trim_end_slashes(s@) == trim_end_slashes(s@.subrange(0, k as int)),
        decreases k,
    {
        assert(s@.subrange(0, k as int).drop_last() == s@.subrange(0, k - 1));
        k = k - 1;
    }
    let mut v: Vec<char> = Vec::new();
    let mut i: usize = 0;
    while i < k
        invariant
            i <= k <= s.len(),
            v@ == s@.subrange(0, i as int),
        decreases k - i,
    {
        v.push(s[i]);
        i = i + 1;
    }
    string_from_chars(&v)
}

impl HttpClient {
    pub closed spec fn base_url_view(self) -> Seq<char> {
        self.base_url@
    }

    pub closed spec fn api_key_view(self) -> Seq<char> {
        self.api_key@
    }

    /// Settles the client's settings: the API key from `env` or else from
    /// `CATZCONNECT_API_KEY`, trimmed and required to be non-empty; the base
    /// URL from `CATZCONNECT_BASE_URL`, trimmed and without trailing slashes,
    /// or `https://api.catzconnect.com`.
    pub fn from_env(env: Option<EnvValues>, vars: &EnvVars) -> (r: Result<HttpClient, CatzError>)
        ensures
            api_key_text(env, *vars) is None ==> (r matches Err(e) && is_missing_env(
                e,
                "API_KEY"@,
            )),
            api_key_text(env, *vars) is Some && trim(api_key_text(env, *vars)->0).len() == 0 ==> (
            r matches Err(e) && is_missing_env(e, "API_KEY is empty"@)),
            api_key_text(env, *vars) is Some && trim(api_key_text(env, *vars)->0).len() > 0 ==> (
            r matches Ok(c) && c.api_key_view() == trim(api_key_text(env, *vars)->0)
                && c.base_url_view() == base_url_for(*vars)),
    {
        let raw = match &env {
            Some(e) => &e.api_key,
            None => match &vars.api_key {
                Some(k) => k,
                None => {
                    return Err(CatzError::MissingEnv(String::from_str("API_KEY")));
                },
            },
        };
        let key = trimmed_chars(raw.as_str());
        if key.len() == 0 {
            return Err(CatzError::MissingEnv(String::from_str("API_KEY is empty")));
        }
        let base_url = match &vars.base_url {
            Some(u) => without_trailing_slashes(trimmed_chars(u.as_str())),
            None => String::from_str("https://api.catzconnect.com"),
        };
        Ok(HttpClient { base_url, api_key: string_from_chars(&key) })
    }

    /// The base URL requests go to.
    pub fn base_url(&self) -> (s: &str)
        ensures
            s@ == self.base_url_view(),
    {
        self.base_url.as_str()
    }

    /// The request that posts `body` to `path`: JSON with the fields `nonce`
    /// and `ciphertext`, a bearer token, and the SDK's user agent.
    pub fn request(&self, path: &str, body: &EncryptedBody) -> (r: Result<ApiRequest, CatzError>)
        ensures
            r matches Ok(req) && is_request_for(
                req,
                self.base_url_view(),
                self.api_key_view(),
                path@,
                *body,
            ),
    {
        let url = concat_str(self.base_url.as_str(), path);
        let mut json = String::new();
        push_char(&mut json, '{');
        json.append(quoted("nonce")?.as_str());
        push_char(&mut json, ':');
        json.append(quoted(body.nonce.as_str())?.as_str());
        push_char(&mut json, ',');
        json.append(quoted("ciphertext")?.as_str());
        push_char(&mut json, ':');
        json.append(quoted(body.ciphertext.as_str())?.as_str());
        push_char(&mut json, '}');
        assert(json@ =~= body_json(*body));
        let body_len = json.as_str().len();
        let mut length = String::new();
        push_decimal(&mut length, body_len as u64);
        let mut headers: Vec<(String, String)> = Vec::new();
        headers.push(
            (String::from_str("Content-Type"), String::from_str("application/json")),
        );
        headers.push((String::from_str("Content-Length"), length));
        headers.push(
            (String::from_str("Authorization"), concat_str("Bearer ", self.api_key.as_str())),
        );
        headers.push(
            (String::from_str("User-Agent"), String::from_str("catzconnect-rust-sdk/1.0.0")),
        );
        headers.push((String::from_str("Accept"), String::from_str("application/json")));
        assert(headers_view(headers@) == request_headers(self.api_key_view(), byte_len(json@)));
        Ok(ApiRequest { url, headers, body: json })
    }

    /// Reads the API's reply: a status in 200..=299 hands back the body for the
    /// caller to parse as JSON; any other status fails with `ApiError`, which
    /// carries the status and the body read as UTF-8.
    pub fn read_response(status: u16, body: Vec<u8>) -> (r: Result<Vec<u8>, CatzError>)
        ensures
            is_success(status) ==> (r matches Ok(b) && b@ == body@),
            !is_success(status) ==> (r matches Err(CatzError::ApiError { status: s, body: t }) && s
                == status && t@ == utf8_lossy(body@)),
    {
        if 200 <= status && status <= 299 {
            Ok(body)
        } else {
            Err(CatzError::ApiError { status, body: lossy_text(body.as_slice()) })
        }
    }

    /// Reads the API's reply as JSON: a status in 200..=299 gives the body
    /// parsed as a JSON value, or `Json` when it is not JSON; any other status
    /// fails with `ApiError`, which carries the status and the body read as
    /// UTF-8.
    pub fn read_reply(status: u16, body: Vec<u8>) -> (r: Result<serde_json::Value, CatzError>)
        ensures
            !is_success(status) ==> (r matches Err(CatzError::ApiError { status: s, body: t }) && s
                == status && t@ == utf8_lossy(body@)),
            is_success(status) ==> (r is Ok <==> json_accepts(body@)),
            is_success(status) && r is Err ==> r matches Err(CatzError::Json(_)),
    {
        let bytes = Self::read_response(status, body)?;
        match parse_json(bytes.as_slice()) {
            Ok(v) => Ok(v),
            Err(e) => Err(CatzError::Json(e)),
        }
    }
}

/// The JSON string literal of `s`.
fn quoted(s: &str) -> (r: Result<String, CatzError>)
    ensures
        r matches Ok(t) && t@ == json_quote(s@),
{
    let mut t = String::new();
    crate::json::push_quoted(&mut t, s)?;
    Ok(t)
}

} // verus!
