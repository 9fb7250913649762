# catzconnect

A verified core for the CatzConnect SDK: it checks a message against the
rules of its channel, message type and template, writes it as a JSON object,
stamps it with the time, seals it with ChaCha20-Poly1305 under a key agreed
with X25519 and derived with BLAKE2b-256, and prepares the `POST /sdk/send`
request that carries it.

- `src/` — the library, verified with Verus:
  - `payload.rs` — the validation rules and the JSON object of a message;
  - `validators.rs` — email addresses and WhatsApp phone numbers;
  - `json.rs` — the JSON text (escaping by `serde_json`, framing here);
  - `b64.rs` — lenient base64 for keys, standard base64 for the output;
  - `crypto.rs` — key loading, key derivation and sealing;
  - `http.rs` — client settings, the request and the reading of the reply;
  - `types.rs`, `error.rs`, `text.rs` — values, errors and string helpers.
    The `data` of a push notification is an `OrderedMap` (`DataMap`) rather
    than a `HashMap`: its keys are distinct, as the type's invariant, and it
    keeps insertion order, so the JSON text of a message is a function of
    its content and not of a hash map's walking order.
- `app/` — the environment variables, the HTTPS transport (hyper) and the
  serde and `Display` forms of the library's types.
- `tests/` — tests against concrete values, including opening a sealed
  message with the server's key.
