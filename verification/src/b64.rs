//! Base64 as the keys and the sealed message use it: the standard alphabet
//! with `=` padding, read leniently (URL-safe letters, missing padding and
//! surrounding white space are accepted).
use vstd::prelude::*;

use base64::engine::general_purpose::STANDARD;
use base64::Engine;

use crate::error::CatzError;
use crate::text::{all_ws, is_ws, push_char, string_from_chars, trim, trim_end, trim_start, trimmed_chars};

verus! {

/// The symbol of the standard base64 alphabet for the six-bit value `i`.
pub open spec fn b64_symbol(i: int) -> char {
    if i < 26 {
        (65 + i) as char
    } else if i < 52 {
        (97 + i - 26) as char
    } else if i < 62 {
        (48 + i - 52) as char
    } else if i == 62 {
        '+'
    } else {
        '/'
    }
}

/// The standard base64 encoding of `b` (RFC 4648, section 4): each group of
/// three bytes becomes four symbols, and a last group of one or two bytes is
/// padded with `=` to four symbols.
pub open spec fn b64_encode(b: Seq<u8>) -> Seq<char>
    decreases b.len(),
{
    if b.len() == 0 {
        seq![]
    } else {
        let b0 = b[0] as int;
        let b1 = if b.len() > 1 {
            b[1] as int
        } else {
            0
        };
        let b2 = if b.len() > 2 {
            b[2] as int
        } else {
            0
        };
        let c0 = b64_symbol(b0 / 4);
        let c1 = b64_symbol((b0 % 4) * 16 + b1 / 16);
        let c2 = b64_symbol((b1 % 16) * 4 + b2 / 64);
        let c3 = b64_symbol(b2 % 64);
        if b.len() == 1 {
            seq![c0, c1, '=', '=']
        } else if b.len() == 2 {
            seq![c0, c1, c2, '=']
        } else {
            seq![c0, c1, c2, c3] + b64_encode(b.skip(3))
        }
    }
}

/// The bytes whose standard encoding is exactly `s`, if there are any.
pub open spec fn b64_decode_strict(s: Seq<char>) -> Option<Seq<u8>> {
    if exists|b: Seq<u8>| #[trigger] b64_encode(b) == s {
        Some(choose|b: Seq<u8>| #[trigger] b64_encode(b) == s)
    } else {
        None
    }
}

/// `s` with the URL-safe symbols `-` and `_` read as `+` and `/`.
pub open spec fn url_safe_to_standard(s: Seq<char>) -> Seq<char> {
    s.map_values(
        |c: char|
            if c == '-' {
                '+'
            } else if c == '_' {
                '/'
            } else {
                c
            },
    )
}

/// The text of a key once white space around it is removed and URL-safe
/// symbols are read as standard ones.
pub open spec fn b64_normalize(s: Seq<char>) -> Seq<char> {
    url_safe_to_standard(trim(s))
}

/// The number of `=` that bring `n` bytes to a multiple of four.
pub open spec fn padding_needed(n: nat) -> nat {
    ((4 - n % 4) % 4) as nat
}

/// `s` followed by the `=` that bring its length to a multiple of four.
pub open spec fn pad_to_quads(s: Seq<char>) -> Seq<char> {
    s + Seq::new(padding_needed(s.len()), |i: int| '=')
}

/// What a key text decodes to: the bytes of its normalized form if that is a
/// standard encoding, else the bytes of the normalized form padded with `=`.
pub open spec fn b64_decode_lenient(s: Seq<char>) -> Option<Seq<u8>> {
    let n = b64_normalize(s);
    match b64_decode_strict(n) {
        Some(b) => Some(b),
        None => b64_decode_strict(pad_to_quads(n)),
    }
}

/// Every standard encoding is ASCII text.
pub proof fn lemma_encoding_is_ascii(b: Seq<u8>)
    ensures
        vstd::utf8::is_ascii_chars(b64_encode(b)),
    decreases b.len(),
{
    if b.len() > 2 {
        lemma_encoding_is_ascii(b.skip(3));
        let head = b64_encode(b).take(4);
        assert(b64_encode(b) == head + b64_encode(b.skip(3)));
        assert(vstd::utf8::is_ascii_chars(head));
        vstd::utf8::is_ascii_chars_concat(b64_encode(b), head, b64_encode(b.skip(3)));
    }
}

/// A text holding a character beyond ASCII is no standard encoding.
pub proof fn lemma_non_ascii_is_no_encoding(s: Seq<char>)
    requires
        !vstd::utf8::is_ascii_chars(s),
    ensures
        b64_decode_strict(s) is None,
{
    assert forall|b: Seq<u8>| #[trigger] b64_encode(b) != s by {
        lemma_encoding_is_ascii(b);
    }
}

/// The largest input that `Engine::encode` accepts without its output length
/// overflowing `usize`.
pub open spec fn b64_encodable(len: nat) -> bool {
    len <= usize::MAX / 4 * 3
}

/// `base64`'s `STANDARD.encode`: the standard alphabet with `=` padding.
/// Claimed: the result is [`b64_encode`] of the input. `encode` panics when the
/// output length overflows `usize`, which `requires` rules out.
#[verifier::external_body]
fn standard_encode(b: &[u8]) -> (s: String)
    requires
        b64_encodable(b@.len()),
    ensures
        s@ == b64_encode(b@),
{
    STANDARD.encode(b)
}

/// `base64`'s `STANDARD.decode` (standard alphabet, canonical padding, no
/// stray trailing bits). Claimed: it succeeds exactly on the standard
/// encodings of byte strings and then returns those bytes.
#[verifier::external_body]
fn standard_decode(s: &str) -> (r: Result<Vec<u8>, base64::DecodeError>)
    ensures
        r matches Ok(v) ==> (b64_encode(v@) == s@ && forall|b: Seq<u8>| #[trigger]
            b64_encode(b) == s@ ==> b == v@),
        r is Ok || forall|b: Seq<u8>| #[trigger] b64_encode(b) != s@,
{
    STANDARD.decode(s)
}

/// The standard base64 text of `b`.
pub fn b64_encode_bytes(b: &[u8]) -> (s: String)
    requires
        b64_encodable(b@.len()),
    ensures
        s@ == b64_encode(b@),
{
    standard_encode(b)
}

/// Decodes `s` strictly: it must be the standard encoding of some bytes.
fn decode_strict(s: &str) -> (r: Result<Vec<u8>, base64::DecodeError>)
    ensures
        r matches Ok(v) ==> b64_decode_strict(s@) == Some(v@),
        r is Err ==> b64_decode_strict(s@) is None,
{
    let r = standard_decode(s);
    proof {
        if exists|b: Seq<u8>| #[trigger] b64_encode(b) == s@ {
            let b = choose|b: Seq<u8>| #[trigger] b64_encode(b) == s@;
            assert(b64_encode(b) == s@);
        }
        if r is Ok {
            assert(b64_encode(r->Ok_0@) == s@);
        }
    }
    r
}

/// Decodes a key written in base64: white space around it is ignored, the
/// URL-safe symbols `-` and `_` stand for `+` and `/`, and missing `=` padding
/// is supplied when the text does not decode as it is.
pub fn b64_decode(s: &str) -> (r: Result<Vec<u8>, CatzError>)
    ensures
        r matches Ok(v) ==> b64_decode_lenient(s@) == Some(v@),
        r is Err ==> (b64_decode_lenient(s@) is None && r matches Err(CatzError::Base64(_))),
{
    let t = trimmed_chars(s);
    let mut n: Vec<char> = Vec::new();
    let mut i: usize = 0;
    while i < t.len()
        invariant
            i <= t.len(),
            t@ == trim(s@),
            n@ == url_safe_to_standard(t@.take(i as int)),
        decreases t.len() - i,
    {
        let c = t[i];
        let d = if c == '-' {
            '+'
        } else if c == '_' {
            '/'
        } else {
            c
        };
        n.push(d);
        i = i + 1;
        assert(url_safe_to_standard(t@.take(i as int)) == url_safe_to_standard(
            t@.take((i - 1) as int),
        ).push(d));
    }
    assert(t@.take(t.len() as int) == t@);
    let normalised = string_from_chars(&n);
    match decode_strict(normalised.as_str()) {
        Ok(v) => Ok(v),
        Err(_) => {
            let byte_len = normalised.as_str().len();
            let pad = (4 - byte_len % 4) % 4;
            let mut padded = normalised;
            let ghost base = padded@;
            let mut k: usize = 0;
            while k < pad
                invariant
                    k <= pad < 4,
                    padded@ == base + Seq::new(k as nat, |j: int| '='),
                decreases pad - k,
            {
                push_char(&mut padded, '=');
                k = k + 1;
                assert(padded@ == base + Seq::new(k as nat, |j: int| '='));
            }
            proof {
                if vstd::utf8::is_ascii_chars(base) {
                    vstd::utf8::is_ascii_chars_encode_utf8(base);
                    assert(padded@ == pad_to_quads(base));
                } else {
                    let i = choose|i: int|
                        0 <= i < base.len() && !('\0' <= #[trigger] base[i] <= '\u{7f}');
                    assert(pad_to_quads(base)[i] == base[i]);
                    assert(padded@[i] == base[i]);
                    lemma_non_ascii_is_no_encoding(pad_to_quads(base));
                    lemma_non_ascii_is_no_encoding(padded@);
                }
            }
            match decode_strict(padded.as_str()) {
                Ok(v) => Ok(v),
                Err(e) => Err(CatzError::Base64(e)),
            }
        },
    }
}

/// `s` written in the URL-safe alphabet: `+` as `-` and `/` as `_`.
pub open spec fn standard_to_url_safe(s: Seq<char>) -> Seq<char> {
    s.map_values(
        |c: char|
            if c == '+' {
                '-'
            } else if c == '/' {
                '_'
            } else {
                c
            },
    )
}

/// `s` without the `=` at its end.
pub open spec fn strip_padding(s: Seq<char>) -> Seq<char>
    decreases s.len(),
{
    if s.len() > 0 && s.last() == '=' {
        strip_padding(s.drop_last())
    } else {
        s
    }
}

/// A symbol of the alphabet proper: an ASCII letter or digit, `+` or `/`.
pub open spec fn is_symbol_char(c: char) -> bool {
    ||| 'A' <= c <= 'Z'
    ||| 'a' <= c <= 'z'
    ||| '0' <= c <= '9'
    ||| c == '+'
    ||| c == '/'
}

proof fn lemma_symbol(i: int)
    requires
        0 <= i < 64,
    ensures
        is_symbol_char(b64_symbol(i)),
        b64_symbol(i) as u32 == if i < 26 {
            65 + i
        } else if i < 52 {
            71 + i
        } else if i < 62 {
            i - 4
        } else if i == 62 {
            43
        } else {
            47
        },
{
}

proof fn lemma_symbol_injective(i: int, j: int)
    requires
        0 <= i < 64,
        0 <= j < 64,
        b64_symbol(i) == b64_symbol(j),
    ensures
        i == j,
{
    lemma_symbol(i);
    lemma_symbol(j);
}

/// The first four symbols of an encoding, for the first (up to) three bytes.
proof fn lemma_encode_head(b: Seq<u8>)
    requires
        b.len() > 0,
    ensures
        b64_encode(b).len() >= 4,
        b.len() > 3 ==> b64_encode(b) == b64_encode(b).take(4) + b64_encode(b.skip(3)),
        b.len() <= 3 ==> b64_encode(b).len() == 4,
        is_symbol_char(b64_encode(b)[0]),
        is_symbol_char(b64_encode(b)[1]),
        b.len() >= 2 ==> is_symbol_char(b64_encode(b)[2]),
        b.len() >= 3 ==> is_symbol_char(b64_encode(b)[3]),
        b.len() == 1 ==> b64_encode(b)[2] == '=' && b64_encode(b)[3] == '=',
        b.len() == 2 ==> b64_encode(b)[3] == '=',
{
    let b0 = b[0] as int;
    let b1 = if b.len() > 1 { b[1] as int } else { 0 };
    let b2 = if b.len() > 2 { b[2] as int } else { 0 };
    lemma_symbol(b0 / 4);
    lemma_symbol((b0 % 4) * 16 + b1 / 16);
    lemma_symbol((b1 % 16) * 4 + b2 / 64);
    lemma_symbol(b2 % 64);
}

/// An encoding has four symbols for every three bytes begun; its characters
/// are symbols, except for the one or two `=` that end it when the length of
/// the input is not a multiple of three.
pub proof fn lemma_encode_shape(b: Seq<u8>)
    ensures
        b64_encode(b).len() == 4 * ((b.len() + 2) / 3),
        forall|i: int|
            0 <= i < b64_encode(b).len() - padding_needed_for(b.len()) ==> is_symbol_char(
                #[trigger] b64_encode(b)[i],
            ),
        forall|i: int|
            b64_encode(b).len() - padding_needed_for(b.len()) <= i < b64_encode(b).len()
                ==> #[trigger] b64_encode(b)[i] == '=',
    decreases b.len(),
{
    let e = b64_encode(b);
    if b.len() > 0 {
        lemma_encode_head(b);
        if b.len() > 3 {
            lemma_encode_shape(b.skip(3));
            let rest = b64_encode(b.skip(3));
            assert forall|i: int| 0 <= i < e.len() - padding_needed_for(b.len()) implies is_symbol_char(
                #[trigger] e[i],
            ) by {
                if i >= 4 {
                    assert(e[i] == rest[i - 4]);
                }
            }
            assert forall|i: int|
                e.len() - padding_needed_for(b.len()) <= i < e.len() implies #[trigger] e[i]
                == '=' by {
                assert(e[i] == rest[i - 4]);
            }
        }
    }
}

/// The number of `=` that end the encoding of `n` bytes.
pub open spec fn padding_needed_for(n: nat) -> nat {
    if n % 3 == 0 {
        0
    } else {
        (3 - n % 3) as nat
    }
}

/// Two byte strings with the same standard encoding are equal.
pub proof fn lemma_encode_injective(a: Seq<u8>, b: Seq<u8>)
    requires
        b64_encode(a) == b64_encode(b),
    ensures
        a == b,
    decreases a.len(),
{
    lemma_encode_shape(a);
    lemma_encode_shape(b);
    let e = b64_encode(a);
    if a.len() == 0 || b.len() == 0 {
        return;
    }
    lemma_encode_head(a);
    lemma_encode_head(b);
    assert(a.len() <= 3 <==> b.len() <= 3);
    if a.len() <= 3 {
        assert(a.len() == b.len()) by {
            if a.len() == 1 && b.len() == 2 {
                assert(is_symbol_char(b64_encode(b)[2]));
            }
            if a.len() == 2 && b.len() == 1 {
                assert(is_symbol_char(b64_encode(a)[2]));
            }
            if a.len() == 2 && b.len() == 3 {
                assert(is_symbol_char(b64_encode(b)[3]));
            }
            if a.len() == 3 && b.len() == 2 {
                assert(is_symbol_char(b64_encode(a)[3]));
            }
            if a.len() == 1 && b.len() == 3 {
                assert(is_symbol_char(b64_encode(b)[3]));
            }
            if a.len() == 3 && b.len() == 1 {
                assert(is_symbol_char(b64_encode(a)[3]));
            }
        }
    }
    lemma_group_injective(a, b);
    if a.len() > 3 {
        assert(b64_encode(a.skip(3)) == b64_encode(b.skip(3))) by {
            assert(b64_encode(a.skip(3)) == e.skip(4));
            assert(b64_encode(b.skip(3)) == e.skip(4));
        }
        lemma_encode_injective(a.skip(3), b.skip(3));
        assert(a == a.take(3) + a.skip(3));
        assert(b == b.take(3) + b.skip(3));
    } else {
        assert(a == b);
    }
}

/// Equal first groups of symbols come from equal first bytes.
proof fn lemma_group_injective(a: Seq<u8>, b: Seq<u8>)
    requires
        a.len() > 0,
        b.len() > 0,
        (a.len() <= 3 || b.len() <= 3) ==> a.len() == b.len(),
        b64_encode(a).take(4) == b64_encode(b).take(4),
    ensures
        a[0] == b[0],
        a.len() > 1 ==> a[1] == b[1],
        a.len() > 2 ==> a[2] == b[2],
        a.len() > 3 ==> b.len() > 3,
{
    let ea = b64_encode(a);
    let eb = b64_encode(b);
    lemma_encode_head(a);
    lemma_encode_head(b);
    assert(ea[0] == eb[0] && ea[1] == eb[1] && ea[2] == eb[2] && ea[3] == eb[3]) by {
        assert(ea.take(4)[0] == eb.take(4)[0]);
        assert(ea.take(4)[1] == eb.take(4)[1]);
        assert(ea.take(4)[2] == eb.take(4)[2]);
        assert(ea.take(4)[3] == eb.take(4)[3]);
    }
    let a0 = a[0] as int;
    let a1 = if a.len() > 1 { a[1] as int } else { 0 };
    let a2 = if a.len() > 2 { a[2] as int } else { 0 };
    let b0 = b[0] as int;
    let b1 = if b.len() > 1 { b[1] as int } else { 0 };
    let b2 = if b.len() > 2 { b[2] as int } else { 0 };
    lemma_symbol_injective(a0 / 4, b0 / 4);
    lemma_symbol_injective((a0 % 4) * 16 + a1 / 16, (b0 % 4) * 16 + b1 / 16);
    if a.len() > 1 {
        lemma_symbol_injective((a1 % 16) * 4 + a2 / 64, (b1 % 16) * 4 + b2 / 64);
    }
    if a.len() > 2 {
        lemma_symbol_injective(a2 % 64, b2 % 64);
    }
}

proof fn lemma_trim_start_prefix(w: Seq<char>, x: Seq<char>)
    requires
        all_ws(w),
        x.len() == 0 || !is_ws(x[0]),
    ensures
        trim_start(w + x) == x,
    decreases w.len(),
{
    if w.len() > 0 {
        assert((w + x)[0] == w[0]);
        assert((w + x).drop_first() == w.drop_first() + x);
        lemma_trim_start_prefix(w.drop_first(), x);
    } else {
        assert(w + x == x);
    }
}

proof fn lemma_trim_end_suffix(x: Seq<char>, w: Seq<char>)
    requires
        all_ws(w),
        x.len() == 0 || !is_ws(x.last()),
    ensures
        trim_end(x + w) == x,
    decreases w.len(),
{
    if w.len() > 0 {
        assert((x + w).last() == w.last());
        assert((x + w).drop_last() == x + w.drop_last());
        lemma_trim_end_suffix(x, w.drop_last());
    } else {
        assert(x + w == x);
    }
}

/// White space around a text without white space at its ends is trimmed away.
proof fn lemma_trim_around(before: Seq<char>, t: Seq<char>, after: Seq<char>)
    requires
        all_ws(before),
        all_ws(after),
        forall|i: int| 0 <= i < t.len() ==> !is_ws(#[trigger] t[i]),
    ensures
        trim(before + t + after) == t,
{
    if t.len() == 0 {
        assert(before + t + after == before + after);
        assert(all_ws(before + after));
        lemma_trim_start_prefix(before + after, seq![]);
        assert(before + after + seq![] == before + after);
        assert(trim_end(Seq::<char>::empty()) == Seq::<char>::empty());
    } else {
        assert(before + t + after == before + (t + after));
        assert((t + after)[0] == t[0]);
        lemma_trim_start_prefix(before, t + after);
        lemma_trim_end_suffix(t, after);
    }
}

/// Leading white space is trimmed away.
proof fn lemma_trim_start_skips_ws(w: Seq<char>, x: Seq<char>)
    requires
        all_ws(w),
    ensures
        trim_start(w + x) == trim_start(x),
    decreases w.len(),
{
    if w.len() > 0 {
        assert((w + x)[0] == w[0]);
        assert((w + x).drop_first() == w.drop_first() + x);
        lemma_trim_start_skips_ws(w.drop_first(), x);
    } else {
        assert(w + x == x);
    }
}

/// Trailing white space is trimmed away.
proof fn lemma_trim_end_skips_ws(x: Seq<char>, w: Seq<char>)
    requires
        all_ws(w),
    ensures
        trim_end(x + w) == trim_end(x),
    decreases w.len(),
{
    if w.len() > 0 {
        assert((x + w).last() == w.last());
        assert((x + w).drop_last() == x + w.drop_last());
        lemma_trim_end_skips_ws(x, w.drop_last());
    } else {
        assert(x + w == x);
    }
}

/// What follows a text is untouched by trimming its start, unless the text is
/// all white space.
proof fn lemma_trim_start_append(x: Seq<char>, y: Seq<char>)
    ensures
        trim_start(x).len() > 0 ==> trim_start(x + y) == trim_start(x) + y,
        trim_start(x).len() == 0 ==> trim_start(x + y) == trim_start(y),
    decreases x.len(),
{
    if x.len() == 0 {
        assert(x + y == y);
    } else {
        assert((x + y)[0] == x[0]);
        if is_ws(x[0]) {
            assert((x + y).drop_first() == x.drop_first() + y);
            lemma_trim_start_append(x.drop_first(), y);
        }
    }
}

/// White space put around a text does not change the text once trimmed.
proof fn lemma_trim_ignores_ws_around(before: Seq<char>, s: Seq<char>, after: Seq<char>)
    requires
        all_ws(before),
        all_ws(after),
    ensures
        trim(before + s + after) == trim(s),
{
    assert(before + s + after == before + (s + after));
    lemma_trim_start_skips_ws(before, s + after);
    lemma_trim_start_append(s, after);
    let t = trim_start(s);
    if t.len() > 0 {
        lemma_trim_end_skips_ws(t, after);
    } else {
        assert(after + seq![] == after);
        lemma_trim_start_skips_ws(after, seq![]);
        assert(trim_end(Seq::<char>::empty()) == Seq::<char>::empty());
    }
}

/// Law: white space around a key text does not change what it decodes to.
pub proof fn lemma_decode_ignores_surrounding_ws(s: Seq<char>, before: Seq<char>, after: Seq<char>)
    requires
        all_ws(before),
        all_ws(after),
    ensures
        b64_decode_lenient(before + s + after) == b64_decode_lenient(s),
{
    lemma_trim_ignores_ws_around(before, s, after);
}

/// `=` added at the end is taken off again by `strip_padding`.
proof fn lemma_strip_added_padding(x: Seq<char>, k: nat)
    ensures
        strip_padding(x + Seq::new(k, |i: int| '=')) == strip_padding(x),
    decreases k,
{
    let y = x + Seq::new(k, |i: int| '=');
    if k > 0 {
        assert(y.last() == '=');
        assert(y.drop_last() == x + Seq::new((k - 1) as nat, |i: int| '='));
        lemma_strip_added_padding(x, (k - 1) as nat);
    } else {
        assert(y == x);
    }
}

/// Law: decoding is canonical: the bytes a key text decodes to encode back to
/// its normalized form (white space trimmed, URL-safe symbols read as
/// standard ones), up to the `=` padding at the end.
pub proof fn lemma_decoded_reencodes(s: Seq<char>)
    ensures
        b64_decode_lenient(s) matches Some(v) ==> strip_padding(b64_encode(v)) == strip_padding(
            b64_normalize(s),
        ),
{
    let n = b64_normalize(s);
    if b64_decode_strict(n) is Some {
        let v = b64_decode_strict(n)->0;
        assert(b64_encode(v) == n);
    } else if b64_decode_strict(pad_to_quads(n)) is Some {
        let v = b64_decode_strict(pad_to_quads(n))->0;
        assert(b64_encode(v) == pad_to_quads(n));
        lemma_strip_added_padding(n, padding_needed(n.len()));
    }
}

proof fn lemma_strip_padding(e: Seq<char>, p: nat)
    requires
        p <= e.len(),
        forall|i: int| e.len() - p <= i < e.len() ==> #[trigger] e[i] == '=',
        e.len() - p == 0 || e[e.len() - p - 1] != '=',
    ensures
        strip_padding(e) == e.take(e.len() - p),
    decreases p,
{
    if p > 0 {
        assert(e.drop_last().take(e.len() - p) == e.take(e.len() - p));
        lemma_strip_padding(e.drop_last(), (p - 1) as nat);
    } else {
        assert(e.take(e.len() as int) == e);
    }
}

/// Law: the key decoding gives back the bytes of any standard base64 text,
/// also when it is surrounded by white space, written in the URL-safe
/// alphabet, or stripped of its `=` padding.
pub proof fn lemma_lenient_decode_roundtrip(
    b: Seq<u8>,
    before: Seq<char>,
    after: Seq<char>,
    url_safe: bool,
    unpadded: bool,
)
    requires
        all_ws(before),
        all_ws(after),
    ensures
        ({
            let e = b64_encode(b);
            let s0 = if unpadded {
                strip_padding(e)
            } else {
                e
            };
            let t = if url_safe {
                standard_to_url_safe(s0)
            } else {
                s0
            };
            b64_decode_lenient(before + t + after) == Some(b)
        }),
{
    let e = b64_encode(b);
    lemma_encode_shape(b);
    let p = padding_needed_for(b.len());
    let k = e.len() - p;
    assert(k == 0 || e[k - 1] != '=') by {
        if k > 0 {
            assert(is_symbol_char(e[k - 1]));
        }
    }
    lemma_strip_padding(e, p);
    let s0 = if unpadded {
        strip_padding(e)
    } else {
        e
    };
    let t = if url_safe {
        standard_to_url_safe(s0)
    } else {
        s0
    };
    assert forall|i: int| 0 <= i < s0.len() implies #[trigger] s0[i] != '-' && s0[i] != '_' && !is_ws(
        s0[i],
    ) && (is_symbol_char(s0[i]) || s0[i] == '=') by {
        assert(s0[i] == e[i]);
    }
    assert forall|i: int| 0 <= i < t.len() implies !is_ws(#[trigger] t[i]) by {
        if url_safe {
            assert(t[i] == (if s0[i] == '+' {
                '-'
            } else if s0[i] == '/' {
                '_'
            } else {
                s0[i]
            }));
        }
    }
    lemma_trim_around(before, t, after);
    assert(url_safe_to_standard(t) == s0);
    assert(b64_normalize(before + t + after) == s0);
    assert(b64_encode(b) == e);
    if !unpadded || p == 0 {
        assert(s0 == e);
        assert forall|c: Seq<u8>| #[trigger] b64_encode(c) == e implies c == b by {
            lemma_encode_injective(c, b);
        }
        assert(b64_decode_strict(s0) == Some(b));
    } else {
        assert(s0 == e.take(k));
        assert forall|c: Seq<u8>| #[trigger] b64_encode(c) != s0 by {
            lemma_encode_shape(c);
        }
        assert(b64_decode_strict(s0) is None);
        assert(e.len() % 4 == 0);
        assert(padding_needed(s0.len()) == p);
        assert(pad_to_quads(s0) == e);
        assert forall|c: Seq<u8>| #[trigger] b64_encode(c) == e implies c == b by {
            lemma_encode_injective(c, b);
        }
        assert(b64_decode_strict(pad_to_quads(s0)) == Some(b));
    }
}

} // verus!
