//! The JSON text of a message: a flat object whose values are strings, nulls,
//! numbers or string-to-string maps, written compactly in key order of
//! insertion. String escaping is `serde_json`'s; the framing is done here.
use vstd::prelude::*;

use crate::error::CatzError;
use crate::text::{chars_of, push_char};
use crate::types::{DataMap, OrderedMap};

verus! {

/// A JSON value of a message field.
#[derive(Debug, Clone)]
pub enum JsonValue {
    Null,
    Str(String),
    Num(u64),
    Object(DataMap),
}

/// A JSON object whose keys occur once each, in insertion order.
pub type JsonObject = OrderedMap<JsonValue>;

/// The mathematical content of a [`JsonValue`].
pub enum JsonView {
    Null,
    Str(Seq<char>),
    Num(u64),
    Object(Seq<(Seq<char>, Seq<char>)>),
}

/// The key/value texts of a string map.
pub open spec fn pairs_view(s: Seq<(String, String)>) -> Seq<(Seq<char>, Seq<char>)> {
    Seq::new(s.len(), |i: int| (s[i].0@, s[i].1@))
}

pub open spec fn json_view(v: JsonValue) -> JsonView {
    match v {
        JsonValue::Null => JsonView::Null,
        JsonValue::Str(s) => JsonView::Str(s@),
        JsonValue::Num(n) => JsonView::Num(n),
        JsonValue::Object(m) => JsonView::Object(pairs_view(m.entries_view())),
    }
}

/// The keys and value contents of an object's entries.
pub open spec fn object_view(s: Seq<(String, JsonValue)>) -> Seq<(Seq<char>, JsonView)> {
    Seq::new(s.len(), |i: int| (s[i].0@, json_view(s[i].1)))
}

/// The lower-case hexadecimal digit of `d` (0 to 15).
pub open spec fn hex_digit(d: int) -> char {
    if d < 10 {
        (48 + d) as char
    } else {
        (87 + d) as char
    }
}

/// How `serde_json` writes the character `c` inside a string: `"` and `\` and
/// the control characters below U+0020 are escaped, everything else is kept.
pub open spec fn escape_char(c: char) -> Seq<char> {
    let u = c as u32;
    if c == '"' {
        seq!['\\', '"']
    } else if c == '\\' {
        seq!['\\', '\\']
    } else if u == 0x08 {
        seq!['\\', 'b']
    } else if u == 0x09 {
        seq!['\\', 't']
    } else if u == 0x0A {
        seq!['\\', 'n']
    } else if u == 0x0C {
        seq!['\\', 'f']
    } else if u == 0x0D {
        seq!['\\', 'r']
    } else if u < 0x20 {
        seq!['\\', 'u', '0', '0', hex_digit(u as int / 16), hex_digit(u as int % 16)]
    } else {
        seq![c]
    }
}

/// The escaped characters of `s`.
pub open spec fn escape_text(s: Seq<char>) -> Seq<char>
    decreases s.len(),
{
    if s.len() == 0 {
        seq![]
    } else {
        escape_text(s.drop_last()) + escape_char(s.last())
    }
}

/// The JSON string literal of `s`.
pub open spec fn json_quote(s: Seq<char>) -> Seq<char> {
    seq!['"'] + escape_text(s) + seq!['"']
}

/// The decimal digit character of `d` (0 to 9).
pub open spec fn digit_char(d: nat) -> char {
    (48 + d) as char
}

/// The decimal numeral of `n`, without leading zeros.
pub open spec fn decimal(n: nat) -> Seq<char>
    decreases n,
{
    if n < 10 {
        seq![digit_char(n)]
    } else {
        decimal(n / 10).push(digit_char(n % 10))
    }
}

/// `"key":"value"` for each pair, joined by commas.
pub open spec fn pair_members(s: Seq<(Seq<char>, Seq<char>)>) -> Seq<char>
    decreases s.len(),
{
    if s.len() == 0 {
        seq![]
    } else {
        let m = json_quote(s.last().0) + seq![':'] + json_quote(s.last().1);
        if s.len() == 1 {
            m
        } else {
            pair_members(s.drop_last()) + seq![','] + m
        }
    }
}

/// The JSON text of a value.
pub open spec fn value_json(v: JsonView) -> Seq<char> {
    match v {
        JsonView::Null => "null"@,
        JsonView::Str(s) => json_quote(s),
        JsonView::Num(n) => decimal(n as nat),
        JsonView::Object(m) => seq!['{'] + pair_members(m) + seq!['}'],
    }
}

/// `"key":value` for one field.
pub open spec fn field_json(e: (Seq<char>, JsonView)) -> Seq<char> {
    json_quote(e.0) + seq![':'] + value_json(e.1)
}

/// The fields, joined by commas.
pub open spec fn field_members(s: Seq<(Seq<char>, JsonView)>) -> Seq<char>
    decreases s.len(),
{
    if s.len() == 0 {
        seq![]
    } else if s.len() == 1 {
        field_json(s.last())
    } else {
        field_members(s.drop_last()) + seq![','] + field_json(s.last())
    }
}

/// The compact JSON text of an object with these fields, in this order.
pub open spec fn object_json(s: Seq<(Seq<char>, JsonView)>) -> Seq<char> {
    seq!['{'] + field_members(s) + seq!['}']
}

/// The object holds the key `k`.
pub open spec fn has_key(s: Seq<(Seq<char>, JsonView)>, k: Seq<char>) -> bool {
    exists|i: int| 0 <= i < s.len() && #[trigger] s[i].0 == k
}

/// A field with its value replaced by the number `ts` if its key is `ts`.
pub open spec fn stamp_field(e: (Seq<char>, JsonView), ts: u64) -> (Seq<char>, JsonView) {
    if e.0 == "ts"@ {
        (e.0, JsonView::Num(ts))
    } else {
        e
    }
}

/// The fields with the value of `ts` replaced by the number `ts`.
pub open spec fn stamp_fields(s: Seq<(Seq<char>, JsonView)>, ts: u64) -> Seq<(Seq<char>, JsonView)> {
    Seq::new(s.len(), |i: int| stamp_field(s[i], ts))
}

/// The object after `insert("ts", ts)`: an existing `ts` field takes the
/// number in place, otherwise the field is added last.
pub open spec fn with_timestamp(s: Seq<(Seq<char>, JsonView)>, ts: u64) -> Seq<(Seq<char>, JsonView)> {
    if has_key(s, "ts"@) {
        stamp_fields(s, ts)
    } else {
        s.push(("ts"@, JsonView::Num(ts)))
    }
}

/// Law: the stamped object holds the key `ts`, every `ts` field holds the
/// number `ts`, and every other field of the payload keeps its place and
/// value.
pub proof fn lemma_timestamp_present(s: Seq<(Seq<char>, JsonView)>, ts: u64)
    ensures
        has_key(with_timestamp(s, ts), "ts"@),
        forall|i: int|
            0 <= i < with_timestamp(s, ts).len() && #[trigger] with_timestamp(s, ts)[i].0 == "ts"@
                ==> with_timestamp(s, ts)[i].1 == JsonView::Num(ts),
        forall|i: int| 0 <= i < s.len() && s[i].0 != "ts"@ ==> #[trigger] with_timestamp(s, ts)[i] == s[i],
{
    let t = with_timestamp(s, ts);
    if has_key(s, "ts"@) {
        let i = choose|i: int| 0 <= i < s.len() && #[trigger] s[i].0 == "ts"@;
        assert(t[i].0 == "ts"@);
    } else {
        assert(t[s.len() as int].0 == "ts"@);
        assert forall|i: int|
            0 <= i < t.len() && #[trigger] t[i].0 == "ts"@ implies t[i].1 == JsonView::Num(ts) by {
            if i < s.len() {
                assert(t[i] == s[i]);
            }
        }
    }
}

/// Law: the members of a string map are written one per pair as
/// `"key":"value"`, and the texts of two runs of pairs are joined by exactly
/// one comma; so the members of `n` pairs are separated by `n - 1` commas.
pub proof fn lemma_pair_members_join(a: Seq<(Seq<char>, Seq<char>)>, b: Seq<(Seq<char>, Seq<char>)>)
    ensures
        a.len() == 1 ==> pair_members(a) == json_quote(a[0].0) + seq![':'] + json_quote(a[0].1),
        a.len() > 0 && b.len() > 0 ==> pair_members(a + b) == pair_members(a) + seq![','] + pair_members(b),
        a.len() == 0 ==> pair_members(a + b) == pair_members(b),
    decreases b.len(),
{
    if a.len() == 0 {
        assert(a + b == b);
    }
    if a.len() > 0 && b.len() > 0 {
        let ab = a + b;
        if b.len() == 1 {
            assert(ab.drop_last() == a);
            assert(ab.last() == b[0]);
        } else {
            assert(ab.drop_last() == a + b.drop_last());
            assert(ab.last() == b.last());
            lemma_pair_members_join(a, b.drop_last());
        }
    }
}

/// Law: the fields of an object are written one per field as `"key":value`,
/// and the texts of two runs of fields are joined by exactly one comma.
pub proof fn lemma_field_members_join(a: Seq<(Seq<char>, JsonView)>, b: Seq<(Seq<char>, JsonView)>)
    ensures
        a.len() == 1 ==> field_members(a) == json_quote(a[0].0) + seq![':'] + value_json(a[0].1),
        a.len() > 0 && b.len() > 0 ==> field_members(a + b) == field_members(a) + seq![',']
            + field_members(b),
        a.len() == 0 ==> field_members(a + b) == field_members(b),
    decreases b.len(),
{
    if a.len() == 0 {
        assert(a + b == b);
    }
    if a.len() > 0 && b.len() > 0 {
        let ab = a + b;
        if b.len() == 1 {
            assert(ab.drop_last() == a);
            assert(ab.last() == b[0]);
        } else {
            assert(ab.drop_last() == a + b.drop_last());
            assert(ab.last() == b.last());
            lemma_field_members_join(a, b.drop_last());
        }
    }
}

/// `serde_json::to_string` of a string. Claimed, from the crate's source: it
/// never fails, and it writes the string between double quotes, escaping `"`,
/// `\` and the control characters below U+0020 as [`escape_char`] states.
#[verifier::external_body]
fn json_string(s: &str) -> (r: Result<String, serde_json::Error>)
    ensures
        r is Ok,
        r matches Ok(t) ==> t@ == json_quote(s@),
{
    serde_json::to_string(s)
}

/// Whether `a` and `b` hold the same characters.
pub fn str_eq(a: &str, b: &str) -> (r: bool)
    ensures
        r == (a@ == b@),
{
    let x = chars_of(a);
    let y = chars_of(b);
    if x.len() != y.len() {
        return false;
    }
    let mut i: usize = 0;
    while i < x.len()
        invariant
            i <= x.len() == y.len(),
            x@ == a@,
            y@ == b@,
            forall|j: int| 0 <= j < i ==> x@[j] == y@[j],
        decreases x.len() - i,
    {
        if x[i] != y[i] {
            return false;
        }
        i = i + 1;
    }
    assert(x@ == y@);
    true
}

/// Appends the JSON string literal of `s` to `out`.
pub fn push_quoted(out: &mut String, s: &str) -> (r: Result<(), CatzError>)
    ensures
        r is Ok,
        final(out)@ == old(out)@ + json_quote(s@),
{
    match json_string(s) {
        Ok(t) => {
            out.append(t.as_str());
            Ok(())
        },
        Err(e) => Err(CatzError::Json(e)),
    }
}

/// Appends the decimal numeral of `n` to `out`.
pub fn push_decimal(out: &mut String, n: u64)
    ensures
        final(out)@ == old(out)@ + decimal(n as nat),
    decreases n,
{
    if n >= 10 {
        push_decimal(out, n / 10);
    }
    let d = (n % 10) as u8;
    push_char(out, (48u8 + d) as char);
}

/// Appends the JSON text of `v` to `out`.
fn push_value(out: &mut String, v: &JsonValue) -> (r: Result<(), CatzError>)
    ensures
        r is Ok,
        final(out)@ == old(out)@ + value_json(json_view(*v)),
{
    match v {
        JsonValue::Null => {
            out.append("null");
        },
        JsonValue::Str(s) => {
            push_quoted(out, s.as_str())?;
        },
        JsonValue::Num(n) => {
            push_decimal(out, *n);
        },
        JsonValue::Object(m) => {
            let entries = m.entries();
            let ghost pairs = pairs_view(entries@);
            let ghost start = out@;
            push_char(out, '{');
            let mut i: usize = 0;
            while i < entries.len()
                invariant
                    i <= entries.len(),
                    pairs == pairs_view(entries@),
                    out@ == start + seq!['{'] + pair_members(pairs.take(i as int)),
                decreases entries.len() - i,
            {
                assert(pairs.take(i + 1).drop_last() == pairs.take(i as int));
                assert(pairs.take(i + 1).last() == pairs[i as int]);
                if i > 0 {
                    push_char(out, ',');
                }
                push_quoted(out, entries[i].0.as_str())?;
                push_char(out, ':');
                push_quoted(out, entries[i].1.as_str())?;
                i = i + 1;
            }
            assert(pairs.take(entries.len() as int) == pairs);
            push_char(out, '}');
        },
    }
    Ok(())
}

/// The JSON text of `payload` after `insert("ts", ts)`, as the API receives
/// it before sealing.
pub fn message_json(payload: &JsonObject, ts: u64) -> (r: Result<String, CatzError>)
    ensures
        r matches Ok(t) && t@ == object_json(with_timestamp(object_view(payload.entries_view()), ts)),
{
    let entries = payload.entries();
    let ghost fields = object_view(entries@);
    let ghost stamped = stamp_fields(fields, ts);
    let mut out = String::new();
    push_char(&mut out, '{');
    let mut found = false;
    let mut i: usize = 0;
    while i < entries.len()
        invariant
            i <= entries.len(),
            fields == object_view(entries@),
            stamped == stamp_fields(fields, ts),
            out@ == seq!['{'] + field_members(stamped.take(i as int)),
            found == has_key(fields.take(i as int), "ts"@),
        decreases entries.len() - i,
    {
        assert(stamped.take(i + 1).drop_last() == stamped.take(i as int));
        assert(stamped.take(i + 1).last() == stamped[i as int]);
        assert(fields.take(i + 1).drop_last() == fields.take(i as int));
        if i > 0 {
            push_char(&mut out, ',');
        }
        let key = entries[i].0.as_str();
        push_quoted(&mut out, key)?;
        push_char(&mut out, ':');
        if str_eq(key, "ts") {
            push_decimal(&mut out, ts);
            found = true;
            assert(fields.take(i + 1)[i as int].0 == "ts"@);
        } else {
            push_value(&mut out, &entries[i].1)?;
            assert(has_key(fields.take(i + 1), "ts"@) ==> has_key(fields.take(i as int), "ts"@))
                by {
                if has_key(fields.take(i + 1), "ts"@) {
                    let j = choose|j: int|
                        0 <= j < i + 1 && #[trigger] fields.take(i + 1)[j].0 == "ts"@;
                    assert(j != i);
                    assert(fields.take(i as int)[j].0 == "ts"@);
                }
            }
        }
        i = i + 1;
    }
    assert(stamped.take(entries.len() as int) == stamped);
    assert(fields.take(entries.len() as int) == fields);
    if !found {
        assert(stamped == fields) by {
            assert forall|j: int| 0 <= j < fields.len() implies #[trigger] stamped[j] == fields[j] by {
                if fields[j].0 == "ts"@ {
                    assert(has_key(fields, "ts"@));
                }
            }
        }
        let ghost extended = fields.push(("ts"@, JsonView::Num(ts)));
        assert(extended.drop_last() == fields);
        if entries.len() > 0 {
            push_char(&mut out, ',');
        }
        push_quoted(&mut out, "ts")?;
        push_char(&mut out, ':');
        push_decimal(&mut out, ts);
    }
    push_char(&mut out, '}');
    Ok(out)
}

} // verus!
