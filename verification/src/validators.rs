//! Checks on recipient addresses: email addresses and WhatsApp phone numbers.
use vstd::prelude::*;

use crate::error::{is_validation, CatzError};
use crate::text::{
    chars_of, concat_str, contains_char, count_digits, digits_in, has_char, is_ascii_digit,
    is_digit, is_whitespace, is_ws,
};

verus! {

/// A run of one or more characters that are neither white space nor `@`:
/// the class `[^\s@]+`.
pub open spec fn email_part(p: Seq<char>) -> bool {
    &&& p.len() > 0
    &&& forall|i: int| 0 <= i < p.len() ==> #[trigger] p[i] != '@' && !is_ws(p[i])
}

/// `s` matches `^[^\s@]+@[^\s@]+\.[^\s@]+$`: a local part, `@`, a domain part,
/// `.`, and a last part, none of the three empty and none holding white space
/// or `@`.
pub open spec fn is_valid_email(s: Seq<char>) -> bool {
    exists|a: Seq<char>, b: Seq<char>, c: Seq<char>|
        #![trigger email_part(a), email_part(b), email_part(c)]
        email_part(a) && email_part(b) && email_part(c) && s == a + seq!['@'] + b + seq!['.']
            + c
}

/// The same shape, stated by the positions of the `@` and of the `.` that
/// ends the domain part.
pub open spec fn email_shape(s: Seq<char>, at: int, dot: int) -> bool {
    &&& 0 < at
    &&& at + 1 < dot
    &&& dot + 1 < s.len()
    &&& s[at] == '@'
    &&& s[dot] == '.'
    &&& forall|i: int| 0 <= i < s.len() ==> !is_ws(#[trigger] s[i]) && (s[i] == '@' ==> i == at)
}

/// A character allowed in a phone number: a digit, a space, `(`, `)`, `+` or `-`.
pub open spec fn is_phone_char(c: char) -> bool {
    is_digit(c) || c == ' ' || c == '(' || c == ')' || c == '+' || c == '-'
}

/// Why `phone` cannot be a WhatsApp recipient, or `None` if it can: it must
/// not look like an email address, must be written with digits, spaces,
/// brackets, `+` and `-` only, and must hold 7 to 15 digits.
pub open spec fn phone_problem(phone: Seq<char>) -> Option<Seq<char>> {
    if has_char(phone, '@') {
        Some("WhatsApp messages go to phone numbers, not email addresses: "@ + phone)
    } else if !(forall|i: int| 0 <= i < phone.len() ==> is_phone_char(#[trigger] phone[i])) {
        Some("Invalid phone number: "@ + phone)
    } else if !(7 <= count_digits(phone) <= 15) {
        Some("Invalid phone number: "@ + phone)
    } else {
        None
    }
}

/// A character that may separate the digits of a phone number: a space, `(`,
/// `)`, `+` or `-`.
pub open spec fn is_phone_separator(c: char) -> bool {
    c == ' ' || c == '(' || c == ')' || c == '+' || c == '-'
}

/// `s` with its separators taken out.
pub open spec fn strip_separators(s: Seq<char>) -> Seq<char>
    decreases s.len(),
{
    if s.len() == 0 {
        s
    } else if is_phone_separator(s.last()) {
        strip_separators(s.drop_last())
    } else {
        strip_separators(s.drop_last()).push(s.last())
    }
}

/// Every character of `s` may stand in a phone number.
pub open spec fn phone_chars_only(s: Seq<char>) -> bool {
    forall|i: int| 0 <= i < s.len() ==> is_phone_char(#[trigger] s[i])
}

/// What one more character at the end does to the facts a phone number is
/// checked by.
proof fn lemma_phone_facts_push(t: Seq<char>, x: char)
    ensures
        has_char(t.push(x), '@') == (has_char(t, '@') || x == '@'),
        phone_chars_only(t.push(x)) == (phone_chars_only(t) && is_phone_char(x)),
        count_digits(t.push(x)) == count_digits(t) + if is_digit(x) {
            1nat
        } else {
            0nat
        },
{
    let u = t.push(x);
    assert(u.drop_last() == t);
    if has_char(u, '@') {
        let i = choose|i: int| 0 <= i < u.len() && u[i] == '@';
        if i < t.len() {
            assert(t[i] == u[i]);
        }
    }
    if has_char(t, '@') {
        let i = choose|i: int| 0 <= i < t.len() && t[i] == '@';
        assert(u[i] == t[i]);
    }
    if x == '@' {
        assert(u[t.len() as int] == x);
    }
    if phone_chars_only(t) && is_phone_char(x) {
        assert forall|i: int| 0 <= i < u.len() implies is_phone_char(#[trigger] u[i]) by {
            if i < t.len() {
                assert(u[i] == t[i]);
            }
        }
    }
    if phone_chars_only(u) {
        assert forall|i: int| 0 <= i < t.len() implies is_phone_char(#[trigger] t[i]) by {
            assert(u[i] == t[i]);
        }
        assert(is_phone_char(u[t.len() as int]));
    }
}

/// Taking out the separators keeps the digit count, the presence of `@` and
/// whether only phone characters are used.
proof fn lemma_strip_separators_facts(s: Seq<char>)
    ensures
        count_digits(strip_separators(s)) == count_digits(s),
        has_char(strip_separators(s), '@') == has_char(s, '@'),
        phone_chars_only(strip_separators(s)) == phone_chars_only(s),
    decreases s.len(),
{
    if s.len() > 0 {
        let p = s.drop_last();
        let x = s.last();
        lemma_strip_separators_facts(p);
        assert(s == p.push(x));
        lemma_phone_facts_push(p, x);
        if !is_phone_separator(x) {
            lemma_phone_facts_push(strip_separators(p), x);
        }
    }
}

/// Law: spaces, brackets, `+` and `-` may be added to or taken out of a phone
/// number anywhere without changing whether it is accepted.
pub proof fn lemma_phone_separators_irrelevant(s1: Seq<char>, s2: Seq<char>)
    requires
        strip_separators(s1) == strip_separators(s2),
    ensures
        (phone_problem(s1) is None) == (phone_problem(s2) is None),
{
    lemma_strip_separators_facts(s1);
    lemma_strip_separators_facts(s2);
    assert((phone_problem(s1) is None) == (!has_char(s1, '@') && phone_chars_only(s1) && 7
        <= count_digits(s1) <= 15));
    assert((phone_problem(s2) is None) == (!has_char(s2, '@') && phone_chars_only(s2) && 7
        <= count_digits(s2) <= 15));
}

/// Law: an address passes exactly when it holds no white space, one `@` that
/// is not its first character, and a `.` after the character that follows
/// the `@` and before its last character.
pub proof fn lemma_email_shape_iff(s: Seq<char>)
    ensures
        is_valid_email(s) <==> exists|at: int, dot: int| email_shape(s, at, dot),
{
    if is_valid_email(s) {
        let (a, b, c) = choose|a: Seq<char>, b: Seq<char>, c: Seq<char>|
            #![trigger email_part(a), email_part(b), email_part(c)]
            email_part(a) && email_part(b) && email_part(c) && s == a + seq!['@'] + b + seq!['.']
                + c;
        let at = a.len() as int;
        let dot = (a.len() + 1 + b.len()) as int;
        assert forall|i: int| 0 <= i < s.len() implies !is_ws(#[trigger] s[i]) && (s[i] == '@'
            ==> i == at) by {
            if i < at {
                assert(s[i] == a[i]);
            } else if i == at {
            } else if i < dot {
                assert(s[i] == b[i - at - 1]);
            } else if i == dot {
            } else {
                assert(s[i] == c[i - dot - 1]);
            }
        }
        assert(email_shape(s, at, dot));
    }
    if exists|at: int, dot: int| email_shape(s, at, dot) {
        let (at, dot) = choose|at: int, dot: int| email_shape(s, at, dot);
        let a = s.subrange(0, at);
        let b = s.subrange(at + 1, dot);
        let c = s.subrange(dot + 1, s.len() as int);
        assert(s == a + seq!['@'] + b + seq!['.'] + c);
        assert forall|i: int| 0 <= i < a.len() implies #[trigger] a[i] != '@' && !is_ws(a[i]) by {
            assert(a[i] == s[i]);
        }
        assert forall|i: int| 0 <= i < b.len() implies #[trigger] b[i] != '@' && !is_ws(b[i]) by {
            assert(b[i] == s[at + 1 + i]);
        }
        assert forall|i: int| 0 <= i < c.len() implies #[trigger] c[i] != '@' && !is_ws(c[i]) by {
            assert(c[i] == s[dot + 1 + i]);
        }
        assert(email_part(a) && email_part(b) && email_part(c));
    }
}

/// Whether the characters `v` form an email address as [`is_valid_email`] defines it.
fn email_chars_valid(v: &Vec<char>) -> (ok: bool)
    ensures
        ok == is_valid_email(v@),
{
    proof {
        lemma_email_shape_iff(v@);
    }
    let n = v.len();
    let mut at: Option<usize> = None;
    let mut i: usize = 0;
    while i < n
        invariant
            i <= n == v.len(),
            forall|j: int| 0 <= j < i ==> !is_ws(#[trigger] v@[j]),
            match at {
                None => forall|j: int| 0 <= j < i ==> #[trigger] v@[j] != '@',
                Some(p) => p < i && v@[p as int] == '@' && forall|j: int|
                    0 <= j < i && #[trigger] v@[j] == '@' ==> j == p,
            },
        decreases n - i,
    {
        let c = v[i];
        if is_whitespace(c) {
            assert(forall|at: int, dot: int| !email_shape(v@, at, dot));
            return false;
        }
        if c == '@' {
            match at {
                Some(p) => {
                    assert(forall|at: int, dot: int| !email_shape(v@, at, dot));
                    return false;
                },
                None => {
                    at = Some(i);
                },
            }
        }
        i = i + 1;
    }
    let a = match at {
        None => {
            assert(forall|at: int, dot: int| !email_shape(v@, at, dot));
            return false;
        },
        Some(p) => p,
    };
    if a == 0 {
        assert(forall|at: int, dot: int| !email_shape(v@, at, dot));
        return false;
    }
    let mut d: usize = a + 1;
    while d < n - 1
        invariant
            0 < a < n == v.len(),
            a + 1 <= d,
            v@[a as int] == '@',
            forall|j: int| 0 <= j < n ==> !is_ws(#[trigger] v@[j]),
            forall|j: int| 0 <= j < n && #[trigger] v@[j] == '@' ==> j == a,
            forall|j: int| a + 2 <= j < d ==> #[trigger] v@[j] != '.',
        decreases n - d,
    {
        if d > a + 1 && v[d] == '.' {
            proof {
                lemma_email_shape_iff(v@);
            }
            assert(email_shape(v@, a as int, d as int));
            return true;
        }
        d = d + 1;
    }
    assert forall|at: int, dot: int| !email_shape(v@, at, dot) by {
        if email_shape(v@, at, dot) {
            assert(v@[at] == '@');
            assert(at == a);
            assert(v@[dot] == '.');
        }
    }
    false
}

/// Accepts `email` when it matches `^[^\s@]+@[^\s@]+\.[^\s@]+$`, and otherwise
/// fails with `Invalid email: <email>`.
pub fn validate_email(email: &str) -> (r: Result<(), CatzError>)
    ensures
        r is Ok <==> is_valid_email(email@),
        r matches Err(e) ==> is_validation(e, "Invalid email: "@ + email@),
{
    let v = chars_of(email);
    if email_chars_valid(&v) {
        Ok(())
    } else {
        Err(CatzError::Validation(concat_str("Invalid email: ", email)))
    }
}

/// Accepts `phone` as a WhatsApp recipient: no `@`, only digits, spaces,
/// brackets, `+` and `-`, and 7 to 15 digits; otherwise fails with the reason.
pub fn validate_phone(phone: &str) -> (r: Result<(), CatzError>)
    ensures
        r is Ok <==> phone_problem(phone@) is None,
        r matches Err(e) ==> is_validation(e, phone_problem(phone@)->0),
{
    if contains_char(phone, '@') {
        return Err(
            CatzError::Validation(
                concat_str("WhatsApp messages go to phone numbers, not email addresses: ", phone),
            ),
        );
    }
    let v = chars_of(phone);
    let mut i: usize = 0;
    while i < v.len()
        invariant
            i <= v.len(),
            v@ == phone@,
            !has_char(phone@, '@'),
            forall|j: int| 0 <= j < i ==> is_phone_char(#[trigger] v@[j]),
        decreases v.len() - i,
    {
        let c = v[i];
        if !(is_ascii_digit(c) || c == ' ' || c == '(' || c == ')' || c == '+' || c == '-') {
            assert(!is_phone_char(phone@[i as int]));
            return Err(CatzError::Validation(concat_str("Invalid phone number: ", phone)));
        }
        i = i + 1;
    }
    assert(forall|j: int| 0 <= j < phone@.len() ==> is_phone_char(#[trigger] phone@[j]));
    let digits = digits_in(&v);
    if digits < 7 || digits > 15 {
        return Err(CatzError::Validation(concat_str("Invalid phone number: ", phone)));
    }
    Ok(())
}

} // verus!
