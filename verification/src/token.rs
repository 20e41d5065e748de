//! Credentials as they travel: the bearer token of the `Authorization`
//! header, a signed claim that names a session and an expiry.

use vstd::prelude::*;
use vstd::string::StrSliceExecFns;

verus! {

/// How long a freshly minted token stays valid: 365 days, in seconds.
pub const TOKEN_LIFETIME: i64 = 31_536_000;

/// The claims of a bearer token.
#[derive(Debug, Clone, Copy, PartialEq, Eq, Structural)]
pub struct Token {
    /// The expiry, in seconds since the Unix epoch.
    pub exp: i64,
    /// The id of the session that the token stands for.
    pub session: i32,
}

/// What a request presents to prove a session.
#[derive(Debug, Clone, Copy, PartialEq, Eq, Structural)]
pub enum Credential {
    /// Nothing was presented.
    Absent,
    /// What was presented is malformed, expired or not signed by this
    /// service.
    Invalid,
    /// A sound credential for the session with this id.
    Session(i32),
}

/// Why an `Authorization` header yields no token text.
#[derive(Debug, Clone, Copy, PartialEq, Eq, Structural)]
pub enum HeaderError {
    /// The header does not have the form `Bearer <token>`.
    Malformed,
    /// The token holds a character outside ASCII, which no signed claim does.
    NotAscii,
}

/// Whether the header starts with the scheme `Bearer` and one space.
pub open spec fn has_bearer_scheme(s: Seq<char>) -> bool {
    &&& s.len() >= 7
    &&& s[0] == 'B'
    &&& s[1] == 'e'
    &&& s[2] == 'a'
    &&& s[3] == 'r'
    &&& s[4] == 'e'
    &&& s[5] == 'r'
    &&& s[6] == ' '
}

/// ASCII white space: the space, and tab to carriage return.
pub open spec fn is_blank(c: char) -> bool {
    c == ' ' || ('\t' <= c && c <= '\r')
}

/// Whether `t` is what is left of `s` from `from` on once the white space at
/// both ends is taken away.
pub open spec fn is_trimmed_rest(t: Seq<char>, s: Seq<char>, from: int) -> bool {
    exists|a: int, b: int|
        {
            &&& from <= a <= b <= s.len()
            &&& #[trigger] s.subrange(a, b) == t
            &&& forall|k: int| from <= k < a ==> is_blank(#[trigger] s[k])
            &&& forall|k: int| b <= k < s.len() ==> is_blank(#[trigger] s[k])
            &&& a < b ==> !is_blank(s[a]) && !is_blank(s[b - 1])
        }
}

fn blank_byte(b: u8) -> (r: bool)
    ensures
        r == (b == 32 || (9 <= b && b <= 13)),
{
    b == 32 || (9 <= b && b <= 13)
}

/// The token text of an `Authorization` header: what follows `Bearer` and
/// one space, without the white space around it.
pub fn bearer_text(header: &str) -> (r: Result<&str, HeaderError>)
    ensures
        !has_bearer_scheme(header@) ==> r == Err::<&str, HeaderError>(HeaderError::Malformed),
        has_bearer_scheme(header@) && !header.is_ascii() ==> r == Err::<&str, HeaderError>(
            HeaderError::NotAscii,
        ),
        has_bearer_scheme(header@) && header.is_ascii() ==> r.is_ok() && is_trimmed_rest(
            r.unwrap()@,
            header@,
            7,
        ),
{
    let n = header.unicode_len();
    if n < 7 {
        return Err(HeaderError::Malformed);
    }
    if header.get_char(0) != 'B' || header.get_char(1) != 'e' || header.get_char(2) != 'a'
        || header.get_char(3) != 'r' || header.get_char(4) != 'e' || header.get_char(5) != 'r'
        || header.get_char(6) != ' ' {
        return Err(HeaderError::Malformed);
    }
    if !header.is_ascii() {
        return Err(HeaderError::NotAscii);
    }
    let mut a: usize = 7;
    while a < n && blank_byte(header.get_ascii(a))
        invariant
            7 <= a <= n,
            n == header@.len(),
            header.is_ascii(),
            forall|k: int| 7 <= k < a ==> is_blank(#[trigger] header@[k]),
        decreases n - a,
    {
        a += 1;
    }
    let mut b: usize = n;
    while b > a && blank_byte(header.get_ascii(b - 1))
        invariant
            a <= b <= n,
            n == header@.len(),
            header.is_ascii(),
            forall|k: int| b <= k < n ==> is_blank(#[trigger] header@[k]),
        decreases b,
    {
        b -= 1;
    }
    let text = header.substring_ascii(a, b);
    proof {
        assert(header@.subrange(a as int, b as int) == text@);
    }
    Ok(text)
}

/// The token that signing the claims with the secret gives, or `None` where
/// the secret is no base64 text or signing fails.
pub uninterp spec fn signed_claims(exp: i64, session: i32, secret: Seq<char>) -> Option<Seq<char>>;

/// Signs the claims `exp` and `session` with HS512 by `jsonwebtoken::encode`,
/// under the key that `EncodingKey::from_base64_secret` makes of the secret.
/// The result depends on the two claims and the secret alone.
#[verifier::external_body]
fn sign_claims(exp: i64, session: i32, secret: &str) -> (r: Option<String>)
    ensures
        match r {
            Some(t) => signed_claims(exp, session, secret@) == Some(t@),
            None => signed_claims(exp, session, secret@).is_none(),
        },
{
    let key = jsonwebtoken::EncodingKey::from_base64_secret(secret).ok()?;
    let mut claims = serde_json::Map::new();
    claims.insert("exp".to_string(), serde_json::Value::from(exp));
    claims.insert("session".to_string(), serde_json::Value::from(session));
    let header = jsonwebtoken::Header::new(jsonwebtoken::Algorithm::HS512);
    jsonwebtoken::encode(&header, &claims, &key).ok()
}

/// Checks signature (HS512) and expiry of a token by `jsonwebtoken::decode`
/// and reads its claims `exp` and `session`. Whether a token has expired
/// depends on the clock, so nothing is said of the result.
#[verifier::external_body]
fn verify_and_decode(token: &str, secret: &str) -> (r: Option<Token>) {
    let key = jsonwebtoken::DecodingKey::from_base64_secret(secret).ok()?;
    let rules = jsonwebtoken::Validation::new(jsonwebtoken::Algorithm::HS512);
    let data = jsonwebtoken::decode::<serde_json::Value>(token, &key, &rules).ok()?;
    let exp = data.claims.get("exp")?.as_i64()?;
    let session = i32::try_from(data.claims.get("session")?.as_i64()?).ok()?;
    Some(Token { exp, session })
}

/// When a token minted at `now` expires, if that moment can be written down.
pub open spec fn expiry(now: i64) -> Option<i64> {
    if now + TOKEN_LIFETIME <= i64::MAX {
        Some((now + TOKEN_LIFETIME) as i64)
    } else {
        None
    }
}

/// The token that `mint` hands out.
pub open spec fn minted(session: i32, now: i64, secret: Seq<char>) -> Option<Seq<char>> {
    match expiry(now) {
        Some(exp) => signed_claims(exp, session, secret),
        None => None,
    }
}

/// Mints a token for the session, valid for 365 days from `now`.
pub fn mint(session: i32, now: i64, secret: &str) -> (r: Option<String>)
    ensures
        match r {
            Some(t) => minted(session, now, secret@) == Some(t@),
            None => minted(session, now, secret@).is_none(),
        },
{
    match now.checked_add(TOKEN_LIFETIME) {
        Some(exp) => sign_claims(exp, session, secret),
        None => None,
    }
}

/// The credential that decoded claims stand for.
pub fn credential_of_claims(claims: Option<Token>) -> (r: Credential)
    ensures
        r == match claims {
            Some(t) => Credential::Session(t.session),
            None => Credential::Invalid,
        },
{
    match claims {
        Some(t) => Credential::Session(t.session),
        None => Credential::Invalid,
    }
}

/// The credential that a request with this `Authorization` header presents.
/// A header of the right form is checked for signature and expiry; what
/// that check finds decides between `Invalid` and `Session`.
pub fn bearer_credential(header: Option<&str>, secret: &str) -> (r: Credential)
    ensures
        header.is_none() ==> r == Credential::Absent,
        header.is_some() ==> r != Credential::Absent,
        header.is_some() && !(has_bearer_scheme(header.unwrap()@) && header.unwrap().is_ascii())
            ==> r == Credential::Invalid,
{
    match header {
        None => Credential::Absent,
        Some(h) => match bearer_text(h) {
            Err(_) => Credential::Invalid,
            Ok(text) => credential_of_claims(verify_and_decode(text, secret)),
        },
    }
}

/// Whether the character is a decimal digit.
pub open spec fn is_digit(c: char) -> bool {
    '0' <= c && c <= '9'
}

/// Whether the text holds decimal digits only.
pub open spec fn all_digits(s: Seq<char>) -> bool {
    forall|i: int| 0 <= i < s.len() ==> is_digit(#[trigger] s[i])
}

/// The number that the digits write.
pub open spec fn digits_value(s: Seq<char>) -> int
    decreases s.len(),
{
    if s.len() == 0 {
        0
    } else {
        digits_value(s.drop_last()) * 10 + (s.last() as int - '0' as int)
    }
}

/// Whether the text starts with a sign.
pub open spec fn has_sign(s: Seq<char>) -> bool {
    s.len() > 0 && (s[0] == '-' || s[0] == '+')
}

/// The text without its sign.
pub open spec fn unsigned_part(s: Seq<char>) -> Seq<char> {
    if has_sign(s) {
        s.subrange(1, s.len() as int)
    } else {
        s
    }
}

/// The number that a signed decimal text writes.
pub open spec fn signed_value(s: Seq<char>) -> int {
    if s.len() > 0 && s[0] == '-' {
        -digits_value(unsigned_part(s))
    } else {
        digits_value(unsigned_part(s))
    }
}

/// The session id that a text writes: an optional sign, then one decimal
/// digit or more, and a value that fits in 32 bits.
pub open spec fn parsed_id(s: Seq<char>) -> Option<i32> {
    if unsigned_part(s).len() == 0 || !all_digits(unsigned_part(s)) {
        None
    } else if i32::MIN <= signed_value(s) <= i32::MAX {
        Some(signed_value(s) as i32)
    } else {
        None
    }
}

proof fn lemma_digits_grow(s: Seq<char>, k: int)
    requires
        all_digits(s),
        0 <= k <= s.len(),
    ensures
        0 <= digits_value(s.subrange(0, k)) <= digits_value(s),
    decreases s.len() - k,
{
    if k == s.len() {
        assert(s.subrange(0, k) =~= s);
        lemma_digits_nonnegative(s);
    } else {
        let shorter = s.drop_last();
        assert(shorter.subrange(0, k) =~= s.subrange(0, k));
        assert(is_digit(s[s.len() - 1]));
        assert forall|i: int| 0 <= i < shorter.len() implies is_digit(#[trigger] shorter[i]) by {
            assert(shorter[i] == s[i]);
        }
        lemma_digits_grow(shorter, k);
    }
}

proof fn lemma_digits_nonnegative(s: Seq<char>)
    requires
        all_digits(s),
    ensures
        0 <= digits_value(s),
    decreases s.len(),
{
    if s.len() > 0 {
        let shorter = s.drop_last();
        assert(is_digit(s[s.len() - 1]));
        assert forall|i: int| 0 <= i < shorter.len() implies is_digit(#[trigger] shorter[i]) by {
            assert(shorter[i] == s[i]);
        }
        lemma_digits_nonnegative(shorter);
    }
}

/// Reads a session id from the text of a cookie.
pub fn parse_session_id(text: &str) -> (r: Option<i32>)
    ensures
        r == parsed_id(text@),
{
    if !text.is_ascii() {
        proof {
            let s = text@;
            let i = choose|i: int| 0 <= i < s.len() && !('\0' <= #[trigger] s[i] <= '\u{7f}');
            let digits = unsigned_part(s);
            if has_sign(s) {
                assert(i >= 1);
                assert(digits[i - 1] == s[i]);
                assert(!is_digit(digits[i - 1]));
            } else {
                assert(!is_digit(digits[i]));
            }
        }
        return None;
    }
    let n = text.unicode_len();
    if n == 0 {
        return None;
    }
    let first = text.get_ascii(0);
    let negative = first == 45;
    let start: usize = if first == 45 || first == 43 {
        1
    } else {
        0
    };
    let ghost digits = unsigned_part(text@);
    assert(digits =~= text@.subrange(start as int, n as int));
    if start == n {
        return None;
    }
    let mut acc: i64 = 0;
    let mut i: usize = start;
    while i < n
        invariant
            text.is_ascii(),
            n == text@.len(),
            start <= i <= n,
            digits == text@.subrange(start as int, n as int),
            digits == unsigned_part(text@),
            negative == (text@[0] == '-'),
            all_digits(digits.subrange(0, i - start)),
            acc == digits_value(digits.subrange(0, i - start)),
            0 <= acc <= 2147483648,
        decreases n - i,
    {
        let b = text.get_ascii(i);
        if b < 48 || b > 57 {
            proof {
                assert(digits[i - start] == text@[i as int]);
                assert(!is_digit(digits[i - start]));
            }
            return None;
        }
        let next = acc * 10 + (b - 48) as i64;
        proof {
            let longer = digits.subrange(0, i + 1 - start);
            assert(longer.drop_last() =~= digits.subrange(0, i - start));
            assert(longer.last() == text@[i as int]);
            assert(next == digits_value(longer));
            assert forall|k: int| 0 <= k < longer.len() implies is_digit(#[trigger] longer[k]) by {
                if k < i - start {
                    assert(longer[k] == digits.subrange(0, i - start)[k]);
                }
            }
        }
        if next > 2147483648 {
            proof {
                if all_digits(digits) {
                    lemma_digits_grow(digits, i + 1 - start);
                }
            }
            return None;
        }
        acc = next;
        i += 1;
    }
    proof {
        assert(digits.subrange(0, n - start) =~= digits);
    }
    if negative {
        Some((0 - acc) as i32)
    } else if acc > 2147483647 {
        None
    } else {
        Some(acc as i32)
    }
}

/// The credential that a request with this `session` cookie presents: the
/// cookie holds the id of the session.
pub fn cookie_credential(value: Option<&str>) -> (r: Credential)
    ensures
        r == match value {
            None => Credential::Absent,
            Some(text) => match parsed_id(text@) {
                Some(id) => Credential::Session(id),
                None => Credential::Invalid,
            },
        },
{
    match value {
        None => Credential::Absent,
        Some(text) => match parse_session_id(text) {
            Some(id) => Credential::Session(id),
            None => Credential::Invalid,
        },
    }
}

/// How credentials travel in a deployment. Exactly one way is in use.
#[derive(Debug, Clone, Copy, PartialEq, Eq, Structural)]
pub enum Transport {
    /// `Authorization: Bearer <signed claim>`.
    Bearer,
    /// A cookie named `session`, kept intact by the server, that holds the
    /// session id.
    Cookie,
}

/// The credential that a request presents: `presented` is the value of the
/// `Authorization` header or of the `session` cookie, as the transport has
/// it. Whatever the transport, nothing presented is `Absent`, and the
/// session resolver takes it from there.
pub fn present(transport: Transport, presented: Option<&str>, secret: &str) -> (r: Credential)
    ensures
        presented.is_none() ==> r == Credential::Absent,
        presented.is_some() ==> r != Credential::Absent,
        transport == Transport::Cookie ==> r == match presented {
            None => Credential::Absent,
            Some(text) => match parsed_id(text@) {
                Some(id) => Credential::Session(id),
                None => Credential::Invalid,
            },
        },
        transport == Transport::Bearer && presented.is_some() && !(has_bearer_scheme(
            presented.unwrap()@,
        ) && presented.unwrap().is_ascii()) ==> r == Credential::Invalid,
{
    match transport {
        Transport::Bearer => bearer_credential(presented, secret),
        Transport::Cookie => cookie_credential(presented),
    }
}

} // verus!
