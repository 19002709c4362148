//! Session tokens: signed, time-bound claim sets naming an Email.
use jsonwebtoken::{DecodingKey, EncodingKey, Header, Validation};
use vstd::prelude::*;
use crate::banned_store::{BannedTokenStore, banned_at};
use crate::email::Email;
use crate::json_text::{escape_json, json_escape, lemma_escape_injective, unescape_json};
use crate::text::{chars_of, digit_char, digit_str, digit_value, is_digit_char};

verus! {

#[verifier::external_type_specification]
#[verifier::external_body]
pub struct ExJwtError(jsonwebtoken::errors::Error);

/// How long a session token is valid, in seconds.
pub const TOKEN_TTL_SECONDS: u64 = 600;

/// The HS256 JSON Web Token whose claims are the JSON object `claims`, signed
/// with `key`.
pub uninterp spec fn jwt_signed(claims: Seq<char>, key: Seq<u8>) -> Seq<char>;

/// The claims of `token` as compact JSON when `token` is an HS256 JSON Web
/// Token signed with `key` whose claims hold a numeric `exp` and no `aud`;
/// `None` otherwise.
pub uninterp spec fn jwt_verified_claims(token: Seq<char>, key: Seq<u8>) -> Option<Seq<char>>;

/// Relies on `jsonwebtoken::encode` with the default header (HS256) over the
/// claims as read by `serde_json::from_str`: the token for `claims` and `key`.
/// A claim set in the form `claims_json` writes is a JSON object that
/// serde_json reads, and HMAC signing does not fail, so such claims are
/// signed; `jsonwebtoken::decode` of the token with the same key (HS256, `exp`
/// a number, no `aud`) returns that object, which serde_json writes back as
/// the same text (sorted keys, the same escapes).
#[verifier::external_body]
fn jwt_encode(claims: &str, key: &[u8]) -> (r: Result<String, jsonwebtoken::errors::Error>)
    ensures
        r matches Ok(t) ==> t@ == jwt_signed(claims@, key@),
        is_claim_set(claims@) ==> r is Ok,
        r matches Ok(t) ==> (is_claim_set(claims@) ==> jwt_verified_claims(t@, key@) == Some(
            claims@,
        )),
{
    let value: serde_json::Value = serde_json::from_str(claims)?;
    jsonwebtoken::encode(&Header::default(), &value, &EncodingKey::from_secret(key))
}

/// Relies on `jsonwebtoken::decode` under `Validation::default()` (HS256, `exp`
/// required, an `aud` refused) with its own clock switched off, and on
/// `serde_json::to_string` of the claims it returns: the verified claims of
/// `token` under `key`. Expiry is checked by the caller against its `now`.
#[verifier::external_body]
fn jwt_decode(token: &str, key: &[u8]) -> (r: Result<String, jsonwebtoken::errors::Error>)
    ensures
        match r {
            Ok(c) => jwt_verified_claims(token@, key@) == Some(c@),
            Err(_) => jwt_verified_claims(token@, key@) is None,
        },
{
    let mut validation = Validation::default();
    validation.validate_exp = false;
    match jsonwebtoken::decode::<serde_json::Value>(token, &DecodingKey::from_secret(key), &validation) {
        Ok(data) => serde_json::to_string(&data.claims).map_err(jsonwebtoken::errors::Error::from),
        Err(e) => Err(e),
    }
}

/// Relies on `std::time::SystemTime::duration_since` of `SystemTime::now()`
/// and `UNIX_EPOCH`: whole seconds since the Unix epoch, or `None` when the
/// clock reads earlier.
#[verifier::external_body]
fn clock_seconds() -> (r: Option<u64>) {
    match std::time::SystemTime::now().duration_since(std::time::UNIX_EPOCH) {
        Ok(d) => Some(d.as_secs()),
        Err(_) => None,
    }
}

/// Seconds since the Unix epoch, as the clock reads now (0 before the epoch).
pub fn now_seconds() -> (r: u64) {
    match clock_seconds() {
        Some(t) => t,
        None => 0,
    }
}

/// The decimal digits of `n`, without leading zeros.
pub open spec fn decimal(n: nat) -> Seq<char>
    decreases n,
{
    if n < 10 {
        seq![digit_char(n as int)]
    } else {
        decimal(n / 10).push(digit_char((n % 10) as int))
    }
}

/// The number that the digits `s` stand for.
pub open spec fn decimal_value(s: Seq<char>) -> int
    decreases s.len(),
{
    if s.len() == 0 {
        0
    } else {
        decimal_value(s.drop_last()) * 10 + digit_value(s.last())
    }
}

pub open spec fn all_digits(s: Seq<char>) -> bool {
    forall|i: int| 0 <= i < s.len() ==> is_digit_char(#[trigger] s[i])
}

pub open spec fn exp_prefix() -> Seq<char> {
    seq!['{', '"', 'e', 'x', 'p', '"', ':']
}

pub open spec fn sub_infix() -> Seq<char> {
    seq![',', '"', 's', 'u', 'b', '"', ':', '"']
}

pub open spec fn claims_suffix() -> Seq<char> {
    seq!['"', '}']
}

/// The compact JSON of the claim set, `{"exp":<exp>,"sub":"<sub>"}`, as
/// serde_json writes it: keys in order, `sub` escaped.
pub open spec fn claims_json(sub: Seq<char>, exp: u64) -> Seq<char> {
    exp_prefix() + decimal(exp as nat) + sub_infix() + json_escape(sub) + claims_suffix()
}

/// The claim set of a session token.
#[derive(Debug, PartialEq, Eq)]
pub struct Claims {
    /// The Email of the session's user.
    pub sub: String,
    /// Expiry, in seconds since the Unix epoch.
    pub exp: u64,
}

/// Why a token was refused.
#[derive(Debug, Clone, Copy, PartialEq, Eq, Structural)]
pub enum TokenError {
    /// Not a token signed with the key, or its claims are not a claim set.
    BadSignature,
    Expired,
    Revoked,
    /// The revocation store could not answer.
    Unexpected,
}

/// Why no token could be made.
#[derive(Debug)]
pub enum GenerateTokenError {
    TokenError(jsonwebtoken::errors::Error),
    UnexpectedError,
}

proof fn lemma_digit_char(d: int)
    requires
        0 <= d < 10,
    ensures
        digit_value(digit_char(d)) == d,
        is_digit_char(digit_char(d)),
{
}

proof fn lemma_decimal_digits(n: nat)
    ensures
        decimal(n).len() >= 1,
        all_digits(decimal(n)),
        decimal_value(decimal(n)) == n,
    decreases n,
{
    lemma_digit_char((n % 10) as int);
    if n >= 10 {
        lemma_decimal_digits(n / 10);
        assert(decimal(n).drop_last() =~= decimal(n / 10));
        assert(decimal(n).last() == digit_char((n % 10) as int));
        assert(decimal_value(decimal(n)) == decimal_value(decimal(n / 10)) * 10 + (n % 10));
    } else {
        assert(decimal(n).drop_last() =~= Seq::<char>::empty());
        assert(decimal_value(Seq::<char>::empty()) == 0);
        assert(decimal_value(decimal(n)) == decimal_value(decimal(n).drop_last()) * 10
            + digit_value(decimal(n).last()));
    }
}

proof fn lemma_prefix_value(s: Seq<char>, k: int)
    requires
        0 <= k <= s.len(),
        all_digits(s),
    ensures
        0 <= decimal_value(s.subrange(0, k)) <= decimal_value(s),
    decreases s.len(),
{
    if s.len() > 0 {
        if k == s.len() {
            assert(s.subrange(0, k) =~= s);
            lemma_prefix_value(s.drop_last(), 0);
        } else {
            lemma_prefix_value(s.drop_last(), k);
            assert(s.drop_last().subrange(0, k) =~= s.subrange(0, k));
        }
    } else {
        assert(s.subrange(0, k) =~= s);
    }
}

fn decimal_text(n: u64) -> (r: String)
    ensures
        r@ == decimal(n as nat),
    decreases n,
{
    let mut s = if n < 10 {
        String::new()
    } else {
        decimal_text(n / 10)
    };
    s.append(digit_str((n % 10) as u32));
    proof {
        assert(s@ =~= decimal(n as nat));
    }
    s
}

/// The compact JSON of the claim set with subject `sub` and expiry `exp`.
pub fn claims_text(sub: &str, exp: u64) -> (r: String)
    ensures
        r@ == claims_json(sub@, exp),
{
    let mut s = "{\"exp\":".to_owned();
    let digits = decimal_text(exp);
    s.append(digits.as_str());
    s.append(",\"sub\":\"");
    let escaped = escape_json(sub);
    s.append(escaped.as_str());
    s.append("\"}");
    proof {
        reveal_strlit("{\"exp\":");
        reveal_strlit(",\"sub\":\"");
        reveal_strlit("\"}");
        assert("{\"exp\":"@ =~= exp_prefix());
        assert(",\"sub\":\""@ =~= sub_infix());
        assert("\"}"@ =~= claims_suffix());
        assert(s@ =~= claims_json(sub@, exp));
    }
    s
}

/// Reads back a claim set written by `claims_text`; `None` for any other text.
pub fn parse_claims_text(t: &str) -> (r: Option<Claims>)
    ensures
        match r {
            Some(c) => t@ == claims_json(c.sub@, c.exp),
            None => forall|sub: Seq<char>, exp: u64| t@ != #[trigger] claims_json(sub, exp),
        },
{
    let ghost w: Option<(Seq<char>, u64)> = if exists|sub: Seq<char>, exp: u64|
        t@ == #[trigger] claims_json(sub, exp) {
        Some(choose|sub: Seq<char>, exp: u64| t@ == #[trigger] claims_json(sub, exp))
    } else {
        None
    };
    let v = chars_of(t);
    let n = v.len();
    proof {
        if let Some((sub, exp)) = w {
            lemma_decimal_digits(exp as nat);
            let d = decimal(exp as nat);
            assert(t@.len() == 17 + d.len() + json_escape(sub).len());
            assert(t@.subrange(7, 7 + d.len() as int) =~= d);
            assert(t@[7 + d.len() as int] == ',');
        }
    }
    if n < 18 {
        return None;
    }
    let mut i: usize = 7;
    let mut val: u64 = 0;
    while i < n && '0' <= v[i] && v[i] <= '9'
        invariant
            v@ == t@,
            n == v@.len(),
            7 <= i <= n,
            all_digits(v@.subrange(7, i as int)),
            val == decimal_value(v@.subrange(7, i as int)),
            w is None ==> forall|sub: Seq<char>, exp: u64| t@ != #[trigger] claims_json(sub, exp),
            w matches Some((sub, exp)) ==> t@.len() == 17 + decimal(exp as nat).len() + json_escape(
                sub,
            ).len() && i <= 7 + decimal(exp as nat).len() as int && t@.subrange(
                7,
                7 + decimal(exp as nat).len() as int,
            ) == decimal(exp as nat) && t@[7 + decimal(exp as nat).len() as int] == ','
                && all_digits(decimal(exp as nat)) && decimal_value(decimal(exp as nat))
                == exp,
        decreases n - i,
    {
        let d = (v[i] as u32 - 48) as u64;
        let ghost prefix = v@.subrange(7, i + 1);
        proof {
            assert(prefix.drop_last() =~= v@.subrange(7, i as int));
            assert(all_digits(prefix));
            assert(decimal_value(prefix) == val * 10 + d);
            assert(w matches Some((sub, exp)) ==> decimal_value(prefix) <= exp) by {
                if let Some((sub, exp)) = w {
                    let ds = decimal(exp as nat);
                    assert(i < 7 + ds.len() as int);
                    assert forall|j: int| 0 <= j < i + 1 - 7 implies #[trigger] ds[j]
                        == prefix[j] by {
                        assert(t@.subrange(7, 7 + ds.len() as int)[j] == t@[7 + j]);
                    }
                    assert(ds.subrange(0, i + 1 - 7) =~= prefix);
                    lemma_prefix_value(ds, i + 1 - 7);
                }
            }
        }
        if val > (u64::MAX - d) / 10 {
            proof {
                assert(val * 10 + d > u64::MAX) by (nonlinear_arith)
                    requires
                        val > (u64::MAX - d) / 10,
                        d <= 9,
                ;
                assert(w is None);
            }
            return None;
        }
        proof {
            assert(val * 10 + d <= u64::MAX) by (nonlinear_arith)
                requires
                    val <= (u64::MAX - d) / 10,
                    d <= 9,
            ;
        }
        val = val * 10 + d;
        i += 1;
    }
    proof {
        if let Some((sub, exp)) = w {
            let ds = decimal(exp as nat);
            if i < 7 + ds.len() as int {
                assert(ds[i - 7] == t@[i as int]);
                assert(is_digit_char(ds[i - 7]));
            }
            assert(i == 7 + ds.len() as int);
            assert(v@.subrange(7, i as int) =~= ds);
        }
    }
    if n - i < 10 {
        return None;
    }
    let segment = t.substring_char(i + 8, n - 2);
    proof {
        if let Some((s0, exp)) = w {
            assert(segment@ =~= json_escape(s0));
        }
    }
    let sub = match unescape_json(segment) {
        Some(s) => s,
        None => {
            return None;
        },
    };
    let expected = claims_text(sub.as_str(), val);
    let actual = t.to_owned();
    if expected == actual {
        Some(Claims { sub, exp: val })
    } else {
        None
    }
}

} // verus!

verus! {

/// Whether `text` is the JSON of some claim set.
pub open spec fn is_claim_set(text: Seq<char>) -> bool {
    exists|sub: Seq<char>, exp: u64| text == #[trigger] claims_json(sub, exp)
}

/// Whether `token`, verified with `key`, carries the claim set (`sub`, `exp`).
pub open spec fn carries(token: Seq<char>, key: Seq<u8>, sub: Seq<char>, exp: u64) -> bool {
    jwt_verified_claims(token, key) == Some(claims_json(sub, exp))
}

/// The claim set that `token` carries under `key`, if any (there is at most one).
pub open spec fn token_claims(token: Seq<char>, key: Seq<u8>) -> Option<(Seq<char>, u64)> {
    if exists|sub: Seq<char>, exp: u64| #[trigger] carries(token, key, sub, exp) {
        Some(choose|sub: Seq<char>, exp: u64| #[trigger] carries(token, key, sub, exp))
    } else {
        None
    }
}

/// The expiry of a token issued at `now`, if it fits the clock.
pub open spec fn token_expiry(now: u64) -> Option<u64> {
    if now <= u64::MAX - TOKEN_TTL_SECONDS {
        Some((now + TOKEN_TTL_SECONDS) as u64)
    } else {
        None
    }
}

/// Distinct claim sets have distinct JSON.
pub proof fn lemma_claims_json_injective(s1: Seq<char>, e1: u64, s2: Seq<char>, e2: u64)
    requires
        claims_json(s1, e1) == claims_json(s2, e2),
    ensures
        s1 == s2,
        e1 == e2,
{
    lemma_decimal_digits(e1 as nat);
    lemma_decimal_digits(e2 as nat);
    let t = claims_json(s1, e1);
    let t2 = claims_json(s2, e2);
    let d1 = decimal(e1 as nat);
    let d2 = decimal(e2 as nat);
    assert(t[7 + d1.len() as int] == ',');
    assert(t2[7 + d2.len() as int] == ',');
    if d1.len() < d2.len() {
        assert(t2[7 + d1.len() as int] == d2[d1.len() as int]);
        assert(is_digit_char(d2[d1.len() as int]));
        assert(false);
    }
    if d2.len() < d1.len() {
        assert(t[7 + d2.len() as int] == d1[d2.len() as int]);
        assert(is_digit_char(d1[d2.len() as int]));
        assert(false);
    }
    assert(d1 =~= t.subrange(7, 7 + d1.len() as int));
    assert(d2 =~= t2.subrange(7, 7 + d2.len() as int));
    assert(json_escape(s1) =~= t.subrange(15 + d1.len() as int, t.len() - 2));
    assert(json_escape(s2) =~= t2.subrange(15 + d2.len() as int, t2.len() - 2));
    lemma_escape_injective(s1, s2);
}

/// The claim set that a token carries is the one that `token_claims` names.
pub proof fn lemma_token_claims_unique(token: Seq<char>, key: Seq<u8>, sub: Seq<char>, exp: u64)
    requires
        carries(token, key, sub, exp),
    ensures
        token_claims(token, key) == Some((sub, exp)),
{
    let (s2, e2) = choose|s: Seq<char>, e: u64| #[trigger] carries(token, key, s, e);
    lemma_claims_json_injective(sub, exp, s2, e2);
}

/// A signed token whose subject is `email` and whose expiry is `now` plus the TTL.
pub fn generate_auth_token(email: &Email, key: &[u8], now: u64) -> (r: Result<
    String,
    GenerateTokenError,
>)
    ensures
        match r {
            Ok(t) => token_expiry(now) matches Some(exp) && t@ == jwt_signed(
                claims_json(email@, exp),
                key@,
            ) && token_claims(t@, key@) == Some((email@, exp)),
            Err(e) => e is UnexpectedError && token_expiry(now) is None,
        },
{
    if now > u64::MAX - TOKEN_TTL_SECONDS {
        return Err(GenerateTokenError::UnexpectedError);
    }
    let exp = now + TOKEN_TTL_SECONDS;
    let claims = claims_text(email.as_str(), exp);
    let r = create_token(&claims, key, Ghost(email@), Ghost(exp));
    proof {
        if r is Ok {
            lemma_token_claims_unique(r->Ok_0@, key@, email@, exp);
        }
    }
    r
}

/// Signs the claim set (`sub`, `exp`), written by `claims_text`, with `key`.
fn create_token(claims: &String, key: &[u8], sub: Ghost<Seq<char>>, exp: Ghost<u64>) -> (r: Result<
    String,
    GenerateTokenError,
>)
    requires
        claims@ == claims_json(sub@, exp@),
    ensures
        r matches Ok(t) && t@ == jwt_signed(claims@, key@) && carries(t@, key@, sub@, exp@),
{
    match jwt_encode(claims.as_str(), key) {
        Ok(t) => Ok(t),
        Err(e) => Err(GenerateTokenError::TokenError(e)),
    }
}

/// The claim set of `token` when its signature verifies under `key`; the
/// revocation store is not consulted, nor the expiry.
pub fn decode_claims(token: &str, key: &[u8]) -> (r: Result<Claims, TokenError>)
    ensures
        match r {
            Ok(c) => token_claims(token@, key@) == Some((c.sub@, c.exp)),
            Err(e) => token_claims(token@, key@) is None && e == TokenError::BadSignature,
        },
{
    let text = match jwt_decode(token, key) {
        Ok(t) => t,
        Err(_) => {
            return Err(TokenError::BadSignature);
        },
    };
    match parse_claims_text(text.as_str()) {
        Some(c) => {
            proof {
                lemma_token_claims_unique(token@, key@, c.sub@, c.exp);
            }
            Ok(c)
        },
        None => {
            proof {
                assert forall|sub: Seq<char>, exp: u64| !#[trigger] carries(
                    token@,
                    key@,
                    sub,
                    exp,
                ) by {
                    assert(text@ != claims_json(sub, exp));
                }
            }
            Err(TokenError::BadSignature)
        },
    }
}

/// Checks the signature and the expiry of `token` first, and only then whether
/// it stands banned in `banned`.
pub fn validate_token<B: BannedTokenStore>(token: &str, key: &[u8], banned: &B, now: u64) -> (r:
    Result<Claims, TokenError>)
    ensures
        banned.infallible() ==> r != Err::<Claims, TokenError>(TokenError::Unexpected),
        r == Err::<Claims, TokenError>(TokenError::Unexpected) ==> (token_claims(token@, key@)
            matches Some((sub, exp)) && now <= exp),
        r != Err::<Claims, TokenError>(TokenError::Unexpected) ==> match token_claims(
            token@,
            key@,
        ) {
            None => r == Err::<Claims, TokenError>(TokenError::BadSignature),
            Some((sub, exp)) => if exp < now {
                r == Err::<Claims, TokenError>(TokenError::Expired)
            } else if banned_at(banned.banned(), token@, now) {
                r == Err::<Claims, TokenError>(TokenError::Revoked)
            } else {
                r matches Ok(c) && c.sub@ == sub && c.exp == exp
            },
        },
{
    let claims = match decode_claims(token, key) {
        Ok(c) => c,
        Err(e) => {
            return Err(e);
        },
    };
    if claims.exp < now {
        return Err(TokenError::Expired);
    }
    match banned.is_token_banned(token, now) {
        Ok(true) => Err(TokenError::Revoked),
        Ok(false) => Ok(claims),
        Err(_) => Err(TokenError::Unexpected),
    }
}

} // verus!
