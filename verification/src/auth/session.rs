//! Stateless session tokens.
//!
//! A token is a JSON Web Token signed with HMAC-SHA-256 under the server's
//! secret. It carries the user's id (`sub`), the time it was issued (`iat`)
//! and the time it expires (`exp`), both in seconds since the epoch. Whether
//! a token is accepted depends on the token, the secret and the time alone.

use crate::auth::json::{claim_number, claim_text, read_number, read_text};
use crate::text::text_view;
use vstd::prelude::*;

verus! {

/// Why a session token was not accepted. Callers reject on each of them
/// alike; the distinction is for the log.
#[derive(Clone, Copy, Debug, PartialEq, Eq, Structural)]
pub enum TokenError {
    /// Not a token of the expected shape, or a claim is missing.
    Malformed,
    /// The signature is not the one the secret gives.
    SignatureMismatch,
    /// The time of expiry has passed.
    Expired,
}

/// What was wrong with a token that could not be decoded.
#[derive(Clone, Copy, Debug, PartialEq, Eq, Structural)]
pub enum DecodeFault {
    /// The token has the right shape, but its signature does not match.
    Signature,
    /// Anything else: the token cannot be read.
    Format,
}

/// The claims found in a token whose signature matched, each as far as it is
/// there and has the right type.
#[derive(Debug)]
pub struct RawClaims {
    pub sub: Option<String>,
    pub iat: Option<u64>,
    pub exp: Option<u64>,
}

/// The mathematical value of [`RawClaims`].
pub struct RawClaimsView {
    pub sub: Option<Seq<char>>,
    pub iat: Option<u64>,
    pub exp: Option<u64>,
}

impl View for RawClaims {
    type V = RawClaimsView;

    open spec fn view(&self) -> RawClaimsView {
        RawClaimsView {
            sub: match self.sub {
                Some(s) => Some(s@),
                None => None,
            },
            iat: self.iat,
            exp: self.exp,
        }
    }
}

/// The value of a validation result.
pub open spec fn outcome(r: Result<String, TokenError>) -> Result<Seq<char>, TokenError> {
    match r {
        Ok(user) => Ok(user@),
        Err(e) => Err(e),
    }
}

/// The value of claims that were read, or of the fault in their place.
pub open spec fn reading(d: Result<RawClaims, DecodeFault>) -> Result<RawClaimsView, DecodeFault> {
    match d {
        Ok(c) => Ok(c@),
        Err(e) => Err(e),
    }
}

/// The three claims of a session token as `claims` has them.
pub open spec fn claims_in(claims: serde_json::Value) -> RawClaimsView {
    RawClaimsView {
        sub: claim_text(claims, "sub"@),
        iat: claim_number(claims, "iat"@),
        exp: claim_number(claims, "exp"@),
    }
}

/// The three claims of the token that was decoded, or the fault in their
/// place.
pub open spec fn read_claims(d: Result<serde_json::Value, DecodeFault>) -> Result<
    RawClaimsView,
    DecodeFault,
> {
    match d {
        Ok(v) => Ok(claims_in(v)),
        Err(e) => Err(e),
    }
}

/// What reading gives for a token that carries all three claims.
pub open spec fn claims_of(sub: Seq<char>, iat: u64, exp: u64) -> Result<
    RawClaimsView,
    DecodeFault,
> {
    Ok(RawClaimsView { sub: Some(sub), iat: Some(iat), exp: Some(exp) })
}

/// The token that signing the three claims under `secret` gives, if any.
pub uninterp spec fn jwt_encoded(secret: Seq<char>, sub: Seq<char>, iat: u64, exp: u64) -> Option<
    Seq<char>,
>;

/// What decoding `token` under `secret` gives, the time left aside: the
/// claims as one JSON value, or the fault.
pub uninterp spec fn jwt_decoded(secret: Seq<char>, token: Seq<char>) -> Result<
    serde_json::Value,
    DecodeFault,
>;

/// Calls `jsonwebtoken::encode` with the default header (HS256) and the
/// claims `sub`, `iat` and `exp`. The token depends on the arguments alone,
/// and decoding it under the same secret gives the three claims back.
#[verifier::external_body]
fn jwt_encode(secret: &str, sub: &str, iat: u64, exp: u64) -> (r: Option<String>)
    ensures
        text_view(r) == jwt_encoded(secret@, sub@, iat, exp),
        r matches Some(t) ==> read_claims(jwt_decoded(secret@, t@)) == claims_of(sub@, iat, exp),
{
    let mut claims = serde_json::Map::new();
    claims.insert("sub".to_owned(), serde_json::Value::from(sub));
    claims.insert("iat".to_owned(), serde_json::Value::from(iat));
    claims.insert("exp".to_owned(), serde_json::Value::from(exp));
    let key = jsonwebtoken::EncodingKey::from_secret(secret.as_bytes());
    jsonwebtoken::encode(&jsonwebtoken::Header::default(), &claims, &key).ok()
}

/// Calls `jsonwebtoken::decode` for HS256 with the check of the expiry
/// switched off, so that the clock is not read: the result depends on the
/// arguments alone. A wrong signature is told apart from every other error.
#[verifier::external_body]
fn jwt_decode(secret: &str, token: &str) -> (r: Result<serde_json::Value, DecodeFault>)
    ensures
        r == jwt_decoded(secret@, token@),
{
    let mut rules = jsonwebtoken::Validation::new(jsonwebtoken::Algorithm::HS256);
    rules.validate_exp = false;
    let key = jsonwebtoken::DecodingKey::from_secret(secret.as_bytes());
    match jsonwebtoken::decode::<serde_json::Value>(token, &key, &rules) {
        Ok(data) => Ok(data.claims),
        Err(e) => match e.kind() {
            jsonwebtoken::errors::ErrorKind::InvalidSignature => Err(DecodeFault::Signature),
            _ => Err(DecodeFault::Format),
        },
    }
}

/// What validation makes of a decoding result at the time `now`.
///
/// A token that cannot be decoded is rejected for its signature or its
/// shape. A decoded one needs all three claims, and is accepted up to and
/// including the second of its expiry.
pub open spec fn judged(decoded: Result<RawClaimsView, DecodeFault>, now: u64) -> Result<
    Seq<char>,
    TokenError,
> {
    match decoded {
        Err(DecodeFault::Signature) => Err(TokenError::SignatureMismatch),
        Err(DecodeFault::Format) => Err(TokenError::Malformed),
        Ok(claims) => match (claims.sub, claims.iat, claims.exp) {
            (Some(sub), Some(_), Some(exp)) => if exp < now {
                Err(TokenError::Expired)
            } else {
                Ok(sub)
            },
            _ => Err(TokenError::Malformed),
        },
    }
}

/// Whether `secret` accepts `token` at the time `now`, and for which user.
pub open spec fn accepted(secret: Seq<char>, token: Seq<char>, now: u64) -> Result<
    Seq<char>,
    TokenError,
> {
    judged(read_claims(jwt_decoded(secret, token)), now)
}

/// The token minted for `user` at the time `now`, to live `ttl` seconds.
pub open spec fn minted(secret: Seq<char>, user: Seq<char>, now: u64, ttl: u64) -> Option<
    Seq<char>,
> {
    if now + ttl > u64::MAX {
        None
    } else {
        jwt_encoded(secret, user, now, (now + ttl) as u64)
    }
}

/// Decides on a decoded token at the time `now`: the user it stands for, or
/// why it is rejected.
pub fn judge(decoded: Result<RawClaims, DecodeFault>, now: u64) -> (r: Result<String, TokenError>)
    ensures
        outcome(r) == judged(reading(decoded), now),
{
    match decoded {
        Err(DecodeFault::Signature) => Err(TokenError::SignatureMismatch),
        Err(DecodeFault::Format) => Err(TokenError::Malformed),
        Ok(claims) => {
            let RawClaims { sub, iat, exp } = claims;
            match (sub, iat, exp) {
                (Some(sub), Some(_), Some(exp)) => {
                    if exp < now {
                        Err(TokenError::Expired)
                    } else {
                        Ok(sub)
                    }
                },
                _ => Err(TokenError::Malformed),
            }
        },
    }
}

/// Mints and validates session tokens under one secret.
#[derive(Clone)]
pub struct SessionTokens {
    secret: String,
    ttl: u64,
}

impl SessionTokens {
    /// The signing secret.
    pub closed spec fn secret(&self) -> Seq<char> {
        self.secret@
    }

    /// Seconds that a token lives.
    pub closed spec fn ttl(&self) -> u64 {
        self.ttl
    }

    /// A service that signs with `secret` and lets tokens live `ttl` seconds.
    pub fn new(secret: String, ttl: u64) -> (r: Self)
        ensures
            r.secret() == secret@,
            r.ttl() == ttl,
    {
        SessionTokens { secret, ttl }
    }

    /// A token for `user_id`, issued at `now` and expiring `ttl` seconds later.
    ///
    /// There is none where the time of expiry does not fit in 64 bits or the
    /// signer gives none. A token that is returned is accepted for `user_id`
    /// from `now` up to and including the second of its expiry.
    pub fn mint(&self, user_id: &str, now: u64) -> (r: Option<String>)
        ensures
            text_view(r) == minted(self.secret(), user_id@, now, self.ttl()),
            r matches Some(t) ==> forall|at: u64|
                at <= now + self.ttl() ==> #[trigger] accepted(self.secret(), t@, at) == Ok::<
                    Seq<char>,
                    TokenError,
                >(user_id@),
    {
        match now.checked_add(self.ttl) {
            None => None,
            Some(exp) => jwt_encode(self.secret.as_str(), user_id, now, exp),
        }
    }

    /// The id of the user that `token` stands for at the time `now`.
    ///
    /// Fails where the token cannot be read, where its signature is not the
    /// one the secret gives, and where `now` is past its expiry.
    pub fn validate(&self, token: &str, now: u64) -> (r: Result<String, TokenError>)
        ensures
            outcome(r) == accepted(self.secret(), token@, now),
    {
        let claims = match jwt_decode(self.secret.as_str(), token) {
            Ok(v) => Ok(
                RawClaims {
                    sub: read_text(&v, "sub"),
                    iat: read_number(&v, "iat"),
                    exp: read_number(&v, "exp"),
                },
            ),
            Err(e) => Err(e),
        };
        judge(claims, now)
    }
}

/// Where a token is accepted at `now`, it was decoded under the secret, it
/// names the user it is accepted for, and it carries a time of expiry that
/// `now` has not passed.
pub proof fn lemma_accepted_is_unexpired(secret: Seq<char>, token: Seq<char>, now: u64)
    requires
        accepted(secret, token, now) is Ok,
    ensures
        jwt_decoded(secret, token) matches Ok(v) && claims_in(v).exp matches Some(exp) && now
            <= exp && claims_in(v).sub == Some(accepted(secret, token, now)->Ok_0),
{
}

/// A token past its expiry is rejected, whether its signature matches or
/// not: unless a token decodes under the secret and carries a time of expiry
/// that `now` has not passed, it is not accepted at `now`.
pub proof fn lemma_expired_is_rejected(secret: Seq<char>, token: Seq<char>, now: u64)
    requires
        !(jwt_decoded(secret, token) matches Ok(v) && claims_in(v).exp matches Some(exp) && now
            <= exp),
    ensures
        accepted(secret, token, now) is Err,
{
}

/// Once the expiry of a token has passed it stays rejected: a token that is
/// not accepted at `now` for being expired is rejected at every later time.
pub proof fn lemma_expired_stays_expired(secret: Seq<char>, token: Seq<char>, now: u64, later: u64)
    requires
        accepted(secret, token, now) == Err::<Seq<char>, TokenError>(TokenError::Expired),
        now <= later,
    ensures
        accepted(secret, token, later) == Err::<Seq<char>, TokenError>(TokenError::Expired),
{
}

} // verus!
