//! The client side of OpenID Connect: what is made of the provider's
//! metadata document and of its answer to an authorization code.
//!
//! Fetching the document, the key set and the answer is the caller's part,
//! each with a timeout. Everything that is decided on what was fetched is
//! decided here. Identity tokens are expected to be signed with RS256, the
//! algorithm that every provider offers.

use crate::auth::json::{
    claim_number, claim_text, claim_texts, read_number, read_text, read_texts, text_rows,
};
use crate::auth::session::DecodeFault;
use crate::text::{chars_of, is_present, present, text_view};
use vstd::prelude::*;
use vstd::string::StrSliceExecFns;
use vstd::string::StringExecFns;

verus! {

/// Path of the metadata document below the provider's address.
pub const WELL_KNOWN: &'static str = "/.well-known/openid-configuration";

/// The provider's metadata document, as far as its fields were found in it.
#[derive(Debug)]
pub struct ProviderMetadata {
    pub issuer: Option<String>,
    pub authorization_endpoint: Option<String>,
    pub token_endpoint: Option<String>,
    pub jwks_uri: Option<String>,
}

/// What fetching the metadata document gave.
#[derive(Debug)]
pub enum Fetched {
    /// No answer, or none in time.
    Unreachable,
    /// An answer that is no metadata document.
    Unreadable,
    /// The document.
    Document(ProviderMetadata),
}

/// One of the three addresses that the document has to name.
#[derive(Clone, Copy, Debug, PartialEq, Eq, Structural)]
pub enum Endpoint {
    Authorization,
    Token,
    KeySet,
}

/// Why discovery failed.
#[derive(Clone, Copy, Debug, PartialEq, Eq, Structural)]
pub enum DiscoveryError {
    /// The document could not be fetched.
    Unreachable,
    /// What was fetched is no metadata document, or it names no issuer.
    Malformed,
    /// The document does not name this address.
    MissingEndpoint(Endpoint),
}

/// The discovered provider together with this client's credentials. Made
/// once at startup and not changed afterwards.
#[derive(Clone, Debug)]
pub struct OpenId {
    pub issuer: String,
    pub authorization_endpoint: String,
    pub token_endpoint: String,
    pub jwks_uri: String,
    pub client_id: String,
    pub client_secret: String,
}

/// One RSA key of the provider's key set: its id, where it has one, and its
/// modulus and exponent in base64url.
#[derive(Clone, Debug)]
pub struct ProviderKey {
    pub kid: Option<String>,
    pub n: String,
    pub e: String,
}

/// The claims of an identity token whose signature matched, each as far as
/// it is there and has the right type.
#[derive(Debug)]
pub struct RawIdentity {
    pub iss: Option<String>,
    pub sub: Option<String>,
    pub aud: Vec<String>,
    pub exp: Option<u64>,
}

/// The verified identity of a user.
#[derive(Debug)]
pub struct IdentityClaims {
    pub subject: String,
    pub issuer: String,
    pub expires: u64,
}

/// Why an identity token was not accepted.
#[derive(Clone, Copy, Debug, PartialEq, Eq, Structural)]
pub enum IdTokenError {
    /// The token cannot be read, or a claim is missing.
    Malformed,
    /// The key set holds no key for the token.
    UnknownKey,
    /// No key of the key set gives the token's signature.
    Signature,
    /// The token was issued by somebody else.
    Issuer,
    /// The token was issued for somebody else.
    Audience,
    /// The time of expiry has passed.
    Expired,
}

/// Why an authorization code did not lead to an identity.
#[derive(Clone, Copy, Debug, PartialEq, Eq, Structural)]
pub enum ExchangeError {
    /// The provider did not take the code: the user starts the login again.
    CodeRejected,
    /// The provider answered with a token that is not accepted: no session
    /// is opened.
    InvalidToken(IdTokenError),
}

/// What the provider's token endpoint answered to the code.
#[derive(Debug)]
pub enum TokenResponse {
    /// The provider did not take the code.
    Rejected,
    /// The provider took the code, but its answer holds no identity token.
    Unreadable,
    /// The identity token.
    IdToken(String),
}

/// `s` without a slash at its end.
pub open spec fn without_slash(s: Seq<char>) -> Seq<char> {
    if s.len() > 0 && s.last() == '/' {
        s.drop_last()
    } else {
        s
    }
}

/// What is wrong with what was fetched, if anything is.
pub open spec fn discovery_fault(fetched: Fetched) -> Option<DiscoveryError> {
    match fetched {
        Fetched::Unreachable => Some(DiscoveryError::Unreachable),
        Fetched::Unreadable => Some(DiscoveryError::Malformed),
        Fetched::Document(m) => if !present(m.issuer) {
            Some(DiscoveryError::Malformed)
        } else if !present(m.authorization_endpoint) {
            Some(DiscoveryError::MissingEndpoint(Endpoint::Authorization))
        } else if !present(m.token_endpoint) {
            Some(DiscoveryError::MissingEndpoint(Endpoint::Token))
        } else if !present(m.jwks_uri) {
            Some(DiscoveryError::MissingEndpoint(Endpoint::KeySet))
        } else {
            None
        },
    }
}

/// The key id in the header of `token`, where the header can be read:
/// `Some(None)` for a header without one.
pub uninterp spec fn jwt_key_id(token: Seq<char>) -> Option<Option<Seq<char>>>;

/// What decoding `token` under the RSA key `(n, e)` gives, the time, the
/// issuer and the audience left aside: the claims as one JSON value, or the
/// fault.
pub uninterp spec fn rsa_decoded(n: Seq<char>, e: Seq<char>, token: Seq<char>) -> Result<
    serde_json::Value,
    DecodeFault,
>;

/// The value of a key id that was read.
pub open spec fn key_id_view(k: Option<Option<String>>) -> Option<Option<Seq<char>>> {
    match k {
        Some(id) => Some(text_view(id)),
        None => None,
    }
}

/// Calls `jsonwebtoken::decode_header`: the `kid` of the token's header,
/// where the token has three parts and its header can be read.
#[verifier::external_body]
fn header_key_id(token: &str) -> (r: Option<Option<String>>)
    ensures
        key_id_view(r) == jwt_key_id(token@),
{
    match jsonwebtoken::decode_header(token) {
        Ok(header) => Some(header.kid),
        Err(_) => None,
    }
}

/// Calls `jsonwebtoken::DecodingKey::from_rsa_components` and then
/// `jsonwebtoken::decode` for RS256, with the checks of expiry and audience
/// switched off and no claim required, so that neither the clock is read nor
/// a claim judged: the result depends on the arguments alone. A wrong
/// signature is told apart from every other error, a key that cannot be read
/// among them.
#[verifier::external_body]
fn rsa_decode(n: &str, e: &str, token: &str) -> (r: Result<serde_json::Value, DecodeFault>)
    ensures
        r == rsa_decoded(n@, e@, token@),
{
    let mut rules = jsonwebtoken::Validation::new(jsonwebtoken::Algorithm::RS256);
    rules.validate_exp = false;
    rules.validate_aud = false;
    rules.required_spec_claims.clear();
    let key = match jsonwebtoken::DecodingKey::from_rsa_components(n, e) {
        Ok(key) => key,
        Err(_) => return Err(DecodeFault::Format),
    };
    match jsonwebtoken::decode::<serde_json::Value>(token, &key, &rules) {
        Ok(data) => Ok(data.claims),
        Err(e) => match e.kind() {
            jsonwebtoken::errors::ErrorKind::InvalidSignature => Err(DecodeFault::Signature),
            _ => Err(DecodeFault::Format),
        },
    }
}

/// Whether `key` can be the one that signed a token whose header names
/// `kid`: every key can where one of the two has no id, else the ids have to
/// be equal.
pub open spec fn usable(key: ProviderKey, kid: Option<Seq<char>>) -> bool {
    match (key.kid, kid) {
        (Some(a), Some(b)) => a@ == b,
        _ => true,
    }
}

/// The error that stands for a fault of decoding.
pub open spec fn fault_of(f: DecodeFault) -> IdTokenError {
    match f {
        DecodeFault::Signature => IdTokenError::Signature,
        DecodeFault::Format => IdTokenError::Malformed,
    }
}

/// The claims of `token` under the first usable key of `keys` that decodes
/// it. Where none does, the fault of the last usable key, or `fault` where
/// no key is usable.
pub open spec fn key_search(
    keys: Seq<ProviderKey>,
    kid: Option<Seq<char>>,
    token: Seq<char>,
    fault: IdTokenError,
) -> Result<serde_json::Value, IdTokenError>
    decreases keys.len(),
{
    if keys.len() == 0 {
        Err(fault)
    } else if !usable(keys[0], kid) {
        key_search(keys.drop_first(), kid, token, fault)
    } else {
        match rsa_decoded(keys[0].n@, keys[0].e@, token) {
            Ok(v) => Ok(v),
            Err(f) => key_search(keys.drop_first(), kid, token, fault_of(f)),
        }
    }
}

/// What the check of the claims gives: the token has to carry an issuer, a
/// subject and an expiry; the issuer has to be `issuer`, `client_id` has to
/// be among the audiences, and `now` must not be past the expiry.
pub open spec fn checked(
    iss: Option<Seq<char>>,
    sub: Option<Seq<char>>,
    aud: Seq<Seq<char>>,
    exp: Option<u64>,
    issuer: Seq<char>,
    client_id: Seq<char>,
    now: u64,
) -> Result<(Seq<char>, Seq<char>, u64), IdTokenError> {
    match (iss, sub, exp) {
        (Some(iss), Some(sub), Some(exp)) => if iss != issuer {
            Err(IdTokenError::Issuer)
        } else if !aud.contains(client_id) {
            Err(IdTokenError::Audience)
        } else if exp < now {
            Err(IdTokenError::Expired)
        } else {
            Ok((sub, iss, exp))
        },
        _ => Err(IdTokenError::Malformed),
    }
}

/// The value of a verification result: subject, issuer and expiry.
pub open spec fn identity(r: Result<IdentityClaims, IdTokenError>) -> Result<
    (Seq<char>, Seq<char>, u64),
    IdTokenError,
> {
    match r {
        Ok(c) => Ok((c.subject@, c.issuer@, c.expires)),
        Err(e) => Err(e),
    }
}

/// What verification makes of `token` with the keys `keys` at the time `now`.
pub open spec fn verified(
    issuer: Seq<char>,
    client_id: Seq<char>,
    token: Seq<char>,
    keys: Seq<ProviderKey>,
    now: u64,
) -> Result<(Seq<char>, Seq<char>, u64), IdTokenError> {
    match jwt_key_id(token) {
        None => Err(IdTokenError::Malformed),
        Some(kid) => match key_search(keys, kid, token, IdTokenError::UnknownKey) {
            Err(e) => Err(e),
            Ok(v) => checked(
                claim_text(v, "iss"@),
                claim_text(v, "sub"@),
                claim_texts(v, "aud"@),
                claim_number(v, "exp"@),
                issuer,
                client_id,
                now,
            ),
        },
    }
}

/// The value of an exchange result: subject, issuer and expiry.
pub open spec fn exchange(r: Result<IdentityClaims, ExchangeError>) -> Result<
    (Seq<char>, Seq<char>, u64),
    ExchangeError,
> {
    match r {
        Ok(c) => Ok((c.subject@, c.issuer@, c.expires)),
        Err(e) => Err(e),
    }
}

/// What the exchange makes of the provider's answer.
pub open spec fn exchanged(
    issuer: Seq<char>,
    client_id: Seq<char>,
    response: TokenResponse,
    keys: Seq<ProviderKey>,
    now: u64,
) -> Result<(Seq<char>, Seq<char>, u64), ExchangeError> {
    match response {
        TokenResponse::Rejected => Err(ExchangeError::CodeRejected),
        TokenResponse::Unreadable => Err(ExchangeError::InvalidToken(IdTokenError::Malformed)),
        TokenResponse::IdToken(t) => match verified(issuer, client_id, t@, keys, now) {
            Ok(c) => Ok(c),
            Err(e) => Err(ExchangeError::InvalidToken(e)),
        },
    }
}

/// The names and values of a form.
pub open spec fn form_view(form: Seq<(String, String)>) -> Seq<(Seq<char>, Seq<char>)> {
    form.map_values(|p: (String, String)| (p.0@, p.1@))
}

/// Whether `wanted` is among `list`.
fn holds_text(list: &Vec<String>, wanted: &String) -> (r: bool)
    ensures
        r == text_rows(list@).contains(wanted@),
{
    let mut i: usize = 0;
    while i < list.len()
        invariant
            i <= list.len(),
            forall|k: int| 0 <= k < i ==> text_rows(list@)[k] != wanted@,
        decreases list.len() - i,
    {
        if list[i] == *wanted {
            assert(text_rows(list@)[i as int] == wanted@);
            return true;
        }
        i += 1;
    }
    false
}

/// Whether `key` can be the one that signed a token whose header names `kid`.
fn is_usable(key: &ProviderKey, kid: &Option<String>) -> (r: bool)
    ensures
        r == usable(*key, text_view(*kid)),
{
    match (&key.kid, kid) {
        (Some(a), Some(b)) => *a == *b,
        _ => true,
    }
}

impl OpenId {
    /// Address of the metadata document of the provider at `server`.
    pub fn discovery_url(server: &str) -> (r: String)
        ensures
            r@ == without_slash(server@) + WELL_KNOWN@,
    {
        let v = chars_of(server);
        let n = v.len();
        let base = if n > 0 && v[n - 1] == '/' {
            server.substring_char(0, n - 1)
        } else {
            server
        };
        assert(base@ =~= without_slash(server@));
        let mut url = String::from_str(base);
        url.append(WELL_KNOWN);
        url
    }

    /// The client for the provider whose document was fetched.
    ///
    /// Fails where nothing or no document was fetched, where the document
    /// names no issuer, and where it lacks one of the three addresses; the
    /// first that is missing is reported.
    pub fn discover(fetched: Fetched, client_id: String, client_secret: String) -> (r: Result<
        OpenId,
        DiscoveryError,
    >)
        ensures
            match r {
                Ok(c) => {
                    &&& discovery_fault(fetched) is None
                    &&& fetched matches Fetched::Document(m)
                    &&& m.issuer == Some(c.issuer)
                    &&& m.authorization_endpoint == Some(c.authorization_endpoint)
                    &&& m.token_endpoint == Some(c.token_endpoint)
                    &&& m.jwks_uri == Some(c.jwks_uri)
                    &&& c.client_id == client_id
                    &&& c.client_secret == client_secret
                },
                Err(e) => discovery_fault(fetched) == Some(e),
            },
    {
        let m = match fetched {
            Fetched::Unreachable => {
                return Err(DiscoveryError::Unreachable);
            },
            Fetched::Unreadable => {
                return Err(DiscoveryError::Malformed);
            },
            Fetched::Document(m) => m,
        };
        if !is_present(&m.issuer) {
            return Err(DiscoveryError::Malformed);
        }
        if !is_present(&m.authorization_endpoint) {
            return Err(DiscoveryError::MissingEndpoint(Endpoint::Authorization));
        }
        if !is_present(&m.token_endpoint) {
            return Err(DiscoveryError::MissingEndpoint(Endpoint::Token));
        }
        if !is_present(&m.jwks_uri) {
            return Err(DiscoveryError::MissingEndpoint(Endpoint::KeySet));
        }
        let ProviderMetadata { issuer, authorization_endpoint, token_endpoint, jwks_uri } = m;
        Ok(
            OpenId {
                issuer: issuer.unwrap(),
                authorization_endpoint: authorization_endpoint.unwrap(),
                token_endpoint: token_endpoint.unwrap(),
                jwks_uri: jwks_uri.unwrap(),
                client_id,
                client_secret,
            },
        )
    }

    /// The form that is sent to the token endpoint to trade
    /// `authorization_code` for an identity token.
    pub fn token_request(&self, authorization_code: &str, redirect_uri: &str) -> (r: Vec<
        (String, String),
    >)
        ensures
            form_view(r@) == seq![
                ("grant_type"@, "authorization_code"@),
                ("code"@, authorization_code@),
                ("redirect_uri"@, redirect_uri@),
                ("client_id"@, self.client_id@),
                ("client_secret"@, self.client_secret@),
            ],
    {
        let mut form: Vec<(String, String)> = Vec::new();
        form.push((String::from_str("grant_type"), String::from_str("authorization_code")));
        form.push((String::from_str("code"), String::from_str(authorization_code)));
        form.push((String::from_str("redirect_uri"), String::from_str(redirect_uri)));
        form.push((String::from_str("client_id"), self.client_id.clone()));
        form.push((String::from_str("client_secret"), self.client_secret.clone()));
        assert(form_view(form@) =~= seq![
            ("grant_type"@, "authorization_code"@),
            ("code"@, authorization_code@),
            ("redirect_uri"@, redirect_uri@),
            ("client_id"@, self.client_id@),
            ("client_secret"@, self.client_secret@),
        ]);
        form
    }

    /// Checks the claims of an identity token whose signature matched.
    ///
    /// The token has to carry an issuer, a subject and an expiry. The issuer
    /// has to be the discovered one, this client's id has to be among the
    /// audiences, and `now` must not be past the expiry.
    pub fn check_claims(&self, claims: RawIdentity, now: u64) -> (r: Result<
        IdentityClaims,
        IdTokenError,
    >)
        ensures
            identity(r) == checked(
                text_view(claims.iss),
                text_view(claims.sub),
                text_rows(claims.aud@),
                claims.exp,
                self.issuer@,
                self.client_id@,
                now,
            ),
    {
        let RawIdentity { iss, sub, aud, exp } = claims;
        match (iss, sub, exp) {
            (Some(iss), Some(sub), Some(exp)) => {
                if iss != self.issuer {
                    Err(IdTokenError::Issuer)
                } else if !holds_text(&aud, &self.client_id) {
                    Err(IdTokenError::Audience)
                } else if exp < now {
                    Err(IdTokenError::Expired)
                } else {
                    Ok(IdentityClaims { subject: sub, issuer: iss, expires: exp })
                }
            },
            _ => Err(IdTokenError::Malformed),
        }
    }

    /// Verifies the identity token `token` against the key set `keys` at the
    /// time `now`.
    ///
    /// The keys are tried in their order, those left out whose id differs
    /// from the one in the token's header. The claims of the first key that
    /// gives the signature are checked as `check_claims` says.
    pub fn verify_id_token(&self, token: &str, keys: &Vec<ProviderKey>, now: u64) -> (r: Result<
        IdentityClaims,
        IdTokenError,
    >)
        ensures
            identity(r) == verified(self.issuer@, self.client_id@, token@, keys@, now),
    {
        let kid = match header_key_id(token) {
            Some(kid) => kid,
            None => {
                return Err(IdTokenError::Malformed);
            },
        };
        let mut fault = IdTokenError::UnknownKey;
        let mut i: usize = 0;
        assert(keys@.skip(0) =~= keys@);
        while i < keys.len()
            invariant
                i <= keys.len(),
                jwt_key_id(token@) == Some(text_view(kid)),
                key_search(keys@, text_view(kid), token@, IdTokenError::UnknownKey) == key_search(
                    keys@.skip(i as int),
                    text_view(kid),
                    token@,
                    fault,
                ),
            decreases keys.len() - i,
        {
            assert(keys@.skip(i as int).drop_first() =~= keys@.skip(i + 1));
            if is_usable(&keys[i], &kid) {
                match rsa_decode(keys[i].n.as_str(), keys[i].e.as_str(), token) {
                    Ok(v) => {
                        let raw = RawIdentity {
                            iss: read_text(&v, "iss"),
                            sub: read_text(&v, "sub"),
                            aud: read_texts(&v, "aud"),
                            exp: read_number(&v, "exp"),
                        };
                        return self.check_claims(raw, now);
                    },
                    Err(DecodeFault::Signature) => {
                        fault = IdTokenError::Signature;
                    },
                    Err(DecodeFault::Format) => {
                        fault = IdTokenError::Malformed;
                    },
                }
            }
            i += 1;
        }
        Err(fault)
    }

    /// Turns the provider's answer to an authorization code into the
    /// identity of the user.
    ///
    /// A code that the provider did not take is told apart from a token that
    /// does not stand verification.
    pub fn exchange_code(&self, response: TokenResponse, keys: &Vec<ProviderKey>, now: u64) -> (r:
        Result<IdentityClaims, ExchangeError>)
        ensures
            exchange(r) == exchanged(self.issuer@, self.client_id@, response, keys@, now),
    {
        match response {
            TokenResponse::Rejected => Err(ExchangeError::CodeRejected),
            TokenResponse::Unreadable => Err(ExchangeError::InvalidToken(IdTokenError::Malformed)),
            TokenResponse::IdToken(t) => match self.verify_id_token(t.as_str(), keys, now) {
                Ok(c) => Ok(c),
                Err(e) => Err(ExchangeError::InvalidToken(e)),
            },
        }
    }
}

/// An identity that was accepted at `now` names the discovered issuer, was
/// issued for this client, and has an expiry that `now` has not passed.
pub proof fn lemma_checked_identity(
    iss: Option<Seq<char>>,
    sub: Option<Seq<char>>,
    aud: Seq<Seq<char>>,
    exp: Option<u64>,
    issuer: Seq<char>,
    client_id: Seq<char>,
    now: u64,
)
    requires
        checked(iss, sub, aud, exp, issuer, client_id, now) is Ok,
    ensures
        iss == Some(issuer),
        aud.contains(client_id),
        exp matches Some(t) && now <= t,
        checked(iss, sub, aud, exp, issuer, client_id, now) == Ok::<
            (Seq<char>, Seq<char>, u64),
            IdTokenError,
        >((sub->Some_0, issuer, exp->Some_0)),
{
}

} // verus!
