//! The guard in front of the protected operations.
//!
//! A request passes four states: unauthenticated, then, once a candidate
//! token was found in it, token present, and from there valid or invalid.
//! The candidate is the bearer token of the `Authorization` header or, where
//! that header holds none, the session cookie. A request without a candidate
//! and a request whose candidate is not accepted are turned away with the
//! same answer.

use crate::auth::session::{accepted, SessionTokens, TokenError};
use crate::text::chars_of;
use vstd::prelude::*;
use vstd::string::StrSliceExecFns;
use vstd::string::StringExecFns;

verus! {

/// Name of the cookie that carries the session token.
pub const SESSION_COOKIE: &'static str = "iceblink_jwt";

/// What stands before the token in an `Authorization` header.
pub const BEARER: &'static str = "Bearer ";

/// Status of the answer to every request that is turned away.
pub const UNAUTHENTICATED: u16 = 401;

/// `s` without `prefix` in front, where it starts with it.
pub open spec fn strip_prefix(s: Seq<char>, prefix: Seq<char>) -> Option<Seq<char>> {
    if s.len() >= prefix.len() && s.take(prefix.len() as int) == prefix {
        Some(s.skip(prefix.len() as int))
    } else {
        None
    }
}

/// `s` without the spaces in front.
pub open spec fn trim_start(s: Seq<char>) -> Seq<char>
    decreases s.len(),
{
    if s.len() > 0 && s[0] == ' ' {
        trim_start(s.drop_first())
    } else {
        s
    }
}

/// The value of the pair `pair` where its name is `name`: what follows
/// `name` and `=`, spaces in front of the name left aside.
pub open spec fn pair_value(pair: Seq<char>, name: Seq<char>) -> Option<Seq<char>> {
    strip_prefix(trim_start(pair), name.push('='))
}

/// The value of the first pair named `name` among the pairs of `header`
/// that end at or behind `at`, where the pair around `at` starts at `start`.
/// Pairs are separated by `;`.
pub open spec fn cookie_scan(header: Seq<char>, name: Seq<char>, start: int, at: int) -> Option<
    Seq<char>,
>
    decreases header.len() - at,
{
    if at >= header.len() {
        pair_value(header.subrange(start, header.len() as int), name)
    } else if header[at] == ';' {
        match pair_value(header.subrange(start, at), name) {
            Some(v) => Some(v),
            None => cookie_scan(header, name, at + 1, at + 1),
        }
    } else {
        cookie_scan(header, name, start, at + 1)
    }
}

/// The value of the cookie `name` in a `Cookie` header: that of the first
/// of its `;`-separated pairs that carries this name.
pub open spec fn cookie_value(header: Seq<char>, name: Seq<char>) -> Option<Seq<char>> {
    cookie_scan(header, name, 0, 0)
}

/// The token that a request offers: the bearer token of its `Authorization`
/// header, else its session cookie.
pub open spec fn candidate(authorization: Option<Seq<char>>, cookie: Option<Seq<char>>) -> Option<
    Seq<char>,
> {
    let bearer = match authorization {
        Some(h) => strip_prefix(h, BEARER@),
        None => None,
    };
    match (bearer, cookie) {
        (Some(t), _) => Some(t),
        (None, Some(c)) => cookie_value(c, SESSION_COOKIE@),
        (None, None) => None,
    }
}

/// Why the guard turned a request away.
#[derive(Clone, Copy, Debug, PartialEq, Eq, Structural)]
pub enum Rejection {
    /// Neither the header nor the cookie holds a token.
    MissingToken,
    /// The token that was offered is not accepted.
    InvalidToken(TokenError),
}

/// What the guard decides on a candidate and on what validation said of it.
pub open spec fn decided(
    candidate: Option<Seq<char>>,
    verdict: spec_fn(Seq<char>) -> Result<Seq<char>, TokenError>,
) -> Result<Seq<char>, Rejection> {
    match candidate {
        None => Err(Rejection::MissingToken),
        Some(t) => match verdict(t) {
            Ok(user) => Ok(user),
            Err(e) => Err(Rejection::InvalidToken(e)),
        },
    }
}

/// The value of a decision.
pub open spec fn decision(r: Result<String, Rejection>) -> Result<Seq<char>, Rejection> {
    match r {
        Ok(user) => Ok(user@),
        Err(e) => Err(e),
    }
}

/// Whether `prefix` stands in `v` at `from`, before `end`.
fn starts_with_at(v: &Vec<char>, from: usize, end: usize, prefix: &Vec<char>) -> (r: bool)
    requires
        from <= end <= v.len(),
    ensures
        r == (strip_prefix(v@.subrange(from as int, end as int), prefix@) is Some),
{
    let ghost s = v@.subrange(from as int, end as int);
    if end - from < prefix.len() {
        return false;
    }
    let mut k: usize = 0;
    while k < prefix.len()
        invariant
            k <= prefix.len(),
            from <= end <= v.len(),
            end - from >= prefix.len(),
            s == v@.subrange(from as int, end as int),
            s.take(k as int) == prefix@.take(k as int),
        decreases prefix.len() - k,
    {
        if v[from + k] != prefix[k] {
            assert(s.take(prefix.len() as int)[k as int] != prefix@[k as int]);
            return false;
        }
        assert(s.take(k + 1) =~= s.take(k as int).push(s[k as int]));
        assert(prefix@.take(k + 1) =~= prefix@.take(k as int).push(prefix@[k as int]));
        k += 1;
    }
    assert(prefix@.take(k as int) =~= prefix@);
    true
}

/// The first place at or behind `from`, before `end`, that holds no space.
fn skip_spaces(v: &Vec<char>, from: usize, end: usize) -> (r: usize)
    requires
        from <= end <= v.len(),
    ensures
        from <= r <= end,
        v@.subrange(r as int, end as int) == trim_start(v@.subrange(from as int, end as int)),
{
    let mut r: usize = from;
    while r < end && v[r] == ' '
        invariant
            from <= r <= end <= v.len(),
            trim_start(v@.subrange(r as int, end as int)) == trim_start(
                v@.subrange(from as int, end as int),
            ),
        decreases end - r,
    {
        assert(v@.subrange(r as int, end as int).drop_first() =~= v@.subrange(
            r + 1,
            end as int,
        ));
        r += 1;
    }
    r
}

/// The value of the pair that `v` holds from `from` to `end`, where its name
/// is the one that `wanted` holds in front of its `=`.
fn pair_value_at(header: &str, v: &Vec<char>, from: usize, end: usize, wanted: &Vec<char>) -> (r:
    Option<String>)
    requires
        v@ == header@,
        from <= end <= v.len(),
    ensures
        match r {
            Some(t) => strip_prefix(trim_start(v@.subrange(from as int, end as int)), wanted@)
                == Some(t@),
            None => strip_prefix(trim_start(v@.subrange(from as int, end as int)), wanted@)
                is None,
        },
{
    let at = skip_spaces(v, from, end);
    if starts_with_at(v, at, end, wanted) {
        let value = header.substring_char(at + wanted.len(), end);
        assert(v@.subrange(at as int, end as int).skip(wanted@.len() as int) =~= v@.subrange(
            at + wanted.len(),
            end as int,
        ));
        Some(String::from_str(value))
    } else {
        None
    }
}

/// `s` without `prefix` in front, where it starts with it.
pub fn without_prefix(s: &str, prefix: &str) -> (r: Option<String>)
    ensures
        match r {
            Some(t) => strip_prefix(s@, prefix@) == Some(t@),
            None => strip_prefix(s@, prefix@) is None,
        },
{
    let v = chars_of(s);
    let p = chars_of(prefix);
    assert(v@.subrange(0, v@.len() as int) =~= v@);
    if starts_with_at(&v, 0, v.len(), &p) {
        let rest = s.substring_char(p.len(), v.len());
        assert(s@.skip(p@.len() as int) =~= s@.subrange(p@.len() as int, s@.len() as int));
        Some(String::from_str(rest))
    } else {
        None
    }
}

/// The value of the cookie `name` in the `Cookie` header `header`.
pub fn cookie(header: &str, name: &str) -> (r: Option<String>)
    ensures
        match r {
            Some(t) => cookie_value(header@, name@) == Some(t@),
            None => cookie_value(header@, name@) is None,
        },
{
    let v = chars_of(header);
    let mut wanted = chars_of(name);
    wanted.push('=');
    let mut start: usize = 0;
    let mut at: usize = 0;
    while at < v.len()
        invariant
            start <= at <= v.len(),
            v@ == header@,
            wanted@ == name@.push('='),
            cookie_value(header@, name@) == cookie_scan(header@, name@, start as int, at as int),
        decreases v.len() - at,
    {
        if v[at] == ';' {
            match pair_value_at(header, &v, start, at, &wanted) {
                Some(t) => {
                    return Some(t);
                },
                None => {
                    start = at + 1;
                },
            }
        }
        at += 1;
    }
    pair_value_at(header, &v, start, at, &wanted)
}

/// The token that a request offers: the bearer token of its `Authorization`
/// header, else its session cookie.
pub fn candidate_token(authorization: Option<&str>, cookie_header: Option<&str>) -> (r: Option<
    String,
>)
    ensures
        match r {
            Some(t) => candidate(header_text(authorization), header_text(cookie_header)) == Some(
                t@,
            ),
            None => candidate(header_text(authorization), header_text(cookie_header)) is None,
        },
{
    let bearer = match authorization {
        Some(h) => without_prefix(h, BEARER),
        None => None,
    };
    match (bearer, cookie_header) {
        (Some(t), _) => Some(t),
        (None, Some(c)) => cookie(c, SESSION_COOKIE),
        (None, None) => None,
    }
}

/// The characters of a header that may be absent.
pub open spec fn header_text(h: Option<&str>) -> Option<Seq<char>> {
    match h {
        Some(s) => Some(s@),
        None => None,
    }
}

impl Rejection {
    /// Status of the answer: the same for every reason, so that the caller
    /// learns nothing of why the token failed.
    pub fn status(&self) -> (r: u16)
        ensures
            r == UNAUTHENTICATED,
    {
        UNAUTHENTICATED
    }
}

impl SessionTokens {
    /// Decides on a request at the time `now`: the id of the user it comes
    /// from, or the reason why it is turned away.
    ///
    /// The user is the one that the offered token is accepted for; a request
    /// that offers none is turned away without asking the token service.
    pub fn authenticate(&self, authorization: Option<&str>, cookie_header: Option<&str>, now: u64) -> (r:
        Result<String, Rejection>)
        ensures
            decision(r) == decided(
                candidate(header_text(authorization), header_text(cookie_header)),
                |t: Seq<char>| accepted(self.secret(), t, now),
            ),
    {
        match candidate_token(authorization, cookie_header) {
            None => Err(Rejection::MissingToken),
            Some(t) => match self.validate(t.as_str(), now) {
                Ok(user) => Ok(user),
                Err(e) => Err(Rejection::InvalidToken(e)),
            },
        }
    }
}

/// The header comes first: a request whose `Authorization` header holds a
/// bearer token offers that token, whatever its cookies say.
pub proof fn lemma_header_comes_first(
    authorization: Seq<char>,
    cookie_header: Option<Seq<char>>,
    token: Seq<char>,
)
    requires
        strip_prefix(authorization, BEARER@) == Some(token),
    ensures
        candidate(Some(authorization), cookie_header) == Some(token),
{
}

/// A request is let through only for the user of an accepted token: where
/// the decision is a user, a token was offered and validation accepted it
/// for that user.
pub proof fn lemma_decided_user(
    offered: Option<Seq<char>>,
    verdict: spec_fn(Seq<char>) -> Result<Seq<char>, TokenError>,
)
    requires
        decided(offered, verdict) is Ok,
    ensures
        offered matches Some(t) && verdict(t) == Ok::<Seq<char>, TokenError>(
            decided(offered, verdict)->Ok_0,
        ),
{
}

/// What a collaborator can ask of the server.
#[derive(Clone, Copy, Debug, PartialEq, Eq, Structural)]
pub enum Operation {
    Login,
    ListCodes,
    AddCode,
    EditCode,
    DeleteCode,
    FetchCodeIcon,
    Checksum,
    DeleteAccount,
    InstanceMetadata,
    Metrics,
}

/// The operations behind the guard: exactly those that work on the data of
/// one user.
pub open spec fn protected(op: Operation) -> bool {
    op != Operation::Login && op != Operation::InstanceMetadata && op != Operation::Metrics
}

impl Operation {
    /// Whether the guard stands in front of this operation.
    pub fn needs_session(&self) -> (r: bool)
        ensures
            r == protected(*self),
    {
        match self {
            Operation::Login | Operation::InstanceMetadata | Operation::Metrics => false,
            Operation::ListCodes
            | Operation::AddCode
            | Operation::EditCode
            | Operation::DeleteCode
            | Operation::FetchCodeIcon
            | Operation::Checksum
            | Operation::DeleteAccount => true,
        }
    }
}

} // verus!
