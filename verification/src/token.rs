use vstd::prelude::*;
use crate::error::AuthError;
use crate::subject::{format_subject, parse_subject, parsed_id, subject_of, lemma_subject_round_trip};

verus! {

/// Seconds a session token stays valid after it was issued: seven days.
pub const TOKEN_VALIDITY: i64 = 604_800;

/// What a session token asserts: who it is for, and until when.
#[derive(Debug)]
pub struct Claims {
    /// The user id, written in decimal.
    pub sub: String,
    /// Expiry, in seconds since the Unix epoch.
    pub exp: i64,
}

/// The error type of the `jsonwebtoken` crate, carried through and never read.
#[verifier::external_type_specification]
#[verifier::external_body]
pub struct ExJwtError(jsonwebtoken::errors::Error);

/// The token that `jsonwebtoken::encode` makes, under the default header
/// (HS256), of the claims `sub` and `exp` with `secret` as the key.
pub uninterp spec fn signed_token(sub: Seq<char>, exp: int, secret: Seq<u8>) -> Seq<char>;

/// The claims `sub` and `exp` that `jsonwebtoken::decode` reads from `token`
/// once it has checked the HS256 signature against `secret`, with the check
/// of `exp` against the system clock switched off; `None` where it reports an
/// error or where `sub` is no string or `exp` no 64-bit integer.
pub uninterp spec fn token_claims(token: Seq<char>, secret: Seq<u8>) -> Option<(Seq<char>, int)>;

/// Calls `jsonwebtoken::encode` on the two claims, in the order `sub`, `exp`.
/// The contract names the result and claims two things more.
///
/// The call succeeds. `encode` reports an error where the key is of another
/// family than the header's algorithm, where the header or the claims do not
/// serialise, and where signing fails. Here the header is the default one
/// (HS256) and the key is made by `EncodingKey::from_secret`, both of the
/// HMAC family; the claims are a JSON map of one string and one integer; and
/// signing with HS256 returns `Ok` in every case.
///
/// A token that was handed out decodes, under the same secret, to the claims
/// it was made from. `decode` asks for an `exp` that is not negative, so this
/// is claimed for such an `exp` only.
#[verifier::external_body]
fn jwt_encode(claims: &Claims, secret: &[u8]) -> (r: Result<String, jsonwebtoken::errors::Error>)
    ensures
        r is Ok,
        r matches Ok(t) ==> t@ == signed_token(claims.sub@, claims.exp as int, secret@),
        r matches Ok(t) ==> (claims.exp >= 0 ==> token_claims(t@, secret@) == Some(
            (claims.sub@, claims.exp as int),
        )),
{
    let mut body = serde_json::Map::new();
    body.insert("sub".to_string(), serde_json::Value::from(claims.sub.as_str()));
    body.insert("exp".to_string(), serde_json::Value::from(claims.exp));
    let key = jsonwebtoken::EncodingKey::from_secret(secret);
    jsonwebtoken::encode(&jsonwebtoken::Header::default(), &body, &key)
}

/// Calls `jsonwebtoken::decode` with the default validation (HS256, `exp`
/// required) but for the comparison of `exp` with the system clock, which is
/// switched off, and picks the two claims. The contract only names the result.
#[verifier::external_body]
fn jwt_decode(token: &str, secret: &[u8]) -> (r: Option<Claims>)
    ensures
        match r {
            Some(c) => token_claims(token@, secret@) == Some((c.sub@, c.exp as int)),
            None => token_claims(token@, secret@) is None,
        },
{
    let mut validation = jsonwebtoken::Validation::default();
    validation.validate_exp = false;
    let key = jsonwebtoken::DecodingKey::from_secret(secret);
    let data = jsonwebtoken::decode::<serde_json::Value>(token, &key, &validation).ok()?;
    let sub = data.claims.get("sub")?.as_str()?.to_string();
    let exp = data.claims.get("exp")?.as_i64()?;
    Some(Claims { sub, exp })
}

/// Whether a token that expires at `exp` is past its time at `now`. The
/// claim is compared with the time as it stands: at `exp` itself the token
/// still counts, one second later it does not.
pub open spec fn is_expired(exp: int, now: int) -> bool {
    exp < now
}

/// The user that claims stand for at `now`: none once they have expired,
/// none where the subject is not a user id.
pub open spec fn claims_user(claims: Option<(Seq<char>, int)>, now: int) -> Option<i32> {
    match claims {
        Some((sub, exp)) => if is_expired(exp, now) {
            None
        } else {
            parsed_id(sub)
        },
        None => None,
    }
}

impl Claims {
    /// The claims of a token issued to `user_id` at `now`.
    pub fn new(user_id: i32, now: i64) -> (claims: Claims)
        requires
            now + TOKEN_VALIDITY <= i64::MAX,
        ensures
            claims.sub@ == subject_of(user_id as int),
            claims.exp == now + TOKEN_VALIDITY,
    {
        Claims { sub: format_subject(user_id), exp: now + TOKEN_VALIDITY }
    }

    /// Executable form of [`is_expired`].
    pub fn expired_at(&self, now: i64) -> (expired: bool)
        ensures
            expired == is_expired(self.exp as int, now as int),
    {
        self.exp < now
    }

    /// The user these claims stand for at `now`, if they have not expired and
    /// their subject is a user id.
    pub fn user_at(&self, now: i64) -> (r: Option<i32>)
        ensures
            r == claims_user(Some((self.sub@, self.exp as int)), now as int),
    {
        if self.expired_at(now) {
            None
        } else {
            parse_subject(self.sub.as_str())
        }
    }
}

/// The session token issued to `user_id` at `now`: the one the signer makes
/// of the claims of [`Claims::new`]. There is none where the expiry would
/// not fit a timestamp.
pub open spec fn issued_token(user_id: int, secret: Seq<u8>, now: int) -> Option<Seq<char>> {
    if now + TOKEN_VALIDITY > i64::MAX {
        None
    } else {
        Some(signed_token(subject_of(user_id), now + TOKEN_VALIDITY, secret))
    }
}

/// Issues the session token of `user_id` at `now`, signed with `secret`. It
/// succeeds exactly where the expiry fits a timestamp; otherwise the error
/// is `Internal`. A token that was issued with an expiry that is not
/// negative decodes, under the same secret, to the claims it was made from.
pub fn issue_token(user_id: i32, secret: &[u8], now: i64) -> (r: Result<String, AuthError>)
    ensures
        match r {
            Ok(t) => issued_token(user_id as int, secret@, now as int) == Some(t@),
            Err(e) => e == AuthError::Internal && issued_token(
                user_id as int,
                secret@,
                now as int,
            ) is None,
        },
        r is Ok <==> now + TOKEN_VALIDITY <= i64::MAX,
        r matches Ok(t) ==> (now + TOKEN_VALIDITY >= 0 ==> token_claims(t@, secret@) == Some(
            (subject_of(user_id as int), now + TOKEN_VALIDITY),
        )),
{
    if now > i64::MAX - TOKEN_VALIDITY {
        return Err(AuthError::Internal);
    }
    let claims = Claims::new(user_id, now);
    match jwt_encode(&claims, secret) {
        Ok(t) => Ok(t),
        Err(_) => Err(AuthError::Internal),
    }
}

/// Resolves a session token to the user it was issued to. The answer is
/// `None` for a malformed token, a bad signature, an expired token, and a
/// subject that is no user id.
pub fn validate_token(token: &str, secret: &[u8], now: i64) -> (r: Option<i32>)
    ensures
        r == claims_user(token_claims(token@, secret@), now as int),
{
    match jwt_decode(token, secret) {
        Some(claims) => claims.user_at(now),
        None => None,
    }
}

/// Claims made for a user resolve to that user until they expire, and to
/// nobody afterwards.
pub proof fn law_claims_resolve_to_their_user(user_id: i32, exp: int, now: int)
    ensures
        !is_expired(exp, now) ==> claims_user(Some((subject_of(user_id as int), exp)), now)
            == Some(user_id),
        is_expired(exp, now) ==> claims_user(Some((subject_of(user_id as int), exp)), now)
            is None,
{
    lemma_subject_round_trip(user_id);
}

} // verus!
