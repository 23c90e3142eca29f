use vstd::prelude::*;
use crate::error::AuthError;
use crate::user::{User, UserView};

verus! {

/// Seconds a reset token can be redeemed after it was issued: one hour.
pub const RESET_VALIDITY: i64 = 3_600;

/// Characters in a freshly drawn reset token.
pub const RESET_TOKEN_LENGTH: usize = 36;

/// Calls `Uuid::new_v4` of the `uuid` crate and writes the result with its
/// `to_string`. The value is random, so nothing is claimed of it but its
/// length: the hyphenated form has 36 characters.
#[verifier::external_body]
pub(crate) fn random_token() -> (token: String)
    ensures
        token@.len() == RESET_TOKEN_LENGTH,
{
    uuid::Uuid::new_v4().to_string()
}

/// The account once `token` was issued for it at `now`.
pub open spec fn reset_issued(user: UserView, token: Seq<char>, now: int) -> UserView {
    UserView { reset_token: Some(token), reset_token_expiry: Some(now + RESET_VALIDITY), ..user }
}

/// What issuing `token` at `now` answers and what it leaves of the account.
/// Where the expiry would not fit a timestamp the answer is `Internal` and
/// the account is left alone.
pub open spec fn issue_spec(user: UserView, token: Seq<char>, now: int) -> (
    Result<(), AuthError>,
    UserView,
) {
    if now + RESET_VALIDITY > i64::MAX {
        (Err(AuthError::Internal), user)
    } else {
        (Ok(()), reset_issued(user, token, now))
    }
}

/// Whether `token` redeems this account at `now`: it is the token the
/// account holds, and its expiry lies strictly after `now`.
pub open spec fn redeemable(user: UserView, token: Seq<char>, now: int) -> bool {
    &&& user.reset_token == Some(token)
    &&& user.reset_token_expiry matches Some(expiry)
    &&& expiry > now
}

/// The account once its reset token was redeemed for the password hash
/// `hash`: the hash is stored and both reset fields are cleared together.
pub open spec fn redeemed(user: UserView, hash: Seq<char>) -> UserView {
    UserView { password: hash, reset_token: None, reset_token_expiry: None, ..user }
}

/// What redeeming `token` at `now` for `hash` answers and what it leaves of
/// the account.
pub open spec fn redeem_spec(user: UserView, token: Seq<char>, hash: Seq<char>, now: int) -> (
    Result<(), AuthError>,
    UserView,
) {
    if redeemable(user, token, now) {
        (Ok(()), redeemed(user, hash))
    } else {
        (Err(AuthError::InvalidOrExpiredToken), user)
    }
}

/// Stores `token` on the account, to expire [`RESET_VALIDITY`] seconds after
/// `now`. A token still pending is replaced.
pub fn issue_for(user: &mut User, token: String, now: i64) -> (r: Result<(), AuthError>)
    ensures
        r == issue_spec(old(user)@, token@, now as int).0,
        final(user)@ == issue_spec(old(user)@, token@, now as int).1,
        r is Err ==> *final(user) == *old(user),
        old(user)@.wf() ==> final(user)@.wf(),
{
    match now.checked_add(RESET_VALIDITY) {
        Some(expiry) => {
            user.reset_token = Some(token);
            user.reset_token_expiry = Some(expiry);
            Ok(())
        },
        None => Err(AuthError::Internal),
    }
}

/// Executable form of [`redeemable`].
pub fn is_redeemable(user: &User, token: &str, now: i64) -> (ok: bool)
    ensures
        ok == redeemable(user@, token@, now as int),
{
    match (&user.reset_token, user.reset_token_expiry) {
        (Some(held), Some(expiry)) => held.as_str().eq(token) && expiry > now,
        _ => false,
    }
}

/// Redeems `token` at `now`: stores `hash` as the new password hash and
/// clears the token and its expiry in the same step. A token that the
/// account does not hold, or whose time has passed, changes nothing.
pub fn redeem(user: &mut User, token: &str, hash: String, now: i64) -> (r: Result<
    (),
    AuthError,
>)
    ensures
        r == redeem_spec(old(user)@, token@, hash@, now as int).0,
        final(user)@ == redeem_spec(old(user)@, token@, hash@, now as int).1,
        r is Err ==> *final(user) == *old(user),
        old(user)@.wf() ==> final(user)@.wf(),
{
    if is_redeemable(user, token, now) {
        user.password = hash;
        user.reset_token = None;
        user.reset_token_expiry = None;
        Ok(())
    } else {
        Err(AuthError::InvalidOrExpiredToken)
    }
}

/// A token issued at `issued` redeems the account at any moment before the
/// hour is over, then never again; once the hour is over it redeems
/// nothing.
pub proof fn law_reset_token_redeems_once(
    user: UserView,
    token: Seq<char>,
    hash: Seq<char>,
    issued: int,
    now: int,
    later: int,
)
    requires
        issue_spec(user, token, issued).0 is Ok,
    ensures
        now < issued + RESET_VALIDITY ==> {
            let holder = issue_spec(user, token, issued).1;
            &&& redeem_spec(holder, token, hash, now) == (
                Ok::<(), AuthError>(()),
                redeemed(holder, hash),
            )
            &&& redeemed(holder, hash).password == hash
            &&& redeem_spec(redeemed(holder, hash), token, hash, later) == (
                Err::<(), AuthError>(AuthError::InvalidOrExpiredToken),
                redeemed(holder, hash),
            )
        },
        now >= issued + RESET_VALIDITY ==> {
            let holder = issue_spec(user, token, issued).1;
            redeem_spec(holder, token, hash, now) == (
                Err::<(), AuthError>(AuthError::InvalidOrExpiredToken),
                holder,
            )
        },
{
}

} // verus!
