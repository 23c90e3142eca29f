use vstd::prelude::*;
use crate::clock::{system_seconds, LATEST_READING};
use crate::config::Config;
use crate::error::AuthError;
use crate::gamification::{check_in_spec, upgrade_spec, CHECK_IN_COOLDOWN, CHECK_IN_REWARD};
use crate::password::{hash_password, password_matches, verify_password};
use crate::reset::{
    issue_spec, random_token, redeemable, redeemed, RESET_TOKEN_LENGTH, RESET_VALIDITY,
};
use crate::store::{
    key_matches, lemma_lookup_after_update, lemma_lookup_is_first_match, lemma_lookup_none,
    lemma_lookup_some, lemma_max_id_bounds, lookup, max_id, store_wf, KeyView, UserKey, UserStore,
};
use crate::token::{
    claims_user, is_expired, issue_token, issued_token, token_claims, validate_token,
    TOKEN_VALIDITY,
};
use crate::subject::{lemma_subject_round_trip, subject_of};
use crate::user::{User, UserView};

verus! {

/// What a successful login hands back.
#[derive(Debug)]
pub struct Session {
    /// The signed session token.
    pub token: String,
    /// The account that logged in.
    pub user_id: i32,
}

/// A session, as mathematical values.
pub ghost struct SessionView {
    pub token: Seq<char>,
    pub user_id: i32,
}

impl View for Session {
    type V = SessionView;

    open spec fn view(&self) -> SessionView {
        SessionView { token: self.token@, user_id: self.user_id }
    }
}

/// What a successful upgrade hands back.
#[derive(Clone, Copy, Debug, PartialEq, Eq, Structural)]
pub struct Upgraded {
    /// The account that was upgraded.
    pub user_id: i32,
    /// Its new level.
    pub level: i32,
    /// Its new point total.
    pub points: i32,
}

/// The answer of an upgrade for the account `user_id`, made of what the
/// engine answered for it.
pub open spec fn upgrade_result(user_id: i32, r: Result<(i32, i32), AuthError>) -> Result<
    Upgraded,
    AuthError,
> {
    match r {
        Ok((level, points)) => Ok(Upgraded { user_id, level, points }),
        Err(e) => Err(e),
    }
}

/// The answer of a login, with the session taken by its view.
pub open spec fn session_result(r: Result<Session, AuthError>) -> Result<SessionView, AuthError> {
    match r {
        Ok(s) => Ok(s@),
        Err(e) => Err(e),
    }
}

/// Whether `hash` can be what the hasher gave for `password`: either it
/// failed, or it gave a hash that matches.
pub open spec fn hash_fits(password: Seq<char>, hash: Option<Seq<char>>) -> bool {
    hash matches Some(h) ==> password_matches(password, h)
}

/// What a registration answers, as the new account's id, and what it leaves
/// of the accounts, where `hash` is what the hasher gave for the password.
/// A taken username or email is a conflict whatever the hasher gave.
pub open spec fn register_step(
    users: Seq<UserView>,
    username: Seq<char>,
    email: Seq<char>,
    hash: Option<Seq<char>>,
) -> (Result<i32, AuthError>, Seq<UserView>) {
    if lookup(users, KeyView::Username(username)) is Some || lookup(users, KeyView::Email(email))
        is Some {
        (Err(AuthError::Conflict), users)
    } else if max_id(users) + 1 > i32::MAX {
        (Err(AuthError::Internal), users)
    } else {
        match hash {
            None => (Err(AuthError::Internal), users),
            Some(h) => (
                Ok((max_id(users) + 1) as i32),
                users.push(UserView::fresh(max_id(users) + 1, username, email, h)),
            ),
        }
    }
}

/// What a login at `now` answers and what it leaves of the accounts. An
/// unknown username and a wrong password get the same answer.
pub open spec fn login_step(
    users: Seq<UserView>,
    username: Seq<char>,
    password: Seq<char>,
    secret: Seq<u8>,
    now: int,
) -> (Result<SessionView, AuthError>, Seq<UserView>) {
    match lookup(users, KeyView::Username(username)) {
        None => (Err(AuthError::InvalidCredentials), users),
        Some(i) => if !password_matches(password, users[i].password) {
            (Err(AuthError::InvalidCredentials), users)
        } else {
            match issued_token(users[i].id, secret, now) {
                None => (Err(AuthError::Internal), users),
                Some(token) => (
                    Ok(SessionView { token, user_id: users[i].id as i32 }),
                    users.update(i, UserView { is_online: true, ..users[i] }),
                ),
            }
        },
    }
}

/// What a request to reset the password of `email` answers and what it
/// leaves of the accounts, where `token` is the fresh token drawn for it.
pub open spec fn forgot_password_step(
    users: Seq<UserView>,
    email: Seq<char>,
    token: Seq<char>,
    now: int,
) -> (Result<(), AuthError>, Seq<UserView>) {
    match lookup(users, KeyView::Email(email)) {
        None => (Err(AuthError::EmailNotFound), users),
        Some(i) => (
            issue_spec(users[i], token, now).0,
            users.update(i, issue_spec(users[i], token, now).1),
        ),
    }
}

/// What redeeming `token` at `now` answers, as the id of the account
/// redeemed, and what it leaves of the accounts, where `hash` is what the
/// hasher gave for the new password. The first account that holds the token
/// unexpired is the one redeemed.
pub open spec fn reset_password_step(
    users: Seq<UserView>,
    token: Seq<char>,
    hash: Option<Seq<char>>,
    now: int,
) -> (Result<i32, AuthError>, Seq<UserView>) {
    match lookup(users, KeyView::ResetToken(token, now)) {
        None => (Err(AuthError::InvalidOrExpiredToken), users),
        Some(i) => match hash {
            None => (Err(AuthError::Internal), users),
            Some(h) => (Ok(users[i].id as i32), users.update(i, redeemed(users[i], h))),
        },
    }
}

/// What a check-in by `username` at `now` answers, as the new total, and
/// what it leaves of the accounts.
pub open spec fn check_in_step(users: Seq<UserView>, username: Seq<char>, now: int) -> (
    Result<i32, AuthError>,
    Seq<UserView>,
) {
    match lookup(users, KeyView::Username(username)) {
        None => (Err(AuthError::UserNotFound), users),
        Some(i) => (
            check_in_spec(users[i], now).0,
            users.update(i, check_in_spec(users[i], now).1),
        ),
    }
}

/// What an upgrade at `cost`, asked for at `now` under the session `token`,
/// answers and what it leaves of the accounts.
pub open spec fn upgrade_step(
    users: Seq<UserView>,
    token: Seq<char>,
    secret: Seq<u8>,
    cost: int,
    now: int,
) -> (Result<Upgraded, AuthError>, Seq<UserView>) {
    match claims_user(token_claims(token, secret), now) {
        None => (Err(AuthError::InvalidToken), users),
        Some(id) => match lookup(users, KeyView::Id(id as int)) {
            None => (Err(AuthError::UserNotFound), users),
            Some(i) => (
                upgrade_result(id, upgrade_spec(users[i], cost).0),
                users.update(i, upgrade_spec(users[i], cost).1),
            ),
        },
    }
}

/// Creates an account: no points, first level, offline. The id is one more
/// than the largest in use. A username or an email that is taken is a
/// conflict, and then nothing is hashed or stored.
pub fn register(store: &mut UserStore, username: String, email: String, password: &str) -> (r:
    Result<i32, AuthError>)
    requires
        old(store).wf(),
    ensures
        final(store).wf(),
        exists|hash: Option<Seq<char>>| #[trigger]
            hash_fits(password@, hash) && (r, final(store)@) == register_step(
                old(store)@,
                username@,
                email@,
                hash,
            ),
{
    let ghost none = None::<Seq<char>>;
    let by_name = UserKey::Username(username.as_str());
    let by_email = UserKey::Email(email.as_str());
    if store.find(&by_name).is_some() || store.find(&by_email).is_some() {
        assert(hash_fits(password@, none));
        return Err(AuthError::Conflict);
    }
    let id = match store.next_id() {
        Some(id) => id,
        None => {
            assert(hash_fits(password@, none));
            return Err(AuthError::Internal);
        },
    };
    match hash_password(password) {
        Err(_) => {
            assert(hash_fits(password@, none));
            Err(AuthError::Internal)
        },
        Ok(hash) => {
            let ghost some = Some(hash@);
            proof {
                lemma_max_id_bounds(store@);
                lemma_lookup_none(store@, KeyView::Id(id as int));
            }
            store.insert(User::new(id, username, email, hash));
            assert(hash_fits(password@, some));
            Ok(id)
        },
    }
}

/// Logs in at `now`: checks the password against the stored hash, issues a
/// session token and marks the account online. It succeeds whenever the
/// username is known and the password matches, unless the token's expiry
/// would not fit a timestamp.
pub fn login_at(
    store: &mut UserStore,
    config: &Config,
    username: &str,
    password: &str,
    now: i64,
) -> (r: Result<Session, AuthError>)
    requires
        old(store).wf(),
    ensures
        final(store).wf(),
        (session_result(r), final(store)@) == login_step(
            old(store)@,
            username@,
            password@,
            config.secret(),
            now as int,
        ),
        r matches Ok(s) ==> (now + TOKEN_VALIDITY >= 0 ==> token_claims(s.token@, config.secret())
            == Some((subject_of(s.user_id as int), now + TOKEN_VALIDITY))),
        r matches Ok(s) ==> (now + TOKEN_VALIDITY >= 0 ==> forall|later: int|
            !is_expired(now + TOKEN_VALIDITY, later) ==> #[trigger] claims_user(
                token_claims(s.token@, config.secret()),
                later,
            ) == Some(s.user_id)),
{
    let key = UserKey::Username(username);
    let i = match store.find(&key) {
        Some(i) => i,
        None => {
            return Err(AuthError::InvalidCredentials);
        },
    };
    proof {
        store.lemma_rows();
        lemma_lookup_some(store@, key@);
    }
    let user = store.user(i);
    if !verify_password(password, user.password.as_str()) {
        return Err(AuthError::InvalidCredentials);
    }
    let user_id = user.id;
    let token = match issue_token(user_id, config.secret_bytes(), now) {
        Ok(token) => token,
        Err(_) => {
            return Err(AuthError::Internal);
        },
    };
    let row = &mut store.users[i];
    row.is_online = true;
    proof {
        lemma_subject_round_trip(user_id);
        store.lemma_rows();
        assert(store@ =~= old(store)@.update(
            i as int,
            UserView { is_online: true, ..old(store)@[i as int] },
        ));
    }
    Ok(Session { token, user_id })
}

/// Stores `token` as the reset token of the account registered under
/// `email`, to expire an hour after `now`.
pub fn forgot_password_at(store: &mut UserStore, email: &str, token: String, now: i64) -> (r:
    Result<(), AuthError>)
    requires
        old(store).wf(),
    ensures
        final(store).wf(),
        (r, final(store)@) == forgot_password_step(old(store)@, email@, token@, now as int),
{
    let key = UserKey::Email(email);
    match store.find(&key) {
        None => Err(AuthError::EmailNotFound),
        Some(i) => {
            proof {
                store.lemma_rows();
                lemma_lookup_some(store@, key@);
            }
            let ghost issued = issue_spec(old(store)@[i as int], token@, now as int).1;
            let row = &mut store.users[i];
            let r = crate::reset::issue_for(row, token, now);
            proof {
                store.lemma_rows();
                assert(store@ =~= old(store)@.update(i as int, issued));
            }
            r
        },
    }
}

/// Redeems a reset token at `now`: the first account that holds it
/// unexpired gets the hash of `new_password`, and loses the token and its
/// expiry in the same step; its id is returned. Nothing is hashed unless
/// such an account exists.
pub fn reset_password_at(store: &mut UserStore, token: &str, new_password: &str, now: i64) -> (r:
    Result<i32, AuthError>)
    requires
        old(store).wf(),
    ensures
        final(store).wf(),
        exists|hash: Option<Seq<char>>| #[trigger]
            hash_fits(new_password@, hash) && (r, final(store)@) == reset_password_step(
                old(store)@,
                token@,
                hash,
                now as int,
            ),
{
    let ghost none = None::<Seq<char>>;
    let key = UserKey::ResetToken(token, now);
    let i = match store.find(&key) {
        Some(i) => i,
        None => {
            assert(hash_fits(new_password@, none));
            return Err(AuthError::InvalidOrExpiredToken);
        },
    };
    proof {
        store.lemma_rows();
        lemma_lookup_some(store@, key@);
    }
    match hash_password(new_password) {
        Err(_) => {
            assert(hash_fits(new_password@, none));
            Err(AuthError::Internal)
        },
        Ok(hash) => {
            let ghost some = Some(hash@);
            let ghost after = redeemed(old(store)@[i as int], hash@);
            let row = &mut store.users[i];
            let id = row.id;
            let r = crate::reset::redeem(row, token, hash, now);
            proof {
                store.lemma_rows();
                assert(store@ =~= old(store)@.update(i as int, after));
                assert(hash_fits(new_password@, some));
            }
            match r {
                Ok(()) => Ok(id),
                Err(e) => Err(e),
            }
        },
    }
}

/// Daily check-in of the account named `username`, at `now`.
pub fn check_in_at(store: &mut UserStore, username: &str, now: i64) -> (r: Result<i32, AuthError>)
    requires
        old(store).wf(),
    ensures
        final(store).wf(),
        (r, final(store)@) == check_in_step(old(store)@, username@, now as int),
{
    let key = UserKey::Username(username);
    match store.find(&key) {
        None => Err(AuthError::UserNotFound),
        Some(i) => {
            proof {
                store.lemma_rows();
                lemma_lookup_some(store@, key@);
            }
            let row = &mut store.users[i];
            let r = crate::gamification::check_in(row, now);
            proof {
                store.lemma_rows();
                assert(store@ =~= old(store)@.update(
                    i as int,
                    check_in_spec(old(store)@[i as int], now as int).1,
                ));
            }
            r
        },
    }
}

/// Level-up of the account that the session `token` stands for at `now`.
pub fn upgrade_at(store: &mut UserStore, config: &Config, token: &str, cost: i32, now: i64) -> (r:
    Result<Upgraded, AuthError>)
    requires
        old(store).wf(),
    ensures
        final(store).wf(),
        (r, final(store)@) == upgrade_step(
            old(store)@,
            token@,
            config.secret(),
            cost as int,
            now as int,
        ),
{
    let id = match validate_token(token, config.secret_bytes(), now) {
        Some(id) => id,
        None => {
            return Err(AuthError::InvalidToken);
        },
    };
    let key = UserKey::Id(id);
    match store.find(&key) {
        None => Err(AuthError::UserNotFound),
        Some(i) => {
            proof {
                store.lemma_rows();
                lemma_lookup_some(store@, key@);
            }
            let row = &mut store.users[i];
            let r = crate::gamification::upgrade(row, cost);
            proof {
                store.lemma_rows();
                assert(store@ =~= old(store)@.update(
                    i as int,
                    upgrade_spec(old(store)@[i as int], cost as int).1,
                ));
            }
            match r {
                Ok((level, points)) => Ok(Upgraded { user_id: id, level, points }),
                Err(e) => Err(e),
            }
        },
    }
}

/// [`login_at`] at the time the system clock shows. No reading of the clock
/// is so late that the token's expiry would not fit, so the login succeeds
/// exactly when the username is known and the password matches; every other
/// answer is `InvalidCredentials`.
pub fn login(store: &mut UserStore, config: &Config, username: &str, password: &str) -> (r: Result<
    Session,
    AuthError,
>)
    requires
        old(store).wf(),
    ensures
        final(store).wf(),
        r is Ok <==> (lookup(old(store)@, KeyView::Username(username@)) matches Some(i)
            && password_matches(password@, old(store)@[i].password)),
        r matches Err(e) ==> e == AuthError::InvalidCredentials,
        exists|now: int|
            {
                &&& 0 <= now <= LATEST_READING
                &&& (session_result(r), final(store)@) == #[trigger] login_step(
                    old(store)@,
                    username@,
                    password@,
                    config.secret(),
                    now,
                )
                &&& r matches Ok(s) ==> token_claims(s.token@, config.secret()) == Some(
                    (subject_of(s.user_id as int), now + TOKEN_VALIDITY),
                )
                &&& r matches Ok(s) ==> forall|later: int|
                    !is_expired(now + TOKEN_VALIDITY, later) ==> #[trigger] claims_user(
                        token_claims(s.token@, config.secret()),
                        later,
                    ) == Some(s.user_id)
            },
{
    let now = system_seconds();
    login_at(store, config, username, password, now)
}

/// Starts a password reset for the account registered under `email`: draws
/// a fresh random token, stores it with an expiry one hour from the time
/// the system clock shows, and hands it back for the notification channel.
/// Whether the notification arrives is not this function's concern: the
/// request has succeeded once the token is stored. It succeeds exactly when
/// an account is registered under `email`: no reading of the clock is so
/// late that the expiry would not fit. For any other email no token is
/// drawn.
pub fn forgot_password(store: &mut UserStore, email: &str) -> (r: Result<String, AuthError>)
    requires
        old(store).wf(),
    ensures
        final(store).wf(),
        r is Ok <==> lookup(old(store)@, KeyView::Email(email@)) is Some,
        match r {
            Ok(token) => token@.len() == RESET_TOKEN_LENGTH && exists|now: int|
                0 <= now <= LATEST_READING && (Ok::<(), AuthError>(()), final(store)@)
                    == #[trigger] forgot_password_step(old(store)@, email@, token@, now),
            Err(e) => e == AuthError::EmailNotFound && final(store)@ == old(store)@,
        },
{
    if store.find(&UserKey::Email(email)).is_none() {
        return Err(AuthError::EmailNotFound);
    }
    let token = random_token();
    let now = system_seconds();
    let handed_out = token.clone();
    let ghost drawn = token@;
    match forgot_password_at(store, email, token, now) {
        Ok(()) => {
            assert(handed_out@ == drawn);
            assert((Ok::<(), AuthError>(()), store@) == forgot_password_step(
                old(store)@,
                email@,
                drawn,
                now as int,
            ));
            Ok(handed_out)
        },
        Err(e) => {
            // The email is known and the expiry fits, so issuing cannot fail.
            Err(e)
        },
    }
}

/// [`reset_password_at`] at the time the system clock shows.
pub fn reset_password(store: &mut UserStore, token: &str, new_password: &str) -> (r: Result<
    i32,
    AuthError,
>)
    requires
        old(store).wf(),
    ensures
        final(store).wf(),
        exists|hash: Option<Seq<char>>, now: int|
            0 <= now <= LATEST_READING && hash_fits(new_password@, hash) && (r, final(store)@)
                == #[trigger] reset_password_step(old(store)@, token@, hash, now),
{
    let now = system_seconds();
    reset_password_at(store, token, new_password, now)
}

/// Resolves a session token to the user it stands for at the time the
/// system clock shows: the one check that every operation on behalf of a
/// user asks for.
pub fn authenticate(config: &Config, token: &str) -> (r: Option<i32>)
    ensures
        exists|now: int|
            0 <= now <= LATEST_READING && r == #[trigger] claims_user(
                token_claims(token@, config.secret()),
                now,
            ),
{
    let now = system_seconds();
    validate_token(token, config.secret_bytes(), now)
}

/// [`check_in_at`] at the time the system clock shows.
pub fn check_in(store: &mut UserStore, username: &str) -> (r: Result<i32, AuthError>)
    requires
        old(store).wf(),
    ensures
        final(store).wf(),
        exists|now: int|
            0 <= now <= LATEST_READING && (r, final(store)@) == #[trigger] check_in_step(
                old(store)@,
                username@,
                now,
            ),
{
    let now = system_seconds();
    check_in_at(store, username, now)
}

/// [`upgrade_at`] at the time the system clock shows.
pub fn upgrade(store: &mut UserStore, config: &Config, token: &str, cost: i32) -> (r: Result<
    Upgraded,
    AuthError,
>)
    requires
        old(store).wf(),
    ensures
        final(store).wf(),
        exists|now: int|
            0 <= now <= LATEST_READING && (r, final(store)@) == #[trigger] upgrade_step(
                old(store)@,
                token@,
                config.secret(),
                cost as int,
                now,
            ),
{
    let now = system_seconds();
    upgrade_at(store, config, token, cost, now)
}

/// Registration under a username and an email that nobody holds creates
/// one account and touches no other: it has the next id, no points, the
/// first level, is offline, has never checked in and has no reset pending.
/// The store keeps its invariants, and the account is found by its
/// username.
pub proof fn law_registration_creates_a_fresh_account(
    users: Seq<UserView>,
    username: Seq<char>,
    email: Seq<char>,
    hash: Seq<char>,
)
    requires
        store_wf(users),
        lookup(users, KeyView::Username(username)) is None,
        lookup(users, KeyView::Email(email)) is None,
        max_id(users) + 1 <= i32::MAX,
    ensures
        ({
            let (r, after) = register_step(users, username, email, Some(hash));
            let created = after.last();
            &&& r == Ok::<i32, AuthError>((max_id(users) + 1) as i32)
            &&& after.len() == users.len() + 1
            &&& after.subrange(0, users.len() as int) == users
            &&& created.id == max_id(users) + 1
            &&& created.username == username
            &&& created.email == email
            &&& created.password == hash
            &&& created.points == 0
            &&& created.level == 1
            &&& !created.is_online
            &&& created.last_checkin is None
            &&& created.reset_token is None
            &&& created.reset_token_expiry is None
            &&& store_wf(after)
            &&& lookup(after, KeyView::Username(username)) == Some(users.len() as int)
        }),
{
    let after = register_step(users, username, email, Some(hash)).1;
    let created = after.last();
    assert(after.subrange(0, users.len() as int) =~= users);
    lemma_max_id_bounds(users);
    lemma_lookup_some(users, KeyView::Username(username));
    lemma_lookup_some(users, KeyView::Email(email));
    assert forall|i: int, j: int| 0 <= i < j < after.len() implies {
        &&& (#[trigger] after[i]).id != (#[trigger] after[j]).id
        &&& after[i].username != after[j].username
        &&& after[i].email != after[j].email
    } by {
        if j == after.len() - 1 {
            assert(after[i] == users[i]);
            assert(!key_matches(users[i], KeyView::Username(username)));
            assert(!key_matches(users[i], KeyView::Email(email)));
        } else {
            assert(after[i] == users[i]);
            assert(after[j] == users[j]);
        }
    }
    assert forall|j: int| 0 <= j < users.len() implies !key_matches(
        #[trigger] after[j],
        KeyView::Username(username),
    ) by {
        assert(after[j] == users[j]);
        assert(!key_matches(users[j], KeyView::Username(username)));
    }
    lemma_lookup_is_first_match(after, KeyView::Username(username), users.len() as int);
}

/// Registration is a conflict exactly when the username or the email is
/// taken, and a registration that fails changes nothing.
pub proof fn law_registration_conflicts_on_taken_names(
    users: Seq<UserView>,
    username: Seq<char>,
    email: Seq<char>,
    hash: Option<Seq<char>>,
)
    ensures
        register_step(users, username, email, hash).0 == Err::<i32, AuthError>(
            AuthError::Conflict,
        ) <==> (lookup(users, KeyView::Username(username)) is Some || lookup(
            users,
            KeyView::Email(email),
        ) is Some),
        register_step(users, username, email, hash).0 is Err ==> register_step(
            users,
            username,
            email,
            hash,
        ).1 == users,
{
}

/// Login succeeds exactly when the username is known and the password
/// matches the stored hash, at every time at which the token's expiry fits a
/// timestamp. An unknown username and a wrong password get the same answer
/// and change nothing. A login that succeeds names the account found, hands
/// out the token issued to it, and marks that account online and touches
/// nothing else.
pub proof fn law_login_needs_matching_credentials(
    users: Seq<UserView>,
    username: Seq<char>,
    password: Seq<char>,
    secret: Seq<u8>,
    now: int,
)
    ensures
        ({
            let (r, after) = login_step(users, username, password, secret, now);
            let found = lookup(users, KeyView::Username(username));
            &&& r is Ok <==> (found matches Some(i) && password_matches(password, users[i].password)
                && now + TOKEN_VALIDITY <= i64::MAX)
            &&& now + TOKEN_VALIDITY <= i64::MAX ==> (r is Ok <==> (found matches Some(i)
                && password_matches(password, users[i].password)))
            &&& r is Err && now + TOKEN_VALIDITY <= i64::MAX ==> r == Err::<SessionView, AuthError>(
                AuthError::InvalidCredentials,
            )
            &&& (found matches Some(i) ==> !password_matches(password, users[i].password)) ==> (
            r,
            after,
        ) == (Err::<SessionView, AuthError>(AuthError::InvalidCredentials), users)
            &&& r is Err ==> after == users
            &&& r matches Ok(session) ==> {
                &&& found matches Some(i)
                &&& session.user_id == users[i].id as i32
                &&& issued_token(users[i].id, secret, now) == Some(session.token)
                &&& after == users.update(i, UserView { is_online: true, ..users[i] })
            }
        }),
{
}

/// A password reset from request to login. A fresh token is issued to the
/// account registered under `email`. Redeemed before the hour is over, it
/// gives that account the new hash and clears the token; a login with the
/// new password then succeeds for that account and marks it online, and the
/// token redeems nothing a second time. Redeemed once the hour is over, it
/// is refused and nothing changes.
///
/// The token must be fresh, that is, held by no account when it is issued:
/// a token that an earlier account holds unexpired would redeem that one.
pub proof fn law_reset_round_trip(
    users: Seq<UserView>,
    email: Seq<char>,
    token: Seq<char>,
    password: Seq<char>,
    hash: Seq<char>,
    secret: Seq<u8>,
    issued: int,
    now: int,
    later: int,
)
    requires
        store_wf(users),
        forgot_password_step(users, email, token, issued).0 is Ok,
        forall|j: int| 0 <= j < users.len() ==> (#[trigger] users[j]).reset_token != Some(token),
        password_matches(password, hash),
    ensures
        ({
            let pending = forgot_password_step(users, email, token, issued).1;
            let (redeem, after) = reset_password_step(pending, token, Some(hash), now);
            &&& lookup(users, KeyView::Email(email)) matches Some(i) && pending == users.update(
                i,
                issue_spec(users[i], token, issued).1,
            )
            &&& now < issued + RESET_VALIDITY ==> {
                &&& lookup(users, KeyView::Email(email)) matches Some(i) && redeem == Ok::<
                    i32,
                    AuthError,
                >(users[i].id as i32)
                &&& lookup(users, KeyView::Email(email)) matches Some(i) && after == users.update(
                    i,
                    redeemed(users[i], hash),
                )
                &&& lookup(users, KeyView::Email(email)) matches Some(i) && (later
                    + TOKEN_VALIDITY <= i64::MAX ==> {
                    let (login, online) = login_step(
                        after,
                        users[i].username,
                        password,
                        secret,
                        later,
                    );
                    &&& login == Ok::<SessionView, AuthError>(
                        SessionView {
                            token: issued_token(users[i].id, secret, later)->0,
                            user_id: users[i].id as i32,
                        },
                    )
                    &&& online == after.update(i, UserView { is_online: true, ..after[i] })
                    &&& online[i].is_online
                })
                &&& reset_password_step(after, token, Some(hash), later) == (
                    Err::<i32, AuthError>(AuthError::InvalidOrExpiredToken),
                    after,
                )
            }
            &&& now >= issued + RESET_VALIDITY ==> (redeem, after) == (
                Err::<i32, AuthError>(AuthError::InvalidOrExpiredToken),
                pending,
            )
        }),
{
    let by_email = KeyView::Email(email);
    lemma_lookup_some(users, by_email);
    let i = lookup(users, by_email)->0;
    let pending = forgot_password_step(users, email, token, issued).1;
    let by_token = KeyView::ResetToken(token, now);
    assert(users[i].wf());
    if now < issued + RESET_VALIDITY {
        assert forall|j: int| 0 <= j < i implies !key_matches(#[trigger] pending[j], by_token) by {
            assert(pending[j] == users[j]);
        }
        lemma_lookup_is_first_match(pending, by_token, i);
        let after = reset_password_step(pending, token, Some(hash), now).1;
        assert(after =~= users.update(i, redeemed(users[i], hash)));
        let by_name = KeyView::Username(users[i].username);
        assert forall|j: int| 0 <= j < i implies !key_matches(#[trigger] after[j], by_name) by {
            assert(after[j] == users[j]);
        }
        lemma_lookup_is_first_match(after, by_name, i);
        let again = KeyView::ResetToken(token, later);
        assert forall|j: int| 0 <= j < after.len() implies !key_matches(
            #[trigger] after[j],
            again,
        ) by {
            if j != i {
                assert(after[j] == users[j]);
            }
        }
        lemma_lookup_none(after, again);
    } else {
        assert forall|j: int| 0 <= j < pending.len() implies !key_matches(
            #[trigger] pending[j],
            by_token,
        ) by {
            if j != i {
                assert(pending[j] == users[j]);
            }
        }
        lemma_lookup_none(pending, by_token);
    }
}

/// Two check-ins by one account. Within a day of the first, the second is
/// refused and changes nothing. More than a day after it, the second
/// succeeds too, wherever the total still fits the counter, and each of the
/// two adds exactly the reward to that account and touches no other.
pub proof fn law_check_in_twice(users: Seq<UserView>, username: Seq<char>, first: int, second: int)
    requires
        check_in_step(users, username, first).0 is Ok,
    ensures
        ({
            let (r1, once) = check_in_step(users, username, first);
            let (r2, twice) = check_in_step(once, username, second);
            &&& lookup(users, KeyView::Username(username)) matches Some(i) && {
                &&& r1 == Ok::<i32, AuthError>((users[i].points + CHECK_IN_REWARD) as i32)
                &&& once == users.update(
                    i,
                    UserView {
                        points: users[i].points + CHECK_IN_REWARD,
                        last_checkin: Some(first),
                        ..users[i]
                    },
                )
                &&& second - first > CHECK_IN_COOLDOWN && users[i].points + 2 * CHECK_IN_REWARD
                    <= i32::MAX ==> {
                    &&& r2 == Ok::<i32, AuthError>((users[i].points + 2 * CHECK_IN_REWARD) as i32)
                    &&& twice == users.update(
                        i,
                        UserView {
                            points: users[i].points + 2 * CHECK_IN_REWARD,
                            last_checkin: Some(second),
                            ..users[i]
                        },
                    )
                }
            }
            &&& second - first <= CHECK_IN_COOLDOWN ==> (r2, twice) == (
                Err::<i32, AuthError>(AuthError::AlreadyCheckedIn),
                once,
            )
        }),
{
    let key = KeyView::Username(username);
    lemma_lookup_some(users, key);
    let i = lookup(users, key)->0;
    let once = check_in_step(users, username, first).1;
    lemma_lookup_after_update(users, i, check_in_spec(users[i], first).1, key);
    let twice = check_in_step(once, username, second).1;
    if second - first <= CHECK_IN_COOLDOWN {
        assert(twice =~= once);
    } else if users[i].points + 2 * CHECK_IN_REWARD <= i32::MAX {
        assert(twice =~= users.update(
            i,
            UserView {
                points: users[i].points + 2 * CHECK_IN_REWARD,
                last_checkin: Some(second),
                ..users[i]
            },
        ));
    }
}

/// Two upgrades asked for under valid tokens of one account that can pay
/// either cost but not both. Whichever request is served first succeeds;
/// the other then finds too few points and changes nothing. The account
/// never goes below zero, and no other account is touched.
pub proof fn law_one_of_two_upgrades_is_served(
    users: Seq<UserView>,
    secret: Seq<u8>,
    first_token: Seq<char>,
    first_cost: int,
    first_now: int,
    second_token: Seq<char>,
    second_cost: int,
    second_now: int,
)
    requires
        store_wf(users),
        claims_user(token_claims(first_token, secret), first_now) is Some,
        claims_user(token_claims(first_token, secret), first_now) == claims_user(
            token_claims(second_token, secret),
            second_now,
        ),
        lookup(
            users,
            KeyView::Id(claims_user(token_claims(first_token, secret), first_now)->0 as int),
        ) matches Some(i) && {
            &&& users[i].level + 1 <= i32::MAX
            &&& 0 <= first_cost <= users[i].points
            &&& 0 <= second_cost <= users[i].points
            &&& first_cost + second_cost > users[i].points
        },
    ensures
        ({
            let id = claims_user(token_claims(first_token, secret), first_now)->0;
            let i = lookup(users, KeyView::Id(id as int))->0;
            let (r1, once) = upgrade_step(users, first_token, secret, first_cost, first_now);
            let (r2, twice) = upgrade_step(once, second_token, secret, second_cost, second_now);
            &&& r1 == Ok::<Upgraded, AuthError>(
                Upgraded {
                    user_id: id,
                    level: (users[i].level + 1) as i32,
                    points: (users[i].points - first_cost) as i32,
                },
            )
            &&& once == users.update(
                i,
                UserView {
                    points: users[i].points - first_cost,
                    level: users[i].level + 1,
                    ..users[i]
                },
            )
            &&& once[i].points >= 0
            &&& (r2, twice) == (Err::<Upgraded, AuthError>(AuthError::NotEnoughPoints), once)
        }),
{
    let id = claims_user(token_claims(first_token, secret), first_now)->0;
    let key = KeyView::Id(id as int);
    lemma_lookup_some(users, key);
    let i = lookup(users, key)->0;
    let once = upgrade_step(users, first_token, secret, first_cost, first_now).1;
    lemma_lookup_after_update(users, i, upgrade_spec(users[i], first_cost).1, key);
    let twice = upgrade_step(once, second_token, secret, second_cost, second_now).1;
    assert(twice =~= once);
}

/// A redeem is refused exactly when no account holds the token unexpired,
/// and then nothing changes. Where one does and the hasher gave a hash, the
/// redeem succeeds. It touches one account only, the
/// first that holds the token unexpired: that account gets the new hash and
/// loses the token for good. An account that does not hold the token, or
/// holds it past its expiry, keeps its password whatever happens.
pub proof fn law_redeem_touches_only_an_unexpired_holder(
    users: Seq<UserView>,
    token: Seq<char>,
    hash: Option<Seq<char>>,
    now: int,
)
    ensures
        ({
            let (r, after) = reset_password_step(users, token, hash, now);
            &&& r == Err::<i32, AuthError>(AuthError::InvalidOrExpiredToken) <==> forall|j: int|
                0 <= j < users.len() ==> !redeemable(#[trigger] users[j], token, now)
            &&& hash is Some ==> (r is Ok <==> lookup(users, KeyView::ResetToken(token, now))
                is Some)
            &&& r is Err ==> after == users
            &&& after.len() == users.len()
            &&& forall|j: int|
                0 <= j < users.len() && !redeemable(users[j], token, now) ==> #[trigger] after[j]
                    == users[j]
            &&& r is Ok ==> (hash matches Some(h) && lookup(
                users,
                KeyView::ResetToken(token, now),
            ) matches Some(i) && {
                &&& redeemable(users[i], token, now)
                &&& r == Ok::<i32, AuthError>(users[i].id as i32)
                &&& after == users.update(i, redeemed(users[i], h))
                &&& after[i].password == h
                &&& forall|later: int| !redeemable(after[i], token, later)
            })
        }),
{
    let key = KeyView::ResetToken(token, now);
    lemma_lookup_some(users, key);
    let (r, after) = reset_password_step(users, token, hash, now);
    if lookup(users, key) is Some {
        let i = lookup(users, key)->0;
        assert(key_matches(users[i], key));
    } else {
        assert forall|j: int| 0 <= j < users.len() implies !redeemable(
            #[trigger] users[j],
            token,
            now,
        ) by {
            assert(!key_matches(users[j], key));
        }
    }
}

/// An account that was redeemed is not redeemed again by the same token:
/// it keeps the hash it was given. Unless another account holds the same
/// token unexpired, the second redeem is refused and changes nothing.
pub proof fn law_redeemed_token_is_spent(
    users: Seq<UserView>,
    token: Seq<char>,
    first_hash: Seq<char>,
    second_hash: Option<Seq<char>>,
    now: int,
    later: int,
)
    requires
        reset_password_step(users, token, Some(first_hash), now).0 is Ok,
    ensures
        ({
            let once = reset_password_step(users, token, Some(first_hash), now).1;
            let (again, twice) = reset_password_step(once, token, second_hash, later);
            &&& lookup(users, KeyView::ResetToken(token, now)) matches Some(i) && {
                &&& once[i].password == first_hash
                &&& twice[i] == once[i]
                &&& (forall|j: int|
                    0 <= j < users.len() && j != i ==> !redeemable(
                        #[trigger] users[j],
                        token,
                        later,
                    )) ==> (again, twice) == (
                    Err::<i32, AuthError>(AuthError::InvalidOrExpiredToken),
                    once,
                )
            }
        }),
{
    let key = KeyView::ResetToken(token, now);
    lemma_lookup_some(users, key);
    let i = lookup(users, key)->0;
    let once = reset_password_step(users, token, Some(first_hash), now).1;
    let key_later = KeyView::ResetToken(token, later);
    lemma_lookup_some(once, key_later);
    assert(!key_matches(once[i], key_later));
    if forall|j: int|
        0 <= j < users.len() && j != i ==> !redeemable(#[trigger] users[j], token, later) {
        assert forall|j: int| 0 <= j < once.len() implies !key_matches(
            #[trigger] once[j],
            key_later,
        ) by {
            if j != i {
                assert(once[j] == users[j]);
            }
        }
        lemma_lookup_none(once, key_later);
    }
}

} // verus!
