use community_auth::config::Config;
use community_auth::error::AuthError;
use community_auth::gateway::{
    authenticate, check_in, check_in_at, forgot_password, forgot_password_at, login, login_at, register,
    reset_password, reset_password_at, upgrade, upgrade_at, Upgraded,
};
use community_auth::password::verify_password;
use community_auth::reset::RESET_VALIDITY;
use community_auth::store::{UserKey, UserStore};
use community_auth::token::{issue_token, validate_token, TOKEN_VALIDITY};
use community_auth::user::User;

const NOW: i64 = 1_700_000_000;

fn config() -> Config {
    Config::new(Some("s3cr3t".to_string()))
}

fn user(id: i32, name: &str, points: i32) -> User {
    let mut user =
        User::new(id, name.to_string(), format!("{}@example.org", name), "no hash".to_string());
    user.points = points;
    user
}

fn store_of(users: Vec<User>) -> UserStore {
    UserStore::from_users(users).unwrap()
}

fn snapshot(store: &UserStore) -> Vec<User> {
    (0..store.len()).map(|i| store.user(i).clone()).collect()
}

#[test]
fn register_creates_a_fresh_account() {
    let mut store = UserStore::new();
    let id = register(&mut store, "ann".to_string(), "ann@example.org".to_string(), "pw").unwrap();
    assert_eq!(id, 1);
    assert_eq!(store.len(), 1);
    let ann = store.find_user(&UserKey::Username("ann")).unwrap();
    assert_eq!(ann.id, 1);
    assert_eq!(ann.email, "ann@example.org");
    assert_eq!(ann.points, 0);
    assert_eq!(ann.level, 1);
    assert!(!ann.is_online);
    assert_eq!(ann.last_checkin, None);
    assert_eq!(ann.reset_token, None);
    assert_eq!(ann.reset_token_expiry, None);
    assert_ne!(ann.password, "pw");
    assert!(verify_password("pw", &ann.password));
}

#[test]
fn register_numbers_accounts_after_the_largest_id() {
    let mut store = store_of(vec![user(7, "ann", 0), user(3, "bob", 0)]);
    let id = register(&mut store, "cid".to_string(), "cid@example.org".to_string(), "pw").unwrap();
    assert_eq!(id, 8);
    assert_eq!(store.find(&UserKey::Id(8)), Some(2));
}

#[test]
fn register_refuses_a_taken_username_or_email() {
    let mut store = store_of(vec![user(1, "ann", 0)]);
    let before = snapshot(&store);
    assert_eq!(
        register(&mut store, "ann".to_string(), "other@example.org".to_string(), "pw"),
        Err(AuthError::Conflict)
    );
    assert_eq!(
        register(&mut store, "other".to_string(), "ann@example.org".to_string(), "pw"),
        Err(AuthError::Conflict)
    );
    assert_eq!(
        register(&mut store, "ann".to_string(), "ann@example.org".to_string(), "pw"),
        Err(AuthError::Conflict)
    );
    assert_eq!(snapshot(&store), before);
}

#[test]
fn register_reports_an_exhausted_id_space() {
    let mut store = store_of(vec![user(i32::MAX, "ann", 0)]);
    assert_eq!(
        register(&mut store, "bob".to_string(), "bob@example.org".to_string(), "pw"),
        Err(AuthError::Internal)
    );
    assert_eq!(store.len(), 1);
}

#[test]
fn login_issues_a_token_for_the_account_and_marks_it_online() {
    let mut store = UserStore::new();
    let id = register(&mut store, "ann".to_string(), "ann@example.org".to_string(), "pw").unwrap();
    let session = login_at(&mut store, &config(), "ann", "pw", NOW).unwrap();
    assert_eq!(session.user_id, id);
    assert_eq!(session.token, issue_token(id, b"s3cr3t", NOW).unwrap());
    assert_eq!(validate_token(&session.token, b"s3cr3t", NOW), Some(id));
    assert_eq!(validate_token(&session.token, b"s3cr3t", NOW + TOKEN_VALIDITY), Some(id));
    assert_eq!(validate_token(&session.token, b"s3cr3t", NOW + TOKEN_VALIDITY + 1), None);
    assert!(store.user(0).is_online);
}

#[test]
fn login_gives_one_answer_for_unknown_user_and_wrong_password() {
    let mut store = UserStore::new();
    register(&mut store, "ann".to_string(), "ann@example.org".to_string(), "pw").unwrap();
    let before = snapshot(&store);
    let wrong_password = login_at(&mut store, &config(), "ann", "pW", NOW).unwrap_err();
    let unknown_user = login_at(&mut store, &config(), "bob", "pw", NOW).unwrap_err();
    assert_eq!(wrong_password, AuthError::InvalidCredentials);
    assert_eq!(unknown_user, AuthError::InvalidCredentials);
    assert_eq!(wrong_password.message(), unknown_user.message());
    assert_eq!(snapshot(&store), before);
    assert!(!store.user(0).is_online);
}

#[test]
fn login_reports_an_expiry_that_does_not_fit() {
    let mut store = UserStore::new();
    register(&mut store, "ann".to_string(), "ann@example.org".to_string(), "pw").unwrap();
    let before = snapshot(&store);
    assert_eq!(
        login_at(&mut store, &config(), "ann", "pw", i64::MAX).unwrap_err(),
        AuthError::Internal
    );
    assert_eq!(snapshot(&store), before);
    assert!(login_at(&mut store, &config(), "ann", "pw", i64::MAX - TOKEN_VALIDITY).is_ok());
}

#[test]
fn login_against_an_unreadable_hash_is_refused() {
    let mut store = store_of(vec![user(1, "ann", 0)]);
    assert_eq!(
        login_at(&mut store, &config(), "ann", "no hash", NOW).unwrap_err(),
        AuthError::InvalidCredentials
    );
}

#[test]
fn forgot_password_needs_a_known_email() {
    let mut store = store_of(vec![user(1, "ann", 0)]);
    let before = snapshot(&store);
    assert_eq!(
        forgot_password_at(&mut store, "bob@example.org", "tok".to_string(), NOW),
        Err(AuthError::EmailNotFound)
    );
    assert_eq!(snapshot(&store), before);
}

#[test]
fn forgot_password_stores_token_and_expiry_on_that_account_only() {
    let mut store = store_of(vec![user(1, "ann", 0), user(2, "bob", 0)]);
    assert_eq!(forgot_password_at(&mut store, "bob@example.org", "tok".to_string(), NOW), Ok(()));
    assert_eq!(store.user(1).reset_token, Some("tok".to_string()));
    assert_eq!(store.user(1).reset_token_expiry, Some(NOW + RESET_VALIDITY));
    assert_eq!(store.user(0), &user(1, "ann", 0));
}

#[test]
fn reset_round_trip() {
    let mut store = UserStore::new();
    register(&mut store, "ann".to_string(), "ann@example.org".to_string(), "old").unwrap();
    assert_eq!(forgot_password_at(&mut store, "ann@example.org", "tok".to_string(), NOW), Ok(()));
    assert_eq!(reset_password_at(&mut store, "tok", "new", NOW + RESET_VALIDITY - 1), Ok(1));
    assert_eq!(store.user(0).reset_token, None);
    assert_eq!(store.user(0).reset_token_expiry, None);
    assert!(login_at(&mut store, &config(), "ann", "new", NOW + 10).is_ok());
    assert_eq!(
        login_at(&mut store, &config(), "ann", "old", NOW + 10).unwrap_err(),
        AuthError::InvalidCredentials
    );
    assert_eq!(
        reset_password_at(&mut store, "tok", "third", NOW + 20),
        Err(AuthError::InvalidOrExpiredToken)
    );
}

#[test]
fn reset_redeems_the_first_unexpired_holder_of_the_token() {
    let mut store = store_of(vec![user(4, "ann", 0), user(6, "bob", 0)]);
    assert_eq!(forgot_password_at(&mut store, "bob@example.org", "tok".to_string(), NOW), Ok(()));
    assert_eq!(
        forgot_password_at(&mut store, "ann@example.org", "tok".to_string(), NOW - RESET_VALIDITY),
        Ok(())
    );
    // ann comes first but her token has expired: bob is redeemed.
    assert_eq!(reset_password_at(&mut store, "tok", "new", NOW), Ok(6));
    assert_eq!(store.user(0).reset_token, Some("tok".to_string()));
    assert_eq!(store.user(0).password, "no hash");
    assert_eq!(store.user(1).reset_token, None);
    assert!(verify_password("new", &store.user(1).password));
}

#[test]
fn a_token_that_is_not_fresh_redeems_its_earliest_holder() {
    let mut store = UserStore::new();
    register(&mut store, "ann".to_string(), "ann@example.org".to_string(), "ann-old").unwrap();
    register(&mut store, "bob".to_string(), "bob@example.org".to_string(), "bob-old").unwrap();
    assert_eq!(forgot_password_at(&mut store, "ann@example.org", "tok".to_string(), NOW), Ok(()));
    assert_eq!(forgot_password_at(&mut store, "bob@example.org", "tok".to_string(), NOW), Ok(()));
    assert_eq!(reset_password_at(&mut store, "tok", "new", NOW + 1), Ok(1));
    assert!(login_at(&mut store, &config(), "ann", "new", NOW + 2).is_ok());
    assert_eq!(
        login_at(&mut store, &config(), "bob", "new", NOW + 2).unwrap_err(),
        AuthError::InvalidCredentials
    );
    // bob still holds the token, so it redeems once more: this time for him.
    assert_eq!(reset_password_at(&mut store, "tok", "newer", NOW + 3), Ok(2));
}

#[test]
fn reset_after_the_hour_is_refused() {
    let mut store = store_of(vec![user(1, "ann", 0)]);
    assert_eq!(forgot_password_at(&mut store, "ann@example.org", "tok".to_string(), NOW), Ok(()));
    let before = snapshot(&store);
    assert_eq!(
        reset_password_at(&mut store, "tok", "new", NOW + RESET_VALIDITY),
        Err(AuthError::InvalidOrExpiredToken)
    );
    assert_eq!(
        reset_password_at(&mut store, "tok", "new", NOW + RESET_VALIDITY + 1),
        Err(AuthError::InvalidOrExpiredToken)
    );
    assert_eq!(
        reset_password_at(&mut store, "unknown", "new", NOW),
        Err(AuthError::InvalidOrExpiredToken)
    );
    assert_eq!(snapshot(&store), before);
}

#[test]
fn check_in_by_username() {
    let mut store = store_of(vec![user(1, "ann", 5), user(2, "bob", 0)]);
    assert_eq!(check_in_at(&mut store, "ann", NOW), Ok(15));
    assert_eq!(check_in_at(&mut store, "ann", NOW + 86_400), Err(AuthError::AlreadyCheckedIn));
    assert_eq!(check_in_at(&mut store, "ann", NOW + 86_401), Ok(25));
    assert_eq!(check_in_at(&mut store, "bob", NOW), Ok(10));
    assert_eq!(check_in_at(&mut store, "cid", NOW), Err(AuthError::UserNotFound));
    assert_eq!(store.user(0).points, 25);
    assert_eq!(store.user(0).last_checkin, Some(NOW + 86_401));
    assert_eq!(store.user(1).points, 10);
}

#[test]
fn upgrade_needs_a_valid_token() {
    let mut store = store_of(vec![user(1, "ann", 100)]);
    let before = snapshot(&store);
    assert_eq!(upgrade_at(&mut store, &config(), "junk", 10, NOW), Err(AuthError::InvalidToken));
    let foreign = issue_token(1, b"other secret", NOW).unwrap();
    assert_eq!(upgrade_at(&mut store, &config(), &foreign, 10, NOW), Err(AuthError::InvalidToken));
    let stale = issue_token(1, b"s3cr3t", NOW - TOKEN_VALIDITY - 1).unwrap();
    assert_eq!(upgrade_at(&mut store, &config(), &stale, 10, NOW), Err(AuthError::InvalidToken));
    assert_eq!(snapshot(&store), before);
}

#[test]
fn upgrade_takes_a_token_in_its_last_second() {
    let mut store = store_of(vec![user(1, "ann", 100)]);
    let token = issue_token(1, b"s3cr3t", NOW - TOKEN_VALIDITY).unwrap();
    assert_eq!(
        upgrade_at(&mut store, &config(), &token, 10, NOW),
        Ok(Upgraded { user_id: 1, level: 2, points: 90 })
    );
    assert_eq!(upgrade_at(&mut store, &config(), &token, 10, NOW + 1), Err(AuthError::InvalidToken));
}

#[test]
fn upgrade_needs_the_account_of_the_token() {
    let mut store = store_of(vec![user(1, "ann", 100)]);
    let token = issue_token(2, b"s3cr3t", NOW).unwrap();
    assert_eq!(upgrade_at(&mut store, &config(), &token, 10, NOW), Err(AuthError::UserNotFound));
}

#[test]
fn upgrade_spends_the_points_of_the_token_holder() {
    let mut store = store_of(vec![user(1, "ann", 100), user(2, "bob", 100)]);
    let token = issue_token(2, b"s3cr3t", NOW).unwrap();
    assert_eq!(
        upgrade_at(&mut store, &config(), &token, 30, NOW + 5),
        Ok(Upgraded { user_id: 2, level: 2, points: 70 })
    );
    assert_eq!(store.user(1).points, 70);
    assert_eq!(store.user(1).level, 2);
    assert_eq!(store.user(0), &user(1, "ann", 100));
    assert_eq!(
        upgrade_at(&mut store, &config(), &token, 71, NOW + 5),
        Err(AuthError::NotEnoughPoints)
    );
    assert_eq!(store.user(1).points, 70);
    assert_eq!(store.user(1).level, 2);
}

#[test]
fn two_upgrades_on_points_for_one() {
    let mut store = store_of(vec![user(1, "ann", 30)]);
    let token = issue_token(1, b"s3cr3t", NOW).unwrap();
    let first = upgrade_at(&mut store, &config(), &token, 30, NOW);
    let second = upgrade_at(&mut store, &config(), &token, 30, NOW);
    assert_eq!(first, Ok(Upgraded { user_id: 1, level: 2, points: 0 }));
    assert_eq!(second, Err(AuthError::NotEnoughPoints));
    assert_eq!(store.user(0).points, 0);
}

#[test]
fn operations_at_the_time_of_the_system_clock() {
    let mut store = UserStore::new();
    let config = config();
    let id = register(&mut store, "ann".to_string(), "ann@example.org".to_string(), "old").unwrap();

    let session = login(&mut store, &config, "ann", "old").unwrap();
    assert_eq!(session.user_id, id);
    assert!(store.user(0).is_online);

    assert_eq!(check_in(&mut store, "ann"), Ok(10));
    assert_eq!(check_in(&mut store, "ann"), Err(AuthError::AlreadyCheckedIn));
    let checked_in_at = store.user(0).last_checkin.unwrap();
    assert!(checked_in_at > NOW);

    assert_eq!(
        upgrade(&mut store, &config, &session.token, 4),
        Ok(Upgraded { user_id: id, level: 2, points: 6 })
    );
    assert_eq!(upgrade(&mut store, &config, &session.token, 7), Err(AuthError::NotEnoughPoints));
    assert_eq!(upgrade(&mut store, &config, "junk", 1), Err(AuthError::InvalidToken));

    assert_eq!(authenticate(&config, &session.token), Some(id));
    assert_eq!(authenticate(&Config::new(None), &session.token), None);
    assert_eq!(authenticate(&config, "junk"), None);
    let stale = issue_token(id, b"s3cr3t", NOW - TOKEN_VALIDITY).unwrap();
    assert_eq!(authenticate(&config, &stale), None);

    assert_eq!(forgot_password(&mut store, "nobody@example.org"), Err(AuthError::EmailNotFound));
    let token = forgot_password(&mut store, "ann@example.org").unwrap();
    assert_eq!(token.chars().count(), 36);
    assert_eq!(store.user(0).reset_token.as_deref(), Some(token.as_str()));
    let expiry = store.user(0).reset_token_expiry.unwrap();
    assert!(expiry >= checked_in_at + RESET_VALIDITY);
    assert!(expiry < checked_in_at + RESET_VALIDITY + 600);
    let another = forgot_password(&mut store, "ann@example.org").unwrap();
    assert_ne!(token, another);

    assert_eq!(reset_password(&mut store, &token, "new"), Err(AuthError::InvalidOrExpiredToken));
    assert_eq!(reset_password(&mut store, &another, "new"), Ok(id));
    assert_eq!(reset_password(&mut store, &another, "new"), Err(AuthError::InvalidOrExpiredToken));
    assert!(login(&mut store, &config, "ann", "new").is_ok());
}
