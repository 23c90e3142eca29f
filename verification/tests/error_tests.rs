use community_auth::config::Config;
use community_auth::error::{AuthError, ErrorKind};
use community_auth::user::User;

const ALL: [AuthError; 9] = [
    AuthError::Conflict,
    AuthError::EmailNotFound,
    AuthError::UserNotFound,
    AuthError::InvalidCredentials,
    AuthError::InvalidToken,
    AuthError::InvalidOrExpiredToken,
    AuthError::AlreadyCheckedIn,
    AuthError::NotEnoughPoints,
    AuthError::Internal,
];

#[test]
fn each_error_has_its_kind() {
    assert_eq!(AuthError::Conflict.kind(), ErrorKind::ValidationConflict);
    assert_eq!(AuthError::EmailNotFound.kind(), ErrorKind::NotFound);
    assert_eq!(AuthError::UserNotFound.kind(), ErrorKind::NotFound);
    assert_eq!(AuthError::InvalidCredentials.kind(), ErrorKind::Unauthorized);
    assert_eq!(AuthError::InvalidToken.kind(), ErrorKind::Unauthorized);
    assert_eq!(AuthError::InvalidOrExpiredToken.kind(), ErrorKind::InvalidOrExpiredToken);
    assert_eq!(AuthError::AlreadyCheckedIn.kind(), ErrorKind::PreconditionFailed);
    assert_eq!(AuthError::NotEnoughPoints.kind(), ErrorKind::PreconditionFailed);
    assert_eq!(AuthError::Internal.kind(), ErrorKind::Unexpected);
}

#[test]
fn each_error_has_its_message() {
    assert_eq!(AuthError::Conflict.message(), "Username or email already taken");
    assert_eq!(AuthError::EmailNotFound.message(), "Email not found");
    assert_eq!(AuthError::UserNotFound.message(), "User not found");
    assert_eq!(AuthError::InvalidCredentials.message(), "Invalid credentials");
    assert_eq!(AuthError::InvalidToken.message(), "Invalid token");
    assert_eq!(AuthError::InvalidOrExpiredToken.message(), "Invalid or expired token");
    assert_eq!(AuthError::AlreadyCheckedIn.message(), "Already checked in today");
    assert_eq!(AuthError::NotEnoughPoints.message(), "Not enough points");
    assert_eq!(AuthError::Internal.message(), "Internal error");
}

#[test]
fn messages_tell_the_errors_apart() {
    for (i, a) in ALL.iter().enumerate() {
        for b in ALL.iter().skip(i + 1) {
            assert_ne!(a.message(), b.message());
        }
    }
}

#[test]
fn config_keeps_a_given_secret() {
    let config = Config::new(Some("s3cr3t".to_string()));
    assert_eq!(config.jwt_secret, "s3cr3t");
    assert_eq!(config.secret_bytes(), b"s3cr3t");
    let config = Config::new(Some(String::new()));
    assert_eq!(config.secret_bytes(), b"");
}

#[test]
fn config_falls_back_to_the_default_secret() {
    let config = Config::new(None);
    assert_eq!(config.jwt_secret, "your_jwt_secret");
    assert_eq!(config.secret_bytes(), b"your_jwt_secret");
}

#[test]
fn new_user_starts_from_nothing() {
    let user = User::new(9, "eve".to_string(), "eve@example.org".to_string(), "hash".to_string());
    assert_eq!(user.id, 9);
    assert_eq!(user.username, "eve");
    assert_eq!(user.email, "eve@example.org");
    assert_eq!(user.password, "hash");
    assert_eq!(user.points, 0);
    assert_eq!(user.level, 1);
    assert!(!user.is_online);
    assert_eq!(user.last_checkin, None);
    assert_eq!(user.reset_token, None);
    assert_eq!(user.reset_token_expiry, None);
    assert!(user.is_well_formed());
}

#[test]
fn well_formedness_is_checked_field_by_field() {
    let fresh = || User::new(9, "eve".to_string(), "eve@example.org".to_string(), "hash".to_string());
    let mut user = fresh();
    user.points = -1;
    assert!(!user.is_well_formed());
    let mut user = fresh();
    user.level = 0;
    assert!(!user.is_well_formed());
    let mut user = fresh();
    user.reset_token_expiry = Some(5);
    assert!(!user.is_well_formed());
    let mut user = fresh();
    user.reset_token = Some("t".to_string());
    user.reset_token_expiry = Some(5);
    assert!(user.is_well_formed());
}
