use vstd::prelude::*;

verus! {

/// The broad class a failure belongs to.
#[derive(Clone, Copy, Debug, PartialEq, Eq, Structural)]
pub enum ErrorKind {
    /// A username or an email is already in use.
    ValidationConflict,
    /// No account answers to the given email or identity.
    NotFound,
    /// Bad credentials, or a session token that is invalid or expired.
    Unauthorized,
    /// The account is not in a state that allows the operation.
    PreconditionFailed,
    /// A reset token that is unknown or past its expiry.
    InvalidOrExpiredToken,
    /// A collaborator (hasher, signer, clock) failed; nothing was changed.
    Unexpected,
}

/// Every way an operation of the gateway can be turned down.
#[derive(Clone, Copy, Debug, PartialEq, Eq, Structural)]
pub enum AuthError {
    /// Registration named a username or an email that some account already holds.
    Conflict,
    /// No account is registered under the given email.
    EmailNotFound,
    /// No account answers to the given username or id.
    UserNotFound,
    /// Unknown username or wrong password; the two are never told apart.
    InvalidCredentials,
    /// The session token is malformed, badly signed, expired, or names no id.
    InvalidToken,
    /// The reset token matches no account, or its hour has passed.
    InvalidOrExpiredToken,
    /// The last check-in is less than a full day old.
    AlreadyCheckedIn,
    /// The account holds fewer points than the upgrade costs.
    NotEnoughPoints,
    /// The hasher, the signer or the clock failed; nothing was changed.
    Internal,
}

impl AuthError {
    /// The class of this failure.
    pub open spec fn spec_kind(self) -> ErrorKind {
        match self {
            AuthError::Conflict => ErrorKind::ValidationConflict,
            AuthError::EmailNotFound => ErrorKind::NotFound,
            AuthError::UserNotFound => ErrorKind::NotFound,
            AuthError::InvalidCredentials => ErrorKind::Unauthorized,
            AuthError::InvalidToken => ErrorKind::Unauthorized,
            AuthError::InvalidOrExpiredToken => ErrorKind::InvalidOrExpiredToken,
            AuthError::AlreadyCheckedIn => ErrorKind::PreconditionFailed,
            AuthError::NotEnoughPoints => ErrorKind::PreconditionFailed,
            AuthError::Internal => ErrorKind::Unexpected,
        }
    }

    /// The stable message shown to the caller for this failure.
    pub open spec fn spec_message(self) -> Seq<char> {
        match self {
            AuthError::Conflict => "Username or email already taken"@,
            AuthError::EmailNotFound => "Email not found"@,
            AuthError::UserNotFound => "User not found"@,
            AuthError::InvalidCredentials => "Invalid credentials"@,
            AuthError::InvalidToken => "Invalid token"@,
            AuthError::InvalidOrExpiredToken => "Invalid or expired token"@,
            AuthError::AlreadyCheckedIn => "Already checked in today"@,
            AuthError::NotEnoughPoints => "Not enough points"@,
            AuthError::Internal => "Internal error"@,
        }
    }

    #[verifier::when_used_as_spec(spec_kind)]
    pub fn kind(self) -> (k: ErrorKind)
        ensures
            k == self.spec_kind(),
    {
        match self {
            AuthError::Conflict => ErrorKind::ValidationConflict,
            AuthError::EmailNotFound | AuthError::UserNotFound => ErrorKind::NotFound,
            AuthError::InvalidCredentials | AuthError::InvalidToken => ErrorKind::Unauthorized,
            AuthError::InvalidOrExpiredToken => ErrorKind::InvalidOrExpiredToken,
            AuthError::AlreadyCheckedIn | AuthError::NotEnoughPoints => ErrorKind::PreconditionFailed,
            AuthError::Internal => ErrorKind::Unexpected,
        }
    }

    /// The message for this failure. It depends on the variant alone, so it
    /// never echoes a username, an email or a token.
    pub fn message(self) -> (m: &'static str)
        ensures
            m@ == self.spec_message(),
    {
        match self {
            AuthError::Conflict => "Username or email already taken",
            AuthError::EmailNotFound => "Email not found",
            AuthError::UserNotFound => "User not found",
            AuthError::InvalidCredentials => "Invalid credentials",
            AuthError::InvalidToken => "Invalid token",
            AuthError::InvalidOrExpiredToken => "Invalid or expired token",
            AuthError::AlreadyCheckedIn => "Already checked in today",
            AuthError::NotEnoughPoints => "Not enough points",
            AuthError::Internal => "Internal error",
        }
    }
}

/// No two failures share a message, so a caller can tell every kind of
/// failure from every other by its message alone.
pub proof fn law_messages_tell_failures_apart(a: AuthError, b: AuthError)
    ensures
        a != b ==> a.spec_message() != b.spec_message(),
        a.spec_kind() != b.spec_kind() ==> a.spec_message() != b.spec_message(),
{
    reveal_strlit("Username or email already taken");
    reveal_strlit("Email not found");
    reveal_strlit("User not found");
    reveal_strlit("Invalid credentials");
    reveal_strlit("Invalid token");
    reveal_strlit("Invalid or expired token");
    reveal_strlit("Already checked in today");
    reveal_strlit("Not enough points");
    reveal_strlit("Internal error");
    if a != b && a.spec_message() == b.spec_message() {
        assert(a.spec_message().len() == b.spec_message().len());
        assert(a.spec_message()[0] == b.spec_message()[0]);
    }
}

} // verus!
