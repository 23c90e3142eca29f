use vstd::prelude::*;

verus! {

/// Points every account starts with.
pub const INITIAL_POINTS: i32 = 0;

/// Level every account starts at.
pub const INITIAL_LEVEL: i32 = 1;

/// An account: identity, credential and progression.
///
/// Times are whole seconds since the Unix epoch.
#[derive(Clone, Debug, PartialEq, Eq)]
pub struct User {
    pub id: i32,
    pub username: String,
    pub email: String,
    /// Hash of the password, never the password itself.
    pub password: String,
    pub points: i32,
    pub level: i32,
    pub is_online: bool,
    pub last_checkin: Option<i64>,
    pub reset_token: Option<String>,
    pub reset_token_expiry: Option<i64>,
}

/// What an account holds, as mathematical values.
pub ghost struct UserView {
    pub id: int,
    pub username: Seq<char>,
    pub email: Seq<char>,
    pub password: Seq<char>,
    pub points: int,
    pub level: int,
    pub is_online: bool,
    pub last_checkin: Option<int>,
    pub reset_token: Option<Seq<char>>,
    pub reset_token_expiry: Option<int>,
}

impl UserView {
    /// Whether every number fits the field that holds it: id, points and
    /// level in 32 bits, times in 64.
    pub open spec fn fits(self) -> bool {
        &&& i32::MIN <= self.id <= i32::MAX
        &&& i32::MIN <= self.points <= i32::MAX
        &&& i32::MIN <= self.level <= i32::MAX
        &&& self.last_checkin matches Some(t) ==> i64::MIN <= t <= i64::MAX
        &&& self.reset_token_expiry matches Some(t) ==> i64::MIN <= t <= i64::MAX
    }

    /// The invariants of an account: points never negative, level at least
    /// one, a reset token exactly when it has an expiry, and every number
    /// within the range of its field.
    pub open spec fn wf(self) -> bool {
        &&& self.points >= 0
        &&& self.level >= 1
        &&& self.reset_token.is_some() == self.reset_token_expiry.is_some()
        &&& self.fits()
    }

    /// The account as registration creates it.
    pub open spec fn fresh(id: int, username: Seq<char>, email: Seq<char>, password: Seq<char>) -> UserView {
        UserView {
            id,
            username,
            email,
            password,
            points: INITIAL_POINTS as int,
            level: INITIAL_LEVEL as int,
            is_online: false,
            last_checkin: None,
            reset_token: None,
            reset_token_expiry: None,
        }
    }
}

impl View for User {
    type V = UserView;

    open spec fn view(&self) -> UserView {
        UserView {
            id: self.id as int,
            username: self.username@,
            email: self.email@,
            password: self.password@,
            points: self.points as int,
            level: self.level as int,
            is_online: self.is_online,
            last_checkin: match self.last_checkin {
                Some(t) => Some(t as int),
                None => None,
            },
            reset_token: match self.reset_token {
                Some(t) => Some(t@),
                None => None,
            },
            reset_token_expiry: match self.reset_token_expiry {
                Some(t) => Some(t as int),
                None => None,
            },
        }
    }
}

impl User {
    /// The account that registration creates: no points, first level,
    /// offline, never checked in, no reset pending.
    pub fn new(id: i32, username: String, email: String, password: String) -> (user: User)
        ensures
            user@ == UserView::fresh(id as int, username@, email@, password@),
            user@.wf(),
    {
        User {
            id,
            username,
            email,
            password,
            points: INITIAL_POINTS,
            level: INITIAL_LEVEL,
            is_online: false,
            last_checkin: None,
            reset_token: None,
            reset_token_expiry: None,
        }
    }

    /// Whether the account meets its invariants.
    pub fn is_well_formed(&self) -> (ok: bool)
        ensures
            ok == self@.wf(),
    {
        self.points >= 0 && self.level >= 1 && self.reset_token.is_some()
            == self.reset_token_expiry.is_some()
    }
}

} // verus!
