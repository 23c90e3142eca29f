use vstd::prelude::*;
use crate::error::AuthError;
use crate::user::{User, UserView};

verus! {

/// Points granted by one check-in.
pub const CHECK_IN_REWARD: i32 = 10;

/// Seconds that must pass after a check-in before the next one counts: the
/// window rolls with the last check-in, it is no calendar day.
pub const CHECK_IN_COOLDOWN: i64 = 86_400;

/// Whether an account may check in at `now`: it never has, or its last
/// check-in lies more than a full day back.
pub open spec fn may_check_in(user: UserView, now: int) -> bool {
    match user.last_checkin {
        None => true,
        Some(last) => last < now - CHECK_IN_COOLDOWN,
    }
}

/// The account after a check-in at `now`.
pub open spec fn checked_in(user: UserView, now: int) -> UserView {
    UserView { points: user.points + CHECK_IN_REWARD, last_checkin: Some(now), ..user }
}

/// What a check-in at `now` answers and what it leaves of the account. An
/// eligible account whose new total would not fit its counter is answered
/// `Internal` and left alone.
pub open spec fn check_in_spec(user: UserView, now: int) -> (Result<i32, AuthError>, UserView) {
    if !may_check_in(user, now) {
        (Err(AuthError::AlreadyCheckedIn), user)
    } else if user.points + CHECK_IN_REWARD > i32::MAX {
        (Err(AuthError::Internal), user)
    } else {
        (Ok((user.points + CHECK_IN_REWARD) as i32), checked_in(user, now))
    }
}

/// Whether an account can pay `cost` points.
pub open spec fn can_afford(user: UserView, cost: int) -> bool {
    user.points >= cost
}

/// The account after paying `cost` points for one level.
pub open spec fn upgraded(user: UserView, cost: int) -> UserView {
    UserView { points: user.points - cost, level: user.level + 1, ..user }
}

/// What an upgrade at `cost` answers, as new level and new points, and what
/// it leaves of the account. An account that can pay but whose new level or
/// new total would not fit its counter is answered `Internal` and left alone.
pub open spec fn upgrade_spec(user: UserView, cost: int) -> (
    Result<(i32, i32), AuthError>,
    UserView,
) {
    if !can_afford(user, cost) {
        (Err(AuthError::NotEnoughPoints), user)
    } else if user.level + 1 > i32::MAX || user.points - cost > i32::MAX {
        (Err(AuthError::Internal), user)
    } else {
        (Ok(((user.level + 1) as i32, (user.points - cost) as i32)), upgraded(user, cost))
    }
}

/// Executable form of [`may_check_in`].
pub fn is_eligible(user: &User, now: i64) -> (ok: bool)
    ensures
        ok == may_check_in(user@, now as int),
{
    match user.last_checkin {
        None => true,
        Some(last) => match now.checked_sub(CHECK_IN_COOLDOWN) {
            Some(threshold) => last < threshold,
            None => false,
        },
    }
}

/// Daily check-in. An eligible account gains [`CHECK_IN_REWARD`] points and
/// records `now` as its last check-in, and the new total is returned.
/// Whenever an error is returned the account is left as it was.
pub fn check_in(user: &mut User, now: i64) -> (r: Result<i32, AuthError>)
    ensures
        r == check_in_spec(old(user)@, now as int).0,
        final(user)@ == check_in_spec(old(user)@, now as int).1,
        r is Err ==> *final(user) == *old(user),
        old(user)@.wf() ==> final(user)@.wf(),
{
    if !is_eligible(user, now) {
        return Err(AuthError::AlreadyCheckedIn);
    }
    match user.points.checked_add(CHECK_IN_REWARD) {
        Some(total) => {
            user.points = total;
            user.last_checkin = Some(now);
            Ok(total)
        },
        None => Err(AuthError::Internal),
    }
}

/// Level-up. An account that can afford `cost` pays it and rises one level,
/// and the new level and the new total are returned. The cost is the
/// caller's: no schedule of levels is enforced, only that the account can
/// pay. Whenever an error is returned the account is left as it was.
pub fn upgrade(user: &mut User, cost: i32) -> (r: Result<(i32, i32), AuthError>)
    ensures
        r == upgrade_spec(old(user)@, cost as int).0,
        final(user)@ == upgrade_spec(old(user)@, cost as int).1,
        r is Err ==> *final(user) == *old(user),
        old(user)@.wf() ==> final(user)@.wf(),
{
    if user.points < cost {
        return Err(AuthError::NotEnoughPoints);
    }
    match (user.level.checked_add(1), user.points.checked_sub(cost)) {
        (Some(level), Some(points)) => {
            user.level = level;
            user.points = points;
            Ok((level, points))
        },
        _ => Err(AuthError::Internal),
    }
}

/// A second check-in within a day of the first is refused and changes
/// nothing.
pub proof fn law_check_in_twice_within_a_day(user: UserView, first: int, second: int)
    requires
        check_in_spec(user, first).0 is Ok,
        second - first <= CHECK_IN_COOLDOWN,
    ensures
        check_in_spec(check_in_spec(user, first).1, second) == (
            Err::<i32, AuthError>(AuthError::AlreadyCheckedIn),
            check_in_spec(user, first).1,
        ),
{
}

/// A second check-in more than a day after the first succeeds wherever the
/// total still fits the counter, and each of the two adds exactly
/// [`CHECK_IN_REWARD`] points.
pub proof fn law_check_in_again_after_cooldown(user: UserView, first: int, second: int)
    requires
        check_in_spec(user, first).0 is Ok,
        second - first > CHECK_IN_COOLDOWN,
        user.points + 2 * CHECK_IN_REWARD <= i32::MAX,
    ensures
        check_in_spec(user, first).1.points == user.points + CHECK_IN_REWARD,
        check_in_spec(user, first).0 == Ok::<i32, AuthError>(
            (user.points + CHECK_IN_REWARD) as i32,
        ),
        check_in_spec(check_in_spec(user, first).1, second).0 == Ok::<i32, AuthError>(
            (user.points + 2 * CHECK_IN_REWARD) as i32,
        ),
        check_in_spec(check_in_spec(user, first).1, second).1.points == user.points + 2
            * CHECK_IN_REWARD,
        user.points < check_in_spec(user, first).1.points < check_in_spec(
            check_in_spec(user, first).1,
            second,
        ).1.points,
{
}

/// An upgrade that costs more than the account holds is refused and changes
/// nothing. One that the account can pay takes exactly the cost and adds
/// exactly one level, wherever the result fits the counters.
pub proof fn law_upgrade_spends_exactly_the_cost(user: UserView, cost: int)
    ensures
        cost > user.points ==> upgrade_spec(user, cost) == (
            Err::<(i32, i32), AuthError>(AuthError::NotEnoughPoints),
            user,
        ),
        cost <= user.points && user.level + 1 <= i32::MAX && user.points - cost <= i32::MAX ==> {
            &&& upgrade_spec(user, cost).0 is Ok
            &&& upgrade_spec(user, cost).1.points == user.points - cost
            &&& upgrade_spec(user, cost).1.level == user.level + 1
        },
{
}

/// Two upgrades on an account that can pay either but not both: whichever
/// is served first succeeds, the other finds too few points, and the total
/// never goes below zero.
pub proof fn law_one_of_two_upgrades_succeeds(user: UserView, first: int, second: int)
    requires
        user.wf(),
        user.level + 1 <= i32::MAX,
        0 <= first <= user.points,
        0 <= second <= user.points,
        first + second > user.points,
    ensures
        upgrade_spec(user, first).0 is Ok,
        upgrade_spec(upgrade_spec(user, first).1, second) == (
            Err::<(i32, i32), AuthError>(AuthError::NotEnoughPoints),
            upgrade_spec(user, first).1,
        ),
        upgrade_spec(user, second).0 is Ok,
        upgrade_spec(upgrade_spec(user, second).1, first) == (
            Err::<(i32, i32), AuthError>(AuthError::NotEnoughPoints),
            upgrade_spec(user, second).1,
        ),
        upgrade_spec(user, first).1.points >= 0,
        upgrade_spec(user, second).1.points >= 0,
{
}

} // verus!
