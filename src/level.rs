//! The level curve and the level-up events that the reconciler emits.

use vstd::prelude::*;
use crate::user::User;

verus! {

/// The level at which a participant is announced.
pub const NOTIFY_LEVEL: u64 = 5;

/// The level that the mee6 curve gives to an amount of experience.
pub uninterp spec fn mee6_level(xp: u64) -> u64;

/// Relies on `mee6::LevelInfo::new` and `LevelInfo::level`: the level is
/// computed from the experience alone. Its search loop never ends for
/// `u64::MAX`, which is therefore left out.
#[verifier::external_body]
fn curve_level(xp: u64) -> (r: u64)
    requires
        xp < u64::MAX,
    ensures
        r == mee6_level(xp),
{
    mee6::LevelInfo::new(xp).level()
}

/// The level of an amount of experience; the curve is not defined at
/// `u64::MAX`.
pub open spec fn level_spec(xp: u64) -> Option<u64> {
    if xp < u64::MAX {
        Some(mee6_level(xp))
    } else {
        None
    }
}

/// The level of an amount of experience, where the curve defines one.
pub fn level_of(xp: u64) -> (r: Option<u64>)
    ensures
        r == level_spec(xp),
{
    if xp < u64::MAX {
        Some(curve_level(xp))
    } else {
        None
    }
}

/// A move from `previous` to `new` crosses the announcement level upwards.
pub open spec fn crosses(previous: u64, new: u64) -> bool {
    previous < NOTIFY_LEVEL && NOTIFY_LEVEL <= new
}

/// Whether a move between two levels is announced.
pub fn is_level_up(previous: u64, new: u64) -> (r: bool)
    ensures
        r == crosses(previous, new),
{
    previous < NOTIFY_LEVEL && NOTIFY_LEVEL <= new
}

/// A participant that crossed the announcement level during a sync.
#[derive(Clone, Debug, PartialEq, Eq)]
pub struct LevelUpEvent {
    pub id: u64,
    pub user: User,
    pub previous_level: u64,
    pub new_level: u64,
}

/// The event that a fresh record gives against the record stored before it,
/// given both levels.
pub open spec fn event_from_levels(
    prior: Option<User>,
    new: User,
    previous: u64,
    level: u64,
) -> Option<LevelUpEvent> {
    match prior {
        Some(p) => if p.id == new.id && crosses(previous, level) {
            Some(LevelUpEvent { id: new.id, user: new, previous_level: previous, new_level: level })
        } else {
            None
        },
        None => None,
    }
}

/// The event that a fresh record gives against the record stored before it:
/// one only when there was a stored record for the same id and the level
/// crossed the announcement level upwards.
pub open spec fn event_spec(prior: Option<User>, new: User) -> Option<LevelUpEvent> {
    match prior {
        Some(p) => match (level_spec(p.xp), level_spec(new.xp)) {
            (Some(a), Some(b)) => event_from_levels(prior, new, a, b),
            _ => None,
        },
        None => None,
    }
}

/// Decides the event for a fresh record from the two levels already known.
pub fn level_up_from_levels(prior: &Option<User>, new: &User, previous: u64, level: u64) -> (r:
    Option<LevelUpEvent>)
    ensures
        r == event_from_levels(*prior, *new, previous, level),
{
    match prior {
        Some(p) => if p.id == new.id && is_level_up(previous, level) {
            Some(
                LevelUpEvent {
                    id: new.id,
                    user: new.duplicate(),
                    previous_level: previous,
                    new_level: level,
                },
            )
        } else {
            None
        },
        None => None,
    }
}

/// Compares a fresh record with the record stored before it (`None` when
/// there was none or it could not be read).
pub fn detect_level_up(prior: &Option<User>, new: &User) -> (r: Option<LevelUpEvent>)
    ensures
        r == event_spec(*prior, *new),
{
    match prior {
        Some(p) => match (level_of(p.xp), level_of(new.xp)) {
            (Some(a), Some(b)) => level_up_from_levels(prior, new, a, b),
            _ => None,
        },
        None => None,
    }
}

} // verus!
