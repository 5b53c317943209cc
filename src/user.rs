//! Participant records as the store keeps them, and raw entries of the
//! upstream leaderboard listing.

use vstd::prelude::*;
use crate::text::{parse_decimal, parse_unsigned};

verus! {

/// A participant as cached by the record store.
#[derive(Clone, Debug, PartialEq, Eq)]
pub struct User {
    pub xp: u64,
    pub id: u64,
    pub username: String,
    pub discriminator: Option<String>,
    pub avatar: Option<String>,
    pub message_count: Option<u64>,
    pub rank: i64,
    pub last_updated: Option<i64>,
}

/// One entry of an upstream leaderboard page, before its id is read.
#[derive(Clone, Debug, PartialEq, Eq)]
pub struct Player {
    pub xp: u64,
    pub id: String,
    pub username: String,
    pub discriminator: Option<String>,
    pub message_count: Option<u64>,
    pub avatar: Option<String>,
}

/// One upstream leaderboard page, in listing order.
#[derive(Clone, Debug, PartialEq, Eq)]
pub struct Players {
    pub players: Vec<Player>,
}

/// The `name#discriminator` slug of a participant, or the bare name where it
/// has no discriminator.
pub open spec fn slug_of(username: Seq<char>, discriminator: Option<String>) -> Seq<char> {
    match discriminator {
        Some(d) => username + seq!['#'] + d@,
        None => username,
    }
}

/// A discriminator made of zeros only stands for "no discriminator".
pub open spec fn is_blank_discriminator(d: Seq<char>) -> bool {
    forall|i: int| 0 <= i < d.len() ==> #[trigger] d[i] == '0'
}

pub open spec fn normalized_discriminator(d: Option<String>) -> Option<String> {
    match d {
        Some(s) => if is_blank_discriminator(s@) {
            None
        } else {
            Some(s)
        },
        None => None,
    }
}

/// The record that a fetched entry becomes once its id is read as `id`.
pub open spec fn user_of(p: Player, id: u64, rank: i64, now: i64) -> User {
    User {
        xp: p.xp,
        id,
        username: p.username,
        discriminator: p.discriminator,
        avatar: p.avatar,
        message_count: p.message_count,
        rank,
        last_updated: Some(now),
    }
}

/// The id of a fetched entry, when its text is a valid `u64`.
pub open spec fn player_id(p: Player) -> Option<nat> {
    parse_unsigned(p.id@, u64::MAX as nat)
}

pub fn copy_text(t: &Option<String>) -> (r: Option<String>)
    ensures
        r == *t,
{
    match t {
        Some(s) => Some(s.clone()),
        None => None,
    }
}

impl User {
    pub open spec fn slug(&self) -> Seq<char> {
        slug_of(self.username@, self.discriminator)
    }

    /// The name under which the participant is looked up by name.
    pub fn human_identifier(&self) -> (r: String)
        ensures
            r@ == self.slug(),
    {
        let mut out = self.username.clone();
        match &self.discriminator {
            Some(d) => {
                proof {
                    reveal_strlit("#");
                }
                out.append("#");
                out.append(d.as_str());
                assert(out@ =~= self.slug());
            },
            None => {},
        }
        out
    }

    /// A field-by-field copy.
    pub fn duplicate(&self) -> (r: User)
        ensures
            r == *self,
    {
        User {
            xp: self.xp,
            id: self.id,
            username: self.username.clone(),
            discriminator: copy_text(&self.discriminator),
            avatar: copy_text(&self.avatar),
            message_count: self.message_count,
            rank: self.rank,
            last_updated: self.last_updated,
        }
    }
}

fn is_blank(s: &str) -> (r: bool)
    ensures
        r == is_blank_discriminator(s@),
{
    let len: usize = s.unicode_len();
    let mut i: usize = 0;
    while i < len
        invariant
            len == s@.len(),
            i <= len,
            forall|j: int| 0 <= j < i ==> #[trigger] s@[j] == '0',
        decreases len - i,
    {
        if s.get_char(i) != '0' {
            assert(s@[i as int] != '0');
            return false;
        }
        i = i + 1;
    }
    true
}

/// Drops a discriminator that holds zeros only (the upstream writes "0" for
/// accounts without one).
pub fn normalize_discriminator(d: Option<String>) -> (r: Option<String>)
    ensures
        r == normalized_discriminator(d),
{
    match d {
        Some(s) => if is_blank(s.as_str()) {
            None
        } else {
            Some(s)
        },
        None => None,
    }
}

/// Turns a fetched entry into a record with the given rank and sync time;
/// `None` when its id is not a valid `u64`.
pub fn player_to_user(player: &Player, rank: i64, now: i64) -> (r: Option<User>)
    ensures
        r == match player_id(*player) {
            Some(id) => Some(user_of(*player, id as u64, rank, now)),
            None => None,
        },
{
    match parse_decimal(player.id.as_str(), u64::MAX) {
        Some(id) => Some(
            User {
                xp: player.xp,
                id,
                username: player.username.clone(),
                discriminator: copy_text(&player.discriminator),
                avatar: copy_text(&player.avatar),
                message_count: player.message_count,
                rank,
                last_updated: Some(now),
            },
        ),
        None => None,
    }
}

} // verus!
