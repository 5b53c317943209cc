//! One sync step over an upstream page: rank assignment, wrap detection,
//! the level-up events of the page and the entries that the store receives.

use vstd::prelude::*;
use crate::level::{detect_level_up, event_spec, LevelUpEvent};
use crate::user::{player_id, player_to_user, user_of, Player, User};

verus! {

/// Entries with less experience than this mark the end of the listing: the
/// upstream has wrapped to its top.
pub const XP_FLOOR: u64 = 100;

/// Entries asked of the upstream per page.
pub const PAGE_SIZE: u64 = 1000;

/// Progress through the upstream listing, kept across sync passes.
#[derive(Clone, Copy, Debug, PartialEq, Eq)]
pub struct SyncCursor {
    /// The next page to fetch, from 0.
    pub page: i64,
    /// The rank that the next accepted entry gets, from 1.
    pub rank: i64,
}

/// The records that a page gives when its first accepted entry is ranked
/// `rank`: entries in listing order up to the first one below the floor,
/// leaving out those whose id cannot be read, ranked one after another.
pub open spec fn staged(ps: Seq<Player>, rank: int, now: i64) -> Seq<User>
    decreases ps.len(),
{
    if ps.len() == 0 {
        Seq::empty()
    } else if ps[0].xp < XP_FLOOR {
        Seq::empty()
    } else {
        match player_id(ps[0]) {
            Some(id) => seq![user_of(ps[0], id as u64, rank as i64, now)] + staged(
                ps.drop_first(),
                rank + 1,
                now,
            ),
            None => staged(ps.drop_first(), rank, now),
        }
    }
}

/// The page holds an entry below the floor.
pub open spec fn wraps(ps: Seq<Player>) -> bool {
    exists|i: int| 0 <= i < ps.len() && #[trigger] ps[i].xp < XP_FLOOR
}

/// The cursor after a page has been reconciled.
pub open spec fn cursor_after(c: SyncCursor, ps: Seq<Player>, now: i64) -> SyncCursor {
    if wraps(ps) {
        SyncCursor { page: 0, rank: 1 }
    } else {
        SyncCursor { page: c.page, rank: (c.rank + staged(ps, c.rank as int, now).len()) as i64 }
    }
}

pub proof fn lemma_staged_len(ps: Seq<Player>, rank: int, now: i64)
    ensures
        staged(ps, rank, now).len() <= ps.len(),
    decreases ps.len(),
{
    if ps.len() > 0 {
        lemma_staged_len(ps.drop_first(), rank + 1, now);
        lemma_staged_len(ps.drop_first(), rank, now);
    }
}

/// Within a page, ranks follow one another from the first one given.
pub proof fn lemma_staged_ranks(ps: Seq<Player>, rank: int, now: i64)
    requires
        i64::MIN <= rank,
        rank + ps.len() <= i64::MAX,
    ensures
        forall|i: int|
            0 <= i < staged(ps, rank, now).len() ==> #[trigger] staged(ps, rank, now)[i].rank
                == rank + i,
    decreases ps.len(),
{
    if ps.len() > 0 {
        lemma_staged_ranks(ps.drop_first(), rank + 1, now);
        lemma_staged_ranks(ps.drop_first(), rank, now);
    }
}

/// Relies on `chrono::Utc::now` and `DateTime::timestamp_millis`: the time now
/// in milliseconds since the Unix epoch. It depends on the clock, so nothing
/// is promised of it.
#[verifier::external_body]
fn now_millis() -> (r: i64) {
    chrono::Utc::now().timestamp_millis()
}

impl SyncCursor {
    /// A cursor at the top of the listing.
    pub fn new() -> (r: SyncCursor)
        ensures
            r.page == 0,
            r.rank == 1,
    {
        SyncCursor { page: 0, rank: 1 }
    }

    /// Claims the next page to fetch. The cursor moves on at once, so a
    /// failed fetch skips the page until the listing wraps.
    pub fn next_page(&mut self) -> (r: i64)
        requires
            old(self).page < i64::MAX,
        ensures
            r == old(self).page,
            final(self).page == old(self).page + 1,
            final(self).rank == old(self).rank,
    {
        let p: i64 = self.page;
        self.page = p + 1;
        p
    }

    /// Ranks the entries of a fetched page and moves the cursor on. An entry
    /// below the floor resets the cursor to the top and ends the page.
    pub fn reconcile_page(&mut self, players: &Vec<Player>, now: i64) -> (r: Vec<User>)
        requires
            old(self).rank + players@.len() <= i64::MAX,
        ensures
            r@ == staged(players@, old(self).rank as int, now),
            *final(self) == cursor_after(*old(self), players@, now),
    {
        let ghost ps = players@;
        let ghost r0 = self.rank as int;
        let mut out: Vec<User> = Vec::new();
        let mut rank: i64 = self.rank;
        let mut i: usize = 0;
        assert(ps.skip(0) =~= ps);
        assert(out@ + staged(ps, r0, now) =~= staged(ps, r0, now));
        while i < players.len()
            invariant
                *self == *old(self),
                r0 == old(self).rank,
                i <= ps.len(),
                ps == players@,
                r0 + ps.len() <= i64::MAX,
                rank == r0 + out@.len(),
                out@.len() <= i,
                forall|j: int| 0 <= j < i ==> #[trigger] ps[j].xp >= XP_FLOOR,
                staged(ps, r0, now) == out@ + staged(ps.skip(i as int), rank as int, now),
            decreases ps.len() - i,
        {
            let p = &players[i];
            let ghost rest = ps.skip(i as int);
            assert(rest[0] == ps[i as int]);
            assert(rest.drop_first() =~= ps.skip(i + 1));
            if p.xp < XP_FLOOR {
                assert(staged(rest, rank as int, now) == Seq::<User>::empty());
                assert(out@ + Seq::<User>::empty() =~= out@);
                assert(wraps(ps));
                self.rank = 1;
                self.page = 0;
                return out;
            }
            match player_to_user(p, rank, now) {
                Some(u) => {
                    let ghost before = out@;
                    assert(staged(rest, rank as int, now) == seq![u] + staged(
                        ps.skip(i + 1),
                        rank + 1,
                        now,
                    ));
                    out.push(u);
                    assert(out@ + staged(ps.skip(i + 1), rank + 1, now) =~= before + staged(
                        rest,
                        rank as int,
                        now,
                    ));
                    rank = rank + 1;
                },
                None => {},
            }
            i = i + 1;
        }
        assert(ps.skip(ps.len() as int) =~= Seq::<Player>::empty());
        assert(out@ + Seq::<User>::empty() =~= out@);
        assert(!wraps(ps));
        self.rank = rank;
        out
    }

    /// Reconciles a fetched page with the records stamped with the time now.
    pub fn reconcile_page_now(&mut self, players: &Vec<Player>) -> (r: Vec<User>)
        requires
            old(self).rank + players@.len() <= i64::MAX,
        ensures
            exists|now: i64|
                r@ == staged(players@, old(self).rank as int, now) && *final(self) == cursor_after(
                    *old(self),
                    players@,
                    now,
                ),
    {
        let now: i64 = now_millis();
        self.reconcile_page(players, now)
    }
}

/// No later record of the page has the same id: the record at `i` is the one
/// that the store keeps for its id.
pub open spec fn is_last_of_id(records: Seq<User>, i: int) -> bool {
    forall|j: int| i < j < records.len() ==> #[trigger] records[j].id != records[i].id
}

/// The events of the first `n` records of a page, in page order, against the
/// stored records read before the page was written (`priors[i]` for
/// `records[i]`).
pub open spec fn page_events(records: Seq<User>, priors: Seq<Option<User>>, n: int) -> Seq<
    LevelUpEvent,
>
    decreases n,
{
    if n <= 0 {
        Seq::empty()
    } else {
        let before = page_events(records, priors, n - 1);
        if is_last_of_id(records, n - 1) && event_spec(priors[n - 1], records[n - 1]) is Some {
            before.push(event_spec(priors[n - 1], records[n - 1])->0)
        } else {
            before
        }
    }
}

fn last_of_id(records: &Vec<User>, i: usize) -> (r: bool)
    requires
        i < records@.len(),
    ensures
        r == is_last_of_id(records@, i as int),
{
    let n: usize = records.len();
    let mut j: usize = i + 1;
    while j < n
        invariant
            i < j <= records@.len(),
            n == records@.len(),
            forall|k: int| i < k < j ==> #[trigger] records@[k].id != records@[i as int].id,
        decreases records@.len() - j,
    {
        if records[j].id == records[i].id {
            return false;
        }
        j = j + 1;
    }
    true
}

/// The level-up events of a reconciled page: one for each id whose stored
/// record was below the announcement level and whose fresh record (the last
/// one of the page for that id) is at or above it.
pub fn page_level_ups(records: &Vec<User>, priors: &Vec<Option<User>>) -> (r: Vec<LevelUpEvent>)
    requires
        priors@.len() == records@.len(),
    ensures
        r@ == page_events(records@, priors@, records@.len() as int),
{
    let mut out: Vec<LevelUpEvent> = Vec::new();
    let mut i: usize = 0;
    while i < records.len()
        invariant
            i <= records@.len(),
            priors@.len() == records@.len(),
            out@ == page_events(records@, priors@, i as int),
        decreases records@.len() - i,
    {
        if last_of_id(records, i) {
            match detect_level_up(&priors[i], &records[i]) {
                Some(e) => {
                    out.push(e);
                },
                None => {},
            }
        }
        i = i + 1;
    }
    out
}

/// Every event of a page comes from a record of the page whose stored
/// record existed under the same id, and no id is announced twice.
pub proof fn law_page_events(records: Seq<User>, priors: Seq<Option<User>>, n: int)
    requires
        0 <= n <= records.len(),
        priors.len() == records.len(),
    ensures
        forall|k: int|
            0 <= k < page_events(records, priors, n).len() ==> exists|i: int|
                0 <= i < n && is_last_of_id(records, i) && priors[i] is Some
                    && priors[i]->0.id == records[i].id
                    && #[trigger] page_events(records, priors, n)[k] == event_spec(
                    priors[i],
                    records[i],
                )->0 && event_spec(priors[i], records[i]) is Some,
        forall|k1: int, k2: int|
            0 <= k1 < k2 < page_events(records, priors, n).len() ==> #[trigger] page_events(
                records,
                priors,
                n,
            )[k1].id != #[trigger] page_events(records, priors, n)[k2].id,
    decreases n,
{
    if n > 0 {
        law_page_events(records, priors, n - 1);
        let before = page_events(records, priors, n - 1);
        let evs = page_events(records, priors, n);
        if is_last_of_id(records, n - 1) && event_spec(priors[n - 1], records[n - 1]) is Some {
            assert(evs == before.push(event_spec(priors[n - 1], records[n - 1])->0));
            assert forall|k: int| 0 <= k < evs.len() implies exists|i: int|
                0 <= i < n && is_last_of_id(records, i) && priors[i] is Some
                    && priors[i]->0.id == records[i].id && #[trigger] evs[k] == event_spec(
                    priors[i],
                    records[i],
                )->0 && event_spec(priors[i], records[i]) is Some by {
                if k < before.len() {
                    assert(evs[k] == before[k]);
                    let i: int = choose|i: int|
                        0 <= i < n - 1 && is_last_of_id(records, i) && priors[i] is Some
                            && priors[i]->0.id == records[i].id && #[trigger] before[k]
                            == event_spec(priors[i], records[i])->0 && event_spec(
                            priors[i],
                            records[i],
                        ) is Some;
                    assert(0 <= i < n);
                } else {
                    assert(evs[k] == event_spec(priors[n - 1], records[n - 1])->0);
                }
            }
            assert forall|k1: int, k2: int|
                0 <= k1 < k2 < evs.len() implies #[trigger] evs[k1].id != #[trigger] evs[k2].id by {
                if k2 == evs.len() - 1 {
                    assert(evs[k1] == before[k1]);
                    assert(exists|i: int|
                        0 <= i < n - 1 && is_last_of_id(records, i) && #[trigger] before[k1]
                            == event_spec(priors[i], records[i])->0 && event_spec(
                            priors[i],
                            records[i],
                        ) is Some);
                    let i: int = choose|i: int|
                        0 <= i < n - 1 && is_last_of_id(records, i) && #[trigger] before[k1]
                            == event_spec(priors[i], records[i])->0 && event_spec(
                            priors[i],
                            records[i],
                        ) is Some;
                    assert(records[n - 1].id != records[i].id);
                } else {
                    assert(evs[k1] == before[k1]);
                    assert(evs[k2] == before[k2]);
                }
            }
        } else {
            assert(evs == before);
        }
    }
}

/// An id none of whose records in the page had a stored record before is not
/// announced on that sync.
pub proof fn law_first_sighting_is_silent(records: Seq<User>, priors: Seq<Option<User>>, id: u64)
    requires
        priors.len() == records.len(),
        forall|i: int| 0 <= i < records.len() && records[i].id == id ==> #[trigger] priors[i] is None,
    ensures
        forall|k: int|
            0 <= k < page_events(records, priors, records.len() as int).len() ==> #[trigger] page_events(
                records,
                priors,
                records.len() as int,
            )[k].id != id,
{
    let n: int = records.len() as int;
    law_page_events(records, priors, n);
    assert forall|k: int| 0 <= k < page_events(records, priors, n).len() implies #[trigger] page_events(
        records,
        priors,
        n,
    )[k].id != id by {
        let i: int = choose|i: int|
            0 <= i < n && is_last_of_id(records, i) && priors[i] is Some && priors[i]->0.id
                == records[i].id && #[trigger] page_events(records, priors, n)[k] == event_spec(
                priors[i],
                records[i],
            )->0 && event_spec(priors[i], records[i]) is Some;
        assert(priors[i] is Some);
    }
}

/// The store of decoded records after a page's records are written in order.
pub open spec fn written(store: Map<u64, User>, records: Seq<User>) -> Map<u64, User>
    decreases records.len(),
{
    if records.len() == 0 {
        store
    } else {
        written(store, records.drop_last()).insert(records.last().id, records.last())
    }
}

/// The stored records that a page's records are compared with.
pub open spec fn priors_in(store: Map<u64, User>, records: Seq<User>) -> Seq<Option<User>> {
    Seq::new(
        records.len(),
        |i: int|
            if store.contains_key(records[i].id) {
                Some(store[records[i].id])
            } else {
                None
            },
    )
}

/// After a page is written, the store holds for each id the last record of
/// the page with that id.
pub proof fn lemma_written_last(store: Map<u64, User>, records: Seq<User>, i: int)
    requires
        0 <= i < records.len(),
        is_last_of_id(records, i),
    ensures
        written(store, records).contains_key(records[i].id),
        written(store, records)[records[i].id] == records[i],
    decreases records.len(),
{
    if i < records.len() - 1 {
        let rest = records.drop_last();
        assert(records.last().id != records[i].id) by {
            assert(records.last() == records[records.len() - 1]);
        }
        assert(is_last_of_id(rest, i)) by {
            assert forall|j: int| i < j < rest.len() implies #[trigger] rest[j].id != rest[i].id by {
                assert(rest[j] == records[j]);
            }
        }
        lemma_written_last(store, rest, i);
        assert(rest[i] == records[i]);
    }
}

/// Reconciling a page again once the store reflects it announces nobody:
/// the second pass finds each stored level already equal to the fresh one.
pub proof fn law_second_pass_is_silent(store: Map<u64, User>, first: Seq<User>, second: Seq<User>)
    requires
        first.len() == second.len(),
        forall|i: int|
            0 <= i < first.len() ==> (#[trigger] first[i]).id == second[i].id && first[i].xp
                == second[i].xp,
    ensures
        page_events(second, priors_in(written(store, first), second), second.len() as int).len()
            == 0,
{
    let priors = priors_in(written(store, first), second);
    let n: int = second.len() as int;
    law_page_events(second, priors, n);
    if page_events(second, priors, n).len() > 0 {
        let i: int = choose|i: int|
            0 <= i < n && is_last_of_id(second, i) && priors[i] is Some && priors[i]->0.id
                == second[i].id && #[trigger] page_events(second, priors, n)[0] == event_spec(
                priors[i],
                second[i],
            )->0 && event_spec(priors[i], second[i]) is Some;
        assert(is_last_of_id(first, i)) by {
            assert forall|j: int| i < j < first.len() implies #[trigger] first[j].id != first[i].id by {
                assert(second[j].id != second[i].id);
            }
        }
        lemma_written_last(store, first, i);
        assert(priors[i] == Some(first[i]));
    }
}

/// The cursor and the records, in order, after pages are reconciled one
/// after another from the cursor `c`.
pub open spec fn run(c: SyncCursor, pages: Seq<Seq<Player>>, now: i64) -> (SyncCursor, Seq<User>)
    decreases pages.len(),
{
    if pages.len() == 0 {
        (c, Seq::empty())
    } else {
        let rest = run(cursor_after(c, pages[0], now), pages.drop_first(), now);
        (rest.0, staged(pages[0], c.rank as int, now) + rest.1)
    }
}

/// The number of entries over all pages.
pub open spec fn total_len(pages: Seq<Seq<Player>>) -> int
    decreases pages.len(),
{
    if pages.len() == 0 {
        0
    } else {
        pages[0].len() + total_len(pages.drop_first())
    }
}

pub proof fn lemma_total_len_nonneg(pages: Seq<Seq<Player>>)
    ensures
        total_len(pages) >= 0,
    decreases pages.len(),
{
    if pages.len() > 0 {
        lemma_total_len_nonneg(pages.drop_first());
    }
}

/// Over a cycle of pages (none wraps but possibly the last), the records get
/// the ranks that follow the cursor's one by one, in listing order; a page
/// that wraps leaves the cursor at the top (page 0, rank 1), and otherwise the
/// cursor's rank has moved on by the number of records.
pub proof fn law_ranks_follow_listing(c: SyncCursor, pages: Seq<Seq<Player>>, now: i64)
    requires
        c.rank + total_len(pages) <= i64::MAX,
        forall|k: int| 0 <= k < pages.len() - 1 ==> !wraps(#[trigger] pages[k]),
    ensures
        forall|i: int|
            0 <= i < run(c, pages, now).1.len() ==> #[trigger] run(c, pages, now).1[i].rank == c.rank
                + i,
        pages.len() > 0 && wraps(pages.last()) ==> run(c, pages, now).0 == (SyncCursor {
            page: 0,
            rank: 1,
        }),
        (forall|k: int| 0 <= k < pages.len() ==> !wraps(#[trigger] pages[k])) ==> run(
            c,
            pages,
            now,
        ).0.rank == c.rank + run(c, pages, now).1.len(),
    decreases pages.len(),
{
    if pages.len() > 0 {
        let p0 = pages[0];
        let rest = pages.drop_first();
        let recs = staged(p0, c.rank as int, now);
        let c1 = cursor_after(c, p0, now);
        lemma_total_len_nonneg(rest);
        lemma_staged_len(p0, c.rank as int, now);
        lemma_staged_ranks(p0, c.rank as int, now);
        let whole = run(c, pages, now);
        let tail = run(c1, rest, now);
        assert(whole.1 == recs + tail.1);
        if pages.len() == 1 {
            assert(rest.len() == 0);
            assert(tail.1 =~= Seq::<User>::empty());
            assert(whole.1 =~= recs);
            if !wraps(p0) {
                assert(pages[0] == p0);
            }
        } else {
            assert(!wraps(p0)) by {
                assert(pages[0] == p0);
            }
            assert(c1.rank == c.rank + recs.len());
            assert forall|k: int| 0 <= k < rest.len() - 1 implies !wraps(#[trigger] rest[k]) by {
                assert(rest[k] == pages[k + 1]);
            }
            law_ranks_follow_listing(c1, rest, now);
            assert forall|i: int| 0 <= i < whole.1.len() implies #[trigger] whole.1[i].rank == c.rank
                + i by {
                if i >= recs.len() {
                    assert(whole.1[i] == tail.1[i - recs.len()]);
                } else {
                    assert(whole.1[i] == recs[i]);
                }
            }
            assert(rest.last() == pages.last());
            if forall|k: int| 0 <= k < pages.len() ==> !wraps(#[trigger] pages[k]) {
                assert forall|k: int| 0 <= k < rest.len() implies !wraps(#[trigger] rest[k]) by {
                    assert(rest[k] == pages[k + 1]);
                }
            }
        }
    }
}

} // verus!
