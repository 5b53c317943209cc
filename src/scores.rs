//! An in-memory record store: records by id, with a name index beside them.

use vstd::prelude::*;
use vstd::hash_map::StringHashMap;
use crate::reconcile::written;
use crate::text::{decimal, lemma_parse_decimal, parse_decimal, parse_unsigned};
use crate::user::User;

verus! {

#[verifier::external_type_specification]
#[verifier::external_body]
#[verifier::reject_recursive_types(K)]
#[verifier::reject_recursive_types(V)]
#[verifier::reject_recursive_types(S)]
pub struct ExAHashMap<K, V, S>(ahash::AHashMap<K, V, S>);

#[verifier::external_type_specification]
#[verifier::external_body]
pub struct ExAHashRandomState(ahash::RandomState);

/// Records by id, in a map of the ahash crate.
pub type IdTable = ahash::AHashMap<u64, User>;

/// The records that an `AHashMap` from ids holds.
pub uninterp spec fn id_table(m: IdTable) -> Map<u64, User>;

/// Relies on `ahash::AHashMap::new`: a map with no entries.
#[verifier::external_body]
fn table_new() -> (r: IdTable)
    ensures
        id_table(r).dom() == Set::<u64>::empty(),
{
    ahash::AHashMap::new()
}

/// Relies on `ahash::AHashMap::insert`: the key maps to the value afterwards,
/// replacing an earlier one; other keys are unchanged.
#[verifier::external_body]
fn table_insert(m: &mut IdTable, k: u64, v: User)
    ensures
        id_table(*final(m)) == id_table(*old(m)).insert(k, v),
{
    m.insert(k, v);
}

/// Relies on `ahash::AHashMap::get`: the value under the key, if any.
#[verifier::external_body]
fn table_get(m: &IdTable, k: u64) -> (r: Option<&User>)
    ensures
        (r is Some) == id_table(*m).contains_key(k),
        r is Some ==> *r->0 == id_table(*m)[k],
{
    m.get(&k)
}

/// The record under `id`, if any.
pub open spec fn find(records: Map<u64, User>, id: u64) -> Option<User> {
    if records.contains_key(id) {
        Some(records[id])
    } else {
        None
    }
}

/// The name index after records are written in order.
pub open spec fn names_written(names: Map<Seq<char>, u64>, users: Seq<User>) -> Map<Seq<char>, u64>
    decreases users.len(),
{
    if users.len() == 0 {
        names
    } else {
        names_written(names, users.drop_last()).insert(users.last().slug(), users.last().id)
    }
}

/// Records by id, and the id of each slug.
pub struct Scores {
    ids: IdTable,
    names: StringHashMap<u64>,
}

impl Scores {
    /// The records, by id.
    pub closed spec fn records(&self) -> Map<u64, User> {
        id_table(self.ids)
    }

    /// The name index: the id of each slug.
    pub closed spec fn name_index(&self) -> Map<Seq<char>, u64> {
        self.names@
    }

    /// What a lookup finds: an identifier that reads as a `u64` is an id;
    /// any other is a name, resolved through the name index.
    pub open spec fn lookup(&self, identifier: Seq<char>) -> Option<User> {
        match parse_unsigned(identifier, u64::MAX as nat) {
            Some(id) => find(self.records(), id as u64),
            None => if self.name_index().contains_key(identifier) {
                find(self.records(), self.name_index()[identifier])
            } else {
                None
            },
        }
    }

    /// Stores a record and points its slug at its id.
    pub fn insert(&mut self, user: User)
        ensures
            final(self).records() == old(self).records().insert(user.id, user),
            final(self).name_index() == old(self).name_index().insert(user.slug(), user.id),
    {
        let name = user.human_identifier();
        self.names.insert(name, user.id);
        table_insert(&mut self.ids, user.id, user);
    }

    /// Finds a record by id, or by name where the identifier is not a number.
    pub fn get(&self, identifier: &str) -> (r: Option<&User>)
        ensures
            match self.lookup(identifier@) {
                Some(u) => r is Some && *r->0 == u,
                None => r is None,
            },
    {
        match parse_decimal(identifier, u64::MAX) {
            Some(id) => table_get(&self.ids, id),
            None => match self.names.get(identifier) {
                Some(id) => table_get(&self.ids, *id),
                None => None,
            },
        }
    }

    /// A store holding the given records, written in order.
    pub fn new(users: Vec<User>) -> (r: Scores)
        ensures
            r.records() == written(Map::empty(), users@),
            r.name_index() == names_written(Map::empty(), users@),
    {
        let mut s = Scores { ids: table_new(), names: StringHashMap::new() };
        assert(s.records() =~= Map::<u64, User>::empty());
        let mut i: usize = 0;
        assert(users@.take(0) =~= Seq::<User>::empty());
        while i < users.len()
            invariant
                i <= users@.len(),
                s.records() == written(Map::empty(), users@.take(i as int)),
                s.name_index() == names_written(Map::empty(), users@.take(i as int)),
            decreases users@.len() - i,
        {
            let u = users[i].duplicate();
            s.insert(u);
            assert(users@.take(i + 1).drop_last() =~= users@.take(i as int));
            i = i + 1;
        }
        assert(users@.take(users@.len() as int) =~= users@);
        s
    }
}

/// Every id of a batch is among the written records.
pub proof fn lemma_written_contains(store: Map<u64, User>, users: Seq<User>, i: int)
    requires
        0 <= i < users.len(),
    ensures
        written(store, users).contains_key(users[i].id),
    decreases users.len(),
{
    if i < users.len() - 1 {
        lemma_written_contains(store, users.drop_last(), i);
        assert(users.drop_last()[i] == users[i]);
    }
}

/// The name index gives a record's id for its slug, unless a later record of
/// the batch took the slug for another id.
pub proof fn lemma_names_written(names: Map<Seq<char>, u64>, users: Seq<User>, i: int)
    requires
        0 <= i < users.len(),
        forall|j: int|
            i < j < users.len() && (#[trigger] users[j]).slug() == users[i].slug() ==> users[j].id
                == users[i].id,
    ensures
        names_written(names, users).contains_key(users[i].slug()),
        names_written(names, users)[users[i].slug()] == users[i].id,
    decreases users.len(),
{
    let last: int = users.len() - 1;
    assert(users.last() == users[last]);
    if i < last && users[last].slug() != users[i].slug() {
        let rest = users.drop_last();
        assert(rest[i] == users[i]);
        assert forall|j: int|
            i < j < rest.len() && (#[trigger] rest[j]).slug() == rest[i].slug() implies rest[j].id
                == rest[i].id by {
            assert(rest[j] == users[j]);
        }
        lemma_names_written(names, rest, i);
    }
}

/// In a store built from a batch, looking a record up by its name finds what
/// looking it up by its id finds, unless a later record of the batch took the
/// same name for another id, or the name itself reads as a number.
pub proof fn law_scores_name_matches_id(users: Seq<User>, i: int, scores: Scores)
    requires
        0 <= i < users.len(),
        scores.records() == written(Map::empty(), users),
        scores.name_index() == names_written(Map::empty(), users),
        parse_unsigned(users[i].slug(), u64::MAX as nat) is None,
        forall|j: int|
            i < j < users.len() && (#[trigger] users[j]).slug() == users[i].slug() ==> users[j].id
                == users[i].id,
    ensures
        scores.lookup(decimal(users[i].id as nat)) is Some,
        scores.lookup(users[i].slug()) == scores.lookup(decimal(users[i].id as nat)),
{
    lemma_parse_decimal(users[i].id as nat, u64::MAX as nat);
    lemma_written_contains(Map::empty(), users, i);
    lemma_names_written(Map::empty(), users, i);
}

} // verus!
