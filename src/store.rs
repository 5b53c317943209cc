//! The key scheme of the record store, the entries that a reconciled page
//! writes, and how a lookup by id or by name reads them back.

use vstd::prelude::*;
use crate::error::Error;
use crate::text::{all_digits, decimal, lemma_decimal_value, push_decimal};
use crate::user::User;

verus! {

/// `user.id:`, the prefix of a record's key.
pub open spec fn id_prefix() -> Seq<char> {
    seq!['u', 's', 'e', 'r', '.', 'i', 'd', ':']
}

/// `user.slug:`, the prefix of a name index key.
pub open spec fn slug_prefix() -> Seq<char> {
    seq!['u', 's', 'e', 'r', '.', 's', 'l', 'u', 'g', ':']
}

/// The key of the record of participant `id`.
pub open spec fn id_key(id: u64) -> Seq<char> {
    id_prefix() + decimal(id as nat)
}

/// The key of the name index entry for a slug.
pub open spec fn slug_key(slug: Seq<char>) -> Seq<char> {
    slug_prefix() + slug
}

/// The store entries of the first `n` records of a page: for each record its
/// name index entry (slug to id), then the record itself under its id, with
/// `encoded[i]` the stored form of `records[i]`.
pub open spec fn batch_entries(records: Seq<User>, encoded: Seq<String>, n: int) -> Seq<
    (Seq<char>, Seq<char>),
>
    decreases n,
{
    if n <= 0 {
        Seq::empty()
    } else {
        batch_entries(records, encoded, n - 1).push(
            (slug_key(records[n - 1].slug()), decimal(records[n - 1].id as nat)),
        ).push((id_key(records[n - 1].id), encoded[n - 1]@))
    }
}

/// The views of key/value pairs.
pub open spec fn entries_view(e: Seq<(String, String)>) -> Seq<(Seq<char>, Seq<char>)> {
    e.map_values(|p: (String, String)| (p.0@, p.1@))
}

/// A store after entries are set in order, later ones overwriting.
pub open spec fn apply_entries(
    store: Map<Seq<char>, Seq<char>>,
    entries: Seq<(Seq<char>, Seq<char>)>,
) -> Map<Seq<char>, Seq<char>>
    decreases entries.len(),
{
    if entries.len() == 0 {
        store
    } else {
        apply_entries(store, entries.drop_last()).insert(entries.last().0, entries.last().1)
    }
}

/// What a lookup by id reads.
pub open spec fn lookup_by_id(store: Map<Seq<char>, Seq<char>>, id: u64) -> Option<Seq<char>> {
    if store.contains_key(id_key(id)) {
        Some(store[id_key(id)])
    } else {
        None
    }
}

/// What a lookup by name reads: the id that the name index gives, then the
/// record under that id.
pub open spec fn lookup_by_name(store: Map<Seq<char>, Seq<char>>, name: Seq<char>) -> Option<
    Seq<char>,
> {
    if store.contains_key(slug_key(name)) && store.contains_key(
        id_prefix() + store[slug_key(name)],
    ) {
        Some(store[id_prefix() + store[slug_key(name)]])
    } else {
        None
    }
}

/// The key of the record of participant `id`.
pub fn id_key_string(id: u64) -> (r: String)
    ensures
        r@ == id_key(id),
{
    proof {
        reveal_strlit("user.id:");
    }
    let mut out = String::from_str("user.id:");
    push_decimal(&mut out, id);
    assert(out@ =~= id_key(id));
    out
}

/// The key of a record whose id is given as text.
pub fn id_text_key(id: &str) -> (r: String)
    ensures
        r@ == id_prefix() + id@,
{
    proof {
        reveal_strlit("user.id:");
    }
    let mut out = String::from_str("user.id:");
    out.append(id);
    assert(out@ =~= id_prefix() + id@);
    out
}

/// The key of the name index entry for a slug.
pub fn slug_key_string(slug: &str) -> (r: String)
    ensures
        r@ == slug_key(slug@),
{
    proof {
        reveal_strlit("user.slug:");
    }
    let mut out = String::from_str("user.slug:");
    out.append(slug);
    assert(out@ =~= slug_key(slug@));
    out
}

/// The entries that a reconciled page writes as one batch, given the stored
/// form of each record.
pub fn record_entries(records: &Vec<User>, encoded: &Vec<String>) -> (r: Vec<(String, String)>)
    requires
        encoded@.len() == records@.len(),
    ensures
        entries_view(r@) == batch_entries(records@, encoded@, records@.len() as int),
{
    let mut out: Vec<(String, String)> = Vec::new();
    let mut i: usize = 0;
    assert(entries_view(out@) =~= batch_entries(records@, encoded@, 0));
    while i < records.len()
        invariant
            i <= records@.len(),
            encoded@.len() == records@.len(),
            entries_view(out@) == batch_entries(records@, encoded@, i as int),
        decreases records@.len() - i,
    {
        let u = &records[i];
        let name = u.human_identifier();
        let slug_entry = (slug_key_string(name.as_str()), crate::text::decimal_string(u.id));
        let id_entry = (id_key_string(u.id), encoded[i].clone());
        let ghost before = out@;
        out.push(slug_entry);
        out.push(id_entry);
        assert(entries_view(out@) =~= entries_view(before).push(
            (slug_key(u.slug()), decimal(u.id as nat)),
        ).push((id_key(u.id), encoded@[i as int]@)));
        i = i + 1;
    }
    out
}

pub proof fn lemma_batch_entries(records: Seq<User>, encoded: Seq<String>, n: int)
    requires
        0 <= n <= records.len(),
    ensures
        batch_entries(records, encoded, n).len() == 2 * n,
        forall|j: int|
            0 <= j < n ==> #[trigger] batch_entries(records, encoded, n)[2 * j] == (
                slug_key(records[j].slug()),
                decimal(records[j].id as nat),
            ) && batch_entries(records, encoded, n)[2 * j + 1] == (
                id_key(records[j].id),
                encoded[j]@,
            ),
    decreases n,
{
    if n > 0 {
        lemma_batch_entries(records, encoded, n - 1);
        let e = batch_entries(records, encoded, n);
        let before = batch_entries(records, encoded, n - 1);
        assert forall|j: int| 0 <= j < n implies #[trigger] e[2 * j] == (
            slug_key(records[j].slug()),
            decimal(records[j].id as nat),
        ) && e[2 * j + 1] == (id_key(records[j].id), encoded[j]@) by {
            if j < n - 1 {
                assert(e[2 * j] == before[2 * j]);
                assert(e[2 * j + 1] == before[2 * j + 1]);
            }
        }
    }
}

/// A key set at some position of a batch is in the store afterwards.
pub proof fn lemma_apply_contains(
    store: Map<Seq<char>, Seq<char>>,
    entries: Seq<(Seq<char>, Seq<char>)>,
    m: int,
)
    requires
        0 <= m < entries.len(),
    ensures
        apply_entries(store, entries).contains_key(entries[m].0),
    decreases entries.len(),
{
    if m < entries.len() - 1 {
        lemma_apply_contains(store, entries.drop_last(), m);
        assert(entries.drop_last()[m] == entries[m]);
    }
}

/// Where every entry from position `lo` on that sets `key` sets it to `v`, and
/// one does, the store holds `v` under `key` afterwards.
pub proof fn lemma_apply_value(
    store: Map<Seq<char>, Seq<char>>,
    entries: Seq<(Seq<char>, Seq<char>)>,
    key: Seq<char>,
    v: Seq<char>,
    lo: int,
)
    requires
        0 <= lo,
        exists|m: int| lo <= m < entries.len() && (#[trigger] entries[m]).0 == key,
        forall|m: int| lo <= m < entries.len() && (#[trigger] entries[m]).0 == key ==> entries[m].1 == v,
    ensures
        apply_entries(store, entries).contains_key(key),
        apply_entries(store, entries)[key] == v,
    decreases entries.len(),
{
    let last: int = entries.len() - 1;
    assert(entries.last() == entries[last]);
    if entries[last].0 != key {
        let rest = entries.drop_last();
        let m: int = choose|m: int| lo <= m < entries.len() && (#[trigger] entries[m]).0 == key;
        assert(rest[m] == entries[m]);
        assert forall|m2: int| lo <= m2 < rest.len() && (#[trigger] rest[m2]).0 == key implies rest[m2].1
            == v by {
            assert(rest[m2] == entries[m2]);
        }
        lemma_apply_value(store, rest, key, v, lo);
    }
}

proof fn lemma_keys_differ(id: u64, slug: Seq<char>)
    ensures
        id_key(id) != slug_key(slug),
{
    lemma_decimal_value(id as nat);
    assert(id_key(id)[5] == 'i');
    assert(slug_key(slug)[5] == 's');
}

proof fn lemma_slug_key_injective(a: Seq<char>, b: Seq<char>)
    requires
        slug_key(a) == slug_key(b),
    ensures
        a == b,
{
    let n: int = slug_prefix().len() as int;
    assert(slug_key(a).subrange(n, slug_key(a).len() as int) =~= a);
    assert(slug_key(b).subrange(n, slug_key(b).len() as int) =~= b);
}

/// For a record written in a batch, looking it up by its name gives what
/// looking it up by its id gives, unless a later record of the same batch took
/// the same name for another id.
pub proof fn law_name_lookup_matches_id_lookup(
    store: Map<Seq<char>, Seq<char>>,
    records: Seq<User>,
    encoded: Seq<String>,
    i: int,
)
    requires
        encoded.len() == records.len(),
        0 <= i < records.len(),
        forall|j: int|
            i < j < records.len() && (#[trigger] records[j]).slug() == records[i].slug()
                ==> records[j].id == records[i].id,
    ensures
        ({
            let after = apply_entries(
                store,
                batch_entries(records, encoded, records.len() as int),
            );
            &&& lookup_by_id(after, records[i].id) is Some
            &&& lookup_by_name(after, records[i].slug()) == lookup_by_id(after, records[i].id)
        }),
{
    let n: int = records.len() as int;
    let e = batch_entries(records, encoded, n);
    let after = apply_entries(store, e);
    let u = records[i];
    lemma_batch_entries(records, encoded, n);
    assert(e[2 * i] == (slug_key(u.slug()), decimal(u.id as nat)));
    assert forall|m: int| 2 * i <= m < e.len() && (#[trigger] e[m]).0 == slug_key(u.slug()) implies e[m].1
        == decimal(u.id as nat) by {
        let j: int = m / 2;
        assert(0 <= j < n);
        if m % 2 == 0 {
            assert(m == 2 * j);
            assert(e[2 * j].0 == slug_key(records[j].slug()));
            lemma_slug_key_injective(records[j].slug(), u.slug());
            if j > i {
                assert(records[j].id == u.id);
            }
        } else {
            assert(m == 2 * j + 1);
            assert(e[2 * j].0 == slug_key(records[j].slug()));
            assert(e[2 * j + 1].0 == id_key(records[j].id));
            lemma_keys_differ(records[j].id, u.slug());
        }
    }
    lemma_apply_value(store, e, slug_key(u.slug()), decimal(u.id as nat), 2 * i);
    assert(e[2 * i + 1].0 == id_key(u.id));
    lemma_apply_contains(store, e, 2 * i + 1);
    assert(id_prefix() + decimal(u.id as nat) == id_key(u.id));
}

/// The first key that a lookup reads, and whether it goes through the name
/// index.
pub struct LookupPlan {
    pub key: String,
    pub via_name: bool,
}

/// An identifier made of digits only (the empty one too) is an id; any other
/// is a name.
pub fn lookup_plan(identifier: &str) -> (r: LookupPlan)
    ensures
        r.via_name == !all_digits(identifier@),
        !r.via_name ==> r.key@ == id_prefix() + identifier@,
        r.via_name ==> r.key@ == slug_key(identifier@),
{
    let len: usize = identifier.unicode_len();
    let mut i: usize = 0;
    while i < len
        invariant
            len == identifier@.len(),
            i <= len,
            forall|j: int| 0 <= j < i ==> crate::text::is_digit(#[trigger] identifier@[j]),
        decreases len - i,
    {
        let c = identifier.get_char(i);
        if !('0' <= c && c <= '9') {
            assert(!crate::text::is_digit(identifier@[i as int]));
            return LookupPlan { key: slug_key_string(identifier), via_name: true };
        }
        i = i + 1;
    }
    LookupPlan { key: id_text_key(identifier), via_name: false }
}

/// The failure of a lookup that found nothing: a softer one where the caller
/// expected the participant to be ranked.
pub open spec fn missing_error(user_exists: bool) -> Error {
    if user_exists {
        Error::NotLevelFive
    } else {
        Error::UnknownId
    }
}

/// The outcome of one read of a lookup: the value read, or the failure for a
/// missing one.
pub fn lookup_outcome(found: Option<String>, user_exists: bool) -> (r: Result<String, Error>)
    ensures
        match found {
            Some(v) => r == Ok::<String, Error>(v),
            None => r == Err::<String, Error>(missing_error(user_exists)),
        },
{
    match found {
        Some(v) => Ok(v),
        None => if user_exists {
            Err(Error::NotLevelFive)
        } else {
            Err(Error::UnknownId)
        },
    }
}

} // verus!
