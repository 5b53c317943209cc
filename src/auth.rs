//! The login exchange: short-lived, single-use verifiers keyed by the state
//! token that the upstream hands back.

use vstd::prelude::*;
use vstd::hash_map::StringHashMap;
use crate::error::Error;
use crate::text::{decimal, push_decimal};

verus! {

/// Seconds for which a login state stays valid.
pub const STATE_TTL_SECONDS: i64 = 600;

/// A verifier waiting for its login to complete.
pub struct PendingLogin {
    pub verifier: String,
    pub expires_at: i64,
}

/// The pending login states, by state token, with the tokens in the order
/// they were issued (some perhaps already taken) so that expired states can be
/// dropped.
pub struct AuthStates {
    pending: StringHashMap<PendingLogin>,
    issued: Vec<String>,
}

/// The pending states after a login begins: the verifier is kept under the
/// token until `now` plus the time to live.
pub open spec fn begin_spec(
    m: Map<Seq<char>, (Seq<char>, i64)>,
    state: Seq<char>,
    verifier: Seq<char>,
    now: i64,
) -> Map<Seq<char>, (Seq<char>, i64)> {
    m.insert(state, (verifier, (now + STATE_TTL_SECONDS) as i64))
}

/// A state token is still valid at `now`.
pub open spec fn is_live(m: Map<Seq<char>, (Seq<char>, i64)>, state: Seq<char>, now: i64) -> bool {
    m.contains_key(state) && now < m[state].1
}

/// What completing a login with `state` returns: its verifier while it is
/// live, else the invalid-state error.
pub open spec fn take_result(m: Map<Seq<char>, (Seq<char>, i64)>, state: Seq<char>, now: i64) -> Result<
    Seq<char>,
    Error,
> {
    if is_live(m, state, now) {
        Ok(m[state].0)
    } else {
        Err(Error::InvalidState)
    }
}

impl View for AuthStates {
    type V = Map<Seq<char>, (Seq<char>, i64)>;

    closed spec fn view(&self) -> Map<Seq<char>, (Seq<char>, i64)> {
        self.pending@.map_values(|p: PendingLogin| (p.verifier@, p.expires_at))
    }
}

/// The pending states that are still valid at `now`.
pub open spec fn live_only(m: Map<Seq<char>, (Seq<char>, i64)>, now: i64) -> Map<
    Seq<char>,
    (Seq<char>, i64),
> {
    m.restrict(Set::new(|k: Seq<char>| is_live(m, k, now)))
}

impl AuthStates {
    /// Every pending token is among the issued ones.
    pub closed spec fn wf(&self) -> bool {
        forall|k: Seq<char>|
            #[trigger] self.pending@.contains_key(k) ==> exists|j: int|
                0 <= j < self.issued@.len() && (#[trigger] self.issued@[j])@ == k
    }

    /// No pending logins.
    pub fn new() -> (r: AuthStates)
        ensures
            r.wf(),
            r@ == Map::<Seq<char>, (Seq<char>, i64)>::empty(),
    {
        let r = AuthStates { pending: StringHashMap::new(), issued: Vec::new() };
        assert(r@ =~= Map::<Seq<char>, (Seq<char>, i64)>::empty());
        r
    }

    /// Keeps the verifier of a login that begins at `now` under its state
    /// token.
    pub fn begin_login(&mut self, state: String, verifier: String, now: i64)
        requires
            old(self).wf(),
            now <= i64::MAX - STATE_TTL_SECONDS,
        ensures
            final(self).wf(),
            final(self)@ == begin_spec(old(self)@, state@, verifier@, now),
    {
        let ghost s = state@;
        let ghost v = verifier@;
        self.issued.push(state.clone());
        self.pending.insert(state, PendingLogin { verifier, expires_at: now + STATE_TTL_SECONDS });
        assert(self@ =~= begin_spec(old(self)@, s, v, now));
        assert forall|k: Seq<char>| #[trigger] self.pending@.contains_key(k) implies exists|j: int|
            0 <= j < self.issued@.len() && (#[trigger] self.issued@[j])@ == k by {
            if k == s {
                assert(self.issued@[self.issued@.len() - 1]@ == k);
            } else {
                assert(old(self).pending@.contains_key(k));
                let j: int = choose|j: int|
                    0 <= j < old(self).issued@.len() && (#[trigger] old(self).issued@[j])@ == k;
                assert(self.issued@[j] == old(self).issued@[j]);
            }
        }
    }

    /// Drops the states that are no longer valid at `now`.
    pub fn forget_expired(&mut self, now: i64)
        requires
            old(self).wf(),
        ensures
            final(self).wf(),
            final(self)@ == live_only(old(self)@, now),
    {
        let mut kept: StringHashMap<PendingLogin> = StringHashMap::new();
        let mut kept_issued: Vec<String> = Vec::new();
        let mut i: usize = 0;
        while i < self.issued.len()
            invariant
                *self == *old(self),
                self.wf(),
                i <= self.issued@.len(),
                forall|k: Seq<char>|
                    #[trigger] kept@.contains_key(k) <==> (is_live(self@, k, now) && exists|j: int|
                        0 <= j < i && (#[trigger] self.issued@[j])@ == k),
                forall|k: Seq<char>|
                    #[trigger] kept@.contains_key(k) ==> kept@[k] == self.pending@[k],
                forall|k: Seq<char>|
                    #[trigger] kept@.contains_key(k) ==> exists|j: int|
                        0 <= j < kept_issued@.len() && (#[trigger] kept_issued@[j])@ == k,
            decreases self.issued@.len() - i,
        {
            let key = &self.issued[i];
            if !kept.contains_key(key.as_str()) {
                match self.pending.get(key.as_str()) {
                    Some(p) => if now < p.expires_at {
                        let ghost before = kept_issued@;
                        kept.insert(
                            key.clone(),
                            PendingLogin { verifier: p.verifier.clone(), expires_at: p.expires_at },
                        );
                        kept_issued.push(key.clone());
                        assert(kept_issued@[kept_issued@.len() - 1]@ == key@);
                        assert forall|j: int| 0 <= j < before.len() implies kept_issued@[j] == before[j] by {
                        }
                    },
                    None => {},
                }
            }
            i = i + 1;
        }
        assert forall|k: Seq<char>| #[trigger] kept@.contains_key(k) implies exists|j: int|
            0 <= j < kept_issued@.len() && (#[trigger] kept_issued@[j])@ == k by {
        }
        assert forall|k: Seq<char>| #[trigger] old(self)@.contains_key(k) && is_live(old(self)@, k, now) implies kept@.contains_key(k) by {
            assert(old(self).pending@.contains_key(k));
            let j: int = choose|j: int|
                0 <= j < old(self).issued@.len() && (#[trigger] old(self).issued@[j])@ == k;
            assert(self.issued@[j]@ == k);
        }
        let ghost kept_v = kept@;
        let ghost issued_v = kept_issued@;
        self.pending = kept;
        self.issued = kept_issued;
        assert(self.pending@ == kept_v && self.issued@ == issued_v);
        assert(self@ =~= live_only(old(self)@, now));
    }

    /// Takes the verifier of `state` out: the state is gone afterwards,
    /// whether or not it was still valid.
    pub fn take_verifier(&mut self, state: &str, now: i64) -> (r: Result<String, Error>)
        requires
            old(self).wf(),
        ensures
            final(self).wf(),
            final(self)@ == old(self)@.remove(state@),
            match r {
                Ok(v) => take_result(old(self)@, state@, now) == Ok::<Seq<char>, Error>(v@),
                Err(e) => take_result(old(self)@, state@, now) == Err::<Seq<char>, Error>(e),
            },
    {
        let found = match self.pending.get(state) {
            Some(p) => if now < p.expires_at {
                Ok(p.verifier.clone())
            } else {
                Err(Error::InvalidState)
            },
            None => Err(Error::InvalidState),
        };
        self.pending.remove(state);
        assert(self@ =~= old(self)@.remove(state@));
        assert forall|k: Seq<char>| #[trigger] self.pending@.contains_key(k) implies exists|j: int|
            0 <= j < self.issued@.len() && (#[trigger] self.issued@[j])@ == k by {
            assert(old(self).pending@.contains_key(k));
            let j: int = choose|j: int|
                0 <= j < old(self).issued@.len() && (#[trigger] old(self).issued@[j])@ == k;
            assert(self.issued@[j] == old(self).issued@[j]);
        }
        found
    }
}

/// Where a completed login sends the browser: the profile of the verified
/// account.
pub open spec fn login_redirect_spec(id: u64) -> Seq<char> {
    seq!['/', '?', 'i', 'd', '='] + decimal(id as nat) + seq![
        '&',
        'u',
        's',
        'e',
        'r',
        'e',
        'x',
        'i',
        's',
        't',
        's',
        '=',
        't',
        'r',
        'u',
        'e',
    ]
}

/// The address of the profile of a verified account.
pub fn login_redirect(id: u64) -> (r: String)
    ensures
        r@ == login_redirect_spec(id),
{
    proof {
        reveal_strlit("/?id=");
        reveal_strlit("&userexists=true");
    }
    let mut out = String::from_str("/?id=");
    push_decimal(&mut out, id);
    out.append("&userexists=true");
    assert(out@ =~= login_redirect_spec(id));
    out
}

/// A login that begins and is completed with its state token before the
/// state expires gets its verifier back once; completing it again with the
/// same token fails with the invalid-state error.
pub proof fn law_login_state_single_use(
    m: Map<Seq<char>, (Seq<char>, i64)>,
    state: Seq<char>,
    verifier: Seq<char>,
    begun: i64,
    first: i64,
    second: i64,
)
    requires
        begun <= i64::MAX - STATE_TTL_SECONDS,
        begun <= first < begun + STATE_TTL_SECONDS,
    ensures
        take_result(begin_spec(m, state, verifier, begun), state, first) == Ok::<
            Seq<char>,
            Error,
        >(verifier),
        take_result(begin_spec(m, state, verifier, begun).remove(state), state, second) == Err::<
            Seq<char>,
            Error,
        >(Error::InvalidState),
{
}

} // verus!
