//! The admin session cache: token → admin id, each entry valid for a
//! fixed number of seconds after it was cached.
use std::time::Instant;
use vstd::prelude::*;

use crate::clock::{elapsed_secs, instant_now, nanos_since, secs_between};
use crate::keyed::{
    distinct, entry_key, has_in, lemma_filter_step, lemma_map_of_entry, lemma_map_of_push,
    lemma_map_of_remove, lemma_map_of_update, lemma_take_push, map_of, position, Entry,
};
use vstd::arithmetic::div_mod::lemma_div_is_ordered;
use crate::auth::{bearer_of, bearer_token};

verus! {

/// Admin sessions kept in memory so that not every request needs the database.
pub struct SessionCache {
    entries: Vec<Entry<(i64, u128)>>,
    ttl_secs: u64,
    origin: Instant,
}

/// Whether an entry cached at `cached_at` still counts at `now`.
pub open spec fn session_fresh(now: u128, cached_at: u128, ttl: u64) -> bool {
    elapsed_secs(now, cached_at) < ttl
}

/// What a lookup of `token` at `now` answers over the cached sessions `m`
/// (token → (admin id, clock nanoseconds when cached)).
pub open spec fn session_lookup(
    m: Map<Seq<char>, (i64, u128)>,
    token: Seq<char>,
    now: u128,
    ttl: u64,
) -> Option<i64> {
    if m.contains_key(token) && session_fresh(now, m[token].1, ttl) {
        Some(m[token].0)
    } else {
        None
    }
}

/// The sessions of `m` that are still fresh at `now`.
pub open spec fn session_cleaned(m: Map<Seq<char>, (i64, u128)>, now: u128, ttl: u64) -> Map<
    Seq<char>,
    (i64, u128),
> {
    m.restrict(Set::new(|k: Seq<char>| m.contains_key(k) && session_fresh(now, m[k].1, ttl)))
}

/// The sessions of `m` that do not belong to `admin_id`.
pub open spec fn session_without_admin(m: Map<Seq<char>, (i64, u128)>, admin_id: i64) -> Map<
    Seq<char>,
    (i64, u128),
> {
    m.restrict(Set::new(|k: Seq<char>| m.contains_key(k) && m[k].0 != admin_id))
}

proof fn lemma_cleaned_insert(
    m: Map<Seq<char>, (i64, u128)>,
    k: Seq<char>,
    v: (i64, u128),
    now: u128,
    ttl: u64,
)
    requires
        !m.contains_key(k),
    ensures
        session_cleaned(m.insert(k, v), now, ttl) == if session_fresh(now, v.1, ttl) {
            session_cleaned(m, now, ttl).insert(k, v)
        } else {
            session_cleaned(m, now, ttl)
        },
{
    let l = session_cleaned(m.insert(k, v), now, ttl);
    let r = if session_fresh(now, v.1, ttl) {
        session_cleaned(m, now, ttl).insert(k, v)
    } else {
        session_cleaned(m, now, ttl)
    };
    assert(l =~= r);
}

proof fn lemma_without_admin_insert(
    m: Map<Seq<char>, (i64, u128)>,
    k: Seq<char>,
    v: (i64, u128),
    id: i64,
)
    requires
        !m.contains_key(k),
    ensures
        session_without_admin(m.insert(k, v), id) == if v.0 != id {
            session_without_admin(m, id).insert(k, v)
        } else {
            session_without_admin(m, id)
        },
{
    let l = session_without_admin(m.insert(k, v), id);
    let r = if v.0 != id {
        session_without_admin(m, id).insert(k, v)
    } else {
        session_without_admin(m, id)
    };
    assert(l =~= r);
}

impl SessionCache {
    #[verifier::type_invariant]
    spec fn tokens_distinct(self) -> bool {
        distinct(self.entries@)
    }

    /// The cached sessions: token → (admin id, clock nanoseconds when cached).
    pub closed spec fn sessions(self) -> Map<Seq<char>, (i64, u128)> {
        map_of(self.entries@)
    }

    /// How long an entry stays valid, in seconds.
    pub closed spec fn ttl(self) -> u64 {
        self.ttl_secs
    }

    /// An empty cache whose entries stay valid for `ttl_secs` seconds.
    pub fn new(ttl_secs: u64) -> (r: SessionCache)
        ensures
            r.sessions() == Map::<Seq<char>, (i64, u128)>::empty(),
            r.ttl() == ttl_secs,
    {
        let r = SessionCache { entries: Vec::new(), ttl_secs, origin: instant_now() };
        assert(r.sessions() =~= Map::<Seq<char>, (i64, u128)>::empty());
        r
    }

    /// Reads the cache's clock: nanoseconds since the cache was created.
    /// The reading rests on the moment of the call, so nothing is stated of
    /// it here; `get`, `insert` and `cleanup` state what holds whatever it reads.
    fn now(&self) -> u128 {
        nanos_since(&self.origin)
    }

    /// The admin id cached for `token` if its entry is still fresh at `now`.
    pub fn get_at(&self, token: &str, now: u128) -> (r: Option<i64>)
        ensures
            r == session_lookup(self.sessions(), token@, now, self.ttl()),
    {
        proof {
            use_type_invariant(self);
        }
        match position(&self.entries, token) {
            Some(i) => {
                proof {
                    lemma_map_of_entry(self.entries@, i as int);
                }
                if secs_between(now, self.entries[i].val.1) < self.ttl_secs as u128 {
                    Some(self.entries[i].val.0)
                } else {
                    None
                }
            },
            None => None,
        }
    }

    /// Looks `token` up now: `Some(admin id)` only for a cached token, with
    /// the id it was cached with.
    pub fn get(&self, token: &str) -> (r: Option<i64>)
        ensures
            exists|t: u128| r == session_lookup(self.sessions(), token@, t, self.ttl()),
            r matches Some(id) ==> self.sessions().contains_key(token@)
                && self.sessions()[token@].0 == id,
            !self.sessions().contains_key(token@) ==> r is None,
    {
        let now = self.now();
        self.get_at(token, now)
    }

    /// Caches `token` for `admin_id` at clock reading `now`, replacing any
    /// earlier entry for the token.
    pub fn insert_at(&mut self, token: String, admin_id: i64, now: u128)
        ensures
            final(self).sessions() == old(self).sessions().insert(token@, (admin_id, now)),
            final(self).ttl() == old(self).ttl(),
    {
        proof {
            use_type_invariant(&*self);
        }
        let e = Entry { key: token, val: (admin_id, now) };
        let ghost es = self.entries@;
        let pos = position(&self.entries, e.key.as_str());
        let mut v: Vec<Entry<(i64, u128)>> = Vec::new();
        std::mem::swap(&mut v, &mut self.entries);
        match pos {
            Some(i) => {
                proof {
                    lemma_map_of_update(es, i as int, e);
                }
                v.set(i, e);
            },
            None => {
                proof {
                    lemma_map_of_push(es, e);
                }
                v.push(e);
            },
        }
        self.entries = v;
    }

    /// Caches `token` for `admin_id` now.
    pub fn insert(&mut self, token: String, admin_id: i64)
        ensures
            exists|t: u128|
                final(self).sessions() == old(self).sessions().insert(token@, (admin_id, t)),
            final(self).ttl() == old(self).ttl(),
    {
        let now = self.now();
        self.insert_at(token, admin_id, now);
    }

    /// Drops the entry for `token`, if any.
    pub fn remove(&mut self, token: &str)
        ensures
            final(self).sessions() == old(self).sessions().remove(token@),
            final(self).ttl() == old(self).ttl(),
    {
        proof {
            use_type_invariant(&*self);
        }
        let ghost es = self.entries@;
        match position(&self.entries, token) {
            Some(i) => {
                proof {
                    lemma_map_of_remove(es, i as int);
                }
                let mut v: Vec<Entry<(i64, u128)>> = Vec::new();
                std::mem::swap(&mut v, &mut self.entries);
                v.remove(i);
                self.entries = v;
            },
            None => {
                assert(self.sessions() =~= self.sessions().remove(token@));
            },
        }
    }

    /// Keeps the entries that are fresh at `now` or, when `by_admin` is set,
    /// those of another admin than `admin_id`.
    fn retain_entries(&mut self, by_admin: bool, admin_id: i64, now: u128)
        ensures
            !by_admin ==> final(self).sessions() == session_cleaned(
                old(self).sessions(),
                now,
                old(self).ttl(),
            ),
            by_admin ==> final(self).sessions() == session_without_admin(
                old(self).sessions(),
                admin_id,
            ),
            final(self).ttl() == old(self).ttl(),
    {
        proof {
            use_type_invariant(&*self);
        }
        let ghost es = self.entries@;
        let mut out: Vec<Entry<(i64, u128)>> = Vec::new();
        let mut i: usize = 0;
        assert(es.take(0) =~= Seq::<Entry<(i64, u128)>>::empty());
        assert(map_of(out@) =~= session_cleaned(map_of(es.take(0)), now, self.ttl_secs));
        assert(map_of(out@) =~= session_without_admin(map_of(es.take(0)), admin_id));
        while i < self.entries.len()
            invariant
                es == self.entries@,
                distinct(es),
                i <= es.len(),
                distinct(out@),
                !by_admin ==> map_of(out@) == session_cleaned(
                    map_of(es.take(i as int)),
                    now,
                    self.ttl_secs,
                ),
                by_admin ==> map_of(out@) == session_without_admin(
                    map_of(es.take(i as int)),
                    admin_id,
                ),
                forall|a: int|
                    0 <= a < out.len() ==> has_in(es.take(i as int), #[trigger] entry_key(out@[a])),
            decreases es.len() - i,
        {
            let keep = if by_admin {
                self.entries[i].val.0 != admin_id
            } else {
                secs_between(now, self.entries[i].val.1) < self.ttl_secs as u128
            };
            let e = Entry { key: self.entries[i].key.clone(), val: self.entries[i].val };
            proof {
                lemma_take_push(es, i as int);
                lemma_map_of_push(es.take(i as int), es[i as int]);
                lemma_cleaned_insert(
                    map_of(es.take(i as int)),
                    entry_key(es[i as int]),
                    es[i as int].val,
                    now,
                    self.ttl_secs,
                );
                lemma_without_admin_insert(
                    map_of(es.take(i as int)),
                    entry_key(es[i as int]),
                    es[i as int].val,
                    admin_id,
                );
                lemma_filter_step(es, i as int, out@, e, keep);
                if keep {
                    lemma_map_of_push(out@, e);
                }
            }
            if keep {
                out.push(e);
            }
            i += 1;
        }
        assert(es.take(es.len() as int) =~= es);
        self.entries = out;
    }

    /// Drops every entry that is no longer fresh at `now`.
    pub fn cleanup_at(&mut self, now: u128)
        ensures
            final(self).sessions() == session_cleaned(old(self).sessions(), now, old(self).ttl()),
            final(self).ttl() == old(self).ttl(),
    {
        self.retain_entries(false, 0, now);
    }

    /// Drops every entry that is no longer fresh now.
    pub fn cleanup(&mut self)
        ensures
            exists|t: u128|
                final(self).sessions() == session_cleaned(old(self).sessions(), t, old(self).ttl()),
            final(self).ttl() == old(self).ttl(),
    {
        let now = self.now();
        self.cleanup_at(now);
    }

    /// Drops every entry of `admin_id` (done when that admin logs in anew).
    pub fn remove_by_admin(&mut self, admin_id: i64)
        ensures
            final(self).sessions() == session_without_admin(old(self).sessions(), admin_id),
            final(self).ttl() == old(self).ttl(),
    {
        self.retain_entries(true, admin_id, 0);
    }
}

// ───────────────────────── checking an admin's token ─────────────────────────

/// The first step of checking an admin's `Authorization` header.
pub enum TokenStep<'a> {
    /// No bearer token: the request is refused.
    Missing,
    /// The cache knows the token: the admin it belongs to.
    Cached(i64),
    /// The token is not cached (or its entry is stale): look it up in the
    /// stored sessions.
    LookUp(&'a str),
}

/// Reads the bearer token of `header` and looks it up in the cache.
pub fn admin_token_step<'a>(cache: &SessionCache, header: &'a str) -> (r: TokenStep<'a>)
    ensures
        bearer_of(header@) is None <==> r is Missing,
        r matches TokenStep::Cached(id) ==> bearer_of(header@) is Some && exists|now: u128|
            session_lookup(cache.sessions(), bearer_of(header@)->0, now, cache.ttl()) == Some(id),
        r matches TokenStep::LookUp(token) ==> bearer_of(header@) == Some(token@) && exists|now: u128|
            session_lookup(cache.sessions(), token@, now, cache.ttl()) is None,
{
    match bearer_token(header) {
        None => TokenStep::Missing,
        Some(token) => {
            let found = cache.get(token);
            let ghost w = choose|now: u128|
                found == session_lookup(cache.sessions(), token@, now, cache.ttl());
            assert(bearer_of(header@) == Some(token@));
            assert(found == session_lookup(cache.sessions(), token@, w, cache.ttl()));
            match found {
                Some(id) => {
                    assert(bearer_of(header@)->0 == token@);
                    assert(session_lookup(cache.sessions(), bearer_of(header@)->0, w, cache.ttl())
                        == Some(id));
                    TokenStep::Cached(id)
                },
                None => {
                    assert(session_lookup(cache.sessions(), token@, w, cache.ttl()) is None);
                    TokenStep::LookUp(token)
                },
            }
        },
    }
}

/// The last step of checking a token that was not cached: the admin of the
/// stored session, if one is live, which is then cached.
pub fn admin_token_stored(cache: &mut SessionCache, token: &str, stored: Option<i64>) -> (r: Option<i64>)
    ensures
        r == stored,
        stored matches Some(id) ==> exists|t: u128|
            final(cache).sessions() == old(cache).sessions().insert(token@, (id, t)),
        stored is None ==> final(cache).sessions() == old(cache).sessions(),
        final(cache).ttl() == old(cache).ttl(),
{
    if let Some(id) = stored {
        cache.insert(token.to_owned(), id);
    }
    stored
}

// ───────────────────────── laws ─────────────────────────

/// A session cached at `now` is found at that moment, for any positive lifetime.
pub proof fn law_cached_session_is_found(
    m: Map<Seq<char>, (i64, u128)>,
    token: Seq<char>,
    admin_id: i64,
    now: u128,
    ttl: u64,
)
    requires
        ttl > 0,
    ensures
        session_lookup(m.insert(token, (admin_id, now)), token, now, ttl) == Some(admin_id),
{
}

/// A removed token is no longer found, at any time.
pub proof fn law_removed_session_is_gone(
    m: Map<Seq<char>, (i64, u128)>,
    token: Seq<char>,
    now: u128,
    ttl: u64,
)
    ensures
        session_lookup(m.remove(token), token, now, ttl) is None,
{
}

/// A session is not found once its lifetime has run out.
pub proof fn law_session_expires(m: Map<Seq<char>, (i64, u128)>, token: Seq<char>, now: u128, ttl: u64)
    requires
        m.contains_key(token),
        elapsed_secs(now, m[token].1) >= ttl,
    ensures
        session_lookup(m, token, now, ttl) is None,
{
}

/// Cleaning up at one moment changes no lookup made then or later.
pub proof fn law_cleanup_is_invisible(
    m: Map<Seq<char>, (i64, u128)>,
    token: Seq<char>,
    now: u128,
    later: u128,
    ttl: u64,
)
    requires
        now <= later,
    ensures
        session_lookup(session_cleaned(m, now, ttl), token, later, ttl) == session_lookup(
            m,
            token,
            later,
            ttl,
        ),
{
    if m.contains_key(token) {
        let at = m[token].1;
        if now >= at {
            lemma_div_is_ordered((now - at) as int, (later - at) as int, 1_000_000_000);
        }
    }
}

/// After dropping an admin's sessions, no lookup answers that admin.
pub proof fn law_admin_sessions_dropped(
    m: Map<Seq<char>, (i64, u128)>,
    admin_id: i64,
    token: Seq<char>,
    now: u128,
    ttl: u64,
)
    ensures
        session_lookup(session_without_admin(m, admin_id), token, now, ttl) != Some(admin_id),
{
}

} // verus!
