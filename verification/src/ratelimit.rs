//! The login rate limiter: per key, a count of attempts within a window.
use std::time::Instant;
use vstd::prelude::*;

use crate::clock::{elapsed_secs, instant_now, nanos_since, secs_between};
use crate::keyed::{
    distinct, entry_key, has_in, lemma_filter_step, lemma_map_of_entry, lemma_map_of_push,
    lemma_map_of_update, lemma_take_push, map_of, position, Entry,
};
use vstd::arithmetic::div_mod::lemma_div_is_ordered;

verus! {

/// In-memory limiter of login attempts: each key (a client address) may
/// make `max_requests` attempts per window of `window_secs` seconds.
pub struct RateLimiter {
    attempts: Vec<Entry<(u32, u128)>>,
    max_requests: u32,
    window_secs: u64,
    origin: Instant,
}

/// One more attempt; the count stays at its largest value once there.
pub open spec fn count_after(c: u32) -> u32 {
    if c == u32::MAX {
        c
    } else {
        (c + 1) as u32
    }
}

/// The record of `key` before an attempt at `now`: the stored one, or a
/// fresh window starting now.
pub open spec fn rate_record(m: Map<Seq<char>, (u32, u128)>, key: Seq<char>, now: u128) -> (u32, u128) {
    if m.contains_key(key) {
        m[key]
    } else {
        (0, now)
    }
}

/// Whether the window of a record that began at `start` is over at `now`.
pub open spec fn window_over(now: u128, start: u128, window: u64) -> bool {
    elapsed_secs(now, start) >= window
}

/// The record of `key` after an attempt at `now`: a new window with one
/// attempt if the old window is over, else one attempt more.
pub open spec fn rate_next(m: Map<Seq<char>, (u32, u128)>, key: Seq<char>, now: u128, window: u64) -> (u32, u128) {
    let r = rate_record(m, key, now);
    if window_over(now, r.1, window) {
        (1, now)
    } else {
        (count_after(r.0), r.1)
    }
}

/// Whether an attempt of `key` at `now` is allowed.
pub open spec fn rate_allows(
    m: Map<Seq<char>, (u32, u128)>,
    key: Seq<char>,
    now: u128,
    window: u64,
    max: u32,
) -> bool {
    let r = rate_record(m, key, now);
    window_over(now, r.1, window) || count_after(r.0) <= max
}

/// The records of `m` whose window began less than two windows before `now`.
pub open spec fn rate_cleaned(m: Map<Seq<char>, (u32, u128)>, now: u128, window: u64) -> Map<
    Seq<char>,
    (u32, u128),
> {
    m.restrict(
        Set::new(|k: Seq<char>| m.contains_key(k) && elapsed_secs(now, m[k].1) < 2 * window),
    )
}

proof fn lemma_rate_cleaned_insert(
    m: Map<Seq<char>, (u32, u128)>,
    k: Seq<char>,
    v: (u32, u128),
    now: u128,
    window: u64,
)
    requires
        !m.contains_key(k),
    ensures
        rate_cleaned(m.insert(k, v), now, window) == if elapsed_secs(now, v.1) < 2 * window {
            rate_cleaned(m, now, window).insert(k, v)
        } else {
            rate_cleaned(m, now, window)
        },
{
    let l = rate_cleaned(m.insert(k, v), now, window);
    let r = if elapsed_secs(now, v.1) < 2 * window {
        rate_cleaned(m, now, window).insert(k, v)
    } else {
        rate_cleaned(m, now, window)
    };
    assert(l =~= r);
}

impl RateLimiter {
    #[verifier::type_invariant]
    spec fn keys_distinct(self) -> bool {
        distinct(self.attempts@)
    }

    /// Attempt records: key → (attempts in the window, clock nanoseconds
    /// when the window began).
    pub closed spec fn records(self) -> Map<Seq<char>, (u32, u128)> {
        map_of(self.attempts@)
    }

    /// Attempts allowed per window.
    pub closed spec fn max_requests(self) -> u32 {
        self.max_requests
    }

    /// Length of a window in seconds.
    pub closed spec fn window_secs(self) -> u64 {
        self.window_secs
    }

    /// A limiter with no records.
    pub fn new(max_requests: u32, window_secs: u64) -> (r: RateLimiter)
        ensures
            r.records() == Map::<Seq<char>, (u32, u128)>::empty(),
            r.max_requests() == max_requests,
            r.window_secs() == window_secs,
    {
        let r = RateLimiter { attempts: Vec::new(), max_requests, window_secs, origin: instant_now() };
        assert(r.records() =~= Map::<Seq<char>, (u32, u128)>::empty());
        r
    }

    /// Reads the limiter's clock: nanoseconds since it was created.
    /// The reading rests on the moment of the call, so nothing is stated of
    /// it here; `check` and `cleanup` state what holds whatever it reads.
    fn now(&self) -> u128 {
        nanos_since(&self.origin)
    }

    /// Records an attempt of `key` at clock reading `now`; true when allowed.
    pub fn check_at(&mut self, key: &str, now: u128) -> (r: bool)
        ensures
            r == rate_allows(
                old(self).records(),
                key@,
                now,
                old(self).window_secs(),
                old(self).max_requests(),
            ),
            final(self).records() == old(self).records().insert(
                key@,
                rate_next(old(self).records(), key@, now, old(self).window_secs()),
            ),
            final(self).max_requests() == old(self).max_requests(),
            final(self).window_secs() == old(self).window_secs(),
    {
        proof {
            use_type_invariant(&*self);
        }
        let ghost es = self.attempts@;
        let pos = position(&self.attempts, key);
        let (c, st) = match pos {
            Some(i) => {
                proof {
                    lemma_map_of_entry(es, i as int);
                }
                self.attempts[i].val
            },
            None => (0u32, now),
        };
        let (nv, allowed) = if secs_between(now, st) >= self.window_secs as u128 {
            ((1u32, now), true)
        } else {
            let nc = if c == u32::MAX {
                c
            } else {
                c + 1
            };
            ((nc, st), nc <= self.max_requests)
        };
        let e = Entry { key: key.to_owned(), val: nv };
        let mut v: Vec<Entry<(u32, u128)>> = Vec::new();
        std::mem::swap(&mut v, &mut self.attempts);
        match pos {
            Some(i) => {
                proof {
                    lemma_map_of_update(es, i as int, e);
                }
                v.set(i, e);
            },
            None => {
                proof {
                    lemma_map_of_push(es, e);
                }
                v.push(e);
            },
        }
        self.attempts = v;
        allowed
    }

    /// Records an attempt of `key` now; true when allowed.
    pub fn check(&mut self, key: &str) -> (r: bool)
        ensures
            exists|t: u128|
                r == rate_allows(
                    old(self).records(),
                    key@,
                    t,
                    old(self).window_secs(),
                    old(self).max_requests(),
                ) && final(self).records() == old(self).records().insert(
                    key@,
                    rate_next(old(self).records(), key@, t, old(self).window_secs()),
                ),
            final(self).max_requests() == old(self).max_requests(),
            final(self).window_secs() == old(self).window_secs(),
    {
        let now = self.now();
        self.check_at(key, now)
    }

    /// Drops the records whose window began two windows or more before `now`.
    pub fn cleanup_at(&mut self, now: u128)
        ensures
            final(self).records() == rate_cleaned(old(self).records(), now, old(self).window_secs()),
            final(self).max_requests() == old(self).max_requests(),
            final(self).window_secs() == old(self).window_secs(),
    {
        proof {
            use_type_invariant(&*self);
        }
        let ghost es = self.attempts@;
        let mut out: Vec<Entry<(u32, u128)>> = Vec::new();
        let mut i: usize = 0;
        assert(es.take(0) =~= Seq::<Entry<(u32, u128)>>::empty());
        assert(map_of(out@) =~= rate_cleaned(map_of(es.take(0)), now, self.window_secs));
        while i < self.attempts.len()
            invariant
                es == self.attempts@,
                distinct(es),
                i <= es.len(),
                distinct(out@),
                map_of(out@) == rate_cleaned(map_of(es.take(i as int)), now, self.window_secs),
                forall|a: int|
                    0 <= a < out.len() ==> has_in(es.take(i as int), #[trigger] entry_key(out@[a])),
            decreases es.len() - i,
        {
            let keep = secs_between(now, self.attempts[i].val.1) / 2 < self.window_secs as u128;
            let e = Entry { key: self.attempts[i].key.clone(), val: self.attempts[i].val };
            proof {
                lemma_take_push(es, i as int);
                lemma_map_of_push(es.take(i as int), es[i as int]);
                lemma_rate_cleaned_insert(
                    map_of(es.take(i as int)),
                    entry_key(es[i as int]),
                    es[i as int].val,
                    now,
                    self.window_secs,
                );
                lemma_filter_step(es, i as int, out@, e, keep);
                if keep {
                    lemma_map_of_push(out@, e);
                }
            }
            if keep {
                out.push(e);
            }
            i += 1;
        }
        assert(es.take(es.len() as int) =~= es);
        self.attempts = out;
    }

    /// Drops the records whose window began two windows or more ago.
    pub fn cleanup(&mut self)
        ensures
            exists|t: u128|
                final(self).records() == rate_cleaned(old(self).records(), t, old(self).window_secs()),
            final(self).max_requests() == old(self).max_requests(),
            final(self).window_secs() == old(self).window_secs(),
    {
        let now = self.now();
        self.cleanup_at(now);
    }
}

// ───────────────────────── laws ─────────────────────────

/// The first attempt of a key is allowed whenever at least one attempt per
/// window is.
pub proof fn law_first_attempt_allowed(m: Map<Seq<char>, (u32, u128)>, key: Seq<char>, now: u128, window: u64, max: u32)
    requires
        !m.contains_key(key),
        max >= 1,
    ensures
        rate_allows(m, key, now, window, max),
        rate_next(m, key, now, window).0 == 1,
{
}

/// Once a window is over, the next attempt is allowed and opens a new window.
pub proof fn law_window_reset(m: Map<Seq<char>, (u32, u128)>, key: Seq<char>, now: u128, window: u64, max: u32)
    requires
        m.contains_key(key),
        window_over(now, m[key].1, window),
    ensures
        rate_allows(m, key, now, window, max),
        rate_next(m, key, now, window) == (1u32, now),
{
}

/// A refused key stays refused for the rest of its window.
pub proof fn law_refusal_lasts_the_window(
    m: Map<Seq<char>, (u32, u128)>,
    key: Seq<char>,
    now: u128,
    later: u128,
    window: u64,
    max: u32,
)
    requires
        !rate_allows(m, key, now, window, max),
        !window_over(later, rate_next(m, key, now, window).1, window),
    ensures
        !rate_allows(m.insert(key, rate_next(m, key, now, window)), key, later, window, max),
{
}

/// Cleaning up at one moment changes neither the answer nor the record of
/// any attempt made then or later, as long as one attempt per window is
/// allowed or windows are empty.
pub proof fn law_cleanup_is_invisible(
    m: Map<Seq<char>, (u32, u128)>,
    key: Seq<char>,
    now: u128,
    later: u128,
    window: u64,
    max: u32,
)
    requires
        now <= later,
        max >= 1 || window == 0,
    ensures
        rate_allows(rate_cleaned(m, now, window), key, later, window, max) == rate_allows(
            m,
            key,
            later,
            window,
            max,
        ),
        rate_next(rate_cleaned(m, now, window), key, later, window) == rate_next(
            m,
            key,
            later,
            window,
        ),
{
    if m.contains_key(key) {
        let st = m[key].1;
        if now >= st {
            lemma_div_is_ordered((now - st) as int, (later - st) as int, 1_000_000_000);
        }
    }
}

/// The records after a series of attempts, each a key and the clock reading
/// at which it is made, one after another.
pub open spec fn rate_run(
    m: Map<Seq<char>, (u32, u128)>,
    attempts: Seq<(Seq<char>, u128)>,
    window: u64,
) -> Map<Seq<char>, (u32, u128)>
    decreases attempts.len(),
{
    if attempts.len() == 0 {
        m
    } else {
        let prev = rate_run(m, attempts.drop_last(), window);
        let a = attempts.last();
        prev.insert(a.0, rate_next(prev, a.0, a.1, window))
    }
}

/// The answers to a series of attempts, one after another.
pub open spec fn rate_answers(
    m: Map<Seq<char>, (u32, u128)>,
    attempts: Seq<(Seq<char>, u128)>,
    window: u64,
    max: u32,
) -> Seq<bool>
    decreases attempts.len(),
{
    if attempts.len() == 0 {
        Seq::empty()
    } else {
        let prev = rate_run(m, attempts.drop_last(), window);
        let a = attempts.last();
        rate_answers(m, attempts.drop_last(), window, max).push(
            rate_allows(prev, a.0, a.1, window, max),
        )
    }
}

/// Two sets of records give the same answer and the same new record to
/// every attempt made at `from` or later.
pub open spec fn rate_agree(
    m1: Map<Seq<char>, (u32, u128)>,
    m2: Map<Seq<char>, (u32, u128)>,
    from: u128,
    window: u64,
    max: u32,
) -> bool {
    forall|k: Seq<char>, t: u128|
        #![trigger rate_allows(m1, k, t, window, max)]
        #![trigger rate_next(m1, k, t, window)]
        from <= t ==> rate_allows(m1, k, t, window, max) == rate_allows(m2, k, t, window, max)
            && rate_next(m1, k, t, window) == rate_next(m2, k, t, window)
}

proof fn lemma_rate_agree_step(
    m1: Map<Seq<char>, (u32, u128)>,
    m2: Map<Seq<char>, (u32, u128)>,
    from: u128,
    key: Seq<char>,
    at: u128,
    window: u64,
    max: u32,
)
    requires
        rate_agree(m1, m2, from, window, max),
        from <= at,
    ensures
        rate_agree(
            m1.insert(key, rate_next(m1, key, at, window)),
            m2.insert(key, rate_next(m2, key, at, window)),
            from,
            window,
            max,
        ),
{
    let n1 = m1.insert(key, rate_next(m1, key, at, window));
    let n2 = m2.insert(key, rate_next(m2, key, at, window));
    assert(rate_next(m1, key, at, window) == rate_next(m2, key, at, window));
    assert forall|k: Seq<char>, t: u128| from <= t implies #[trigger] rate_allows(n1, k, t, window, max)
        == rate_allows(n2, k, t, window, max) && rate_next(n1, k, t, window) == rate_next(
        n2,
        k,
        t,
        window,
    ) by {
        if k == key {
            assert(rate_record(n1, k, t) == rate_record(n2, k, t));
        } else {
            assert(rate_record(n1, k, t) == rate_record(m1, k, t));
            assert(rate_record(n2, k, t) == rate_record(m2, k, t));
            assert(rate_allows(m1, k, t, window, max) == rate_allows(m2, k, t, window, max));
            assert(rate_next(m1, k, t, window) == rate_next(m2, k, t, window));
        }
    }
    assert forall|k: Seq<char>, t: u128| from <= t implies rate_allows(n1, k, t, window, max)
        == rate_allows(n2, k, t, window, max) && #[trigger] rate_next(n1, k, t, window) == rate_next(
        n2,
        k,
        t,
        window,
    ) by {
        assert(rate_allows(n1, k, t, window, max) == rate_allows(n2, k, t, window, max));
    }
}

proof fn lemma_rate_agree_run(
    m1: Map<Seq<char>, (u32, u128)>,
    m2: Map<Seq<char>, (u32, u128)>,
    from: u128,
    attempts: Seq<(Seq<char>, u128)>,
    window: u64,
    max: u32,
)
    requires
        rate_agree(m1, m2, from, window, max),
        forall|i: int| 0 <= i < attempts.len() ==> from <= (#[trigger] attempts[i]).1,
    ensures
        rate_agree(rate_run(m1, attempts, window), rate_run(m2, attempts, window), from, window, max),
        rate_answers(m1, attempts, window, max) == rate_answers(m2, attempts, window, max),
    decreases attempts.len(),
{
    if attempts.len() > 0 {
        let rest = attempts.drop_last();
        assert forall|i: int| 0 <= i < rest.len() implies from <= (#[trigger] rest[i]).1 by {
            assert(rest[i] == attempts[i]);
        }
        lemma_rate_agree_run(m1, m2, from, rest, window, max);
        let a = attempts.last();
        assert(from <= attempts[attempts.len() - 1].1);
        let p1 = rate_run(m1, rest, window);
        let p2 = rate_run(m2, rest, window);
        assert(rate_allows(p1, a.0, a.1, window, max) == rate_allows(p2, a.0, a.1, window, max));
        lemma_rate_agree_step(p1, p2, from, a.0, a.1, window, max);
    }
}

/// Cleaning up at one moment changes the answer to no attempt made then or
/// later: any series of attempts at or after that moment is answered the
/// same with or without the cleanup, and leaves records that answer every
/// later attempt the same, as long as one attempt per window is allowed or
/// windows are empty.
pub proof fn law_cleanup_never_changes_answers(
    m: Map<Seq<char>, (u32, u128)>,
    now: u128,
    attempts: Seq<(Seq<char>, u128)>,
    window: u64,
    max: u32,
)
    requires
        max >= 1 || window == 0,
        forall|i: int| 0 <= i < attempts.len() ==> now <= (#[trigger] attempts[i]).1,
    ensures
        rate_answers(rate_cleaned(m, now, window), attempts, window, max) == rate_answers(
            m,
            attempts,
            window,
            max,
        ),
        rate_agree(
            rate_run(rate_cleaned(m, now, window), attempts, window),
            rate_run(m, attempts, window),
            now,
            window,
            max,
        ),
{
    let c = rate_cleaned(m, now, window);
    assert forall|k: Seq<char>, t: u128| now <= t implies #[trigger] rate_allows(c, k, t, window, max)
        == rate_allows(m, k, t, window, max) && rate_next(c, k, t, window) == rate_next(
        m,
        k,
        t,
        window,
    ) by {
        law_cleanup_is_invisible(m, k, now, t, window, max);
    }
    assert forall|k: Seq<char>, t: u128| now <= t implies rate_allows(c, k, t, window, max)
        == rate_allows(m, k, t, window, max) && #[trigger] rate_next(c, k, t, window) == rate_next(
        m,
        k,
        t,
        window,
    ) by {
        law_cleanup_is_invisible(m, k, now, t, window, max);
    }
    lemma_rate_agree_run(c, m, now, attempts, window, max);
}

/// The records after attempts of `key` at the given clock readings, one
/// after another.
pub open spec fn records_after(
    m: Map<Seq<char>, (u32, u128)>,
    key: Seq<char>,
    times: Seq<u128>,
    window: u64,
) -> Map<Seq<char>, (u32, u128)>
    decreases times.len(),
{
    if times.len() == 0 {
        m
    } else {
        let prev = records_after(m, key, times.drop_last(), window);
        prev.insert(key, rate_next(prev, key, times.last(), window))
    }
}

proof fn lemma_records_within_window(
    m: Map<Seq<char>, (u32, u128)>,
    key: Seq<char>,
    times: Seq<u128>,
    window: u64,
    i: int,
)
    requires
        !m.contains_key(key),
        window > 0,
        times.len() < u32::MAX,
        1 <= i <= times.len(),
        forall|j: int| 0 <= j < times.len() ==> !#[trigger] window_over(times[j], times[0], window),
    ensures
        records_after(m, key, times.take(i), window).contains_key(key),
        records_after(m, key, times.take(i), window)[key] == (i as u32, times[0]),
    decreases i,
{
    let t = times.take(i);
    assert(t.drop_last() =~= times.take(i - 1));
    assert(t.last() == times[i - 1]);
    assert(!window_over(times[i - 1], times[0], window));
    if i == 1 {
        assert(times.take(0) =~= Seq::<u128>::empty());
        assert(records_after(m, key, times.take(0), window) == m);
        assert(!window_over(times[0], times[0], window));
    } else {
        lemma_records_within_window(m, key, times, window, i - 1);
    }
}

/// Within one window, a key's attempts are allowed up to the limit and
/// refused after it: the attempt at position `i` (from 0) is allowed exactly
/// when `i + 1` is at most the limit.
pub proof fn law_limit_per_window(
    m: Map<Seq<char>, (u32, u128)>,
    key: Seq<char>,
    times: Seq<u128>,
    window: u64,
    max: u32,
    i: int,
)
    requires
        !m.contains_key(key),
        window > 0,
        times.len() < u32::MAX,
        0 <= i < times.len(),
        forall|j: int| 0 <= j < times.len() ==> !#[trigger] window_over(times[j], times[0], window),
    ensures
        rate_allows(records_after(m, key, times.take(i), window), key, times[i], window, max) == (i + 1
            <= max),
{
    assert(!window_over(times[i], times[0], window));
    if i == 0 {
        assert(times.take(0) =~= Seq::<u128>::empty());
        assert(records_after(m, key, times.take(0), window) == m);
        assert(!window_over(times[0], times[0], window));
    } else {
        lemma_records_within_window(m, key, times, window, i);
    }
}

} // verus!
