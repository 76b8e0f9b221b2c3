//! The in-memory rate limiter and the database location text.

use vstd::prelude::*;

use crate::http::{
    anonymous_api, is_probe, is_probe_path, rate_identities, rate_identities_of, rate_policy,
    rate_policy_of, RequestHeaders,
};
use crate::text::{chars_eq, chars_of, push_str, string_of};

verus! {

broadcast use vstd::string::group_string_axioms;

/// The number of keys above which the limiter drops keys that saw no
/// request within their window.
pub const MAX_KEYS: usize = 10_000;

/// Nanoseconds in a second.
pub const NANOS_PER_SEC: u128 = 1_000_000_000;

/// `a - b`, or 0 when `b` is larger (`Instant::duration_since` saturates).
pub open spec fn sat_sub(a: int, b: int) -> int {
    if a >= b {
        a - b
    } else {
        0
    }
}

/// The events of one key, without the leading ones that are `window` or
/// more nanoseconds older than `now`.
pub open spec fn pruned(events: Seq<u64>, now: u64, window: int) -> Seq<u64>
    decreases events.len(),
{
    if events.len() > 0 && sat_sub(now as int, events[0] as int) >= window {
        pruned(events.drop_first(), now, window)
    } else {
        events
    }
}

/// The index of `key` among `es`, or -1.
pub open spec fn key_index(es: Seq<(Seq<char>, Seq<u64>)>, key: Seq<char>) -> int
    decreases es.len(),
{
    if es.len() == 0 {
        -1
    } else if es.last().0 == key {
        es.len() - 1
    } else {
        key_index(es.drop_last(), key)
    }
}

/// The events recorded for `key`.
pub open spec fn events_of(es: Seq<(Seq<char>, Seq<u64>)>, key: Seq<char>) -> Seq<u64> {
    let i = key_index(es, key);
    if i >= 0 {
        es[i].1
    } else {
        seq![]
    }
}

/// `es` with the events of `key` replaced by `v`, a new key added at the end.
pub open spec fn put(es: Seq<(Seq<char>, Seq<u64>)>, key: Seq<char>, v: Seq<u64>) -> Seq<
    (Seq<char>, Seq<u64>),
> {
    let i = key_index(es, key);
    if i >= 0 {
        es.update(i, (key, v))
    } else {
        es.push((key, v))
    }
}

/// The keys of `es` whose last event is less than `window` nanoseconds old.
pub open spec fn retain_recent(es: Seq<(Seq<char>, Seq<u64>)>, now: u64, window: int) -> Seq<
    (Seq<char>, Seq<u64>),
>
    decreases es.len(),
{
    if es.len() == 0 {
        es
    } else {
        let rest = retain_recent(es.drop_last(), now, window);
        let e = es.last();
        if e.1.len() > 0 && sat_sub(now as int, e.1.last() as int) < window {
            rest.push(e)
        } else {
            rest
        }
    }
}

/// The seconds a refused caller should wait: what is left of the window
/// after the oldest counted event, in whole seconds, and at least one.
pub open spec fn retry_secs(kept: Seq<u64>, now: u64, window: int) -> int {
    let elapsed = if kept.len() > 0 {
        sat_sub(now as int, kept[0] as int)
    } else {
        0
    };
    let left = sat_sub(window, elapsed) / (NANOS_PER_SEC as int);
    if left >= 1 {
        left
    } else {
        1
    }
}

/// The limiter's state and answer after one check of `key` at `now`, with
/// `allowance` requests per window of `window` nanoseconds.
pub open spec fn check_outcome(
    es: Seq<(Seq<char>, Seq<u64>)>,
    key: Seq<char>,
    allowance: int,
    window: int,
    now: u64,
) -> (Seq<(Seq<char>, Seq<u64>)>, Result<(), u64>) {
    let kept = pruned(events_of(es, key), now, window);
    if kept.len() >= allowance {
        (put(es, key, kept), Err(retry_secs(kept, now, window) as u64))
    } else {
        let next = put(es, key, kept.push(now));
        if next.len() > MAX_KEYS {
            (retain_recent(next, now, window), Ok(()))
        } else {
            (next, Ok(()))
        }
    }
}

/// Whether no key appears twice in `es`.
pub open spec fn keys_distinct(es: Seq<(Seq<char>, Seq<u64>)>) -> bool {
    forall|i: int, j: int| 0 <= i < j < es.len() ==> es[i].0 != es[j].0
}

/// Counts recent requests per key and refuses those above an allowance.
#[derive(Clone, Debug)]
pub struct RateLimiter {
    entries: Vec<(String, Vec<u64>)>,
}

impl RateLimiter {
    /// The keys and their request times (monotonic nanoseconds), in the
    /// order the keys were first seen.
    pub closed spec fn model(&self) -> Seq<(Seq<char>, Seq<u64>)> {
        Seq::new(self.entries@.len(), |i: int| (self.entries@[i].0@, self.entries@[i].1@))
    }

    /// Every key appears once.
    pub open spec fn wf(&self) -> bool {
        keys_distinct(self.model())
    }

    /// A limiter that has seen no request.
    pub fn new() -> (r: RateLimiter)
        ensures
            r.model() == Seq::<(Seq<char>, Seq<u64>)>::empty(),
            r.wf(),
    {
        let r = RateLimiter { entries: Vec::new() };
        assert(r.model() =~= Seq::<(Seq<char>, Seq<u64>)>::empty());
        r
    }
}

/// `key_index` finds `key` where it stands, or gives -1.
pub proof fn lemma_key_index(es: Seq<(Seq<char>, Seq<u64>)>, key: Seq<char>)
    ensures
        -1 <= key_index(es, key) < es.len(),
        key_index(es, key) >= 0 ==> es[key_index(es, key)].0 == key,
        key_index(es, key) < 0 ==> forall|i: int| 0 <= i < es.len() ==> es[i].0 != key,
        forall|i: int| key_index(es, key) < i < es.len() ==> es[i].0 != key,
    decreases es.len(),
{
    if es.len() > 0 && es.last().0 != key {
        lemma_key_index(es.drop_last(), key);
        assert forall|i: int| 0 <= i < es.len() - 1 implies es[i] == es.drop_last()[i] by {}
    }
}


/// The last entry named `key` is the one that `key_index` finds.
pub proof fn lemma_key_index_is(es: Seq<(Seq<char>, Seq<u64>)>, key: Seq<char>, i: int)
    requires
        0 <= i < es.len(),
        es[i].0 == key,
        forall|j: int| i < j < es.len() ==> es[j].0 != key,
    ensures
        key_index(es, key) == i,
    decreases es.len(),
{
    if i < es.len() - 1 {
        let d = es.drop_last();
        assert forall|j: int| i < j < d.len() implies d[j].0 != key by {
            assert(d[j] == es[j]);
        }
        lemma_key_index_is(d, key, i);
    }
}

/// After `put`, the events of `key` are the ones put.
pub proof fn lemma_events_of_put(es: Seq<(Seq<char>, Seq<u64>)>, key: Seq<char>, v: Seq<u64>)
    ensures
        events_of(put(es, key, v), key) == v,
{
    lemma_key_index(es, key);
    let i = key_index(es, key);
    let p = put(es, key, v);
    if i >= 0 {
        lemma_key_index_is(p, key, i);
    } else {
        lemma_key_index_is(p, key, es.len() as int);
    }
}

/// Putting events under one key leaves the events of every other key as they were.
proof fn lemma_events_of_put_other(
    es: Seq<(Seq<char>, Seq<u64>)>,
    other: Seq<char>,
    v: Seq<u64>,
    key: Seq<char>,
)
    requires
        other != key,
    ensures
        events_of(put(es, other, v), key) == events_of(es, key),
{
    lemma_key_index(es, key);
    lemma_key_index(es, other);
    let p = put(es, other, v);
    let i = key_index(es, key);
    assert forall|j: int| 0 <= j < p.len() && p[j].0 == key implies j < es.len() && p[j] == es[j] by {
        if key_index(es, other) >= 0 {
            if j == key_index(es, other) {
                assert(p[j].0 == other);
            }
        } else if j == es.len() {
            assert(p[j].0 == other);
        }
    }
    if i >= 0 {
        assert forall|j: int| i < j < p.len() implies p[j].0 != key by {
            if p[j].0 == key {
                assert(es[j].0 == key);
            }
        }
        lemma_key_index_is(p, key, i);
    } else {
        lemma_key_index(p, key);
        if key_index(p, key) >= 0 {
            assert(es[key_index(p, key)].0 == key);
        }
    }
}

/// Putting events under a key keeps keys distinct and adds at most one entry.
pub proof fn lemma_put_distinct(es: Seq<(Seq<char>, Seq<u64>)>, key: Seq<char>, v: Seq<u64>)
    requires
        keys_distinct(es),
    ensures
        keys_distinct(put(es, key, v)),
        put(es, key, v).len() == es.len() || put(es, key, v).len() == es.len() + 1,
{
    lemma_key_index(es, key);
}

/// Dropping idle keys keeps keys distinct.
pub proof fn lemma_retain_distinct(es: Seq<(Seq<char>, Seq<u64>)>, now: u64, window: int)
    requires
        keys_distinct(es),
    ensures
        keys_distinct(retain_recent(es, now, window)),
        forall|i: int|
            0 <= i < retain_recent(es, now, window).len() ==> exists|j: int|
                0 <= j < es.len() && es[j].0 == #[trigger] retain_recent(es, now, window)[i].0,
    decreases es.len(),
{
    if es.len() > 0 {
        let d = es.drop_last();
        assert(keys_distinct(d));
        lemma_retain_distinct(d, now, window);
        let rest = retain_recent(d, now, window);
        let e = es.last();
        assert forall|i: int| 0 <= i < rest.len() implies rest[i].0 != e.0 by {
            let j = choose|j: int| 0 <= j < d.len() && d[j].0 == rest[i].0;
            assert(es[j] == d[j]);
        }
        assert forall|i: int|
            0 <= i < retain_recent(es, now, window).len() implies exists|j: int|
                0 <= j < es.len() && es[j].0 == #[trigger] retain_recent(es, now, window)[i].0 by {
            if i < rest.len() {
                let j = choose|j: int| 0 <= j < d.len() && d[j].0 == rest[i].0;
                assert(es[j] == d[j]);
            } else {
                assert(es[es.len() - 1] == e);
            }
        }
    }
}

/// How long before `now` the time `t` lies, or 0 when it lies after.
fn age(now: u64, t: u64) -> (r: u64)
    ensures
        r == sat_sub(now as int, t as int),
{
    if now >= t {
        now - t
    } else {
        0
    }
}

impl RateLimiter {
    /// The index of `key` among the entries, or -1.
    fn find(&self, key: &str) -> (r: Option<usize>)
        ensures
            match r {
                Some(i) => i == key_index(self.model(), key@),
                None => key_index(self.model(), key@) == -1,
            },
    {
        let k = chars_of(key);
        let mut j: usize = self.entries.len();
        assert(self.model().take(j as int) =~= self.model());
        while j > 0
            invariant
                j <= self.entries@.len(),
                k@ == key@,
                key_index(self.model(), key@) == key_index(self.model().take(j as int), key@),
            decreases j,
        {
            let name = chars_of(self.entries[j - 1].0.as_str());
            let ghost t = self.model().take(j as int);
            assert(t.last() == self.model()[j - 1]);
            if chars_eq(&name, &k) {
                return Some(j - 1);
            }
            assert(t.drop_last() =~= self.model().take(j - 1));
            j = j - 1;
        }
        None
    }

    /// Counts a request under `key` at `now` (monotonic nanoseconds):
    /// requests older than `window_secs` no longer count; when `allowance`
    /// requests still count the request is refused with the seconds to wait,
    /// otherwise it is recorded. Above 10,000 keys, keys idle for a whole
    /// window are dropped.
    pub fn check(&mut self, key: String, allowance: usize, window_secs: u64, now: u64) -> (r:
        Result<(), u64>)
        requires
            old(self).wf(),
        ensures
            final(self).wf(),
            (final(self).model(), r) == check_outcome(
                old(self).model(),
                key@,
                allowance as int,
                window_secs * NANOS_PER_SEC,
                now,
            ),
    {
        let ghost es = self.model();
        let ghost w: int = window_secs * NANOS_PER_SEC;
        let window: u128 = (window_secs as u128) * NANOS_PER_SEC;
        proof {
            lemma_key_index(es, key@);
        }
        let i = self.find(key.as_str());
        let events: Vec<u64> = match i {
            Some(j) => self.entries[j].1.clone(),
            None => Vec::new(),
        };
        assert(events@ == events_of(es, key@));
        let mut k: usize = 0;
        assert(events@.skip(0) =~= events@);
        while k < events.len() && age(now, events[k]) as u128 >= window
            invariant
                k <= events@.len(),
                window == w,
                pruned(events@, now, w) == pruned(events@.skip(k as int), now, w),
            decreases events@.len() - k,
        {
            assert(events@.skip(k as int).drop_first() =~= events@.skip(k + 1));
            k = k + 1;
        }
        let mut kept: Vec<u64> = Vec::new();
        let mut m = k;
        while m < events.len()
            invariant
                k <= m <= events@.len(),
                kept@ == events@.subrange(k as int, m as int),
            decreases events@.len() - m,
        {
            kept.push(events[m]);
            assert(kept@ =~= events@.subrange(k as int, m + 1));
            m = m + 1;
        }
        proof {
            assert(kept@ =~= events@.skip(k as int));
            if k < events@.len() {
                assert(events@.skip(k as int)[0] == events@[k as int]);
            }
        }
        assert(kept@ == pruned(events@, now, w));
        if kept.len() >= allowance {
            let elapsed: u128 = if kept.len() > 0 {
                age(now, kept[0]) as u128
            } else {
                0
            };
            let left: u128 = if window >= elapsed { window - elapsed } else { 0 } / NANOS_PER_SEC;
            let retry: u64 = if left >= 1 { left as u64 } else { 1 };
            self.store(i, key, kept);
            proof {
                lemma_put_distinct(es, key@, kept@);
            }
            return Err(retry);
        }
        kept.push(now);
        let ghost next = put(es, key@, kept@);
        self.store(i, key, kept);
        proof {
            lemma_put_distinct(es, key@, kept@);
        }
        if self.entries.len() > MAX_KEYS {
            self.retain_recent(now, window);
            proof {
                lemma_retain_distinct(next, now, w);
            }
        }
        Ok(())
    }

    /// Replaces the events of the key at `i`, or adds the key when `i` is -1.
    fn store(&mut self, i: Option<usize>, key: String, kept: Vec<u64>)
        requires
            match i {
                Some(j) => j == key_index(old(self).model(), key@),
                None => key_index(old(self).model(), key@) == -1,
            },
        ensures
            final(self).model() == put(old(self).model(), key@, kept@),
    {
        let ghost es = self.model();
        proof {
            lemma_key_index(es, key@);
        }
        match i {
            Some(j) => {
                self.entries.set(j, (key, kept));
                assert(self.model() =~= es.update(j as int, (key@, kept@)));
            },
            None => {
                self.entries.push((key, kept));
                assert(self.model() =~= es.push((key@, kept@)));
            },
        }
    }

    /// Keeps only the keys whose last request is under `window` nanoseconds old.
    fn retain_recent(&mut self, now: u64, window: u128)
        requires
            window <= u64::MAX * NANOS_PER_SEC,
        ensures
            final(self).model() == retain_recent(old(self).model(), now, window as int),
    {
        let ghost es = self.model();
        let mut kept: Vec<(String, Vec<u64>)> = Vec::new();
        let mut j: usize = 0;
        while j < self.entries.len()
            invariant
                j <= self.entries@.len(),
                self.model() == es,
                Seq::new(kept@.len(), |i: int| (kept@[i].0@, kept@[i].1@)) == retain_recent(
                    es.take(j as int),
                    now,
                    window as int,
                ),
            decreases self.entries@.len() - j,
        {
            let ghost before = Seq::new(kept@.len(), |i: int| (kept@[i].0@, kept@[i].1@));
            assert(es.take(j + 1).drop_last() =~= es.take(j as int));
            assert(es.take(j + 1).last() == es[j as int]);
            let n = self.entries[j].1.len();
            if n > 0 {
                let last = self.entries[j].1[n - 1];
                if (age(now, last) as u128) < window {
                    let name = self.entries[j].0.clone();
                    let times = self.entries[j].1.clone();
                    kept.push((name, times));
                    assert(Seq::new(kept@.len(), |i: int| (kept@[i].0@, kept@[i].1@)) =~= before.push(
                        es[j as int],
                    ));
                }
            }
            j = j + 1;
        }
        assert(es.take(self.entries@.len() as int) =~= es);
        self.entries = kept;
        assert(self.model() =~= retain_recent(es, now, window as int));
    }
}

impl Default for RateLimiter {
    fn default() -> (r: RateLimiter)
        ensures
            r.model() == Seq::<(Seq<char>, Seq<u64>)>::empty(),
            r.wf(),
    {
        RateLimiter::new()
    }
}

/// The SQLite connection text for a database file at `path`.
pub fn sqlite_url(path: &str) -> (r: String)
    ensures
        r@ == "sqlite://"@ + path@,
{
    let mut out: Vec<char> = Vec::new();
    push_str(&mut out, "sqlite://");
    push_str(&mut out, path);
    string_of(&out)
}


/// The answers to checks of `key` at each of `times` in turn, starting from `es`.
pub open spec fn answers(
    es: Seq<(Seq<char>, Seq<u64>)>,
    key: Seq<char>,
    allowance: int,
    window: int,
    times: Seq<u64>,
) -> Seq<Result<(), u64>>
    decreases times.len(),
{
    if times.len() == 0 {
        seq![]
    } else {
        let (next, r) = check_outcome(es, key, allowance, window, times[0]);
        seq![r] + answers(next, key, allowance, window, times.drop_first())
    }
}

/// How many of `rs` admitted their request.
pub open spec fn admitted(rs: Seq<Result<(), u64>>) -> nat
    decreases rs.len(),
{
    if rs.len() == 0 {
        0
    } else {
        (if rs[0] is Ok { 1nat } else { 0nat }) + admitted(rs.drop_first())
    }
}

/// Pruning keeps a tail of events that are each younger than the window.
proof fn lemma_pruned_keeps_recent_tail(ev: Seq<u64>, now: u64, window: int, tail: Seq<u64>)
    requires
        tail.len() <= ev.len(),
        ev.skip(ev.len() - tail.len()) == tail,
        forall|i: int| 0 <= i < tail.len() ==> sat_sub(now as int, #[trigger] tail[i] as int) < window,
    ensures
        tail.len() <= pruned(ev, now, window).len(),
        pruned(ev, now, window).skip(pruned(ev, now, window).len() - tail.len()) == tail,
    decreases ev.len(),
{
    if ev.len() > 0 && sat_sub(now as int, ev[0] as int) >= window {
        if tail.len() == ev.len() {
            assert(ev.skip(0) =~= ev);
            assert(tail[0] == ev[0]);
        }
        let d = ev.drop_first();
        assert(d.skip(d.len() - tail.len()) =~= ev.skip(ev.len() - tail.len()));
        lemma_pruned_keeps_recent_tail(d, now, window, tail);
    }
}

/// Dropping idle keys keeps the events of a key that saw a recent request.
proof fn lemma_retain_keeps_key(es: Seq<(Seq<char>, Seq<u64>)>, key: Seq<char>, now: u64, window: int)
    requires
        keys_distinct(es),
        events_of(es, key).len() > 0,
        sat_sub(now as int, events_of(es, key).last() as int) < window,
    ensures
        events_of(retain_recent(es, now, window), key) == events_of(es, key),
    decreases es.len(),
{
    lemma_key_index(es, key);
    let d = es.drop_last();
    let e = es.last();
    if e.0 == key {
        lemma_retain_distinct(d, now, window);
        let rest = retain_recent(d, now, window);
        assert(key_index(es, key) == es.len() - 1);
        assert(events_of(es, key) == e.1);
        assert(retain_recent(es, now, window) == rest.push(e));
        assert(rest.push(e).last() == e);
        assert(key_index(rest.push(e), key) == rest.len());
        assert(events_of(rest.push(e), key) == e.1);
    } else {
        assert(keys_distinct(d));
        assert(key_index(es, key) == key_index(d, key));
        lemma_key_index(d, key);
        assert(events_of(es, key) == events_of(d, key));
        lemma_retain_keeps_key(d, key, now, window);
        let rest = retain_recent(d, now, window);
        if e.1.len() > 0 && sat_sub(now as int, e.1.last() as int) < window {
            assert(retain_recent(es, now, window) == rest.push(e));
            assert(rest.push(e).drop_last() =~= rest);
            assert(rest.push(e).last() == e);
            assert(key_index(rest.push(e), key) == key_index(rest, key));
            lemma_key_index(rest, key);
            assert(events_of(rest.push(e), key) == events_of(rest, key));
        } else {
            assert(retain_recent(es, now, window) == rest);
        }
    }
}

/// The requests of `key` that one run admitted all stay counted until the
/// run's first request is a window old.
proof fn lemma_answers_bounded(
    es: Seq<(Seq<char>, Seq<u64>)>,
    key: Seq<char>,
    allowance: int,
    window: int,
    times: Seq<u64>,
    start: u64,
    counted: Seq<u64>,
)
    requires
        keys_distinct(es),
        0 <= allowance,
        counted.len() <= allowance,
        counted.len() <= events_of(es, key).len(),
        events_of(es, key).skip(events_of(es, key).len() - counted.len()) == counted,
        forall|i: int| 0 <= i < counted.len() ==> start <= #[trigger] counted[i],
        forall|i: int| 0 <= i < times.len() ==> start <= #[trigger] times[i],
        forall|i: int| 0 <= i < times.len() ==> (times[i] as int) - (start as int) < window,
        forall|i: int, j: int| 0 <= i < j < counted.len() ==> counted[i] <= counted[j],
        forall|i: int, j: int| 0 <= i < j < times.len() ==> times[i] <= times[j],
        forall|i: int, j: int| 0 <= i < counted.len() && 0 <= j < times.len() ==> counted[i] <= times[j],
    ensures
        counted.len() + admitted(answers(es, key, allowance, window, times)) <= allowance,
    decreases times.len(),
{
    if times.len() > 0 {
        let now = times[0];
        let ev = events_of(es, key);
        assert forall|i: int| 0 <= i < counted.len() implies sat_sub(
            now as int,
            #[trigger] counted[i] as int,
        ) < window by {}
        lemma_pruned_keeps_recent_tail(ev, now, window, counted);
        let kept = pruned(ev, now, window);
        let (next, r) = check_outcome(es, key, allowance, window, now);
        let rest = times.drop_first();
        lemma_put_distinct(es, key, kept);
        lemma_events_of_put(es, key, kept);
        if kept.len() >= allowance {
            assert(events_of(next, key) == kept);
            lemma_answers_bounded(next, key, allowance, window, rest, start, counted);
            assert(answers(es, key, allowance, window, times) == seq![r] + answers(
                next,
                key,
                allowance,
                window,
                rest,
            ));
            assert((seq![r] + answers(next, key, allowance, window, rest)).drop_first() =~= answers(
                next,
                key,
                allowance,
                window,
                rest,
            ));
        } else {
            let grown = kept.push(now);
            let placed = put(es, key, grown);
            lemma_put_distinct(es, key, grown);
            lemma_events_of_put(es, key, grown);
            assert(events_of(placed, key) == grown);
            if placed.len() > MAX_KEYS {
                lemma_retain_keeps_key(placed, key, now, window);
                lemma_retain_distinct(placed, now, window);
            }
            assert(events_of(next, key) == grown);
            let counted2 = counted.push(now);
            assert(grown.skip(grown.len() - counted2.len()) =~= counted2) by {
                assert(kept.skip(kept.len() - counted.len()) == counted);
            }
            lemma_answers_bounded(next, key, allowance, window, rest, start, counted2);
            assert((seq![r] + answers(next, key, allowance, window, rest)).drop_first() =~= answers(
                next,
                key,
                allowance,
                window,
                rest,
            ));
        }
    }
}

/// However a key's requests fall within one window, the limiter admits at
/// most `allowance` of them.
pub proof fn lemma_allowance_enforced(
    es: Seq<(Seq<char>, Seq<u64>)>,
    key: Seq<char>,
    allowance: int,
    window: int,
    times: Seq<u64>,
)
    requires
        keys_distinct(es),
        0 <= allowance,
        times.len() > 0,
        forall|i: int, j: int| 0 <= i < j < times.len() ==> times[i] <= times[j],
        (times.last() as int) - (times[0] as int) < window,
    ensures
        admitted(answers(es, key, allowance, window, times)) <= allowance,
{
    let start = times[0];
    assert forall|i: int| 0 <= i < times.len() implies (times[i] as int) - (start as int) < window by {
        if i < times.len() - 1 {
            assert(times[i] <= times[times.len() - 1]);
        }
    }
    assert forall|i: int| 0 <= i < times.len() implies start <= #[trigger] times[i] by {
        if i > 0 {
            assert(times[0] <= times[i]);
        }
    }
    let ev = events_of(es, key);
    assert(ev.skip(ev.len() - 0) =~= Seq::<u64>::empty());
    lemma_answers_bounded(es, key, allowance, window, times, start, Seq::<u64>::empty());
}

/// Events that are all a whole window old leave nothing counted.
proof fn lemma_pruned_all_old(events: Seq<u64>, now: u64, window: int)
    requires
        forall|i: int| 0 <= i < events.len() ==> sat_sub(now as int, #[trigger] events[i] as int)
            >= window,
    ensures
        pruned(events, now, window) == Seq::<u64>::empty(),
    decreases events.len(),
{
    if events.len() > 0 {
        assert(sat_sub(now as int, events[0] as int) >= window);
        let rest = events.drop_first();
        assert forall|i: int| 0 <= i < rest.len() implies sat_sub(
            now as int,
            #[trigger] rest[i] as int,
        ) >= window by {
            assert(rest[i] == events[i + 1]);
        }
        lemma_pruned_all_old(rest, now, window);
    } else {
        assert(events =~= Seq::<u64>::empty());
    }
}

/// Requests older than the window no longer count: a key whose every
/// recorded request is a whole window old is admitted again, and then holds
/// only the new request.
pub proof fn lemma_old_requests_are_forgotten(
    es: Seq<(Seq<char>, Seq<u64>)>,
    key: Seq<char>,
    allowance: int,
    window: int,
    now: u64,
)
    requires
        keys_distinct(es),
        allowance >= 1,
        window > 0,
        forall|i: int|
            0 <= i < events_of(es, key).len() ==> sat_sub(
                now as int,
                #[trigger] events_of(es, key)[i] as int,
            ) >= window,
    ensures
        check_outcome(es, key, allowance, window, now).1 is Ok,
        events_of(check_outcome(es, key, allowance, window, now).0, key) == seq![now],
{
    lemma_pruned_all_old(events_of(es, key), now, window);
    let kept = pruned(events_of(es, key), now, window);
    assert(kept.push(now) =~= seq![now]);
    let placed = put(es, key, kept.push(now));
    lemma_events_of_put(es, key, kept.push(now));
    lemma_put_distinct(es, key, kept.push(now));
    if placed.len() > MAX_KEYS {
        lemma_retain_keeps_key(placed, key, now, window);
    }
}

/// A refused request is not counted: after a refusal the key holds exactly
/// the earlier requests that are still within the window.
pub proof fn lemma_refusals_are_not_counted(
    es: Seq<(Seq<char>, Seq<u64>)>,
    key: Seq<char>,
    allowance: int,
    window: int,
    now: u64,
)
    requires
        check_outcome(es, key, allowance, window, now).1 is Err,
    ensures
        events_of(check_outcome(es, key, allowance, window, now).0, key) == pruned(
            events_of(es, key),
            now,
            window,
        ),
{
    let kept = pruned(events_of(es, key), now, window);
    lemma_events_of_put(es, key, kept);
}

/// The limiter's state after checking each key `ids[i]:bucket` in turn,
/// stopping at the first refusal, and the wait that refusal asks for.
pub open spec fn check_each(
    es: Seq<(Seq<char>, Seq<u64>)>,
    ids: Seq<Seq<char>>,
    bucket: Seq<char>,
    allowance: int,
    window: int,
    now: u64,
) -> (Seq<(Seq<char>, Seq<u64>)>, Option<u64>)
    decreases ids.len(),
{
    if ids.len() == 0 {
        (es, None)
    } else {
        let (next, r) = check_outcome(es, ids[0] + ":"@ + bucket, allowance, window, now);
        match r {
            Err(wait) => (next, Some(wait)),
            Ok(_) => check_each(next, ids.drop_first(), bucket, allowance, window, now),
        }
    }
}

/// Whether `counted` is the tail of `events`.
pub open spec fn tail_of(events: Seq<u64>, counted: Seq<u64>) -> bool {
    counted.len() <= events.len() && events.skip(events.len() - counted.len()) == counted
}

/// Checking another key keeps the recent tail of `key`'s events in place.
proof fn lemma_other_check_keeps_tail(
    es: Seq<(Seq<char>, Seq<u64>)>,
    other: Seq<char>,
    key: Seq<char>,
    allowance: int,
    window: int,
    now: u64,
    start: u64,
    counted: Seq<u64>,
)
    requires
        keys_distinct(es),
        other != key,
        tail_of(events_of(es, key), counted),
        forall|i: int| 0 <= i < counted.len() ==> start <= #[trigger] counted[i],
        start <= now,
        (now as int) - (start as int) < window,
    ensures
        keys_distinct(check_outcome(es, other, allowance, window, now).0),
        tail_of(events_of(check_outcome(es, other, allowance, window, now).0, key), counted),
{
    let kept = pruned(events_of(es, other), now, window);
    lemma_put_distinct(es, other, kept);
    lemma_events_of_put_other(es, other, kept, key);
    if kept.len() >= allowance {
        assert(check_outcome(es, other, allowance, window, now).0 == put(es, other, kept));
    } else {
        let grown = kept.push(now);
        let placed = put(es, other, grown);
        lemma_put_distinct(es, other, grown);
        lemma_events_of_put_other(es, other, grown, key);
        if placed.len() <= MAX_KEYS {
            assert(check_outcome(es, other, allowance, window, now).0 == placed);
        } else {
            assert(check_outcome(es, other, allowance, window, now).0 == retain_recent(
                placed,
                now,
                window,
            ));
            lemma_retain_distinct(placed, now, window);
            let ev = events_of(placed, key);
            assert(ev == events_of(es, key));
            if counted.len() > 0 {
                let n = counted.len() - 1;
                assert(ev.skip(ev.len() - counted.len())[n] == counted[n]);
                assert(ev.skip(ev.len() - counted.len())[n] == ev[ev.len() - 1]);
                assert(start <= counted[n]);
                assert(sat_sub(now as int, ev.last() as int) < window);
                lemma_retain_keeps_key(placed, key, now, window);
                assert(events_of(retain_recent(placed, now, window), key) == ev);
            } else {
                let after = events_of(retain_recent(placed, now, window), key);
                assert(after.skip(after.len() - 0) =~= Seq::<u64>::empty());
                assert(counted =~= Seq::<u64>::empty());
            }
        }
    }
}

/// Dropping idle keys keeps a key's events whole or drops them all, and
/// drops them only when the key's newest request is a whole window old.
proof fn lemma_retain_keeps_or_drops(
    es: Seq<(Seq<char>, Seq<u64>)>,
    key: Seq<char>,
    now: u64,
    window: int,
)
    requires
        keys_distinct(es),
    ensures
        events_of(retain_recent(es, now, window), key) == events_of(es, key) || (events_of(
            retain_recent(es, now, window),
            key,
        ).len() == 0 && (events_of(es, key).len() == 0 || sat_sub(
            now as int,
            events_of(es, key).last() as int,
        ) >= window)),
    decreases es.len(),
{
    lemma_key_index(es, key);
    if es.len() > 0 {
        let d = es.drop_last();
        let e = es.last();
        assert(keys_distinct(d));
        lemma_retain_distinct(d, now, window);
        let rest = retain_recent(d, now, window);
        lemma_key_index(rest, key);
        assert(rest.push(e).drop_last() =~= rest);
        if e.0 == key {
            assert(key_index(es, key) == es.len() - 1);
            assert forall|i: int| 0 <= i < rest.len() implies rest[i].0 != key by {
                let j = choose|j: int| 0 <= j < d.len() && d[j].0 == rest[i].0;
                assert(es[j] == d[j]);
            }
            assert(key_index(rest, key) < 0);
            if e.1.len() > 0 && sat_sub(now as int, e.1.last() as int) < window {
                assert(retain_recent(es, now, window) == rest.push(e));
                lemma_key_index_is(rest.push(e), key, rest.len() as int);
            } else {
                assert(retain_recent(es, now, window) == rest);
            }
        } else {
            assert(key_index(es, key) == key_index(d, key));
            lemma_key_index(d, key);
            assert(events_of(es, key) == events_of(d, key));
            lemma_retain_keeps_or_drops(d, key, now, window);
            if e.1.len() > 0 && sat_sub(now as int, e.1.last() as int) < window {
                assert(retain_recent(es, now, window) == rest.push(e));
                assert(key_index(rest.push(e), key) == key_index(rest, key));
                if key_index(rest, key) >= 0 {
                    assert(rest.push(e)[key_index(rest, key)] == rest[key_index(rest, key)]);
                }
                assert(events_of(rest.push(e), key) == events_of(rest, key));
            } else {
                assert(retain_recent(es, now, window) == rest);
            }
        }
    }
}

/// Checks of other keys never change a key's answers: while time moves
/// forward, a check of `key` at `later` gets the same answer whether or not
/// another key was checked at `now` before it. (When that check drops idle
/// keys, it drops `key` only if all of its requests are already a whole
/// window old, and then none of them counts at `later` either.)
pub proof fn lemma_other_keys_do_not_interfere(
    es: Seq<(Seq<char>, Seq<u64>)>,
    other: Seq<char>,
    key: Seq<char>,
    allowance: int,
    window: int,
    now: u64,
    later: u64,
)
    requires
        keys_distinct(es),
        other != key,
        now <= later,
        forall|i: int, j: int|
            0 <= i < j < events_of(es, key).len() ==> events_of(es, key)[i] <= events_of(es, key)[j],
        forall|i: int| 0 <= i < events_of(es, key).len() ==> events_of(es, key)[i] <= now,
    ensures
        check_outcome(check_outcome(es, other, allowance, window, now).0, key, allowance, window, later).1
            == check_outcome(es, key, allowance, window, later).1,
{
    let ev = events_of(es, key);
    let next = check_outcome(es, other, allowance, window, now).0;
    let kept = pruned(events_of(es, other), now, window);
    lemma_put_distinct(es, other, kept);
    lemma_events_of_put_other(es, other, kept, key);
    if kept.len() < allowance {
        let grown = kept.push(now);
        let placed = put(es, other, grown);
        lemma_put_distinct(es, other, grown);
        lemma_events_of_put_other(es, other, grown, key);
        if placed.len() > MAX_KEYS {
            assert(next == retain_recent(placed, now, window));
            lemma_retain_keeps_or_drops(placed, key, now, window);
            if events_of(next, key) != ev {
                if ev.len() > 0 {
                    assert forall|i: int| 0 <= i < ev.len() implies sat_sub(
                        later as int,
                        #[trigger] ev[i] as int,
                    ) >= window by {
                        assert(ev[i] <= ev[ev.len() - 1]);
                    }
                    lemma_pruned_all_old(ev, later, window);
                }
                let nv = events_of(next, key);
                assert(nv =~= Seq::<u64>::empty());
                assert(pruned(nv, later, window) == nv);
                if ev.len() == 0 {
                    assert(pruned(ev, later, window) == ev);
                }
                assert(pruned(nv, later, window) == pruned(ev, later, window));
            }
        } else {
            assert(next == placed);
        }
    } else {
        assert(next == put(es, other, kept));
    }
}

/// How many of the checks in `calls` that name `key` are admitted, when
/// each call `(k, t)` checks key `k` at time `t` in turn, starting from `es`.
pub open spec fn admitted_for(
    es: Seq<(Seq<char>, Seq<u64>)>,
    calls: Seq<(Seq<char>, u64)>,
    key: Seq<char>,
    allowance: int,
    window: int,
) -> nat
    decreases calls.len(),
{
    if calls.len() == 0 {
        0
    } else {
        let (next, r) = check_outcome(es, calls[0].0, allowance, window, calls[0].1);
        (if calls[0].0 == key && r is Ok {
            1nat
        } else {
            0nat
        }) + admitted_for(next, calls.drop_first(), key, allowance, window)
    }
}

/// The requests of `key` admitted during an interleaved run stay counted
/// while every call of the run lies within one window of `start`.
proof fn lemma_admitted_for_bounded(
    es: Seq<(Seq<char>, Seq<u64>)>,
    calls: Seq<(Seq<char>, u64)>,
    key: Seq<char>,
    allowance: int,
    window: int,
    start: u64,
    counted: Seq<u64>,
)
    requires
        keys_distinct(es),
        0 <= allowance,
        counted.len() <= allowance,
        tail_of(events_of(es, key), counted),
        forall|i: int| 0 <= i < counted.len() ==> start <= #[trigger] counted[i],
        forall|i: int| 0 <= i < calls.len() ==> start <= (#[trigger] calls[i]).1,
        forall|i: int| 0 <= i < calls.len() ==> ((#[trigger] calls[i]).1 as int) - (start as int)
            < window,
    ensures
        counted.len() + admitted_for(es, calls, key, allowance, window) <= allowance,
    decreases calls.len(),
{
    if calls.len() > 0 {
        let (k, now) = calls[0];
        let (next, r) = check_outcome(es, k, allowance, window, now);
        let rest = calls.drop_first();
        assert forall|i: int| 0 <= i < rest.len() implies start <= (#[trigger] rest[i]).1 && ((
        rest[i].1 as int) - (start as int) < window) by {
            assert(rest[i] == calls[i + 1]);
        }
        if k != key {
            lemma_other_check_keeps_tail(es, k, key, allowance, window, now, start, counted);
            lemma_admitted_for_bounded(next, rest, key, allowance, window, start, counted);
        } else {
            let ev = events_of(es, key);
            assert forall|i: int| 0 <= i < counted.len() implies sat_sub(
                now as int,
                #[trigger] counted[i] as int,
            ) < window by {}
            lemma_pruned_keeps_recent_tail(ev, now, window, counted);
            let kept = pruned(ev, now, window);
            lemma_put_distinct(es, key, kept);
            lemma_events_of_put(es, key, kept);
            if kept.len() >= allowance {
                assert(events_of(next, key) == kept);
                lemma_admitted_for_bounded(next, rest, key, allowance, window, start, counted);
            } else {
                let grown = kept.push(now);
                let placed = put(es, key, grown);
                lemma_put_distinct(es, key, grown);
                lemma_events_of_put(es, key, grown);
                assert(events_of(placed, key) == grown);
                if placed.len() > MAX_KEYS {
                    lemma_retain_keeps_key(placed, key, now, window);
                    lemma_retain_distinct(placed, now, window);
                }
                assert(events_of(next, key) == grown);
                let counted2 = counted.push(now);
                assert(grown.skip(grown.len() - counted2.len()) =~= counted2) by {
                    assert(kept.skip(kept.len() - counted.len()) == counted);
                }
                lemma_admitted_for_bounded(next, rest, key, allowance, window, start, counted2);
            }
        }
    }
}

/// However checks of many keys interleave, while time moves forward and the
/// whole run lasts less than one window, the limiter admits at most
/// `allowance` of the requests of any one key: what other keys do never
/// frees room for it.
pub proof fn lemma_allowance_holds_among_other_keys(
    es: Seq<(Seq<char>, Seq<u64>)>,
    calls: Seq<(Seq<char>, u64)>,
    key: Seq<char>,
    allowance: int,
    window: int,
)
    requires
        keys_distinct(es),
        0 <= allowance,
        calls.len() > 0,
        forall|i: int, j: int| 0 <= i < j < calls.len() ==> calls[i].1 <= calls[j].1,
        (calls.last().1 as int) - (calls[0].1 as int) < window,
    ensures
        admitted_for(es, calls, key, allowance, window) <= allowance,
{
    let start = calls[0].1;
    assert forall|i: int| 0 <= i < calls.len() implies start <= (#[trigger] calls[i]).1 && ((
    calls[i].1 as int) - (start as int) < window) by {
        if i > 0 {
            assert(calls[0].1 <= calls[i].1);
        }
        if i < calls.len() - 1 {
            assert(calls[i].1 <= calls[calls.len() - 1].1);
        }
    }
    let ev = events_of(es, key);
    assert(ev.skip(ev.len() - 0) =~= Seq::<u64>::empty());
    lemma_admitted_for_bounded(es, calls, key, allowance, window, start, Seq::<u64>::empty());
}

/// The key under which anonymous requests in `bucket` are counted.
pub open spec fn anonymous_key(bucket: Seq<char>) -> Seq<char> {
    "anonymous-no-cookie"@ + ":"@ + bucket
}

/// Checking an anonymous request's identities in turn: only its last check,
/// under the anonymous key, touches that key's events, and the request goes
/// on only if that key had room for it.
proof fn lemma_check_each_anonymous(
    es: Seq<(Seq<char>, Seq<u64>)>,
    ids: Seq<Seq<char>>,
    bucket: Seq<char>,
    allowance: int,
    window: int,
    now: u64,
    start: u64,
    counted: Seq<u64>,
)
    requires
        keys_distinct(es),
        ids.len() >= 1,
        ids.last() == "anonymous-no-cookie"@,
        forall|j: int| 0 <= j < ids.len() - 1 ==> #[trigger] ids[j].len() > 0 && ids[j][0] == 'x',
        tail_of(events_of(es, anonymous_key(bucket)), counted),
        counted.len() <= allowance,
        forall|i: int| 0 <= i < counted.len() ==> start <= #[trigger] counted[i],
        start <= now,
        (now as int) - (start as int) < window,
    ensures
        keys_distinct(check_each(es, ids, bucket, allowance, window, now).0),
        check_each(es, ids, bucket, allowance, window, now).1 is None ==> counted.len() < allowance
            && tail_of(
            events_of(check_each(es, ids, bucket, allowance, window, now).0, anonymous_key(bucket)),
            counted.push(now),
        ),
        check_each(es, ids, bucket, allowance, window, now).1 is Some ==> tail_of(
            events_of(check_each(es, ids, bucket, allowance, window, now).0, anonymous_key(bucket)),
            counted,
        ),
    decreases ids.len(),
{
    reveal_strlit("anonymous-no-cookie");
    let k = anonymous_key(bucket);
    let first = ids[0] + ":"@ + bucket;
    if ids.len() == 1 {
        assert(first == k);
        let ev = events_of(es, k);
        assert forall|i: int| 0 <= i < counted.len() implies sat_sub(
            now as int,
            #[trigger] counted[i] as int,
        ) < window by {
            assert(start <= counted[i]);
        }
        lemma_pruned_keeps_recent_tail(ev, now, window, counted);
        let kept = pruned(ev, now, window);
        lemma_put_distinct(es, k, kept);
        lemma_events_of_put(es, k, kept);
        if kept.len() < allowance {
            let grown = kept.push(now);
            let placed = put(es, k, grown);
            lemma_put_distinct(es, k, grown);
            lemma_events_of_put(es, k, grown);
            if placed.len() > MAX_KEYS {
                lemma_retain_distinct(placed, now, window);
                lemma_retain_keeps_key(placed, k, now, window);
            }
            assert(grown.skip(grown.len() - counted.push(now).len()) =~= counted.push(now)) by {
                assert(kept.skip(kept.len() - counted.len()) == counted);
            }
            let next = check_outcome(es, k, allowance, window, now).0;
            assert(ids.drop_first() =~= Seq::<Seq<char>>::empty());
            assert(check_each(next, ids.drop_first(), bucket, allowance, window, now) == (
                next,
                None::<u64>,
            ));
        }
    } else {
        assert(ids[0][0] == 'x');
        assert(first[0] == ids[0][0]);
        assert(k[0] == 'a');
        assert(first != k);
        lemma_other_check_keeps_tail(es, first, k, allowance, window, now, start, counted);
        let (next, r) = check_outcome(es, first, allowance, window, now);
        if r is Ok {
            let rest = ids.drop_first();
            assert forall|j: int| 0 <= j < rest.len() - 1 implies #[trigger] rest[j].len() > 0
                && rest[j][0] == 'x' by {
                assert(rest[j] == ids[j + 1]);
            }
            lemma_check_each_anonymous(next, rest, bucket, allowance, window, now, start, counted);
            assert(check_each(es, ids, bucket, allowance, window, now) == check_each(
                next,
                rest,
                bucket,
                allowance,
                window,
                now,
            ));
        }
    }
}

/// The limiter's state and answer after screening one request: probes pass
/// untouched; any other request is checked under each of its identities in
/// its route family's bucket.
pub open spec fn screen_outcome(
    es: Seq<(Seq<char>, Seq<u64>)>,
    method: Seq<char>,
    path: Seq<char>,
    headers: RequestHeaders,
    now: u64,
) -> (Seq<(Seq<char>, Seq<u64>)>, Option<u64>) {
    if is_probe(path) {
        (es, None)
    } else {
        let p = rate_policy_of(method, path);
        check_each(
            es,
            rate_identities_of(&headers, path),
            p.0@,
            p.1 as int,
            p.2 * NANOS_PER_SEC,
            now,
        )
    }
}

/// One request as the limiter sees it: method, path, headers and arrival
/// time in monotonic nanoseconds.
pub type Arrival = (Seq<char>, Seq<char>, RequestHeaders, u64);

/// The answers to `arrivals` screened one after another, starting from `es`.
pub open spec fn screen_answers(es: Seq<(Seq<char>, Seq<u64>)>, arrivals: Seq<Arrival>) -> Seq<
    Option<u64>,
>
    decreases arrivals.len(),
{
    if arrivals.len() == 0 {
        seq![]
    } else {
        let a = arrivals[0];
        let (next, r) = screen_outcome(es, a.0, a.1, a.2, a.3);
        seq![r] + screen_answers(next, arrivals.drop_first())
    }
}

/// How many of `rs` let their request through.
pub open spec fn let_through(rs: Seq<Option<u64>>) -> nat
    decreases rs.len(),
{
    if rs.len() == 0 {
        0
    } else {
        (if rs[0] is None { 1nat } else { 0nat }) + let_through(rs.drop_first())
    }
}

/// The anonymous requests that one run let through all stay counted under
/// the shared anonymous key until the run's first request is a window old.
proof fn lemma_anonymous_bounded(
    es: Seq<(Seq<char>, Seq<u64>)>,
    arrivals: Seq<Arrival>,
    policy: (&'static str, usize, u64),
    start: u64,
    counted: Seq<u64>,
)
    requires
        keys_distinct(es),
        counted.len() <= policy.1,
        tail_of(events_of(es, anonymous_key(policy.0@)), counted),
        forall|i: int| 0 <= i < counted.len() ==> start <= #[trigger] counted[i],
        forall|i: int|
            0 <= i < arrivals.len() ==> anonymous_api(&(#[trigger] arrivals[i]).2, arrivals[i].1)
                && rate_policy_of(arrivals[i].0, arrivals[i].1) == policy && start <= arrivals[i].3
                && (arrivals[i].3 as int) - (start as int) < policy.2 * NANOS_PER_SEC,
    ensures
        counted.len() + let_through(screen_answers(es, arrivals)) <= policy.1,
    decreases arrivals.len(),
{
    if arrivals.len() > 0 {
        let a = arrivals[0];
        let window: int = policy.2 * NANOS_PER_SEC;
        reveal_strlit("/api/");
        reveal_strlit("/health");
        reveal_strlit("/ready");
        assert(anonymous_api(&a.2, a.1));
        assert("/api/"@.len() == 5);
        assert(a.1.take(5) == "/api/"@);
        assert(a.1.take(5)[1] == a.1[1]);
        assert(a.1[1] == 'a');
        assert(!is_probe(a.1)) by {
            if a.1 == "/health"@ {
                assert(a.1[1] == 'h');
            }
            if a.1 == "/ready"@ {
                assert(a.1[1] == 'r');
            }
        }
        crate::http::lemma_anonymous_identities(&a.2, a.1);
        let ids = rate_identities_of(&a.2, a.1);
        lemma_check_each_anonymous(
            es,
            ids,
            policy.0@,
            policy.1 as int,
            window,
            a.3,
            start,
            counted,
        );
        let (next, r) = screen_outcome(es, a.0, a.1, a.2, a.3);
        let rest = arrivals.drop_first();
        assert forall|i: int|
            0 <= i < rest.len() implies anonymous_api(&(#[trigger] rest[i]).2, rest[i].1)
            && rate_policy_of(rest[i].0, rest[i].1) == policy && start <= rest[i].3
            && (rest[i].3 as int) - (start as int) < policy.2 * NANOS_PER_SEC by {
            assert(rest[i] == arrivals[i + 1]);
        }
        let counted2 = if r is None {
            counted.push(a.3)
        } else {
            counted
        };
        assert forall|i: int| 0 <= i < counted2.len() implies start <= #[trigger] counted2[i] by {
            if i < counted.len() {
                assert(counted2[i] == counted[i]);
            }
        }
        lemma_anonymous_bounded(next, rest, policy, start, counted2);
        assert(screen_answers(es, arrivals) == seq![r] + screen_answers(next, rest));
        assert((seq![r] + screen_answers(next, rest)).drop_first() =~= screen_answers(next, rest));
    }
}

/// Callers without a product cookie or a bearer token share one allowance
/// per route family: however they vary their forwarding headers, at most
/// the family's allowance of their API requests within one window go on.
pub proof fn lemma_anonymous_callers_share_one_allowance(
    es: Seq<(Seq<char>, Seq<u64>)>,
    arrivals: Seq<Arrival>,
    policy: (&'static str, usize, u64),
)
    requires
        keys_distinct(es),
        arrivals.len() > 0,
        forall|i: int|
            0 <= i < arrivals.len() ==> anonymous_api(&(#[trigger] arrivals[i]).2, arrivals[i].1)
                && rate_policy_of(arrivals[i].0, arrivals[i].1) == policy,
        forall|i: int, j: int| 0 <= i < j < arrivals.len() ==> arrivals[i].3 <= arrivals[j].3,
        (arrivals.last().3 as int) - (arrivals[0].3 as int) < policy.2 * NANOS_PER_SEC,
    ensures
        let_through(screen_answers(es, arrivals)) <= policy.1,
{
    let start = arrivals[0].3;
    assert forall|i: int|
        0 <= i < arrivals.len() implies anonymous_api(&(#[trigger] arrivals[i]).2, arrivals[i].1)
        && rate_policy_of(arrivals[i].0, arrivals[i].1) == policy && start <= arrivals[i].3
        && (arrivals[i].3 as int) - (start as int) < policy.2 * NANOS_PER_SEC by {
        if i > 0 {
            assert(arrivals[0].3 <= arrivals[i].3);
        }
        if i < arrivals.len() - 1 {
            assert(arrivals[i].3 <= arrivals[arrivals.len() - 1].3);
        }
    }
    let ev = events_of(es, anonymous_key(policy.0@));
    assert(ev.skip(ev.len() - 0) =~= Seq::<u64>::empty());
    lemma_anonymous_bounded(es, arrivals, policy, start, Seq::<u64>::empty());
}

impl RateLimiter {
    /// Checks a request under each of its identities in the bucket `bucket`,
    /// in order, and gives the wait of the first refusal; identities after a
    /// refusal are not counted.
    pub fn check_identities(
        &mut self,
        identities: &Vec<String>,
        bucket: &str,
        allowance: usize,
        window_secs: u64,
        now: u64,
    ) -> (r: Option<u64>)
        requires
            old(self).wf(),
        ensures
            final(self).wf(),
            (final(self).model(), r) == check_each(
                old(self).model(),
                identities.deep_view(),
                bucket@,
                allowance as int,
                window_secs * NANOS_PER_SEC,
                now,
            ),
    {
        let ghost ids = identities.deep_view();
        let ghost w: int = window_secs * NANOS_PER_SEC;
        let ghost goal = check_each(self.model(), ids, bucket@, allowance as int, w, now);
        let mut i: usize = 0;
        assert(ids.skip(0) =~= ids);
        while i < identities.len()
            invariant
                i <= identities@.len(),
                ids == identities.deep_view(),
                w == window_secs * NANOS_PER_SEC,
                goal == check_each(old(self).model(), ids, bucket@, allowance as int, w, now),
                self.wf(),
                goal == check_each(self.model(), ids.skip(i as int), bucket@, allowance as int, w, now),
            decreases identities@.len() - i,
        {
            let mut key: Vec<char> = Vec::new();
            push_str(&mut key, identities[i].as_str());
            push_str(&mut key, ":");
            push_str(&mut key, bucket);
            let k = string_of(&key);
            let ghost kv = k@;
            assert(ids.skip(i as int)[0] == identities@[i as int]@);
            assert(ids.skip(i as int).drop_first() =~= ids.skip(i + 1));
            assert(kv =~= ids.skip(i as int)[0] + ":"@ + bucket@);
            let ghost before = self.model();
            assert(check_each(before, ids.skip(i as int), bucket@, allowance as int, w, now) == {
                let (next, r) = check_outcome(before, kv, allowance as int, w, now);
                match r {
                    Err(wait) => (next, Some(wait)),
                    Ok(_) => check_each(next, ids.skip(i + 1), bucket@, allowance as int, w, now),
                }
            });
            match self.check(k, allowance, window_secs, now) {
                Err(wait) => {
                    return Some(wait);
                },
                Ok(()) => {},
            }
            i = i + 1;
        }
        None
    }

    /// Decides whether a request may go on: the health and readiness probes
    /// always pass; any other request is checked under each of its
    /// identities in its route family's bucket, and the wait of the first
    /// refusal is returned.
    pub fn screen(&mut self, method: &str, path: &str, headers: &RequestHeaders, now: u64) -> (r:
        Option<u64>)
        requires
            old(self).wf(),
        ensures
            final(self).wf(),
            (final(self).model(), r) == screen_outcome(
                old(self).model(),
                method@,
                path@,
                *headers,
                now,
            ),
    {
        if is_probe_path(path) {
            return None;
        }
        let (bucket, allowance, window) = rate_policy(method, path);
        let ids = rate_identities(headers, path);
        self.check_identities(&ids, bucket, allowance, window, now)
    }
}

} // verus!
