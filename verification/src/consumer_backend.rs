//! The consumer backend: one instance per record kind, holding one lazily
//! created buffer per tenant. Records drain from the durable queue into
//! these buffers; a buffer flushes when it holds more than a thousand rows
//! or when three seconds have passed since its last flush, and an empty
//! buffer idle for over two minutes is closed and removed.
use vstd::prelude::*;

use crate::alarm_type::MetricsAlarmType;
use crate::alarm_wrapper::AlarmWrapper;
use crate::error::TypeError;
use crate::text::str_eq;

verus! {

/// A buffer never flushes later than this many buffered rows.
pub const CACHE_DATA_MUST_COMMIT_LEN: usize = 1000;

/// Seconds a non-empty buffer may wait before a flush.
pub const COMMIT_WAIT_SECS: u64 = 3;

/// Seconds an empty buffer may stay idle before it is closed.
pub const EXPIRE_SECS: u64 = 120;

/// The rows a buffer flushes: the first thousand when over the hard
/// threshold, everything when non-empty and the wait has passed, nothing
/// otherwise.
pub open spec fn commit_rows<UnitType>(pend: Seq<UnitType>, ct: u64, now: u64) -> Seq<
    UnitType,
> {
    if pend.len() > 1000 {
        pend.subrange(0, 1000)
    } else if pend.len() > 0 && now > ct + 3 {
        pend
    } else {
        Seq::empty()
    }
}

/// The rows a buffer keeps after a flush attempt.
pub open spec fn commit_rest<UnitType>(pend: Seq<UnitType>, ct: u64, now: u64) -> Seq<
    UnitType,
> {
    if pend.len() > 1000 {
        pend.subrange(1000, pend.len() as int)
    } else if pend.len() > 0 && now > ct + 3 {
        Seq::empty()
    } else {
        pend
    }
}

/// The flush-timer value after a flush attempt: reset exactly when
/// something was flushed.
pub open spec fn commit_ct<UnitType>(pend: Seq<UnitType>, ct: u64, now: u64) -> u64 {
    if pend.len() > 1000 {
        now
    } else if pend.len() > 0 && now > ct + 3 {
        now
    } else {
        ct
    }
}

/// After a flush attempt, the buffer is empty and has been idle longer
/// than the expiry window.
pub open spec fn expired_after<UnitType>(pend: Seq<UnitType>, ct: u64, now: u64) -> bool {
    commit_rest(pend, ct, now).len() == 0 && now > commit_ct(pend, ct, now) + 120
}

/// One tenant's buffer: the pending rows and the time of the last flush.
#[derive(Debug)]
pub struct ConsumerBackendInner<UnitType> {
    cache_data: Vec<UnitType>,
    commit_time: u64,
}

impl<UnitType> ConsumerBackendInner<UnitType> {
    /// The rows waiting to be flushed.
    pub closed spec fn spec_pending(&self) -> Seq<UnitType> {
        self.cache_data@
    }

    /// Epoch second of the last flush (or of creation).
    pub closed spec fn spec_commit_time(&self) -> u64 {
        self.commit_time
    }

    /// A fresh, empty buffer whose flush timer starts now.
    pub fn new(now: u64) -> (r: ConsumerBackendInner<UnitType>)
        ensures
            r.spec_pending() =~= Seq::<UnitType>::empty(),
            r.spec_commit_time() == now,
    {
        ConsumerBackendInner { cache_data: Vec::new(), commit_time: now }
    }

    /// The buffer is empty and has been idle longer than the expiry
    /// window.
    pub fn expired(&self, now: u64) -> (r: bool)
        ensures
            r == (self.spec_pending().len() == 0 && now > self.spec_commit_time() + 120),
    {
        self.cache_data.len() == 0 && now >= self.commit_time && now - self.commit_time
            > EXPIRE_SECS
    }

    /// Attempts a flush under the hybrid policy: over a thousand buffered
    /// rows flush the first thousand at once, regardless of elapsed time;
    /// a non-empty buffer flushes whole once more than three seconds have
    /// passed since the last flush; an empty buffer never flushes.
    pub fn try_commit(&mut self, now: u64) -> (to_insert: Vec<UnitType>)
        ensures
            to_insert@ == commit_rows(old(self).spec_pending(), old(
                self).spec_commit_time(), now),
            final(self).spec_pending() == commit_rest(old(self).spec_pending(), old(
                self).spec_commit_time(), now),
            final(self).spec_commit_time() == commit_ct(old(self).spec_pending(), old(
                self).spec_commit_time(), now),
    {
        if self.cache_data.len() > CACHE_DATA_MUST_COMMIT_LEN {
            let mut tail: Vec<UnitType> = self.cache_data.split_off(
                CACHE_DATA_MUST_COMMIT_LEN);
            core::mem::swap(&mut self.cache_data, &mut tail);
            self.commit_time = now;
            proof {
                assert(tail@ =~= commit_rows(old(self).spec_pending(), old(
                    self).spec_commit_time(), now));
                assert(self.cache_data@ =~= commit_rest(old(self).spec_pending(), old(
                    self).spec_commit_time(), now));
            }
            tail
        } else if self.cache_data.len() > 0 && now >= self.commit_time && now
            - self.commit_time > COMMIT_WAIT_SECS {
            let mut all: Vec<UnitType> = Vec::new();
            core::mem::swap(&mut self.cache_data, &mut all);
            self.commit_time = now;
            all
        } else {
            proof {
                assert(commit_rows(old(self).spec_pending(), old(self).spec_commit_time(),
                    now) =~= Seq::<UnitType>::empty());
            }
            Vec::new()
        }
    }

    /// Buffers one row, flushing first rows immediately when the hard
    /// threshold is crossed. Returns the rows to write out (possibly
    /// none).
    pub fn cache(&mut self, data: UnitType, now: u64) -> (to_insert: Vec<UnitType>)
        ensures
            ({
                let grown = old(self).spec_pending().push(data);
                if grown.len() > 1000 {
                    &&& to_insert@ == grown.subrange(0, 1000)
                    &&& final(self).spec_pending() == grown.subrange(
                        1000, grown.len() as int)
                    &&& final(self).spec_commit_time() == now
                } else {
                    &&& to_insert@.len() == 0
                    &&& final(self).spec_pending() == grown
                    &&& final(self).spec_commit_time() == old(self).spec_commit_time()
                }
            }),
            final(self).spec_pending().len() <= 1000 || final(self).spec_pending().len()
                < old(self).spec_pending().len(),
    {
        self.cache_data.push(data);
        if self.cache_data.len() > CACHE_DATA_MUST_COMMIT_LEN {
            self.try_commit(now)
        } else {
            Vec::new()
        }
    }
}

/// What one call to `cache` asks of the surrounding process: whether a new
/// tenant buffer was created (so storage must be prepared), and which rows
/// to write out.
pub struct CacheOutcome<UnitType> {
    pub created: bool,
    pub to_insert: Vec<UnitType>,
}

/// One record kind's backend: the live tenant buffers, keyed by tenant
/// name, owned by a single consuming task.
#[derive(Debug)]
pub struct ConsumerBackend<UnitType> {
    alarm_type: MetricsAlarmType,
    inner_cache: Vec<(String, ConsumerBackendInner<UnitType>)>,
}

/// The tenants and buffer states of a backend, as plain values: tenant
/// name, pending rows, last flush time.
pub open spec fn spec_triples<UnitType>(
    inners: Seq<(String, ConsumerBackendInner<UnitType>)>,
) -> Seq<(Seq<char>, Seq<UnitType>, u64)> {
    inners.map(|i: int, p: (String, ConsumerBackendInner<UnitType>)|
        (p.0@, p.1.spec_pending(), p.1.spec_commit_time()))
}

/// First index holding the tenant, or the length.
pub open spec fn spec_find_env<UnitType>(ts: Seq<(Seq<char>, Seq<UnitType>, u64)>,
    env: Seq<char>) -> int
    decreases ts.len(),
{
    if ts.len() == 0 {
        0
    } else if ts[0].0 == env {
        0
    } else {
        1 + spec_find_env(ts.subrange(1, ts.len() as int), env)
    }
}

/// The tenant states after one sweep: every buffer committed, expired
/// buffers removed.
pub open spec fn spec_sweep<UnitType>(ts: Seq<(Seq<char>, Seq<UnitType>, u64)>, now: u64)
    -> Seq<(Seq<char>, Seq<UnitType>, u64)>
    decreases ts.len(),
{
    if ts.len() == 0 {
        Seq::empty()
    } else {
        let h = ts[0];
        let tail = spec_sweep(ts.subrange(1, ts.len() as int), now);
        if expired_after(h.1, h.2, now) {
            tail
        } else {
            seq![(h.0, commit_rest(h.1, h.2, now), commit_ct(h.1, h.2, now))] + tail
        }
    }
}

/// The tenants a sweep closes: the ones whose buffers are empty and idle
/// beyond the expiry window, in tenant order.
pub open spec fn spec_closed_list<UnitType>(ts: Seq<(Seq<char>, Seq<UnitType>, u64)>,
    now: u64) -> Seq<Seq<char>>
    decreases ts.len(),
{
    if ts.len() == 0 {
        Seq::empty()
    } else {
        let tail = spec_closed_list(ts.subrange(1, ts.len() as int), now);
        if expired_after(ts[0].1, ts[0].2, now) {
            seq![ts[0].0] + tail
        } else {
            tail
        }
    }
}

/// The rows a sweep flushes, tenant by tenant, in tenant order.
pub open spec fn spec_flush_list<UnitType>(ts: Seq<(Seq<char>, Seq<UnitType>, u64)>,
    now: u64) -> Seq<(Seq<char>, Seq<UnitType>)> {
    ts.map(|i: int, h: (Seq<char>, Seq<UnitType>, u64)| (h.0, commit_rows(h.1, h.2, now)))
}

/// The texts of a sequence of strings.
pub open spec fn views_of(ss: Seq<String>) -> Seq<Seq<char>> {
    ss.map(|i: int, s: String| s@)
}

/// The plain values of a flush result.
pub open spec fn flush_views<UnitType>(fs: Seq<(String, Vec<UnitType>)>) -> Seq<
    (Seq<char>, Seq<UnitType>),
> {
    fs.map(|i: int, p: (String, Vec<UnitType>)| (p.0@, p.1@))
}

/// A sweep handles a concatenation piecewise.
proof fn lemma_sweep_concat<UnitType>(a: Seq<(Seq<char>, Seq<UnitType>, u64)>,
    b: Seq<(Seq<char>, Seq<UnitType>, u64)>, now: u64)
    ensures
        spec_sweep(a + b, now) == spec_sweep(a, now) + spec_sweep(b, now),
        spec_closed_list(a + b, now) == spec_closed_list(a, now) + spec_closed_list(
            b, now),
    decreases a.len(),
{
    if a.len() == 0 {
        assert(a + b =~= b);
        assert(spec_sweep(a, now) + spec_sweep(b, now) =~= spec_sweep(b, now));
        assert(spec_closed_list(a, now) + spec_closed_list(b, now) =~= spec_closed_list(
            b, now));
    } else {
        assert((a + b).subrange(1, (a + b).len() as int) =~= a.subrange(1, a.len() as int)
            + b);
        lemma_sweep_concat(a.subrange(1, a.len() as int), b, now);
        assert((a + b)[0] == a[0]);
        if !expired_after(a[0].1, a[0].2, now) {
            assert(seq![(a[0].0, commit_rest(a[0].1, a[0].2, now), commit_ct(a[0].1,
                a[0].2, now))] + (spec_sweep(a.subrange(1, a.len() as int), now)
                + spec_sweep(b, now)) =~= (seq![(a[0].0, commit_rest(a[0].1, a[0].2, now),
                commit_ct(a[0].1, a[0].2, now))] + spec_sweep(a.subrange(1,
                a.len() as int), now)) + spec_sweep(b, now));
        } else {
            assert(seq![a[0].0] + (spec_closed_list(a.subrange(1, a.len() as int), now)
                + spec_closed_list(b, now)) =~= (seq![a[0].0] + spec_closed_list(
                a.subrange(1, a.len() as int), now)) + spec_closed_list(b, now));
        }
    }
}

/// The effect of buffering one record under a tenant: a new tenant gets a
/// fresh buffer holding just the record; a known tenant's buffer grows,
/// flushing its first thousand rows when the hard threshold is crossed.
pub open spec fn spec_cache_effect<UnitType>(
    ts: Seq<(Seq<char>, Seq<UnitType>, u64)>,
    env: Seq<char>,
    data: UnitType,
    now: u64,
    created: bool,
    to_insert: Seq<UnitType>,
    ts2: Seq<(Seq<char>, Seq<UnitType>, u64)>,
) -> bool {
    let k = spec_find_env(ts, env);
    if k == ts.len() {
        &&& created
        &&& to_insert.len() == 0
        &&& ts2 =~= ts.push((env, seq![data], now))
    } else {
        &&& !created
        &&& ({
            let grown = ts[k].1.push(data);
            if grown.len() > 1000 {
                &&& to_insert == grown.subrange(0, 1000)
                &&& ts2 =~= ts.update(k, (ts[k].0, grown.subrange(1000,
                    grown.len() as int), now))
            } else {
                &&& to_insert.len() == 0
                &&& ts2 =~= ts.update(k, (ts[k].0, grown, ts[k].2))
            }
        })
    }
}

impl<UnitType> ConsumerBackend<UnitType> {
    /// The tenants and buffer states, as plain values.
    pub closed spec fn view_triples(&self) -> Seq<(Seq<char>, Seq<UnitType>, u64)> {
        spec_triples(self.inner_cache@)
    }

    /// The kind this backend serves.
    pub closed spec fn spec_alarm_type(&self) -> MetricsAlarmType {
        self.alarm_type
    }

    /// No tenant appears twice.
    pub open spec fn wf(&self) -> bool {
        forall|i: int, j: int|
            0 <= i < j < self.view_triples().len() ==> (#[trigger] self.view_triples()[i]).0
                != (#[trigger] self.view_triples()[j]).0
    }

    /// A fresh backend for one record kind, with no tenants yet.
    pub fn new(alarm_type: MetricsAlarmType) -> (r: ConsumerBackend<UnitType>)
        ensures
            r.view_triples() =~= Seq::<(Seq<char>, Seq<UnitType>, u64)>::empty(),
            r.spec_alarm_type() == alarm_type,
            r.wf(),
    {
        let r = ConsumerBackend { alarm_type, inner_cache: Vec::new() };
        proof {
            assert(r.view_triples() =~= Seq::<(Seq<char>, Seq<UnitType>, u64)>::empty());
        }
        r
    }

    /// Buffers one record under its tenant, creating the tenant's buffer
    /// on first use. Reports whether a buffer was created and which rows
    /// must now be written out.
    pub fn cache(&mut self, env: String, data: UnitType, now: u64) -> (r: CacheOutcome<
        UnitType>)
        requires
            old(self).wf(),
        ensures
            final(self).wf(),
            final(self).spec_alarm_type() == old(self).spec_alarm_type(),
            spec_cache_effect(old(self).view_triples(), env@, data, now, r.created,
                r.to_insert@, final(self).view_triples()),
    {
        let ghost ts = spec_triples(self.inner_cache@);
        proof {
            assert(ts.subrange(0, ts.len() as int) =~= ts);
        }
        let mut i: usize = 0;
        loop
            invariant_except_break
                i <= self.inner_cache@.len(),
                ts == spec_triples(self.inner_cache@),
                self.inner_cache@.len() == ts.len(),
                forall|k: int| 0 <= k < i ==> (#[trigger] ts[k]).0 != env@,
                spec_find_env(ts.subrange(i as int, ts.len() as int), env@)
                    == spec_find_env(ts, env@) - i,
            ensures
                ts == spec_triples(self.inner_cache@),
                self.inner_cache@.len() == ts.len(),
                i <= ts.len(),
                forall|k: int| 0 <= k < i ==> (#[trigger] ts[k]).0 != env@,
                i < ts.len() ==> spec_find_env(ts, env@) == i && ts[i as int].0 == env@,
                i == ts.len() ==> spec_find_env(ts, env@) == ts.len(),
            decreases self.inner_cache@.len() - i,
        {
            if i == self.inner_cache.len() {
                proof {
                    assert(ts.subrange(i as int, ts.len() as int) =~= Seq::<(Seq<char>,
                        Seq<UnitType>, u64)>::empty());
                }
                break;
            }
            proof {
                let rest = ts.subrange(i as int, ts.len() as int);
                assert(rest[0] == ts[i as int]);
                assert(rest.subrange(1, rest.len() as int) =~= ts.subrange(i as int + 1,
                    ts.len() as int));
                assert(ts[i as int].0 == self.inner_cache@[i as int].0@);
            }
            if str_eq(self.inner_cache[i].0.as_str(), env.as_str()) {
                break;
            }
            i = i + 1;
        }
        if i == self.inner_cache.len() {
            let mut fresh: ConsumerBackendInner<UnitType> = ConsumerBackendInner::new(now);
            let none: Vec<UnitType> = fresh.cache(data, now);
            self.inner_cache.push((env, fresh));
            proof {
                assert(spec_triples(self.inner_cache@) =~= ts.push((env@, seq![data],
                    now)));
                assert forall|a: int, b: int|
                    0 <= a < b < spec_triples(self.inner_cache@).len() implies (
                    #[trigger] spec_triples(self.inner_cache@)[a]).0 != (
                    #[trigger] spec_triples(self.inner_cache@)[b]).0 by {
                    assert(ts == old(self).view_triples());
                    if b < ts.len() {
                        assert(spec_triples(self.inner_cache@)[a] == ts[a]);
                        assert(spec_triples(self.inner_cache@)[b] == ts[b]);
                        assert(old(self).view_triples()[a].0
                            != old(self).view_triples()[b].0);
                    } else {
                        assert(spec_triples(self.inner_cache@)[a] == ts[a]);
                        assert(ts[a].0 != env@);
                    }
                }
            }
            CacheOutcome { created: true, to_insert: none }
        } else {
            let ghost prev = self.inner_cache@;
            let mut pair: (String, ConsumerBackendInner<UnitType>) = self.inner_cache.remove(
                i);
            let ghost pair0 = pair;
            let rows: Vec<UnitType> = pair.1.cache(data, now);
            self.inner_cache.insert(i, pair);
            proof {
                let ts2 = spec_triples(self.inner_cache@);
                let grown = ts[i as int].1.push(data);
                assert(pair0 == prev[i as int]);
                assert(ts[i as int].0 == pair0.0@);
                assert(ts[i as int].1 == pair0.1.spec_pending());
                assert forall|k: int| 0 <= k < ts2.len() implies ts2[k] == (if k
                    == i as int {
                    if grown.len() > 1000 {
                        (ts[i as int].0, grown.subrange(1000, grown.len() as int), now)
                    } else {
                        (ts[i as int].0, grown, ts[i as int].2)
                    }
                } else {
                    ts[k]
                }) by {
                    if k < i as int {
                        assert(self.inner_cache@[k] == prev[k]);
                    } else if k > i as int {
                        assert(self.inner_cache@[k] == prev[k]);
                    }
                }
                if grown.len() > 1000 {
                    assert(ts2 =~= ts.update(i as int, (ts[i as int].0, grown.subrange(
                        1000, grown.len() as int), now)));
                } else {
                    assert(ts2 =~= ts.update(i as int, (ts[i as int].0, grown,
                        ts[i as int].2)));
                }
                assert forall|a: int, b: int| 0 <= a < b < ts2.len() implies (
                    #[trigger] ts2[a]).0 != (#[trigger] ts2[b]).0 by {
                    assert(ts == old(self).view_triples());
                    assert(ts2[a].0 == ts[a].0);
                    assert(ts2[b].0 == ts[b].0);
                    assert(old(self).view_triples()[a].0 != old(self).view_triples()[b].0);
                }
            }
            CacheOutcome { created: false, to_insert: rows }
        }
    }

    /// Sweeps every tenant buffer: attempts a flush on each, then closes
    /// and removes the ones that are empty and have been idle longer than
    /// the expiry window. Returns the rows each tenant must write out, in
    /// tenant order, and the names of the closed tenants.
    pub fn try_commit_all(&mut self, now: u64) -> (r: (Vec<(String, Vec<UnitType>)>, Vec<
        String>))
        requires
            old(self).wf(),
        ensures
            final(self).wf(),
            final(self).spec_alarm_type() == old(self).spec_alarm_type(),
            final(self).view_triples() == spec_sweep(old(self).view_triples(), now),
            flush_views(r.0@) == spec_flush_list(old(self).view_triples(), now),
            views_of(r.1@) == spec_closed_list(old(self).view_triples(), now),
    {
        let ghost ts = spec_triples(self.inner_cache@);
        let mut old_v: Vec<(String, ConsumerBackendInner<UnitType>)> = Vec::new();
        core::mem::swap(&mut self.inner_cache, &mut old_v);
        let mut flushes: Vec<(String, Vec<UnitType>)> = Vec::new();
        let mut closed: Vec<String> = Vec::new();
        let mut kept: Vec<(String, ConsumerBackendInner<UnitType>)> = Vec::new();
        let mut i: usize = 0;
        let total: usize = old_v.len();
        proof {
            assert(ts.subrange(0, 0) =~= Seq::<(Seq<char>, Seq<UnitType>, u64)>::empty());
            assert(spec_triples(kept@) =~= spec_sweep(ts.subrange(0, 0), now));
            assert(views_of(closed@) =~= spec_closed_list(ts.subrange(0, 0), now));
            assert(flush_views(flushes@) =~= spec_flush_list(ts.subrange(0, 0), now));
            assert(ts.subrange(0, ts.len() as int) =~= ts);
        }
        while old_v.len() > 0
            invariant
                total == ts.len(),
                i + old_v@.len() == total,
                spec_triples(old_v@) == ts.subrange(i as int, ts.len() as int),
                spec_triples(kept@) == spec_sweep(ts.subrange(0, i as int), now),
                flush_views(flushes@) == spec_flush_list(ts.subrange(0, i as int), now),
                views_of(closed@) == spec_closed_list(ts.subrange(0, i as int), now),
            decreases old_v@.len(),
        {
            let ghost prev = old_v@;
            proof {
                assert(spec_triples(prev)[0] == ts.subrange(i as int, ts.len() as int)[0]);
                assert(spec_triples(prev)[0] == (prev[0].0@, prev[0].1.spec_pending(),
                    prev[0].1.spec_commit_time()));
            }
            let mut pair: (String, ConsumerBackendInner<UnitType>) = old_v.remove(0);
            let ghost pair0 = pair;
            proof {
                assert(pair0 == prev[0]);
                assert(ts[i as int].0 == pair0.0@);
                assert(ts[i as int].1 == pair0.1.spec_pending());
                assert(ts[i as int].2 == pair0.1.spec_commit_time());
                assert(old_v@ =~= prev.subrange(1, prev.len() as int));
                assert forall|k: int| 0 <= k < old_v@.len() implies spec_triples(
                    old_v@)[k] == ts.subrange(i as int + 1, ts.len() as int)[k] by {
                    assert(old_v@[k] == prev[k + 1]);
                    assert(spec_triples(prev)[k + 1] == ts.subrange(i as int,
                        ts.len() as int)[k + 1]);
                }
                assert(spec_triples(old_v@) =~= ts.subrange(i as int + 1,
                    ts.len() as int));
            }
            let name_copy: String = pair.0.clone();
            let rows: Vec<UnitType> = pair.1.try_commit(now);
            let was_expired: bool = pair.1.expired(now);
            let ghost old_flushes = flushes@;
            let ghost old_closed = closed@;
            let ghost old_kept = kept@;
            flushes.push((name_copy, rows));
            if was_expired {
                closed.push(pair.0);
            } else {
                kept.push(pair);
            }
            proof {
                lemma_step_lists(ts, i as int, now, old_flushes, flushes@, old_closed,
                    closed@, old_kept, kept@, was_expired);
            }
            i = i + 1;
        }
        core::mem::swap(&mut self.inner_cache, &mut kept);
        proof {
            assert(ts.subrange(0, ts.len() as int) =~= ts);
            assert forall|a: int, b: int| 0 <= a < b < ts.len() implies (
                #[trigger] ts[a]).0 != (#[trigger] ts[b]).0 by {
                assert(old(self).view_triples()[a] == ts[a]);
                assert(old(self).view_triples()[b] == ts[b]);
            }
            lemma_sweep_wf(ts, now);
        }
        (flushes, closed)
    }
}

/// One sweep step extends the three result lists exactly as the spec lists
/// of the one-longer prefix demand.
proof fn lemma_step_lists<UnitType>(
    ts: Seq<(Seq<char>, Seq<UnitType>, u64)>,
    i: int,
    now: u64,
    old_flushes: Seq<(String, Vec<UnitType>)>,
    new_flushes: Seq<(String, Vec<UnitType>)>,
    old_closed: Seq<String>,
    new_closed: Seq<String>,
    old_kept: Seq<(String, ConsumerBackendInner<UnitType>)>,
    new_kept: Seq<(String, ConsumerBackendInner<UnitType>)>,
    was_expired: bool,
)
    requires
        0 <= i < ts.len(),
        was_expired == expired_after(ts[i].1, ts[i].2, now),
        flush_views(old_flushes) == spec_flush_list(ts.subrange(0, i), now),
        views_of(old_closed) == spec_closed_list(ts.subrange(0, i), now),
        spec_triples(old_kept) == spec_sweep(ts.subrange(0, i), now),
        new_flushes.len() == old_flushes.len() + 1,
        forall|k: int| 0 <= k < old_flushes.len() ==> new_flushes[k] == old_flushes[k],
        new_flushes.last().0@ == ts[i].0,
        new_flushes.last().1@ == commit_rows(ts[i].1, ts[i].2, now),
        was_expired ==> new_closed.len() == old_closed.len() + 1
            && (forall|k: int| 0 <= k < old_closed.len() ==> new_closed[k]
            == old_closed[k]) && new_closed.last()@ == ts[i].0 && new_kept == old_kept,
        !was_expired ==> new_kept.len() == old_kept.len() + 1
            && (forall|k: int| 0 <= k < old_kept.len() ==> new_kept[k] == old_kept[k])
            && new_kept.last().0@ == ts[i].0 && new_kept.last().1.spec_pending()
            == commit_rest(ts[i].1, ts[i].2, now) && new_kept.last().1.spec_commit_time()
            == commit_ct(ts[i].1, ts[i].2, now) && new_closed == old_closed,
    ensures
        flush_views(new_flushes) == spec_flush_list(ts.subrange(0, i + 1), now),
        views_of(new_closed) == spec_closed_list(ts.subrange(0, i + 1), now),
        spec_triples(new_kept) == spec_sweep(ts.subrange(0, i + 1), now),
{
    reveal_with_fuel(spec_sweep, 3);
    reveal_with_fuel(spec_closed_list, 3);
    let one = seq![ts[i]];
    assert(ts.subrange(0, i + 1) =~= ts.subrange(0, i) + one);
    lemma_sweep_concat(ts.subrange(0, i), one, now);
    assert(one.subrange(1, 1) =~= Seq::<(Seq<char>, Seq<UnitType>, u64)>::empty());
    assert(one[0] == ts[i]);
    assert(spec_flush_list(ts.subrange(0, i + 1), now) =~= spec_flush_list(ts.subrange(
        0, i), now).push((ts[i].0, commit_rows(ts[i].1, ts[i].2, now)))) by {
        assert forall|k: int| 0 <= k < i + 1 implies spec_flush_list(ts.subrange(0, i
            + 1), now)[k] == spec_flush_list(ts.subrange(0, i), now).push((ts[i].0,
            commit_rows(ts[i].1, ts[i].2, now)))[k] by {
            assert(ts.subrange(0, i + 1)[k] == ts[k]);
            if k < i {
                assert(ts.subrange(0, i)[k] == ts[k]);
            }
        }
    }
    assert(flush_views(new_flushes) =~= flush_views(old_flushes).push((ts[i].0,
        commit_rows(ts[i].1, ts[i].2, now))));
    if was_expired {
        assert(spec_sweep(one, now) =~= Seq::<(Seq<char>, Seq<UnitType>, u64)>::empty());
        assert(spec_closed_list(one, now) =~= seq![ts[i].0]);
        assert(spec_triples(new_kept) =~= spec_sweep(ts.subrange(0, i), now) + spec_sweep(
            one, now));
        assert(views_of(new_closed) =~= views_of(old_closed) + seq![ts[i].0]);
    } else {
        assert(spec_sweep(one, now) =~= seq![(ts[i].0, commit_rest(ts[i].1, ts[i].2, now),
            commit_ct(ts[i].1, ts[i].2, now))]);
        assert(spec_closed_list(one, now) =~= Seq::<Seq<char>>::empty());
        assert(views_of(new_closed) =~= views_of(old_closed) + spec_closed_list(one, now));
        assert(spec_triples(new_kept) =~= spec_triples(old_kept) + spec_sweep(one, now));
    }
}

/// A sweep keeps tenants distinct: every surviving tenant is one of the
/// old tenants.
proof fn lemma_sweep_wf<UnitType>(ts: Seq<(Seq<char>, Seq<UnitType>, u64)>, now: u64)
    requires
        forall|i: int, j: int| 0 <= i < j < ts.len() ==> (#[trigger] ts[i]).0 != (
            #[trigger] ts[j]).0,
    ensures
        forall|i: int| 0 <= i < spec_sweep(ts, now).len() ==> exists|t: int|
            0 <= t < ts.len() && (#[trigger] spec_sweep(ts, now)[i]).0 == ts[t].0,
        forall|i: int, j: int|
            0 <= i < j < spec_sweep(ts, now).len() ==> (#[trigger] spec_sweep(ts,
            now)[i]).0 != (#[trigger] spec_sweep(ts, now)[j]).0,
    decreases ts.len(),
{
    if ts.len() > 0 {
        let tail = ts.subrange(1, ts.len() as int);
        assert forall|a: int, b: int| 0 <= a < b < tail.len() implies (
            #[trigger] tail[a]).0 != (#[trigger] tail[b]).0 by {
            assert(tail[a] == ts[a + 1] && tail[b] == ts[b + 1]);
        }
        lemma_sweep_wf(tail, now);
        let sw = spec_sweep(ts, now);
        let swt = spec_sweep(tail, now);
        if expired_after(ts[0].1, ts[0].2, now) {
            assert(sw == swt);
            assert forall|i: int| 0 <= i < sw.len() implies exists|t: int|
                0 <= t < ts.len() && (#[trigger] sw[i]).0 == ts[t].0 by {
                assert(spec_sweep(tail, now)[i] == sw[i]);
                let t0 = choose|t0: int|
                    0 <= t0 < tail.len() && (#[trigger] spec_sweep(tail, now)[i]).0
                    == tail[t0].0;
                assert(sw[i].0 == ts[t0 + 1].0);
            }
        } else {
            let h = (ts[0].0, commit_rest(ts[0].1, ts[0].2, now), commit_ct(ts[0].1,
                ts[0].2, now));
            assert(sw == seq![h] + swt);
            assert forall|i: int| 0 <= i < sw.len() implies exists|t: int|
                0 <= t < ts.len() && (#[trigger] sw[i]).0 == ts[t].0 by {
                if i == 0 {
                    assert(sw[0].0 == ts[0].0);
                } else {
                    assert(sw[i] == spec_sweep(tail, now)[i - 1]);
                    let t0 = choose|t0: int|
                        0 <= t0 < tail.len() && (#[trigger] spec_sweep(tail, now)[i
                        - 1]).0 == tail[t0].0;
                    assert(sw[i].0 == ts[t0 + 1].0);
                }
            }
            assert forall|i: int, j: int| 0 <= i < j < sw.len() implies (
                #[trigger] sw[i]).0 != (#[trigger] sw[j]).0 by {
                if i == 0 {
                    assert(sw[j] == spec_sweep(tail, now)[j - 1]);
                    let t0 = choose|t0: int|
                        0 <= t0 < tail.len() && (#[trigger] spec_sweep(tail, now)[j
                        - 1]).0 == tail[t0].0;
                    assert(sw[j].0 == ts[t0 + 1].0);
                    assert(ts[0].0 != ts[t0 + 1].0);
                } else {
                    assert(sw[i] == spec_sweep(tail, now)[i - 1]);
                    assert(sw[j] == spec_sweep(tail, now)[j - 1]);
                }
            }
        }
    }
}

/// An expired buffer is removed by the sweep, and a buffer that is not
/// expired survives it, committed: the lifecycle of a tenant's storage is
/// driven by idleness alone.
pub proof fn lemma_sweep_lifecycle<UnitType>(ts: Seq<(Seq<char>, Seq<UnitType>, u64)>,
    now: u64, k: int)
    requires
        0 <= k < ts.len(),
        forall|i: int, j: int| 0 <= i < j < ts.len() ==> (#[trigger] ts[i]).0 != (
            #[trigger] ts[j]).0,
    ensures
        expired_after(ts[k].1, ts[k].2, now) ==> (forall|j: int|
            0 <= j < spec_sweep(ts, now).len() ==> (#[trigger] spec_sweep(ts, now)[j]).0
            != ts[k].0),
        !expired_after(ts[k].1, ts[k].2, now) ==> (exists|j: int|
            0 <= j < spec_sweep(ts, now).len() && spec_sweep(ts, now)[j] == (ts[k].0,
            commit_rest(ts[k].1, ts[k].2, now), commit_ct(ts[k].1, ts[k].2, now))),
    decreases ts.len(),
{
    let tail = ts.subrange(1, ts.len() as int);
    let sw = spec_sweep(ts, now);
    assert forall|a: int, b: int| 0 <= a < b < tail.len() implies (#[trigger] tail[a]).0
        != (#[trigger] tail[b]).0 by {
        assert(tail[a] == ts[a + 1] && tail[b] == ts[b + 1]);
    }
    if k == 0 {
        lemma_sweep_wf(tail, now);
        if expired_after(ts[0].1, ts[0].2, now) {
            assert forall|j: int| 0 <= j < sw.len() implies (#[trigger] sw[j]).0
                != ts[0].0 by {
                assert(sw[j] == spec_sweep(tail, now)[j]);
                let t0 = choose|t0: int|
                    0 <= t0 < tail.len() && (#[trigger] spec_sweep(tail, now)[j]).0
                    == tail[t0].0;
                assert(sw[j].0 == ts[t0 + 1].0);
            }
        } else {
            assert(sw[0] == (ts[0].0, commit_rest(ts[0].1, ts[0].2, now), commit_ct(
                ts[0].1, ts[0].2, now)));
        }
    } else {
        lemma_sweep_lifecycle(tail, now, k - 1);
        assert(tail[k - 1] == ts[k]);
        let swt = spec_sweep(tail, now);
        if expired_after(ts[0].1, ts[0].2, now) {
            assert(sw == swt);
        } else {
            let h = (ts[0].0, commit_rest(ts[0].1, ts[0].2, now), commit_ct(ts[0].1,
                ts[0].2, now));
            assert(sw == seq![h] + swt);
            if expired_after(ts[k].1, ts[k].2, now) {
                assert forall|j: int| 0 <= j < sw.len() implies (#[trigger] sw[j]).0
                    != ts[k].0 by {
                    if j == 0 {
                        assert(sw[0].0 == ts[0].0);
                        assert(ts[0].0 != ts[k].0);
                    } else {
                        assert(sw[j] == swt[j - 1]);
                        assert(swt[j - 1].0 != tail[k - 1].0);
                    }
                }
            } else {
                let j0 = choose|j0: int|
                    0 <= j0 < swt.len() && swt[j0] == (tail[k - 1].0, commit_rest(
                    tail[k - 1].1, tail[k - 1].2, now), commit_ct(tail[k - 1].1,
                    tail[k - 1].2, now));
                assert(sw[j0 + 1] == swt[j0]);
            }
        }
    }
}


/// Caches one serialized counter envelope popped from the durable queue:
/// reads it back from its wire form, then buffers its record under its
/// tenant. Fails exactly when the text is not a counter envelope.
pub fn cache_counter_wire(
    b: &mut ConsumerBackend<crate::records::CounterUnit>,
    data: &str,
    now: u64,
) -> (r: Result<(String, CacheOutcome<crate::records::CounterUnit>), TypeError>)
    requires
        old(b).wf(),
    ensures
        final(b).wf(),
        r is Ok <==> crate::wire::spec_from_wire_counter_env(data@) is Some,
        r matches Ok(p) ==> (crate::wire::spec_from_wire_counter_env(data@) matches Some(t) && p.0@ == t.0
            && (exists|u: crate::records::CounterUnit|
            #[trigger] crate::wire::counter_matches(u, t.1) && u.wf() && spec_cache_effect(
            old(b).view_triples(), t.0, u, now, p.1.created, p.1.to_insert@,
            final(b).view_triples()))),
        r is Err ==> *final(b) == *old(b) && (r matches Err(
            TypeError::DeFromStringError(_))),
{
    match AlarmWrapper::<crate::records::CounterUnit>::from_wire(data) {
        Some(w) => {
            let ghost u0 = w.content;
            let ghost env0 = w.env@;
            let tenant: String = w.env.clone();
            let outcome: CacheOutcome<crate::records::CounterUnit> = b.cache(w.env, w.content, now);
            proof {
                assert(spec_cache_effect(old(b).view_triples(), env0, u0, now,
                    outcome.created, outcome.to_insert@, b.view_triples()));
                match crate::wire::spec_from_wire_counter_env(data@) {
                    Some(t) => {
                        assert(env0 == t.0);
                        assert(crate::wire::counter_matches(u0, t.1));
                        assert(u0.wf());
                        assert(spec_cache_effect(old(b).view_triples(), t.0, u0, now,
                            outcome.created, outcome.to_insert@, b.view_triples()));
                    },
                    None => {
                        assert(false);
                    },
                }
            }
            Ok((tenant, outcome))
        },
        None => Err(TypeError::DeFromStringError(String::from_str(
            "wrapped unit deserialize error",
        ))),
    }
}

/// Caches one serialized timer envelope, as `cache_counter_wire` does for
/// counters.
pub fn cache_timer_wire(
    b: &mut ConsumerBackend<crate::records::TimerUnit>,
    data: &str,
    now: u64,
) -> (r: Result<(String, CacheOutcome<crate::records::TimerUnit>), TypeError>)
    requires
        old(b).wf(),
    ensures
        final(b).wf(),
        r is Ok <==> crate::wire::spec_from_wire_timer_env(data@) is Some,
        r matches Ok(p) ==> (crate::wire::spec_from_wire_timer_env(data@) matches Some(t) && p.0@ == t.0
            && (exists|u: crate::records::TimerUnit|
            #[trigger] crate::wire::timer_matches(u, t.1) && u.wf() && spec_cache_effect(
            old(b).view_triples(), t.0, u, now, p.1.created, p.1.to_insert@,
            final(b).view_triples()))),
        r is Err ==> *final(b) == *old(b) && (r matches Err(
            TypeError::DeFromStringError(_))),
{
    match AlarmWrapper::<crate::records::TimerUnit>::from_wire(data) {
        Some(w) => {
            let ghost u0 = w.content;
            let ghost env0 = w.env@;
            let tenant: String = w.env.clone();
            let outcome: CacheOutcome<crate::records::TimerUnit> = b.cache(w.env, w.content, now);
            proof {
                assert(spec_cache_effect(old(b).view_triples(), env0, u0, now,
                    outcome.created, outcome.to_insert@, b.view_triples()));
                match crate::wire::spec_from_wire_timer_env(data@) {
                    Some(t) => {
                        assert(env0 == t.0);
                        assert(crate::wire::timer_matches(u0, t.1));
                        assert(u0.wf());
                        assert(spec_cache_effect(old(b).view_triples(), t.0, u0, now,
                            outcome.created, outcome.to_insert@, b.view_triples()));
                    },
                    None => {
                        assert(false);
                    },
                }
            }
            Ok((tenant, outcome))
        },
        None => Err(TypeError::DeFromStringError(String::from_str(
            "wrapped unit deserialize error",
        ))),
    }
}

/// Caches one serialized flow envelope, as `cache_counter_wire` does for
/// counters.
pub fn cache_flow_wire(
    b: &mut ConsumerBackend<crate::records::FlowUnit>,
    data: &str,
    now: u64,
) -> (r: Result<(String, CacheOutcome<crate::records::FlowUnit>), TypeError>)
    requires
        old(b).wf(),
    ensures
        final(b).wf(),
        r is Ok <==> crate::wire::spec_from_wire_flow_env(data@) is Some,
        r matches Ok(p) ==> (crate::wire::spec_from_wire_flow_env(data@) matches Some(t) && p.0@ == t.0
            && (exists|u: crate::records::FlowUnit|
            #[trigger] crate::wire::flow_matches(u, t.1) && u.wf() && spec_cache_effect(
            old(b).view_triples(), t.0, u, now, p.1.created, p.1.to_insert@,
            final(b).view_triples()))),
        r is Err ==> *final(b) == *old(b) && (r matches Err(
            TypeError::DeFromStringError(_))),
{
    match AlarmWrapper::<crate::records::FlowUnit>::from_wire(data) {
        Some(w) => {
            let ghost u0 = w.content;
            let ghost env0 = w.env@;
            let tenant: String = w.env.clone();
            let outcome: CacheOutcome<crate::records::FlowUnit> = b.cache(w.env, w.content, now);
            proof {
                assert(spec_cache_effect(old(b).view_triples(), env0, u0, now,
                    outcome.created, outcome.to_insert@, b.view_triples()));
                match crate::wire::spec_from_wire_flow_env(data@) {
                    Some(t) => {
                        assert(env0 == t.0);
                        assert(crate::wire::flow_matches(u0, t.1));
                        assert(u0.wf());
                        assert(spec_cache_effect(old(b).view_triples(), t.0, u0, now,
                            outcome.created, outcome.to_insert@, b.view_triples()));
                    },
                    None => {
                        assert(false);
                    },
                }
            }
            Ok((tenant, outcome))
        },
        None => Err(TypeError::DeFromStringError(String::from_str(
            "wrapped unit deserialize error",
        ))),
    }
}

} // verus!
