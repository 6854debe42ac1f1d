use vstd::prelude::*;
use std::time::Instant;

verus! {

#[verifier::external_type_specification]
#[verifier::external_body]
pub struct ExInstant(Instant);

/// `Instant::now`: the current time of the monotonic clock; nothing is stated of it.
#[verifier::external_body]
fn instant_now() -> Instant {
    Instant::now()
}

/// `Instant::elapsed`: the time since the instant; the clock decides it, so nothing is
/// stated of it.
#[verifier::external_body]
fn instant_elapsed(epoch: &Instant) -> std::time::Duration {
    epoch.elapsed()
}

/// `Duration::as_millis`: the whole milliseconds in a duration. A duration is opaque here,
/// so nothing is stated of the result.
#[verifier::external_body]
fn duration_millis(d: &std::time::Duration) -> u128 {
    d.as_millis()
}

/// The milliseconds since an instant, kept to their low 64 bits.
fn elapsed_ms(epoch: &Instant) -> u64 {
    let d = instant_elapsed(epoch);
    let ms = duration_millis(&d);
    ms as u64
}

/// A timer that is due at a tick.
#[derive(Debug, Clone, Copy, PartialEq, Eq, Structural)]
pub struct TimerEntry {
    pub timer_id: u64,
    pub deadline_tick: u64,
}

/// Whether the timers are in order of deadline.
pub open spec fn deadlines_ordered(s: Seq<TimerEntry>) -> bool {
    forall|i: int, j: int| 0 <= i <= j < s.len() ==> s[i].deadline_tick <= s[j].deadline_tick
}

/// The first position at or after `i` whose deadline is later than `tick`; the length where
/// there is none.
pub open spec fn first_later(s: Seq<TimerEntry>, tick: u64, i: int) -> int
    decreases s.len() - i,
{
    if i < 0 || i >= s.len() {
        s.len() as int
    } else if s[i].deadline_tick > tick {
        i
    } else {
        first_later(s, tick, i + 1)
    }
}

proof fn lemma_first_later(s: Seq<TimerEntry>, tick: u64, i: int)
    requires
        0 <= i <= s.len(),
    ensures
        i <= first_later(s, tick, i) <= s.len(),
        forall|j: int| i <= j < first_later(s, tick, i) ==> s[j].deadline_tick <= tick,
        first_later(s, tick, i) < s.len() ==> s[first_later(s, tick, i)].deadline_tick > tick,
    decreases s.len() - i,
{
    if i < s.len() && s[i].deadline_tick <= tick {
        lemma_first_later(s, tick, i + 1);
    }
}

/// Timers waiting for their deadlines, due ones handed out in order of deadline and, for one
/// deadline, in the order they were set.
#[derive(Debug)]
pub struct TimerWheel {
    next_timer_id: u64,
    pending: Vec<TimerEntry>,
    epoch: Instant,
}

impl TimerWheel {
    /// The pending timers are always kept in order of deadline.
    #[verifier::type_invariant]
    pub open spec fn pending_in_order(self) -> bool {
        &&& deadlines_ordered(self.spec_pending())
        &&& self.spec_next_id() < u64::MAX ==> ids_below(self.spec_pending(), self.spec_next_id())
            && timers_distinct(self.spec_pending())
    }

    /// The timers not yet due, in the order they will be handed out.
    pub closed spec fn spec_pending(&self) -> Seq<TimerEntry> {
        self.pending@
    }

    /// The id the next timer gets.
    pub closed spec fn spec_next_id(&self) -> u64 {
        self.next_timer_id
    }

    pub fn new() -> (r: Self)
        ensures
            r.spec_pending() == Seq::<TimerEntry>::empty(),
            r.spec_next_id() == 1,
    {
        TimerWheel { next_timer_id: 1, pending: Vec::new(), epoch: instant_now() }
    }

    /// Milliseconds since the wheel was made.
    pub fn now_ms(&self) -> u64 {
        elapsed_ms(&self.epoch)
    }

    /// Sets a timer due `delay_ms` from now; the deadline stays at the largest tick where the
    /// sum would pass it.
    pub fn schedule_after_ms(&mut self, delay_ms: u64) -> (r: u64)
        ensures
            r == old(self).spec_next_id(),
            deadlines_ordered(final(self).spec_pending()),
            exists|deadline: u64|
                deadline >= delay_ms && final(self).spec_pending() == #[trigger] scheduled(
                    old(self).spec_pending(),
                    TimerEntry { timer_id: r, deadline_tick: deadline },
                ),
            final(self).spec_next_id() == if old(self).spec_next_id() == u64::MAX {
                u64::MAX
            } else {
                (old(self).spec_next_id() + 1) as u64
            },
    {
        let deadline = self.now_ms().saturating_add(delay_ms);
        let r = self.schedule(deadline);
        r
    }

    /// Sets a timer due at `deadline_tick`; timers count up from one and stay at the
    /// largest id once there.
    pub fn schedule(&mut self, deadline_tick: u64) -> (r: u64)
        ensures
            r == old(self).spec_next_id(),
            deadlines_ordered(final(self).spec_pending()),
            final(self).spec_next_id() < u64::MAX ==> timers_distinct(final(self).spec_pending()),
            final(self).spec_pending() == scheduled(
                old(self).spec_pending(),
                TimerEntry { timer_id: r, deadline_tick },
            ),
            final(self).spec_next_id() == if old(self).spec_next_id() == u64::MAX {
                u64::MAX
            } else {
                (old(self).spec_next_id() + 1) as u64
            },
            timer_step(
                *old(self),
                *final(self),
                TimerCall::Schedule { deadline: deadline_tick, id: r },
                Seq::empty(),
            ),
    {
        proof {
            use_type_invariant(&*self);
        }
        let timer_id = self.next_timer_id;
        self.next_timer_id = self.next_timer_id.saturating_add(1);
        let entry = TimerEntry { timer_id, deadline_tick };
        let mut pending: Vec<TimerEntry> = Vec::new();
        std::mem::swap(&mut pending, &mut self.pending);
        let ghost before = pending@;
        let mut i: usize = 0;
        while i < pending.len() && pending[i].deadline_tick <= deadline_tick
            invariant
                i <= pending@.len(),
                pending@ == before,
                first_later(before, deadline_tick, 0) == first_later(before, deadline_tick, i as int),
            decreases pending@.len() - i,
        {
            i = i + 1;
        }
        proof {
            lemma_first_later(before, deadline_tick, 0);
        }
        pending.insert(i, entry);
        proof {
            assert(pending@ =~= before.take(i as int).push(entry) + before.skip(i as int));
            assert forall|a: int, b: int|
                0 <= a <= b < pending@.len() implies pending@[a].deadline_tick
                <= pending@[b].deadline_tick by {
                if a < i && b > i {
                    assert(pending@[b] == before[b - 1]);
                } else if a > i {
                    assert(pending@[a] == before[a - 1]);
                    assert(pending@[b] == before[b - 1]);
                } else if a == i && b > i {
                    assert(pending@[b] == before[b - 1]);
                    assert(before[i as int].deadline_tick > deadline_tick);
                }
            }
        }
        proof {
            lemma_scheduled_timers(before, entry);
            assert(pending@ == scheduled(before, entry));
            if self.next_timer_id < u64::MAX {
                assert(!before.contains(entry)) by {
                    if before.contains(entry) {
                        let j = choose|j: int| 0 <= j < before.len() && before[j] == entry;
                        assert(before[j].timer_id < timer_id);
                    }
                }
                assert forall|j: int| 0 <= j < pending@.len() implies #[trigger] pending@[j].timer_id
                    < self.next_timer_id by {
                    assert(pending@.contains(pending@[j]));
                    if pending@[j] != entry {
                        let q = choose|q: int| 0 <= q < before.len() && before[q] == pending@[j];
                        assert(before[q].timer_id < timer_id);
                    }
                }
            }
        }
        self.pending = pending;
        timer_id
    }

    /// The timers due at `now_tick`, in order of deadline, taken off the wheel.
    pub fn drain_expired(&mut self, now_tick: u64) -> (r: Vec<TimerEntry>)
        ensures
            r@ == old(self).spec_pending().take(first_later(old(self).spec_pending(), now_tick, 0)),
            final(self).spec_pending() == old(self).spec_pending().skip(
                first_later(old(self).spec_pending(), now_tick, 0),
            ),
            final(self).spec_next_id() == old(self).spec_next_id(),
            deadlines_ordered(final(self).spec_pending()),
            final(self).spec_next_id() < u64::MAX ==> timers_distinct(final(self).spec_pending()),
            forall|i: int| 0 <= i < r@.len() ==> #[trigger] r@[i].deadline_tick <= now_tick,
            forall|i: int|
                0 <= i < final(self).spec_pending().len() ==> #[trigger] final(self).spec_pending()[i].deadline_tick
                    > now_tick,
            timer_step(*old(self), *final(self), TimerCall::Drain { now: now_tick }, r@),
    {
        proof {
            use_type_invariant(&*self);
        }
        let ghost before = self.pending@;
        proof {
            lemma_first_later(before, now_tick, 0);
        }
        let mut expired: Vec<TimerEntry> = Vec::new();
        let mut i: usize = 0;
        while i < self.pending.len() && self.pending[i].deadline_tick <= now_tick
            invariant
                i <= self.pending@.len(),
                self.pending@ == before,
                expired@ == before.take(i as int),
                first_later(before, now_tick, 0) == first_later(before, now_tick, i as int),
            decreases self.pending@.len() - i,
        {
            expired.push(self.pending[i]);
            assert(expired@ =~= before.take(i + 1));
            i = i + 1;
        }
        let mut rest: Vec<TimerEntry> = Vec::new();
        let mut j: usize = i;
        while j < self.pending.len()
            invariant
                i <= j <= self.pending@.len(),
                self.pending@ == before,
                rest@ == before.subrange(i as int, j as int),
            decreases self.pending@.len() - j,
        {
            rest.push(self.pending[j]);
            assert(rest@ =~= before.subrange(i as int, j + 1));
            j = j + 1;
        }
        assert(rest@ =~= before.skip(i as int));
        assert(self.next_timer_id < u64::MAX ==> ids_below(rest@, self.next_timer_id)
            && timers_distinct(rest@)) by {
            if self.next_timer_id < u64::MAX {
                assert forall|a: int| 0 <= a < rest@.len() implies #[trigger] rest@[a].timer_id
                    < self.next_timer_id by {
                    assert(rest@[a] == before[a + i]);
                }
                assert forall|a: int, b: int| 0 <= a < b < rest@.len() implies #[trigger] rest@[a]
                    != #[trigger] rest@[b] by {
                    assert(rest@[a] == before[a + i]);
                    assert(rest@[b] == before[b + i]);
                }
            }
        }
        assert(deadlines_ordered(rest@)) by {
            assert forall|a: int, b: int| 0 <= a <= b < rest@.len() implies rest@[a].deadline_tick
                <= rest@[b].deadline_tick by {
                assert(rest@[a] == before[a + i]);
                assert(rest@[b] == before[b + i]);
            }
        }
        self.pending = rest;
        expired
    }
}

/// The timers after a new one is set: after every timer due no later than it.
pub open spec fn scheduled(s: Seq<TimerEntry>, e: TimerEntry) -> Seq<TimerEntry> {
    let k = first_later(s, e.deadline_tick, 0);
    s.take(k).push(e) + s.skip(k)
}

/// A call on a timer wheel: setting a timer (with the deadline given and the id handed
/// back), or draining the timers due at a tick.
#[derive(Debug, Clone, Copy, PartialEq, Eq, Structural)]
pub enum TimerCall {
    Schedule { deadline: u64, id: u64 },
    Drain { now: u64 },
}

/// What one call does to a wheel, `out` being what a drain hands out.
pub open spec fn timer_step(before: TimerWheel, after: TimerWheel, call: TimerCall, out: Seq<TimerEntry>) -> bool {
    let s = before.spec_pending();
    match call {
        TimerCall::Schedule { deadline, id } => {
            &&& id == before.spec_next_id()
            &&& after.spec_next_id() == if before.spec_next_id() == u64::MAX {
                u64::MAX
            } else {
                (before.spec_next_id() + 1) as u64
            }
            &&& after.spec_pending() == scheduled(s, TimerEntry { timer_id: id, deadline_tick: deadline })
        },
        TimerCall::Drain { now } => {
            &&& out == s.take(first_later(s, now, 0))
            &&& after.spec_pending() == s.skip(first_later(s, now, 0))
            &&& after.spec_next_id() == before.spec_next_id()
        },
    }
}

/// Whether call `k` of a history took wheel `k` to wheel `k + 1`, handing out `outs[k]`.
pub open spec fn history_step(
    ws: Seq<TimerWheel>,
    calls: Seq<TimerCall>,
    outs: Seq<Seq<TimerEntry>>,
    k: int,
) -> bool {
    timer_step(ws[k], ws[k + 1], calls[k], outs[k])
}

/// Whether the timers are in order of deadline, and for one deadline in order of id.
pub open spec fn deadline_id_sorted(s: Seq<TimerEntry>) -> bool {
    forall|i: int, j: int|
        0 <= i < j < s.len() ==> (#[trigger] s[i]).deadline_tick < (#[trigger] s[j]).deadline_tick
            || (s[i].deadline_tick == s[j].deadline_tick && s[i].timer_id < s[j].timer_id)
}

/// How many of the calls set a timer.
pub open spec fn schedules_in(calls: Seq<TimerCall>) -> nat
    decreases calls.len(),
{
    if calls.len() == 0 {
        0
    } else {
        schedules_in(calls.drop_last()) + if calls.last() is Schedule {
            1nat
        } else {
            0nat
        }
    }
}

/// The timer that a call sets.
pub open spec fn timer_set_by(call: TimerCall) -> TimerEntry {
    match call {
        TimerCall::Schedule { deadline, id } => TimerEntry { timer_id: id, deadline_tick: deadline },
        TimerCall::Drain { .. } => TimerEntry { timer_id: 0, deadline_tick: 0 },
    }
}

/// Whether a call is a drain whose tick reaches `deadline`.
pub open spec fn drain_reaches(call: TimerCall, deadline: u64) -> bool {
    match call {
        TimerCall::Drain { now } => now >= deadline,
        TimerCall::Schedule { .. } => false,
    }
}

/// Whether some drain among calls `from` to `to` (not included) reaches `deadline`.
pub open spec fn drained_by(calls: Seq<TimerCall>, from: int, to: int, deadline: u64) -> bool {
    exists|m: int| from <= m < to && #[trigger] drain_reaches(calls[m], deadline)
}

/// Whether every timer's id is below `next`.
pub open spec fn ids_below(s: Seq<TimerEntry>, next: u64) -> bool {
    forall|i: int| 0 <= i < s.len() ==> #[trigger] s[i].timer_id < next
}

/// Whether no timer is pending twice.
pub open spec fn timers_distinct(s: Seq<TimerEntry>) -> bool {
    forall|i: int, j: int| 0 <= i < j < s.len() ==> #[trigger] s[i] != #[trigger] s[j]
}

/// Setting a timer adds exactly that timer to the pending ones, and keeps every pending
/// timer pending once where each was pending once and the new timer was not pending.
pub proof fn lemma_scheduled_timers(s: Seq<TimerEntry>, e: TimerEntry)
    ensures
        scheduled(s, e).len() == s.len() + 1,
        forall|x: TimerEntry| #[trigger] scheduled(s, e).contains(x) <==> x == e || s.contains(x),
        timers_distinct(s) && !s.contains(e) ==> timers_distinct(scheduled(s, e)),
{
    lemma_first_later(s, e.deadline_tick, 0);
    let k = first_later(s, e.deadline_tick, 0);
    let t = scheduled(s, e);
    assert(t =~= s.take(k).push(e) + s.skip(k));
    assert forall|j: int| 0 <= j < t.len() implies #[trigger] t[j] == if j < k {
        s[j]
    } else if j == k {
        e
    } else {
        s[j - 1]
    } by {}
    assert forall|x: TimerEntry| #[trigger] t.contains(x) <==> x == e || s.contains(x) by {
        if t.contains(x) {
            let j = choose|j: int| 0 <= j < t.len() && t[j] == x;
            if j < k {
                assert(s[j] == x);
            } else if j > k {
                assert(s[j - 1] == x);
            }
        }
        if s.contains(x) {
            let j = choose|j: int| 0 <= j < s.len() && s[j] == x;
            if j < k {
                assert(t[j] == x);
            } else {
                assert(t[j + 1] == x);
            }
        }
        if x == e {
            assert(t[k] == x);
        }
    }
    if timers_distinct(s) && !s.contains(e) {
        assert forall|a: int, b: int| 0 <= a < b < t.len() implies #[trigger] t[a] != #[trigger] t[b] by {
            if a == k {
                assert(t[b] == s[b - 1]);
            } else if b == k {
                assert(t[a] == s[a]);
            } else {
                let sa = if a < k { a } else { a - 1 };
                let sb = if b < k { b } else { b - 1 };
                assert(t[a] == s[sa] && t[b] == s[sb]);
            }
        }
    }
}

/// A pending timer is handed out by a drain exactly when the drain's tick has reached its
/// deadline, and is then no longer pending; otherwise it stays pending. So each timer that
/// was set is handed out by the first drain whose tick reaches its deadline, and by no other.
pub proof fn lemma_timer_fires_once(s: Seq<TimerEntry>, e: TimerEntry, now: u64)
    requires
        deadlines_ordered(s),
        timers_distinct(s),
        s.contains(e),
    ensures
        s.take(first_later(s, now, 0)).contains(e) <==> e.deadline_tick <= now,
        s.skip(first_later(s, now, 0)).contains(e) <==> e.deadline_tick > now,
{
    lemma_first_later(s, now, 0);
    let k = first_later(s, now, 0);
    let idx = choose|j: int| 0 <= j < s.len() && s[j] == e;
    if e.deadline_tick <= now {
        if idx >= k {
            assert(s[k].deadline_tick <= s[idx].deadline_tick);
        }
        assert(s.take(k)[idx] == e);
        if s.skip(k).contains(e) {
            let j = choose|j: int| 0 <= j < s.skip(k).len() && s.skip(k)[j] == e;
            assert(s[j + k] == e);
        }
    } else {
        assert(idx >= k);
        assert(s.skip(k)[idx - k] == e);
        if s.take(k).contains(e) {
            let j = choose|j: int| 0 <= j < s.take(k).len() && s.take(k)[j] == e;
            assert(s[j] == e);
        }
    }
}

/// Setting a timer with a fresh id larger than every pending one keeps the pending timers
/// in order of deadline and then id.
proof fn lemma_scheduled_sorted(s: Seq<TimerEntry>, e: TimerEntry)
    requires
        deadline_id_sorted(s),
        forall|i: int| 0 <= i < s.len() ==> #[trigger] s[i].timer_id < e.timer_id,
    ensures
        deadline_id_sorted(scheduled(s, e)),
{
    lemma_first_later(s, e.deadline_tick, 0);
    let k = first_later(s, e.deadline_tick, 0);
    let t = scheduled(s, e);
    assert(t =~= s.take(k).push(e) + s.skip(k));
    assert forall|j: int| 0 <= j < t.len() implies #[trigger] t[j] == if j < k {
        s[j]
    } else if j == k {
        e
    } else {
        s[j - 1]
    } by {}
    assert forall|a: int, b: int| 0 <= a < b < t.len() implies (#[trigger] t[a]).deadline_tick
        < (#[trigger] t[b]).deadline_tick || (t[a].deadline_tick == t[b].deadline_tick
        && t[a].timer_id < t[b].timer_id) by {
        if b < k {
            assert(t[a] == s[a] && t[b] == s[b]);
        } else if b == k {
            assert(t[a] == s[a]);
        } else if a < k {
            assert(t[a] == s[a] && t[b] == s[b - 1]);
        } else if a == k {
            assert(t[b] == s[b - 1]);
        } else {
            assert(t[a] == s[a - 1] && t[b] == s[b - 1]);
        }
    }
}

/// What holds of every wheel along a history that started empty with ids from one: the
/// pending timers are in order of deadline and then id, their ids are below the next one,
/// and the next id is one more than the timers set so far.
proof fn lemma_history_invariant(ws: Seq<TimerWheel>, calls: Seq<TimerCall>, outs: Seq<Seq<TimerEntry>>, j: int)
    requires
        ws.len() == calls.len() + 1,
        outs.len() == calls.len(),
        ws[0].spec_pending().len() == 0,
        ws[0].spec_next_id() == 1,
        forall|k: int| 0 <= k < calls.len() ==> #[trigger] history_step(ws, calls, outs, k),
        calls.len() < u64::MAX - 1,
        0 <= j <= calls.len(),
    ensures
        deadline_id_sorted(ws[j].spec_pending()),
        ids_below(ws[j].spec_pending(), ws[j].spec_next_id()),
        ws[j].spec_next_id() == schedules_in(calls.take(j)) + 1,
    decreases j,
{
    if j == 0 {
        assert(calls.take(0) =~= Seq::<TimerCall>::empty());
    } else {
        lemma_history_invariant(ws, calls, outs, j - 1);
        lemma_schedules_bound(calls.take(j - 1));
        assert(calls.take(j).drop_last() =~= calls.take(j - 1));
        let before = ws[j - 1];
        let after = ws[j];
        let s = before.spec_pending();
        assert(history_step(ws, calls, outs, j - 1));
        match calls[j - 1] {
            TimerCall::Schedule { deadline, id } => {
                let e = TimerEntry { timer_id: id, deadline_tick: deadline };
                lemma_scheduled_sorted(s, e);
                lemma_scheduled_timers(s, e);
                assert forall|i: int| 0 <= i < after.spec_pending().len() implies #[trigger] after.spec_pending()[i].timer_id
                    < after.spec_next_id() by {
                    let x = after.spec_pending()[i];
                    assert(after.spec_pending().contains(x));
                    if x != e {
                        let q = choose|q: int| 0 <= q < s.len() && s[q] == x;
                        assert(s[q].timer_id < before.spec_next_id());
                    }
                }
            },
            TimerCall::Drain { now } => {
                lemma_first_later(s, now, 0);
                let k = first_later(s, now, 0);
                assert forall|a: int, b: int| 0 <= a < b < s.skip(k).len() implies (#[trigger] s.skip(k)[a]).deadline_tick
                    < (#[trigger] s.skip(k)[b]).deadline_tick || (s.skip(k)[a].deadline_tick
                    == s.skip(k)[b].deadline_tick && s.skip(k)[a].timer_id < s.skip(k)[b].timer_id) by {
                    assert(s.skip(k)[a] == s[a + k] && s.skip(k)[b] == s[b + k]);
                }
                assert forall|i: int| 0 <= i < s.skip(k).len() implies #[trigger] s.skip(k)[i].timer_id
                    < after.spec_next_id() by {
                    assert(s.skip(k)[i] == s[i + k]);
                }
            },
        }
    }
}

/// No more timers are set than there are calls.
proof fn lemma_schedules_bound(calls: Seq<TimerCall>)
    ensures
        schedules_in(calls) <= calls.len(),
    decreases calls.len(),
{
    if calls.len() > 0 {
        lemma_schedules_bound(calls.drop_last());
    }
}

/// Timers in order of deadline and then id are in order of deadline and pending once each.
proof fn lemma_sorted_parts(s: Seq<TimerEntry>)
    requires
        deadline_id_sorted(s),
    ensures
        deadlines_ordered(s),
        timers_distinct(s),
{
    assert forall|i: int, j: int| 0 <= i <= j < s.len() implies s[i].deadline_tick <= s[j].deadline_tick by {
        if i < j {
            assert(s[i].deadline_tick < s[j].deadline_tick || s[i].deadline_tick == s[j].deadline_tick);
        }
    }
    assert forall|i: int, j: int| 0 <= i < j < s.len() implies #[trigger] s[i] != #[trigger] s[j] by {
        assert(s[i].deadline_tick < s[j].deadline_tick || s[i].timer_id < s[j].timer_id);
    }
}

/// Along a history of calls on a wheel that started empty: the timers are numbered one,
/// two, three and on in the order they are set; every drain hands its timers out in order of
/// deadline, and for one deadline in the order they were set; and a timer that was set is
/// handed out by the first later drain whose tick reaches its deadline, and by no other.
pub proof fn lemma_timer_history(
    ws: Seq<TimerWheel>,
    calls: Seq<TimerCall>,
    outs: Seq<Seq<TimerEntry>>,
)
    requires
        ws.len() == calls.len() + 1,
        outs.len() == calls.len(),
        ws[0].spec_pending().len() == 0,
        ws[0].spec_next_id() == 1,
        forall|k: int| 0 <= k < calls.len() ==> #[trigger] history_step(ws, calls, outs, k),
        calls.len() < u64::MAX - 1,
    ensures
        forall|k: int|
            0 <= k < calls.len() && #[trigger] calls[k] is Schedule ==> calls[k]->id
                == schedules_in(calls.take(k)) + 1,
        forall|k: int| 0 <= k < calls.len() && #[trigger] calls[k] is Drain ==> deadline_id_sorted(outs[k]),
        forall|k: int, j: int|
            0 <= k < j < calls.len() && #[trigger] calls[k] is Schedule && #[trigger] calls[j] is Drain
                ==> (outs[j].contains(timer_set_by(calls[k])) <==> (calls[j]->now
                >= calls[k]->deadline && !drained_by(calls, k + 1, j, calls[k]->deadline))),
{
    assert forall|k: int| 0 <= k < calls.len() && #[trigger] calls[k] is Schedule implies calls[k]->id
        == schedules_in(calls.take(k)) + 1 by {
        lemma_history_invariant(ws, calls, outs, k);
        assert(history_step(ws, calls, outs, k));
    }
    assert forall|k: int| 0 <= k < calls.len() && #[trigger] calls[k] is Drain implies deadline_id_sorted(
        outs[k],
    ) by {
        lemma_history_invariant(ws, calls, outs, k);
        assert(history_step(ws, calls, outs, k));
        let s = ws[k].spec_pending();
        let m = first_later(s, calls[k]->now, 0);
        lemma_first_later(s, calls[k]->now, 0);
        assert forall|a: int, b: int| 0 <= a < b < s.take(m).len() implies (#[trigger] s.take(m)[a]).deadline_tick
            < (#[trigger] s.take(m)[b]).deadline_tick || (s.take(m)[a].deadline_tick
            == s.take(m)[b].deadline_tick && s.take(m)[a].timer_id < s.take(m)[b].timer_id) by {
            assert(s.take(m)[a] == s[a] && s.take(m)[b] == s[b]);
        }
    }
    assert forall|k: int, j: int|
        0 <= k < j < calls.len() && #[trigger] calls[k] is Schedule && #[trigger] calls[j] is Drain
            implies (outs[j].contains(timer_set_by(calls[k])) <==> (calls[j]->now >= calls[k]->deadline
            && !drained_by(calls, k + 1, j, calls[k]->deadline))) by {
        lemma_pending_along(ws, calls, outs, k, j);
        lemma_history_invariant(ws, calls, outs, j);
        lemma_sorted_parts(ws[j].spec_pending());
        assert(history_step(ws, calls, outs, j));
        let e = timer_set_by(calls[k]);
        let s = ws[j].spec_pending();
        lemma_first_later(s, calls[j]->now, 0);
        assert(outs[j] == s.take(first_later(s, calls[j]->now, 0)));
        if s.contains(e) {
            lemma_timer_fires_once(s, e, calls[j]->now);
        } else {
            if outs[j].contains(e) {
                let q = choose|q: int| 0 <= q < outs[j].len() && outs[j][q] == e;
                assert(outs[j][q] == s[q]);
            }
        }
    }
}

/// A timer set by call `k` is still pending before call `j` exactly when no drain between
/// them reached its deadline.
proof fn lemma_pending_along(
    ws: Seq<TimerWheel>,
    calls: Seq<TimerCall>,
    outs: Seq<Seq<TimerEntry>>,
    k: int,
    j: int,
)
    requires
        ws.len() == calls.len() + 1,
        outs.len() == calls.len(),
        ws[0].spec_pending().len() == 0,
        ws[0].spec_next_id() == 1,
        forall|i: int| 0 <= i < calls.len() ==> #[trigger] history_step(ws, calls, outs, i),
        calls.len() < u64::MAX - 1,
        0 <= k < j <= calls.len(),
        calls[k] is Schedule,
    ensures
        ws[j].spec_pending().contains(timer_set_by(calls[k])) <==> !drained_by(
            calls,
            k + 1,
            j,
            calls[k]->deadline,
        ),
    decreases j - k,
{
    let e = timer_set_by(calls[k]);
    let d = calls[k]->deadline;
    assert(history_step(ws, calls, outs, j - 1));
    assert(history_step(ws, calls, outs, k));
    assert(e == TimerEntry { timer_id: calls[k]->id, deadline_tick: d });
    if j == k + 1 {
        lemma_scheduled_timers(ws[k].spec_pending(), e);
        assert(ws[j].spec_pending() == scheduled(ws[k].spec_pending(), e));
        assert(!drained_by(calls, k + 1, j, d));
    } else {
        lemma_pending_along(ws, calls, outs, k, j - 1);
        lemma_history_invariant(ws, calls, outs, j - 1);
        lemma_sorted_parts(ws[j - 1].spec_pending());
        let s = ws[j - 1].spec_pending();
        assert(drained_by(calls, k + 1, j, d) <==> (drained_by(calls, k + 1, j - 1, d) || drain_reaches(calls[j - 1], d))) by {
            if drained_by(calls, k + 1, j, d) {
                let m = choose|m: int|
                    k + 1 <= m < j && #[trigger] drain_reaches(calls[m], d);
                if m < j - 1 {
                    assert(drained_by(calls, k + 1, j - 1, d));
                }
            }
            if drained_by(calls, k + 1, j - 1, d) {
                let m = choose|m: int|
                    k + 1 <= m < j - 1 && #[trigger] drain_reaches(calls[m], d);
                assert(k + 1 <= m < j);
            }
        }
        match calls[j - 1] {
            TimerCall::Schedule { deadline, id } => {
                lemma_scheduled_timers(s, TimerEntry { timer_id: id, deadline_tick: deadline });
                assert(!drain_reaches(calls[j - 1], d));
                lemma_history_invariant(ws, calls, outs, k);
                lemma_schedules_bound(calls.take(k));
                lemma_next_id_grows(ws, calls, outs, k + 1, j - 1);
                assert(id == ws[j - 1].spec_next_id());
                assert(calls[k]->id == ws[k].spec_next_id());
                assert(ws[k + 1].spec_next_id() == ws[k].spec_next_id() + 1);
                assert(e != TimerEntry { timer_id: id, deadline_tick: deadline });
            },
            TimerCall::Drain { now } => {
                if s.contains(e) {
                    lemma_timer_fires_once(s, e, now);
                } else {
                    if ws[j].spec_pending().contains(e) {
                        lemma_first_later(s, now, 0);
                        let m = first_later(s, now, 0);
                        let q = choose|q: int| 0 <= q < s.skip(m).len() && s.skip(m)[q] == e;
                        assert(s[q + m] == e);
                    }
                }
            },
        }
    }
}

/// Ids only grow along a history.
proof fn lemma_next_id_grows(
    ws: Seq<TimerWheel>,
    calls: Seq<TimerCall>,
    outs: Seq<Seq<TimerEntry>>,
    a: int,
    b: int,
)
    requires
        ws.len() == calls.len() + 1,
        outs.len() == calls.len(),
        ws[0].spec_pending().len() == 0,
        ws[0].spec_next_id() == 1,
        forall|i: int| 0 <= i < calls.len() ==> #[trigger] history_step(ws, calls, outs, i),
        calls.len() < u64::MAX - 1,
        0 <= a <= b <= calls.len(),
    ensures
        ws[a].spec_next_id() <= ws[b].spec_next_id(),
    decreases b - a,
{
    if a < b {
        lemma_next_id_grows(ws, calls, outs, a, b - 1);
        lemma_history_invariant(ws, calls, outs, b - 1);
        lemma_schedules_bound(calls.take(b - 1));
        assert(history_step(ws, calls, outs, b - 1));
    }
}

impl Default for TimerWheel {
    fn default() -> (r: Self)
        ensures
            r.spec_pending() == Seq::<TimerEntry>::empty(),
            r.spec_next_id() == 1,
    {
        TimerWheel::new()
    }
}

} // verus!
