//! A monotonic timer service: payloads scheduled at millisecond deadlines,
//! handed out in deadline order, ties broken by task id.
use vstd::prelude::*;

verus! {

/// One scheduled payload.
pub struct TimerEntry<T> {
    pub task_id: u64,
    pub execute_at: u64,
    pub value: T,
}

/// The firing order: by deadline, then by task id.
pub open spec fn fires_before<T>(a: TimerEntry<T>, b: TimerEntry<T>) -> bool {
    a.execute_at < b.execute_at || (a.execute_at == b.execute_at && a.task_id < b.task_id)
}

/// The entries stand in strict firing order.
pub open spec fn in_firing_order<T>(s: Seq<TimerEntry<T>>) -> bool {
    forall|i: int, j: int| 0 <= i < j < s.len() ==> fires_before(#[trigger] s[i], #[trigger] s[j])
}

/// No two entries share a task id.
pub open spec fn ids_distinct<T>(s: Seq<TimerEntry<T>>) -> bool {
    forall|i: int, j: int|
        0 <= i < s.len() && 0 <= j < s.len() && i != j ==> #[trigger] s[i].task_id
            != #[trigger] s[j].task_id
}

/// Some entry carries the task id `id`.
pub open spec fn has_id<T>(s: Seq<TimerEntry<T>>, id: u64) -> bool {
    exists|i: int| 0 <= i < s.len() && #[trigger] s[i].task_id == id
}

/// What `timeout_at` leaves: the entries before, with the new one placed in firing order.
pub open spec fn schedule_post<T>(
    before: Seq<TimerEntry<T>>,
    after: Seq<TimerEntry<T>>,
    id: u64,
    execute_at: u64,
    value: T,
) -> bool {
    exists|p: int|
        0 <= p <= before.len() && after == before.insert(
            p,
            TimerEntry { task_id: id, execute_at, value },
        )
}

/// What `cancel` does: the entry of `id` leaves and its payload comes back; without one, nothing changes.
pub open spec fn cancel_post<T>(
    before: Seq<TimerEntry<T>>,
    after: Seq<TimerEntry<T>>,
    id: u64,
    r: Option<T>,
) -> bool {
    match r {
        Some(v) => exists|i: int|
            0 <= i < before.len() && before[i].task_id == id && v == before[i].value && after
                == before.remove(i),
        None => !has_id(before, id) && after == before,
    }
}

/// What `poll` does: the first `out.len()` entries are due and are handed out in order,
/// every other entry is not due and stays.
pub open spec fn poll_post<T>(
    before: Seq<TimerEntry<T>>,
    after: Seq<TimerEntry<T>>,
    now: u64,
    out: Seq<T>,
) -> bool {
    &&& out.len() <= before.len()
    &&& forall|i: int| 0 <= i < out.len() ==> before[i].execute_at <= now && #[trigger] out[i] == before[i].value
    &&& forall|i: int| out.len() <= i < before.len() ==> #[trigger] before[i].execute_at > now
    &&& after == before.skip(out.len() as int)
}

/// Schedules payloads of type `T` and hands them out once their deadline has passed.
pub struct Timer<T> {
    tasks: Vec<TimerEntry<T>>,
    last_task_id: u64,
}

impl<T> Timer<T> {
    /// The live entries, in firing order.
    pub closed spec fn entries(&self) -> Seq<TimerEntry<T>> {
        self.tasks@
    }

    /// The task id that the next scheduled payload receives.
    pub closed spec fn next_id(&self) -> u64 {
        self.last_task_id
    }

    pub open spec fn wf(&self) -> bool {
        &&& in_firing_order(self.entries())
        &&& ids_distinct(self.entries())
        &&& forall|i: int|
            0 <= i < self.entries().len() ==> #[trigger] self.entries()[i].task_id < self.next_id()
        &&& self.next_id() >= 1
    }

    /// An empty timer; the first task id is 1.
    pub fn new() -> (r: Self)
        ensures
            r.wf(),
            r.entries() == Seq::<TimerEntry<T>>::empty(),
            r.next_id() == 1,
    {
        Timer { tasks: Vec::new(), last_task_id: 1 }
    }

    /// The number of live entries.
    pub fn len(&self) -> (r: usize)
        ensures
            r == self.entries().len(),
    {
        self.tasks.len()
    }

    /// The task id that the next scheduled payload receives.
    pub fn last_task_id(&self) -> (r: u64)
        ensures
            r == self.next_id(),
    {
        self.last_task_id
    }

    /// Schedules `value` at `now + duration`.
    pub fn timeout(&mut self, now: u64, duration: u64, value: T) -> (r: u64)
        requires
            old(self).wf(),
            old(self).next_id() < u64::MAX,
            now + duration <= u64::MAX,
        ensures
            final(self).wf(),
            r == old(self).next_id(),
            final(self).next_id() == r + 1,
            !has_id(old(self).entries(), r),
            schedule_post(old(self).entries(), final(self).entries(), r, (now + duration) as u64, value),
    {
        self.timeout_at(now + duration, value)
    }

    /// Schedules `value` at the deadline `execute_at` and returns its task id.
    pub fn timeout_at(&mut self, execute_at: u64, value: T) -> (r: u64)
        requires
            old(self).wf(),
            old(self).next_id() < u64::MAX,
        ensures
            final(self).wf(),
            r == old(self).next_id(),
            final(self).next_id() == r + 1,
            !has_id(old(self).entries(), r),
            schedule_post(old(self).entries(), final(self).entries(), r, execute_at, value),
    {
        let task_id = self.last_task_id;
        let mut p: usize = 0;
        while p < self.tasks.len()
            invariant
                p <= self.tasks@.len(),
                self.tasks@ == old(self).tasks@,
                self.last_task_id == old(self).last_task_id,
                forall|j: int| 0 <= j < p ==> #[trigger] self.tasks@[j].execute_at <= execute_at,
            ensures
                p < self.tasks@.len() ==> self.tasks@[p as int].execute_at > execute_at,
            decreases self.tasks@.len() - p,
        {
            if self.tasks[p].execute_at > execute_at {
                break;
            }
            p = p + 1;
        }
        let ghost before = self.tasks@;
        let entry = TimerEntry { task_id, execute_at, value };
        self.tasks.insert(p, entry);
        self.last_task_id = task_id + 1;
        proof {
            let after = self.tasks@;
            assert(after == before.insert(p as int, entry));
            assert forall|i: int, j: int| 0 <= i < j < after.len() implies fires_before(
                #[trigger] after[i],
                #[trigger] after[j],
            ) by {
                if j < p {
                } else if j == p {
                    assert(before[i].task_id < task_id);
                } else if i < p {
                    assert(before[i].execute_at <= execute_at);
                    assert(before[j - 1].execute_at > execute_at) by {
                        if p < before.len() {
                            assert(fires_before(before[p as int], before[j - 1]) || j - 1 == p);
                        }
                    }
                } else if i == p {
                    assert(before[j - 1].execute_at > execute_at) by {
                        if j - 1 > p {
                            assert(fires_before(before[p as int], before[j - 1]));
                        }
                    }
                } else {
                    assert(fires_before(before[i - 1], before[j - 1]));
                }
            }
            assert forall|i: int, j: int|
                0 <= i < after.len() && 0 <= j < after.len() && i != j implies #[trigger] after[i].task_id
                != #[trigger] after[j].task_id by {
                if i != p && j != p {
                    let bi = if i < p { i } else { i - 1 };
                    let bj = if j < p { j } else { j - 1 };
                    assert(before[bi].task_id != before[bj].task_id);
                } else if i == p {
                    let bj = if j < p { j } else { j - 1 };
                    assert(before[bj].task_id < task_id);
                } else {
                    let bi = if i < p { i } else { i - 1 };
                    assert(before[bi].task_id < task_id);
                }
            }
            assert forall|i: int| 0 <= i < after.len() implies #[trigger] after[i].task_id
                < self.last_task_id by {
                if i < p {
                    assert(before[i].task_id < task_id);
                } else if i > p {
                    assert(before[i - 1].task_id < task_id);
                }
            }
            assert(!has_id(before, task_id)) by {
                if has_id(before, task_id) {
                    let i = choose|i: int| 0 <= i < before.len() && #[trigger] before[i].task_id == task_id;
                    assert(before[i].task_id < task_id);
                }
            }
        }
        task_id
    }

    /// Takes the entry of `task_id` out and returns its payload; `None` where no
    /// live entry has that id (never scheduled, already cancelled or already fired).
    pub fn cancel(&mut self, task_id: u64) -> (r: Option<T>)
        requires
            old(self).wf(),
        ensures
            final(self).wf(),
            final(self).next_id() == old(self).next_id(),
            cancel_post(old(self).entries(), final(self).entries(), task_id, r),
    {
        let mut i: usize = 0;
        while i < self.tasks.len()
            invariant
                i <= self.tasks@.len(),
                self.tasks@ == old(self).tasks@,
                self.last_task_id == old(self).last_task_id,
                self.wf(),
                forall|j: int| 0 <= j < i ==> #[trigger] self.tasks@[j].task_id != task_id,
            decreases self.tasks@.len() - i,
        {
            if self.tasks[i].task_id == task_id {
                let ghost before = self.tasks@;
                let entry = self.tasks.remove(i);
                proof {
                    let after = self.tasks@;
                    assert(after == before.remove(i as int));
                    assert forall|a: int, b: int| 0 <= a < b < after.len() implies fires_before(
                        #[trigger] after[a],
                        #[trigger] after[b],
                    ) by {
                        let ba = if a < i { a } else { a + 1 };
                        let bb = if b < i { b } else { b + 1 };
                        assert(fires_before(before[ba], before[bb]));
                    }
                    assert forall|a: int, b: int|
                        0 <= a < after.len() && 0 <= b < after.len() && a != b implies #[trigger] after[a].task_id
                        != #[trigger] after[b].task_id by {
                        let ba = if a < i { a } else { a + 1 };
                        let bb = if b < i { b } else { b + 1 };
                        assert(before[ba].task_id != before[bb].task_id);
                    }
                    assert forall|a: int| 0 <= a < after.len() implies #[trigger] after[a].task_id
                        < self.last_task_id by {
                        let ba = if a < i { a } else { a + 1 };
                        assert(before[ba].task_id < self.last_task_id);
                    }
                }
                return Some(entry.value);
            }
            i = i + 1;
        }
        None
    }

    /// Takes out every entry whose deadline is at or before `now` and returns
    /// their payloads in firing order.
    pub fn poll(&mut self, now: u64) -> (r: Vec<T>)
        requires
            old(self).wf(),
        ensures
            final(self).wf(),
            final(self).next_id() == old(self).next_id(),
            poll_post(old(self).entries(), final(self).entries(), now, r@),
    {
        let ghost before = self.tasks@;
        let mut k: usize = 0;
        while k < self.tasks.len()
            invariant
                self.tasks@ == before,
                before == old(self).tasks@,
                self.last_task_id == old(self).last_task_id,
                old(self).wf(),
                k <= before.len(),
                forall|j: int| 0 <= j < k ==> #[trigger] before[j].execute_at <= now,
            ensures
                k < before.len() ==> before[k as int].execute_at > now,
            decreases before.len() - k,
        {
            if self.tasks[k].execute_at > now {
                break;
            }
            k = k + 1;
        }
        proof {
            assert forall|j: int| k <= j < before.len() implies #[trigger] before[j].execute_at > now by {
                if j > k {
                    assert(fires_before(before[k as int], before[j]));
                }
            }
        }
        let rest = self.tasks.split_off(k);
        let mut due = self.tasks.split_off(0);
        self.tasks = rest;
        let mut result: Vec<T> = Vec::new();
        let ghost due0 = due@;
        while due.len() > 0
            invariant
                due0 == before.take(k as int),
                self.tasks@ == before.skip(k as int),
                self.last_task_id == old(self).last_task_id,
                due@ == due0.skip(result@.len() as int),
                result@.len() <= due0.len(),
                forall|j: int| 0 <= j < result@.len() ==> #[trigger] result@[j] == due0[j].value,
            decreases due@.len(),
        {
            let ghost n: int = result@.len() as int;
            let entry = due.remove(0);
            result.push(entry.value);
            proof {
                assert(due@ == due0.skip(n + 1));
            }
        }
        proof {
            let after = self.tasks@;
            assert(after == before.skip(k as int));
            assert(result@.len() == k);
            assert forall|a: int, b: int| 0 <= a < b < after.len() implies fires_before(
                #[trigger] after[a],
                #[trigger] after[b],
            ) by {
                assert(fires_before(before[a + k], before[b + k]));
            }
            assert forall|a: int, b: int|
                0 <= a < after.len() && 0 <= b < after.len() && a != b implies #[trigger] after[a].task_id
                != #[trigger] after[b].task_id by {
                assert(before[a + k].task_id != before[b + k].task_id);
            }
            assert forall|a: int| 0 <= a < after.len() implies #[trigger] after[a].task_id
                < self.last_task_id by {
                assert(before[a + k].task_id < self.last_task_id);
            }
        }
        result
    }
}

/// Polling at `now` hands out exactly the live entries whose deadline is at or
/// before `now`: an entry is handed out if and only if it is due.
pub proof fn lemma_poll_hands_out_exactly_due<T>(
    before: Seq<TimerEntry<T>>,
    after: Seq<TimerEntry<T>>,
    now: u64,
    out: Seq<T>,
)
    requires
        poll_post(before, after, now, out),
    ensures
        forall|i: int| 0 <= i < before.len() ==> (i < out.len() <==> #[trigger] before[i].execute_at <= now),
        forall|i: int| 0 <= i < after.len() ==> #[trigger] after[i].execute_at > now,
{
    assert forall|i: int| 0 <= i < before.len() implies (i < out.len()
        <==> #[trigger] before[i].execute_at <= now) by {
        if i < out.len() {
            assert(out[i] == before[i].value);
        }
    }
    assert forall|i: int| 0 <= i < after.len() implies #[trigger] after[i].execute_at > now by {
        assert(after[i] == before[i + out.len()]);
    }
}

/// A payload scheduled at `execute_at` is handed out by a poll at any `now >= execute_at`,
/// and is no longer live afterwards.
pub proof fn lemma_scheduled_fires<T>(
    t0: Seq<TimerEntry<T>>,
    t1: Seq<TimerEntry<T>>,
    id: u64,
    execute_at: u64,
    value: T,
    t2: Seq<TimerEntry<T>>,
    now: u64,
    out: Seq<T>,
)
    requires
        ids_distinct(t1),
        schedule_post(t0, t1, id, execute_at, value),
        poll_post(t1, t2, now, out),
        execute_at <= now,
    ensures
        exists|j: int| 0 <= j < out.len() && t1[j].task_id == id && #[trigger] out[j] == value,
        !has_id(t2, id),
{
    let p = choose|p: int|
        0 <= p <= t0.len() && t1 == t0.insert(p, TimerEntry { task_id: id, execute_at, value });
    assert(t1[p].task_id == id && t1[p].execute_at == execute_at);
    if p >= out.len() {
        assert(t1[p].execute_at > now);
    }
    assert(out[p] == value);
    if has_id(t2, id) {
        let i = choose|i: int| 0 <= i < t2.len() && #[trigger] t2[i].task_id == id;
        assert(t2[i] == t1[i + out.len()]);
    }
}

/// A payload taken out by `cancel` is never handed out by a later poll: what is
/// cancelled and what fires are disjoint.
pub proof fn lemma_cancelled_never_fires<T>(
    t0: Seq<TimerEntry<T>>,
    t1: Seq<TimerEntry<T>>,
    id: u64,
    value: T,
    t2: Seq<TimerEntry<T>>,
    now: u64,
    out: Seq<T>,
)
    requires
        ids_distinct(t0),
        cancel_post(t0, t1, id, Some(value)),
        poll_post(t1, t2, now, out),
    ensures
        !has_id(t1, id),
        forall|j: int| 0 <= j < out.len() ==> #[trigger] t1[j].task_id != id,
        !has_id(t2, id),
{
    let i = choose|i: int|
        0 <= i < t0.len() && t0[i].task_id == id && value == t0[i].value && t1 == t0.remove(i);
    assert forall|j: int| 0 <= j < t1.len() implies #[trigger] t1[j].task_id != id by {
        let bj = if j < i { j } else { j + 1 };
        assert(t0[bj].task_id != t0[i].task_id);
    }
    if has_id(t2, id) {
        let k = choose|k: int| 0 <= k < t2.len() && #[trigger] t2[k].task_id == id;
        assert(t2[k] == t1[k + out.len()]);
    }
}

} // verus!
