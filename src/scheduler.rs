//! The task table: one owner of all running tasks, which allocates handles,
//! marks tasks cancelled and, tick by tick, decides every actuator write.
use vstd::prelude::*;
use crate::pattern::sample_at;
use crate::task::{Task, TkDuration};

verus! {

/// The handle reported where no task could be started.
pub const ERROR_HANDLE: i32 = -1;

/// A task in the table.
#[derive(Debug, Clone)]
pub struct ScheduledTask {
    pub handle: i32,
    /// The identifiers of the actuators it writes to, resolved at submission.
    pub targets: Vec<String>,
    pub task: Task,
    pub duration: TkDuration,
    /// The time of its first tick, in milliseconds, once it has had one.
    pub started: Option<u64>,
    pub cancelled: bool,
}

/// One intensity to send to one actuator.
#[derive(Debug, Clone)]
pub struct ActuatorWrite {
    pub actuator: String,
    pub value: u16,
}

/// A task that left the table, and whether it was cancelled rather than
/// completed.
#[derive(Debug, Clone, Copy, PartialEq, Eq, Structural)]
pub struct TaskEnd {
    pub handle: i32,
    pub cancelled: bool,
}

/// What one tick decided.
#[derive(Debug, Clone)]
pub struct TickOutput {
    pub writes: Vec<ActuatorWrite>,
    pub ended: Vec<TaskEnd>,
}

/// Why a request was not started.
#[derive(Debug, Clone, Copy, PartialEq, Eq, Structural)]
pub enum SchedulerError {
    /// Every handle has been issued.
    HandlesExhausted,
}

/// When the task started: its first tick, or `now` if this is its first.
pub open spec fn start_of(t: ScheduledTask, now: u64) -> u64 {
    match t.started {
        Some(s) => s,
        None => now,
    }
}

/// How long the task has run at `now`, in milliseconds.
pub open spec fn elapsed(t: ScheduledTask, now: u64) -> int {
    let s = start_of(t, now);
    if now >= s {
        now - s
    } else {
        0
    }
}

/// The task ends at this tick: it was cancelled, or its time is up.
pub open spec fn finishes(t: ScheduledTask, now: u64) -> bool {
    t.cancelled || match t.duration {
        TkDuration::Timed(d) => elapsed(t, now) >= d,
        TkDuration::Infinite => false,
    }
}

/// The intensity the task writes at this tick: zero when it ends, else its
/// constant speed or its pattern at the elapsed time.
pub open spec fn level(t: ScheduledTask, now: u64) -> int {
    if finishes(t, now) {
        0
    } else {
        match t.task {
            Task::Constant(s) => s.value as int,
            Task::Pattern(p) => sample_at(p@, elapsed(t, now)),
        }
    }
}

/// The writes of one task at this tick, one per target, in order.
pub open spec fn task_writes(t: ScheduledTask, now: u64) -> Seq<(Seq<char>, u16)> {
    Seq::new(t.targets@.len(), |i: int| (t.targets@[i]@, level(t, now) as u16))
}

/// The writes of all tasks at this tick, task after task.
pub open spec fn writes_of(ts: Seq<ScheduledTask>, now: u64) -> Seq<(Seq<char>, u16)>
    decreases ts.len(),
{
    if ts.len() == 0 {
        Seq::empty()
    } else {
        writes_of(ts.drop_last(), now) + task_writes(ts.last(), now)
    }
}

/// The task after a tick that it survives: its start is recorded.
pub open spec fn advanced(t: ScheduledTask, now: u64) -> ScheduledTask {
    ScheduledTask { started: Some(start_of(t, now)), ..t }
}

/// The tasks that survive the tick, in order.
pub open spec fn survivors(ts: Seq<ScheduledTask>, now: u64) -> Seq<ScheduledTask>
    decreases ts.len(),
{
    if ts.len() == 0 {
        Seq::empty()
    } else {
        let r = survivors(ts.drop_last(), now);
        if finishes(ts.last(), now) {
            r
        } else {
            r.push(advanced(ts.last(), now))
        }
    }
}

/// The tasks that end at the tick, in order.
pub open spec fn ends_of(ts: Seq<ScheduledTask>, now: u64) -> Seq<TaskEnd>
    decreases ts.len(),
{
    if ts.len() == 0 {
        Seq::empty()
    } else {
        let r = ends_of(ts.drop_last(), now);
        if finishes(ts.last(), now) {
            r.push(TaskEnd { handle: ts.last().handle, cancelled: ts.last().cancelled })
        } else {
            r
        }
    }
}

/// The task marked cancelled.
pub open spec fn cancelled(t: ScheduledTask) -> ScheduledTask {
    ScheduledTask { cancelled: true, ..t }
}

/// What the writes say: each actuator with its intensity.
pub open spec fn write_view(ws: Seq<ActuatorWrite>) -> Seq<(Seq<char>, u16)> {
    ws.map_values(|w: ActuatorWrite| (w.actuator@, w.value))
}

/// A handle of the table.
pub open spec fn issued(ts: Seq<ScheduledTask>, handle: i32) -> bool {
    exists|i: int| 0 <= i < ts.len() && #[trigger] ts[i].handle == handle
}

/// A table in order of submission: handles below `next` and rising, every
/// task usable.
pub open spec fn table_ok(ts: Seq<ScheduledTask>, next: int) -> bool {
    &&& forall|i: int| 0 <= i < ts.len() ==> 0 <= #[trigger] ts[i].handle < next
    &&& forall|i: int, j: int| 0 <= i < j < ts.len() ==> #[trigger] ts[i].handle < #[trigger] ts[j].handle
    &&& forall|i: int| 0 <= i < ts.len() ==> #[trigger] ts[i].task.wf()
}

/// The table of running tasks and the next handle to issue.
pub struct Scheduler {
    next_handle: i32,
    tasks: Vec<ScheduledTask>,
}

impl Scheduler {
    /// The running tasks, in order of submission.
    pub closed spec fn pending(&self) -> Seq<ScheduledTask> {
        self.tasks@
    }

    /// The handle that the next submission gets.
    pub closed spec fn next(&self) -> int {
        self.next_handle as int
    }

    /// Handles are unique and rising, and every task is usable.
    pub open spec fn wf(&self) -> bool {
        0 <= self.next() <= i32::MAX && table_ok(self.pending(), self.next())
    }

    /// An empty table.
    pub fn new() -> (r: Scheduler)
        ensures
            r.wf(),
            r.pending().len() == 0,
            r.next() == 0,
    {
        Scheduler { next_handle: 0, tasks: Vec::new() }
    }

    /// The number of running tasks.
    pub fn active_count(&self) -> (r: usize)
        ensures
            r == self.pending().len(),
    {
        self.tasks.len()
    }

    /// Starts `task` on `targets` for `duration` and returns its handle, a new
    /// one; fails only once every handle has been issued.
    pub fn submit(&mut self, targets: Vec<String>, task: Task, duration: TkDuration) -> (r: Result<
        i32,
        SchedulerError,
    >)
        requires
            old(self).wf(),
            task.wf(),
        ensures
            final(self).wf(),
            old(self).next() < i32::MAX ==> {
                &&& r == Ok::<i32, SchedulerError>(old(self).next() as i32)
                &&& final(self).next() == old(self).next() + 1
                &&& final(self).pending() == old(self).pending().push(
                    ScheduledTask {
                        handle: old(self).next() as i32,
                        targets,
                        task,
                        duration,
                        started: None,
                        cancelled: false,
                    },
                )
            },
            old(self).next() >= i32::MAX ==> r == Err::<i32, SchedulerError>(
                SchedulerError::HandlesExhausted,
            ) && final(self).pending() == old(self).pending() && final(self).next() == old(
                self,
            ).next(),
    {
        if self.next_handle == i32::MAX {
            return Err(SchedulerError::HandlesExhausted);
        }
        let handle = self.next_handle;
        self.tasks.push(
            ScheduledTask { handle, targets, task, duration, started: None, cancelled: false },
        );
        self.next_handle = handle + 1;
        Ok(handle)
    }

    /// Marks the task with `handle` cancelled; it stops at the next tick.
    /// Returns whether such a task is running. Nothing changes otherwise, and
    /// cancelling twice is harmless.
    pub fn cancel(&mut self, handle: i32) -> (r: bool)
        requires
            old(self).wf(),
        ensures
            final(self).wf(),
            r == issued(old(self).pending(), handle),
            final(self).next() == old(self).next(),
            final(self).pending().len() == old(self).pending().len(),
            forall|i: int|
                0 <= i < old(self).pending().len() ==> #[trigger] final(self).pending()[i] == if old(
                    self,
                ).pending()[i].handle == handle {
                    cancelled(old(self).pending()[i])
                } else {
                    old(self).pending()[i]
                },
            !r ==> final(self).pending() == old(self).pending(),
    {
        let mut i: usize = 0;
        while i < self.tasks.len()
            invariant
                i <= self.tasks@.len(),
                self.tasks@ == old(self).tasks@,
                self.next_handle == old(self).next_handle,
                old(self).wf(),
                forall|j: int| 0 <= j < i ==> #[trigger] self.tasks@[j].handle != handle,
            decreases self.tasks@.len() - i,
        {
            if self.tasks[i].handle == handle {
                let ghost before = self.tasks@;
                let mut t = self.tasks.remove(i);
                t.cancelled = true;
                self.tasks.insert(i, t);
                proof {
                    assert(self.tasks@ =~= before.update(i as int, cancelled(before[i as int])));
                    assert forall|j: int| 0 <= j < before.len() && j != i implies before[j].handle
                        != handle by {
                        if j < i {
                        } else {
                            assert(before[i as int].handle < before[j].handle);
                        }
                    }
                }
                return true;
            }
            i = i + 1;
        }
        false
    }

    /// Marks every running task cancelled and returns how many there are.
    pub fn cancel_all(&mut self) -> (r: usize)
        requires
            old(self).wf(),
        ensures
            final(self).wf(),
            r == old(self).pending().len(),
            final(self).next() == old(self).next(),
            final(self).pending() == old(self).pending().map_values(
                |t: ScheduledTask| cancelled(t),
            ),
    {
        let ghost before = self.tasks@;
        let mut i: usize = 0;
        while i < self.tasks.len()
            invariant
                self.tasks@.len() == before.len(),
                i <= before.len(),
                self.next_handle == old(self).next_handle,
                before == old(self).tasks@,
                old(self).wf(),
                forall|j: int| 0 <= j < i ==> #[trigger] self.tasks@[j] == cancelled(before[j]),
                forall|j: int| i <= j < before.len() ==> #[trigger] self.tasks@[j] == before[j],
            decreases before.len() - i,
        {
            let ghost cur = self.tasks@;
            let mut t = self.tasks.remove(i);
            t.cancelled = true;
            self.tasks.insert(i, t);
            assert(self.tasks@ =~= cur.update(i as int, cancelled(cur[i as int])));
            i = i + 1;
        }
        assert(self.tasks@ =~= before.map_values(|t: ScheduledTask| cancelled(t)));
        self.tasks.len()
    }

    /// Runs one tick at time `now` (milliseconds). A task that was cancelled
    /// or whose time is up writes zero to each of its targets and leaves the
    /// table; every other task writes its current intensity to each target and
    /// stays. Writes come task after task, in order of submission.
    pub fn tick(&mut self, now: u64) -> (r: TickOutput)
        requires
            old(self).wf(),
        ensures
            final(self).wf(),
            final(self).next() == old(self).next(),
            final(self).pending() == survivors(old(self).pending(), now),
            write_view(r.writes@) == writes_of(old(self).pending(), now),
            r.ended@ == ends_of(old(self).pending(), now),
    {
        let mut pending: Vec<ScheduledTask> = Vec::new();
        std::mem::swap(&mut self.tasks, &mut pending);
        let ghost all = pending@;
        let total = pending.len();
        let ghost n = total as int;
        let mut writes: Vec<ActuatorWrite> = Vec::new();
        let mut ended: Vec<TaskEnd> = Vec::new();
        let mut i: usize = 0;
        while pending.len() > 0
            invariant
                n == all.len(),
                n == total,
                all == old(self).tasks@,
                table_ok(all, old(self).next()),
                0 <= old(self).next(),
                self.next_handle == old(self).next_handle,
                i <= n,
                pending@ == all.subrange(i as int, n),
                self.tasks@ == survivors(all.subrange(0, i as int), now),
                table_ok(self.tasks@, old(self).next()),
                forall|k: int, m: int|
                    0 <= k < self.tasks@.len() && i <= m < n ==> #[trigger] self.tasks@[k].handle
                        < #[trigger] all[m].handle,
                write_view(writes@) == writes_of(all.subrange(0, i as int), now),
                ended@ == ends_of(all.subrange(0, i as int), now),
            decreases pending@.len(),
        {
            let mut t = pending.remove(0);
            assert(t == all[i as int]);
            let ghost t0 = t;
            assert(all[i as int].task.wf());
            let ghost pre = all.subrange(0, i as int);
            assert(all.subrange(0, i as int + 1).drop_last() =~= pre);
            assert(all.subrange(0, i as int + 1).last() == t0);
            let start: u64 = match t.started {
                Some(s) => s,
                None => now,
            };
            let el: u64 = if now >= start {
                now - start
            } else {
                0
            };
            let finished = t.cancelled || match t.duration {
                TkDuration::Timed(d) => el >= d,
                TkDuration::Infinite => false,
            };
            assert(finished == finishes(t0, now));
            let value: u16 = if finished {
                0
            } else {
                match &t.task {
                    Task::Constant(s) => s.value,
                    Task::Pattern(p) => p.sample(el),
                }
            };
            assert(value == level(t0, now));
            let ghost base = writes@;
            let mut j: usize = 0;
            while j < t.targets.len()
                invariant
                    j <= t.targets@.len(),
                    t == t0,
                    value == level(t0, now),
                    writes@.len() == base.len() + j,
                    write_view(writes@) == write_view(base) + task_writes(t0, now).subrange(
                        0,
                        j as int,
                    ),
                decreases t.targets@.len() - j,
            {
                let w = ActuatorWrite { actuator: t.targets[j].clone(), value };
                let ghost prev = writes@;
                writes.push(w);
                assert(write_view(writes@) =~= write_view(prev).push((t0.targets@[j as int]@, value)));
                assert(task_writes(t0, now).subrange(0, j as int + 1) =~= task_writes(
                    t0,
                    now,
                ).subrange(0, j as int).push((t0.targets@[j as int]@, value)));
                assert(write_view(writes@) =~= write_view(base) + task_writes(t0, now).subrange(
                    0,
                    j as int + 1,
                ));
                j = j + 1;
            }
            assert(task_writes(t0, now).subrange(0, j as int) =~= task_writes(t0, now));
            if finished {
                ended.push(TaskEnd { handle: t.handle, cancelled: t.cancelled });
            } else {
                t.started = Some(start);
                assert(t == advanced(t0, now));
                let ghost before = self.tasks@;
                self.tasks.push(t);
                proof {
                    assert forall|a: int, b: int| 0 <= a < b < self.tasks@.len() implies #[trigger] self.tasks@[a].handle
                        < #[trigger] self.tasks@[b].handle by {
                        if b == before.len() {
                            assert(before[a].handle < all[i as int].handle);
                        } else {
                            assert(before[a].handle < before[b].handle);
                        }
                    }
                    assert forall|k: int| 0 <= k < self.tasks@.len() implies #[trigger] self.tasks@[k].task.wf() by {
                        if k == before.len() {
                            assert(all[i as int].task.wf());
                        } else {
                            assert(before[k].task.wf());
                        }
                    }
                    assert forall|k: int| 0 <= k < self.tasks@.len() implies 0 <= #[trigger] self.tasks@[k].handle < old(self).next() by {
                        if k == before.len() {
                            assert(0 <= all[i as int].handle < old(self).next());
                        } else {
                            assert(0 <= before[k].handle < old(self).next());
                        }
                    }
                    assert forall|k: int, m: int|
                        0 <= k < self.tasks@.len() && i + 1 <= m < n implies #[trigger] self.tasks@[k].handle
                            < #[trigger] all[m].handle by {
                        if k == before.len() {
                            assert(all[i as int].handle < all[m].handle);
                        } else {
                            assert(before[k].handle < all[m].handle);
                        }
                    }
                }
            }
            assert(pending@ =~= all.subrange(i as int + 1, n));
            i = i + 1;
        }
        assert(all.subrange(0, n) =~= all);
        TickOutput { writes, ended }
    }
}


/// The stop writes of a table: zero to each target of each task, task after
/// task.
pub open spec fn zero_writes(ts: Seq<ScheduledTask>) -> Seq<(Seq<char>, u16)>
    decreases ts.len(),
{
    if ts.len() == 0 {
        Seq::empty()
    } else {
        zero_writes(ts.drop_last()) + Seq::new(
            ts.last().targets@.len(),
            |j: int| (ts.last().targets@[j]@, 0u16),
        )
    }
}

/// After every task is cancelled, one tick ends all of them, in order, as
/// cancelled; leaves none running; and writes zero exactly once to each
/// target of each task, and nothing else.
pub proof fn lemma_cancel_all_then_tick(ts: Seq<ScheduledTask>, now: u64)
    ensures
        survivors(ts.map_values(|t: ScheduledTask| cancelled(t)), now).len() == 0,
        ends_of(ts.map_values(|t: ScheduledTask| cancelled(t)), now) == ts.map_values(
            |t: ScheduledTask| TaskEnd { handle: t.handle, cancelled: true },
        ),
        writes_of(ts.map_values(|t: ScheduledTask| cancelled(t)), now) == zero_writes(ts),
    decreases ts.len(),
{
    let c = ts.map_values(|t: ScheduledTask| cancelled(t));
    if ts.len() > 0 {
        let pre = ts.drop_last();
        lemma_cancel_all_then_tick(pre, now);
        assert(c.drop_last() =~= pre.map_values(|t: ScheduledTask| cancelled(t)));
        assert(c.last() == cancelled(ts.last()));
        assert(finishes(c.last(), now));
        assert(task_writes(c.last(), now) =~= Seq::new(
            ts.last().targets@.len(),
            |j: int| (ts.last().targets@[j]@, 0u16),
        ));
        assert(ends_of(c, now) =~= ts.map_values(
            |t: ScheduledTask| TaskEnd { handle: t.handle, cancelled: true },
        ));
    } else {
        assert(ends_of(c, now) =~= ts.map_values(
            |t: ScheduledTask| TaskEnd { handle: t.handle, cancelled: true },
        ));
    }
}

/// Every task that survives or ends at a tick has a handle below `bound`
/// when every task of the table has.
proof fn lemma_tick_handles_below(ts: Seq<ScheduledTask>, now: u64, bound: int)
    requires
        forall|i: int| 0 <= i < ts.len() ==> #[trigger] ts[i].handle < bound,
    ensures
        forall|k: int|
            0 <= k < survivors(ts, now).len() ==> #[trigger] survivors(ts, now)[k].handle < bound,
        forall|k: int|
            0 <= k < ends_of(ts, now).len() ==> #[trigger] ends_of(ts, now)[k].handle < bound,
    decreases ts.len(),
{
    if ts.len() > 0 {
        let pre = ts.drop_last();
        assert forall|i: int| 0 <= i < pre.len() implies #[trigger] pre[i].handle < bound by {
            assert(pre[i] == ts[i]);
        }
        lemma_tick_handles_below(pre, now, bound);
        assert(ts.last().handle < bound);
        let e = ends_of(ts, now);
        let ep = ends_of(pre, now);
        assert forall|k: int| 0 <= k < e.len() implies #[trigger] e[k].handle < bound by {
            if k < ep.len() {
                assert(e[k] == ep[k]);
            }
        }
    }
}

/// A timed task that is still in the table after a tick at `now` has run for
/// less than its duration, so its last write comes no later than the first
/// tick at or after its start plus its duration; and a task that ended at the
/// tick is gone from the table, so nothing is written for it afterwards.
pub proof fn lemma_timed_tasks_end_on_time(ts: Seq<ScheduledTask>, next: int, now: u64)
    requires
        table_ok(ts, next),
    ensures
        forall|k: int|
            0 <= k < survivors(ts, now).len() ==> {
                let t = #[trigger] survivors(ts, now)[k];
                &&& t.started is Some
                &&& !t.cancelled
                &&& t.duration matches TkDuration::Timed(d) ==> now < t.started->0 + d
            },
        forall|k: int|
            0 <= k < ends_of(ts, now).len() ==> !issued(
                survivors(ts, now),
                #[trigger] ends_of(ts, now)[k].handle,
            ),
    decreases ts.len(),
{
    if ts.len() > 0 {
        let pre = ts.drop_last();
        let last = ts.last();
        assert(table_ok(pre, next)) by {
            assert forall|i: int, j: int| 0 <= i < j < pre.len() implies #[trigger] pre[i].handle
                < #[trigger] pre[j].handle by {
                assert(ts[i].handle < ts[j].handle);
            }
            assert forall|i: int| 0 <= i < pre.len() implies 0 <= #[trigger] pre[i].handle
                < next by {
                assert(pre[i] == ts[i]);
            }
            assert forall|i: int| 0 <= i < pre.len() implies #[trigger] pre[i].task.wf() by {
                assert(pre[i] == ts[i]);
            }
        }
        lemma_timed_tasks_end_on_time(pre, next, now);
        assert forall|i: int| 0 <= i < pre.len() implies #[trigger] pre[i].handle < last.handle by {
            assert(ts[i].handle < ts[ts.len() - 1].handle);
        }
        lemma_tick_handles_below(pre, now, last.handle as int);
        let sp = survivors(pre, now);
        let ep = ends_of(pre, now);
        if finishes(last, now) {
            let e = ends_of(ts, now);
            assert forall|k: int| 0 <= k < e.len() implies !issued(
                survivors(ts, now),
                #[trigger] e[k].handle,
            ) by {
                if k < ep.len() {
                    assert(e[k] == ep[k]);
                } else {
                    if issued(sp, last.handle) {
                        let m = choose|m: int| 0 <= m < sp.len() && #[trigger] sp[m].handle
                            == last.handle;
                        assert(sp[m].handle < last.handle);
                    }
                }
            }
        } else {
            let s = survivors(ts, now);
            assert(s == sp.push(advanced(last, now)));
            assert forall|k: int| 0 <= k < ep.len() implies !issued(
                s,
                #[trigger] ep[k].handle,
            ) by {
                if issued(s, ep[k].handle) {
                    let m = choose|m: int| 0 <= m < s.len() && #[trigger] s[m].handle
                        == ep[k].handle;
                    if m < sp.len() {
                        assert(sp[m].handle == ep[k].handle);
                    } else {
                        assert(ep[k].handle < last.handle);
                    }
                }
            }
            assert forall|k: int|
                0 <= k < s.len() implies {
                let t = #[trigger] s[k];
                &&& t.started is Some
                &&& !t.cancelled
                &&& t.duration matches TkDuration::Timed(d) ==> now < t.started->0 + d
            } by {
                if k < sp.len() {
                    assert(s[k] == sp[k]);
                }
            }
        }
    }
}


/// The writes of two tables one after the other are the writes of each.
proof fn lemma_writes_concat(a: Seq<ScheduledTask>, b: Seq<ScheduledTask>, now: u64)
    ensures
        writes_of(a + b, now) == writes_of(a, now) + writes_of(b, now),
        ends_of(a + b, now) == ends_of(a, now) + ends_of(b, now),
    decreases b.len(),
{
    if b.len() == 0 {
        assert(a + b =~= a);
        assert(writes_of(a, now) + writes_of(b, now) =~= writes_of(a, now));
        assert(ends_of(a, now) + ends_of(b, now) =~= ends_of(a, now));
    } else {
        assert((a + b).drop_last() =~= a + b.drop_last());
        assert((a + b).last() == b.last());
        lemma_writes_concat(a, b.drop_last(), now);
        assert(writes_of(a + b, now) =~= writes_of(a, now) + writes_of(b, now));
        assert(ends_of(a + b, now) =~= ends_of(a, now) + ends_of(b, now));
    }
}

/// Cancelling one running task and ticking writes zero exactly once to each
/// of its targets, in place of its own writes and with the other tasks'
/// writes unchanged around them; reports it as cancelled; and takes it out of
/// the table.
pub proof fn lemma_cancel_then_tick(ts: Seq<ScheduledTask>, next: int, k: int, now: u64)
    requires
        table_ok(ts, next),
        0 <= k < ts.len(),
    ensures
        writes_of(ts.update(k, cancelled(ts[k])), now) == writes_of(ts.take(k), now) + Seq::new(
            ts[k].targets@.len(),
            |j: int| (ts[k].targets@[j]@, 0u16),
        ) + writes_of(ts.skip(k + 1), now),
        ends_of(ts.update(k, cancelled(ts[k])), now).contains(
            TaskEnd { handle: ts[k].handle, cancelled: true },
        ),
        !issued(survivors(ts.update(k, cancelled(ts[k])), now), ts[k].handle),
{
    let c = ts.update(k, cancelled(ts[k]));
    let one = seq![c[k]];
    assert(c =~= ts.take(k) + one + ts.skip(k + 1));
    lemma_writes_concat(ts.take(k) + one, ts.skip(k + 1), now);
    lemma_writes_concat(ts.take(k), one, now);
    assert(one.drop_last() =~= Seq::<ScheduledTask>::empty());
    assert(finishes(c[k], now));
    assert(task_writes(c[k], now) =~= Seq::new(
        ts[k].targets@.len(),
        |j: int| (ts[k].targets@[j]@, 0u16),
    ));
    assert(one.last() == c[k]);
    assert(writes_of(one.drop_last(), now) =~= Seq::<(Seq<char>, u16)>::empty());
    assert(ends_of(one.drop_last(), now) =~= Seq::<TaskEnd>::empty());
    assert(writes_of(one, now) =~= task_writes(c[k], now));
    assert(ends_of(one, now) =~= seq![TaskEnd { handle: ts[k].handle, cancelled: true }]);
    let e = ends_of(c, now);
    let pre = ends_of(ts.take(k), now);
    assert(e[pre.len() as int] == TaskEnd { handle: ts[k].handle, cancelled: true });
    assert(table_ok(c, next)) by {
        assert forall|i: int| 0 <= i < c.len() implies 0 <= #[trigger] c[i].handle < next by {
            assert(c[i].handle == ts[i].handle);
        }
        assert forall|i: int, j: int| 0 <= i < j < c.len() implies #[trigger] c[i].handle
            < #[trigger] c[j].handle by {
            assert(c[i].handle == ts[i].handle && c[j].handle == ts[j].handle);
        }
        assert forall|i: int| 0 <= i < c.len() implies #[trigger] c[i].task.wf() by {
            assert(c[i].task == ts[i].task);
        }
    }
    lemma_timed_tasks_end_on_time(c, next, now);
    assert(!issued(survivors(c, now), e[pre.len() as int].handle));
}

} // verus!
