//! Task control blocks and the cooperative round-robin task manager.
//!
//! The manager owns a fixed arena of task slots; task identity is the slot
//! index.  Control leaves a task only voluntarily, so every operation here
//! runs between two context switches with exclusive access to the shared
//! state.  The raw switch itself is out-of-scope assembly: operations that
//! would switch return the pair of slot indices whose kernel contexts the
//! switch must swap, and the caller at the trap edge performs it.

use vstd::prelude::*;

use vstd::arithmetic::div_mod::{lemma_mod_bound, lemma_mod_multiples_vanish, lemma_small_mod};
use vstd::pervasive::unreached;

use crate::config::{MAX_APP_NUM, MAX_SYSCALL_NUM};
use crate::context::TaskContext;
use crate::sync::UPSafeCell;

verus! {

/// Scheduling state of one task slot.  `UnInit` exists only before manager
/// initialization; `Exited` is terminal.
#[derive(Copy, Clone, PartialEq, Eq, Structural, Debug)]
pub enum TaskStatus {
    UnInit,
    Ready,
    Running,
    Exited,
}

/// Per-task scheduling record: status, saved kernel context, the tick at
/// which the task first became `Running` (`0` meaning "not yet"), and one
/// invocation counter per recognized syscall identifier.
#[derive(Copy, Clone, Debug)]
pub struct TaskControlBlock {
    pub status: TaskStatus,
    pub cx: TaskContext,
    pub first_scheduled_at: usize,
    pub syscall_times: [u32; MAX_SYSCALL_NUM],
}

/// The shared scheduler state: the fixed arena of task slots and the index
/// of the task currently holding the processor.
#[derive(Copy, Clone)]
pub struct TaskManagerInner {
    pub tasks: [TaskControlBlock; MAX_APP_NUM],
    pub current_task: usize,
}

/// The scheduler: the task count fixed at boot and the shared state behind
/// the single-core exclusive cell.
pub struct TaskManager {
    pub app_cnt: usize,
    pub inner: UPSafeCell<TaskManagerInner>,
}

/// First-scheduled timestamp after one scheduling step: recorded only if
/// still unset (`0` is the "never scheduled" sentinel).
pub open spec fn record_first(first_scheduled_at: usize, now: usize) -> usize {
    if first_scheduled_at == 0 {
        now
    } else {
        first_scheduled_at
    }
}

/// `tasks` with the status of slot `i` replaced by `st`.
pub open spec fn with_status(tasks: Seq<TaskControlBlock>, i: int, st: TaskStatus) -> Seq<
    TaskControlBlock,
> {
    tasks.update(i, TaskControlBlock { status: st, ..tasks[i] })
}

/// `tasks` after slot `to` is scheduled at tick `now`: it becomes
/// `Running` and its first-scheduled timestamp is recorded if unset.
pub open spec fn scheduled(tasks: Seq<TaskControlBlock>, to: int, now: usize) -> Seq<
    TaskControlBlock,
> {
    tasks.update(
        to,
        TaskControlBlock {
            status: TaskStatus::Running,
            first_scheduled_at: record_first(tasks[to].first_scheduled_at, now),
            ..tasks[to]
        },
    )
}

/// The counter table of `post` is that of `pre` with slot `call_id` one
/// higher; every other field of the block is unchanged.
pub open spec fn logged_once(
    pre: TaskControlBlock,
    post: TaskControlBlock,
    call_id: int,
) -> bool {
    &&& post.status == pre.status
    &&& post.cx == pre.cx
    &&& post.first_scheduled_at == pre.first_scheduled_at
    &&& post.syscall_times@ == pre.syscall_times@.update(
        call_id,
        (pre.syscall_times@[call_id] + 1) as u32,
    )
}

/// `post` is `pre` with exactly the syscall counter `call_id` of slot
/// `cur` one higher.
pub open spec fn rel_logged(
    pre: Seq<TaskControlBlock>,
    post: Seq<TaskControlBlock>,
    cur: int,
    call_id: int,
) -> bool {
    &&& post.len() == pre.len()
    &&& (forall|j: int| 0 <= j < pre.len() && j != cur ==> post[j] == pre[j])
    &&& logged_once(pre[cur], post[cur], call_id)
}

/// Round-robin scan, candidates `k`, `k+1`, ..., `n` after position
/// `cur`: index of the first `Ready` task among `(cur + k) % n`, ...,
/// `(cur + n) % n`, if any.
pub open spec fn next_ready_from(
    tasks: Seq<TaskControlBlock>,
    cur: int,
    n: int,
    k: int,
) -> Option<int>
    decreases n + 1 - k,
{
    if k > n || n <= 0 {
        None
    } else if tasks[(cur + k) % n].status == TaskStatus::Ready {
        Some((cur + k) % n)
    } else {
        next_ready_from(tasks, cur, n, k + 1)
    }
}

/// The round-robin policy: index of the first `Ready` task in the strict
/// forward cyclic order `cur + 1`, `cur + 2`, ..., `cur + n` (mod `n`).
pub open spec fn next_ready(tasks: Seq<TaskControlBlock>, cur: int, n: int) -> Option<int> {
    next_ready_from(tasks, cur, n, 1)
}

/// A selected index is always a task slot in range whose status is
/// `Ready`.
pub proof fn lemma_next_ready_from_in_range(
    tasks: Seq<TaskControlBlock>,
    cur: int,
    n: int,
    k: int,
)
    requires
        0 < n,
        1 <= k,
    ensures
        (match next_ready_from(tasks, cur, n, k) {
            Some(i) => 0 <= i < n && tasks[i].status == TaskStatus::Ready,
            None => true,
        }),
    decreases n + 1 - k,
{
    if k <= n {
        lemma_mod_bound(cur + k, n);
        if tasks[(cur + k) % n].status != TaskStatus::Ready {
            lemma_next_ready_from_in_range(tasks, cur, n, k + 1);
        }
    }
}

/// When the scan from candidate `k` fails, no candidate `k2` at or after
/// `k` was `Ready`.
pub proof fn lemma_next_ready_from_none(
    tasks: Seq<TaskControlBlock>,
    cur: int,
    n: int,
    k: int,
    k2: int,
)
    requires
        0 < n,
        1 <= k <= k2 <= n,
        next_ready_from(tasks, cur, n, k) is None,
    ensures
        tasks[(cur + k2) % n].status != TaskStatus::Ready,
    decreases k2 - k,
{
    if k < k2 {
        lemma_next_ready_from_none(tasks, cur, n, k + 1, k2);
    }
}

/// The full scan visits every slot: when it fails, no task at all is
/// `Ready`.
pub proof fn lemma_next_ready_none_no_ready(
    tasks: Seq<TaskControlBlock>,
    cur: int,
    n: int,
    i: int,
)
    requires
        0 <= cur < n,
        0 <= i < n,
        next_ready(tasks, cur, n) is None,
    ensures
        tasks[i].status != TaskStatus::Ready,
{
    let k2 = if i > cur {
        i - cur
    } else {
        i + n - cur
    };
    assert(1 <= k2 <= n);
    if i > cur {
        lemma_small_mod(i as nat, n as nat);
    } else {
        lemma_mod_multiples_vanish(1, i, n);
        lemma_small_mod(i as nat, n as nat);
    }
    assert((cur + k2) % n == i);
    lemma_next_ready_from_none(tasks, cur, n, 1, k2);
}

/// The scan reads nothing but statuses: on two slot sequences with equal
/// statuses it selects the same candidate.
pub proof fn lemma_next_ready_statuses_only(
    t1: Seq<TaskControlBlock>,
    t2: Seq<TaskControlBlock>,
    cur: int,
    n: int,
    k: int,
)
    requires
        forall|i: int| 0 <= i < n ==> t1[i].status == t2[i].status,
    ensures
        next_ready_from(t1, cur, n, k) == next_ready_from(t2, cur, n, k),
    decreases n + 1 - k,
{
    if k <= n && n > 0 {
        lemma_mod_bound(cur + k, n);
        lemma_next_ready_statuses_only(t1, t2, cur, n, k + 1);
    }
}

/// Law: no resurrection.  A task whose status is `Exited` is never
/// selected by the round-robin scan, whatever the scan position.
pub proof fn lemma_no_resurrection(tasks: Seq<TaskControlBlock>, cur: int, n: int, i: int)
    requires
        0 < n,
        tasks[i].status == TaskStatus::Exited,
    ensures
        next_ready(tasks, cur, n) != Some(i),
{
    lemma_next_ready_from_in_range(tasks, cur, n, 1);
}

/// Law: idempotent first scheduling.  Once the timestamp has been
/// recorded at a tick `t1` other than the sentinel, recording again at
/// any later scheduling leaves the original value in place.
pub proof fn lemma_record_first_idempotent(t1: usize, t2: usize)
    requires
        t1 != 0,
    ensures
        record_first(record_first(0, t1), t2) == t1,
{
}

/// Law: running time counts from the first scheduling.  Rescheduling a
/// task whose first-scheduled tick is already recorded never changes that
/// tick, so the running time observed at `now_obs` is still measured from
/// the original first scheduling, not from the latest resume.
pub proof fn lemma_running_time_since_first_schedule(
    tasks: Seq<TaskControlBlock>,
    i: int,
    now_resched: usize,
    now_obs: usize,
)
    requires
        0 <= i < tasks.len(),
        tasks[i].first_scheduled_at != 0,
        tasks[i].first_scheduled_at <= now_obs,
    ensures
        scheduled(tasks, i, now_resched)[i].first_scheduled_at == tasks[i].first_scheduled_at,
        now_obs - scheduled(tasks, i, now_resched)[i].first_scheduled_at == now_obs
            - tasks[i].first_scheduled_at,
{
}

/// Well-formedness survives any mutation that moves no initialized slot
/// back to `UnInit`.
proof fn lemma_wf_statuses(pre: TaskManager, post: TaskManager)
    requires
        pre.wf(),
        post.app_cnt == pre.app_cnt,
        0 <= post.current() < post.app_cnt,
        forall|i: int|
            0 <= i < post.app_cnt ==> #[trigger] post.status(i) == pre.status(i) || post.status(i)
                != TaskStatus::UnInit,
    ensures
        post.wf(),
{
}

impl TaskManager {
    /// The slot sequence of the shared state.
    pub open spec fn tasks(self) -> Seq<TaskControlBlock> {
        self.inner@.tasks@
    }

    /// Index of the task currently holding the processor.
    pub open spec fn current(self) -> int {
        self.inner@.current_task as int
    }

    /// Status of slot `i`.
    pub open spec fn status(self, i: int) -> TaskStatus {
        self.tasks()[i].status
    }

    /// Well-formedness: the task count fits the arena, the current index
    /// is a real task, and no initialized slot is still `UnInit`.
    pub open spec fn wf(self) -> bool {
        &&& 0 < self.app_cnt <= MAX_APP_NUM
        &&& 0 <= self.current() < self.app_cnt
        &&& forall|i: int| 0 <= i < self.app_cnt ==> self.status(i) != TaskStatus::UnInit
    }

    /// Slot `i` is a task and is `Running`, and no other task is.
    pub open spec fn only_running(self, i: int) -> bool {
        &&& 0 <= i < self.app_cnt
        &&& self.status(i) == TaskStatus::Running
        &&& forall|j: int|
            0 <= j < self.app_cnt && j != i ==> self.status(j) != TaskStatus::Running
    }

    /// Exactly one task is `Running`.
    pub open spec fn exactly_one_running(self) -> bool {
        exists|i: int| self.only_running(i)
    }

    /// The steady-state invariant between switches: the current task is
    /// the unique `Running` one.
    pub open spec fn current_running(self) -> bool {
        self.only_running(self.current())
    }

    /// Round-robin selection: index of the first `Ready` task in strict
    /// forward order after the current one, wrapping modulo the task
    /// count, or nothing when no task is `Ready` any more.
    #[verifier::loop_isolation(false)]
    pub fn find_next_task_index(&mut self) -> (r: Option<usize>)
        requires
            old(self).wf(),
        ensures
            final(self).app_cnt == old(self).app_cnt,
            final(self).tasks() == old(self).tasks(),
            final(self).current() == old(self).current(),
            (match r {
                Some(i) => next_ready(
                    old(self).tasks(),
                    old(self).current(),
                    old(self).app_cnt as int,
                ) == Some(i as int),
                None => next_ready(
                    old(self).tasks(),
                    old(self).current(),
                    old(self).app_cnt as int,
                ) is None,
            }),
    {
        let n = self.app_cnt;
        let inner = self.inner.as_mut();
        let current = inner.current_task;
        let ghost tasks0 = inner.tasks@;
        let ghost cur0 = current as int;
        let ghost n0 = n as int;
        let mut k: usize = 1;
        while k <= n
            invariant
                1 <= k <= n + 1,
                next_ready(tasks0, cur0, n0) == next_ready_from(tasks0, cur0, n0, k as int),
            decreases n + 1 - k,
        {
            let id = (current + k) % n;
            if inner.tasks[id].status == TaskStatus::Ready {
                return Some(id);
            }
            k = k + 1;
        }
        None
    }

    /// Voluntary suspend: the current task steps back from `Running` to
    /// `Ready`, staying a candidate for rescheduling.
    pub fn mark_current_suspend(&mut self)
        requires
            old(self).wf(),
            old(self).status(old(self).current()) == TaskStatus::Running,
        ensures
            final(self).wf(),
            final(self).app_cnt == old(self).app_cnt,
            final(self).current() == old(self).current(),
            final(self).tasks() == with_status(
                old(self).tasks(),
                old(self).current(),
                TaskStatus::Ready,
            ),
    {
        let inner = self.inner.as_mut();
        let current = inner.current_task;
        let mut t = inner.tasks[current];
        t.status = TaskStatus::Ready;
        inner.tasks[current] = t;
        proof {
            lemma_wf_statuses(*old(self), *self);
        }
    }

    /// Voluntary exit: the current task steps from `Running` into the
    /// terminal `Exited` state.
    pub fn mark_current_exit(&mut self)
        requires
            old(self).wf(),
            old(self).status(old(self).current()) == TaskStatus::Running,
        ensures
            final(self).wf(),
            final(self).app_cnt == old(self).app_cnt,
            final(self).current() == old(self).current(),
            final(self).tasks() == with_status(
                old(self).tasks(),
                old(self).current(),
                TaskStatus::Exited,
            ),
    {
        let inner = self.inner.as_mut();
        let current = inner.current_task;
        let mut t = inner.tasks[current];
        t.status = TaskStatus::Exited;
        inner.tasks[current] = t;
        proof {
            lemma_wf_statuses(*old(self), *self);
        }
    }

    /// Accounts one invocation of syscall `call_id` to the current task;
    /// no other counter, task or field is touched.
    pub fn log_sys_call(&mut self, call_id: usize)
        requires
            old(self).wf(),
            call_id < MAX_SYSCALL_NUM,
            old(self).tasks()[old(self).current()].syscall_times@[call_id as int] < u32::MAX,
        ensures
            final(self).wf(),
            final(self).app_cnt == old(self).app_cnt,
            final(self).current() == old(self).current(),
            rel_logged(old(self).tasks(), final(self).tasks(), old(self).current(), call_id as int),
    {
        let inner = self.inner.as_mut();
        let current = inner.current_task;
        let mut t = inner.tasks[current];
        let c = t.syscall_times[call_id];
        t.syscall_times[call_id] = c + 1;
        inner.tasks[current] = t;
        proof {
            lemma_wf_statuses(*old(self), *self);
        }
    }

    /// Snapshot copy of the current task's syscall counter table.
    #[verifier::loop_isolation(false)]
    pub fn get_task_syscall_times(&mut self) -> (r: Vec<u32>)
        requires
            old(self).wf(),
        ensures
            final(self).app_cnt == old(self).app_cnt,
            final(self).tasks() == old(self).tasks(),
            final(self).current() == old(self).current(),
            r@ == old(self).tasks()[old(self).current()].syscall_times@,
    {
        let inner = self.inner.as_mut();
        let current = inner.current_task;
        let times = inner.tasks[current].syscall_times;
        let mut v: Vec<u32> = Vec::new();
        let mut i: usize = 0;
        while i < MAX_SYSCALL_NUM
            invariant
                i <= MAX_SYSCALL_NUM,
                v@ == times@.subrange(0, i as int),
            decreases MAX_SYSCALL_NUM - i,
        {
            v.push(times[i]);
            i = i + 1;
        }
        proof {
            assert(v@ =~= times@);
        }
        v
    }

    /// Ticks the current task has existed for: the clock reading `now`
    /// minus the tick of its first scheduling (wall-clock since first
    /// scheduling, not accumulated run time).
    pub fn get_task_running_time(&mut self, now: usize) -> (r: usize)
        requires
            old(self).wf(),
            old(self).tasks()[old(self).current()].first_scheduled_at <= now,
        ensures
            final(self).app_cnt == old(self).app_cnt,
            final(self).tasks() == old(self).tasks(),
            final(self).current() == old(self).current(),
            r == now - old(self).tasks()[old(self).current()].first_scheduled_at,
    {
        let inner = self.inner.as_mut();
        let current = inner.current_task;
        now - inner.tasks[current].first_scheduled_at
    }

    /// Bootstrap: marks task `0` `Running` and records its first-scheduled
    /// tick, the state from which the very first switch (out of a zeroed
    /// throwaway context, performed by the caller at the trap edge) enters
    /// task `0`.  From here on exactly one task is running.
    pub fn run_first_task(&mut self, now: usize)
        requires
            old(self).wf(),
            old(self).current() == 0,
            forall|i: int|
                0 <= i < old(self).app_cnt ==> old(self).status(i) != TaskStatus::Running,
        ensures
            final(self).wf(),
            final(self).app_cnt == old(self).app_cnt,
            final(self).current() == 0,
            final(self).tasks() == old(self).tasks().update(
                0,
                (TaskControlBlock {
                    status: TaskStatus::Running,
                    first_scheduled_at: now,
                    ..old(self).tasks()[0]
                }),
            ),
            final(self).current_running(),
            final(self).exactly_one_running(),
    {
        let inner = self.inner.as_mut();
        let mut t = inner.tasks[0];
        t.status = TaskStatus::Running;
        t.first_scheduled_at = now;
        inner.tasks[0] = t;
        proof {
            lemma_wf_statuses(*old(self), *self);
            assert forall|j: int|
                0 <= j < self.app_cnt && j != 0 implies self.status(j)
                != TaskStatus::Running by {
                assert(self.tasks()[j] == old(self).tasks()[j]);
                assert(old(self).status(j) != TaskStatus::Running);
            }
            assert(self.only_running(0));
        }
    }

    /// One scheduling step: selects the round-robin successor of the
    /// current task, marks it `Running`, records its first-scheduled tick
    /// if unset and makes it current, returning the pair (previous task,
    /// next task) whose kernel contexts the switch at the trap edge must
    /// swap.  Returns nothing when no task is `Ready` any more — for the
    /// caller a fatal condition, since there is no idle task.
    pub fn run_next_task(&mut self, now: usize) -> (r: Option<(usize, usize)>)
        requires
            old(self).wf(),
        ensures
            final(self).wf(),
            final(self).app_cnt == old(self).app_cnt,
            (match r {
                Some((from, to)) => {
                    &&& from == old(self).current()
                    &&& next_ready(old(self).tasks(), old(self).current(), old(self).app_cnt as int)
                        == Some(to as int)
                    &&& final(self).current() == to
                    &&& final(self).tasks() == scheduled(old(self).tasks(), to as int, now)
                },
                None => {
                    &&& next_ready(old(self).tasks(), old(self).current(), old(self).app_cnt as int)
                        is None
                    &&& final(self).current() == old(self).current()
                    &&& final(self).tasks() == old(self).tasks()
                },
            }),
            (match r {
                Some((from, to)) => (forall|i: int|
                    0 <= i < old(self).app_cnt ==> old(self).status(i) != TaskStatus::Running)
                    ==> final(self).current_running() && final(self).exactly_one_running(),
                None => true,
            }),
    {
        let next_opt = self.find_next_task_index();
        match next_opt {
            Some(next) => {
                proof {
                    lemma_next_ready_from_in_range(
                        old(self).tasks(),
                        old(self).current(),
                        old(self).app_cnt as int,
                        1,
                    );
                }
                let inner = self.inner.as_mut();
                let current = inner.current_task;
                let mut t = inner.tasks[next];
                t.status = TaskStatus::Running;
                if t.first_scheduled_at == 0 {
                    t.first_scheduled_at = now;
                }
                inner.tasks[next] = t;
                inner.current_task = next;
                proof {
                    lemma_wf_statuses(*old(self), *self);
                    if forall|i: int|
                        0 <= i < old(self).app_cnt ==> old(self).status(i)
                            != TaskStatus::Running {
                        assert forall|j: int|
                            0 <= j < self.app_cnt && j != next implies self.status(j)
                            != TaskStatus::Running by {
                            assert(self.tasks()[j] == old(self).tasks()[j]);
                            assert(old(self).status(j) != TaskStatus::Running);
                        }
                        assert(self.only_running(next as int));
                    }
                }
                Some((current, next))
            },
            None => {
                proof {
                    lemma_wf_statuses(*old(self), *self);
                }
                None
            },
        }
    }
}

/// Builds the task manager from the loader's data: `app_contexts[i]` is
/// the kernel stack address prepared for task `i` (where its privilege
/// context lies), `restore_entry` the privilege-restore trampoline that
/// every task's first scheduling "returns" into.  Every loaded slot starts
/// `Ready` with zeroed accounting; the remaining slots stay `UnInit`.
#[verifier::loop_isolation(false)]
pub fn init_task_manager(restore_entry: usize, app_contexts: &Vec<usize>) -> (r: TaskManager)
    requires
        1 <= app_contexts@.len() <= MAX_APP_NUM,
    ensures
        r.wf(),
        r.app_cnt == app_contexts@.len(),
        r.current() == 0,
        forall|i: int|
            0 <= i < app_contexts@.len() ==> #[trigger] r.tasks()[i].status == TaskStatus::Ready,
        forall|i: int|
            0 <= i < app_contexts@.len() ==> #[trigger] r.tasks()[i].cx.ra == restore_entry,
        forall|i: int|
            0 <= i < app_contexts@.len() ==> #[trigger] r.tasks()[i].cx.sp == app_contexts@[i],
        forall|i: int|
            app_contexts@.len() <= i < MAX_APP_NUM ==> #[trigger] r.tasks()[i].status
                == TaskStatus::UnInit,
        forall|i: int|
            0 <= i < MAX_APP_NUM ==> #[trigger] r.tasks()[i].first_scheduled_at == 0,
        forall|i: int, c: int|
            0 <= i < MAX_APP_NUM && 0 <= c < MAX_SYSCALL_NUM ==> r.tasks()[i].syscall_times@[c]
                == 0,
        forall|i: int|
            0 <= i < app_contexts@.len() ==> #[trigger] r.tasks()[i].status != TaskStatus::Running,
{
    let app_cnt = app_contexts.len();
    let zero_block = TaskControlBlock {
        status: TaskStatus::UnInit,
        cx: TaskContext::new_zero(),
        first_scheduled_at: 0,
        syscall_times: [0; MAX_SYSCALL_NUM],
    };
    let mut tasks = [zero_block; MAX_APP_NUM];
    let mut index: usize = 0;
    while index < app_cnt
        invariant
            index <= app_cnt,
            forall|i: int| 0 <= i < index ==> #[trigger] tasks@[i].status == TaskStatus::Ready,
            forall|i: int| 0 <= i < index ==> #[trigger] tasks@[i].cx.ra == restore_entry,
            forall|i: int| 0 <= i < index ==> #[trigger] tasks@[i].cx.sp == app_contexts@[i],
            forall|i: int| index <= i < MAX_APP_NUM ==> tasks@[i] == zero_block,
            forall|i: int|
                0 <= i < MAX_APP_NUM ==> #[trigger] tasks@[i].first_scheduled_at == 0,
            forall|i: int, c: int|
                0 <= i < MAX_APP_NUM && 0 <= c < MAX_SYSCALL_NUM ==> tasks@[i].syscall_times@[c]
                    == 0,
        decreases app_cnt - index,
    {
        let mut t = tasks[index];
        t.cx = TaskContext::goto_restore(restore_entry, app_contexts[index]);
        t.status = TaskStatus::Ready;
        tasks[index] = t;
        index = index + 1;
    }
    TaskManager {
        app_cnt,
        inner: UPSafeCell::new(TaskManagerInner { tasks, current_task: 0 }),
    }
}

/// Bootstrap entry: hands the processor to task `0`.  The switch that the
/// trap edge then performs never returns to its caller; control re-enters
/// kernel scheduling code only through a later syscall.
pub fn run_first_task(tm: &mut TaskManager, now: usize)
    requires
        old(tm).wf(),
        old(tm).current() == 0,
        forall|i: int| 0 <= i < old(tm).app_cnt ==> old(tm).status(i) != TaskStatus::Running,
    ensures
        final(tm).wf(),
        final(tm).app_cnt == old(tm).app_cnt,
        final(tm).current() == 0,
        final(tm).tasks() == old(tm).tasks().update(
            0,
            (TaskControlBlock {
                status: TaskStatus::Running,
                first_scheduled_at: now,
                ..old(tm).tasks()[0]
            }),
        ),
        final(tm).current_running(),
        final(tm).exactly_one_running(),
{
    tm.run_first_task(now);
}

/// Voluntary yield: suspends the current task and schedules its
/// round-robin successor.  Because the suspended task itself becomes
/// `Ready` again, a successor always exists; the returned pair is the
/// switch the trap edge must perform.
pub fn suspend_current_and_run_next(tm: &mut TaskManager, now: usize) -> (r: (usize, usize))
    requires
        old(tm).wf(),
        old(tm).current_running(),
    ensures
        final(tm).wf(),
        final(tm).current_running(),
        final(tm).exactly_one_running(),
        final(tm).app_cnt == old(tm).app_cnt,
        r.0 == old(tm).current(),
        ({
            let marked = with_status(old(tm).tasks(), old(tm).current(), TaskStatus::Ready);
            &&& next_ready(marked, old(tm).current(), old(tm).app_cnt as int) == Some(r.1 as int)
            &&& final(tm).current() == r.1
            &&& final(tm).tasks() == scheduled(marked, r.1 as int, now)
        }),
{
    tm.mark_current_suspend();
    proof {
        assert forall|i: int|
            0 <= i < tm.app_cnt implies tm.status(i) != TaskStatus::Running by {
            if i != old(tm).current() {
                assert(tm.tasks()[i] == old(tm).tasks()[i]);
                assert(old(tm).status(i) != TaskStatus::Running);
            }
        }
    }
    let r = tm.run_next_task(now);
    match r {
        Some((from, to)) => (from, to),
        None => {
            proof {
                let marked = with_status(old(tm).tasks(), old(tm).current(), TaskStatus::Ready);
                lemma_next_ready_none_no_ready(
                    marked,
                    old(tm).current(),
                    old(tm).app_cnt as int,
                    old(tm).current(),
                );
                assert(false);
            }
            unreached()
        },
    }
}

/// Voluntary exit: retires the current task for good and schedules its
/// round-robin successor.  When none is `Ready` any more, every task has
/// exited and nothing is returned — for the caller the fatal "all
/// applications completed" condition, since there is no idle task.
pub fn exit_current_and_run_next(tm: &mut TaskManager, now: usize) -> (r: Option<(usize, usize)>)
    requires
        old(tm).wf(),
        old(tm).current_running(),
    ensures
        final(tm).wf(),
        final(tm).app_cnt == old(tm).app_cnt,
        ({
            let marked = with_status(old(tm).tasks(), old(tm).current(), TaskStatus::Exited);
            match r {
                Some((from, to)) => {
                    &&& from == old(tm).current()
                    &&& next_ready(marked, old(tm).current(), old(tm).app_cnt as int) == Some(
                        to as int,
                    )
                    &&& final(tm).current() == to
                    &&& final(tm).tasks() == scheduled(marked, to as int, now)
                    &&& final(tm).current_running()
                    &&& final(tm).exactly_one_running()
                },
                None => {
                    &&& next_ready(marked, old(tm).current(), old(tm).app_cnt as int) is None
                    &&& final(tm).current() == old(tm).current()
                    &&& final(tm).tasks() == marked
                    &&& forall|i: int|
                        0 <= i < final(tm).app_cnt ==> final(tm).status(i) == TaskStatus::Exited
                },
            }
        }),
{
    tm.mark_current_exit();
    proof {
        assert forall|i: int|
            0 <= i < tm.app_cnt implies tm.status(i) != TaskStatus::Running by {
            if i != old(tm).current() {
                assert(tm.tasks()[i] == old(tm).tasks()[i]);
                assert(old(tm).status(i) != TaskStatus::Running);
            }
        }
    }
    let r = tm.run_next_task(now);
    proof {
        if r is None {
            let marked = with_status(old(tm).tasks(), old(tm).current(), TaskStatus::Exited);
            assert forall|i: int|
                0 <= i < tm.app_cnt implies tm.status(i) == TaskStatus::Exited by {
                lemma_next_ready_none_no_ready(
                    marked,
                    old(tm).current(),
                    old(tm).app_cnt as int,
                    i,
                );
                if i != old(tm).current() {
                    assert(tm.tasks()[i] == old(tm).tasks()[i]);
                    assert(old(tm).status(i) != TaskStatus::Running);
                    assert(old(tm).status(i) != TaskStatus::UnInit);
                }
            }
        }
    }
    r
}

} // verus!
