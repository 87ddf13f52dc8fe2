//! Syscall bridge: the scheduler-facing part of each process syscall.
//!
//! The raw entry points live at the trap edge, outside this crate: they
//! read the clock, validate any caller-supplied output destination, and
//! perform the context switch.  The functions here take the values that
//! edge supplies (the manager, the current tick, the syscall arguments)
//! and return the values it must deliver: the syscall result and, where
//! the processor is handed on, the switch to perform.

use vstd::prelude::*;

use crate::config::{
    MAX_SYSCALL_NUM, SYSCALL_EXIT, SYSCALL_GET_TIME, SYSCALL_TASK_INFO, SYSCALL_YIELD,
};
use crate::task::{
    exit_current_and_run_next, lemma_next_ready_from_in_range, lemma_next_ready_statuses_only,
    next_ready, record_first, rel_logged, scheduled, suspend_current_and_run_next, with_status,
    TaskManager, TaskStatus,
};

verus! {

/// Wall-clock time decomposed into whole seconds and the microsecond
/// remainder, the output shape of the get-time syscall.
#[derive(Copy, Clone, PartialEq, Eq, Structural, Debug)]
pub struct TimeVal {
    pub sec: usize,
    pub usec: usize,
}

/// Output shape of the task-info syscall: the reported status, the full
/// syscall counter table, and the running time of the calling task.
#[derive(Copy, Clone, Debug)]
pub struct TaskInfo {
    pub status: TaskStatus,
    pub syscall_times: [u32; MAX_SYSCALL_NUM],
    pub time: usize,
}

/// The exit syscall: accounts the call, retires the current task and
/// schedules its successor.  `Some` carries the switch to perform; `None`
/// means every task has exited — the caller must halt the kernel with the
/// "all applications completed" diagnostic, for in this core that
/// condition is fatal.  The exit code itself is only reported at the trap
/// edge.
pub fn sys_exit(tm: &mut TaskManager, _exit_code: i32, now: usize) -> (r: Option<(usize, usize)>)
    requires
        old(tm).wf(),
        old(tm).current_running(),
        old(tm).tasks()[old(tm).current()].syscall_times@[SYSCALL_EXIT as int] < u32::MAX,
    ensures
        final(tm).wf(),
        final(tm).app_cnt == old(tm).app_cnt,
        ({
            let pre = old(tm).tasks();
            let cur = old(tm).current();
            let marked = with_status(pre, cur, TaskStatus::Exited);
            match r {
                Some((from, to)) => {
                    &&& from == cur
                    &&& next_ready(marked, cur, old(tm).app_cnt as int) == Some(to as int)
                    &&& final(tm).current() == to
                    &&& final(tm).current_running()
                    &&& final(tm).exactly_one_running()
                    &&& (forall|j: int|
                        0 <= j < pre.len() && j != cur && j != to ==> final(tm).tasks()[j] == pre[
                            j
                        ])
                    &&& final(tm).tasks()[to as int] == scheduled(pre, to as int, now)[to as int]
                    &&& final(tm).status(cur) == TaskStatus::Exited
                    &&& final(tm).tasks()[cur].cx == pre[cur].cx
                    &&& final(tm).tasks()[cur].first_scheduled_at == pre[cur].first_scheduled_at
                    &&& final(tm).tasks()[cur].syscall_times@ == pre[cur].syscall_times@.update(
                        SYSCALL_EXIT as int,
                        (pre[cur].syscall_times@[SYSCALL_EXIT as int] + 1) as u32,
                    )
                },
                None => {
                    &&& next_ready(marked, cur, old(tm).app_cnt as int) is None
                    &&& final(tm).current() == cur
                    &&& (forall|i: int|
                        0 <= i < final(tm).app_cnt ==> final(tm).status(i) == TaskStatus::Exited)
                    &&& (forall|j: int|
                        0 <= j < pre.len() && j != cur ==> final(tm).tasks()[j] == pre[j])
                    &&& final(tm).tasks()[cur].syscall_times@ == pre[cur].syscall_times@.update(
                        SYSCALL_EXIT as int,
                        (pre[cur].syscall_times@[SYSCALL_EXIT as int] + 1) as u32,
                    )
                },
            }
        }),
{
    tm.log_sys_call(SYSCALL_EXIT);
    proof {
        lemma_unchanged_statuses(*old(tm), *tm);
    }
    let ghost mid = *tm;
    let r = exit_current_and_run_next(tm, now);
    proof {
        let pre = old(tm).tasks();
        let cur = old(tm).current();
        let n = old(tm).app_cnt as int;
        let m_l = with_status(mid.tasks(), cur, TaskStatus::Exited);
        let m_p = with_status(pre, cur, TaskStatus::Exited);
        assert forall|i: int| 0 <= i < n implies m_l[i].status == m_p[i].status by {
            if i != cur {
                assert(mid.tasks()[i] == pre[i]);
            }
        }
        lemma_next_ready_statuses_only(m_l, m_p, cur, n, 1);
        match r {
            Some((from, to)) => {
                let to = to as int;
                lemma_next_ready_from_in_range(m_l, cur, n, 1);
                assert(m_l[to].status == TaskStatus::Ready);
                assert(to != cur);
                assert(tm.tasks() == scheduled(m_l, to, now));
                assert forall|j: int|
                    0 <= j < pre.len() && j != cur && j != to implies tm.tasks()[j] == pre[j] by {
                    assert(m_l[j] == mid.tasks()[j]);
                    assert(mid.tasks()[j] == pre[j]);
                }
                assert(m_l[to] == pre[to]);
                assert(tm.tasks()[cur] == m_l[cur]);
            },
            None => {
                assert(tm.tasks() == m_l);
                assert forall|j: int|
                    0 <= j < pre.len() && j != cur implies tm.tasks()[j] == pre[j] by {
                    assert(m_l[j] == mid.tasks()[j]);
                    assert(mid.tasks()[j] == pre[j]);
                }
            },
        }
    }
    r
}

/// The yield syscall: accounts the call, suspends the current task and
/// schedules its round-robin successor (possibly the same task again).
/// Returns the switch to perform and the syscall result `0`.
pub fn sys_yield(tm: &mut TaskManager, now: usize) -> (r: ((usize, usize), isize))
    requires
        old(tm).wf(),
        old(tm).current_running(),
        old(tm).tasks()[old(tm).current()].syscall_times@[SYSCALL_YIELD as int] < u32::MAX,
    ensures
        final(tm).wf(),
        final(tm).current_running(),
        final(tm).exactly_one_running(),
        final(tm).app_cnt == old(tm).app_cnt,
        r.1 == 0,
        r.0.0 == old(tm).current(),
        ({
            let pre = old(tm).tasks();
            let cur = old(tm).current();
            let to = r.0.1 as int;
            let marked = with_status(pre, cur, TaskStatus::Ready);
            &&& next_ready(marked, cur, old(tm).app_cnt as int) == Some(to)
            &&& final(tm).current() == to
            &&& (forall|j: int|
                0 <= j < pre.len() && j != cur && j != to ==> final(tm).tasks()[j] == pre[j])
            &&& final(tm).tasks()[cur].cx == pre[cur].cx
            &&& final(tm).tasks()[cur].syscall_times@ == pre[cur].syscall_times@.update(
                SYSCALL_YIELD as int,
                (pre[cur].syscall_times@[SYSCALL_YIELD as int] + 1) as u32,
            )
            &&& (to != cur ==> {
                &&& final(tm).status(cur) == TaskStatus::Ready
                &&& final(tm).tasks()[cur].first_scheduled_at == pre[cur].first_scheduled_at
                &&& final(tm).tasks()[to] == scheduled(pre, to, now)[to]
            })
            &&& (to == cur ==> {
                &&& final(tm).status(cur) == TaskStatus::Running
                &&& final(tm).tasks()[cur].first_scheduled_at == record_first(
                    pre[cur].first_scheduled_at,
                    now,
                )
            })
        }),
{
    tm.log_sys_call(SYSCALL_YIELD);
    proof {
        lemma_unchanged_statuses(*old(tm), *tm);
    }
    let ghost mid = *tm;
    let pair = suspend_current_and_run_next(tm, now);
    proof {
        let pre = old(tm).tasks();
        let cur = old(tm).current();
        let n = old(tm).app_cnt as int;
        let m_l = with_status(mid.tasks(), cur, TaskStatus::Ready);
        let m_p = with_status(pre, cur, TaskStatus::Ready);
        assert forall|i: int| 0 <= i < n implies m_l[i].status == m_p[i].status by {
            if i != cur {
                assert(mid.tasks()[i] == pre[i]);
            }
        }
        lemma_next_ready_statuses_only(m_l, m_p, cur, n, 1);
        let to = pair.1 as int;
        assert(tm.tasks() == scheduled(m_l, to, now));
        assert forall|j: int|
            0 <= j < pre.len() && j != cur && j != to implies tm.tasks()[j] == pre[j] by {
            assert(m_l[j] == mid.tasks()[j]);
            assert(mid.tasks()[j] == pre[j]);
        }
        if to != cur {
            assert(m_l[to] == pre[to]);
            assert(tm.tasks()[cur] == m_l[cur]);
        } else {
            assert(tm.tasks()[cur] == scheduled(m_l, cur, now)[cur]);
        }
    }
    (pair, 0)
}

/// The get-time syscall: accounts the call and decomposes the microsecond
/// clock reading into the second/microsecond pair the caller must write
/// to the (validated) output destination.  Always succeeds with result
/// `0`.
pub fn sys_get_time(tm: &mut TaskManager, now_us: usize) -> (r: (TimeVal, isize))
    requires
        old(tm).wf(),
        old(tm).current_running(),
        old(tm).tasks()[old(tm).current()].syscall_times@[SYSCALL_GET_TIME as int] < u32::MAX,
    ensures
        final(tm).wf(),
        final(tm).current_running(),
        final(tm).app_cnt == old(tm).app_cnt,
        final(tm).current() == old(tm).current(),
        rel_logged(
            old(tm).tasks(),
            final(tm).tasks(),
            old(tm).current(),
            SYSCALL_GET_TIME as int,
        ),
        r.0.sec == now_us / 1_000_000,
        r.0.usec == now_us % 1_000_000,
        r.1 == 0,
{
    tm.log_sys_call(SYSCALL_GET_TIME);
    proof {
        lemma_unchanged_statuses(*old(tm), *tm);
    }
    let tv = TimeVal { sec: now_us / 1_000_000, usec: now_us % 1_000_000 };
    (tv, 0)
}

/// The task-info syscall: accounts the call, then reports on the calling
/// task itself — the hardcoded `Running` status (the reference behavior
/// reports only on the caller, which is running), the full counter table
/// including this very call, and the running time since first scheduling.
/// Always succeeds with result `0`.
#[verifier::loop_isolation(false)]
pub fn sys_task_info(tm: &mut TaskManager, now: usize) -> (r: (TaskInfo, isize))
    requires
        old(tm).wf(),
        old(tm).current_running(),
        old(tm).tasks()[old(tm).current()].syscall_times@[SYSCALL_TASK_INFO as int] < u32::MAX,
        old(tm).tasks()[old(tm).current()].first_scheduled_at <= now,
    ensures
        final(tm).wf(),
        final(tm).current_running(),
        final(tm).app_cnt == old(tm).app_cnt,
        final(tm).current() == old(tm).current(),
        rel_logged(
            old(tm).tasks(),
            final(tm).tasks(),
            old(tm).current(),
            SYSCALL_TASK_INFO as int,
        ),
        r.0.status == TaskStatus::Running,
        r.0.time == now - old(tm).tasks()[old(tm).current()].first_scheduled_at,
        r.0.syscall_times@ == old(tm).tasks()[old(tm).current()].syscall_times@.update(
            SYSCALL_TASK_INFO as int,
            (old(tm).tasks()[old(tm).current()].syscall_times@[SYSCALL_TASK_INFO as int]
                + 1) as u32,
        ),
        r.1 == 0,
{
    tm.log_sys_call(SYSCALL_TASK_INFO);
    proof {
        lemma_unchanged_statuses(*old(tm), *tm);
    }
    let ghost mid = *tm;
    let time = tm.get_task_running_time(now);
    proof {
        lemma_unchanged_statuses(mid, *tm);
    }
    let ghost mid2 = *tm;
    let times = tm.get_task_syscall_times();
    proof {
        lemma_unchanged_statuses(mid2, *tm);
    }
    let mut table = [0u32; MAX_SYSCALL_NUM];
    let mut i: usize = 0;
    while i < MAX_SYSCALL_NUM
        invariant
            i <= MAX_SYSCALL_NUM,
            times@.len() == MAX_SYSCALL_NUM,
            forall|j: int| 0 <= j < i ==> table@[j] == times@[j],
        decreases MAX_SYSCALL_NUM - i,
    {
        table[i] = times[i];
        i = i + 1;
    }
    proof {
        assert(table@ =~= times@);
    }
    let info = TaskInfo { status: TaskStatus::Running, syscall_times: table, time };
    (info, 0)
}

/// A step that changes no status and moves neither the current index nor
/// the task count keeps well-formedness and the single-runner invariant.
proof fn lemma_unchanged_statuses(pre: TaskManager, post: TaskManager)
    requires
        pre.wf(),
        pre.current_running(),
        post.app_cnt == pre.app_cnt,
        post.current() == pre.current(),
        post.tasks().len() == pre.tasks().len(),
        forall|i: int| 0 <= i < pre.tasks().len() && i != pre.current() ==> post.tasks()[i]
            == pre.tasks()[i],
        post.tasks()[pre.current()].status == pre.tasks()[pre.current()].status,
    ensures
        post.wf(),
        post.current_running(),
{
    assert forall|i: int| 0 <= i < post.app_cnt implies post.status(i) != TaskStatus::UnInit by {
        assert(pre.status(i) != TaskStatus::UnInit);
    }
    assert forall|j: int|
        0 <= j < post.app_cnt && j != post.current() implies post.status(j)
        != TaskStatus::Running by {
        assert(pre.status(j) != TaskStatus::Running);
    }
}

} // verus!
