use oscore::config::{MAX_APP_NUM, MAX_SYSCALL_NUM, SYSCALL_EXIT, SYSCALL_GET_TIME,
    SYSCALL_TASK_INFO, SYSCALL_YIELD};
use oscore::sync::UPSafeCell;
use oscore::syscall::{sys_exit, sys_get_time, sys_task_info, sys_yield};
use oscore::task::{exit_current_and_run_next, init_task_manager, run_first_task,
    suspend_current_and_run_next, TaskStatus};

const RESTORE: usize = 0x8020_0000;

fn three_task_manager() -> oscore::task::TaskManager {
    init_task_manager(RESTORE, &vec![0x1000, 0x2000, 0x3000])
}

#[test]
fn up_safe_cell_grants_exclusive_access() {
    let mut cell = UPSafeCell::new(41usize);
    let v = cell.as_mut();
    *v += 1;
    assert_eq!(*cell.as_mut(), 42);
}

#[test]
fn init_loads_every_task_ready() {
    let mut tm = three_task_manager();
    assert_eq!(tm.app_cnt, 3);
    let inner = tm.inner.as_mut();
    assert_eq!(inner.current_task, 0);
    for i in 0..3 {
        assert_eq!(inner.tasks[i].status, TaskStatus::Ready);
        assert_eq!(inner.tasks[i].cx.ra, RESTORE);
        assert_eq!(inner.tasks[i].first_scheduled_at, 0);
        for c in 0..MAX_SYSCALL_NUM {
            assert_eq!(inner.tasks[i].syscall_times[c], 0);
        }
    }
    assert_eq!(inner.tasks[0].cx.sp, 0x1000);
    assert_eq!(inner.tasks[1].cx.sp, 0x2000);
    assert_eq!(inner.tasks[2].cx.sp, 0x3000);
    for i in 3..MAX_APP_NUM {
        assert_eq!(inner.tasks[i].status, TaskStatus::UnInit);
    }
}

#[test]
fn first_task_is_the_single_runner() {
    let mut tm = three_task_manager();
    run_first_task(&mut tm, 77);
    let inner = tm.inner.as_mut();
    assert_eq!(inner.tasks[0].status, TaskStatus::Running);
    assert_eq!(inner.tasks[0].first_scheduled_at, 77);
    let running = (0..3).filter(|&i| inner.tasks[i].status == TaskStatus::Running).count();
    assert_eq!(running, 1);
}

#[test]
fn round_robin_considers_slots_in_forward_wrapping_order() {
    // Candidate order from current_task = 2 with three tasks is [0, 1, 2].
    let mut tm = three_task_manager();
    {
        let inner = tm.inner.as_mut();
        inner.current_task = 2;
        inner.tasks[2].status = TaskStatus::Running;
    }
    assert_eq!(tm.find_next_task_index(), Some(0));
    tm.inner.as_mut().tasks[0].status = TaskStatus::Exited;
    assert_eq!(tm.find_next_task_index(), Some(1));
    tm.inner.as_mut().tasks[1].status = TaskStatus::Exited;
    // Slot 2 is Running, not Ready, so nothing is selectable.
    assert_eq!(tm.find_next_task_index(), None);
}

#[test]
fn exited_task_is_never_selected_again() {
    let mut tm = three_task_manager();
    run_first_task(&mut tm, 10);
    let r = sys_exit(&mut tm, 0, 11);
    assert_eq!(r, Some((0, 1)));
    // Task 0 is gone for good: every later scheduling decision skips it.
    let (from, to) = suspend_current_and_run_next(&mut tm, 12);
    assert_eq!((from, to), (1, 2));
    let (from, to) = suspend_current_and_run_next(&mut tm, 13);
    assert_eq!((from, to), (2, 1));
    assert_eq!(tm.inner.as_mut().tasks[0].status, TaskStatus::Exited);
}

#[test]
fn exhaustion_reports_all_applications_completed() {
    let mut tm = init_task_manager(RESTORE, &vec![0x1000, 0x2000]);
    {
        let inner = tm.inner.as_mut();
        inner.tasks[0].status = TaskStatus::Exited;
        inner.tasks[1].status = TaskStatus::Exited;
    }
    // No task is Ready any more: the scheduler signals the fatal condition
    // instead of selecting anything.
    assert_eq!(tm.run_next_task(99), None);
}

#[test]
fn exit_of_last_task_is_fatal() {
    let mut tm = init_task_manager(RESTORE, &vec![0x1000, 0x2000]);
    run_first_task(&mut tm, 1);
    assert_eq!(exit_current_and_run_next(&mut tm, 2), Some((0, 1)));
    assert_eq!(exit_current_and_run_next(&mut tm, 3), None);
    let inner = tm.inner.as_mut();
    assert_eq!(inner.tasks[0].status, TaskStatus::Exited);
    assert_eq!(inner.tasks[1].status, TaskStatus::Exited);
}

#[test]
fn logging_touches_only_the_current_slot() {
    let mut tm = three_task_manager();
    run_first_task(&mut tm, 5);
    tm.log_sys_call(SYSCALL_YIELD);
    tm.log_sys_call(SYSCALL_YIELD);
    tm.log_sys_call(SYSCALL_EXIT);
    let inner = tm.inner.as_mut();
    for i in 0..3 {
        for c in 0..MAX_SYSCALL_NUM {
            let expected = if i == 0 && c == SYSCALL_YIELD {
                2
            } else if i == 0 && c == SYSCALL_EXIT {
                1
            } else {
                0
            };
            assert_eq!(inner.tasks[i].syscall_times[c], expected);
        }
    }
}

#[test]
fn yield_returns_zero_and_hands_on_the_processor() {
    let mut tm = three_task_manager();
    run_first_task(&mut tm, 20);
    let ((from, to), ret) = sys_yield(&mut tm, 21);
    assert_eq!(ret, 0);
    assert_eq!((from, to), (0, 1));
    let inner = tm.inner.as_mut();
    assert_eq!(inner.current_task, 1);
    assert_eq!(inner.tasks[0].status, TaskStatus::Ready);
    assert_eq!(inner.tasks[1].status, TaskStatus::Running);
    assert_eq!(inner.tasks[1].first_scheduled_at, 21);
    assert_eq!(inner.tasks[0].syscall_times[SYSCALL_YIELD], 1);
}

#[test]
fn single_task_yield_reschedules_itself() {
    let mut tm = init_task_manager(RESTORE, &vec![0x1000]);
    run_first_task(&mut tm, 5);
    let ((from, to), ret) = sys_yield(&mut tm, 9);
    assert_eq!(ret, 0);
    assert_eq!((from, to), (0, 0));
    let inner = tm.inner.as_mut();
    assert_eq!(inner.tasks[0].status, TaskStatus::Running);
    assert_eq!(inner.tasks[0].first_scheduled_at, 5);
}

#[test]
fn running_time_counts_from_first_scheduling() {
    let mut tm = init_task_manager(RESTORE, &vec![0x1000, 0x2000]);
    run_first_task(&mut tm, 100);
    assert_eq!(tm.get_task_running_time(150), 50);
    // Task 0 yields; task 1 is scheduled for the first time at tick 160.
    suspend_current_and_run_next(&mut tm, 160);
    assert_eq!(tm.get_task_running_time(200), 40);
    // Task 1 yields; task 0 resumes, its first-scheduled tick untouched.
    suspend_current_and_run_next(&mut tm, 210);
    assert_eq!(tm.inner.as_mut().current_task, 0);
    assert_eq!(tm.inner.as_mut().tasks[0].first_scheduled_at, 100);
    assert_eq!(tm.get_task_running_time(250), 150);
}

#[test]
fn rescheduling_never_overwrites_the_first_timestamp() {
    let mut tm = init_task_manager(RESTORE, &vec![0x1000, 0x2000]);
    run_first_task(&mut tm, 30);
    suspend_current_and_run_next(&mut tm, 40);
    suspend_current_and_run_next(&mut tm, 50);
    let inner = tm.inner.as_mut();
    assert_eq!(inner.current_task, 0);
    assert_eq!(inner.tasks[0].status, TaskStatus::Running);
    assert_eq!(inner.tasks[0].first_scheduled_at, 30);
    assert_eq!(inner.tasks[1].first_scheduled_at, 40);
}

#[test]
fn get_time_decomposes_microseconds() {
    let mut tm = three_task_manager();
    run_first_task(&mut tm, 1);
    let (tv, ret) = sys_get_time(&mut tm, 3_456_789);
    assert_eq!(ret, 0);
    assert_eq!(tv.sec, 3);
    assert_eq!(tv.usec, 456_789);
    assert_eq!(tm.inner.as_mut().tasks[0].syscall_times[SYSCALL_GET_TIME], 1);
}

#[test]
fn task_info_reports_the_caller_including_this_call() {
    let mut tm = three_task_manager();
    run_first_task(&mut tm, 100);
    let ((_, _), _) = sys_yield(&mut tm, 110);  // task 1 now current
    let (info, ret) = sys_task_info(&mut tm, 150);
    assert_eq!(ret, 0);
    assert_eq!(info.status, TaskStatus::Running);
    assert_eq!(info.time, 40);  // task 1 first scheduled at 110
    assert_eq!(info.syscall_times[SYSCALL_TASK_INFO], 1);
    assert_eq!(info.syscall_times[SYSCALL_YIELD], 0);
    // The snapshot belongs to the caller only: task 0's yield stays on
    // task 0's table.
    assert_eq!(tm.inner.as_mut().tasks[0].syscall_times[SYSCALL_YIELD], 1);
}

#[test]
fn syscall_counters_survive_task_switches() {
    let mut tm = three_task_manager();
    run_first_task(&mut tm, 1);
    sys_yield(&mut tm, 2);
    sys_yield(&mut tm, 3);
    sys_yield(&mut tm, 4);  // back to task 0
    assert_eq!(tm.inner.as_mut().current_task, 0);
    let (info, _) = sys_task_info(&mut tm, 5);
    assert_eq!(info.syscall_times[SYSCALL_YIELD], 1);
    assert_eq!(info.syscall_times[SYSCALL_TASK_INFO], 1);
}
