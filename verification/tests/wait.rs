use rsh::jobs::{JobControl, JobState, Process};
use rsh::status::WaitStatus;
use rsh::wait::{
    format_status, format_status_with, get_exit_status, sig_chld, WaitAction, WaitEvent, WaitLoop,
};

fn bound(cmd: &str, pid: i32) -> Process {
    let mut p = Process::new(vec![cmd.to_string()], cmd.to_string(), cmd.to_string());
    p.set_pid(pid);
    p
}

#[test]
fn wait_status_tells_its_process_and_exit_code() {
    assert_eq!(WaitStatus::Exited(5, 3).pid(), Some(5));
    assert_eq!(WaitStatus::Signaled(6, 9, true).pid(), Some(6));
    assert_eq!(WaitStatus::Stopped(7, 20).pid(), Some(7));
    assert_eq!(WaitStatus::PtraceEvent(8, 5, 1).pid(), Some(8));
    assert_eq!(WaitStatus::PtraceSyscall(9).pid(), Some(9));
    assert_eq!(WaitStatus::Continued(10).pid(), Some(10));
    assert_eq!(WaitStatus::StillAlive.pid(), None);
    assert_eq!(WaitStatus::Exited(5, 3).exit_code(), Some(3));
    assert_eq!(WaitStatus::Signaled(6, 9, false).exit_code(), Some(137));
    assert_eq!(WaitStatus::Signaled(6, 2, false).exit_code(), Some(130));
    assert_eq!(WaitStatus::Signaled(6, i32::MAX, false).exit_code(), Some(i32::MAX));
    assert_eq!(WaitStatus::Stopped(7, 20).exit_code(), None);
    assert_eq!(WaitStatus::StillAlive.exit_code(), None);
    assert!(WaitStatus::Exited(1, 0).terminal() && WaitStatus::Signaled(1, 1, false).terminal());
    assert!(!WaitStatus::Stopped(1, 19).terminal());
    assert!(WaitStatus::Stopped(1, 19).stopped());
    assert!(!WaitStatus::Continued(1).stopped());
}

#[test]
fn the_exit_status_is_reported_as_an_exit() {
    assert_eq!(get_exit_status(0), WaitStatus::Exited(-1, 0));
    assert_eq!(get_exit_status(1), WaitStatus::Exited(-1, 1));
    assert_eq!(get_exit_status(3), WaitStatus::Exited(-1, 3));
    assert_eq!(get_exit_status(255), WaitStatus::Exited(-1, 255));
    assert_eq!(get_exit_status(-1), WaitStatus::Exited(-1, -1));
    assert_eq!(get_exit_status(1).exit_code(), Some(1));
}

#[test]
fn a_wait_without_a_job_makes_one_pass() {
    let mut jobs = JobControl::new();
    jobs.create_job(vec![bound("a", 1)], true).unwrap();
    let mut exit = 0x0200;
    let (mut w, first) = WaitLoop::begin(&jobs, None);
    assert_eq!(first, WaitAction::Reap { report: None });
    assert!(!w.block);
    assert_eq!(
        w.step(&mut jobs, &mut exit, WaitEvent::Reported(WaitStatus::Exited(1, 4))),
        WaitAction::Reap { report: None }
    );
    assert_eq!(jobs.job_by_id(1).unwrap().state, JobState::Finished);
    assert_eq!(
        w.step(&mut jobs, &mut exit, WaitEvent::StillAlive),
        WaitAction::Done(Some(WaitStatus::Exited(-1, 0x0200)))
    );
    assert_eq!(exit, 0x0200);
    assert_eq!(jobs.len(), 1);
}

#[test]
fn a_wait_for_a_job_blocks_until_it_left_running() {
    let mut jobs = JobControl::new();
    let other = jobs.create_job(vec![bound("o", 9)], true).unwrap();
    let id = jobs.create_job(vec![bound("a", 1), bound("b", 2)], false).unwrap();
    let mut exit = 0;
    let (mut w, first) = WaitLoop::begin(&jobs, Some(id));
    assert_eq!(first, WaitAction::Reap { report: None });
    assert!(w.block);
    assert_eq!(w.step(&mut jobs, &mut exit, WaitEvent::StillAlive), WaitAction::Sleep);
    assert_eq!(w.step(&mut jobs, &mut exit, WaitEvent::Woken), WaitAction::Reap { report: None });
    assert_eq!(
        w.step(&mut jobs, &mut exit, WaitEvent::Interrupted),
        WaitAction::Reap { report: None }
    );
    let s9 = WaitStatus::Exited(9, 1);
    assert_eq!(
        w.step(&mut jobs, &mut exit, WaitEvent::Reported(s9)),
        WaitAction::Reap { report: None }
    );
    assert!(w.block);
    let s1 = WaitStatus::Exited(1, 7);
    assert_eq!(
        w.step(&mut jobs, &mut exit, WaitEvent::Reported(s1)),
        WaitAction::Reap { report: Some(s1) }
    );
    assert!(w.block);
    assert_eq!(w.step(&mut jobs, &mut exit, WaitEvent::StillAlive), WaitAction::Sleep);
    let s2 = WaitStatus::Exited(2, 0);
    assert_eq!(
        w.step(&mut jobs, &mut exit, WaitEvent::Reported(s2)),
        WaitAction::Reap { report: Some(s2) }
    );
    assert!(!w.block);
    assert_eq!(
        w.step(&mut jobs, &mut exit, WaitEvent::StillAlive),
        WaitAction::Done(Some(WaitStatus::Exited(1, 7)))
    );
    assert_eq!(exit, 7);
    assert!(jobs.job_by_id(id).is_none());
    assert!(jobs.job_by_id(other).is_some());
}

#[test]
fn a_stopped_job_ends_the_wait_and_stays() {
    let mut jobs = JobControl::new();
    let id = jobs.create_job(vec![bound("a", 1)], false).unwrap();
    let mut exit = 5;
    let (mut w, _) = WaitLoop::begin(&jobs, Some(id));
    let stop = WaitStatus::Stopped(1, 20);
    assert_eq!(
        w.step(&mut jobs, &mut exit, WaitEvent::Reported(stop)),
        WaitAction::Reap { report: Some(stop) }
    );
    assert_eq!(w.step(&mut jobs, &mut exit, WaitEvent::StillAlive), WaitAction::Done(Some(stop)));
    assert_eq!(exit, 5);
    assert_eq!(jobs.job_by_id(id).unwrap().state, JobState::Stopped);
    assert_eq!(jobs.get_current_job().unwrap().job_id, id);
}

#[test]
fn a_killed_job_leaves_128_plus_the_signal() {
    let mut jobs = JobControl::new();
    let id = jobs.create_job(vec![bound("a", 1)], false).unwrap();
    let mut exit = 0;
    let (mut w, _) = WaitLoop::begin(&jobs, Some(id));
    let s = WaitStatus::Signaled(1, 15, false);
    w.step(&mut jobs, &mut exit, WaitEvent::Reported(s));
    assert_eq!(w.step(&mut jobs, &mut exit, WaitEvent::Failed), WaitAction::Done(Some(s)));
    assert_eq!(exit, 143);
    assert_eq!(jobs.len(), 0);
}

#[test]
fn a_wait_for_a_job_that_is_gone_ends_at_once() {
    let mut jobs = JobControl::new();
    let mut exit = 3;
    let (mut w, _) = WaitLoop::begin(&jobs, Some(4));
    assert!(!w.block);
    assert_eq!(w.step(&mut jobs, &mut exit, WaitEvent::StillAlive), WaitAction::Done(None));
    assert_eq!(w.step(&mut jobs, &mut exit, WaitEvent::Reported(WaitStatus::StillAlive)), WaitAction::Done(None));
    assert_eq!(exit, 3);
}

#[test]
fn status_lines_name_the_signal() {
    let mut jobs = JobControl::new();
    jobs.create_job(vec![bound("sleep", 1)], true).unwrap();
    let job = jobs.job_by_id(1).unwrap();
    assert_eq!(
        format_status_with(job, "+ ", WaitStatus::Signaled(1, 2, true), "SIGINT", true).unwrap(),
        "[1] + \t\tRunning sleep & (SIGINT) (core dumped)"
    );
    assert_eq!(
        format_status_with(job, "+ ", WaitStatus::Stopped(1, 20), "SIGTSTP", true).unwrap(),
        "[1] + \t\tRunning sleep & (SIGTSTP)"
    );
    assert_eq!(format_status_with(job, "+ ", WaitStatus::Exited(1, 0), "", true), None);
    assert_eq!(
        format_status_with(job, "+ ", WaitStatus::Exited(1, 0), "", false).unwrap(),
        "[1] + \t\tRunning sleep & "
    );
    assert_eq!(format_status_with(job, "+ ", WaitStatus::Continued(1), "", false), None);
    assert_eq!(
        format_status(&jobs, "+ ", WaitStatus::Signaled(1, 2, false), true).unwrap(),
        "[1] + \t\tRunning sleep & (SIGINT)"
    );
    assert_eq!(
        format_status(&jobs, "> ", WaitStatus::Stopped(1, 15), true).unwrap(),
        "[1] > \t\tRunning sleep & (SIGTERM)"
    );
    assert_eq!(format_status(&jobs, "+ ", WaitStatus::Signaled(2, 2, false), true), None);
    assert_eq!(format_status(&jobs, "+ ", WaitStatus::Exited(1, 0), true), None);
    assert_eq!(format_status(&jobs, "+ ", WaitStatus::StillAlive, false), None);
}

#[test]
fn the_child_handler_records_and_reports() {
    let mut jobs = JobControl::new();
    let fg = jobs.create_job(vec![bound("f", 1)], false).unwrap();
    let single = jobs.create_job(vec![bound("s", 2)], true).unwrap();
    let many = jobs.create_job(vec![bound("m", 3), bound("n", 4)], true).unwrap();
    let n = sig_chld(&mut jobs, WaitStatus::Exited(1, 0));
    assert!(n.message.is_none() && n.wait_for.is_none());
    assert_eq!(jobs.job_by_id(fg).unwrap().state, JobState::Finished);
    let n = sig_chld(&mut jobs, WaitStatus::Signaled(3, 9, false));
    assert_eq!(n.message.as_deref(), Some("Job [3] (3) terminated by signal"));
    assert_eq!(n.wait_for, Some(many));
    let n = sig_chld(&mut jobs, WaitStatus::Stopped(2, 20));
    assert_eq!(n.message.as_deref(), Some("Job [2] (2) stopped by signal"));
    assert_eq!(n.wait_for, None);
    assert_eq!(jobs.job_by_id(single).unwrap().state, JobState::Stopped);
    let n = sig_chld(&mut jobs, WaitStatus::Exited(2, 0));
    assert!(n.message.is_none() && n.wait_for.is_none());
    assert!(jobs.job_by_id(single).is_none());
    let n = sig_chld(&mut jobs, WaitStatus::Exited(77, 0));
    assert!(n.message.is_none() && n.wait_for.is_none());
    let n = sig_chld(&mut jobs, WaitStatus::Continued(4));
    assert!(n.message.is_none() && n.wait_for.is_none());
    assert_eq!(jobs.len(), 2);
}
