use rsh::jobs::{Job, JobControl, JobError, JobState, JobUtils, Process, NO_PID};
use rsh::status::WaitStatus;

fn process(cmd: &str) -> Process {
    let argv: Vec<String> = cmd.split(' ').map(|s| s.to_string()).collect();
    let argv0 = argv[0].clone();
    Process::new(argv, argv0, cmd.to_string())
}

fn bound(cmd: &str, pid: i32) -> Process {
    let mut p = process(cmd);
    p.set_pid(pid);
    p
}

#[test]
fn a_new_process_is_not_forked() {
    let p = process("sleep 10");
    assert_eq!(p.pid, NO_PID);
    assert_eq!(p.pid, -1);
    assert_eq!(p.argv, vec!["sleep", "10"]);
    assert_eq!(p.argv0, "sleep");
    assert_eq!(p.cmd, "sleep 10");
    assert_eq!(p.status, None);
    assert!(p.is_alive());
    assert!(!p.is_stopped());
}

#[test]
fn create_job_numbers_from_one() {
    let mut jobs = JobControl::new();
    assert_eq!(jobs.len(), 0);
    assert!(jobs.get_current_job().is_none());
    let id = jobs.create_job(vec![process("sleep 10")], true).unwrap();
    assert_eq!(id, 1);
    assert_eq!(jobs.len(), 1);
    let job = jobs.job_by_id(1).unwrap();
    assert_eq!(job.state, JobState::Running);
    assert!(job.background);
    assert_eq!(job.stop_status, WaitStatus::StillAlive);
    assert!(!job.changed && !job.sigint && !job.waited && !job.used);
    assert_eq!(jobs.get_current_job().unwrap().job_id, 1);
    assert_eq!(jobs.create_job(vec![process("cat")], false).unwrap(), 2);
    assert_eq!(jobs.get_current_job().unwrap().job_id, 2);
}

#[test]
fn pid_index_follows_the_processes() {
    let mut jobs = JobControl::new();
    let a = jobs.create_job(vec![process("a"), process("b")], false).unwrap();
    let b = jobs.create_job(vec![bound("c", 30)], false).unwrap();
    assert!(jobs.job_by_pid(10).is_none());
    assert!(jobs.job_by_pid(NO_PID).is_none());
    assert_eq!(jobs.job_by_pid(30).unwrap().job_id, b);
    assert!(jobs.update_pid_table(a, 10));
    assert!(jobs.update_pid_table(a, 11));
    assert_eq!(jobs.job_by_pid(10).unwrap().job_id, a);
    assert_eq!(jobs.job_by_pid(11).unwrap().job_id, a);
    let pids: Vec<i32> = jobs.job_by_id(a).unwrap().processes.iter().map(|p| p.pid).collect();
    assert_eq!(pids, vec![10, 11]);
    for p in [10, 11, 30, 12, 0] {
        for id in [a, b] {
            let in_job = jobs.job_by_id(id).unwrap().processes.iter().any(|q| q.pid == p);
            let indexed = jobs.job_by_pid(p).map(|j| j.job_id) == Some(id);
            assert_eq!(in_job, indexed);
        }
    }
    jobs.delete_job_by_id(a);
    assert!(jobs.job_by_pid(10).is_none());
    assert!(jobs.job_by_pid(11).is_none());
    assert_eq!(jobs.job_by_pid(30).unwrap().job_id, b);
}

#[test]
fn update_pid_table_refuses_what_breaks_the_index() {
    let mut jobs = JobControl::new();
    let a = jobs.create_job(vec![process("a")], false).unwrap();
    let b = jobs.create_job(vec![process("b")], false).unwrap();
    assert!(!jobs.update_pid_table(a, NO_PID));
    assert!(!jobs.update_pid_table(7, 10));
    assert!(jobs.update_pid_table(a, 10));
    assert!(!jobs.update_pid_table(a, 11));
    assert!(!jobs.update_pid_table(b, 10));
    assert!(jobs.update_pid_table(b, 11));
    assert_eq!(jobs.job_by_pid(10).unwrap().job_id, a);
    assert_eq!(jobs.job_by_pid(11).unwrap().job_id, b);
}

#[test]
fn create_job_refuses_a_process_id_in_use() {
    let mut jobs = JobControl::new();
    jobs.create_job(vec![bound("a", 5)], false).unwrap();
    assert_eq!(jobs.create_job(vec![process("b"), bound("c", 5)], false), Err(JobError::PidInUse));
    assert_eq!(jobs.len(), 1);
    assert_eq!(jobs.create_job(vec![bound("d", 6), bound("e", 6)], false), Ok(2));
}

#[test]
fn job_state_follows_its_processes() {
    let mut jobs = JobControl::new();
    let id = jobs.create_job(vec![bound("a", 1), bound("b", 2)], false).unwrap();
    assert_eq!(jobs.set_process_status(1, WaitStatus::Exited(1, 3)), Some(id));
    let job = jobs.job_by_id(id).unwrap();
    assert_eq!(job.state, JobState::Running);
    assert_eq!(job.stop_status, WaitStatus::Exited(1, 3));
    assert!(!job.changed);
    assert_eq!(jobs.set_process_status(2, WaitStatus::Stopped(2, 20)), Some(id));
    let job = jobs.job_by_id(id).unwrap();
    assert_eq!(job.state, JobState::Stopped);
    assert!(job.changed);
    assert_eq!(job.stop_status, WaitStatus::Exited(1, 3));
    assert_eq!(jobs.set_process_status(2, WaitStatus::Signaled(2, 9, false)), Some(id));
    assert_eq!(jobs.job_by_id(id).unwrap().state, JobState::Finished);
    assert_eq!(jobs.set_process_status(99, WaitStatus::Exited(99, 0)), None);
    assert_eq!(jobs.job_by_id(id).unwrap().compute_state(), JobState::Finished);
}

#[test]
fn continued_and_untold_processes_count_as_running() {
    let mut jobs = JobControl::new();
    let id = jobs.create_job(vec![bound("a", 1)], false).unwrap();
    jobs.set_process_status(1, WaitStatus::Continued(1));
    assert_eq!(jobs.job_by_id(id).unwrap().state, JobState::Running);
    jobs.set_process_status(1, WaitStatus::StillAlive);
    assert_eq!(jobs.job_by_id(id).unwrap().state, JobState::Running);
    let empty = Job::new(Vec::new(), 9, false);
    assert_eq!(empty.state, JobState::Running);
    assert_eq!(empty.compute_state(), JobState::Finished);
}

#[test]
fn a_stopped_job_is_never_deleted() {
    let mut jobs = JobControl::new();
    let id = jobs.create_job(vec![bound("a", 1)], false).unwrap();
    jobs.set_process_status(1, WaitStatus::Stopped(1, 20));
    jobs.delete_job_by_id(id);
    let job = jobs.job_by_id(id).unwrap();
    assert_eq!(job.state, JobState::Stopped);
    assert_eq!(job.stop_status, WaitStatus::Stopped(1, 20));
    assert_eq!(jobs.job_by_pid(1).unwrap().job_id, id);
    jobs.delete_job_by_pid(1);
    assert_eq!(jobs.len(), 1);
    jobs.set_process_status(1, WaitStatus::Exited(1, 0));
    jobs.delete_job_by_pid(1);
    assert_eq!(jobs.len(), 0);
    assert!(jobs.job_by_pid(1).is_none());
}

#[test]
fn job_numbers_rise_until_the_table_is_empty() {
    let mut jobs = JobControl::new();
    assert_eq!(jobs.create_job(vec![process("a")], false), Ok(1));
    assert_eq!(jobs.create_job(vec![process("b")], false), Ok(2));
    assert_eq!(jobs.create_job(vec![process("c")], false), Ok(3));
    jobs.delete_job_by_id(3);
    assert_eq!(jobs.create_job(vec![process("d")], false), Ok(4));
    jobs.delete_job_by_id(1);
    jobs.delete_job_by_id(2);
    jobs.delete_job_by_id(9);
    assert_eq!(jobs.len(), 1);
    jobs.delete_job_by_id(4);
    assert_eq!(jobs.len(), 0);
    assert_eq!(jobs.create_job(vec![process("e")], false), Ok(1));
}

#[test]
fn the_current_job_prefers_stopped_jobs() {
    let mut jobs = JobControl::new();
    let a = jobs.create_job(vec![bound("a", 1)], false).unwrap();
    let b = jobs.create_job(vec![bound("b", 2)], false).unwrap();
    assert_eq!(jobs.get_current_job().unwrap().job_id, b);
    jobs.set_process_status(1, WaitStatus::Stopped(1, 20));
    assert_eq!(jobs.get_current_job().unwrap().job_id, a);
    let c = jobs.create_job(vec![bound("c", 3)], false).unwrap();
    assert_eq!(jobs.get_current_job().unwrap().job_id, a);
    jobs.set_current_job(c);
    assert_eq!(jobs.get_current_job().unwrap().job_id, a);
    jobs.set_process_status(2, WaitStatus::Stopped(2, 20));
    assert_eq!(jobs.get_current_job().unwrap().job_id, b);
    jobs.set_current_job(a);
    assert_eq!(jobs.get_current_job().unwrap().job_id, a);
    jobs.resume_job(a, true);
    assert_eq!(jobs.get_current_job().unwrap().job_id, b);
    jobs.resume_job(b, true);
    assert_eq!(jobs.get_current_job().unwrap().job_id, c);
    jobs.set_current_job(a);
    assert_eq!(jobs.get_current_job().unwrap().job_id, c);
    jobs.set_process_status(3, WaitStatus::Exited(3, 0));
    jobs.delete_job_by_id(c);
    assert_eq!(jobs.get_current_job().unwrap().job_id, b);
}

#[test]
fn resume_forgets_the_stops_and_names_the_processes() {
    let mut jobs = JobControl::new();
    let id = jobs.create_job(vec![bound("a", 1), process("b"), bound("c", 3)], false).unwrap();
    jobs.set_process_status(1, WaitStatus::Exited(1, 0));
    jobs.set_process_status(3, WaitStatus::Stopped(3, 20));
    assert_eq!(jobs.resume_job(id, true), Some(vec![1, 3]));
    let job = jobs.job_by_id(id).unwrap();
    assert_eq!(job.state, JobState::Running);
    assert!(job.background);
    assert_eq!(job.processes[0].status, Some(WaitStatus::Exited(1, 0)));
    assert_eq!(job.processes[2].status, None);
    assert_eq!(jobs.resume_job(42, false), None);
    assert_eq!(jobs.resume_job(id, false), Some(vec![1, 3]));
    assert!(!jobs.job_by_id(id).unwrap().background);
}

#[test]
fn background_jobs_tells_of_their_absence() {
    let mut jobs = JobControl::new();
    assert!(jobs.background_jobs());
    let a = jobs.create_job(vec![process("a")], false).unwrap();
    assert!(jobs.background_jobs());
    assert!(!jobs.is_background_job(a));
    let b = jobs.create_job(vec![process("b")], true).unwrap();
    assert!(!jobs.background_jobs());
    assert!(jobs.is_background_job(b));
    assert!(!jobs.is_background_job(77));
    jobs.delete_job_by_id(b);
    assert!(jobs.background_jobs());
}

#[test]
fn clear_completed_jobs_forgets_the_finished() {
    let mut jobs = JobControl::new();
    let a = jobs.create_job(vec![bound("a", 1)], false).unwrap();
    let b = jobs.create_job(vec![bound("b", 2)], false).unwrap();
    let c = jobs.create_job(vec![bound("c", 3)], false).unwrap();
    jobs.set_process_status(1, WaitStatus::Exited(1, 0));
    jobs.set_process_status(3, WaitStatus::Signaled(3, 15, true));
    jobs.clear_completed_jobs();
    assert_eq!(jobs.len(), 1);
    assert!(jobs.job_by_id(a).is_none());
    assert!(jobs.job_by_id(c).is_none());
    assert_eq!(jobs.job_at(0).job_id, b);
    assert!(jobs.job_by_pid(1).is_none() && jobs.job_by_pid(3).is_none());
}

#[test]
fn job_lines_and_listing() {
    let mut jobs = JobControl::new();
    jobs.create_job(vec![process("sleep 10")], true).unwrap();
    jobs.create_job(vec![process("ls -l"), process("grep x"), process("wc")], false).unwrap();
    jobs.create_job(Vec::new(), false).unwrap();
    assert_eq!(jobs.job_by_id(1).unwrap().to_string(), "Running sleep 10 &");
    assert_eq!(jobs.job_by_id(2).unwrap().to_string(), "Running ls -l | grep x | wc");
    assert_eq!(jobs.job_by_id(3).unwrap().to_string(), "Running ");
    assert_eq!(
        jobs.display("+ "),
        "[1] + Running sleep 10 &\n[2] + Running ls -l | grep x | wc\n[3] + Running \n"
    );
    assert_eq!(JobControl::new().display("+ "), "");
}

#[test]
fn job_state_words() {
    assert_eq!(JobState::Waiting.as_str(), "Waiting");
    assert_eq!(JobState::Running.as_str(), "Running");
    assert_eq!(JobState::Finished.as_str(), "Done");
    assert_eq!(JobState::Stopped.as_str(), "Stopped");
}

#[test]
fn job_utils_take_a_number_or_a_process_id() {
    let mut jobs = JobControl::new();
    let id: usize = jobs.create_job(vec![bound("a", 1)], false).unwrap();
    let pid: i32 = 1;
    assert_eq!(jobs.get_job(id).unwrap().job_id, 1);
    assert_eq!(jobs.get_job(pid).unwrap().job_id, 1);
    jobs.delete_job(pid);
    assert!(jobs.get_job(id).is_none());
    let id: usize = jobs.create_job(vec![bound("b", 2)], false).unwrap();
    jobs.delete_job(id);
    let pid: i32 = 2;
    assert!(jobs.get_job(pid).is_none());
}

#[test]
fn job_control_switch() {
    let mut jobs = JobControl::new();
    assert!(!jobs.job_control());
    jobs.set_job_control(true);
    assert!(jobs.job_control());
}

#[test]
fn job_set_process_status_touches_the_first_match_only() {
    let mut job = Job::new(vec![bound("a", 4), bound("b", 4)], 1, false);
    assert!(job.set_process_status(4, WaitStatus::Exited(4, 1)));
    assert_eq!(job.borrow_processes()[0].status, Some(WaitStatus::Exited(4, 1)));
    assert_eq!(job.borrow_processes()[1].status, None);
    assert_eq!(job.state, JobState::Running);
    assert!(!job.set_process_status(5, WaitStatus::Exited(5, 1)));
    assert_eq!(job.find_pid(4), Some(0));
    assert_eq!(job.find_pid(5), None);
}

#[test]
fn a_report_moves_the_state_of_the_job() {
    let mut job = Job::new(vec![bound("a", 4)], 1, false);
    assert_eq!((job.state, job.changed), (JobState::Running, false));
    assert!(job.set_process_status(4, WaitStatus::Exited(4, 3)));
    assert_eq!(job.state, JobState::Finished);
    assert_eq!(job.stop_status, WaitStatus::Exited(4, 3));
    assert!(job.changed);
    let mut pair = Job::new(vec![bound("a", 5), bound("b", 6)], 2, true);
    assert!(pair.set_process_status(6, WaitStatus::Stopped(6, 20)));
    assert_eq!((pair.state, pair.changed), (JobState::Running, false));
    assert_eq!(pair.stop_status, WaitStatus::StillAlive);
    assert!(pair.set_process_status(5, WaitStatus::Exited(5, 0)));
    assert_eq!((pair.state, pair.changed), (JobState::Stopped, true));
    assert_eq!(pair.stop_status, WaitStatus::Exited(5, 0));
    assert!(!pair.set_process_status(7, WaitStatus::Exited(7, 0)));
    assert_eq!(pair.state, JobState::Stopped);
    assert!(pair.set_process_status(6, WaitStatus::Signaled(6, 9, false)));
    assert_eq!(pair.state, JobState::Finished);
}
